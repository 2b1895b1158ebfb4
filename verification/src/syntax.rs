//! Syntax trees: a flat table of nodes, parents before their children.
use vstd::prelude::*;

use crate::text::str_eq;

pub mod groups;
pub mod laws;

verus! {

/// The place of a node in its tree's table.
pub type NodeId = usize;

/// One node of a syntax tree. Its span is counted in characters and, apart from that, in bytes.
#[derive(Debug, PartialEq, Eq)]
pub struct SyntaxNode {
    pub kind: String,
    pub start: usize,
    pub end: usize,
    pub start_byte: usize,
    pub end_byte: usize,
    pub named: bool,
    pub extra: bool,
    pub missing: bool,
    /// The name of the field of the parent that this node fills.
    pub field: Option<String>,
    pub parent: Option<NodeId>,
    pub children: Vec<NodeId>,
    pub named_children: Vec<NodeId>,
}

/// A syntax tree of a text.
#[derive(Debug, PartialEq, Eq)]
pub struct SyntaxTree {
    pub nodes: Vec<SyntaxNode>,
}

impl SyntaxNode {
    /// Whether the links fit a node at place `n` of a table of `size` nodes.
    pub open spec fn placed(self, n: int, size: int) -> bool {
        &&& self.parent matches Some(p) ==> p < n
        &&& forall|i: int|
            0 <= i < self.children@.len() ==> n < (#[trigger] self.children@[i]) < size
        &&& forall|i: int|
            0 <= i < self.named_children@.len() ==> n < (#[trigger] self.named_children@[i]) < size
    }
}

/// What a [`SyntaxNode`] says.
pub struct NodeView {
    pub kind: Seq<char>,
    pub start: usize,
    pub end: usize,
    pub start_byte: usize,
    pub end_byte: usize,
    pub named: bool,
    pub extra: bool,
    pub missing: bool,
    pub field: Option<Seq<char>>,
    pub parent: Option<NodeId>,
    pub kids: Seq<NodeId>,
    pub named_kids: Seq<NodeId>,
}

impl DeepView for SyntaxNode {
    type V = NodeView;

    open spec fn deep_view(&self) -> NodeView {
        NodeView {
            kind: self.kind@,
            start: self.start,
            end: self.end,
            start_byte: self.start_byte,
            end_byte: self.end_byte,
            named: self.named,
            extra: self.extra,
            missing: self.missing,
            field: self.field.deep_view(),
            parent: self.parent,
            kids: self.children@,
            named_kids: self.named_children@,
        }
    }
}

impl DeepView for SyntaxTree {
    type V = Seq<NodeView>;

    open spec fn deep_view(&self) -> Seq<NodeView> {
        self.nodes.deep_view()
    }
}

/// Groups of node kinds that the analysis treats alike.
#[derive(Clone, Copy, Debug, PartialEq, Eq, Structural)]
pub enum KindClass {
    Identifier,
    NameLike,
    Comment,
    StringLike,
    Jump,
    Parameter,
    TypeDeclaration,
    AnnotationKind,
    MemberExpression,
    Container,
    LocationStop,
    AnnotationStop,
    StatementScope,
    TypeLike,
    TypeLikeOrIdentifier,
    CompleteType,
    VariableDeclaration,
    DeclarationLike,
    Receiver,
    ReceiverOrSuper,
    OperandHolder,
    LambdaParameters,
    RecoveredType,
    TypeArgumentList,
    Creation,
    MethodClassOrProgram,
    MethodClassOrBlock,
    MethodOrProgram,
    CodeContext,
    DeclarationOrProgram,
    InsideBrackets,
    TypeBody,
    /// Anything but identifiers and errors.
    NeitherNameNorError,
}

pub open spec fn is_type_like(k: Seq<char>) -> bool {
    ||| k == "type_identifier"@
    ||| k == "generic_type"@
    ||| k == "array_type"@
    ||| k == "scoped_type_identifier"@
    ||| k == "integral_type"@
    ||| k == "floating_point_type"@
    ||| k == "boolean_type"@
    ||| k == "void_type"@
    ||| k == "annotated_type"@
}

pub open spec fn is_receiver(k: Seq<char>) -> bool {
    ||| k == "method_invocation"@
    ||| k == "object_creation_expression"@
    ||| k == "field_access"@
    ||| k == "identifier"@
    ||| k == "this"@
}

impl KindClass {
    pub open spec fn has(self, k: Seq<char>) -> bool {
        match self {
            KindClass::Identifier => k == "identifier"@ || k == "type_identifier"@,
            KindClass::NameLike => k == "identifier"@ || k == "type_identifier"@ || k == "this"@
                || k == "super"@,
            KindClass::Comment => k == "line_comment"@ || k == "block_comment"@,
            KindClass::StringLike => k == "string_literal"@ || k == "text_block"@,
            KindClass::Jump => k == "break_statement"@ || k == "continue_statement"@,
            KindClass::Parameter => k == "formal_parameter"@ || k == "spread_parameter"@,
            KindClass::TypeDeclaration => {
                ||| k == "class_declaration"@
                ||| k == "interface_declaration"@
                ||| k == "enum_declaration"@
                ||| k == "annotation_type_declaration"@
                ||| k == "record_declaration"@
            },
            KindClass::AnnotationKind => k == "marker_annotation"@ || k == "annotation"@,
            KindClass::MemberExpression => k == "method_invocation"@ || k == "field_access"@,
            KindClass::Container => k == "block"@ || k == "class_body"@ || k == "program"@,
            KindClass::LocationStop => {
                ||| k == "block"@
                ||| k == "class_body"@
                ||| k == "program"@
                ||| k == "break_statement"@
                ||| k == "continue_statement"@
            },
            KindClass::AnnotationStop => k == "ERROR"@ || k == "class_body"@ || k == "block"@ || k
                == "program"@,
            KindClass::StatementScope => {
                ||| k == "block"@
                ||| k == "switch_block_statement_group"@
                ||| k == "switch_rule"@
                ||| k == "program"@
                ||| k == "method_declaration"@
                ||| k == "constructor_declaration"@
                ||| k == "compact_constructor_declaration"@
                ||| k == "lambda_expression"@
                ||| k == "class_body"@
            },
            KindClass::TypeLike => is_type_like(k),
            KindClass::TypeLikeOrIdentifier => is_type_like(k) || k == "identifier"@,
            KindClass::CompleteType => {
                ||| k == "type_identifier"@
                ||| k == "generic_type"@
                ||| k == "array_type"@
                ||| k == "scoped_type_identifier"@
                ||| k == "integral_type"@
                ||| k == "floating_point_type"@
                ||| k == "boolean_type"@
            },
            KindClass::VariableDeclaration => k == "local_variable_declaration"@ || k
                == "field_declaration"@,
            KindClass::DeclarationLike => {
                ||| k == "local_variable_declaration"@
                ||| k == "field_declaration"@
                ||| k == "ERROR"@
                ||| k == "expression_statement"@
            },
            KindClass::Receiver => is_receiver(k),
            KindClass::ReceiverOrSuper => is_receiver(k) || k == "super"@,
            KindClass::OperandHolder => k == "binary_expression"@ || k == "ternary_expression"@
                || k == "assignment_expression"@,
            KindClass::LambdaParameters => k == "identifier"@ || k == "inferred_parameters"@ || k
                == "formal_parameters"@,
            KindClass::RecoveredType => k == "generic_type"@ || k == "type_identifier"@ || k
                == "scoped_type_identifier"@ || k == "array_type"@,
            KindClass::TypeArgumentList => k == "type_arguments"@,
            KindClass::Creation => k == "object_creation_expression"@,
            KindClass::MethodClassOrProgram => {
                ||| k == "method_declaration"@
                ||| k == "class_declaration"@
                ||| k == "program"@
            },
            KindClass::MethodClassOrBlock => {
                ||| k == "method_declaration"@
                ||| k == "class_declaration"@
                ||| k == "block"@
            },
            KindClass::MethodOrProgram => {
                ||| k == "method_declaration"@
                ||| k == "program"@
            },
            KindClass::CodeContext => {
                ||| k == "expression_statement"@
                ||| k == "local_variable_declaration"@
                ||| k == "method_invocation"@
                ||| k == "field_access"@
                ||| k == "assignment_expression"@
                ||| k == "return_statement"@
                ||| k == "block"@
            },
            KindClass::DeclarationOrProgram => {
                ||| k == "class_declaration"@
                ||| k == "interface_declaration"@
                ||| k == "enum_declaration"@
                ||| k == "annotation_type_declaration"@
                ||| k == "program"@
            },
            KindClass::InsideBrackets => {
                ||| k == "formal_parameters"@
                ||| k == "argument_list"@
                ||| k == "type_arguments"@
                ||| k == "condition"@
                ||| k == "for_statement"@
                ||| k == "while_statement"@
                ||| k == "catch_clause"@
                ||| k == "parenthesized_expression"@
                ||| k == "array_access"@
                ||| k == "array_initializer"@
            },
            KindClass::TypeBody => {
                ||| k == "class_body"@
                ||| k == "interface_body"@
                ||| k == "enum_body"@
                ||| k == "enum_body_declarations"@
                ||| k == "annotation_type_body"@
            },
            KindClass::NeitherNameNorError => k != "identifier"@ && k != "type_identifier"@ && k
                != "ERROR"@,
        }
    }

    /// Whether the kind belongs to the group.
    pub fn test(self, k: &str) -> (r: bool)
        ensures
            r == self.has(k@),
    {
        match self {
            KindClass::Identifier => str_eq(k, "identifier") || str_eq(k, "type_identifier"),
            KindClass::NameLike => str_eq(k, "identifier") || str_eq(k, "type_identifier")
                || str_eq(k, "this") || str_eq(k, "super"),
            KindClass::Comment => str_eq(k, "line_comment") || str_eq(k, "block_comment"),
            KindClass::StringLike => str_eq(k, "string_literal") || str_eq(k, "text_block"),
            KindClass::Jump => str_eq(k, "break_statement") || str_eq(k, "continue_statement"),
            KindClass::Parameter => str_eq(k, "formal_parameter") || str_eq(k, "spread_parameter"),
            KindClass::TypeDeclaration => str_eq(k, "class_declaration")
                || str_eq(k, "interface_declaration") || str_eq(k, "enum_declaration")
                || str_eq(k, "annotation_type_declaration") || str_eq(k, "record_declaration"),
            KindClass::AnnotationKind => str_eq(k, "marker_annotation") || str_eq(k, "annotation"),
            KindClass::MemberExpression => str_eq(k, "method_invocation") || str_eq(
                k,
                "field_access",
            ),
            KindClass::Container => str_eq(k, "block") || str_eq(k, "class_body") || str_eq(
                k,
                "program",
            ),
            KindClass::LocationStop => str_eq(k, "block") || str_eq(k, "class_body") || str_eq(
                k,
                "program",
            ) || str_eq(k, "break_statement") || str_eq(k, "continue_statement"),
            KindClass::AnnotationStop => str_eq(k, "ERROR") || str_eq(k, "class_body") || str_eq(
                k,
                "block",
            ) || str_eq(k, "program"),
            KindClass::StatementScope => str_eq(k, "block")
                || str_eq(k, "switch_block_statement_group") || str_eq(k, "switch_rule")
                || str_eq(k, "program") || str_eq(k, "method_declaration")
                || str_eq(k, "constructor_declaration")
                || str_eq(k, "compact_constructor_declaration") || str_eq(k, "lambda_expression")
                || str_eq(k, "class_body"),
            KindClass::TypeLike => type_like(k),
            KindClass::TypeLikeOrIdentifier => type_like(k) || str_eq(k, "identifier"),
            KindClass::CompleteType => str_eq(k, "type_identifier") || str_eq(k, "generic_type")
                || str_eq(k, "array_type") || str_eq(k, "scoped_type_identifier")
                || str_eq(k, "integral_type") || str_eq(k, "floating_point_type")
                || str_eq(k, "boolean_type"),
            KindClass::VariableDeclaration => str_eq(k, "local_variable_declaration") || str_eq(
                k,
                "field_declaration",
            ),
            KindClass::DeclarationLike => str_eq(k, "local_variable_declaration") || str_eq(
                k,
                "field_declaration",
            ) || str_eq(k, "ERROR") || str_eq(k, "expression_statement"),
            KindClass::Receiver => receiver(k),
            KindClass::ReceiverOrSuper => receiver(k) || str_eq(k, "super"),
            KindClass::OperandHolder => str_eq(k, "binary_expression") || str_eq(
                k,
                "ternary_expression",
            ) || str_eq(k, "assignment_expression"),
            KindClass::LambdaParameters => str_eq(k, "identifier") || str_eq(
                k,
                "inferred_parameters",
            ) || str_eq(k, "formal_parameters"),
            KindClass::RecoveredType => str_eq(k, "generic_type") || str_eq(k, "type_identifier")
                || str_eq(k, "scoped_type_identifier") || str_eq(k, "array_type"),
            KindClass::TypeArgumentList => str_eq(k, "type_arguments"),
            KindClass::Creation => str_eq(k, "object_creation_expression"),
            KindClass::MethodClassOrProgram => str_eq(k, "method_declaration")
                || str_eq(k, "class_declaration") || str_eq(k, "program"),
            KindClass::MethodClassOrBlock => str_eq(k, "method_declaration")
                || str_eq(k, "class_declaration") || str_eq(k, "block"),
            KindClass::MethodOrProgram => str_eq(k, "method_declaration") || str_eq(k, "program"),
            KindClass::CodeContext => str_eq(k, "expression_statement")
                || str_eq(k, "local_variable_declaration") || str_eq(k, "method_invocation")
                || str_eq(k, "field_access") || str_eq(k, "assignment_expression")
                || str_eq(k, "return_statement") || str_eq(k, "block"),
            KindClass::DeclarationOrProgram => str_eq(k, "class_declaration")
                || str_eq(k, "interface_declaration") || str_eq(k, "enum_declaration")
                || str_eq(k, "annotation_type_declaration") || str_eq(k, "program"),
            KindClass::InsideBrackets => str_eq(k, "formal_parameters")
                || str_eq(k, "argument_list") || str_eq(k, "type_arguments")
                || str_eq(k, "condition") || str_eq(k, "for_statement")
                || str_eq(k, "while_statement") || str_eq(k, "catch_clause")
                || str_eq(k, "parenthesized_expression") || str_eq(k, "array_access")
                || str_eq(k, "array_initializer"),
            KindClass::TypeBody => str_eq(k, "class_body") || str_eq(k, "interface_body")
                || str_eq(k, "enum_body") || str_eq(k, "enum_body_declarations")
                || str_eq(k, "annotation_type_body"),
            KindClass::NeitherNameNorError => !str_eq(k, "identifier") && !str_eq(
                k,
                "type_identifier",
            ) && !str_eq(k, "ERROR"),
        }
    }
}

fn type_like(k: &str) -> (r: bool)
    ensures
        r == is_type_like(k@),
{
    str_eq(k, "type_identifier") || str_eq(k, "generic_type") || str_eq(k, "array_type")
        || str_eq(k, "scoped_type_identifier") || str_eq(k, "integral_type")
        || str_eq(k, "floating_point_type") || str_eq(k, "boolean_type") || str_eq(k, "void_type")
        || str_eq(k, "annotated_type")
}

fn receiver(k: &str) -> (r: bool)
    ensures
        r == is_receiver(k@),
{
    str_eq(k, "method_invocation") || str_eq(k, "object_creation_expression")
        || str_eq(k, "field_access") || str_eq(k, "identifier") || str_eq(k, "this")
}

// ---- reading the tree --------------------------------------------------------------------------

impl SyntaxTree {
    pub open spec fn has(&self, n: NodeId) -> bool {
        n < self.nodes@.len()
    }

    pub open spec fn node(&self, n: NodeId) -> SyntaxNode {
        self.nodes@[n as int]
    }

    pub open spec fn kind_of(&self, n: NodeId) -> Seq<char> {
        self.node(n).kind@
    }

    pub open spec fn start_of(&self, n: NodeId) -> int {
        self.node(n).start as int
    }

    pub open spec fn end_of(&self, n: NodeId) -> int {
        self.node(n).end as int
    }

    pub open spec fn start_byte_of(&self, n: NodeId) -> int {
        self.node(n).start_byte as int
    }

    pub open spec fn end_byte_of(&self, n: NodeId) -> int {
        self.node(n).end_byte as int
    }

    pub open spec fn parent_of(&self, n: NodeId) -> Option<NodeId> {
        self.node(n).parent
    }

    pub open spec fn kids(&self, n: NodeId) -> Seq<NodeId> {
        self.node(n).children@
    }

    pub open spec fn named_kids(&self, n: NodeId) -> Seq<NodeId> {
        self.node(n).named_children@
    }

    /// A list of nodes of this tree.
    pub open spec fn all_in(&self, ids: Seq<NodeId>) -> bool {
        forall|i: int| 0 <= i < ids.len() ==> self.has(#[trigger] ids[i])
    }

    /// Every parent comes before its children, and the named children are the children that are
    /// named.
    pub open spec fn linked(&self) -> bool {
        &&& forall|n: int|
            0 <= n < self.nodes@.len() ==> (#[trigger] self.nodes@[n]).placed(
                n,
                self.nodes@.len() as int,
            )
        &&& forall|n: NodeId|
            self.has(n) ==> #[trigger] self.named_kids(n) == self.kids(n).filter(
                |k: NodeId| self.node(k).named,
            )
    }

    /// Every span lies inside a text of `len` characters.
    pub open spec fn spans(&self, len: int) -> bool {
        forall|n: int|
            0 <= n < self.nodes@.len() ==> (#[trigger] self.nodes@[n]).start <= self.nodes@[n].end
                <= len
    }

    pub fn kind(&self, n: NodeId) -> (r: &str)
        requires
            self.has(n),
        ensures
            r@ == self.kind_of(n),
    {
        self.nodes[n].kind.as_str()
    }

    pub fn is_kind(&self, n: NodeId, kind: &str) -> (r: bool)
        requires
            self.has(n),
        ensures
            r == (self.kind_of(n) == kind@),
    {
        str_eq(self.nodes[n].kind.as_str(), kind)
    }

    pub fn is_in(&self, n: NodeId, class: KindClass) -> (r: bool)
        requires
            self.has(n),
        ensures
            r == class.has(self.kind_of(n)),
    {
        class.test(self.nodes[n].kind.as_str())
    }

    pub fn start(&self, n: NodeId) -> (r: usize)
        requires
            self.has(n),
        ensures
            r == self.start_of(n),
    {
        self.nodes[n].start
    }

    pub fn end(&self, n: NodeId) -> (r: usize)
        requires
            self.has(n),
        ensures
            r == self.end_of(n),
    {
        self.nodes[n].end
    }

    pub fn start_byte(&self, n: NodeId) -> (r: usize)
        requires
            self.has(n),
        ensures
            r == self.start_byte_of(n),
    {
        self.nodes[n].start_byte
    }

    pub fn end_byte(&self, n: NodeId) -> (r: usize)
        requires
            self.has(n),
        ensures
            r == self.end_byte_of(n),
    {
        self.nodes[n].end_byte
    }

    pub fn parent(&self, n: NodeId) -> (r: Option<NodeId>)
        requires
            self.has(n),
        ensures
            r == self.parent_of(n),
    {
        self.nodes[n].parent
    }

    pub fn children(&self, n: NodeId) -> (r: &[NodeId])
        requires
            self.has(n),
        ensures
            r@ == self.kids(n),
    {
        self.nodes[n].children.as_slice()
    }

    pub fn named_children(&self, n: NodeId) -> (r: &[NodeId])
        requires
            self.has(n),
        ensures
            r@ == self.named_kids(n),
    {
        self.nodes[n].named_children.as_slice()
    }

    // ---- searching lists of nodes --------------------------------------------------------------

    /// The first node of the given kind in `ids`, from place `i` on.
    pub open spec fn first_kind_from(&self, ids: Seq<NodeId>, kind: Seq<char>, i: int) -> Option<NodeId>
        decreases ids.len() - i,
    {
        if i < 0 || i >= ids.len() {
            None
        } else if self.kind_of(ids[i]) == kind {
            Some(ids[i])
        } else {
            self.first_kind_from(ids, kind, i + 1)
        }
    }

    /// The first node of the given kind in `ids`.
    pub open spec fn first_kind(&self, ids: Seq<NodeId>, kind: Seq<char>) -> Option<NodeId> {
        self.first_kind_from(ids, kind, 0)
    }

    pub fn first_of_kind(&self, ids: &[NodeId], kind: &str) -> (r: Option<NodeId>)
        requires
            self.all_in(ids@),
        ensures
            r == self.first_kind(ids@, kind@),
            r matches Some(k) ==> ids@.contains(k),
    {
        let mut i: usize = 0;
        while i < ids.len()
            invariant
                i <= ids@.len(),
                self.all_in(ids@),
                self.first_kind(ids@, kind@) == self.first_kind_from(ids@, kind@, i as int),
            decreases ids@.len() - i,
        {
            if self.is_kind(ids[i], kind) {
                assert(ids@.contains(ids@[i as int]));
                return Some(ids[i]);
            }
            i += 1;
        }
        None
    }

    /// The first node in `ids`, from place `i` on, whose kind is of the class.
    pub open spec fn first_class_from(
        &self,
        ids: Seq<NodeId>,
        class: KindClass,
        i: int,
    ) -> Option<NodeId>
        decreases ids.len() - i,
    {
        if i < 0 || i >= ids.len() {
            None
        } else if class.has(self.kind_of(ids[i])) {
            Some(ids[i])
        } else {
            self.first_class_from(ids, class, i + 1)
        }
    }

    /// The first node in `ids` whose kind is of the class.
    pub open spec fn first_class(&self, ids: Seq<NodeId>, class: KindClass) -> Option<NodeId> {
        self.first_class_from(ids, class, 0)
    }

    pub fn first_in_class(&self, ids: &[NodeId], class: KindClass) -> (r: Option<NodeId>)
        requires
            self.all_in(ids@),
        ensures
            r == self.first_class(ids@, class),
            r matches Some(k) ==> ids@.contains(k),
    {
        let mut i: usize = 0;
        while i < ids.len()
            invariant
                i <= ids@.len(),
                self.all_in(ids@),
                self.first_class(ids@, class) == self.first_class_from(ids@, class, i as int),
            decreases ids@.len() - i,
        {
            if self.is_in(ids[i], class) {
                assert(ids@.contains(ids@[i as int]));
                return Some(ids[i]);
            }
            i += 1;
        }
        None
    }

    /// The first node in `ids`, from place `i` on, that is not of the given kind.
    pub open spec fn first_other_from(&self, ids: Seq<NodeId>, kind: Seq<char>, i: int) -> Option<NodeId>
        decreases ids.len() - i,
    {
        if i < 0 || i >= ids.len() {
            None
        } else if self.kind_of(ids[i]) != kind {
            Some(ids[i])
        } else {
            self.first_other_from(ids, kind, i + 1)
        }
    }

    /// The first node in `ids` that is not of the given kind.
    pub open spec fn first_other(&self, ids: Seq<NodeId>, kind: Seq<char>) -> Option<NodeId> {
        self.first_other_from(ids, kind, 0)
    }

    pub fn first_not_of_kind(&self, ids: &[NodeId], kind: &str) -> (r: Option<NodeId>)
        requires
            self.all_in(ids@),
        ensures
            r == self.first_other(ids@, kind@),
            r matches Some(k) ==> ids@.contains(k),
    {
        let mut i: usize = 0;
        while i < ids.len()
            invariant
                i <= ids@.len(),
                self.all_in(ids@),
                self.first_other(ids@, kind@) == self.first_other_from(ids@, kind@, i as int),
            decreases ids@.len() - i,
        {
            if !self.is_kind(ids[i], kind) {
                assert(ids@.contains(ids@[i as int]));
                return Some(ids[i]);
            }
            i += 1;
        }
        None
    }

    /// The child that fills the named field of `n`.
    pub open spec fn field_from(&self, ids: Seq<NodeId>, name: Seq<char>, i: int) -> Option<NodeId>
        decreases ids.len() - i,
    {
        if i < 0 || i >= ids.len() {
            None
        } else if self.node(ids[i]).field is Some && self.node(ids[i]).field->0@ == name {
            Some(ids[i])
        } else {
            self.field_from(ids, name, i + 1)
        }
    }

    /// The first child that fills the named field of `n`.
    pub open spec fn field_of(&self, n: NodeId, name: Seq<char>) -> Option<NodeId> {
        self.field_from(self.kids(n), name, 0)
    }

    pub fn child_by_field(&self, n: NodeId, name: &str) -> (r: Option<NodeId>)
        requires
            self.has(n),
            self.all_in(self.kids(n)),
        ensures
            r == self.field_of(n, name@),
            r matches Some(k) ==> self.kids(n).contains(k),
    {
        let ids = self.children(n);
        let mut i: usize = 0;
        while i < ids.len()
            invariant
                i <= ids@.len(),
                ids@ == self.kids(n),
                self.all_in(ids@),
                self.field_from(ids@, name@, 0) == self.field_from(ids@, name@, i as int),
            decreases ids@.len() - i,
        {
            let k = ids[i];
            if let Some(f) = &self.nodes[k].field {
                if str_eq(f.as_str(), name) {
                    assert(ids@.contains(ids@[i as int]));
                    return Some(k);
                }
            }
            i += 1;
        }
        None
    }

    // ---- climbing ------------------------------------------------------------------------------

    /// The nearest strict ancestor of the given kind.
    pub open spec fn ancestor(&self, n: NodeId, kind: Seq<char>) -> Option<NodeId>
        decreases n,
    {
        match self.parent_of(n) {
            Some(p) => if p >= n {
                None
            } else if self.kind_of(p) == kind {
                Some(p)
            } else {
                self.ancestor(p, kind)
            },
            None => None,
        }
    }

    pub fn ancestor_of_kind(&self, n: NodeId, kind: &str) -> (r: Option<
        NodeId,
    >)
        requires
            self.has(n),
            self.linked(),
        ensures
            r == self.ancestor(n, kind@),
            r matches Some(a) ==> a < n,
    {
        let mut cur: NodeId = n;
        loop
            invariant
                cur <= n,
                self.has(n),
                self.linked(),
                self.ancestor(n, kind@) == self.ancestor(cur, kind@),
            decreases cur,
        {
            match self.parent(cur) {
                Some(p) => {
                    if self.is_kind(p, kind) {
                        return Some(p);
                    }
                    cur = p;
                },
                None => {
                    return None;
                },
            }
        }
    }

    /// The nearest strict ancestor whose kind is of the class.
    pub open spec fn ancestor_in(&self, n: NodeId, class: KindClass) -> Option<NodeId>
        decreases n,
    {
        match self.parent_of(n) {
            Some(p) => if p >= n {
                None
            } else if class.has(self.kind_of(p)) {
                Some(p)
            } else {
                self.ancestor_in(p, class)
            },
            None => None,
        }
    }

    pub fn ancestor_of_class(&self, n: NodeId, class: KindClass) -> (r:
        Option<NodeId>)
        requires
            self.has(n),
            self.linked(),
        ensures
            r == self.ancestor_in(n, class),
            r matches Some(a) ==> a < n,
    {
        let mut cur: NodeId = n;
        loop
            invariant
                cur <= n,
                self.has(n),
                self.linked(),
                self.ancestor_in(n, class) == self.ancestor_in(cur, class),
            decreases cur,
        {
            match self.parent(cur) {
                Some(p) => {
                    if self.is_in(p, class) {
                        return Some(p);
                    }
                    cur = p;
                },
                None => {
                    return None;
                },
            }
        }
    }

    /// Whether `n` is `ancestor` or lies below it.
    pub open spec fn descends(&self, n: NodeId, ancestor: NodeId) -> bool
        decreases n,
    {
        n == ancestor || match self.parent_of(n) {
            Some(p) => p < n && self.descends(p, ancestor),
            None => false,
        }
    }

    pub fn is_descendant_of(&self, n: NodeId, ancestor: NodeId) -> (r: bool)
        requires
            self.has(n),
            self.linked(),
        ensures
            r == self.descends(n, ancestor),
    {
        let mut cur: NodeId = n;
        loop
            invariant
                cur <= n,
                self.has(n),
                self.linked(),
                self.descends(n, ancestor) == self.descends(cur, ancestor),
            decreases cur,
        {
            if cur == ancestor {
                return true;
            }
            match self.parent(cur) {
                Some(p) => {
                    cur = p;
                },
                None => {
                    return false;
                },
            }
        }
    }

    /// Whether a node of the class `yes` is met at `n` or above it before one of the class `no`.
    pub open spec fn reaches(&self, n: NodeId, yes: KindClass, no: KindClass) -> bool
        decreases n,
    {
        if yes.has(self.kind_of(n)) {
            true
        } else if no.has(self.kind_of(n)) {
            false
        } else {
            match self.parent_of(n) {
                Some(p) => p < n && self.reaches(p, yes, no),
                None => false,
            }
        }
    }

    pub fn is_reaching(&self, n: NodeId, yes: KindClass, no: KindClass) -> (r: bool)
        requires
            self.has(n),
            self.linked(),
        ensures
            r == self.reaches(n, yes, no),
    {
        let mut cur: NodeId = n;
        loop
            invariant
                cur <= n,
                self.has(n),
                self.linked(),
                self.reaches(n, yes, no) == self.reaches(cur, yes, no),
            decreases cur,
        {
            if self.is_in(cur, yes) {
                return true;
            }
            if self.is_in(cur, no) {
                return false;
            }
            match self.parent(cur) {
                Some(p) => {
                    cur = p;
                },
                None => {
                    return false;
                },
            }
        }
    }

    // ---- siblings ------------------------------------------------------------------------------

    /// The place of `n` in `ids`, from place `i` on.
    pub open spec fn place_from(ids: Seq<NodeId>, n: NodeId, i: int) -> Option<int>
        decreases ids.len() - i,
    {
        if i < 0 || i >= ids.len() {
            None
        } else if ids[i] == n {
            Some(i)
        } else {
            Self::place_from(ids, n, i + 1)
        }
    }

    /// The sibling that follows `n`.
    pub open spec fn next_of(&self, n: NodeId) -> Option<NodeId> {
        match self.parent_of(n) {
            Some(p) => match Self::place_from(self.kids(p), n, 0) {
                Some(i) => if i + 1 < self.kids(p).len() {
                    Some(self.kids(p)[i + 1])
                } else {
                    None
                },
                None => None,
            },
            None => None,
        }
    }

    pub fn place_of(ids: &[NodeId], n: NodeId) -> (r: Option<usize>)
        ensures
            crate::text::at(r) == Self::place_from(ids@, n, 0),
            r matches Some(i) ==> i < ids@.len(),
    {
        let mut i: usize = 0;
        while i < ids.len()
            invariant
                i <= ids@.len(),
                Self::place_from(ids@, n, 0) == Self::place_from(ids@, n, i as int),
            decreases ids@.len() - i,
        {
            if ids[i] == n {
                return Some(i);
            }
            i += 1;
        }
        None
    }

    pub fn next_sibling(&self, n: NodeId) -> (r: Option<NodeId>)
        requires
            self.has(n),
            self.linked(),
        ensures
            r == self.next_of(n),
            r matches Some(s) ==> self.has(s),
    {
        match self.parent(n) {
            Some(p) => {
                let ids = self.children(p);
                let count: usize = ids.len();
                match Self::place_of(ids, n) {
                    Some(i) => if i + 1 < count {
                        Some(ids[i + 1])
                    } else {
                        None
                    },
                    None => None,
                }
            },
            None => None,
        }
    }

    // ---- all nodes below a node ----------------------------------------------------------------

    /// A node and all nodes below it, outer before inner and from left to right.
    pub open spec fn under(&self, n: NodeId) -> Seq<NodeId>
        decreases self.nodes@.len() - n, self.kids(n).len() + 1,
    {
        seq![n] + self.under_kids(n, 0)
    }

    /// The children of a node from the `i`-th on, and all nodes below them.
    pub open spec fn under_kids(&self, n: NodeId, i: int) -> Seq<NodeId>
        decreases self.nodes@.len() - n, self.kids(n).len() - i,
    {
        if i < 0 || i >= self.kids(n).len() {
            Seq::empty()
        } else {
            let k = self.kids(n)[i];
            let first = if n < k && self.has(k) {
                self.under(k)
            } else {
                Seq::empty()
            };
            first + self.under_kids(n, i + 1)
        }
    }

    fn collect_under(&self, n: NodeId, out: &mut Vec<NodeId>)
        requires
            self.has(n),
            self.linked(),
            self.all_in(old(out)@),
        ensures
            final(out)@ == old(out)@ + self.under(n),
            self.all_in(final(out)@),
        decreases self.nodes@.len() - n,
    {
        out.push(n);
        let ids = self.children(n);
        let mut i: usize = 0;
        while i < ids.len()
            invariant
                i <= ids.len(),
                self.has(n),
                self.linked(),
                ids@ == self.kids(n),
                self.all_in(out@),
                out@ + self.under_kids(n, i as int) =~= old(out)@ + self.under(n),
            decreases ids.len() - i,
        {
            assert(self.nodes@[n as int].placed(n as int, self.nodes@.len() as int));
            self.collect_under(ids[i], out);
            i += 1;
        }
        assert(out@ =~= old(out)@ + self.under(n));
    }

    /// A node and all nodes below it, outer before inner and from left to right.
    pub fn nodes_under(&self, n: NodeId) -> (r: Vec<NodeId>)
        requires
            self.has(n),
            self.linked(),
        ensures
            r@ == self.under(n),
            self.all_in(r@),
    {
        let mut out: Vec<NodeId> = Vec::new();
        self.collect_under(n, &mut out);
        assert(out@ =~= self.under(n));
        out
    }

    // ---- the node at a range -------------------------------------------------------------------

    /// Whether the node ends too early to hold the range.
    pub open spec fn ends_before(&self, n: NodeId, from: int, to: int) -> bool {
        ||| self.end_of(n) < to
        ||| self.end_of(n) < from
        ||| self.end_of(n) == from && self.start_of(n) < self.end_of(n)
    }

    /// The first child of `n`, from place `i` on, that does not end before the range, if it holds
    /// the range.
    pub open spec fn holder_from(&self, n: NodeId, from: int, to: int, i: int) -> Option<NodeId>
        decreases self.kids(n).len() - i,
    {
        if i < 0 || i >= self.kids(n).len() {
            None
        } else {
            let k = self.kids(n)[i];
            if self.ends_before(k, from, to) {
                self.holder_from(n, from, to, i + 1)
            } else if from < self.start_of(k) {
                None
            } else {
                Some(k)
            }
        }
    }

    /// The deepest named node on the way from `n` down to the range, `best` so far.
    pub open spec fn named_holder(&self, n: NodeId, best: NodeId, from: int, to: int) -> NodeId
        decreases self.nodes@.len() - n,
    {
        match self.holder_from(n, from, to, 0) {
            Some(k) => if n < k && self.has(k) {
                self.named_holder(
                    k,
                    if self.node(k).named {
                        k
                    } else {
                        best
                    },
                    from,
                    to,
                )
            } else {
                best
            },
            None => best,
        }
    }

    /// The smallest named node that spans the range.
    pub open spec fn named_node_at(&self, from: int, to: int) -> Option<NodeId> {
        if self.nodes@.len() == 0 || from > to {
            None
        } else {
            Some(self.named_holder(0, 0, from, to))
        }
    }

    fn find_holder(&self, n: NodeId, from: usize, to: usize) -> (r: Option<NodeId>)
        requires
            self.has(n),
            self.linked(),
        ensures
            r == self.holder_from(n, from as int, to as int, 0),
            r matches Some(k) ==> n < k && self.has(k),
    {
        let ids = self.children(n);
        let mut i: usize = 0;
        while i < ids.len()
            invariant
                i <= ids@.len(),
                ids@ == self.kids(n),
                self.has(n),
                self.linked(),
                self.holder_from(n, from as int, to as int, 0) == self.holder_from(
                    n,
                    from as int,
                    to as int,
                    i as int,
                ),
            decreases ids@.len() - i,
        {
            let k = ids[i];
            let start = self.start(k);
            let end = self.end(k);
            let early: bool = end < to || end < from || (end == from && start < end);
            if !early {
                return if from < start {
                    None
                } else {
                    Some(k)
                };
            }
            i += 1;
        }
        None
    }

    pub fn named_descendant_for_range(&self, from: usize, to: usize) -> (r: Option<NodeId>)
        requires
            self.linked(),
        ensures
            r == self.named_node_at(from as int, to as int),
            r matches Some(n) ==> self.has(n),
    {
        if self.nodes.len() == 0 || from > to {
            return None;
        }
        let mut cur: NodeId = 0;
        let mut best: NodeId = 0;
        loop
            invariant
                self.linked(),
                self.has(cur),
                self.has(best),
                self.named_holder(0, 0, from as int, to as int) == self.named_holder(
                    cur,
                    best,
                    from as int,
                    to as int,
                ),
                self.nodes@.len() > 0,
                from <= to,
            decreases self.nodes@.len() - cur,
        {
            match self.find_holder(cur, from, to) {
                Some(k) => {
                    if self.nodes[k].named {
                        best = k;
                    }
                    cur = k;
                },
                None => {
                    return Some(best);
                },
            }
        }
    }
}

} // verus!
