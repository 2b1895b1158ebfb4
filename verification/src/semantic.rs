//! What the analysis tells about a cursor position.
use vstd::prelude::*;

use crate::type_names::{TypeName, TypeView};

verus! {

/// Which jump statement a label belongs to.
#[derive(Clone, Copy, Debug, PartialEq, Eq, Structural)]
pub enum StatementLabelCompletionKind {
    Break,
    Continue,
}

/// Where in the syntax the cursor stands.
#[derive(Debug, PartialEq, Eq)]
#[allow(inconsistent_fields)]
pub enum CursorLocation {
    MemberAccess {
        receiver_semantic_type: Option<TypeName>,
        receiver_type: Option<String>,
        member_prefix: String,
        receiver_expr: String,
        arguments: Option<String>,
    },
    StaticAccess { class_internal_name: String, member_prefix: String },
    ConstructorCall {
        class_prefix: String,
        expected_type: Option<String>,
        qualifier_expr: Option<String>,
        qualifier_owner_internal: Option<String>,
    },
    Expression { prefix: String },
    MethodArgument { prefix: String },
    TypeAnnotation { prefix: String },
    VariableName { type_text: String },
    StringLiteral { prefix: String },
    StatementLabel { kind: StatementLabelCompletionKind, prefix: String },
    Annotation { prefix: String, target_element_type: Option<String> },
    Import { prefix: String },
    ImportStatic { prefix: String },
    MethodReference { qualifier_expr: String, member_prefix: String, is_constructor: bool },
    Unknown,
}

/// A cursor location with its texts as character sequences.
#[allow(inconsistent_fields)]
pub enum LocationView {
    MemberAccess {
        receiver_semantic_type: Option<TypeView>,
        receiver_type: Option<Seq<char>>,
        member_prefix: Seq<char>,
        receiver_expr: Seq<char>,
        arguments: Option<Seq<char>>,
    },
    StaticAccess { class_internal_name: Seq<char>, member_prefix: Seq<char> },
    ConstructorCall {
        class_prefix: Seq<char>,
        expected_type: Option<Seq<char>>,
        qualifier_expr: Option<Seq<char>>,
        qualifier_owner_internal: Option<Seq<char>>,
    },
    Expression { prefix: Seq<char> },
    MethodArgument { prefix: Seq<char> },
    TypeAnnotation { prefix: Seq<char> },
    VariableName { type_text: Seq<char> },
    StringLiteral { prefix: Seq<char> },
    StatementLabel { kind: StatementLabelCompletionKind, prefix: Seq<char> },
    Annotation { prefix: Seq<char>, target_element_type: Option<Seq<char>> },
    Import { prefix: Seq<char> },
    ImportStatic { prefix: Seq<char> },
    MethodReference { qualifier_expr: Seq<char>, member_prefix: Seq<char>, is_constructor: bool },
    Unknown,
}

impl DeepView for CursorLocation {
    type V = LocationView;

    open spec fn deep_view(&self) -> LocationView {
        match self {
            CursorLocation::MemberAccess {
                receiver_semantic_type,
                receiver_type,
                member_prefix,
                receiver_expr,
                arguments,
            } => LocationView::MemberAccess {
                receiver_semantic_type: receiver_semantic_type.deep_view(),
                receiver_type: receiver_type.deep_view(),
                member_prefix: member_prefix@,
                receiver_expr: receiver_expr@,
                arguments: arguments.deep_view(),
            },
            CursorLocation::StaticAccess { class_internal_name, member_prefix } =>
                LocationView::StaticAccess {
                    class_internal_name: class_internal_name@,
                    member_prefix: member_prefix@,
                },
            CursorLocation::ConstructorCall {
                class_prefix,
                expected_type,
                qualifier_expr,
                qualifier_owner_internal,
            } => LocationView::ConstructorCall {
                class_prefix: class_prefix@,
                expected_type: expected_type.deep_view(),
                qualifier_expr: qualifier_expr.deep_view(),
                qualifier_owner_internal: qualifier_owner_internal.deep_view(),
            },
            CursorLocation::Expression { prefix } => LocationView::Expression { prefix: prefix@ },
            CursorLocation::MethodArgument { prefix } => LocationView::MethodArgument {
                prefix: prefix@,
            },
            CursorLocation::TypeAnnotation { prefix } => LocationView::TypeAnnotation {
                prefix: prefix@,
            },
            CursorLocation::VariableName { type_text } => LocationView::VariableName {
                type_text: type_text@,
            },
            CursorLocation::StringLiteral { prefix } => LocationView::StringLiteral {
                prefix: prefix@,
            },
            CursorLocation::StatementLabel { kind, prefix } => LocationView::StatementLabel {
                kind: *kind,
                prefix: prefix@,
            },
            CursorLocation::Annotation { prefix, target_element_type } => LocationView::Annotation {
                prefix: prefix@,
                target_element_type: target_element_type.deep_view(),
            },
            CursorLocation::Import { prefix } => LocationView::Import { prefix: prefix@ },
            CursorLocation::ImportStatic { prefix } => LocationView::ImportStatic {
                prefix: prefix@,
            },
            CursorLocation::MethodReference { qualifier_expr, member_prefix, is_constructor } =>
                LocationView::MethodReference {
                    qualifier_expr: qualifier_expr@,
                    member_prefix: member_prefix@,
                    is_constructor: *is_constructor,
                },
            CursorLocation::Unknown => LocationView::Unknown,
        }
    }
}

// ---- what a functional expression is expected to be --------------------------------------------

/// Where an expected type comes from.
#[derive(Clone, Copy, Debug, PartialEq, Eq, Structural)]
pub enum ExpectedTypeSource {
    VariableInitializer,
    AssignmentRhs,
    ReturnExpr,
}

/// What qualifies a method reference.
#[derive(Clone, Copy, Debug, PartialEq, Eq, Structural)]
pub enum MethodRefQualifierKind {
    Type,
    Expr,
    Unknown,
}

/// The shape of a functional expression.
#[derive(Clone, Debug, PartialEq, Eq)]
pub enum FunctionalExprShape {
    MethodReference {
        qualifier_expr: String,
        member_name: String,
        is_constructor: bool,
        qualifier_kind: MethodRefQualifierKind,
    },
    Lambda { param_count: usize, expression_body: Option<String> },
}

/// The call that a functional expression is an argument of.
#[derive(Clone, Debug, PartialEq, Eq)]
pub struct FunctionalMethodCallHint {
    pub receiver_expr: String,
    pub method_name: String,
    pub arg_index: usize,
    pub arg_texts: Vec<String>,
}

/// What is known of the target of a functional expression.
#[derive(Clone, Debug, PartialEq, Eq)]
pub struct FunctionalTargetHint {
    pub expected_type_source: Option<String>,
    pub expected_type_context: Option<ExpectedTypeSource>,
    pub assignment_lhs_expr: Option<String>,
    pub method_call: Option<FunctionalMethodCallHint>,
    pub expr_shape: Option<FunctionalExprShape>,
}

pub enum ShapeView {
    MethodReference {
        qualifier_expr: Seq<char>,
        member_name: Seq<char>,
        is_constructor: bool,
        qualifier_kind: MethodRefQualifierKind,
    },
    Lambda { param_count: int, expression_body: Option<Seq<char>> },
}

impl DeepView for FunctionalExprShape {
    type V = ShapeView;

    open spec fn deep_view(&self) -> ShapeView {
        match self {
            FunctionalExprShape::MethodReference {
                qualifier_expr,
                member_name,
                is_constructor,
                qualifier_kind,
            } => ShapeView::MethodReference {
                qualifier_expr: qualifier_expr@,
                member_name: member_name@,
                is_constructor: *is_constructor,
                qualifier_kind: *qualifier_kind,
            },
            FunctionalExprShape::Lambda { param_count, expression_body } => ShapeView::Lambda {
                param_count: *param_count as int,
                expression_body: expression_body.deep_view(),
            },
        }
    }
}

pub struct CallHintView {
    pub receiver_expr: Seq<char>,
    pub method_name: Seq<char>,
    pub arg_index: int,
    pub arg_texts: Seq<Seq<char>>,
}

impl DeepView for FunctionalMethodCallHint {
    type V = CallHintView;

    open spec fn deep_view(&self) -> CallHintView {
        CallHintView {
            receiver_expr: self.receiver_expr@,
            method_name: self.method_name@,
            arg_index: self.arg_index as int,
            arg_texts: self.arg_texts.deep_view(),
        }
    }
}

impl DeepView for ExpectedTypeSource {
    type V = ExpectedTypeSource;

    open spec fn deep_view(&self) -> ExpectedTypeSource {
        *self
    }
}

pub struct TargetHintView {
    pub expected_type_source: Option<Seq<char>>,
    pub expected_type_context: Option<ExpectedTypeSource>,
    pub assignment_lhs_expr: Option<Seq<char>>,
    pub method_call: Option<CallHintView>,
    pub expr_shape: Option<ShapeView>,
}

impl DeepView for FunctionalTargetHint {
    type V = TargetHintView;

    open spec fn deep_view(&self) -> TargetHintView {
        TargetHintView {
            expected_type_source: self.expected_type_source.deep_view(),
            expected_type_context: self.expected_type_context,
            assignment_lhs_expr: self.assignment_lhs_expr.deep_view(),
            method_call: self.method_call.deep_view(),
            expr_shape: self.expr_shape.deep_view(),
        }
    }
}

} // verus!
