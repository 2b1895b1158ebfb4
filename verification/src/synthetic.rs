//! Members that are generated for a class, and the rules that generate them.
use vstd::prelude::*;

use crate::extractor::JavaContextExtractor;
use crate::index::{
    AnnotationSummary, AnnotationView, FieldSummary, FieldView, MethodParams, MethodSummary,
    MethodView, ParamView,
};
use crate::lombok::types::LombokConstructorType;
use crate::syntax::NodeId;
use crate::text_map::{Duplicate, TextMap};

verus! {

/// What a generated member is.
#[derive(Clone, Copy, Debug, PartialEq, Eq, Structural)]
pub enum SyntheticDefinitionKind {
    Method,
    Field,
}

/// What a member was generated for.
#[derive(Debug)]
#[allow(inconsistent_fields)]
pub enum SyntheticOrigin {
    LombokGetter { field_name: String },
    LombokWith { field_name: String },
    LombokDelegate { field_name: String },
    LombokConstructor { constructor_type: LombokConstructorType },
    LombokToString,
    LombokEquals,
    LombokHashCode,
    LombokLog,
}

/// What a [`SyntheticOrigin`] says.
#[allow(inconsistent_fields)]
pub enum OriginView {
    LombokGetter { field_name: Seq<char> },
    LombokWith { field_name: Seq<char> },
    LombokDelegate { field_name: Seq<char> },
    LombokConstructor { constructor_type: LombokConstructorType },
    LombokToString,
    LombokEquals,
    LombokHashCode,
    LombokLog,
}

impl DeepView for SyntheticOrigin {
    type V = OriginView;

    open spec fn deep_view(&self) -> OriginView {
        match self {
            SyntheticOrigin::LombokGetter { field_name } => OriginView::LombokGetter {
                field_name: field_name@,
            },
            SyntheticOrigin::LombokWith { field_name } => OriginView::LombokWith {
                field_name: field_name@,
            },
            SyntheticOrigin::LombokDelegate { field_name } => OriginView::LombokDelegate {
                field_name: field_name@,
            },
            SyntheticOrigin::LombokConstructor { constructor_type } =>
                OriginView::LombokConstructor { constructor_type: *constructor_type },
            SyntheticOrigin::LombokToString => OriginView::LombokToString,
            SyntheticOrigin::LombokEquals => OriginView::LombokEquals,
            SyntheticOrigin::LombokHashCode => OriginView::LombokHashCode,
            SyntheticOrigin::LombokLog => OriginView::LombokLog,
        }
    }
}

/// Where a generated member comes from.
#[derive(Debug)]
pub struct SyntheticDefinition {
    pub kind: SyntheticDefinitionKind,
    pub name: String,
    pub descriptor: Option<String>,
    pub origin: SyntheticOrigin,
}

/// What a [`SyntheticDefinition`] says.
pub struct DefinitionView {
    pub kind: SyntheticDefinitionKind,
    pub name: Seq<char>,
    pub descriptor: Option<Seq<char>>,
    pub origin: OriginView,
}

impl DeepView for SyntheticDefinition {
    type V = DefinitionView;

    open spec fn deep_view(&self) -> DefinitionView {
        DefinitionView {
            kind: self.kind,
            name: self.name@,
            descriptor: self.descriptor.deep_view(),
            origin: self.origin.deep_view(),
        }
    }
}

/// The members generated so far.
#[derive(Debug)]
pub struct SyntheticMemberSet {
    pub methods: Vec<MethodSummary>,
    pub fields: Vec<FieldSummary>,
    pub definitions: Vec<SyntheticDefinition>,
}

/// What a [`SyntheticMemberSet`] says.
#[verifier::ext_equal]
pub struct MembersView {
    pub methods: Seq<MethodView>,
    pub fields: Seq<FieldView>,
    pub definitions: Seq<DefinitionView>,
}

impl DeepView for SyntheticMemberSet {
    type V = MembersView;

    open spec fn deep_view(&self) -> MembersView {
        MembersView {
            methods: self.methods.deep_view(),
            fields: self.fields.deep_view(),
            definitions: self.definitions.deep_view(),
        }
    }
}

impl MembersView {
    pub open spec fn nothing() -> MembersView {
        MembersView { methods: Seq::empty(), fields: Seq::empty(), definitions: Seq::empty() }
    }

    /// The members with one more method.
    pub open spec fn plus_method(self, method: MethodView, definition: DefinitionView) -> MembersView {
        MembersView {
            methods: self.methods.push(method),
            definitions: self.definitions.push(definition),
            ..self
        }
    }

    /// The members with one more field.
    pub open spec fn plus_field(self, field: FieldView, definition: DefinitionView) -> MembersView {
        MembersView {
            fields: self.fields.push(field),
            definitions: self.definitions.push(definition),
            ..self
        }
    }

    /// The members with one more definition that has no member.
    pub open spec fn plus_definition(self, definition: DefinitionView) -> MembersView {
        MembersView { definitions: self.definitions.push(definition), ..self }
    }

    /// `self` is what `later` begins with.
    pub open spec fn grows_to(self, later: MembersView) -> bool {
        &&& self.methods.is_prefix_of(later.methods)
        &&& self.fields.is_prefix_of(later.fields)
        &&& self.definitions.is_prefix_of(later.definitions)
    }
}

impl SyntheticMemberSet {
    pub fn new() -> (r: SyntheticMemberSet)
        ensures
            r.deep_view() == MembersView::nothing(),
    {
        let r = SyntheticMemberSet {
            methods: Vec::new(),
            fields: Vec::new(),
            definitions: Vec::new(),
        };
        assert(r.deep_view() =~= MembersView::nothing());
        r
    }

    /// Adds a method.
    pub fn add_method(&mut self, method: MethodSummary, definition: SyntheticDefinition)
        ensures
            final(self).deep_view() == old(self).deep_view().plus_method(
                method.deep_view(),
                definition.deep_view(),
            ),
    {
        self.methods.push(method);
        self.definitions.push(definition);
        assert(self.deep_view() =~= old(self).deep_view().plus_method(
            method.deep_view(),
            definition.deep_view(),
        ));
    }

    /// Adds a field.
    pub fn add_field(&mut self, field: FieldSummary, definition: SyntheticDefinition)
        ensures
            final(self).deep_view() == old(self).deep_view().plus_field(
                field.deep_view(),
                definition.deep_view(),
            ),
    {
        self.fields.push(field);
        self.definitions.push(definition);
        assert(self.deep_view() =~= old(self).deep_view().plus_field(
            field.deep_view(),
            definition.deep_view(),
        ));
    }

    /// Adds a definition that has no member.
    pub fn add_definition(&mut self, definition: SyntheticDefinition)
        ensures
            final(self).deep_view() == old(self).deep_view().plus_definition(
                definition.deep_view(),
            ),
    {
        self.definitions.push(definition);
        assert(self.deep_view() =~= old(self).deep_view().plus_definition(definition.deep_view()));
    }
}

impl Default for SyntheticMemberSet {
    fn default() -> (r: SyntheticMemberSet)
        ensures
            r.deep_view() == MembersView::nothing(),
    {
        SyntheticMemberSet::new()
    }
}

/// A method with no annotations.
pub open spec fn plain_method(
    name: Seq<char>,
    params: Seq<ParamView>,
    access_flags: u16,
    return_type: Option<Seq<char>>,
) -> MethodView {
    MethodView {
        name,
        params,
        annotations: Seq::empty(),
        access_flags,
        is_synthetic: false,
        generic_signature: None,
        return_type,
    }
}

/// A method with no annotations.
pub fn make_method(
    name: String,
    params: MethodParams,
    access_flags: u16,
    return_type: Option<String>,
) -> (r: MethodSummary)
    ensures
        r.deep_view() == plain_method(
            name@,
            params.deep_view(),
            access_flags,
            return_type.deep_view(),
        ),
{
    let r = MethodSummary {
        name,
        params,
        annotations: Vec::new(),
        access_flags,
        is_synthetic: false,
        generic_signature: None,
        return_type,
    };
    assert(r.deep_view().annotations =~= Seq::<AnnotationView>::empty());
    r
}

/// The definition of a method.
pub open spec fn method_definition(
    name: Seq<char>,
    descriptor: Seq<char>,
    origin: OriginView,
) -> DefinitionView {
    DefinitionView {
        kind: SyntheticDefinitionKind::Method,
        name,
        descriptor: Some(descriptor),
        origin,
    }
}

/// The definition of a method.
pub fn define_method(name: String, descriptor: String, origin: SyntheticOrigin) -> (r:
    SyntheticDefinition)
    ensures
        r.deep_view() == method_definition(name@, descriptor@, origin.deep_view()),
{
    SyntheticDefinition {
        kind: SyntheticDefinitionKind::Method,
        name,
        descriptor: Some(descriptor),
        origin,
    }
}

/// A member of a class body.
#[derive(Debug)]
pub enum ClassMember {
    Method(MethodSummary),
    Field(FieldSummary),
}

/// The members that a class body of the text declares.
#[derive(Debug)]
pub struct BodyMembers {
    pub body: NodeId,
    pub members: Vec<ClassMember>,
}

/// What is known of types that the text does not declare.
#[derive(Debug)]
pub struct TypeIndex {
    /// The erased internal names of type descriptors.
    pub parsed: TextMap<String>,
    /// The erased internal names of the types that names resolve to.
    pub resolved: TextMap<String>,
    /// The methods of types, those inherited among them, by internal name.
    pub methods: TextMap<Vec<MethodSummary>>,
}

/// The declaration that members are generated for.
#[derive(Debug)]
pub struct SyntheticInput<'a> {
    pub ctx: &'a JavaContextExtractor,
    pub decl: NodeId,
    /// The annotations among the modifiers of the declaration.
    pub annotations: Vec<AnnotationSummary>,
    pub owner_internal: Option<String>,
    pub bodies: Vec<BodyMembers>,
    pub index: Option<TypeIndex>,
}

impl SyntheticInput<'_> {
    pub open spec fn wf(&self) -> bool {
        self.ctx.wf() && self.ctx.tree.has(self.decl)
    }

    /// The kind of the declaration.
    pub open spec fn kind(&self) -> Seq<char> {
        self.ctx.tree.kind_of(self.decl)
    }

    /// The annotations of the class: none where the declaration has no modifiers.
    pub open spec fn class_annotations(&self) -> Seq<AnnotationView> {
        if self.ctx.tree.first_kind(self.ctx.tree.kids(self.decl), "modifiers"@) is Some {
            self.annotations.deep_view()
        } else {
            Seq::empty()
        }
    }
}

/// Reads the annotations of the class.
pub fn extract_class_annotations(input: &SyntheticInput) -> (r: Vec<AnnotationSummary>)
    requires
        input.wf(),
    ensures
        r.deep_view() == input.class_annotations(),
{
    let kids = input.ctx.tree.children(input.decl);
    match input.ctx.tree.first_of_kind(kids, "modifiers") {
        Some(_) => input.annotations.duplicate(),
        None => {
            let r: Vec<AnnotationSummary> = Vec::new();
            assert(r.deep_view() =~= Seq::<AnnotationView>::empty());
            r
        },
    }
}

/// A rule that generates members.
pub trait SyntheticMemberRule {
    /// The members after the rule.
    spec fn synthesized(
        &self,
        input: SyntheticInput<'_>,
        out: MembersView,
        explicit_methods: Seq<MethodView>,
        explicit_fields: Seq<FieldView>,
    ) -> MembersView;

    /// Adds what the rule generates for a declaration, given the methods and the fields that the
    /// declaration itself has.
    fn synthesize(
        &self,
        input: &SyntheticInput<'_>,
        out: &mut SyntheticMemberSet,
        explicit_methods: &[MethodSummary],
        explicit_fields: &[FieldSummary],
    )
        requires
            input.wf(),
        ensures
            final(out).deep_view() == self.synthesized(
                *input,
                old(out).deep_view(),
                explicit_methods.deep_view(),
                explicit_fields.deep_view(),
            ),
    ;

    /// A rule only adds: what was there before stays, in its order and in front.
    proof fn lemma_grows(
        &self,
        input: SyntheticInput<'_>,
        out: MembersView,
        explicit_methods: Seq<MethodView>,
        explicit_fields: Seq<FieldView>,
    )
        ensures
            out.grows_to(self.synthesized(input, out, explicit_methods, explicit_fields)),
    ;
}

} // verus!
