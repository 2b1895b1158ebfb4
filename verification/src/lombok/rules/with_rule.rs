//! Methods that copy an object with one field changed, for `@With`.
use vstd::prelude::*;

use crate::access_flags::{is_static, static_flags};
use crate::index::{
    build_descriptor, descriptor_of, has_method, has_method_spec, AnnotationSummary, AnnotationView,
    FieldSummary, FieldView, MethodParam, MethodParams, MethodSummary, MethodView, ParamView,
    ValueView,
};
use crate::lombok::annotations;
use crate::lombok::config::LombokConfig;
use crate::lombok::types::AccessLevel;
use crate::lombok::utils::{
    accessor_name, capitalized, find_lombok_annotation, found, is_field_non_null, level_of,
    parse_access_level, strip_field_prefix, stripped,
};
use crate::synthetic::{
    define_method, extract_class_annotations, make_method, method_definition, plain_method,
    MembersView, OriginView, SyntheticInput, SyntheticMemberRule, SyntheticMemberSet,
    SyntheticOrigin,
};
use crate::text::{append_str, str_eq, to_chars, to_text};
use crate::text_map::TextMap;

verus! {

pub struct WithRule;

/// `@With` stands on such declarations.
pub open spec fn takes_with(kind: Seq<char>) -> bool {
    kind == "class_declaration"@ || kind == "record_declaration"@ || kind
        == "interface_declaration"@
}

/// The annotation `@With` or, without one, the older `@Wither`.
pub open spec fn with_annotation(annos: Seq<AnnotationView>) -> Option<AnnotationView> {
    match found(annos, annotations::WITH@) {
        Some(a) => Some(a),
        None => found(annos, annotations::WITHER@),
    }
}

fn find_with_annotation<'a>(annos: &'a [AnnotationSummary]) -> (r: Option<&'a AnnotationSummary>)
    ensures
        r.deep_view() == with_annotation(annos.deep_view()),
{
    match find_lombok_annotation(annos, annotations::WITH) {
        Some(a) => Some(a),
        None => find_lombok_annotation(annos, annotations::WITHER),
    }
}

/// A method is generated for a field: it is not static, and the annotation of the field or else
/// that of the class asks for one.
pub open spec fn wants_with(
    field: FieldView,
    class_level: Option<AnnotationView>,
    field_level: Option<AnnotationView>,
) -> bool {
    !static_flags(field.access_flags) && match field_level {
        Some(a) => level_of(a) != AccessLevel::Never,
        None => match class_level {
            Some(a) => level_of(a) != AccessLevel::Never,
            None => false,
        },
    }
}

/// Whether a method is generated for a field.
pub fn should_generate_with_for_field(
    field: &FieldSummary,
    class_level_anno: Option<&AnnotationSummary>,
    field_level_anno: Option<&AnnotationSummary>,
) -> (r: bool)
    ensures
        r == wants_with(
            field.deep_view(),
            class_level_anno.deep_view(),
            field_level_anno.deep_view(),
        ),
{
    if is_static(field.access_flags) {
        return false;
    }
    if let Some(anno) = field_level_anno {
        return parse_access_level(anno) != AccessLevel::Never;
    }
    match class_level_anno {
        Some(anno) => parse_access_level(anno) != AccessLevel::Never,
        None => false,
    }
}

/// The name of the method for a field.
pub open spec fn with_name(field_name: Seq<char>, m: Map<Seq<char>, Seq<char>>) -> Seq<char> {
    "with"@ + capitalized(stripped(field_name, m))
}

/// The name of the method for a field.
pub fn compute_with_name(field_name: &str, config: &LombokConfig) -> (r: String)
    ensures
        r@ == with_name(field_name@, config@),
{
    let base = strip_field_prefix(field_name, config);
    accessor_name("with", base.as_str())
}

/// The descriptor of the class, or that of `Object` where the class is not known.
pub open spec fn owner_descriptor(owner: Option<Seq<char>>) -> Seq<char> {
    match owner {
        Some(name) => "L"@ + name + ";"@,
        None => "Ljava/lang/Object;"@,
    }
}

fn describe_owner(owner: Option<&str>) -> (r: String)
    ensures
        r@ == owner_descriptor(owner.deep_view()),
{
    match owner {
        Some(name) => {
            let mut out = to_chars("L");
            append_str(&mut out, name);
            append_str(&mut out, ";");
            to_text(out.as_slice())
        },
        None => "Ljava/lang/Object;".to_string(),
    }
}

/// The annotation `@NonNull` without elements.
pub open spec fn non_null() -> AnnotationView {
    AnnotationView {
        internal_name: annotations::NON_NULL@,
        runtime_visible: true,
        elements: Map::empty(),
    }
}

/// The parameter of the method for a field.
pub open spec fn with_param(field: FieldView) -> ParamView {
    ParamView {
        descriptor: field.descriptor,
        name: field.name,
        annotations: if found(field.annotations, annotations::NON_NULL@) is Some {
            seq![non_null()]
        } else {
            Seq::empty()
        },
    }
}

fn make_with_param(field: &FieldSummary) -> (r: MethodParam)
    ensures
        r.deep_view() == with_param(field.deep_view()),
{
    let mut annos: Vec<AnnotationSummary> = Vec::new();
    if is_field_non_null(field) {
        let a = AnnotationSummary {
            internal_name: annotations::NON_NULL.to_string(),
            runtime_visible: true,
            elements: TextMap::new(),
        };
        assert(a.elements.deep_view() =~= Map::<Seq<char>, ValueView>::empty());
        annos.push(a);
        assert(annos.deep_view() =~= seq![non_null()]);
    } else {
        assert(annos.deep_view() =~= Seq::<AnnotationView>::empty());
    }
    MethodParam {
        descriptor: field.descriptor.clone(),
        name: field.name.clone(),
        annotations: annos,
    }
}

/// The level of an annotation, or public.
pub open spec fn level_or_public(a: Option<AnnotationView>) -> AccessLevel {
    match a {
        Some(a) => level_of(a),
        None => AccessLevel::Public,
    }
}

/// The level of an annotation, or public.
pub fn access_level_or_public(annotation: Option<&AnnotationSummary>) -> (r: AccessLevel)
    ensures
        r == level_or_public(annotation.deep_view()),
{
    match annotation {
        Some(a) => parse_access_level(a),
        None => AccessLevel::Public,
    }
}

/// The members with the method for a field, unless the class has it.
pub open spec fn plus_with(
    out: MembersView,
    field: FieldView,
    annotation: Option<AnnotationView>,
    m: Map<Seq<char>, Seq<char>>,
    methods: Seq<MethodView>,
    owner: Option<Seq<char>>,
) -> MembersView {
    let level = level_or_public(annotation);
    let name = with_name(field.name, m);
    let params = seq![with_param(field)];
    let desc = descriptor_of(params, owner_descriptor(owner));
    if level == AccessLevel::Never || has_method_spec(methods, name, desc) {
        out
    } else {
        out.plus_method(
            plain_method(name, params, level.flags(), Some(owner_descriptor(owner))),
            method_definition(name, desc, OriginView::LombokWith { field_name: field.name }),
        )
    }
}

/// Adds the method for a field.
pub fn generate_with_method(
    field: &FieldSummary,
    annotation: Option<&AnnotationSummary>,
    config: &LombokConfig,
    explicit_methods: &[MethodSummary],
    owner_internal: Option<&str>,
    out: &mut SyntheticMemberSet,
)
    ensures
        final(out).deep_view() == plus_with(
            old(out).deep_view(),
            field.deep_view(),
            annotation.deep_view(),
            config@,
            explicit_methods.deep_view(),
            owner_internal.deep_view(),
        ),
{
    let level = access_level_or_public(annotation);
    if level == AccessLevel::Never {
        return;
    }
    let name = compute_with_name(field.name.as_str(), config);
    let result = describe_owner(owner_internal);
    let mut items: Vec<MethodParam> = Vec::new();
    items.push(make_with_param(field));
    let params = MethodParams { items };
    assert(params.deep_view() =~= seq![with_param(field.deep_view())]);
    let descriptor = build_descriptor(&params, result.as_str());
    if has_method(explicit_methods, name.as_str(), descriptor.as_str()) {
        return;
    }
    let method = make_method(name.clone(), params, level.to_access_flags(), Some(result));
    let definition = define_method(
        name,
        descriptor,
        SyntheticOrigin::LombokWith { field_name: field.name.clone() },
    );
    out.add_method(method, definition);
}

/// The members after one field.
pub open spec fn after_field(
    out: MembersView,
    field: FieldView,
    class_level: Option<AnnotationView>,
    methods: Seq<MethodView>,
    owner: Option<Seq<char>>,
) -> MembersView {
    let field_level = with_annotation(field.annotations);
    if wants_with(field, class_level, field_level) {
        plus_with(
            out,
            field,
            match field_level {
                Some(a) => Some(a),
                None => class_level,
            },
            Map::empty(),
            methods,
            owner,
        )
    } else {
        out
    }
}

/// The members after the fields from the `i`-th on.
pub open spec fn after_fields(
    out: MembersView,
    fields: Seq<FieldView>,
    class_level: Option<AnnotationView>,
    methods: Seq<MethodView>,
    owner: Option<Seq<char>>,
    i: int,
) -> MembersView
    decreases fields.len() - i,
{
    if i < 0 || i >= fields.len() {
        out
    } else {
        after_fields(
            after_field(out, fields[i], class_level, methods, owner),
            fields,
            class_level,
            methods,
            owner,
            i + 1,
        )
    }
}

proof fn lemma_after_fields_grows(
    out: MembersView,
    fields: Seq<FieldView>,
    class_level: Option<AnnotationView>,
    methods: Seq<MethodView>,
    owner: Option<Seq<char>>,
    i: int,
)
    ensures
        out.grows_to(after_fields(out, fields, class_level, methods, owner, i)),
    decreases fields.len() - i,
{
    if 0 <= i < fields.len() {
        let next = after_field(out, fields[i], class_level, methods, owner);
        assert(out.grows_to(next));
        lemma_after_fields_grows(next, fields, class_level, methods, owner, i + 1);
    }
}

impl SyntheticMemberRule for WithRule {
    open spec fn synthesized(
        &self,
        input: SyntheticInput<'_>,
        out: MembersView,
        explicit_methods: Seq<MethodView>,
        explicit_fields: Seq<FieldView>,
    ) -> MembersView {
        if takes_with(input.kind()) {
            after_fields(
                out,
                explicit_fields,
                with_annotation(input.class_annotations()),
                explicit_methods,
                input.owner_internal.deep_view(),
                0,
            )
        } else {
            out
        }
    }

    fn synthesize(
        &self,
        input: &SyntheticInput<'_>,
        out: &mut SyntheticMemberSet,
        explicit_methods: &[MethodSummary],
        explicit_fields: &[FieldSummary],
    ) {
        let kind = input.ctx.tree.kind(input.decl);
        if !(str_eq(kind, "class_declaration") || str_eq(kind, "record_declaration") || str_eq(
            kind,
            "interface_declaration",
        )) {
            return;
        }
        let config = LombokConfig::new();
        let annos = extract_class_annotations(input);
        let class_level = find_with_annotation(annos.as_slice());
        let owner: Option<&str> = match &input.owner_internal {
            Some(name) => Some(name.as_str()),
            None => None,
        };
        let ghost fields = explicit_fields.deep_view();
        let mut i: usize = 0;
        while i < explicit_fields.len()
            invariant
                i <= explicit_fields.len(),
                fields == explicit_fields.deep_view(),
                config@ == Map::<Seq<char>, Seq<char>>::empty(),
                after_fields(
                    out.deep_view(),
                    fields,
                    class_level.deep_view(),
                    explicit_methods.deep_view(),
                    owner.deep_view(),
                    i as int,
                ) == after_fields(
                    old(out).deep_view(),
                    fields,
                    class_level.deep_view(),
                    explicit_methods.deep_view(),
                    owner.deep_view(),
                    0,
                ),
            decreases explicit_fields.len() - i,
        {
            let field: &FieldSummary = &explicit_fields[i];
            assert(fields[i as int] == field.deep_view());
            let field_level = find_with_annotation(field.annotations.as_slice());
            if should_generate_with_for_field(field, class_level, field_level) {
                let chosen = match field_level {
                    Some(a) => Some(a),
                    None => class_level,
                };
                generate_with_method(field, chosen, &config, explicit_methods, owner, out);
            }
            i += 1;
        }
    }

    proof fn lemma_grows(
        &self,
        input: SyntheticInput<'_>,
        out: MembersView,
        explicit_methods: Seq<MethodView>,
        explicit_fields: Seq<FieldView>,
    ) {
        lemma_after_fields_grows(
            out,
            explicit_fields,
            with_annotation(input.class_annotations()),
            explicit_methods,
            input.owner_internal.deep_view(),
            0,
        );
    }
}

} // verus!
