//! Getters, `toString`, `equals` and `hashCode` and a constructor for `@Value`.
use vstd::prelude::*;

use crate::access_flags::{acc_public, acc_static, is_static, static_flags};
use crate::index::{
    build_descriptor, descriptor_of, has_method, has_method_spec, AnnotationSummary, AnnotationView,
    FieldSummary, FieldView, MethodParams, MethodSummary, MethodView,
};
use crate::lombok::annotations;
use crate::lombok::config::LombokConfig;
use crate::lombok::types::{AccessLevel, LombokConstructorType};
use crate::lombok::utils::{
    compute_getter_name, find_lombok_annotation, found, get_string_param, getter_name,
    parse_access_level, string_param,
};
use crate::synthetic::{
    define_method, extract_class_annotations, make_method, method_definition, plain_method,
    MembersView, OriginView, SyntheticInput, SyntheticMemberRule, SyntheticMemberSet,
    SyntheticOrigin,
};
use crate::text::str_eq;

use super::constructor_rule::{
    build_constructor_params, chosen_from, class_like, generate_constructor,
    get_all_non_static_fields, is_class_like, params_for, plus_constructors, FieldChoice,
};
use super::equals_hash_code_rule::{
    generate_can_equal_method, generate_equals_method, generate_hash_code_method, plus_equality,
};
use super::with_rule::{access_level_or_public, level_or_public};

verus! {

pub struct ValueRule;

/// An annotation for a constructor is there.
pub open spec fn asks_constructor(annos: Seq<AnnotationView>) -> bool {
    ||| found(annos, annotations::NO_ARGS_CONSTRUCTOR@) is Some
    ||| found(annos, annotations::REQUIRED_ARGS_CONSTRUCTOR@) is Some
    ||| found(annos, annotations::ALL_ARGS_CONSTRUCTOR@) is Some
}

/// Whether an annotation for a constructor is there.
pub fn has_any_explicit_constructor(class_annotations: &[AnnotationSummary]) -> (r: bool)
    ensures
        r == asks_constructor(class_annotations.deep_view()),
{
    find_lombok_annotation(class_annotations, annotations::NO_ARGS_CONSTRUCTOR).is_some()
        || find_lombok_annotation(
        class_annotations,
        annotations::REQUIRED_ARGS_CONSTRUCTOR,
    ).is_some() || find_lombok_annotation(
        class_annotations,
        annotations::ALL_ARGS_CONSTRUCTOR,
    ).is_some()
}

/// The class has a constructor of its own.
pub open spec fn has_constructor(methods: Seq<MethodView>) -> bool {
    exists|i: int| 0 <= i < methods.len() && #[trigger] methods[i].name == "<init>"@
}

/// Whether the class has a constructor of its own.
pub fn has_any_constructor_in_source(explicit_methods: &[MethodSummary]) -> (r: bool)
    ensures
        r == has_constructor(explicit_methods.deep_view()),
{
    let ghost all = explicit_methods.deep_view();
    let mut i: usize = 0;
    while i < explicit_methods.len()
        invariant
            i <= explicit_methods.len(),
            all == explicit_methods.deep_view(),
            forall|k: int| 0 <= k < i ==> #[trigger] all[k].name != "<init>"@,
        decreases explicit_methods.len() - i,
    {
        assert(all[i as int].name == explicit_methods@[i as int].name@);
        if str_eq(explicit_methods[i].name.as_str(), "<init>") {
            return true;
        }
        i += 1;
    }
    false
}

/// The members with the getter of a field, unless the class has it.
pub open spec fn plus_getter(
    out: MembersView,
    field: FieldView,
    annotation: Option<AnnotationView>,
    m: Map<Seq<char>, Seq<char>>,
    methods: Seq<MethodView>,
) -> MembersView {
    let level = level_or_public(annotation);
    let name = getter_name(field.name, field.descriptor, m);
    let desc = descriptor_of(Seq::empty(), field.descriptor);
    if level == AccessLevel::Never || has_method_spec(methods, name, desc) {
        out
    } else {
        out.plus_method(
            plain_method(
                name,
                Seq::empty(),
                if static_flags(field.access_flags) {
                    level.flags() | 0x0008
                } else {
                    level.flags()
                },
                Some(field.descriptor),
            ),
            method_definition(name, desc, OriginView::LombokGetter { field_name: field.name }),
        )
    }
}

/// Adds the getter of a field.
pub fn generate_getter(
    field: &FieldSummary,
    annotation: Option<&AnnotationSummary>,
    config: &LombokConfig,
    explicit_methods: &[MethodSummary],
    out: &mut SyntheticMemberSet,
)
    ensures
        final(out).deep_view() == plus_getter(
            old(out).deep_view(),
            field.deep_view(),
            annotation.deep_view(),
            config@,
            explicit_methods.deep_view(),
        ),
{
    let level = access_level_or_public(annotation);
    if level == AccessLevel::Never {
        return;
    }
    let name = compute_getter_name(field.name.as_str(), field.descriptor.as_str(), config);
    let params = MethodParams::empty();
    let descriptor = build_descriptor(&params, field.descriptor.as_str());
    if has_method(explicit_methods, name.as_str(), descriptor.as_str()) {
        return;
    }
    let mut access_flags: u16 = level.to_access_flags();
    if is_static(field.access_flags) {
        access_flags = access_flags | acc_static();
    }
    let method = make_method(name.clone(), params, access_flags, Some(field.descriptor.clone()));
    let definition = define_method(
        name,
        descriptor,
        SyntheticOrigin::LombokGetter { field_name: field.name.clone() },
    );
    out.add_method(method, definition);
}

/// The members after the getter of one field: there is none for a static field, and none where an
/// annotation of the field asks for none.
pub open spec fn after_getter(
    out: MembersView,
    field: FieldView,
    m: Map<Seq<char>, Seq<char>>,
    methods: Seq<MethodView>,
) -> MembersView {
    if static_flags(field.access_flags) {
        out
    } else {
        plus_getter(
            out,
            field,
            found(field.annotations, annotations::GETTER@),
            m,
            methods,
        )
    }
}

/// The members after the getters of the fields from the `i`-th on.
pub open spec fn after_getters(
    out: MembersView,
    fields: Seq<FieldView>,
    m: Map<Seq<char>, Seq<char>>,
    methods: Seq<MethodView>,
    i: int,
) -> MembersView
    decreases fields.len() - i,
{
    if i < 0 || i >= fields.len() {
        out
    } else {
        after_getters(after_getter(out, fields[i], m, methods), fields, m, methods, i + 1)
    }
}

proof fn lemma_after_getters_grows(
    out: MembersView,
    fields: Seq<FieldView>,
    m: Map<Seq<char>, Seq<char>>,
    methods: Seq<MethodView>,
    i: int,
)
    ensures
        out.grows_to(after_getters(out, fields, m, methods, i)),
    decreases fields.len() - i,
{
    if 0 <= i < fields.len() {
        let next = after_getter(out, fields[i], m, methods);
        assert(out.grows_to(next));
        lemma_after_getters_grows(next, fields, m, methods, i + 1);
    }
}

/// Adds the getters.
pub fn generate_getters_for_value(
    explicit_fields: &[FieldSummary],
    explicit_methods: &[MethodSummary],
    config: &LombokConfig,
    out: &mut SyntheticMemberSet,
)
    ensures
        final(out).deep_view() == after_getters(
            old(out).deep_view(),
            explicit_fields.deep_view(),
            config@,
            explicit_methods.deep_view(),
            0,
        ),
{
    let ghost fields = explicit_fields.deep_view();
    let ghost methods = explicit_methods.deep_view();
    let mut i: usize = 0;
    while i < explicit_fields.len()
        invariant
            i <= explicit_fields.len(),
            fields == explicit_fields.deep_view(),
            methods == explicit_methods.deep_view(),
            after_getters(out.deep_view(), fields, config@, methods, i as int) == after_getters(
                old(out).deep_view(),
                fields,
                config@,
                methods,
                0,
            ),
        decreases explicit_fields.len() - i,
    {
        let field: &FieldSummary = &explicit_fields[i];
        assert(fields[i as int] == field.deep_view());
        if !is_static(field.access_flags) {
            match find_lombok_annotation(field.annotations.as_slice(), annotations::GETTER) {
                Some(anno) => {
                    if parse_access_level(anno) != AccessLevel::Never {
                        generate_getter(field, Some(anno), config, explicit_methods, out);
                    }
                },
                None => {
                    generate_getter(field, None, config, explicit_methods, out);
                },
            }
        }
        i += 1;
    }
}

/// The class has a `toString` without parameters.
pub open spec fn has_to_string(methods: Seq<MethodView>) -> bool {
    exists|i: int|
        0 <= i < methods.len() && #[trigger] methods[i].name == "toString"@
            && methods[i].params.len() == 0
}

fn to_string_exists(methods: &[MethodSummary]) -> (r: bool)
    ensures
        r == has_to_string(methods.deep_view()),
{
    let ghost all = methods.deep_view();
    let mut i: usize = 0;
    while i < methods.len()
        invariant
            i <= methods.len(),
            all == methods.deep_view(),
            forall|k: int|
                0 <= k < i ==> !(#[trigger] all[k].name == "toString"@ && all[k].params.len() == 0),
        decreases methods.len() - i,
    {
        assert(all[i as int] == methods@[i as int].deep_view());
        if str_eq(methods[i].name.as_str(), "toString") && methods[i].params.is_empty() {
            assert(all[i as int].name == "toString"@);
            return true;
        }
        i += 1;
    }
    false
}

/// The members with `toString`, unless the class has one.
pub open spec fn plus_to_string(out: MembersView, methods: Seq<MethodView>) -> MembersView {
    if has_to_string(methods) {
        out
    } else {
        out.plus_method(
            plain_method("toString"@, Seq::empty(), 0x0001, Some("Ljava/lang/String;"@)),
            method_definition("toString"@, "()Ljava/lang/String;"@, OriginView::LombokToString),
        )
    }
}

/// Adds `toString`.
pub fn generate_to_string_for_value(
    explicit_methods: &[MethodSummary],
    out: &mut SyntheticMemberSet,
)
    ensures
        final(out).deep_view() == plus_to_string(
            old(out).deep_view(),
            explicit_methods.deep_view(),
        ),
{
    if to_string_exists(explicit_methods) {
        return;
    }
    let method = make_method(
        "toString".to_string(),
        MethodParams::empty(),
        acc_public(),
        Some("Ljava/lang/String;".to_string()),
    );
    let definition = define_method(
        "toString".to_string(),
        "()Ljava/lang/String;".to_string(),
        SyntheticOrigin::LombokToString,
    );
    out.add_method(method, definition);
}

/// The class has an `equals` or a `hashCode` of its own, with the very descriptor.
pub open spec fn has_exact_equality(methods: Seq<MethodView>) -> bool {
    has_method_spec(methods, "equals"@, "(Ljava/lang/Object;)Z"@) || has_method_spec(
        methods,
        "hashCode"@,
        "()I"@,
    )
}

/// Adds `equals`, `hashCode` and `canEqual`, unless the class has an `equals` or a `hashCode` of
/// its own.
pub fn generate_equals_and_hash_code_for_value(
    explicit_methods: &[MethodSummary],
    out: &mut SyntheticMemberSet,
)
    ensures
        final(out).deep_view() == if has_exact_equality(explicit_methods.deep_view()) {
            old(out).deep_view()
        } else {
            plus_equality(old(out).deep_view())
        },
{
    let has_equals = has_method(explicit_methods, "equals", "(Ljava/lang/Object;)Z");
    let has_hash_code = has_method(explicit_methods, "hashCode", "()I");
    if has_equals || has_hash_code {
        return;
    }
    generate_equals_method(out);
    generate_hash_code_method(out);
    generate_can_equal_method(out);
}

/// The members with the constructor that sets all fields.
pub open spec fn plus_all_args(
    out: MembersView,
    a: AnnotationView,
    methods: Seq<MethodView>,
    fields: Seq<FieldView>,
) -> MembersView {
    plus_constructors(
        out,
        params_for(chosen_from(fields, FieldChoice::NonStatic, 0)),
        0x0001,
        string_param(a, "staticConstructor"@),
        methods,
        LombokConstructorType::AllArgs,
    )
}

/// Adds the constructor that sets all fields, and its static factory.
pub fn generate_all_args_constructor_for_value(
    annotation: &AnnotationSummary,
    explicit_fields: &[FieldSummary],
    explicit_methods: &[MethodSummary],
    out: &mut SyntheticMemberSet,
)
    ensures
        final(out).deep_view() == plus_all_args(
            old(out).deep_view(),
            annotation.deep_view(),
            explicit_methods.deep_view(),
            explicit_fields.deep_view(),
        ),
{
    let fields = get_all_non_static_fields(explicit_fields);
    let params = build_constructor_params(fields.as_slice());
    let static_name = get_string_param(annotation, "staticConstructor");
    generate_constructor(
        params,
        acc_public(),
        static_name,
        explicit_methods,
        out,
        LombokConstructorType::AllArgs,
    );
}

/// The members after `@Value`: an annotation of its own for a part leaves that part to its rule.
pub open spec fn after_value(
    out: MembersView,
    a: AnnotationView,
    annos: Seq<AnnotationView>,
    methods: Seq<MethodView>,
    fields: Seq<FieldView>,
) -> MembersView {
    let first = if found(annos, annotations::GETTER@) is Some {
        out
    } else {
        after_getters(out, fields, Map::empty(), methods, 0)
    };
    let second = if found(annos, annotations::TO_STRING@) is Some {
        first
    } else {
        plus_to_string(first, methods)
    };
    let third = if found(annos, annotations::EQUALS_AND_HASH_CODE@) is Some || has_exact_equality(
        methods,
    ) {
        second
    } else {
        plus_equality(second)
    };
    if asks_constructor(annos) || has_constructor(methods) {
        third
    } else {
        plus_all_args(third, a, methods, fields)
    }
}

impl SyntheticMemberRule for ValueRule {
    open spec fn synthesized(
        &self,
        input: SyntheticInput<'_>,
        out: MembersView,
        explicit_methods: Seq<MethodView>,
        explicit_fields: Seq<FieldView>,
    ) -> MembersView {
        if !is_class_like(input.kind()) {
            out
        } else {
            match found(input.class_annotations(), annotations::VALUE@) {
                Some(a) => after_value(
                    out,
                    a,
                    input.class_annotations(),
                    explicit_methods,
                    explicit_fields,
                ),
                None => out,
            }
        }
    }

    fn synthesize(
        &self,
        input: &SyntheticInput<'_>,
        out: &mut SyntheticMemberSet,
        explicit_methods: &[MethodSummary],
        explicit_fields: &[FieldSummary],
    ) {
        if !class_like(input.ctx.tree.kind(input.decl)) {
            return;
        }
        let class_annotations = extract_class_annotations(input);
        let annos = class_annotations.as_slice();
        if let Some(value_anno) = find_lombok_annotation(annos, annotations::VALUE) {
            let config = LombokConfig::new();
            if find_lombok_annotation(annos, annotations::GETTER).is_none() {
                generate_getters_for_value(explicit_fields, explicit_methods, &config, out);
            }
            if find_lombok_annotation(annos, annotations::TO_STRING).is_none() {
                generate_to_string_for_value(explicit_methods, out);
            }
            if find_lombok_annotation(annos, annotations::EQUALS_AND_HASH_CODE).is_none() {
                generate_equals_and_hash_code_for_value(explicit_methods, out);
            }
            if !(has_any_explicit_constructor(annos) || has_any_constructor_in_source(
                explicit_methods,
            )) {
                generate_all_args_constructor_for_value(
                    value_anno,
                    explicit_fields,
                    explicit_methods,
                    out,
                );
            }
        }
    }

    proof fn lemma_grows(
        &self,
        input: SyntheticInput<'_>,
        out: MembersView,
        explicit_methods: Seq<MethodView>,
        explicit_fields: Seq<FieldView>,
    ) {
        lemma_after_getters_grows(out, explicit_fields, Map::empty(), explicit_methods, 0);
    }
}

} // verus!
