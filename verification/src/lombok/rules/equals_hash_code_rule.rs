//! The methods `equals`, `hashCode` and `canEqual` for `@EqualsAndHashCode`.
use vstd::prelude::*;

use crate::access_flags::{
    acc_protected, acc_public, is_static, is_transient, static_flags, transient_flags,
};
use crate::index::{
    has_method_spec, AnnotationSummary, AnnotationView, FieldSummary, FieldView, MethodParam,
    MethodParams, MethodSummary, MethodView, ParamView,
};
use crate::lombok::annotations;
use crate::lombok::utils::{
    bool_param, find_lombok_annotation, found, get_bool_param, get_string_array_param,
    strings_param,
};
use crate::synthetic::{
    define_method, extract_class_annotations, make_method, method_definition, plain_method,
    MembersView, OriginView, SyntheticInput, SyntheticMemberRule, SyntheticMemberSet,
    SyntheticOrigin,
};
use crate::text::{begins_with, starts_with, str_eq, to_chars};

use super::constructor_rule::{class_like, is_class_like};

verus! {

pub struct EqualsAndHashCodeRule;

/// The one parameter of `equals` and `canEqual`.
pub open spec fn other_param() -> ParamView {
    ParamView {
        descriptor: "Ljava/lang/Object;"@,
        name: "other"@,
        annotations: Seq::empty(),
    }
}

fn make_other_params() -> (r: MethodParams)
    ensures
        r.deep_view() == seq![other_param()],
{
    let mut items: Vec<MethodParam> = Vec::new();
    let param = MethodParam {
        descriptor: "Ljava/lang/Object;".to_string(),
        name: "other".to_string(),
        annotations: Vec::new(),
    };
    assert(param.deep_view().annotations =~= Seq::<AnnotationView>::empty());
    items.push(param);
    let r = MethodParams { items };
    assert(r.deep_view() =~= seq![other_param()]);
    r
}

/// The members with `equals`.
pub open spec fn plus_equals(out: MembersView) -> MembersView {
    out.plus_method(
        plain_method("equals"@, seq![other_param()], 0x0001, Some("Z"@)),
        method_definition("equals"@, "(Ljava/lang/Object;)Z"@, OriginView::LombokEquals),
    )
}

/// The members with `hashCode`.
pub open spec fn plus_hash_code(out: MembersView) -> MembersView {
    out.plus_method(
        plain_method("hashCode"@, Seq::empty(), 0x0001, Some("I"@)),
        method_definition("hashCode"@, "()I"@, OriginView::LombokHashCode),
    )
}

/// The members with `canEqual`, which only subclasses see.
pub open spec fn plus_can_equal(out: MembersView) -> MembersView {
    out.plus_method(
        plain_method("canEqual"@, seq![other_param()], 0x0004, Some("Z"@)),
        method_definition("canEqual"@, "(Ljava/lang/Object;)Z"@, OriginView::LombokEquals),
    )
}

/// The members with the three methods.
pub open spec fn plus_equality(out: MembersView) -> MembersView {
    plus_can_equal(plus_hash_code(plus_equals(out)))
}

/// Adds `equals`.
pub fn generate_equals_method(out: &mut SyntheticMemberSet)
    ensures
        final(out).deep_view() == plus_equals(old(out).deep_view()),
{
    let method = make_method(
        "equals".to_string(),
        make_other_params(),
        acc_public(),
        Some("Z".to_string()),
    );
    let definition = define_method(
        "equals".to_string(),
        "(Ljava/lang/Object;)Z".to_string(),
        SyntheticOrigin::LombokEquals,
    );
    out.add_method(method, definition);
}

/// Adds `hashCode`.
pub fn generate_hash_code_method(out: &mut SyntheticMemberSet)
    ensures
        final(out).deep_view() == plus_hash_code(old(out).deep_view()),
{
    let method = make_method(
        "hashCode".to_string(),
        MethodParams::empty(),
        acc_public(),
        Some("I".to_string()),
    );
    let definition = define_method(
        "hashCode".to_string(),
        "()I".to_string(),
        SyntheticOrigin::LombokHashCode,
    );
    out.add_method(method, definition);
}

/// Adds `canEqual`.
pub fn generate_can_equal_method(out: &mut SyntheticMemberSet)
    ensures
        final(out).deep_view() == plus_can_equal(old(out).deep_view()),
{
    let method = make_method(
        "canEqual".to_string(),
        make_other_params(),
        acc_protected(),
        Some("Z".to_string()),
    );
    let definition = define_method(
        "canEqual".to_string(),
        "(Ljava/lang/Object;)Z".to_string(),
        SyntheticOrigin::LombokEquals,
    );
    out.add_method(method, definition);
}

/// The method is an `equals` that takes an object.
pub open spec fn is_equals(m: MethodView) -> bool {
    &&& m.name == "equals"@
    &&& m.params.len() == 1
    &&& m.params[0].descriptor == "Ljava/lang/Object;"@ || m.params[0].descriptor == "LObject;"@
}

/// The method is a `hashCode` without parameters.
pub open spec fn is_hash_code(m: MethodView) -> bool {
    m.name == "hashCode"@ && m.params.len() == 0
}

/// A method with a given name and descriptor is among the methods. Of `equals` and `hashCode` only
/// the parameters count, so that the way a return type is written makes no difference.
pub open spec fn has_equality_method(
    methods: Seq<MethodView>,
    name: Seq<char>,
    descriptor: Seq<char>,
) -> bool {
    if name == "equals"@ {
        exists|i: int| 0 <= i < methods.len() && is_equals(#[trigger] methods[i])
    } else if name == "hashCode"@ {
        exists|i: int| 0 <= i < methods.len() && is_hash_code(#[trigger] methods[i])
    } else {
        has_method_spec(methods, name, descriptor)
    }
}

/// Whether a method with a given name and descriptor is among the methods, where of `equals` and
/// `hashCode` only the parameters count.
pub fn has_method(methods: &[MethodSummary], name: &str, descriptor: &str) -> (r: bool)
    ensures
        r == has_equality_method(methods.deep_view(), name@, descriptor@),
{
    let for_equals = str_eq(name, "equals");
    let for_hash_code = str_eq(name, "hashCode");
    if !for_equals && !for_hash_code {
        return crate::index::has_method(methods, name, descriptor);
    }
    let ghost all = methods.deep_view();
    let mut i: usize = 0;
    while i < methods.len()
        invariant
            i <= methods.len(),
            all == methods.deep_view(),
            for_equals == (name@ == "equals"@),
            for_hash_code == (name@ == "hashCode"@),
            for_equals || for_hash_code,
            for_equals ==> forall|k: int| 0 <= k < i ==> !is_equals(#[trigger] all[k]),
            !for_equals ==> forall|k: int| 0 <= k < i ==> !is_hash_code(#[trigger] all[k]),
        decreases methods.len() - i,
    {
        let m: &MethodSummary = &methods[i];
        assert(all[i as int] == m.deep_view());
        if for_equals {
            if str_eq(m.name.as_str(), "equals") && m.params.len() == 1 {
                let descriptor = m.params.items[0].descriptor.as_str();
                assert(m.params.deep_view()[0].descriptor == descriptor@);
                if str_eq(descriptor, "Ljava/lang/Object;") || str_eq(descriptor, "LObject;") {
                    assert(is_equals(all[i as int]));
                    return true;
                }
            }
        } else if str_eq(m.name.as_str(), "hashCode") && m.params.is_empty() {
            assert(is_hash_code(all[i as int]));
            return true;
        }
        i += 1;
    }
    false
}

/// One of the texts is a given one.
pub open spec fn holds(texts: Seq<Seq<char>>, text: Seq<char>) -> bool {
    texts.contains(text)
}

fn is_among(texts: &[String], text: &str) -> (r: bool)
    ensures
        r == holds(texts.deep_view(), text@),
{
    let ghost all = texts.deep_view();
    let mut i: usize = 0;
    while i < texts.len()
        invariant
            i <= texts.len(),
            all == texts.deep_view(),
            forall|k: int| 0 <= k < i ==> #[trigger] all[k] != text@,
        decreases texts.len() - i,
    {
        assert(all[i as int] == texts@[i as int]@);
        if str_eq(texts[i].as_str(), text) {
            assert(all.contains(text@));
            return true;
        }
        i += 1;
    }
    false
}

/// One of two names is that of an annotation of the field.
pub open spec fn marked(field: FieldView, long: Seq<char>, short: Seq<char>) -> bool {
    exists|i: int|
        0 <= i < field.annotations.len() && ((#[trigger] field.annotations[i]).internal_name == long
            || field.annotations[i].internal_name == short)
}

fn is_marked(field: &FieldSummary, long: &str, short: &str) -> (r: bool)
    ensures
        r == marked(field.deep_view(), long@, short@),
{
    let ghost all = field.annotations.deep_view();
    let mut i: usize = 0;
    while i < field.annotations.len()
        invariant
            i <= field.annotations.len(),
            all == field.annotations.deep_view(),
            forall|k: int|
                0 <= k < i ==> !((#[trigger] all[k]).internal_name == long@ || all[k].internal_name
                    == short@),
        decreases field.annotations.len() - i,
    {
        let name = field.annotations[i].internal_name.as_str();
        assert(all[i as int].internal_name == name@);
        if str_eq(name, long) || str_eq(name, short) {
            assert(field.deep_view().annotations[i as int].internal_name == name@);
            return true;
        }
        i += 1;
    }
    false
}

/// The field takes part in `equals` and `hashCode`: static and transient fields never do; where
/// `of` lists fields only those do; else a field that begins with `$`, is listed in `exclude` or
/// is marked as excluded does not, and where only marked fields take part it has to be marked as
/// included.
pub open spec fn takes_part(
    field: FieldView,
    exclude: Seq<Seq<char>>,
    of: Seq<Seq<char>>,
    only_marked: bool,
) -> bool {
    &&& !static_flags(field.access_flags)
    &&& !transient_flags(field.access_flags)
    &&& if of.len() > 0 {
        holds(of, field.name)
    } else {
        &&& only_marked || !starts_with(field.name, "$"@)
        &&& !holds(exclude, field.name)
        &&& !marked(
            field,
            "lombok/EqualsAndHashCode$Exclude"@,
            "EqualsAndHashCode$Exclude"@,
        )
        &&& only_marked ==> marked(
            field,
            "lombok/EqualsAndHashCode$Include"@,
            "EqualsAndHashCode$Include"@,
        )
    }
}

fn is_taking_part(
    field: &FieldSummary,
    exclude: &[String],
    of: &[String],
    only_marked: bool,
) -> (r: bool)
    ensures
        r == takes_part(field.deep_view(), exclude.deep_view(), of.deep_view(), only_marked),
{
    let name = field.name.as_str();
    if is_static(field.access_flags) || is_field_transient(field) {
        return false;
    }
    assert(of.deep_view().len() == of@.len());
    let text = to_chars(name);
    if begins_with(text.as_slice(), "$") && of.len() == 0 && !only_marked {
        return false;
    }
    if of.len() > 0 {
        return is_among(of, name);
    }
    if is_among(exclude, name) {
        return false;
    }
    let included = is_marked(
        field,
        "lombok/EqualsAndHashCode$Include",
        "EqualsAndHashCode$Include",
    );
    let excluded = is_marked(
        field,
        "lombok/EqualsAndHashCode$Exclude",
        "EqualsAndHashCode$Exclude",
    );
    !excluded && (!only_marked || included)
}

/// The names of the fields from the `i`-th on that take part.
pub open spec fn parts_from(
    fields: Seq<FieldView>,
    exclude: Seq<Seq<char>>,
    of: Seq<Seq<char>>,
    only_marked: bool,
    i: int,
) -> Seq<Seq<char>>
    decreases fields.len() - i,
{
    if i < 0 || i >= fields.len() {
        Seq::empty()
    } else if takes_part(fields[i], exclude, of, only_marked) {
        seq![fields[i].name] + parts_from(fields, exclude, of, only_marked, i + 1)
    } else {
        parts_from(fields, exclude, of, only_marked, i + 1)
    }
}

/// The names of the fields that take part in `equals` and `hashCode`.
pub fn determine_fields_for_equals_hash_code(
    explicit_fields: &[FieldSummary],
    exclude_fields: &[String],
    of_fields: &[String],
    only_explicitly_included: bool,
) -> (r: Vec<String>)
    ensures
        r.deep_view() == parts_from(
            explicit_fields.deep_view(),
            exclude_fields.deep_view(),
            of_fields.deep_view(),
            only_explicitly_included,
            0,
        ),
{
    let ghost all = explicit_fields.deep_view();
    let ghost exclude = exclude_fields.deep_view();
    let ghost of = of_fields.deep_view();
    let mut out: Vec<String> = Vec::new();
    let mut i: usize = 0;
    while i < explicit_fields.len()
        invariant
            i <= explicit_fields.len(),
            all == explicit_fields.deep_view(),
            exclude == exclude_fields.deep_view(),
            of == of_fields.deep_view(),
            out.deep_view() + parts_from(
                all,
                exclude,
                of,
                only_explicitly_included,
                i as int,
            ) =~= parts_from(all, exclude, of, only_explicitly_included, 0),
        decreases explicit_fields.len() - i,
    {
        let ghost done = out.deep_view();
        let field: &FieldSummary = &explicit_fields[i];
        assert(all[i as int] == field.deep_view());
        if is_taking_part(field, exclude_fields, of_fields, only_explicitly_included) {
            out.push(field.name.clone());
            assert(out.deep_view() =~= done.push(field.name@));
        }
        i += 1;
    }
    assert(out.deep_view() =~= parts_from(all, exclude, of, only_explicitly_included, 0));
    out
}

/// The names of the fields that take part by what an annotation says.
pub open spec fn parts_by(a: AnnotationView, fields: Seq<FieldView>) -> Seq<Seq<char>> {
    parts_from(
        fields,
        strings_param(a, "exclude"@),
        strings_param(a, "of"@),
        bool_param(a, "onlyExplicitlyIncluded"@, false),
        0,
    )
}

/// The names of the fields that take part by what an annotation says.
pub fn fields_by_annotation(annotation: &AnnotationSummary, explicit_fields: &[FieldSummary]) -> (r:
    Vec<String>)
    ensures
        r.deep_view() == parts_by(annotation.deep_view(), explicit_fields.deep_view()),
{
    let only_explicitly_included = get_bool_param(annotation, "onlyExplicitlyIncluded", false);
    let exclude_fields = get_string_array_param(annotation, "exclude");
    let of_fields = get_string_array_param(annotation, "of");
    determine_fields_for_equals_hash_code(
        explicit_fields,
        exclude_fields.as_slice(),
        of_fields.as_slice(),
        only_explicitly_included,
    )
}

/// Whether a field is transient.
pub fn is_field_transient(field: &FieldSummary) -> (r: bool)
    ensures
        r == transient_flags(field.access_flags),
{
    is_transient(field.access_flags)
}

/// The class has an `equals` or a `hashCode` of its own.
pub open spec fn has_equality(methods: Seq<MethodView>) -> bool {
    has_equality_method(methods, "equals"@, "(Ljava/lang/Object;)Z"@) || has_equality_method(
        methods,
        "hashCode"@,
        "()I"@,
    )
}

/// Adds the three methods, unless the class has an `equals` or a `hashCode` of its own: the two
/// have to agree.
pub fn generate_equals_and_hash_code_methods(
    explicit_methods: &[MethodSummary],
    out: &mut SyntheticMemberSet,
)
    ensures
        final(out).deep_view() == if has_equality(explicit_methods.deep_view()) {
            old(out).deep_view()
        } else {
            plus_equality(old(out).deep_view())
        },
{
    let has_equals = has_method(explicit_methods, "equals", "(Ljava/lang/Object;)Z");
    let has_hash_code = has_method(explicit_methods, "hashCode", "()I");
    if has_equals || has_hash_code {
        return;
    }
    generate_equals_method(out);
    generate_hash_code_method(out);
    generate_can_equal_method(out);
}

impl SyntheticMemberRule for EqualsAndHashCodeRule {
    open spec fn synthesized(
        &self,
        input: SyntheticInput<'_>,
        out: MembersView,
        explicit_methods: Seq<MethodView>,
        explicit_fields: Seq<FieldView>,
    ) -> MembersView {
        if !is_class_like(input.kind()) || found(
            input.class_annotations(),
            annotations::EQUALS_AND_HASH_CODE@,
        ) is None || has_equality(explicit_methods) {
            out
        } else {
            plus_equality(out)
        }
    }

    fn synthesize(
        &self,
        input: &SyntheticInput<'_>,
        out: &mut SyntheticMemberSet,
        explicit_methods: &[MethodSummary],
        explicit_fields: &[FieldSummary],
    ) {
        if !class_like(input.ctx.tree.kind(input.decl)) {
            return;
        }
        let annos = extract_class_annotations(input);
        if find_lombok_annotation(annos.as_slice(), annotations::EQUALS_AND_HASH_CODE).is_some() {
            generate_equals_and_hash_code_methods(explicit_methods, out);
        }
    }

    proof fn lemma_grows(
        &self,
        input: SyntheticInput<'_>,
        out: MembersView,
        explicit_methods: Seq<MethodView>,
        explicit_fields: Seq<FieldView>,
    ) {
    }
}

} // verus!
