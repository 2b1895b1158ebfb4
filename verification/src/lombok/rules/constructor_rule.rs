//! Constructors for `@NoArgsConstructor`, `@RequiredArgsConstructor` and `@AllArgsConstructor`.
use vstd::prelude::*;

use crate::access_flags::{acc_public, acc_static, final_flags, is_final, is_static, static_flags};
use crate::index::{
    build_descriptor, descriptor_of, has_method, has_method_spec, AnnotationSummary, AnnotationView,
    FieldSummary, FieldView, MethodParam, MethodParams, MethodSummary, MethodView, ParamView,
};
use crate::lombok::annotations;
use crate::lombok::types::{AccessLevel, LombokConstructorType};
use crate::lombok::utils::{
    bool_param, find_lombok_annotation, found, get_annotation_value, get_bool_param,
    get_string_param, string_param, value_of,
};
use crate::synthetic::{
    define_method, extract_class_annotations, make_method, method_definition, plain_method,
    MembersView, OriginView, SyntheticInput, SyntheticMemberRule, SyntheticMemberSet,
    SyntheticOrigin,
};
use crate::text::{ends_with, find, find_text, finishes_with, str_eq, to_chars};
use crate::text_map::Duplicate;

verus! {

pub struct ConstructorRule;

/// The constructor annotations stand on such declarations.
pub open spec fn is_class_like(kind: Seq<char>) -> bool {
    kind == "class_declaration"@ || kind == "enum_declaration"@ || kind == "record_declaration"@
}

/// Whether a declaration is a class, an enum or a record.
pub fn class_like(kind: &str) -> (r: bool)
    ensures
        r == is_class_like(kind@),
{
    str_eq(kind, "class_declaration") || str_eq(kind, "enum_declaration") || str_eq(
        kind,
        "record_declaration",
    )
}

/// The access level of a constructor annotation: its element `access`, else its element `value`,
/// else public.
pub open spec fn constructor_level(a: AnnotationView) -> AccessLevel {
    match value_of(a, "access"@) {
        Some(v) if AccessLevel::told(v) is Some => AccessLevel::told(v)->0,
        _ => match value_of(a, "value"@) {
            Some(v) if AccessLevel::told(v) is Some => AccessLevel::told(v)->0,
            _ => AccessLevel::Public,
        },
    }
}

/// The access level of a constructor annotation.
pub fn parse_constructor_access_level(annotation: &AnnotationSummary) -> (r: AccessLevel)
    ensures
        r == constructor_level(annotation.deep_view()),
{
    if let Some(value) = get_annotation_value(annotation, "access") {
        if let Some(level) = AccessLevel::from_annotation_value(value) {
            return level;
        }
    }
    if let Some(value) = get_annotation_value(annotation, "value") {
        if let Some(level) = AccessLevel::from_annotation_value(value) {
            return level;
        }
    }
    AccessLevel::Public
}

/// An annotation that tells that a field is not null.
pub open spec fn is_nonnull_name(name: Seq<char>) -> bool {
    ||| name == "lombok/NonNull"@
    ||| name == "NonNull"@
    ||| ends_with(name, "/NonNull"@)
    ||| ends_with(name, "/NotNull"@)
    ||| name == "NotNull"@
    ||| ends_with(name, "/Nonnull"@)
    ||| name == "Nonnull"@
}

/// Whether a name is that of an annotation that tells that a field is not null.
pub fn names_nonnull(name: &str) -> (r: bool)
    ensures
        r == is_nonnull_name(name@),
{
    let text = to_chars(name);
    let s = text.as_slice();
    str_eq(name, "lombok/NonNull") || str_eq(name, "NonNull") || finishes_with(s, "/NonNull")
        || finishes_with(s, "/NotNull") || str_eq(name, "NotNull") || finishes_with(s, "/Nonnull")
        || str_eq(name, "Nonnull")
}

/// The field has an annotation that tells that it is not null.
pub open spec fn has_nonnull(field: FieldView) -> bool {
    exists|i: int|
        0 <= i < field.annotations.len() && is_nonnull_name(
            #[trigger] field.annotations[i].internal_name,
        )
}

/// Whether a field has an annotation that tells that it is not null.
pub fn has_nonnull_annotation(field: &FieldSummary) -> (r: bool)
    ensures
        r == has_nonnull(field.deep_view()),
{
    let ghost annos = field.annotations.deep_view();
    let mut i: usize = 0;
    while i < field.annotations.len()
        invariant
            i <= field.annotations.len(),
            annos == field.annotations.deep_view(),
            forall|k: int| 0 <= k < i ==> !is_nonnull_name(#[trigger] annos[k].internal_name),
        decreases field.annotations.len() - i,
    {
        assert(annos[i as int].internal_name == field.annotations@[i as int].internal_name@);
        if names_nonnull(field.annotations[i].internal_name.as_str()) {
            assert(is_nonnull_name(field.deep_view().annotations[i as int].internal_name));
            return true;
        }
        i += 1;
    }
    false
}

/// A field that the constructor with the required arguments sets.
pub open spec fn is_required(field: FieldView) -> bool {
    !static_flags(field.access_flags) && (final_flags(field.access_flags) || has_nonnull(field))
}

/// Which fields a constructor sets.
#[derive(Clone, Copy, Debug, PartialEq, Eq, Structural)]
pub enum FieldChoice {
    Required,
    NonStatic,
}

impl FieldChoice {
    pub open spec fn takes(self, field: FieldView) -> bool {
        match self {
            FieldChoice::Required => is_required(field),
            FieldChoice::NonStatic => !static_flags(field.access_flags),
        }
    }

    fn wants(self, field: &FieldSummary) -> (r: bool)
        ensures
            r == self.takes(field.deep_view()),
    {
        match self {
            FieldChoice::Required => !is_static(field.access_flags) && (is_final(field.access_flags)
                || has_nonnull_annotation(field)),
            FieldChoice::NonStatic => !is_static(field.access_flags),
        }
    }
}

/// The fields from the `i`-th on that a constructor sets.
pub open spec fn chosen_from(fields: Seq<FieldView>, choice: FieldChoice, i: int) -> Seq<FieldView>
    decreases fields.len() - i,
{
    if i < 0 || i >= fields.len() {
        Seq::empty()
    } else if choice.takes(fields[i]) {
        seq![fields[i]] + chosen_from(fields, choice, i + 1)
    } else {
        chosen_from(fields, choice, i + 1)
    }
}

fn choose_fields<'a>(fields: &'a [FieldSummary], choice: FieldChoice) -> (r: Vec<&'a FieldSummary>)
    ensures
        r.deep_view() == chosen_from(fields.deep_view(), choice, 0),
{
    let ghost all = fields.deep_view();
    let mut out: Vec<&'a FieldSummary> = Vec::new();
    let mut i: usize = 0;
    while i < fields.len()
        invariant
            i <= fields.len(),
            all == fields.deep_view(),
            out.deep_view() + chosen_from(all, choice, i as int) =~= chosen_from(all, choice, 0),
        decreases fields.len() - i,
    {
        let ghost done = out.deep_view();
        let field: &FieldSummary = &fields[i];
        assert(all[i as int] == field.deep_view());
        if choice.wants(field) {
            out.push(field);
            assert(out.deep_view() =~= done.push(field.deep_view()));
        }
        i += 1;
    }
    assert(out.deep_view() =~= chosen_from(all, choice, 0));
    out
}

/// The fields that `@RequiredArgsConstructor` sets: those that are not static and are final or
/// not null.
pub fn get_required_fields<'a>(fields: &'a [FieldSummary]) -> (r: Vec<&'a FieldSummary>)
    ensures
        r.deep_view() == chosen_from(fields.deep_view(), FieldChoice::Required, 0),
{
    choose_fields(fields, FieldChoice::Required)
}

/// The fields that `@AllArgsConstructor` sets: those that are not static.
pub fn get_all_non_static_fields<'a>(fields: &'a [FieldSummary]) -> (r: Vec<&'a FieldSummary>)
    ensures
        r.deep_view() == chosen_from(fields.deep_view(), FieldChoice::NonStatic, 0),
{
    choose_fields(fields, FieldChoice::NonStatic)
}

/// There is a final field that is not static.
pub open spec fn has_final_fields(fields: Seq<FieldView>) -> bool {
    exists|i: int|
        0 <= i < fields.len() && final_flags(#[trigger] fields[i].access_flags) && !static_flags(
            fields[i].access_flags,
        )
}

/// Whether there is a final field that is not static; each such field counts as uninitialized.
pub fn has_uninitialized_final_fields(fields: &[FieldSummary]) -> (r: bool)
    ensures
        r == has_final_fields(fields.deep_view()),
{
    let ghost all = fields.deep_view();
    let mut i: usize = 0;
    while i < fields.len()
        invariant
            i <= fields.len(),
            all == fields.deep_view(),
            forall|k: int|
                0 <= k < i ==> !(final_flags(#[trigger] all[k].access_flags) && !static_flags(
                    all[k].access_flags,
                )),
        decreases fields.len() - i,
    {
        let flags = fields[i].access_flags;
        assert(all[i as int].access_flags == flags);
        if is_final(flags) && !is_static(flags) {
            return true;
        }
        i += 1;
    }
    false
}

/// An annotation that goes with a field to the parameter that sets it.
pub open spec fn is_copyable_name(name: Seq<char>) -> bool {
    ||| find(name, "NonNull"@) is Some
    ||| find(name, "NotNull"@) is Some
    ||| find(name, "Nonnull"@) is Some
    ||| find(name, "Nullable"@) is Some
}

/// Whether an annotation goes with a field to the parameter that sets it.
pub fn is_copyable_annotation(annotation: &AnnotationSummary) -> (r: bool)
    ensures
        r == is_copyable_name(annotation.deep_view().internal_name),
{
    let text = to_chars(annotation.internal_name.as_str());
    let s = text.as_slice();
    find_text(s, "NonNull").is_some() || find_text(s, "NotNull").is_some() || find_text(
        s,
        "Nonnull",
    ).is_some() || find_text(s, "Nullable").is_some()
}

/// The annotations from the `i`-th on that go with a field to a parameter.
pub open spec fn kept_from(annos: Seq<AnnotationView>, i: int) -> Seq<AnnotationView>
    decreases annos.len() - i,
{
    if i < 0 || i >= annos.len() {
        Seq::empty()
    } else if is_copyable_name(annos[i].internal_name) {
        seq![annos[i]] + kept_from(annos, i + 1)
    } else {
        kept_from(annos, i + 1)
    }
}

fn keep_annotations(annos: &Vec<AnnotationSummary>) -> (r: Vec<AnnotationSummary>)
    ensures
        r.deep_view() == kept_from(annos.deep_view(), 0),
{
    let ghost all = annos.deep_view();
    let mut out: Vec<AnnotationSummary> = Vec::new();
    let mut i: usize = 0;
    while i < annos.len()
        invariant
            i <= annos.len(),
            all == annos.deep_view(),
            out.deep_view() + kept_from(all, i as int) =~= kept_from(all, 0),
        decreases annos.len() - i,
    {
        let ghost done = out.deep_view();
        assert(all[i as int] == annos@[i as int].deep_view());
        if is_copyable_annotation(&annos[i]) {
            out.push(annos[i].duplicate());
            assert(out.deep_view() =~= done.push(all[i as int]));
        }
        i += 1;
    }
    assert(out.deep_view() =~= kept_from(all, 0));
    out
}

/// The parameter that sets a field.
pub open spec fn param_for(field: FieldView) -> ParamView {
    ParamView {
        descriptor: field.descriptor,
        name: field.name,
        annotations: kept_from(field.annotations, 0),
    }
}

/// The parameters that set fields.
pub open spec fn params_for(fields: Seq<FieldView>) -> Seq<ParamView> {
    fields.map_values(|f: FieldView| param_for(f))
}

/// The parameters that set fields.
pub fn build_constructor_params(fields: &[&FieldSummary]) -> (r: MethodParams)
    ensures
        r.deep_view() == params_for(fields.deep_view()),
{
    let ghost all = fields.deep_view();
    let mut items: Vec<MethodParam> = Vec::new();
    let mut i: usize = 0;
    while i < fields.len()
        invariant
            i <= fields.len(),
            all == fields.deep_view(),
            items@.len() == i,
            forall|k: int| 0 <= k < i ==> #[trigger] items@[k].deep_view() == params_for(all)[k],
        decreases fields.len() - i,
    {
        let field: &FieldSummary = fields[i];
        assert(all[i as int] == field.deep_view());
        items.push(
            MethodParam {
                descriptor: field.descriptor.clone(),
                name: field.name.clone(),
                annotations: keep_annotations(&field.annotations),
            },
        );
        i += 1;
    }
    let r = MethodParams { items };
    assert(r.deep_view() =~= params_for(all));
    r
}

/// The descriptor of a constructor.
pub open spec fn constructor_desc(params: Seq<ParamView>) -> Seq<char> {
    descriptor_of(params, seq!['V'])
}

/// The descriptor of a constructor.
pub fn build_constructor_descriptor(params: &MethodParams) -> (r: String)
    ensures
        r@ == constructor_desc(params.deep_view()),
{
    proof {
        reveal_strlit("V");
    }
    assert("V"@ =~= seq!['V']);
    build_descriptor(params, "V")
}

/// Whether a constructor with a given descriptor is among the methods.
pub fn constructor_exists(explicit_methods: &[MethodSummary], descriptor: &str) -> (r: bool)
    ensures
        r == has_method_spec(explicit_methods.deep_view(), "<init>"@, descriptor@),
{
    has_method(explicit_methods, "<init>", descriptor)
}

/// The members with a constructor more.
pub open spec fn plus_constructor(
    out: MembersView,
    params: Seq<ParamView>,
    access_flags: u16,
    t: LombokConstructorType,
) -> MembersView {
    out.plus_method(
        plain_method("<init>"@, params, access_flags, None),
        method_definition(
            "<init>"@,
            constructor_desc(params),
            OriginView::LombokConstructor { constructor_type: t },
        ),
    )
}

/// A method with a given name and number of parameters is among the methods.
pub open spec fn has_arity(methods: Seq<MethodView>, name: Seq<char>, n: nat) -> bool {
    exists|i: int|
        0 <= i < methods.len() && #[trigger] methods[i].name == name && methods[i].params.len() == n
}

/// The members with a static factory more, if the annotation names one and the class has no
/// method with that name and as many parameters.
pub open spec fn plus_factory(
    out: MembersView,
    name: Option<Seq<char>>,
    params: Seq<ParamView>,
    explicit_methods: Seq<MethodView>,
    t: LombokConstructorType,
) -> MembersView {
    match name {
        Some(n) => if n.len() == 0 || has_arity(explicit_methods, n, params.len()) {
            out
        } else {
            out.plus_method(
                plain_method(n, params, 0x0009, Some("java/lang/Object"@)),
                method_definition(
                    n,
                    descriptor_of(params, "Ljava/lang/Object;"@),
                    OriginView::LombokConstructor { constructor_type: t },
                ),
            )
        },
        None => out,
    }
}

fn arity_exists(methods: &[MethodSummary], name: &str, n: usize) -> (r: bool)
    ensures
        r == has_arity(methods.deep_view(), name@, n as nat),
{
    let ghost all = methods.deep_view();
    let mut i: usize = 0;
    while i < methods.len()
        invariant
            i <= methods.len(),
            all == methods.deep_view(),
            forall|k: int|
                0 <= k < i ==> !(#[trigger] all[k].name == name@ && all[k].params.len() == n),
        decreases methods.len() - i,
    {
        assert(all[i as int] == methods@[i as int].deep_view());
        if str_eq(methods[i].name.as_str(), name) && methods[i].params.len() == n {
            assert(all[i as int].name == name@);
            return true;
        }
        i += 1;
    }
    false
}

/// Adds a static factory.
pub fn generate_static_factory_method(
    static_name: Option<&str>,
    params: &MethodParams,
    explicit_methods: &[MethodSummary],
    out: &mut SyntheticMemberSet,
    constructor_type: LombokConstructorType,
)
    ensures
        final(out).deep_view() == plus_factory(
            old(out).deep_view(),
            static_name.deep_view(),
            params.deep_view(),
            explicit_methods.deep_view(),
            constructor_type,
        ),
{
    if let Some(name) = static_name {
        let chars = to_chars(name);
        if chars.len() == 0 || arity_exists(explicit_methods, name, params.len()) {
            return;
        }
        assert(0x0001u16 | 0x0008u16 == 0x0009u16) by (bit_vector);
        let descriptor = build_descriptor(params, "Ljava/lang/Object;");
        let method = make_method(
            name.to_string(),
            params.duplicate(),
            acc_public() | acc_static(),
            Some("java/lang/Object".to_string()),
        );
        let definition = define_method(
            name.to_string(),
            descriptor,
            SyntheticOrigin::LombokConstructor { constructor_type },
        );
        out.add_method(method, definition);
    }
}

/// The members after a constructor annotation: with the constructor, unless the class has it, and
/// with the static factory that the annotation names.
pub open spec fn plus_constructors(
    out: MembersView,
    params: Seq<ParamView>,
    access_flags: u16,
    static_name: Option<Seq<char>>,
    explicit_methods: Seq<MethodView>,
    t: LombokConstructorType,
) -> MembersView {
    if has_method_spec(explicit_methods, "<init>"@, constructor_desc(params)) {
        out
    } else {
        plus_factory(
            plus_constructor(out, params, access_flags, t),
            static_name,
            params,
            explicit_methods,
            t,
        )
    }
}

/// Adds a constructor and its static factory.
pub fn generate_constructor(
    params: MethodParams,
    access_flags: u16,
    static_name: Option<&str>,
    explicit_methods: &[MethodSummary],
    out: &mut SyntheticMemberSet,
    constructor_type: LombokConstructorType,
)
    ensures
        final(out).deep_view() == plus_constructors(
            old(out).deep_view(),
            params.deep_view(),
            access_flags,
            static_name.deep_view(),
            explicit_methods.deep_view(),
            constructor_type,
        ),
{
    let descriptor = build_constructor_descriptor(&params);
    if constructor_exists(explicit_methods, descriptor.as_str()) {
        return;
    }
    let method = make_method("<init>".to_string(), params.duplicate(), access_flags, None);
    let definition = define_method(
        "<init>".to_string(),
        descriptor,
        SyntheticOrigin::LombokConstructor { constructor_type },
    );
    out.add_method(method, definition);
    generate_static_factory_method(static_name, &params, explicit_methods, out, constructor_type);
}

/// The flags of a constructor: those of an enum are private whatever the annotation says.
pub open spec fn constructor_flags(a: AnnotationView, is_enum: bool) -> u16 {
    if is_enum {
        AccessLevel::Private.flags()
    } else {
        constructor_level(a).flags()
    }
}

fn flags_for(annotation: &AnnotationSummary, is_enum: bool) -> (r: u16)
    ensures
        r == constructor_flags(annotation.deep_view(), is_enum),
{
    let access = if is_enum {
        AccessLevel::Private
    } else {
        parse_constructor_access_level(annotation)
    };
    access.to_access_flags()
}

/// The members after `@NoArgsConstructor`: where a final field would stay uninitialized, the
/// annotation has to force the constructor.
pub open spec fn after_no_args(
    out: MembersView,
    a: AnnotationView,
    methods: Seq<MethodView>,
    fields: Seq<FieldView>,
    is_enum: bool,
) -> MembersView {
    if !bool_param(a, "force"@, false) && has_final_fields(fields) {
        out
    } else {
        plus_constructors(
            out,
            Seq::empty(),
            constructor_flags(a, is_enum),
            string_param(a, "staticName"@),
            methods,
            LombokConstructorType::NoArgs,
        )
    }
}

/// Adds the constructor without arguments.
pub fn generate_no_args_constructor(
    annotation: &AnnotationSummary,
    explicit_methods: &[MethodSummary],
    explicit_fields: &[FieldSummary],
    is_enum: bool,
    out: &mut SyntheticMemberSet,
)
    ensures
        final(out).deep_view() == after_no_args(
            old(out).deep_view(),
            annotation.deep_view(),
            explicit_methods.deep_view(),
            explicit_fields.deep_view(),
            is_enum,
        ),
{
    let force = get_bool_param(annotation, "force", false);
    let static_name = get_string_param(annotation, "staticName");
    if !force && has_uninitialized_final_fields(explicit_fields) {
        return;
    }
    generate_constructor(
        MethodParams::empty(),
        flags_for(annotation, is_enum),
        static_name,
        explicit_methods,
        out,
        LombokConstructorType::NoArgs,
    );
}

/// The members after an annotation for a constructor that sets fields.
pub open spec fn after_args(
    out: MembersView,
    a: AnnotationView,
    methods: Seq<MethodView>,
    fields: Seq<FieldView>,
    is_enum: bool,
    choice: FieldChoice,
    t: LombokConstructorType,
) -> MembersView {
    plus_constructors(
        out,
        params_for(chosen_from(fields, choice, 0)),
        constructor_flags(a, is_enum),
        string_param(a, "staticName"@),
        methods,
        t,
    )
}

/// Adds the constructor that sets the required fields.
pub fn generate_required_args_constructor(
    annotation: &AnnotationSummary,
    explicit_methods: &[MethodSummary],
    explicit_fields: &[FieldSummary],
    is_enum: bool,
    out: &mut SyntheticMemberSet,
)
    ensures
        final(out).deep_view() == after_args(
            old(out).deep_view(),
            annotation.deep_view(),
            explicit_methods.deep_view(),
            explicit_fields.deep_view(),
            is_enum,
            FieldChoice::Required,
            LombokConstructorType::RequiredArgs,
        ),
{
    let static_name = get_string_param(annotation, "staticName");
    let fields = get_required_fields(explicit_fields);
    let params = build_constructor_params(fields.as_slice());
    generate_constructor(
        params,
        flags_for(annotation, is_enum),
        static_name,
        explicit_methods,
        out,
        LombokConstructorType::RequiredArgs,
    );
}

/// Adds the constructor that sets all fields.
pub fn generate_all_args_constructor(
    annotation: &AnnotationSummary,
    explicit_methods: &[MethodSummary],
    explicit_fields: &[FieldSummary],
    is_enum: bool,
    out: &mut SyntheticMemberSet,
)
    ensures
        final(out).deep_view() == after_args(
            old(out).deep_view(),
            annotation.deep_view(),
            explicit_methods.deep_view(),
            explicit_fields.deep_view(),
            is_enum,
            FieldChoice::NonStatic,
            LombokConstructorType::AllArgs,
        ),
{
    let static_name = get_string_param(annotation, "staticName");
    let fields = get_all_non_static_fields(explicit_fields);
    let params = build_constructor_params(fields.as_slice());
    generate_constructor(
        params,
        flags_for(annotation, is_enum),
        static_name,
        explicit_methods,
        out,
        LombokConstructorType::AllArgs,
    );
}

/// The members after the annotations of a class.
pub open spec fn after_constructors(
    out: MembersView,
    annos: Seq<AnnotationView>,
    methods: Seq<MethodView>,
    fields: Seq<FieldView>,
    is_enum: bool,
) -> MembersView {
    let first = match found(annos, annotations::NO_ARGS_CONSTRUCTOR@) {
        Some(a) => after_no_args(out, a, methods, fields, is_enum),
        None => out,
    };
    let second = match found(annos, annotations::REQUIRED_ARGS_CONSTRUCTOR@) {
        Some(a) => after_args(
            first,
            a,
            methods,
            fields,
            is_enum,
            FieldChoice::Required,
            LombokConstructorType::RequiredArgs,
        ),
        None => first,
    };
    match found(annos, annotations::ALL_ARGS_CONSTRUCTOR@) {
        Some(a) => after_args(
            second,
            a,
            methods,
            fields,
            is_enum,
            FieldChoice::NonStatic,
            LombokConstructorType::AllArgs,
        ),
        None => second,
    }
}

impl SyntheticMemberRule for ConstructorRule {
    open spec fn synthesized(
        &self,
        input: SyntheticInput<'_>,
        out: MembersView,
        explicit_methods: Seq<MethodView>,
        explicit_fields: Seq<FieldView>,
    ) -> MembersView {
        if is_class_like(input.kind()) {
            after_constructors(
                out,
                input.class_annotations(),
                explicit_methods,
                explicit_fields,
                input.kind() == "enum_declaration"@,
            )
        } else {
            out
        }
    }

    fn synthesize(
        &self,
        input: &SyntheticInput<'_>,
        out: &mut SyntheticMemberSet,
        explicit_methods: &[MethodSummary],
        explicit_fields: &[FieldSummary],
    ) {
        let kind = input.ctx.tree.kind(input.decl);
        if !class_like(kind) {
            return;
        }
        let is_enum = str_eq(kind, "enum_declaration");
        let annos = extract_class_annotations(input);
        if let Some(a) = find_lombok_annotation(annos.as_slice(), annotations::NO_ARGS_CONSTRUCTOR) {
            generate_no_args_constructor(a, explicit_methods, explicit_fields, is_enum, out);
        }
        if let Some(a) = find_lombok_annotation(
            annos.as_slice(),
            annotations::REQUIRED_ARGS_CONSTRUCTOR,
        ) {
            generate_required_args_constructor(a, explicit_methods, explicit_fields, is_enum, out);
        }
        if let Some(a) = find_lombok_annotation(
            annos.as_slice(),
            annotations::ALL_ARGS_CONSTRUCTOR,
        ) {
            generate_all_args_constructor(a, explicit_methods, explicit_fields, is_enum, out);
        }
    }

    proof fn lemma_grows(
        &self,
        input: SyntheticInput<'_>,
        out: MembersView,
        explicit_methods: Seq<MethodView>,
        explicit_fields: Seq<FieldView>,
    ) {
    }
}

} // verus!
