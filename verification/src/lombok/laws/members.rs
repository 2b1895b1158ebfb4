//! Which members the annotations of a class ask for.
use vstd::prelude::*;

use crate::index::{has_method_spec, AnnotationView, FieldView, MethodView, ParamView, ValueView};
use crate::lombok::annotations as constants;
use crate::lombok::rules::constructor_rule::{
    chosen_from, constructor_desc, constructor_level, has_arity, has_final_fields, has_nonnull,
    is_copyable_name, kept_from, params_for, plus_constructors, ConstructorRule, FieldChoice,
};
use crate::lombok::rules::equals_hash_code_rule::{
    has_equality, parts_from, takes_part, EqualsAndHashCodeRule,
};
use crate::lombok::rules::log_rule::{framework_from, known_frameworks, LogRule};
use crate::lombok::rules::value_rule::{
    after_getter, after_getters, after_value, has_constructor, has_exact_equality, has_to_string,
    ValueRule,
};
use crate::lombok::rules::with_rule::{
    after_field, after_fields, owner_descriptor, with_annotation, with_name, WithRule,
};
use crate::lombok::types::AccessLevel;
use crate::lombok::utils::{bool_param, capitalized, found, getter_name, level_of, stripped};
use crate::synthetic::{MembersView, SyntheticInput, SyntheticMemberRule};
use crate::text::{find, starts_with};

use super::{lemma_after_fields_new, lemma_getters_are_new};

verus! {

/// A class, an enum or a record.
pub open spec fn is_class(input: SyntheticInput<'_>) -> bool {
    ||| input.kind() == "class_declaration"@
    ||| input.kind() == "enum_declaration"@
    ||| input.kind() == "record_declaration"@
}

proof fn lemma_class_kinds()
    ensures
        "class_declaration"@ != "enum_declaration"@,
        "record_declaration"@ != "enum_declaration"@,
        "interface_declaration"@ != "enum_declaration"@,
{
    reveal_strlit("class_declaration");
    reveal_strlit("enum_declaration");
    reveal_strlit("record_declaration");
    reveal_strlit("interface_declaration");
    assert("class_declaration"@.len() == 17 && "enum_declaration"@.len() == 16);
    assert("record_declaration"@.len() == 18 && "interface_declaration"@.len() == 21);
}

// ---- constructors ------------------------------------------------------------------------------

/// One parameter for each field, in their order, with their names and types.
pub open spec fn set_fields(params: Seq<ParamView>, fields: Seq<FieldView>) -> bool {
    &&& params.len() == fields.len()
    &&& forall|i: int|
        0 <= i < fields.len() ==> (#[trigger] params[i]).name == fields[i].name
            && params[i].descriptor == fields[i].descriptor
}

/// A constructor with given parameters and flags.
pub open spec fn is_constructor(m: MethodView, params: Seq<ParamView>, flags: u16) -> bool {
    &&& m.name == "<init>"@
    &&& m.params == params
    &&& m.access_flags == flags
    &&& m.return_type is None
    &&& m.annotations.len() == 0
}

pub open spec fn some_constructor(
    methods: Seq<MethodView>,
    params: Seq<ParamView>,
    flags: u16,
) -> bool {
    exists|k: int| 0 <= k < methods.len() && is_constructor(#[trigger] methods[k], params, flags)
}

/// A field that belongs to the objects.
pub open spec fn is_of_objects(f: FieldView) -> bool {
    f.access_flags & 0x0008 == 0
}

/// A field that has to be set when an object is made: it is final or must not be null.
pub open spec fn has_to_be_set(f: FieldView) -> bool {
    f.access_flags & 0x0008 == 0 && (f.access_flags & 0x0010 != 0 || exists|i: int|
        0 <= i < f.annotations.len() && must_not_be_null(#[trigger] f.annotations[i].internal_name))
}

/// The name of an annotation that says that something must not be null.
pub open spec fn must_not_be_null(name: Seq<char>) -> bool {
    ||| name == "lombok/NonNull"@
    ||| name == "NonNull"@ || name == "NotNull"@ || name == "Nonnull"@
    ||| crate::text::ends_with(name, "/NonNull"@)
    ||| crate::text::ends_with(name, "/NotNull"@)
    ||| crate::text::ends_with(name, "/Nonnull"@)
}

spec fn taken_by(choice: FieldChoice) -> spec_fn(FieldView) -> bool {
    |f: FieldView| choice.takes(f)
}

proof fn lemma_chosen(fields: Seq<FieldView>, choice: FieldChoice, j: int)
    requires
        0 <= j <= fields.len(),
    ensures
        chosen_from(fields, choice, 0) == fields.take(j).filter(taken_by(choice)) + chosen_from(
            fields,
            choice,
            j,
        ),
    decreases j,
{
    reveal(Seq::filter);
    if j > 0 {
        lemma_chosen(fields, choice, j - 1);
        assert(fields.take(j).drop_last() =~= fields.take(j - 1));
        assert(fields.take(j).last() == fields[j - 1]);
        let head = fields.take(j - 1).filter(taken_by(choice));
        let rest = chosen_from(fields, choice, j);
        if choice.takes(fields[j - 1]) {
            assert(head + (seq![fields[j - 1]] + rest) =~= head.push(fields[j - 1]) + rest);
        }
    } else {
        assert(fields.take(0) =~= Seq::<FieldView>::empty());
        assert(Seq::<FieldView>::empty() + chosen_from(fields, choice, 0) =~= chosen_from(
            fields,
            choice,
            0,
        ));
    }
}

/// The parameters of a constructor that sets all fields set those of the objects, in the order of
/// their declaration; those of one that sets the required fields set those that have to be set.
pub proof fn lemma_constructor_parameters(fields: Seq<FieldView>)
    ensures
        set_fields(
            params_for(chosen_from(fields, FieldChoice::NonStatic, 0)),
            fields.filter(|f: FieldView| is_of_objects(f)),
        ),
        set_fields(
            params_for(chosen_from(fields, FieldChoice::Required, 0)),
            fields.filter(|f: FieldView| has_to_be_set(f)),
        ),
{
    let n = fields.len() as int;
    assert(fields.take(n) =~= fields);
    lemma_chosen(fields, FieldChoice::NonStatic, n);
    lemma_chosen(fields, FieldChoice::Required, n);
    assert(taken_by(FieldChoice::NonStatic) =~= |f: FieldView| is_of_objects(f));
    assert(taken_by(FieldChoice::Required) =~= |f: FieldView| has_to_be_set(f)) by {
        assert forall|f: FieldView| FieldChoice::Required.takes(f) == has_to_be_set(f) by {
            if has_nonnull(f) {
                let i = choose|i: int|
                    0 <= i < f.annotations.len()
                        && crate::lombok::rules::constructor_rule::is_nonnull_name(
                        #[trigger] f.annotations[i].internal_name,
                    );
                assert(must_not_be_null(f.annotations[i].internal_name));
            }
            if exists|i: int|
                0 <= i < f.annotations.len() && must_not_be_null(
                    #[trigger] f.annotations[i].internal_name,
                ) {
                let i = choose|i: int|
                    0 <= i < f.annotations.len() && must_not_be_null(
                        #[trigger] f.annotations[i].internal_name,
                    );
                assert(crate::lombok::rules::constructor_rule::is_nonnull_name(
                    f.annotations[i].internal_name,
                ));
            }
        }
    }
    let all = fields.filter(|f: FieldView| is_of_objects(f));
    let required = fields.filter(|f: FieldView| has_to_be_set(f));
    assert(chosen_from(fields, FieldChoice::NonStatic, 0) =~= all);
    assert(chosen_from(fields, FieldChoice::Required, 0) =~= required);
}

/// The annotations of a field that say whether it may be null go with it to the parameter.
pub proof fn lemma_parameter_annotations(annos: Seq<AnnotationView>, i: int, k: int)
    requires
        0 <= i <= k < annos.len(),
        find(annos[k].internal_name, "NonNull"@) is Some || find(
            annos[k].internal_name,
            "NotNull"@,
        ) is Some || find(annos[k].internal_name, "Nonnull"@) is Some || find(
            annos[k].internal_name,
            "Nullable"@,
        ) is Some,
    ensures
        kept_from(annos, i).contains(annos[k]),
    decreases k - i,
{
    let rest = kept_from(annos, i + 1);
    if i < k {
        lemma_parameter_annotations(annos, i + 1, k);
        let at = choose|at: int| 0 <= at < rest.len() && rest[at] == annos[k];
        if is_copyable_name(annos[i].internal_name) {
            assert(kept_from(annos, i)[at + 1] == annos[k]);
        }
    } else {
        assert(kept_from(annos, i)[0] == annos[k]);
    }
}

/// The flags of a constructor: private in an enum, else what the annotation says.
pub open spec fn expected_flags(input: SyntheticInput<'_>, a: AnnotationView) -> u16 {
    if input.kind() == "enum_declaration"@ {
        2
    } else {
        constructor_level(a).flags()
    }
}

/// The element `access` of an annotation decides how far its constructor is seen, then the element
/// `value`; without either it is public.
pub proof fn lemma_constructor_level(a: AnnotationView, level: AccessLevel)
    ensures
        a.elements.contains_key("access"@) && AccessLevel::told(a.elements["access"@]) == Some(
            level,
        ) ==> constructor_level(a) == level,
        !a.elements.contains_key("access"@) && a.elements.contains_key("value"@)
            && AccessLevel::told(a.elements["value"@]) == Some(level) ==> constructor_level(a)
            == level,
        !a.elements.contains_key("access"@) && !a.elements.contains_key("value"@)
            ==> constructor_level(a) == AccessLevel::Public,
{
}

/// `@AllArgsConstructor` gives a constructor that sets all fields of the objects,
/// `@RequiredArgsConstructor` one that sets those that have to be set, unless the class has it.
pub proof fn lemma_constructors_are_generated(
    input: SyntheticInput<'_>,
    out: MembersView,
    methods: Seq<MethodView>,
    fields: Seq<FieldView>,
    a: AnnotationView,
)
    requires
        is_class(input),
    ensures
        ({
            let after = ConstructorRule.synthesized(input, out, methods, fields).methods;
            let annos = input.class_annotations();
            let all = params_for(chosen_from(fields, FieldChoice::NonStatic, 0));
            let required = params_for(chosen_from(fields, FieldChoice::Required, 0));
            &&& found(annos, constants::ALL_ARGS_CONSTRUCTOR@) == Some(a) && !has_method_spec(
                methods,
                "<init>"@,
                constructor_desc(all),
            ) ==> some_constructor(after, all, expected_flags(input, a))
            &&& found(annos, constants::REQUIRED_ARGS_CONSTRUCTOR@) == Some(a) && !has_method_spec(
                methods,
                "<init>"@,
                constructor_desc(required),
            ) ==> some_constructor(after, required, expected_flags(input, a))
            &&& found(annos, constants::NO_ARGS_CONSTRUCTOR@) == Some(a) && !has_method_spec(
                methods,
                "<init>"@,
                constructor_desc(Seq::empty()),
            ) && (a.elements.contains_key("force"@) && a.elements["force"@] == ValueView::Boolean(
                true,
            ) || forall|i: int|
                0 <= i < fields.len() ==> (#[trigger] fields[i]).access_flags & 0x0010 == 0
                    || fields[i].access_flags & 0x0008 != 0) ==> some_constructor(
                after,
                Seq::empty(),
                expected_flags(input, a),
            )
        }),
{
    lemma_class_kinds();
    let annos = input.class_annotations();
    let is_enum = input.kind() == "enum_declaration"@;
    let after = ConstructorRule.synthesized(input, out, methods, fields).methods;
    let all = params_for(chosen_from(fields, FieldChoice::NonStatic, 0));
    let required = params_for(chosen_from(fields, FieldChoice::Required, 0));
    let first = match found(annos, constants::NO_ARGS_CONSTRUCTOR@) {
        Some(a) => crate::lombok::rules::constructor_rule::after_no_args(
            out,
            a,
            methods,
            fields,
            is_enum,
        ),
        None => out,
    };
    let second = match found(annos, constants::REQUIRED_ARGS_CONSTRUCTOR@) {
        Some(a) => crate::lombok::rules::constructor_rule::after_args(
            first,
            a,
            methods,
            fields,
            is_enum,
            FieldChoice::Required,
            crate::lombok::types::LombokConstructorType::RequiredArgs,
        ),
        None => first,
    };
    let flags = expected_flags(input, a);
    assert(first.methods.is_prefix_of(second.methods));
    assert(second.methods.is_prefix_of(after));
    if found(annos, constants::ALL_ARGS_CONSTRUCTOR@) == Some(a) && !has_method_spec(
        methods,
        "<init>"@,
        constructor_desc(all),
    ) {
        assert(is_constructor(after[second.methods.len() as int], all, flags));
    }
    if found(annos, constants::REQUIRED_ARGS_CONSTRUCTOR@) == Some(a) && !has_method_spec(
        methods,
        "<init>"@,
        constructor_desc(required),
    ) {
        assert(is_constructor(second.methods[first.methods.len() as int], required, flags));
        assert(after[first.methods.len() as int] == second.methods[first.methods.len() as int]);
    }
    if found(annos, constants::NO_ARGS_CONSTRUCTOR@) == Some(a) && !has_method_spec(
        methods,
        "<init>"@,
        constructor_desc(Seq::empty()),
    ) && (a.elements.contains_key("force"@) && a.elements["force"@] == ValueView::Boolean(true)
        || forall|i: int|
        0 <= i < fields.len() ==> (#[trigger] fields[i]).access_flags & 0x0010 == 0
            || fields[i].access_flags & 0x0008 != 0) {
        if has_final_fields(fields) {
            let i = choose|i: int|
                0 <= i < fields.len() && crate::access_flags::final_flags(
                    #[trigger] fields[i].access_flags,
                ) && !crate::access_flags::static_flags(fields[i].access_flags);
            assert(bool_param(a, "force"@, false));
        }
        assert(is_constructor(first.methods[out.methods.len() as int], Seq::empty(), flags));
        assert(second.methods[out.methods.len() as int] == first.methods[out.methods.len() as int]);
        assert(after[out.methods.len() as int] == second.methods[out.methods.len() as int]);
    }
}

/// A name for a static factory gives one beside the constructor: public, static, with the same
/// parameters.
pub proof fn lemma_factories(
    out: MembersView,
    params: Seq<ParamView>,
    flags: u16,
    name: Seq<char>,
    methods: Seq<MethodView>,
    t: crate::lombok::types::LombokConstructorType,
)
    requires
        name.len() > 0,
        !has_method_spec(methods, "<init>"@, constructor_desc(params)),
        !has_arity(methods, name, params.len()),
    ensures
        ({
            let after = plus_constructors(out, params, flags, Some(name), methods, t).methods;
            &&& after.len() == out.methods.len() + 2
            &&& is_constructor(after[after.len() - 2], params, flags)
            &&& after.last().name == name
            &&& after.last().params == params
            &&& after.last().access_flags == 9
        }),
{
}

/// Without an annotation for one, no constructor is generated, and none that the class has is
/// generated again.
pub proof fn lemma_no_other_constructors(
    input: SyntheticInput<'_>,
    out: MembersView,
    methods: Seq<MethodView>,
    fields: Seq<FieldView>,
)
    ensures
        ({
            let annos = input.class_annotations();
            found(annos, constants::ALL_ARGS_CONSTRUCTOR@) is None && found(
                annos,
                constants::REQUIRED_ARGS_CONSTRUCTOR@,
            ) is None && found(annos, constants::NO_ARGS_CONSTRUCTOR@) is None
                ==> ConstructorRule.synthesized(input, out, methods, fields) == out
        }),
        !is_class(input) ==> ConstructorRule.synthesized(input, out, methods, fields) == out,
{
}

// ---- names of accessors ------------------------------------------------------------------------

/// The first character in upper case: a small letter becomes the capital, any other character of
/// ASCII stays.
pub proof fn lemma_capitals(s: Seq<char>)
    requires
        s.len() > 0,
        (s[0] as u32) < 128,
    ensures
        capitalized(s).len() == s.len(),
        capitalized(s).skip(1) == s.skip(1),
        'a' <= s[0] <= 'z' ==> capitalized(s)[0] as u32 + 32 == s[0] as u32,
        !('a' <= s[0] <= 'z') ==> capitalized(s)[0] == s[0],
{
    assert(capitalized(s).skip(1) =~= s.skip(1));
}

/// Without settings, a field keeps its name.
pub proof fn lemma_no_prefix(name: Seq<char>)
    ensures
        stripped(name, Map::empty()) == name,
{
}

/// Without settings, a getter is named `is` for a truth value and `get` for anything else, and the
/// name of the field with a capital.
pub proof fn lemma_getter_names(name: Seq<char>, descriptor: Seq<char>)
    ensures
        getter_name(name, descriptor, Map::empty()) == if descriptor == seq!['Z'] {
            seq!['i', 's'] + capitalized(name)
        } else {
            seq!['g', 'e', 't'] + capitalized(name)
        },
{
    reveal_strlit("Z");
    reveal_strlit("is");
    reveal_strlit("get");
    assert("Z"@ =~= seq!['Z']);
    assert("is"@ =~= seq!['i', 's']);
    assert("get"@ =~= seq!['g', 'e', 't']);
    lemma_no_prefix(name);
}

// ---- copies with one field changed -------------------------------------------------------------

/// A method that takes a value for a field and returns an object of the class.
pub open spec fn is_with(m: MethodView, f: FieldView, owner: Seq<char>, flags: u16) -> bool {
    &&& m.name == seq!['w', 'i', 't', 'h'] + capitalized(f.name)
    &&& m.params.len() == 1
    &&& m.params[0].name == f.name
    &&& m.params[0].descriptor == f.descriptor
    &&& m.return_type == Some(seq!['L'] + owner + seq![';'])
    &&& m.access_flags == flags
}

pub open spec fn some_with(
    methods: Seq<MethodView>,
    f: FieldView,
    owner: Seq<char>,
    flags: u16,
) -> bool {
    exists|k: int| 0 <= k < methods.len() && is_with(#[trigger] methods[k], f, owner, flags)
}

/// The annotation that decides for a field: its own, else that of the class.
pub open spec fn deciding(
    f: FieldView,
    class_level: Option<AnnotationView>,
) -> Option<AnnotationView> {
    match with_annotation(f.annotations) {
        Some(a) => Some(a),
        None => class_level,
    }
}

/// The class has a method with the name and the parameter of the one for a field.
pub open spec fn has_with(methods: Seq<MethodView>, f: FieldView, owner: Seq<char>) -> bool {
    exists|k: int|
        0 <= k < methods.len() && #[trigger] methods[k].name == seq!['w', 'i', 't', 'h']
            + capitalized(f.name) && methods[k].desc() == seq!['('] + f.descriptor + seq![')', 'L']
            + owner + seq![';']
}

proof fn lemma_with_generated(
    out: MembersView,
    fields: Seq<FieldView>,
    class_level: Option<AnnotationView>,
    methods: Seq<MethodView>,
    owner: Seq<char>,
    i: int,
    k: int,
)
    requires
        0 <= i <= k < fields.len(),
        fields[k].access_flags & 0x0008 == 0,
        deciding(fields[k], class_level) matches Some(a) && level_of(a) != AccessLevel::Never,
        !has_with(methods, fields[k], owner),
    ensures
        some_with(
            after_fields(out, fields, class_level, methods, Some(owner), i).methods,
            fields[k],
            owner,
            level_of(deciding(fields[k], class_level)->0).flags(),
        ),
    decreases k - i,
{
    let next = after_field(out, fields[i], class_level, methods, Some(owner));
    let after = after_fields(out, fields, class_level, methods, Some(owner), i);
    let flags = level_of(deciding(fields[k], class_level)->0).flags();
    lemma_after_fields_new(next, fields, class_level, methods, Some(owner), i + 1);
    if i < k {
        lemma_with_generated(next, fields, class_level, methods, owner, i + 1, k);
    } else {
        let f = fields[k];
        reveal_strlit("with");
        reveal_strlit("L");
        reveal_strlit(";");
        assert("with"@ =~= seq!['w', 'i', 't', 'h']);
        assert("L"@ =~= seq!['L']);
        assert(";"@ =~= seq![';']);
        lemma_no_prefix(f.name);
        let params = seq![crate::lombok::rules::with_rule::with_param(f)];
        let desc = crate::index::descriptor_of(params, owner_descriptor(Some(owner)));
        reveal_with_fuel(crate::index::descriptors_from, 3);
        assert(crate::index::descriptors_from(params, 0) =~= f.descriptor);
        assert(desc =~= seq!['('] + f.descriptor + seq![')', 'L'] + owner + seq![';']);
        if has_method_spec(methods, with_name(f.name, Map::empty()), desc) {
            let q = choose|q: int|
                0 <= q < methods.len() && #[trigger] methods[q].name == with_name(
                    f.name,
                    Map::empty(),
                ) && methods[q].desc() == desc;
            assert(methods[q].name == seq!['w', 'i', 't', 'h'] + capitalized(f.name));
        }
        assert(is_with(next.methods.last(), f, owner, flags));
        assert(after.methods[next.methods.len() - 1] == next.methods.last()) by {
            assert(next.methods.is_prefix_of(after.methods));
        }
    }
}

/// `@With` on a field, or on its class, gives a method `with` and the name of the field, that takes
/// a value of its type and returns an object of the class, unless the class has it.
pub proof fn lemma_withs_are_generated(
    input: SyntheticInput<'_>,
    out: MembersView,
    methods: Seq<MethodView>,
    fields: Seq<FieldView>,
    owner: String,
    k: int,
)
    requires
        input.kind() == "class_declaration"@ || input.kind() == "record_declaration"@
            || input.kind() == "interface_declaration"@,
        input.owner_internal == Some(owner),
        0 <= k < fields.len(),
        fields[k].access_flags & 0x0008 == 0,
        deciding(fields[k], with_annotation(input.class_annotations())) matches Some(a) && level_of(
            a,
        ) != AccessLevel::Never,
        !has_with(methods, fields[k], owner@),
    ensures
        some_with(
            WithRule.synthesized(input, out, methods, fields).methods,
            fields[k],
            owner@,
            level_of(deciding(fields[k], with_annotation(input.class_annotations()))->0).flags(),
        ),
{
    lemma_with_generated(
        out,
        fields,
        with_annotation(input.class_annotations()),
        methods,
        owner@,
        0,
        k,
    );
}

/// A static field, and one for which nothing or the level `NONE` is asked, gets no method.
pub proof fn lemma_no_with(
    out: MembersView,
    f: FieldView,
    class_level: Option<AnnotationView>,
    methods: Seq<MethodView>,
    owner: Option<Seq<char>>,
)
    requires
        f.access_flags & 0x0008 != 0 || deciding(f, class_level) is None || level_of(
            deciding(f, class_level)->0,
        ) == AccessLevel::Never,
    ensures
        after_field(out, f, class_level, methods, owner) == out,
{
}

// ---- values ------------------------------------------------------------------------------------

/// A method without parameters that returns the value of a field.
pub open spec fn is_getter(m: MethodView, f: FieldView, flags: u16) -> bool {
    &&& m.name == if f.descriptor == seq!['Z'] {
        seq!['i', 's'] + capitalized(f.name)
    } else {
        seq!['g', 'e', 't'] + capitalized(f.name)
    }
    &&& m.params.len() == 0
    &&& m.return_type == Some(f.descriptor)
    &&& m.access_flags == flags
}

pub open spec fn some_getter(methods: Seq<MethodView>, f: FieldView, flags: u16) -> bool {
    exists|k: int| 0 <= k < methods.len() && is_getter(#[trigger] methods[k], f, flags)
}

/// The level of the getter of a field: what its own annotation says, else public.
pub open spec fn getter_level(f: FieldView) -> AccessLevel {
    match found(f.annotations, constants::GETTER@) {
        Some(a) => level_of(a),
        None => AccessLevel::Public,
    }
}

proof fn lemma_getter_generated(
    out: MembersView,
    fields: Seq<FieldView>,
    methods: Seq<MethodView>,
    i: int,
    k: int,
)
    requires
        0 <= i <= k < fields.len(),
        fields[k].access_flags & 0x0008 == 0,
        getter_level(fields[k]) != AccessLevel::Never,
        !has_method_spec(
            methods,
            getter_name(fields[k].name, fields[k].descriptor, Map::empty()),
            seq!['(', ')'] + fields[k].descriptor,
        ),
    ensures
        some_getter(
            after_getters(out, fields, Map::empty(), methods, i).methods,
            fields[k],
            getter_level(fields[k]).flags(),
        ),
    decreases k - i,
{
    let m = Map::<Seq<char>, Seq<char>>::empty();
    let next = after_getter(out, fields[i], m, methods);
    let after = after_getters(out, fields, m, methods, i);
    lemma_getters_are_new(next, fields, m, methods, i + 1);
    if i < k {
        lemma_getter_generated(next, fields, methods, i + 1, k);
    } else {
        let f = fields[k];
        lemma_getter_names(f.name, f.descriptor);
        let desc = crate::index::descriptor_of(Seq::empty(), f.descriptor);
        assert(desc =~= seq!['(', ')'] + f.descriptor);
        assert(is_getter(next.methods.last(), f, getter_level(f).flags()));
        assert(after.methods[next.methods.len() - 1] == next.methods.last()) by {
            assert(next.methods.is_prefix_of(after.methods));
        }
    }
}

/// `@Value` gives a getter for every field of the objects, unless the class has it, the field asks
/// for none or the class leaves getters to an annotation of their own.
pub proof fn lemma_value_getters(
    out: MembersView,
    a: AnnotationView,
    annos: Seq<AnnotationView>,
    methods: Seq<MethodView>,
    fields: Seq<FieldView>,
    k: int,
)
    requires
        found(annos, constants::GETTER@) is None,
        0 <= k < fields.len(),
        fields[k].access_flags & 0x0008 == 0,
        getter_level(fields[k]) != AccessLevel::Never,
        !has_method_spec(
            methods,
            getter_name(fields[k].name, fields[k].descriptor, Map::empty()),
            seq!['(', ')'] + fields[k].descriptor,
        ),
    ensures
        some_getter(
            after_value(out, a, annos, methods, fields).methods,
            fields[k],
            getter_level(fields[k]).flags(),
        ),
{
    let m = Map::<Seq<char>, Seq<char>>::empty();
    let first = after_getters(out, fields, m, methods, 0).methods;
    let after = after_value(out, a, annos, methods, fields).methods;
    lemma_getter_generated(out, fields, methods, 0, k);
    assert(first.is_prefix_of(after));
    let j = choose|j: int|
        0 <= j < first.len() && is_getter(
            #[trigger] first[j],
            fields[k],
            getter_level(fields[k]).flags(),
        );
    assert(after[j] == first[j]);
}

/// A method with a name, parameters of given types, a return type and flags.
pub open spec fn has_shape(
    m: MethodView,
    name: Seq<char>,
    types: Seq<Seq<char>>,
    result: Seq<char>,
    flags: u16,
) -> bool {
    &&& m.name == name
    &&& m.params.len() == types.len()
    &&& forall|i: int| 0 <= i < types.len() ==> (#[trigger] m.params[i]).descriptor == types[i]
    &&& m.return_type == Some(result)
    &&& m.access_flags == flags
}

pub open spec fn some_shape(
    methods: Seq<MethodView>,
    name: Seq<char>,
    types: Seq<Seq<char>>,
    result: Seq<char>,
    flags: u16,
) -> bool {
    exists|k: int|
        0 <= k < methods.len() && has_shape(#[trigger] methods[k], name, types, result, flags)
}

/// `equals` that takes an object, `hashCode` without parameters, both public, and `canEqual` that
/// subclasses see.
pub open spec fn has_all_equality(methods: Seq<MethodView>) -> bool {
    let object = seq!["Ljava/lang/Object;"@];
    &&& some_shape(methods, "equals"@, object, "Z"@, 1)
    &&& some_shape(methods, "hashCode"@, Seq::empty(), "I"@, 1)
    &&& some_shape(methods, "canEqual"@, object, "Z"@, 4)
}

proof fn lemma_equality_added(out: MembersView)
    ensures
        has_all_equality(
            crate::lombok::rules::equals_hash_code_rule::plus_equality(out).methods,
        ),
{
    let after = crate::lombok::rules::equals_hash_code_rule::plus_equality(out).methods;
    let n = out.methods.len() as int;
    let object = seq!["Ljava/lang/Object;"@];
    assert(has_shape(after[n], "equals"@, object, "Z"@, 1));
    assert(has_shape(after[n + 1], "hashCode"@, Seq::empty(), "I"@, 1));
    assert(has_shape(after[n + 2], "canEqual"@, object, "Z"@, 4));
}

/// `@EqualsAndHashCode` gives all three methods, unless the class has `equals` or `hashCode`: then
/// it gives none.
pub proof fn lemma_equality(
    input: SyntheticInput<'_>,
    out: MembersView,
    methods: Seq<MethodView>,
    fields: Seq<FieldView>,
)
    requires
        is_class(input),
        found(input.class_annotations(), constants::EQUALS_AND_HASH_CODE@) is Some,
    ensures
        ({
            let after = EqualsAndHashCodeRule.synthesized(input, out, methods, fields);
            let has_own = exists|i: int|
                0 <= i < methods.len() && is_own_equality(#[trigger] methods[i]);
            &&& !has_own ==> has_all_equality(after.methods)
            &&& has_own ==> after == out
        }),
{
    lemma_equality_added(out);
    assert("equals"@ != "hashCode"@) by {
        reveal_strlit("equals");
        reveal_strlit("hashCode");
        assert("equals"@.len() != "hashCode"@.len());
    }
    if has_equality(methods) {
        let i = choose|i: int|
            0 <= i < methods.len() && (crate::lombok::rules::equals_hash_code_rule::is_equals(
                #[trigger] methods[i],
            ) || crate::lombok::rules::equals_hash_code_rule::is_hash_code(methods[i]));
        assert(is_own_equality(methods[i]));
    }
    if exists|i: int| 0 <= i < methods.len() && is_own_equality(#[trigger] methods[i]) {
        let i = choose|i: int| 0 <= i < methods.len() && is_own_equality(#[trigger] methods[i]);
        assert(crate::lombok::rules::equals_hash_code_rule::is_equals(methods[i])
            || crate::lombok::rules::equals_hash_code_rule::is_hash_code(methods[i]));
    }
}

/// A method that decides on equality: `equals` of an object, or `hashCode` without parameters,
/// whatever they return.
pub open spec fn is_own_equality(m: MethodView) -> bool {
    ||| m.name == "hashCode"@ && m.params.len() == 0
    ||| m.name == "equals"@ && m.params.len() == 1 && (m.params[0].descriptor
        == "Ljava/lang/Object;"@ || m.params[0].descriptor == "LObject;"@)
}

/// `@Value` gives `toString`, the methods for equality and a public constructor that sets all
/// fields, each unless the class has it or an annotation of its own asks for it.
pub proof fn lemma_value_members(
    out: MembersView,
    a: AnnotationView,
    annos: Seq<AnnotationView>,
    methods: Seq<MethodView>,
    fields: Seq<FieldView>,
)
    ensures
        ({
            let after = after_value(out, a, annos, methods, fields).methods;
            let all = params_for(chosen_from(fields, FieldChoice::NonStatic, 0));
            &&& found(annos, constants::TO_STRING@) is None && (forall|i: int|
                0 <= i < methods.len() ==> !((#[trigger] methods[i]).name == "toString"@
                    && methods[i].params.len() == 0)) ==> some_shape(
                after,
                "toString"@,
                Seq::empty(),
                "Ljava/lang/String;"@,
                1,
            )
            &&& found(annos, constants::EQUALS_AND_HASH_CODE@) is None && !has_method_spec(
                methods,
                "equals"@,
                "(Ljava/lang/Object;)Z"@,
            ) && !has_method_spec(methods, "hashCode"@, "()I"@) ==> has_all_equality(after)
            &&& found(annos, constants::ALL_ARGS_CONSTRUCTOR@) is None && found(
                annos,
                constants::REQUIRED_ARGS_CONSTRUCTOR@,
            ) is None && found(annos, constants::NO_ARGS_CONSTRUCTOR@) is None && (forall|i: int|
                0 <= i < methods.len() ==> (#[trigger] methods[i]).name != "<init>"@)
                ==> some_constructor(after, all, 1)
        }),
{
    let m = Map::<Seq<char>, Seq<char>>::empty();
    let all = params_for(chosen_from(fields, FieldChoice::NonStatic, 0));
    let first = if found(annos, constants::GETTER@) is Some {
        out
    } else {
        after_getters(out, fields, m, methods, 0)
    };
    let second = if found(annos, constants::TO_STRING@) is Some {
        first
    } else {
        crate::lombok::rules::value_rule::plus_to_string(first, methods)
    };
    let third = if found(annos, constants::EQUALS_AND_HASH_CODE@) is Some || has_exact_equality(
        methods,
    ) {
        second
    } else {
        crate::lombok::rules::equals_hash_code_rule::plus_equality(second)
    };
    let after = after_value(out, a, annos, methods, fields).methods;
    assert(second.methods.is_prefix_of(third.methods));
    assert(third.methods.is_prefix_of(after));
    if !has_to_string(methods) && found(annos, constants::TO_STRING@) is None {
        let n = first.methods.len() as int;
        assert(has_shape(
            second.methods[n],
            "toString"@,
            Seq::empty(),
            "Ljava/lang/String;"@,
            1,
        ));
        assert(third.methods[n] == second.methods[n]);
        assert(after[n] == third.methods[n]);
    }
    if !has_exact_equality(methods) && found(annos, constants::EQUALS_AND_HASH_CODE@) is None {
        let n = second.methods.len() as int;
        let object = seq!["Ljava/lang/Object;"@];
        assert(has_shape(third.methods[n], "equals"@, object, "Z"@, 1));
        assert(has_shape(third.methods[n + 1], "hashCode"@, Seq::empty(), "I"@, 1));
        assert(has_shape(third.methods[n + 2], "canEqual"@, object, "Z"@, 4));
        assert(after[n] == third.methods[n]);
        assert(after[n + 1] == third.methods[n + 1]);
        assert(after[n + 2] == third.methods[n + 2]);
    }
    if forall|i: int| 0 <= i < methods.len() ==> (#[trigger] methods[i]).name != "<init>"@ {
        assert(!has_constructor(methods));
        assert(!has_method_spec(methods, "<init>"@, constructor_desc(all)));
        if !crate::lombok::rules::value_rule::asks_constructor(annos) {
            assert(is_constructor(after[third.methods.len() as int], all, 1));
        }
    }
}

/// `@Value` counts on classes, enums and records, and only where it is there.
pub proof fn lemma_value_counts(
    input: SyntheticInput<'_>,
    out: MembersView,
    methods: Seq<MethodView>,
    fields: Seq<FieldView>,
)
    ensures
        is_class(input) && found(input.class_annotations(), constants::VALUE@) is Some
            ==> ValueRule.synthesized(input, out, methods, fields) == after_value(
            out,
            found(input.class_annotations(), constants::VALUE@)->0,
            input.class_annotations(),
            methods,
            fields,
        ),
        !is_class(input) || found(input.class_annotations(), constants::VALUE@) is None
            ==> ValueRule.synthesized(input, out, methods, fields) == out,
{
}

// ---- what takes part in equality ---------------------------------------------------------------

/// A field is asked for or left out by an annotation of its own.
pub open spec fn is_marked(f: FieldView, long: Seq<char>, short: Seq<char>) -> bool {
    exists|i: int|
        0 <= i < f.annotations.len() && ((#[trigger] f.annotations[i]).internal_name == long
            || f.annotations[i].internal_name == short)
}

/// Static and transient fields never take part in equality; where fields are listed, exactly those
/// do; else a field does unless its name begins with `$`, or it is left out by name or by an
/// annotation; where only marked fields take part, it has to be marked.
pub proof fn lemma_equality_fields(
    f: FieldView,
    exclude: Seq<Seq<char>>,
    of: Seq<Seq<char>>,
)
    ensures
        ({
            let kept = f.access_flags & 0x0008 == 0 && f.access_flags & 0x0080 == 0;
            let left_out = exclude.contains(f.name) || is_marked(
                f,
                "lombok/EqualsAndHashCode$Exclude"@,
                "EqualsAndHashCode$Exclude"@,
            );
            let marked = is_marked(
                f,
                "lombok/EqualsAndHashCode$Include"@,
                "EqualsAndHashCode$Include"@,
            );
            &&& of.len() > 0 ==> takes_part(f, exclude, of, false) == (kept && of.contains(f.name))
            &&& of.len() > 0 ==> takes_part(f, exclude, of, true) == (kept && of.contains(f.name))
            &&& of.len() == 0 ==> takes_part(f, exclude, of, false) == (kept && !left_out && !(
            f.name.len() > 0 && f.name[0] == '$'))
            &&& of.len() == 0 ==> takes_part(f, exclude, of, true) == (kept && !left_out && marked)
        }),
{
    reveal_strlit("$");
    assert("$"@ =~= seq!['$']);
    if f.name.len() > 0 {
        assert(f.name.take(1) =~= seq![f.name[0]]);
        if f.name[0] != '$' && starts_with(f.name, "$"@) {
            assert(f.name.take(1)[0] == '$');
        }
    }
}

/// The fields that take part are listed by their names, all of them and in their order.
pub proof fn lemma_parts(
    fields: Seq<FieldView>,
    exclude: Seq<Seq<char>>,
    of: Seq<Seq<char>>,
    only_marked: bool,
    i: int,
    k: int,
)
    requires
        0 <= i <= k < fields.len(),
        takes_part(fields[k], exclude, of, only_marked),
    ensures
        parts_from(fields, exclude, of, only_marked, i).contains(fields[k].name),
    decreases k - i,
{
    let rest = parts_from(fields, exclude, of, only_marked, i + 1);
    if i < k {
        lemma_parts(fields, exclude, of, only_marked, i + 1, k);
        let at = choose|at: int| 0 <= at < rest.len() && rest[at] == fields[k].name;
        if takes_part(fields[i], exclude, of, only_marked) {
            assert(parts_from(fields, exclude, of, only_marked, i)[at + 1] == fields[k].name);
        }
    } else {
        assert(parts_from(fields, exclude, of, only_marked, i)[0] == fields[k].name);
    }
}

// ---- loggers -----------------------------------------------------------------------------------

/// The logger's type for an annotation.
pub open spec fn logger_for(annotation: Seq<char>) -> Option<Seq<char>> {
    if annotation == "lombok/extern/slf4j/Slf4j"@ {
        Some("Lorg/slf4j/Logger;"@)
    } else if annotation == "lombok/extern/java/Log"@ {
        Some("Ljava/util/logging/Logger;"@)
    } else if annotation == "lombok/extern/log4j/Log4j"@ {
        Some("Lorg/apache/log4j/Logger;"@)
    } else if annotation == "lombok/extern/log4j/Log4j2"@ {
        Some("Lorg/apache/logging/log4j/Logger;"@)
    } else if annotation == "lombok/extern/apachecommons/CommonsLog"@ {
        Some("Lorg/apache/commons/logging/Log;"@)
    } else if annotation == "lombok/extern/jbosslog/JBossLog"@ {
        Some("Lorg/jboss/logging/Logger;"@)
    } else if annotation == "lombok/extern/flogger/Flogger"@ {
        Some("Lcom/google/common/flogger/FluentLogger;"@)
    } else if annotation == "lombok/extern/slf4j/XSlf4j"@ {
        Some("Lorg/slf4j/ext/XLogger;"@)
    } else {
        None
    }
}

proof fn lemma_framework(annos: Seq<AnnotationView>, i: int)
    requires
        0 <= i,
    ensures
        match framework_from(annos, i) {
            Some(f) => exists|k: int|
                i <= k < known_frameworks().len() && #[trigger] known_frameworks()[k] == f && found(
                    annos,
                    f.annotation,
                ) is Some,
            None => forall|k: int|
                i <= k < known_frameworks().len() ==> found(
                    annos,
                    (#[trigger] known_frameworks()[k]).annotation,
                ) is None,
        },
    decreases known_frameworks().len() - i,
{
    if i < known_frameworks().len() && found(annos, known_frameworks()[i].annotation) is None {
        lemma_framework(annos, i + 1);
    }
}

/// A class with one of the annotations for a logger gets a field `log` of the type of that logger:
/// private, static and final; unless it has a field of that name.
pub proof fn lemma_loggers(
    input: SyntheticInput<'_>,
    out: MembersView,
    methods: Seq<MethodView>,
    fields: Seq<FieldView>,
    annotation: Seq<char>,
)
    requires
        is_class(input),
        logger_for(annotation) is Some,
        found(input.class_annotations(), annotation) is Some,
        forall|other: Seq<char>|
            other != annotation && #[trigger] logger_for(other) is Some ==> found(
                input.class_annotations(),
                other,
            ) is None,
        forall|i: int| 0 <= i < fields.len() ==> (#[trigger] fields[i]).name != "log"@,
    ensures
        ({
            let after = LogRule.synthesized(input, out, methods, fields);
            &&& after.methods == out.methods
            &&& after.fields.len() == out.fields.len() + 1
            &&& after.fields.last().name == "log"@
            &&& after.fields.last().descriptor == logger_for(annotation)->0
            &&& after.fields.last().access_flags == 2 + 8 + 16
        }),
{
    let annos = input.class_annotations();
    lemma_framework(annos, 0);
    lemma_logger_types();
    assert forall|k: int| 0 <= k < known_frameworks().len() implies logger_for(
        (#[trigger] known_frameworks()[k]).annotation,
    ) == Some(known_frameworks()[k].logger_type) by {}
    assert(exists|k: int|
        0 <= k < known_frameworks().len() && (#[trigger] known_frameworks()[k]).annotation
            == annotation) by {
        let all = known_frameworks();
        assert(all[0].annotation == "lombok/extern/slf4j/Slf4j"@);
        assert(all[1].annotation == "lombok/extern/java/Log"@);
        assert(all[2].annotation == "lombok/extern/log4j/Log4j"@);
        assert(all[3].annotation == "lombok/extern/log4j/Log4j2"@);
        assert(all[4].annotation == "lombok/extern/apachecommons/CommonsLog"@);
        assert(all[5].annotation == "lombok/extern/jbosslog/JBossLog"@);
        assert(all[6].annotation == "lombok/extern/flogger/Flogger"@);
        assert(all[7].annotation == "lombok/extern/slf4j/XSlf4j"@);
    }
    match framework_from(annos, 0) {
        Some(f) => {
            assert(logger_for(f.annotation) is Some);
            assert(f.annotation == annotation);
        },
        None => {},
    }
}

/// No two annotations for loggers are named alike.
proof fn lemma_logger_types()
    ensures
        "lombok/extern/slf4j/Slf4j"@.len() == 25,
        "lombok/extern/java/Log"@.len() == 22,
        "lombok/extern/log4j/Log4j"@.len() == 25,
        "lombok/extern/log4j/Log4j2"@.len() == 26,
        "lombok/extern/apachecommons/CommonsLog"@.len() == 38,
        "lombok/extern/jbosslog/JBossLog"@.len() == 31,
        "lombok/extern/flogger/Flogger"@.len() == 29,
        "lombok/extern/slf4j/XSlf4j"@.len() == 26,
        "lombok/extern/slf4j/Slf4j"@ != "lombok/extern/log4j/Log4j"@,
        "lombok/extern/log4j/Log4j2"@ != "lombok/extern/slf4j/XSlf4j"@,
{
    reveal_strlit("lombok/extern/slf4j/Slf4j");
    reveal_strlit("lombok/extern/java/Log");
    reveal_strlit("lombok/extern/log4j/Log4j");
    reveal_strlit("lombok/extern/log4j/Log4j2");
    reveal_strlit("lombok/extern/apachecommons/CommonsLog");
    reveal_strlit("lombok/extern/jbosslog/JBossLog");
    reveal_strlit("lombok/extern/flogger/Flogger");
    reveal_strlit("lombok/extern/slf4j/XSlf4j");
    assert("lombok/extern/slf4j/Slf4j"@[14] == 's');
    assert("lombok/extern/log4j/Log4j"@[14] == 'l');
    assert("lombok/extern/log4j/Log4j2"@[14] == 'l');
    assert("lombok/extern/slf4j/XSlf4j"@[14] == 's');
}

} // verus!
