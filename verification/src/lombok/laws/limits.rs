//! What is not generated, and what is told of that which is.
use vstd::prelude::*;

use crate::index::{
    descriptor_of, has_method_spec, AnnotationView, FieldView, MethodView, ParamView, ValueView,
};
use crate::lombok::annotations as constants;
use crate::lombok::rules::constructor_rule::{
    after_no_args, chosen_from, constructor_desc, has_arity, has_final_fields, is_copyable_name,
    kept_from, params_for, plus_constructors, FieldChoice,
};
use crate::lombok::rules::delegate_rule::{
    after_delegate, classes_from, classes_param, declared_from, methods_in_source, plus_delegate,
    plus_delegates, type_methods,
};
use crate::lombok::rules::equals_hash_code_rule::{
    has_equality_method, parts_by, parts_from, plus_equality,
};
use crate::lombok::rules::log_rule::{
    known_frameworks, plus_log_field, FactoryView, FrameworkView,
};
use crate::lombok::rules::value_rule::{after_getter, after_value, plus_getter, plus_to_string};
use crate::lombok::rules::with_rule::{
    after_field, owner_descriptor, plus_with, with_name, with_param,
};
use crate::lombok::types::{AccessLevel, LombokConstructorType};
use crate::lombok::utils::{
    any_matches_from, bool_param, capitalized, copied_from, fits, found, generates_for, getter_name,
    level_of, string_param, strings_param, stripped_from,
};
use crate::lombok::config::list_of;
use crate::syntax::NodeId;
use crate::synthetic::{
    MembersView, OriginView, SyntheticDefinitionKind, SyntheticInput, TypeIndex,
};
use crate::text::{find, trim};

verus! {

/// One method more, and a definition of it that tells its name, its descriptor and where it comes
/// from; no field more.
pub open spec fn one_more(
    out: MembersView,
    later: MembersView,
    name: Seq<char>,
    descriptor: Seq<char>,
    origin: OriginView,
) -> bool {
    &&& later.fields == out.fields
    &&& later.methods.len() == out.methods.len() + 1
    &&& later.methods.take(out.methods.len() as int) == out.methods
    &&& later.methods.last().name == name
    &&& later.methods.last().desc() == descriptor
    &&& later.methods.last().annotations.len() == 0
    &&& !later.methods.last().is_synthetic
    &&& later.definitions.len() == out.definitions.len() + 1
    &&& later.definitions.take(out.definitions.len() as int) == out.definitions
    &&& later.definitions.last().kind == SyntheticDefinitionKind::Method
    &&& later.definitions.last().name == name
    &&& later.definitions.last().descriptor == Some(descriptor)
    &&& later.definitions.last().origin == origin
}

// ---- constructors ------------------------------------------------------------------------------

/// A constructor that the class has is not generated again, nor a factory for it.
pub proof fn lemma_own_constructor(
    out: MembersView,
    params: Seq<ParamView>,
    flags: u16,
    name: Option<Seq<char>>,
    methods: Seq<MethodView>,
    t: LombokConstructorType,
    i: int,
)
    requires
        0 <= i < methods.len(),
        methods[i].name == "<init>"@,
        methods[i].desc() == constructor_desc(params),
    ensures
        plus_constructors(out, params, flags, name, methods, t) == out,
{
    assert(has_method_spec(methods, "<init>"@, constructor_desc(params)));
}

/// Without a name for a factory, with an empty one, and where the class has a method with that name
/// and as many parameters, the constructor alone is generated, and its definition tells which
/// annotation it comes from.
pub proof fn lemma_constructor_alone(
    out: MembersView,
    params: Seq<ParamView>,
    flags: u16,
    name: Option<Seq<char>>,
    methods: Seq<MethodView>,
    t: LombokConstructorType,
)
    requires
        !has_method_spec(methods, "<init>"@, constructor_desc(params)),
        name matches Some(n) ==> n.len() == 0 || exists|i: int|
            0 <= i < methods.len() && (#[trigger] methods[i]).name == n && methods[i].params.len()
                == params.len(),
    ensures
        one_more(
            out,
            plus_constructors(out, params, flags, name, methods, t),
            "<init>"@,
            descriptor_of(params, seq!['V']),
            OriginView::LombokConstructor { constructor_type: t },
        ),
{
    let later = plus_constructors(out, params, flags, name, methods, t);
    if let Some(n) = name {
        if n.len() > 0 {
            assert(has_arity(methods, n, params.len()));
        }
    }
    assert(later.methods.take(out.methods.len() as int) =~= out.methods);
    assert(later.definitions.take(out.definitions.len() as int) =~= out.definitions);
}

/// The definition of a factory tells its name and which annotation it comes from.
pub proof fn lemma_factory_definitions(
    out: MembersView,
    params: Seq<ParamView>,
    flags: u16,
    name: Seq<char>,
    methods: Seq<MethodView>,
    t: LombokConstructorType,
)
    requires
        name.len() > 0,
        !has_method_spec(methods, "<init>"@, constructor_desc(params)),
        !has_arity(methods, name, params.len()),
    ensures
        ({
            let later = plus_constructors(out, params, flags, Some(name), methods, t);
            &&& later.methods.last().return_type == Some("java/lang/Object"@)
            &&& later.definitions.len() == out.definitions.len() + 2
            &&& later.definitions.last().name == name
            &&& later.definitions.last().descriptor == Some(
                descriptor_of(params, "Ljava/lang/Object;"@),
            )
            &&& later.definitions.last().origin == OriginView::LombokConstructor {
                constructor_type: t,
            }
        }),
{
}

/// A class with a field that has to be set gets no constructor without parameters, unless the
/// annotation forces it.
pub proof fn lemma_no_args_not_forced(
    out: MembersView,
    a: AnnotationView,
    methods: Seq<MethodView>,
    fields: Seq<FieldView>,
    is_enum: bool,
    i: int,
)
    requires
        0 <= i < fields.len(),
        fields[i].access_flags & 0x0010 != 0,
        fields[i].access_flags & 0x0008 == 0,
        !a.elements.contains_key("force"@) || a.elements["force"@] == ValueView::Boolean(false),
    ensures
        after_no_args(out, a, methods, fields, is_enum) == out,
{
    assert(has_final_fields(fields));
}

/// Only the annotations that say whether a field may be null go with it to a parameter.
pub proof fn lemma_other_annotations_stay(annos: Seq<AnnotationView>, i: int, k: int)
    requires
        0 <= i,
        0 <= k < kept_from(annos, i).len(),
    ensures
        annos.contains(kept_from(annos, i)[k]),
        ({
            let name = kept_from(annos, i)[k].internal_name;
            find(name, "NonNull"@) is Some || find(name, "NotNull"@) is Some || find(
                name,
                "Nonnull"@,
            ) is Some || find(name, "Nullable"@) is Some
        }),
    decreases annos.len() - i,
{
    if i < annos.len() {
        if is_copyable_name(annos[i].internal_name) {
            if k > 0 {
                lemma_other_annotations_stay(annos, i + 1, k - 1);
            }
        } else {
            lemma_other_annotations_stay(annos, i + 1, k);
        }
    }
}

// ---- copies with one field changed -------------------------------------------------------------

/// A method that the class has is not generated again.
pub proof fn lemma_own_with(
    out: MembersView,
    f: FieldView,
    class_level: Option<AnnotationView>,
    methods: Seq<MethodView>,
    owner: Seq<char>,
    i: int,
)
    requires
        0 <= i < methods.len(),
        methods[i].name == seq!['w', 'i', 't', 'h'] + capitalized(f.name),
        methods[i].desc() == seq!['('] + f.descriptor + seq![')'] + (seq!['L'] + owner + seq![';']),
    ensures
        after_field(out, f, class_level, methods, Some(owner)) == out,
{
    reveal_strlit("with");
    reveal_strlit("L");
    reveal_strlit(";");
    assert("with"@ =~= seq!['w', 'i', 't', 'h']);
    assert("L"@ =~= seq!['L']);
    assert(";"@ =~= seq![';']);
    let m = Map::<Seq<char>, Seq<char>>::empty();
    super::members::lemma_no_prefix(f.name);
    let params = seq![with_param(f)];
    lemma_one_descriptor(params, owner_descriptor(Some(owner)));
    assert(has_method_spec(
        methods,
        with_name(f.name, m),
        descriptor_of(params, owner_descriptor(Some(owner))),
    )) by {
        assert(methods[i].name == with_name(f.name, m));
    }
}

proof fn lemma_one_descriptor(params: Seq<ParamView>, result: Seq<char>)
    requires
        params.len() == 1,
    ensures
        descriptor_of(params, result) == seq!['('] + params[0].descriptor + seq![')'] + result,
{
    assert(crate::index::descriptors_from(params, 1) =~= Seq::<char>::empty());
    assert(crate::index::descriptors_from(params, 0) =~= params[0].descriptor);
}

/// The parameter of the method is not null where the field is not, and has no other annotation; the
/// definition tells the field.
pub proof fn lemma_with_parameters(
    out: MembersView,
    f: FieldView,
    a: AnnotationView,
    m: Map<Seq<char>, Seq<char>>,
    methods: Seq<MethodView>,
    owner: Option<Seq<char>>,
)
    requires
        level_of(a) != AccessLevel::Never,
        !has_method_spec(
            methods,
            with_name(f.name, m),
            descriptor_of(seq![with_param(f)], owner_descriptor(owner)),
        ),
    ensures
        ({
            let later = plus_with(out, f, Some(a), m, methods, owner);
            let param = later.methods.last().params[0];
            &&& one_more(
                out,
                later,
                with_name(f.name, m),
                seq!['('] + f.descriptor + seq![')'] + owner_descriptor(owner),
                OriginView::LombokWith { field_name: f.name },
            )
            &&& found(f.annotations, constants::NON_NULL@) is None ==> param.annotations.len() == 0
            &&& found(f.annotations, constants::NON_NULL@) is Some ==> param.annotations.len() == 1
                && param.annotations[0].internal_name == "lombok/NonNull"@
            &&& owner is None ==> later.methods.last().return_type == Some("Ljava/lang/Object;"@)
        }),
{
    let later = plus_with(out, f, Some(a), m, methods, owner);
    lemma_one_descriptor(seq![with_param(f)], owner_descriptor(owner));
    assert(later.methods.take(out.methods.len() as int) =~= out.methods);
    assert(later.definitions.take(out.definitions.len() as int) =~= out.definitions);
}

/// The prefixes that the settings tell to leave out are left out of the names of the methods: the
/// first of them that the name of the field begins with, and that is not all of it.
pub proof fn lemma_prefixes(name: Seq<char>, prefixes: Seq<Seq<char>>, i: int, k: int)
    requires
        0 <= i <= k < prefixes.len(),
        prefixes[k].len() < name.len(),
        name.take(prefixes[k].len() as int) == prefixes[k],
        forall|q: int|
            0 <= q < k ==> (#[trigger] prefixes[q]).len() >= name.len() || name.take(
                prefixes[q].len() as int,
            ) != prefixes[q],
    ensures
        stripped_from(name, prefixes, i) == name.skip(prefixes[k].len() as int),
    decreases k - i,
{
    if i < k {
        lemma_prefixes(name, prefixes, i + 1, k);
    }
}

/// A name that begins with none of the prefixes stays.
pub proof fn lemma_no_prefix_fits(name: Seq<char>, prefixes: Seq<Seq<char>>, i: int)
    requires
        0 <= i,
        forall|q: int|
            0 <= q < prefixes.len() ==> (#[trigger] prefixes[q]).len() >= name.len() || name.take(
                prefixes[q].len() as int,
            ) != prefixes[q],
    ensures
        stripped_from(name, prefixes, i) == name,
    decreases prefixes.len() - i,
{
    if i < prefixes.len() {
        lemma_no_prefix_fits(name, prefixes, i + 1);
    }
}

/// Fluent accessors are named like the field, others with `is` or `get`, and the prefixes are those
/// of the setting `lombok.accessors.prefix`.
pub proof fn lemma_fluent_names(name: Seq<char>, descriptor: Seq<char>, m: Map<Seq<char>, Seq<char>>)
    ensures
        ({
            let bare = stripped_from(name, list_of(m, "lombok.accessors.prefix"@), 0);
            let fluent = m.contains_key("lombok.accessors.fluent"@) && m["lombok.accessors.fluent"@]
                == "true"@;
            &&& fluent ==> getter_name(name, descriptor, m) == bare
            &&& !fluent && descriptor == "Z"@ ==> getter_name(name, descriptor, m) == "is"@
                + capitalized(bare)
            &&& !fluent && descriptor != "Z"@ ==> getter_name(name, descriptor, m) == "get"@
                + capitalized(bare)
            &&& with_name(name, m) == "with"@ + capitalized(bare)
        }),
{
    assert("true"@ != "false"@) by {
        reveal_strlit("true");
        reveal_strlit("false");
        assert("true"@.len() != "false"@.len());
    }
}

// ---- values ------------------------------------------------------------------------------------

/// A static field gets no getter, nor does one with the level `NONE`, nor one that the class has a
/// getter for; any other gets one, and its definition tells the field.
pub proof fn lemma_getter_of_field(
    out: MembersView,
    f: FieldView,
    m: Map<Seq<char>, Seq<char>>,
    methods: Seq<MethodView>,
)
    ensures
        ({
            let later = after_getter(out, f, m, methods);
            let asked = found(f.annotations, constants::GETTER@);
            let name = getter_name(f.name, f.descriptor, m);
            let refused = f.access_flags & 0x0008 != 0 || (asked matches Some(a) && level_of(a)
                == AccessLevel::Never) || exists|i: int|
                0 <= i < methods.len() && (#[trigger] methods[i]).name == name && methods[i].desc()
                    == seq!['(', ')'] + f.descriptor;
            &&& refused ==> later == out
            &&& !refused ==> one_more(
                out,
                later,
                name,
                seq!['(', ')'] + f.descriptor,
                OriginView::LombokGetter { field_name: f.name },
            )
        }),
{
    let later = after_getter(out, f, m, methods);
    let none = Seq::<ParamView>::empty();
    assert(crate::index::descriptors_from(none, 0) =~= Seq::<char>::empty());
    assert(descriptor_of(none, f.descriptor) =~= seq!['(', ')'] + f.descriptor);
    if later.methods.len() > out.methods.len() {
        assert(later.methods.take(out.methods.len() as int) =~= out.methods);
        assert(later.definitions.take(out.definitions.len() as int) =~= out.definitions);
    }
}

/// The getter of a static field is static.
pub proof fn lemma_static_getters(
    out: MembersView,
    f: FieldView,
    m: Map<Seq<char>, Seq<char>>,
    methods: Seq<MethodView>,
)
    requires
        !has_method_spec(
            methods,
            getter_name(f.name, f.descriptor, m),
            descriptor_of(Seq::empty(), f.descriptor),
        ),
    ensures
        plus_getter(out, f, None, m, methods).methods.last().access_flags == if f.access_flags
            & 0x0008 != 0 {
            9u16
        } else {
            1u16
        },
{
    assert(1u16 | 8u16 == 9u16) by (bit_vector);
}

/// `toString` is generated unless the class has one without parameters.
pub proof fn lemma_to_string(out: MembersView, methods: Seq<MethodView>)
    ensures
        ({
            let later = plus_to_string(out, methods);
            let own = exists|i: int|
                0 <= i < methods.len() && (#[trigger] methods[i]).name == "toString"@
                    && methods[i].params.len() == 0;
            &&& own ==> later == out
            &&& !own ==> one_more(
                out,
                later,
                "toString"@,
                seq!['(', ')'] + "Ljava/lang/String;"@,
                OriginView::LombokToString,
            ) && later.methods.last().access_flags == 1
        }),
{
    let later = plus_to_string(out, methods);
    let none = Seq::<ParamView>::empty();
    assert(crate::index::descriptors_from(none, 0) =~= Seq::<char>::empty());
    assert(descriptor_of(none, "Ljava/lang/String;"@) =~= seq!['(', ')'] + "Ljava/lang/String;"@);
    reveal_strlit("()Ljava/lang/String;");
    reveal_strlit("Ljava/lang/String;");
    assert("()Ljava/lang/String;"@ =~= seq!['(', ')'] + "Ljava/lang/String;"@);
    if later.methods.len() > out.methods.len() {
        assert(later.methods.take(out.methods.len() as int) =~= out.methods);
        assert(later.definitions.take(out.definitions.len() as int) =~= out.definitions);
    }
}

/// A class with a constructor of its own, or with an annotation for one, gets none from `@Value`.
pub proof fn lemma_value_leaves_constructors(
    out: MembersView,
    a: AnnotationView,
    annos: Seq<AnnotationView>,
    methods: Seq<MethodView>,
    fields: Seq<FieldView>,
)
    requires
        found(annos, constants::GETTER@) is Some,
        found(annos, constants::TO_STRING@) is Some,
        found(annos, constants::EQUALS_AND_HASH_CODE@) is Some,
        found(annos, constants::NO_ARGS_CONSTRUCTOR@) is Some || found(
            annos,
            constants::REQUIRED_ARGS_CONSTRUCTOR@,
        ) is Some || found(annos, constants::ALL_ARGS_CONSTRUCTOR@) is Some || exists|i: int|
            0 <= i < methods.len() && (#[trigger] methods[i]).name == "<init>"@,
    ensures
        after_value(out, a, annos, methods, fields) == out,
{
}

/// The element `staticConstructor` of `@Value` names a factory beside the constructor that sets all
/// fields.
pub proof fn lemma_value_factories(
    out: MembersView,
    a: AnnotationView,
    annos: Seq<AnnotationView>,
    methods: Seq<MethodView>,
    fields: Seq<FieldView>,
    name: Seq<char>,
)
    requires
        found(annos, constants::GETTER@) is Some,
        found(annos, constants::TO_STRING@) is Some,
        found(annos, constants::EQUALS_AND_HASH_CODE@) is Some,
        found(annos, constants::NO_ARGS_CONSTRUCTOR@) is None,
        found(annos, constants::REQUIRED_ARGS_CONSTRUCTOR@) is None,
        found(annos, constants::ALL_ARGS_CONSTRUCTOR@) is None,
        methods.len() == 0,
        a.elements.contains_key("staticConstructor"@),
        a.elements["staticConstructor"@] == ValueView::String(name),
        name.len() > 0,
    ensures
        ({
            let later = after_value(out, a, annos, methods, fields).methods;
            let params = params_for(chosen_from(fields, FieldChoice::NonStatic, 0));
            &&& later.len() == out.methods.len() + 2
            &&& later[later.len() - 2].name == "<init>"@
            &&& later[later.len() - 2].params == params
            &&& later[later.len() - 2].access_flags == 1
            &&& later.last().name == name
            &&& later.last().params == params
            &&& later.last().access_flags == 9
        }),
{
}

/// A class with an `equals` or a `hashCode` of its own gets none of the methods from `@Value`.
pub proof fn lemma_value_leaves_equality(
    out: MembersView,
    a: AnnotationView,
    annos: Seq<AnnotationView>,
    methods: Seq<MethodView>,
    fields: Seq<FieldView>,
    i: int,
)
    requires
        found(annos, constants::GETTER@) is Some,
        found(annos, constants::TO_STRING@) is Some,
        found(annos, constants::ALL_ARGS_CONSTRUCTOR@) is Some,
        0 <= i < methods.len(),
        methods[i].name == "equals"@ && methods[i].desc() == "(Ljava/lang/Object;)Z"@
            || methods[i].name == "hashCode"@ && methods[i].desc() == "()I"@,
    ensures
        after_value(out, a, annos, methods, fields) == out,
{
}

// ---- equality ----------------------------------------------------------------------------------

/// The definitions of the three methods tell their names, their descriptors and where they come
/// from.
pub proof fn lemma_equality_definitions(out: MembersView)
    ensures
        ({
            let d = plus_equality(out).definitions;
            let n = out.definitions.len() as int;
            &&& d.len() == n + 3
            &&& d.take(n) == out.definitions
            &&& d[n].name == "equals"@ && d[n].origin == OriginView::LombokEquals
            &&& d[n].descriptor == Some("(Ljava/lang/Object;)Z"@)
            &&& d[n + 1].name == "hashCode"@ && d[n + 1].origin == OriginView::LombokHashCode
            &&& d[n + 1].descriptor == Some("()I"@)
            &&& d[n + 2].name == "canEqual"@ && d[n + 2].origin == OriginView::LombokEquals
            &&& d[n + 2].descriptor == Some("(Ljava/lang/Object;)Z"@)
        }),
{
    assert(plus_equality(out).definitions.take(out.definitions.len() as int) =~= out.definitions);
}

/// Of `equals` and `hashCode` only the parameters count.
pub proof fn lemma_own_equality_methods(methods: Seq<MethodView>, i: int, desc: Seq<char>)
    requires
        0 <= i < methods.len(),
    ensures
        methods[i].name == "equals"@ && methods[i].params.len() == 1 && methods[i].params[0].descriptor
            == "Ljava/lang/Object;"@ ==> has_equality_method(methods, "equals"@, desc),
        methods[i].name == "hashCode"@ && methods[i].params.len() == 0 ==> has_equality_method(
            methods,
            "hashCode"@,
            desc,
        ),
        methods[i].name == "canEqual"@ && methods[i].desc() == desc ==> has_equality_method(
            methods,
            "canEqual"@,
            desc,
        ),
{
    reveal_strlit("equals");
    reveal_strlit("hashCode");
    reveal_strlit("canEqual");
    assert("equals"@.len() == 6 && "hashCode"@.len() == 8 && "canEqual"@.len() == 8);
    assert("hashCode"@[0] == 'h' && "canEqual"@[0] == 'c');
}

/// Without such a method, there is none.
pub proof fn lemma_no_equality_methods(methods: Seq<MethodView>, desc: Seq<char>)
    ensures
        (forall|i: int|
            0 <= i < methods.len() ==> (#[trigger] methods[i]).name != "hashCode"@
                || methods[i].params.len() != 0) ==> !has_equality_method(
            methods,
            "hashCode"@,
            desc,
        ),
        (forall|i: int|
            0 <= i < methods.len() ==> (#[trigger] methods[i]).name != "equals"@
                || methods[i].params.len() != 1) ==> !has_equality_method(methods, "equals"@, desc),
{
    reveal_strlit("equals");
    reveal_strlit("hashCode");
    assert("equals"@.len() == 6 && "hashCode"@.len() == 8);
}

/// An annotation tells the fields that take part by its elements `exclude`, `of` and
/// `onlyExplicitlyIncluded`.
pub proof fn lemma_told_parts(a: AnnotationView, fields: Seq<FieldView>)
    ensures
        parts_by(a, fields) == parts_from(
            fields,
            strings_param(a, "exclude"@),
            strings_param(a, "of"@),
            a.elements.contains_key("onlyExplicitlyIncluded"@)
                && a.elements["onlyExplicitlyIncluded"@] == ValueView::Boolean(true),
            0,
        ),
{
}

// ---- loggers -----------------------------------------------------------------------------------

/// The definition of a logger tells its name and its type; no method comes with it.
pub proof fn lemma_logger_definitions(
    out: MembersView,
    framework: FrameworkView,
    name: Seq<char>,
    m: Map<Seq<char>, Seq<char>>,
)
    ensures
        ({
            let later = plus_log_field(out, framework, name, m);
            &&& later.methods == out.methods
            &&& later.fields.len() == out.fields.len() + 1
            &&& later.fields.last().name == name
            &&& later.fields.last().descriptor == framework.logger_type
            &&& later.definitions.len() == out.definitions.len() + 1
            &&& later.definitions.last().kind == SyntheticDefinitionKind::Field
            &&& later.definitions.last().name == name
            &&& later.definitions.last().descriptor == Some(framework.logger_type)
            &&& later.definitions.last().origin == OriginView::LombokLog
        }),
{
}

/// The class that makes a framework's loggers, and how it is asked.
pub proof fn lemma_logger_factories(k: int)
    requires
        0 <= k < known_frameworks().len(),
    ensures
        known_frameworks().len() == 8,
        ({
            let f = known_frameworks()[k];
            &&& f.annotation == "lombok/extern/slf4j/Slf4j"@ ==> f.factory_method
                == FactoryView::GetLogger("org/slf4j/LoggerFactory"@)
            &&& f.annotation == "lombok/extern/java/Log"@ ==> f.factory_method
                == FactoryView::GetLoggerByName("java/util/logging/Logger"@)
            &&& f.annotation == "lombok/extern/log4j/Log4j"@ ==> f.factory_method
                == FactoryView::GetLogger("org/apache/log4j/Logger"@)
            &&& f.annotation == "lombok/extern/log4j/Log4j2"@ ==> f.factory_method
                == FactoryView::GetLogger("org/apache/logging/log4j/LogManager"@)
            &&& f.annotation == "lombok/extern/apachecommons/CommonsLog"@ ==> f.factory_method
                == FactoryView::GetLogger("org/apache/commons/logging/LogFactory"@)
            &&& f.annotation == "lombok/extern/jbosslog/JBossLog"@ ==> f.factory_method
                == FactoryView::GetLogger("org/jboss/logging/Logger"@)
            &&& f.annotation == "lombok/extern/flogger/Flogger"@ ==> f.factory_method
                == FactoryView::ForEnclosingClass("com/google/common/flogger/FluentLogger"@)
            &&& f.annotation == "lombok/extern/slf4j/XSlf4j"@ ==> f.factory_method
                == FactoryView::GetLogger("org/slf4j/ext/XLoggerFactory"@)
        }),
{
    reveal_strlit("lombok/extern/slf4j/Slf4j");
    reveal_strlit("lombok/extern/java/Log");
    reveal_strlit("lombok/extern/log4j/Log4j");
    reveal_strlit("lombok/extern/log4j/Log4j2");
    reveal_strlit("lombok/extern/apachecommons/CommonsLog");
    reveal_strlit("lombok/extern/jbosslog/JBossLog");
    reveal_strlit("lombok/extern/flogger/Flogger");
    reveal_strlit("lombok/extern/slf4j/XSlf4j");
    assert("lombok/extern/slf4j/Slf4j"@.len() == 25 && "lombok/extern/slf4j/Slf4j"@[14] == 's');
    assert("lombok/extern/java/Log"@.len() == 22);
    assert("lombok/extern/log4j/Log4j"@.len() == 25 && "lombok/extern/log4j/Log4j"@[14] == 'l');
    assert("lombok/extern/log4j/Log4j2"@.len() == 26 && "lombok/extern/log4j/Log4j2"@[14] == 'l');
    assert("lombok/extern/apachecommons/CommonsLog"@.len() == 38);
    assert("lombok/extern/jbosslog/JBossLog"@.len() == 31);
    assert("lombok/extern/flogger/Flogger"@.len() == 29);
    assert("lombok/extern/slf4j/XSlf4j"@.len() == 26 && "lombok/extern/slf4j/XSlf4j"@[14] == 's');
}

// ---- delegates ---------------------------------------------------------------------------------

/// A delegate has the name, the parameters and the types of the method that it calls, is public,
/// and its definition tells the field.
pub proof fn lemma_delegate_definitions(
    out: MembersView,
    field: Seq<char>,
    source: MethodView,
    methods: Seq<MethodView>,
)
    requires
        !has_method_spec(methods, source.name, source.desc()),
        !has_method_spec(out.methods, source.name, source.desc()),
        source.name != "equals"@,
        source.name != "hashCode"@,
        source.name != "toString"@,
        source.name != "clone"@,
        source.name != "finalize"@,
        source.name != "getClass"@,
        source.name != "notify"@,
        source.name != "notifyAll"@,
        source.name != "wait"@,
    ensures
        ({
            let later = plus_delegate(out, field, source, methods);
            &&& one_more(
                out,
                later,
                source.name,
                source.desc(),
                OriginView::LombokDelegate { field_name: field },
            )
            &&& later.methods.last().params == source.params
            &&& later.methods.last().return_type == source.return_type
            &&& later.methods.last().generic_signature == source.generic_signature
            &&& later.methods.last().access_flags == 1
        }),
{
    let later = plus_delegate(out, field, source, methods);
    assert(later.methods.take(out.methods.len() as int) =~= out.methods);
    assert(later.definitions.take(out.definitions.len() as int) =~= out.definitions);
}

/// The classes that an element lists: one alone, those of a list in their order, and none where it
/// is something else or missing.
pub proof fn lemma_listed_classes(a: AnnotationView, key: Seq<char>, s: Seq<char>, t: Seq<char>)
    ensures
        !a.elements.contains_key(key) ==> classes_param(a, key).len() == 0,
        a.elements.contains_key(key) && a.elements[key] == ValueView::Class(s) ==> classes_param(
            a,
            key,
        ) == seq![s],
        a.elements.contains_key(key) && a.elements[key] == ValueView::Array(
            seq![ValueView::Class(s), ValueView::Class(t)],
        ) ==> classes_param(a, key) == seq![s, t],
        a.elements.contains_key(key) && a.elements[key] == ValueView::String(s) ==> classes_param(
            a,
            key,
        ).len() == 0,
{
    reveal_with_fuel(classes_from, 3);
    let items = seq![ValueView::Class(s), ValueView::Class(t)];
    assert(classes_from(items, 2) =~= Seq::<Seq<char>>::empty());
    assert(classes_from(items, 1) =~= seq![t]);
    assert(classes_from(items, 0) =~= seq![s, t]);
}

/// A method that every object has is not delegated, nor one that the class has or that has been
/// generated.
pub proof fn lemma_not_delegated(
    out: MembersView,
    field: Seq<char>,
    source: MethodView,
    methods: Seq<MethodView>,
)
    requires
        source.name == "equals"@ || source.name == "hashCode"@ || source.name == "toString"@
            || source.name == "clone"@ || source.name == "finalize"@ || source.name == "getClass"@
            || source.name == "notify"@ || source.name == "notifyAll"@ || source.name == "wait"@
            || has_method_spec(methods, source.name, source.desc()) || has_method_spec(
            out.methods,
            source.name,
            source.desc(),
        ),
    ensures
        plus_delegate(out, field, source, methods) == out,
{
}

/// A field that is delegated to is marked as such; a static one is not delegated to.
pub proof fn lemma_delegate_markers(
    out: MembersView,
    input: SyntheticInput<'_>,
    f: FieldView,
    a: AnnotationView,
    methods: Seq<MethodView>,
)
    ensures
        ({
            let later = plus_delegates(out, input, f, a, methods);
            &&& later.definitions.len() > 0
            &&& later.definitions.last().name == "$delegate$"@ + f.name
            &&& later.definitions.last().descriptor is None
            &&& later.definitions.last().origin == OriginView::LombokDelegate {
                field_name: f.name,
            }
        }),
        f.access_flags & 0x0008 != 0 ==> after_delegate(out, input, f, methods) == out,
{
}

/// What is neither a class nor an interface is not found, whatever its name.
pub proof fn lemma_only_types_are_found(
    ctx: crate::extractor::JavaContextExtractor,
    ids: Seq<NodeId>,
    name: Seq<char>,
    i: int,
)
    requires
        0 <= i,
    ensures
        declared_from(ctx, ids, name, i) matches Some(n) ==> (ctx.tree.kind_of(n)
            == "interface_declaration"@ || ctx.tree.kind_of(n) == "class_declaration"@)
            && ids.contains(n) && (ctx.tree.field_of(n, "name"@) matches Some(id) && ctx.text_of(id)
            == name),
    decreases ids.len() - i,
{
    if i < ids.len() {
        if crate::lombok::rules::delegate_rule::declares(ctx, ids[i], name) {
            assert(ids[i] == ids[i]);
        } else {
            lemma_only_types_are_found(ctx, ids, name, i + 1);
        }
    }
}

/// The methods of a type that the text does not declare are those that the index has: under the
/// name that its descriptor tells, else under the text itself if it is a path, else under the name
/// that it resolves to.
pub proof fn lemma_methods_from_index(
    input: SyntheticInput<'_>,
    index: TypeIndex,
    text: Seq<char>,
    internal: Seq<char>,
)
    requires
        methods_in_source(input, text) is None,
        input.index == Some(index),
        index.parsed.deep_view().contains_key(text) && index.parsed.deep_view()[text] == internal
            || !index.parsed.deep_view().contains_key(text) && trim(text).contains('/') && trim(
            text,
        ) == internal || !index.parsed.deep_view().contains_key(text) && !trim(text).contains('/')
            && index.resolved.deep_view().contains_key(trim(text))
            && index.resolved.deep_view()[trim(text)] == internal,
        index.methods.deep_view().contains_key(internal),
    ensures
        index.methods.deep_view()[internal].len() > 0 ==> type_methods(input, text) == Some(
            index.methods.deep_view()[internal],
        ),
        index.methods.deep_view()[internal].len() == 0 ==> type_methods(input, text) is None,
{
}

/// Without an index, or where the index has nothing under the name, there are no methods; and what
/// the text declares comes before what the index has.
pub proof fn lemma_no_methods(input: SyntheticInput<'_>, text: Seq<char>)
    ensures
        methods_in_source(input, text) is None && input.index is None ==> type_methods(input, text)
            is None,
        methods_in_source(input, text) matches Some(own) ==> type_methods(input, text) == Some(own),
{
}

// ---- elements of annotations -------------------------------------------------------------------

/// The texts that an element lists: those of a list in their order, one alone, and none where it is
/// something else or missing.
pub proof fn lemma_listed_texts(a: AnnotationView, key: Seq<char>, s: Seq<char>, t: Seq<char>)
    ensures
        !a.elements.contains_key(key) ==> strings_param(a, key).len() == 0 && string_param(a, key)
            is None && !bool_param(a, key, false) && bool_param(a, key, true),
        a.elements.contains_key(key) && a.elements[key] == ValueView::String(s) ==> strings_param(
            a,
            key,
        ) == seq![s] && string_param(a, key) == Some(s),
        a.elements.contains_key(key) && a.elements[key] == ValueView::Array(
            seq![ValueView::String(s), ValueView::String(t)],
        ) ==> strings_param(a, key) == seq![s, t],
        a.elements.contains_key(key) && a.elements[key] == ValueView::Boolean(true) ==> bool_param(
            a,
            key,
            false,
        ),
        a.elements.contains_key(key) && a.elements[key] == ValueView::Boolean(false) ==> !bool_param(
            a,
            key,
            true,
        ),
{
    reveal_with_fuel(crate::lombok::utils::strings_from, 3);
    let items = seq![ValueView::String(s), ValueView::String(t)];
    assert(crate::lombok::utils::strings_from(items, 2) =~= Seq::<Seq<char>>::empty());
    assert(crate::lombok::utils::strings_from(items, 1) =~= seq![t]);
    assert(crate::lombok::utils::strings_from(items, 0) =~= seq![s, t]);
}

/// Every text in a list is listed.
pub proof fn lemma_every_text_is_listed(items: Seq<ValueView>, i: int, k: int, s: Seq<char>)
    requires
        0 <= i <= k < items.len(),
        items[k] == ValueView::String(s),
    ensures
        crate::lombok::utils::strings_from(items, i).contains(s),
    decreases k - i,
{
    let rest = crate::lombok::utils::strings_from(items, i + 1);
    let all = crate::lombok::utils::strings_from(items, i);
    if i < k {
        lemma_every_text_is_listed(items, i + 1, k, s);
        let at = choose|at: int| 0 <= at < rest.len() && rest[at] == s;
        match items[i] {
            ValueView::String(_) => {
                assert(all[at + 1] == s);
            },
            _ => {},
        }
    } else {
        assert(all[0] == s);
    }
}

/// An annotation is copied where its name fits one of the patterns, with slashes for their dots,
/// and only there.
pub proof fn lemma_copied(source: Seq<AnnotationView>, patterns: Seq<Seq<char>>, i: int, k: int)
    requires
        0 <= i <= k < source.len(),
    ensures
        (exists|p: int|
            0 <= p < patterns.len() && fits(
                source[k].internal_name,
                crate::lombok::utils::slashed(#[trigger] patterns[p]),
            )) ==> copied_from(source, patterns, i).contains(source[k]),
    decreases k - i,
{
    let rest = copied_from(source, patterns, i + 1);
    let all = copied_from(source, patterns, i);
    if exists|p: int|
        0 <= p < patterns.len() && fits(
            source[k].internal_name,
            crate::lombok::utils::slashed(#[trigger] patterns[p]),
        ) {
        let p = choose|p: int|
            0 <= p < patterns.len() && fits(
                source[k].internal_name,
                crate::lombok::utils::slashed(#[trigger] patterns[p]),
            );
        lemma_any_matches(source[k].internal_name, patterns, 0, p);
        if i < k {
            lemma_copied(source, patterns, i + 1, k);
            let at = choose|at: int| 0 <= at < rest.len() && rest[at] == source[k];
            if any_matches_from(source[i].internal_name, patterns, 0) {
                assert(all[at + 1] == source[k]);
            }
        } else {
            assert(all[0] == source[k]);
        }
    }
}

proof fn lemma_any_matches(name: Seq<char>, patterns: Seq<Seq<char>>, i: int, p: int)
    requires
        0 <= i <= p < patterns.len(),
        fits(name, crate::lombok::utils::slashed(patterns[p])),
    ensures
        any_matches_from(name, patterns, i),
    decreases p - i,
{
    if i < p {
        lemma_any_matches(name, patterns, i + 1, p);
    }
}

/// What is copied fits one of the patterns.
pub proof fn lemma_only_fitting_copied(
    source: Seq<AnnotationView>,
    patterns: Seq<Seq<char>>,
    i: int,
    k: int,
)
    requires
        0 <= i,
        0 <= k < copied_from(source, patterns, i).len(),
    ensures
        source.contains(copied_from(source, patterns, i)[k]),
        exists|p: int|
            0 <= p < patterns.len() && fits(
                copied_from(source, patterns, i)[k].internal_name,
                crate::lombok::utils::slashed(#[trigger] patterns[p]),
            ),
    decreases source.len() - i,
{
    if i < source.len() {
        if any_matches_from(source[i].internal_name, patterns, 0) {
            if k > 0 {
                lemma_only_fitting_copied(source, patterns, i + 1, k - 1);
            } else {
                lemma_some_match(source[i].internal_name, patterns, 0);
            }
        } else {
            lemma_only_fitting_copied(source, patterns, i + 1, k);
        }
    }
}

proof fn lemma_some_match(name: Seq<char>, patterns: Seq<Seq<char>>, i: int)
    requires
        0 <= i,
        any_matches_from(name, patterns, i),
    ensures
        exists|p: int|
            0 <= p < patterns.len() && fits(
                name,
                crate::lombok::utils::slashed(#[trigger] patterns[p]),
            ),
    decreases patterns.len() - i,
{
    if i < patterns.len() {
        if fits(name, crate::lombok::utils::slashed(patterns[i])) {
            assert(fits(name, crate::lombok::utils::slashed(patterns[i])));
        } else {
            lemma_some_match(name, patterns, i + 1);
        }
    }
}

/// An annotation of the field decides by its level alone; one of the class counts for the fields of
/// the objects that it does not leave out; without either nothing is generated.
pub proof fn lemma_accessors_asked(
    f: FieldView,
    class_level: Option<AnnotationView>,
    field_level: Option<AnnotationView>,
)
    ensures
        field_level matches Some(a) ==> generates_for(f, class_level, field_level) == (level_of(a)
            != AccessLevel::Never),
        field_level is None && class_level is None ==> !generates_for(f, class_level, field_level),
        field_level is None && f.access_flags & 0x0008 != 0 ==> !generates_for(
            f,
            class_level,
            field_level,
        ),
        field_level is None ==> (class_level matches Some(a) ==> f.access_flags & 0x0008 == 0
            && !a.elements.contains_key("exclude"@) && !a.elements.contains_key("of"@) ==> (
        generates_for(f, class_level, field_level) == (level_of(a) != AccessLevel::Never))),
{
}

} // verus!
