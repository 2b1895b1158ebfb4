//! How annotations are found, and what their elements say.
use vstd::prelude::*;

use crate::index::{AnnotationView, ValueView};
use crate::lombok::annotations as constants;
use crate::lombok::types::AccessLevel;
use crate::lombok::utils::{excluded, found, found_from, level_of};
use crate::text::laws::lemma_after_last;

verus! {

/// An annotation with the name that a package and a simple name make, or with the simple name.
pub open spec fn is_named(a: AnnotationView, package: Seq<char>, simple: Seq<char>) -> bool {
    a.internal_name == package + simple || a.internal_name == simple
}

/// An annotation is found by its full name and by its simple name, the first one that has either.
pub proof fn lemma_found(
    annos: Seq<AnnotationView>,
    package: Seq<char>,
    simple: Seq<char>,
    i: int,
)
    requires
        0 <= i,
        !simple.contains('/'),
        package.len() == 0 || package.last() == '/',
    ensures
        match found_from(annos, package + simple, i) {
            Some(a) => exists|k: int|
                i <= k < annos.len() && #[trigger] annos[k] == a && is_named(a, package, simple)
                    && forall|q: int|
                    i <= q < k ==> !is_named(#[trigger] annos[q], package, simple),
            None => forall|q: int|
                i <= q < annos.len() ==> !is_named(#[trigger] annos[q], package, simple),
        },
    decreases annos.len() - i,
{
    lemma_after_last(package, simple, '/');
    if i < annos.len() && !is_named(annos[i], package, simple) {
        lemma_found(annos, package, simple, i + 1);
    }
}

/// The name with a package that ends in `/`, as one text.
pub open spec fn full_name(whole: Seq<char>, package: Seq<char>, simple: Seq<char>) -> bool {
    whole == package + simple && !simple.contains('/') && (package.len() == 0 || package.last()
        == '/')
}

/// Some annotation has the full name or the simple one exactly where one is found.
pub proof fn lemma_found_exactly(
    annos: Seq<AnnotationView>,
    whole: Seq<char>,
    package: Seq<char>,
    simple: Seq<char>,
)
    requires
        full_name(whole, package, simple),
    ensures
        found(annos, whole) is Some <==> exists|k: int|
            0 <= k < annos.len() && is_named(#[trigger] annos[k], package, simple),
        found(annos, whole) matches Some(a) ==> annos.contains(a) && is_named(a, package, simple),
{
    lemma_found(annos, package, simple, 0);
}

/// An annotation leaves a field out exactly where its element `exclude` lists the field or its
/// element `of` lists others only; a list names the field as a text of its own or as an item.
pub proof fn lemma_excluded(field: Seq<char>, a: AnnotationView)
    ensures
        excluded(field, a) <==> {
            ||| a.elements.contains_key("exclude"@) && (a.elements["exclude"@] == ValueView::String(
                field,
            ) || (a.elements["exclude"@] matches ValueView::Array(items) && items.contains(
                ValueView::String(field),
            )))
            ||| a.elements.contains_key("of"@) && a.elements["of"@] != ValueView::String(field)
                && !(a.elements["of"@] matches ValueView::Array(items) && items.contains(
                ValueView::String(field),
            ))
        },
{
}

/// Each constant of the access levels names its level, and nothing else does.
pub proof fn lemma_levels(name: Seq<char>, enum_type: Seq<char>)
    ensures
        ({
            let r = AccessLevel::told(ValueView::Enum { enum_type, const_name: name });
            &&& name == "PUBLIC"@ ==> r == Some(AccessLevel::Public)
            &&& name == "MODULE"@ ==> r == Some(AccessLevel::Module)
            &&& name == "PROTECTED"@ ==> r == Some(AccessLevel::Protected)
            &&& name == "PACKAGE"@ ==> r == Some(AccessLevel::Package)
            &&& name == "PRIVATE"@ ==> r == Some(AccessLevel::Private)
            &&& name == "NONE"@ ==> r == Some(AccessLevel::Never)
            &&& r is Some ==> name == "PUBLIC"@ || name == "MODULE"@ || name == "PROTECTED"@ || name
                == "PACKAGE"@ || name == "PRIVATE"@ || name == "NONE"@
        }),
{
    lemma_level_names_differ();
}

/// No two levels are named alike.
proof fn lemma_level_names_differ()
    ensures
        "PUBLIC"@.len() == 6,
        "MODULE"@.len() == 6,
        "PROTECTED"@.len() == 9,
        "PACKAGE"@.len() == 7,
        "PRIVATE"@.len() == 7,
        "NONE"@.len() == 4,
        "PUBLIC"@ != "MODULE"@,
        "PACKAGE"@ != "PRIVATE"@,
{
    reveal_strlit("PUBLIC");
    reveal_strlit("MODULE");
    reveal_strlit("PROTECTED");
    reveal_strlit("PACKAGE");
    reveal_strlit("PRIVATE");
    reveal_strlit("NONE");
    assert("PUBLIC"@[0] == 'P');
    assert("MODULE"@[0] == 'M');
    assert("PACKAGE"@[1] == 'A');
    assert("PRIVATE"@[1] == 'R');
}

/// The flags of a level are those of the language: 1 public, 2 private, 4 protected, none else.
pub proof fn lemma_level_flags(level: AccessLevel)
    ensures
        level == AccessLevel::Public ==> level.flags() == 1,
        level == AccessLevel::Private ==> level.flags() == 2,
        level == AccessLevel::Protected ==> level.flags() == 4,
        level == AccessLevel::Module || level == AccessLevel::Package ==> level.flags() == 0,
{
}

/// The level of an annotation is what its element `value` names.
pub proof fn lemma_level_told(a: AnnotationView, level: AccessLevel)
    requires
        a.elements.contains_key("value"@),
        AccessLevel::told(a.elements["value"@]) == Some(level),
    ensures
        level_of(a) == level,
{
}

/// Without an element `value` the access level is public.
pub proof fn lemma_level_defaults(a: AnnotationView)
    requires
        !a.elements.contains_key("value"@),
    ensures
        level_of(a) == AccessLevel::Public,
{
}

/// Some annotation has one of two names.
pub open spec fn some_named(annos: Seq<AnnotationView>, whole: Seq<char>, simple: Seq<char>) -> bool {
    exists|k: int|
        0 <= k < annos.len() && ((#[trigger] annos[k]).internal_name == whole
            || annos[k].internal_name == simple)
}

proof fn lemma_spelled(
    annos: Seq<AnnotationView>,
    whole: Seq<char>,
    package: Seq<char>,
    simple: Seq<char>,
)
    requires
        full_name(whole, package, simple),
    ensures
        found(annos, whole) is Some <==> some_named(annos, whole, simple),
{
    lemma_found_exactly(annos, whole, package, simple);
    if found(annos, whole) is Some {
        let k = choose|k: int| 0 <= k < annos.len() && is_named(#[trigger] annos[k], package, simple);
        assert(annos[k].internal_name == whole || annos[k].internal_name == simple);
    }
    if some_named(annos, whole, simple) {
        let k = choose|k: int|
            0 <= k < annos.len() && ((#[trigger] annos[k]).internal_name == whole
                || annos[k].internal_name == simple);
        assert(is_named(annos[k], package, simple));
    }
}

/// `@Getter` is found by its full name and by its simple name.
pub proof fn lemma_named_getter(annos: Seq<AnnotationView>)
    ensures
        found(annos, constants::GETTER@) is Some <==> some_named(annos, "lombok/Getter"@, "Getter"@),
{
    reveal_strlit("lombok/Getter");
    reveal_strlit("lombok/");
    reveal_strlit("Getter");
    assert(constants::GETTER@ =~= "lombok/"@ + "Getter"@);
    assert("lombok/"@.last() == '/');
    assert(!"Getter"@.contains('/'));
    lemma_spelled(annos, constants::GETTER@, "lombok/"@, "Getter"@);
}

/// `@ToString` is found by its full name and by its simple name.
pub proof fn lemma_named_to_string(annos: Seq<AnnotationView>)
    ensures
        found(annos, constants::TO_STRING@) is Some <==> some_named(annos, "lombok/ToString"@, "ToString"@),
{
    reveal_strlit("lombok/ToString");
    reveal_strlit("lombok/");
    reveal_strlit("ToString");
    assert(constants::TO_STRING@ =~= "lombok/"@ + "ToString"@);
    assert("lombok/"@.last() == '/');
    assert(!"ToString"@.contains('/'));
    lemma_spelled(annos, constants::TO_STRING@, "lombok/"@, "ToString"@);
}

/// `@EqualsAndHashCode` is found by its full name and by its simple name.
pub proof fn lemma_named_equals_and_hash_code(annos: Seq<AnnotationView>)
    ensures
        found(annos, constants::EQUALS_AND_HASH_CODE@) is Some <==> some_named(annos, "lombok/EqualsAndHashCode"@, "EqualsAndHashCode"@),
{
    reveal_strlit("lombok/EqualsAndHashCode");
    reveal_strlit("lombok/");
    reveal_strlit("EqualsAndHashCode");
    assert(constants::EQUALS_AND_HASH_CODE@ =~= "lombok/"@ + "EqualsAndHashCode"@);
    assert("lombok/"@.last() == '/');
    assert(!"EqualsAndHashCode"@.contains('/'));
    lemma_spelled(annos, constants::EQUALS_AND_HASH_CODE@, "lombok/"@, "EqualsAndHashCode"@);
}

/// `@NoArgsConstructor` is found by its full name and by its simple name.
pub proof fn lemma_named_no_args_constructor(annos: Seq<AnnotationView>)
    ensures
        found(annos, constants::NO_ARGS_CONSTRUCTOR@) is Some <==> some_named(annos, "lombok/NoArgsConstructor"@, "NoArgsConstructor"@),
{
    reveal_strlit("lombok/NoArgsConstructor");
    reveal_strlit("lombok/");
    reveal_strlit("NoArgsConstructor");
    assert(constants::NO_ARGS_CONSTRUCTOR@ =~= "lombok/"@ + "NoArgsConstructor"@);
    assert("lombok/"@.last() == '/');
    assert(!"NoArgsConstructor"@.contains('/'));
    lemma_spelled(annos, constants::NO_ARGS_CONSTRUCTOR@, "lombok/"@, "NoArgsConstructor"@);
}

/// `@RequiredArgsConstructor` is found by its full name and by its simple name.
pub proof fn lemma_named_required_args_constructor(annos: Seq<AnnotationView>)
    ensures
        found(annos, constants::REQUIRED_ARGS_CONSTRUCTOR@) is Some <==> some_named(annos, "lombok/RequiredArgsConstructor"@, "RequiredArgsConstructor"@),
{
    reveal_strlit("lombok/RequiredArgsConstructor");
    reveal_strlit("lombok/");
    reveal_strlit("RequiredArgsConstructor");
    assert(constants::REQUIRED_ARGS_CONSTRUCTOR@ =~= "lombok/"@ + "RequiredArgsConstructor"@);
    assert("lombok/"@.last() == '/');
    assert(!"RequiredArgsConstructor"@.contains('/'));
    lemma_spelled(annos, constants::REQUIRED_ARGS_CONSTRUCTOR@, "lombok/"@, "RequiredArgsConstructor"@);
}

/// `@AllArgsConstructor` is found by its full name and by its simple name.
pub proof fn lemma_named_all_args_constructor(annos: Seq<AnnotationView>)
    ensures
        found(annos, constants::ALL_ARGS_CONSTRUCTOR@) is Some <==> some_named(annos, "lombok/AllArgsConstructor"@, "AllArgsConstructor"@),
{
    reveal_strlit("lombok/AllArgsConstructor");
    reveal_strlit("lombok/");
    reveal_strlit("AllArgsConstructor");
    assert(constants::ALL_ARGS_CONSTRUCTOR@ =~= "lombok/"@ + "AllArgsConstructor"@);
    assert("lombok/"@.last() == '/');
    assert(!"AllArgsConstructor"@.contains('/'));
    lemma_spelled(annos, constants::ALL_ARGS_CONSTRUCTOR@, "lombok/"@, "AllArgsConstructor"@);
}

/// `@Value` is found by its full name and by its simple name.
pub proof fn lemma_named_value(annos: Seq<AnnotationView>)
    ensures
        found(annos, constants::VALUE@) is Some <==> some_named(annos, "lombok/Value"@, "Value"@),
{
    reveal_strlit("lombok/Value");
    reveal_strlit("lombok/");
    reveal_strlit("Value");
    assert(constants::VALUE@ =~= "lombok/"@ + "Value"@);
    assert("lombok/"@.last() == '/');
    assert(!"Value"@.contains('/'));
    lemma_spelled(annos, constants::VALUE@, "lombok/"@, "Value"@);
}

/// `@With` is found by its full name and by its simple name.
pub proof fn lemma_named_with(annos: Seq<AnnotationView>)
    ensures
        found(annos, constants::WITH@) is Some <==> some_named(annos, "lombok/With"@, "With"@),
{
    reveal_strlit("lombok/With");
    reveal_strlit("lombok/");
    reveal_strlit("With");
    assert(constants::WITH@ =~= "lombok/"@ + "With"@);
    assert("lombok/"@.last() == '/');
    assert(!"With"@.contains('/'));
    lemma_spelled(annos, constants::WITH@, "lombok/"@, "With"@);
}

/// `@Wither` is found by its full name and by its simple name.
pub proof fn lemma_named_wither(annos: Seq<AnnotationView>)
    ensures
        found(annos, constants::WITHER@) is Some <==> some_named(annos, "lombok/experimental/Wither"@, "Wither"@),
{
    reveal_strlit("lombok/experimental/Wither");
    reveal_strlit("lombok/experimental/");
    reveal_strlit("Wither");
    assert(constants::WITHER@ =~= "lombok/experimental/"@ + "Wither"@);
    assert("lombok/experimental/"@.last() == '/');
    assert(!"Wither"@.contains('/'));
    lemma_spelled(annos, constants::WITHER@, "lombok/experimental/"@, "Wither"@);
}

/// `@Delegate` is found by its full name and by its simple name.
pub proof fn lemma_named_delegate(annos: Seq<AnnotationView>)
    ensures
        found(annos, constants::DELEGATE@) is Some <==> some_named(annos, "lombok/experimental/Delegate"@, "Delegate"@),
{
    reveal_strlit("lombok/experimental/Delegate");
    reveal_strlit("lombok/experimental/");
    reveal_strlit("Delegate");
    assert(constants::DELEGATE@ =~= "lombok/experimental/"@ + "Delegate"@);
    assert("lombok/experimental/"@.last() == '/');
    assert(!"Delegate"@.contains('/'));
    lemma_spelled(annos, constants::DELEGATE@, "lombok/experimental/"@, "Delegate"@);
}

/// `@NonNull` is found by its full name and by its simple name.
pub proof fn lemma_named_non_null(annos: Seq<AnnotationView>)
    ensures
        found(annos, constants::NON_NULL@) is Some <==> some_named(annos, "lombok/NonNull"@, "NonNull"@),
{
    reveal_strlit("lombok/NonNull");
    reveal_strlit("lombok/");
    reveal_strlit("NonNull");
    assert(constants::NON_NULL@ =~= "lombok/"@ + "NonNull"@);
    assert("lombok/"@.last() == '/');
    assert(!"NonNull"@.contains('/'));
    lemma_spelled(annos, constants::NON_NULL@, "lombok/"@, "NonNull"@);
}

/// `@Slf4j` is found by its full name and by its simple name.
pub proof fn lemma_named_slf4j(annos: Seq<AnnotationView>)
    ensures
        found(annos, constants::SLF4J@) is Some <==> some_named(annos, "lombok/extern/slf4j/Slf4j"@, "Slf4j"@),
{
    reveal_strlit("lombok/extern/slf4j/Slf4j");
    reveal_strlit("lombok/extern/slf4j/");
    reveal_strlit("Slf4j");
    assert(constants::SLF4J@ =~= "lombok/extern/slf4j/"@ + "Slf4j"@);
    assert("lombok/extern/slf4j/"@.last() == '/');
    assert(!"Slf4j"@.contains('/'));
    lemma_spelled(annos, constants::SLF4J@, "lombok/extern/slf4j/"@, "Slf4j"@);
}

/// `@Log` is found by its full name and by its simple name.
pub proof fn lemma_named_log(annos: Seq<AnnotationView>)
    ensures
        found(annos, constants::LOG@) is Some <==> some_named(annos, "lombok/extern/java/Log"@, "Log"@),
{
    reveal_strlit("lombok/extern/java/Log");
    reveal_strlit("lombok/extern/java/");
    reveal_strlit("Log");
    assert(constants::LOG@ =~= "lombok/extern/java/"@ + "Log"@);
    assert("lombok/extern/java/"@.last() == '/');
    assert(!"Log"@.contains('/'));
    lemma_spelled(annos, constants::LOG@, "lombok/extern/java/"@, "Log"@);
}

/// `@Log4j` is found by its full name and by its simple name.
pub proof fn lemma_named_log4j(annos: Seq<AnnotationView>)
    ensures
        found(annos, constants::LOG4J@) is Some <==> some_named(annos, "lombok/extern/log4j/Log4j"@, "Log4j"@),
{
    reveal_strlit("lombok/extern/log4j/Log4j");
    reveal_strlit("lombok/extern/log4j/");
    reveal_strlit("Log4j");
    assert(constants::LOG4J@ =~= "lombok/extern/log4j/"@ + "Log4j"@);
    assert("lombok/extern/log4j/"@.last() == '/');
    assert(!"Log4j"@.contains('/'));
    lemma_spelled(annos, constants::LOG4J@, "lombok/extern/log4j/"@, "Log4j"@);
}

/// `@Log4j2` is found by its full name and by its simple name.
pub proof fn lemma_named_log4j2(annos: Seq<AnnotationView>)
    ensures
        found(annos, constants::LOG4J2@) is Some <==> some_named(annos, "lombok/extern/log4j/Log4j2"@, "Log4j2"@),
{
    reveal_strlit("lombok/extern/log4j/Log4j2");
    reveal_strlit("lombok/extern/log4j/");
    reveal_strlit("Log4j2");
    assert(constants::LOG4J2@ =~= "lombok/extern/log4j/"@ + "Log4j2"@);
    assert("lombok/extern/log4j/"@.last() == '/');
    assert(!"Log4j2"@.contains('/'));
    lemma_spelled(annos, constants::LOG4J2@, "lombok/extern/log4j/"@, "Log4j2"@);
}

/// `@CommonsLog` is found by its full name and by its simple name.
pub proof fn lemma_named_commons_log(annos: Seq<AnnotationView>)
    ensures
        found(annos, constants::COMMONS_LOG@) is Some <==> some_named(annos, "lombok/extern/apachecommons/CommonsLog"@, "CommonsLog"@),
{
    reveal_strlit("lombok/extern/apachecommons/CommonsLog");
    reveal_strlit("lombok/extern/apachecommons/");
    reveal_strlit("CommonsLog");
    assert(constants::COMMONS_LOG@ =~= "lombok/extern/apachecommons/"@ + "CommonsLog"@);
    assert("lombok/extern/apachecommons/"@.last() == '/');
    assert(!"CommonsLog"@.contains('/'));
    lemma_spelled(annos, constants::COMMONS_LOG@, "lombok/extern/apachecommons/"@, "CommonsLog"@);
}

/// `@JBossLog` is found by its full name and by its simple name.
pub proof fn lemma_named_jboss_log(annos: Seq<AnnotationView>)
    ensures
        found(annos, constants::JBOSS_LOG@) is Some <==> some_named(annos, "lombok/extern/jbosslog/JBossLog"@, "JBossLog"@),
{
    reveal_strlit("lombok/extern/jbosslog/JBossLog");
    reveal_strlit("lombok/extern/jbosslog/");
    reveal_strlit("JBossLog");
    assert(constants::JBOSS_LOG@ =~= "lombok/extern/jbosslog/"@ + "JBossLog"@);
    assert("lombok/extern/jbosslog/"@.last() == '/');
    assert(!"JBossLog"@.contains('/'));
    lemma_spelled(annos, constants::JBOSS_LOG@, "lombok/extern/jbosslog/"@, "JBossLog"@);
}

/// `@Flogger` is found by its full name and by its simple name.
pub proof fn lemma_named_flogger(annos: Seq<AnnotationView>)
    ensures
        found(annos, constants::FLOGGER@) is Some <==> some_named(annos, "lombok/extern/flogger/Flogger"@, "Flogger"@),
{
    reveal_strlit("lombok/extern/flogger/Flogger");
    reveal_strlit("lombok/extern/flogger/");
    reveal_strlit("Flogger");
    assert(constants::FLOGGER@ =~= "lombok/extern/flogger/"@ + "Flogger"@);
    assert("lombok/extern/flogger/"@.last() == '/');
    assert(!"Flogger"@.contains('/'));
    lemma_spelled(annos, constants::FLOGGER@, "lombok/extern/flogger/"@, "Flogger"@);
}

/// `@XSlf4j` is found by its full name and by its simple name.
pub proof fn lemma_named_xslf4j(annos: Seq<AnnotationView>)
    ensures
        found(annos, constants::XSLF4J@) is Some <==> some_named(annos, "lombok/extern/slf4j/XSlf4j"@, "XSlf4j"@),
{
    reveal_strlit("lombok/extern/slf4j/XSlf4j");
    reveal_strlit("lombok/extern/slf4j/");
    reveal_strlit("XSlf4j");
    assert(constants::XSLF4J@ =~= "lombok/extern/slf4j/"@ + "XSlf4j"@);
    assert("lombok/extern/slf4j/"@.last() == '/');
    assert(!"XSlf4j"@.contains('/'));
    lemma_spelled(annos, constants::XSLF4J@, "lombok/extern/slf4j/"@, "XSlf4j"@);
}

} // verus!
