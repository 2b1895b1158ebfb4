//! Reading annotations, and the names of accessors.
use vstd::prelude::*;
use vstd::slice::slice_subrange;

use crate::access_flags::{final_flags, is_final, is_static, static_flags};
use crate::index::{
    lemma_models, models, AnnotationSummary, AnnotationValue, AnnotationView, FieldSummary,
    FieldView, ValueView,
};
use crate::text::{
    after_last, append, append_str, begins_with, behind_last, contains_char, ends_with, find,
    find_text, finishes_with, split, split_at_char, starts_with, str_eq, to_chars, to_text,
};
use crate::text_map::Duplicate;

use super::config::{bool_or, list_of, LombokConfig};
use super::types::AccessLevel;
use super::{annotations, config_keys};

verus! {

/// What `char::to_uppercase` gives for a character outside of ASCII.
pub uninterp spec fn uppercase(c: char) -> Seq<char>;

/// The upper case of a character; outside of ASCII it can be several characters.
pub open spec fn upper(c: char) -> Seq<char> {
    if 'a' <= c <= 'z' {
        seq![(c as u32 - 32) as char]
    } else if (c as u32) < 0x80 {
        seq![c]
    } else {
        uppercase(c)
    }
}

/// `char::to_uppercase` gives the upper case of a character. In ASCII it turns `a` to `z` into `A`
/// to `Z` and leaves the rest alone.
#[verifier::external_body]
fn to_uppercase(c: char) -> (r: String)
    ensures
        (c as u32) >= 0x80 ==> r@ == uppercase(c),
        (c as u32) < 0x80 ==> r@ == upper(c),
{
    c.to_uppercase().to_string()
}

/// The annotation goes by an internal name: it has that name, or what follows the last `/` in it.
pub open spec fn goes_by(a: AnnotationView, internal_name: Seq<char>) -> bool {
    a.internal_name == internal_name || a.internal_name == after_last(internal_name, '/')
}

/// The first annotation from the `i`-th on that goes by an internal name.
pub open spec fn found_from(
    annos: Seq<AnnotationView>,
    internal_name: Seq<char>,
    i: int,
) -> Option<AnnotationView>
    decreases annos.len() - i,
{
    if i < 0 || i >= annos.len() {
        None
    } else if goes_by(annos[i], internal_name) {
        Some(annos[i])
    } else {
        found_from(annos, internal_name, i + 1)
    }
}

/// The first annotation that goes by an internal name.
pub open spec fn found(annos: Seq<AnnotationView>, internal_name: Seq<char>) -> Option<
    AnnotationView,
> {
    found_from(annos, internal_name, 0)
}

/// Whether an annotation goes by an internal name (`lombok/Getter`) or by the simple name in it
/// (`Getter`).
pub fn has_lombok_annotation(annotations: &[AnnotationSummary], internal_name: &str) -> (r: bool)
    ensures
        r == found(annotations.deep_view(), internal_name@) is Some,
{
    find_lombok_annotation(annotations, internal_name).is_some()
}

/// The first annotation that goes by an internal name (`lombok/Getter`) or by the simple name in
/// it (`Getter`).
pub fn find_lombok_annotation<'a>(
    annotations: &'a [AnnotationSummary],
    internal_name: &str,
) -> (r: Option<&'a AnnotationSummary>)
    ensures
        r.deep_view() == found(annotations.deep_view(), internal_name@),
{
    let whole = to_chars(internal_name);
    let simple = to_text(behind_last(whole.as_slice(), '/'));
    let ghost annos = annotations.deep_view();
    let mut i: usize = 0;
    while i < annotations.len()
        invariant
            i <= annotations.len(),
            annos == annotations.deep_view(),
            simple@ == after_last(internal_name@, '/'),
            found(annos, internal_name@) == found_from(annos, internal_name@, i as int),
        decreases annotations.len() - i,
    {
        let anno: &AnnotationSummary = &annotations[i];
        assert(annos[i as int] == anno.deep_view());
        let name = anno.internal_name.as_str();
        if str_eq(name, internal_name) || str_eq(name, simple.as_str()) {
            return Some(anno);
        }
        i += 1;
    }
    None
}

/// The value of an annotation's element.
pub open spec fn value_of(a: AnnotationView, key: Seq<char>) -> Option<ValueView> {
    if a.elements.contains_key(key) {
        Some(a.elements[key])
    } else {
        None
    }
}

/// The value of an annotation's element.
pub fn get_annotation_value<'a>(anno: &'a AnnotationSummary, key: &str) -> (r: Option<
    &'a AnnotationValue,
>)
    ensures
        r.deep_view() == value_of(anno.deep_view(), key@),
{
    anno.elements.get(key)
}

/// The access level of an annotation: what its element `value` names, else public.
pub open spec fn level_of(a: AnnotationView) -> AccessLevel {
    match value_of(a, "value"@) {
        Some(v) => match AccessLevel::told(v) {
            Some(level) => level,
            None => AccessLevel::Public,
        },
        None => AccessLevel::Public,
    }
}

/// The access level of an annotation.
pub fn parse_access_level(anno: &AnnotationSummary) -> (r: AccessLevel)
    ensures
        r == level_of(anno.deep_view()),
{
    match get_annotation_value(anno, "value") {
        Some(v) => match AccessLevel::from_annotation_value(v) {
            Some(level) => level,
            None => AccessLevel::Public,
        },
        None => AccessLevel::Public,
    }
}

/// The value is the text, or lists it.
pub open spec fn lists(value: ValueView, text: Seq<char>) -> bool {
    match value {
        ValueView::String(s) => s == text,
        ValueView::Array(items) => items.contains(ValueView::String(text)),
        _ => false,
    }
}

/// A field that an annotation leaves out: its element `exclude` lists the field, or it has an
/// element `of` that does not.
pub open spec fn excluded(field_name: Seq<char>, a: AnnotationView) -> bool {
    (match value_of(a, "exclude"@) {
        Some(v) => lists(v, field_name),
        None => false,
    }) || (match value_of(a, "of"@) {
        Some(v) => !lists(v, field_name),
        None => false,
    })
}

/// Whether an annotation leaves a field out.
pub fn is_field_excluded(field_name: &str, anno: &AnnotationSummary) -> (r: bool)
    ensures
        r == excluded(field_name@, anno.deep_view()),
{
    if let Some(v) = get_annotation_value(anno, "exclude") {
        if matches_field_in_array(field_name, v) {
            return true;
        }
    }
    match get_annotation_value(anno, "of") {
        Some(v) => !matches_field_in_array(field_name, v),
        None => false,
    }
}

/// Whether a value is a name, or lists it.
pub fn matches_field_in_array(field_name: &str, value: &AnnotationValue) -> (r: bool)
    ensures
        r == lists(value.deep_view(), field_name@),
{
    match value {
        AnnotationValue::String(s) => str_eq(s.as_str(), field_name),
        AnnotationValue::Array(items) => {
            proof {
                lemma_models(items@);
            }
            let mut i: usize = 0;
            while i < items.len()
                invariant
                    i <= items.len(),
                    models(items@).len() == items@.len(),
                    forall|k: int|
                        0 <= k < items@.len() ==> #[trigger] models(items@)[k] == items@[k].model(),
                    forall|k: int|
                        0 <= k < i ==> #[trigger] models(items@)[k] != ValueView::String(field_name@),
                    *value == AnnotationValue::Array(*items),
                decreases items.len() - i,
            {
                assert(models(items@)[i as int] == items@[i as int].model());
                if let AnnotationValue::String(s) = &items[i] {
                    if str_eq(s.as_str(), field_name) {
                        assert(models(items@).contains(ValueView::String(field_name@)));
                        return true;
                    }
                }
                i += 1;
            }
            assert(!models(items@).contains(ValueView::String(field_name@)));
            false
        },
        _ => false,
    }
}

/// An accessor is generated for a field: an annotation of the field itself decides by its level;
/// one of the class leaves out static fields and those that it excludes.
pub open spec fn generates_for(
    field: FieldView,
    class_level: Option<AnnotationView>,
    field_level: Option<AnnotationView>,
) -> bool {
    match field_level {
        Some(a) => level_of(a) != AccessLevel::Never,
        None => match class_level {
            Some(a) => !static_flags(field.access_flags) && !excluded(field.name, a) && level_of(a)
                != AccessLevel::Never,
            None => false,
        },
    }
}

/// Whether an accessor is generated for a field.
pub fn should_generate_for_field(
    field: &FieldSummary,
    class_level_anno: Option<&AnnotationSummary>,
    field_level_anno: Option<&AnnotationSummary>,
) -> (r: bool)
    ensures
        r == generates_for(
            field.deep_view(),
            class_level_anno.deep_view(),
            field_level_anno.deep_view(),
        ),
{
    if let Some(anno) = field_level_anno {
        return parse_access_level(anno) != AccessLevel::Never;
    }
    if is_static(field.access_flags) {
        return false;
    }
    match class_level_anno {
        Some(anno) => {
            if is_field_excluded(field.name.as_str(), anno) {
                return false;
            }
            parse_access_level(anno) != AccessLevel::Never
        },
        None => false,
    }
}

/// A text with a first character in place of its own.
pub open spec fn with_first(upper: Seq<char>, s: Seq<char>) -> Seq<char> {
    upper + s.skip(1)
}

/// A text with its first character in upper case.
pub open spec fn capitalized(s: Seq<char>) -> Seq<char> {
    if s.len() == 0 {
        Seq::empty()
    } else {
        with_first(upper(s[0]), s)
    }
}

/// Puts `upper` in place of the first character of a text.
pub fn replace_first(upper: &str, s: &str) -> (r: String)
    requires
        s@.len() > 0,
    ensures
        r@ == with_first(upper@, s@),
{
    let text = to_chars(s);
    let n: usize = text.len();
    let rest = slice_subrange(text.as_slice(), 1, n);
    assert(rest@ =~= s@.skip(1));
    let mut out = to_chars(upper);
    append(&mut out, rest);
    to_text(out.as_slice())
}

/// Puts the first character of a text in upper case.
pub fn capitalize_first(s: &str) -> (r: String)
    ensures
        r@ == capitalized(s@),
{
    let text = to_chars(s);
    if text.len() == 0 {
        let r = to_text(text.as_slice());
        assert(r@ =~= Seq::<char>::empty());
        return r;
    }
    let upper = to_uppercase(text[0]);
    replace_first(upper.as_str(), s)
}

/// The name of a field without the first prefix, of those from the `i`-th on, that it begins with
/// and that is not all of it.
pub open spec fn stripped_from(name: Seq<char>, prefixes: Seq<Seq<char>>, i: int) -> Seq<char>
    decreases prefixes.len() - i,
{
    if i < 0 || i >= prefixes.len() {
        name
    } else if starts_with(name, prefixes[i]) && prefixes[i].len() < name.len() {
        name.skip(prefixes[i].len() as int)
    } else {
        stripped_from(name, prefixes, i + 1)
    }
}

/// The name of a field without the prefix that the settings tell to leave out.
pub open spec fn stripped(name: Seq<char>, m: Map<Seq<char>, Seq<char>>) -> Seq<char> {
    stripped_from(name, list_of(m, config_keys::ACCESSORS_PREFIX@), 0)
}

/// What is left of a name is an end of it, and not empty unless the name is.
pub proof fn lemma_stripped(name: Seq<char>, prefixes: Seq<Seq<char>>, i: int)
    ensures
        ends_with(name, stripped_from(name, prefixes, i)),
        name.len() > 0 ==> stripped_from(name, prefixes, i).len() > 0,
    decreases prefixes.len() - i,
{
    if 0 <= i < prefixes.len() {
        if starts_with(name, prefixes[i]) && prefixes[i].len() < name.len() {
            let rest = name.skip(prefixes[i].len() as int);
            assert(name.skip(name.len() - rest.len()) =~= rest);
        } else {
            lemma_stripped(name, prefixes, i + 1);
        }
    } else {
        assert(name.skip(0) =~= name);
    }
}

/// Leaves out the prefix of a field's name.
pub fn strip_field_prefix(field_name: &str, config: &LombokConfig) -> (r: String)
    ensures
        r@ == stripped(field_name@, config@),
{
    let name = to_chars(field_name);
    let n: usize = name.len();
    let prefixes = config.accessors_prefix();
    let ghost all = prefixes.deep_view();
    let mut i: usize = 0;
    while i < prefixes.len()
        invariant
            i <= prefixes.len(),
            all == prefixes.deep_view(),
            all == list_of(config@, config_keys::ACCESSORS_PREFIX@),
            name@ == field_name@,
            n == name@.len(),
            stripped(name@, config@) == stripped_from(name@, all, i as int),
        decreases prefixes.len() - i,
    {
        let prefix = prefixes[i].as_str();
        assert(all[i as int] == prefix@);
        let p = to_chars(prefix);
        if begins_with(name.as_slice(), prefix) && p.len() < n {
            let rest = slice_subrange(name.as_slice(), p.len(), n);
            assert(rest@ =~= name@.skip(p@.len() as int));
            return to_text(rest);
        }
        i += 1;
    }
    to_text(name.as_slice())
}

/// The name of the getter of a field.
pub open spec fn getter_name(
    name: Seq<char>,
    descriptor: Seq<char>,
    m: Map<Seq<char>, Seq<char>>,
) -> Seq<char> {
    if bool_or(m, config_keys::ACCESSORS_FLUENT@, false) {
        stripped(name, m)
    } else if descriptor == "Z"@ {
        "is"@ + capitalized(stripped(name, m))
    } else {
        "get"@ + capitalized(stripped(name, m))
    }
}

/// Writes a prefix before a name with its first character in upper case.
pub fn accessor_name(prefix: &str, base: &str) -> (r: String)
    ensures
        r@ == prefix@ + capitalized(base@),
{
    let mut out = to_chars(prefix);
    let tail = capitalize_first(base);
    append_str(&mut out, tail.as_str());
    to_text(out.as_slice())
}

/// The name of the getter of a field.
pub fn compute_getter_name(field_name: &str, field_descriptor: &str, config: &LombokConfig) -> (r:
    String)
    ensures
        r@ == getter_name(field_name@, field_descriptor@, config@),
{
    let base = strip_field_prefix(field_name, config);
    if config.accessors_fluent() {
        return base;
    }
    let prefix = if str_eq(field_descriptor, "Z") {
        "is"
    } else {
        "get"
    };
    accessor_name(prefix, base.as_str())
}

/// The name of the setter of a field.
pub fn compute_setter_name(field_name: &str, config: &LombokConfig) -> (r: String)
    ensures
        r@ == if bool_or(config@, config_keys::ACCESSORS_FLUENT@, false) {
            stripped(field_name@, config@)
        } else {
            "set"@ + capitalized(stripped(field_name@, config@))
        },
{
    let base = strip_field_prefix(field_name, config);
    if config.accessors_fluent() {
        return base;
    }
    accessor_name("set", base.as_str())
}

/// Whether a field is final.
pub fn is_field_final(field: &FieldSummary) -> (r: bool)
    ensures
        r == final_flags(field.access_flags),
{
    is_final(field.access_flags)
}

/// Whether a field has the annotation `@NonNull` of Lombok.
pub fn is_field_non_null(field: &FieldSummary) -> (r: bool)
    ensures
        r == found(field.deep_view().annotations, annotations::NON_NULL@) is Some,
{
    has_lombok_annotation(field.annotations.as_slice(), annotations::NON_NULL)
}

/// The rest of a text matches the parts of a pattern from the `i`-th on: the first part stands at
/// the start, the last one at the end, and each one between at the first place that is left.
pub open spec fn matches_parts(rest: Seq<char>, parts: Seq<Seq<char>>, i: int) -> bool
    decreases parts.len() - i,
{
    if i < 0 || i >= parts.len() {
        true
    } else if parts[i].len() == 0 {
        matches_parts(rest, parts, i + 1)
    } else if i == 0 {
        starts_with(rest, parts[i]) && matches_parts(
            rest.skip(parts[i].len() as int),
            parts,
            i + 1,
        )
    } else if i == parts.len() - 1 {
        ends_with(rest, parts[i])
    } else {
        match find(rest, parts[i]) {
            Some(at) => matches_parts(rest.skip(at + parts[i].len()), parts, i + 1),
            None => false,
        }
    }
}

/// The text matches a pattern, in which `*` stands for any characters. Around the only star of a
/// pattern, the end of what stands before it may be the start of what stands behind it: `a` fits
/// `a*a`.
pub open spec fn fits(text: Seq<char>, pattern: Seq<char>) -> bool {
    let parts = split(pattern, '*');
    if !pattern.contains('*') {
        text == pattern
    } else if parts.len() == 2 {
        starts_with(text, parts[0]) && ends_with(text, parts[1])
    } else {
        matches_parts(text, parts, 0)
    }
}

/// Whether a text matches a pattern, in which `*` stands for any characters. The two parts around
/// an only star may overlap in the text.
pub fn matches_pattern(text: &str, pattern: &str) -> (r: bool)
    ensures
        r == fits(text@, pattern@),
{
    let wanted = to_chars(pattern);
    if !contains_char(wanted.as_slice(), '*') {
        return str_eq(text, pattern);
    }
    let pieces = split_at_char(wanted.as_slice(), '*');
    let whole = to_chars(text);
    let n: usize = whole.len();
    let ghost parts = pieces.deep_view();
    if pieces.len() == 2 {
        let prefix = to_text(pieces[0].as_slice());
        let suffix = to_text(pieces[1].as_slice());
        assert(parts[0] =~= prefix@);
        assert(parts[1] =~= suffix@);
        return begins_with(whole.as_slice(), prefix.as_str()) && finishes_with(
            whole.as_slice(),
            suffix.as_str(),
        );
    }
    let mut from: usize = 0;
    let mut i: usize = 0;
    assert(whole@.skip(0) =~= whole@);
    while i < pieces.len()
        invariant
            i <= pieces.len(),
            parts == pieces.deep_view(),
            parts == split(pattern@, '*'),
            parts.len() != 2,
            pattern@.contains('*'),
            whole@ == text@,
            n == whole@.len(),
            from <= n,
            fits(text@, pattern@) == matches_parts(whole@.skip(from as int), parts, i as int),
        decreases pieces.len() - i,
    {
        let part = to_text(pieces[i].as_slice());
        assert(parts[i as int] =~= part@);
        let rest = slice_subrange(whole.as_slice(), from, n);
        assert(rest@ =~= whole@.skip(from as int));
        let len: usize = pieces[i].len();
        if len > 0 {
            if i == 0 {
                if !begins_with(rest, part.as_str()) {
                    return false;
                }
                assert(rest@.skip(part@.len() as int) =~= whole@.skip(from + len));
                from = from + len;
            } else if i == pieces.len() - 1 {
                return finishes_with(rest, part.as_str());
            } else {
                match find_text(rest, part.as_str()) {
                    Some(at) => {
                        assert(rest@.skip(at + part@.len()) =~= whole@.skip(from + at + len));
                        from = from + at + len;
                    },
                    None => {
                        return false;
                    },
                }
            }
        }
        i += 1;
    }
    true
}

/// A text with `/` in place of each `.`.
pub open spec fn slashed(s: Seq<char>) -> Seq<char> {
    s.map_values(
        |c: char|
            if c == '.' {
                '/'
            } else {
                c
            },
    )
}

/// Writes `/` in place of each `.`.
pub fn with_slashes(s: &str) -> (r: String)
    ensures
        r@ == slashed(s@),
{
    let text = to_chars(s);
    let mut out: Vec<char> = Vec::new();
    let mut i: usize = 0;
    while i < text.len()
        invariant
            i <= text.len(),
            text@ == s@,
            out@.len() == i,
            forall|k: int| 0 <= k < i ==> #[trigger] out@[k] == slashed(s@)[k],
        decreases text.len() - i,
    {
        let c = text[i];
        out.push(
            if c == '.' {
                '/'
            } else {
                c
            },
        );
        i += 1;
    }
    assert(out@ =~= slashed(s@));
    to_text(out.as_slice())
}

/// One of the patterns, from the `i`-th on, matches a name.
pub open spec fn any_matches_from(name: Seq<char>, patterns: Seq<Seq<char>>, i: int) -> bool
    decreases patterns.len() - i,
{
    if i < 0 || i >= patterns.len() {
        false
    } else {
        fits(name, slashed(patterns[i])) || any_matches_from(name, patterns, i + 1)
    }
}

fn matches_any(name: &str, patterns: &Vec<String>) -> (r: bool)
    ensures
        r == any_matches_from(name@, patterns.deep_view(), 0),
{
    let ghost all = patterns.deep_view();
    let mut i: usize = 0;
    while i < patterns.len()
        invariant
            i <= patterns.len(),
            all == patterns.deep_view(),
            any_matches_from(name@, all, 0) == any_matches_from(name@, all, i as int),
        decreases patterns.len() - i,
    {
        assert(all[i as int] == patterns@[i as int]@);
        let pattern = with_slashes(patterns[i].as_str());
        if matches_pattern(name, pattern.as_str()) {
            return true;
        }
        i += 1;
    }
    false
}

/// The annotations from the `i`-th on that one of the patterns matches.
pub open spec fn copied_from(
    source: Seq<AnnotationView>,
    patterns: Seq<Seq<char>>,
    i: int,
) -> Seq<AnnotationView>
    decreases source.len() - i,
{
    if i < 0 || i >= source.len() {
        Seq::empty()
    } else if any_matches_from(source[i].internal_name, patterns, 0) {
        seq![source[i]] + copied_from(source, patterns, i + 1)
    } else {
        copied_from(source, patterns, i + 1)
    }
}

/// The annotations that the settings tell to copy to what is generated.
pub fn copy_annotations(source: &[AnnotationSummary], config: &LombokConfig) -> (r: Vec<
    AnnotationSummary,
>)
    ensures
        r.deep_view() == copied_from(
            source.deep_view(),
            list_of(config@, config_keys::COPYABLE_ANNOTATIONS@),
            0,
        ),
{
    let patterns = config.copyable_annotations();
    let ghost wanted = patterns.deep_view();
    let ghost all = source.deep_view();
    let mut out: Vec<AnnotationSummary> = Vec::new();
    let mut i: usize = 0;
    while i < source.len()
        invariant
            i <= source.len(),
            all == source.deep_view(),
            wanted == patterns.deep_view(),
            out.deep_view() + copied_from(all, wanted, i as int) =~= copied_from(all, wanted, 0),
        decreases source.len() - i,
    {
        let ghost done = out.deep_view();
        let anno: &AnnotationSummary = &source[i];
        assert(all[i as int] == anno.deep_view());
        if matches_any(anno.internal_name.as_str(), &patterns) {
            out.push(anno.duplicate());
            assert(out.deep_view() =~= done.push(anno.deep_view()));
        }
        i += 1;
    }
    assert(out.deep_view() =~= copied_from(all, wanted, 0));
    out
}

/// The truth value of an annotation's element, or a default.
pub open spec fn bool_param(a: AnnotationView, key: Seq<char>, default: bool) -> bool {
    match value_of(a, key) {
        Some(ValueView::Boolean(b)) => b,
        _ => default,
    }
}

/// The truth value of an annotation's element, or a default.
pub fn get_bool_param(anno: &AnnotationSummary, key: &str, default: bool) -> (r: bool)
    ensures
        r == bool_param(anno.deep_view(), key@, default),
{
    match get_annotation_value(anno, key) {
        Some(AnnotationValue::Boolean(b)) => *b,
        _ => default,
    }
}

/// The text of an annotation's element.
pub open spec fn string_param(a: AnnotationView, key: Seq<char>) -> Option<Seq<char>> {
    match value_of(a, key) {
        Some(ValueView::String(s)) => Some(s),
        _ => None,
    }
}

/// The text of an annotation's element.
pub fn get_string_param<'a>(anno: &'a AnnotationSummary, key: &str) -> (r: Option<&'a str>)
    ensures
        r.deep_view() == string_param(anno.deep_view(), key@),
{
    match get_annotation_value(anno, key) {
        Some(AnnotationValue::String(s)) => Some(s.as_str()),
        _ => None,
    }
}

/// The texts among some values, from the `i`-th on.
pub open spec fn strings_from(items: Seq<ValueView>, i: int) -> Seq<Seq<char>>
    decreases items.len() - i,
{
    if i < 0 || i >= items.len() {
        Seq::empty()
    } else {
        match items[i] {
            ValueView::String(s) => seq![s] + strings_from(items, i + 1),
            _ => strings_from(items, i + 1),
        }
    }
}

/// The texts that an annotation's element lists.
pub open spec fn strings_param(a: AnnotationView, key: Seq<char>) -> Seq<Seq<char>> {
    match value_of(a, key) {
        Some(ValueView::String(s)) => seq![s],
        Some(ValueView::Array(items)) => strings_from(items, 0),
        _ => Seq::empty(),
    }
}

/// The texts that an annotation's element lists.
pub fn get_string_array_param(anno: &AnnotationSummary, key: &str) -> (r: Vec<String>)
    ensures
        r.deep_view() == strings_param(anno.deep_view(), key@),
{
    let mut out: Vec<String> = Vec::new();
    match get_annotation_value(anno, key) {
        Some(AnnotationValue::String(s)) => {
            out.push(s.clone());
            assert(out.deep_view() =~= seq![s@]);
        },
        Some(AnnotationValue::Array(items)) => {
            let ghost all = models(items@);
            proof {
                lemma_models(items@);
            }
            let mut i: usize = 0;
            while i < items.len()
                invariant
                    i <= items.len(),
                    all == models(items@),
                    all.len() == items@.len(),
                    forall|k: int| 0 <= k < items@.len() ==> #[trigger] all[k] == items@[k].model(),
                    out.deep_view() + strings_from(all, i as int) =~= strings_from(all, 0),
                decreases items.len() - i,
            {
                let ghost done = out.deep_view();
                assert(all[i as int] == items@[i as int].model());
                if let AnnotationValue::String(s) = &items[i] {
                    out.push(s.clone());
                    assert(out.deep_view() =~= done.push(s@));
                }
                i += 1;
            }
            assert(out.deep_view() =~= strings_from(all, 0));
        },
        _ => {
            assert(out.deep_view() =~= Seq::<Seq<char>>::empty());
        },
    }
    out
}

} // verus!
