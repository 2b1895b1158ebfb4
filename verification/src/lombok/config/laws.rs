//! What lines set, and what the settings say.
use vstd::prelude::*;

use crate::lombok::config::{bool_or, items_from, list_of, log_name, setting, stops, with_line};
use crate::lombok::config_keys;
use crate::text::laws::lemma_index_from;
use crate::text::{index_of, split, starts_with, trim};

verus! {

/// A line sets what stands before its first `=` to what stands behind it; without an `=`, a colon
/// does the same; a line with neither sets nothing.
pub proof fn lemma_settings(key: Seq<char>, value: Seq<char>)
    requires
        !key.contains('='),
    ensures
        setting(key + seq!['='] + value) == Some((trim(key), trim(value))),
        !key.contains(':') && !value.contains('=') ==> setting(key + seq![':'] + value) == Some(
            (trim(key), trim(value)),
        ),
        !key.contains(':') ==> setting(key) is None,
{
    let line = key + seq!['='] + value;
    let at = key.len() as int;
    assert(line[at] == '=');
    lemma_index_from(line, '=', 0);
    let i = index_of(line, '=')->0;
    if i < at {
        assert(key.contains(line[i]));
    }
    assert(line.take(at) =~= key);
    assert(line.skip(at + 1) =~= value);
    if !key.contains(':') {
        lemma_index_from(key, '=', 0);
        if let Some(k) = index_of(key, '=') {
            assert(key.contains(key[k]));
        }
        lemma_index_from(key, ':', 0);
        if let Some(k) = index_of(key, ':') {
            assert(key.contains(key[k]));
        }
        if !value.contains('=') {
            let other = key + seq![':'] + value;
            assert(other[at] == ':');
            lemma_index_from(other, '=', 0);
            if let Some(k) = index_of(other, '=') {
                if k < at {
                    assert(key.contains(other[k]));
                } else if k > at {
                    assert(value.contains(value[k - at - 1]));
                }
            }
            lemma_index_from(other, ':', 0);
            let j = index_of(other, ':')->0;
            if j < at {
                assert(key.contains(other[j]));
            }
            assert(other.take(at) =~= key);
            assert(other.skip(at + 1) =~= value);
        }
    }
}

/// A blank line and a line that begins with `#` or `//` set nothing.
pub proof fn lemma_remarks(m: Map<Seq<char>, Seq<char>>, line: Seq<char>)
    requires
        ({
            let s = trim(line);
            s.len() == 0 || s[0] == '#' || s.len() > 1 && s[0] == '/' && s[1] == '/'
        }),
    ensures
        with_line(m, line) == m,
{
    let s = trim(line);
    reveal_strlit("#");
    reveal_strlit("//");
    assert("#"@ =~= seq!['#']);
    assert("//"@ =~= seq!['/', '/']);
    if s.len() > 0 && s[0] == '#' {
        assert(s.take(1) =~= seq!['#']);
    }
    if s.len() > 1 && s[0] == '/' && s[1] == '/' {
        assert(s.take(2) =~= seq!['/', '/']);
    }
}

/// Any other line adds what it sets and changes nothing else.
pub proof fn lemma_lines(m: Map<Seq<char>, Seq<char>>, line: Seq<char>, key: Seq<char>, value: Seq<char>)
    requires
        ({
            let s = trim(line);
            s.len() > 0 && s[0] != '#' && s[0] != '/'
        }),
        setting(trim(line)) == Some((key, value)),
    ensures
        with_line(m, line) == m.insert(key, value),
{
    let s = trim(line);
    reveal_strlit("#");
    reveal_strlit("//");
    if starts_with(s, "#"@) {
        assert("#"@[0] == '#');
        assert(s.take(1)[0] == s[0]);
    }
    if starts_with(s, "//"@) {
        assert("//"@[0] == '/');
        assert(s.take(2)[0] == s[0]);
    }
}

/// A setting is true where it is the word `true` and false where it is the word `false`; any other
/// word, and no setting at all, leaves the default.
pub proof fn lemma_truth_values(m: Map<Seq<char>, Seq<char>>, key: Seq<char>, default: bool)
    ensures
        m.contains_key(key) && m[key] == seq!['t', 'r', 'u', 'e'] ==> bool_or(m, key, default),
        m.contains_key(key) && m[key] == seq!['f', 'a', 'l', 's', 'e'] ==> !bool_or(
            m,
            key,
            default,
        ),
        !m.contains_key(key) ==> bool_or(m, key, default) == default,
        m.contains_key(key) && m[key] != seq!['t', 'r', 'u', 'e'] && m[key] != seq![
            'f',
            'a',
            'l',
            's',
            'e',
        ] ==> bool_or(m, key, default) == default,
{
    reveal_strlit("true");
    reveal_strlit("false");
    assert("true"@ =~= seq!['t', 'r', 'u', 'e']);
    assert("false"@ =~= seq!['f', 'a', 'l', 's', 'e']);
    assert("true"@.len() != "false"@.len());
}

/// The directories above are left out exactly where `config.stopBubbling` is `true`.
pub proof fn lemma_stops(m: Map<Seq<char>, Seq<char>>)
    ensures
        stops(m) <==> m.contains_key("config.stopBubbling"@) && m["config.stopBubbling"@] == seq![
            't',
            'r',
            'u',
            'e',
        ],
{
    reveal_strlit("true");
    assert("true"@ =~= seq!['t', 'r', 'u', 'e']);
}

proof fn lemma_items(pieces: Seq<Seq<char>>, i: int, k: int)
    requires
        0 <= i <= k < pieces.len(),
        trim(pieces[k]).len() > 0,
    ensures
        items_from(pieces, i).contains(trim(pieces[k])),
    decreases k - i,
{
    let rest = items_from(pieces, i + 1);
    if i < k {
        lemma_items(pieces, i + 1, k);
        let at = choose|at: int| 0 <= at < rest.len() && rest[at] == trim(pieces[k]);
        if trim(pieces[i]).len() > 0 {
            assert(items_from(pieces, i)[at + 1] == trim(pieces[k]));
        }
    } else {
        assert(items_from(pieces, i)[0] == trim(pieces[k]));
    }
}

proof fn lemma_items_are_pieces(pieces: Seq<Seq<char>>, i: int, item: Seq<char>)
    requires
        0 <= i,
        items_from(pieces, i).contains(item),
    ensures
        exists|k: int| i <= k < pieces.len() && trim(#[trigger] pieces[k]) == item,
        item.len() > 0,
    decreases pieces.len() - i,
{
    let rest = items_from(pieces, i + 1);
    let all = items_from(pieces, i);
    let at = choose|at: int| 0 <= at < all.len() && all[at] == item;
    if trim(pieces[i]).len() == 0 {
        lemma_items_are_pieces(pieces, i + 1, item);
    } else if at > 0 {
        assert(rest[at - 1] == item);
        lemma_items_are_pieces(pieces, i + 1, item);
    } else {
        assert(trim(pieces[i]) == item);
    }
}

/// A setting that is a list has every piece between its semicolons that is not blank, without the
/// white space around, and nothing else.
pub proof fn lemma_lists(m: Map<Seq<char>, Seq<char>>, key: Seq<char>, item: Seq<char>)
    requires
        m.contains_key(key),
    ensures
        list_of(m, key).contains(item) <==> item.len() > 0 && exists|k: int|
            0 <= k < split(m[key], ';').len() && trim(#[trigger] split(m[key], ';')[k]) == item,
{
    let pieces = split(m[key], ';');
    if list_of(m, key).contains(item) {
        lemma_items_are_pieces(pieces, 0, item);
    }
    if item.len() > 0 && exists|k: int|
        0 <= k < pieces.len() && trim(#[trigger] pieces[k]) == item {
        let k = choose|k: int| 0 <= k < pieces.len() && trim(#[trigger] pieces[k]) == item;
        lemma_items(pieces, 0, k);
    }
}

/// The name of the logger's field is what the settings say, or `log`.
pub proof fn lemma_log_name(m: Map<Seq<char>, Seq<char>>)
    ensures
        m.contains_key("lombok.log.fieldName"@) ==> log_name(m) == m["lombok.log.fieldName"@],
        !m.contains_key("lombok.log.fieldName"@) ==> log_name(m) == seq!['l', 'o', 'g'],
{
    reveal_strlit("log");
    assert("log"@ =~= seq!['l', 'o', 'g']);
}

/// The keys are those of the settings files.
pub proof fn lemma_keys()
    ensures
        config_keys::ACCESSORS_CHAIN@ == "lombok.accessors.chain"@,
        config_keys::ACCESSORS_FLUENT@ == "lombok.accessors.fluent"@,
        config_keys::ACCESSORS_PREFIX@ == "lombok.accessors.prefix"@,
        config_keys::LOG_FIELD_NAME@ == "lombok.log.fieldName"@,
        config_keys::LOG_FIELD_IS_STATIC@ == "lombok.log.fieldIsStatic"@,
        config_keys::COPYABLE_ANNOTATIONS@ == "lombok.copyableAnnotations"@,
        config_keys::TO_STRING_INCLUDE_FIELD_NAMES@ == "lombok.toString.includeFieldNames"@,
        config_keys::TO_STRING_DO_NOT_USE_GETTERS@ == "lombok.toString.doNotUseGetters"@,
        config_keys::EQUALS_AND_HASH_CODE_DO_NOT_USE_GETTERS@
            == "lombok.equalsAndHashCode.doNotUseGetters"@,
{
}

} // verus!
