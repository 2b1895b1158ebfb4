//! Settings read from `lombok.config` files.
use vstd::prelude::*;
use vstd::slice::slice_subrange;

use crate::text::{
    begins_with, find_char, index_of, split, split_at_char, starts_with, str_eq, to_chars, to_text,
    trim, trimmed,
};
use crate::text_map::{Duplicate, TextMap};

use super::config_keys;

pub mod laws;

verus! {

/// The settings that hold for a directory.
#[derive(Debug)]
pub struct LombokConfig {
    settings: TextMap<String>,
}

impl View for LombokConfig {
    type V = Map<Seq<char>, Seq<char>>;

    closed spec fn view(&self) -> Map<Seq<char>, Seq<char>> {
        self.settings.deep_view()
    }
}

/// What stands before and after a separator, without the white space around.
pub open spec fn parted(line: Seq<char>, i: int) -> (Seq<char>, Seq<char>) {
    (trim(line.take(i)), trim(line.skip(i + 1)))
}

/// The key and the value of a line: `=` separates them or, in a line without one, `:`.
pub open spec fn setting(line: Seq<char>) -> Option<(Seq<char>, Seq<char>)> {
    match index_of(line, '=') {
        Some(i) => Some(parted(line, i)),
        None => match index_of(line, ':') {
            Some(i) => Some(parted(line, i)),
            None => None,
        },
    }
}

/// A line that sets nothing whatever else it holds.
pub open spec fn is_remark(line: Seq<char>) -> bool {
    line.len() == 0 || starts_with(line, "#"@) || starts_with(line, "//"@)
}

/// The settings after one more line.
pub open spec fn with_line(m: Map<Seq<char>, Seq<char>>, line: Seq<char>) -> Map<
    Seq<char>,
    Seq<char>,
> {
    if is_remark(trim(line)) {
        m
    } else {
        match setting(trim(line)) {
            Some(s) => m.insert(s.0, s.1),
            None => m,
        }
    }
}

/// The settings after the lines from the `i`-th on.
pub open spec fn with_lines(
    m: Map<Seq<char>, Seq<char>>,
    lines: Seq<Seq<char>>,
    i: int,
) -> Map<Seq<char>, Seq<char>>
    decreases lines.len() - i,
{
    if i < 0 || i >= lines.len() {
        m
    } else {
        with_lines(with_line(m, lines[i]), lines, i + 1)
    }
}

/// The settings after a file.
pub open spec fn with_content(m: Map<Seq<char>, Seq<char>>, content: Seq<char>) -> Map<
    Seq<char>,
    Seq<char>,
> {
    with_lines(m, split(content, '\n'), 0)
}

/// The settings tell to look in no directory further up.
pub open spec fn stops(m: Map<Seq<char>, Seq<char>>) -> bool {
    m.contains_key("config.stopBubbling"@) && m["config.stopBubbling"@] == "true"@
}

/// The settings after the file of one directory, if it has one.
pub open spec fn with_level(m: Map<Seq<char>, Seq<char>>, content: Option<Seq<char>>) -> Map<
    Seq<char>,
    Seq<char>,
> {
    match content {
        Some(c) => with_content(m, c),
        None => m,
    }
}

/// The settings after the directories from the `i`-th on, each above the one before it, up to the
/// first that tells to stop.
pub open spec fn with_levels(
    m: Map<Seq<char>, Seq<char>>,
    levels: Seq<Option<Seq<char>>>,
    i: int,
) -> Map<Seq<char>, Seq<char>>
    decreases levels.len() - i,
{
    if i < 0 || i >= levels.len() {
        m
    } else if stops(with_level(m, levels[i])) {
        with_level(m, levels[i])
    } else {
        with_levels(with_level(m, levels[i]), levels, i + 1)
    }
}

/// The contents of the files that the directories from the `i`-th on have.
pub open spec fn contents_from(levels: Seq<Option<Seq<char>>>, i: int) -> Seq<Seq<char>>
    decreases levels.len() - i,
{
    if i < 0 || i >= levels.len() {
        Seq::empty()
    } else {
        match levels[i] {
            Some(c) => seq![c] + contents_from(levels, i + 1),
            None => contents_from(levels, i + 1),
        }
    }
}

/// The settings after the first `n` files.
pub open spec fn with_contents(
    m: Map<Seq<char>, Seq<char>>,
    contents: Seq<Seq<char>>,
    n: int,
) -> Map<Seq<char>, Seq<char>>
    decreases n,
{
    if n <= 0 || n > contents.len() {
        m
    } else {
        with_content(with_contents(m, contents, n - 1), contents[n - 1])
    }
}

/// The first `n` files are all that counts: no fewer of them tell to stop, and either they do or
/// there is no file behind them.
pub open spec fn ends_after(
    m: Map<Seq<char>, Seq<char>>,
    contents: Seq<Seq<char>>,
    n: int,
) -> bool {
    &&& 0 <= n <= contents.len()
    &&& forall|k: int| 0 <= k < n ==> !stops(#[trigger] with_contents(m, contents, k))
    &&& n < contents.len() ==> stops(with_contents(m, contents, n))
}

proof fn lemma_first_content(
    m: Map<Seq<char>, Seq<char>>,
    c: Seq<char>,
    rest: Seq<Seq<char>>,
    n: int,
)
    requires
        0 <= n <= rest.len(),
    ensures
        with_contents(m, seq![c] + rest, n + 1) == with_contents(with_content(m, c), rest, n),
    decreases n,
{
    let all = seq![c] + rest;
    assert(all[n] == if n == 0 {
        c
    } else {
        rest[n - 1]
    });
    if n > 0 {
        lemma_first_content(m, c, rest, n - 1);
    } else {
        assert(with_contents(m, all, 0) == m);
    }
}

proof fn lemma_levels_from(
    m: Map<Seq<char>, Seq<char>>,
    levels: Seq<Option<Seq<char>>>,
    i: int,
) -> (n: int)
    requires
        0 <= i,
        !stops(m),
    ensures
        ends_after(m, contents_from(levels, i), n),
        with_levels(m, levels, i) == with_contents(m, contents_from(levels, i), n),
    decreases levels.len() - i,
{
    if i >= levels.len() {
        0
    } else {
        match levels[i] {
            Some(c) => {
                let next = with_content(m, c);
                let rest = contents_from(levels, i + 1);
                let all = seq![c] + rest;
                assert(with_contents(m, all, 0) == m);
                lemma_first_content(m, c, rest, 0);
                if stops(next) {
                    1
                } else {
                    let n = lemma_levels_from(next, levels, i + 1);
                    lemma_first_content(m, c, rest, n);
                    assert forall|k: int| 0 <= k < n + 1 implies !stops(
                        #[trigger] with_contents(m, all, k),
                    ) by {
                        if k > 0 {
                            lemma_first_content(m, c, rest, k - 1);
                            assert(!stops(with_contents(next, rest, k - 1)));
                        }
                    }
                    n + 1
                }
            },
            None => lemma_levels_from(m, levels, i + 1),
        }
    }
}

/// The settings of a directory are those of the files in it and above it, merged in this order up
/// to the first after which the settings tell to stop: directories without a file are passed over,
/// and nothing above the stop counts.
pub proof fn lemma_levels_up_to_the_stop(levels: Seq<Option<Seq<char>>>)
    ensures
        exists|n: int|
            #[trigger] ends_after(Map::empty(), contents_from(levels, 0), n) && with_levels(
                Map::empty(),
                levels,
                0,
            ) == with_contents(Map::empty(), contents_from(levels, 0), n),
{
    let n = lemma_levels_from(Map::empty(), levels, 0);
}

/// The truth value of a setting.
pub open spec fn bool_of(m: Map<Seq<char>, Seq<char>>, key: Seq<char>) -> Option<bool> {
    if !m.contains_key(key) {
        None
    } else if m[key] == "true"@ {
        Some(true)
    } else if m[key] == "false"@ {
        Some(false)
    } else {
        None
    }
}

/// The truth value of a setting, or a default.
pub open spec fn bool_or(m: Map<Seq<char>, Seq<char>>, key: Seq<char>, default: bool) -> bool {
    match bool_of(m, key) {
        Some(b) => b,
        None => default,
    }
}

/// The pieces from the `i`-th on that are not blank, without the white space around.
pub open spec fn items_from(pieces: Seq<Seq<char>>, i: int) -> Seq<Seq<char>>
    decreases pieces.len() - i,
{
    if i < 0 || i >= pieces.len() {
        Seq::empty()
    } else if trim(pieces[i]).len() == 0 {
        items_from(pieces, i + 1)
    } else {
        seq![trim(pieces[i])] + items_from(pieces, i + 1)
    }
}

/// The items of a setting that lists some with `;` between them.
pub open spec fn list_of(m: Map<Seq<char>, Seq<char>>, key: Seq<char>) -> Seq<Seq<char>> {
    if m.contains_key(key) {
        items_from(split(m[key], ';'), 0)
    } else {
        Seq::empty()
    }
}

/// The value that a line gives to a key.
pub open spec fn value_set(line: Seq<char>, key: Seq<char>) -> Option<Seq<char>> {
    if is_remark(trim(line)) {
        None
    } else {
        match setting(trim(line)) {
            Some(s) => if s.0 == key {
                Some(s.1)
            } else {
                None
            },
            None => None,
        }
    }
}

/// No line from the `i`-th on sets a key.
pub open spec fn unset_from(lines: Seq<Seq<char>>, key: Seq<char>, i: int) -> bool {
    forall|l: int| i <= l < lines.len() ==> (#[trigger] value_set(lines[l], key)) is None
}

/// A key that no line sets keeps the value that it had.
pub proof fn lemma_unset_keeps(
    m: Map<Seq<char>, Seq<char>>,
    lines: Seq<Seq<char>>,
    key: Seq<char>,
    i: int,
)
    requires
        0 <= i,
        unset_from(lines, key, i),
    ensures
        with_lines(m, lines, i).contains_key(key) == m.contains_key(key),
        m.contains_key(key) ==> with_lines(m, lines, i)[key] == m[key],
    decreases lines.len() - i,
{
    if i < lines.len() {
        assert(value_set(lines[i], key) is None);
        lemma_unset_keeps(with_line(m, lines[i]), lines, key, i + 1);
    }
}

/// Of the lines that set a key, the last one wins.
pub proof fn lemma_last_line_wins(
    m: Map<Seq<char>, Seq<char>>,
    lines: Seq<Seq<char>>,
    key: Seq<char>,
    i: int,
    last: int,
)
    requires
        0 <= i <= last < lines.len(),
        value_set(lines[last], key) is Some,
        unset_from(lines, key, last + 1),
    ensures
        with_lines(m, lines, i).contains_key(key),
        with_lines(m, lines, i)[key] == value_set(lines[last], key)->0,
    decreases last - i,
{
    if i == last {
        lemma_unset_keeps(with_line(m, lines[i]), lines, key, i + 1);
    } else {
        lemma_last_line_wins(with_line(m, lines[i]), lines, key, i + 1, last);
    }
}

impl LombokConfig {
    /// No settings.
    pub fn new() -> (r: LombokConfig)
        ensures
            r@ == Map::<Seq<char>, Seq<char>>::empty(),
    {
        let r = LombokConfig { settings: TextMap::new() };
        assert(r@ =~= Map::<Seq<char>, Seq<char>>::empty());
        r
    }

    /// Adds what a file sets.
    pub fn merge_from_content(&mut self, content: &str)
        ensures
            final(self)@ == with_content(old(self)@, content@),
    {
        let text = to_chars(content);
        let lines = split_at_char(text.as_slice(), '\n');
        let ghost pieces = lines.deep_view();
        let mut i: usize = 0;
        while i < lines.len()
            invariant
                i <= lines.len(),
                pieces == lines.deep_view(),
                with_lines(self@, pieces, i as int) == with_lines(old(self)@, pieces, 0),
            decreases lines.len() - i,
        {
            let ghost before = self@;
            let line = trimmed(lines[i].as_slice());
            assert(pieces[i as int] =~= lines@[i as int]@);
            if !(line.len() == 0 || begins_with(line, "#") || begins_with(line, "//")) {
                let whole = to_text(line);
                if let Some((key, value)) = LombokConfig::parse_config_line(whole.as_str()) {
                    let ghost k = key@;
                    let ghost v = value@;
                    self.settings.insert(key, value);
                    assert(self@ =~= before.insert(k, v));
                }
            }
            i += 1;
        }
    }

    /// Adds what the file of one directory sets, if it has one, and tells whether to go on with
    /// the directory above.
    pub fn merge_level(&mut self, content: Option<&str>) -> (r: bool)
        ensures
            final(self)@ == with_level(old(self)@, content.deep_view()),
            r == !stops(final(self)@),
    {
        if let Some(c) = content {
            self.merge_from_content(c);
        }
        !self.has_stop_directive()
    }

    /// The settings of a directory, from the files that it and the directories above it have.
    pub fn from_levels(levels: &Vec<Option<String>>) -> (r: LombokConfig)
        ensures
            r@ == with_levels(Map::empty(), levels.deep_view(), 0),
    {
        let mut config = LombokConfig::new();
        let ghost all = levels.deep_view();
        let mut i: usize = 0;
        while i < levels.len()
            invariant
                i <= levels.len(),
                all == levels.deep_view(),
                with_levels(config@, all, i as int) == with_levels(Map::empty(), all, 0),
            decreases levels.len() - i,
        {
            let content: Option<&str> = match &levels[i] {
                Some(c) => Some(c.as_str()),
                None => None,
            };
            assert(all[i as int] == content.deep_view());
            if !config.merge_level(content) {
                return config;
            }
            i += 1;
        }
        config
    }

    /// The key and the value that a line sets.
    pub fn parse_config_line(line: &str) -> (r: Option<(String, String)>)
        ensures
            r.deep_view() == setting(line@),
    {
        let text = to_chars(line);
        let s = text.as_slice();
        match find_char(s, '=') {
            Some(i) => Some(LombokConfig::part(s, i)),
            None => match find_char(s, ':') {
                Some(i) => Some(LombokConfig::part(s, i)),
                None => None,
            },
        }
    }

    fn part(s: &[char], i: usize) -> (r: (String, String))
        requires
            i < s@.len(),
        ensures
            r.0@ == parted(s@, i as int).0,
            r.1@ == parted(s@, i as int).1,
    {
        let n: usize = s.len();
        let key = slice_subrange(s, 0, i);
        assert(key@ =~= s@.take(i as int));
        let value = slice_subrange(s, i + 1, n);
        assert(value@ =~= s@.skip(i + 1));
        (to_text(trimmed(key)), to_text(trimmed(value)))
    }

    /// Whether the settings tell to look in no directory further up.
    pub fn has_stop_directive(&self) -> (r: bool)
        ensures
            r == stops(self@),
    {
        match self.get("config.stopBubbling") {
            Some(v) => str_eq(v, "true"),
            None => false,
        }
    }

    /// The value of a setting.
    pub fn get(&self, key: &str) -> (r: Option<&str>)
        ensures
            r.deep_view() == if self@.contains_key(key@) {
                Some(self@[key@])
            } else {
                None
            },
    {
        match self.settings.get(key) {
            Some(s) => Some(s.as_str()),
            None => None,
        }
    }

    /// The truth value of a setting.
    pub fn get_bool(&self, key: &str) -> (r: Option<bool>)
        ensures
            r == bool_of(self@, key@),
    {
        match self.get(key) {
            Some(v) => if str_eq(v, "true") {
                Some(true)
            } else if str_eq(v, "false") {
                Some(false)
            } else {
                None
            },
            None => None,
        }
    }

    fn get_bool_or(&self, key: &str, default: bool) -> (r: bool)
        ensures
            r == bool_or(self@, key@, default),
    {
        match self.get_bool(key) {
            Some(b) => b,
            None => default,
        }
    }

    fn get_list(&self, key: &str) -> (r: Vec<String>)
        ensures
            r.deep_view() == list_of(self@, key@),
    {
        let mut out: Vec<String> = Vec::new();
        match self.get(key) {
            None => {
                assert(out.deep_view() =~= Seq::<Seq<char>>::empty());
                out
            },
            Some(value) => {
                let text = to_chars(value);
                let pieces = split_at_char(text.as_slice(), ';');
                let ghost all = pieces.deep_view();
                let mut i: usize = 0;
                while i < pieces.len()
                    invariant
                        i <= pieces.len(),
                        all == pieces.deep_view(),
                        out.deep_view() + items_from(all, i as int) =~= items_from(all, 0),
                    decreases pieces.len() - i,
                {
                    let ghost done = out.deep_view();
                    let item = trimmed(pieces[i].as_slice());
                    assert(all[i as int] =~= pieces@[i as int]@);
                    if item.len() > 0 {
                        let t = to_text(item);
                        out.push(t);
                        assert(out.deep_view() =~= done.push(item@));
                    }
                    i += 1;
                }
                assert(out.deep_view() =~= items_from(all, 0));
                out
            },
        }
    }

    /// Whether setters return the object (by default: no).
    pub fn accessors_chain(&self) -> (r: bool)
        ensures
            r == bool_or(self@, config_keys::ACCESSORS_CHAIN@, false),
    {
        self.get_bool_or(config_keys::ACCESSORS_CHAIN, false)
    }

    /// Whether getters and setters are named like their field (by default: no).
    pub fn accessors_fluent(&self) -> (r: bool)
        ensures
            r == bool_or(self@, config_keys::ACCESSORS_FLUENT@, false),
    {
        self.get_bool_or(config_keys::ACCESSORS_FLUENT, false)
    }

    /// The prefixes of fields that accessors leave out (by default: none).
    pub fn accessors_prefix(&self) -> (r: Vec<String>)
        ensures
            r.deep_view() == list_of(self@, config_keys::ACCESSORS_PREFIX@),
    {
        self.get_list(config_keys::ACCESSORS_PREFIX)
    }

    /// The name of the logger's field (by default: `log`).
    pub fn log_field_name(&self) -> (r: &str)
        ensures
            r@ == log_name(self@),
    {
        match self.get(config_keys::LOG_FIELD_NAME) {
            Some(name) => name,
            None => "log",
        }
    }

    /// Whether the logger's field is static (by default: yes).
    pub fn log_field_is_static(&self) -> (r: bool)
        ensures
            r == bool_or(self@, config_keys::LOG_FIELD_IS_STATIC@, true),
    {
        self.get_bool_or(config_keys::LOG_FIELD_IS_STATIC, true)
    }

    /// The patterns of annotations that are copied.
    pub fn copyable_annotations(&self) -> (r: Vec<String>)
        ensures
            r.deep_view() == list_of(self@, config_keys::COPYABLE_ANNOTATIONS@),
    {
        self.get_list(config_keys::COPYABLE_ANNOTATIONS)
    }

    /// Whether `toString` names the fields (by default: yes).
    pub fn to_string_include_field_names(&self) -> (r: bool)
        ensures
            r == bool_or(self@, config_keys::TO_STRING_INCLUDE_FIELD_NAMES@, true),
    {
        self.get_bool_or(config_keys::TO_STRING_INCLUDE_FIELD_NAMES, true)
    }

    /// Whether `toString` reads the fields themselves (by default: no).
    pub fn to_string_do_not_use_getters(&self) -> (r: bool)
        ensures
            r == bool_or(self@, config_keys::TO_STRING_DO_NOT_USE_GETTERS@, false),
    {
        self.get_bool_or(config_keys::TO_STRING_DO_NOT_USE_GETTERS, false)
    }

    /// Whether `equals` and `hashCode` read the fields themselves (by default: no).
    pub fn equals_and_hash_code_do_not_use_getters(&self) -> (r: bool)
        ensures
            r == bool_or(self@, config_keys::EQUALS_AND_HASH_CODE_DO_NOT_USE_GETTERS@, false),
    {
        self.get_bool_or(config_keys::EQUALS_AND_HASH_CODE_DO_NOT_USE_GETTERS, false)
    }
}

/// The name of the logger's field.
pub open spec fn log_name(m: Map<Seq<char>, Seq<char>>) -> Seq<char> {
    if m.contains_key(config_keys::LOG_FIELD_NAME@) {
        m[config_keys::LOG_FIELD_NAME@]
    } else {
        "log"@
    }
}

impl Default for LombokConfig {
    fn default() -> (r: LombokConfig)
        ensures
            r@ == Map::<Seq<char>, Seq<char>>::empty(),
    {
        LombokConfig::new()
    }
}

impl Clone for LombokConfig {
    fn clone(&self) -> (r: LombokConfig)
        ensures
            r@ == self@,
    {
        LombokConfig { settings: self.settings.duplicate() }
    }
}

} // verus!
