//! The types that local variables are declared with.
use vstd::prelude::*;
use vstd::slice::slice_subrange;

use crate::extractor::JavaContextExtractor;
use crate::lombok::utils::{slashed, with_slashes};
use crate::syntax::{KindClass, NodeId};
use crate::text::{
    append_str, begins_with, contains_char, ends_with, find, find_text, finishes_with, is_white,
    slice_to_vec, spells, starts_with, strip_suffix, to_chars, to_text, trim, trimmed, white,
    without_suffix,
};
use crate::text_map::at_key;
use crate::type_facts::{look_up, FactsView, TypeFacts};
use crate::type_names::{TypeName, TypeView};

verus! {

/// The type that a type's text stands for: what it resolves to, unless that loses type arguments
/// that the text has; else the text itself, as a path.
pub open spec fn declared_type(raw: Seq<char>, facts: Option<FactsView>) -> TypeView {
    let as_path = TypeView::plain(slashed(raw));
    match facts {
        None => as_path,
        Some(f) => match at_key(f.relaxed_types, trim(raw)) {
            None => as_path,
            Some(t) => if raw.contains('<') && t.args.len() == 0 {
                as_path
            } else {
                t
            },
        },
    }
}

/// What is known, if anything is.
pub open spec fn known(facts: Option<&TypeFacts>) -> Option<FactsView> {
    match facts {
        Some(f) => Some(f.deep_view()),
        None => None,
    }
}

/// The type that a type's text stands for.
pub fn resolve_declared_source_type(raw_ty: &str, facts: Option<&TypeFacts>) -> (r: TypeName)
    ensures
        r.deep_view() == declared_type(raw_ty@, known(facts)),
{
    if let Some(f) = facts {
        let text = to_chars(raw_ty);
        let key = to_text(trimmed(text.as_slice()));
        if let Some(t) = look_up(&f.relaxed_types, key.as_str()) {
            proof {
                crate::type_names::lemma_type_models(t.args@);
            }
            if contains_char(text.as_slice(), '<') && t.args.len() == 0 {
                let path = with_slashes(raw_ty);
                return TypeName::new(path.as_str());
            }
            return t;
        }
    }
    let path = with_slashes(raw_ty);
    TypeName::new(path.as_str())
}

/// A text that can be that of a type.
pub open spec fn is_plausible(raw: Seq<char>) -> bool {
    let s = trim(raw);
    &&& s.len() > 0
    &&& !s.contains(';')
    &&& find(s, "//"@) is None
    &&& find(s, "/*"@) is None
    &&& !s.contains('=')
    &&& !s.contains('{')
    &&& !s.contains('}')
}

/// Whether a text can be that of a type.
pub fn is_plausible_local_type_text(raw_ty: &[char]) -> (r: bool)
    ensures
        r == is_plausible(raw_ty@),
{
    let s = trimmed(raw_ty);
    s.len() > 0 && !contains_char(s, ';') && find_text(s, "//").is_none() && find_text(
        s,
        "/*",
    ).is_none() && !contains_char(s, '=') && !contains_char(s, '{') && !contains_char(s, '}')
}

/// The last node that looks like a type and ends before a position, among a node and those below
/// it that begin before the position; `best` where there is none.
pub open spec fn last_type_before(
    ctx: JavaContextExtractor,
    n: NodeId,
    boundary: int,
    best: Option<NodeId>,
) -> Option<NodeId>
    decreases ctx.tree.nodes@.len() - n, ctx.tree.kids(n).len() + 1,
{
    if ctx.tree.start_of(n) >= boundary {
        best
    } else {
        let own = if ctx.tree.end_of(n) <= boundary && KindClass::TypeLike.has(
            ctx.tree.kind_of(n),
        ) {
            Some(n)
        } else {
            best
        };
        last_type_below(ctx, n, boundary, own, 0)
    }
}

/// The last such node among the children of a node from the `i`-th on and those below them.
pub open spec fn last_type_below(
    ctx: JavaContextExtractor,
    n: NodeId,
    boundary: int,
    best: Option<NodeId>,
    i: int,
) -> Option<NodeId>
    decreases ctx.tree.nodes@.len() - n, ctx.tree.kids(n).len() - i,
{
    if i < 0 || i >= ctx.tree.kids(n).len() {
        best
    } else {
        let k = ctx.tree.kids(n)[i];
        let next = if n < k && ctx.tree.has(k) {
            last_type_before(ctx, k, boundary, best)
        } else {
            best
        };
        last_type_below(ctx, n, boundary, next, i + 1)
    }
}

/// The last node that looks like a type and ends before a position.
pub fn collect_last_type_like_before(
    ctx: &JavaContextExtractor,
    n: NodeId,
    boundary: usize,
    best: Option<NodeId>,
) -> (r: Option<NodeId>)
    requires
        ctx.wf(),
        ctx.tree.has(n),
        best matches Some(b) ==> ctx.tree.has(b),
    ensures
        r == last_type_before(*ctx, n, boundary as int, best),
        r matches Some(b) ==> ctx.tree.has(b),
    decreases ctx.tree.nodes@.len() - n,
{
    let t = &ctx.tree;
    if t.start(n) >= boundary {
        return best;
    }
    let mut found: Option<NodeId> = if t.end(n) <= boundary && t.is_in(n, KindClass::TypeLike) {
        Some(n)
    } else {
        best
    };
    let ghost own = found;
    let kids = t.children(n);
    let mut i: usize = 0;
    while i < kids.len()
        invariant
            i <= kids.len(),
            ctx.wf(),
            *t == ctx.tree,
            t.has(n),
            kids@ == t.kids(n),
            found matches Some(b) ==> t.has(b),
            last_type_below(*ctx, n, boundary as int, own, 0) == last_type_below(
                *ctx,
                n,
                boundary as int,
                found,
                i as int,
            ),
        decreases kids.len() - i,
    {
        assert(t.nodes@[n as int].placed(n as int, t.nodes@.len() as int));
        found = collect_last_type_like_before(ctx, kids[i], boundary, found);
        i += 1;
    }
    found
}

/// The text of the type of a declaration, looked for among all that stands before its declarator.
pub open spec fn recovered_type(ctx: JavaContextExtractor, decl: NodeId) -> Option<Seq<char>> {
    match ctx.tree.field_of(decl, "declarator"@) {
        None => None,
        Some(d) => match last_type_before(ctx, decl, ctx.tree.start_of(d), None) {
            None => None,
            Some(b) => if is_plausible(trim(ctx.text_of(b))) {
                Some(trim(ctx.text_of(b)))
            } else {
                None
            },
        },
    }
}

/// The text of the type of a declaration, looked for among all that stands before its declarator.
pub fn recover_type_text_from_decl(ctx: &JavaContextExtractor, decl: NodeId) -> (r: Option<&[char]>)
    requires
        ctx.wf(),
        ctx.tree.has(decl),
    ensures
        crate::text::slice_view(r) == recovered_type(*ctx, decl),
{
    match ctx.tree.child_by_field(decl, "declarator") {
        None => None,
        Some(d) => match collect_last_type_like_before(ctx, decl, ctx.tree.start(d), None) {
            None => None,
            Some(b) => {
                let text = trimmed(ctx.node_text(b));
                if is_plausible_local_type_text(text) {
                    Some(text)
                } else {
                    None
                }
            },
        },
    }
}

/// The text of the type of a declaration: that of its type, if it can be one, else what is found
/// before its declarator.
pub open spec fn declared_text(ctx: JavaContextExtractor, decl: NodeId, ty: NodeId) -> Option<
    Seq<char>,
> {
    let raw = trim(ctx.text_of(ty));
    if is_plausible(raw) {
        Some(raw)
    } else {
        recovered_type(ctx, decl)
    }
}

/// The text of the type of a declaration.
pub fn recovered_declared_type_text(ctx: &JavaContextExtractor, decl: NodeId, ty: NodeId) -> (r:
    Option<&[char]>)
    requires
        ctx.wf(),
        ctx.tree.has(decl),
        ctx.tree.has(ty),
    ensures
        crate::text::slice_view(r) == declared_text(*ctx, decl, ty),
{
    let raw = trimmed(ctx.node_text(ty));
    if is_plausible_local_type_text(raw) {
        return Some(raw);
    }
    recover_type_text_from_decl(ctx, decl)
}

/// The text of the initializer of the declaration that a type belongs to.
pub open spec fn initializer_text(ctx: JavaContextExtractor, ty: NodeId) -> Option<Seq<char>> {
    match ctx.tree.parent_of(ty) {
        None => None,
        Some(decl) => match ctx.tree.first_kind(ctx.tree.kids(decl), "variable_declarator"@) {
            None => None,
            Some(d) => match ctx.tree.field_of(d, "value"@) {
                None => None,
                Some(v) => Some(ctx.text_of(v)),
            },
        },
    }
}

/// The text of the initializer of the declaration that a type belongs to.
pub fn get_initializer_text(ctx: &JavaContextExtractor, ty: NodeId) -> (r: Option<String>)
    requires
        ctx.wf(),
        ctx.tree.has(ty),
    ensures
        r.deep_view() == initializer_text(*ctx, ty),
{
    let t = &ctx.tree;
    match t.parent(ty) {
        None => None,
        Some(decl) => match t.first_of_kind(t.children(decl), "variable_declarator") {
            None => None,
            Some(d) => match t.child_by_field(d, "value") {
                None => None,
                Some(v) => Some(to_text(ctx.node_text(v))),
            },
        },
    }
}

// ---- types of parameters -----------------------------------------------------------------------

/// The place behind the last white space before place `j`.
pub open spec fn last_word_start(s: Seq<char>, j: int) -> int
    decreases j,
{
    if j <= 0 || j > s.len() || is_white(s[j - 1]) {
        j
    } else {
        last_word_start(s, j - 1)
    }
}

/// The place of the first white space from `i` on.
pub open spec fn word_end(s: Seq<char>, i: int) -> int
    decreases s.len() - i,
{
    if i < 0 || i >= s.len() || is_white(s[i]) {
        i
    } else {
        word_end(s, i + 1)
    }
}

/// The text without modifiers and annotations in front.
pub open spec fn without_modifiers(s: Seq<char>, fuel: nat) -> Seq<char>
    decreases fuel,
{
    let word = s.take(word_end(s, 0));
    if fuel > 0 && (word == "final"@ || starts_with(word, "@"@)) {
        without_modifiers(trim(s.skip(word_end(s, 0))), (fuel - 1) as nat)
    } else {
        s
    }
}

/// The type of a parameter: what stands before its name, without modifiers.
pub open spec fn param_type(text: Seq<char>) -> Seq<char> {
    let s = trim(text);
    let head = trim(s.take(last_word_start(s, s.len() as int)));
    without_modifiers(head, head.len())
}

/// The type of a parameter.
pub fn extract_param_type(text: &[char]) -> (r: Vec<char>)
    ensures
        r@ == param_type(text@),
{
    let s = trimmed(text);
    let n: usize = s.len();
    let mut j: usize = n;
    while j > 0 && !white(s[j - 1])
        invariant
            j <= n,
            n == s@.len(),
            last_word_start(s@, n as int) == last_word_start(s@, j as int),
        decreases j,
    {
        j -= 1;
    }
    let before = slice_subrange(s, 0, j);
    assert(before@ =~= s@.take(j as int));
    let mut rest: &[char] = trimmed(before);
    let ghost head = rest@;
    let mut fuel: usize = rest.len();
    loop
        invariant
            param_type(text@) == without_modifiers(head, head.len()),
            without_modifiers(head, head.len()) == without_modifiers(rest@, fuel as nat),
        decreases fuel,
    {
        let m: usize = rest.len();
        let mut e: usize = 0;
        while e < m && !white(rest[e])
            invariant
                e <= m,
                m == rest@.len(),
                word_end(rest@, 0) == word_end(rest@, e as int),
            decreases m - e,
        {
            e += 1;
        }
        let word = slice_subrange(rest, 0, e);
        assert(word@ =~= rest@.take(e as int));
        if fuel > 0 && (spells(word, "final") || begins_with(word, "@")) {
            let tail = slice_subrange(rest, e, m);
            assert(tail@ =~= rest@.skip(e as int));
            rest = trimmed(tail);
            fuel = fuel - 1;
        } else {
            return slice_to_vec(rest);
        }
    }
}

/// The type of a parameter as the method sees it: one that takes any number of values is an array.
pub open spec fn seen_param_type(raw: Seq<char>, spread: bool) -> Seq<char> {
    if spread || ends_with(raw, "..."@) {
        match strip_suffix(raw, "..."@) {
            Some(t) => trim(t) + "[]"@,
            None => trim(raw) + "[]"@,
        }
    } else {
        raw
    }
}

/// The type of a parameter as the method sees it.
pub fn see_param_type(raw: &[char], spread: bool) -> (r: String)
    ensures
        r@ == seen_param_type(raw@, spread),
{
    if spread || finishes_with(raw, "...") {
        let base = match without_suffix(raw, "...") {
            Some(t) => trimmed(t),
            None => trimmed(raw),
        };
        let mut out = slice_to_vec(base);
        append_str(&mut out, "[]");
        to_text(out.as_slice())
    } else {
        to_text(raw)
    }
}

} // verus!
