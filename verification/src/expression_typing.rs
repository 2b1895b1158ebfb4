//! The types of expressions.
use vstd::prelude::*;
use vstd::slice::slice_subrange;

use crate::extractor::JavaContextExtractor;
use crate::index::FieldView;
use crate::parse::byte_len;
use crate::source_view::{
    field_child, field_or_child, lemma_parsed_view, parsed_view, view_of, SourceView,
};
use crate::syntax::NodeId;
use crate::text::{
    after_last, append_str, at, begins_with, behind_last, contains_char, ends_with, find_char,
    finishes_with, index_of, last_index_of, rfind_char, spells, starts_with, str_eq, strip_prefix,
    to_chars, to_text, trim, trim_end, trim_start, trimmed, trimmed_end, trimmed_start,
    without_prefix,
};
use crate::text_map::{at_key, Duplicate};
use crate::type_facts::{
    find_result, look_up, result_from, ChainSegment, FactsView, SegmentView, TypeFacts,
};
use crate::type_names::{is_primitive_name, names_primitive, TypeName, TypeView};

use operators::{
    binary_operator, binary_result_type, binary_type, boolean, choice_result_type, choice_type,
    floating_type, integer_type, operator_of, resolve_floating_point_literal_type,
    resolve_integer_literal_type, unary_operator, unary_result_type, unary_type,
};

pub mod laws;
pub mod operators;

verus! {

/// What is found of the type of an expression.
#[derive(Debug, PartialEq, Eq)]
pub enum Typing {
    Known(TypeName),
    Unknown,
    /// The expressions are nested deeper than they are followed.
    TooDeep,
}

/// What a [`Typing`] says.
pub enum TypingView {
    Known(TypeView),
    Unknown,
    TooDeep,
}

impl DeepView for Typing {
    type V = TypingView;

    open spec fn deep_view(&self) -> TypingView {
        match self {
            Typing::Known(t) => TypingView::Known(t.deep_view()),
            Typing::Unknown => TypingView::Unknown,
            Typing::TooDeep => TypingView::TooDeep,
        }
    }
}

/// A type that may not be known.
pub open spec fn typing(t: Option<TypeView>) -> TypingView {
    match t {
        Some(t) => TypingView::Known(t),
        None => TypingView::Unknown,
    }
}

fn make_typing(t: Option<TypeName>) -> (r: Typing)
    ensures
        r.deep_view() == typing(t.deep_view()),
{
    match t {
        Some(t) => Typing::Known(t),
        None => Typing::Unknown,
    }
}

/// What an expression is expected to be: a functional interface, and how many parameters its one
/// method has.
#[derive(Debug)]
pub struct Expected {
    pub interface: Option<TypeName>,
    pub arity: Option<usize>,
}

/// What an [`Expected`] says.
pub struct ExpectedView {
    pub interface: Option<TypeView>,
    pub arity: Option<usize>,
}

impl DeepView for Expected {
    type V = ExpectedView;

    open spec fn deep_view(&self) -> ExpectedView {
        ExpectedView { interface: self.interface.deep_view(), arity: self.arity }
    }
}

/// Nothing is expected.
pub open spec fn no_target() -> ExpectedView {
    ExpectedView { interface: None, arity: None }
}

impl Expected {
    pub fn nothing() -> (r: Expected)
        ensures
            r.deep_view() == no_target(),
    {
        Expected { interface: None, arity: None }
    }
}

// ---- types by their names ----------------------------------------------------------------------

/// The type of an object that is created: its name resolves, or leads to it part by part.
pub open spec fn created_type(facts: FactsView, type_text: Seq<char>) -> Option<TypeView> {
    match at_key(facts.types, type_text) {
        Some(t) => Some(t),
        None => at_key(facts.qualified_types, type_text),
    }
}

/// The type of an object that is created.
pub fn resolve_constructor_type_name(type_text: &str, facts: &TypeFacts) -> (r: Option<TypeName>)
    ensures
        r.deep_view() == created_type(facts.deep_view(), type_text@),
{
    match look_up(&facts.types, type_text) {
        Some(t) => Some(t),
        None => look_up(&facts.qualified_types, type_text),
    }
}

/// The type that a type's name in the text stands for.
pub open spec fn source_type(facts: FactsView, type_text: Seq<char>) -> Option<TypeView> {
    let t = trim(type_text);
    if t.len() == 0 {
        None
    } else if is_primitive_name(t) || t == "void"@ {
        Some(TypeView::plain(t))
    } else {
        match at_key(facts.relaxed_types, t) {
            Some(r) => Some(r),
            None => created_type(facts, t),
        }
    }
}

/// The type that a type's name in the text stands for.
pub fn resolve_source_type_name(type_text: &[char], facts: &TypeFacts) -> (r: Option<TypeName>)
    ensures
        r.deep_view() == source_type(facts.deep_view(), type_text@),
{
    let s = trimmed(type_text);
    if s.len() == 0 {
        return None;
    }
    let t = to_text(s);
    if names_primitive(t.as_str()) || str_eq(t.as_str(), "void") {
        return Some(TypeName::new(t.as_str()));
    }
    match look_up(&facts.relaxed_types, t.as_str()) {
        Some(r) => Some(r),
        None => resolve_constructor_type_name(t.as_str(), facts),
    }
}

// ---- the creation of objects and arrays --------------------------------------------------------

/// How many characters of a text from the `i`-th on are a given one.
pub open spec fn count_from(s: Seq<char>, c: char, i: int) -> nat
    decreases s.len() - i,
{
    if i < 0 || i >= s.len() {
        0
    } else if s[i] == c {
        1 + count_from(s, c, i + 1)
    } else {
        count_from(s, c, i + 1)
    }
}

proof fn lemma_count_bounded(s: Seq<char>, c: char, i: int)
    requires
        0 <= i <= s.len(),
    ensures
        count_from(s, c, i) <= s.len() - i,
    decreases s.len() - i,
{
    if i < s.len() {
        lemma_count_bounded(s, c, i + 1);
    }
}

fn count_char(s: &[char], c: char) -> (r: usize)
    ensures
        r == count_from(s@, c, 0),
{
    let mut total: usize = 0;
    let mut i: usize = 0;
    while i < s.len()
        invariant
            i <= s.len(),
            total <= i,
            total + count_from(s@, c, i as int) == count_from(s@, c, 0),
        decreases s.len() - i,
    {
        if s[i] == c {
            total += 1;
        }
        i += 1;
    }
    total
}

/// The first place from `i` on of one of the characters that end the name of a created type.
pub open spec fn boundary_from(s: Seq<char>, i: int) -> int
    decreases s.len() - i,
{
    if i < 0 || i >= s.len() || s[i] == '(' || s[i] == '[' || s[i] == '{' {
        i
    } else {
        boundary_from(s, i + 1)
    }
}

fn find_boundary(s: &[char]) -> (r: usize)
    ensures
        r == boundary_from(s@, 0),
        r <= s@.len(),
{
    let mut i: usize = 0;
    while i < s.len() && s[i] != '(' && s[i] != '[' && s[i] != '{'
        invariant
            i <= s.len(),
            boundary_from(s@, 0) == boundary_from(s@, i as int),
        decreases s.len() - i,
    {
        i += 1;
    }
    i
}

/// The place of the `>` that brings the depth back to zero, from `i` on.
pub open spec fn closing_angle(s: Seq<char>, depth: int, i: int) -> Option<int>
    decreases s.len() - i,
{
    if i < 0 || i >= s.len() {
        None
    } else if s[i] == '<' {
        closing_angle(s, depth + 1, i + 1)
    } else if s[i] == '>' {
        if depth == 1 {
            Some(i)
        } else {
            closing_angle(s, depth - 1, i + 1)
        }
    } else {
        closing_angle(s, depth, i + 1)
    }
}

/// The `>` that closes the `<` at `start`. As many characters are passed over as bytes stand
/// before `start`.
pub open spec fn matching_angle(s: Seq<char>, start: int) -> Option<int> {
    closing_angle(s, 0, byte_len(s, start))
}

fn count_bytes(s: &[char], k: usize) -> (r: usize)
    requires
        k <= s@.len(),
    ensures
        r == byte_len(s@, k as int) || (r == s@.len() && byte_len(s@, k as int) >= s@.len()),
        r <= s@.len(),
{
    let n: usize = s.len();
    let mut total: usize = 0;
    let mut i: usize = 0;
    while i < k
        invariant
            i <= k <= n,
            n == s@.len(),
            total <= n,
            total == byte_len(s@, i as int) || (total == n && byte_len(s@, i as int) >= n),
        decreases k - i,
    {
        let width: usize = crate::parse::byte_count(s[i]);
        if n - total <= width {
            total = n;
        } else {
            total = total + width;
        }
        i += 1;
    }
    total
}

/// The `>` that closes the `<` at `start`.
pub fn find_matching_angle(s: &[char], start: usize) -> (r: Option<usize>)
    requires
        start <= s@.len(),
    ensures
        at(r) == matching_angle(s@, start as int),
        r matches Some(i) ==> i < s@.len(),
{
    let from: usize = count_bytes(s, start);
    let n: usize = s.len();
    let mut depth: i128 = 0;
    let mut i: usize = from;
    assert(closing_angle(s@, 0, from as int) == matching_angle(s@, start as int));
    while i < n
        invariant
            from <= i <= n,
            n == s@.len(),
            -i <= depth <= i,
            closing_angle(s@, depth as int, i as int) == matching_angle(s@, start as int),
        decreases n - i,
    {
        if s[i] == '<' {
            depth = depth + 1;
        } else if s[i] == '>' {
            if depth == 1 {
                return Some(i);
            }
            depth = depth - 1;
        }
        i += 1;
    }
    None
}

/// Where the name of a created type ends, its type arguments included; it has no end where these
/// are not closed.
pub open spec fn type_end(rest: Seq<char>) -> Option<int> {
    let boundary = boundary_from(rest, 0);
    match index_of(rest, '<') {
        Some(open) => if open < boundary {
            match matching_angle(rest, open) {
                Some(close) => Some(close + 1),
                None => None,
            }
        } else {
            Some(boundary)
        },
        None => Some(boundary),
    }
}

fn find_type_end(rest: &[char]) -> (r: Option<usize>)
    ensures
        at(r) == type_end(rest@),
        r matches Some(i) ==> i <= rest@.len(),
{
    let n: usize = rest.len();
    let boundary: usize = find_boundary(rest);
    match find_char(rest, '<') {
        Some(open) => if open < boundary {
            match find_matching_angle(rest, open) {
                Some(close) => Some(close + 1),
                None => None,
            }
        } else {
            Some(boundary)
        },
        None => Some(boundary),
    }
}

/// How many arrays are wrapped round a created type: as many as there are brackets before the
/// values, where brackets or values follow the type at all.
pub open spec fn created_dims(after: Seq<char>) -> nat {
    let s = trim_start(after);
    if starts_with(s, "["@) || starts_with(s, "{"@) {
        let brace = match index_of(s, '{') {
            Some(i) => i,
            None => s.len() as int,
        };
        count_from(s.take(brace), '[', 0)
    } else {
        0
    }
}

fn count_created_dims(after: &[char]) -> (r: usize)
    ensures
        r == created_dims(after@),
{
    let s = trimmed_start(after);
    if begins_with(s, "[") || begins_with(s, "{") {
        let brace: usize = match find_char(s, '{') {
            Some(i) => i,
            None => s.len(),
        };
        let head = slice_subrange(s, 0, brace);
        assert(head@ =~= s@.take(brace as int));
        count_char(head, '[')
    } else {
        0
    }
}

/// The type of what `new` creates, from what follows the word.
pub open spec fn creation_type(facts: FactsView, rest: Seq<char>) -> TypingView {
    match type_end(rest) {
        None => TypingView::Unknown,
        Some(end) => {
            let type_text = trim(rest.take(end));
            let base = if is_primitive_name(type_text) {
                Some(TypeView::plain(type_text))
            } else {
                created_type(facts, type_text)
            };
            match base {
                None => TypingView::Unknown,
                Some(t) => {
                    let dims = t.array_dims + created_dims(rest.skip(end));
                    if dims > usize::MAX {
                        TypingView::TooDeep
                    } else {
                        TypingView::Known(TypeView { array_dims: dims, ..t })
                    }
                },
            }
        },
    }
}

/// The type of what `new` creates, from what follows the word.
pub fn resolve_creation(rest: &[char], facts: &TypeFacts) -> (r: Typing)
    ensures
        r.deep_view() == creation_type(facts.deep_view(), rest@),
{
    let n: usize = rest.len();
    let end: usize = match find_type_end(rest) {
        Some(end) => end,
        None => {
            return Typing::Unknown;
        },
    };
    let head = slice_subrange(rest, 0, end);
    assert(head@ =~= rest@.take(end as int));
    let tail = slice_subrange(rest, end, n);
    assert(tail@ =~= rest@.skip(end as int));
    let type_text = to_text(trimmed(head));
    let base = if names_primitive(type_text.as_str()) {
        Some(TypeName::new(type_text.as_str()))
    } else {
        resolve_constructor_type_name(type_text.as_str(), facts)
    };
    match base {
        None => Typing::Unknown,
        Some(t) => {
            let dims: usize = count_created_dims(tail);
            let wrapped: usize = t.array_dims;
            match wrapped.checked_add(dims) {
                Some(total) => Typing::Known(t.with_array_dims(total)),
                None => Typing::TooDeep,
            }
        },
    }
}

// ---- lambdas and casts -------------------------------------------------------------------------

/// How many of the nodes from the `i`-th on are parameters, in a list with or without types.
pub open spec fn params_from(src: SourceView, ids: Seq<NodeId>, typed: bool, i: int) -> nat
    decreases ids.len() - i,
{
    if i < 0 || i >= ids.len() {
        0
    } else {
        let kind = src.kind(ids[i]);
        let one: nat = if (typed && (kind == "formal_parameter"@ || kind == "spread_parameter"@))
            || (!typed && kind == "identifier"@) {
            1
        } else {
            0
        };
        one + params_from(src, ids, typed, i + 1)
    }
}

/// How many parameters a lambda has.
pub open spec fn lambda_arity(src: SourceView, params: NodeId) -> Option<nat> {
    let kind = src.kind(params);
    if kind == "identifier"@ {
        Some(1)
    } else if kind == "inferred_parameters"@ {
        Some(params_from(src, src.named_kids(params), false, 0))
    } else if kind == "formal_parameters"@ {
        Some(params_from(src, src.named_kids(params), true, 0))
    } else {
        None
    }
}

fn count_params(ctx: &JavaContextExtractor, ids: &[NodeId], typed: bool) -> (r: usize)
    requires
        ctx.wf(),
        ctx.tree.all_in(ids@),
    ensures
        r == params_from(view_of(*ctx), ids@, typed, 0),
{
    let ghost src = view_of(*ctx);
    let t = &ctx.tree;
    let mut total: usize = 0;
    let mut i: usize = 0;
    while i < ids.len()
        invariant
            i <= ids.len(),
            ctx.wf(),
            *t == ctx.tree,
            t.all_in(ids@),
            src == view_of(*ctx),
            total <= i,
            total + params_from(src, ids@, typed, i as int) == params_from(src, ids@, typed, 0),
        decreases ids.len() - i,
    {
        let kind = t.kind(ids[i]);
        assert(src.kind(ids@[i as int]) == kind@);
        if (typed && (str_eq(kind, "formal_parameter") || str_eq(kind, "spread_parameter"))) || (
        !typed && str_eq(kind, "identifier")) {
            total += 1;
        }
        i += 1;
    }
    total
}

/// The type of a lambda: what is expected, if the number of parameters fits.
pub open spec fn lambda_type(src: SourceView, n: NodeId, target: ExpectedView) -> Option<TypeView> {
    match (target.interface, target.arity, src.field(n, "parameters"@)) {
        (Some(t), Some(arity), Some(params)) => match lambda_arity(src, params) {
            Some(count) if count == arity => Some(t),
            _ => None,
        },
        _ => None,
    }
}

/// The type of a lambda.
pub fn resolve_lambda_expression_type(ctx: &JavaContextExtractor, n: NodeId, target: &Expected) -> (r:
    Option<TypeName>)
    requires
        ctx.wf(),
        ctx.tree.has(n),
    ensures
        r.deep_view() == lambda_type(view_of(*ctx), n, target.deep_view()),
{
    match (&target.interface, target.arity, field_child(ctx, n, "parameters")) {
        (Some(t), Some(arity), Some(params)) => {
            let tree = &ctx.tree;
            assert(view_of(*ctx).kind(params) == tree.kind_of(params));
            let kind = tree.kind(params);
            let count: usize = if str_eq(kind, "identifier") {
                1
            } else if str_eq(kind, "inferred_parameters") {
                count_params(ctx, tree.named_children(params), false)
            } else if str_eq(kind, "formal_parameters") {
                count_params(ctx, tree.named_children(params), true)
            } else {
                return None;
            };
            if count == arity {
                Some(t.duplicate())
            } else {
                None
            }
        },
        _ => None,
    }
}

/// The first of the nodes from the `i`-th on that is not in parentheses.
pub open spec fn bare_from(src: SourceView, ids: Seq<NodeId>, i: int) -> Option<NodeId>
    decreases ids.len() - i,
{
    if i < 0 || i >= ids.len() {
        None
    } else if src.kind(ids[i]) != "parenthesized_expression"@ {
        Some(ids[i])
    } else {
        bare_from(src, ids, i + 1)
    }
}

/// The type that a cast names.
pub open spec fn cast_type(facts: FactsView, src: SourceView, n: NodeId) -> Option<TypeView> {
    let node = match src.field(n, "type"@) {
        Some(k) => Some(k),
        None => bare_from(src, src.named_kids(n), 0),
    };
    match node {
        Some(k) => source_type(facts, trim(src.text(k))),
        None => None,
    }
}

fn find_bare(ctx: &JavaContextExtractor, n: NodeId) -> (r: Option<NodeId>)
    requires
        ctx.wf(),
        ctx.tree.has(n),
    ensures
        r == bare_from(view_of(*ctx), view_of(*ctx).named_kids(n), 0),
        r matches Some(k) ==> ctx.tree.has(k),
{
    let ghost src = view_of(*ctx);
    let t = &ctx.tree;
    let ids = t.named_children(n);
    let mut i: usize = 0;
    while i < ids.len()
        invariant
            i <= ids.len(),
            ctx.wf(),
            *t == ctx.tree,
            t.all_in(ids@),
            src == view_of(*ctx),
            ids@ == src.named_kids(n),
            bare_from(src, ids@, 0) == bare_from(src, ids@, i as int),
        decreases ids.len() - i,
    {
        assert(src.kind(ids@[i as int]) == t.kind_of(ids@[i as int]));
        if !t.is_kind(ids[i], "parenthesized_expression") {
            return Some(ids[i]);
        }
        i += 1;
    }
    None
}

/// The type that a cast names.
pub fn resolve_cast_expression_type(ctx: &JavaContextExtractor, n: NodeId, facts: &TypeFacts) -> (r:
    Option<TypeName>)
    requires
        ctx.wf(),
        ctx.tree.has(n),
    ensures
        r.deep_view() == cast_type(facts.deep_view(), view_of(*ctx), n),
{
    let node: Option<NodeId> = match field_child(ctx, n, "type") {
        Some(k) => Some(k),
        None => find_bare(ctx, n),
    };
    match node {
        Some(k) => {
            assert(view_of(*ctx).text(k) == ctx.text_of(k));
            resolve_source_type_name(trimmed(ctx.node_text(k)), facts)
        },
        None => None,
    }
}

// ---- expressions -------------------------------------------------------------------------------

/// A method around an expression, which makes a text that can be parsed.
pub open spec fn wrapped(expr: Seq<char>) -> Seq<char> {
    "class __ExprTyping { Object __e() { return "@ + expr + "; } }"@
}

fn wrap(expr: &[char]) -> (r: String)
    ensures
        r@ == wrapped(expr@),
{
    let mut out = to_chars("class __ExprTyping { Object __e() { return ");
    crate::text::append(&mut out, expr);
    append_str(&mut out, "; } }");
    to_text(out.as_slice())
}

/// The first node of a kind, from the `i`-th on.
pub open spec fn first_of_kind_from(src: SourceView, kind: Seq<char>, i: int) -> Option<NodeId>
    decreases src.nodes.len() - i,
{
    if i < 0 || i >= src.nodes.len() {
        None
    } else if src.nodes[i].kind == kind {
        Some(i as usize)
    } else {
        first_of_kind_from(src, kind, i + 1)
    }
}

/// The first node of a kind; the nodes stand in the order in which they begin, outer before
/// inner.
pub fn find_first_node_of_kind(ctx: &JavaContextExtractor, kind: &str) -> (r: Option<NodeId>)
    requires
        ctx.wf(),
    ensures
        r == first_of_kind_from(view_of(*ctx), kind@, 0),
        r matches Some(n) ==> ctx.tree.has(n),
{
    let ghost src = view_of(*ctx);
    let t = &ctx.tree;
    let n: usize = t.nodes.len();
    let mut i: usize = 0;
    while i < n
        invariant
            i <= n,
            n == src.nodes.len(),
            *t == ctx.tree,
            src == view_of(*ctx),
            n == t.nodes@.len(),
            first_of_kind_from(src, kind@, 0) == first_of_kind_from(src, kind@, i as int),
        decreases n - i,
    {
        assert(src.nodes[i as int].kind == t.kind_of(i));
        if t.is_kind(i, kind) {
            return Some(i);
        }
        i += 1;
    }
    None
}

/// The node of an expression in the method around it.
pub open spec fn expression_node(src: SourceView) -> Option<NodeId> {
    match first_of_kind_from(src, "return_statement"@, 0) {
        Some(n) => src.field_or_kid(n, "value"@, 0),
        None => None,
    }
}

/// The name of a step without its brackets.
pub open spec fn step_name(name: Seq<char>) -> Seq<char> {
    match index_of(name, '[') {
        Some(i) => name.take(i),
        None => name,
    }
}

fn name_of_step(name: &[char]) -> (r: &[char])
    ensures
        r@ == step_name(name@),
{
    match find_char(name, '[') {
        Some(i) => {
            let head = slice_subrange(name, 0, i);
            assert(head@ =~= name@.take(i as int));
            head
        },
        None => name,
    }
}

/// The type of a name at the start of a chain: what can be seen by that name, else the class that
/// the expression stands in, else a type.
pub open spec fn head_type(facts: FactsView, name: Seq<char>) -> Option<TypeView> {
    match at_key(facts.names, name) {
        Some(t) => Some(t),
        None => match facts.enclosing {
            Some(c) if name == after_last(after_last(c, '/'), '$') => Some(TypeView::plain(c)),
            _ => at_key(facts.types, name),
        },
    }
}

fn resolve_head(name: &str, facts: &TypeFacts) -> (r: Option<TypeName>)
    ensures
        r.deep_view() == head_type(facts.deep_view(), name@),
{
    if let Some(t) = look_up(&facts.names, name) {
        return Some(t);
    }
    if let Some(c) = &facts.enclosing {
        let text = to_chars(c.as_str());
        let simple = behind_last(behind_last(text.as_slice(), '/'), '$');
        if spells(simple, name) {
            return Some(TypeName::new(c.as_str()));
        }
    }
    look_up(&facts.types, name)
}

/// The result of a call at the start of a chain.
pub open spec fn own_call(
    facts: FactsView,
    enclosing: Seq<char>,
    name: Seq<char>,
    arg_count: int,
    arg_types: Seq<TypeView>,
    arg_texts: Seq<Seq<char>>,
) -> Option<TypeView> {
    let receiver = TypeView::plain(enclosing);
    match result_from(facts.calls, receiver, name, arg_count, arg_types, arg_texts, 0) {
        Some(t) => Some(t),
        None => result_from(facts.own_calls, receiver, name, arg_count, arg_types, arg_texts, 0),
    }
}

/// The receiver of an access: a type that is not a path stands for the type that it resolves to,
/// with its own arguments, if it has any, and its own arrays.
pub open spec fn receiver_type(facts: FactsView, recv: TypeView) -> Option<TypeView> {
    if recv.base.contains('/') {
        Some(recv)
    } else {
        match at_key(facts.types, recv.base) {
            Some(t) => Some(
                TypeView {
                    base: t.base,
                    args: if recv.args.len() > 0 {
                        recv.args
                    } else {
                        t.args
                    },
                    array_dims: recv.array_dims,
                },
            ),
            None => None,
        }
    }
}

fn resolve_receiver(recv: &TypeName, facts: &TypeFacts) -> (r: Option<TypeName>)
    ensures
        r.deep_view() == receiver_type(facts.deep_view(), recv.deep_view()),
{
    proof {
        crate::type_names::lemma_type_models(recv.args@);
    }
    if recv.contains_slash() {
        return Some(recv.duplicate());
    }
    match look_up(&facts.types, recv.erased_internal()) {
        Some(t) => {
            let args = if recv.args.len() > 0 {
                recv.duplicate().args
            } else {
                t.args
            };
            Some(TypeName { base: t.base, args, array_dims: recv.array_dims })
        },
        None => None,
    }
}

/// The type of a descriptor of one letter.
pub open spec fn letter_type(descriptor: Seq<char>) -> Option<Seq<char>> {
    if descriptor == "B"@ {
        Some("byte"@)
    } else if descriptor == "C"@ {
        Some("char"@)
    } else if descriptor == "D"@ {
        Some("double"@)
    } else if descriptor == "F"@ {
        Some("float"@)
    } else if descriptor == "I"@ {
        Some("int"@)
    } else if descriptor == "J"@ {
        Some("long"@)
    } else if descriptor == "S"@ {
        Some("short"@)
    } else if descriptor == "Z"@ {
        Some("boolean"@)
    } else if descriptor == "V"@ {
        Some("void"@)
    } else {
        None
    }
}

/// The type of a descriptor of one letter.
pub fn singleton_descriptor_to_type(descriptor: &str) -> (r: Option<&'static str>)
    ensures
        r.deep_view() == letter_type(descriptor@),
{
    if str_eq(descriptor, "B") {
        Some("byte")
    } else if str_eq(descriptor, "C") {
        Some("char")
    } else if str_eq(descriptor, "D") {
        Some("double")
    } else if str_eq(descriptor, "F") {
        Some("float")
    } else if str_eq(descriptor, "I") {
        Some("int")
    } else if str_eq(descriptor, "J") {
        Some("long")
    } else if str_eq(descriptor, "S") {
        Some("short")
    } else if str_eq(descriptor, "Z") {
        Some("boolean")
    } else if str_eq(descriptor, "V") {
        Some("void")
    } else {
        None
    }
}

/// The descriptor of the first field from the `i`-th on that has a name.
pub open spec fn field_descriptor(fields: Seq<FieldView>, name: Seq<char>, i: int) -> Option<
    Seq<char>,
>
    decreases fields.len() - i,
{
    if i < 0 || i >= fields.len() {
        None
    } else if fields[i].name == name {
        Some(fields[i].descriptor)
    } else {
        field_descriptor(fields, name, i + 1)
    }
}

/// The type of a field of a class.
pub open spec fn field_type(facts: FactsView, class: Seq<char>, name: Seq<char>) -> Option<TypeView> {
    match at_key(facts.fields, class) {
        None => None,
        Some(fields) => match field_descriptor(fields, name, 0) {
            None => None,
            Some(d) => match letter_type(d) {
                Some(t) => Some(TypeView::plain(t)),
                None => at_key(facts.descriptors, d),
            },
        },
    }
}

fn resolve_field(class: &str, name: &str, facts: &TypeFacts) -> (r: Option<TypeName>)
    ensures
        r.deep_view() == field_type(facts.deep_view(), class@, name@),
{
    match facts.fields.get(class) {
        None => None,
        Some(fields) => {
            let ghost all = fields.deep_view();
            let mut i: usize = 0;
            while i < fields.len()
                invariant
                    i <= fields.len(),
                    all == fields.deep_view(),
                    at_key(facts.deep_view().fields, class@) == Some(all),
                    field_descriptor(all, name@, 0) == field_descriptor(all, name@, i as int),
                decreases fields.len() - i,
            {
                assert(all[i as int] == fields@[i as int].deep_view());
                if str_eq(fields[i].name.as_str(), name) {
                    let d = fields[i].descriptor.as_str();
                    return match singleton_descriptor_to_type(d) {
                        Some(t) => Some(TypeName::new(t)),
                        None => look_up(&facts.descriptors, d),
                    };
                }
                i += 1;
            }
            None
        },
    }
}

/// An expression that ends in brackets.
pub open spec fn is_array_access(expr: Seq<char>) -> bool {
    expr.contains('[') && ends_with(trim_end(expr), "]"@)
}

/// Whether an expression ends in brackets.
pub fn looks_like_array_access(expr: &[char]) -> (r: bool)
    ensures
        r == is_array_access(expr@),
{
    contains_char(expr, '[') && finishes_with(trimmed_end(expr), "]")
}

/// The type of an expression; `depth` bounds how deeply the expressions are followed that stand
/// as arguments, in brackets or behind `new` in it.
pub open spec fn typed(facts: FactsView, expr: Seq<char>, target: ExpectedView, depth: nat) -> TypingView
    decreases depth, 4int, 0int, 0int,
{
    let e = trim(expr);
    if depth == 0 {
        TypingView::TooDeep
    } else if e.len() == 0 {
        TypingView::Unknown
    } else {
        let src = parsed_view(wrapped(e));
        let by_syntax = match expression_node(src) {
            Some(n) => if src.has(n) {
                node_type(facts, src, n, target, depth)
            } else {
                TypingView::Unknown
            },
            None => TypingView::Unknown,
        };
        match by_syntax {
            TypingView::Unknown => if is_array_access(e) {
                element_type(facts, e, depth)
            } else {
                chained(facts, e, e, depth)
            },
            _ => by_syntax,
        }
    }
}

/// The type of an element of an array, from an expression that ends in brackets.
pub open spec fn element_type(facts: FactsView, expr: Seq<char>, depth: nat) -> TypingView
    decreases depth, 2int, 0int, 0int,
{
    match last_index_of(expr, '[') {
        None => TypingView::Unknown,
        Some(bracket) => {
            let array = trim(expr.take(bracket));
            if depth == 0 {
                TypingView::TooDeep
            } else if array.len() == 0 || !ends_with(trim_end(expr), "]"@) {
                TypingView::Unknown
            } else {
                match typed(facts, array, no_target(), (depth - 1) as nat) {
                    TypingView::Known(t) => typing(t.element()),
                    other => other,
                }
            }
        },
    }
}

/// The type of an expression as a chain of accesses, or of a name where it is none.
pub open spec fn chained(facts: FactsView, key: Seq<char>, name: Seq<char>, depth: nat) -> TypingView
    decreases depth, 2int, 0int, 0int,
{
    match at_key(facts.chains, key) {
        Some(chain) if chain.len() > 0 => chain_type(facts, chain, 0, None, depth),
        _ => typing(at_key(facts.names, name)),
    }
}

/// The type of an initializer.
pub open spec fn init_type(facts: FactsView, expr: Seq<char>, depth: nat) -> TypingView
    decreases depth, 2int, 0int, 0int,
{
    match strip_prefix(trim(expr), "new "@) {
        Some(rest) => creation_type(facts, rest),
        None => if depth == 0 {
            TypingView::TooDeep
        } else {
            typed(facts, trim(expr), no_target(), (depth - 1) as nat)
        },
    }
}

/// The type of a part of a node.
pub open spec fn part_type(
    facts: FactsView,
    src: SourceView,
    n: NodeId,
    part: Option<NodeId>,
    target: ExpectedView,
    depth: nat,
) -> TypingView
    decreases depth, 3int, src.nodes.len() - n, 0int,
{
    match part {
        Some(k) => if n < k && src.has(k) {
            node_type(facts, src, k, target, depth)
        } else {
            TypingView::Unknown
        },
        None => TypingView::Unknown,
    }
}

/// The type of an assignment: that of its left side or, where that is not known, of its right
/// side.
pub open spec fn assignment_type(
    facts: FactsView,
    src: SourceView,
    n: NodeId,
    target: ExpectedView,
    depth: nat,
) -> TypingView
    decreases depth, 3int, src.nodes.len() - n, 1int,
{
    if src.field(n, "left"@) is None {
        TypingView::Unknown
    } else {
        match part_type(facts, src, n, src.field(n, "left"@), target, depth) {
            TypingView::Unknown => part_type(facts, src, n, src.field(n, "right"@), target, depth),
            other => other,
        }
    }
}

/// The type of `condition ? yes : no`.
pub open spec fn ternary_type(
    facts: FactsView,
    src: SourceView,
    n: NodeId,
    target: ExpectedView,
    depth: nat,
) -> TypingView
    decreases depth, 3int, src.nodes.len() - n, 1int,
{
    let yes = src.field_or_kid(n, "consequence"@, 1);
    let no = src.field_or_kid(n, "alternative"@, 2);
    if yes is None || no is None {
        TypingView::Unknown
    } else {
        match part_type(facts, src, n, yes, target, depth) {
            TypingView::Known(left) => match part_type(facts, src, n, no, target, depth) {
                TypingView::Known(right) => typing(choice_type(left, right)),
                other => other,
            },
            other => other,
        }
    }
}

/// The type of an operator with one operand.
pub open spec fn unary_node_type(
    facts: FactsView,
    src: SourceView,
    n: NodeId,
    target: ExpectedView,
    depth: nat,
) -> TypingView
    decreases depth, 3int, src.nodes.len() - n, 1int,
{
    match operator_of(src, n, false) {
        None => TypingView::Unknown,
        Some(op) => match part_type(
            facts,
            src,
            n,
            src.field_or_kid(n, "operand"@, 0),
            target,
            depth,
        ) {
            TypingView::Known(t) => typing(unary_type(op, t)),
            other => other,
        },
    }
}

/// The type of an operator with two operands.
pub open spec fn binary_node_type(
    facts: FactsView,
    src: SourceView,
    n: NodeId,
    target: ExpectedView,
    depth: nat,
) -> TypingView
    decreases depth, 3int, src.nodes.len() - n, 1int,
{
    match operator_of(src, n, true) {
        None => TypingView::Unknown,
        Some(op) => if src.field(n, "left"@) is None || src.field(n, "right"@) is None {
            TypingView::Unknown
        } else {
            match part_type(facts, src, n, src.field(n, "left"@), target, depth) {
                TypingView::Known(left) => match part_type(
                    facts,
                    src,
                    n,
                    src.field(n, "right"@),
                    target,
                    depth,
                ) {
                    TypingView::Known(right) => typing(binary_type(op, left, right)),
                    other => other,
                },
                other => other,
            }
        },
    }
}

/// The type of the expression at a node.
pub open spec fn node_type(
    facts: FactsView,
    src: SourceView,
    n: NodeId,
    target: ExpectedView,
    depth: nat,
) -> TypingView
    decreases depth, 3int, src.nodes.len() - n, 2int,
{
    let kind = src.kind(n);
    if kind == "parenthesized_expression"@ {
        part_type(facts, src, n, src.field_or_kid(n, "expression"@, 0), target, depth)
    } else if kind == "identifier"@ {
        typing(at_key(facts.names, trim(src.text(n))))
    } else if kind == "decimal_integer_literal"@ || kind == "hex_integer_literal"@ || kind
        == "octal_integer_literal"@ || kind == "binary_integer_literal"@ {
        typing(integer_type(src.text(n)))
    } else if kind == "decimal_floating_point_literal"@ || kind == "hex_floating_point_literal"@ {
        typing(floating_type(src.text(n)))
    } else if kind == "boolean_literal"@ {
        TypingView::Known(boolean())
    } else if kind == "character_literal"@ {
        TypingView::Known(TypeView::plain("char"@))
    } else if kind == "null_literal"@ {
        TypingView::Known(TypeView::plain("null"@))
    } else if kind == "string_literal"@ || kind == "text_block"@ {
        TypingView::Known(TypeView::plain("java/lang/String"@))
    } else if kind == "cast_expression"@ {
        typing(cast_type(facts, src, n))
    } else if kind == "assignment_expression"@ {
        assignment_type(facts, src, n, target, depth)
    } else if kind == "ternary_expression"@ {
        ternary_type(facts, src, n, target, depth)
    } else if kind == "unary_expression"@ {
        unary_node_type(facts, src, n, target, depth)
    } else if kind == "method_invocation"@ || kind == "field_access"@ {
        chained(facts, trim(src.text(n)), src.text(n), depth)
    } else if kind == "object_creation_expression"@ || kind == "explicit_constructor_invocation"@ {
        init_type(facts, src.text(n), depth)
    } else if kind == "lambda_expression"@ {
        typing(lambda_type(src, n, target))
    } else if kind == "binary_expression"@ {
        binary_node_type(facts, src, n, target, depth)
    } else {
        TypingView::Unknown
    }
}

/// The types of the arguments from the `j`-th on, that of one that is not known being `unknown`;
/// there are none where one is nested too deeply.
pub open spec fn argument_types(
    facts: FactsView,
    texts: Seq<Seq<char>>,
    j: int,
    depth: nat,
) -> Option<Seq<TypeView>>
    decreases depth, 0int, texts.len() - j, 0int,
{
    if j < 0 || j >= texts.len() {
        Some(Seq::empty())
    } else if depth == 0 {
        None
    } else {
        let first = match typed(facts, trim(texts[j]), no_target(), (depth - 1) as nat) {
            TypingView::Known(t) => Some(t),
            TypingView::Unknown => Some(TypeView::plain("unknown"@)),
            TypingView::TooDeep => None,
        };
        match first {
            None => None,
            Some(t) => match argument_types(facts, texts, j + 1, depth) {
                None => None,
                Some(rest) => Some(seq![t] + rest),
            },
        }
    }
}

/// The type of one step of a chain, without its brackets; `recv` is the type of what stands
/// before it.
pub open spec fn step_type(
    facts: FactsView,
    step: SegmentView,
    recv: Option<TypeView>,
    depth: nat,
) -> TypingView
    decreases depth, 0int, step.arg_texts.len() + 1, 0int,
{
    let name = step_name(step.name);
    match recv {
        None => match step.arg_count {
            None => typing(head_type(facts, name)),
            Some(arg_count) => match facts.enclosing {
                None => TypingView::Unknown,
                Some(enclosing) => match argument_types(facts, step.arg_texts, 0, depth) {
                    None => TypingView::TooDeep,
                    Some(arg_types) => typing(
                        own_call(facts, enclosing, name, arg_count, arg_types, step.arg_texts),
                    ),
                },
            },
        },
        Some(recv) => if name.len() == 0 {
            TypingView::Known(recv)
        } else {
            match receiver_type(facts, recv) {
                None => TypingView::Unknown,
                Some(receiver) => match step.arg_count {
                    None => typing(field_type(facts, receiver.base, name)),
                    Some(arg_count) => match argument_types(facts, step.arg_texts, 0, depth) {
                        None => TypingView::TooDeep,
                        Some(arg_types) => typing(
                            result_from(
                                facts.calls,
                                receiver,
                                name,
                                arg_count,
                                arg_types,
                                step.arg_texts,
                                0,
                            ),
                        ),
                    },
                },
            }
        },
    }
}

/// The type of a chain from the `i`-th step on: each step is looked up in the type of the one
/// before it, and every bracket takes an array off.
pub open spec fn chain_type(
    facts: FactsView,
    chain: Seq<SegmentView>,
    i: int,
    recv: Option<TypeView>,
    depth: nat,
) -> TypingView
    decreases depth, 1int, chain.len() - i, 0int,
{
    if i < 0 || i >= chain.len() {
        typing(recv)
    } else {
        match step_type(facts, chain[i], recv, depth) {
            TypingView::Known(t) => match t.element_at(count_from(chain[i].name, '[', 0)) {
                Some(e) => chain_type(facts, chain, i + 1, Some(e), depth),
                None => TypingView::Unknown,
            },
            other => other,
        }
    }
}

/// The type of an expression.
pub fn resolve_expression_type(expr: &str, facts: &TypeFacts, depth: usize) -> (r: Typing)
    ensures
        r.deep_view() == typed(facts.deep_view(), expr@, no_target(), depth as nat),
{
    let target = Expected::nothing();
    let text = to_chars(expr);
    resolve_expression_type_with_target(text.as_slice(), facts, &target, depth)
}

/// The type of an expression of which something is expected.
pub fn resolve_expression_type_with_target(
    expr: &[char],
    facts: &TypeFacts,
    target: &Expected,
    depth: usize,
) -> (r: Typing)
    ensures
        r.deep_view() == typed(facts.deep_view(), expr@, target.deep_view(), depth as nat),
    decreases depth, 4int, 0int, 0int,
{
    if depth == 0 {
        return Typing::TooDeep;
    }
    let e = trimmed(expr);
    if e.len() == 0 {
        return Typing::Unknown;
    }
    match resolve_expression_type_ast(e, facts, target, depth) {
        Typing::Unknown => {},
        found => {
            return found;
        },
    }
    if looks_like_array_access(e) {
        return resolve_array_access_type(e, facts, depth);
    }
    resolve_chained(e, e, facts, depth)
}

/// The type that the syntax of an expression gives.
pub open spec fn syntax_type(
    facts: FactsView,
    e: Seq<char>,
    target: ExpectedView,
    depth: nat,
) -> TypingView {
    let src = parsed_view(wrapped(e));
    match expression_node(src) {
        Some(n) => if src.has(n) {
            node_type(facts, src, n, target, depth)
        } else {
            TypingView::Unknown
        },
        None => TypingView::Unknown,
    }
}

fn resolve_expression_type_ast(e: &[char], facts: &TypeFacts, target: &Expected, depth: usize) -> (r:
    Typing)
    ensures
        r.deep_view() == syntax_type(facts.deep_view(), e@, target.deep_view(), depth as nat),
    decreases depth, 3int, usize::MAX + 1, 0int,
{
    let text = wrap(e);
    let ctx = JavaContextExtractor::new(text.as_str(), 0);
    proof {
        lemma_parsed_view(ctx, text@, crate::parse::position_of(text@, 0));
    }
    match find_first_node_of_kind(&ctx, "return_statement") {
        None => Typing::Unknown,
        Some(statement) => match field_or_child(&ctx, statement, "value", 0) {
            None => Typing::Unknown,
            Some(n) => resolve_ast_node_type(&ctx, n, facts, target, depth),
        },
    }
}

/// The type of an element of an array.
pub fn resolve_array_access_type(expr: &[char], facts: &TypeFacts, depth: usize) -> (r: Typing)
    ensures
        r.deep_view() == element_type(facts.deep_view(), expr@, depth as nat),
    decreases depth, 2int, 0int, 0int,
{
    match rfind_char(expr, '[') {
        None => Typing::Unknown,
        Some(bracket) => {
            if depth == 0 {
                return Typing::TooDeep;
            }
            let head = slice_subrange(expr, 0, bracket);
            assert(head@ =~= expr@.take(bracket as int));
            let array = trimmed(head);
            if array.len() == 0 || !finishes_with(trimmed_end(expr), "]") {
                return Typing::Unknown;
            }
            let target = Expected::nothing();
            match resolve_expression_type_with_target(array, facts, &target, depth - 1) {
                Typing::Known(t) => make_typing(t.element_type()),
                other => other,
            }
        },
    }
}

fn resolve_chained(key: &[char], name: &[char], facts: &TypeFacts, depth: usize) -> (r: Typing)
    ensures
        r.deep_view() == chained(facts.deep_view(), key@, name@, depth as nat),
    decreases depth, 2int, 0int, 0int,
{
    let key = to_text(key);
    if let Some(chain) = facts.chains.get(key.as_str()) {
        assert(chain.deep_view().len() == chain@.len());
        if chain.len() > 0 {
            return evaluate_chain(chain, facts, depth);
        }
    }
    let name = to_text(name);
    make_typing(look_up(&facts.names, name.as_str()))
}

/// The type of an initializer.
pub fn resolve_var_init_expr(expr: &[char], facts: &TypeFacts, depth: usize) -> (r: Typing)
    ensures
        r.deep_view() == init_type(facts.deep_view(), expr@, depth as nat),
    decreases depth, 2int, 0int, 0int,
{
    let e = trimmed(expr);
    match without_prefix(e, "new ") {
        Some(rest) => resolve_creation(rest, facts),
        None => {
            if depth == 0 {
                return Typing::TooDeep;
            }
            let target = Expected::nothing();
            resolve_expression_type_with_target(e, facts, &target, depth - 1)
        },
    }
}

fn resolve_part(
    ctx: &JavaContextExtractor,
    n: NodeId,
    part: Option<NodeId>,
    facts: &TypeFacts,
    target: &Expected,
    depth: usize,
) -> (r: Typing)
    requires
        ctx.wf(),
        ctx.tree.has(n),
        part matches Some(k) ==> n < k && ctx.tree.has(k),
    ensures
        r.deep_view() == part_type(
            facts.deep_view(),
            view_of(*ctx),
            n,
            part,
            target.deep_view(),
            depth as nat,
        ),
    decreases depth, 3int, ctx.tree.nodes@.len() - n, 0int,
{
    match part {
        Some(k) => resolve_ast_node_type(ctx, k, facts, target, depth),
        None => Typing::Unknown,
    }
}

/// The type of the expression at a node.
pub fn resolve_ast_node_type(
    ctx: &JavaContextExtractor,
    n: NodeId,
    facts: &TypeFacts,
    target: &Expected,
    depth: usize,
) -> (r: Typing)
    requires
        ctx.wf(),
        ctx.tree.has(n),
    ensures
        r.deep_view() == node_type(
            facts.deep_view(),
            view_of(*ctx),
            n,
            target.deep_view(),
            depth as nat,
        ),
    decreases depth, 3int, ctx.tree.nodes@.len() - n, 2int,
{
    let ghost src = view_of(*ctx);
    assert(src.text(n) == ctx.text_of(n));
    assert(src.kind(n) == ctx.tree.kind_of(n));
    let kind = ctx.tree.kind(n);
    if str_eq(kind, "parenthesized_expression") {
        let inner = field_or_child(ctx, n, "expression", 0);
        resolve_part(ctx, n, inner, facts, target, depth)
    } else if str_eq(kind, "identifier") {
        let name = to_text(trimmed(ctx.node_text(n)));
        make_typing(look_up(&facts.names, name.as_str()))
    } else if str_eq(kind, "decimal_integer_literal") || str_eq(kind, "hex_integer_literal")
        || str_eq(kind, "octal_integer_literal") || str_eq(kind, "binary_integer_literal") {
        make_typing(resolve_integer_literal_type(ctx.node_text(n)))
    } else if str_eq(kind, "decimal_floating_point_literal") || str_eq(
        kind,
        "hex_floating_point_literal",
    ) {
        make_typing(resolve_floating_point_literal_type(ctx.node_text(n)))
    } else if str_eq(kind, "boolean_literal") {
        Typing::Known(TypeName::new("boolean"))
    } else if str_eq(kind, "character_literal") {
        Typing::Known(TypeName::new("char"))
    } else if str_eq(kind, "null_literal") {
        Typing::Known(TypeName::new("null"))
    } else if str_eq(kind, "string_literal") || str_eq(kind, "text_block") {
        Typing::Known(TypeName::new("java/lang/String"))
    } else if str_eq(kind, "cast_expression") {
        make_typing(resolve_cast_expression_type(ctx, n, facts))
    } else if str_eq(kind, "assignment_expression") {
        resolve_assignment_expression_type(ctx, n, facts, target, depth)
    } else if str_eq(kind, "ternary_expression") {
        resolve_ternary_expression_type(ctx, n, facts, target, depth)
    } else if str_eq(kind, "unary_expression") {
        resolve_unary_expression_type(ctx, n, facts, target, depth)
    } else if str_eq(kind, "method_invocation") || str_eq(kind, "field_access") {
        let text = ctx.node_text(n);
        resolve_chained(trimmed(text), text, facts, depth)
    } else if str_eq(kind, "object_creation_expression") || str_eq(
        kind,
        "explicit_constructor_invocation",
    ) {
        resolve_var_init_expr(ctx.node_text(n), facts, depth)
    } else if str_eq(kind, "lambda_expression") {
        make_typing(resolve_lambda_expression_type(ctx, n, target))
    } else if str_eq(kind, "binary_expression") {
        resolve_binary_expression_type(ctx, n, facts, target, depth)
    } else {
        Typing::Unknown
    }
}

fn resolve_assignment_expression_type(
    ctx: &JavaContextExtractor,
    n: NodeId,
    facts: &TypeFacts,
    target: &Expected,
    depth: usize,
) -> (r: Typing)
    requires
        ctx.wf(),
        ctx.tree.has(n),
    ensures
        r.deep_view() == assignment_type(
            facts.deep_view(),
            view_of(*ctx),
            n,
            target.deep_view(),
            depth as nat,
        ),
    decreases depth, 3int, ctx.tree.nodes@.len() - n, 1int,
{
    let left: NodeId = match field_child(ctx, n, "left") {
        Some(k) => k,
        None => {
            return Typing::Unknown;
        },
    };
    match resolve_ast_node_type(ctx, left, facts, target, depth) {
        Typing::Unknown => match field_child(ctx, n, "right") {
            Some(right) => resolve_ast_node_type(ctx, right, facts, target, depth),
            None => Typing::Unknown,
        },
        found => found,
    }
}

fn resolve_ternary_expression_type(
    ctx: &JavaContextExtractor,
    n: NodeId,
    facts: &TypeFacts,
    target: &Expected,
    depth: usize,
) -> (r: Typing)
    requires
        ctx.wf(),
        ctx.tree.has(n),
    ensures
        r.deep_view() == ternary_type(
            facts.deep_view(),
            view_of(*ctx),
            n,
            target.deep_view(),
            depth as nat,
        ),
    decreases depth, 3int, ctx.tree.nodes@.len() - n, 1int,
{
    match (
        field_or_child(ctx, n, "consequence", 1),
        field_or_child(ctx, n, "alternative", 2),
    ) {
        (Some(yes), Some(no)) => match resolve_ast_node_type(ctx, yes, facts, target, depth) {
            Typing::Known(left) => match resolve_ast_node_type(ctx, no, facts, target, depth) {
                Typing::Known(right) => make_typing(choice_result_type(left, right)),
                other => other,
            },
            other => other,
        },
        _ => Typing::Unknown,
    }
}

fn resolve_unary_expression_type(
    ctx: &JavaContextExtractor,
    n: NodeId,
    facts: &TypeFacts,
    target: &Expected,
    depth: usize,
) -> (r: Typing)
    requires
        ctx.wf(),
        ctx.tree.has(n),
    ensures
        r.deep_view() == unary_node_type(
            facts.deep_view(),
            view_of(*ctx),
            n,
            target.deep_view(),
            depth as nat,
        ),
    decreases depth, 3int, ctx.tree.nodes@.len() - n, 1int,
{
    let op = match unary_operator(ctx, n) {
        Some(op) => op,
        None => {
            return Typing::Unknown;
        },
    };
    match field_or_child(ctx, n, "operand", 0) {
        None => Typing::Unknown,
        Some(operand) => match resolve_ast_node_type(ctx, operand, facts, target, depth) {
            Typing::Known(t) => make_typing(unary_result_type(op.as_str(), &t)),
            other => other,
        },
    }
}

fn resolve_binary_expression_type(
    ctx: &JavaContextExtractor,
    n: NodeId,
    facts: &TypeFacts,
    target: &Expected,
    depth: usize,
) -> (r: Typing)
    requires
        ctx.wf(),
        ctx.tree.has(n),
    ensures
        r.deep_view() == binary_node_type(
            facts.deep_view(),
            view_of(*ctx),
            n,
            target.deep_view(),
            depth as nat,
        ),
    decreases depth, 3int, ctx.tree.nodes@.len() - n, 1int,
{
    let op = match binary_operator(ctx, n) {
        Some(op) => op,
        None => {
            return Typing::Unknown;
        },
    };
    match (field_child(ctx, n, "left"), field_child(ctx, n, "right")) {
        (Some(left), Some(right)) => match resolve_ast_node_type(ctx, left, facts, target, depth) {
            Typing::Known(l) => match resolve_ast_node_type(ctx, right, facts, target, depth) {
                Typing::Known(r) => make_typing(binary_result_type(op.as_str(), &l, &r)),
                other => other,
            },
            other => other,
        },
        _ => Typing::Unknown,
    }
}

fn resolve_argument_types(texts: &Vec<String>, facts: &TypeFacts, depth: usize) -> (r: Option<
    Vec<TypeName>,
>)
    ensures
        r.deep_view() == argument_types(facts.deep_view(), texts.deep_view(), 0, depth as nat),
    decreases depth, 0int, texts@.len(), 1int,
{
    let ghost known = facts.deep_view();
    let ghost all = texts.deep_view();
    let target = Expected::nothing();
    let mut out: Vec<TypeName> = Vec::new();
    let mut j: usize = 0;
    assert(out.deep_view() =~= Seq::<TypeView>::empty());
    while j < texts.len()
        invariant
            j <= texts.len(),
            known == facts.deep_view(),
            all == texts.deep_view(),
            target.deep_view() == no_target(),
            argument_types(known, all, 0, depth as nat) == match argument_types(
                known,
                all,
                j as int,
                depth as nat,
            ) {
                Some(rest) => Some(out.deep_view() + rest),
                None => None,
            },
        decreases texts.len() - j,
    {
        let ghost done = out.deep_view();
        assert(all[j as int] == texts@[j as int]@);
        if depth == 0 {
            return None;
        }
        let text = to_chars(texts[j].as_str());
        let t = match resolve_expression_type_with_target(
            trimmed(text.as_slice()),
            facts,
            &target,
            depth - 1,
        ) {
            Typing::Known(t) => t,
            Typing::Unknown => TypeName::new("unknown"),
            Typing::TooDeep => {
                return None;
            },
        };
        let ghost v = t.deep_view();
        out.push(t);
        assert(out.deep_view() =~= done.push(v));
        proof {
            if let Some(rest) = argument_types(known, all, j + 1, depth as nat) {
                assert(done + (seq![v] + rest) =~= done.push(v) + rest);
            }
        }
        j += 1;
    }
    assert(out.deep_view() + Seq::<TypeView>::empty() =~= out.deep_view());
    Some(out)
}

fn resolve_step(step: &ChainSegment, recv: Option<&TypeName>, facts: &TypeFacts, depth: usize) -> (r:
    Typing)
    ensures
        r.deep_view() == step_type(
            facts.deep_view(),
            step.deep_view(),
            recv.deep_view(),
            depth as nat,
        ),
    decreases depth, 0int, step.arg_texts@.len() + 1, 1int,
{
    let text = to_chars(step.name.as_str());
    let base = to_text(name_of_step(text.as_slice()));
    let name = base.as_str();
    match recv {
        None => match step.arg_count {
            None => make_typing(resolve_head(name, facts)),
            Some(arg_count) => match &facts.enclosing {
                None => Typing::Unknown,
                Some(enclosing) => match resolve_argument_types(&step.arg_texts, facts, depth) {
                    None => Typing::TooDeep,
                    Some(arg_types) => {
                        let receiver = TypeName::new(enclosing.as_str());
                        if let Some(t) = find_result(
                            &facts.calls,
                            &receiver,
                            name,
                            arg_count,
                            &arg_types,
                            &step.arg_texts,
                        ) {
                            return Typing::Known(t);
                        }
                        make_typing(
                            find_result(
                                &facts.own_calls,
                                &receiver,
                                name,
                                arg_count,
                                &arg_types,
                                &step.arg_texts,
                            ),
                        )
                    },
                },
            },
        },
        Some(recv) => {
            let chars = to_chars(name);
            if chars.len() == 0 {
                return Typing::Known(recv.duplicate());
            }
            match resolve_receiver(recv, facts) {
                None => Typing::Unknown,
                Some(receiver) => match step.arg_count {
                    None => make_typing(resolve_field(receiver.erased_internal(), name, facts)),
                    Some(arg_count) => match resolve_argument_types(&step.arg_texts, facts, depth) {
                        None => Typing::TooDeep,
                        Some(arg_types) => make_typing(
                            find_result(
                                &facts.calls,
                                &receiver,
                                name,
                                arg_count,
                                &arg_types,
                                &step.arg_texts,
                            ),
                        ),
                    },
                },
            }
        },
    }
}

fn take_arrays_off(t: TypeName, dims: usize) -> (r: Option<TypeName>)
    ensures
        r.deep_view() == t.deep_view().element_at(dims as nat),
{
    if t.array_dims < dims {
        None
    } else {
        let left: usize = t.array_dims - dims;
        Some(t.with_array_dims(left))
    }
}

/// The type of a chain of accesses.
pub fn evaluate_chain(chain: &Vec<ChainSegment>, facts: &TypeFacts, depth: usize) -> (r: Typing)
    ensures
        r.deep_view() == chain_type(
            facts.deep_view(),
            chain.deep_view(),
            0,
            None,
            depth as nat,
        ),
    decreases depth, 1int, 0int, 0int,
{
    let ghost known = facts.deep_view();
    let ghost all = chain.deep_view();
    let mut current: Option<TypeName> = None;
    let mut i: usize = 0;
    while i < chain.len()
        invariant
            i <= chain.len(),
            known == facts.deep_view(),
            all == chain.deep_view(),
            chain_type(known, all, 0, None, depth as nat) == chain_type(
                known,
                all,
                i as int,
                current.deep_view(),
                depth as nat,
            ),
        decreases chain.len() - i,
    {
        let step: &ChainSegment = &chain[i];
        assert(all[i as int] == step.deep_view());
        let text = to_chars(step.name.as_str());
        let dims: usize = count_char(text.as_slice(), '[');
        match resolve_step(step, current.as_ref(), facts, depth) {
            Typing::Known(t) => match take_arrays_off(t, dims) {
                Some(e) => {
                    current = Some(e);
                },
                None => {
                    return Typing::Unknown;
                },
            },
            other => {
                return other;
            },
        }
        i += 1;
    }
    make_typing(current)
}

// ---- following expressions further -------------------------------------------------------------

/// Once an expression has been followed to its end, following it further gives the same type.
pub proof fn lemma_typed_settles(
    facts: FactsView,
    expr: Seq<char>,
    target: ExpectedView,
    depth: nat,
)
    requires
        typed(facts, expr, target, depth) !is TooDeep,
    ensures
        typed(facts, expr, target, depth + 1) == typed(facts, expr, target, depth),
    decreases depth, 4int, 0int, 0int,
{
    let e = trim(expr);
    if e.len() > 0 {
        let src = parsed_view(wrapped(e));
        if let Some(n) = expression_node(src) {
            if src.has(n) {
                lemma_node_settles(facts, src, n, target, depth);
            }
        }
        if is_array_access(e) {
            lemma_element_settles(facts, e, depth);
        } else {
            lemma_chained_settles(facts, e, e, depth);
        }
    }
}

proof fn lemma_element_settles(facts: FactsView, expr: Seq<char>, depth: nat)
    ensures
        element_type(facts, expr, depth) !is TooDeep ==> element_type(facts, expr, depth + 1)
            == element_type(facts, expr, depth),
    decreases depth, 2int, 0int, 0int,
{
    if let Some(bracket) = last_index_of(expr, '[') {
        let array = trim(expr.take(bracket));
        if depth > 0 && typed(facts, array, no_target(), (depth - 1) as nat) !is TooDeep {
            lemma_typed_settles(facts, array, no_target(), (depth - 1) as nat);
        }
    }
}

proof fn lemma_chained_settles(facts: FactsView, key: Seq<char>, name: Seq<char>, depth: nat)
    ensures
        chained(facts, key, name, depth) !is TooDeep ==> chained(facts, key, name, depth + 1)
            == chained(facts, key, name, depth),
    decreases depth, 2int, 0int, 0int,
{
    if let Some(chain) = at_key(facts.chains, key) {
        lemma_chain_settles(facts, chain, 0, None, depth);
    }
}

proof fn lemma_init_settles(facts: FactsView, expr: Seq<char>, depth: nat)
    ensures
        init_type(facts, expr, depth) !is TooDeep ==> init_type(facts, expr, depth + 1)
            == init_type(facts, expr, depth),
    decreases depth, 2int, 0int, 0int,
{
    if strip_prefix(trim(expr), "new "@) is None && depth > 0 {
        if typed(facts, trim(expr), no_target(), (depth - 1) as nat) !is TooDeep {
            lemma_typed_settles(facts, trim(expr), no_target(), (depth - 1) as nat);
        }
    }
}

proof fn lemma_part_settles(
    facts: FactsView,
    src: SourceView,
    n: NodeId,
    part: Option<NodeId>,
    target: ExpectedView,
    depth: nat,
)
    ensures
        part_type(facts, src, n, part, target, depth) !is TooDeep ==> part_type(
            facts,
            src,
            n,
            part,
            target,
            depth + 1,
        ) == part_type(facts, src, n, part, target, depth),
    decreases depth, 3int, src.nodes.len() - n, 0int,
{
    if let Some(k) = part {
        if n < k && src.has(k) {
            lemma_node_settles(facts, src, k, target, depth);
        }
    }
}

proof fn lemma_node_settles(
    facts: FactsView,
    src: SourceView,
    n: NodeId,
    target: ExpectedView,
    depth: nat,
)
    ensures
        node_type(facts, src, n, target, depth) !is TooDeep ==> node_type(
            facts,
            src,
            n,
            target,
            depth + 1,
        ) == node_type(facts, src, n, target, depth),
    decreases depth, 3int, src.nodes.len() - n, 2int,
{
    lemma_part_settles(facts, src, n, src.field_or_kid(n, "expression"@, 0), target, depth);
    lemma_part_settles(facts, src, n, src.field(n, "left"@), target, depth);
    lemma_part_settles(facts, src, n, src.field(n, "right"@), target, depth);
    lemma_part_settles(facts, src, n, src.field_or_kid(n, "consequence"@, 1), target, depth);
    lemma_part_settles(facts, src, n, src.field_or_kid(n, "alternative"@, 2), target, depth);
    lemma_part_settles(facts, src, n, src.field_or_kid(n, "operand"@, 0), target, depth);
    lemma_chained_settles(facts, trim(src.text(n)), src.text(n), depth);
    lemma_init_settles(facts, src.text(n), depth);
}

proof fn lemma_arguments_settle(facts: FactsView, texts: Seq<Seq<char>>, j: int, depth: nat)
    ensures
        argument_types(facts, texts, j, depth) is Some ==> argument_types(
            facts,
            texts,
            j,
            depth + 1,
        ) == argument_types(facts, texts, j, depth),
    decreases depth, 0int, texts.len() - j, 0int,
{
    if 0 <= j < texts.len() && depth > 0 {
        if typed(facts, trim(texts[j]), no_target(), (depth - 1) as nat) !is TooDeep {
            lemma_typed_settles(facts, trim(texts[j]), no_target(), (depth - 1) as nat);
        }
        lemma_arguments_settle(facts, texts, j + 1, depth);
    }
}

proof fn lemma_step_settles(
    facts: FactsView,
    step: SegmentView,
    recv: Option<TypeView>,
    depth: nat,
)
    ensures
        step_type(facts, step, recv, depth) !is TooDeep ==> step_type(facts, step, recv, depth + 1)
            == step_type(facts, step, recv, depth),
    decreases depth, 0int, step.arg_texts.len() + 1, 0int,
{
    lemma_arguments_settle(facts, step.arg_texts, 0, depth);
}

proof fn lemma_chain_settles(
    facts: FactsView,
    chain: Seq<SegmentView>,
    i: int,
    recv: Option<TypeView>,
    depth: nat,
)
    ensures
        chain_type(facts, chain, i, recv, depth) !is TooDeep ==> chain_type(
            facts,
            chain,
            i,
            recv,
            depth + 1,
        ) == chain_type(facts, chain, i, recv, depth),
    decreases depth, 1int, chain.len() - i, 0int,
{
    if 0 <= i < chain.len() {
        lemma_step_settles(facts, chain[i], recv, depth);
        if let TypingView::Known(t) = step_type(facts, chain[i], recv, depth) {
            if let Some(e) = t.element_at(count_from(chain[i].name, '[', 0)) {
                lemma_chain_settles(facts, chain, i + 1, Some(e), depth);
            }
        }
    }
}

/// A lambda has no type of its own: where nothing is expected of it, its type is not known.
pub proof fn lemma_lambda_needs_target(
    facts: FactsView,
    src: SourceView,
    n: NodeId,
    target: ExpectedView,
    depth: nat,
)
    requires
        src.kind(n) == "lambda_expression"@,
        target.interface is None || target.arity is None,
    ensures
        node_type(facts, src, n, target, depth) == TypingView::Unknown,
{
    reveal_strlit("lambda_expression");
    reveal_strlit("parenthesized_expression");
    reveal_strlit("identifier");
    reveal_strlit("decimal_integer_literal");
    reveal_strlit("hex_integer_literal");
    reveal_strlit("octal_integer_literal");
    reveal_strlit("binary_integer_literal");
    reveal_strlit("decimal_floating_point_literal");
    reveal_strlit("hex_floating_point_literal");
    reveal_strlit("boolean_literal");
    reveal_strlit("character_literal");
    reveal_strlit("null_literal");
    reveal_strlit("string_literal");
    reveal_strlit("text_block");
    reveal_strlit("cast_expression");
    reveal_strlit("assignment_expression");
    reveal_strlit("ternary_expression");
    reveal_strlit("unary_expression");
    reveal_strlit("method_invocation");
    reveal_strlit("field_access");
    reveal_strlit("object_creation_expression");
    reveal_strlit("explicit_constructor_invocation");
    let kind = src.kind(n);
    assert(kind.len() == 17 && kind[0] == 'l');
    assert("character_literal"@[0] == 'c' && "method_invocation"@[0] == 'm');
}

} // verus!
