//! Which local variables are found, and with which types.
use vstd::prelude::*;

use crate::extractor::JavaContextExtractor;
use crate::syntax::laws::lemma_first_kind_from;
use crate::syntax::{NodeId, SyntaxTree};
use crate::text::laws::{lemma_find_from, lemma_trim, lemma_trim_keeps};
use crate::text::{find, is_white, starts_with, trim, trim_start};
use crate::type_facts::{FactsView, LocalVarDeclKind};
use crate::type_names::TypeView;

use super::declared::{
    declared_text, declared_type, initializer_text, is_plausible, last_word_start, param_type,
    recovered_type, seen_param_type, without_modifiers, word_end,
};
use super::lambdas::{entries_from, lambda_params, lambda_vars, own_params, params_around};
use super::ranking::{lemma_nearest_is_visible, visible, RankedView};
use super::scopes::{
    cursor_method, lambda_scope, local_scope, method_from, or_up_to, scope_owner, ScopeRange,
};
use super::{
    broken_locals, found_locals, is_misread_call, local_at, locals_among, locals_of, method_params,
    misread_among, param_at, params_from,
};

pub mod broken;

verus! {

/// No two of these kinds of nodes are named alike.
pub proof fn lemma_scope_kinds_differ()
    ensures
        "block"@.len() == 5,
        "for_statement"@.len() == 13,
        "enhanced_for_statement"@.len() == 22,
        "catch_clause"@.len() == 12,
        "switch_block_statement_group"@.len() == 28,
        "switch_rule"@.len() == 11,
        "method_declaration"@.len() == 18,
        "constructor_declaration"@.len() == 23,
        "lambda_expression"@.len() == 17,
        "static_initializer"@.len() == 18,
        "instance_initializer"@.len() == 20,
        "local_variable_declaration"@.len() == 26,
        "variable_declarator"@.len() == 19,
        "expression_statement"@.len() == 20,
        "identifier"@.len() == 10,
        "inferred_parameters"@.len() == 19,
        "formal_parameters"@.len() == 17,
        "formal_parameter"@.len() == 16,
        "spread_parameter"@.len() == 16,
        "ERROR"@.len() == 5,
        "program"@.len() == 7,
        "assignment_expression"@.len() == 21,
        "block"@ != "ERROR"@,
        "method_declaration"@ != "static_initializer"@,
        "lambda_expression"@ != "formal_parameters"@,
        "instance_initializer"@ != "expression_statement"@,
        "variable_declarator"@ != "inferred_parameters"@,
        "formal_parameter"@ != "spread_parameter"@,
{
    reveal_strlit("block");
    reveal_strlit("for_statement");
    reveal_strlit("enhanced_for_statement");
    reveal_strlit("catch_clause");
    reveal_strlit("switch_block_statement_group");
    reveal_strlit("switch_rule");
    reveal_strlit("method_declaration");
    reveal_strlit("constructor_declaration");
    reveal_strlit("lambda_expression");
    reveal_strlit("static_initializer");
    reveal_strlit("instance_initializer");
    reveal_strlit("local_variable_declaration");
    reveal_strlit("variable_declarator");
    reveal_strlit("expression_statement");
    reveal_strlit("identifier");
    reveal_strlit("inferred_parameters");
    reveal_strlit("formal_parameters");
    reveal_strlit("formal_parameter");
    reveal_strlit("spread_parameter");
    reveal_strlit("ERROR");
    reveal_strlit("program");
    reveal_strlit("assignment_expression");
    assert("block"@[0] == 'b');
    assert("ERROR"@[0] == 'E');
    assert("method_declaration"@[0] == 'm');
    assert("static_initializer"@[0] == 's');
    assert("lambda_expression"@[0] == 'l');
    assert("formal_parameters"@[0] == 'f');
    assert("instance_initializer"@[0] == 'i');
    assert("expression_statement"@[0] == 'e');
    assert("variable_declarator"@[0] == 'v');
    assert("inferred_parameters"@[0] == 'i');
    assert("formal_parameter"@[0] == 'f');
    assert("spread_parameter"@[0] == 's');
}

proof fn lemma_joined<A>(a: Seq<A>, b: Seq<A>, x: A)
    ensures
        (a + b).contains(x) <==> a.contains(x) || b.contains(x),
{
    if a.contains(x) {
        let i = choose|i: int| 0 <= i < a.len() && a[i] == x;
        assert((a + b)[i] == x);
    }
    if b.contains(x) {
        let i = choose|i: int| 0 <= i < b.len() && b[i] == x;
        assert((a + b)[a.len() + i] == x);
    }
    if (a + b).contains(x) {
        let i = choose|i: int| 0 <= i < (a + b).len() && (a + b)[i] == x;
        if i < a.len() {
            assert(a[i] == x);
        } else {
            assert(b[i - a.len()] == x);
        }
    }
}

// ---- types as they are written -----------------------------------------------------------------

/// A text with nothing in it that no type has: no semicolon, no `=`, no braces, no comment.
pub open spec fn is_type_text(s: Seq<char>) -> bool {
    &&& s.len() > 0
    &&& forall|i: int|
        0 <= i < s.len() ==> s[i] != ';' && s[i] != '=' && s[i] != '{' && s[i] != '}'
    &&& forall|i: int|
        0 <= i < s.len() - 1 && s[i] == '/' ==> #[trigger] s[i + 1] != '/' && s[i + 1] != '*'
}

proof fn lemma_no_pair(s: Seq<char>, a: char, b: char, pat: Seq<char>)
    requires
        pat == seq![a, b],
        forall|i: int| 0 <= i < s.len() - 1 && s[i] == a ==> #[trigger] s[i + 1] != b,
    ensures
        find(s, pat) is None,
{
    lemma_find_from(s, pat, 0);
    if let Some(k) = find(s, pat) {
        assert(s.subrange(k, k + 2)[0] == s[k]);
        assert(s.subrange(k, k + 2)[1] == s[k + 1]);
    }
}

proof fn lemma_pair_found(s: Seq<char>, i: int, pat: Seq<char>)
    requires
        0 <= i < s.len() - 1,
        pat == seq![s[i], s[i + 1]],
    ensures
        find(s, pat) is Some,
{
    lemma_find_from(s, pat, 0);
    assert(s.subrange(i, i + pat.len()) =~= pat);
}

/// A text can be that of a type exactly where nothing stands in it that no type has: arrays, type
/// arguments, paths and annotations are all allowed.
pub proof fn lemma_plausible(raw: Seq<char>)
    ensures
        is_plausible(raw) <==> is_type_text(trim(raw)),
{
    let s = trim(raw);
    reveal_strlit("//");
    reveal_strlit("/*");
    assert("//"@ =~= seq!['/', '/']);
    assert("/*"@ =~= seq!['/', '*']);
    if is_type_text(s) {
        lemma_no_pair(s, '/', '/', "//"@);
        lemma_no_pair(s, '/', '*', "/*"@);
    }
    if is_plausible(raw) {
        assert forall|i: int| 0 <= i < s.len() implies s[i] != ';' && s[i] != '=' && s[i] != '{'
            && s[i] != '}' by {
            assert(s.contains(s[i]));
        }
        assert forall|i: int| 0 <= i < s.len() - 1 && s[i] == '/' implies #[trigger] s[i + 1] != '/'
            && s[i + 1] != '*' by {
            if s[i + 1] == '/' {
                lemma_pair_found(s, i, "//"@);
            }
            if s[i + 1] == '*' {
                lemma_pair_found(s, i, "/*"@);
            }
        }
    }
}

/// A variable is declared with the text of its type as it is written, brackets and all; and
/// whatever text is taken for the type holds nothing that no type has.
pub proof fn lemma_types_as_written(ctx: JavaContextExtractor, decl: NodeId, ty: NodeId)
    ensures
        is_type_text(trim(ctx.text_of(ty))) ==> declared_text(ctx, decl, ty) == Some(
            trim(ctx.text_of(ty)),
        ),
        declared_text(ctx, decl, ty) matches Some(text) ==> is_type_text(text),
{
    let raw = trim(ctx.text_of(ty));
    let b = lemma_trim(ctx.text_of(ty));
    lemma_trim_keeps(raw);
    lemma_plausible(raw);
    if let Some(text) = recovered_type(ctx, decl) {
        let d = ctx.tree.field_of(decl, "declarator"@)->0;
        let n = super::declared::last_type_before(ctx, decl, ctx.tree.start_of(d), None)->0;
        let c = lemma_trim(ctx.text_of(n));
        lemma_trim_keeps(text);
        lemma_plausible(text);
    }
}

/// A text with a slash in place of each dot.
pub open spec fn is_path_of(path: Seq<char>, text: Seq<char>) -> bool {
    &&& path.len() == text.len()
    &&& forall|i: int|
        0 <= i < text.len() ==> #[trigger] path[i] == if text[i] == '.' {
            '/'
        } else {
            text[i]
        }
}

/// Where nothing is known, the type is the text with slashes for its dots; what is known of the
/// text is the type, unless it would lose the type arguments of the text.
pub proof fn lemma_declared_types(text: Seq<char>, f: FactsView)
    ensures
        ({
            let t = declared_type(text, None);
            is_path_of(t.base, text) && t.args.len() == 0 && t.array_dims == 0
        }),
        !f.relaxed_types.contains_key(trim(text)) ==> declared_type(text, Some(f))
            == declared_type(text, None),
        f.relaxed_types.contains_key(trim(text)) && !text.contains('<') ==> declared_type(
            text,
            Some(f),
        ) == f.relaxed_types[trim(text)],
        f.relaxed_types.contains_key(trim(text)) && text.contains('<') ==> declared_type(
            text,
            Some(f),
        ) == if f.relaxed_types[trim(text)].args.len() == 0 {
            declared_type(text, None)
        } else {
            f.relaxed_types[trim(text)]
        },
{
}

// ---- declarations ------------------------------------------------------------------------------

/// The child at place `i` of a declaration declares a variable with the name `id` and the type
/// `ty`, and the cursor is behind their beginnings and in their scope.
pub open spec fn declares(
    ctx: JavaContextExtractor,
    decl: NodeId,
    i: int,
    id: NodeId,
    ty: NodeId,
) -> bool {
    let t = ctx.tree;
    let d = t.kids(decl)[i];
    &&& t.kind_of(decl) == "local_variable_declaration"@
    &&& 0 <= i < t.kids(decl).len()
    &&& t.kind_of(d) == "variable_declarator"@
    &&& t.node(d).field matches Some(f) && f@ == "declarator"@
    &&& t.field_of(d, "name"@) == Some(id)
    &&& t.kind_of(id) == "identifier"@
    &&& t.field_of(decl, "type"@) == Some(ty)
    &&& t.start_of(ty) < ctx.offset
    &&& t.start_of(id) < ctx.offset
    &&& t.start_of(d) < ctx.offset
    &&& t.start_of(decl) < ctx.offset
    &&& local_scope(t, decl) matches Some(scope) && scope.start <= ctx.offset < scope.end
}

/// Nothing makes the declaration look like a call: no arguments in it, no bracket behind it.
pub open spec fn is_no_call(ctx: JavaContextExtractor, decl: NodeId, d: NodeId) -> bool {
    let t = ctx.tree;
    &&& forall|q: int|
        0 <= q < t.kids(d).len() ==> t.kind_of(#[trigger] t.kids(d)[q]) != "argument_list"@
    &&& t.next_of(decl) matches Some(next) ==> {
        let s = trim_start(ctx.text_of(next));
        s.len() == 0 || s[0] != '('
    }
}

/// A variable with a name, a type and the place where it is declared.
pub open spec fn is_variable(
    v: RankedView,
    name: Seq<char>,
    t: TypeView,
    init: Option<Seq<char>>,
    start: usize,
) -> bool {
    &&& v.local.name == name
    &&& v.local.type_internal == t
    &&& v.local.init_expr == init
    &&& v.declaration_start == start
}

proof fn lemma_local_at(
    ctx: JavaContextExtractor,
    decl: NodeId,
    i: int,
    id: NodeId,
    ty: NodeId,
    facts: Option<FactsView>,
    strict: bool,
)
    requires
        declares(ctx, decl, i, id, ty),
        is_no_call(ctx, decl, ctx.tree.kids(decl)[i]),
        is_type_text(trim(ctx.text_of(ty))),
    ensures
        ({
            let text = trim(ctx.text_of(ty));
            local_at(ctx, decl, ctx.tree.kids(decl)[i], facts, strict) matches Some(v)
                && is_variable(
                v,
                ctx.text_of(id),
                if text == "var"@ {
                    TypeView { base: "var"@, args: Seq::empty(), array_dims: 0 }
                } else {
                    declared_type(text, facts)
                },
                if text == "var"@ {
                    initializer_text(ctx, ty)
                } else {
                    None
                },
                ctx.tree.node(id).start,
            )
        }),
{
    let t = ctx.tree;
    let d = t.kids(decl)[i];
    lemma_types_as_written(ctx, decl, ty);
    lemma_first_kind_from(t, t.kids(d), "argument_list"@, 0);
    if let Some(next) = t.next_of(decl) {
        let s = trim_start(ctx.text_of(next));
        reveal_strlit("(");
        assert("("@ =~= seq!['(']);
        if starts_with(s, "("@) {
            assert(s.take(1)[0] == s[0]);
        }
    }
    assert(!is_misread_call(ctx, d, decl));
}

proof fn lemma_locals_of_has(
    ctx: JavaContextExtractor,
    decl: NodeId,
    facts: Option<FactsView>,
    strict: bool,
    i: int,
    k: int,
    v: RankedView,
)
    requires
        0 <= i <= k < ctx.tree.kids(decl).len(),
        local_at(ctx, decl, ctx.tree.kids(decl)[k], facts, strict) == Some(v),
    ensures
        locals_of(ctx, decl, facts, strict, i).contains(v),
    decreases k - i,
{
    let rest = locals_of(ctx, decl, facts, strict, i + 1);
    if i < k {
        lemma_locals_of_has(ctx, decl, facts, strict, i + 1, k, v);
        if let Some(own) = local_at(ctx, decl, ctx.tree.kids(decl)[i], facts, strict) {
            lemma_joined(seq![own], rest, v);
        }
    } else {
        assert((seq![v] + rest)[0] == v);
    }
}

proof fn lemma_locals_among_has(
    ctx: JavaContextExtractor,
    nodes: Seq<NodeId>,
    facts: Option<FactsView>,
    strict: bool,
    i: int,
    k: int,
    v: RankedView,
)
    requires
        0 <= i <= k < nodes.len(),
        ctx.tree.kind_of(nodes[k]) == "local_variable_declaration"@,
        locals_of(ctx, nodes[k], facts, strict, 0).contains(v),
    ensures
        locals_among(ctx, nodes, facts, strict, i).contains(v),
    decreases k - i,
{
    let first = if ctx.tree.kind_of(nodes[i]) == "local_variable_declaration"@ {
        locals_of(ctx, nodes[i], facts, strict, 0)
    } else {
        Seq::empty()
    };
    lemma_joined(first, locals_among(ctx, nodes, facts, strict, i + 1), v);
    if i < k {
        lemma_locals_among_has(ctx, nodes, facts, strict, i + 1, k, v);
    }
}

/// Where variables are looked for: in the method around the cursor, else below the given root.
pub open spec fn search_root(
    ctx: JavaContextExtractor,
    root: NodeId,
    cursor_node: Option<NodeId>,
) -> NodeId {
    match cursor_method(ctx, cursor_node) {
        Some(m) => m,
        None => root,
    }
}

/// Every variable that is declared before the cursor, in a scope that the cursor is in, is found
/// with its name and with the type that is written before it.
pub proof fn lemma_declared_variables_are_found(
    ctx: JavaContextExtractor,
    root: NodeId,
    cursor_node: Option<NodeId>,
    facts: Option<FactsView>,
    decl: NodeId,
    i: int,
    id: NodeId,
    ty: NodeId,
) -> (v: RankedView)
    requires
        ctx.tree.under(search_root(ctx, root, cursor_node)).contains(decl),
        declares(ctx, decl, i, id, ty),
        is_no_call(ctx, decl, ctx.tree.kids(decl)[i]),
        is_type_text(trim(ctx.text_of(ty))),
    ensures
        found_locals(ctx, root, cursor_node, facts).contains(v),
        v.local.name == ctx.text_of(id),
        v.declaration_start == ctx.tree.node(id).start,
        trim(ctx.text_of(ty)) != "var"@ ==> v.local.type_internal == declared_type(
            trim(ctx.text_of(ty)),
            facts,
        ) && v.local.init_expr is None && v.local.decl_kind == LocalVarDeclKind::Explicit,
        trim(ctx.text_of(ty)) == "var"@ ==> v.local.type_internal.base == "var"@
            && v.local.init_expr == initializer_text(ctx, ty) && v.local.decl_kind
            == LocalVarDeclKind::VarSyntax,
{
    let nodes = ctx.tree.under(search_root(ctx, root, cursor_node));
    lemma_local_at(ctx, decl, i, id, ty, facts, true);
    lemma_types_as_written(ctx, decl, ty);
    let v = local_at(ctx, decl, ctx.tree.kids(decl)[i], facts, true)->0;
    let k = choose|k: int| 0 <= k < nodes.len() && nodes[k] == decl;
    lemma_locals_of_has(ctx, decl, facts, true, 0, i, v);
    lemma_locals_among_has(ctx, nodes, facts, true, 0, k, v);
    let a = locals_among(ctx, nodes, facts, true, 0);
    let b = misread_among(ctx, nodes, facts, 0);
    let c = broken_locals(ctx, nodes, facts, 0);
    let d = method_params(ctx, cursor_node, facts);
    lemma_joined(a, b, v);
    lemma_joined(a + b, c, v);
    lemma_joined(a + b + c, d, v);
    lemma_joined(a + b + c + d, lambda_vars(ctx, cursor_node, facts), v);
    v
}

/// The text of an initializer is that of the value of the first variable of the declaration.
pub proof fn lemma_initializers_as_written(
    ctx: JavaContextExtractor,
    ty: NodeId,
    decl: NodeId,
    k: int,
    value: NodeId,
)
    requires
        ctx.tree.parent_of(ty) == Some(decl),
        0 <= k < ctx.tree.kids(decl).len(),
        ctx.tree.kind_of(ctx.tree.kids(decl)[k]) == "variable_declarator"@,
        forall|q: int|
            0 <= q < k ==> ctx.tree.kind_of(#[trigger] ctx.tree.kids(decl)[q])
                != "variable_declarator"@,
        ctx.tree.field_of(ctx.tree.kids(decl)[k], "value"@) == Some(value),
    ensures
        initializer_text(ctx, ty) == Some(ctx.text_of(value)),
{
    let t = ctx.tree;
    lemma_first_kind_from(t, t.kids(decl), "variable_declarator"@, 0);
    let d = t.first_kind(t.kids(decl), "variable_declarator"@)->0;
    let p = choose|p: int|
        0 <= p < t.kids(decl).len() && #[trigger] t.kids(decl)[p] == d && t.kind_of(
            t.kids(decl)[p],
        ) == "variable_declarator"@ && forall|q: int|
            0 <= q < p ==> t.kind_of(#[trigger] t.kids(decl)[q]) != "variable_declarator"@;
    if p < k {
        assert(t.kind_of(t.kids(decl)[p]) != "variable_declarator"@);
    } else if k < p {
        assert(t.kind_of(t.kids(decl)[k]) != "variable_declarator"@);
    }
}

/// A variable that is found, and of which every other of its name is declared further ahead, is
/// seen.
pub proof fn lemma_latest_is_seen(vars: Seq<RankedView>, k: int)
    requires
        0 <= k < vars.len(),
        forall|l: int|
            0 <= l < vars.len() && l != k && (#[trigger] vars[l]).local.name == vars[k].local.name
                ==> vars[l].declaration_start < vars[k].declaration_start,
    ensures
        visible(vars).contains(vars[k].local),
{
    lemma_nearest_is_visible(vars, k);
}

// ---- scopes ------------------------------------------------------------------------------------

/// A declaration in a block is seen in the block, one in the head of a loop in the loop, and one
/// that no scope is right around is seen where its parent would be.
pub proof fn lemma_scopes(t: SyntaxTree, decl: NodeId, p: NodeId)
    requires
        t.linked(),
        t.has(decl),
        t.kind_of(decl) == "local_variable_declaration"@ || t.kind_of(decl)
            == "variable_declarator"@,
        t.parent_of(decl) == Some(p),
    ensures
        ({
            let k = t.kind_of(p);
            let range = ScopeRange { start: t.node(p).start, end: t.node(p).end };
            &&& k == "block"@ || k == "for_statement"@ || k == "enhanced_for_statement"@ || k
                == "catch_clause"@ || k == "switch_block_statement_group"@ || k == "switch_rule"@
                || k == "static_initializer"@ || k == "instance_initializer"@ ==> local_scope(
                t,
                decl,
            ) == Some(range)
            &&& k == "local_variable_declaration"@ || k == "expression_statement"@ || k == "ERROR"@
                ==> local_scope(t, decl) == local_scope(t, p)
            &&& k == "method_declaration"@ || k == "constructor_declaration"@ || k
                == "lambda_expression"@ ==> (t.field_of(p, "body"@) matches Some(body)
                ==> local_scope(t, decl) == Some(
                ScopeRange { start: t.node(body).start, end: t.node(body).end },
            ))
        }),
{
    lemma_scope_kinds_differ();
    assert(t.nodes@[decl as int].placed(decl as int, t.nodes@.len() as int));
    reveal_with_fuel(scope_owner, 3);
}

/// The method around the cursor is the nearest one above its node.
pub proof fn lemma_cursor_method(ctx: JavaContextExtractor, n: NodeId, m: NodeId)
    requires
        ctx.tree.ancestor(n, "method_declaration"@) == Some(m),
    ensures
        cursor_method(ctx, Some(n)) == Some(m),
{
}

/// Without a node, the method around the cursor is the last one that begins before it and ends
/// behind it.
pub proof fn lemma_method_from(ctx: JavaContextExtractor, i: int)
    requires
        0 <= i,
        ctx.tree.nodes@.len() <= usize::MAX,
    ensures
        match method_from(ctx, i) {
            Some(m) => i <= m < ctx.tree.nodes@.len() && is_around(ctx, m) && forall|q: NodeId|
                m < q < ctx.tree.nodes@.len() ==> !#[trigger] is_around(ctx, q),
            None => forall|q: NodeId|
                i <= q < ctx.tree.nodes@.len() ==> !#[trigger] is_around(ctx, q),
        },
    decreases ctx.tree.nodes@.len() - i,
{
    if i < ctx.tree.nodes@.len() {
        lemma_method_from(ctx, i + 1);
        if method_from(ctx, i + 1) is None {
            assert forall|q: NodeId| i <= q < ctx.tree.nodes@.len() && q != i as usize implies
                !#[trigger] is_around(ctx, q) by {}
        }
    }
}

/// A method that holds the cursor.
pub open spec fn is_around(ctx: JavaContextExtractor, m: NodeId) -> bool {
    &&& ctx.tree.kind_of(m) == "method_declaration"@
    &&& ctx.tree.start_of(m) <= ctx.offset
    &&& ctx.tree.end_of(m) >= ctx.offset
}

// ---- parameters --------------------------------------------------------------------------------

/// A word: not empty, and without white space.
pub open spec fn is_one_word(s: Seq<char>) -> bool {
    s.len() > 0 && forall|i: int| 0 <= i < s.len() ==> !is_white(#[trigger] s[i])
}

proof fn lemma_last_word(s: Seq<char>, j: int, at: int)
    requires
        0 < at <= j <= s.len(),
        is_white(s[at - 1]),
        forall|i: int| at <= i < j ==> !is_white(#[trigger] s[i]),
    ensures
        last_word_start(s, j) == at,
    decreases j - at,
{
    if j > at {
        lemma_last_word(s, j - 1, at);
    }
}

proof fn lemma_word_end(s: Seq<char>, i: int, e: int)
    requires
        0 <= i <= e <= s.len(),
        forall|k: int| i <= k < e ==> !is_white(#[trigger] s[k]),
        e < s.len() ==> is_white(s[e]),
    ensures
        word_end(s, i) == e,
    decreases e - i,
{
    if i < e {
        lemma_word_end(s, i + 1, e);
    }
}

proof fn lemma_first_word(s: Seq<char>, i: int)
    requires
        0 <= i <= s.len(),
    ensures
        i <= word_end(s, i) <= s.len(),
        forall|k: int| i <= k < word_end(s, i) ==> !is_white(#[trigger] s[k]),
        word_end(s, i) < s.len() ==> is_white(s[word_end(s, i)]),
    decreases s.len() - i,
{
    if i < s.len() && !is_white(s[i]) {
        lemma_first_word(s, i + 1);
    }
}

/// A type with neither a modifier nor an annotation in front.
pub open spec fn is_bare_type(ty: Seq<char>) -> bool {
    &&& ty.len() > 0
    &&& !is_white(ty[0])
    &&& !is_white(ty.last())
    &&& ty[0] != '@'
    &&& !(ty.len() >= 5 && ty.take(5) == seq!['f', 'i', 'n', 'a', 'l'] && (ty.len() == 5
        || is_white(ty[5])))
}

proof fn lemma_bare_type_stays(ty: Seq<char>, fuel: nat)
    requires
        is_bare_type(ty),
    ensures
        without_modifiers(ty, fuel) == ty,
{
    let e = word_end(ty, 0);
    lemma_first_word(ty, 0);
    let word = ty.take(e);
    reveal_strlit("final");
    reveal_strlit("@");
    assert("final"@ =~= seq!['f', 'i', 'n', 'a', 'l']);
    if word == "final"@ {
        assert(word.len() == 5);
        assert(ty.take(5) =~= word);
    }
    if starts_with(word, "@"@) {
        assert("@"@[0] == '@');
        assert(word.take(1)[0] == word[0]);
        assert(word[0] == ty[0]);
    }
}

/// The type of a parameter is what stands before its name.
pub proof fn lemma_parameter_types(ty: Seq<char>, name: Seq<char>)
    requires
        is_bare_type(ty),
        is_one_word(name),
    ensures
        param_type(ty + seq![' '] + name) == ty,
{
    let s = ty + seq![' '] + name;
    assert(s[0] == ty[0] && s.last() == name.last());
    lemma_trim_keeps(s);
    let at = ty.len() + 1;
    assert(s[at - 1] == ' ');
    assert forall|i: int| at <= i < s.len() implies !is_white(#[trigger] s[i]) by {
        assert(s[i] == name[i - at]);
    }
    lemma_last_word(s, s.len() as int, at as int);
    let head = s.take(at as int);
    assert(head =~= ty + seq![' ']);
    lemma_trim_one_blank(ty);
    lemma_bare_type_stays(ty, ty.len());
}

proof fn lemma_trim_one_blank(ty: Seq<char>)
    requires
        ty.len() > 0,
        !is_white(ty[0]),
        !is_white(ty.last()),
    ensures
        trim(ty + seq![' ']) == ty,
{
    let s = ty + seq![' '];
    let b = lemma_trim(s);
    assert(s[0] == ty[0]);
    assert(s[ty.len() - 1] == ty.last());
    assert(s[ty.len() as int] == ' ');
    if b.0 > 0 {
        assert(is_white(s[0]));
    }
    if b.1 < ty.len() {
        assert(is_white(s[ty.len() - 1]));
    }
    if b.1 == ty.len() + 1 {
        assert(trim(s).last() == ' ');
    }
    assert(s.subrange(b.0, b.1) =~= ty);
}

/// `final` before a type does not change it.
pub proof fn lemma_final_does_not_matter(ty: Seq<char>, fuel: nat)
    requires
        is_bare_type(ty),
        fuel > 0,
    ensures
        without_modifiers(seq!['f', 'i', 'n', 'a', 'l', ' '] + ty, fuel) == ty,
{
    let s = seq!['f', 'i', 'n', 'a', 'l', ' '] + ty;
    reveal_strlit("final");
    assert("final"@ =~= seq!['f', 'i', 'n', 'a', 'l']);
    lemma_word_end(s, 0, 5);
    assert(s.take(5) =~= "final"@);
    let rest = s.skip(5);
    assert(rest =~= seq![' '] + ty);
    let b = lemma_trim(rest);
    assert(rest[0] == ' ' && rest[1] == ty[0] && rest.last() == ty.last());
    if b.0 == 0 {
        if b.1 > 0 {
            assert(trim(rest)[0] == ' ');
        } else {
            assert(is_white(rest[1]));
        }
    }
    if b.0 > 1 {
        assert(is_white(rest[1]));
    }
    if b.1 < rest.len() {
        assert(is_white(rest[rest.len() - 1]));
    }
    assert(rest.subrange(b.0, b.1) =~= ty);
    lemma_bare_type_stays(ty, (fuel - 1) as nat);
}

/// A parameter that takes any number of values is an array of them; any other has the type that is
/// written.
pub proof fn lemma_spread_types(ty: Seq<char>, raw: Seq<char>)
    requires
        ty.len() > 0,
        !is_white(ty[0]),
        !is_white(ty.last()),
        raw.len() < 3 || raw.skip(raw.len() - 3) != seq!['.', '.', '.'],
    ensures
        seen_param_type(ty + seq!['.', '.', '.'], true) == ty + seq!['[', ']'],
        seen_param_type(ty + seq!['.', '.', '.'], false) == ty + seq!['[', ']'],
        seen_param_type(raw, false) == raw,
{
    let s = ty + seq!['.', '.', '.'];
    reveal_strlit("...");
    reveal_strlit("[]");
    assert("..."@ =~= seq!['.', '.', '.']);
    assert("[]"@ =~= seq!['[', ']']);
    assert(s.skip(s.len() - 3) =~= "..."@);
    assert(s.take(s.len() - 3) =~= ty);
    lemma_trim_keeps(ty);
}

proof fn lemma_params_from_has(
    ctx: JavaContextExtractor,
    method: NodeId,
    ids: Seq<NodeId>,
    facts: Option<FactsView>,
    i: int,
    k: int,
    v: RankedView,
)
    requires
        0 <= i <= k < ids.len(),
        param_at(ctx, method, ids[k], facts) == Some(v),
    ensures
        params_from(ctx, method, ids, facts, i).contains(v),
    decreases k - i,
{
    let rest = params_from(ctx, method, ids, facts, i + 1);
    if i < k {
        lemma_params_from_has(ctx, method, ids, facts, i + 1, k, v);
        if let Some(own) = param_at(ctx, method, ids[i], facts) {
            lemma_joined(seq![own], rest, v);
        }
    } else {
        assert((seq![v] + rest)[0] == v);
    }
}

/// Every parameter of the method around the cursor is found, with its name and the type that is
/// written before it.
pub proof fn lemma_parameters_are_found(
    ctx: JavaContextExtractor,
    root: NodeId,
    cursor_node: Option<NodeId>,
    facts: Option<FactsView>,
    method: NodeId,
    params: NodeId,
    k: int,
    id: NodeId,
    ty: Seq<char>,
    name: Seq<char>,
) -> (v: RankedView)
    requires
        cursor_method(ctx, cursor_node) == Some(method),
        ctx.tree.field_of(method, "parameters"@) == Some(params),
        0 <= k < ctx.tree.kids(params).len(),
        ctx.tree.kind_of(ctx.tree.kids(params)[k]) == "formal_parameter"@,
        ctx.tree.field_of(ctx.tree.kids(params)[k], "name"@) == Some(id),
        ctx.text_of(id) == name,
        ctx.text_of(ctx.tree.kids(params)[k]) == ty + seq![' '] + name,
        is_bare_type(ty),
        ty.len() < 3 || ty.skip(ty.len() - 3) != seq!['.', '.', '.'],
        is_one_word(name),
    ensures
        found_locals(ctx, root, cursor_node, facts).contains(v),
        v.local.name == name,
        v.local.type_internal == declared_type(ty, facts),
        v.local.init_expr is None,
        v.declaration_start == ctx.tree.node(id).start,
{
    lemma_scope_kinds_differ();
    let ids = ctx.tree.kids(params);
    lemma_parameter_types(ty, name);
    lemma_trim_keeps(ty);
    lemma_spread_types(ty, ty);
    let v = param_at(ctx, method, ids[k], facts)->0;
    lemma_params_from_has(ctx, method, ids, facts, 0, k, v);
    let nodes = ctx.tree.under(search_root(ctx, root, cursor_node));
    let a = locals_among(ctx, nodes, facts, true, 0);
    let b = misread_among(ctx, nodes, facts, 0);
    let c = broken_locals(ctx, nodes, facts, 0);
    let d = method_params(ctx, cursor_node, facts);
    lemma_joined(a + b + c, d, v);
    lemma_joined(a + b + c + d, lambda_vars(ctx, cursor_node, facts), v);
    v
}

// ---- lambdas -----------------------------------------------------------------------------------

proof fn lemma_entries_have(
    ctx: JavaContextExtractor,
    ids: Seq<NodeId>,
    facts: Option<FactsView>,
    scope: ScopeRange,
    i: int,
    k: int,
) -> (v: RankedView)
    requires
        0 <= i <= k < ids.len(),
        ctx.tree.kind_of(ids[k]) == "identifier"@,
    ensures
        entries_from(ctx, ids, false, facts, scope, i).contains(v),
        v.local.name == ctx.text_of(ids[k]),
        v.local.type_internal == (TypeView {
            base: "unknown"@,
            args: Seq::empty(),
            array_dims: 0,
        }),
        v.declaration_start == ctx.tree.node(ids[k]).start,
        v.visibility_scope == scope,
    decreases k - i,
{
    let all = entries_from(ctx, ids, false, facts, scope, i);
    let rest = entries_from(ctx, ids, false, facts, scope, i + 1);
    if i < k {
        let v = lemma_entries_have(ctx, ids, facts, scope, i + 1, k);
        let first = all.take(all.len() - rest.len());
        assert(all =~= first + rest);
        lemma_joined(first, rest, v);
        v
    } else {
        assert(all.contains(all[0]));
        all[0]
    }
}

proof fn lemma_typed_entries_have(
    ctx: JavaContextExtractor,
    ids: Seq<NodeId>,
    facts: Option<FactsView>,
    scope: ScopeRange,
    i: int,
    k: int,
    id: NodeId,
    ty: NodeId,
) -> (v: RankedView)
    requires
        0 <= i <= k < ids.len(),
        ctx.tree.kind_of(ids[k]) == "formal_parameter"@,
        ctx.tree.field_of(ids[k], "name"@) == Some(id),
        ctx.tree.field_of(ids[k], "type"@) == Some(ty),
        trim(ctx.text_of(ty)).len() > 0,
        trim(ctx.text_of(ty)) != "var"@,
    ensures
        entries_from(ctx, ids, true, facts, scope, i).contains(v),
        v.local.name == ctx.text_of(id),
        v.local.type_internal == declared_type(trim(ctx.text_of(ty)), facts),
        v.declaration_start == ctx.tree.node(id).start,
        v.visibility_scope == scope,
    decreases k - i,
{
    let all = entries_from(ctx, ids, true, facts, scope, i);
    let rest = entries_from(ctx, ids, true, facts, scope, i + 1);
    if i < k {
        let v = lemma_typed_entries_have(ctx, ids, facts, scope, i + 1, k, id, ty);
        let first = all.take(all.len() - rest.len());
        assert(all =~= first + rest);
        lemma_joined(first, rest, v);
        v
    } else {
        assert(all.contains(all[0]));
        all[0]
    }
}

/// The name before the arrow of a lambda, every name in a list there, and every parameter with a
/// type are variables; without a type, theirs is not known.
pub proof fn lemma_lambda_parameters(
    ctx: JavaContextExtractor,
    params: NodeId,
    facts: Option<FactsView>,
    k: int,
) -> (v: RankedView)
    requires
        ctx.tree.kind_of(params) == "identifier"@ || ctx.tree.kind_of(params)
            == "inferred_parameters"@ && 0 <= k < ctx.tree.named_kids(params).len()
            && ctx.tree.kind_of(ctx.tree.named_kids(params)[k]) == "identifier"@,
    ensures
        lambda_params(ctx, params, facts).contains(v),
        v.local.name == if ctx.tree.kind_of(params) == "identifier"@ {
            ctx.text_of(params)
        } else {
            ctx.text_of(ctx.tree.named_kids(params)[k])
        },
        v.local.type_internal.base == "unknown"@,
{
    lemma_scope_kinds_differ();
    let scope = or_up_to(lambda_scope(ctx.tree, params), ctx.offset);
    if ctx.tree.kind_of(params) == "identifier"@ {
        let all = lambda_params(ctx, params, facts);
        assert(all.contains(all[0]));
        all[0]
    } else {
        lemma_entries_have(ctx, ctx.tree.named_kids(params), facts, scope, 0, k)
    }
}

/// A parameter of a lambda with a type has that type.
pub proof fn lemma_typed_lambda_parameters(
    ctx: JavaContextExtractor,
    params: NodeId,
    facts: Option<FactsView>,
    k: int,
    id: NodeId,
    ty: NodeId,
) -> (v: RankedView)
    requires
        ctx.tree.kind_of(params) == "formal_parameters"@,
        0 <= k < ctx.tree.named_kids(params).len(),
        ctx.tree.kind_of(ctx.tree.named_kids(params)[k]) == "formal_parameter"@,
        ctx.tree.field_of(ctx.tree.named_kids(params)[k], "name"@) == Some(id),
        ctx.tree.field_of(ctx.tree.named_kids(params)[k], "type"@) == Some(ty),
        trim(ctx.text_of(ty)).len() > 0,
        trim(ctx.text_of(ty)) != "var"@,
    ensures
        lambda_params(ctx, params, facts).contains(v),
        v.local.name == ctx.text_of(id),
        v.local.type_internal == declared_type(trim(ctx.text_of(ty)), facts),
{
    lemma_scope_kinds_differ();
    let scope = or_up_to(lambda_scope(ctx.tree, params), ctx.offset);
    lemma_typed_entries_have(ctx, ctx.tree.named_kids(params), facts, scope, 0, k, id, ty)
}

/// The node is the other or lies below it.
proof fn lemma_around_has(
    ctx: JavaContextExtractor,
    n: NodeId,
    lambda: NodeId,
    facts: Option<FactsView>,
    v: RankedView,
)
    requires
        ctx.wf(),
        ctx.tree.has(n),
        ctx.tree.descends(n, lambda),
        own_params(ctx, lambda, facts).contains(v),
    ensures
        params_around(ctx, n, facts).contains(v),
    decreases n,
{
    assert(ctx.tree.nodes@[n as int].placed(n as int, ctx.tree.nodes@.len() as int));
    let outer = match ctx.tree.parent_of(n) {
        Some(p) => params_around(ctx, p, facts),
        None => Seq::empty(),
    };
    lemma_joined(outer, own_params(ctx, n, facts), v);
    if n != lambda {
        lemma_around_has(ctx, ctx.tree.parent_of(n)->0, lambda, facts, v);
    }
}

proof fn lemma_in_lambda(ctx: JavaContextExtractor, n: NodeId, lambda: NodeId)
    requires
        ctx.wf(),
        ctx.tree.has(n),
        ctx.tree.descends(n, lambda),
        ctx.tree.kind_of(lambda) == "lambda_expression"@,
    ensures
        super::lambdas::in_lambda(ctx, n),
    decreases n,
{
    assert(ctx.tree.nodes@[n as int].placed(n as int, ctx.tree.nodes@.len() as int));
    if n != lambda {
        lemma_in_lambda(ctx, ctx.tree.parent_of(n)->0, lambda);
    }
}

/// The parameters of every lambda around the cursor, of the outer ones too, are found in its body.
pub proof fn lemma_lambda_parameters_are_found(
    ctx: JavaContextExtractor,
    root: NodeId,
    n: NodeId,
    lambda: NodeId,
    body: NodeId,
    params: NodeId,
    facts: Option<FactsView>,
    v: RankedView,
)
    requires
        ctx.wf(),
        ctx.tree.has(n),
        ctx.tree.descends(n, lambda),
        ctx.tree.kind_of(lambda) == "lambda_expression"@,
        ctx.tree.field_of(lambda, "body"@) == Some(body),
        ctx.tree.field_of(lambda, "parameters"@) == Some(params),
        ctx.tree.start_of(body) <= ctx.offset <= ctx.tree.end_of(body),
        lambda_params(ctx, params, facts).contains(v),
    ensures
        found_locals(ctx, root, Some(n), facts).contains(v),
{
    lemma_around_has(ctx, n, lambda, facts, v);
    lemma_in_lambda(ctx, n, lambda);
    let nodes = ctx.tree.under(search_root(ctx, root, Some(n)));
    let a = locals_among(ctx, nodes, facts, true, 0);
    let b = misread_among(ctx, nodes, facts, 0);
    let c = broken_locals(ctx, nodes, facts, 0);
    let d = method_params(ctx, Some(n), facts);
    lemma_joined(a + b + c + d, lambda_vars(ctx, Some(n), facts), v);
}

} // verus!
