//! What the locations of the cursor tell of the text.
use vstd::prelude::*;

use crate::extractor::{
    name_position, name_position_from, string_ancestor, unmarked, JavaContextExtractor, SENTINEL,
};
use crate::location::arguments::{
    argument_list_location, argument_prefix, dotted_argument_from, dotted_rest, list_prefix_from,
};
use crate::location::block::block_location;
use crate::location::declarations::space_before_cursor;
use crate::location::error::error_location;
use crate::location::handlers::{
    annotation_location, annotation_target, constructor_location, first_text_from,
    import_declaration_location, import_text, import_text_from, member_expression,
    method_reference_location, place_of_kind, qualified_new, target_above,
};
use crate::location::labels::label_location;
use crate::location::names::{
    identifier_location, in_arguments, in_declaration, in_error, in_parameter, said_above, said_by,
};
use crate::location::recovery::misread_expression;
use crate::location::utils::{at_expression, has_newline, later_part_of_scoped_type, Located};
use crate::location::{climbed, location, rule_for};
use crate::semantic::{LocationView, StatementLabelCompletionKind};
use crate::syntax::laws::{lemma_first_class_from, lemma_first_kind_from, lemma_under_holds};
use crate::syntax::{KindClass, NodeId, SyntaxTree};
use crate::text::laws::{lemma_find_from, lemma_index_from, lemma_trim_keeps};
use crate::text::{
    ends_with, find, index_of, is_white, last_run, lemma_run_end, lemma_run_start, run_start, trim,
    trim_end, trim_start, CharClass,
};

pub mod awaited;
pub mod jumps;
pub mod parts;
pub mod recovery;
pub mod texts;

verus! {

/// No two kinds of nodes are named alike.
pub proof fn lemma_node_kinds_differ()
    ensures
        "break_statement"@.len() == 15,
        "continue_statement"@.len() == 18,
        "marker_annotation"@.len() == 17,
        "annotation"@.len() == 10,
        "import_declaration"@.len() == 18,
        "method_invocation"@.len() == 17,
        "field_access"@.len() == 12,
        "method_reference"@.len() == 16,
        "object_creation_expression"@.len() == 26,
        "argument_list"@.len() == 13,
        "identifier"@.len() == 10,
        "type_identifier"@.len() == 15,
        "this"@.len() == 4,
        "super"@.len() == 5,
        "scoped_type_identifier"@.len() == 22,
        "local_variable_declaration"@.len() == 26,
        "expression_statement"@.len() == 20,
        "dimensions"@.len() == 10,
        "ERROR"@.len() == 5,
        "block"@.len() == 5,
        "class_body"@.len() == 10,
        "program"@.len() == 7,
        "formal_parameter"@.len() == 16,
        "spread_parameter"@.len() == 16,
        "line_comment"@.len() == 12,
        "block_comment"@.len() == 13,
        "string_literal"@.len() == 14,
        "text_block"@.len() == 10,
        "scoped_identifier"@.len() == 17,
        "generic_type"@.len() == 12,
        "type_arguments"@.len() == 14,
        "variable_declarator"@.len() == 19,
        "class_declaration"@.len() == 17,
        "interface_declaration"@.len() == 21,
        "enum_declaration"@.len() == 16,
        "annotation_type_declaration"@.len() == 27,
        "record_declaration"@.len() == 18,
        "method_declaration"@.len() == 18,
        "constructor_declaration"@.len() == 23,
        "field_declaration"@.len() == 17,
        "modifiers"@.len() == 9,
        "return_statement"@.len() == 16,
        "assignment_expression"@.len() == 21,
        "lambda_expression"@.len() == 17,
        "break_statement"@ != "type_identifier"@,
        "continue_statement"@ != "import_declaration"@,
        "continue_statement"@ != "record_declaration"@,
        "continue_statement"@ != "method_declaration"@,
        "marker_annotation"@ != "method_invocation"@,
        "marker_annotation"@ != "scoped_identifier"@,
        "marker_annotation"@ != "class_declaration"@,
        "marker_annotation"@ != "field_declaration"@,
        "marker_annotation"@ != "lambda_expression"@,
        "annotation"@ != "identifier"@,
        "annotation"@ != "dimensions"@,
        "annotation"@ != "class_body"@,
        "annotation"@ != "text_block"@,
        "import_declaration"@ != "record_declaration"@,
        "import_declaration"@ != "method_declaration"@,
        "method_invocation"@ != "scoped_identifier"@,
        "method_invocation"@ != "class_declaration"@,
        "method_invocation"@ != "field_declaration"@,
        "method_invocation"@ != "lambda_expression"@,
        "field_access"@ != "line_comment"@,
        "field_access"@ != "generic_type"@,
        "method_reference"@ != "formal_parameter"@,
        "method_reference"@ != "spread_parameter"@,
        "method_reference"@ != "enum_declaration"@,
        "method_reference"@ != "return_statement"@,
        "object_creation_expression"@ != "local_variable_declaration"@,
        "argument_list"@ != "block_comment"@,
        "identifier"@ != "dimensions"@,
        "identifier"@ != "class_body"@,
        "identifier"@ != "text_block"@,
        "super"@ != "ERROR"@,
        "super"@ != "block"@,
        "dimensions"@ != "class_body"@,
        "dimensions"@ != "text_block"@,
        "ERROR"@ != "block"@,
        "class_body"@ != "text_block"@,
        "formal_parameter"@ != "spread_parameter"@,
        "formal_parameter"@ != "enum_declaration"@,
        "formal_parameter"@ != "return_statement"@,
        "spread_parameter"@ != "enum_declaration"@,
        "spread_parameter"@ != "return_statement"@,
        "line_comment"@ != "generic_type"@,
        "string_literal"@ != "type_arguments"@,
        "scoped_identifier"@ != "class_declaration"@,
        "scoped_identifier"@ != "field_declaration"@,
        "scoped_identifier"@ != "lambda_expression"@,
        "class_declaration"@ != "field_declaration"@,
        "class_declaration"@ != "lambda_expression"@,
        "interface_declaration"@ != "assignment_expression"@,
        "enum_declaration"@ != "return_statement"@,
        "record_declaration"@ != "method_declaration"@,
        "field_declaration"@ != "lambda_expression"@,
{
    reveal_strlit("break_statement");
    reveal_strlit("continue_statement");
    reveal_strlit("marker_annotation");
    reveal_strlit("annotation");
    reveal_strlit("import_declaration");
    reveal_strlit("method_invocation");
    reveal_strlit("field_access");
    reveal_strlit("method_reference");
    reveal_strlit("object_creation_expression");
    reveal_strlit("argument_list");
    reveal_strlit("identifier");
    reveal_strlit("type_identifier");
    reveal_strlit("this");
    reveal_strlit("super");
    reveal_strlit("scoped_type_identifier");
    reveal_strlit("local_variable_declaration");
    reveal_strlit("expression_statement");
    reveal_strlit("dimensions");
    reveal_strlit("ERROR");
    reveal_strlit("block");
    reveal_strlit("class_body");
    reveal_strlit("program");
    reveal_strlit("formal_parameter");
    reveal_strlit("spread_parameter");
    reveal_strlit("line_comment");
    reveal_strlit("block_comment");
    reveal_strlit("string_literal");
    reveal_strlit("text_block");
    reveal_strlit("scoped_identifier");
    reveal_strlit("generic_type");
    reveal_strlit("type_arguments");
    reveal_strlit("variable_declarator");
    reveal_strlit("class_declaration");
    reveal_strlit("interface_declaration");
    reveal_strlit("enum_declaration");
    reveal_strlit("annotation_type_declaration");
    reveal_strlit("record_declaration");
    reveal_strlit("method_declaration");
    reveal_strlit("constructor_declaration");
    reveal_strlit("field_declaration");
    reveal_strlit("modifiers");
    reveal_strlit("return_statement");
    reveal_strlit("assignment_expression");
    reveal_strlit("lambda_expression");
    assert("break_statement"@[0] == 'b');
    assert("type_identifier"@[0] == 't');
    assert("continue_statement"@[0] == 'c');
    assert("import_declaration"@[0] == 'i');
    assert("record_declaration"@[0] == 'r');
    assert("method_declaration"@[0] == 'm');
    assert("marker_annotation"@[1] == 'a');
    assert("method_invocation"@[1] == 'e');
    assert("marker_annotation"@[0] == 'm');
    assert("scoped_identifier"@[0] == 's');
    assert("class_declaration"@[0] == 'c');
    assert("field_declaration"@[0] == 'f');
    assert("lambda_expression"@[0] == 'l');
    assert("annotation"@[0] == 'a');
    assert("identifier"@[0] == 'i');
    assert("dimensions"@[0] == 'd');
    assert("class_body"@[0] == 'c');
    assert("text_block"@[0] == 't');
    assert("method_invocation"@[0] == 'm');
    assert("field_access"@[0] == 'f');
    assert("line_comment"@[0] == 'l');
    assert("generic_type"@[0] == 'g');
    assert("method_reference"@[0] == 'm');
    assert("formal_parameter"@[0] == 'f');
    assert("spread_parameter"@[0] == 's');
    assert("enum_declaration"@[0] == 'e');
    assert("return_statement"@[0] == 'r');
    assert("object_creation_expression"@[0] == 'o');
    assert("local_variable_declaration"@[0] == 'l');
    assert("argument_list"@[0] == 'a');
    assert("block_comment"@[0] == 'b');
    assert("super"@[0] == 's');
    assert("ERROR"@[0] == 'E');
    assert("block"@[0] == 'b');
    assert("string_literal"@[0] == 's');
    assert("type_arguments"@[0] == 't');
    assert("interface_declaration"@[0] == 'i');
    assert("assignment_expression"@[0] == 'a');
}

// ---- imports -----------------------------------------------------------------------------------

/// The children of a node stand one right behind the other, from where it begins to where it ends.
pub open spec fn is_tiled(t: SyntaxTree, n: NodeId) -> bool {
    let ids = t.kids(n);
    ids.len() > 0 ==> {
        &&& t.start_of(ids[0]) == t.start_of(n)
        &&& t.end_of(ids.last()) == t.end_of(n)
        &&& forall|i: int| 0 < i < ids.len() ==> t.start_of(#[trigger] ids[i]) == t.end_of(ids[i - 1])
    }
}

/// A word or a sign of an import that is no part of the name.
pub open spec fn is_beside_name(t: SyntaxTree, n: NodeId) -> bool {
    &&& t.kids(n).len() == 0
    &&& {
        ||| t.kind_of(n) == "import"@
        ||| t.kind_of(n) == "static"@
        ||| t.kind_of(n) == ";"@
        ||| t.kind_of(n) == "line_comment"@
        ||| t.kind_of(n) == "block_comment"@
    }
}

/// A part of a name with neither white space nor comments in it.
pub open spec fn is_solid(t: SyntaxTree, n: NodeId) -> bool {
    forall|m: NodeId| #[trigger]
        t.under(n).contains(m) ==> is_tiled(t, m) && !is_beside_name(t, m)
}

/// The text from a position to another, but not beyond the cursor.
pub open spec fn up_to_cursor(ctx: &JavaContextExtractor, from: int, to: int) -> Seq<char> {
    if from >= ctx.offset || from >= to {
        Seq::empty()
    } else if to <= ctx.offset {
        ctx.source@.subrange(from, to)
    } else {
        ctx.source@.subrange(from, ctx.offset as int)
    }
}

proof fn lemma_up_to_cursor_joins(ctx: &JavaContextExtractor, a: int, b: int, c: int)
    requires
        ctx.offset <= ctx.source@.len(),
        0 <= a <= b <= c <= ctx.source@.len(),
    ensures
        up_to_cursor(ctx, a, b) + up_to_cursor(ctx, b, c) == up_to_cursor(ctx, a, c),
{
    assert(up_to_cursor(ctx, a, b) + up_to_cursor(ctx, b, c) =~= up_to_cursor(ctx, a, c));
}

proof fn lemma_solid_below(t: SyntaxTree, n: NodeId, i: int)
    requires
        t.linked(),
        t.has(n),
        is_solid(t, n),
        0 <= i < t.kids(n).len(),
    ensures
        is_solid(t, t.kids(n)[i]),
        n < t.kids(n)[i],
        t.has(t.kids(n)[i]),
{
    let k = t.kids(n)[i];
    assert(t.nodes@[n as int].placed(n as int, t.nodes@.len() as int));
    assert forall|m: NodeId| #[trigger] t.under(k).contains(m) implies is_tiled(t, m)
        && !is_beside_name(t, m) by {
        lemma_under_holds(t, n, i, m);
        assert(t.under(n).contains(m));
    }
}

proof fn lemma_solid_text(ctx: &JavaContextExtractor, n: NodeId)
    requires
        ctx.wf(),
        ctx.tree.has(n),
        is_solid(ctx.tree, n),
    ensures
        import_text(ctx, n) == up_to_cursor(ctx, ctx.tree.start_of(n), ctx.tree.end_of(n)),
    decreases ctx.tree.nodes@.len() - n, ctx.tree.kids(n).len() + 1,
{
    let t = ctx.tree;
    assert(t.under(n)[0] == n);
    assert(t.under(n).contains(n));
    assert(t.nodes@[n as int].start <= t.nodes@[n as int].end <= ctx.source@.len());
    if t.kids(n).len() == 0 {
        assert(!is_beside_name(t, n));
        assert(ctx.text_to_cursor(n) =~= up_to_cursor(ctx, t.start_of(n), t.end_of(n)));
    } else {
        lemma_solid_rest(ctx, n, 0);
    }
}

proof fn lemma_solid_rest(ctx: &JavaContextExtractor, n: NodeId, i: int)
    requires
        ctx.wf(),
        ctx.tree.has(n),
        is_solid(ctx.tree, n),
        0 <= i < ctx.tree.kids(n).len(),
    ensures
        import_text_from(ctx, n, i) == up_to_cursor(
            ctx,
            ctx.tree.start_of(ctx.tree.kids(n)[i]),
            ctx.tree.end_of(n),
        ),
        ctx.tree.start_of(ctx.tree.kids(n)[i]) <= ctx.tree.end_of(n),
    decreases ctx.tree.nodes@.len() - n, ctx.tree.kids(n).len() - i,
{
    let t = ctx.tree;
    let k = t.kids(n)[i];
    assert(t.under(n)[0] == n);
    assert(t.under(n).contains(n));
    assert(is_tiled(t, n));
    lemma_solid_below(t, n, i);
    lemma_solid_text(ctx, k);
    assert(t.nodes@[n as int].start <= t.nodes@[n as int].end <= ctx.source@.len());
    assert(t.nodes@[k as int].start <= t.nodes@[k as int].end <= ctx.source@.len());
    if i + 1 < t.kids(n).len() {
        lemma_solid_rest(ctx, n, i + 1);
        assert(t.start_of(t.kids(n)[i + 1]) == t.end_of(t.kids(n)[i + 1 - 1]));
        lemma_up_to_cursor_joins(ctx, t.start_of(k), t.end_of(k), t.end_of(n));
    } else {
        assert(import_text_from(ctx, n, i + 1) =~= Seq::<char>::empty());
        assert(import_text(ctx, k) + Seq::<char>::empty() =~= import_text(ctx, k));
    }
}

/// The children of an import from place `p` to before place `q` are its name, one right behind the
/// other; the others are beside it.
pub open spec fn names_import(t: SyntaxTree, n: NodeId, p: int, q: int) -> bool {
    let ids = t.kids(n);
    &&& 0 <= p < q <= ids.len()
    &&& forall|i: int| 0 <= i < ids.len() && !(p <= i < q) ==> is_beside_name(t, #[trigger] ids[i])
    &&& forall|i: int| p <= i < q ==> is_solid(t, #[trigger] ids[i])
    &&& forall|i: int| p < i < q ==> t.start_of(#[trigger] ids[i]) == t.end_of(ids[i - 1])
}

proof fn lemma_import_rest(ctx: &JavaContextExtractor, n: NodeId, p: int, q: int, i: int)
    requires
        ctx.wf(),
        ctx.tree.has(n),
        names_import(ctx.tree, n, p, q),
        0 <= i <= ctx.tree.kids(n).len(),
    ensures
        ({
            let t = ctx.tree;
            let end = t.end_of(t.kids(n)[q - 1]);
            import_text_from(ctx, n, i) == if i <= p {
                up_to_cursor(ctx, t.start_of(t.kids(n)[p]), end)
            } else if i < q {
                up_to_cursor(ctx, t.start_of(t.kids(n)[i]), end)
            } else {
                Seq::empty()
            }
        }),
        p <= i < q ==> ctx.tree.start_of(ctx.tree.kids(n)[i]) <= ctx.tree.end_of(
            ctx.tree.kids(n)[q - 1],
        ),
    decreases ctx.tree.kids(n).len() - i,
{
    let t = ctx.tree;
    if i < t.kids(n).len() {
        let k = t.kids(n)[i];
        assert(t.nodes@[n as int].placed(n as int, t.nodes@.len() as int));
        lemma_import_rest(ctx, n, p, q, i + 1);
        assert(t.nodes@[k as int].start <= t.nodes@[k as int].end <= ctx.source@.len());
        let rest = import_text_from(ctx, n, i + 1);
        if p <= i < q {
            lemma_solid_text(ctx, k);
            let last = t.kids(n)[q - 1];
            assert(t.nodes@[last as int].start <= t.nodes@[last as int].end <= ctx.source@.len());
            if i + 1 < q {
                assert(t.start_of(t.kids(n)[i + 1]) == t.end_of(t.kids(n)[i + 1 - 1]));
                lemma_up_to_cursor_joins(ctx, t.start_of(k), t.end_of(k), t.end_of(last));
            } else {
                assert(import_text(ctx, k) + rest =~= import_text(ctx, k));
            }
        } else {
            assert(is_beside_name(t, t.kids(n)[i]));
            assert(import_text(ctx, k) =~= Seq::<char>::empty());
            assert(import_text(ctx, k) + rest =~= rest);
        }
    }
}

/// The last piece of a name: what stands behind its last dot, or all of it.
pub open spec fn is_last_piece(piece: Seq<char>, name: Seq<char>) -> bool {
    exists|head: Seq<char>|
        #![trigger head + piece]
        name == head + piece && !piece.contains('.') && (head.len() == 0 || head.last() == '.')
}

proof fn lemma_last_piece(name: Seq<char>)
    ensures
        is_last_piece(last_run(name, CharClass::NotDot), name),
{
    let i = run_start(name, CharClass::NotDot, name.len() as int);
    lemma_run_start(name, CharClass::NotDot, name.len() as int);
    let head = name.take(i);
    let piece = last_run(name, CharClass::NotDot);
    assert(name =~= head + piece);
    if piece.contains('.') {
        let k = choose|k: int| 0 <= k < piece.len() && piece[k] == '.';
        assert(CharClass::NotDot.has(name[i + k]));
    }
    if i > 0 {
        assert(head.last() == name[i - 1]);
    }
}

/// What is completed in an import is its name as it is written, dots and all, from its first
/// character to the cursor; what is asked for is the part behind its last dot.
pub proof fn lemma_imports_as_written(ctx: &JavaContextExtractor, n: NodeId, p: int, q: int)
    requires
        ctx.wf(),
        ctx.tree.has(n),
        names_import(ctx.tree, n, p, q),
        ({
            let t = ctx.tree;
            find(
                up_to_cursor(ctx, t.start_of(t.kids(n)[p]), t.end_of(t.kids(n)[q - 1])),
                SENTINEL@,
            ) is None
        }),
        ctx.tree.start_of(n) < ctx.offset,
    ensures
        ({
            let t = ctx.tree;
            let name = up_to_cursor(ctx, t.start_of(t.kids(n)[p]), t.end_of(t.kids(n)[q - 1]));
            let (loc, query) = import_declaration_location(ctx, n);
            let is_static = exists|i: int|
                0 <= i < t.kids(n).len() && t.kind_of(#[trigger] t.kids(n)[i]) == "static"@;
            &&& is_static ==> loc == LocationView::ImportStatic { prefix: name }
            &&& !is_static ==> loc == LocationView::Import { prefix: name }
            &&& is_last_piece(query, name)
        }),
{
    let t = ctx.tree;
    lemma_import_rest(ctx, n, p, q, 0);
    let name = up_to_cursor(ctx, t.start_of(t.kids(n)[p]), t.end_of(t.kids(n)[q - 1]));
    lemma_first_kind_from(t, t.kids(n), "static"@, 0);
    assert(unmarked(name) == name);
    lemma_last_piece(name);
}

// ---- which node decides ------------------------------------------------------------------------

/// Nothing round the cursor takes the place of the nodes: no comment, no string, no label.
pub open spec fn is_plain_code(ctx: &JavaContextExtractor, n: NodeId) -> bool {
    let k = ctx.tree.kind_of(n);
    &&& k != "line_comment"@ && k != "block_comment"@
    &&& string_ancestor(&ctx.tree, n) is None
    &&& label_location(ctx, n) is None
}

/// The node at the cursor decides, if it has a rule that applies.
pub proof fn lemma_cursor_node_decides(ctx: &JavaContextExtractor, n: NodeId, l: Located)
    requires
        is_plain_code(ctx, n),
        rule_for(ctx, n, n) == Some(l),
        !has_newline(l.0),
    ensures
        location(ctx, Some(n)) == l,
{
}

/// A node without a rule that applies leaves the decision to its parent, unless it is a block, the
/// body of a class, the program or a jump.
pub proof fn lemma_parent_decides(
    ctx: &JavaContextExtractor,
    n: NodeId,
    p: NodeId,
    cursor: NodeId,
)
    requires
        ctx.wf(),
        ctx.tree.has(n),
        ctx.tree.parent_of(n) == Some(p),
        rule_for(ctx, n, cursor) is None,
    ensures
        ({
            let k = ctx.tree.kind_of(n);
            let stops = k == "block"@ || k == "class_body"@ || k == "program"@ || k
                == "break_statement"@ || k == "continue_statement"@;
            &&& !stops ==> climbed(ctx, n, cursor) == climbed(ctx, p, cursor)
            &&& stops ==> climbed(ctx, n, cursor) is None
        }),
{
    assert(ctx.tree.nodes@[n as int].placed(n as int, ctx.tree.nodes@.len() as int));
}

/// Each kind of node has its own rule.
pub proof fn lemma_rules(ctx: &JavaContextExtractor, n: NodeId, cursor: NodeId)
    ensures
        ({
            let k = ctx.tree.kind_of(n);
            let r = rule_for(ctx, n, cursor);
            &&& k == "marker_annotation"@ || k == "annotation"@ ==> r == Some(
                annotation_location(ctx, n),
            )
            &&& k == "import_declaration"@ ==> r == Some(import_declaration_location(ctx, n))
            &&& k == "method_invocation"@ || k == "field_access"@ ==> r == Some(
                member_expression(ctx, n),
            )
            &&& k == "method_reference"@ ==> r == Some(method_reference_location(ctx, n))
            &&& k == "argument_list"@ ==> r == Some(argument_list_location(ctx, n))
            &&& k == "object_creation_expression"@ ==> r is Some
            &&& k == "dimensions"@ ==> r == Some(at_expression(Seq::empty()))
            &&& k == "ERROR"@ ==> r == Some(error_location(ctx, n, cursor))
            &&& k == "block"@ ==> r == if n == cursor {
                Some(block_location(ctx, n))
            } else {
                None
            }
            &&& k == "class_body"@ ==> r == if n == cursor {
                Some(at_expression(Seq::empty()))
            } else {
                None
            }
            &&& k == "program"@ || k == "scoped_identifier"@ || k == "generic_type"@ ==> r is None
            &&& k == "identifier"@ || k == "type_identifier"@ || k == "this"@ || k == "super"@
                ==> r == if later_part_of_scoped_type(&ctx.tree, n) {
                None
            } else {
                Some(identifier_location(ctx, n))
            }
        }),
{
    lemma_node_kinds_differ();
}

/// Each kind of node above an identifier says what it says of itself.
pub proof fn lemma_said(ctx: &JavaContextExtractor, n: NodeId, id: NodeId)
    ensures
        ({
            let k = ctx.tree.kind_of(n);
            let r = said_by(ctx, n, id);
            &&& k == "marker_annotation"@ || k == "annotation"@ ==> r == Some(
                annotation_location(ctx, n),
            )
            &&& k == "import_declaration"@ ==> r == Some(import_declaration_location(ctx, n))
            &&& k == "method_invocation"@ || k == "field_access"@ ==> r == Some(
                member_expression(ctx, n),
            )
            &&& k == "method_reference"@ ==> r == Some(method_reference_location(ctx, n))
            &&& k == "local_variable_declaration"@ ==> r == Some(in_declaration(ctx, id, n))
            &&& k == "formal_parameter"@ || k == "spread_parameter"@ ==> r == Some(
                in_parameter(ctx, id, n),
            )
            &&& k == "argument_list"@ ==> r == Some(in_arguments(ctx, id, n))
            &&& k == "ERROR"@ ==> r == Some(in_error(ctx, id))
            &&& k == "class_body"@ ==> r == Some(at_expression(unmarked(ctx.text_to_cursor(id))))
            &&& k == "block"@ || k == "program"@ || k == "scoped_identifier"@ || k
                == "generic_type"@ || k == "type_arguments"@ || k == "expression_statement"@ || k
                == "return_statement"@ || k == "assignment_expression"@ || k == "lambda_expression"@
                ==> r is None
        }),
{
    lemma_node_kinds_differ();
}

/// An identifier that stands in the name of an import, below any number of qualified names.
pub open spec fn is_in_name_of(t: SyntaxTree, n: NodeId, decl: NodeId) -> bool
    decreases n,
{
    n == decl || t.kind_of(n) == "scoped_identifier"@ && (t.parent_of(n) matches Some(p) && p < n
        && is_in_name_of(t, p, decl))
}

proof fn lemma_import_says(ctx: &JavaContextExtractor, n: NodeId, decl: NodeId, id: NodeId)
    requires
        ctx.tree.kind_of(decl) == "import_declaration"@,
        is_in_name_of(ctx.tree, n, decl),
    ensures
        said_above(ctx, n, id) == Some(import_declaration_location(ctx, decl)),
    decreases n,
{
    lemma_said(ctx, n, id);
    lemma_node_kinds_differ();
    if n != decl {
        let p = ctx.tree.parent_of(n)->0;
        lemma_import_says(ctx, p, decl, id);
    }
}

/// An identifier with the cursor right behind it in the name of an import is located in the import.
pub proof fn lemma_identifiers_in_imports(
    ctx: &JavaContextExtractor,
    id: NodeId,
    p: NodeId,
    decl: NodeId,
)
    requires
        ctx.tree.kind_of(decl) == "import_declaration"@,
        ctx.tree.kind_of(id) == "identifier"@,
        ctx.tree.parent_of(id) == Some(p),
        is_in_name_of(ctx.tree, p, decl),
        ctx.tree.end_of(id) == ctx.offset,
        ctx.tree.ancestor(id, "ERROR"@) is None,
        is_plain_code(ctx, id),
        !has_newline(import_declaration_location(ctx, decl).0),
    ensures
        location(ctx, Some(id)) == import_declaration_location(ctx, decl),
{
    lemma_node_kinds_differ();
    lemma_import_says(ctx, p, decl, id);
    lemma_rules(ctx, id, id);
    assert(!space_before_cursor(ctx, id)) by {
        let gap = ctx.piece(ctx.tree.end_of(id), ctx.offset as int);
        assert(gap.len() == 0);
    }
    assert(identifier_location(ctx, id) == import_declaration_location(ctx, decl));
    assert(!later_part_of_scoped_type(&ctx.tree, id)) by {
        if p != decl {
            assert(ctx.tree.kind_of(p) == "scoped_identifier"@);
        }
    }
}

// ---- strings -----------------------------------------------------------------------------------

/// In a string, what is completed is what stands between its first quote and the cursor.
pub proof fn lemma_strings_as_written(ctx: &JavaContextExtractor, n: NodeId, inner: Seq<char>)
    requires
        ctx.tree.kind_of(n) == "string_literal"@,
        ctx.text_to_cursor(n) == seq!['"'] + inner || ctx.text_to_cursor(n) == seq!['"'] + inner
            + seq!['"'],
        ctx.text_to_cursor(n) == seq!['"'] + inner ==> inner.len() == 0 || inner.last() != '"',
        !inner.contains('\n'),
    ensures
        location(ctx, Some(n)) == (LocationView::StringLiteral { prefix: inner }, inner),
{
    lemma_node_kinds_differ();
    let raw = ctx.text_to_cursor(n);
    assert(raw[0] == '"');
    lemma_index_from(raw, '"', 0);
    let after = raw.skip(1);
    reveal_strlit("\"");
    assert("\""@ =~= seq!['"']);
    if raw == seq!['"'] + inner + seq!['"'] {
        assert(after =~= inner + seq!['"']);
        assert(after.skip(after.len() - 1) =~= seq!['"']);
        assert(after.take(after.len() - 1) =~= inner);
    } else {
        assert(after =~= inner);
        if ends_with(after, "\""@) {
            assert(after.skip(after.len() - 1)[0] == inner.last());
        }
    }
}

// ---- annotations -------------------------------------------------------------------------------

/// In an annotation, what is completed is its name up to the cursor.
pub proof fn lemma_annotations_as_written(ctx: &JavaContextExtractor, n: NodeId, name: NodeId)
    requires
        ctx.tree.field_of(n, "name"@) == Some(name),
    ensures
        ({
            let (loc, query) = annotation_location(ctx, n);
            &&& query == ctx.text_to_cursor(name)
            &&& loc matches LocationView::Annotation { prefix, .. } && prefix == ctx.text_to_cursor(
                name,
            )
        }),
{
}

/// An annotation among the modifiers of a declaration annotates what the declaration declares.
pub proof fn lemma_annotation_targets(ctx: &JavaContextExtractor, n: NodeId, m: NodeId, decl: NodeId)
    requires
        ctx.wf(),
        ctx.tree.has(n),
        ctx.tree.parent_of(n) == Some(m),
        ctx.tree.kind_of(m) == "modifiers"@,
        ctx.tree.parent_of(m) == Some(decl),
    ensures
        ({
            let t = &ctx.tree;
            let k = t.kind_of(decl);
            let r = annotation_target(t, n);
            &&& k == "class_declaration"@ || k == "interface_declaration"@ || k
                == "enum_declaration"@ || k == "annotation_type_declaration"@ || k
                == "record_declaration"@ ==> r == Some("TYPE"@)
            &&& k == "method_declaration"@ ==> r == Some("METHOD"@)
            &&& k == "field_declaration"@ ==> r == Some("FIELD"@)
            &&& k == "constructor_declaration"@ ==> r == Some("CONSTRUCTOR"@)
            &&& k == "local_variable_declaration"@ ==> r == Some("LOCAL_VARIABLE"@)
            &&& k == "formal_parameter"@ || k == "spread_parameter"@ ==> r == if t.parent_of(decl)
                is Some && t.kind_of(t.parent_of(decl)->0) == "record_declaration"@ {
                Some("RECORD_COMPONENT"@)
            } else {
                Some("PARAMETER"@)
            }
            &&& k == "block"@ || k == "class_body"@ || k == "program"@ || k == "ERROR"@ ==> r
                is None
        }),
{
    lemma_node_kinds_differ();
    assert(ctx.tree.nodes@[n as int].placed(n as int, ctx.tree.nodes@.len() as int));
    assert(ctx.tree.nodes@[m as int].placed(m as int, ctx.tree.nodes@.len() as int));
    reveal_with_fuel(target_above, 3);
}

// ---- members -----------------------------------------------------------------------------------

proof fn lemma_place_of_kind(t: &SyntaxTree, ids: Seq<NodeId>, kind: Seq<char>, i: int, d: int)
    requires
        0 <= i <= d < ids.len(),
        t.kind_of(ids[d]) == kind,
        forall|q: int| i <= q < d ==> t.kind_of(#[trigger] ids[q]) != kind,
    ensures
        place_of_kind(t, ids, kind, i) == Some(d),
    decreases d - i,
{
    if i < d {
        lemma_place_of_kind(t, ids, kind, i + 1, d);
    }
}

proof fn lemma_no_place(t: &SyntaxTree, ids: Seq<NodeId>, kind: Seq<char>, i: int)
    requires
        0 <= i,
        forall|q: int| i <= q < ids.len() ==> t.kind_of(#[trigger] ids[q]) != kind,
    ensures
        place_of_kind(t, ids, kind, i) is None,
    decreases ids.len() - i,
{
    if i < ids.len() {
        lemma_no_place(t, ids, kind, i + 1);
    }
}

/// Behind a dot, the members of what stands right before it are asked for: those that begin with
/// the name behind the dot, as far as it is typed. A call says its arguments, too.
pub proof fn lemma_members(ctx: &JavaContextExtractor, n: NodeId, d: int, id: NodeId, k: int)
    requires
        0 < d < k < ctx.tree.kids(n).len(),
        ctx.tree.kind_of(ctx.tree.kids(n)[d]) == "."@,
        forall|q: int| 0 <= q < d ==> ctx.tree.kind_of(#[trigger] ctx.tree.kids(n)[q]) != "."@,
        ctx.tree.kids(n)[k] == id,
        ctx.tree.kind_of(id) == "identifier"@ || ctx.tree.kind_of(id) == "type_identifier"@,
        forall|q: int|
            d < q < k ==> ctx.tree.kind_of(#[trigger] ctx.tree.kids(n)[q]) != "identifier"@
                && ctx.tree.kind_of(ctx.tree.kids(n)[q]) != "type_identifier"@,
        ctx.offset > ctx.tree.start_of(ctx.tree.kids(n)[d]),
        find(ctx.text_to_cursor(id), SENTINEL@) is None,
    ensures
        ({
            let t = ctx.tree;
            let prefix = ctx.text_to_cursor(id);
            let arguments = if t.kind_of(n) == "method_invocation"@ && t.field_of(n, "arguments"@)
                is Some {
                Some(ctx.text_of(t.field_of(n, "arguments"@)->0))
            } else {
                None
            };
            member_expression(ctx, n) == (
                LocationView::MemberAccess {
                    receiver_semantic_type: None,
                    receiver_type: None,
                    member_prefix: prefix,
                    receiver_expr: ctx.text_of(t.kids(n)[d - 1]),
                    arguments,
                },
                prefix,
            )
        }),
{
    let t = &ctx.tree;
    lemma_place_of_kind(t, t.kids(n), "."@, 0, d);
    lemma_first_class_from(ctx.tree, t.kids(n), KindClass::Identifier, d + 1);
    let r = t.first_class_from(t.kids(n), KindClass::Identifier, d + 1);
    assert(KindClass::Identifier.has(t.kind_of(t.kids(n)[k])));
    assert(r == Some(id)) by {
        let p = choose|p: int|
            d + 1 <= p < t.kids(n).len() && #[trigger] t.kids(n)[p] == r->0
                && KindClass::Identifier.has(t.kind_of(t.kids(n)[p])) && forall|q: int|
                d + 1 <= q < p ==> !KindClass::Identifier.has(t.kind_of(#[trigger] t.kids(n)[q]));
        if p < k {
            assert(t.kind_of(t.kids(n)[p]) != "identifier"@);
        } else if k < p {
            assert(!KindClass::Identifier.has(t.kind_of(t.kids(n)[k])));
        }
    }
    assert(unmarked(ctx.text_to_cursor(id)) == ctx.text_to_cursor(id));
}

/// Up to the dot, it is what stands before the dot that is being typed.
pub proof fn lemma_before_the_dot(ctx: &JavaContextExtractor, n: NodeId, d: int)
    requires
        0 < d < ctx.tree.kids(n).len(),
        ctx.tree.kind_of(ctx.tree.kids(n)[d]) == "."@,
        forall|q: int| 0 <= q < d ==> ctx.tree.kind_of(#[trigger] ctx.tree.kids(n)[q]) != "."@,
        ctx.offset <= ctx.tree.start_of(ctx.tree.kids(n)[d]),
        find(ctx.text_to_cursor(ctx.tree.kids(n)[d - 1]), SENTINEL@) is None,
    ensures
        member_expression(ctx, n) == (
            LocationView::Expression { prefix: ctx.text_to_cursor(ctx.tree.kids(n)[d - 1]) },
            ctx.text_to_cursor(ctx.tree.kids(n)[d - 1]),
        ),
{
    let t = &ctx.tree;
    lemma_place_of_kind(t, t.kids(n), "."@, 0, d);
    let s = ctx.text_to_cursor(t.kids(n)[d - 1]);
    assert(unmarked(s) == s);
}

/// A call without a dot is one of a method of the class around it.
pub proof fn lemma_own_methods(ctx: &JavaContextExtractor, n: NodeId, k: int, args: NodeId)
    requires
        ctx.tree.kind_of(n) == "method_invocation"@,
        forall|q: int|
            0 <= q < ctx.tree.kids(n).len() ==> ctx.tree.kind_of(#[trigger] ctx.tree.kids(n)[q])
                != "."@,
        0 <= k < ctx.tree.kids(n).len(),
        ctx.tree.kind_of(ctx.tree.kids(n)[k]) == "identifier"@,
        forall|q: int|
            0 <= q < k ==> ctx.tree.kind_of(#[trigger] ctx.tree.kids(n)[q]) != "identifier"@
                && ctx.tree.kind_of(ctx.tree.kids(n)[q]) != "type_identifier"@,
        ctx.tree.field_of(n, "arguments"@) == Some(args),
        find(ctx.text_to_cursor(ctx.tree.kids(n)[k]), SENTINEL@) is None,
    ensures
        member_expression(ctx, n) == (
            LocationView::MemberAccess {
                receiver_semantic_type: None,
                receiver_type: None,
                member_prefix: ctx.text_to_cursor(ctx.tree.kids(n)[k]),
                receiver_expr: Seq::empty(),
                arguments: Some(ctx.text_of(args)),
            },
            ctx.text_to_cursor(ctx.tree.kids(n)[k]),
        ),
{
    let t = &ctx.tree;
    lemma_no_place(t, t.kids(n), "."@, 0);
    lemma_first_class_from(ctx.tree, t.kids(n), KindClass::Identifier, 0);
    let r = t.first_class(t.kids(n), KindClass::Identifier);
    assert(KindClass::Identifier.has(t.kind_of(t.kids(n)[k])));
    assert(r == Some(t.kids(n)[k])) by {
        let p = choose|p: int|
            0 <= p < t.kids(n).len() && #[trigger] t.kids(n)[p] == r->0
                && KindClass::Identifier.has(t.kind_of(t.kids(n)[p])) && forall|q: int|
                0 <= q < p ==> !KindClass::Identifier.has(t.kind_of(#[trigger] t.kids(n)[q]));
        if p < k {
            assert(t.kind_of(t.kids(n)[p]) != "identifier"@);
        } else if k < p {
            assert(!KindClass::Identifier.has(t.kind_of(t.kids(n)[k])));
        }
    }
    let s = ctx.text_to_cursor(t.kids(n)[k]);
    assert(unmarked(s) == s);
}

// ---- method references -------------------------------------------------------------------------

/// A text without the marker, without white space at its ends and without two colons.
pub open spec fn is_side(s: Seq<char>) -> bool {
    &&& s.len() > 0 ==> !is_white(s[0]) && !is_white(s.last())
    &&& !s.contains(':')
    &&& find(s, SENTINEL@) is None
}

/// A method reference has what stands before its colons as its qualifier and what stands behind
/// them as the member that is being typed; `new` behind them asks for the type before them.
pub proof fn lemma_method_references(
    ctx: &JavaContextExtractor,
    n: NodeId,
    qualifier: Seq<char>,
    member: Seq<char>,
)
    requires
        ctx.text_to_cursor(n) == qualifier + seq![':', ':'] + member,
        is_side(qualifier),
        is_side(member),
        member.len() > 0 ==> member[0] != '<',
    ensures
        ({
            let is_constructor = member.len() >= 3 && member.take(3) == seq!['n', 'e', 'w'];
            method_reference_location(ctx, n) == (
                LocationView::MethodReference {
                    qualifier_expr: qualifier,
                    member_prefix: member,
                    is_constructor,
                },
                if is_constructor {
                    qualifier
                } else {
                    member
                },
            )
        }),
{
    let raw = ctx.text_to_cursor(n);
    let at = qualifier.len() as int;
    reveal_strlit("::");
    reveal_strlit("new");
    assert("::"@ =~= seq![':', ':']);
    assert("new"@ =~= seq!['n', 'e', 'w']);
    assert(raw.subrange(at, at + 2) =~= "::"@);
    lemma_find_from(raw, "::"@, 0);
    let i = find(raw, "::"@)->0;
    if i < at {
        assert(raw.subrange(i, i + 2)[0] == raw[i]);
        assert(qualifier.contains(raw[i]));
    } else if i > at {
        assert(raw.subrange(at, at + "::"@.len()) != "::"@);
    }
    assert(raw.take(at) =~= qualifier);
    assert(raw.skip(at + 2) =~= member);
    lemma_trim_keeps(qualifier);
    lemma_trim_keeps(member);
    lemma_run_end(member, CharClass::White, 0);
    assert(trim_start(member) =~= member);
    assert(unmarked(qualifier) == qualifier);
    assert(unmarked(member) == member);
}

// ---- constructors ------------------------------------------------------------------------------

/// The class that a constructor call creates is completed by what is typed of it, its type
/// arguments left out.
pub proof fn lemma_constructors(
    ctx: &JavaContextExtractor,
    n: NodeId,
    ty: NodeId,
    class: Seq<char>,
    args: Seq<char>,
)
    requires
        ctx.tree.field_of(n, "type"@) == Some(ty),
        ctx.text_to_cursor(ty) == class + args,
        args.len() == 0 || args[0] == '<',
        !class.contains('<'),
        class.len() > 0 ==> !is_white(class[0]) && !is_white(class.last()),
        find(class + args, SENTINEL@) is None,
        !ctx.piece(ctx.offset as int, ctx.tree.start_of(ty)).contains('\n'),
        forall|i: int|
            0 <= i < ctx.tree.kids(n).len() ==> ctx.tree.kind_of(#[trigger] ctx.tree.kids(n)[i])
                != "."@,
    ensures
        ({
            let (loc, query) = constructor_location(ctx, n);
            &&& query == class
            &&& loc matches LocationView::ConstructorCall {
                class_prefix,
                qualifier_expr,
                qualifier_owner_internal,
                ..
            } && class_prefix == class && qualifier_expr is None && qualifier_owner_internal is None
        }),
{
    let s = class + args;
    assert(unmarked(s) == s);
    lemma_index_from(s, '<', 0);
    match index_of(s, '<') {
        Some(i) => {
            if i < class.len() {
                assert(class.contains(s[i]));
            }
            if args.len() > 0 {
                assert(s[class.len() as int] == '<');
            }
            assert(s.take(i) =~= class);
        },
        None => {
            if args.len() > 0 {
                assert(s[class.len() as int] == '<');
            }
            assert(s =~= class);
        },
    }
    lemma_trim_keeps(class);
    if let Some(i) = qualified_new(&ctx.tree, n) {
        lemma_place_in_range(&ctx.tree, ctx.tree.kids(n), "new"@, 0);
        assert(ctx.tree.kind_of(ctx.tree.kids(n)[i - 1]) != "."@);
    }
}

proof fn lemma_place_in_range(t: &SyntaxTree, ids: Seq<NodeId>, kind: Seq<char>, i: int)
    requires
        0 <= i,
    ensures
        place_of_kind(t, ids, kind, i) matches Some(p) ==> i <= p < ids.len() && t.kind_of(ids[p])
            == kind,
    decreases ids.len() - i,
{
    if i < ids.len() && t.kind_of(ids[i]) != kind {
        lemma_place_in_range(t, ids, kind, i + 1);
    }
}

/// An object that initializes a variable is expected to be of the type that the variable is
/// declared with.
pub proof fn lemma_expected_types(
    ctx: &JavaContextExtractor,
    n: NodeId,
    decl: NodeId,
    i: int,
)
    requires
        ctx.tree.ancestor(n, "local_variable_declaration"@) == Some(decl),
        0 <= i < ctx.tree.named_kids(decl).len(),
        ctx.tree.kind_of(ctx.tree.named_kids(decl)[i]) != "modifiers"@,
        ctx.text_of(ctx.tree.named_kids(decl)[i]).len() > 0,
        forall|q: int|
            0 <= q < i ==> ctx.tree.kind_of(#[trigger] ctx.tree.named_kids(decl)[q])
                == "modifiers"@,
    ensures
        constructor_location(ctx, n).0 matches LocationView::ConstructorCall { expected_type, .. }
            ==> expected_type == Some(ctx.text_of(ctx.tree.named_kids(decl)[i])),
{
    lemma_first_text(ctx, ctx.tree.named_kids(decl), 0, i);
}

proof fn lemma_first_text(ctx: &JavaContextExtractor, ids: Seq<NodeId>, j: int, i: int)
    requires
        0 <= j <= i < ids.len(),
        ctx.tree.kind_of(ids[i]) != "modifiers"@,
        ctx.text_of(ids[i]).len() > 0,
        forall|q: int| j <= q < i ==> ctx.tree.kind_of(#[trigger] ids[q]) == "modifiers"@,
    ensures
        first_text_from(ctx, ids, j) == Some(ctx.text_of(ids[i])),
    decreases i - j,
{
    if j < i {
        lemma_first_text(ctx, ids, j + 1, i);
    }
}

// ---- identifiers in declarations ---------------------------------------------------------------

/// The name of a parameter is the name of a variable of the parameter's type; any other identifier
/// of a parameter is a type.
pub proof fn lemma_parameters(ctx: &JavaContextExtractor, id: NodeId, param: NodeId, ty: NodeId)
    requires
        ctx.tree.field_of(param, "type"@) == Some(ty),
    ensures
        ctx.tree.field_of(param, "name"@) == Some(id) ==> in_parameter(ctx, id, param) == (
            LocationView::VariableName { type_text: trim(ctx.text_of(ty)) },
            Seq::<char>::empty(),
        ),
        ctx.tree.field_of(param, "name"@) != Some(id) ==> in_parameter(ctx, id, param) == (
            LocationView::TypeAnnotation { prefix: ctx.text_to_cursor(id) },
            ctx.text_to_cursor(id),
        ),
{
}

/// In a declaration that was read as it is meant, its first part is a type that is being typed, and
/// the names of its variables are names of variables of that type.
pub proof fn lemma_declarations(
    ctx: &JavaContextExtractor,
    id: NodeId,
    decl: NodeId,
    i: int,
)
    requires
        !misread_expression(ctx, id, decl),
        ctx.tree.first_kind(ctx.tree.named_kids(decl), "variable_declarator"@) is Some,
        ctx.tree.ancestor(id, "ERROR"@) is None,
        0 <= i < ctx.tree.named_kids(decl).len(),
        ctx.tree.kind_of(ctx.tree.named_kids(decl)[i]) != "modifiers"@,
        forall|q: int|
            0 <= q < i ==> ctx.tree.kind_of(#[trigger] ctx.tree.named_kids(decl)[q])
                == "modifiers"@,
    ensures
        ctx.tree.named_kids(decl)[i] == id ==> in_declaration(ctx, id, decl) == (
            LocationView::TypeAnnotation { prefix: ctx.text_to_cursor(id) },
            ctx.text_to_cursor(id),
        ),
        ctx.tree.named_kids(decl)[i] != id && (exists|j: int|
            0 <= j < ctx.tree.named_kids(decl).len() && ctx.tree.kind_of(
                #[trigger] ctx.tree.named_kids(decl)[j],
            ) == "variable_declarator"@ && ctx.tree.field_of(ctx.tree.named_kids(decl)[j], "name"@)
                == Some(id)) ==> in_declaration(ctx, id, decl) == (
            LocationView::VariableName {
                type_text: trim(ctx.text_of(ctx.tree.named_kids(decl)[i])),
            },
            Seq::<char>::empty(),
        ),
{
    let t = &ctx.tree;
    let ids = t.named_kids(decl);
    lemma_first_other_is(ctx.tree, ids, "modifiers"@, 0, i);
    assert forall|j: int|
        0 <= j < ids.len() && t.kind_of(#[trigger] ids[j]) == "variable_declarator"@ && t.field_of(
            ids[j],
            "name"@,
        ) == Some(id) implies name_position(t, id, decl) by {
        lemma_name_position(t, id, ids, 0, j);
    }
}

proof fn lemma_first_other_is(t: SyntaxTree, ids: Seq<NodeId>, kind: Seq<char>, j: int, i: int)
    requires
        0 <= j <= i < ids.len(),
        t.kind_of(ids[i]) != kind,
        forall|q: int| j <= q < i ==> t.kind_of(#[trigger] ids[q]) == kind,
    ensures
        t.first_other_from(ids, kind, j) == Some(ids[i]),
    decreases i - j,
{
    if j < i {
        lemma_first_other_is(t, ids, kind, j + 1, i);
    }
}

proof fn lemma_name_position(t: &SyntaxTree, id: NodeId, ids: Seq<NodeId>, i: int, j: int)
    requires
        0 <= i <= j < ids.len(),
        t.kind_of(ids[j]) == "variable_declarator"@,
        t.field_of(ids[j], "name"@) == Some(id),
    ensures
        name_position_from(t, id, ids, i),
    decreases j - i,
{
    if i < j {
        lemma_name_position(t, id, ids, i + 1, j);
    }
}

// ---- arguments ---------------------------------------------------------------------------------

/// A list of arguments in which no argument that ends before the cursor has a dot behind it.
pub open spec fn no_dots_behind(ctx: &JavaContextExtractor, ids: Seq<NodeId>) -> bool {
    forall|i: int|
        0 <= i < ids.len() ==> dotted_rest(
            ctx.piece(ctx.tree.end_of(#[trigger] ids[i]), ctx.offset as int),
        ) is None
}

proof fn lemma_no_dotted_argument(ctx: &JavaContextExtractor, ids: Seq<NodeId>, i: int)
    requires
        0 <= i,
        no_dots_behind(ctx, ids),
    ensures
        dotted_argument_from(ctx, ids, i) is None,
    decreases ids.len() - i,
{
    if i < ids.len() {
        lemma_no_dotted_argument(ctx, ids, i + 1);
    }
}

/// Right behind the bracket or a comma, an argument begins.
pub proof fn lemma_fresh_arguments(ctx: &JavaContextExtractor, list: NodeId, text: Seq<char>)
    requires
        ctx.piece(ctx.tree.start_of(list), ctx.offset as int) == text,
        text.len() > 0,
        text.last() == ',' || text.last() == '(',
        find(text, SENTINEL@) is None,
        no_dots_behind(ctx, ctx.tree.named_kids(list)),
    ensures
        argument_list_location(ctx, list) == (
            LocationView::MethodArgument { prefix: Seq::<char>::empty() },
            Seq::<char>::empty(),
        ),
{
    lemma_no_dotted_argument(ctx, ctx.tree.named_kids(list), 0);
    assert(unmarked(text) == text);
    lemma_run_start(text, CharClass::White, text.len() as int);
    assert(trim_end(text) =~= text);
}

/// An identifier that ends at the cursor is the argument that is being typed, up to the cursor.
pub proof fn lemma_typed_arguments(ctx: &JavaContextExtractor, list: NodeId, k: int, text: Seq<char>)
    requires
        ctx.wf(),
        ctx.tree.has(list),
        0 <= k < ctx.tree.named_kids(list).len(),
        ctx.tree.kind_of(ctx.tree.named_kids(list)[k]) == "identifier"@,
        ctx.tree.start_of(ctx.tree.named_kids(list)[k]) < ctx.offset,
        ctx.tree.end_of(ctx.tree.named_kids(list)[k]) >= ctx.offset,
        forall|q: int|
            0 <= q < k ==> ctx.tree.end_of(#[trigger] ctx.tree.named_kids(list)[q]) < ctx.offset - 1,
        find(ctx.text_to_cursor(ctx.tree.named_kids(list)[k]), SENTINEL@) is None,
        ctx.piece(ctx.tree.start_of(list), ctx.offset as int) == text,
        text.len() > 0,
        text.last() != ',' && text.last() != '(' && !is_white(text.last()),
        find(text, SENTINEL@) is None,
        no_dots_behind(ctx, ctx.tree.named_kids(list)),
    ensures
        argument_list_location(ctx, list) == (
            LocationView::MethodArgument {
                prefix: ctx.text_to_cursor(ctx.tree.named_kids(list)[k]),
            },
            ctx.text_to_cursor(ctx.tree.named_kids(list)[k]),
        ),
{
    let ids = ctx.tree.named_kids(list);
    let id = ids[k];
    assert(ctx.tree.nodes@[list as int].placed(list as int, ctx.tree.nodes@.len() as int));
    assert(ctx.tree.nodes@[id as int].start <= ctx.tree.nodes@[id as int].end
        <= ctx.source@.len());
    lemma_no_dotted_argument(ctx, ids, 0);
    assert(unmarked(text) == text);
    lemma_run_start(text, CharClass::White, text.len() as int);
    assert(trim_end(text) =~= text);
    lemma_near_argument(ctx, ids, 0, k);
    let s = ctx.text_to_cursor(id);
    assert(unmarked(s) == s);
    assert(s.len() > 0);
}

proof fn lemma_near_argument(ctx: &JavaContextExtractor, ids: Seq<NodeId>, i: int, k: int)
    requires
        0 <= i <= k < ids.len(),
        ctx.tree.start_of(ids[k]) < ctx.offset,
        ctx.tree.end_of(ids[k]) >= ctx.offset,
        forall|q: int| i <= q < k ==> ctx.tree.end_of(#[trigger] ids[q]) < ctx.offset - 1,
    ensures
        list_prefix_from(ctx, ids, i) == argument_prefix(ctx, ids[k]),
    decreases k - i,
{
    if i < k {
        lemma_near_argument(ctx, ids, i + 1, k);
    }
}

// ---- labels ------------------------------------------------------------------------------------

/// In the label of a jump, the labels are asked for that begin with what is typed of it.
pub proof fn lemma_labels(ctx: &JavaContextExtractor, stmt: NodeId, k: int)
    requires
        ctx.tree.kind_of(stmt) == "break_statement"@ || ctx.tree.kind_of(stmt)
            == "continue_statement"@,
        0 <= k < ctx.tree.named_kids(stmt).len(),
        ctx.tree.kind_of(ctx.tree.named_kids(stmt)[k]) == "identifier"@,
        forall|q: int|
            0 <= q < k ==> ctx.tree.kind_of(#[trigger] ctx.tree.named_kids(stmt)[q])
                != "identifier"@,
        ctx.tree.start_of(ctx.tree.named_kids(stmt)[k]) <= ctx.offset <= ctx.tree.end_of(
            ctx.tree.named_kids(stmt)[k],
        ),
    ensures
        label_location(ctx, stmt) == Some(
            (
                LocationView::StatementLabel {
                    kind: if ctx.tree.kind_of(stmt) == "break_statement"@ {
                        StatementLabelCompletionKind::Break
                    } else {
                        StatementLabelCompletionKind::Continue
                    },
                    prefix: ctx.text_to_cursor(ctx.tree.named_kids(stmt)[k]),
                },
                ctx.text_to_cursor(ctx.tree.named_kids(stmt)[k]),
            ),
        ),
{
    let t = &ctx.tree;
    lemma_node_kinds_differ();
    lemma_first_kind_is(ctx.tree, t.named_kids(stmt), "identifier"@, 0, k);
}

proof fn lemma_first_kind_is(t: SyntaxTree, ids: Seq<NodeId>, kind: Seq<char>, j: int, i: int)
    requires
        0 <= j <= i < ids.len(),
        t.kind_of(ids[i]) == kind,
        forall|q: int| j <= q < i ==> t.kind_of(#[trigger] ids[q]) != kind,
    ensures
        t.first_kind_from(ids, kind, j) == Some(ids[i]),
    decreases i - j,
{
    if j < i {
        lemma_first_kind_is(t, ids, kind, j + 1, i);
    }
}

} // verus!
