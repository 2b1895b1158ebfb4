//! Rules for the labels of jump statements.
use vstd::prelude::*;
use vstd::slice::slice_subrange;

use crate::extractor::{cursor_truncated_text, JavaContextExtractor};
use crate::location::arguments::{word_at_cursor, word_before_cursor};
use crate::location::handlers::{at_label, jump_kind, jump_kind_of, statement_label};
use crate::location::utils::Located;
use crate::semantic::{CursorLocation, StatementLabelCompletionKind};
use crate::syntax::{KindClass, NodeId, SyntaxTree};
use crate::text::{
    is_word, strip_prefix, strip_suffix, trim, trim_end, trimmed, trimmed_end, without_prefix,
    without_suffix, word,
};

verus! {

/// The length of the keyword of a jump statement.
pub open spec fn keyword_len(kind: StatementLabelCompletionKind) -> int {
    match kind {
        StatementLabelCompletionKind::Break => 5,
        StatementLabelCompletionKind::Continue => 8,
    }
}

/// Whether the cursor is where the label of the jump statement stands or would stand.
pub open spec fn in_label_slot(
    ctx: &JavaContextExtractor,
    stmt: NodeId,
    kind: StatementLabelCompletionKind,
) -> bool {
    let t = &ctx.tree;
    match t.first_kind(t.named_kids(stmt), "identifier"@) {
        Some(id) => t.start_of(id) <= ctx.offset <= t.end_of(id),
        None => t.start_of(stmt) + keyword_len(kind) <= ctx.offset < t.end_of(stmt),
    }
}

pub fn is_active_jump_label_slot(
    ctx: &JavaContextExtractor,
    stmt: NodeId,
    kind: StatementLabelCompletionKind,
) -> (r: bool)
    requires
        ctx.wf(),
        ctx.tree.has(stmt),
    ensures
        r == in_label_slot(ctx, stmt, kind),
{
    let t = &ctx.tree;
    match t.first_of_kind(t.named_children(stmt), "identifier") {
        Some(id) => ctx.offset >= t.start(id) && ctx.offset <= t.end(id),
        None => {
            let n: usize = match kind {
                StatementLabelCompletionKind::Break => 5,
                StatementLabelCompletionKind::Continue => 8,
            };
            ctx.offset >= n && ctx.offset - n >= t.start(stmt) && ctx.offset < t.end(stmt)
        },
    }
}

/// What follows the keyword of a jump statement.
pub open spec fn label_in_text(s: Seq<char>) -> Seq<char> {
    let u = trim_end(s);
    if let Some(rest) = strip_prefix(u, "break"@) {
        trim(rest)
    } else if let Some(rest) = strip_prefix(u, "continue"@) {
        trim(rest)
    } else {
        Seq::empty()
    }
}

pub fn extract_jump_label_prefix_from_text(s: &[char]) -> (r: &[char])
    ensures
        r@ == label_in_text(s@),
{
    let u = trimmed_end(s);
    if let Some(rest) = without_prefix(u, "break") {
        return trimmed(rest);
    }
    if let Some(rest) = without_prefix(u, "continue") {
        return trimmed(rest);
    }
    slice_subrange(u, 0, 0)
}

/// The label of a jump statement at the cursor.
pub open spec fn jump_location(ctx: &JavaContextExtractor, stmt: NodeId) -> Option<Located> {
    let t = &ctx.tree;
    match jump_kind(t.kind_of(stmt)) {
        Some(kind) => if !in_label_slot(ctx, stmt, kind) {
            None
        } else {
            Some(
                at_label(
                    kind,
                    match t.first_kind(t.named_kids(stmt), "identifier"@) {
                        Some(id) => ctx.text_to_cursor(id),
                        None => label_in_text(ctx.piece(t.start_of(stmt), ctx.offset as int)),
                    },
                ),
            )
        },
        None => None,
    }
}

pub fn jump_statement_location(ctx: &JavaContextExtractor, stmt: NodeId) -> (r: Option<
    (CursorLocation, String),
>)
    requires
        ctx.wf(),
        ctx.tree.has(stmt),
    ensures
        r.deep_view() == jump_location(ctx, stmt),
{
    let t = &ctx.tree;
    match jump_kind_of(t, stmt) {
        Some(kind) => {
            if !is_active_jump_label_slot(ctx, stmt, kind) {
                return None;
            }
            match t.first_of_kind(t.named_children(stmt), "identifier") {
                Some(id) => Some(statement_label(kind, cursor_truncated_text(ctx, id))),
                None => Some(
                    statement_label(
                        kind,
                        extract_jump_label_prefix_from_text(
                            ctx.byte_slice(t.start(stmt), ctx.offset),
                        ),
                    ),
                ),
            }
        },
        None => None,
    }
}

/// Whether a word that is cut off here would end a longer word.
pub open spec fn ends_word(s: Seq<char>) -> bool {
    s.len() > 0 && is_word(s.last())
}

fn is_word_end(s: &[char]) -> (r: bool)
    ensures
        r == ends_word(s@),
{
    let n: usize = s.len();
    n > 0 && word(s[n - 1])
}

/// The jump keyword that ends a text, and whether it stands by itself.
pub open spec fn ending_jump(s: Seq<char>) -> Option<(StatementLabelCompletionKind, bool)> {
    if let Some(rest) = strip_suffix(s, "break"@) {
        Some((StatementLabelCompletionKind::Break, !ends_word(rest)))
    } else if let Some(rest) = strip_suffix(s, "continue"@) {
        Some((StatementLabelCompletionKind::Continue, !ends_word(rest)))
    } else {
        None
    }
}

fn ending_jump_of(s: &[char]) -> (r: Option<(StatementLabelCompletionKind, bool)>)
    ensures
        r == ending_jump(s@),
{
    if let Some(rest) = without_suffix(s, "break") {
        return Some((StatementLabelCompletionKind::Break, !is_word_end(rest)));
    }
    if let Some(rest) = without_suffix(s, "continue") {
        return Some((StatementLabelCompletionKind::Continue, !is_word_end(rest)));
    }
    None
}

/// Where the scope of statements begins that holds the node.
pub open spec fn scope_start(t: &SyntaxTree, n: NodeId) -> int {
    if KindClass::StatementScope.has(t.kind_of(n)) {
        t.start_of(n)
    } else {
        match t.ancestor_in(n, KindClass::StatementScope) {
            Some(a) => t.start_of(a),
            None => 0,
        }
    }
}

fn find_scope_start(t: &SyntaxTree, n: NodeId) -> (r: usize)
    requires
        t.has(n),
        t.linked(),
    ensures
        r == scope_start(t, n),
{
    if t.is_in(n, KindClass::StatementScope) {
        t.start(n)
    } else {
        match t.ancestor_of_class(n, KindClass::StatementScope) {
            Some(a) => t.start(a),
            None => 0,
        }
    }
}

/// The label of a jump that the parser did not recognize: a jump keyword before the cursor, or
/// before the word at the cursor.
pub open spec fn partial_jump_location(ctx: &JavaContextExtractor, n: NodeId) -> Option<Located> {
    let lower = scope_start(&ctx.tree, n);
    match ending_jump(trim_end(ctx.piece(lower, ctx.offset as int))) {
        Some((kind, alone)) => if alone {
            Some(at_label(kind, Seq::empty()))
        } else {
            None
        },
        None => {
            let prefix = word_at_cursor(ctx, lower);
            if prefix.len() == 0 {
                None
            } else {
                match ending_jump(trim_end(ctx.piece(lower, ctx.offset - prefix.len()))) {
                    Some((kind, alone)) => if alone {
                        Some(at_label(kind, prefix))
                    } else {
                        None
                    },
                    None => None,
                }
            }
        },
    }
}

pub fn detect_partial_jump_label_location(ctx: &JavaContextExtractor, n: NodeId) -> (r: Option<
    (CursorLocation, String),
>)
    requires
        ctx.wf(),
        ctx.tree.has(n),
    ensures
        r.deep_view() == partial_jump_location(ctx, n),
{
    let lower = find_scope_start(&ctx.tree, n);
    match ending_jump_of(trimmed_end(ctx.byte_slice(lower, ctx.offset))) {
        Some((kind, alone)) => if alone {
            Some((CursorLocation::StatementLabel { kind, prefix: String::new() }, String::new()))
        } else {
            None
        },
        None => {
            let prefix = word_before_cursor(ctx, lower);
            if prefix.len() == 0 {
                return None;
            }
            match ending_jump_of(trimmed_end(ctx.byte_slice(lower, ctx.offset - prefix.len()))) {
                Some((kind, alone)) => if alone {
                    Some(statement_label(kind, prefix))
                } else {
                    None
                },
                None => None,
            }
        },
    }
}

/// The label at the cursor, in a jump statement or where one is being typed.
pub open spec fn label_location(ctx: &JavaContextExtractor, n: NodeId) -> Option<Located> {
    let t = &ctx.tree;
    if KindClass::Jump.has(t.kind_of(n)) {
        jump_location(ctx, n)
    } else {
        match t.ancestor_in(n, KindClass::Jump) {
            Some(stmt) => jump_location(ctx, stmt),
            None => partial_jump_location(ctx, n),
        }
    }
}

pub fn detect_statement_label_location(ctx: &JavaContextExtractor, n: NodeId) -> (r: Option<
    (CursorLocation, String),
>)
    requires
        ctx.wf(),
        ctx.tree.has(n),
    ensures
        r.deep_view() == label_location(ctx, n),
{
    let t = &ctx.tree;
    if t.is_in(n, KindClass::Jump) {
        return jump_statement_location(ctx, n);
    }
    match t.ancestor_of_class(n, KindClass::Jump) {
        Some(stmt) => jump_statement_location(ctx, stmt),
        None => detect_partial_jump_label_location(ctx, n),
    }
}

} // verus!
