//! How the size of a flattened program relates to the size of its source:
//! every flat instruction comes from at least one byte of source text, so
//! source that fits in an `i32` always flattens.

use crate::lang::ast::SpecInstr;
use crate::lang::desugar::{desugar_instr_spec, desugar_seq_spec, desugarable, desugarable_seq, lemma_desugar_seq_concat};
use crate::lang::parse::{
    block_stmt, body, kw_if, kw_reg, kw_while, lemma_kw_reg_pos, lemma_operator_pos, lemma_skip_ws, operator_stmt,
    parse_program,
    rest, skip_ws, statement, statements,
};
use crate::lang::{source_bytes, source_desugarable};
use vstd::prelude::*;

verus! {

/// A single statement flattens as the statement does.
proof fn lemma_desugar_single(i: SpecInstr)
    ensures
        desugar_seq_spec(seq![i]) == desugar_instr_spec(i),
        desugarable_seq(seq![i]) == desugarable(i),
{
    let one = seq![i];
    let none = Seq::<SpecInstr>::empty();
    assert(one.drop_last() =~= none);
    assert(one.last() == i);
    assert(desugar_seq_spec(none) =~= Seq::<crate::lang::ast::MachineInstr>::empty());
    assert(desugarable_seq(none));
    assert(desugar_seq_spec(one) == desugar_seq_spec(none) + desugar_instr_spec(i));
    assert(desugar_seq_spec(none) + desugar_instr_spec(i) =~= desugar_instr_spec(i));
}

/// A parsed block statement flattens, into no more instructions than the
/// bytes that it spans.
proof fn lemma_block_size(s: Seq<u8>, pos: int, is_while: bool)
    requires
        0 <= pos <= s.len(),
        s.len() <= i32::MAX,
    ensures
        block_stmt(s, pos, is_while) matches Some((i, e)) ==> desugarable(i) && desugar_instr_spec(i).len()
            <= e - pos,
    decreases rest(s, pos), 1int,
{
    let kw = if is_while {
        kw_while()
    } else {
        kw_if()
    };
    lemma_kw_reg_pos(s, pos, kw);
    if let Some((r, p)) = kw_reg(s, pos, kw) {
        lemma_body_size(s, p);
    }
}

/// A parsed statement flattens, into no more instructions than the bytes
/// that it spans.
proof fn lemma_statement_size(s: Seq<u8>, pos: int)
    requires
        0 <= pos <= s.len(),
        s.len() <= i32::MAX,
    ensures
        statement(s, pos) matches Some((i, e)) ==> desugarable(i) && desugar_instr_spec(i).len() <= e - pos,
    decreases rest(s, pos), 2int,
{
    let p = skip_ws(s, pos);
    lemma_skip_ws(s, pos);
    lemma_operator_pos(s, p);
    if let Some((op, e)) = operator_stmt(s, p) {
        lemma_skip_ws(s, e);
    } else {
        lemma_block_size(s, p, false);
        lemma_block_size(s, p, true);
        if let Some((i, e)) = block_stmt(s, p, false) {
            lemma_skip_ws(s, e);
        } else if let Some((i, e)) = block_stmt(s, p, true) {
            lemma_skip_ws(s, e);
        }
    }
}

/// Parsed statements flatten, into no more instructions than the bytes that
/// they span.
proof fn lemma_statements_size(s: Seq<u8>, pos: int)
    requires
        0 <= pos <= s.len(),
        s.len() <= i32::MAX,
    ensures
        statements(s, pos) matches Some((v, e)) ==> desugarable_seq(v) && desugar_seq_spec(v).len() <= e - pos,
    decreases rest(s, pos), 3int,
{
    lemma_statement_size(s, pos);
    match statement(s, pos) {
        Some((i, p)) => {
            if pos < p <= s.len() {
                lemma_statements_size(s, p);
                if let Some((more, e)) = statements(s, p) {
                    lemma_desugar_seq_concat(seq![i], more);
                    lemma_desugar_single(i);
                }
            }
        },
        None => {
            assert(desugar_seq_spec(Seq::<SpecInstr>::empty()).len() == 0);
        },
    }
}

/// A parsed block body flattens, into at most the bytes that it spans less
/// its two braces.
proof fn lemma_body_size(s: Seq<u8>, pos: int)
    requires
        0 <= pos <= s.len(),
        s.len() <= i32::MAX,
    ensures
        body(s, pos) matches Some((v, e)) ==> desugarable_seq(v) && desugar_seq_spec(v).len() + 2 <= e - pos,
    decreases rest(s, pos), 0int,
{
    let p = skip_ws(s, pos);
    lemma_skip_ws(s, pos);
    if 0 <= p < s.len() && s[p] == 123u8 {
        lemma_statements_size(s, p + 1);
        if let Some((v, e)) = statements(s, p + 1) {
            lemma_skip_ws(s, e);
        }
    }
}

/// Law: every flat instruction comes from at least one byte of source, so
/// the flattened program is never longer than the source, and source whose
/// UTF-8 form has fewer than `i32::MAX` bytes can always be flattened.
pub proof fn lemma_small_source_desugarable(source: Seq<char>)
    requires
        source_bytes(source).len() < i32::MAX,
    ensures
        source_desugarable(source),
        parse_program(source_bytes(source)) matches Ok(v) ==> desugar_seq_spec(v).len() <= source_bytes(
            source,
        ).len(),
{
    lemma_statements_size(source_bytes(source), 0);
}

} // verus!
