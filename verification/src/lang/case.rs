//! What parsing ignores: the ASCII case of letters, and which whitespace
//! byte separates statements. Rewriting a source byte by byte in a way that
//! the grammar cannot tell apart changes neither what it parses to nor where
//! parsing fails.

use crate::lang::parse::{
    ascii_lower, block_stmt, body, delim_at, digits_end, digits_value, is_arg_delim, is_digit,
    is_multispace, keyword_at, kw_add, kw_if, kw_mul, kw_pop, kw_push, kw_read, kw_reg, kw_reg_src,
    kw_rli, kw_rs, kw_rx, kw_s, kw_set, kw_sub, kw_while, kw_write, lang_value, lemma_digits_end,
    lemma_kw_reg_pos, lemma_operator_pos, lemma_skip_ws, lemma_stack_ident_pos,
    lemma_value_source_pos, number_usize, operator_stmt, parse_program, pop_stmt, push_stmt,
    reg_ident, rest, skip_ws, stack_ident, statement, statements, value_source
};
use vstd::prelude::*;

verus! {

/// The source with every byte rewritten by `f`.
pub open spec fn map_bytes(s: Seq<u8>, f: spec_fn(u8) -> u8) -> Seq<u8> {
    s.map_values(f)
}

/// The source with every ASCII letter in lower case.
pub open spec fn lower_all(s: Seq<u8>) -> Seq<u8> {
    map_bytes(s, |b: u8| ascii_lower(b))
}

/// The source with every carriage return (13) replaced by a line feed (10).
pub open spec fn line_feeds(s: Seq<u8>) -> Seq<u8> {
    map_bytes(s, |b: u8| if b == 13u8 { 10u8 } else { b })
}

/// Is every byte of the keyword a lower-case ASCII letter?
pub open spec fn letters(kw: Seq<u8>) -> bool {
    forall|i: int| 0 <= i < kw.len() ==> 97 <= #[trigger] kw[i] <= 122
}

/// Does the byte rewrite keep everything the grammar looks at: whitespace,
/// argument separators, digits and their values, braces, and letters up to
/// case?
pub open spec fn byte_map_ok(f: spec_fn(u8) -> u8) -> bool {
    forall|b: u8|
        {
            &&& is_multispace(#[trigger] f(b)) == is_multispace(b)
            &&& is_arg_delim(f(b)) == is_arg_delim(b)
            &&& is_digit(f(b)) == is_digit(b)
            &&& (is_digit(b) ==> f(b) == b)
            &&& (f(b) == 123u8) == (b == 123u8)
            &&& (f(b) == 125u8) == (b == 125u8)
            &&& (97 <= ascii_lower(f(b)) <= 122 || 97 <= ascii_lower(b) <= 122) ==> ascii_lower(f(b))
                == ascii_lower(b)
        }
}

/// Every keyword of the grammar is made of lower-case letters.
proof fn lemma_keywords_letters()
    ensures
        letters(kw_rli()),
        letters(kw_rs()),
        letters(kw_rx()),
        letters(kw_s()),
        letters(kw_read()),
        letters(kw_write()),
        letters(kw_set()),
        letters(kw_add()),
        letters(kw_sub()),
        letters(kw_mul()),
        letters(kw_push()),
        letters(kw_pop()),
        letters(kw_if()),
        letters(kw_while()),
{
}

proof fn lemma_map_byte(f: spec_fn(u8) -> u8, b: u8)
    requires
        byte_map_ok(f),
    ensures
        is_multispace(f(b)) == is_multispace(b),
        is_arg_delim(f(b)) == is_arg_delim(b),
        is_digit(f(b)) == is_digit(b),
        is_digit(b) ==> f(b) == b,
        (f(b) == 123u8) == (b == 123u8),
        (f(b) == 125u8) == (b == 125u8),
        (97 <= ascii_lower(f(b)) <= 122 || 97 <= ascii_lower(b) <= 122) ==> ascii_lower(f(b))
            == ascii_lower(b),
{
}

/// The byte at a position of the rewritten source.
proof fn lemma_map_at(f: spec_fn(u8) -> u8, s: Seq<u8>, k: int)
    requires
        0 <= k < s.len(),
    ensures
        map_bytes(s, f).len() == s.len(),
        map_bytes(s, f)[k] == f(s[k]),
{
}

proof fn lemma_skip_ws_mapped(f: spec_fn(u8) -> u8, s: Seq<u8>, pos: int)
    requires
        byte_map_ok(f),
    ensures
        skip_ws(map_bytes(s, f), pos) == skip_ws(s, pos),
    decreases s.len() - pos,
{
    if 0 <= pos < s.len() {
        lemma_map_at(f, s, pos);
        lemma_map_byte(f, s[pos]);
        if is_multispace(s[pos]) {
            lemma_skip_ws_mapped(f, s, pos + 1);
        }
    }
}

proof fn lemma_digits_end_mapped(f: spec_fn(u8) -> u8, s: Seq<u8>, pos: int)
    requires
        byte_map_ok(f),
    ensures
        digits_end(map_bytes(s, f), pos) == digits_end(s, pos),
    decreases s.len() - pos,
{
    if 0 <= pos < s.len() {
        lemma_map_at(f, s, pos);
        lemma_map_byte(f, s[pos]);
        if is_digit(s[pos]) {
            lemma_digits_end_mapped(f, s, pos + 1);
        }
    }
}

proof fn lemma_digits_value_mapped(f: spec_fn(u8) -> u8, s: Seq<u8>, from: int, to: int)
    requires
        byte_map_ok(f),
        0 <= from,
        to <= s.len(),
        forall|k: int| from <= k < to ==> is_digit(#[trigger] s[k]),
    ensures
        digits_value(map_bytes(s, f), from, to) == digits_value(s, from, to),
    decreases to - from,
{
    if from < to {
        lemma_digits_value_mapped(f, s, from, to - 1);
        lemma_map_at(f, s, to - 1);
        lemma_map_byte(f, s[to - 1]);
    }
}

proof fn lemma_number_mapped(f: spec_fn(u8) -> u8, s: Seq<u8>, pos: int)
    requires
        byte_map_ok(f),
        0 <= pos,
    ensures
        number_usize(map_bytes(s, f), pos) == number_usize(s, pos),
        lang_value(map_bytes(s, f), pos) == lang_value(s, pos),
{
    lemma_digits_end_mapped(f, s, pos);
    lemma_digits_end(s, pos);
    let e = digits_end(s, pos);
    if e > pos {
        lemma_digits_value_mapped(f, s, pos, e);
    }
}

proof fn lemma_keyword_mapped(f: spec_fn(u8) -> u8, s: Seq<u8>, pos: int, kw: Seq<u8>)
    requires
        byte_map_ok(f),
        letters(kw),
    ensures
        keyword_at(map_bytes(s, f), pos, kw) == keyword_at(s, pos, kw),
{
    let l = map_bytes(s, f);
    assert(l.len() == s.len());
    if 0 <= pos && pos + kw.len() <= s.len() {
        if keyword_at(s, pos, kw) {
            assert forall|i: int| 0 <= i < kw.len() implies ascii_lower(#[trigger] l[pos + i]) == kw[i] by {
                lemma_map_at(f, s, pos + i);
                lemma_map_byte(f, s[pos + i]);
            }
        }
        if keyword_at(l, pos, kw) {
            assert forall|i: int| 0 <= i < kw.len() implies ascii_lower(#[trigger] s[pos + i]) == kw[i] by {
                lemma_map_at(f, s, pos + i);
                lemma_map_byte(f, s[pos + i]);
                assert(ascii_lower(l[pos + i]) == kw[i]);
            }
        }
    }
}

proof fn lemma_delim_mapped(f: spec_fn(u8) -> u8, s: Seq<u8>, pos: int)
    requires
        byte_map_ok(f),
    ensures
        delim_at(map_bytes(s, f), pos) == delim_at(s, pos),
{
    if 0 <= pos < s.len() {
        lemma_map_at(f, s, pos);
        lemma_map_byte(f, s[pos]);
    }
}

proof fn lemma_reg_ident_mapped(f: spec_fn(u8) -> u8, s: Seq<u8>, pos: int)
    requires
        byte_map_ok(f),
        0 <= pos,
    ensures
        reg_ident(map_bytes(s, f), pos) == reg_ident(s, pos),
{
    reveal(reg_ident);
    lemma_keywords_letters();
    lemma_keyword_mapped(f, s, pos, kw_rli());
    lemma_keyword_mapped(f, s, pos, kw_rs());
    lemma_keyword_mapped(f, s, pos, kw_rx());
    lemma_number_mapped(f, s, pos + 2);
}

proof fn lemma_stack_ident_mapped(f: spec_fn(u8) -> u8, s: Seq<u8>, pos: int)
    requires
        byte_map_ok(f),
        0 <= pos,
    ensures
        stack_ident(map_bytes(s, f), pos) == stack_ident(s, pos),
{
    reveal(stack_ident);
    lemma_skip_ws_mapped(f, s, pos);
    lemma_skip_ws(s, pos);
    let p = skip_ws(s, pos);
    lemma_keywords_letters();
    lemma_keyword_mapped(f, s, p, kw_s());
    lemma_number_mapped(f, s, p + 1);
}

proof fn lemma_value_source_mapped(f: spec_fn(u8) -> u8, s: Seq<u8>, pos: int)
    requires
        byte_map_ok(f),
        0 <= pos,
    ensures
        value_source(map_bytes(s, f), pos) == value_source(s, pos),
{
    reveal(value_source);
    lemma_number_mapped(f, s, pos);
    lemma_reg_ident_mapped(f, s, pos);
}

proof fn lemma_kw_reg_mapped(f: spec_fn(u8) -> u8, s: Seq<u8>, pos: int, kw: Seq<u8>)
    requires
        byte_map_ok(f),
        letters(kw),
        0 <= pos,
    ensures
        kw_reg(map_bytes(s, f), pos, kw) == kw_reg(s, pos, kw),
{
    reveal(kw_reg);
    lemma_keyword_mapped(f, s, pos, kw);
    lemma_delim_mapped(f, s, pos + kw.len());
    if pos + kw.len() + 1 >= 0 {
        lemma_reg_ident_mapped(f, s, pos + kw.len() + 1);
    }
}

proof fn lemma_kw_reg_src_mapped(f: spec_fn(u8) -> u8, s: Seq<u8>, pos: int, kw: Seq<u8>)
    requires
        byte_map_ok(f),
        letters(kw),
        0 <= pos,
        kw.len() > 0,
    ensures
        kw_reg_src(map_bytes(s, f), pos, kw) == kw_reg_src(s, pos, kw),
{
    reveal(kw_reg_src);
    lemma_keywords_letters();
    lemma_kw_reg_mapped(f, s, pos, kw);
    lemma_kw_reg_pos(s, pos, kw);
    if let Some((_, p)) = kw_reg(s, pos, kw) {
        lemma_delim_mapped(f, s, p);
        lemma_value_source_mapped(f, s, p + 1);
    }
}

proof fn lemma_push_pop_mapped(f: spec_fn(u8) -> u8, s: Seq<u8>, pos: int)
    requires
        byte_map_ok(f),
        0 <= pos,
    ensures
        push_stmt(map_bytes(s, f), pos) == push_stmt(s, pos),
        pop_stmt(map_bytes(s, f), pos) == pop_stmt(s, pos),
{
    reveal(push_stmt);
    reveal(pop_stmt);
    lemma_keywords_letters();
    lemma_keyword_mapped(f, s, pos, kw_push());
    lemma_keyword_mapped(f, s, pos, kw_pop());
    lemma_delim_mapped(f, s, pos + 4);
    lemma_delim_mapped(f, s, pos + 3);
    lemma_value_source_mapped(f, s, pos + 5);
    if let Some((_, p)) = value_source(s, pos + 5) {
        lemma_value_source_pos(s, pos + 5);
        lemma_delim_mapped(f, s, p);
        lemma_stack_ident_mapped(f, s, p + 1);
    }
    lemma_stack_ident_mapped(f, s, pos + 4);
    if let Some((_, p)) = stack_ident(s, pos + 4) {
        lemma_stack_ident_pos(s, pos + 4);
        lemma_delim_mapped(f, s, p);
        lemma_reg_ident_mapped(f, s, p + 1);
    }
}

proof fn lemma_operator_mapped(f: spec_fn(u8) -> u8, s: Seq<u8>, pos: int)
    requires
        byte_map_ok(f),
        0 <= pos,
    ensures
        operator_stmt(map_bytes(s, f), pos) == operator_stmt(s, pos),
{
    reveal(operator_stmt);
    lemma_keywords_letters();
    lemma_kw_reg_mapped(f, s, pos, kw_read());
    lemma_kw_reg_mapped(f, s, pos, kw_write());
    lemma_kw_reg_src_mapped(f, s, pos, kw_set());
    lemma_kw_reg_src_mapped(f, s, pos, kw_add());
    lemma_kw_reg_src_mapped(f, s, pos, kw_sub());
    lemma_kw_reg_src_mapped(f, s, pos, kw_mul());
    lemma_push_pop_mapped(f, s, pos);
}

proof fn lemma_block_mapped(f: spec_fn(u8) -> u8, s: Seq<u8>, pos: int, is_while: bool)
    requires
        byte_map_ok(f),
        0 <= pos <= s.len(),
    ensures
        block_stmt(map_bytes(s, f), pos, is_while) == block_stmt(s, pos, is_while),
    decreases rest(s, pos), 1int,
{
    let kw = if is_while {
        kw_while()
    } else {
        kw_if()
    };
    lemma_kw_reg_mapped(f, s, pos, kw);
    lemma_kw_reg_pos(s, pos, kw);
    if let Some((_, p)) = kw_reg(s, pos, kw) {
        lemma_body_mapped(f, s, p);
    }
}

proof fn lemma_statement_mapped(f: spec_fn(u8) -> u8, s: Seq<u8>, pos: int)
    requires
        byte_map_ok(f),
        0 <= pos <= s.len(),
    ensures
        statement(map_bytes(s, f), pos) == statement(s, pos),
    decreases rest(s, pos), 2int,
{
    lemma_skip_ws_mapped(f, s, pos);
    lemma_skip_ws(s, pos);
    let p = skip_ws(s, pos);
    lemma_operator_mapped(f, s, p);
    lemma_block_mapped(f, s, p, false);
    lemma_block_mapped(f, s, p, true);
    lemma_operator_pos(s, p);
    if let Some((_, e)) = operator_stmt(s, p) {
        lemma_skip_ws_mapped(f, s, e);
    }
    if let Some((_, e)) = block_stmt(s, p, false) {
        lemma_skip_ws_mapped(f, s, e);
    }
    if let Some((_, e)) = block_stmt(s, p, true) {
        lemma_skip_ws_mapped(f, s, e);
    }
}

proof fn lemma_statements_mapped(f: spec_fn(u8) -> u8, s: Seq<u8>, pos: int)
    requires
        byte_map_ok(f),
        0 <= pos <= s.len(),
    ensures
        statements(map_bytes(s, f), pos) == statements(s, pos),
    decreases rest(s, pos), 3int,
{
    lemma_statement_mapped(f, s, pos);
    if let Some((_, p)) = statement(s, pos) {
        if pos < p <= s.len() {
            lemma_statements_mapped(f, s, p);
        }
    }
}

proof fn lemma_body_mapped(f: spec_fn(u8) -> u8, s: Seq<u8>, pos: int)
    requires
        byte_map_ok(f),
        0 <= pos <= s.len(),
    ensures
        body(map_bytes(s, f), pos) == body(s, pos),
    decreases rest(s, pos), 0int,
{
    lemma_skip_ws_mapped(f, s, pos);
    lemma_skip_ws(s, pos);
    let p = skip_ws(s, pos);
    if 0 <= p < s.len() {
        lemma_map_at(f, s, p);
        lemma_map_byte(f, s[p]);
        lemma_statements_mapped(f, s, p + 1);
        if let Some((_, e)) = statements(s, p + 1) {
            lemma_skip_ws_mapped(f, s, e);
            lemma_skip_ws(s, e);
            let q = skip_ws(s, e);
            if 0 <= q < s.len() {
                lemma_map_at(f, s, q);
                lemma_map_byte(f, s[q]);
            }
        }
    }
}

/// Lower-casing keeps everything the grammar looks at.
proof fn lemma_lower_ok()
    ensures
        byte_map_ok(|b: u8| ascii_lower(b)),
{
}

/// Turning carriage returns into line feeds keeps everything the grammar
/// looks at: both are whitespace that separates statements, and neither is a
/// letter, a digit, a brace or an argument separator.
proof fn lemma_line_feeds_ok()
    ensures
        byte_map_ok(|b: u8| if b == 13u8 { 10u8 } else { b }),
{
}

/// Law: keywords and register and stack names are read without regard to
/// ASCII case, and nothing else in the grammar is a letter: a source in any
/// mix of cases parses exactly as its lower-case form does, to the same
/// statements or to a failure at the same position.
pub proof fn lemma_parse_ignores_case(s: Seq<u8>)
    ensures
        parse_program(lower_all(s)) == parse_program(s),
{
    lemma_lower_ok();
    lemma_statements_mapped(|b: u8| ascii_lower(b), s, 0);
}

/// Law: a carriage return separates statements as a line feed does, so line
/// endings do not matter: a source with `\r\n` (or a lone `\r`) parses
/// exactly as the same source with each carriage return made a line feed.
pub proof fn lemma_parse_ignores_line_endings(s: Seq<u8>)
    ensures
        parse_program(line_feeds(s)) == parse_program(s),
{
    lemma_line_feeds_ok();
    lemma_statements_mapped(|b: u8| if b == 13u8 { 10u8 } else { b }, s, 0);
}

} // verus!
