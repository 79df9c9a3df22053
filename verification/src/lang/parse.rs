//! The grammar of GDLK source text, and a parser for it.
//!
//! The grammar works on the UTF-8 bytes of the source. Keywords and register
//! names are matched without regard to ASCII case. A program is a sequence of
//! statements, each surrounded by any whitespace (space, tab, CR, LF):
//!
//! ```text
//! READ <reg>          WRITE <reg>
//! SET <reg> <value>   ADD <reg> <value>   SUB <reg> <value>   MUL <reg> <value>
//! PUSH <value> <stack>                    POP <stack> <reg>
//! IF <reg> { <statements> }               WHILE <reg> { <statements> }
//! ```
//!
//! where `<reg>` is `RLI`, `RSn` or `RXn`, `<value>` is a decimal number or a
//! register, `<stack>` is `Sn`, and arguments are separated by one space or
//! tab (a stack may be preceded by more whitespace).

use crate::lang::ast::{
    instr_model, instrs_model, Instr, LangValue, Operator, RegisterRef, SpecInstr, StackIdentifier,
    ValueSource,
};
use vstd::prelude::*;

verus! {

broadcast use {
    vstd::std_specs::vec::group_vec_axioms,
    vstd::array::group_array_axioms,
    vstd::slice::group_slice_axioms,
};

// ---------------------------------------------------------------------------
// The grammar
// ---------------------------------------------------------------------------

/// Space, tab, carriage return or line feed.
pub open spec fn is_multispace(b: u8) -> bool {
    b == 32 || b == 9 || b == 13 || b == 10
}

/// Space or tab: the separator between the arguments of a statement.
pub open spec fn is_arg_delim(b: u8) -> bool {
    b == 32 || b == 9
}

/// An ASCII decimal digit.
pub open spec fn is_digit(b: u8) -> bool {
    48 <= b <= 57
}

/// The byte in ASCII lower case.
pub open spec fn ascii_lower(b: u8) -> u8 {
    if 65 <= b <= 90 {
        (b + 32) as u8
    } else {
        b
    }
}

/// The position after the whitespace that starts at `pos`.
pub open spec fn skip_ws(s: Seq<u8>, pos: int) -> int
    decreases s.len() - pos,
{
    if 0 <= pos < s.len() && is_multispace(s[pos]) {
        skip_ws(s, pos + 1)
    } else {
        pos
    }
}

/// The position after the digits that start at `pos`.
pub open spec fn digits_end(s: Seq<u8>, pos: int) -> int
    decreases s.len() - pos,
{
    if 0 <= pos < s.len() && is_digit(s[pos]) {
        digits_end(s, pos + 1)
    } else {
        pos
    }
}

/// The number that the decimal digits `s[from..to]` denote.
pub open spec fn digits_value(s: Seq<u8>, from: int, to: int) -> nat
    decreases to - from,
{
    if to <= from {
        0
    } else {
        digits_value(s, from, to - 1) * 10 + (s[to - 1] - 48) as nat
    }
}

/// Does the (lower case) keyword `kw` start at `pos`, in any ASCII case?
pub open spec fn keyword_at(s: Seq<u8>, pos: int, kw: Seq<u8>) -> bool {
    &&& 0 <= pos
    &&& pos + kw.len() <= s.len()
    &&& forall|i: int| 0 <= i < kw.len() ==> ascii_lower(#[trigger] s[pos + i]) == kw[i]
}

pub open spec fn kw_rli() -> Seq<u8> {
    seq![114u8, 108u8, 105u8]
}

pub open spec fn kw_rs() -> Seq<u8> {
    seq![114u8, 115u8]
}

pub open spec fn kw_rx() -> Seq<u8> {
    seq![114u8, 120u8]
}

pub open spec fn kw_s() -> Seq<u8> {
    seq![115u8]
}

pub open spec fn kw_read() -> Seq<u8> {
    seq![114u8, 101u8, 97u8, 100u8]
}

pub open spec fn kw_write() -> Seq<u8> {
    seq![119u8, 114u8, 105u8, 116u8, 101u8]
}

pub open spec fn kw_set() -> Seq<u8> {
    seq![115u8, 101u8, 116u8]
}

pub open spec fn kw_add() -> Seq<u8> {
    seq![97u8, 100u8, 100u8]
}

pub open spec fn kw_sub() -> Seq<u8> {
    seq![115u8, 117u8, 98u8]
}

pub open spec fn kw_mul() -> Seq<u8> {
    seq![109u8, 117u8, 108u8]
}

pub open spec fn kw_push() -> Seq<u8> {
    seq![112u8, 117u8, 115u8, 104u8]
}

pub open spec fn kw_pop() -> Seq<u8> {
    seq![112u8, 111u8, 112u8]
}

pub open spec fn kw_if() -> Seq<u8> {
    seq![105u8, 102u8]
}

pub open spec fn kw_while() -> Seq<u8> {
    seq![119u8, 104u8, 105u8, 108u8, 101u8]
}

/// A decimal number that fits in a `usize`, and the position after it.
pub open spec fn number_usize(s: Seq<u8>, pos: int) -> Option<(usize, int)> {
    let e = digits_end(s, pos);
    if e > pos && digits_value(s, pos, e) <= usize::MAX {
        Some((digits_value(s, pos, e) as usize, e))
    } else {
        None
    }
}

/// A decimal number that fits in a `LangValue`, and the position after it.
/// Negative numbers are not part of the grammar.
pub open spec fn lang_value(s: Seq<u8>, pos: int) -> Option<(LangValue, int)> {
    let e = digits_end(s, pos);
    if e > pos && digits_value(s, pos, e) <= i32::MAX {
        Some((digits_value(s, pos, e) as i32, e))
    } else {
        None
    }
}

/// A register name: `RLI`, `RSn` or `RXn`.
#[verifier::opaque]
pub open spec fn reg_ident(s: Seq<u8>, pos: int) -> Option<(RegisterRef, int)> {
    if keyword_at(s, pos, kw_rli()) {
        Some((RegisterRef::InputLength, pos + 3))
    } else if keyword_at(s, pos, kw_rs()) && number_usize(s, pos + 2) is Some {
        let (n, e) = number_usize(s, pos + 2)->Some_0;
        Some((RegisterRef::StackLength(n), e))
    } else if keyword_at(s, pos, kw_rx()) && number_usize(s, pos + 2) is Some {
        let (n, e) = number_usize(s, pos + 2)->Some_0;
        Some((RegisterRef::User(n), e))
    } else {
        None
    }
}

/// A stack name `Sn`, possibly preceded by whitespace.
#[verifier::opaque]
pub open spec fn stack_ident(s: Seq<u8>, pos: int) -> Option<(StackIdentifier, int)> {
    let p = skip_ws(s, pos);
    if keyword_at(s, p, kw_s()) {
        number_usize(s, p + 1)
    } else {
        None
    }
}

/// A value source: a number, or else a register.
#[verifier::opaque]
pub open spec fn value_source(s: Seq<u8>, pos: int) -> Option<(ValueSource, int)> {
    match lang_value(s, pos) {
        Some((v, e)) => Some((ValueSource::Const(v), e)),
        None => match reg_ident(s, pos) {
            Some((r, e)) => Some((ValueSource::Register(r), e)),
            None => None,
        },
    }
}

/// Is there an argument separator at `pos`?
pub open spec fn delim_at(s: Seq<u8>, pos: int) -> bool {
    0 <= pos < s.len() && is_arg_delim(s[pos])
}

/// A keyword followed by a separator and a register; returns the register
/// and the position after it.
#[verifier::opaque]
pub open spec fn kw_reg(s: Seq<u8>, pos: int, kw: Seq<u8>) -> Option<(RegisterRef, int)> {
    if keyword_at(s, pos, kw) && delim_at(s, pos + kw.len()) {
        reg_ident(s, pos + kw.len() + 1)
    } else {
        None
    }
}

/// A keyword, a register and a value source, separated by separators.
#[verifier::opaque]
pub open spec fn kw_reg_src(s: Seq<u8>, pos: int, kw: Seq<u8>) -> Option<
    (RegisterRef, ValueSource, int),
> {
    match kw_reg(s, pos, kw) {
        Some((r, p)) => if delim_at(s, p) {
            match value_source(s, p + 1) {
                Some((v, e)) => Some((r, v, e)),
                None => None,
            }
        } else {
            None
        },
        None => None,
    }
}

/// `PUSH <value> <stack>`.
#[verifier::opaque]
pub open spec fn push_stmt(s: Seq<u8>, pos: int) -> Option<(Operator, int)> {
    if keyword_at(s, pos, kw_push()) && delim_at(s, pos + 4) {
        match value_source(s, pos + 5) {
            Some((v, p)) => if delim_at(s, p) {
                match stack_ident(s, p + 1) {
                    Some((id, e)) => Some((Operator::Push(v, id), e)),
                    None => None,
                }
            } else {
                None
            },
            None => None,
        }
    } else {
        None
    }
}

/// `POP <stack> <reg>`.
#[verifier::opaque]
pub open spec fn pop_stmt(s: Seq<u8>, pos: int) -> Option<(Operator, int)> {
    if keyword_at(s, pos, kw_pop()) && delim_at(s, pos + 3) {
        match stack_ident(s, pos + 4) {
            Some((id, p)) => if delim_at(s, p) {
                match reg_ident(s, p + 1) {
                    Some((r, e)) => Some((Operator::Pop(id, r), e)),
                    None => None,
                }
            } else {
                None
            },
            None => None,
        }
    } else {
        None
    }
}

/// One operator statement, the alternatives tried in order.
#[verifier::opaque]
pub open spec fn operator_stmt(s: Seq<u8>, pos: int) -> Option<(Operator, int)> {
    if let Some((r, e)) = kw_reg(s, pos, kw_read()) {
        Some((Operator::Read(r), e))
    } else if let Some((r, e)) = kw_reg(s, pos, kw_write()) {
        Some((Operator::Write(r), e))
    } else if let Some((r, v, e)) = kw_reg_src(s, pos, kw_set()) {
        Some((Operator::Assign(r, v), e))
    } else if let Some((r, v, e)) = kw_reg_src(s, pos, kw_add()) {
        Some((Operator::Add(r, v), e))
    } else if let Some((r, v, e)) = kw_reg_src(s, pos, kw_sub()) {
        Some((Operator::Sub(r, v), e))
    } else if let Some((r, v, e)) = kw_reg_src(s, pos, kw_mul()) {
        Some((Operator::Mul(r, v), e))
    } else if let Some((op, e)) = push_stmt(s, pos) {
        Some((op, e))
    } else {
        pop_stmt(s, pos)
    }
}

/// The remaining length from `pos`, as a measure.
pub open spec fn rest(s: Seq<u8>, pos: int) -> nat {
    if pos <= s.len() {
        (s.len() - pos) as nat
    } else {
        0
    }
}

/// `IF <reg> { ... }` or `WHILE <reg> { ... }`, depending on `is_while`.
pub open spec fn block_stmt(s: Seq<u8>, pos: int, is_while: bool) -> Option<(SpecInstr, int)>
    decreases rest(s, pos), 1int,
{
    let kw = if is_while {
        kw_while()
    } else {
        kw_if()
    };
    match kw_reg(s, pos, kw) {
        Some((r, p)) => {
            proof {
                lemma_kw_reg_pos(s, pos, kw);
            }
            match body(s, p) {
                Some((instrs, e)) => Some(
                    (
                        if is_while {
                            SpecInstr::While(r, instrs)
                        } else {
                            SpecInstr::If(r, instrs)
                        },
                        e,
                    ),
                ),
                None => None,
            }
        },
        None => None,
    }
}

/// One statement, surrounded by optional whitespace.
pub open spec fn statement(s: Seq<u8>, pos: int) -> Option<(SpecInstr, int)>
    decreases rest(s, pos), 2int,
{
    let p = skip_ws(s, pos);
    proof {
        lemma_skip_ws(s, pos);
    }
    let parsed = if let Some((op, e)) = operator_stmt(s, p) {
        Some((SpecInstr::Operator(op), e))
    } else if let Some((i, e)) = block_stmt(s, p, false) {
        Some((i, e))
    } else {
        block_stmt(s, p, true)
    };
    match parsed {
        Some((i, e)) => Some((i, skip_ws(s, e))),
        None => None,
    }
}

/// Zero or more statements. Fails only if a statement consumes nothing.
pub open spec fn statements(s: Seq<u8>, pos: int) -> Option<(Seq<SpecInstr>, int)>
    decreases rest(s, pos), 3int,
{
    match statement(s, pos) {
        Some((i, p)) => if pos < p <= s.len() {
            match statements(s, p) {
                Some((more, e)) => Some((seq![i] + more, e)),
                None => None,
            }
        } else {
            None
        },
        None => Some((Seq::empty(), pos)),
    }
}

/// A block body: `{`, statements, `}`, each brace possibly preceded by
/// whitespace.
pub open spec fn body(s: Seq<u8>, pos: int) -> Option<(Seq<SpecInstr>, int)>
    decreases rest(s, pos), 0int,
{
    let p = skip_ws(s, pos);
    proof {
        lemma_skip_ws(s, pos);
    }
    if 0 <= p < s.len() && s[p] == 123u8 {
        match statements(s, p + 1) {
            Some((instrs, e)) => {
                let q = skip_ws(s, e);
                if 0 <= q < s.len() && s[q] == 125u8 {
                    Some((instrs, q + 1))
                } else {
                    None
                }
            },
            None => None,
        }
    } else {
        None
    }
}

/// The statements of a whole program, or the position at which the part
/// that is not a sequence of statements starts.
pub open spec fn parse_program(s: Seq<u8>) -> Result<Seq<SpecInstr>, int> {
    match statements(s, 0) {
        Some((instrs, e)) => if e == s.len() {
            Ok(instrs)
        } else {
            Err(e)
        },
        None => Err(0),
    }
}

// ---------------------------------------------------------------------------
// Positions
// ---------------------------------------------------------------------------

pub proof fn lemma_skip_ws(s: Seq<u8>, pos: int)
    ensures
        pos <= skip_ws(s, pos),
        0 <= pos <= s.len() ==> skip_ws(s, pos) <= s.len(),
        skip_ws(s, pos) > pos ==> 0 <= pos < s.len(),
    decreases s.len() - pos,
{
    if 0 <= pos < s.len() && is_multispace(s[pos]) {
        lemma_skip_ws(s, pos + 1);
    }
}

pub proof fn lemma_digits_end(s: Seq<u8>, pos: int)
    ensures
        pos <= digits_end(s, pos),
        0 <= pos <= s.len() ==> digits_end(s, pos) <= s.len(),
        forall|k: int| pos <= k < digits_end(s, pos) ==> 0 <= k < s.len() && is_digit(#[trigger] s[k]),
        digits_end(s, pos) < s.len() && 0 <= digits_end(s, pos) ==> !is_digit(s[digits_end(s, pos)]),
    decreases s.len() - pos,
{
    if 0 <= pos < s.len() && is_digit(s[pos]) {
        lemma_digits_end(s, pos + 1);
    }
}

proof fn lemma_number_pos(s: Seq<u8>, pos: int)
    requires
        0 <= pos,
    ensures
        number_usize(s, pos) matches Some((_, e)) ==> pos < e <= s.len(),
        lang_value(s, pos) matches Some((_, e)) ==> pos < e <= s.len(),
{
    lemma_digits_end(s, pos);
}

proof fn lemma_reg_ident_pos(s: Seq<u8>, pos: int)
    requires
        0 <= pos,
    ensures
        reg_ident(s, pos) matches Some((_, e)) ==> pos < e <= s.len(),
{
    reveal(reg_ident);
    lemma_number_pos(s, pos + 2);
}

pub proof fn lemma_kw_reg_pos(s: Seq<u8>, pos: int, kw: Seq<u8>)
    requires
        kw.len() > 0,
    ensures
        kw_reg(s, pos, kw) matches Some((_, e)) ==> 0 <= pos < e <= s.len(),
{
    reveal(kw_reg);
    if keyword_at(s, pos, kw) && delim_at(s, pos + kw.len()) {
        lemma_reg_ident_pos(s, pos + kw.len() + 1);
    }
}

// ---------------------------------------------------------------------------
// The parser
// ---------------------------------------------------------------------------

/// A slice's length fits in a `usize`.
proof fn lemma_slice_len(s: &[u8])
    ensures
        s@.len() <= usize::MAX,
{
    assert(s@.len() == s.len());
}

proof fn lemma_digits_value_mono(s: Seq<u8>, from: int, k: int, to: int)
    requires
        from <= k <= to,
    ensures
        digits_value(s, from, k) <= digits_value(s, from, to),
    decreases to - k,
{
    if k < to {
        lemma_digits_value_mono(s, from, k, to - 1);
    }
}

fn exec_skip_ws(s: &[u8], pos: usize) -> (p: usize)
    requires
        pos <= s@.len(),
    ensures
        p == skip_ws(s@, pos as int),
{
    let mut p = pos;
    while p < s.len() && (s[p] == 32 || s[p] == 9 || s[p] == 13 || s[p] == 10)
        invariant
            pos <= p <= s@.len(),
            skip_ws(s@, p as int) == skip_ws(s@, pos as int),
        decreases s@.len() - p,
    {
        p = p + 1;
    }
    p
}

fn exec_digits_end(s: &[u8], pos: usize) -> (p: usize)
    requires
        pos <= s@.len(),
    ensures
        p == digits_end(s@, pos as int),
{
    let mut p = pos;
    while p < s.len() && 48 <= s[p] && s[p] <= 57
        invariant
            pos <= p <= s@.len(),
            digits_end(s@, p as int) == digits_end(s@, pos as int),
        decreases s@.len() - p,
    {
        p = p + 1;
    }
    p
}

/// The value of the digits `s[from..to]`, if it is at most `bound`.
fn exec_digits_value(s: &[u8], from: usize, to: usize, bound: u64) -> (r: Option<u64>)
    requires
        from <= to <= s@.len(),
        forall|k: int| from <= k < to ==> is_digit(#[trigger] s@[k]),
    ensures
        match r {
            Some(v) => v == digits_value(s@, from as int, to as int) && v <= bound,
            None => digits_value(s@, from as int, to as int) > bound,
        },
{
    let mut v: u64 = 0;
    let mut k = from;
    while k < to
        invariant
            from <= k <= to <= s@.len(),
            forall|j: int| from <= j < to ==> is_digit(#[trigger] s@[j]),
            v == digits_value(s@, from as int, k as int),
            v <= bound,
        decreases to - k,
    {
        let d = (s[k] - 48) as u64;
        assert(digits_value(s@, from as int, k + 1) == v * 10 + d);
        let next: u128 = v as u128 * 10 + d as u128;
        if next > bound as u128 {
            proof {
                lemma_digits_value_mono(s@, from as int, k + 1, to as int);
            }
            return None;
        }
        v = v * 10 + d;
        k = k + 1;
    }
    Some(v)
}

fn exec_number_usize(s: &[u8], pos: usize) -> (r: Option<(usize, usize)>)
    requires
        pos <= s@.len(),
    ensures
        match number_usize(s@, pos as int) {
            Some((n, e)) => r == Some((n, e as usize)),
            None => r is None,
        },
{
    proof {
        lemma_slice_len(s);
    }
    let e = exec_digits_end(s, pos);
    proof {
        lemma_digits_end(s@, pos as int);
    }
    if e == pos {
        return None;
    }
    match exec_digits_value(s, pos, e, usize::MAX as u64) {
        Some(v) => Some((v as usize, e)),
        None => None,
    }
}

fn exec_lang_value(s: &[u8], pos: usize) -> (r: Option<(LangValue, usize)>)
    requires
        pos <= s@.len(),
    ensures
        match lang_value(s@, pos as int) {
            Some((n, e)) => r == Some((n, e as usize)),
            None => r is None,
        },
{
    proof {
        lemma_slice_len(s);
    }
    let e = exec_digits_end(s, pos);
    proof {
        lemma_digits_end(s@, pos as int);
    }
    if e == pos {
        return None;
    }
    match exec_digits_value(s, pos, e, i32::MAX as u64) {
        Some(v) => Some((v as i32, e)),
        None => None,
    }
}

fn exec_keyword_at(s: &[u8], pos: usize, kw: &[u8]) -> (b: bool)
    ensures
        b == keyword_at(s@, pos as int, kw@),
{
    proof {
        lemma_slice_len(s);
    }
    if kw.len() > s.len() || pos > s.len() - kw.len() {
        return false;
    }
    let mut i: usize = 0;
    while i < kw.len()
        invariant
            i <= kw@.len(),
            pos + kw@.len() <= s@.len(),
            s@.len() <= usize::MAX,
            forall|j: int| 0 <= j < i ==> ascii_lower(#[trigger] s@[pos + j]) == kw@[j],
        decreases kw@.len() - i,
    {
        let b = s[pos + i];
        let lower = if 65 <= b && b <= 90 {
            b + 32
        } else {
            b
        };
        if lower != kw[i] {
            assert(ascii_lower(s@[pos + i]) != kw@[i as int]);
            return false;
        }
        i = i + 1;
    }
    true
}

fn exec_reg_ident(s: &[u8], pos: usize) -> (r: Option<(RegisterRef, usize)>)
    requires
        pos <= s@.len(),
    ensures
        match reg_ident(s@, pos as int) {
            Some((reg, e)) => r == Some((reg, e as usize)),
            None => r is None,
        },
{
    reveal(reg_ident);
    proof {
        lemma_slice_len(s);
    }
    let rli: [u8; 3] = [114u8, 108u8, 105u8];
    let rs: [u8; 2] = [114u8, 115u8];
    let rx: [u8; 2] = [114u8, 120u8];
    assert(rli@ =~= kw_rli());
    assert(rs@ =~= kw_rs());
    assert(rx@ =~= kw_rx());
    if exec_keyword_at(s, pos, &rli) {
        return Some((RegisterRef::InputLength, pos + 3));
    }
    if exec_keyword_at(s, pos, &rs) {
        if let Some((n, e)) = exec_number_usize(s, pos + 2) {
            return Some((RegisterRef::StackLength(n), e));
        }
    }
    if exec_keyword_at(s, pos, &rx) {
        if let Some((n, e)) = exec_number_usize(s, pos + 2) {
            return Some((RegisterRef::User(n), e));
        }
    }
    None
}

fn exec_stack_ident(s: &[u8], pos: usize) -> (r: Option<(StackIdentifier, usize)>)
    requires
        pos <= s@.len(),
    ensures
        match stack_ident(s@, pos as int) {
            Some((id, e)) => r == Some((id, e as usize)),
            None => r is None,
        },
{
    reveal(stack_ident);
    proof {
        lemma_slice_len(s);
    }
    let p = exec_skip_ws(s, pos);
    proof {
        lemma_skip_ws(s@, pos as int);
    }
    let ks: [u8; 1] = [115u8];
    assert(ks@ =~= kw_s());
    if exec_keyword_at(s, p, &ks) {
        exec_number_usize(s, p + 1)
    } else {
        None
    }
}

fn exec_value_source(s: &[u8], pos: usize) -> (r: Option<(ValueSource, usize)>)
    requires
        pos <= s@.len(),
    ensures
        match value_source(s@, pos as int) {
            Some((v, e)) => r == Some((v, e as usize)),
            None => r is None,
        },
{
    reveal(value_source);
    proof {
        lemma_slice_len(s);
    }
    match exec_lang_value(s, pos) {
        Some((v, e)) => Some((ValueSource::Const(v), e)),
        None => match exec_reg_ident(s, pos) {
            Some((r, e)) => Some((ValueSource::Register(r), e)),
            None => None,
        },
    }
}

fn exec_delim_at(s: &[u8], pos: usize) -> (b: bool)
    ensures
        b == delim_at(s@, pos as int),
{
    pos < s.len() && (s[pos] == 32 || s[pos] == 9)
}

fn exec_kw_reg(s: &[u8], pos: usize, kw: &[u8]) -> (r: Option<(RegisterRef, usize)>)
    requires
        pos <= s@.len(),
        kw@.len() > 0,
    ensures
        match kw_reg(s@, pos as int, kw@) {
            Some((reg, e)) => r == Some((reg, e as usize)),
            None => r is None,
        },
{
    reveal(kw_reg);
    proof {
        lemma_slice_len(s);
    }
    if exec_keyword_at(s, pos, kw) && exec_delim_at(s, pos + kw.len()) {
        exec_reg_ident(s, pos + kw.len() + 1)
    } else {
        None
    }
}

fn exec_kw_reg_src(s: &[u8], pos: usize, kw: &[u8]) -> (r: Option<(RegisterRef, ValueSource, usize)>)
    requires
        pos <= s@.len(),
        kw@.len() > 0,
    ensures
        match kw_reg_src(s@, pos as int, kw@) {
            Some((reg, v, e)) => r == Some((reg, v, e as usize)),
            None => r is None,
        },
{
    reveal(kw_reg_src);
    proof {
        lemma_slice_len(s);
    }
    proof {
        lemma_kw_reg_pos(s@, pos as int, kw@);
    }
    match exec_kw_reg(s, pos, kw) {
        Some((reg, p)) => if exec_delim_at(s, p) {
            match exec_value_source(s, p + 1) {
                Some((v, e)) => Some((reg, v, e)),
                None => None,
            }
        } else {
            None
        },
        None => None,
    }
}

fn exec_push_stmt(s: &[u8], pos: usize) -> (r: Option<(Operator, usize)>)
    requires
        pos <= s@.len(),
    ensures
        match push_stmt(s@, pos as int) {
            Some((op, e)) => r == Some((op, e as usize)),
            None => r is None,
        },
{
    reveal(push_stmt);
    proof {
        lemma_slice_len(s);
    }
    let kw: [u8; 4] = [112u8, 117u8, 115u8, 104u8];
    assert(kw@ =~= kw_push());
    if exec_keyword_at(s, pos, &kw) && exec_delim_at(s, pos + 4) {
        match exec_value_source(s, pos + 5) {
            Some((v, p)) => {
                proof {
                    lemma_value_source_pos(s@, pos + 5);
                }
                if exec_delim_at(s, p) {
                    match exec_stack_ident(s, p + 1) {
                        Some((id, e)) => Some((Operator::Push(v, id), e)),
                        None => None,
                    }
                } else {
                    None
                }
            },
            None => None,
        }
    } else {
        None
    }
}

fn exec_pop_stmt(s: &[u8], pos: usize) -> (r: Option<(Operator, usize)>)
    requires
        pos <= s@.len(),
    ensures
        match pop_stmt(s@, pos as int) {
            Some((op, e)) => r == Some((op, e as usize)),
            None => r is None,
        },
{
    reveal(pop_stmt);
    proof {
        lemma_slice_len(s);
    }
    let kw: [u8; 3] = [112u8, 111u8, 112u8];
    assert(kw@ =~= kw_pop());
    if exec_keyword_at(s, pos, &kw) && exec_delim_at(s, pos + 3) {
        match exec_stack_ident(s, pos + 4) {
            Some((id, p)) => {
                proof {
                    lemma_stack_ident_pos(s@, pos + 4);
                }
                if exec_delim_at(s, p) {
                    match exec_reg_ident(s, p + 1) {
                        Some((r, e)) => Some((Operator::Pop(id, r), e)),
                        None => None,
                    }
                } else {
                    None
                }
            },
            None => None,
        }
    } else {
        None
    }
}

fn exec_operator_stmt(s: &[u8], pos: usize) -> (r: Option<(Operator, usize)>)
    requires
        pos <= s@.len(),
    ensures
        match operator_stmt(s@, pos as int) {
            Some((op, e)) => r == Some((op, e as usize)),
            None => r is None,
        },
{
    proof {
        lemma_slice_len(s);
    }
    reveal(operator_stmt);
    let k_read: [u8; 4] = [114u8, 101u8, 97u8, 100u8];
    let k_write: [u8; 5] = [119u8, 114u8, 105u8, 116u8, 101u8];
    let k_set: [u8; 3] = [115u8, 101u8, 116u8];
    let k_add: [u8; 3] = [97u8, 100u8, 100u8];
    let k_sub: [u8; 3] = [115u8, 117u8, 98u8];
    let k_mul: [u8; 3] = [109u8, 117u8, 108u8];
    assert(k_read@ =~= kw_read());
    assert(k_write@ =~= kw_write());
    assert(k_set@ =~= kw_set());
    assert(k_add@ =~= kw_add());
    assert(k_sub@ =~= kw_sub());
    assert(k_mul@ =~= kw_mul());
    if let Some((r, e)) = exec_kw_reg(s, pos, &k_read) {
        return Some((Operator::Read(r), e));
    }
    if let Some((r, e)) = exec_kw_reg(s, pos, &k_write) {
        return Some((Operator::Write(r), e));
    }
    if let Some((r, v, e)) = exec_kw_reg_src(s, pos, &k_set) {
        return Some((Operator::Assign(r, v), e));
    }
    if let Some((r, v, e)) = exec_kw_reg_src(s, pos, &k_add) {
        return Some((Operator::Add(r, v), e));
    }
    if let Some((r, v, e)) = exec_kw_reg_src(s, pos, &k_sub) {
        return Some((Operator::Sub(r, v), e));
    }
    if let Some((r, v, e)) = exec_kw_reg_src(s, pos, &k_mul) {
        return Some((Operator::Mul(r, v), e));
    }
    if let Some((op, e)) = exec_push_stmt(s, pos) {
        return Some((op, e));
    }
    exec_pop_stmt(s, pos)
}

/// A value source that parses ends after its start, within the source.
pub proof fn lemma_value_source_pos(s: Seq<u8>, pos: int)
    requires
        0 <= pos,
    ensures
        value_source(s, pos) matches Some((_, e)) ==> pos < e <= s.len(),
{
    reveal(value_source);
    lemma_number_pos(s, pos);
    lemma_reg_ident_pos(s, pos);
}

/// A stack name that parses ends after its start, within the source.
pub proof fn lemma_stack_ident_pos(s: Seq<u8>, pos: int)
    requires
        0 <= pos,
    ensures
        stack_ident(s, pos) matches Some((_, e)) ==> pos < e <= s.len(),
{
    reveal(stack_ident);
    lemma_skip_ws(s, pos);
    lemma_number_pos(s, skip_ws(s, pos) + 1);
}

/// An operator statement that parses ends after its start, within the
/// source.
pub proof fn lemma_operator_pos(s: Seq<u8>, pos: int)
    requires
        0 <= pos <= s.len(),
    ensures
        operator_stmt(s, pos) matches Some((_, e)) ==> pos < e <= s.len(),
{
    reveal(operator_stmt);
    reveal(kw_reg_src);
    reveal(push_stmt);
    reveal(pop_stmt);
    lemma_kw_reg_pos(s, pos, kw_read());
    lemma_kw_reg_pos(s, pos, kw_write());
    lemma_kw_reg_pos(s, pos, kw_set());
    lemma_kw_reg_pos(s, pos, kw_add());
    lemma_kw_reg_pos(s, pos, kw_sub());
    lemma_kw_reg_pos(s, pos, kw_mul());
    if let Some((_, p)) = kw_reg(s, pos, kw_set()) {
        lemma_value_source_pos(s, p + 1);
    }
    if let Some((_, p)) = kw_reg(s, pos, kw_add()) {
        lemma_value_source_pos(s, p + 1);
    }
    if let Some((_, p)) = kw_reg(s, pos, kw_sub()) {
        lemma_value_source_pos(s, p + 1);
    }
    if let Some((_, p)) = kw_reg(s, pos, kw_mul()) {
        lemma_value_source_pos(s, p + 1);
    }
    lemma_value_source_pos(s, pos + 5);
    if let Some((_, p)) = value_source(s, pos + 5) {
        lemma_stack_ident_pos(s, p + 1);
    }
    lemma_stack_ident_pos(s, pos + 4);
    if let Some((_, p)) = stack_ident(s, pos + 4) {
        lemma_reg_ident_pos(s, p + 1);
    }
}

/// The statements of a sequence with one more statement at its end.
proof fn lemma_model_push(v: Seq<Instr>, i: Instr)
    ensures
        instrs_model(v.push(i)) == instrs_model(v).push(instr_model(i)),
{
    assert(v.push(i).drop_last() =~= v);
}

fn exec_block_stmt(s: &[u8], pos: usize, is_while: bool) -> (r: Option<(Instr, usize)>)
    requires
        pos <= s@.len(),
    ensures
        match block_stmt(s@, pos as int, is_while) {
            Some((i, e)) => r matches Some((ri, re)) && ri@ == i && re == e,
            None => r is None,
        },
    decreases rest(s@, pos as int), 1int,
{
    proof {
        lemma_slice_len(s);
    }
    let k_if: [u8; 2] = [105u8, 102u8];
    let k_while: [u8; 5] = [119u8, 104u8, 105u8, 108u8, 101u8];
    assert(k_if@ =~= kw_if());
    assert(k_while@ =~= kw_while());
    let ghost kw = if is_while {
        kw_while()
    } else {
        kw_if()
    };
    let found = if is_while {
        exec_kw_reg(s, pos, &k_while)
    } else {
        exec_kw_reg(s, pos, &k_if)
    };
    proof {
        lemma_kw_reg_pos(s@, pos as int, kw);
        assert(match kw_reg(s@, pos as int, kw) {
            Some((reg, e)) => found == Some((reg, e as usize)),
            None => found is None,
        });
    }
    match found {
        Some((r, p)) => match exec_body(s, p) {
            Some((instrs, e)) => {
                if is_while {
                    Some((Instr::While(r, instrs), e))
                } else {
                    Some((Instr::If(r, instrs), e))
                }
            },
            None => None,
        },
        None => None,
    }
}

fn exec_statement(s: &[u8], pos: usize) -> (r: Option<(Instr, usize)>)
    requires
        pos <= s@.len(),
    ensures
        match statement(s@, pos as int) {
            Some((i, e)) => r matches Some((ri, re)) && ri@ == i && re == e,
            None => r is None,
        },
    decreases rest(s@, pos as int), 2int,
{
    proof {
        lemma_slice_len(s);
    }
    let p = exec_skip_ws(s, pos);
    proof {
        lemma_skip_ws(s@, pos as int);
        lemma_operator_pos(s@, p as int);
        lemma_kw_reg_pos(s@, p as int, kw_while());
        lemma_kw_reg_pos(s@, p as int, kw_if());
    }
    let parsed = if let Some((op, e)) = exec_operator_stmt(s, p) {
        Some((Instr::Operator(op), e))
    } else if let Some((i, e)) = exec_block_stmt(s, p, false) {
        Some((i, e))
    } else {
        exec_block_stmt(s, p, true)
    };
    match parsed {
        Some((i, e)) => {
            proof {
                lemma_parsed_pos(s@, p as int);
            }
            Some((i, exec_skip_ws(s, e)))
        },
        None => None,
    }
}

/// A parsed statement ends within the source.
proof fn lemma_parsed_pos(s: Seq<u8>, p: int)
    requires
        0 <= p <= s.len(),
    ensures
        block_stmt(s, p, false) matches Some((_, e)) ==> e <= s.len(),
        block_stmt(s, p, true) matches Some((_, e)) ==> e <= s.len(),
{
    lemma_kw_reg_pos(s, p, kw_while());
    lemma_kw_reg_pos(s, p, kw_if());
    if let Some((_, q)) = kw_reg(s, p, kw_if()) {
        lemma_body_pos(s, q);
    }
    if let Some((_, q)) = kw_reg(s, p, kw_while()) {
        lemma_body_pos(s, q);
    }
}

/// A parsed body ends within the source.
proof fn lemma_body_pos(s: Seq<u8>, pos: int)
    ensures
        body(s, pos) matches Some((_, e)) ==> e <= s.len(),
{
}

fn exec_statements(s: &[u8], pos: usize) -> (r: Option<(Vec<Instr>, usize)>)
    requires
        pos <= s@.len(),
    ensures
        match statements(s@, pos as int) {
            Some((v, e)) => r matches Some((rv, re)) && instrs_model(rv@) == v && re == e,
            None => r is None,
        },
        r matches Some((_, re)) ==> pos <= re <= s@.len(),
    decreases rest(s@, pos as int), 3int,
{
    proof {
        lemma_slice_len(s);
    }
    let mut acc: Vec<Instr> = Vec::new();
    let mut p = pos;
    assert(instrs_model(acc@) =~= Seq::<SpecInstr>::empty());
    loop
        invariant
            pos <= p <= s@.len(),
            statements(s@, pos as int) == match statements(s@, p as int) {
                Some((more, e)) => Some((instrs_model(acc@) + more, e)),
                None => None,
            },
        decreases s@.len() - p,
    {
        match exec_statement(s, p) {
            Some((i, e)) => {
                if p < e && e <= s.len() {
                    proof {
                        lemma_model_push(acc@, i);
                        match statements(s@, e as int) {
                            Some((more, f)) => {
                                assert(instrs_model(acc@.push(i)) + more =~= instrs_model(acc@) + (
                                seq![i@] + more));
                            },
                            None => {},
                        }
                    }
                    acc.push(i);
                    p = e;
                } else {
                    return None;
                }
            },
            None => {
                assert(instrs_model(acc@) + Seq::<SpecInstr>::empty() =~= instrs_model(acc@));
                return Some((acc, p));
            },
        }
    }
}

fn exec_body(s: &[u8], pos: usize) -> (r: Option<(Vec<Instr>, usize)>)
    requires
        pos <= s@.len(),
    ensures
        match body(s@, pos as int) {
            Some((v, e)) => r matches Some((rv, re)) && instrs_model(rv@) == v && re == e,
            None => r is None,
        },
    decreases rest(s@, pos as int), 0int,
{
    proof {
        lemma_slice_len(s);
    }
    let p = exec_skip_ws(s, pos);
    proof {
        lemma_skip_ws(s@, pos as int);
    }
    if p < s.len() && s[p] == 123u8 {
        match exec_statements(s, p + 1) {
            Some((instrs, e)) => {
                let q = exec_skip_ws(s, e);
                if q < s.len() && s[q] == 125u8 {
                    Some((instrs, q + 1))
                } else {
                    None
                }
            },
            None => None,
        }
    } else {
        None
    }
}

/// Parses the UTF-8 bytes of a program. On failure, returns the offset at
/// which the part that is not a sequence of statements starts.
pub(crate) fn parse_bytes(s: &[u8]) -> (r: Result<Vec<Instr>, usize>)
    ensures
        match parse_program(s@) {
            Ok(v) => r matches Ok(rv) && instrs_model(rv@) == v,
            Err(e) => r == Err::<Vec<Instr>, usize>(e as usize),
        },
{
    proof {
        lemma_slice_len(s);
    }
    match exec_statements(s, 0) {
        Some((instrs, e)) => if e == s.len() {
            Ok(instrs)
        } else {
            Err(e)
        },
        None => Err(0),
    }
}

} // verus!
