//! Flattening of the nested syntax into the flat instruction set: `IF` and
//! `WHILE` become relative jumps.

use crate::lang::ast::{instr_model, instrs_model, Instr, MachineInstr, SpecInstr};
use vstd::prelude::*;

verus! {

broadcast use vstd::std_specs::vec::group_vec_axioms;

/// The flat instructions of one statement. An `IF` becomes a jump over its
/// body; a `WHILE` becomes a jump over its body and a jump back from the end
/// of its body to its start.
pub open spec fn desugar_instr_spec(i: SpecInstr) -> Seq<MachineInstr>
    decreases i, 0int,
{
    match i {
        SpecInstr::Operator(op) => seq![MachineInstr::Operator(op)],
        SpecInstr::If(r, body) => {
            let b = desugar_seq_spec(body);
            seq![MachineInstr::Jez((b.len() + 1) as i32, r)] + b
        },
        SpecInstr::While(r, body) => {
            let b = desugar_seq_spec(body);
            seq![MachineInstr::Jez((b.len() + 2) as i32, r)] + b + seq![
                MachineInstr::Jnz((-b.len()) as i32, r),
            ]
        },
    }
}

/// The flat instructions of a sequence of statements, one after the other.
pub open spec fn desugar_seq_spec(s: Seq<SpecInstr>) -> Seq<MachineInstr>
    decreases s, s.len(),
{
    if s.len() == 0 {
        Seq::empty()
    } else {
        desugar_seq_spec(s.drop_last()) + desugar_instr_spec(s.last())
    }
}

/// Do the jump lengths of the statement fit in an `i32`? The flattened body of
/// an `IF` may hold at most `i32::MAX - 1` instructions, that of a `WHILE` at
/// most `i32::MAX - 2`.
pub open spec fn desugarable(i: SpecInstr) -> bool
    decreases i, 0int,
{
    match i {
        SpecInstr::Operator(_) => true,
        SpecInstr::If(_, body) => desugarable_seq(body) && desugar_seq_spec(body).len() + 1 <= i32::MAX,
        SpecInstr::While(_, body) => desugarable_seq(body) && desugar_seq_spec(body).len() + 2
            <= i32::MAX,
    }
}

/// Is every statement of the sequence desugarable?
pub open spec fn desugarable_seq(s: Seq<SpecInstr>) -> bool
    decreases s, s.len(),
{
    if s.len() == 0 {
        true
    } else {
        desugarable_seq(s.drop_last()) && desugarable(s.last())
    }
}

/// Does every jump of the program land within the program or just past its
/// end?
pub open spec fn jumps_in_bounds(p: Seq<MachineInstr>) -> bool {
    forall|k: int|
        0 <= k < p.len() ==> match #[trigger] p[k] {
            MachineInstr::Operator(_) => true,
            MachineInstr::Jez(n, _) | MachineInstr::Jnz(n, _) => 0 <= k + n <= p.len(),
        }
}

/// Concatenating two programs whose jumps land within them gives a program
/// whose jumps land within it.
proof fn lemma_jumps_concat(a: Seq<MachineInstr>, b: Seq<MachineInstr>)
    requires
        jumps_in_bounds(a),
        jumps_in_bounds(b),
    ensures
        jumps_in_bounds(a + b),
{
    let c = a + b;
    assert forall|k: int| 0 <= k < c.len() implies match #[trigger] c[k] {
        MachineInstr::Operator(_) => true,
        MachineInstr::Jez(n, _) | MachineInstr::Jnz(n, _) => 0 <= k + n <= c.len(),
    } by {
        if k < a.len() {
            assert(c[k] == a[k]);
        } else {
            assert(c[k] == b[k - a.len()]);
        }
    }
}

/// The statements of a sequence with one more statement at its end.
proof fn lemma_instrs_model_push(s: Seq<Instr>, k: int)
    requires
        0 <= k < s.len(),
    ensures
        instrs_model(s.take(k + 1)) == instrs_model(s.take(k)).push(instr_model(s[k])),
{
    assert(s.take(k + 1).drop_last() =~= s.take(k));
}

/// Flattening a sequence with one more statement appends that statement's
/// flat instructions.
proof fn lemma_desugar_seq_push(s: Seq<SpecInstr>, i: SpecInstr)
    ensures
        desugar_seq_spec(s.push(i)) == desugar_seq_spec(s) + desugar_instr_spec(i),
        desugarable_seq(s.push(i)) == (desugarable_seq(s) && desugarable(i)),
{
    assert(s.push(i).drop_last() =~= s);
}

/// Law: every jump produced by flattening lands within the flattened program
/// or just past its end.
pub proof fn lemma_desugar_jumps_in_bounds(i: SpecInstr)
    requires
        desugarable(i),
    ensures
        jumps_in_bounds(desugar_instr_spec(i)),
    decreases i, 0int,
{
    match i {
        SpecInstr::Operator(op) => {},
        SpecInstr::If(r, body) => {
            lemma_desugar_seq_jumps_in_bounds(body);
            let b = desugar_seq_spec(body);
            let head = seq![MachineInstr::Jez((b.len() + 1) as i32, r)];
            let c = head + b;
            assert forall|k: int| 0 <= k < c.len() implies match #[trigger] c[k] {
                MachineInstr::Operator(_) => true,
                MachineInstr::Jez(n, _) | MachineInstr::Jnz(n, _) => 0 <= k + n <= c.len(),
            } by {
                if k > 0 {
                    assert(c[k] == b[k - 1]);
                }
            }
        },
        SpecInstr::While(r, body) => {
            lemma_desugar_seq_jumps_in_bounds(body);
            let b = desugar_seq_spec(body);
            let head = seq![MachineInstr::Jez((b.len() + 2) as i32, r)];
            let tail = seq![MachineInstr::Jnz((-b.len()) as i32, r)];
            let c = head + b + tail;
            assert forall|k: int| 0 <= k < c.len() implies match #[trigger] c[k] {
                MachineInstr::Operator(_) => true,
                MachineInstr::Jez(n, _) | MachineInstr::Jnz(n, _) => 0 <= k + n <= c.len(),
            } by {
                if k == 0 {
                } else if k <= b.len() {
                    assert(c[k] == b[k - 1]);
                } else {
                    assert(c[k] == tail[0]);
                }
            }
        },
    }
}

/// Law: every jump produced by flattening a sequence of statements lands
/// within the flattened program or just past its end.
pub proof fn lemma_desugar_seq_jumps_in_bounds(s: Seq<SpecInstr>)
    requires
        desugarable_seq(s),
    ensures
        jumps_in_bounds(desugar_seq_spec(s)),
    decreases s, s.len(),
{
    if s.len() > 0 {
        lemma_desugar_seq_jumps_in_bounds(s.drop_last());
        lemma_desugar_jumps_in_bounds(s.last());
        lemma_jumps_concat(desugar_seq_spec(s.drop_last()), desugar_instr_spec(s.last()));
    }
}

/// Law: flattening is compositional. The empty sequence flattens to no
/// instructions; a concatenation of two sequences flattens to the
/// concatenation of their flat instructions, in order; and it can be
/// flattened exactly when both parts can.
pub proof fn lemma_desugar_seq_concat(a: Seq<SpecInstr>, b: Seq<SpecInstr>)
    ensures
        desugar_seq_spec(Seq::<SpecInstr>::empty()) == Seq::<MachineInstr>::empty(),
        desugar_seq_spec(a + b) == desugar_seq_spec(a) + desugar_seq_spec(b),
        desugarable_seq(a + b) == (desugarable_seq(a) && desugarable_seq(b)),
    decreases b.len(),
{
    if b.len() == 0 {
        assert(a + b =~= a);
        assert(desugar_seq_spec(a) + desugar_seq_spec(b) =~= desugar_seq_spec(a));
    } else {
        lemma_desugar_seq_concat(a, b.drop_last());
        assert((a + b).drop_last() =~= a + b.drop_last());
        assert((a + b).last() == b.last());
        assert(desugar_seq_spec(a) + desugar_seq_spec(b) =~= desugar_seq_spec(a) + desugar_seq_spec(
            b.drop_last(),
        ) + desugar_instr_spec(b.last()));
    }
}

/// The statements of a concatenation are the statements of its parts.
proof fn lemma_instrs_model_concat(a: Seq<Instr>, b: Seq<Instr>)
    ensures
        instrs_model(a + b) == instrs_model(a) + instrs_model(b),
    decreases b.len(),
{
    if b.len() == 0 {
        assert(a + b =~= a);
        assert(instrs_model(a) + instrs_model(b) =~= instrs_model(a));
    } else {
        lemma_instrs_model_concat(a, b.drop_last());
        assert((a + b).drop_last() =~= a + b.drop_last());
        assert((a + b).last() == b.last());
        assert(instrs_model(a) + instrs_model(b) =~= (instrs_model(a) + instrs_model(b.drop_last())).push(
            instr_model(b.last()),
        ));
    }
}

/// Law: flattening the statements of a syntax tree is compositional. No
/// statements flatten to no instructions, and the statements of `a` followed
/// by those of `b` flatten to the flat instructions of `a` followed by those
/// of `b`; the whole can be flattened exactly when both parts can.
pub proof fn lemma_desugar_instrs_concat(a: Seq<Instr>, b: Seq<Instr>)
    ensures
        desugar_seq_spec(instrs_model(Seq::<Instr>::empty())) == Seq::<MachineInstr>::empty(),
        desugar_seq_spec(instrs_model(a + b)) == desugar_seq_spec(instrs_model(a)) + desugar_seq_spec(
            instrs_model(b),
        ),
        desugarable_seq(instrs_model(a + b)) == (desugarable_seq(instrs_model(a)) && desugarable_seq(
            instrs_model(b),
        )),
{
    lemma_instrs_model_concat(a, b);
    lemma_desugar_seq_concat(instrs_model(a), instrs_model(b));
    assert(instrs_model(Seq::<Instr>::empty()) =~= Seq::<SpecInstr>::empty());
}

/// Flattens one statement.
pub(crate) fn desugar_instr(instr: &Instr) -> (r: Vec<MachineInstr>)
    requires
        desugarable(instr@),
    ensures
        r@ == desugar_instr_spec(instr@),
    decreases instr, 0int,
{
    match instr {
        Instr::Operator(op) => {
            let mut v = Vec::new();
            v.push(MachineInstr::Operator(*op));
            assert(v@ =~= desugar_instr_spec(instr@));
            v
        },
        Instr::If(reg, body) => {
            let mut desugared_body = desugar_instrs(body);
            let body_len = desugared_body.len() as i32;
            let mut v = Vec::new();
            v.push(MachineInstr::Jez(body_len + 1, *reg));
            v.append(&mut desugared_body);
            assert(v@ =~= desugar_instr_spec(instr@));
            v
        },
        Instr::While(reg, body) => {
            let mut desugared_body = desugar_instrs(body);
            let body_len = desugared_body.len() as i32;
            let mut v = Vec::new();
            v.push(MachineInstr::Jez(body_len + 2, *reg));
            v.append(&mut desugared_body);
            v.push(MachineInstr::Jnz(-body_len, *reg));
            assert(v@ =~= desugar_instr_spec(instr@));
            v
        },
    }
}

/// Flattens a sequence of statements.
pub(crate) fn desugar_instrs(instrs: &Vec<Instr>) -> (r: Vec<MachineInstr>)
    requires
        desugarable_seq(instrs_model(instrs@)),
    ensures
        r@ == desugar_seq_spec(instrs_model(instrs@)),
    decreases instrs, 1int,
{
    let mut out: Vec<MachineInstr> = Vec::new();
    let mut k: usize = 0;
    assert(instrs@.take(0) =~= Seq::<Instr>::empty());
    assert(instrs@.take(instrs@.len() as int) =~= instrs@);
    while k < instrs.len()
        invariant
            k <= instrs@.len(),
            desugarable_seq(instrs_model(instrs@)),
            out@ == desugar_seq_spec(instrs_model(instrs@.take(k as int))),
            instrs@.take(instrs@.len() as int) == instrs@,
        decreases instrs@.len() - k,
    {
        proof {
            lemma_instrs_model_push(instrs@, k as int);
            lemma_desugar_seq_push(instrs_model(instrs@.take(k as int)), instr_model(instrs@[k as int]));
            lemma_desugarable_prefix(instrs@, k as int + 1);
        }
        let mut part = desugar_instr(&instrs[k]);
        out.append(&mut part);
        k = k + 1;
    }
    out
}

/// Every prefix of a desugarable sequence is desugarable.
proof fn lemma_desugarable_prefix(s: Seq<Instr>, k: int)
    requires
        0 <= k <= s.len(),
        desugarable_seq(instrs_model(s)),
    ensures
        desugarable_seq(instrs_model(s.take(k))),
    decreases s.len() - k,
{
    if k < s.len() {
        lemma_desugarable_prefix(s, k + 1);
        lemma_instrs_model_push(s, k);
        lemma_desugar_seq_push(instrs_model(s.take(k)), instr_model(s[k]));
    } else {
        assert(s.take(k) =~= s);
    }
}

} // verus!
