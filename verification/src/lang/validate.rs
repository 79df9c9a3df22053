//! Checks that a program only references registers and stacks that the
//! hardware has, and only writes registers that can be written.

use crate::lang::ast::{
    instr_model, instrs_model, Instr, MachineInstr, Operator, RegisterRef, SpecInstr,
    StackIdentifier, ValueSource,
};
use crate::lang::desugar::{desugar_instr_spec, desugar_seq_spec};
use crate::lang::error::CompileError;
use crate::lang::machine::{machine_instr_fits, operator_fits, program_fits, reg_readable};
use vstd::prelude::*;

verus! {

broadcast use vstd::std_specs::vec::group_vec_axioms;

/// The errors of a register that is read.
pub open spec fn read_errors(nr: nat, ns: nat, r: RegisterRef) -> Seq<CompileError> {
    match r {
        RegisterRef::InputLength => Seq::empty(),
        RegisterRef::StackLength(i) => if i < ns {
            Seq::empty()
        } else {
            seq![CompileError::InvalidRegisterRef(r)]
        },
        RegisterRef::User(i) => if i < nr {
            Seq::empty()
        } else {
            seq![CompileError::InvalidRegisterRef(r)]
        },
    }
}

/// The errors of a register that is written: only user registers can be
/// written.
pub open spec fn write_errors(nr: nat, r: RegisterRef) -> Seq<CompileError> {
    match r {
        RegisterRef::User(i) => if i < nr {
            Seq::empty()
        } else {
            seq![CompileError::InvalidRegisterRef(r)]
        },
        _ => seq![CompileError::UnwritableRegister(r)],
    }
}

/// The errors of a value source.
pub open spec fn source_errors(nr: nat, ns: nat, s: ValueSource) -> Seq<CompileError> {
    match s {
        ValueSource::Const(_) => Seq::empty(),
        ValueSource::Register(r) => read_errors(nr, ns, r),
    }
}

/// The errors of a stack reference.
pub open spec fn stack_errors(ns: nat, id: StackIdentifier) -> Seq<CompileError> {
    if id < ns {
        Seq::empty()
    } else {
        seq![CompileError::InvalidStackRef(id)]
    }
}

/// The errors of an operator, in the order of its arguments.
pub open spec fn operator_errors(nr: nat, ns: nat, op: Operator) -> Seq<CompileError> {
    match op {
        Operator::Read(r) => write_errors(nr, r),
        Operator::Write(r) => read_errors(nr, ns, r),
        Operator::Assign(d, s) | Operator::Add(d, s) | Operator::Sub(d, s) | Operator::Mul(d, s) => {
            write_errors(nr, d) + source_errors(nr, ns, s)
        },
        Operator::Push(s, id) => source_errors(nr, ns, s) + stack_errors(ns, id),
        Operator::Pop(id, d) => stack_errors(ns, id) + write_errors(nr, d),
    }
}

/// The errors of a statement: those of its condition register, then those of
/// its body.
pub open spec fn instr_errors(nr: nat, ns: nat, i: SpecInstr) -> Seq<CompileError>
    decreases i, 0int,
{
    match i {
        SpecInstr::Operator(op) => operator_errors(nr, ns, op),
        SpecInstr::If(r, body) | SpecInstr::While(r, body) => read_errors(nr, ns, r) + seq_errors(
            nr,
            ns,
            body,
        ),
    }
}

/// The errors of a sequence of statements, in order.
pub open spec fn seq_errors(nr: nat, ns: nat, s: Seq<SpecInstr>) -> Seq<CompileError>
    decreases s, s.len(),
{
    if s.len() == 0 {
        Seq::empty()
    } else {
        seq_errors(nr, ns, s.drop_last()) + instr_errors(nr, ns, s.last())
    }
}

/// Pushes all of `more` onto `errors`.
fn push_all(errors: &mut Vec<CompileError>, more: Vec<CompileError>)
    ensures
        final(errors)@ == old(errors)@ + more@,
{
    let mut more = more;
    errors.append(&mut more);
}

fn check_read(nr: usize, ns: usize, r: RegisterRef) -> (e: Vec<CompileError>)
    ensures
        e@ == read_errors(nr as nat, ns as nat, r),
{
    let mut e = Vec::new();
    match r {
        RegisterRef::InputLength => {},
        RegisterRef::StackLength(i) => {
            if i >= ns {
                e.push(CompileError::InvalidRegisterRef(r));
            }
        },
        RegisterRef::User(i) => {
            if i >= nr {
                e.push(CompileError::InvalidRegisterRef(r));
            }
        },
    }
    assert(e@ =~= read_errors(nr as nat, ns as nat, r));
    e
}

fn check_write(nr: usize, r: RegisterRef) -> (e: Vec<CompileError>)
    ensures
        e@ == write_errors(nr as nat, r),
{
    let mut e = Vec::new();
    match r {
        RegisterRef::User(i) => {
            if i >= nr {
                e.push(CompileError::InvalidRegisterRef(r));
            }
        },
        _ => {
            e.push(CompileError::UnwritableRegister(r));
        },
    }
    assert(e@ =~= write_errors(nr as nat, r));
    e
}

fn check_source(nr: usize, ns: usize, s: ValueSource) -> (e: Vec<CompileError>)
    ensures
        e@ == source_errors(nr as nat, ns as nat, s),
{
    match s {
        ValueSource::Const(_) => Vec::new(),
        ValueSource::Register(r) => check_read(nr, ns, r),
    }
}

fn check_stack(ns: usize, id: StackIdentifier) -> (e: Vec<CompileError>)
    ensures
        e@ == stack_errors(ns as nat, id),
{
    let mut e = Vec::new();
    if id >= ns {
        e.push(CompileError::InvalidStackRef(id));
    }
    assert(e@ =~= stack_errors(ns as nat, id));
    e
}

fn check_operator(nr: usize, ns: usize, op: Operator) -> (e: Vec<CompileError>)
    ensures
        e@ == operator_errors(nr as nat, ns as nat, op),
{
    match op {
        Operator::Read(r) => check_write(nr, r),
        Operator::Write(r) => check_read(nr, ns, r),
        Operator::Assign(d, s) | Operator::Add(d, s) | Operator::Sub(d, s) | Operator::Mul(d, s) => {
            let mut e = check_write(nr, d);
            push_all(&mut e, check_source(nr, ns, s));
            e
        },
        Operator::Push(s, id) => {
            let mut e = check_source(nr, ns, s);
            push_all(&mut e, check_stack(ns, id));
            e
        },
        Operator::Pop(id, d) => {
            let mut e = check_stack(ns, id);
            push_all(&mut e, check_write(nr, d));
            e
        },
    }
}

/// Appends the errors of one statement to `errors`.
fn check_instr(nr: usize, ns: usize, instr: &Instr, errors: &mut Vec<CompileError>)
    ensures
        final(errors)@ == old(errors)@ + instr_errors(nr as nat, ns as nat, instr@),
    decreases instr, 0int,
{
    match instr {
        Instr::Operator(op) => {
            push_all(errors, check_operator(nr, ns, *op));
        },
        Instr::If(r, body) | Instr::While(r, body) => {
            push_all(errors, check_read(nr, ns, *r));
            let ghost mid = errors@;
            check_instrs(nr, ns, body, errors);
            assert(errors@ =~= old(errors)@ + instr_errors(nr as nat, ns as nat, instr@));
        },
    }
}

/// Appends the errors of a sequence of statements to `errors`.
fn check_instrs(nr: usize, ns: usize, instrs: &Vec<Instr>, errors: &mut Vec<CompileError>)
    ensures
        final(errors)@ == old(errors)@ + seq_errors(nr as nat, ns as nat, instrs_model(instrs@)),
    decreases instrs, 1int,
{
    let mut k: usize = 0;
    assert(instrs@.take(0) =~= Seq::<Instr>::empty());
    assert(old(errors)@ + seq_errors(nr as nat, ns as nat, Seq::empty()) =~= old(errors)@);
    while k < instrs.len()
        invariant
            k <= instrs@.len(),
            errors@ == old(errors)@ + seq_errors(nr as nat, ns as nat, instrs_model(instrs@.take(k as int))),
        decreases instrs@.len() - k,
    {
        proof {
            assert(instrs@.take(k + 1).drop_last() =~= instrs@.take(k as int));
            assert(instrs_model(instrs@.take(k + 1)).drop_last() =~= instrs_model(instrs@.take(k as int)));
        }
        let ghost before = errors@;
        check_instr(nr, ns, &instrs[k], errors);
        k = k + 1;
        assert(errors@ =~= old(errors)@ + seq_errors(nr as nat, ns as nat, instrs_model(instrs@.take(k as int))));
    }
    assert(instrs@.take(instrs@.len() as int) =~= instrs@);
}

/// All the errors of a program, in order.
pub(crate) fn validate_instrs(num_registers: usize, num_stacks: usize, instrs: &Vec<Instr>) -> (e: Vec<CompileError>)
    ensures
        e@ == seq_errors(num_registers as nat, num_stacks as nat, instrs_model(instrs@)),
{
    let mut errors = Vec::new();
    check_instrs(num_registers, num_stacks, instrs, &mut errors);
    assert(errors@ =~= seq_errors(num_registers as nat, num_stacks as nat, instrs_model(instrs@)));
    errors
}

/// An operator without errors fits the hardware.
proof fn lemma_operator_fits(nr: nat, ns: nat, op: Operator)
    requires
        operator_errors(nr, ns, op).len() == 0,
    ensures
        operator_fits(nr, ns, op),
{
}

/// Law: flattening a statement without errors gives instructions that all fit
/// the hardware.
pub proof fn lemma_valid_instr_fits(nr: nat, ns: nat, i: SpecInstr)
    requires
        instr_errors(nr, ns, i).len() == 0,
    ensures
        program_fits(nr, ns, desugar_instr_spec(i)),
    decreases i, 0int,
{
    match i {
        SpecInstr::Operator(op) => {
            lemma_operator_fits(nr, ns, op);
            assert(machine_instr_fits(nr, ns, desugar_instr_spec(i)[0]));
        },
        SpecInstr::If(r, body) => {
            lemma_valid_seq_fits(nr, ns, body);
            assert(reg_readable(nr, ns, r));
            let b = desugar_seq_spec(body);
            let c = desugar_instr_spec(i);
            assert forall|k: int| 0 <= k < c.len() implies #[trigger] machine_instr_fits(nr, ns, c[k]) by {
                if k > 0 {
                    assert(c[k] == b[k - 1]);
                }
            }
        },
        SpecInstr::While(r, body) => {
            lemma_valid_seq_fits(nr, ns, body);
            assert(reg_readable(nr, ns, r));
            let b = desugar_seq_spec(body);
            let c = desugar_instr_spec(i);
            assert forall|k: int| 0 <= k < c.len() implies #[trigger] machine_instr_fits(nr, ns, c[k]) by {
                if 0 < k <= b.len() {
                    assert(c[k] == b[k - 1]);
                }
            }
        },
    }
}

/// Law: flattening a sequence of statements without errors gives
/// instructions that all fit the hardware.
pub proof fn lemma_valid_seq_fits(nr: nat, ns: nat, s: Seq<SpecInstr>)
    requires
        seq_errors(nr, ns, s).len() == 0,
    ensures
        program_fits(nr, ns, desugar_seq_spec(s)),
    decreases s, s.len(),
{
    if s.len() > 0 {
        lemma_valid_seq_fits(nr, ns, s.drop_last());
        lemma_valid_instr_fits(nr, ns, s.last());
        let a = desugar_seq_spec(s.drop_last());
        let b = desugar_instr_spec(s.last());
        let c = a + b;
        assert forall|k: int| 0 <= k < c.len() implies #[trigger] machine_instr_fits(nr, ns, c[k]) by {
            if k < a.len() {
                assert(c[k] == a[k]);
            } else {
                assert(c[k] == b[k - a.len()]);
            }
        }
    }
}

/// A register that the hardware can read raises no error when it is read.
proof fn lemma_readable_valid(nr: nat, ns: nat, r: RegisterRef)
    requires
        reg_readable(nr, ns, r),
    ensures
        read_errors(nr, ns, r).len() == 0,
{
}

/// An operator that fits the hardware raises no error.
proof fn lemma_fitting_operator_valid(nr: nat, ns: nat, op: Operator)
    requires
        operator_fits(nr, ns, op),
    ensures
        operator_errors(nr, ns, op).len() == 0,
{
}

/// Every instruction of a part of a fitting program fits.
proof fn lemma_fits_slice(nr: nat, ns: nat, p: Seq<MachineInstr>, a: int, b: int)
    requires
        program_fits(nr, ns, p),
        0 <= a <= b <= p.len(),
    ensures
        program_fits(nr, ns, p.subrange(a, b)),
{
    let q = p.subrange(a, b);
    assert forall|k: int| 0 <= k < q.len() implies #[trigger] machine_instr_fits(nr, ns, q[k]) by {
        assert(q[k] == p[a + k]);
    }
}

/// Law: validation rejects only what does not fit the hardware. A statement
/// whose flat instructions all fit the hardware (every register and stack
/// it reads exists, every register it writes is a user register that
/// exists) raises no error.
pub proof fn lemma_fitting_instr_valid(nr: nat, ns: nat, i: SpecInstr)
    requires
        program_fits(nr, ns, desugar_instr_spec(i)),
    ensures
        instr_errors(nr, ns, i).len() == 0,
    decreases i, 0int,
{
    let c = desugar_instr_spec(i);
    match i {
        SpecInstr::Operator(op) => {
            assert(machine_instr_fits(nr, ns, c[0]));
            lemma_fitting_operator_valid(nr, ns, op);
        },
        SpecInstr::If(r, body) => {
            let b = desugar_seq_spec(body);
            assert(machine_instr_fits(nr, ns, c[0]));
            lemma_readable_valid(nr, ns, r);
            lemma_fits_slice(nr, ns, c, 1, c.len() as int);
            assert(c.subrange(1, c.len() as int) =~= b);
            lemma_fitting_seq_valid(nr, ns, body);
        },
        SpecInstr::While(r, body) => {
            let b = desugar_seq_spec(body);
            assert(machine_instr_fits(nr, ns, c[0]));
            lemma_readable_valid(nr, ns, r);
            lemma_fits_slice(nr, ns, c, 1, c.len() - 1);
            assert(c.subrange(1, c.len() - 1) =~= b);
            lemma_fitting_seq_valid(nr, ns, body);
        },
    }
}

/// Law: a sequence of statements whose flat instructions all fit the
/// hardware raises no validation error. With `lemma_valid_seq_fits`, a
/// program is valid exactly when its flat instructions fit the hardware.
pub proof fn lemma_fitting_seq_valid(nr: nat, ns: nat, s: Seq<SpecInstr>)
    requires
        program_fits(nr, ns, desugar_seq_spec(s)),
    ensures
        seq_errors(nr, ns, s).len() == 0,
    decreases s, s.len(),
{
    if s.len() > 0 {
        let a = desugar_seq_spec(s.drop_last());
        let b = desugar_instr_spec(s.last());
        let c = a + b;
        lemma_fits_slice(nr, ns, c, 0, a.len() as int);
        assert(c.subrange(0, a.len() as int) =~= a);
        lemma_fits_slice(nr, ns, c, a.len() as int, c.len() as int);
        assert(c.subrange(a.len() as int, c.len() as int) =~= b);
        lemma_fitting_seq_valid(nr, ns, s.drop_last());
        lemma_fitting_instr_valid(nr, ns, s.last());
    }
}

} // verus!
