//! The meaning of structured programs, and the proof that flattening them
//! keeps that meaning: the machine, running the flat instructions, ends
//! where the structured program ends, in the same state or with the same
//! error.

use crate::lang::ast::{MachineInstr, RegisterRef, SpecInstr};
use crate::lang::parse::parse_program;
use crate::lang::{compile_outcome, source_bytes};
use crate::lang::desugar::{desugar_instr_spec, desugar_seq_spec, desugarable, desugarable_seq};
use crate::lang::error::RuntimeError;
use crate::lang::machine::{
    apply_operator, final_run, halt_fuel, halted_within, halts, initial_machine, initial_state,
    model_complete, reg_value, run, step, MachineModel, StateModel,
};
use crate::models::Environment;
use vstd::prelude::*;

verus! {

/// How running structured code ends.
pub enum Outcome {
    /// The code ran to its end, leaving this state.
    Done(StateModel),
    /// An operator raised an error in this state (which it left unchanged).
    Failed(StateModel, RuntimeError),
    /// A loop ran more often than the fuel allowed.
    OutOfFuel,
}

/// Runs a sequence of statements from a state. `fuel` bounds the iterations
/// of each loop.
pub open spec fn eval_seq(s: Seq<SpecInstr>, st: StateModel, fuel: nat) -> Outcome
    decreases fuel, s, s.len(),
{
    if s.len() == 0 {
        Outcome::Done(st)
    } else {
        match eval_seq(s.drop_last(), st, fuel) {
            Outcome::Done(st1) => eval_instr(s.last(), st1, fuel),
            other => other,
        }
    }
}

/// Runs one statement from a state: an operator applies; an `IF` runs its
/// body when the register is != 0; a `WHILE` runs its body as long as the
/// register is != 0.
pub open spec fn eval_instr(i: SpecInstr, st: StateModel, fuel: nat) -> Outcome
    decreases fuel, i, 0int,
{
    match i {
        SpecInstr::Operator(op) => match apply_operator(st, op) {
            Ok(st1) => Outcome::Done(st1),
            Err(e) => Outcome::Failed(st, e),
        },
        SpecInstr::If(r, body) => if reg_value(st, r) != 0 {
            eval_seq(body, st, fuel)
        } else {
            Outcome::Done(st)
        },
        SpecInstr::While(r, body) => if reg_value(st, r) == 0 {
            Outcome::Done(st)
        } else if fuel == 0 {
            Outcome::OutOfFuel
        } else {
            match eval_seq(body, st, fuel) {
                Outcome::Done(st1) => eval_instr(SpecInstr::While(r, body), st1, (fuel - 1) as nat),
                other => other,
            }
        },
    }
}

/// Does the program hold the code at offset `a`?
pub open spec fn block_at(p: Seq<MachineInstr>, a: int, code: Seq<MachineInstr>) -> bool {
    &&& 0 <= a
    &&& a + code.len() <= p.len()
    &&& p.subrange(a, a + code.len()) == code
}

/// The machine moved to another instruction and state.
pub open spec fn at(m: MachineModel, pc: nat, st: StateModel) -> MachineModel {
    MachineModel { pc, state: st, ..m }
}

proof fn lemma_block_split(p: Seq<MachineInstr>, a: int, x: Seq<MachineInstr>, y: Seq<MachineInstr>)
    requires
        block_at(p, a, x + y),
    ensures
        block_at(p, a, x),
        block_at(p, a + x.len(), y),
{
    assert(p.subrange(a, a + x.len()) =~= (x + y).subrange(0, x.len() as int));
    assert((x + y).subrange(0, x.len() as int) =~= x);
    assert(p.subrange(a + x.len(), a + x.len() + y.len()) =~= (x + y).subrange(
        x.len() as int,
        (x.len() + y.len()) as int,
    ));
    assert((x + y).subrange(x.len() as int, (x.len() + y.len()) as int) =~= y);
}

proof fn lemma_block_single(p: Seq<MachineInstr>, a: int, i: MachineInstr)
    requires
        block_at(p, a, seq![i]),
    ensures
        a < p.len(),
        p[a] == i,
{
    assert(p.subrange(a, a + 1)[0] == p[a]);
}

/// Running `k1` instructions without an error, then `k2` more, is running
/// `k1 + k2`.
proof fn lemma_run_split(m: MachineModel, k1: nat, k2: nat)
    requires
        run(m, k1).1 is None,
    ensures
        run(m, k1 + k2) == run(run(m, k1).0, k2),
    decreases k1,
{
    if model_complete(m) {
    } else if k1 == 0 {
    } else {
        match step(m) {
            Ok(next) => {
                lemma_run_split(next, (k1 - 1) as nat, k2);
                assert((k1 + k2 - 1) as nat == ((k1 - 1) as nat + k2) as nat);
            },
            Err(_) => {},
        }
    }
}

/// Once a run has halted, more fuel changes nothing.
proof fn lemma_run_stable(m: MachineModel, k1: nat, k2: nat)
    requires
        halted_within(m, k1),
        k1 <= k2,
    ensures
        run(m, k2) == run(m, k1),
    decreases k1,
{
    if model_complete(m) {
    } else if k1 == 0 {
    } else {
        match step(m) {
            Ok(next) => {
                lemma_run_stable(next, (k1 - 1) as nat, (k2 - 1) as nat);
            },
            Err(_) => {},
        }
    }
}

/// One step from a jump at `pc`, taken or not.
proof fn lemma_one_step(m: MachineModel, next: MachineModel)
    requires
        !model_complete(m),
        step(m) == Ok::<MachineModel, RuntimeError>(next),
    ensures
        run(m, 1) == (next, None::<RuntimeError>),
{
    assert(run(next, 0) == (next, None::<RuntimeError>));
}

/// After `j` instructions, is the machine still running: no error raised,
/// and its program not completed?
pub open spec fn running(m: MachineModel, j: nat) -> bool {
    run(m, j).1 is None && !model_complete(run(m, j).0)
}

/// Is the machine still running after each of its first `n` instruction
/// counts, `0` through `n - 1`?
pub open spec fn running_for(m: MachineModel, n: nat) -> bool {
    forall|j: nat| j < n ==> #[trigger] running(m, j)
}

proof fn lemma_running_mono(m: MachineModel, n: nat, n2: nat)
    requires
        running_for(m, n),
        n2 <= n,
    ensures
        running_for(m, n2),
{
}

proof fn lemma_running_first(m: MachineModel)
    requires
        !model_complete(m),
    ensures
        running_for(m, 1),
{
    assert(running(m, 0));
}

/// Running for `k1` instructions to a machine that runs for `k2` more runs
/// for `k1 + k2`.
proof fn lemma_running_concat(m: MachineModel, k1: nat, k2: nat)
    requires
        run(m, k1).1 is None,
        running_for(m, k1),
        running_for(run(m, k1).0, k2),
    ensures
        running_for(m, k1 + k2),
{
    assert forall|j: nat| j < k1 + k2 implies #[trigger] running(m, j) by {
        if j >= k1 {
            let j2 = (j - k1) as nat;
            lemma_run_split(m, k1, j2);
            assert(running(run(m, k1).0, j2));
        }
    }
}

/// The flat code of a sequence, placed at offset `a` and entered in state
/// `st`, runs as the sequence does: to the end of the code in the final
/// state, or to an instruction that raises the same error in the same state.
/// Returns the number of instructions run, and where an error stops it.
proof fn lemma_seq_sim(m: MachineModel, a: nat, s: Seq<SpecInstr>, st: StateModel, fuel: nat) -> (r: (nat, nat))
    requires
        block_at(m.program, a as int, desugar_seq_spec(s)),
        desugarable_seq(s),
    ensures
        match eval_seq(s, st, fuel) {
            Outcome::Done(st2) => run(at(m, a, st), r.0) == (
                at(m, a + desugar_seq_spec(s).len(), st2),
                None::<RuntimeError>,
            ) && running_for(at(m, a, st), r.0),
            Outcome::Failed(st_e, e) => run(at(m, a, st), r.0) == (at(m, r.1, st_e), Some(e)),
            Outcome::OutOfFuel => running_for(at(m, a, st), fuel + 1),
        },
    decreases fuel, s, s.len(),
{
    if s.len() == 0 {
        assert(at(m, a, st) == at(m, a + desugar_seq_spec(s).len(), st));
        (0, 0)
    } else {
        let pre = s.drop_last();
        let last = s.last();
        let cp = desugar_seq_spec(pre);
        let cl = desugar_instr_spec(last);
        lemma_block_split(m.program, a as int, cp, cl);
        let (k1, p1) = lemma_seq_sim(m, a, pre, st, fuel);
        match eval_seq(pre, st, fuel) {
            Outcome::Done(st1) => {
                let (k2, p2) = lemma_instr_sim(m, a + cp.len(), last, st1, fuel);
                lemma_run_split(at(m, a, st), k1, k2);
                match eval_instr(last, st1, fuel) {
                    Outcome::Done(_) => {
                        lemma_running_concat(at(m, a, st), k1, k2);
                    },
                    Outcome::OutOfFuel => {
                        lemma_running_concat(at(m, a, st), k1, fuel + 1);
                        lemma_running_mono(at(m, a, st), k1 + fuel + 1, fuel + 1);
                    },
                    _ => {},
                }
                (k1 + k2, p2)
            },
            _ => (k1, p1),
        }
    }
}

/// The flat code of one statement runs as the statement does.
proof fn lemma_instr_sim(m: MachineModel, a: nat, i: SpecInstr, st: StateModel, fuel: nat) -> (r: (nat, nat))
    requires
        block_at(m.program, a as int, desugar_instr_spec(i)),
        desugarable(i),
    ensures
        match eval_instr(i, st, fuel) {
            Outcome::Done(st2) => run(at(m, a, st), r.0) == (
                at(m, a + desugar_instr_spec(i).len(), st2),
                None::<RuntimeError>,
            ) && running_for(at(m, a, st), r.0),
            Outcome::Failed(st_e, e) => run(at(m, a, st), r.0) == (at(m, r.1, st_e), Some(e)),
            Outcome::OutOfFuel => running_for(at(m, a, st), fuel + 1),
        },
    decreases fuel, i, 0int,
{
    let p = m.program;
    let m0 = at(m, a, st);
    match i {
        SpecInstr::Operator(op) => {
            lemma_block_single(p, a as int, MachineInstr::Operator(op));
            match apply_operator(st, op) {
                Ok(st1) => {
                    lemma_one_step(m0, at(m, a + 1, st1));
                    lemma_running_first(m0);
                    (1, 0)
                },
                Err(e) => {
                    (1, a)
                },
            }
        },
        SpecInstr::If(reg, body) => {
            let b = desugar_seq_spec(body);
            let jez = MachineInstr::Jez((b.len() + 1) as i32, reg);
            lemma_block_split(p, a as int, seq![jez], b);
            lemma_block_single(p, a as int, jez);
            lemma_running_first(m0);
            if reg_value(st, reg) == 0 {
                lemma_one_step(m0, at(m, a + b.len() + 1, st));
                (1, 0)
            } else {
                lemma_one_step(m0, at(m, a + 1, st));
                let (k, pe) = lemma_seq_sim(m, a + 1, body, st, fuel);
                lemma_run_split(m0, 1, k);
                match eval_seq(body, st, fuel) {
                    Outcome::Done(_) => {
                        lemma_running_concat(m0, 1, k);
                    },
                    Outcome::OutOfFuel => {
                        lemma_running_concat(m0, 1, fuel + 1);
                        lemma_running_mono(m0, 1 + fuel + 1, fuel + 1);
                    },
                    _ => {},
                }
                (1 + k, pe)
            }
        },
        SpecInstr::While(reg, body) => {
            let b = desugar_seq_spec(body);
            let jez = MachineInstr::Jez((b.len() + 2) as i32, reg);
            let jnz = MachineInstr::Jnz((-b.len()) as i32, reg);
            lemma_block_split(p, a as int, seq![jez] + b, seq![jnz]);
            lemma_block_split(p, a as int, seq![jez], b);
            lemma_block_single(p, a as int, jez);
            lemma_running_first(m0);
            if reg_value(st, reg) == 0 {
                lemma_one_step(m0, at(m, a + b.len() + 2, st));
                (1, 0)
            } else if fuel == 0 {
                (0, 0)
            } else {
                lemma_one_step(m0, at(m, a + 1, st));
                let (k1, p1) = lemma_seq_sim(m, a + 1, body, st, fuel);
                lemma_run_split(m0, 1, k1);
                match eval_seq(body, st, fuel) {
                    Outcome::Done(st1) => {
                        lemma_running_concat(m0, 1, k1);
                        let (k2, p2) = lemma_while_tail(m, a, reg, body, st1, (fuel - 1) as nat);
                        lemma_run_split(m0, 1 + k1, k2);
                        match eval_instr(SpecInstr::While(reg, body), st1, (fuel - 1) as nat) {
                            Outcome::Done(_) => {
                                lemma_running_concat(m0, 1 + k1, k2);
                            },
                            Outcome::OutOfFuel => {
                                lemma_running_concat(m0, 1 + k1, fuel);
                                lemma_running_mono(m0, 1 + k1 + fuel, fuel + 1);
                            },
                            _ => {},
                        }
                        (1 + k1 + k2, p2)
                    },
                    Outcome::OutOfFuel => {
                        lemma_running_concat(m0, 1, fuel + 1);
                        lemma_running_mono(m0, 1 + fuel + 1, fuel + 1);
                        (1 + k1, p1)
                    },
                    _ => (1 + k1, p1),
                }
            }
        },
    }
}

/// Entered at its closing jump, the flat code of a loop runs as the loop
/// does from that state.
proof fn lemma_while_tail(
    m: MachineModel,
    a: nat,
    reg: RegisterRef,
    body: Seq<SpecInstr>,
    st: StateModel,
    fuel: nat,
) -> (r: (nat, nat))
    requires
        block_at(m.program, a as int, desugar_instr_spec(SpecInstr::While(reg, body))),
        desugarable(SpecInstr::While(reg, body)),
    ensures
        match eval_instr(SpecInstr::While(reg, body), st, fuel) {
            Outcome::Done(st2) => run(at(m, a + 1 + desugar_seq_spec(body).len(), st), r.0) == (
                at(m, a + desugar_seq_spec(body).len() + 2, st2),
                None::<RuntimeError>,
            ) && running_for(at(m, a + 1 + desugar_seq_spec(body).len(), st), r.0),
            Outcome::Failed(st_e, e) => run(at(m, a + 1 + desugar_seq_spec(body).len(), st), r.0) == (
                at(m, r.1, st_e),
                Some(e),
            ),
            Outcome::OutOfFuel => running_for(at(m, a + 1 + desugar_seq_spec(body).len(), st), fuel + 1),
        },
    decreases fuel, SpecInstr::While(reg, body), 0int,
{
    let p = m.program;
    let b = desugar_seq_spec(body);
    let jez = MachineInstr::Jez((b.len() + 2) as i32, reg);
    let jnz = MachineInstr::Jnz((-b.len()) as i32, reg);
    lemma_block_split(p, a as int, seq![jez] + b, seq![jnz]);
    lemma_block_split(p, a as int, seq![jez], b);
    lemma_block_single(p, (a + 1 + b.len()) as int, jnz);
    let q = (a + 1 + b.len()) as nat;
    let m0 = at(m, q, st);
    lemma_running_first(m0);
    if reg_value(st, reg) == 0 {
        lemma_one_step(m0, at(m, a + b.len() + 2, st));
        (1, 0)
    } else if fuel == 0 {
        (0, 0)
    } else {
        lemma_one_step(m0, at(m, a + 1, st));
        let (k1, p1) = lemma_seq_sim(m, a + 1, body, st, fuel);
        lemma_run_split(m0, 1, k1);
        match eval_seq(body, st, fuel) {
            Outcome::Done(st1) => {
                lemma_running_concat(m0, 1, k1);
                let (k2, p2) = lemma_while_tail(m, a, reg, body, st1, (fuel - 1) as nat);
                lemma_run_split(m0, 1 + k1, k2);
                match eval_instr(SpecInstr::While(reg, body), st1, (fuel - 1) as nat) {
                    Outcome::Done(_) => {
                        lemma_running_concat(m0, 1 + k1, k2);
                    },
                    Outcome::OutOfFuel => {
                        lemma_running_concat(m0, 1 + k1, fuel);
                        lemma_running_mono(m0, 1 + k1 + fuel, fuel + 1);
                    },
                    _ => {},
                }
                (1 + k1 + k2, p2)
            },
            Outcome::OutOfFuel => {
                lemma_running_concat(m0, 1, fuel + 1);
                lemma_running_mono(m0, 1 + fuel + 1, fuel + 1);
                (1 + k1, p1)
            },
            _ => (1 + k1, p1),
        }
    }
}

/// Law: flattening keeps the meaning of a program. Whenever the structured
/// program, run from the initial state of an environment, ends (within any
/// bound on loop iterations), the machine that runs the flattened program
/// halts, and it ends in the same state with its whole program run, or
/// with the same error raised in the same state.
pub proof fn lemma_desugar_preserves_meaning(env: &Environment, s: Seq<SpecInstr>, fuel: nat)
    requires
        desugarable_seq(s),
    ensures
        ({
            let m0 = initial_machine(env, desugar_seq_spec(s));
            match eval_seq(s, initial_state(env), fuel) {
                Outcome::Done(st2) => {
                    &&& halts(m0)
                    &&& final_run(m0) == (
                        MachineModel { pc: desugar_seq_spec(s).len(), state: st2, ..m0 },
                        None::<RuntimeError>,
                    )
                },
                Outcome::Failed(st_e, e) => {
                    &&& halts(m0)
                    &&& final_run(m0).0.state == st_e
                    &&& final_run(m0).1 == Some(e)
                },
                Outcome::OutOfFuel => true,
            }
        }),
{
    let p = desugar_seq_spec(s);
    let m0 = initial_machine(env, p);
    assert(p.subrange(0, p.len() as int) =~= p);
    let (k, pe) = lemma_seq_sim(m0, 0, s, initial_state(env), fuel);
    assert(at(m0, 0, initial_state(env)) == m0);
    match eval_seq(s, initial_state(env), fuel) {
        Outcome::OutOfFuel => {},
        _ => {
            assert(halted_within(m0, k));
            let h = halt_fuel(m0);
            assert(halted_within(m0, h));
            if k <= h {
                lemma_run_stable(m0, k, h);
            } else {
                lemma_run_stable(m0, h, k);
            }
        },
    }
}

/// Law: the machine that runs a flattened program halts exactly when the
/// structured program ends for some bound on loop iterations; a bound as
/// large as the number of instructions after which the machine halts is
/// enough.
pub proof fn lemma_desugar_preserves_halting(env: &Environment, s: Seq<SpecInstr>)
    requires
        desugarable_seq(s),
    ensures
        halts(initial_machine(env, desugar_seq_spec(s))) <==> exists|fuel: nat|
            !(#[trigger] eval_seq(s, initial_state(env), fuel) is OutOfFuel),
        halts(initial_machine(env, desugar_seq_spec(s))) ==> !(eval_seq(
            s,
            initial_state(env),
            halt_fuel(initial_machine(env, desugar_seq_spec(s))),
        ) is OutOfFuel),
{
    let p = desugar_seq_spec(s);
    let m0 = initial_machine(env, p);
    assert(p.subrange(0, p.len() as int) =~= p);
    assert(at(m0, 0, initial_state(env)) == m0);
    if halts(m0) {
        let h = halt_fuel(m0);
        assert(halted_within(m0, h));
        let _ = lemma_seq_sim(m0, 0, s, initial_state(env), h);
        if eval_seq(s, initial_state(env), h) is OutOfFuel {
            assert(running(m0, h));
            assert(false);
        }
    }
    if exists|fuel: nat| !(#[trigger] eval_seq(s, initial_state(env), fuel) is OutOfFuel) {
        let fuel = choose|fuel: nat| !(#[trigger] eval_seq(s, initial_state(env), fuel) is OutOfFuel);
        lemma_desugar_preserves_meaning(env, s, fuel);
    }
}

/// Law: compiling keeps the meaning of the source. For source that parses
/// and validates, whenever the parsed program ends when run from the
/// environment's initial state, the compiled machine halts in the same
/// state with its whole program run, or with the same error raised in the
/// same state.
pub proof fn lemma_compile_preserves_meaning(env: &Environment, source: Seq<char>, fuel: nat)
    requires
        compile_outcome(env, source) is Ok,
        desugarable_seq(parse_program(source_bytes(source))->Ok_0),
    ensures
        ({
            let parsed = parse_program(source_bytes(source))->Ok_0;
            let program = compile_outcome(env, source)->Ok_0;
            let m0 = initial_machine(env, program);
            match eval_seq(parsed, initial_state(env), fuel) {
                Outcome::Done(st2) => {
                    &&& halts(m0)
                    &&& final_run(m0) == (
                        MachineModel { pc: program.len(), state: st2, ..m0 },
                        None::<RuntimeError>,
                    )
                },
                Outcome::Failed(st_e, e) => {
                    &&& halts(m0)
                    &&& final_run(m0).0.state == st_e
                    &&& final_run(m0).1 == Some(e)
                },
                Outcome::OutOfFuel => true,
            }
        }),
{
    let parsed = parse_program(source_bytes(source))->Ok_0;
    lemma_desugar_preserves_meaning(env, parsed, fuel);
}

} // verus!
