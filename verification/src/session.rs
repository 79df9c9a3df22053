//! An interactive program session: the decisions of a connection on which a
//! user compiles a program and steps through it, by hand or on a timer. The
//! connection itself, its messages and its timer are the caller's; each
//! event goes in, and the reply and the timer action come out.

use crate::lang::error::{CompileErrors, RuntimeError};
use crate::lang::machine::{
    initial_machine, lemma_fits_next, lemma_step_follows, model_complete, model_fits, model_successful, step, Machine, MachineModel,
};
use crate::lang::{compile, compile_outcome, source_desugarable};
use crate::models::Environment;
use vstd::prelude::*;

verus! {

broadcast use vstd::std_specs::vec::group_vec_axioms;

/// An event that a user sends on the connection.
#[derive(Clone, Debug, PartialEq)]
pub enum IncomingEvent {
    /// Compile the source code; on success, the machine replaces the stored
    /// one.
    Compile { source_code: String },
    /// Execute one instruction of the stored machine.
    Step,
    /// Step automatically, every `interval` milliseconds.
    AutoStepStart { interval: u64 },
    /// Stop stepping automatically.
    AutoStepStop,
}

/// A copy of a machine's state, to send to the user.
#[derive(Clone, Debug, PartialEq)]
pub struct MachineSnapshot {
    pub program_counter: usize,
    /// The remaining input, the next value to be read last.
    pub input: Vec<i32>,
    pub output: Vec<i32>,
    pub registers: Vec<i32>,
    pub stacks: Vec<Vec<i32>>,
    pub is_complete: bool,
    pub is_successful: bool,
}

/// An event that the session sends to the user.
#[derive(Clone, Debug, PartialEq)]
pub enum OutgoingEvent {
    /// The latest state of the machine.
    MachineState(MachineSnapshot),
    /// A message could not be read; the text says why.
    MalformedMessage(String),
    /// The sent program failed to compile.
    CompileError(CompileErrors),
    /// An instruction raised an error.
    RuntimeError(RuntimeError),
    /// A step was asked for before any program compiled.
    NoCompilation,
}

/// What the caller does after an event: send the reply, if any; cancel the
/// running step timer, if asked; then start a new one, if asked.
#[derive(Clone, Debug, PartialEq)]
pub struct SessionResponse {
    pub reply: Option<OutgoingEvent>,
    pub cancel_timer: bool,
    pub start_timer: Option<u64>,
}

/// Is the snapshot a copy of the machine's state?
pub open spec fn snapshot_of(s: MachineSnapshot, m: MachineModel) -> bool {
    &&& s.program_counter == m.pc
    &&& s.input@ == m.state.input
    &&& s.output@ == m.state.output
    &&& s.registers@ == m.state.registers
    &&& s.stacks@.len() == m.state.stacks.len()
    &&& forall|i: int| 0 <= i < s.stacks@.len() ==> #[trigger] s.stacks@[i]@ == m.state.stacks[i]
    &&& s.is_complete == model_complete(m)
    &&& s.is_successful == model_successful(m)
}

/// A copy of the values.
fn copy_values(v: &Vec<i32>) -> (c: Vec<i32>)
    ensures
        c@ == v@,
{
    let mut c: Vec<i32> = Vec::new();
    let mut i: usize = 0;
    while i < v.len()
        invariant
            i <= v@.len(),
            c@ == v@.subrange(0, i as int),
        decreases v@.len() - i,
    {
        c.push(v[i]);
        i = i + 1;
        assert(c@ =~= v@.subrange(0, i as int));
    }
    assert(v@.subrange(0, v@.len() as int) =~= v@);
    c
}

/// A copy of the machine's state.
pub fn snapshot(machine: &Machine) -> (s: MachineSnapshot)
    ensures
        snapshot_of(s, machine@),
{
    let state = machine.get_state();
    let mut stacks: Vec<Vec<i32>> = Vec::new();
    let mut i: usize = 0;
    while i < state.stacks.len()
        invariant
            state@ == machine@.state,
            i <= state.stacks@.len(),
            stacks@.len() == i,
            forall|j: int| 0 <= j < i ==> #[trigger] stacks@[j]@ == state.stacks@[j]@,
        decreases state.stacks@.len() - i,
    {
        stacks.push(copy_values(&state.stacks[i]));
        i = i + 1;
    }
    assert forall|j: int| 0 <= j < stacks@.len() implies #[trigger] stacks@[j]@ == machine@.state.stacks[j] by {
        assert(machine@.state.stacks[j] == state.stacks@[j]@);
    }
    MachineSnapshot {
        program_counter: machine.program_counter(),
        input: copy_values(&state.input),
        output: copy_values(&state.output),
        registers: copy_values(&state.registers),
        stacks,
        is_complete: machine.is_complete(),
        is_successful: machine.is_successful(),
    }
}

/// The state of one session: the environment that programs compile and run
/// in, the compiled machine, if any, and the automatic stepping.
pub struct ProgramSession {
    env: Environment,
    machine: Option<Machine>,
    auto_step_interval: u64,
    auto_stepping: bool,
}

/// The reply to a step of the stored machine, as the session sends it.
pub open spec fn step_reply(before: Option<MachineModel>, after: Option<MachineModel>, reply: OutgoingEvent) -> bool {
    match before {
        None => after is None && reply == OutgoingEvent::NoCompilation,
        Some(m) => match step(m) {
            Ok(next) => after == Some(next) && (reply matches OutgoingEvent::MachineState(s) && snapshot_of(s, next)),
            Err(e) => after == Some(m) && reply == OutgoingEvent::RuntimeError(e),
        },
    }
}

impl ProgramSession {
    #[verifier::type_invariant]
    spec fn wf(self) -> bool {
        &&& self.env.num_registers >= 0
        &&& self.env.num_stacks >= 0
        &&& self.machine matches Some(m) ==> model_fits(m@)
    }

    /// The environment of the session.
    pub closed spec fn environment(self) -> Environment {
        self.env
    }

    /// The stored machine, if a program has compiled.
    pub closed spec fn machine_model(self) -> Option<MachineModel> {
        match self.machine {
            Some(m) => Some(m@),
            None => None,
        }
    }

    /// Is the step timer running?
    pub closed spec fn auto_stepping(self) -> bool {
        self.auto_stepping
    }

    /// The interval of automatic steps, in milliseconds.
    pub closed spec fn interval(self) -> u64 {
        self.auto_step_interval
    }

    /// Starts a session in an environment, with no program compiled.
    pub fn new(env: Environment) -> (s: Self)
        requires
            env.num_registers >= 0,
            env.num_stacks >= 0,
        ensures
            s.environment() == env,
            s.machine_model() is None,
            !s.auto_stepping(),
    {
        ProgramSession { env, machine: None, auto_step_interval: 0, auto_stepping: false }
    }

    /// Executes one instruction of the stored machine.
    fn machine_step(&mut self) -> (reply: OutgoingEvent)
        ensures
            step_reply(old(self).machine_model(), final(self).machine_model(), reply),
            final(self).environment() == old(self).environment(),
            final(self).auto_stepping() == old(self).auto_stepping(),
            final(self).interval() == old(self).interval(),
    {
        proof {
            use_type_invariant(&*self);
        }
        let mut machine = None;
        std::mem::swap(&mut machine, &mut self.machine);
        match machine {
            None => OutgoingEvent::NoCompilation,
            Some(mut m) => {
                if m.is_complete() {
                    self.machine = Some(m);
                    return OutgoingEvent::RuntimeError(RuntimeError::ProgramTerminated);
                }
                proof {
                    lemma_fits_next(m@);
                    if let Ok(_) = step(m@) {
                        lemma_step_follows(m@);
                    }
                }
                let r = m.execute_next();
                let reply = match r {
                    Ok(()) => OutgoingEvent::MachineState(snapshot(&m)),
                    Err(e) => OutgoingEvent::RuntimeError(e),
                };
                self.machine = Some(m);
                reply
            },
        }
    }

    /// Handles one event from the user.
    pub fn handle(&mut self, event: IncomingEvent) -> (r: SessionResponse)
        requires
            event matches IncomingEvent::Compile { source_code } ==> source_desugarable(source_code@),
        ensures
            final(self).environment() == old(self).environment(),
            match event {
                IncomingEvent::Compile { source_code } => {
                    &&& !r.cancel_timer && r.start_timer is None
                    &&& final(self).auto_stepping() == old(self).auto_stepping()
                    &&& match compile_outcome(&old(self).environment(), source_code@) {
                        Ok(program) => {
                            let m = initial_machine(&old(self).environment(), program);
                            &&& final(self).machine_model() == Some(m)
                            &&& r.reply matches Some(OutgoingEvent::MachineState(s)) && snapshot_of(s, m)
                        },
                        Err(errors) => {
                            &&& final(self).machine_model() == old(self).machine_model()
                            &&& r.reply matches Some(OutgoingEvent::CompileError(es)) && es.errors@ == errors
                        },
                    }
                },
                IncomingEvent::Step => {
                    &&& !r.cancel_timer && r.start_timer is None
                    &&& final(self).auto_stepping() == old(self).auto_stepping()
                    &&& r.reply matches Some(reply) && step_reply(
                        old(self).machine_model(),
                        final(self).machine_model(),
                        reply,
                    )
                },
                IncomingEvent::AutoStepStart { interval } => {
                    &&& r.reply is None
                    &&& r.cancel_timer == old(self).auto_stepping()
                    &&& r.start_timer == Some(interval)
                    &&& final(self).auto_stepping()
                    &&& final(self).interval() == interval
                    &&& final(self).machine_model() == old(self).machine_model()
                },
                IncomingEvent::AutoStepStop => {
                    &&& r.reply is None
                    &&& r.cancel_timer == old(self).auto_stepping()
                    &&& r.start_timer is None
                    &&& !final(self).auto_stepping()
                    &&& final(self).machine_model() == old(self).machine_model()
                },
            },
    {
        proof {
            use_type_invariant(&*self);
        }
        match event {
            IncomingEvent::Compile { source_code } => {
                match compile(&self.env, source_code) {
                    Ok(m) => {
                        let reply = OutgoingEvent::MachineState(snapshot(&m));
                        self.machine = Some(m);
                        SessionResponse { reply: Some(reply), cancel_timer: false, start_timer: None }
                    },
                    Err(errors) => SessionResponse {
                        reply: Some(OutgoingEvent::CompileError(errors)),
                        cancel_timer: false,
                        start_timer: None,
                    },
                }
            },
            IncomingEvent::Step => {
                let reply = self.machine_step();
                SessionResponse { reply: Some(reply), cancel_timer: false, start_timer: None }
            },
            IncomingEvent::AutoStepStart { interval } => {
                let cancel = self.auto_stepping;
                self.auto_step_interval = interval;
                self.auto_stepping = true;
                SessionResponse { reply: None, cancel_timer: cancel, start_timer: Some(interval) }
            },
            IncomingEvent::AutoStepStop => {
                let cancel = self.auto_stepping;
                self.auto_stepping = false;
                SessionResponse { reply: None, cancel_timer: cancel, start_timer: None }
            },
        }
    }

    /// Handles a tick of the step timer: takes one step, and stops the timer
    /// when the step fails or the program has completed.
    pub fn auto_step_tick(&mut self) -> (r: SessionResponse)
        ensures
            final(self).environment() == old(self).environment(),
            r.start_timer is None,
            r.reply matches Some(reply) && step_reply(old(self).machine_model(), final(self).machine_model(), reply),
            r.cancel_timer == !(r.reply matches Some(OutgoingEvent::MachineState(s)) && !s.is_complete),
            final(self).auto_stepping() == (old(self).auto_stepping() && !r.cancel_timer),
            final(self).interval() == old(self).interval(),
    {
        let reply = self.machine_step();
        proof {
            use_type_invariant(&*self);
        }
        let cancel = match &reply {
            OutgoingEvent::MachineState(s) => s.is_complete,
            _ => true,
        };
        if cancel {
            self.auto_stepping = false;
        }
        SessionResponse { reply: Some(reply), cancel_timer: cancel, start_timer: None }
    }
}

} // verus!
