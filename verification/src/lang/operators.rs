//! What each operator does to the machine's data, stated over the values
//! that a program can observe: its registers, stacks, input and output.

use crate::lang::ast::{LangValue, Operator, RegisterRef, StackIdentifier, ValueSource};
use crate::lang::error::RuntimeError;
use crate::lang::machine::{apply_operator, reg_value, StateModel};
use vstd::arithmetic::div_mod::{lemma_fundamental_div_mod, lemma_mod_multiples_basic};
use vstd::prelude::*;

verus! {

/// Do two integers agree modulo `2^32`, as the results of wrapping `i32`
/// arithmetic agree with the exact ones?
pub open spec fn congruent_32(a: int, b: int) -> bool {
    (a - b) % 4294967296 == 0
}

/// Are the two states equal except for user register `i`?
pub open spec fn same_but_register(a: StateModel, b: StateModel, i: int) -> bool {
    &&& a.max_stack_length == b.max_stack_length
    &&& a.input == b.input
    &&& a.output == b.output
    &&& a.stacks == b.stacks
    &&& a.registers.len() == b.registers.len()
    &&& forall|j: int| 0 <= j < a.registers.len() && j != i ==> #[trigger] a.registers[j] == b.registers[j]
}

/// A difference of a multiple of `2^32` keeps congruence.
proof fn lemma_congruent_shift(a: int, b: int, k: int)
    requires
        a == b + k * 4294967296,
    ensures
        congruent_32(a, b),
{
    lemma_mod_multiples_basic(k, 4294967296);
    assert(a - b == k * 4294967296);
}

/// Law: `SET RXi <value>` makes register `i` read the value (a constant, or
/// what another register reads), and changes nothing else.
pub proof fn lemma_assign_sets_register(st: StateModel, i: usize, src: ValueSource)
    requires
        i < st.registers.len(),
    ensures
        apply_operator(st, Operator::Assign(RegisterRef::User(i), src)) matches Ok(after) && {
            &&& same_but_register(after, st, i as int)
            &&& src matches ValueSource::Const(v) ==> reg_value(after, RegisterRef::User(i)) == v
            &&& src matches ValueSource::Register(r) ==> reg_value(after, RegisterRef::User(i)) == reg_value(
                st,
                r,
            )
        },
{
}

/// Law: `ADD`, `SUB` and `MUL` of a constant into register `i` leave in it
/// the sum, difference or product with its old value, wrapped into the
/// `i32` range (equal modulo `2^32`), and change nothing else.
pub proof fn lemma_arithmetic_wraps(st: StateModel, i: usize, v: LangValue)
    requires
        i < st.registers.len(),
    ensures
        ({
            let d = RegisterRef::User(i);
            let old_v = reg_value(st, d) as int;
            &&& apply_operator(st, Operator::Add(d, ValueSource::Const(v))) matches Ok(after) && same_but_register(
                after,
                st,
                i as int,
            ) && congruent_32(reg_value(after, d) as int, old_v + v)
            &&& apply_operator(st, Operator::Sub(d, ValueSource::Const(v))) matches Ok(after) && same_but_register(
                after,
                st,
                i as int,
            ) && congruent_32(reg_value(after, d) as int, old_v - v)
            &&& apply_operator(st, Operator::Mul(d, ValueSource::Const(v))) matches Ok(after) && same_but_register(
                after,
                st,
                i as int,
            ) && congruent_32(reg_value(after, d) as int, old_v * v)
        }),
{
    let d = RegisterRef::User(i);
    let x = reg_value(st, d);
    let s = x.wrapping_add(v) as int;
    if x + v > i32::MAX {
        lemma_congruent_shift(s, x + v, -1);
    } else if x + v < i32::MIN {
        lemma_congruent_shift(s, x + v, 1);
    } else {
        lemma_congruent_shift(s, x + v, 0);
    }
    let t = x.wrapping_sub(v) as int;
    if x - v > i32::MAX {
        lemma_congruent_shift(t, x - v, -1);
    } else if x - v < i32::MIN {
        lemma_congruent_shift(t, x - v, 1);
    } else {
        lemma_congruent_shift(t, x - v, 0);
    }
    let p = x * v;
    let q = p / 4294967296;
    let r = p % 4294967296;
    lemma_fundamental_div_mod(p, 4294967296);
    let m = x.wrapping_mul(v) as int;
    if r > i32::MAX {
        assert(m == r - 4294967296);
        lemma_congruent_shift(m, p, -q - 1);
    } else {
        assert(m == r);
        lemma_congruent_shift(m, p, -q);
    }
}

/// Law: the input is read in order. When the values still to be read are
/// `rest` (in the order the environment lists them), `READ RXi` puts
/// `rest[0]` in register `i` and leaves `rest` without its first value; with
/// nothing left to read it fails with `EmptyInput` and changes nothing.
pub proof fn lemma_read_takes_next_input(st: StateModel, i: usize, rest: Seq<LangValue>)
    requires
        i < st.registers.len(),
        st.input == rest.reverse(),
    ensures
        rest.len() == 0 ==> apply_operator(st, Operator::Read(RegisterRef::User(i))) == Err::<
            StateModel,
            RuntimeError,
        >(RuntimeError::EmptyInput),
        rest.len() > 0 ==> (apply_operator(st, Operator::Read(RegisterRef::User(i))) matches Ok(after) && {
            &&& reg_value(after, RegisterRef::User(i)) == rest[0]
            &&& after.input == rest.drop_first().reverse()
            &&& after.output == st.output
            &&& after.stacks == st.stacks
        }),
{
    if rest.len() > 0 {
        assert(st.input.last() == rest[0]);
        assert(st.input.drop_last() =~= rest.drop_first().reverse());
    }
}

/// Law: `WRITE r` appends what `r` reads to the output, and changes nothing
/// else.
pub proof fn lemma_write_appends(st: StateModel, r: RegisterRef)
    ensures
        apply_operator(st, Operator::Write(r)) matches Ok(after) && {
            &&& after.output == st.output.push(reg_value(st, r))
            &&& after.input == st.input
            &&& after.registers == st.registers
            &&& after.stacks == st.stacks
        },
{
}

/// Law: stacks are last in, first out. Pushing a value onto stack `n` and
/// then popping stack `n` into register `i` puts the value in the register
/// and leaves every stack as it was. Pushing onto a full stack fails with
/// `StackOverflow`, and popping an empty one with `EmptyStack`.
pub proof fn lemma_push_then_pop(st: StateModel, n: StackIdentifier, v: LangValue, i: usize)
    requires
        n < st.stacks.len(),
        i < st.registers.len(),
    ensures
        (0 <= st.max_stack_length && st.stacks[n as int].len() >= st.max_stack_length) ==> apply_operator(
            st,
            Operator::Push(ValueSource::Const(v), n),
        ) == Err::<StateModel, RuntimeError>(RuntimeError::StackOverflow(n)),
        st.stacks[n as int].len() == 0 ==> apply_operator(st, Operator::Pop(n, RegisterRef::User(i))) == Err::<
            StateModel,
            RuntimeError,
        >(RuntimeError::EmptyStack(n)),
        apply_operator(st, Operator::Push(ValueSource::Const(v), n)) matches Ok(mid) ==> (apply_operator(
            mid,
            Operator::Pop(n, RegisterRef::User(i)),
        ) matches Ok(after) && reg_value(after, RegisterRef::User(i)) == v && after.stacks == st.stacks),
{
    if let Ok(mid) = apply_operator(st, Operator::Push(ValueSource::Const(v), n)) {
        assert(mid.stacks[n as int].last() == v);
        assert(mid.stacks[n as int].drop_last() =~= st.stacks[n as int]);
        assert(mid.stacks.update(n as int, mid.stacks[n as int].drop_last()) =~= st.stacks);
    }
}

} // verus!
