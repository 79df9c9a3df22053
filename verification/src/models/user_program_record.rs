//! Statistics of successful program executions, and their personal bests.

use vstd::prelude::*;

verus! {

/// A set of statistics gathered on an executed user program. This can be the
/// statistics of one execution, or the best of each statistic over several.
#[derive(Copy, Clone, Debug, PartialEq, Eq, Structural)]
pub struct UserProgramRecordStats {
    /// Number of CPU cycles required for the program to terminate.
    pub cpu_cycles: i32,
    /// Number of compiled instructions in the program (i.e. program size).
    pub instructions: i32,
    /// Number of unique user registers referenced by the program.
    pub registers_used: i32,
    /// Number of unique stacks referenced by the program.
    pub stacks_used: i32,
}

/// Is `best` the least value of `field` over the rows: no greater than any
/// of them, and equal to one of them?
pub open spec fn is_least(rows: Seq<UserProgramRecordStats>, field: spec_fn(UserProgramRecordStats) -> i32, best: i32) -> bool {
    &&& forall|i: int| 0 <= i < rows.len() ==> best <= field(#[trigger] rows[i])
    &&& exists|i: int| 0 <= i < rows.len() && best == field(#[trigger] rows[i])
}

/// Is `best` the personal best over the rows: each statistic the least value
/// of that statistic over all rows (the statistics may come from different
/// rows)?
pub open spec fn is_personal_best(rows: Seq<UserProgramRecordStats>, best: UserProgramRecordStats) -> bool {
    &&& is_least(rows, |s: UserProgramRecordStats| s.cpu_cycles, best.cpu_cycles)
    &&& is_least(rows, |s: UserProgramRecordStats| s.instructions, best.instructions)
    &&& is_least(rows, |s: UserProgramRecordStats| s.registers_used, best.registers_used)
    &&& is_least(rows, |s: UserProgramRecordStats| s.stacks_used, best.stacks_used)
}

fn min_i32(a: i32, b: i32) -> (m: i32)
    ensures
        m <= a,
        m <= b,
        m == a || m == b,
{
    if a <= b {
        a
    } else {
        b
    }
}

impl UserProgramRecordStats {
    /// The best value of each statistic over the records of one user and
    /// program spec, or `None` when there is no record. The statistics may
    /// not all be from the same record.
    pub fn personal_bests(rows: &[UserProgramRecordStats]) -> (best: Option<UserProgramRecordStats>)
        ensures
            best is None <==> rows@.len() == 0,
            best matches Some(b) ==> is_personal_best(rows@, b),
    {
        if rows.len() == 0 {
            return None;
        }
        let mut acc = rows[0];
        let mut k: usize = 1;
        proof {
            let first = rows@.subrange(0, 1);
            assert(first =~= seq![acc]);
            lemma_least_single(acc, |s: UserProgramRecordStats| s.cpu_cycles);
            lemma_least_single(acc, |s: UserProgramRecordStats| s.instructions);
            lemma_least_single(acc, |s: UserProgramRecordStats| s.registers_used);
            lemma_least_single(acc, |s: UserProgramRecordStats| s.stacks_used);
        }
        while k < rows.len()
            invariant
                1 <= k <= rows@.len(),
                is_personal_best(rows@.subrange(0, k as int), acc),
            decreases rows@.len() - k,
        {
            let row = rows[k];
            let next = UserProgramRecordStats {
                cpu_cycles: min_i32(acc.cpu_cycles, row.cpu_cycles),
                instructions: min_i32(acc.instructions, row.instructions),
                registers_used: min_i32(acc.registers_used, row.registers_used),
                stacks_used: min_i32(acc.stacks_used, row.stacks_used),
            };
            proof {
                lemma_extend_least(rows@, k as int, |s: UserProgramRecordStats| s.cpu_cycles, acc.cpu_cycles, next.cpu_cycles);
                lemma_extend_least(rows@, k as int, |s: UserProgramRecordStats| s.instructions, acc.instructions, next.instructions);
                lemma_extend_least(rows@, k as int, |s: UserProgramRecordStats| s.registers_used, acc.registers_used, next.registers_used);
                lemma_extend_least(rows@, k as int, |s: UserProgramRecordStats| s.stacks_used, acc.stacks_used, next.stacks_used);
            }
            acc = next;
            k = k + 1;
        }
        assert(rows@.subrange(0, rows@.len() as int) =~= rows@);
        Some(acc)
    }
}

/// The value of a field in a single row is the least over that row.
proof fn lemma_least_single(row: UserProgramRecordStats, field: spec_fn(UserProgramRecordStats) -> i32)
    ensures
        is_least(seq![row], field, field(row)),
{
    assert(seq![row][0] == row);
}

/// Taking the least of the best so far and the next row gives the least over
/// one more row.
proof fn lemma_extend_least(
    rows: Seq<UserProgramRecordStats>,
    k: int,
    field: spec_fn(UserProgramRecordStats) -> i32,
    best: i32,
    next: i32,
)
    requires
        0 < k < rows.len(),
        is_least(rows.subrange(0, k), field, best),
        next <= best,
        next <= field(rows[k]),
        next == best || next == field(rows[k]),
    ensures
        is_least(rows.subrange(0, k + 1), field, next),
{
    let before = rows.subrange(0, k);
    let after = rows.subrange(0, k + 1);
    assert forall|i: int| 0 <= i < after.len() implies next <= field(#[trigger] after[i]) by {
        if i < k {
            assert(after[i] == before[i]);
        }
    }
    if next == best {
        let w = choose|i: int| 0 <= i < before.len() && best == field(#[trigger] before[i]);
        assert(after[w] == before[w]);
    } else {
        assert(after[k] == rows[k]);
    }
}

/// Law: the personal best of a single record is that record.
pub proof fn lemma_personal_best_single(row: UserProgramRecordStats, best: UserProgramRecordStats)
    requires
        is_personal_best(seq![row], best),
    ensures
        best == row,
{
    assert(seq![row][0] == row);
}

/// Law: the personal best is no worse, in every statistic, than each record.
pub proof fn lemma_personal_best_dominates(
    rows: Seq<UserProgramRecordStats>,
    best: UserProgramRecordStats,
    i: int,
)
    requires
        is_personal_best(rows, best),
        0 <= i < rows.len(),
    ensures
        best.cpu_cycles <= rows[i].cpu_cycles,
        best.instructions <= rows[i].instructions,
        best.registers_used <= rows[i].registers_used,
        best.stacks_used <= rows[i].stacks_used,
{
    let f1 = |s: UserProgramRecordStats| s.cpu_cycles;
    let f2 = |s: UserProgramRecordStats| s.instructions;
    let f3 = |s: UserProgramRecordStats| s.registers_used;
    let f4 = |s: UserProgramRecordStats| s.stacks_used;
    assert(best.cpu_cycles <= f1(rows[i]));
    assert(best.instructions <= f2(rows[i]));
    assert(best.registers_used <= f3(rows[i]));
    assert(best.stacks_used <= f4(rows[i]));
}

} // verus!
