//! The statistics that personal bests are kept for, and their names in the
//! database.

use crate::text::str_equal;
use vstd::prelude::*;

verus! {

broadcast use vstd::std_specs::vec::group_vec_axioms;

/// A program statistic that is tracked.
#[derive(Copy, Clone, Debug, PartialEq, Eq, Hash, Structural)]
pub enum StatType {
    CpuCycles,
    Instructions,
    RegistersUsed,
    StacksUsed,
}

/// The name under which the database stores a statistic.
pub open spec fn stat_name(s: StatType) -> Seq<char> {
    match s {
        StatType::CpuCycles => "cpu_cycles"@,
        StatType::Instructions => "instructions"@,
        StatType::RegistersUsed => "registers_used"@,
        StatType::StacksUsed => "stacks_used"@,
    }
}

/// The statistic stored under a name, if any.
pub open spec fn stat_from_name(name: Seq<char>) -> Option<StatType> {
    if name == stat_name(StatType::CpuCycles) {
        Some(StatType::CpuCycles)
    } else if name == stat_name(StatType::Instructions) {
        Some(StatType::Instructions)
    } else if name == stat_name(StatType::RegistersUsed) {
        Some(StatType::RegistersUsed)
    } else if name == stat_name(StatType::StacksUsed) {
        Some(StatType::StacksUsed)
    } else {
        None
    }
}

impl StatType {
    /// The name under which the database stores this statistic.
    pub fn to_str(self) -> (name: &'static str)
        ensures
            name@ == stat_name(self),
    {
        match self {
            StatType::CpuCycles => "cpu_cycles",
            StatType::Instructions => "instructions",
            StatType::RegistersUsed => "registers_used",
            StatType::StacksUsed => "stacks_used",
        }
    }

    /// Every statistic, in a fixed order.
    pub fn all_types() -> (all: Vec<StatType>)
        ensures
            all@ == seq![StatType::CpuCycles, StatType::Instructions, StatType::RegistersUsed, StatType::StacksUsed],
    {
        let mut all: Vec<StatType> = Vec::new();
        all.push(StatType::CpuCycles);
        all.push(StatType::Instructions);
        all.push(StatType::RegistersUsed);
        all.push(StatType::StacksUsed);
        assert(all@ =~= seq![StatType::CpuCycles, StatType::Instructions, StatType::RegistersUsed, StatType::StacksUsed]);
        all
    }

    /// The statistic stored under a name; `None` for a name that no
    /// statistic has.
    pub fn from_name(name: &str) -> (s: Option<StatType>)
        ensures
            s == stat_from_name(name@),
    {
        if str_equal(name, StatType::CpuCycles.to_str()) {
            Some(StatType::CpuCycles)
        } else if str_equal(name, StatType::Instructions.to_str()) {
            Some(StatType::Instructions)
        } else if str_equal(name, StatType::RegistersUsed.to_str()) {
            Some(StatType::RegistersUsed)
        } else if str_equal(name, StatType::StacksUsed.to_str()) {
            Some(StatType::StacksUsed)
        } else {
            None
        }
    }
}

/// Law: no two statistics share a name, so the name of a statistic reads
/// back as that statistic.
pub proof fn lemma_stat_name_roundtrip(s: StatType)
    ensures
        stat_from_name(stat_name(s)) == Some(s),
{
    reveal_strlit("cpu_cycles");
    reveal_strlit("instructions");
    reveal_strlit("registers_used");
    reveal_strlit("stacks_used");
    assert(stat_name(StatType::CpuCycles)[0] != stat_name(StatType::Instructions)[0]);
    assert(stat_name(StatType::CpuCycles)[0] != stat_name(StatType::RegistersUsed)[0]);
    assert(stat_name(StatType::CpuCycles)[0] != stat_name(StatType::StacksUsed)[0]);
    assert(stat_name(StatType::Instructions)[0] != stat_name(StatType::RegistersUsed)[0]);
    assert(stat_name(StatType::Instructions)[0] != stat_name(StatType::StacksUsed)[0]);
    assert(stat_name(StatType::RegistersUsed)[0] != stat_name(StatType::StacksUsed)[0]);
}

} // verus!
