//! An assembly form with symbolic labels for a machine with a single
//! workspace, and the stage that replaces its labels with instruction
//! indexes.

use crate::lang::ast::{LangValue, StackIdentifier};
use crate::lang::Compiler;
use vstd::prelude::*;

verus! {

broadcast use vstd::std_specs::vec::group_vec_axioms;

/// An instruction that may name a label, or be one.
#[derive(Debug, PartialEq)]
pub enum DietInstr {
    /// Reads one input value into the workspace.
    Read,
    /// Writes the workspace to the output.
    Write,
    /// Sets the workspace to a value.
    Assign(LangValue),
    /// Pushes the workspace onto a stack.
    Push(StackIdentifier),
    /// Pops a stack into the workspace.
    Pop(StackIdentifier),
    /// Marks the position of the next instruction under a name.
    Label(String),
    /// Jumps to a label if the workspace == 0.
    Jez(String),
    /// Jumps to a label if the workspace != 0.
    Jnz(String),
}

/// An instruction whose jumps name the index of their target.
#[derive(Copy, Clone, Debug, PartialEq, Eq, Structural)]
pub enum MachineInstr {
    Read,
    Write,
    Assign(LangValue),
    Push(StackIdentifier),
    Pop(StackIdentifier),
    /// Jumps to an instruction index if the workspace == 0.
    Jez(usize),
    /// Jumps to an instruction index if the workspace != 0.
    Jnz(usize),
}

/// Is the instruction a label marking the given name?
pub open spec fn is_label_named(i: DietInstr, name: Seq<char>) -> bool {
    i matches DietInstr::Label(l) && l@ == name
}

/// The number of instructions before position `k` that are not labels.
pub open spec fn count_non_labels(s: Seq<DietInstr>, k: int) -> nat
    decreases k,
{
    if k <= 0 {
        0
    } else {
        count_non_labels(s, k - 1) + if s[k - 1] is Label {
            0nat
        } else {
            1nat
        }
    }
}

/// Does no name mark two labels?
pub open spec fn labels_unique(s: Seq<DietInstr>) -> bool {
    forall|i: int, j: int|
        0 <= i < j < s.len() && s[i] is Label && s[j] is Label ==> s[i]->Label_0@ != s[j]->Label_0@
}

/// Is there a label with the name?
pub open spec fn label_defined(s: Seq<DietInstr>, name: Seq<char>) -> bool {
    exists|k: int| 0 <= k < s.len() && #[trigger] is_label_named(s[k], name)
}

/// Does every jump name a label of the program?
pub open spec fn jumps_resolved(s: Seq<DietInstr>) -> bool {
    forall|k: int|
        0 <= k < s.len() ==> match #[trigger] s[k] {
            DietInstr::Jez(l) | DietInstr::Jnz(l) => label_defined(s, l@),
            _ => true,
        }
}

/// The index that a label stands for: the number of instructions that are
/// not labels before it.
pub open spec fn label_index(s: Seq<DietInstr>, name: Seq<char>) -> nat {
    count_non_labels(s, choose|k: int| 0 <= k < s.len() && #[trigger] is_label_named(s[k], name))
}

/// The instruction without labels that an instruction becomes, if any.
pub open spec fn delabel_instr(s: Seq<DietInstr>, i: DietInstr) -> Seq<MachineInstr> {
    match i {
        DietInstr::Read => seq![MachineInstr::Read],
        DietInstr::Write => seq![MachineInstr::Write],
        DietInstr::Assign(v) => seq![MachineInstr::Assign(v)],
        DietInstr::Push(id) => seq![MachineInstr::Push(id)],
        DietInstr::Pop(id) => seq![MachineInstr::Pop(id)],
        DietInstr::Label(_) => Seq::empty(),
        DietInstr::Jez(l) => seq![MachineInstr::Jez(label_index(s, l@) as usize)],
        DietInstr::Jnz(l) => seq![MachineInstr::Jnz(label_index(s, l@) as usize)],
    }
}

/// The first `k` instructions of `s` without their labels, jumps resolved
/// against all of `s`.
pub open spec fn delabel_prefix(s: Seq<DietInstr>, k: int) -> Seq<MachineInstr>
    decreases k,
{
    if k <= 0 {
        Seq::empty()
    } else {
        delabel_prefix(s, k - 1) + delabel_instr(s, s[k - 1])
    }
}

/// The program without its labels, each jump naming the index of its label.
pub open spec fn delabel_spec(s: Seq<DietInstr>) -> Seq<MachineInstr> {
    delabel_prefix(s, s.len() as int)
}

proof fn lemma_count_mono(s: Seq<DietInstr>, j: int, k: int)
    requires
        j <= k,
    ensures
        count_non_labels(s, j) <= count_non_labels(s, k),
    decreases k - j,
{
    if j < k {
        lemma_count_mono(s, j, k - 1);
    }
}

proof fn lemma_count_le(s: Seq<DietInstr>, k: int)
    requires
        0 <= k,
    ensures
        count_non_labels(s, k) <= k,
    decreases k,
{
    if k > 0 {
        lemma_count_le(s, k - 1);
    }
}

/// Law: the labels are dropped and every other instruction is kept: the
/// program without labels has as many instructions as there are
/// instructions that are not labels.
pub proof fn lemma_delabel_len(s: Seq<DietInstr>, k: int)
    requires
        0 <= k <= s.len(),
    ensures
        delabel_prefix(s, k).len() == count_non_labels(s, k),
    decreases k,
{
    if k > 0 {
        lemma_delabel_len(s, k - 1);
    }
}

/// Is the entry the label at position `p` of `s`, with the index that the
/// label stands for?
pub open spec fn entry_ok(s: Seq<DietInstr>, e: (String, usize), p: int) -> bool {
    &&& 0 <= p < s.len()
    &&& is_label_named(s[p], e.0@)
    &&& e.1 == count_non_labels(s, p)
}

/// Is every entry of the map a label of `s`, at the recorded position, with
/// the index that the label stands for?
pub open spec fn map_entries_ok(s: Seq<DietInstr>, map: Seq<(String, usize)>, pos: Seq<int>) -> bool {
    &&& pos.len() == map.len()
    &&& forall|j: int| 0 <= j < map.len() ==> #[trigger] entry_ok(s, map[j], pos[j])
}

proof fn lemma_map_push(
    s: Seq<DietInstr>,
    map: Seq<(String, usize)>,
    pos: Seq<int>,
    entry: (String, usize),
    k: int,
)
    requires
        map_entries_ok(s, map, pos),
        entry_ok(s, entry, k),
    ensures
        map_entries_ok(s, map.push(entry), pos.push(k)),
{
    let m = map.push(entry);
    let p = pos.push(k);
    assert forall|j: int| 0 <= j < m.len() implies #[trigger] entry_ok(s, m[j], p[j]) by {
        if j < map.len() {
            assert(m[j] == map[j]);
            assert(p[j] == pos[j]);
            assert(entry_ok(s, map[j], pos[j]));
        } else {
            assert(m[j] == entry);
            assert(p[j] == k);
        }
    }
}

/// Finds the index that a label stands for in the map built so far.
fn find_label(map: &Vec<(String, usize)>, name: &String) -> (r: Option<usize>)
    ensures
        match r {
            Some(j) => j < map@.len() && map@[j as int].0@ == name@,
            None => forall|j: int| 0 <= j < map@.len() ==> map@[j].0@ != name@,
        },
{
    let mut j: usize = 0;
    while j < map.len()
        invariant
            j <= map@.len(),
            forall|i: int| 0 <= i < j ==> map@[i].0@ != name@,
        decreases map@.len() - j,
    {
        if map[j].0 == *name {
            return Some(j);
        }
        j = j + 1;
    }
    None
}

impl Compiler<Vec<DietInstr>> {
    /// Strips the labels out of an instruction list, replacing each jump's
    /// label with the index of the instruction that follows the label. E.g.:
    ///
    /// ```text
    /// 0: Assign(0)           0: Assign(0)
    /// 1: Jez("label_0")      1: Jez(3)
    /// 2: Assign(1)     ==>   2: Assign(1)
    /// 3: Label("label_0")    3: Assign(2)
    /// 4: Assign(2)
    /// ```
    pub fn delabel(self) -> (c: Compiler<Vec<MachineInstr>>)
        requires
            labels_unique(self.0@),
            jumps_resolved(self.0@),
        ensures
            c.0@ == delabel_spec(self.0@),
    {
        let instrs = &self.0;
        let ghost s = instrs@;
        // The map from each label to the index it stands for, and the
        // position of each label.
        let mut map: Vec<(String, usize)> = Vec::new();
        let ghost mut pos: Seq<int> = Seq::empty();
        let mut idx: usize = 0;
        let mut k: usize = 0;
        while k < instrs.len()
            invariant
                s == instrs@,
                labels_unique(s),
                k <= s.len(),
                idx == count_non_labels(s, k as int),
                map_entries_ok(s, map@, pos),
                forall|p: int|
                    0 <= p < k && #[trigger] s[p] is Label ==> exists|j: int|
                        0 <= j < map@.len() && map@[j].0@ == s[p]->Label_0@,
            decreases s.len() - k,
        {
            proof {
                lemma_count_le(s, k as int);
            }
            match &instrs[k] {
                DietInstr::Label(label) => {
                    let ghost before = map@;
                    map.push((label.clone(), idx));
                    let ghost old_pos = pos;
                    proof {
                        pos = pos.push(k as int);
                        assert(is_label_named(s[k as int], label@));
                        assert forall|p: int|
                            0 <= p < k + 1 && #[trigger] s[p] is Label implies exists|j: int|
                                0 <= j < map@.len() && map@[j].0@ == s[p]->Label_0@ by {
                            if p < k {
                                let j = choose|j: int|
                                    0 <= j < before.len() && before[j].0@ == s[p]->Label_0@;
                                assert(map@[j] == before[j]);
                            } else {
                                assert(map@[before.len() as int].0@ == s[p]->Label_0@);
                            }
                        }
                        assert(map@ == before.push(map@.last()));
                        assert(map@.last().0@ == label@);
                        lemma_map_push(s, before, old_pos, map@.last(), k as int);

                    }
                },
                _ => {
                    idx = idx + 1;
                },
            }
            k = k + 1;
        }
        let mut out: Vec<MachineInstr> = Vec::new();
        let mut k: usize = 0;
        while k < instrs.len()
            invariant
                s == instrs@,
                labels_unique(s),
                jumps_resolved(s),
                k <= s.len(),
                out@ == delabel_prefix(s, k as int),
                map_entries_ok(s, map@, pos),
                forall|p: int|
                    0 <= p < s.len() && #[trigger] s[p] is Label ==> exists|j: int|
                        0 <= j < map@.len() && map@[j].0@ == s[p]->Label_0@,
            decreases s.len() - k,
        {
            match &instrs[k] {
                DietInstr::Read => out.push(MachineInstr::Read),
                DietInstr::Write => out.push(MachineInstr::Write),
                DietInstr::Assign(v) => out.push(MachineInstr::Assign(*v)),
                DietInstr::Push(id) => out.push(MachineInstr::Push(*id)),
                DietInstr::Pop(id) => out.push(MachineInstr::Pop(*id)),
                DietInstr::Label(_) => {},
                DietInstr::Jez(label) | DietInstr::Jnz(label) => {
                    proof {
                        lemma_label_lookup(s, label@);
                    }
                    let j = find_label(&map, label).unwrap();
                    proof {
                        assert(entry_ok(s, map@[j as int], pos[j as int]));
                        lemma_label_position(s, label@, pos[j as int]);
                    }
                    if let DietInstr::Jez(_) = &instrs[k] {
                        out.push(MachineInstr::Jez(map[j].1));
                    } else {
                        out.push(MachineInstr::Jnz(map[j].1));
                    }
                },
            }
            assert(out@ =~= delabel_prefix(s, k + 1));
            k = k + 1;
        }
        Compiler(out)
    }
}

/// A defined label's name appears in any map that covers all labels.
proof fn lemma_label_lookup(s: Seq<DietInstr>, name: Seq<char>)
    requires
        label_defined(s, name),
    ensures
        exists|p: int| 0 <= p < s.len() && s[p] is Label && s[p]->Label_0@ == name,
{
    let p = choose|p: int| 0 <= p < s.len() && #[trigger] is_label_named(s[p], name);
    assert(s[p] is Label && s[p]->Label_0@ == name);
}

/// With unique labels, the label at position `p` is the one that
/// `label_index` picks.
proof fn lemma_label_position(s: Seq<DietInstr>, name: Seq<char>, p: int)
    requires
        labels_unique(s),
        0 <= p < s.len(),
        is_label_named(s[p], name),
    ensures
        label_index(s, name) == count_non_labels(s, p),
{
    let q = choose|k: int| 0 <= k < s.len() && #[trigger] is_label_named(s[k], name);
    assert(0 <= q < s.len() && is_label_named(s[q], name));
    if q < p {
        assert(s[q]->Label_0@ != s[p]->Label_0@);
    } else if p < q {
        assert(s[p]->Label_0@ != s[q]->Label_0@);
    }
}


/// Does every jump of the program target an index no greater than `bound`?
pub open spec fn targets_within(p: Seq<MachineInstr>, bound: nat) -> bool {
    forall|k: int|
        0 <= k < p.len() ==> match #[trigger] p[k] {
            MachineInstr::Jez(t) | MachineInstr::Jnz(t) => t <= bound,
            _ => true,
        }
}

/// A defined label stands for an index no greater than the number of
/// instructions that are not labels.
proof fn lemma_label_index_bound(s: Seq<DietInstr>, name: Seq<char>)
    requires
        label_defined(s, name),
    ensures
        label_index(s, name) <= count_non_labels(s, s.len() as int),
{
    let q = choose|k: int| 0 <= k < s.len() && #[trigger] is_label_named(s[k], name);
    lemma_count_mono(s, q, s.len() as int);
}

proof fn lemma_prefix_targets(s: Seq<DietInstr>, k: int)
    requires
        jumps_resolved(s),
        0 <= k <= s.len(),
        s.len() <= usize::MAX,
    ensures
        targets_within(delabel_prefix(s, k), count_non_labels(s, s.len() as int)),
    decreases k,
{
    if k > 0 {
        lemma_prefix_targets(s, k - 1);
        let before = delabel_prefix(s, k - 1);
        let added = delabel_instr(s, s[k - 1]);
        let bound = count_non_labels(s, s.len() as int);
        lemma_count_le(s, s.len() as int);
        match s[k - 1] {
            DietInstr::Jez(l) | DietInstr::Jnz(l) => {
                lemma_label_index_bound(s, l@);
            },
            _ => {},
        }
        assert forall|j: int| 0 <= j < before.len() + added.len() implies match #[trigger] (before
            + added)[j] {
            MachineInstr::Jez(t) | MachineInstr::Jnz(t) => t <= bound,
            _ => true,
        } by {
            if j < before.len() {
                assert((before + added)[j] == before[j]);
            } else {
                assert((before + added)[j] == added[j - before.len()]);
            }
        }
    }
}

/// Law: with every jump naming a defined label, every jump of the program
/// without labels targets an instruction of it, or the index just past its
/// end (a label at the end of the program).
pub proof fn lemma_delabel_targets_in_bounds(s: Seq<DietInstr>)
    requires
        jumps_resolved(s),
        s.len() <= usize::MAX,
    ensures
        targets_within(delabel_spec(s), delabel_spec(s).len()),
{
    lemma_prefix_targets(s, s.len() as int);
    lemma_delabel_len(s, s.len() as int);
}

/// The instruction at position `k`, if it is not a label, is the
/// `count_non_labels(s, k)`-th instruction of every longer prefix without
/// labels.
proof fn lemma_prefix_at(s: Seq<DietInstr>, n: int, k: int)
    requires
        0 <= k < n <= s.len(),
        !(s[k] is Label),
    ensures
        count_non_labels(s, k) < delabel_prefix(s, n).len(),
        delabel_prefix(s, n)[count_non_labels(s, k) as int] == delabel_instr(s, s[k])[0],
    decreases n,
{
    lemma_delabel_len(s, n - 1);
    let before = delabel_prefix(s, n - 1);
    let added = delabel_instr(s, s[n - 1]);
    if n == k + 1 {
        assert((before + added)[before.len() as int] == added[0]);
    } else {
        lemma_prefix_at(s, n - 1, k);
        assert((before + added)[count_non_labels(s, k) as int] == before[count_non_labels(s, k) as int]);
    }
}

/// Law: taking out the labels keeps every other instruction, in order, with
/// its kind and operand: the instruction at position `k` that is not a
/// label becomes the `count_non_labels(s, k)`-th instruction of the result.
/// `Read`, `Write`, `Assign(v)`, `Push(id)` and `Pop(id)` stay as they are,
/// with the same value or stack; a jump to a label jumps to the index of the
/// first instruction after that label.
pub proof fn lemma_delabel_keeps_instructions(s: Seq<DietInstr>, k: int)
    requires
        labels_unique(s),
        0 <= k < s.len(),
        !(s[k] is Label),
    ensures
        count_non_labels(s, k) < delabel_spec(s).len(),
        ({
            let m = delabel_spec(s)[count_non_labels(s, k) as int];
            match s[k] {
                DietInstr::Read => m == MachineInstr::Read,
                DietInstr::Write => m == MachineInstr::Write,
                DietInstr::Assign(v) => m == MachineInstr::Assign(v),
                DietInstr::Push(id) => m == MachineInstr::Push(id),
                DietInstr::Pop(id) => m == MachineInstr::Pop(id),
                DietInstr::Jez(l) => forall|p: int|
                    0 <= p < s.len() && #[trigger] is_label_named(s[p], l@) ==> m == MachineInstr::Jez(
                        count_non_labels(s, p) as usize,
                    ),
                DietInstr::Jnz(l) => forall|p: int|
                    0 <= p < s.len() && #[trigger] is_label_named(s[p], l@) ==> m == MachineInstr::Jnz(
                        count_non_labels(s, p) as usize,
                    ),
                DietInstr::Label(_) => true,
            }
        }),
{
    lemma_prefix_at(s, s.len() as int, k);
    match s[k] {
        DietInstr::Jez(l) | DietInstr::Jnz(l) => {
            assert forall|p: int| 0 <= p < s.len() && #[trigger] is_label_named(s[p], l@) implies label_index(
                s,
                l@,
            ) == count_non_labels(s, p) by {
                lemma_label_position(s, l@, p);
            }
        },
        _ => {},
    }
}

} // verus!
