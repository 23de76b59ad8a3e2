//! The table that resolves jump targets to program positions.

use vstd::prelude::*;
use crate::ram::instruction::{program_view, Instruction, InstructionView};
use crate::ram::types::{Index, Label};

verus! {

/// The labels of a program, each with the position it names. Where a label
/// is defined more than once, the last definition counts.
pub open spec fn label_table(program: Seq<InstructionView>) -> Map<Seq<char>, nat>
    decreases program.len(),
{
    if program.len() == 0 {
        Map::empty()
    } else {
        let earlier = label_table(program.drop_last());
        match program.last().label {
            Some(name) => earlier.insert(name, (program.len() - 1) as nat),
            None => earlier,
        }
    }
}

/// A label is in the table exactly when some instruction carries it, and
/// then the table gives the last such instruction.
pub proof fn lemma_label_table_last_wins(program: Seq<InstructionView>, name: Seq<char>)
    ensures
        label_table(program).contains_key(name) <==> exists|i: int|
            0 <= i < program.len() && #[trigger] program[i].label == Some(name),
        label_table(program).contains_key(name) ==> {
            let at = label_table(program)[name] as int;
            &&& 0 <= at < program.len()
            &&& program[at].label == Some(name)
            &&& forall|j: int| at < j < program.len() ==> #[trigger] program[j].label != Some(name)
        },
    decreases program.len(),
{
    if program.len() > 0 {
        let earlier = program.drop_last();
        lemma_label_table_last_wins(earlier, name);
        let last = program.len() - 1;
        assert(forall|i: int| 0 <= i < last ==> earlier[i] == program[i]);
        if program.last().label == Some(name) {
            assert(program[last].label == Some(name));
        } else if label_table(program).contains_key(name) {
            assert(label_table(earlier).contains_key(name));
            let i = choose|i: int|
                0 <= i < earlier.len() && #[trigger] earlier[i].label == Some(name);
            assert(program[i].label == Some(name));
        } else {
            assert(!label_table(earlier).contains_key(name));
            assert forall|i: int| 0 <= i < program.len() implies #[trigger] program[i].label
                != Some(name) by {
                if i < last {
                    assert(earlier[i].label != Some(name));
                }
            }
        }
    }
}

/// A table from label names to program positions.
#[derive(Debug)]
pub struct LabelTable {
    entries: Vec<(Label, Index)>,
}

/// The map that a list of entries stands for: a later entry overrides an
/// earlier one of the same name.
pub open spec fn entries_map(entries: Seq<(Label, Index)>) -> Map<Seq<char>, nat>
    decreases entries.len(),
{
    if entries.len() == 0 {
        Map::empty()
    } else {
        entries_map(entries.drop_last()).insert(entries.last().0@, entries.last().1 as nat)
    }
}

/// The last entry of a name decides what the name stands for; a name
/// without an entry stands for nothing.
proof fn lemma_entries_map_lookup(entries: Seq<(Label, Index)>, name: Seq<char>, from: int)
    requires
        0 <= from <= entries.len(),
        forall|j: int| from <= j < entries.len() ==> (#[trigger] entries[j]).0@ != name,
    ensures
        from > 0 && entries[from - 1].0@ == name ==> entries_map(entries).contains_key(name)
            && entries_map(entries)[name] == entries[from - 1].1,
        from == 0 ==> !entries_map(entries).contains_key(name),
    decreases entries.len(),
{
    if entries.len() > 0 {
        let earlier = entries.drop_last();
        if from < entries.len() {
            assert(entries[entries.len() - 1].0@ != name);
            assert forall|j: int| from <= j < earlier.len() implies (#[trigger] earlier[j]).0@
                != name by {
                assert(earlier[j] == entries[j]);
            }
            lemma_entries_map_lookup(earlier, name, from);
            if from > 0 {
                assert(earlier[from - 1] == entries[from - 1]);
            }
        }
    }
}

impl View for LabelTable {
    type V = Map<Seq<char>, nat>;

    closed spec fn view(&self) -> Map<Seq<char>, nat> {
        entries_map(self.entries@)
    }
}

impl LabelTable {
    /// A table without labels.
    pub fn new() -> (table: LabelTable)
        ensures
            table@ == Map::<Seq<char>, nat>::empty(),
    {
        LabelTable { entries: Vec::new() }
    }

    /// Records that `name` stands for `index`, replacing what it stood for.
    pub fn insert(&mut self, name: Label, index: Index)
        ensures
            final(self)@ == old(self)@.insert(name@, index as nat),
    {
        self.entries.push((name, index));
        assert(self.entries@.drop_last() == old(self).entries@);
    }

    /// The position that `name` stands for, if the table has it.
    pub fn get(&self, name: &Label) -> (r: Option<Index>)
        ensures
            match r {
                Some(index) => self@.contains_key(name@) && self@[name@] == index,
                None => !self@.contains_key(name@),
            },
    {
        let mut i: usize = self.entries.len();
        while i > 0
            invariant
                i <= self.entries.len(),
                forall|j: int|
                    i <= j < self.entries.len() ==> (#[trigger] self.entries@[j]).0@ != name@,
            decreases i,
        {
            if self.entries[i - 1].0 == *name {
                proof {
                    lemma_entries_map_lookup(self.entries@, name@, i as int);
                }
                return Some(self.entries[i - 1].1);
            }
            i -= 1;
        }
        proof {
            lemma_entries_map_lookup(self.entries@, name@, 0);
        }
        None
    }

    /// Collects the labels of a program in one pass from first to last.
    pub fn of_program(program: &Vec<Instruction>) -> (table: LabelTable)
        ensures
            table@ == label_table(program_view(program@)),
    {
        let mut table = LabelTable::new();
        let mut i: usize = 0;
        while i < program.len()
            invariant
                i <= program.len(),
                table@ == label_table(program_view(program@).take(i as int)),
            decreases program.len() - i,
        {
            let ghost before = program_view(program@).take(i as int);
            let ghost after = program_view(program@).take(i + 1);
            assert(after.drop_last() == before);
            assert(after.last() == program@[i as int]@);
            match &program[i].label {
                Some(name) => {
                    table.insert(name.clone(), i);
                },
                None => {},
            }
            i += 1;
        }
        assert(program_view(program@).take(i as int) == program_view(program@));
        table
    }
}

} // verus!
