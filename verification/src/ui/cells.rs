//! The written cells of a store, in the order of their addresses.

use std::collections::HashMap;
use vstd::prelude::*;
use crate::ram::types::Number;

verus! {

broadcast use vstd::std_specs::hash::group_hash_axioms;

/// The addresses of `cells` grow from each cell to the next.
pub open spec fn ascending(cells: Seq<(Number, Number)>) -> bool {
    forall|i: int, j: int| 0 <= i < j < cells.len() ==> cells[i].0 < cells[j].0
}

/// Each of `cells` is a cell of `store` with its value.
pub open spec fn all_from(cells: Seq<(Number, Number)>, store: Map<Number, Number>) -> bool {
    forall|i: int|
        0 <= i < cells.len() ==> store.contains_key((#[trigger] cells[i]).0) && store[cells[i].0]
            == cells[i].1
}

/// One of `cells` is at `address`.
pub open spec fn has_address(cells: Seq<(Number, Number)>, address: Number) -> bool {
    exists|i: int| 0 <= i < cells.len() && (#[trigger] cells[i]).0 == address
}

/// `cells` are the cells of `store`, each once, in the order of their
/// addresses.
pub open spec fn cells_of(cells: Seq<(Number, Number)>, store: Map<Number, Number>) -> bool {
    &&& ascending(cells)
    &&& all_from(cells, store)
    &&& forall|address: Number| store.contains_key(address) ==> has_address(cells, address)
}

/// Two listings of the cells of one store agree up to `upto`.
proof fn lemma_cells_agree(
    first: Seq<(Number, Number)>,
    second: Seq<(Number, Number)>,
    store: Map<Number, Number>,
    upto: int,
)
    requires
        cells_of(first, store),
        cells_of(second, store),
        0 <= upto <= first.len(),
        upto <= second.len(),
    ensures
        forall|i: int| 0 <= i < upto ==> first[i] == second[i],
    decreases upto,
{
    if upto > 0 {
        lemma_cells_agree(first, second, store, upto - 1);
        let at = upto - 1;
        let here = first[at];
        let there = second[at];
        assert(store.contains_key(here.0) && store[here.0] == here.1);
        assert(store.contains_key(there.0) && store[there.0] == there.1);
        assert(has_address(second, here.0));
        assert(has_address(first, there.0));
        let j = choose|j: int| 0 <= j < second.len() && (#[trigger] second[j]).0 == here.0;
        let k = choose|k: int| 0 <= k < first.len() && (#[trigger] first[k]).0 == there.0;
        if j < at {
            assert(first[j] == second[j]);
        }
        if k < at {
            assert(first[k] == second[k]);
        }
        assert(there.0 <= second[j].0);
        assert(here.0 <= first[k].0);
    }
}

/// The cells of a store have one listing in the order of their addresses.
pub proof fn lemma_cells_are_unique(
    first: Seq<(Number, Number)>,
    second: Seq<(Number, Number)>,
    store: Map<Number, Number>,
)
    requires
        cells_of(first, store),
        cells_of(second, store),
    ensures
        first == second,
{
    if first.len() <= second.len() {
        lemma_cells_agree(first, second, store, first.len() as int);
        if first.len() < second.len() {
            let more = second[first.len() as int];
            assert(store.contains_key(more.0));
            assert(has_address(first, more.0));
            let k = choose|k: int| 0 <= k < first.len() && (#[trigger] first[k]).0 == more.0;
            assert(first[k] == second[k]);
        }
    } else {
        lemma_cells_agree(first, second, store, second.len() as int);
        let more = first[second.len() as int];
        assert(store.contains_key(more.0));
        assert(has_address(second, more.0));
        let k = choose|k: int| 0 <= k < second.len() && (#[trigger] second[k]).0 == more.0;
        assert(first[k] == second[k]);
    }
    assert(first =~= second);
}

/// Puts the cell at `address` in its place among `cells`, unless there is
/// one at that address.
pub fn insert_cell(cells: &mut Vec<(Number, Number)>, address: Number, value: Number)
    requires
        ascending(old(cells)@),
    ensures
        ascending(final(cells)@),
        has_address(final(cells)@, address),
        forall|other: Number| has_address(old(cells)@, other) ==> has_address(final(cells)@, other),
        forall|i: int|
            0 <= i < final(cells)@.len() ==> old(cells)@.contains(#[trigger] final(cells)@[i])
                || final(cells)@[i] == (address, value),
{
    let mut at: usize = 0;
    while at < cells.len() && cells[at].0 < address
        invariant
            at <= cells.len(),
            cells@ == old(cells)@,
            forall|i: int| 0 <= i < at ==> (#[trigger] cells@[i]).0 < address,
        decreases cells.len() - at,
    {
        at += 1;
    }
    if at < cells.len() && cells[at].0 == address {
        assert(forall|i: int| 0 <= i < cells@.len() ==> old(cells)@.contains(cells@[i]));
        return;
    }
    let ghost before = cells@;
    cells.insert(at, (address, value));
    proof {
        assert(cells@[at as int] == (address, value));
        assert forall|i: int, j: int| 0 <= i < j < cells@.len() implies cells@[i].0
            < cells@[j].0 by {
            let a = if i < at { i } else { i - 1 };
            let b = if j < at { j } else { j - 1 };
            if i != at && j != at {
                assert(cells@[i] == before[a]);
                assert(cells@[j] == before[b]);
            } else if i == at {
                assert(cells@[j] == before[b]);
                assert(before[at as int].0 <= before[b].0);
            } else {
                assert(cells@[i] == before[a]);
            }
        }
        assert forall|other: Number| has_address(before, other) implies has_address(
            cells@,
            other,
        ) by {
            let i = choose|i: int| 0 <= i < before.len() && (#[trigger] before[i]).0 == other;
            let k = if i < at { i } else { i + 1 };
            assert(cells@[k] == before[i]);
        }
        assert forall|i: int| 0 <= i < cells@.len() implies before.contains(#[trigger] cells@[i])
            || cells@[i] == (address, value) by {
            if i != at {
                let a = if i < at { i } else { i - 1 };
                assert(cells@[i] == before[a]);
            }
        }
    }
}

/// The cells of `memory`, each once, in the order of their addresses.
pub fn sorted_cells(memory: &HashMap<Number, Number>) -> (cells: Vec<(Number, Number)>)
    ensures
        cells_of(cells@, memory@),
{
    let mut cells: Vec<(Number, Number)> = Vec::new();
    for pair in it: memory.iter()
        invariant
            ascending(cells@),
            all_from(cells@, memory@),
            forall|k: int| 0 <= k < it.index() ==> has_address(cells@, *(#[trigger] it.seq()[k]).0),
    {
        let (address, value) = pair;
        insert_cell(&mut cells, *address, *value);
    }
    cells
}

} // verus!
