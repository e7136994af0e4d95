//! From physical order back to declaration order: each declared field finds
//! its stored place by identity, never by position.
use vstd::prelude::*;
use crate::placement::{is_struct_layout, offset_at, valid_order, AggregateLayout, LeafLayout, PlacedField};

verus! {

/// The first stored field whose identity is `i`.
pub open spec fn lookup(placed: Seq<PlacedField>, i: usize) -> Option<PlacedField>
    decreases placed.len(),
{
    if placed.len() == 0 {
        None
    } else if placed[0].index == i {
        Some(placed[0])
    } else {
        lookup(placed.drop_first(), i)
    }
}

/// The stored field with identity `i`.
pub fn find_placed(placed: &Vec<PlacedField>, i: usize) -> (r: Option<PlacedField>)
    ensures
        r == lookup(placed@, i),
{
    let mut k: usize = 0;
    proof {
        assert(placed@.subrange(0, placed@.len() as int) =~= placed@);
    }
    while k < placed.len()
        invariant
            0 <= k <= placed@.len(),
            lookup(placed@, i) == lookup(placed@.subrange(k as int, placed@.len() as int), i),
        decreases placed@.len() - k,
    {
        let ghost rest = placed@.subrange(k as int, placed@.len() as int);
        if placed[k].index == i {
            return Some(placed[k]);
        }
        proof {
            assert(rest.drop_first() =~= placed@.subrange(k as int + 1, placed@.len() as int));
        }
        k = k + 1;
    }
    None
}

/// The stored fields of an aggregate with `n` declared fields, in declaration
/// order: entry `i` is the stored field whose identity is `i`.
pub fn reconcile(placed: &Vec<PlacedField>, n: usize) -> (r: Vec<Option<PlacedField>>)
    ensures
        r@.len() == n,
        forall|i: int| 0 <= i < n ==> #[trigger] r@[i] == lookup(placed@, i as usize),
{
    let mut r: Vec<Option<PlacedField>> = Vec::new();
    let mut i: usize = 0;
    while i < n
        invariant
            0 <= i <= n,
            r@.len() == i,
            forall|j: int| 0 <= j < i ==> #[trigger] r@[j] == lookup(placed@, j as usize),
        decreases n - i,
    {
        r.push(find_placed(placed, i));
        i = i + 1;
    }
    r
}

/// Where exactly one stored field has identity `i`, lookup finds it.
pub proof fn lemma_lookup_unique(placed: Seq<PlacedField>, i: usize, p: int)
    requires
        0 <= p < placed.len(),
        placed[p].index == i,
        forall|q: int| 0 <= q < placed.len() && q != p ==> (#[trigger] placed[q]).index != i,
    ensures
        lookup(placed, i) == Some(placed[p]),
    decreases placed.len(),
{
    if p > 0 {
        let rest = placed.drop_first();
        assert forall|q: int| 0 <= q < rest.len() && q != p - 1 implies (#[trigger] rest[q]).index
            != i by {
            assert(rest[q] == placed[q + 1]);
        }
        lemma_lookup_unique(rest, i, p - 1);
    }
}

/// Display follows declaration: however the fields are stored, the field
/// declared at `i` is shown with the offset and layout of the field whose
/// identity is `i`, wherever in physical order it lies.
pub proof fn lemma_display_follows_declaration(
    leaves: Seq<Option<LeafLayout>>,
    order: Seq<usize>,
    a: AggregateLayout,
    p: int,
)
    requires
        valid_order(order, leaves.len()),
        is_struct_layout(a, leaves, order),
        0 <= p < order.len(),
    ensures
        lookup(a.fields@, order[p]) == Some(a.fields@[p]),
        a.fields@[p].index == order[p],
        a.fields@[p].offset == offset_at(leaves, order, p),
        a.fields@[p].layout == leaves[order[p] as int]->0,
{
    assert forall|q: int| 0 <= q < a.fields@.len() && q != p implies (#[trigger] a.fields@[q]).index
        != order[p] by {
        if q < p {
            assert(order[q] != order[p]);
        } else {
            assert(order[p] != order[q]);
        }
    }
    lemma_lookup_unique(a.fields@, order[p], p);
}

} // verus!
