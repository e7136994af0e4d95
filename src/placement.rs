//! Placing the fields of one aggregate in memory, given the layout of each
//! field and the physical order in which the fields are stored.
use vstd::prelude::*;

verus! {

/// Size, alignment and niche count of one type, as known bytes and counts.
#[derive(Clone, Copy, Debug, PartialEq, Eq, Structural)]
pub struct LeafLayout {
    pub size: u64,
    pub align: u64,
    pub niches: u64,
}

/// One field as stored: its declaration index, its byte offset and its layout.
#[derive(Clone, Copy, Debug, PartialEq, Eq, Structural)]
pub struct PlacedField {
    pub index: usize,
    pub offset: u64,
    pub layout: LeafLayout,
}

/// The layout of a whole aggregate and its fields in physical order.
#[derive(Clone, Debug)]
pub struct AggregateLayout {
    pub whole: LeafLayout,
    pub fields: Vec<PlacedField>,
}

/// A leaf layout that can be used: its alignment is at least one byte.
pub open spec fn usable(l: Option<LeafLayout>) -> bool {
    l is Some && l->0.align > 0
}

pub open spec fn all_usable(leaves: Seq<Option<LeafLayout>>) -> bool {
    forall|i: int| 0 <= i < leaves.len() ==> usable(#[trigger] leaves[i])
}

/// `order` names every field index below `n` exactly once.
pub open spec fn valid_order(order: Seq<usize>, n: nat) -> bool {
    &&& order.len() == n
    &&& forall|k: int| 0 <= k < order.len() ==> (#[trigger] order[k]) < n
    &&& forall|j: int, k: int| 0 <= j < k < order.len() ==> order[j] != order[k]
}

/// The smallest multiple of `a` that is at least `c`.
pub open spec fn round_up(c: int, a: int) -> int {
    if c % a == 0 {
        c
    } else {
        c - c % a + a
    }
}

pub open spec fn size_of(leaves: Seq<Option<LeafLayout>>, i: int) -> int {
    leaves[i]->0.size as int
}

pub open spec fn align_of(leaves: Seq<Option<LeafLayout>>, i: int) -> int {
    leaves[i]->0.align as int
}

/// Offset at which the field stored in physical position `k` starts.
pub open spec fn offset_at(leaves: Seq<Option<LeafLayout>>, order: Seq<usize>, k: int) -> int
    decreases k, 1int,
{
    round_up(end_after(leaves, order, k), align_of(leaves, order[k] as int))
}

/// First byte past the fields stored in the first `k` physical positions.
pub open spec fn end_after(leaves: Seq<Option<LeafLayout>>, order: Seq<usize>, k: int) -> int
    decreases k, 0int,
{
    if k <= 0 {
        0
    } else {
        offset_at(leaves, order, k - 1) + size_of(leaves, order[k - 1] as int)
    }
}

/// Largest alignment among the first `k` fields, and at least one.
pub open spec fn max_align(leaves: Seq<Option<LeafLayout>>, k: int) -> int
    decreases k,
{
    if k <= 0 {
        1
    } else {
        let m = max_align(leaves, k - 1);
        if align_of(leaves, k - 1) > m {
            align_of(leaves, k - 1)
        } else {
            m
        }
    }
}

/// Largest size among the first `k` fields.
pub open spec fn max_size(leaves: Seq<Option<LeafLayout>>, k: int) -> int
    decreases k,
{
    if k <= 0 {
        0
    } else {
        let m = max_size(leaves, k - 1);
        if size_of(leaves, k - 1) > m {
            size_of(leaves, k - 1)
        } else {
            m
        }
    }
}

/// Largest niche count among the first `k` fields: an aggregate offers the
/// niches of its roomiest field.
pub open spec fn max_niches(leaves: Seq<Option<LeafLayout>>, k: int) -> int
    decreases k,
{
    if k <= 0 {
        0
    } else {
        let m = max_niches(leaves, k - 1);
        if leaves[k - 1]->0.niches > m {
            leaves[k - 1]->0.niches as int
        } else {
            m
        }
    }
}

/// Size of a struct whose fields are stored in `order`.
pub open spec fn struct_size(leaves: Seq<Option<LeafLayout>>, order: Seq<usize>) -> int {
    round_up(end_after(leaves, order, order.len() as int), max_align(leaves, leaves.len() as int))
}

/// Size of a union: its largest field, padded to its alignment.
pub open spec fn union_size(leaves: Seq<Option<LeafLayout>>) -> int {
    round_up(max_size(leaves, leaves.len() as int), max_align(leaves, leaves.len() as int))
}

pub open spec fn fits(x: int) -> bool {
    0 <= x <= u64::MAX
}

/// What a struct layout holds when it is known.
pub open spec fn is_struct_layout(
    a: AggregateLayout,
    leaves: Seq<Option<LeafLayout>>,
    order: Seq<usize>,
) -> bool {
    &&& a.whole.size == struct_size(leaves, order)
    &&& a.whole.align == max_align(leaves, leaves.len() as int)
    &&& a.whole.niches == max_niches(leaves, leaves.len() as int)
    &&& a.fields@.len() == order.len()
    &&& forall|k: int|
        0 <= k < order.len() ==> {
            &&& (#[trigger] a.fields@[k]).index == order[k]
            &&& a.fields@[k].offset == offset_at(leaves, order, k)
            &&& a.fields@[k].layout == leaves[order[k] as int]->0
        }
}

/// What a union layout holds when it is known.
pub open spec fn is_union_layout(a: AggregateLayout, leaves: Seq<Option<LeafLayout>>) -> bool {
    &&& a.whole.size == union_size(leaves)
    &&& a.whole.align == max_align(leaves, leaves.len() as int)
    &&& a.whole.niches == 0
    &&& a.fields@.len() == leaves.len()
    &&& forall|k: int|
        0 <= k < leaves.len() ==> (#[trigger] a.fields@[k]) == (PlacedField {
            index: k as usize,
            offset: 0,
            layout: leaves[k]->0,
        })
}

/// The alignments and niches stay within `u64` and at least one.
proof fn lemma_max_align_bounds(leaves: Seq<Option<LeafLayout>>, k: int)
    requires
        0 <= k <= leaves.len(),
        all_usable(leaves),
    ensures
        1 <= max_align(leaves, k) <= u64::MAX,
        forall|i: int| 0 <= i < k ==> align_of(leaves, i) <= max_align(leaves, k),
    decreases k,
{
    if k > 0 {
        lemma_max_align_bounds(leaves, k - 1);
    }
}

proof fn lemma_round_up(c: int, a: int)
    requires
        0 <= c,
        0 < a,
    ensures
        c <= round_up(c, a) < c + a,
        round_up(c, a) % a == 0,
{
    assert(c % a < a && 0 <= c % a) by (nonlinear_arith)
        requires
            0 < a,
    ;
    if c % a != 0 {
        assert((c - c % a + a) % a == 0) by (nonlinear_arith)
            requires
                0 < a,
        ;
    }
}

/// Positions are stored in order: every field ends by the end of the last one.
proof fn lemma_end_grows(leaves: Seq<Option<LeafLayout>>, order: Seq<usize>, j: int, k: int)
    requires
        all_usable(leaves),
        valid_order(order, leaves.len()),
        0 <= j <= k <= order.len(),
    ensures
        0 <= end_after(leaves, order, j) <= end_after(leaves, order, k),
    decreases k,
{
    if k > 0 {
        lemma_end_grows(leaves, order, 0, k - 1);
        assert(usable(leaves[order[k - 1] as int]));
        lemma_round_up(end_after(leaves, order, k - 1), align_of(leaves, order[k - 1] as int));
        if j < k {
            lemma_end_grows(leaves, order, j, k - 1);
        }
    }
}

/// Every stored field lies inside the struct, at an offset that its alignment
/// divides.
pub proof fn lemma_struct_fields_inside(
    leaves: Seq<Option<LeafLayout>>,
    order: Seq<usize>,
    k: int,
)
    requires
        all_usable(leaves),
        valid_order(order, leaves.len()),
        0 <= k < order.len(),
    ensures
        offset_at(leaves, order, k) % align_of(leaves, order[k] as int) == 0,
        offset_at(leaves, order, k) + size_of(leaves, order[k] as int) <= struct_size(
            leaves,
            order,
        ),
{
    let n = order.len() as int;
    lemma_end_grows(leaves, order, k, n);
    lemma_end_grows(leaves, order, k + 1, n);
    assert(usable(leaves[order[k] as int]));
    lemma_round_up(end_after(leaves, order, k), align_of(leaves, order[k] as int));
    lemma_struct_size_aligned(leaves, order);
}

/// A struct's size is a multiple of its alignment and covers all its fields.
pub proof fn lemma_struct_size_aligned(leaves: Seq<Option<LeafLayout>>, order: Seq<usize>)
    requires
        all_usable(leaves),
        valid_order(order, leaves.len()),
    ensures
        struct_size(leaves, order) % max_align(leaves, leaves.len() as int) == 0,
        end_after(leaves, order, order.len() as int) <= struct_size(leaves, order),
{
    let n = order.len() as int;
    lemma_end_grows(leaves, order, 0, n);
    lemma_max_align_bounds(leaves, leaves.len() as int);
    lemma_round_up(end_after(leaves, order, n), max_align(leaves, leaves.len() as int));
}

/// Lays out a struct: each field, taken in `order`, starts at the next offset
/// that its alignment divides; the size is rounded up to the largest alignment.
/// `None` when a field's layout is unknown, `order` does not name each field
/// exactly once, or the size does not fit in 64 bits.
pub fn place_struct(leaves: &Vec<Option<LeafLayout>>, order: &Vec<usize>) -> (r: Option<
    AggregateLayout,
>)
    ensures
        r is Some <==> all_usable(leaves@) && valid_order(order@, leaves@.len()) && fits(
            struct_size(leaves@, order@),
        ),
        r is Some ==> is_struct_layout(r->0, leaves@, order@),
        r is Some ==> r->0.whole.size % r->0.whole.align == 0,
        r is Some ==> forall|k: int|
            0 <= k < order@.len() ==> (#[trigger] r->0.fields@[k]).offset + r->0.fields@[k].layout.size
                <= r->0.whole.size,
{
    let n = leaves.len();
    if !check_usable(leaves) || !check_order(order, n) {
        return None;
    }
    let ghost lv = leaves@;
    let ghost od = order@;
    proof {
        lemma_max_align_bounds(lv, n as int);
    }
    let mut align: u64 = 1;
    let mut niches: u64 = 0;
    let mut i: usize = 0;
    while i < n
        invariant
            n == leaves@.len(),
            all_usable(lv),
            lv == leaves@,
            0 <= i <= n,
            align == max_align(lv, i as int),
            niches == max_niches(lv, i as int),
            niches <= u64::MAX,
        decreases n - i,
    {
        let l = leaves[i].unwrap();
        if l.align > align {
            align = l.align;
        }
        if l.niches > niches {
            niches = l.niches;
        }
        i = i + 1;
    }
    let mut fields: Vec<PlacedField> = Vec::new();
    let mut end: u64 = 0;
    let mut k: usize = 0;
    while k < n
        invariant
            n == leaves@.len(),
            n == order@.len(),
            lv == leaves@,
            od == order@,
            all_usable(lv),
            valid_order(od, n as nat),
            0 <= k <= n,
            end == end_after(lv, od, k as int),
            fields@.len() == k,
            forall|j: int|
                0 <= j < k ==> {
                    &&& (#[trigger] fields@[j]).index == od[j]
                    &&& fields@[j].offset == offset_at(lv, od, j)
                    &&& fields@[j].layout == lv[od[j] as int]->0
                },
        decreases n - k,
    {
        let idx = order[k];
        let l = leaves[idx].unwrap();
        proof {
            assert(usable(lv[idx as int]));
            lemma_round_up(end as int, l.align as int);
            lemma_end_grows(lv, od, k as int + 1, n as int);
            lemma_end_grows(lv, od, 0, k as int + 1);
            lemma_round_up(end_after(lv, od, n as int), max_align(lv, n as int));
        }
        let start = match round_up_exec(end, l.align) {
            Some(s) => s,
            None => {
                return None;
            },
        };
        let stop = match start.checked_add(l.size) {
            Some(s) => s,
            None => {
                return None;
            },
        };
        fields.push(PlacedField { index: idx, offset: start, layout: l });
        end = stop;
        k = k + 1;
    }
    proof {
        lemma_round_up(end as int, align as int);
    }
    let size = match round_up_exec(end, align) {
        Some(s) => s,
        None => {
            return None;
        },
    };
    let r = AggregateLayout { whole: LeafLayout { size, align, niches }, fields };
    proof {
        assert forall|k: int| 0 <= k < od.len() implies (#[trigger] r.fields@[k]).offset
            + r.fields@[k].layout.size <= r.whole.size by {
            lemma_struct_fields_inside(lv, od, k);
        }
        lemma_struct_size_aligned(lv, od);
    }
    Some(r)
}

/// Lays out a union: every field at offset 0, the size being the largest
/// field's padded to the largest alignment; a union offers no niches.
pub fn place_union(leaves: &Vec<Option<LeafLayout>>) -> (r: Option<AggregateLayout>)
    ensures
        r is Some <==> all_usable(leaves@) && fits(union_size(leaves@)),
        r is Some ==> is_union_layout(r->0, leaves@),
        r is Some ==> r->0.whole.size % r->0.whole.align == 0,
{
    let n = leaves.len();
    if !check_usable(leaves) {
        return None;
    }
    let ghost lv = leaves@;
    proof {
        lemma_max_align_bounds(lv, n as int);
    }
    let mut align: u64 = 1;
    let mut size: u64 = 0;
    let mut fields: Vec<PlacedField> = Vec::new();
    let mut i: usize = 0;
    while i < n
        invariant
            n == leaves@.len(),
            all_usable(lv),
            lv == leaves@,
            0 <= i <= n,
            align == max_align(lv, i as int),
            size == max_size(lv, i as int),
            fields@.len() == i,
            forall|j: int|
                0 <= j < i ==> (#[trigger] fields@[j]) == (PlacedField {
                    index: j as usize,
                    offset: 0,
                    layout: lv[j]->0,
                }),
        decreases n - i,
    {
        let l = leaves[i].unwrap();
        if l.align > align {
            align = l.align;
        }
        if l.size > size {
            size = l.size;
        }
        fields.push(PlacedField { index: i, offset: 0, layout: l });
        i = i + 1;
    }
    proof {
        lemma_round_up(size as int, align as int);
    }
    let total = match round_up_exec(size, align) {
        Some(s) => s,
        None => {
            return None;
        },
    };
    Some(AggregateLayout { whole: LeafLayout { size: total, align, niches: 0 }, fields })
}

/// `round_up(c, a)` when it fits in 64 bits.
fn round_up_exec(c: u64, a: u64) -> (r: Option<u64>)
    requires
        a > 0,
    ensures
        r is Some <==> fits(round_up(c as int, a as int)),
        r is Some ==> r->0 == round_up(c as int, a as int),
{
    let rem = c % a;
    assert(rem <= c) by (nonlinear_arith)
        requires
            rem == c % a,
            a > 0,
    ;
    if rem == 0 {
        Some(c)
    } else {
        (c - rem).checked_add(a)
    }
}

fn check_usable(leaves: &Vec<Option<LeafLayout>>) -> (r: bool)
    ensures
        r == all_usable(leaves@),
{
    let mut i: usize = 0;
    while i < leaves.len()
        invariant
            0 <= i <= leaves@.len(),
            forall|j: int| 0 <= j < i ==> usable(#[trigger] leaves@[j]),
        decreases leaves@.len() - i,
    {
        match leaves[i] {
            Some(l) => {
                if l.align == 0 {
                    return false;
                }
            },
            None => {
                return false;
            },
        }
        i = i + 1;
    }
    true
}

/// Whether `order` names every index below `n` exactly once.
pub fn check_order(order: &Vec<usize>, n: usize) -> (r: bool)
    ensures
        r == valid_order(order@, n as nat),
{
    if order.len() != n {
        return false;
    }
    let mut seen: Vec<bool> = Vec::new();
    let mut i: usize = 0;
    while i < n
        invariant
            0 <= i <= n,
            seen@.len() == i,
            forall|j: int| 0 <= j < i ==> !(#[trigger] seen@[j]),
        decreases n - i,
    {
        seen.push(false);
        i = i + 1;
    }
    let mut k: usize = 0;
    while k < n
        invariant
            n == order@.len(),
            seen@.len() == n,
            0 <= k <= n,
            forall|j: int| 0 <= j < k ==> (#[trigger] order@[j]) < n,
            forall|j: int, l: int| 0 <= j < l < k ==> order@[j] != order@[l],
            forall|v: int|
                0 <= v < n ==> (#[trigger] seen@[v] <==> exists|j: int|
                    0 <= j < k && order@[j] == v),
        decreases n - k,
    {
        let v = order[k];
        if v >= n || seen[v] {
            return false;
        }
        let ghost prev = seen@;
        seen.set(v, true);
        proof {
            assert forall|j: int| 0 <= j < k implies order@[j] != v by {
                if order@[j] == v {
                    assert(prev[v as int]);
                }
            }
            assert forall|w: int| 0 <= w < n implies (#[trigger] seen@[w] <==> exists|j: int|
                0 <= j < k + 1 && order@[j] == w) by {
                if w == v {
                    assert(order@[k as int] == w);
                } else {
                    assert(seen@[w] == prev[w]);
                }
            }
        }
        k = k + 1;
    }
    true
}

} // verus!
