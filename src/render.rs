//! The render planner: per-field and per-aggregate annotation text under a
//! rendering configuration.
use vstd::prelude::*;
use crate::placement::{is_union_layout, AggregateLayout, LeafLayout};
use crate::text::push_str;

verus! {

/// How one measurement is shown; a measurement that is not shown is `None`
/// in the configuration.
#[derive(Clone, Copy, Debug, PartialEq, Eq, Structural)]
pub enum MemoryLayoutHoverRenderKind {
    /// The value itself: `offset = 4`.
    Exact,
    /// The distance from the previous displayed field: `offset = +4`.
    Relative,
    /// Both: `offset = 4 (+4)`.
    Both,
}

#[derive(Clone, Copy, Debug, PartialEq, Eq, Structural)]
pub struct MemoryLayoutHoverConfig {
    pub size: Option<MemoryLayoutHoverRenderKind>,
    pub offset: Option<MemoryLayoutHoverRenderKind>,
    pub alignment: Option<MemoryLayoutHoverRenderKind>,
    pub niches: bool,
}

pub open spec fn digit(n: int) -> char {
    if n == 0 {
        '0'
    } else if n == 1 {
        '1'
    } else if n == 2 {
        '2'
    } else if n == 3 {
        '3'
    } else if n == 4 {
        '4'
    } else if n == 5 {
        '5'
    } else if n == 6 {
        '6'
    } else if n == 7 {
        '7'
    } else if n == 8 {
        '8'
    } else {
        '9'
    }
}

/// Decimal digits of `n`.
pub open spec fn dec(n: nat) -> Seq<char>
    decreases n,
{
    if n < 10 {
        seq![digit(n as int)]
    } else {
        dec(n / 10).push(digit((n % 10) as int))
    }
}

/// A distance with its sign: `+4`, `-4`, `+0`.
pub open spec fn signed(d: int) -> Seq<char> {
    if d >= 0 {
        seq!['+'] + dec(d as nat)
    } else {
        seq!['-'] + dec((-d) as nat)
    }
}

/// A measurement's value, or `?` where it is unknown.
pub open spec fn value_text(v: Option<u64>) -> Seq<char> {
    match v {
        Some(x) => dec(x as nat),
        None => seq!['?'],
    }
}

/// Relative offset of a field: `+0` for the first displayed field, else the
/// distance from the previous displayed field's offset.
pub open spec fn relative_text(cur: Option<u64>, prev: Option<Option<u64>>) -> Seq<char> {
    match prev {
        None => seq!['+', '0'],
        Some(Some(p)) => match cur {
            Some(c) => signed(c - p),
            None => seq!['?'],
        },
        Some(None) => seq!['?'],
    }
}

/// Offset text under `kind`; union fields all sit at 0 and show no distance.
pub open spec fn offset_text(
    kind: MemoryLayoutHoverRenderKind,
    cur: Option<u64>,
    prev: Option<Option<u64>>,
    union: bool,
) -> Seq<char> {
    if union {
        value_text(cur)
    } else {
        match kind {
            MemoryLayoutHoverRenderKind::Exact => value_text(cur),
            MemoryLayoutHoverRenderKind::Relative => relative_text(cur, prev),
            MemoryLayoutHoverRenderKind::Both => value_text(cur) + seq![' ', '('] + relative_text(
                cur,
                prev,
            ) + seq![')'],
        }
    }
}

/// Appends one part to an annotation, after a comma where it is not the first.
pub open spec fn add_part(acc: Seq<char>, part: Seq<char>) -> Seq<char> {
    if acc.len() == 0 {
        part
    } else {
        acc + seq![',', ' '] + part
    }
}

pub open spec fn size_label() -> Seq<char> {
    "size = "@
}

pub open spec fn align_label() -> Seq<char> {
    "align = "@
}

pub open spec fn offset_label() -> Seq<char> {
    "offset = "@
}

pub open spec fn niches_label() -> Seq<char> {
    "niches = "@
}

pub open spec fn opt_part(acc: Seq<char>, shown: bool, part: Seq<char>) -> Seq<char> {
    if shown {
        add_part(acc, part)
    } else {
        acc
    }
}

/// What is known of one displayed field: its offset within the aggregate,
/// and its own layout.
#[derive(Clone, Copy, Debug, PartialEq, Eq, Structural)]
pub struct FieldFacts {
    pub offset: Option<u64>,
    pub layout: Option<LeafLayout>,
}

pub open spec fn fact_size(f: FieldFacts) -> Option<u64> {
    match f.layout {
        Some(l) => Some(l.size),
        None => None,
    }
}

pub open spec fn fact_align(f: FieldFacts) -> Option<u64> {
    match f.layout {
        Some(l) => Some(l.align),
        None => None,
    }
}

/// Annotation of one field: size, alignment and offset as configured, in that
/// order; `prev` is the previous displayed field's offset, `None` for the
/// first field.
pub open spec fn field_annotation_text(
    cfg: MemoryLayoutHoverConfig,
    f: FieldFacts,
    prev: Option<Option<u64>>,
    union: bool,
) -> Seq<char> {
    let a0 = Seq::<char>::empty();
    let a1 = opt_part(a0, cfg.size is Some, size_label() + value_text(fact_size(f)));
    let a2 = opt_part(a1, cfg.alignment is Some, align_label() + value_text(fact_align(f)));
    opt_part(
        a2,
        cfg.offset is Some,
        offset_label() + offset_text(cfg.offset->0, f.offset, prev, union),
    )
}

/// Annotation of the aggregate as a whole: size, alignment and niches.
pub open spec fn whole_annotation_text(
    cfg: MemoryLayoutHoverConfig,
    size: Option<u64>,
    align: Option<u64>,
    niches: Option<u64>,
    union: bool,
) -> Seq<char> {
    let a0 = Seq::<char>::empty();
    let a1 = opt_part(a0, cfg.size is Some, size_label() + value_text(size));
    let a2 = opt_part(a1, cfg.alignment is Some, align_label() + value_text(align));
    opt_part(a2, cfg.niches && !union, niches_label() + value_text(niches))
}

/// An annotation, `None` where nothing is to be shown.
pub open spec fn nonempty(s: Seq<char>) -> Option<Seq<char>> {
    if s.len() == 0 {
        None
    } else {
        Some(s)
    }
}

pub open spec fn opt_view(v: Option<Vec<char>>) -> Option<Seq<char>> {
    match v {
        Some(x) => Some(x@),
        None => None,
    }
}

fn digit_char(n: u64) -> (c: char)
    requires
        n < 10,
    ensures
        c == digit(n as int),
{
    if n == 0 {
        '0'
    } else if n == 1 {
        '1'
    } else if n == 2 {
        '2'
    } else if n == 3 {
        '3'
    } else if n == 4 {
        '4'
    } else if n == 5 {
        '5'
    } else if n == 6 {
        '6'
    } else if n == 7 {
        '7'
    } else if n == 8 {
        '8'
    } else {
        '9'
    }
}

/// Appends the decimal digits of `n`.
pub fn push_dec(out: &mut Vec<char>, n: u64)
    ensures
        final(out)@ == old(out)@ + dec(n as nat),
    decreases n,
{
    if n >= 10 {
        push_dec(out, n / 10);
    }
    out.push(digit_char(n % 10));
    assert(final(out)@ =~= old(out)@ + dec(n as nat));
}

/// Appends every character of `s`.
pub fn push_all(out: &mut Vec<char>, s: &Vec<char>)
    ensures
        final(out)@ == old(out)@ + s@,
{
    let mut i: usize = 0;
    while i < s.len()
        invariant
            0 <= i <= s@.len(),
            out@ == old(out)@ + s@.subrange(0, i as int),
        decreases s@.len() - i,
    {
        out.push(s[i]);
        i = i + 1;
        proof {
            assert(out@ =~= old(out)@ + s@.subrange(0, i as int));
        }
    }
    proof {
        assert(s@.subrange(0, s@.len() as int) =~= s@);
    }
}

fn push_value(out: &mut Vec<char>, v: Option<u64>)
    ensures
        final(out)@ == old(out)@ + value_text(v),
{
    match v {
        Some(x) => push_dec(out, x),
        None => {
            out.push('?');
            proof {
                assert(final(out)@ =~= old(out)@ + value_text(v));
            }
        },
    }
}

fn push_relative(out: &mut Vec<char>, cur: Option<u64>, prev: Option<Option<u64>>)
    ensures
        final(out)@ == old(out)@ + relative_text(cur, prev),
{
    let ghost start = out@;
    match prev {
        None => {
            out.push('+');
            out.push('0');
        },
        Some(Some(p)) => match cur {
            Some(c) => {
                if c >= p {
                    out.push('+');
                    push_dec(out, c - p);
                } else {
                    out.push('-');
                    push_dec(out, p - c);
                }
            },
            None => {
                out.push('?');
            },
        },
        Some(None) => {
            out.push('?');
        },
    }
    proof {
        assert(out@ =~= start + relative_text(cur, prev));
    }
}

fn push_offset(
    out: &mut Vec<char>,
    kind: MemoryLayoutHoverRenderKind,
    cur: Option<u64>,
    prev: Option<Option<u64>>,
    union: bool,
)
    ensures
        final(out)@ == old(out)@ + offset_text(kind, cur, prev, union),
{
    let ghost start = out@;
    if union {
        push_value(out, cur);
    } else {
        match kind {
            MemoryLayoutHoverRenderKind::Exact => push_value(out, cur),
            MemoryLayoutHoverRenderKind::Relative => push_relative(out, cur, prev),
            MemoryLayoutHoverRenderKind::Both => {
                push_value(out, cur);
                out.push(' ');
                out.push('(');
                push_relative(out, cur, prev);
                out.push(')');
            },
        }
    }
    proof {
        assert(out@ =~= start + offset_text(kind, cur, prev, union));
    }
}

/// Starts a new part: a comma and a space unless the annotation is empty.
fn push_separator(out: &mut Vec<char>)
    ensures
        old(out)@.len() == 0 ==> final(out)@ == old(out)@,
        old(out)@.len() > 0 ==> final(out)@ == old(out)@ + seq![',', ' '],
{
    if out.len() > 0 {
        out.push(',');
        out.push(' ');
    }
}

/// The offset of the field displayed before field `i`; `None` for the first.
pub open spec fn prev_offset(entries: Seq<FieldFacts>, i: int) -> Option<Option<u64>> {
    if i == 0 {
        None
    } else {
        Some(entries[i - 1].offset)
    }
}

/// Annotation of one field, `None` where every measurement is omitted.
pub fn field_annotation(
    cfg: &MemoryLayoutHoverConfig,
    f: FieldFacts,
    prev: Option<Option<u64>>,
    union: bool,
) -> (r: Option<Vec<char>>)
    ensures
        opt_view(r) == nonempty(field_annotation_text(*cfg, f, prev, union)),
{
    let mut out: Vec<char> = Vec::new();
    let ghost a0 = out@;
    if cfg.size.is_some() {
        push_separator(&mut out);
        push_str(&mut out, "size = ");
        push_value(&mut out, match f.layout { Some(l) => Some(l.size), None => None });
    }
    let ghost a1 = out@;
    assert(a1 =~= opt_part(a0, cfg.size is Some, size_label() + value_text(fact_size(f))));
    if cfg.alignment.is_some() {
        push_separator(&mut out);
        push_str(&mut out, "align = ");
        push_value(&mut out, match f.layout { Some(l) => Some(l.align), None => None });
    }
    let ghost a2 = out@;
    assert(a2 =~= opt_part(a1, cfg.alignment is Some, align_label() + value_text(fact_align(f))));
    match cfg.offset {
        Some(kind) => {
            push_separator(&mut out);
            push_str(&mut out, "offset = ");
            push_offset(&mut out, kind, f.offset, prev, union);
        },
        None => {},
    }
    assert(out@ =~= field_annotation_text(*cfg, f, prev, union));
    if out.len() == 0 {
        None
    } else {
        Some(out)
    }
}

/// Annotation of an aggregate as a whole, `None` where nothing is shown.
pub fn whole_annotation(
    cfg: &MemoryLayoutHoverConfig,
    size: Option<u64>,
    align: Option<u64>,
    niches: Option<u64>,
    union: bool,
) -> (r: Option<Vec<char>>)
    ensures
        opt_view(r) == nonempty(whole_annotation_text(*cfg, size, align, niches, union)),
{
    let mut out: Vec<char> = Vec::new();
    let ghost a0 = out@;
    if cfg.size.is_some() {
        push_separator(&mut out);
        push_str(&mut out, "size = ");
        push_value(&mut out, size);
    }
    let ghost a1 = out@;
    assert(a1 =~= opt_part(a0, cfg.size is Some, size_label() + value_text(size)));
    if cfg.alignment.is_some() {
        push_separator(&mut out);
        push_str(&mut out, "align = ");
        push_value(&mut out, align);
    }
    let ghost a2 = out@;
    assert(a2 =~= opt_part(a1, cfg.alignment is Some, align_label() + value_text(align)));
    if cfg.niches && !union {
        push_separator(&mut out);
        push_str(&mut out, "niches = ");
        push_value(&mut out, niches);
    }
    assert(out@ =~= whole_annotation_text(*cfg, size, align, niches, union));
    if out.len() == 0 {
        None
    } else {
        Some(out)
    }
}

/// Annotations of the fields in declaration order; each relative offset is
/// measured from the field displayed just before it.
pub fn field_annotations(
    cfg: &MemoryLayoutHoverConfig,
    entries: &Vec<FieldFacts>,
    union: bool,
) -> (r: Vec<Option<Vec<char>>>)
    ensures
        r@.len() == entries@.len(),
        forall|i: int|
            0 <= i < entries@.len() ==> opt_view(#[trigger] r@[i]) == nonempty(
                field_annotation_text(*cfg, entries@[i], prev_offset(entries@, i), union),
            ),
{
    let mut r: Vec<Option<Vec<char>>> = Vec::new();
    let mut i: usize = 0;
    while i < entries.len()
        invariant
            0 <= i <= entries@.len(),
            r@.len() == i,
            forall|j: int|
                0 <= j < i ==> opt_view(#[trigger] r@[j]) == nonempty(
                    field_annotation_text(*cfg, entries@[j], prev_offset(entries@, j), union),
                ),
        decreases entries@.len() - i,
    {
        let prev = if i == 0 {
            None
        } else {
            Some(entries[i - 1].offset)
        };
        r.push(field_annotation(cfg, entries[i], prev, union));
        i = i + 1;
    }
    r
}

/// The distance shown for field `i` in relative mode, by offsets.
pub open spec fn delta(offsets: Seq<int>, i: int) -> int {
    if i == 0 {
        0
    } else {
        offsets[i] - offsets[i - 1]
    }
}

pub open spec fn sum_deltas(offsets: Seq<int>, k: int) -> int
    decreases k,
{
    if k <= 0 {
        0
    } else {
        sum_deltas(offsets, k - 1) + delta(offsets, k - 1)
    }
}

/// In relative mode the first displayed field reads `+0`, each later one the
/// signed distance from the one before, and the distances add up to the last
/// field's offset minus the first's.
pub proof fn lemma_relative_offsets_add_up(entries: Seq<FieldFacts>, offsets: Seq<int>)
    requires
        entries.len() > 0,
        offsets.len() == entries.len(),
        forall|i: int|
            0 <= i < entries.len() ==> (#[trigger] entries[i]).offset is Some
                && offsets[i] == entries[i].offset->0,
    ensures
        relative_text(entries[0].offset, prev_offset(entries, 0)) == seq!['+', '0'],
        forall|i: int|
            0 < i < entries.len() ==> #[trigger] relative_text(
                entries[i].offset,
                prev_offset(entries, i),
            ) == signed(delta(offsets, i)),
        sum_deltas(offsets, offsets.len() as int) == offsets[offsets.len() - 1] - offsets[0],
{
    assert forall|i: int| 0 < i < entries.len() implies #[trigger] relative_text(
        entries[i].offset,
        prev_offset(entries, i),
    ) == signed(delta(offsets, i)) by {
        assert(entries[i - 1].offset is Some);
    }
    lemma_sum_deltas(offsets, offsets.len() as int);
}

proof fn lemma_sum_deltas(offsets: Seq<int>, k: int)
    requires
        1 <= k <= offsets.len(),
    ensures
        sum_deltas(offsets, k) == offsets[k - 1] - offsets[0],
    decreases k,
{
    if k > 1 {
        lemma_sum_deltas(offsets, k - 1);
    } else {
        assert(sum_deltas(offsets, 0) == 0);
    }
}

/// A union never shows a relative offset: each field is stored at 0, and
/// whatever the offset mode, it reads `0`.
pub proof fn lemma_union_offsets_exact(
    a: AggregateLayout,
    leaves: Seq<Option<LeafLayout>>,
    kind: MemoryLayoutHoverRenderKind,
    prev: Option<Option<u64>>,
    k: int,
)
    requires
        is_union_layout(a, leaves),
        0 <= k < a.fields@.len(),
    ensures
        a.fields@[k].offset == 0,
        offset_text(kind, Some(a.fields@[k].offset), prev, true) == seq!['0'],
{
    assert(dec(0) == seq![digit(0)]);
}

} // verus!
