//! Hover over a value of a composite type: its signature, its fields in
//! declaration order and their layout annotations.
use vstd::prelude::*;
use crate::builder::{
    aggregate_layout, def_leaf, field_layouts, lemma_field_leaves_index, resolve, struct_leaf, is_def_layout, leaves_of, lemma_field_leaves_len, order_of,
    LayoutContext,
};
use crate::model::{declared_types, declared_types_of, TypeDefinition, TypeKind, TypeRef};
use crate::placement::{all_usable, offset_at, usable, valid_order, AggregateLayout, LeafLayout, PlacedField};
use crate::reconcile::{lemma_lookup_unique, lookup, reconcile};
use crate::render::{push_all, value_text};
use crate::render::{
    fact_size, field_annotation_text, field_annotations, nonempty, FieldFacts, prev_offset, whole_annotation,
    whole_annotation_text, MemoryLayoutHoverConfig,
};
use crate::text::{
    fields_text, header_text, opt_views, push_fields, push_header, push_str,
    push_variants, variants_text,
};

verus! {

#[derive(Clone, Copy, Debug, PartialEq, Eq, Structural)]
pub enum HoverDocFormat {
    Markdown,
    PlainText,
}

/// What a hover shows and how.
#[derive(Clone, Copy, Debug, PartialEq, Eq, Structural)]
pub struct HoverConfig {
    pub links_in_hover: bool,
    pub memory_layout: Option<MemoryLayoutHoverConfig>,
    pub documentation: bool,
    pub format: HoverDocFormat,
    pub keywords: bool,
}

/// A range of the source text, in bytes.
#[derive(Clone, Copy, Debug, PartialEq, Eq, Structural)]
pub struct TextRange {
    pub start: u32,
    pub end: u32,
}

/// A typed value under the cursor: where it is, the definition of its type,
/// and the type of each field's value where the checker inferred one.
#[derive(Clone, Debug)]
pub struct HoverTarget {
    pub range: TextRange,
    pub def: usize,
    pub supplied: Vec<Option<TypeRef>>,
}

/// A follow-up the editor may offer.
#[derive(Clone, Copy, Debug, PartialEq, Eq, Structural)]
pub enum HoverAction {
    /// Jump to the definition of the hovered type.
    GoToType(usize),
}

#[derive(Clone, Debug)]
pub struct HoverResult {
    pub range: TextRange,
    pub markup: Vec<char>,
    pub actions: Vec<HoverAction>,
}

/// Up to field `n`, each field declared with parameter `k` as its type was
/// given a value of type `t`.
pub open spec fn supplied_upto(
    tys: Seq<TypeRef>,
    supplied: Seq<Option<TypeRef>>,
    k: usize,
    t: TypeRef,
    n: int,
) -> bool {
    forall|i: int|
        0 <= i < n && i < tys.len() && #[trigger] tys[i] == TypeRef::Param(k) ==> i
            < supplied.len() && supplied[i] == Some(t)
}

pub open spec fn uses_param(tys: Seq<TypeRef>, k: usize) -> bool {
    exists|i: int| 0 <= i < tys.len() && #[trigger] tys[i] == TypeRef::Param(k)
}

/// Parameter `k` is resolved when some field uses it and every such field
/// agrees on one concrete type; otherwise it stays unresolved.
pub open spec fn resolved_param(
    tys: Seq<TypeRef>,
    supplied: Seq<Option<TypeRef>>,
    k: usize,
) -> Option<TypeRef> {
    if uses_param(tys, k) && exists|t: TypeRef|
        !(t is Param) && #[trigger] supplied_upto(tys, supplied, k, t, tys.len() as int) {
        Some(
            choose|t: TypeRef|
                !(t is Param) && #[trigger] supplied_upto(tys, supplied, k, t, tys.len() as int),
        )
    } else {
        None
    }
}

pub open spec fn substitution(def: TypeDefinition, supplied: Seq<Option<TypeRef>>) -> Seq<
    Option<TypeRef>,
> {
    Seq::new(def.generics@.len(), |k: int| resolved_param(declared_types(def), supplied, k as usize))
}

fn resolve_param(tys: &Vec<TypeRef>, supplied: &Vec<Option<TypeRef>>, k: usize) -> (r:
    Option<TypeRef>)
    ensures
        r == resolved_param(tys@, supplied@, k),
{
    let mut found: Option<TypeRef> = None;
    let mut ok = true;
    let mut i: usize = 0;
    while i < tys.len()
        invariant
            0 <= i <= tys@.len(),
            ok ==> (found is None <==> !exists|j: int|
                0 <= j < i && #[trigger] tys@[j] == TypeRef::Param(k)),
            ok && found is Some ==> !(found->0 is Param) && supplied_upto(
                tys@,
                supplied@,
                k,
                found->0,
                i as int,
            ),
            !ok ==> forall|t: TypeRef|
                !(#[trigger] supplied_upto(tys@, supplied@, k, t, i as int)) || (t is Param),
            !ok ==> uses_param(tys@, k),
        decreases tys@.len() - i,
    {
        if ok && tys[i] == TypeRef::Param(k) {
            let given = if i < supplied.len() {
                supplied[i]
            } else {
                None
            };
            match given {
                Some(TypeRef::Param(_)) | None => {
                    ok = false;
                },
                Some(t) => {
                    match found {
                        None => {
                            found = Some(t);
                        },
                        Some(f) => {
                            if f != t {
                                ok = false;
                            }
                        },
                    }
                },
            }
        }
        proof {
            assert forall|t: TypeRef|
                #[trigger] supplied_upto(tys@, supplied@, k, t, i + 1) implies supplied_upto(
                tys@,
                supplied@,
                k,
                t,
                i as int,
            ) by {}
            if tys@[i as int] == TypeRef::Param(k) {
                assert(uses_param(tys@, k));
            }
        }
        i = i + 1;
    }
    if ok {
        match found {
            Some(t) => {
                proof {
                    assert(supplied_upto(tys@, supplied@, k, t, tys@.len() as int));
                    let c = choose|c: TypeRef|
                        !(c is Param) && #[trigger] supplied_upto(
                            tys@,
                            supplied@,
                            k,
                            c,
                            tys@.len() as int,
                        );
                    let j = choose|j: int|
                        0 <= j < tys@.len() && #[trigger] tys@[j] == TypeRef::Param(k);
                    assert(supplied@[j] == Some(c));
                    assert(supplied@[j] == Some(t));
                }
                Some(t)
            },
            None => None,
        }
    } else {
        None
    }
}

/// The substitution of a definition's generic parameters from the types of
/// the values given to its fields (for an enum, its variants' fields);
/// parameters that no field settles, or on which fields disagree, stay
/// unresolved.
pub fn resolve_substitution(def: &TypeDefinition, supplied: &Vec<Option<TypeRef>>) -> (r: Vec<
    Option<TypeRef>,
>)
    ensures
        r@ == substitution(*def, supplied@),
{
    let tys = declared_types_of(def);
    let mut r: Vec<Option<TypeRef>> = Vec::new();
    let mut k: usize = 0;
    while k < def.generics.len()
        invariant
            0 <= k <= def.generics@.len(),
            tys@ == declared_types(*def),
            r@ == Seq::new(k as nat, |j: int| resolved_param(tys@, supplied@, j as usize)),
        decreases def.generics@.len() - k,
    {
        r.push(resolve_param(&tys, supplied, k));
        k = k + 1;
        proof {
            assert(r@ =~= Seq::new(
                k as nat,
                |j: int| resolved_param(tys@, supplied@, j as usize),
            ));
        }
    }
    r
}

/// The stored fields of definition `d`, in physical order.
pub open spec fn placed_seq(ctx: LayoutContext, d: int, subst: Seq<Option<TypeRef>>) -> Seq<
    PlacedField,
> {
    let leaves = leaves_of(ctx, d, subst, Seq::empty());
    let n = ctx.defs@[d].fields@.len();
    match ctx.defs@[d].kind {
        TypeKind::Enum => Seq::empty(),
        TypeKind::Union => Seq::new(
            n,
            |k: int| PlacedField { index: k as usize, offset: 0, layout: leaves[k]->0 },
        ),
        _ => {
            let order = order_of(ctx, d, n);
            Seq::new(
                order.len(),
                |k: int|
                    PlacedField {
                        index: order[k],
                        offset: offset_at(leaves, order, k) as u64,
                        layout: leaves[order[k] as int]->0,
                    },
            )
        },
    }
}

/// The layout of definition `d` as hovered: whole and stored fields.
pub open spec fn layout_view(ctx: LayoutContext, d: int, subst: Seq<Option<TypeRef>>) -> Option<
    (LeafLayout, Seq<PlacedField>),
> {
    match def_leaf(ctx, d, subst, Seq::empty()) {
        Some(w) => Some((w, placed_seq(ctx, d, subst))),
        None => None,
    }
}

pub open spec fn aggregate_view(a: Option<AggregateLayout>) -> Option<(LeafLayout, Seq<PlacedField>)> {
    match a {
        Some(x) => Some((x.whole, x.fields@)),
        None => None,
    }
}

/// What is shown of one declared field: its stored place where the whole
/// layout is known, else only its own layout; a union field is at offset 0
/// in any case.
pub open spec fn fact_of(entry: Option<PlacedField>, leaf: Option<LeafLayout>, union: bool) -> FieldFacts {
    match entry {
        Some(p) => FieldFacts { offset: Some(p.offset), layout: Some(p.layout) },
        None => FieldFacts { offset: if union { Some(0) } else { None }, layout: leaf },
    }
}

/// Each declared field's facts, its stored place looked up by identity.
pub open spec fn declared_entries(
    lv: Option<(LeafLayout, Seq<PlacedField>)>,
    leaves: Seq<Option<LeafLayout>>,
    n: nat,
    union: bool,
) -> Seq<FieldFacts> {
    Seq::new(
        n,
        |i: int|
            fact_of(
                match lv {
                    Some((_, placed)) => lookup(placed, i as usize),
                    None => None,
                },
                leaves[i],
                union,
            ),
    )
}

pub open spec fn field_annotations_of(
    def: TypeDefinition,
    mem: Option<MemoryLayoutHoverConfig>,
    lv: Option<(LeafLayout, Seq<PlacedField>)>,
    leaves: Seq<Option<LeafLayout>>,
) -> Seq<Option<Seq<char>>> {
    let entries = declared_entries(lv, leaves, def.fields@.len(), def.kind == TypeKind::Union);
    Seq::new(
        def.fields@.len(),
        |i: int|
            match mem {
                Some(m) => nonempty(
                    field_annotation_text(m, entries[i], prev_offset(entries, i), def.kind
                        == TypeKind::Union),
                ),
                None => None,
            },
    )
}

pub open spec fn whole_annotation_of(
    def: TypeDefinition,
    mem: Option<MemoryLayoutHoverConfig>,
    lv: Option<(LeafLayout, Seq<PlacedField>)>,
) -> Option<Seq<char>> {
    match mem {
        Some(m) => match lv {
            Some((w, _)) => nonempty(
                whole_annotation_text(
                    m,
                    Some(w.size),
                    Some(w.align),
                    Some(w.niches),
                    def.kind == TypeKind::Union,
                ),
            ),
            None => nonempty(
                whole_annotation_text(m, None, None, None, def.kind == TypeKind::Union),
            ),
        },
        None => None,
    }
}

/// The hover text of `def` under `cfg`, given its layout and its fields'.
pub open spec fn markup_text(
    def: TypeDefinition,
    cfg: HoverConfig,
    lv: Option<(LeafLayout, Seq<PlacedField>)>,
    leaves: Seq<Option<LeafLayout>>,
) -> Seq<char> {
    let header = header_text(def, whole_annotation_of(def, cfg.memory_layout, lv));
    let body = if def.kind == TypeKind::Enum {
        variants_text(def.variants@, def.variants@.len() as int)
    } else {
        fields_text(
            def.fields@,
            field_annotations_of(def, cfg.memory_layout, lv, leaves),
            def.fields@.len() as int,
        )
    };
    framed(def, cfg, header, body)
}

/// Text before the header: a code fence in Markdown.
pub open spec fn fence_open(cfg: HoverConfig) -> Seq<char> {
    match cfg.format {
        HoverDocFormat::Markdown => "```rust\n"@,
        HoverDocFormat::PlainText => Seq::empty(),
    }
}

/// Text between the header and the body.
pub open spec fn separator(cfg: HoverConfig) -> Seq<char> {
    match cfg.format {
        HoverDocFormat::Markdown => "\n```\n\n```rust\n"@,
        HoverDocFormat::PlainText => "\n\n"@,
    }
}

/// Text after the body: a closing fence in Markdown.
pub open spec fn fence_close(cfg: HoverConfig) -> Seq<char> {
    match cfg.format {
        HoverDocFormat::Markdown => "```"@,
        HoverDocFormat::PlainText => Seq::empty(),
    }
}

/// Documentation appended after the code, where enabled and present.
pub open spec fn docs_text(def: TypeDefinition, cfg: HoverConfig) -> Seq<char> {
    if cfg.documentation && def.docs is Some {
        "\n\n"@ + def.docs->0@
    } else {
        Seq::empty()
    }
}

/// A header and a body framed for the output format, then the documentation.
pub open spec fn framed(
    def: TypeDefinition,
    cfg: HoverConfig,
    header: Seq<char>,
    body: Seq<char>,
) -> Seq<char> {
    fence_open(cfg) + header + separator(cfg) + body + fence_close(cfg) + docs_text(def, cfg)
}

/// Assembles the hover text of `def` from its layout (`None` where unknown)
/// and the layouts of its fields.
pub fn render_hover(
    def: &TypeDefinition,
    cfg: &HoverConfig,
    layout: &Option<AggregateLayout>,
    leaves: &Vec<Option<LeafLayout>>,
) -> (r: Vec<char>)
    requires
        leaves@.len() == def.fields@.len(),
    ensures
        r@ == markup_text(*def, *cfg, aggregate_view(*layout), leaves@),
{
    let ghost lv = aggregate_view(*layout);
    let union = def.kind == TypeKind::Union;
    let n = def.fields.len();
    let mut anns: Vec<Option<Vec<char>>> = Vec::new();
    let mut whole: Option<Vec<char>> = None;
    match &cfg.memory_layout {
        Some(m) => {
            let entries = declared_facts(layout, leaves, union);
            anns = field_annotations(m, &entries, union);
            whole = match layout {
                Some(a) => whole_annotation(
                    m,
                    Some(a.whole.size),
                    Some(a.whole.align),
                    Some(a.whole.niches),
                    union,
                ),
                None => whole_annotation(m, None, None, None, union),
            };
        },
        None => {
            let mut i: usize = 0;
            while i < n
                invariant
                    0 <= i <= n,
                    anns@.len() == i,
                    forall|j: int| 0 <= j < i ==> (#[trigger] anns@[j]) is None,
                decreases n - i,
            {
                anns.push(None);
                i = i + 1;
            }
        },
    }
    assert(opt_views(anns@) =~= field_annotations_of(*def, cfg.memory_layout, lv, leaves@));
    let mut out: Vec<char> = Vec::new();
    let markdown = cfg.format == HoverDocFormat::Markdown;
    if markdown {
        push_str(&mut out, "```rust\n");
    }
    push_header(&mut out, def, &whole);
    if markdown {
        push_str(&mut out, "\n```\n\n```rust\n");
    } else {
        push_str(&mut out, "\n\n");
    }
    if def.kind == TypeKind::Enum {
        push_variants(&mut out, &def.variants);
    } else {
        push_fields(&mut out, &def.fields, &anns);
    }
    if markdown {
        push_str(&mut out, "```");
    }
    let ghost core = out@;
    if cfg.documentation {
        match &def.docs {
            Some(d) => {
                push_str(&mut out, "\n\n");
                push_all(&mut out, d);
            },
            None => {},
        }
    }
    proof {
        assert(core =~= match cfg.format {
            HoverDocFormat::Markdown => "```rust\n"@ + header_text(
                *def,
                whole_annotation_of(*def, cfg.memory_layout, lv),
            ) + "\n```\n\n```rust\n"@ + (if def.kind == TypeKind::Enum {
                variants_text(def.variants@, def.variants@.len() as int)
            } else {
                fields_text(
                    def.fields@,
                    field_annotations_of(*def, cfg.memory_layout, lv, leaves@),
                    def.fields@.len() as int,
                )
            }) + "```"@,
            HoverDocFormat::PlainText => header_text(
                *def,
                whole_annotation_of(*def, cfg.memory_layout, lv),
            ) + "\n\n"@ + (if def.kind == TypeKind::Enum {
                variants_text(def.variants@, def.variants@.len() as int)
            } else {
                fields_text(
                    def.fields@,
                    field_annotations_of(*def, cfg.memory_layout, lv, leaves@),
                    def.fields@.len() as int,
                )
            }),
        });
        assert(out@ =~= markup_text(*def, *cfg, lv, leaves@));
    }
    out
}

fn unknown_entries(n: usize) -> (r: Vec<Option<PlacedField>>)
    ensures
        r@.len() == n,
        forall|i: int| 0 <= i < n ==> (#[trigger] r@[i]) is None,
{
    let mut r: Vec<Option<PlacedField>> = Vec::new();
    let mut i: usize = 0;
    while i < n
        invariant
            0 <= i <= n,
            r@.len() == i,
            forall|j: int| 0 <= j < i ==> (#[trigger] r@[j]) is None,
        decreases n - i,
    {
        r.push(None);
        i = i + 1;
    }
    r
}

/// The facts shown for each declared field, in declaration order.
fn declared_facts(
    layout: &Option<AggregateLayout>,
    leaves: &Vec<Option<LeafLayout>>,
    union: bool,
) -> (r: Vec<FieldFacts>)
    ensures
        r@ == declared_entries(aggregate_view(*layout), leaves@, leaves@.len(), union),
{
    let n = leaves.len();
    let entries = match layout {
        Some(a) => reconcile(&a.fields, n),
        None => unknown_entries(n),
    };
    let mut r: Vec<FieldFacts> = Vec::new();
    let mut i: usize = 0;
    while i < n
        invariant
            n == leaves@.len(),
            entries@.len() == n,
            0 <= i <= n,
            r@ == declared_entries(aggregate_view(*layout), leaves@, n as nat, union).subrange(0, i as int),
            forall|j: int|
                0 <= j < n ==> #[trigger] entries@[j] == match aggregate_view(*layout) {
                    Some((_, placed)) => lookup(placed, j as usize),
                    None => None,
                },
        decreases n - i,
    {
        let f = match entries[i] {
            Some(p) => FieldFacts { offset: Some(p.offset), layout: Some(p.layout) },
            None => FieldFacts { offset: if union { Some(0) } else { None }, layout: leaves[i] },
        };
        r.push(f);
        i = i + 1;
        proof {
            assert(r@ =~= declared_entries(aggregate_view(*layout), leaves@, n as nat, union).subrange(
                0,
                i as int,
            ));
        }
    }
    proof {
        assert(r@ =~= declared_entries(aggregate_view(*layout), leaves@, n as nat, union));
    }
    r
}

/// The layout computed for a hovered definition is the one its spec gives.
proof fn lemma_layout_view(
    ctx: LayoutContext,
    d: int,
    subst: Seq<Option<TypeRef>>,
    a: AggregateLayout,
)
    requires
        0 <= d < ctx.defs@.len(),
        is_def_layout(ctx, d, subst, Seq::empty(), a),
    ensures
        aggregate_view(Some(a)) == layout_view(ctx, d, subst),
{
    let n = ctx.defs@[d].fields@.len();
    lemma_field_leaves_len(ctx, d, subst, Seq::<usize>::empty().push(d as usize), n as int);
    assert(a.fields@ =~= placed_seq(ctx, d, subst));
}

/// Actions offered with a hover: a jump to the type where links are on.
pub open spec fn actions_of(cfg: HoverConfig, d: usize) -> Seq<HoverAction> {
    if cfg.links_in_hover {
        seq![HoverAction::GoToType(d)]
    } else {
        Seq::empty()
    }
}

/// The text of a hover on `t`: the definition's signature and fields with
/// their layout, which may be unknown in part or in whole.
pub open spec fn hover_markup(ctx: LayoutContext, cfg: HoverConfig, t: HoverTarget) -> Seq<char> {
    let def = ctx.defs@[t.def as int];
    let subst = substitution(def, t.supplied@);
    markup_text(
        def,
        cfg,
        layout_view(ctx, t.def as int, subst),
        leaves_of(ctx, t.def as int, subst, Seq::empty()),
    )
}

/// A typed value is under the cursor.
pub open spec fn has_type(ctx: LayoutContext, target: Option<HoverTarget>) -> bool {
    target is Some && target->0.def < ctx.defs@.len()
}

/// Hover on a value: `None` where nothing typed is under the cursor, else
/// the hover text, whatever of the layout is known.
pub fn hover(ctx: &LayoutContext, config: &HoverConfig, target: &Option<HoverTarget>) -> (r: Option<
    HoverResult,
>)
    ensures
        r is Some <==> has_type(*ctx, *target),
        r is Some ==> r->0.range == target->0.range,
        r is Some ==> r->0.markup@ == hover_markup(*ctx, *config, target->0),
        r is Some ==> r->0.actions@ == actions_of(*config, target->0.def),
{
    match target {
        None => None,
        Some(t) => {
            if t.def >= ctx.defs.len() {
                return None;
            }
            let def = &ctx.defs[t.def];
            let subst = resolve_substitution(def, &t.supplied);
            let layout = aggregate_layout(ctx, t.def, &subst);
            proof {
                if layout is Some {
                    lemma_layout_view(*ctx, t.def as int, subst@, layout->0);
                }
            }
            let leaves = field_layouts(ctx, t.def, &subst);
            let markup = render_hover(def, config, &layout, &leaves);
            let mut actions: Vec<HoverAction> = Vec::new();
            if config.links_in_hover {
                actions.push(HoverAction::GoToType(t.def));
            }
            proof {
                assert(actions@ =~= actions_of(*config, t.def));
            }
            Some(HoverResult { range: t.range, markup, actions })
        },
    }
}

/// Whether a hover on `target` yields nothing.
pub fn check_hover_range_no_results(
    ctx: &LayoutContext,
    config: &HoverConfig,
    target: &Option<HoverTarget>,
) -> (r: bool)
    ensures
        r == !has_type(*ctx, *target),
{
    hover(ctx, config, target).is_none()
}

/// Without memory layout in the configuration, no annotation is shown: the
/// hover holds the signature, the fields and the documentation alone.
pub proof fn lemma_no_layout_no_annotations(
    def: TypeDefinition,
    cfg: HoverConfig,
    lv: Option<(LeafLayout, Seq<PlacedField>)>,
    leaves: Seq<Option<LeafLayout>>,
)
    requires
        cfg.memory_layout is None,
    ensures
        whole_annotation_of(def, cfg.memory_layout, lv) is None,
        forall|i: int|
            0 <= i < def.fields@.len() ==> (#[trigger] field_annotations_of(
                def,
                cfg.memory_layout,
                lv,
                leaves,
            )[i]) is None,
{
}

/// Display follows declaration, by identity: in a hovered struct or tuple
/// struct with a known layout, the field declared at `order[p]` (stored in
/// physical position `p`) is shown with that stored field's offset and
/// layout, however the fields are stored.
pub proof fn lemma_hover_offsets_by_identity(
    ctx: LayoutContext,
    d: int,
    subst: Seq<Option<TypeRef>>,
    p: int,
)
    requires
        0 <= d < ctx.defs@.len(),
        ctx.defs@[d].kind == TypeKind::Struct || ctx.defs@[d].kind == TypeKind::TupleStruct,
        def_leaf(ctx, d, subst, Seq::empty()) is Some,
        0 <= p < ctx.defs@[d].fields@.len(),
    ensures
        ({
            let n = ctx.defs@[d].fields@.len();
            let order = order_of(ctx, d, n);
            let leaves = leaves_of(ctx, d, subst, Seq::empty());
            &&& 0 <= order[p] < n
            &&& declared_entries(layout_view(ctx, d, subst), leaves, n, false)[order[p] as int]
                == (FieldFacts {
                offset: Some(offset_at(leaves, order, p) as u64),
                layout: leaves[order[p] as int],
            })
        }),
{
    let n = ctx.defs@[d].fields@.len();
    let order = order_of(ctx, d, n);
    let leaves = leaves_of(ctx, d, subst, Seq::empty());
    lemma_field_leaves_len(ctx, d, subst, Seq::<usize>::empty().push(d as usize), n as int);
    assert(struct_leaf(leaves, order) is Some);
    assert(valid_order(order, leaves.len()));
    assert(all_usable(leaves));
    let placed = placed_seq(ctx, d, subst);
    assert forall|q: int| 0 <= q < placed.len() && q != p implies (#[trigger] placed[q]).index
        != order[p] by {
        if q < p {
            assert(order[q] != order[p]);
        } else {
            assert(order[p] != order[q]);
        }
    }
    lemma_lookup_unique(placed, order[p], p);
    assert(usable(leaves[order[p] as int]));
}

/// A union field is shown at offset 0, whether or not the union's layout is
/// known.
pub proof fn lemma_hover_union_offsets_zero(
    ctx: LayoutContext,
    d: int,
    subst: Seq<Option<TypeRef>>,
    i: int,
)
    requires
        0 <= d < ctx.defs@.len(),
        ctx.defs@[d].kind == TypeKind::Union,
        0 <= i < ctx.defs@[d].fields@.len(),
    ensures
        declared_entries(
            layout_view(ctx, d, subst),
            leaves_of(ctx, d, subst, Seq::empty()),
            ctx.defs@[d].fields@.len(),
            true,
        )[i].offset == Some(0u64),
{
    let n = ctx.defs@[d].fields@.len();
    if layout_view(ctx, d, subst) is Some {
        let placed = placed_seq(ctx, d, subst);
        assert(n == ctx.defs@[d].fields.len());
        assert forall|q: int| 0 <= q < placed.len() && q != i implies (#[trigger] placed[q]).index
            != i as usize by {
            assert(placed[q].index == q as usize);
        }
        lemma_lookup_unique(placed, i as usize, i);
    }
}

/// A field whose declared type uses an unresolved parameter shows `?` for
/// its size and, outside a union, for its offset; the hover is still given
/// (see `hover`).
pub proof fn lemma_unresolved_field_unknown(
    ctx: LayoutContext,
    d: int,
    subst: Seq<Option<TypeRef>>,
    i: int,
)
    requires
        0 <= d < ctx.defs@.len(),
        ctx.defs@[d].kind != TypeKind::Enum,
        0 <= i < ctx.defs@[d].fields@.len(),
        resolve(ctx.defs@[d].fields@[i].ty, subst) is None,
    ensures
        ({
            let def = ctx.defs@[d];
            let e = declared_entries(
                layout_view(ctx, d, subst),
                leaves_of(ctx, d, subst, Seq::empty()),
                def.fields@.len(),
                def.kind == TypeKind::Union,
            )[i];
            &&& e.layout is None
            &&& value_text(fact_size(e)) == seq!['?']
            &&& def.kind != TypeKind::Union ==> value_text(e.offset) == seq!['?']
        }),
{
    let n = ctx.defs@[d].fields@.len();
    let leaves = leaves_of(ctx, d, subst, Seq::empty());
    lemma_field_leaves_len(ctx, d, subst, Seq::<usize>::empty().push(d as usize), n as int);
    lemma_field_leaves_index(ctx, d, subst, Seq::<usize>::empty().push(d as usize), n as int, i);
    assert(leaves[i] is None);
    assert(!all_usable(leaves));
    assert(def_leaf(ctx, d, subst, Seq::empty()) is None);
}

/// An enum's hover shows the enum's own size, alignment and niches in its
/// header and lists its variants, with no per-field annotation.
pub proof fn lemma_enum_hover_whole_only(
    def: TypeDefinition,
    cfg: HoverConfig,
    lv: Option<(LeafLayout, Seq<PlacedField>)>,
    leaves: Seq<Option<LeafLayout>>,
)
    requires
        def.kind == TypeKind::Enum,
        cfg.memory_layout is Some,
    ensures
        markup_text(def, cfg, lv, leaves) == framed(
            def,
            cfg,
            header_text(
                def,
                nonempty(
                    whole_annotation_text(
                        cfg.memory_layout->0,
                        match lv {
                            Some((w, _)) => Some(w.size),
                            None => None,
                        },
                        match lv {
                            Some((w, _)) => Some(w.align),
                            None => None,
                        },
                        match lv {
                            Some((w, _)) => Some(w.niches),
                            None => None,
                        },
                        false,
                    ),
                ),
            ),
            variants_text(def.variants@, def.variants@.len() as int),
        ),
{
}

/// Without memory layout in the configuration the hover holds the type's
/// signature with no annotation, its fields with none, and its
/// documentation where enabled and present.
pub proof fn lemma_no_layout_signature_and_docs(
    def: TypeDefinition,
    cfg: HoverConfig,
    lv: Option<(LeafLayout, Seq<PlacedField>)>,
    leaves: Seq<Option<LeafLayout>>,
)
    requires
        cfg.memory_layout is None,
    ensures
        ({
            let m = markup_text(def, cfg, lv, leaves);
            let pre = fence_open(cfg).len();
            let h = header_text(def, None);
            &&& m.subrange(pre as int, (pre + h.len()) as int) == h
            &&& cfg.documentation && def.docs is Some ==> m.subrange(
                m.len() - def.docs->0@.len(),
                m.len() as int,
            ) == def.docs->0@
            &&& def.kind != TypeKind::Enum ==> m == framed(
                def,
                cfg,
                h,
                fields_text(
                    def.fields@,
                    Seq::new(def.fields@.len(), |i: int| None::<Seq<char>>),
                    def.fields@.len() as int,
                ),
            )
        }),
{
    let h = header_text(def, None);
    let body = if def.kind == TypeKind::Enum {
        variants_text(def.variants@, def.variants@.len() as int)
    } else {
        fields_text(
            def.fields@,
            field_annotations_of(def, cfg.memory_layout, lv, leaves),
            def.fields@.len() as int,
        )
    };
    let m = markup_text(def, cfg, lv, leaves);
    let pre = fence_open(cfg);
    let rest = separator(cfg) + body + fence_close(cfg) + docs_text(def, cfg);
    assert(m =~= pre + h + rest);
    assert(m.subrange(pre.len() as int, (pre.len() + h.len()) as int) =~= h);
    if cfg.documentation && def.docs is Some {
        let core = pre + h + separator(cfg) + body + fence_close(cfg) + "\n\n"@;
        assert(m =~= core + def.docs->0@);
        assert(m.subrange(m.len() - def.docs->0@.len(), m.len() as int) =~= def.docs->0@);
    }
    assert(field_annotations_of(def, cfg.memory_layout, lv, leaves) =~= Seq::new(
        def.fields@.len(),
        |i: int| None::<Seq<char>>,
    ));
}

} // verus!
