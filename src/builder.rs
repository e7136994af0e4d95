//! The layout tree builder: layouts of types and definitions under a
//! substitution of generic parameters, with cycle detection on the path of
//! definitions being laid out.
use vstd::prelude::*;
use crate::model::{declared_types, declared_types_of, TypeDefinition, TypeKind, TypeRef};
use crate::placement::{
    all_usable, fits, is_struct_layout, is_union_layout, lemma_struct_fields_inside,
    lemma_struct_size_aligned, max_align, max_niches, place_struct,
    place_union, struct_size, union_size, usable, valid_order, AggregateLayout, LeafLayout,
};

verus! {

/// What the layout authority knows: primitive layouts, the pointer layout
/// used for indirection, whole-enum layouts and the physical order of each
/// definition's fields (declaration order where it gives none).
#[derive(Clone, Debug)]
pub struct LayoutOracle {
    pub prims: Vec<Option<LeafLayout>>,
    pub pointer: LeafLayout,
    pub enums: Vec<Option<LeafLayout>>,
    pub orders: Vec<Option<Vec<usize>>>,
}

/// The definitions that types refer to, by index, the type argument lists
/// that nested definitions are given, by index, and the oracle.
#[derive(Clone, Debug)]
pub struct LayoutContext {
    pub defs: Vec<TypeDefinition>,
    pub args: Vec<Vec<TypeRef>>,
    pub oracle: LayoutOracle,
}

/// The substitution of a nested definition given argument list `a`: each
/// argument resolved under the enclosing substitution; no list, no
/// arguments.
pub open spec fn instantiate(ctx: LayoutContext, a: int, subst: Seq<Option<TypeRef>>) -> Seq<
    Option<TypeRef>,
> {
    if 0 <= a < ctx.args@.len() {
        Seq::new(ctx.args@[a]@.len(), |k: int| resolve(ctx.args@[a]@[k], subst))
    } else {
        Seq::empty()
    }
}

fn resolve_exec(ty: TypeRef, subst: &Vec<Option<TypeRef>>) -> (r: Option<TypeRef>)
    ensures
        r == resolve(ty, subst@),
{
    match ty {
        TypeRef::Param(k) => {
            if k < subst.len() {
                match subst[k] {
                    Some(TypeRef::Param(_)) => None,
                    other => other,
                }
            } else {
                None
            }
        },
        _ => Some(ty),
    }
}

fn instantiate_exec(ctx: &LayoutContext, a: usize, subst: &Vec<Option<TypeRef>>) -> (r: Vec<
    Option<TypeRef>,
>)
    ensures
        r@ == instantiate(*ctx, a as int, subst@),
{
    let mut r: Vec<Option<TypeRef>> = Vec::new();
    if a < ctx.args.len() {
        let list = &ctx.args[a];
        let mut k: usize = 0;
        while k < list.len()
            invariant
                a < ctx.args@.len(),
                *list == ctx.args@[a as int],
                0 <= k <= list@.len(),
                r@ == Seq::new(k as nat, |j: int| resolve(list@[j], subst@)),
            decreases list@.len() - k,
        {
            r.push(resolve_exec(list[k], subst));
            k = k + 1;
            proof {
                assert(r@ =~= Seq::new(k as nat, |j: int| resolve(list@[j], subst@)));
            }
        }
    } else {
        assert(r@ =~= instantiate(*ctx, a as int, subst@));
    }
    r
}

/// How many more definitions can be entered below `path`.
pub open spec fn fuel(ctx: LayoutContext, path: Seq<usize>) -> nat {
    if path.len() < ctx.defs@.len() {
        (ctx.defs@.len() - path.len()) as nat
    } else {
        0
    }
}

pub open spec fn table_entry(table: Seq<Option<LeafLayout>>, i: int) -> Option<LeafLayout> {
    if 0 <= i < table.len() && usable(table[i]) {
        table[i]
    } else {
        None
    }
}

/// A declared type with its generic parameter substituted; `None` when the
/// parameter is unresolved.
pub open spec fn resolve(ty: TypeRef, subst: Seq<Option<TypeRef>>) -> Option<TypeRef> {
    match ty {
        TypeRef::Param(k) => {
            if k < subst.len() && subst[k as int] is Some && !(subst[k as int]->0 is Param) {
                subst[k as int]
            } else {
                None
            }
        },
        _ => Some(ty),
    }
}

/// Every type in `tys` resolves under `subst`: none uses an unresolved
/// parameter.
pub open spec fn all_resolved(tys: Seq<TypeRef>, subst: Seq<Option<TypeRef>>) -> bool {
    forall|j: int| 0 <= j < tys.len() ==> (#[trigger] resolve(tys[j], subst)) is Some
}

fn check_resolved(tys: &Vec<TypeRef>, subst: &Vec<Option<TypeRef>>) -> (r: bool)
    ensures
        r == all_resolved(tys@, subst@),
{
    let mut j: usize = 0;
    while j < tys.len()
        invariant
            0 <= j <= tys@.len(),
            forall|i: int| 0 <= i < j ==> (#[trigger] resolve(tys@[i], subst@)) is Some,
        decreases tys@.len() - j,
    {
        let ok = match tys[j] {
            TypeRef::Param(k) => k < subst.len() && match subst[k] {
                Some(TypeRef::Param(_)) => false,
                Some(_) => true,
                None => false,
            },
            _ => true,
        };
        if !ok {
            assert(resolve(tys@[j as int], subst@) is None);
            return false;
        }
        j = j + 1;
    }
    true
}

/// The physical order of definition `d`'s `n` fields.
pub open spec fn order_of(ctx: LayoutContext, d: int, n: nat) -> Seq<usize> {
    if 0 <= d < ctx.oracle.orders@.len() && ctx.oracle.orders@[d] is Some {
        ctx.oracle.orders@[d]->0@
    } else {
        Seq::new(n, |i: int| i as usize)
    }
}

/// `d` may be entered below `path`: it exists and is not already being laid
/// out, which would be containment of itself without indirection.
pub open spec fn enterable(ctx: LayoutContext, d: int, path: Seq<usize>) -> bool {
    &&& 0 <= d < ctx.defs@.len()
    &&& path.len() < ctx.defs@.len()
    &&& !path.contains(d as usize)
}

/// Layout of a type, `None` where it is unknown.
pub open spec fn type_leaf(
    ctx: LayoutContext,
    ty: TypeRef,
    subst: Seq<Option<TypeRef>>,
    path: Seq<usize>,
) -> Option<LeafLayout>
    decreases fuel(ctx, path), 1nat, 0nat,
{
    match resolve(ty, subst) {
        Some(TypeRef::Prim(p)) => table_entry(ctx.oracle.prims@, p as int),
        Some(TypeRef::Indirect(_)) => Some(ctx.oracle.pointer),
        Some(TypeRef::Adt(d, a)) => def_leaf(ctx, d as int, instantiate(ctx, a as int, subst), path),
        _ => None,
    }
}

/// Layouts of the first `k` fields of definition `d`, entered with `path`.
pub open spec fn field_leaves(
    ctx: LayoutContext,
    d: int,
    subst: Seq<Option<TypeRef>>,
    path: Seq<usize>,
    k: int,
) -> Seq<Option<LeafLayout>>
    decreases fuel(ctx, path), 2nat, k,
{
    if k <= 0 || !(0 <= d < ctx.defs@.len()) || k > ctx.defs@[d].fields@.len() {
        Seq::empty()
    } else {
        field_leaves(ctx, d, subst, path, k - 1).push(
            type_leaf(ctx, ctx.defs@[d].fields@[k - 1].ty, subst, path),
        )
    }
}

/// Layouts of all fields of definition `d`, laid out below `path`.
pub open spec fn leaves_of(
    ctx: LayoutContext,
    d: int,
    subst: Seq<Option<TypeRef>>,
    path: Seq<usize>,
) -> Seq<Option<LeafLayout>> {
    field_leaves(ctx, d, subst, path.push(d as usize), ctx.defs@[d].fields@.len() as int)
}

pub open spec fn struct_leaf(leaves: Seq<Option<LeafLayout>>, order: Seq<usize>) -> Option<
    LeafLayout,
> {
    if all_usable(leaves) && valid_order(order, leaves.len()) && fits(struct_size(leaves, order)) {
        Some(
            LeafLayout {
                size: struct_size(leaves, order) as u64,
                align: max_align(leaves, leaves.len() as int) as u64,
                niches: max_niches(leaves, leaves.len() as int) as u64,
            },
        )
    } else {
        None
    }
}

pub open spec fn union_leaf(leaves: Seq<Option<LeafLayout>>) -> Option<LeafLayout> {
    if all_usable(leaves) && fits(union_size(leaves)) {
        Some(
            LeafLayout {
                size: union_size(leaves) as u64,
                align: max_align(leaves, leaves.len() as int) as u64,
                niches: 0,
            },
        )
    } else {
        None
    }
}

/// Layout of definition `d` as a whole, `None` where it is unknown.
pub open spec fn def_leaf(
    ctx: LayoutContext,
    d: int,
    subst: Seq<Option<TypeRef>>,
    path: Seq<usize>,
) -> Option<LeafLayout>
    decreases fuel(ctx, path), 0nat, 0nat,
{
    if !enterable(ctx, d, path) {
        None
    } else {
        let n = ctx.defs@[d].fields@.len();
        match ctx.defs@[d].kind {
            TypeKind::Enum => if all_resolved(declared_types(ctx.defs@[d]), subst) {
                table_entry(ctx.oracle.enums@, d)
            } else {
                None
            },
            TypeKind::Union => union_leaf(
                field_leaves(ctx, d, subst, path.push(d as usize), n as int),
            ),
            _ => struct_leaf(
                field_leaves(ctx, d, subst, path.push(d as usize), n as int),
                order_of(ctx, d, n),
            ),
        }
    }
}

/// What an aggregate layout of `d` holds for its kind.
pub open spec fn is_def_layout(
    ctx: LayoutContext,
    d: int,
    subst: Seq<Option<TypeRef>>,
    path: Seq<usize>,
    a: AggregateLayout,
) -> bool {
    &&& def_leaf(ctx, d, subst, path) == Some(a.whole)
    &&& match ctx.defs@[d].kind {
        TypeKind::Enum => a.fields@.len() == 0,
        TypeKind::Union => is_union_layout(a, leaves_of(ctx, d, subst, path)),
        _ => is_struct_layout(
            a,
            leaves_of(ctx, d, subst, path),
            order_of(ctx, d, ctx.defs@[d].fields@.len()),
        ),
    }
}

fn table_lookup(table: &Vec<Option<LeafLayout>>, i: usize) -> (r: Option<LeafLayout>)
    ensures
        r == table_entry(table@, i as int),
{
    if i < table.len() {
        match table[i] {
            Some(l) => {
                if l.align > 0 {
                    Some(l)
                } else {
                    None
                }
            },
            None => None,
        }
    } else {
        None
    }
}

fn on_path(path: &Vec<usize>, d: usize) -> (r: bool)
    ensures
        r == path@.contains(d),
{
    let mut i: usize = 0;
    while i < path.len()
        invariant
            0 <= i <= path@.len(),
            forall|j: int| 0 <= j < i ==> path@[j] != d,
        decreases path@.len() - i,
    {
        if path[i] == d {
            return true;
        }
        i = i + 1;
    }
    false
}

/// Layout of type `ty` under `subst`, below the definitions on `path`.
pub fn type_layout(
    ctx: &LayoutContext,
    ty: TypeRef,
    subst: &Vec<Option<TypeRef>>,
    path: &mut Vec<usize>,
) -> (r: Option<LeafLayout>)
    ensures
        r == type_leaf(*ctx, ty, subst@, old(path)@),
        final(path)@ == old(path)@,
    decreases fuel(*ctx, old(path)@), 2nat, 0nat,
{
    let t = match ty {
        TypeRef::Param(k) => {
            if k < subst.len() {
                match subst[k] {
                    Some(TypeRef::Param(_)) => None,
                    other => other,
                }
            } else {
                None
            }
        },
        _ => Some(ty),
    };
    match t {
        Some(TypeRef::Prim(p)) => table_lookup(&ctx.oracle.prims, p),
        Some(TypeRef::Indirect(_)) => Some(ctx.oracle.pointer),
        Some(TypeRef::Adt(d, a)) => match aggregate_layout_below(
            ctx,
            d,
            &instantiate_exec(ctx, a, subst),
            path,
        ) {
            Some(a) => Some(a.whole),
            None => None,
        },
        _ => None,
    }
}

/// Layout of definition `d` and its fields in physical order, below the
/// definitions on `path`.
pub fn aggregate_layout_below(
    ctx: &LayoutContext,
    d: usize,
    subst: &Vec<Option<TypeRef>>,
    path: &mut Vec<usize>,
) -> (r: Option<AggregateLayout>)
    ensures
        r is None ==> def_leaf(*ctx, d as int, subst@, old(path)@) is None,
        r is Some ==> is_def_layout(*ctx, d as int, subst@, old(path)@, r->0),
        final(path)@ == old(path)@,
    decreases fuel(*ctx, old(path)@), 1nat, 0nat,
{
    if d >= ctx.defs.len() || path.len() >= ctx.defs.len() || on_path(path, d) {
        return None;
    }
    let def = &ctx.defs[d];
    if def.kind == TypeKind::Enum {
        if !check_resolved(&declared_types_of(def), subst) {
            return None;
        }
        return match table_lookup(&ctx.oracle.enums, d) {
            Some(l) => Some(AggregateLayout { whole: l, fields: Vec::new() }),
            None => None,
        };
    }
    let n = def.fields.len();
    let leaves = field_layouts_below(ctx, d, subst, path);
    if ctx.defs[d].kind == TypeKind::Union {
        place_union(&leaves)
    } else {
        let order = match &ctx.oracle.orders.get(d) {
            Some(Some(o)) => o.clone(),
            _ => identity_order(n),
        };
        proof {
            assert(order@ =~= order_of(*ctx, d as int, n as nat));
        }
        place_struct(&leaves, &order)
    }
}

/// Layouts of the fields of definition `d`, each laid out with `d` entered
/// below `path`.
fn field_layouts_below(
    ctx: &LayoutContext,
    d: usize,
    subst: &Vec<Option<TypeRef>>,
    path: &mut Vec<usize>,
) -> (r: Vec<Option<LeafLayout>>)
    requires
        d < ctx.defs@.len(),
        old(path)@.len() < ctx.defs@.len(),
    ensures
        r@ == leaves_of(*ctx, d as int, subst@, old(path)@),
        r@.len() == ctx.defs@[d as int].fields@.len(),
        final(path)@ == old(path)@,
    decreases fuel(*ctx, old(path)@), 0nat, 0nat,
{
    let ghost outer = path@;
    let n = ctx.defs[d].fields.len();
    path.push(d);
    let ghost inner = path@;
    let mut leaves: Vec<Option<LeafLayout>> = Vec::new();
    let mut i: usize = 0;
    while i < n
        invariant
            n == ctx.defs@[d as int].fields@.len(),
            d < ctx.defs@.len(),
            outer.len() < ctx.defs@.len(),
            inner == outer.push(d),
            outer == old(path)@,
            fuel(*ctx, inner) < fuel(*ctx, outer),
            path@ == inner,
            0 <= i <= n,
            leaves@ == field_leaves(*ctx, d as int, subst@, inner, i as int),
        decreases n - i,
    {
        let l = type_layout(ctx, ctx.defs[d].fields[i].ty, subst, path);
        leaves.push(l);
        i = i + 1;
    }
    path.pop();
    proof {
        assert(path@ =~= outer);
        lemma_field_leaves_len(*ctx, d as int, subst@, inner, n as int);
    }
    leaves
}

/// Layouts of the fields of definition `d` as hovered, known or not
/// whatever becomes of the whole.
pub fn field_layouts(ctx: &LayoutContext, d: usize, subst: &Vec<Option<TypeRef>>) -> (r: Vec<
    Option<LeafLayout>,
>)
    requires
        d < ctx.defs@.len(),
    ensures
        r@ == leaves_of(*ctx, d as int, subst@, Seq::empty()),
        r@.len() == ctx.defs@[d as int].fields@.len(),
{
    let mut path: Vec<usize> = Vec::new();
    field_layouts_below(ctx, d, subst, &mut path)
}

/// Layout of definition `d` as hovered: nothing is being laid out around it.
pub fn aggregate_layout(ctx: &LayoutContext, d: usize, subst: &Vec<Option<TypeRef>>) -> (r: Option<
    AggregateLayout,
>)
    ensures
        r is None ==> def_leaf(*ctx, d as int, subst@, Seq::empty()) is None,
        r is Some ==> is_def_layout(*ctx, d as int, subst@, Seq::empty(), r->0),
{
    let mut path: Vec<usize> = Vec::new();
    aggregate_layout_below(ctx, d, subst, &mut path)
}

fn identity_order(n: usize) -> (r: Vec<usize>)
    ensures
        r@ == Seq::new(n as nat, |i: int| i as usize),
{
    let mut r: Vec<usize> = Vec::new();
    let mut i: usize = 0;
    while i < n
        invariant
            0 <= i <= n,
            r@ == Seq::new(i as nat, |j: int| j as usize),
        decreases n - i,
    {
        r.push(i);
        i = i + 1;
        proof {
            assert(r@ =~= Seq::new(i as nat, |j: int| j as usize));
        }
    }
    r
}


/// A known struct layout is a multiple of its alignment, and every field,
/// stored at an offset that its own alignment divides, ends within it.
pub proof fn lemma_struct_layout_encloses_fields(
    ctx: LayoutContext,
    d: int,
    subst: Seq<Option<TypeRef>>,
    a: AggregateLayout,
)
    requires
        0 <= d < ctx.defs@.len(),
        ctx.defs@[d].kind == TypeKind::Struct || ctx.defs@[d].kind == TypeKind::TupleStruct,
        is_def_layout(ctx, d, subst, Seq::empty(), a),
    ensures
        a.whole.size % a.whole.align == 0,
        forall|k: int|
            0 <= k < a.fields@.len() ==> (#[trigger] a.fields@[k]).offset % a.fields@[k].layout.align
                == 0 && a.fields@[k].offset + a.fields@[k].layout.size <= a.whole.size,
{
    let leaves = leaves_of(ctx, d, subst, Seq::empty());
    let order = order_of(ctx, d, ctx.defs@[d].fields@.len());
    assert(leaves.len() == ctx.defs@[d].fields@.len()) by {
        lemma_field_leaves_len(ctx, d, subst, Seq::<usize>::empty().push(d as usize), ctx.defs@[d].fields@.len() as int);
    }
    assert(struct_leaf(leaves, order) is Some);
    lemma_struct_size_aligned(leaves, order);
    assert forall|k: int| 0 <= k < a.fields@.len() implies (#[trigger] a.fields@[k]).offset
        % a.fields@[k].layout.align == 0 && a.fields@[k].offset + a.fields@[k].layout.size
        <= a.whole.size by {
        lemma_struct_fields_inside(leaves, order, k);
    }
}

/// There is one layout for each of the first `k` fields.
pub proof fn lemma_field_leaves_len(
    ctx: LayoutContext,
    d: int,
    subst: Seq<Option<TypeRef>>,
    path: Seq<usize>,
    k: int,
)
    requires
        0 <= d < ctx.defs@.len(),
        0 <= k <= ctx.defs@[d].fields@.len(),
    ensures
        field_leaves(ctx, d, subst, path, k).len() == k,
    decreases k,
{
    if k > 0 {
        lemma_field_leaves_len(ctx, d, subst, path, k - 1);
    }
}

/// Each field's layout is the layout of its declared type.
pub proof fn lemma_field_leaves_index(
    ctx: LayoutContext,
    d: int,
    subst: Seq<Option<TypeRef>>,
    path: Seq<usize>,
    k: int,
    i: int,
)
    requires
        0 <= d < ctx.defs@.len(),
        0 <= i < k <= ctx.defs@[d].fields@.len(),
    ensures
        field_leaves(ctx, d, subst, path, k)[i] == type_leaf(
            ctx,
            ctx.defs@[d].fields@[i].ty,
            subst,
            path,
        ),
    decreases k,
{
    lemma_field_leaves_len(ctx, d, subst, path, k - 1);
    if i < k - 1 {
        lemma_field_leaves_index(ctx, d, subst, path, k - 1, i);
    }
}

} // verus!
