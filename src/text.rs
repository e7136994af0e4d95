//! Signature and field text of a definition, with annotations as trailing
//! comments.
use vstd::prelude::*;
use crate::model::{FieldDescriptor, TypeDefinition, TypeKind, VariantDescriptor, Visibility};
use crate::render::{dec, push_all, push_dec};
use vstd::std_specs::iter::IteratorSpec;

verus! {

pub open spec fn visibility_text(v: Visibility) -> Seq<char> {
    match v {
        Visibility::Public => "pub "@,
        Visibility::PublicSuper => "pub(super) "@,
        Visibility::PublicIn(p) => "pub(in "@ + p@ + ") "@,
        Visibility::PublicCrate => "pub(crate) "@,
        Visibility::Private => Seq::empty(),
    }
}

pub open spec fn kind_text(k: TypeKind) -> Seq<char> {
    match k {
        TypeKind::Enum => "enum "@,
        TypeKind::Union => "union "@,
        _ => "struct "@,
    }
}

/// The first `k` generic parameters, separated by commas.
pub open spec fn params_text(g: Seq<Vec<char>>, k: int) -> Seq<char>
    decreases k,
{
    if k <= 0 {
        Seq::empty()
    } else if k == 1 {
        g[0]@
    } else {
        params_text(g, k - 1) + ", "@ + g[k - 1]@
    }
}

pub open spec fn generics_text(g: Seq<Vec<char>>) -> Seq<char> {
    if g.len() == 0 {
        Seq::empty()
    } else {
        "<"@ + params_text(g, g.len() as int) + ">"@
    }
}

/// A trailing comment holding an annotation, or nothing.
pub open spec fn comment_text(ann: Option<Seq<char>>) -> Seq<char> {
    match ann {
        Some(a) => " // "@ + a,
        None => Seq::empty(),
    }
}

/// The first `k` module path segments, each followed by `::`.
pub open spec fn path_text(p: Seq<Vec<char>>, k: int) -> Seq<char>
    decreases k,
{
    if k <= 0 {
        Seq::empty()
    } else {
        path_text(p, k - 1) + p[k - 1]@ + "::"@
    }
}

/// The first line of the hover: visibility, kind, qualified name and
/// generics.
pub open spec fn header_text(def: TypeDefinition, ann: Option<Seq<char>>) -> Seq<char> {
    visibility_text(def.visibility) + kind_text(def.kind) + path_text(
        def.modules@,
        def.modules@.len() as int,
    ) + def.name@ + generics_text(
        def.generics@,
    ) + comment_text(ann)
}

/// Attribute lines of a field, each on its own line.
pub open spec fn attrs_text(attrs: Seq<Vec<char>>, k: int) -> Seq<char>
    decreases k,
{
    if k <= 0 {
        Seq::empty()
    } else {
        attrs_text(attrs, k - 1) + attrs[k - 1]@ + "\n"@
    }
}

/// A field's name, or its position where it has none.
pub open spec fn field_label(f: FieldDescriptor, i: nat) -> Seq<char> {
    if f.name@.len() == 0 {
        dec(i)
    } else {
        f.name@
    }
}

pub open spec fn field_line(f: FieldDescriptor, i: nat, ann: Option<Seq<char>>) -> Seq<char> {
    attrs_text(f.attrs@, f.attrs@.len() as int) + visibility_text(f.visibility) + field_label(f, i)
        + ": "@ + f.ty_text@ + ","@ + comment_text(ann) + "\n"@
}

/// Lines of the first `k` fields, with their annotations.
pub open spec fn fields_text(
    fields: Seq<FieldDescriptor>,
    anns: Seq<Option<Seq<char>>>,
    k: int,
) -> Seq<char>
    decreases k,
{
    if k <= 0 {
        Seq::empty()
    } else {
        fields_text(fields, anns, k - 1) + field_line(fields[k - 1], (k - 1) as nat, anns[k - 1])
    }
}

/// Lines of the first `k` variants of an enum.
pub open spec fn variants_text(variants: Seq<VariantDescriptor>, k: int) -> Seq<char>
    decreases k,
{
    if k <= 0 {
        Seq::empty()
    } else {
        variants_text(variants, k - 1) + variants[k - 1].name@ + ",\n"@
    }
}

/// Appends the characters of a string literal.
pub fn push_str(out: &mut Vec<char>, s: &str)
    ensures
        final(out)@ == old(out)@ + s@,
{
    let ghost start = out@;
    let mut it = s.chars();
    let ghost mut taken: Seq<char> = Seq::empty();
    proof {
        broadcast use vstd::string::axiom_spec_iter;
    }
    loop
        invariant
            it.remaining() == s@.subrange(taken.len() as int, s@.len() as int),
            taken == s@.subrange(0, taken.len() as int),
            taken.len() <= s@.len(),
            out@ == start + taken,
            it.obeys_prophetic_iter_laws(),
        ensures
            taken.len() == s@.len(),
            taken == s@.subrange(0, taken.len() as int),
            out@ == start + taken,
        decreases s@.len() - taken.len(),
    {
        let r = it.next();
        proof {
            broadcast use vstd::string::next_postcondition;
        }
        match r {
            Some(c) => {
                out.push(c);
                proof {
                    taken = taken.push(c);
                    assert(taken =~= s@.subrange(0, taken.len() as int));
                }
            },
            None => {
                break;
            },
        }
    }
    proof {
        assert(taken =~= s@);
    }
}

fn push_visibility(out: &mut Vec<char>, v: &Visibility)
    ensures
        final(out)@ == old(out)@ + visibility_text(*v),
{
    let ghost start = out@;
    match v {
        Visibility::Public => push_str(out, "pub "),
        Visibility::PublicSuper => push_str(out, "pub(super) "),
        Visibility::PublicIn(p) => {
            push_str(out, "pub(in ");
            push_all(out, p);
            push_str(out, ") ");
        },
        Visibility::PublicCrate => push_str(out, "pub(crate) "),
        Visibility::Private => {},
    }
    proof {
        assert(out@ =~= start + visibility_text(*v));
    }
}

fn push_comment(out: &mut Vec<char>, ann: &Option<Vec<char>>)
    ensures
        final(out)@ == old(out)@ + comment_text(
            match ann {
                Some(a) => Some(a@),
                None => None,
            },
        ),
{
    let ghost start = out@;
    match ann {
        Some(a) => {
            push_str(out, " // ");
            push_all(out, a);
        },
        None => {},
    }
    proof {
        assert(out@ =~= start + comment_text(
            match ann {
                Some(a) => Some(a@),
                None => None,
            },
        ));
    }
}

/// Appends the header line's text (without its line break).
pub fn push_header(out: &mut Vec<char>, def: &TypeDefinition, ann: &Option<Vec<char>>)
    ensures
        final(out)@ == old(out)@ + header_text(
            *def,
            match ann {
                Some(a) => Some(a@),
                None => None,
            },
        ),
{
    let ghost start = out@;
    push_visibility(out, &def.visibility);
    match def.kind {
        TypeKind::Enum => push_str(out, "enum "),
        TypeKind::Union => push_str(out, "union "),
        _ => push_str(out, "struct "),
    }
    let ghost path_at = out@;
    let mut k: usize = 0;
    while k < def.modules.len()
        invariant
            0 <= k <= def.modules@.len(),
            out@ == path_at + path_text(def.modules@, k as int),
        decreases def.modules@.len() - k,
    {
        push_all(out, &def.modules[k]);
        push_str(out, "::");
        k = k + 1;
        proof {
            assert(out@ =~= path_at + path_text(def.modules@, k as int));
        }
    }
    push_all(out, &def.name);
    let ghost before_generics = out@;
    let n = def.generics.len();
    if n > 0 {
        push_str(out, "<");
        let ghost open_at = out@;
        let mut k: usize = 0;
        while k < n
            invariant
                n == def.generics@.len(),
                0 <= k <= n,
                out@ == open_at + params_text(def.generics@, k as int),
            decreases n - k,
        {
            if k > 0 {
                push_str(out, ", ");
            }
            push_all(out, &def.generics[k]);
            k = k + 1;
            proof {
                assert(out@ =~= open_at + params_text(def.generics@, k as int));
            }
        }
        push_str(out, ">");
    }
    proof {
        assert(out@ =~= before_generics + generics_text(def.generics@));
    }
    push_comment(out, ann);
    proof {
        assert(out@ =~= start + header_text(
            *def,
            match ann {
                Some(a) => Some(a@),
                None => None,
            },
        ));
    }
}

pub open spec fn opt_views(anns: Seq<Option<Vec<char>>>) -> Seq<Option<Seq<char>>> {
    Seq::new(
        anns.len(),
        |i: int|
            match anns[i] {
                Some(a) => Some(a@),
                None => None,
            },
    )
}

fn push_field_line(out: &mut Vec<char>, f: &FieldDescriptor, i: usize, ann: &Option<Vec<char>>)
    ensures
        final(out)@ == old(out)@ + field_line(
            *f,
            i as nat,
            match ann {
                Some(a) => Some(a@),
                None => None,
            },
        ),
{
    let ghost start = out@;
    let mut k: usize = 0;
    while k < f.attrs.len()
        invariant
            0 <= k <= f.attrs@.len(),
            out@ == start + attrs_text(f.attrs@, k as int),
        decreases f.attrs@.len() - k,
    {
        push_all(out, &f.attrs[k]);
        push_str(out, "\n");
        k = k + 1;
        proof {
            assert(out@ =~= start + attrs_text(f.attrs@, k as int));
        }
    }
    push_visibility(out, &f.visibility);
    if f.name.len() == 0 {
        push_dec(out, i as u64);
    } else {
        push_all(out, &f.name);
    }
    push_str(out, ": ");
    push_all(out, &f.ty_text);
    push_str(out, ",");
    push_comment(out, ann);
    push_str(out, "\n");
    proof {
        assert(out@ =~= start + field_line(
            *f,
            i as nat,
            match ann {
                Some(a) => Some(a@),
                None => None,
            },
        ));
    }
}

/// Appends the lines of all fields, each with its annotation.
pub fn push_fields(out: &mut Vec<char>, fields: &Vec<FieldDescriptor>, anns: &Vec<Option<Vec<char>>>)
    requires
        anns@.len() == fields@.len(),
    ensures
        final(out)@ == old(out)@ + fields_text(fields@, opt_views(anns@), fields@.len() as int),
{
    let ghost start = out@;
    let mut k: usize = 0;
    while k < fields.len()
        invariant
            anns@.len() == fields@.len(),
            0 <= k <= fields@.len(),
            out@ == start + fields_text(fields@, opt_views(anns@), k as int),
        decreases fields@.len() - k,
    {
        push_field_line(out, &fields[k], k, &anns[k]);
        k = k + 1;
        proof {
            assert(out@ =~= start + fields_text(fields@, opt_views(anns@), k as int));
        }
    }
}

/// Appends one line per variant.
pub fn push_variants(out: &mut Vec<char>, variants: &Vec<VariantDescriptor>)
    ensures
        final(out)@ == old(out)@ + variants_text(variants@, variants@.len() as int),
{
    let ghost start = out@;
    let mut k: usize = 0;
    while k < variants.len()
        invariant
            0 <= k <= variants@.len(),
            out@ == start + variants_text(variants@, k as int),
        decreases variants@.len() - k,
    {
        push_all(out, &variants[k].name);
        push_str(out, ",\n");
        k = k + 1;
        proof {
            assert(out@ =~= start + variants_text(variants@, k as int));
        }
    }
}

} // verus!
