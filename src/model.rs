//! Type definitions as the layout builder and the hover text read them.
use vstd::prelude::*;

verus! {

#[derive(Clone, Copy, Debug, PartialEq, Eq, Structural)]
pub enum TypeKind {
    Struct,
    TupleStruct,
    Enum,
    Union,
}

#[derive(Clone, Debug, PartialEq, Eq)]
pub enum Visibility {
    Public,
    PublicSuper,
    PublicIn(Vec<char>),
    PublicCrate,
    Private,
}

/// A field's declared type.
#[derive(Clone, Copy, Debug, PartialEq, Eq, Structural)]
pub enum TypeRef {
    /// A primitive or foreign type, by its index in the oracle's table.
    Prim(usize),
    /// A generic parameter of the owning definition, by position.
    Param(usize),
    /// Another composite definition, contained directly, by its index and
    /// the index of its list of type arguments in the layout context.
    Adt(usize, usize),
    /// A composite definition reached through an owning pointer.
    Indirect(usize),
}

/// One declared field. Tuple-struct fields have an empty name and are known
/// by their position.
#[derive(Clone, Debug)]
pub struct FieldDescriptor {
    pub name: Vec<char>,
    pub visibility: Visibility,
    pub attrs: Vec<Vec<char>>,
    pub ty: TypeRef,
    pub ty_text: Vec<char>,
}

#[derive(Clone, Debug)]
pub struct VariantDescriptor {
    pub name: Vec<char>,
    pub fields: Vec<FieldDescriptor>,
}

/// A composite type as declared: fields in declaration order, or variants
/// for an enum.
#[derive(Clone, Debug)]
pub struct TypeDefinition {
    /// The modules enclosing the definition, outermost first.
    pub modules: Vec<Vec<char>>,
    pub name: Vec<char>,
    pub kind: TypeKind,
    pub visibility: Visibility,
    pub generics: Vec<Vec<char>>,
    pub where_clauses: Vec<Vec<char>>,
    pub fields: Vec<FieldDescriptor>,
    pub variants: Vec<VariantDescriptor>,
    pub docs: Option<Vec<char>>,
}

/// Declared types of the first `k` variants' fields, variant after variant.
pub open spec fn variant_types(vs: Seq<VariantDescriptor>, k: int) -> Seq<TypeRef>
    decreases k,
{
    if k <= 0 {
        Seq::empty()
    } else {
        variant_types(vs, k - 1) + vs[k - 1].fields@.map_values(|f: FieldDescriptor| f.ty)
    }
}

/// Declared types of a definition's fields in declaration order: for an
/// enum, those of every variant's fields, variant after variant.
pub open spec fn declared_types(def: TypeDefinition) -> Seq<TypeRef> {
    if def.kind == TypeKind::Enum {
        variant_types(def.variants@, def.variants@.len() as int)
    } else {
        def.fields@.map_values(|f: FieldDescriptor| f.ty)
    }
}

fn push_types(out: &mut Vec<TypeRef>, fields: &Vec<FieldDescriptor>)
    ensures
        final(out)@ == old(out)@ + fields@.map_values(|f: FieldDescriptor| f.ty),
{
    let ghost start = out@;
    let mut i: usize = 0;
    while i < fields.len()
        invariant
            0 <= i <= fields@.len(),
            out@ == start + fields@.subrange(0, i as int).map_values(|f: FieldDescriptor| f.ty),
        decreases fields@.len() - i,
    {
        out.push(fields[i].ty);
        i = i + 1;
        proof {
            assert(out@ =~= start + fields@.subrange(0, i as int).map_values(
                |f: FieldDescriptor| f.ty,
            ));
        }
    }
    proof {
        assert(fields@.subrange(0, fields@.len() as int) =~= fields@);
    }
}

/// The declared types of `def`'s fields.
pub fn declared_types_of(def: &TypeDefinition) -> (r: Vec<TypeRef>)
    ensures
        r@ == declared_types(*def),
{
    let mut r: Vec<TypeRef> = Vec::new();
    if def.kind == TypeKind::Enum {
        let mut k: usize = 0;
        while k < def.variants.len()
            invariant
                0 <= k <= def.variants@.len(),
                r@ == variant_types(def.variants@, k as int),
            decreases def.variants@.len() - k,
        {
            push_types(&mut r, &def.variants[k].fields);
            k = k + 1;
        }
    } else {
        push_types(&mut r, &def.fields);
        assert(r@ =~= declared_types(*def));
    }
    r
}

} // verus!
