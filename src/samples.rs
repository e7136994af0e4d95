//! Sample hovers: small definitions and the values hovered in them, laid out
//! on a 64-bit target.
use vstd::prelude::*;
use crate::builder::{LayoutContext, LayoutOracle};
use crate::hover::{HoverTarget, TextRange};
use crate::model::{
    FieldDescriptor, TypeDefinition, TypeKind, TypeRef, VariantDescriptor, Visibility,
};
use crate::placement::LeafLayout;
use crate::text::push_str;

verus! {

/// A definition context and the value hovered in it.
#[derive(Clone, Debug)]
pub struct Sample {
    pub ctx: LayoutContext,
    pub target: HoverTarget,
}

/// Index of `i32` in the sample oracle's primitive table.
pub const I32: usize = 0;

/// Index of `&str` in the sample oracle's primitive table.
pub const STR_REF: usize = 1;

/// The characters of `s`.
pub fn chars_of(s: &str) -> (r: Vec<char>)
    ensures
        r@ == s@,
{
    let mut r: Vec<char> = Vec::new();
    push_str(&mut r, s);
    r
}

/// A 64-bit target: `i32` takes 4 bytes, `&str` 16 with one niche, a
/// pointer 8 with one niche; `enums` gives each definition's enum layout.
pub fn sample_oracle(enums: Vec<Option<LeafLayout>>) -> (r: LayoutOracle)
    ensures
        r.prims@ == seq![
            Some(LeafLayout { size: 4, align: 4, niches: 0 }),
            Some(LeafLayout { size: 16, align: 8, niches: 1 }),
        ],
        r.pointer == (LeafLayout { size: 8, align: 8, niches: 1 }),
        r.enums@ == enums@,
        r.orders@.len() == 0,
{
    let r = LayoutOracle {
        prims: vec![
            Some(LeafLayout { size: 4, align: 4, niches: 0 }),
            Some(LeafLayout { size: 16, align: 8, niches: 1 }),
        ],
        pointer: LeafLayout { size: 8, align: 8, niches: 1 },
        enums,
        orders: Vec::new(),
    };
    assert(r.prims@ =~= seq![
        Some(LeafLayout { size: 4, align: 4, niches: 0 }),
        Some(LeafLayout { size: 16, align: 8, niches: 1 }),
    ]);
    r
}

/// The sample oracle: `i32` and `&str` as primitives, pointers of 8 bytes,
/// `enums` as enum layouts, and declaration order for every definition.
pub open spec fn is_sample_oracle(o: LayoutOracle, enums: Seq<Option<LeafLayout>>) -> bool {
    &&& o.prims@ == seq![
        Some(LeafLayout { size: 4, align: 4, niches: 0 }),
        Some(LeafLayout { size: 16, align: 8, niches: 1 }),
    ]
    &&& o.pointer == (LeafLayout { size: 8, align: 8, niches: 1 })
    &&& o.enums@ == enums
    &&& o.orders@.len() == 0
}

/// `f` is a private field with no attributes, named `name`, of type `ty`
/// written `ty_text`.
pub open spec fn is_plain_field(
    f: FieldDescriptor,
    name: Seq<char>,
    ty: TypeRef,
    ty_text: Seq<char>,
) -> bool {
    &&& f.name@ == name
    &&& f.ty == ty
    &&& f.ty_text@ == ty_text
    &&& f.attrs@.len() == 0
    &&& f.visibility == Visibility::Private
}

/// `d` is a private, non-generic definition named `name` of kind `kind` at
/// the crate root, without where clauses or docs.
pub open spec fn is_plain_definition(d: TypeDefinition, name: Seq<char>, kind: TypeKind) -> bool {
    &&& d.modules@.len() == 0
    &&& d.name@ == name
    &&& d.kind == kind
    &&& d.visibility == Visibility::Private
    &&& d.generics@.len() == 0
    &&& d.where_clauses@.len() == 0
    &&& d.docs is None
}

/// A private field with no attributes.
pub fn plain_field(name: &str, ty: TypeRef, ty_text: &str) -> (r: FieldDescriptor)
    ensures
        is_plain_field(r, name@, ty, ty_text@),
{
    FieldDescriptor {
        name: chars_of(name),
        visibility: Visibility::Private,
        attrs: Vec::new(),
        ty,
        ty_text: chars_of(ty_text),
    }
}

/// A struct or union definition with no generics, where clauses or docs.
pub fn plain_definition(name: &str, kind: TypeKind, fields: Vec<FieldDescriptor>) -> (r:
    TypeDefinition)
    ensures
        is_plain_definition(r, name@, kind),
        r.fields@ == fields@,
        r.variants@.len() == 0,
{
    TypeDefinition {
        modules: Vec::new(),
        name: chars_of(name),
        kind,
        visibility: Visibility::Private,
        generics: Vec::new(),
        where_clauses: Vec::new(),
        fields,
        variants: Vec::new(),
        docs: None,
    }
}

fn single(def: TypeDefinition, enums: Vec<Option<LeafLayout>>, supplied: Vec<Option<TypeRef>>) -> (r:
    Sample)
    ensures
        r.ctx.defs@ == seq![def],
        r.ctx.args@.len() == 0,
        is_sample_oracle(r.ctx.oracle, enums@),
        r.target.def == 0,
        r.target.range == (TextRange { start: 0, end: 1 }),
        r.target.supplied@ == supplied@,
{
    let r = Sample {
        ctx: LayoutContext { defs: vec![def], args: Vec::new(), oracle: sample_oracle(enums) },
        target: HoverTarget { range: TextRange { start: 0, end: 1 }, def: 0, supplied },
    };
    assert(r.ctx.defs@ =~= seq![def]);
    r
}

/// `enum TestEnum { A, B }`, hovered at `TestEnum::A`: one byte, with the
/// other 254 byte values free as niches.
pub fn test1() -> (r: Sample)
    ensures
        r.ctx.defs@.len() == 1,
        r.ctx.args@.len() == 0,
        is_plain_definition(r.ctx.defs@[0], "TestEnum"@, TypeKind::Enum),
        r.ctx.defs@[0].fields@.len() == 0,
        r.ctx.defs@[0].variants@.len() == 2,
        r.ctx.defs@[0].variants@[0].name@ == "A"@,
        r.ctx.defs@[0].variants@[0].fields@.len() == 0,
        r.ctx.defs@[0].variants@[1].name@ == "B"@,
        r.ctx.defs@[0].variants@[1].fields@.len() == 0,
        is_sample_oracle(r.ctx.oracle, seq![Some(LeafLayout { size: 1, align: 1, niches: 254 })]),
        r.target.def == 0,
        r.target.range == (TextRange { start: 0, end: 1 }),
        r.target.supplied@.len() == 0,
{
    let def = TypeDefinition {
        modules: Vec::new(),
        name: chars_of("TestEnum"),
        kind: TypeKind::Enum,
        visibility: Visibility::Private,
        generics: Vec::new(),
        where_clauses: Vec::new(),
        fields: Vec::new(),
        variants: vec![
            VariantDescriptor { name: chars_of("A"), fields: Vec::new() },
            VariantDescriptor { name: chars_of("B"), fields: Vec::new() },
        ],
        docs: None,
    };
    let enums = vec![Some(LeafLayout { size: 1, align: 1, niches: 254 })];
    assert(enums@ =~= seq![Some(LeafLayout { size: 1, align: 1, niches: 254 })]);
    single(def, enums, Vec::new())
}

/// `struct TestTuple(i32, i32)`, hovered at `TestTuple(1, 2)`.
pub fn test2() -> (r: Sample)
    ensures
        r.ctx.defs@.len() == 1,
        r.ctx.args@.len() == 0,
        is_plain_definition(r.ctx.defs@[0], "TestTuple"@, TypeKind::TupleStruct),
        r.ctx.defs@[0].fields@.len() == 2,
        is_plain_field(r.ctx.defs@[0].fields@[0], Seq::empty(), TypeRef::Prim(I32), "i32"@),
        is_plain_field(r.ctx.defs@[0].fields@[1], Seq::empty(), TypeRef::Prim(I32), "i32"@),
        r.ctx.defs@[0].variants@.len() == 0,
        is_sample_oracle(r.ctx.oracle, seq![None]),
        r.target.def == 0,
        r.target.range == (TextRange { start: 0, end: 1 }),
        r.target.supplied@ == seq![Some(TypeRef::Prim(I32)), Some(TypeRef::Prim(I32))],
{
    let fields = vec![plain_field("", TypeRef::Prim(I32), "i32"), plain_field("", TypeRef::Prim(I32), "i32")];
    let def = plain_definition("TestTuple", TypeKind::TupleStruct, fields);
    let enums: Vec<Option<LeafLayout>> = vec![None];
    let supplied = vec![Some(TypeRef::Prim(I32)), Some(TypeRef::Prim(I32))];
    assert(enums@ =~= seq![None]);
    assert(supplied@ =~= seq![Some(TypeRef::Prim(I32)), Some(TypeRef::Prim(I32))]);
    assert(Seq::<char>::empty() =~= ""@) by {
        reveal_strlit("");
    }
    single(def, enums, supplied)
}

/// `union TestUnion { a: i32, b: i32 }`, hovered at `TestUnion { a: 1 }`.
pub fn test3() -> (r: Sample)
    ensures
        r.ctx.defs@.len() == 1,
        r.ctx.args@.len() == 0,
        is_plain_definition(r.ctx.defs@[0], "TestUnion"@, TypeKind::Union),
        r.ctx.defs@[0].fields@.len() == 2,
        is_plain_field(r.ctx.defs@[0].fields@[0], "a"@, TypeRef::Prim(I32), "i32"@),
        is_plain_field(r.ctx.defs@[0].fields@[1], "b"@, TypeRef::Prim(I32), "i32"@),
        r.ctx.defs@[0].variants@.len() == 0,
        is_sample_oracle(r.ctx.oracle, seq![None]),
        r.target.def == 0,
        r.target.range == (TextRange { start: 0, end: 1 }),
        r.target.supplied@ == seq![Some(TypeRef::Prim(I32)), None],
{
    let fields = vec![plain_field("a", TypeRef::Prim(I32), "i32"), plain_field("b", TypeRef::Prim(I32), "i32")];
    let def = plain_definition("TestUnion", TypeKind::Union, fields);
    let enums: Vec<Option<LeafLayout>> = vec![None];
    let supplied = vec![Some(TypeRef::Prim(I32)), None];
    assert(enums@ =~= seq![None]);
    assert(supplied@ =~= seq![Some(TypeRef::Prim(I32)), None]);
    single(def, enums, supplied)
}

/// What `generic_struct` builds.
pub open spec fn is_generic_struct(r: TypeDefinition) -> bool {
    &&& r.modules@.len() == 0
    &&& r.name@ == "TestStruct"@
    &&& r.kind == TypeKind::Struct
    &&& r.visibility == Visibility::PublicCrate
    &&& r.generics@.len() == 2
    &&& r.generics@[0]@ == "'a"@
    &&& r.generics@[1]@ == "T"@
    &&& r.where_clauses@.len() == 1
    &&& r.where_clauses@[0]@ == "T: Sized"@
    &&& r.docs is None
    &&& r.variants@.len() == 0
    &&& r.fields@.len() == 4
    &&& r.fields@[0].name@ == "a"@
    &&& r.fields@[0].visibility == Visibility::PublicSuper
    &&& r.fields@[0].attrs@.len() == 1
    &&& r.fields@[0].attrs@[0]@ == "#[allow(unused)]"@
    &&& r.fields@[0].ty == TypeRef::Prim(I32)
    &&& r.fields@[0].ty_text@ == "i32"@
    &&& is_plain_field(r.fields@[1], "b"@, TypeRef::Prim(I32), "i32"@)
    &&& is_plain_field(r.fields@[2], "c"@, TypeRef::Prim(STR_REF), "&'a str"@)
    &&& is_plain_field(r.fields@[3], "d"@, TypeRef::Param(1), "T"@)
}

/// The values of `TestStruct { a: 1, b: 2, c: "test", d: 1 }`.
pub open spec fn generic_struct_values() -> Seq<Option<TypeRef>> {
    seq![
        Some(TypeRef::Prim(I32)),
        Some(TypeRef::Prim(I32)),
        Some(TypeRef::Prim(STR_REF)),
        Some(TypeRef::Prim(I32)),
    ]
}

/// `pub(crate) struct TestStruct<'a, T> where T: Sized` with fields
/// `a: i32` (`pub(super)`, `#[allow(unused)]`), `b: i32`, `c: &'a str` and
/// `d: T`.
pub fn generic_struct() -> (r: TypeDefinition)
    ensures
        is_generic_struct(r),
{
    let a = FieldDescriptor {
        name: chars_of("a"),
        visibility: Visibility::PublicSuper,
        attrs: vec![chars_of("#[allow(unused)]")],
        ty: TypeRef::Prim(I32),
        ty_text: chars_of("i32"),
    };
    let r = TypeDefinition {
        modules: Vec::new(),
        name: chars_of("TestStruct"),
        kind: TypeKind::Struct,
        visibility: Visibility::PublicCrate,
        generics: vec![chars_of("'a"), chars_of("T")],
        where_clauses: vec![chars_of("T: Sized")],
        fields: vec![
            a,
            plain_field("b", TypeRef::Prim(I32), "i32"),
            plain_field("c", TypeRef::Prim(STR_REF), "&'a str"),
            plain_field("d", TypeRef::Param(1), "T"),
        ],
        variants: Vec::new(),
        docs: None,
    };
    r
}

/// `type Alias<'a> = TestStruct<'a, i32>`, hovered at
/// `Alias { a: 1, b: 2, c: "test", d: 1 }`: `T` is `i32`.
pub fn test4() -> (r: Sample)
    ensures
        r.ctx.defs@.len() == 1,
        r.ctx.args@.len() == 0,
        is_generic_struct(r.ctx.defs@[0]),
        is_sample_oracle(r.ctx.oracle, seq![None]),
        r.target.def == 0,
        r.target.range == (TextRange { start: 0, end: 1 }),
        r.target.supplied@ == generic_struct_values(),
{
    let supplied = vec![
        Some(TypeRef::Prim(I32)),
        Some(TypeRef::Prim(I32)),
        Some(TypeRef::Prim(STR_REF)),
        Some(TypeRef::Prim(I32)),
    ];
    let enums: Vec<Option<LeafLayout>> = vec![None];
    assert(enums@ =~= seq![None]);
    assert(supplied@ =~= generic_struct_values());
    single(generic_struct(), enums, supplied)
}

/// `TestStruct { a: 1, b: 2, c: "test", d: 1 }`, hovered at the value, whose
/// `d` the checker infers as `i32`.
pub fn test5() -> (r: Sample)
    ensures
        r.ctx.defs@.len() == 1,
        r.ctx.args@.len() == 0,
        is_generic_struct(r.ctx.defs@[0]),
        is_sample_oracle(r.ctx.oracle, seq![None]),
        r.target.def == 0,
        r.target.range == (TextRange { start: 4, end: 5 }),
        r.target.supplied@ == generic_struct_values(),
{
    let supplied = vec![
        Some(TypeRef::Prim(I32)),
        Some(TypeRef::Prim(I32)),
        Some(TypeRef::Prim(STR_REF)),
        Some(TypeRef::Prim(I32)),
    ];
    let enums: Vec<Option<LeafLayout>> = vec![None];
    assert(enums@ =~= seq![None]);
    assert(supplied@ =~= generic_struct_values());
    let mut s = single(generic_struct(), enums, supplied);
    s.target.range = TextRange { start: 4, end: 5 };
    s
}

} // verus!
