use hover_layout::builder::{LayoutContext, LayoutOracle};
use hover_layout::hover::{
    check_hover_range_no_results, hover, HoverAction, HoverConfig, HoverDocFormat, HoverTarget,
    TextRange,
};
use hover_layout::model::{FieldDescriptor, TypeDefinition, TypeKind, TypeRef, Visibility};
use hover_layout::placement::LeafLayout;
use hover_layout::render::{MemoryLayoutHoverConfig, MemoryLayoutHoverRenderKind};
use hover_layout::samples::{test1, test2, test3, test4, test5, Sample};

const I32: usize = 0;
const STR_REF: usize = 1;
const U32: usize = 2;

fn t(s: &str) -> Vec<char> {
    s.chars().collect()
}

fn text(v: &[char]) -> String {
    v.iter().collect()
}

fn oracle(enums: Vec<Option<LeafLayout>>, orders: Vec<Option<Vec<usize>>>) -> LayoutOracle {
    LayoutOracle {
        prims: vec![
            Some(LeafLayout { size: 4, align: 4, niches: 0 }),
            Some(LeafLayout { size: 16, align: 8, niches: 1 }),
            Some(LeafLayout { size: 4, align: 4, niches: 0 }),
        ],
        pointer: LeafLayout { size: 8, align: 8, niches: 1 },
        enums,
        orders,
    }
}

fn field(vis: Visibility, attrs: &[&str], name: &str, ty: TypeRef, ty_text: &str) -> FieldDescriptor {
    FieldDescriptor {
        name: t(name),
        visibility: vis,
        attrs: attrs.iter().map(|a| t(a)).collect(),
        ty,
        ty_text: t(ty_text),
    }
}

fn private(name: &str, ty: TypeRef, ty_text: &str) -> FieldDescriptor {
    field(Visibility::Private, &[], name, ty, ty_text)
}

fn definition(name: &str, kind: TypeKind, generics: &[&str], fields: Vec<FieldDescriptor>) -> TypeDefinition {
    TypeDefinition {
        modules: Vec::new(),
        name: t(name),
        kind,
        visibility: Visibility::Private,
        generics: generics.iter().map(|g| t(g)).collect(),
        where_clauses: Vec::new(),
        fields,
        variants: Vec::new(),
        docs: None,
    }
}

fn base_config() -> HoverConfig {
    HoverConfig {
        links_in_hover: false,
        memory_layout: Some(MemoryLayoutHoverConfig {
            size: Some(MemoryLayoutHoverRenderKind::Both),
            offset: Some(MemoryLayoutHoverRenderKind::Both),
            alignment: Some(MemoryLayoutHoverRenderKind::Both),
            niches: true,
        }),
        documentation: true,
        format: HoverDocFormat::Markdown,
        keywords: true,
    }
}

fn links_config() -> HoverConfig {
    HoverConfig { links_in_hover: true, ..base_config() }
}

fn target(def: usize, supplied: Vec<Option<TypeRef>>) -> HoverTarget {
    HoverTarget { range: TextRange { start: 10, end: 11 }, def, supplied }
}

fn markup_of(ctx: &LayoutContext, config: &HoverConfig, def: usize, supplied: Vec<Option<TypeRef>>) -> String {
    let r = hover(ctx, config, &Some(target(def, supplied))).expect("a typed value is hovered");
    text(&r.markup)
}

fn check(defs: Vec<TypeDefinition>, supplied: Vec<Option<TypeRef>>) -> String {
    check_with_args(defs, Vec::new(), supplied)
}

fn check_with_args(defs: Vec<TypeDefinition>, args: Vec<Vec<TypeRef>>, supplied: Vec<Option<TypeRef>>) -> String {
    let n = defs.len();
    let ctx = LayoutContext { defs, args, oracle: oracle(vec![None; n], Vec::new()) };
    markup_of(&ctx, &links_config(), 0, supplied)
}

fn check_sample(s: &Sample) -> String {
    let r = hover(&s.ctx, &links_config(), &Some(s.target.clone())).expect("a typed value is hovered");
    assert_eq!(r.actions, vec![HoverAction::GoToType(s.target.def)]);
    assert_eq!(r.range, s.target.range);
    text(&r.markup)
}

fn generic_struct(bound: &str) -> TypeDefinition {
    let mut d = definition(
        "TestStruct",
        TypeKind::Struct,
        &["'a", "T"],
        vec![
            field(Visibility::PublicSuper, &["#[allow(unused)]"], "a", TypeRef::Prim(I32), "i32"),
            private("b", TypeRef::Prim(I32), "i32"),
            private("c", TypeRef::Prim(STR_REF), "&'a str"),
            private("d", TypeRef::Param(1), "T"),
        ],
    );
    d.visibility = Visibility::PublicCrate;
    d.where_clauses = vec![t(bound)];
    d
}

const GENERIC_STRUCT_I32: &str = "```rust
pub(crate) struct TestStruct<'a, T> // size = 32, align = 8, niches = 1
```

```rust
#[allow(unused)]
pub(super) a: i32, // size = 4, align = 4, offset = 0 (+0)
b: i32, // size = 4, align = 4, offset = 4 (+4)
c: &'a str, // size = 16, align = 8, offset = 8 (+4)
d: T, // size = 4, align = 4, offset = 24 (+16)
```";

#[test]
fn test_generics_and_lifetime() {
    let supplied = vec![
        Some(TypeRef::Prim(I32)),
        Some(TypeRef::Prim(I32)),
        Some(TypeRef::Prim(I32)),
        Some(TypeRef::Prim(I32)),
    ];
    assert_eq!(check(vec![generic_struct("T: Sized")], supplied), GENERIC_STRUCT_I32);
}

#[test]
fn test_multiple_where_depth_n() {
    // `d: Test2 { a: 1 }`: `T` is `Test2<i32>`, a struct of one `i32`.
    let test2 = definition("Test2", TypeKind::Struct, &["T"], vec![private("a", TypeRef::Param(0), "T")]);
    let supplied = vec![
        Some(TypeRef::Prim(I32)),
        Some(TypeRef::Prim(I32)),
        Some(TypeRef::Prim(I32)),
        Some(TypeRef::Adt(1, 0)),
    ];
    let args = vec![vec![TypeRef::Prim(I32)]];
    let got = check_with_args(vec![generic_struct("T: Sized + Debug"), test2], args, supplied);
    assert_eq!(got, GENERIC_STRUCT_I32);
}

#[test]
fn test_multiple_where_depth_zero() {
    let supplied = vec![
        Some(TypeRef::Prim(I32)),
        Some(TypeRef::Prim(I32)),
        Some(TypeRef::Prim(I32)),
        Some(TypeRef::Prim(I32)),
    ];
    assert_eq!(check(vec![generic_struct("T: Sized + Debug")], supplied), GENERIC_STRUCT_I32);
}

#[test]
fn test_mods() {
    let fields = vec![
        field(Visibility::PublicIn(t("crate::outer_mod")), &[], "a", TypeRef::Prim(U32), "u32"),
        field(Visibility::PublicIn(t("outer_mod")), &[], "b", TypeRef::Prim(U32), "u32"),
        field(Visibility::PublicCrate, &[], "c", TypeRef::Prim(U32), "u32"),
        field(Visibility::PublicSuper, &[], "d", TypeRef::Prim(U32), "u32"),
        field(Visibility::Private, &[], "e", TypeRef::Prim(U32), "u32"),
        field(Visibility::Private, &[], "f", TypeRef::Prim(U32), "u32"),
    ];
    let mut d = definition("Test", TypeKind::Struct, &[], fields);
    d.modules = vec![t("outer_mod"), t("inner_mod")];
    let got = check(vec![d], vec![Some(TypeRef::Prim(U32)); 6]);
    let expected = "```rust
struct outer_mod::inner_mod::Test // size = 24, align = 4, niches = 0
```

```rust
pub(in crate::outer_mod) a: u32, // size = 4, align = 4, offset = 0 (+0)
pub(in outer_mod) b: u32, // size = 4, align = 4, offset = 4 (+4)
pub(crate) c: u32, // size = 4, align = 4, offset = 8 (+4)
pub(super) d: u32, // size = 4, align = 4, offset = 12 (+4)
e: u32, // size = 4, align = 4, offset = 16 (+4)
f: u32, // size = 4, align = 4, offset = 20 (+4)
```";
    assert_eq!(got, expected);
}

#[test]
fn test_struct() {
    let fields = vec![
        field(Visibility::Public, &[], "a", TypeRef::Prim(I32), "i32"),
        private("b", TypeRef::Prim(I32), "i32"),
        private("c", TypeRef::Prim(I32), "i32"),
    ];
    let got = check(vec![definition("TestStruct", TypeKind::Struct, &[], fields)], vec![Some(TypeRef::Prim(I32)); 3]);
    let expected = "```rust
struct TestStruct // size = 12, align = 4, niches = 0
```

```rust
pub a: i32, // size = 4, align = 4, offset = 0 (+0)
b: i32, // size = 4, align = 4, offset = 4 (+4)
c: i32, // size = 4, align = 4, offset = 8 (+4)
```";
    assert_eq!(got, expected);
}

#[test]
fn test_enum() {
    let got = check_sample(&test1());
    let expected = "```rust
enum TestEnum // size = 1, align = 1, niches = 254
```

```rust
A,
B,
```";
    assert_eq!(got, expected);
}

#[test]
fn test_tuple_struct() {
    let got = check_sample(&test2());
    let expected = "```rust
struct TestTuple // size = 8, align = 4, niches = 0
```

```rust
0: i32, // size = 4, align = 4, offset = 0 (+0)
1: i32, // size = 4, align = 4, offset = 4 (+4)
```";
    assert_eq!(got, expected);
}

#[test]
fn test_union() {
    let got = check_sample(&test3());
    let expected = "```rust
union TestUnion // size = 4, align = 4
```

```rust
a: i32, // size = 4, align = 4, offset = 0
b: i32, // size = 4, align = 4, offset = 0
```";
    assert_eq!(got, expected);
}

#[test]
fn test_alias() {
    // `type Alias = TestStruct;` hovers as the struct it names.
    let fields = vec![private("a", TypeRef::Prim(I32), "i32"), private("b", TypeRef::Prim(I32), "i32")];
    let got = check(vec![definition("TestStruct", TypeKind::Struct, &[], fields)], vec![Some(TypeRef::Prim(I32)); 2]);
    let expected = "```rust
struct TestStruct // size = 8, align = 4, niches = 0
```

```rust
a: i32, // size = 4, align = 4, offset = 0 (+0)
b: i32, // size = 4, align = 4, offset = 4 (+4)
```";
    assert_eq!(got, expected);
    assert_eq!(check_sample(&test4()), GENERIC_STRUCT_I32);
}

#[test]
fn test_generics() {
    // `a: "1"` and `b: 2` disagree on `T`, which stays unresolved.
    let fields = vec![private("a", TypeRef::Param(0), "T"), private("b", TypeRef::Param(0), "T")];
    let got = check(
        vec![definition("TestStruct", TypeKind::Struct, &["T"], fields)],
        vec![Some(TypeRef::Prim(STR_REF)), Some(TypeRef::Prim(I32))],
    );
    let expected = "```rust
struct TestStruct<T> // size = ?, align = ?, niches = ?
```

```rust
a: T, // size = ?, align = ?, offset = ? (+0)
b: T, // size = ?, align = ?, offset = ? (?)
```";
    assert_eq!(got, expected);
}

#[test]
fn test_where() {
    let fields = vec![private("a", TypeRef::Prim(I32), "i32"), private("b", TypeRef::Prim(I32), "i32")];
    let mut d = definition("TestStruct", TypeKind::Struct, &[], fields);
    d.where_clauses = vec![t("i32: Sized")];
    let got = check(vec![d], vec![Some(TypeRef::Prim(I32)); 2]);
    let expected = "```rust
struct TestStruct // size = 8, align = 4, niches = 0
```

```rust
a: i32, // size = 4, align = 4, offset = 0 (+0)
b: i32, // size = 4, align = 4, offset = 4 (+4)
```";
    assert_eq!(got, expected);
}

#[test]
fn test_attr() {
    let fields = vec![
        field(Visibility::Private, &["#[allow(unused)]"], "a", TypeRef::Prim(I32), "i32"),
        private("b", TypeRef::Prim(I32), "i32"),
    ];
    let got = check(vec![definition("TestStruct", TypeKind::Struct, &[], fields)], vec![Some(TypeRef::Prim(I32)); 2]);
    let expected = "```rust
struct TestStruct // size = 8, align = 4, niches = 0
```

```rust
#[allow(unused)]
a: i32, // size = 4, align = 4, offset = 0 (+0)
b: i32, // size = 4, align = 4, offset = 4 (+4)
```";
    assert_eq!(got, expected);
}

#[test]
fn test_order() {
    // The value lists `b` before `a`; the hover keeps declaration order.
    let fields = vec![
        field(Visibility::Private, &["#[allow(unused)]"], "a", TypeRef::Prim(I32), "i32"),
        private("b", TypeRef::Prim(I32), "i32"),
    ];
    let got = check(vec![definition("TestStruct", TypeKind::Struct, &[], fields)], vec![Some(TypeRef::Prim(I32)); 2]);
    let expected = "```rust
struct TestStruct // size = 8, align = 4, niches = 0
```

```rust
#[allow(unused)]
a: i32, // size = 4, align = 4, offset = 0 (+0)
b: i32, // size = 4, align = 4, offset = 4 (+4)
```";
    assert_eq!(got, expected);
}

#[test]
fn sample_value_of_inferred_struct() {
    assert_eq!(check_sample(&test5()), GENERIC_STRUCT_I32);
}

#[test]
fn no_typed_value_gives_no_hover() {
    let s = test2();
    assert!(hover(&s.ctx, &base_config(), &None).is_none());
    assert!(check_hover_range_no_results(&s.ctx, &base_config(), &None));
    let unknown = Some(target(7, Vec::new()));
    assert!(check_hover_range_no_results(&s.ctx, &base_config(), &unknown));
    assert!(!check_hover_range_no_results(&s.ctx, &base_config(), &Some(s.target.clone())));
}

#[test]
fn links_off_offer_no_actions() {
    let s = test2();
    let r = hover(&s.ctx, &base_config(), &Some(s.target.clone())).unwrap();
    assert!(r.actions.is_empty());
}
