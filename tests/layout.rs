use hover_layout::builder::{aggregate_layout, type_layout, LayoutContext, LayoutOracle};
use hover_layout::hover::{hover, resolve_substitution, HoverConfig, HoverDocFormat, HoverTarget, TextRange};
use hover_layout::model::{FieldDescriptor, TypeDefinition, TypeKind, TypeRef, VariantDescriptor, Visibility};
use hover_layout::placement::{check_order, place_struct, place_union, LeafLayout, PlacedField};
use hover_layout::reconcile::{find_placed, reconcile};
use hover_layout::render::{
    field_annotation, field_annotations, push_dec, whole_annotation, FieldFacts,
    MemoryLayoutHoverConfig, MemoryLayoutHoverRenderKind,
};
use hover_layout::samples::{chars_of, plain_definition, plain_field, sample_oracle, test3, test5};
use hover_layout::text::push_str;

fn leaf(size: u64, align: u64, niches: u64) -> LeafLayout {
    LeafLayout { size, align, niches }
}

fn text(v: &[char]) -> String {
    v.iter().collect()
}

fn only(mode: Option<MemoryLayoutHoverRenderKind>, size: bool, align: bool) -> MemoryLayoutHoverConfig {
    let exact = Some(MemoryLayoutHoverRenderKind::Exact);
    MemoryLayoutHoverConfig {
        size: if size { exact } else { None },
        offset: mode,
        alignment: if align { exact } else { None },
        niches: false,
    }
}

fn placed(index: usize, offset: u64, size: u64, align: u64) -> PlacedField {
    PlacedField { index, offset, layout: leaf(size, align, 0) }
}

fn facts(offset: u64, size: u64, align: u64) -> FieldFacts {
    FieldFacts { offset: Some(offset), layout: Some(leaf(size, align, 0)) }
}

fn ctx_of(defs: Vec<TypeDefinition>, orders: Vec<Option<Vec<usize>>>) -> LayoutContext {
    let mut oracle: LayoutOracle = sample_oracle(vec![None; defs.len()]);
    oracle.orders = orders;
    LayoutContext { defs, args: Vec::new(), oracle }
}

#[test]
fn struct_size_is_aligned_and_holds_every_field() {
    let leaves = vec![Some(leaf(1, 1, 254)), Some(leaf(8, 8, 0)), Some(leaf(2, 2, 0))];
    let a = place_struct(&leaves, &vec![0, 1, 2]).unwrap();
    assert_eq!(a.whole, leaf(24, 8, 254));
    let offsets: Vec<u64> = a.fields.iter().map(|f| f.offset).collect();
    assert_eq!(offsets, vec![0, 8, 16]);
    assert_eq!(a.whole.size % a.whole.align, 0);
    for f in &a.fields {
        assert!(f.offset + f.layout.size <= a.whole.size);
        assert_eq!(f.offset % f.layout.align, 0);
    }
}

#[test]
fn physical_order_packs_without_padding() {
    let leaves = vec![Some(leaf(1, 1, 0)), Some(leaf(8, 8, 0)), Some(leaf(2, 2, 0))];
    let a = place_struct(&leaves, &vec![1, 2, 0]).unwrap();
    assert_eq!(a.whole.size, 16);
    assert_eq!(a.fields[0], placed(1, 0, 8, 8));
    assert_eq!(a.fields[1], placed(2, 8, 2, 2));
    assert_eq!(a.fields[2], placed(0, 10, 1, 1));
}

#[test]
fn empty_struct_is_zero_sized() {
    let a = place_struct(&Vec::new(), &Vec::new()).unwrap();
    assert_eq!(a.whole, leaf(0, 1, 0));
    assert!(a.fields.is_empty());
}

#[test]
fn malformed_order_or_unknown_field_gives_no_layout() {
    let leaves = vec![Some(leaf(4, 4, 0)), Some(leaf(4, 4, 0))];
    assert!(place_struct(&leaves, &vec![0, 0]).is_none());
    assert!(place_struct(&leaves, &vec![0]).is_none());
    assert!(place_struct(&leaves, &vec![0, 2]).is_none());
    assert!(place_struct(&vec![Some(leaf(4, 4, 0)), None], &vec![0, 1]).is_none());
    assert!(place_struct(&vec![Some(leaf(4, 0, 0))], &vec![0]).is_none());
    assert!(check_order(&vec![1, 0, 2], 3));
    assert!(!check_order(&vec![1, 1, 2], 3));
}

#[test]
fn size_beyond_64_bits_gives_no_layout() {
    let leaves = vec![Some(leaf(u64::MAX, 1, 0)), Some(leaf(1, 1, 0))];
    assert!(place_struct(&leaves, &vec![0, 1]).is_none());
    let big = vec![Some(leaf(u64::MAX - 1, 1, 0)), Some(leaf(1, 4, 0))];
    assert!(place_union(&big).is_none());
    let fits = vec![Some(leaf(u64::MAX - 3, 1, 0)), Some(leaf(1, 4, 0))];
    assert_eq!(place_union(&fits).unwrap().whole.size, u64::MAX - 3);
}

#[test]
fn union_fields_all_start_at_zero() {
    let leaves = vec![Some(leaf(1, 1, 254)), Some(leaf(6, 2, 0))];
    let a = place_union(&leaves).unwrap();
    assert_eq!(a.whole, leaf(6, 2, 0));
    assert_eq!(a.fields, vec![PlacedField { index: 0, offset: 0, layout: leaf(1, 1, 254) }, placed(1, 0, 6, 2)]);
}

#[test]
fn declaration_order_survives_physical_reordering() {
    let fields = vec![
        plain_field("a", TypeRef::Prim(0), "i32"),
        plain_field("b", TypeRef::Prim(1), "&str"),
        plain_field("c", TypeRef::Prim(0), "i32"),
    ];
    let ctx = ctx_of(vec![plain_definition("S", TypeKind::Struct, fields)], vec![Some(vec![1, 0, 2])]);
    let a = aggregate_layout(&ctx, 0, &Vec::new()).unwrap();
    assert_eq!(a.whole, leaf(24, 8, 1));
    let shown = reconcile(&a.fields, 3);
    let offsets: Vec<u64> = shown.iter().map(|f| f.unwrap().offset).collect();
    assert_eq!(offsets, vec![16, 0, 20]);
    let indices: Vec<usize> = shown.iter().map(|f| f.unwrap().index).collect();
    assert_eq!(indices, vec![0, 1, 2]);
    assert_eq!(find_placed(&a.fields, 5), None);

    let cfg = HoverConfig {
        links_in_hover: false,
        memory_layout: Some(only(Some(MemoryLayoutHoverRenderKind::Both), false, false)),
        documentation: false,
        format: HoverDocFormat::PlainText,
        keywords: false,
    };
    let t = HoverTarget { range: TextRange { start: 0, end: 1 }, def: 0, supplied: Vec::new() };
    let r = hover(&ctx, &cfg, &Some(t)).unwrap();
    assert_eq!(
        text(&r.markup),
        "struct S\n\na: i32, // offset = 16 (+0)\nb: &str, // offset = 0 (-16)\nc: i32, // offset = 20 (+20)\n"
    );
}

#[test]
fn relative_offsets_start_at_zero_and_add_up() {
    let entries = vec![facts(4, 4, 4), facts(8, 8, 8), facts(16, 2, 2)];
    let anns = field_annotations(&only(Some(MemoryLayoutHoverRenderKind::Relative), false, false), &entries, false);
    let shown: Vec<String> = anns.iter().map(|a| text(a.as_ref().unwrap())).collect();
    assert_eq!(shown, vec!["offset = +0", "offset = +4", "offset = +8"]);
    let deltas: Vec<i64> = shown.iter().map(|s| s["offset = ".len()..].parse::<i64>().unwrap()).collect();
    assert_eq!(deltas[0], 0);
    let last = entries[2].offset.unwrap() as i64;
    let first = entries[0].offset.unwrap() as i64;
    assert_eq!(deltas.iter().sum::<i64>(), last - first);
}

#[test]
fn each_mode_renders_as_described() {
    let f = facts(4, 4, 4);
    let prev = Some(Some(0));
    let exact = field_annotation(&only(Some(MemoryLayoutHoverRenderKind::Exact), true, true), f, prev, false);
    assert_eq!(text(&exact.unwrap()), "size = 4, align = 4, offset = 4");
    let both = field_annotation(&only(Some(MemoryLayoutHoverRenderKind::Both), false, false), f, prev, false);
    assert_eq!(text(&both.unwrap()), "offset = 4 (+4)");
    assert!(field_annotation(&only(None, false, false), f, prev, false).is_none());
    let unknown = FieldFacts { offset: None, layout: None };
    let unknown = field_annotation(&only(Some(MemoryLayoutHoverRenderKind::Both), true, false), unknown, prev, false);
    assert_eq!(text(&unknown.unwrap()), "size = ?, offset = ? (?)");
    let unplaced = FieldFacts { offset: None, layout: Some(leaf(4, 4, 0)) };
    let unplaced = field_annotation(&only(Some(MemoryLayoutHoverRenderKind::Both), true, true), unplaced, None, false);
    assert_eq!(text(&unplaced.unwrap()), "size = 4, align = 4, offset = ? (+0)");
    let whole = whole_annotation(
        &MemoryLayoutHoverConfig { niches: true, ..only(None, true, true) },
        Some(16),
        Some(8),
        Some(3),
        false,
    );
    assert_eq!(text(&whole.unwrap()), "size = 16, align = 8, niches = 3");
}

#[test]
fn union_never_shows_relative_offsets() {
    let s = test3();
    for mode in [MemoryLayoutHoverRenderKind::Relative, MemoryLayoutHoverRenderKind::Both] {
        let cfg = HoverConfig {
            links_in_hover: false,
            memory_layout: Some(MemoryLayoutHoverConfig { niches: true, ..only(Some(mode), false, false) }),
            documentation: false,
            format: HoverDocFormat::PlainText,
            keywords: false,
        };
        let r = hover(&s.ctx, &cfg, &Some(s.target.clone())).unwrap();
        assert_eq!(text(&r.markup), "union TestUnion\n\na: i32, // offset = 0\nb: i32, // offset = 0\n");
    }
}

fn config_exact(niches: bool) -> HoverConfig {
    HoverConfig {
        links_in_hover: false,
        memory_layout: Some(MemoryLayoutHoverConfig {
            niches,
            ..only(Some(MemoryLayoutHoverRenderKind::Both), true, true)
        }),
        documentation: false,
        format: HoverDocFormat::PlainText,
        keywords: false,
    }
}

#[test]
fn union_with_unknown_layout_keeps_offsets_at_zero() {
    let fields = vec![plain_field("a", TypeRef::Prim(0), "i32"), plain_field("b", TypeRef::Param(0), "T")];
    let mut d = plain_definition("U", TypeKind::Union, fields);
    d.generics = vec![chars_of("T")];
    let ctx = ctx_of(vec![d], Vec::new());
    let t = HoverTarget { range: TextRange { start: 0, end: 1 }, def: 0, supplied: vec![Some(TypeRef::Prim(0)), None] };
    let r = hover(&ctx, &config_exact(true), &Some(t)).unwrap();
    assert_eq!(
        text(&r.markup),
        "union U<T> // size = ?, align = ?\n\na: i32, // size = 4, align = 4, offset = 0\nb: T, // size = ?, align = ?, offset = 0\n"
    );
}

fn generic_enum() -> TypeDefinition {
    let mut d = plain_definition("E", TypeKind::Enum, Vec::new());
    d.generics = vec![chars_of("T")];
    d.variants = vec![
        VariantDescriptor { name: chars_of("A"), fields: Vec::new() },
        VariantDescriptor { name: chars_of("B"), fields: vec![plain_field("", TypeRef::Param(0), "T")] },
    ];
    d
}

#[test]
fn generic_enum_with_unresolved_parameter_is_unknown() {
    let mut ctx = ctx_of(vec![generic_enum()], Vec::new());
    ctx.oracle.enums = vec![Some(leaf(8, 4, 0))];
    let t = HoverTarget { range: TextRange { start: 0, end: 1 }, def: 0, supplied: vec![None] };
    let r = hover(&ctx, &config_exact(true), &Some(t)).unwrap();
    assert_eq!(text(&r.markup), "enum E<T> // size = ?, align = ?, niches = ?\n\nA,\nB,\n");
    let t = HoverTarget { range: TextRange { start: 0, end: 1 }, def: 0, supplied: vec![Some(TypeRef::Prim(0))] };
    assert_eq!(resolve_substitution(&ctx.defs[0], &t.supplied), vec![Some(TypeRef::Prim(0))]);
    let r = hover(&ctx, &config_exact(true), &Some(t)).unwrap();
    assert_eq!(text(&r.markup), "enum E<T> // size = 8, align = 4, niches = 0\n\nA,\nB,\n");
}

#[test]
fn unresolved_generic_still_hovers_with_unknown_marks() {
    let fields = vec![plain_field("a", TypeRef::Prim(0), "i32"), plain_field("b", TypeRef::Param(0), "T")];
    let mut d = plain_definition("G", TypeKind::Struct, fields);
    d.generics = vec![chars_of("T")];
    let ctx = ctx_of(vec![d], Vec::new());
    let cfg = HoverConfig {
        links_in_hover: false,
        memory_layout: Some(only(Some(MemoryLayoutHoverRenderKind::Exact), true, false)),
        documentation: false,
        format: HoverDocFormat::PlainText,
        keywords: false,
    };
    let t = HoverTarget { range: TextRange { start: 0, end: 1 }, def: 0, supplied: vec![Some(TypeRef::Prim(0)), None] };
    let r = hover(&ctx, &cfg, &Some(t)).unwrap();
    assert_eq!(
        text(&r.markup),
        "struct G<T> // size = ?\n\na: i32, // size = 4, offset = ?\nb: T, // size = ?, offset = ?\n"
    );
}

#[test]
fn without_memory_layout_only_signature_and_docs_remain() {
    let mut s = test5();
    s.ctx.defs[0].docs = Some(chars_of("A test struct."));
    let cfg = HoverConfig {
        links_in_hover: true,
        memory_layout: None,
        documentation: true,
        format: HoverDocFormat::Markdown,
        keywords: true,
    };
    let r = hover(&s.ctx, &cfg, &Some(s.target.clone())).unwrap();
    assert_eq!(
        text(&r.markup),
        "```rust\npub(crate) struct TestStruct<'a, T>\n```\n\n```rust\n#[allow(unused)]\npub(super) a: i32,\nb: i32,\nc: &'a str,\nd: T,\n```\n\nA test struct."
    );
    let quiet = HoverConfig { documentation: false, ..cfg };
    let r = hover(&s.ctx, &quiet, &Some(s.target.clone())).unwrap();
    assert!(!text(&r.markup).contains("A test struct."));
}

#[test]
fn direct_self_containment_is_unknown_but_indirection_is_a_pointer() {
    let direct = plain_definition("List", TypeKind::Struct, vec![plain_field("next", TypeRef::Adt(0, 0), "List")]);
    let ctx = ctx_of(vec![direct], Vec::new());
    assert!(aggregate_layout(&ctx, 0, &Vec::new()).is_none());

    let boxed = plain_definition(
        "List",
        TypeKind::Struct,
        vec![plain_field("v", TypeRef::Prim(0), "i32"), plain_field("next", TypeRef::Indirect(0), "Box<List>")],
    );
    let ctx = ctx_of(vec![boxed], Vec::new());
    let a = aggregate_layout(&ctx, 0, &Vec::new()).unwrap();
    assert_eq!(a.whole, leaf(16, 8, 1));
    let mut path: Vec<usize> = Vec::new();
    assert_eq!(type_layout(&ctx, TypeRef::Indirect(0), &Vec::new(), &mut path), Some(leaf(8, 8, 1)));
    assert_eq!(type_layout(&ctx, TypeRef::Prim(9), &Vec::new(), &mut path), None);
    assert!(path.is_empty());
}

#[test]
fn nested_struct_contributes_its_whole_layout() {
    let inner = plain_definition("Inner", TypeKind::Struct, vec![plain_field("s", TypeRef::Prim(1), "&str")]);
    let outer = plain_definition(
        "Outer",
        TypeKind::Struct,
        vec![plain_field("x", TypeRef::Prim(0), "i32"), plain_field("i", TypeRef::Adt(1, 0), "Inner")],
    );
    let ctx = ctx_of(vec![outer, inner], Vec::new());
    let a = aggregate_layout(&ctx, 0, &Vec::new()).unwrap();
    assert_eq!(a.whole, leaf(24, 8, 1));
    assert_eq!(a.fields[1], PlacedField { index: 1, offset: 8, layout: leaf(16, 8, 1) });
}

#[test]
fn nested_definition_gets_its_own_arguments() {
    // struct Inner<U> { x: U }  struct Outer<T> { t: T, i: Inner<T>, s: Inner<&str> }
    let mut inner = plain_definition("Inner", TypeKind::Struct, vec![plain_field("x", TypeRef::Param(0), "U")]);
    inner.generics = vec![chars_of("U")];
    let mut outer = plain_definition(
        "Outer",
        TypeKind::Struct,
        vec![
            plain_field("t", TypeRef::Param(0), "T"),
            plain_field("i", TypeRef::Adt(1, 0), "Inner<T>"),
            plain_field("s", TypeRef::Adt(1, 1), "Inner<&str>"),
        ],
    );
    outer.generics = vec![chars_of("T")];
    let mut ctx = ctx_of(vec![outer, inner], Vec::new());
    ctx.args = vec![vec![TypeRef::Param(0)], vec![TypeRef::Prim(1)]];
    let a = aggregate_layout(&ctx, 0, &vec![Some(TypeRef::Prim(0))]).unwrap();
    assert_eq!(a.whole, leaf(24, 8, 1));
    assert_eq!(a.fields[1], PlacedField { index: 1, offset: 4, layout: leaf(4, 4, 0) });
    assert_eq!(a.fields[2], PlacedField { index: 2, offset: 8, layout: leaf(16, 8, 1) });
    assert!(aggregate_layout(&ctx, 0, &vec![None]).is_none());
}

#[test]
fn substitution_needs_agreement() {
    let fields = vec![
        plain_field("a", TypeRef::Param(0), "T"),
        plain_field("b", TypeRef::Param(0), "T"),
        plain_field("c", TypeRef::Param(1), "U"),
    ];
    let mut d = plain_definition("P", TypeKind::Struct, fields);
    d.generics = vec![chars_of("T"), chars_of("U"), chars_of("V")];
    let agree = vec![Some(TypeRef::Prim(0)), Some(TypeRef::Prim(0)), Some(TypeRef::Param(0))];
    assert_eq!(resolve_substitution(&d, &agree), vec![Some(TypeRef::Prim(0)), None, None]);
    let differ = vec![Some(TypeRef::Prim(0)), Some(TypeRef::Prim(1)), Some(TypeRef::Adt(3, 0))];
    assert_eq!(resolve_substitution(&d, &differ), vec![None, Some(TypeRef::Adt(3, 0)), None]);
}

#[test]
fn decimal_and_literal_text() {
    let mut out: Vec<char> = Vec::new();
    push_dec(&mut out, 0);
    push_str(&mut out, " ");
    push_dec(&mut out, 1234567890);
    push_str(&mut out, " ");
    push_dec(&mut out, u64::MAX);
    assert_eq!(text(&out), "0 1234567890 18446744073709551615");
    assert_eq!(chars_of("ab"), vec!['a', 'b']);
}

#[test]
fn plain_field_keeps_what_it_is_given() {
    let f: FieldDescriptor = plain_field("x", TypeRef::Prim(0), "i32");
    assert_eq!(text(&f.name), "x");
    assert_eq!(f.visibility, Visibility::Private);
}
