use std::collections::HashMap;

use rlsl::builder::StorageClass;
use rlsl::context::HirNode;
use rlsl::context::SpirvCtx;
use rlsl::context::TyCtxt;
use rlsl::layout::discr_of;
use rlsl::layout::EnumLayout;
use rlsl::mono::MirContext;
use rlsl::ty::AdtKind;
use rlsl::ty::DefId;
use rlsl::ty::FieldDef;
use rlsl::ty::FloatTy;
use rlsl::ty::IntTy;
use rlsl::ty::IntrinsicType;
use rlsl::ty::Mutability;
use rlsl::ty::Ty;
use rlsl::ty::UintTy;
use rlsl::ty::VariantDef;

fn def(index: u32) -> DefId {
    DefId { krate: 0, index }
}

fn plain() -> MirContext {
    MirContext { def_id: def(0), substs: vec![] }
}

fn item(name: &str) -> HirNode {
    HirNode::Item { name: name.to_string(), attrs: vec![] }
}

fn context(nodes: Vec<(DefId, HirNode)>) -> SpirvCtx {
    let mut map = HashMap::new();
    for (did, node) in nodes {
        map.insert(did.key(), node);
    }
    SpirvCtx::new(TyCtxt { nodes: map, layouts: vec![] })
}

fn field(name: &str, ty: Ty) -> FieldDef {
    FieldDef { name: name.to_string(), ty }
}

fn structure(did: DefId, fields: Vec<FieldDef>) -> Ty {
    Ty::Adt { did, substs: vec![], kind: AdtKind::Struct { intrinsic: None, fields } }
}

fn tuple(items: Vec<Ty>) -> Ty {
    Ty::Tuple(items, false)
}

fn u32_ty() -> Ty {
    Ty::Uint(UintTy::U32)
}

fn f32_ty() -> Ty {
    Ty::Float(FloatTy::F32)
}

fn lower(ctx: &mut SpirvCtx, ty: &Ty) -> u32 {
    ctx.to_ty(ty, &plain(), StorageClass::Function).word
}

/// The instructions behind the header and the declarations that every module
/// starts with, in the words of the binary.
fn emitted(ctx: SpirvCtx) -> Vec<u32> {
    let bytes = ctx.build_module().unwrap();
    assert_eq!(bytes.len() % 4, 0);
    let words: Vec<u32> = bytes
        .chunks(4)
        .map(|b| u32::from_le_bytes([b[0], b[1], b[2], b[3]]))
        .collect();
    words[16..].to_vec()
}

fn op(opcode: u32, operands: &[u32]) -> Vec<u32> {
    let mut words = vec![((operands.len() as u32 + 1) << 16) | opcode];
    words.extend_from_slice(operands);
    words
}

fn text(s: &str) -> Vec<u32> {
    let mut bytes = s.as_bytes().to_vec();
    bytes.push(0);
    while bytes.len() % 4 != 0 {
        bytes.push(0);
    }
    bytes.chunks(4).map(|b| u32::from_le_bytes([b[0], b[1], b[2], b[3]])).collect()
}

fn op_name(target: u32, name: &str) -> Vec<u32> {
    let mut operands = vec![target];
    operands.extend(text(name));
    op(5, &operands)
}

fn op_member_name(target: u32, member: u32, name: &str) -> Vec<u32> {
    let mut operands = vec![target, member];
    operands.extend(text(name));
    op(6, &operands)
}

#[test]
fn first_type_gets_the_id_after_the_import() {
    let mut ctx = context(vec![]);
    assert_eq!(lower(&mut ctx, &Ty::Bool), 2);
    assert_eq!(emitted(ctx), op(20, &[2]));
}

#[test]
fn signed_integers_have_their_width() {
    let mut ctx = context(vec![]);
    assert_eq!(lower(&mut ctx, &Ty::Int(IntTy::I8)), 2);
    assert_eq!(lower(&mut ctx, &Ty::Int(IntTy::I16)), 3);
    assert_eq!(lower(&mut ctx, &Ty::Int(IntTy::I32)), 4);
    assert_eq!(lower(&mut ctx, &Ty::Int(IntTy::I64)), 5);
    assert_eq!(lower(&mut ctx, &Ty::Int(IntTy::I128)), 6);
    assert_eq!(
        emitted(ctx),
        [
            op(21, &[2, 8, 1]),
            op(21, &[3, 16, 1]),
            op(21, &[4, 32, 1]),
            op(21, &[5, 64, 1]),
            op(21, &[6, 128, 1]),
        ]
        .concat()
    );
}

#[test]
fn unsigned_integers_have_their_width() {
    let mut ctx = context(vec![]);
    assert_eq!(lower(&mut ctx, &Ty::Uint(UintTy::U8)), 2);
    assert_eq!(lower(&mut ctx, &Ty::Uint(UintTy::U16)), 3);
    assert_eq!(lower(&mut ctx, &u32_ty()), 4);
    assert_eq!(lower(&mut ctx, &Ty::Uint(UintTy::U64)), 5);
    assert_eq!(lower(&mut ctx, &Ty::Uint(UintTy::U128)), 6);
    assert_eq!(
        emitted(ctx),
        [
            op(21, &[2, 8, 0]),
            op(21, &[3, 16, 0]),
            op(21, &[4, 32, 0]),
            op(21, &[5, 64, 0]),
            op(21, &[6, 128, 0]),
        ]
        .concat()
    );
}

#[test]
fn pointer_sized_integers_have_32_bits_and_types_of_their_own() {
    let mut ctx = context(vec![]);
    assert_eq!(lower(&mut ctx, &Ty::Int(IntTy::Isize)), 2);
    assert_eq!(lower(&mut ctx, &Ty::Int(IntTy::I32)), 3);
    assert_eq!(lower(&mut ctx, &Ty::Uint(UintTy::Usize)), 4);
    assert_eq!(
        emitted(ctx),
        [op(21, &[2, 32, 1]), op(21, &[3, 32, 1]), op(21, &[4, 32, 0])].concat()
    );
}

#[test]
fn a_type_is_emitted_once() {
    let mut ctx = context(vec![]);
    let pair = tuple(vec![u32_ty(), u32_ty()]);
    assert_eq!(lower(&mut ctx, &pair), 3);
    assert_eq!(lower(&mut ctx, &pair), 3);
    assert_eq!(lower(&mut ctx, &u32_ty()), 2);
    assert_eq!(emitted(ctx), [op(21, &[2, 32, 0]), op(30, &[3, 2, 2])].concat());
}

#[test]
fn the_cache_knows_the_types_lowered() {
    let mut ctx = context(vec![]);
    assert!(ctx.ty_cache.get(&Ty::Bool).is_none());
    let id = lower(&mut ctx, &Ty::Bool);
    assert_eq!(ctx.ty_cache.get(&Ty::Bool).map(|ty| ty.word), Some(id));
    assert!(ctx.ty_cache.get(&u32_ty()).is_none());
}

#[test]
fn the_storage_class_has_no_influence() {
    let mut ctx = context(vec![]);
    let pointer = Ty::RawPtr { ty: Box::new(Ty::Bool), mutbl: Mutability::Mutable };
    assert_eq!(ctx.to_ty(&pointer, &plain(), StorageClass::Uniform).word, 3);
    assert_eq!(ctx.to_ty(&pointer, &plain(), StorageClass::Input).word, 3);
    assert_eq!(emitted(ctx), [op(20, &[2]), op(32, &[3, 7, 2])].concat());
}

#[test]
fn references_are_mutable_pointers() {
    let mut ctx = context(vec![]);
    let shared = Ty::Ref { ty: Box::new(f32_ty()), mutbl: Mutability::Immutable };
    let unique = Ty::Ref { ty: Box::new(f32_ty()), mutbl: Mutability::Mutable };
    let pointer = Ty::RawPtr { ty: Box::new(f32_ty()), mutbl: Mutability::Mutable };
    assert_eq!(lower(&mut ctx, &shared), 3);
    assert_eq!(lower(&mut ctx, &unique), 3);
    assert_eq!(lower(&mut ctx, &pointer), 3);
    assert_eq!(ctx.to_ty_as_ptr(&f32_ty(), &plain(), StorageClass::Function).word, 3);
    assert_eq!(emitted(ctx), [op(22, &[2, 32]), op(32, &[3, 7, 2])].concat());
}

#[test]
fn a_constant_pointer_has_a_type_of_its_own() {
    let mut ctx = context(vec![]);
    let constant = Ty::RawPtr { ty: Box::new(f32_ty()), mutbl: Mutability::Immutable };
    assert_eq!(lower(&mut ctx, &constant), 3);
    assert_eq!(ctx.to_ty_as_ptr(&f32_ty(), &plain(), StorageClass::Function).word, 4);
    assert_eq!(
        emitted(ctx),
        [op(22, &[2, 32]), op(32, &[3, 7, 2]), op(32, &[4, 7, 2])].concat()
    );
}

#[test]
fn the_unit_type_is_void() {
    let mut ctx = context(vec![]);
    assert_eq!(lower(&mut ctx, &tuple(vec![])), 2);
    assert_eq!(emitted(ctx), op(19, &[2]));
}

#[test]
fn the_never_type_is_zero_and_emits_nothing() {
    let mut ctx = context(vec![]);
    assert_eq!(lower(&mut ctx, &Ty::Never), 0);
    assert_eq!(ctx.ty_cache.get(&Ty::Never).map(|ty| ty.word), Some(0));
    assert_eq!(lower(&mut ctx, &Ty::Bool), 2);
    assert_eq!(emitted(ctx), op(20, &[2]));
}

#[test]
fn a_function_pointer_lowers_its_result_first() {
    let mut ctx = context(vec![]);
    let function = Ty::FnPtr { tag: 0, inputs: vec![u32_ty(), f32_ty()], output: Box::new(Ty::Bool) };
    assert_eq!(lower(&mut ctx, &function), 5);
    assert_eq!(
        emitted(ctx),
        [op(20, &[2]), op(21, &[3, 32, 0]), op(22, &[4, 32]), op(33, &[5, 2, 3, 4])].concat()
    );
}

#[test]
fn a_structure_is_named_with_its_members() {
    let mut ctx = context(vec![(def(1), item("Point"))]);
    let point = structure(def(1), vec![field("x", f32_ty()), field("longer", u32_ty())]);
    assert_eq!(lower(&mut ctx, &point), 4);
    assert_eq!(
        emitted(ctx),
        [
            op_member_name(4, 0, "x"),
            op_member_name(4, 1, "longer"),
            op_name(4, "Point"),
            op(22, &[2, 32]),
            op(21, &[3, 32, 0]),
            op(30, &[4, 2, 3]),
        ]
        .concat()
    );
}

#[test]
fn a_structure_of_another_crate_has_no_name_of_its_own() {
    let mut ctx = context(vec![(def(1), item("Point"))]);
    let far = structure(DefId { krate: 1, index: 1 }, vec![field("x", Ty::Bool)]);
    assert_eq!(lower(&mut ctx, &far), 3);
    assert_eq!(
        emitted(ctx),
        [op_member_name(3, 0, "x"), op(20, &[2]), op(30, &[3, 2])].concat()
    );
}

#[test]
fn without_debug_symbols_nothing_is_named() {
    let mut ctx = context(vec![(def(1), item("Point"))]);
    ctx.debug_symbols = false;
    let point = structure(def(1), vec![field("x", f32_ty())]);
    assert_eq!(lower(&mut ctx, &point), 3);
    assert_eq!(emitted(ctx), [op(22, &[2, 32]), op(30, &[3, 2])].concat());
}

#[test]
fn names_make_no_difference_to_ids() {
    let ty = || {
        tuple(vec![
            structure(def(1), vec![field("x", f32_ty())]),
            structure(def(2), vec![field("y", u32_ty())]),
        ])
    };
    let mut with = context(vec![(def(1), item("A")), (def(2), item("B"))]);
    let mut without = context(vec![]);
    without.debug_symbols = false;
    assert_eq!(lower(&mut with, &ty()), lower(&mut without, &ty()));
    let without = emitted(without);
    let with = emitted(with);
    assert_eq!(with[with.len() - without.len()..].to_vec(), without);
}

#[test]
fn a_structure_without_fields_has_no_members() {
    let mut ctx = context(vec![]);
    assert_eq!(lower(&mut ctx, &structure(def(1), vec![])), 2);
    assert_eq!(emitted(ctx), op(30, &[2]));
}

#[test]
fn structures_with_different_definitions_are_different() {
    let mut ctx = context(vec![]);
    ctx.debug_symbols = false;
    assert_eq!(lower(&mut ctx, &structure(def(1), vec![field("x", Ty::Bool)])), 3);
    assert_eq!(lower(&mut ctx, &structure(def(2), vec![field("x", Ty::Bool)])), 4);
    assert_eq!(emitted(ctx), [op(20, &[2]), op(30, &[3, 2]), op(30, &[4, 2])].concat());
}

#[test]
fn an_intrinsic_structure_is_a_vector_of_its_first_field() {
    let mut ctx = context(vec![(def(1), item("Vec3"))]);
    let vector = Ty::Adt {
        did: def(1),
        substs: vec![f32_ty()],
        kind: AdtKind::Struct {
            intrinsic: Some(IntrinsicType::Vec(3)),
            fields: vec![field("x", f32_ty()), field("y", u32_ty())],
        },
    };
    assert_eq!(lower(&mut ctx, &vector), 3);
    assert_eq!(emitted(ctx), [op(22, &[2, 32]), op(23, &[3, 2, 3])].concat());
}

#[test]
fn an_enumeration_holds_its_variants_and_its_discriminant() {
    let mut ctx = context(vec![
        (def(5), item("Shape")),
        (def(6), HirNode::Other { name: "Dot".to_string() }),
    ]);
    let shape = Ty::Adt {
        did: def(5),
        substs: vec![],
        kind: AdtKind::Enum {
            variants: vec![
                VariantDef { did: def(6), fields: vec![field("v", u32_ty())] },
                VariantDef {
                    did: def(7),
                    fields: vec![field("a", Ty::Bool), field("b", u32_ty())],
                },
            ],
        },
    };
    ctx.tcx.layouts.push(EnumLayout { ty: shape.clone(), discr: UintTy::U8 });
    assert_eq!(lower(&mut ctx, &shape), 7);
    assert_eq!(
        emitted(ctx),
        [
            op_member_name(4, 0, "v"),
            op_name(4, "Dot"),
            op_member_name(6, 0, "a"),
            op_member_name(6, 1, "b"),
            op_member_name(7, 0, "v"),
            op_member_name(7, 1, "a"),
            op_member_name(7, 2, "b"),
            op_name(7, "Shape"),
            op(21, &[2, 8, 0]),
            op(21, &[3, 32, 0]),
            op(30, &[4, 3]),
            op(20, &[5]),
            op(30, &[6, 5, 3]),
            op(30, &[7, 4, 6, 2]),
        ]
        .concat()
    );
}

#[test]
fn type_parameters_stand_for_the_types_of_the_context() {
    let mut ctx = context(vec![]);
    let mtx = MirContext { def_id: def(0), substs: vec![Ty::Bool, f32_ty()] };
    let ty = tuple(vec![Ty::Param(1), Ty::Param(0), Ty::Param(1)]);
    assert_eq!(ctx.to_ty(&ty, &mtx, StorageClass::Function).word, 4);
    assert_eq!(lower(&mut ctx, &tuple(vec![f32_ty(), Ty::Bool, f32_ty()])), 4);
    assert_eq!(
        emitted(ctx),
        [op(22, &[2, 32]), op(20, &[3]), op(30, &[4, 2, 3, 2])].concat()
    );
}

#[test]
fn monomorphizing_reaches_every_part() {
    let mtx = MirContext { def_id: def(0), substs: vec![Ty::Bool, f32_ty()] };
    let generic = |a: fn() -> Ty, b: fn() -> Ty| {
        Ty::FnPtr {
            tag: 1,
            inputs: vec![
                Ty::Ref { ty: Box::new(a()), mutbl: Mutability::Immutable },
                Ty::RawPtr { ty: Box::new(b()), mutbl: Mutability::Mutable },
                Ty::Adt {
                    did: def(1),
                    substs: vec![a()],
                    kind: AdtKind::Struct { intrinsic: None, fields: vec![field("x", a())] },
                },
            ],
            output: Box::new(Ty::Adt {
                did: def(2),
                substs: vec![b()],
                kind: AdtKind::Enum {
                    variants: vec![VariantDef { did: def(3), fields: vec![field("y", b())] }],
                },
            }),
        }
    };
    let before = generic(|| Ty::Param(0), || Ty::Param(1));
    let after = generic(|| Ty::Bool, f32_ty);
    let mono = mtx.monomorphize(&before);
    assert!(mono.same(&after));
    assert!(!before.same(&after));
    assert!(mtx.monomorphize(&mono).same(&mono));
    assert!(before.has_params_below(2));
    assert!(!before.has_params_below(1));
    assert!(mono.has_params_below(0));
}

fn other(parts: Vec<Ty>) -> Ty {
    Ty::Other { tag: 3, parts }
}

#[test]
fn types_without_a_spirv_form_are_told() {
    let none = vec![];
    assert!(Ty::Never.is_supported(&none));
    assert!(tuple(vec![Ty::Bool, f32_ty()]).is_supported(&none));
    assert!(!Ty::Float(FloatTy::F64).is_supported(&none));
    assert!(!Ty::Param(0).is_supported(&none));
    assert!(!other(vec![Ty::Bool]).is_supported(&none));
    assert!(!tuple(vec![Ty::Bool, other(vec![])]).is_supported(&none));
    let adt = |kind| Ty::Adt { did: def(1), substs: vec![], kind };
    assert!(!adt(AdtKind::Union).is_supported(&none));
    let vector = |fields| {
        adt(AdtKind::Struct { intrinsic: Some(IntrinsicType::Vec(2)), fields })
    };
    assert!(!vector(vec![]).is_supported(&none));
    assert!(vector(vec![field("x", f32_ty()), field("y", other(vec![]))]).is_supported(&none));
    assert!(!vector(vec![field("x", other(vec![]))]).is_supported(&none));
}

/// An enumeration with one variant that holds a value of its type argument.
fn holder(ty: fn() -> Ty) -> Ty {
    Ty::Adt {
        did: def(5),
        substs: vec![ty()],
        kind: AdtKind::Enum {
            variants: vec![VariantDef { did: def(6), fields: vec![field("value", ty())] }],
        },
    }
}

#[test]
fn only_enumerations_with_a_discriminant_can_be_lowered() {
    let small = holder(|| Ty::Uint(UintTy::U8));
    let large = holder(|| Ty::Uint(UintTy::U64));
    let layouts = vec![EnumLayout { ty: small.clone(), discr: UintTy::U16 }];
    assert_eq!(discr_of(&layouts, &small), Some(UintTy::U16));
    assert_eq!(discr_of(&layouts, &large), None);
    assert!(small.is_supported(&layouts));
    assert!(!large.is_supported(&layouts));
    assert!(!tuple(vec![large]).is_supported(&layouts));
    assert!(!small.is_supported(&vec![]));
}

#[test]
fn the_layout_is_that_of_the_monomorphized_enumeration() {
    let mut ctx = context(vec![]);
    ctx.debug_symbols = false;
    let small = holder(|| Ty::Uint(UintTy::U8));
    let large = holder(|| Ty::Uint(UintTy::U64));
    ctx.tcx.layouts.push(EnumLayout { ty: small, discr: UintTy::U8 });
    ctx.tcx.layouts.push(EnumLayout { ty: large, discr: UintTy::U32 });
    let generic = holder(|| Ty::Param(0));
    let with = |ty| MirContext { def_id: def(0), substs: vec![ty] };
    let small_mtx = with(Ty::Uint(UintTy::U8));
    let large_mtx = with(Ty::Uint(UintTy::U64));
    assert_eq!(ctx.to_ty(&generic, &small_mtx, StorageClass::Function).word, 4);
    assert_eq!(ctx.to_ty(&generic, &large_mtx, StorageClass::Function).word, 8);
    assert_eq!(ctx.to_ty(&generic, &small_mtx, StorageClass::Function).word, 4);
    assert_eq!(
        emitted(ctx),
        [
            op(21, &[2, 8, 0]),
            op(30, &[3, 2]),
            op(30, &[4, 3, 2]),
            op(21, &[5, 32, 0]),
            op(21, &[6, 64, 0]),
            op(30, &[7, 6]),
            op(30, &[8, 7, 5]),
        ]
        .concat()
    );
}

#[test]
fn the_later_of_two_layouts_counts() {
    let ty = holder(|| Ty::Bool);
    let layouts = vec![
        EnumLayout { ty: ty.clone(), discr: UintTy::U8 },
        EnumLayout { ty: ty.clone(), discr: UintTy::U32 },
    ];
    assert_eq!(discr_of(&layouts, &ty), Some(UintTy::U32));
}

#[test]
fn type_arguments_that_are_not_lowered_set_types_apart() {
    let mut ctx = context(vec![]);
    ctx.debug_symbols = false;
    let phantom = Ty::Adt {
        did: def(1),
        substs: vec![other(vec![Ty::Param(0)])],
        kind: AdtKind::Struct { intrinsic: None, fields: vec![] },
    };
    let with = |ty| MirContext { def_id: def(0), substs: vec![ty] };
    assert_eq!(ctx.to_ty(&phantom, &with(u32_ty()), StorageClass::Function).word, 2);
    assert_eq!(ctx.to_ty(&phantom, &with(Ty::Bool), StorageClass::Function).word, 3);
    assert_eq!(ctx.to_ty(&phantom, &with(u32_ty()), StorageClass::Function).word, 2);
    assert!(!phantom.has_params_below(0));
    assert_eq!(emitted(ctx), [op(30, &[2]), op(30, &[3])].concat());
}

#[test]
fn no_reference_is_remembered() {
    let mut ctx = context(vec![]);
    let inner = || Ty::Ref { ty: Box::new(Ty::Bool), mutbl: Mutability::Immutable };
    lower(&mut ctx, &tuple(vec![inner()]));
    assert!(ctx.ty_cache.get(&inner()).is_none());
    let pointer = Ty::RawPtr { ty: Box::new(Ty::Bool), mutbl: Mutability::Mutable };
    assert_eq!(ctx.ty_cache.get(&pointer).map(|ty| ty.word), Some(3));
}

#[test]
fn the_never_type_is_used_without_a_declaration() {
    let mut ctx = context(vec![]);
    assert_eq!(lower(&mut ctx, &tuple(vec![Ty::Never, Ty::Bool])), 3);
    assert_eq!(emitted(ctx), [op(20, &[2]), op(30, &[3, 0, 2])].concat());
}

#[test]
fn definitions_have_keys_of_their_own() {
    assert_eq!(DefId { krate: 2, index: 7 }.key(), 0x2_0000_0007);
    assert_ne!(DefId { krate: 1, index: 0 }.key(), DefId { krate: 0, index: 1 }.key());
}

#[test]
fn types_are_declared_before_they_are_used() {
    let mut ctx = context(vec![]);
    ctx.debug_symbols = false;
    let point = || structure(def(1), vec![field("x", f32_ty()), field("y", f32_ty())]);
    let ty = Ty::FnPtr {
        tag: 0,
        inputs: vec![
            Ty::Ref { ty: Box::new(point()), mutbl: Mutability::Immutable },
            tuple(vec![Ty::Bool, point()]),
        ],
        output: Box::new(u32_ty()),
    };
    lower(&mut ctx, &ty);
    let words = emitted(ctx);
    let mut at = 0;
    let mut next = 2;
    while at < words.len() {
        let count = (words[at] >> 16) as usize;
        let inst = &words[at..at + count];
        assert_eq!(inst[1], next);
        let used = match inst[0] & 0xffff {
            30 | 33 => inst[2..].to_vec(),
            32 => vec![inst[3]],
            _ => vec![],
        };
        for id in used {
            assert!(1 < id && id < next);
        }
        next += 1;
        at += count;
    }
    assert_eq!(next, 9);
}

#[test]
fn a_type_takes_no_more_ids_than_it_has_parts() {
    let mut ctx = context(vec![]);
    let repeated = tuple(vec![Ty::Bool, Ty::Bool, tuple(vec![Ty::Bool])]);
    assert_eq!(lower(&mut ctx, &repeated), 4);
    let bytes = ctx.build_module().unwrap();
    assert_eq!(bytes[12..16].to_vec(), vec![5, 0, 0, 0]);
}

#[test]
fn function_pointers_of_different_kinds_are_different() {
    let mut ctx = context(vec![]);
    let function = |tag| Ty::FnPtr { tag, inputs: vec![u32_ty()], output: Box::new(Ty::Bool) };
    assert_eq!(lower(&mut ctx, &function(0)), 4);
    assert_eq!(lower(&mut ctx, &function(1)), 5);
    assert_eq!(lower(&mut ctx, &function(0)), 4);
    assert_eq!(
        emitted(ctx),
        [op(20, &[2]), op(21, &[3, 32, 0]), op(33, &[4, 2, 3]), op(33, &[5, 2, 3])].concat()
    );
}

#[test]
fn the_unit_type_of_what_never_returns_is_void_too() {
    let mut ctx = context(vec![]);
    assert_eq!(lower(&mut ctx, &Ty::Tuple(vec![], false)), 2);
    assert_eq!(lower(&mut ctx, &Ty::Tuple(vec![], true)), 3);
    assert_eq!(lower(&mut ctx, &Ty::Tuple(vec![], false)), 2);
    assert_eq!(emitted(ctx), [op(19, &[2]), op(19, &[3])].concat());
}

#[test]
fn a_type_is_emitted_once_whatever_comes_in_between() {
    let mut ctx = context(vec![]);
    assert_eq!(lower(&mut ctx, &Ty::Bool), 2);
    assert_eq!(ctx.constant_u32(1, &plain()).0, 4);
    assert_eq!(lower(&mut ctx, &f32_ty()), 5);
    assert_eq!(lower(&mut ctx, &Ty::Bool), 2);
    assert_eq!(ctx.constant_u32(1, &plain()).0, 4);
}
