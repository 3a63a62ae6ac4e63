use std::collections::HashMap;

use rlsl::builder::StorageClass;
use rlsl::constant::ConstFloat;
use rlsl::constant::ConstInt;
use rlsl::constant::SpirvConstVal;
use rlsl::context::BuildError;
use rlsl::context::SpirvCtx;
use rlsl::context::TyCtxt;
use rlsl::mono::MirContext;
use rlsl::single::truncate;
use rlsl::ty::DefId;
use rlsl::ty::FloatTy;
use rlsl::ty::IntTy;
use rlsl::ty::Ty;
use rlsl::ty::UintTy;

fn context() -> SpirvCtx {
    SpirvCtx::new(TyCtxt { nodes: HashMap::new(), layouts: vec![] })
}

fn plain() -> MirContext {
    MirContext { def_id: DefId { krate: 0, index: 0 }, substs: vec![] }
}

fn emitted(ctx: SpirvCtx) -> Vec<u32> {
    let bytes = ctx.build_module().unwrap();
    let words: Vec<u32> = bytes
        .chunks(4)
        .map(|b| u32::from_le_bytes([b[0], b[1], b[2], b[3]]))
        .collect();
    words[16..].to_vec()
}

#[test]
fn an_unsigned_constant_is_its_own_literal() {
    let mut ctx = context();
    assert_eq!(ctx.constant_u32(7, &plain()).0, 3);
    assert_eq!(emitted(ctx), vec![0x0004_0015, 2, 32, 0, 0x0004_002b, 2, 3, 7]);
}

#[test]
fn a_constant_is_emitted_once() {
    let mut ctx = context();
    assert_eq!(ctx.constant_u32(7, &plain()).0, 3);
    assert_eq!(ctx.constant_u32(8, &plain()).0, 4);
    assert_eq!(ctx.constant_u32(7, &plain()).0, 3);
    let seven = SpirvConstVal::Integer(ConstInt::U32(7));
    assert_eq!(ctx.constant(seven, &plain()).0, 3);
    assert_eq!(ctx.const_cache.get(seven).map(|val| val.0), Some(3));
    assert!(ctx.const_cache.get(SpirvConstVal::Integer(ConstInt::U32(9))).is_none());
    assert_eq!(
        emitted(ctx),
        vec![0x0004_0015, 2, 32, 0, 0x0004_002b, 2, 3, 7, 0x0004_002b, 2, 4, 8]
    );
}

#[test]
fn constants_of_different_types_are_different() {
    let mut ctx = context();
    assert_eq!(ctx.constant(SpirvConstVal::Integer(ConstInt::U32(1)), &plain()).0, 3);
    assert_eq!(ctx.constant(SpirvConstVal::Integer(ConstInt::I32(1)), &plain()).0, 5);
    assert_eq!(ctx.constant(SpirvConstVal::Integer(ConstInt::Usize(1)), &plain()).0, 7);
    assert_eq!(
        emitted(ctx),
        vec![
            0x0004_0015, 2, 32, 0, 0x0004_002b, 2, 3, 1,
            0x0004_0015, 4, 32, 1, 0x0004_002b, 4, 5, 1,
            0x0004_0015, 6, 32, 0, 0x0004_002b, 6, 7, 1,
        ]
    );
}

#[test]
fn a_constant_uses_the_type_lowered_before() {
    let mut ctx = context();
    ctx.to_ty(&Ty::Bool, &plain(), StorageClass::Function);
    let ty = ctx.to_ty(&Ty::Uint(UintTy::U32), &plain(), StorageClass::Function).word;
    assert_eq!(ty, 3);
    assert_eq!(ctx.constant_u32(5, &plain()).0, 4);
    assert_eq!(
        emitted(ctx),
        vec![0x0002_0014, 2, 0x0004_0015, 3, 32, 0, 0x0004_002b, 3, 4, 5]
    );
}

#[test]
fn a_signed_constant_is_its_low_word() {
    let mut ctx = context();
    assert_eq!(ctx.constant(SpirvConstVal::Integer(ConstInt::I32(-2)), &plain()).0, 3);
    assert_eq!(emitted(ctx), vec![0x0004_0015, 2, 32, 1, 0x0004_002b, 2, 3, 0xffff_fffe]);
}

#[test]
fn low_words_are_two_complement() {
    assert_eq!(ConstInt::I8(-1).low_word(), 0xffff_ffff);
    assert_eq!(ConstInt::I8(5).low_word(), 5);
    assert_eq!(ConstInt::I16(-32768).low_word(), 0xffff_8000);
    assert_eq!(ConstInt::I32(i32::MIN).low_word(), 0x8000_0000);
    assert_eq!(ConstInt::I64(-0x1_0000_0000).low_word(), 0);
    assert_eq!(ConstInt::I64(0x1_2345_6789).low_word(), 0x2345_6789);
    assert_eq!(ConstInt::I128(i128::MIN).low_word(), 0);
    assert_eq!(ConstInt::I128(-1).low_word(), 0xffff_ffff);
    assert_eq!(ConstInt::Isize(-7).low_word(), 0xffff_fff9);
    assert_eq!(ConstInt::U8(255).low_word(), 255);
    assert_eq!(ConstInt::U16(65535).low_word(), 65535);
    assert_eq!(ConstInt::U32(u32::MAX).low_word(), u32::MAX);
    assert_eq!(ConstInt::U64(0xdead_beef_0000_0001).low_word(), 1);
    assert_eq!(ConstInt::U128(u128::MAX).low_word(), u32::MAX);
    assert_eq!(ConstInt::Usize(0x1_0000_0002).low_word(), 2);
}

#[test]
fn every_integer_constant_has_its_type() {
    assert!(ConstInt::I8(0).int_type().same(&Ty::Int(IntTy::I8)));
    assert!(ConstInt::I16(0).int_type().same(&Ty::Int(IntTy::I16)));
    assert!(ConstInt::I32(0).int_type().same(&Ty::Int(IntTy::I32)));
    assert!(ConstInt::I64(0).int_type().same(&Ty::Int(IntTy::I64)));
    assert!(ConstInt::I128(0).int_type().same(&Ty::Int(IntTy::I128)));
    assert!(ConstInt::Isize(0).int_type().same(&Ty::Int(IntTy::Isize)));
    assert!(ConstInt::U8(0).int_type().same(&Ty::Uint(UintTy::U8)));
    assert!(ConstInt::U16(0).int_type().same(&Ty::Uint(UintTy::U16)));
    assert!(ConstInt::U32(0).int_type().same(&Ty::Uint(UintTy::U32)));
    assert!(ConstInt::U64(0).int_type().same(&Ty::Uint(UintTy::U64)));
    assert!(ConstInt::U128(0).int_type().same(&Ty::Uint(UintTy::U128)));
    assert!(ConstInt::Usize(0).int_type().same(&Ty::Uint(UintTy::Usize)));
}

fn single(number: f32) -> SpirvConstVal {
    SpirvConstVal::Float(ConstFloat::F32(number.to_bits()))
}

#[test]
fn a_single_precision_constant_keeps_its_integer_part() {
    let mut ctx = context();
    assert_eq!(ctx.constant(single(1.5), &plain()).0, 3);
    assert_eq!(ctx.constant(single(-2.75), &plain()).0, 4);
    assert_eq!(
        emitted(ctx),
        vec![
            0x0003_0016, 2, 32,
            0x0004_002b, 2, 3, 1.0f32.to_bits(),
            0x0004_002b, 2, 4, (-2.0f32).to_bits(),
        ]
    );
}

#[test]
fn constants_with_the_same_integer_part_are_different() {
    let mut ctx = context();
    assert_eq!(ctx.constant(single(0.25), &plain()).0, 3);
    assert_eq!(ctx.constant(single(-0.25), &plain()).0, 4);
    assert_eq!(ctx.constant(single(0.25), &plain()).0, 3);
    assert_eq!(
        emitted(ctx),
        vec![0x0003_0016, 2, 32, 0x0004_002b, 2, 3, 0, 0x0004_002b, 2, 4, 0]
    );
}

#[test]
fn bits_are_read_as_an_integer() {
    let mut ctx = context();
    assert_eq!(ctx.constant_f32(0, &plain()).0, 3);
    assert_eq!(ctx.constant_f32(1.0f32.to_bits(), &plain()).0, 4);
    assert_eq!(
        emitted(ctx),
        vec![
            0x0003_0016, 2, 32,
            0x0004_002b, 2, 3, 0,
            0x0004_002b, 2, 4, 1065353216.0f32.to_bits(),
        ]
    );
}

#[test]
fn a_constant_made_of_bits_is_emitted_once() {
    let bits = 1.0f32.to_bits();
    let val = SpirvConstVal::Float(ConstFloat::from_u128(u128::from(bits), FloatTy::F32));
    let other = MirContext { def_id: DefId { krate: 0, index: 9 }, substs: vec![Ty::Bool] };
    let mut ctx = context();
    assert_eq!(ctx.constant(val, &plain()).0, 3);
    assert_eq!(ctx.constant_u32(7, &plain()).0, 5);
    assert_eq!(ctx.constant_f32(bits, &other).0, 3);
    assert_eq!(ctx.constant_f32(bits + 1, &other).0, 3);
    assert_eq!(emitted(ctx).len(), 15);
}

#[test]
fn integers_round_as_on_the_hardware() {
    let mut state: u128 = 1;
    for i in 0..20000u32 {
        state = state.wrapping_mul(0x2360_ed05_1fc6_5da4_4385_df64_9fcc_f645).wrapping_add(1);
        let n = state >> (i % 128);
        assert_eq!(ConstFloat::from_u128(n, FloatTy::F32), ConstFloat::F32((n as f32).to_bits()));
        assert_eq!(ConstFloat::from_u128(n, FloatTy::F64), ConstFloat::F64((n as f64).to_bits()));
    }
}

#[test]
fn halfway_integers_round_to_even() {
    let single = |n| ConstFloat::from_u128(n, FloatTy::F32);
    let expected = |n: f32| ConstFloat::F32(n.to_bits());
    assert_eq!(single(0), expected(0.0));
    assert_eq!(single(1), expected(1.0));
    assert_eq!(single(0xff_ffff), expected(16777215.0));
    assert_eq!(single(0x100_0001), expected(16777216.0));
    assert_eq!(single(0x100_0003), expected(16777220.0));
    assert_eq!(single(0x1ff_ffff), expected(33554432.0));
    assert_eq!(single(u128::MAX), expected(f32::INFINITY));
    assert_eq!(
        ConstFloat::from_u128(u128::MAX, FloatTy::F64),
        ConstFloat::F64(340282366920938463463374607431768211456.0f64.to_bits())
    );
}

#[test]
fn only_small_integers_can_be_emitted_as_single_precision() {
    let single = |n| SpirvConstVal::Float(ConstFloat::from_u128(n, FloatTy::F32));
    assert!(single(0).is_supported());
    assert!(single(0x7fff_ffbf).is_supported());
    assert!(!single(0x7fff_ffc0).is_supported());
    assert!(!single(u128::from((-1.0f32).to_bits())).is_supported());
    assert!(!single(u128::MAX).is_supported());
}

#[test]
fn truncation_agrees_with_the_hardware() {
    let mut bits: u32 = 1;
    for _ in 0..20000 {
        bits = bits.wrapping_mul(1664525).wrapping_add(1013904223);
        let number = f32::from_bits(bits);
        let whole = number.trunc();
        if number.is_finite() && whole >= -2147483648.0 && whole < 2147483648.0 {
            assert_eq!(truncate(bits), Some((whole as i32 as f32).to_bits()));
        } else {
            assert_eq!(truncate(bits), None);
        }
    }
}

#[test]
fn truncation_knows_its_limits() {
    assert_eq!(truncate(2147483648.0f32.to_bits()), None);
    assert_eq!(truncate(2147483520.0f32.to_bits()), Some(2147483520.0f32.to_bits()));
    assert_eq!(truncate((-2147483648.0f32).to_bits()), Some((-2147483648.0f32).to_bits()));
    assert_eq!(truncate((-2147483904.0f32).to_bits()), None);
    assert_eq!(truncate(f32::INFINITY.to_bits()), None);
    assert_eq!(truncate(f32::NEG_INFINITY.to_bits()), None);
    assert_eq!(truncate(f32::NAN.to_bits()), None);
    assert_eq!(truncate((-0.0f32).to_bits()), Some(0));
    assert_eq!(truncate(1), Some(0));
    assert_eq!(truncate(8388607.5f32.to_bits()), Some(8388607.0f32.to_bits()));
}

#[test]
fn some_constants_cannot_be_emitted() {
    assert!(SpirvConstVal::Integer(ConstInt::I128(-1)).is_supported());
    assert!(SpirvConstVal::Float(ConstFloat::F32(2.5f32.to_bits())).is_supported());
    assert!(!SpirvConstVal::Float(ConstFloat::F32(1e10f32.to_bits())).is_supported());
    assert!(!SpirvConstVal::Float(ConstFloat::F32(f32::NAN.to_bits())).is_supported());
    assert!(!SpirvConstVal::Float(ConstFloat::F64(0)).is_supported());
}

#[test]
fn a_wide_constant_of_one_word_is_rejected() {
    let mut ctx = context();
    ctx.constant(SpirvConstVal::Integer(ConstInt::U64(5)), &plain());
    assert_eq!(ctx.build_module(), Err(BuildError::Rejected));
}

#[test]
fn a_narrow_constant_is_rejected() {
    let mut ctx = context();
    ctx.constant(SpirvConstVal::Integer(ConstInt::I8(-1)), &plain());
    assert_eq!(ctx.build_module(), Err(BuildError::Rejected));
}
