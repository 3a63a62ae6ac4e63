//! Constants of the source language and their SPIR-V form.

use vstd::prelude::*;

use crate::lower::lower;
use crate::lower::Lowering;
use crate::lower::Names;
use crate::nearest::integer_to_double;
use crate::nearest::integer_to_single;
use crate::nearest::lemma_nearest_single_fits;
use crate::nearest::lemma_nearest_single_is_integer;
use crate::nearest::nearest_double;
use crate::nearest::nearest_single;
use crate::single::fits_i32;
use crate::single::truncated;
use crate::ty::FloatTy;
use crate::ty::IntTy;
use crate::ty::Ty;
use crate::ty::TyView;
use crate::ty::UintTy;
use crate::words::low32;

verus! {

/// An integer constant of each integer type.
#[derive(Clone, Copy, Debug, PartialEq, Eq, Structural)]
pub enum ConstInt {
    I8(i8),
    I16(i16),
    I32(i32),
    I64(i64),
    I128(i128),
    Isize(i64),
    U8(u8),
    U16(u16),
    U32(u32),
    U64(u64),
    U128(u128),
    Usize(u64),
}

/// A floating point constant of each floating point type, as its IEEE 754 bits.
#[derive(Clone, Copy, Debug, PartialEq, Eq, Structural)]
pub enum ConstFloat {
    F32(u32),
    F64(u64),
}

/// A constant.
#[derive(Clone, Copy, Debug, PartialEq, Eq, Structural)]
pub enum SpirvConstVal {
    Integer(ConstInt),
    Float(ConstFloat),
}

impl ConstInt {
    /// The integer.
    pub open spec fn value(self) -> int {
        match self {
            ConstInt::I8(v) => v as int,
            ConstInt::I16(v) => v as int,
            ConstInt::I32(v) => v as int,
            ConstInt::I64(v) => v as int,
            ConstInt::I128(v) => v as int,
            ConstInt::Isize(v) => v as int,
            ConstInt::U8(v) => v as int,
            ConstInt::U16(v) => v as int,
            ConstInt::U32(v) => v as int,
            ConstInt::U64(v) => v as int,
            ConstInt::U128(v) => v as int,
            ConstInt::Usize(v) => v as int,
        }
    }

    /// Its type.
    pub open spec fn ty(self) -> TyView {
        match self {
            ConstInt::I8(_) => TyView::Int(IntTy::I8),
            ConstInt::I16(_) => TyView::Int(IntTy::I16),
            ConstInt::I32(_) => TyView::Int(IntTy::I32),
            ConstInt::I64(_) => TyView::Int(IntTy::I64),
            ConstInt::I128(_) => TyView::Int(IntTy::I128),
            ConstInt::Isize(_) => TyView::Int(IntTy::Isize),
            ConstInt::U8(_) => TyView::Uint(UintTy::U8),
            ConstInt::U16(_) => TyView::Uint(UintTy::U16),
            ConstInt::U32(_) => TyView::Uint(UintTy::U32),
            ConstInt::U64(_) => TyView::Uint(UintTy::U64),
            ConstInt::U128(_) => TyView::Uint(UintTy::U128),
            ConstInt::Usize(_) => TyView::Uint(UintTy::Usize),
        }
    }

    /// The type of the constant.
    pub fn int_type(self) -> (ty: Ty)
        ensures
            ty@ == self.ty(),
    {
        match self {
            ConstInt::I8(_) => Ty::Int(IntTy::I8),
            ConstInt::I16(_) => Ty::Int(IntTy::I16),
            ConstInt::I32(_) => Ty::Int(IntTy::I32),
            ConstInt::I64(_) => Ty::Int(IntTy::I64),
            ConstInt::I128(_) => Ty::Int(IntTy::I128),
            ConstInt::Isize(_) => Ty::Int(IntTy::Isize),
            ConstInt::U8(_) => Ty::Uint(UintTy::U8),
            ConstInt::U16(_) => Ty::Uint(UintTy::U16),
            ConstInt::U32(_) => Ty::Uint(UintTy::U32),
            ConstInt::U64(_) => Ty::Uint(UintTy::U64),
            ConstInt::U128(_) => Ty::Uint(UintTy::U128),
            ConstInt::Usize(_) => Ty::Uint(UintTy::Usize),
        }
    }

    /// The low 32 bits of the constant in two's complement.
    pub fn low_word(self) -> (word: u32)
        ensures
            word == low32(self.value()),
    {
        match self {
            ConstInt::I8(v) => signed_low_word(v as i128),
            ConstInt::I16(v) => signed_low_word(v as i128),
            ConstInt::I32(v) => signed_low_word(v as i128),
            ConstInt::I64(v) => signed_low_word(v as i128),
            ConstInt::I128(v) => signed_low_word(v),
            ConstInt::Isize(v) => signed_low_word(v as i128),
            ConstInt::U8(v) => v as u32,
            ConstInt::U16(v) => v as u32,
            ConstInt::U32(v) => v,
            ConstInt::U64(v) => (v % 0x1_0000_0000) as u32,
            ConstInt::U128(v) => (v % 0x1_0000_0000) as u32,
            ConstInt::Usize(v) => (v % 0x1_0000_0000) as u32,
        }
    }
}

/// The low 32 bits of an integer in two's complement.
fn signed_low_word(v: i128) -> (word: u32)
    ensures
        word == low32(v as int),
{
    if v >= 0 {
        (v as u128 % 0x1_0000_0000) as u32
    } else {
        let below: u128 = (-(v + 1)) as u128;
        u32::MAX - (below % 0x1_0000_0000) as u32
    }
}

impl ConstFloat {
    /// The constant of a floating point type nearest to an integer.
    pub open spec fn spec_from_u128(input: u128, ty: FloatTy) -> ConstFloat {
        match ty {
            FloatTy::F32 => ConstFloat::F32(nearest_single(input)),
            FloatTy::F64 => ConstFloat::F64(nearest_double(input)),
        }
    }

    /// The constant of a floating point type nearest to an integer. Halfway
    /// between two, it is the one with the even significand.
    #[verifier::when_used_as_spec(spec_from_u128)]
    pub fn from_u128(input: u128, ty: FloatTy) -> (val: ConstFloat)
        ensures
            val == Self::spec_from_u128(input, ty),
    {
        match ty {
            FloatTy::F32 => ConstFloat::F32(integer_to_single(input)),
            FloatTy::F64 => ConstFloat::F64(integer_to_double(input)),
        }
    }
}

/// An integer as a single precision constant can be emitted if it is below the
/// middle between the largest number that can and the next; the literal is then
/// that of the nearest number.
pub proof fn lemma_integer_as_single(input: u128)
    ensures
        SpirvConstVal::Float(ConstFloat::from_u128(input, FloatTy::F32)).supported() <==> input
            < 0x7fff_ffc0,
        SpirvConstVal::Float(ConstFloat::from_u128(input, FloatTy::F32)).literal()
            == nearest_single(input),
{
    lemma_nearest_single_fits(input);
    if input > 0 {
        lemma_nearest_single_is_integer(input);
    }
}

impl SpirvConstVal {
    /// The type of the constant.
    pub open spec fn ty(self) -> TyView {
        match self {
            SpirvConstVal::Integer(const_int) => const_int.ty(),
            SpirvConstVal::Float(ConstFloat::F32(_)) => TyView::Float(FloatTy::F32),
            SpirvConstVal::Float(ConstFloat::F64(_)) => TyView::Float(FloatTy::F64),
        }
    }

    /// The literal that stands for the constant: the low 32 bits of an integer,
    /// and of a floating point number the bits of its integer part.
    pub open spec fn literal(self) -> u32 {
        match self {
            SpirvConstVal::Integer(const_int) => low32(const_int.value()),
            SpirvConstVal::Float(ConstFloat::F32(bits)) => truncated(bits),
            SpirvConstVal::Float(ConstFloat::F64(_)) => 0,
        }
    }

    /// Whether the constant can be emitted: every integer can, and a single
    /// precision number whose integer part is a signed 32-bit integer.
    pub open spec fn supported(self) -> bool {
        match self {
            SpirvConstVal::Integer(_) => true,
            SpirvConstVal::Float(ConstFloat::F32(bits)) => fits_i32(bits),
            SpirvConstVal::Float(ConstFloat::F64(_)) => false,
        }
    }

    /// Whether the constant can be emitted.
    pub fn is_supported(self) -> (result: bool)
        ensures
            result == self.supported(),
    {
        match self {
            SpirvConstVal::Integer(_) => true,
            SpirvConstVal::Float(ConstFloat::F32(bits)) => crate::single::truncate(bits).is_some(),
            SpirvConstVal::Float(ConstFloat::F64(_)) => false,
        }
    }
}

/// What emitting constants changes: what lowering changes, and the constants
/// emitted so far with their ids.
#[verifier::ext_equal]
pub struct Constants {
    pub lowering: Lowering,
    pub cache: Map<SpirvConstVal, u32>,
}

/// Emits a constant: one that was emitted before keeps its id and nothing is
/// emitted; for any other its type is lowered, and the constant is emitted and
/// remembered.
pub open spec fn lower_constant(names: Names, st: Constants, val: SpirvConstVal) -> (
    Constants,
    u32,
) {
    if st.cache.contains_key(val) {
        (st, st.cache[val])
    } else {
        let (after, ty_id) = lower(names, st.lowering, val.ty());
        let id = after.module.fresh();
        (
            Constants {
                lowering: Lowering {
                    module: after.module.define_constant(ty_id, val.literal()),
                    ..after
                },
                cache: st.cache.insert(val, id),
            },
            id,
        )
    }
}

} // verus!
