//! What emitting a constant does, and what the state of a compilation holds.

use vstd::arithmetic::div_mod::lemma_fundamental_div_mod;
use vstd::arithmetic::power2::lemma2_to64;
use vstd::arithmetic::power2::lemma_pow2_adds;
use vstd::arithmetic::power2::lemma_pow2_pos;
use vstd::arithmetic::power2::lemma_pow2_strictly_increases;
use vstd::arithmetic::power2::pow2;
use vstd::prelude::*;

use crate::binary::is_instruction;
use crate::binary::lemma_instruction_says;
use crate::binary::lemma_string_words_spell;
use crate::binary::spells;
use crate::builder::module_of;
use crate::constant::lemma_integer_as_single;
use crate::constant::lower_constant;
use crate::constant::ConstFloat;
use crate::constant::ConstInt;
use crate::constant::Constants;
use crate::constant::SpirvConstVal;
use crate::context::initial_module;
use crate::context::mut_ptr;
use crate::context::single_from_bits;
use crate::context::HirNode;
use crate::context::SpirvCtx;
use crate::layout::discrs_of;
use crate::layout::EnumLayout;
use crate::lower::lemma_lower_grew;
use crate::lower::lower;
use crate::lower::starts_with;
use crate::lower::Names;
use crate::nearest::lemma_top_bit;
use crate::nearest::nearest_single;
use crate::nearest::top_bit;
use crate::numbers::double_value;
use crate::numbers::lemma_fits_value;
use crate::numbers::lemma_nearest_double_value;
use crate::numbers::lemma_nearest_single_value;
use crate::numbers::lemma_nearest_zero;
use crate::numbers::lemma_truncated_value;
use crate::numbers::rounds_to;
use crate::numbers::single_value;
use crate::ty::DefId;
use crate::ty::FloatTy;
use crate::ty::IntTy;
use crate::ty::Mutability;
use crate::ty::TyView;
use crate::ty::UintTy;
use crate::words::instruction;
use crate::words::string_words;
use crate::words::OP_CONSTANT;

verus! {

/// The integer that a constant stands for.
pub open spec fn integer_of(const_int: ConstInt) -> int {
    match const_int {
        ConstInt::I8(v) => v as int,
        ConstInt::I16(v) => v as int,
        ConstInt::I32(v) => v as int,
        ConstInt::I64(v) => v as int,
        ConstInt::I128(v) => v as int,
        ConstInt::Isize(v) => v as int,
        ConstInt::U8(v) => v as int,
        ConstInt::U16(v) => v as int,
        ConstInt::U32(v) => v as int,
        ConstInt::U64(v) => v as int,
        ConstInt::U128(v) => v as int,
        ConstInt::Usize(v) => v as int,
    }
}

/// The type that a constant has.
pub open spec fn type_of(val: SpirvConstVal) -> TyView {
    match val {
        SpirvConstVal::Integer(const_int) => match const_int {
            ConstInt::I8(_) => TyView::Int(IntTy::I8),
            ConstInt::I16(_) => TyView::Int(IntTy::I16),
            ConstInt::I32(_) => TyView::Int(IntTy::I32),
            ConstInt::I64(_) => TyView::Int(IntTy::I64),
            ConstInt::I128(_) => TyView::Int(IntTy::I128),
            ConstInt::Isize(_) => TyView::Int(IntTy::Isize),
            ConstInt::U8(_) => TyView::Uint(UintTy::U8),
            ConstInt::U16(_) => TyView::Uint(UintTy::U16),
            ConstInt::U32(_) => TyView::Uint(UintTy::U32),
            ConstInt::U64(_) => TyView::Uint(UintTy::U64),
            ConstInt::U128(_) => TyView::Uint(UintTy::U128),
            ConstInt::Usize(_) => TyView::Uint(UintTy::Usize),
        },
        SpirvConstVal::Float(ConstFloat::F32(_)) => TyView::Float(FloatTy::F32),
        SpirvConstVal::Float(ConstFloat::F64(_)) => TyView::Float(FloatTy::F64),
    }
}

/// A word stands for a constant: it differs from an integer by a multiple of
/// 2^32, and is the integer part of a floating point number.
pub open spec fn stands_for(literal: u32, val: SpirvConstVal) -> bool {
    match val {
        SpirvConstVal::Integer(const_int) => (integer_of(const_int) - literal) % 0x1_0000_0000
            == 0,
        SpirvConstVal::Float(ConstFloat::F32(bits)) => {
            let whole = single_value(literal);
            &&& whole % (pow2(149) as int) == 0
            &&& single_value(bits) >= 0 ==> whole <= single_value(bits) < whole + pow2(149)
            &&& single_value(bits) <= 0 ==> whole - pow2(149) < single_value(bits) <= whole
            &&& whole == 0 ==> literal == 0
        },
        SpirvConstVal::Float(ConstFloat::F64(_)) => true,
    }
}

/// A constant that was emitted keeps its id, and nothing changes.
pub proof fn lemma_constant_remembered(names: Names, st: Constants, val: SpirvConstVal)
    requires
        st.cache.contains_key(val),
    ensures
        lower_constant(names, st, val) == (st, st.cache[val]),
{
}

/// A constant is declared after its type, with the next id and a literal that
/// stands for it, and is remembered; nothing else changes.
pub proof fn lemma_constant_emission(names: Names, st: Constants, val: SpirvConstVal)
    requires
        st.lowering.module.wf(),
        0 <= st.lowering.module.next_id,
        !st.cache.contains_key(val),
        val matches SpirvConstVal::Float(ConstFloat::F32(bits)) ==> bits as int / 0x80_0000 % 0x100
            < 0xff,
    ensures
        ({
            let (typed, ty_id) = lower(names, st.lowering, type_of(val));
            let (after, id) = lower_constant(names, st, val);
            let from = typed.module;
            let to = after.lowering.module;
            let inst = to.sections[8].last();
            &&& id == from.next_id as u32
            &&& to.next_id == from.next_id + 1
            &&& to.version == from.version
            &&& to.assembles == from.assembles
            &&& to.sections.len() == from.sections.len()
            &&& forall|k: int|
                0 <= k < from.sections.len() && k != 8 ==> #[trigger] to.sections[k]
                    == from.sections[k]
            &&& to.sections[8].len() == from.sections[8].len() + 1
            &&& starts_with(to.sections[8], from.sections[8])
            &&& inst.len() == 4
            &&& is_instruction(inst, 43, seq![ty_id, id, inst[3]])
            &&& stands_for(inst[3], val)
            &&& after.lowering.cache == typed.cache
            &&& after.cache == st.cache.insert(val, id)
        }),
{
    lemma_lower_grew(names, st.lowering, type_of(val));
    let (typed, ty_id) = lower(names, st.lowering, type_of(val));
    assert(val.ty() == type_of(val));
    let id = typed.module.fresh();
    let rest = seq![ty_id, id, val.literal()];
    lemma_instruction_says(OP_CONSTANT, rest);
    let inst = instruction(OP_CONSTANT, rest);
    let to = lower_constant(names, st, val).0.lowering.module;
    assert(to.sections[8] =~= typed.module.sections[8].push(inst));
    assert(inst[3] == rest[2]);
    match val {
        SpirvConstVal::Integer(const_int) => {
            assert(const_int.value() == integer_of(const_int));
        },
        SpirvConstVal::Float(ConstFloat::F32(bits)) => {
            lemma_truncated_value(bits);
        },
        SpirvConstVal::Float(ConstFloat::F64(_)) => {},
    }
}

/// Constants that are emitted have literals that stand for them, so integers
/// of one type that differ in their low words have different literals.
pub proof fn lemma_literals_differ(a: SpirvConstVal, b: SpirvConstVal, literal: u32)
    requires
        stands_for(literal, a),
        stands_for(literal, b),
        a is Integer,
        b is Integer,
    ensures
        (integer_of(a->Integer_0) - integer_of(b->Integer_0)) % 0x1_0000_0000 == 0,
{
}

/// Every integer can be emitted, and every single precision number whose integer
/// part is a signed 32-bit integer; nothing else can.
pub proof fn lemma_constant_supported(val: SpirvConstVal)
    ensures
        val.supported() <==> match val {
            SpirvConstVal::Integer(_) => true,
            SpirvConstVal::Float(ConstFloat::F32(bits)) => {
                &&& bits as int / 0x80_0000 % 0x100 < 0xff
                &&& -0x8000_0001 * pow2(149) < single_value(bits)
                &&& single_value(bits) < 0x8000_0000 * pow2(149)
            },
            SpirvConstVal::Float(ConstFloat::F64(_)) => false,
        },
{
    if let SpirvConstVal::Float(ConstFloat::F32(bits)) = val {
        lemma_fits_value(bits);
    }
}

/// An integer as a floating point constant is the nearest number of that type.
pub proof fn lemma_from_u128_is_nearest(input: u128, k: nat, ty: FloatTy)
    requires
        pow2(k) <= input < pow2(k + 1),
    ensures
        match (ty, ConstFloat::from_u128(input, ty)) {
            (FloatTy::F32, ConstFloat::F32(bits)) => {
                &&& bits < 0x8000_0000
                &&& single_value(bits) % (pow2(149) as int) == 0
                &&& rounds_to(input as int, k, 24, single_value(bits) / (pow2(149) as int))
            },
            (FloatTy::F64, ConstFloat::F64(bits)) => {
                &&& bits < 0x8000_0000_0000_0000
                &&& double_value(bits) % (pow2(1074) as int) == 0
                &&& rounds_to(input as int, k, 53, double_value(bits) / (pow2(1074) as int))
            },
            _ => false,
        },
        ConstFloat::from_u128(0, FloatTy::F32) == ConstFloat::F32(0),
        ConstFloat::from_u128(0, FloatTy::F64) == ConstFloat::F64(0),
{
    lemma_nearest_single_value(input, k);
    lemma_nearest_double_value(input, k);
    lemma_nearest_zero();
}

/// The constant made of bits is a single precision number that can be emitted.
/// Its literal is the number nearest to the bits, read as an integer: off by 64
/// at most, and not at all where the bits are a multiple of 128 or have no more
/// than 24 digits.
pub proof fn lemma_constant_of_bits(bits: u32)
    requires
        bits < 0x7fff_ffc0,
    ensures
        single_from_bits(bits).supported(),
        single_from_bits(bits) is Float,
        single_from_bits(bits)->Float_0 is F32,
        single_value(single_from_bits(bits).literal()) % (pow2(149) as int) == 0,
        ({
            let v = single_value(single_from_bits(bits).literal()) / (pow2(149) as int);
            &&& -64 <= v - bits <= 64
            &&& bits % 128 == 0 ==> v == bits
            &&& bits < 0x100_0000 ==> v == bits
            &&& forall|k: nat| #[trigger]
                pow2(k) <= bits < pow2(k + 1) ==> rounds_to(bits as int, k, 24, v)
        }),
{
    lemma_integer_as_single(bits as u128);
    lemma2_to64();
    lemma_pow2_pos(149);
    let v = single_value(nearest_single(bits as u128)) / (pow2(149) as int);
    if bits == 0 {
        lemma_nearest_zero();
        assert(single_value(0) == 0);
    } else {
        let k = top_bit(bits as nat);
        lemma_top_bit(bits as nat);
        lemma_nearest_single_value(bits as u128, k);
        lemma_rounding_of_bits(bits, k, v);
    }
    assert forall|k: nat| #[trigger] pow2(k) <= bits < pow2(k + 1) implies rounds_to(
        bits as int,
        k,
        24,
        v,
    ) by {
        lemma_pow2_pos(k);
        lemma_nearest_single_value(bits as u128, k);
    }
}

/// How far rounding to 24 digits can go for bits of at most 31 digits.
proof fn lemma_rounding_of_bits(bits: u32, k: nat, v: int)
    requires
        0 < bits < 0x7fff_ffc0,
        pow2(k) <= bits < pow2(k + 1),
        rounds_to(bits as int, k, 24, v),
    ensures
        -64 <= v - bits <= 64,
        bits % 128 == 0 ==> v == bits,
        bits < 0x100_0000 ==> v == bits,
{
    lemma2_to64();
    if k > 31 {
        lemma_pow2_strictly_increases(31, k);
    }
    assert(k <= 30);
    if k >= 24 {
        let s = (k - 23) as nat;
        lemma_pow2_pos(s);
        if s < 7 {
            lemma_pow2_strictly_increases(s, 7);
        }
        if bits % 128 == 0 {
            lemma_pow2_adds(s, (7 - s) as nat);
            lemma_pow2_pos((7 - s) as nat);
            lemma_near_multiple(bits as int, v, pow2(s) as int, pow2((7 - s) as nat) as int);
        }
        if k > 24 {
            lemma_pow2_strictly_increases(24, k);
        }
    }
}

proof fn lemma_near_multiple(n: int, v: int, unit: int, times: int)
    requires
        unit > 0,
        times > 0,
        unit * times == 128,
        n % 128 == 0,
        v % unit == 0,
        -unit <= 2 * (v - n) <= unit,
    ensures
        v == n,
{
    lemma_fundamental_div_mod(v, unit);
    lemma_fundamental_div_mod(n, 128);
    let a = v / unit;
    let b = (n / 128) * times;
    assert(n == unit * b) by (nonlinear_arith)
        requires
            n == 128 * (n / 128),
            unit * times == 128,
            b == (n / 128) * times,
    ;
    assert(a == b) by (nonlinear_arith)
        requires
            -unit <= 2 * (unit * a - unit * b) <= unit,
            unit > 0,
    ;
}

/// The constant made of bits is the floating point constant of the same bits read
/// as an integer, so both share one id.
pub proof fn lemma_constant_of_bits_is_shared(names: Names, st: Constants, bits: u32)
    ensures
        single_from_bits(bits) == SpirvConstVal::Float(
            ConstFloat::from_u128(bits as u128, FloatTy::F32),
        ),
        lower_constant(names, st, single_from_bits(bits)) == lower_constant(
            names,
            st,
            SpirvConstVal::Float(ConstFloat::from_u128(bits as u128, FloatTy::F32)),
        ),
{
}

/// Numbers whose bits differ by more than a rounding step give different
/// constants, with different literals.
pub proof fn lemma_constants_of_bits_differ(a: u32, b: u32)
    requires
        a + 128 < b < 0x7fff_ffc0,
    ensures
        single_from_bits(a) != single_from_bits(b),
        single_from_bits(a).literal() != single_from_bits(b).literal(),
{
    lemma_constant_of_bits(a);
    lemma_constant_of_bits(b);
}

/// The mutable pointer to a type points to that type and may be written
/// through.
pub proof fn lemma_mut_ptr(ty: TyView)
    ensures
        mut_ptr(ty) is RawPtr,
        *mut_ptr(ty)->RawPtr_ty == ty,
        mut_ptr(ty)->RawPtr_mutbl == Mutability::Mutable,
{
}

/// The discriminant of an enumeration is that of the last layout of its type,
/// and there is none without a layout.
pub proof fn lemma_discr_of_last_layout(layouts: Seq<EnumLayout>, ty: TyView)
    ensures
        discrs_of(layouts).contains_key(ty) ==> exists|i: int|
            0 <= i < layouts.len() && #[trigger] layouts[i].ty@ == ty && layouts[i].discr
                == discrs_of(layouts)[ty] && forall|j: int|
                i < j < layouts.len() ==> (#[trigger] layouts[j]).ty@ != ty,
        !discrs_of(layouts).contains_key(ty) ==> forall|i: int|
            0 <= i < layouts.len() ==> (#[trigger] layouts[i]).ty@ != ty,
    decreases layouts.len(),
{
    if layouts.len() > 0 {
        let rest = layouts.drop_last();
        let n = layouts.len() - 1;
        lemma_discr_of_last_layout(rest, ty);
        assert(forall|i: int| 0 <= i < n ==> #[trigger] layouts[i] == rest[i]);
        if layouts[n].ty@ != ty && discrs_of(layouts).contains_key(ty) {
            let i = choose|i: int|
                0 <= i < rest.len() && #[trigger] rest[i].ty@ == ty && rest[i].discr
                    == discrs_of(rest)[ty] && forall|j: int|
                    i < j < rest.len() ==> (#[trigger] rest[j]).ty@ != ty;
            assert(layouts[i].ty@ == ty);
            assert forall|j: int| i < j < layouts.len() implies (#[trigger] layouts[j]).ty@
                != ty by {
                if j < n {
                    assert(rest[j].ty@ != ty);
                }
            }
        }
    }
}

/// Lowering reads from a context whether names are emitted, the names of its
/// nodes and its layouts, and nothing else.
pub proof fn lemma_names_of_context(ctx: SpirvCtx, key: u64)
    ensures
        ctx.names().debug_symbols == ctx.debug_symbols,
        ctx.names().discrs == discrs_of(ctx.tcx.layouts@),
        ctx.names().local.contains_key(key) <==> ctx.tcx.nodes@.contains_key(key),
        ctx.tcx.nodes@.contains_key(key) ==> ctx.names().local[key] == match ctx.tcx.nodes@[key] {
            HirNode::Item { name, .. } => name@,
            HirNode::Other { name } => name@,
        },
{
}

/// Lowering and emitting change the module and the caches of a context.
pub proof fn lemma_state_of_context(ctx: SpirvCtx)
    ensures
        ctx.constants().lowering == ctx.lowering(),
        ctx.lowering().cache == ctx.ty_cache@,
        ctx.lowering().module == module_of(ctx.builder),
        ctx.constants().cache == ctx.const_cache@,
{
}

/// Lowering a type leaves everything else in a context as it was.
pub proof fn lemma_same_but_lowering(a: SpirvCtx, b: SpirvCtx)
    ensures
        a.same_but_lowering(&b) <==> {
            &&& a.tcx == b.tcx
            &&& a.const_cache == b.const_cache
            &&& a.forward_fns == b.forward_fns
            &&& a.intrinsic_fns == b.intrinsic_fns
            &&& a.debug_symbols == b.debug_symbols
            &&& a.glsl_ext_id == b.glsl_ext_id
        },
{
}

/// Emitting a constant leaves everything else in a context as it was.
pub proof fn lemma_same_but_emission(a: SpirvCtx, b: SpirvCtx)
    ensures
        a.same_but_emission(&b) <==> {
            &&& a.tcx == b.tcx
            &&& a.forward_fns == b.forward_fns
            &&& a.intrinsic_fns == b.intrinsic_fns
            &&& a.debug_symbols == b.debug_symbols
            &&& a.glsl_ext_id == b.glsl_ext_id
        },
{
}

/// A definition is held under one integer of its own: the crate in the upper
/// half and the index in the lower one.
pub proof fn lemma_key_of_definition(def_id: DefId)
    ensures
        def_id.key() == def_id.krate * 0x1_0000_0000 + def_id.index,
{
}

/// A context starts with a module that declares the shader capability, imports
/// the extended instructions of GLSL under the id one, and uses the logical
/// addressing model with the memory model of GLSL. It holds nothing else.
pub proof fn lemma_initial_module()
    ensures
        ({
            let module = initial_module();
            &&& module.next_id == 2
            &&& module.version == 0x0001_0300
            &&& module.assembles
            &&& module.sections.len() == 10
            &&& module.sections[0].len() == 1
            &&& is_instruction(module.sections[0][0], 17, seq![1u32])
            &&& module.sections[2].len() == 1
            &&& module.sections[2][0].len() > 2
            &&& is_instruction(module.sections[2][0], 11, module.sections[2][0].skip(1))
            &&& module.sections[2][0][1] == 1
            &&& spells(module.sections[2][0].skip(2), "GLSL.std.450"@)
            &&& module.sections[3].len() == 1
            &&& is_instruction(module.sections[3][0], 14, seq![0u32, 1u32])
            &&& forall|k: int|
                0 <= k < 10 && k != 0 && k != 2 && k != 3 ==> (#[trigger] module.sections[k]).len()
                    == 0
        }),
{
    let text = "GLSL.std.450"@;
    let words = string_words(text);
    let rest = seq![1u32] + words;
    lemma_string_words_spell(text);
    lemma_instruction_says(17, seq![1u32]);
    lemma_instruction_says(11, rest);
    lemma_instruction_says(14, seq![0u32, 1u32]);
    let inst = initial_module().sections[2][0];
    assert(inst == instruction(11, rest));
    assert(inst[1] == rest[0]);
    assert(inst.skip(2) =~= words) by {
        assert(inst.skip(1) == rest);
    }
}

} // verus!
