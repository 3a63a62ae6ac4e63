//! What the types of a module mean: the instruction that declares the id of a
//! type says what the type is.

use vstd::prelude::*;

use crate::binary::is_instruction;
use crate::binary::lemma_instruction_says;
use crate::builder::StorageClass;
use crate::constant::lower_constant;
use crate::constant::Constants;
use crate::constant::SpirvConstVal;
use crate::context::initial_module;
use crate::lower::all_fields;
use crate::lower::define;
use crate::lower::define_struct;
use crate::lower::emit;
use crate::lower::lemma_define_grew;
use crate::lower::lemma_define_struct_grew;
use crate::lower::lemma_lower_all_grew;
use crate::lower::lemma_lower_fields_grew;
use crate::lower::lemma_lower_grew;
use crate::lower::lemma_lower_variants_grew;
use crate::lower::lower;
use crate::lower::lower_all;
use crate::lower::lower_fields;
use crate::lower::lower_variants;
use crate::lower::pointer_form;
use crate::lower::rank;
use crate::lower::starts_with;
use crate::lower::Lowering;
use crate::lower::Names;
use crate::ty::AdtKindView;
use crate::ty::DefId;
use crate::ty::FieldView;
use crate::ty::FloatTy;
use crate::ty::IntTy;
use crate::ty::IntrinsicType;
use crate::ty::Mutability;
use crate::ty::TyView;
use crate::ty::UintTy;
use crate::ty::VariantView;
use crate::words::instruction;
use crate::words::low32;
use crate::words::OP_TYPE_BOOL;
use crate::words::OP_TYPE_FLOAT;
use crate::words::OP_TYPE_FUNCTION;
use crate::words::OP_TYPE_INT;
use crate::words::OP_TYPE_POINTER;
use crate::words::OP_TYPE_STRUCT;
use crate::words::OP_TYPE_VECTOR;
use crate::words::OP_TYPE_VOID;

verus! {

/// The type under which a type is remembered: a reference under the mutable raw
/// pointer to the same type, every other type under itself.
pub open spec fn remembered_as(ty: TyView) -> TyView {
    match ty {
        TyView::Ref { ty: inner, .. } => TyView::RawPtr { ty: inner, mutbl: Mutability::Mutable },
        _ => ty,
    }
}

/// The types are remembered with these ids, each in its place.
pub open spec fn remembered(cache: Map<TyView, u32>, tys: Seq<TyView>, ids: Seq<u32>) -> bool {
    &&& ids.len() == tys.len()
    &&& forall|i: int|
        0 <= i < tys.len() ==> cache.contains_key(remembered_as(#[trigger] tys[i]))
            && cache[remembered_as(tys[i])] == ids[i]
}

/// The types of fields.
pub open spec fn field_types(fields: Seq<FieldView>) -> Seq<TyView> {
    Seq::new(fields.len(), |i: int| fields[i].ty)
}

/// One of the instructions has this opcode, declares this id and has these
/// further operands.
pub open spec fn says(insts: Seq<Seq<u32>>, opcode: int, id: u32, operands: Seq<u32>) -> bool {
    exists|j: int|
        0 <= j < insts.len() && is_instruction(#[trigger] insts[j], opcode, seq![id] + operands)
}

/// The id is declared as a structure type, with one member for each field: the
/// type of that field.
pub open spec fn structure_said(
    insts: Seq<Seq<u32>>,
    cache: Map<TyView, u32>,
    fields: Seq<FieldView>,
    id: u32,
) -> bool {
    exists|ids: Seq<u32>| #[trigger]
        remembered(cache, field_types(fields), ids) && says(insts, 30, id, ids)
}

/// Each of the ids is declared as the structure type of the variant in its
/// place.
pub open spec fn variants_said(
    insts: Seq<Seq<u32>>,
    cache: Map<TyView, u32>,
    variants: Seq<VariantView>,
    ids: Seq<u32>,
) -> bool {
    &&& ids.len() == variants.len()
    &&& forall|i: int|
        0 <= i < variants.len() ==> structure_said(
            insts,
            cache,
            (#[trigger] variants[i]).fields,
            ids[i],
        )
}

/// How many bits a signed integer has.
pub open spec fn int_bits(int_ty: IntTy) -> u32 {
    match int_ty {
        IntTy::I8 => 8,
        IntTy::I16 => 16,
        IntTy::I32 | IntTy::Isize => 32,
        IntTy::I64 => 64,
        IntTy::I128 => 128,
    }
}

/// How many bits an unsigned integer has.
pub open spec fn uint_bits(uint_ty: UintTy) -> u32 {
    match uint_ty {
        UintTy::U8 => 8,
        UintTy::U16 => 16,
        UintTy::U32 | UintTy::Usize => 32,
        UintTy::U64 => 64,
        UintTy::U128 => 128,
    }
}

/// The instructions say of an id that it is the type: the declaration has the
/// opcode for a type of that kind, and where the type is made of others, it
/// refers to the ids under which those are remembered, each in its place. An
/// enumeration is a structure with one structure for each of its variants, in
/// their order, and behind them the discriminant. Nothing is said of types that
/// lowering has no answer for.
pub open spec fn described(
    discrs: Map<TyView, UintTy>,
    insts: Seq<Seq<u32>>,
    cache: Map<TyView, u32>,
    ty: TyView,
    id: u32,
) -> bool {
    match ty {
        TyView::Never => id == 0,
        TyView::Bool => says(insts, 20, id, seq![]),
        TyView::Int(int_ty) => says(insts, 21, id, seq![int_bits(int_ty), 1]),
        TyView::Uint(uint_ty) => says(insts, 21, id, seq![uint_bits(uint_ty), 0]),
        TyView::Float(FloatTy::F32) => says(insts, 22, id, seq![32]),
        TyView::Tuple(items, _) => if items.len() == 0 {
            says(insts, 19, id, seq![])
        } else {
            exists|ids: Seq<u32>| #[trigger]
                remembered(cache, items, ids) && says(insts, 30, id, ids)
        },
        TyView::FnPtr { inputs, output, .. } => {
            &&& cache.contains_key(remembered_as(*output))
            &&& exists|ids: Seq<u32>| #[trigger]
                remembered(cache, inputs, ids) && says(
                    insts,
                    33,
                    id,
                    seq![cache[remembered_as(*output)]] + ids,
                )
        },
        TyView::RawPtr { ty: inner, .. } => {
            &&& cache.contains_key(remembered_as(*inner))
            &&& says(insts, 32, id, seq![7, cache[remembered_as(*inner)]])
        },
        TyView::Adt { kind: AdtKindView::Struct { intrinsic: None, fields }, .. } =>
            structure_said(insts, cache, fields, id),
        TyView::Adt {
            kind: AdtKindView::Struct { intrinsic: Some(IntrinsicType::Vec(dim)), fields },
            ..
        } => fields.len() > 0 ==> {
            &&& cache.contains_key(remembered_as(fields[0].ty))
            &&& says(
                insts,
                23,
                id,
                seq![cache[remembered_as(fields[0].ty)], (dim as int % 0x1_0000_0000) as u32],
            )
        },
        TyView::Adt { kind: AdtKindView::Enum { variants }, .. } => discrs.contains_key(ty) ==> {
            &&& cache.contains_key(TyView::Uint(discrs[ty]))
            &&& exists|ids: Seq<u32>| #[trigger]
                variants_said(insts, cache, variants, ids) && says(
                    insts,
                    30,
                    id,
                    ids + seq![cache[TyView::Uint(discrs[ty])]],
                )
        },
        _ => true,
    }
}

/// The instructions say of every id that is remembered what the type is.
pub open spec fn all_described(discrs: Map<TyView, UintTy>, st: Lowering) -> bool {
    &&& st.module.wf()
    &&& 0 <= st.module.next_id
    &&& forall|ty: TyView| #[trigger]
        st.cache.contains_key(ty) ==> described(
            discrs,
            st.module.sections[8],
            st.cache,
            ty,
            st.cache[ty],
        )
}

/// Nothing that was said or remembered is lost.
spec fn kept(before: Lowering, after: Lowering) -> bool {
    &&& starts_with(after.module.sections[8], before.module.sections[8])
    &&& forall|ty: TyView| #[trigger]
        before.cache.contains_key(ty) ==> after.cache.contains_key(ty) && after.cache[ty]
            == before.cache[ty]
}

proof fn lemma_says_kept(
    before: Seq<Seq<u32>>,
    after: Seq<Seq<u32>>,
    opcode: int,
    id: u32,
    operands: Seq<u32>,
)
    requires
        starts_with(after, before),
        says(before, opcode, id, operands),
    ensures
        says(after, opcode, id, operands),
{
    let j = choose|j: int|
        0 <= j < before.len() && is_instruction(#[trigger] before[j], opcode, seq![id] + operands);
    assert(after[j] == before[j]);
}

proof fn lemma_structure_said_kept(
    before: Lowering,
    after: Lowering,
    fields: Seq<FieldView>,
    id: u32,
)
    requires
        kept(before, after),
        structure_said(before.module.sections[8], before.cache, fields, id),
    ensures
        structure_said(after.module.sections[8], after.cache, fields, id),
{
    let ids = choose|ids: Seq<u32>| #[trigger]
        remembered(before.cache, field_types(fields), ids) && says(
            before.module.sections[8],
            30,
            id,
            ids,
        );
    assert(remembered(after.cache, field_types(fields), ids));
    lemma_says_kept(before.module.sections[8], after.module.sections[8], 30, id, ids);
}

proof fn lemma_variants_said_kept(
    before: Lowering,
    after: Lowering,
    variants: Seq<VariantView>,
    ids: Seq<u32>,
)
    requires
        kept(before, after),
        variants_said(before.module.sections[8], before.cache, variants, ids),
    ensures
        variants_said(after.module.sections[8], after.cache, variants, ids),
{
    assert forall|i: int| 0 <= i < variants.len() implies structure_said(
        after.module.sections[8],
        after.cache,
        (#[trigger] variants[i]).fields,
        ids[i],
    ) by {
        lemma_structure_said_kept(before, after, variants[i].fields, ids[i]);
    }
}

proof fn lemma_described_kept(
    discrs: Map<TyView, UintTy>,
    before: Lowering,
    after: Lowering,
    ty: TyView,
    id: u32,
)
    requires
        kept(before, after),
        described(discrs, before.module.sections[8], before.cache, ty, id),
    ensures
        described(discrs, after.module.sections[8], after.cache, ty, id),
{
    let b = before.module.sections[8];
    let a = after.module.sections[8];
    match ty {
        TyView::Bool => {
            lemma_says_kept(b, a, 20, id, seq![]);
        },
        TyView::Int(int_ty) => {
            lemma_says_kept(b, a, 21, id, seq![int_bits(int_ty), 1]);
        },
        TyView::Uint(uint_ty) => {
            lemma_says_kept(b, a, 21, id, seq![uint_bits(uint_ty), 0]);
        },
        TyView::Float(FloatTy::F32) => {
            lemma_says_kept(b, a, 22, id, seq![32]);
        },
        TyView::Tuple(items, _) => {
            if items.len() == 0 {
                lemma_says_kept(b, a, 19, id, seq![]);
            } else {
                let ids = choose|ids: Seq<u32>| #[trigger]
                    remembered(before.cache, items, ids) && says(b, 30, id, ids);
                assert(remembered(after.cache, items, ids));
                lemma_says_kept(b, a, 30, id, ids);
            }
        },
        TyView::FnPtr { inputs, output, .. } => {
            let first = before.cache[remembered_as(*output)];
            let ids = choose|ids: Seq<u32>| #[trigger]
                remembered(before.cache, inputs, ids) && says(b, 33, id, seq![first] + ids);
            assert(remembered(after.cache, inputs, ids));
            lemma_says_kept(b, a, 33, id, seq![first] + ids);
        },
        TyView::RawPtr { ty: inner, .. } => {
            lemma_says_kept(b, a, 32, id, seq![7, before.cache[remembered_as(*inner)]]);
        },
        TyView::Adt { kind: AdtKindView::Struct { intrinsic: None, fields }, .. } => {
            lemma_structure_said_kept(before, after, fields, id);
        },
        TyView::Adt {
            kind: AdtKindView::Struct { intrinsic: Some(IntrinsicType::Vec(dim)), fields },
            ..
        } => {
            if fields.len() > 0 {
                let component = before.cache[remembered_as(fields[0].ty)];
                let count = (dim as int % 0x1_0000_0000) as u32;
                lemma_says_kept(b, a, 23, id, seq![component, count]);
            }
        },
        TyView::Adt { kind: AdtKindView::Enum { variants }, .. } => {
            if discrs.contains_key(ty) {
                let discr = before.cache[TyView::Uint(discrs[ty])];
                let ids = choose|ids: Seq<u32>| #[trigger]
                    variants_said(b, before.cache, variants, ids) && says(
                        b,
                        30,
                        id,
                        ids + seq![discr],
                    );
                lemma_variants_said_kept(before, after, variants, ids);
                lemma_says_kept(b, a, 30, id, ids + seq![discr]);
            }
        },
        _ => {},
    }
}

proof fn lemma_all_described_kept(discrs: Map<TyView, UintTy>, before: Lowering, after: Lowering)
    requires
        all_described(discrs, before),
        kept(before, after),
        after.module.wf(),
        0 <= after.module.next_id,
        after.cache == before.cache,
    ensures
        all_described(discrs, after),
{
    assert forall|ty: TyView| #[trigger] after.cache.contains_key(ty) implies described(
        discrs,
        after.module.sections[8],
        after.cache,
        ty,
        after.cache[ty],
    ) by {
        lemma_described_kept(discrs, before, after, ty, after.cache[ty]);
    }
}

/// One more type instruction says what it says, and everything else stays said.
proof fn lemma_define_says(
    discrs: Map<TyView, UintTy>,
    st: Lowering,
    code: u32,
    operands: Seq<u32>,
)
    requires
        all_described(discrs, st),
        code < 0x1_0000,
    ensures
        all_described(discrs, define(st, code, operands).0),
        kept(st, define(st, code, operands).0),
        define(st, code, operands).0.cache == st.cache,
        says(
            define(st, code, operands).0.module.sections[8],
            code as int,
            define(st, code, operands).1,
            operands,
        ),
{
    let after = define(st, code, operands).0;
    let rest = seq![st.module.fresh()] + operands;
    let inst = instruction(code, rest);
    lemma_instruction_says(code, rest);
    lemma_define_grew(st.module, code, operands);
    let n = st.module.sections[8].len() as int;
    assert(after.module.sections[8] =~= st.module.sections[8].push(inst));
    assert(after.module.sections[8][n] == inst);
    lemma_all_described_kept(discrs, st, after);
}

/// A structure type that was emitted says what it is made of.
proof fn lemma_define_struct_says(
    names: Names,
    discrs: Map<TyView, UintTy>,
    st: Lowering,
    members: Seq<u32>,
    fields: Seq<FieldView>,
    def_id: DefId,
)
    requires
        all_described(discrs, st),
    ensures
        ({
            let module = define_struct(names, st.module, members, fields, def_id);
            let after = Lowering { module, ..st };
            &&& all_described(discrs, after)
            &&& kept(st, after)
            &&& says(module.sections[8], 30, st.module.fresh(), members)
        }),
{
    lemma_define_says(discrs, st, OP_TYPE_STRUCT, members);
    lemma_define_struct_grew(names, st.module, members, fields, def_id);
    let module = define_struct(names, st.module, members, fields, def_id);
    let defined = define(st, OP_TYPE_STRUCT, members).0;
    let after = Lowering { module, ..st };
    assert(module.sections[8] == defined.module.sections[8]);
    lemma_all_described_kept(discrs, defined, after);
}

/// How large a type is, so that its parts are smaller.
spec fn height(ty: TyView) -> nat
    decreases ty,
{
    match ty {
        TyView::Tuple(items, _) => 1 + height_all(items),
        TyView::FnPtr { inputs, output, .. } => 1 + height(*output) + height_all(inputs),
        TyView::RawPtr { ty: inner, .. } => 1 + height(*inner),
        TyView::Ref { ty: inner, .. } => 1 + height(*inner),
        TyView::Adt { kind: AdtKindView::Struct { fields, .. }, .. } => 1 + height_fields(fields),
        TyView::Adt { kind: AdtKindView::Enum { variants }, .. } => 1 + height_variants(variants),
        _ => 0,
    }
}

spec fn height_all(tys: Seq<TyView>) -> nat
    decreases tys,
{
    if tys.len() == 0 {
        0
    } else {
        height_all(tys.drop_last()) + height(tys.last())
    }
}

spec fn height_fields(fields: Seq<FieldView>) -> nat
    decreases fields,
{
    if fields.len() == 0 {
        0
    } else {
        height_fields(fields.drop_last()) + height(fields.last().ty)
    }
}

spec fn height_variants(variants: Seq<VariantView>) -> nat
    decreases variants,
{
    if variants.len() == 0 {
        0
    } else {
        height_variants(variants.drop_last()) + height_fields(variants.last().fields)
    }
}

/// The types that were not remembered before are no larger than `bound`.
spec fn news_up_to(before: Lowering, after: Lowering, bound: int) -> bool {
    forall|ty: TyView| #[trigger]
        after.cache.contains_key(ty) && !before.cache.contains_key(ty) ==> height(ty) <= bound
}

proof fn lemma_first_field_height(fields: Seq<FieldView>)
    requires
        fields.len() > 0,
    ensures
        height(fields[0].ty) <= height_fields(fields),
    decreases fields.len(),
{
    if fields.len() > 1 {
        lemma_first_field_height(fields.drop_last());
    }
}

proof fn lemma_lower_news(names: Names, st: Lowering, ty: TyView)
    ensures
        news_up_to(st, lower(names, st, ty).0, height(ty) as int),
    decreases rank(ty), ty, 1nat,
{
    if !st.cache.contains_key(pointer_form(ty)) {
        lemma_emit_news(names, st, ty);
        assert(height(pointer_form(ty)) == height(ty));
    }
}

proof fn lemma_emit_news(names: Names, st: Lowering, ty: TyView)
    ensures
        news_up_to(st, emit(names, st, ty).0, height(ty) - 1),
    decreases rank(ty), ty, 0nat,
{
    match ty {
        TyView::Tuple(items, _) => {
            lemma_all_news(names, st, items);
        },
        TyView::FnPtr { inputs, output, .. } => {
            lemma_lower_news(names, st, *output);
            lemma_all_news(names, lower(names, st, *output).0, inputs);
        },
        TyView::RawPtr { ty: inner, .. } => {
            lemma_lower_news(names, st, *inner);
        },
        TyView::Ref { ty: inner, .. } => {
            lemma_lower_news(names, st, *inner);
        },
        TyView::Adt { kind, .. } => {
            match kind {
                AdtKindView::Struct { intrinsic, fields } => {
                    match intrinsic {
                        Some(_) => {
                            if fields.len() > 0 {
                                lemma_lower_news(names, st, fields[0].ty);
                                lemma_first_field_height(fields);
                            }
                        },
                        None => {
                            lemma_fields_news(names, st, fields);
                        },
                    }
                },
                AdtKindView::Enum { variants } => {
                    if names.discrs.contains_key(ty) {
                        let discr_ty = TyView::Uint(names.discrs[ty]);
                        lemma_lower_news(names, st, discr_ty);
                        lemma_variants_news(names, lower(names, st, discr_ty).0, variants);
                    }
                },
                AdtKindView::Union => {},
            }
        },
        _ => {},
    }
}

proof fn lemma_all_news(names: Names, st: Lowering, tys: Seq<TyView>)
    ensures
        news_up_to(st, lower_all(names, st, tys).0, height_all(tys) as int),
    decreases 1nat, tys, 0nat,
{
    if tys.len() > 0 {
        lemma_all_news(names, st, tys.drop_last());
        lemma_lower_news(names, lower_all(names, st, tys.drop_last()).0, tys.last());
    }
}

proof fn lemma_fields_news(names: Names, st: Lowering, fields: Seq<FieldView>)
    ensures
        news_up_to(st, lower_fields(names, st, fields).0, height_fields(fields) as int),
    decreases 1nat, fields, 0nat,
{
    if fields.len() > 0 {
        lemma_fields_news(names, st, fields.drop_last());
        lemma_lower_news(
            names,
            lower_fields(names, st, fields.drop_last()).0,
            fields.last().ty,
        );
    }
}

proof fn lemma_variants_news(names: Names, st: Lowering, variants: Seq<VariantView>)
    ensures
        news_up_to(st, lower_variants(names, st, variants).0, height_variants(variants) as int),
    decreases 1nat, variants, 0nat,
{
    if variants.len() > 0 {
        lemma_variants_news(names, st, variants.drop_last());
        lemma_fields_news(
            names,
            lower_variants(names, st, variants.drop_last()).0,
            variants.last().fields,
        );
    }
}

/// A type that was not remembered is not among the types that it is made of.
pub(crate) proof fn lemma_no_part_of_itself(names: Names, st: Lowering, ty: TyView)
    requires
        !st.cache.contains_key(pointer_form(ty)),
    ensures
        !emit(names, st, ty).0.cache.contains_key(pointer_form(ty)),
{
    lemma_emit_news(names, st, ty);
    assert(height(pointer_form(ty)) == height(ty));
}

/// Lowering gives the id under which the type is remembered, and the
/// instructions say of that id, and of all others, what the type is.
pub proof fn lemma_lower_describes(names: Names, st: Lowering, ty: TyView)
    requires
        all_described(names.discrs, st),
    ensures
        all_described(names.discrs, lower(names, st, ty).0),
        lower(names, st, ty).0.cache.contains_key(remembered_as(ty)),
        lower(names, st, ty).0.cache[remembered_as(ty)] == lower(names, st, ty).1,
        described(
            names.discrs,
            lower(names, st, ty).0.module.sections[8],
            lower(names, st, ty).0.cache,
            remembered_as(ty),
            lower(names, st, ty).1,
        ),
    decreases rank(ty), ty, 1nat,
{
    assert(pointer_form(ty) == remembered_as(ty));
    lemma_lower_grew(names, st, ty);
    if !st.cache.contains_key(pointer_form(ty)) {
        lemma_emit_describes(names, st, ty);
        lemma_no_part_of_itself(names, st, ty);
        let (before, id) = emit(names, st, ty);
        let after = lower(names, st, ty).0;
        assert(kept(before, after));
        lemma_described_kept(names.discrs, before, after, remembered_as(ty), id);
        assert forall|other: TyView| #[trigger] after.cache.contains_key(other) implies described(
            names.discrs,
            after.module.sections[8],
            after.cache,
            other,
            after.cache[other],
        ) by {
            if other != remembered_as(ty) {
                assert(before.cache.contains_key(other));
                lemma_described_kept(names.discrs, before, after, other, after.cache[other]);
            }
        }
    }
}

proof fn lemma_emit_describes(names: Names, st: Lowering, ty: TyView)
    requires
        all_described(names.discrs, st),
    ensures
        all_described(names.discrs, emit(names, st, ty).0),
        described(
            names.discrs,
            emit(names, st, ty).0.module.sections[8],
            emit(names, st, ty).0.cache,
            remembered_as(ty),
            emit(names, st, ty).1,
        ),
    decreases rank(ty), ty, 0nat,
{
    let discrs = names.discrs;
    match ty {
        TyView::Bool => {
            lemma_define_says(discrs, st, OP_TYPE_BOOL, seq![]);
        },
        TyView::Int(int_ty) => {
            lemma_define_says(discrs, st, OP_TYPE_INT, seq![int_ty.width(), 1u32]);
        },
        TyView::Uint(uint_ty) => {
            lemma_define_says(discrs, st, OP_TYPE_INT, seq![uint_ty.width(), 0u32]);
        },
        TyView::Float(FloatTy::F32) => {
            lemma_define_says(discrs, st, OP_TYPE_FLOAT, seq![32u32]);
        },
        TyView::Tuple(items, _) => {
            if items.len() == 0 {
                lemma_define_says(discrs, st, OP_TYPE_VOID, seq![]);
            } else {
                lemma_all_describe(names, st, items);
                let (after, ids) = lower_all(names, st, items);
                lemma_define_says(discrs, after, OP_TYPE_STRUCT, ids);
            }
        },
        TyView::FnPtr { inputs, output, .. } => {
            lemma_lower_describes(names, st, *output);
            let (returned, output_id) = lower(names, st, *output);
            lemma_lower_all_grew(names, returned, inputs);
            lemma_all_describe(names, returned, inputs);
            let (after, ids) = lower_all(names, returned, inputs);
            lemma_define_says(
                discrs,
                after,
                OP_TYPE_FUNCTION,
                seq![output_id] + ids,
            );
            assert(after.cache[remembered_as(*output)] == output_id);
        },
        TyView::RawPtr { ty: inner, .. } => {
            lemma_pointer_describes(names, st, *inner);
        },
        TyView::Ref { ty: inner, .. } => {
            lemma_pointer_describes(names, st, *inner);
        },
        TyView::Adt { did, kind, .. } => {
            match kind {
                AdtKindView::Struct { intrinsic, fields } => {
                    match intrinsic {
                        Some(IntrinsicType::Vec(dim)) => {
                            if fields.len() > 0 {
                                lemma_lower_describes(names, st, fields[0].ty);
                                let (after, id) = lower(names, st, fields[0].ty);
                                lemma_define_says(
                                    discrs,
                                    after,
                                    OP_TYPE_VECTOR,
                                    seq![id, low32(dim as int)],
                                );
                            }
                        },
                        None => {
                            lemma_fields_describe(names, st, fields);
                            let (after, ids) = lower_fields(names, st, fields);
                            lemma_define_struct_says(names, discrs, after, ids, fields, did);
                        },
                    }
                },
                AdtKindView::Enum { variants } => {
                    if discrs.contains_key(ty) {
                        let discr_ty = TyView::Uint(discrs[ty]);
                        lemma_lower_describes(names, st, discr_ty);
                        let (tagged, discr_id) = lower(names, st, discr_ty);
                        lemma_lower_variants_grew(names, tagged, variants);
                        lemma_variants_describe(names, tagged, variants);
                        let (after, ids) = lower_variants(names, tagged, variants);
                        assert(ids.push(discr_id) =~= ids + seq![discr_id]);
                        let fields = all_fields(variants);
                        lemma_define_struct_says(
                            names,
                            discrs,
                            after,
                            ids.push(discr_id),
                            fields,
                            did,
                        );
                        lemma_variants_said_kept(after, emit(names, st, ty).0, variants, ids);
                        assert(after.cache[discr_ty] == discr_id);
                    }
                },
                AdtKindView::Union => {},
            }
        },
        _ => {},
    }
}

proof fn lemma_pointer_describes(names: Names, st: Lowering, inner: TyView)
    requires
        all_described(names.discrs, st),
    ensures
        ({
            let (after, id) = lower(names, st, inner);
            let operands = seq![StorageClass::Function.number(), id];
            let (pointer, pointer_id) = define(after, OP_TYPE_POINTER, operands);
            &&& all_described(names.discrs, pointer)
            &&& pointer.cache.contains_key(remembered_as(inner))
            &&& says(
                pointer.module.sections[8],
                32,
                pointer_id,
                seq![7, pointer.cache[remembered_as(inner)]],
            )
        }),
    decreases rank(inner), inner, 2nat,
{
    lemma_lower_describes(names, st, inner);
    let (after, id) = lower(names, st, inner);
    lemma_define_says(
        names.discrs,
        after,
        OP_TYPE_POINTER,
        seq![StorageClass::Function.number(), id],
    );
}

proof fn lemma_all_describe(names: Names, st: Lowering, tys: Seq<TyView>)
    requires
        all_described(names.discrs, st),
    ensures
        all_described(names.discrs, lower_all(names, st, tys).0),
        remembered(lower_all(names, st, tys).0.cache, tys, lower_all(names, st, tys).1),
    decreases 1nat, tys, 0nat,
{
    if tys.len() > 0 {
        let rest = tys.drop_last();
        lemma_all_describe(names, st, rest);
        let (before, ids) = lower_all(names, st, rest);
        lemma_lower_grew(names, before, tys.last());
        lemma_lower_describes(names, before, tys.last());
        let after = lower_all(names, st, tys).0;
        assert forall|i: int| 0 <= i < tys.len() implies after.cache.contains_key(
            remembered_as(#[trigger] tys[i]),
        ) && after.cache[remembered_as(tys[i])] == lower_all(names, st, tys).1[i] by {
            if i < rest.len() {
                assert(rest[i] == tys[i]);
            }
        }
    }
}

proof fn lemma_fields_describe(names: Names, st: Lowering, fields: Seq<FieldView>)
    requires
        all_described(names.discrs, st),
    ensures
        all_described(names.discrs, lower_fields(names, st, fields).0),
        remembered(
            lower_fields(names, st, fields).0.cache,
            field_types(fields),
            lower_fields(names, st, fields).1,
        ),
    decreases 1nat, fields, 0nat,
{
    if fields.len() > 0 {
        let rest = fields.drop_last();
        lemma_fields_describe(names, st, rest);
        let (before, ids) = lower_fields(names, st, rest);
        lemma_lower_grew(names, before, fields.last().ty);
        lemma_lower_describes(names, before, fields.last().ty);
        let after = lower_fields(names, st, fields).0;
        let tys = field_types(fields);
        assert forall|i: int| 0 <= i < tys.len() implies after.cache.contains_key(
            remembered_as(#[trigger] tys[i]),
        ) && after.cache[remembered_as(tys[i])] == lower_fields(names, st, fields).1[i] by {
            if i < rest.len() {
                assert(field_types(rest)[i] == tys[i]);
            }
        }
    }
}

proof fn lemma_variants_describe(names: Names, st: Lowering, variants: Seq<VariantView>)
    requires
        all_described(names.discrs, st),
    ensures
        all_described(names.discrs, lower_variants(names, st, variants).0),
        variants_said(
            lower_variants(names, st, variants).0.module.sections[8],
            lower_variants(names, st, variants).0.cache,
            variants,
            lower_variants(names, st, variants).1,
        ),
    decreases 1nat, variants, 0nat,
{
    if variants.len() > 0 {
        let rest = variants.drop_last();
        let variant = variants.last();
        lemma_variants_describe(names, st, rest);
        let (before, ids) = lower_variants(names, st, rest);
        lemma_lower_fields_grew(names, before, variant.fields);
        lemma_fields_describe(names, before, variant.fields);
        let (after, members) = lower_fields(names, before, variant.fields);
        lemma_define_struct_says(
            names,
            names.discrs,
            after,
            members,
            variant.fields,
            variant.did,
        );
        let (whole, all) = lower_variants(names, st, variants);
        assert(kept(before, after));
        lemma_variants_said_kept(before, after, rest, ids);
        lemma_variants_said_kept(after, whole, rest, ids);
        assert(remembered(whole.cache, field_types(variant.fields), members));
        assert forall|i: int| 0 <= i < variants.len() implies structure_said(
            whole.module.sections[8],
            whole.cache,
            (#[trigger] variants[i]).fields,
            all[i],
        ) by {
            if i < rest.len() {
                assert(rest[i] == variants[i]);
            }
        }
    }
}

/// Emitting a constant leaves everything said.
pub proof fn lemma_constant_describes(names: Names, st: Constants, val: SpirvConstVal)
    requires
        all_described(names.discrs, st.lowering),
    ensures
        all_described(names.discrs, lower_constant(names, st, val).0.lowering),
{
    if !st.cache.contains_key(val) {
        lemma_lower_describes(names, st.lowering, val.ty());
        let before = lower(names, st.lowering, val.ty()).0;
        let after = lower_constant(names, st, val).0.lowering;
        assert(kept(before, after));
        lemma_all_described_kept(names.discrs, before, after);
    }
}

/// In a new context there is nothing to say.
pub proof fn lemma_initial_described(discrs: Map<TyView, UintTy>, st: Lowering)
    requires
        st.module == initial_module(),
        st.cache == Map::<TyView, u32>::empty(),
    ensures
        all_described(discrs, st),
{
}

} // verus!
