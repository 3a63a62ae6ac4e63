//! Types and constants are declared before they are used.

use vstd::prelude::*;

use crate::builder::ModuleState;
use crate::builder::StorageClass;
use crate::builder::GLOBALS;
use crate::constant::lower_constant;
use crate::constant::Constants;
use crate::constant::SpirvConstVal;
use crate::context::initial_module;
use crate::lower::all_fields;
use crate::lower::define;
use crate::lower::define_struct;
use crate::lower::emit;
use crate::lower::lemma_define_grew;
use crate::lower::lemma_define_struct_grew;
use crate::lower::lemma_lower_all_grew;
use crate::lower::lemma_lower_fields_grew;
use crate::lower::lemma_lower_grew;
use crate::lower::lemma_lower_variants_grew;
use crate::lower::lower;
use crate::lower::lower_all;
use crate::lower::lower_fields;
use crate::lower::lower_variants;
use crate::lower::module_kept;
use crate::lower::pointer_form;
use crate::lower::rank;
use crate::lower::starts_with;
use crate::lower::Lowering;
use crate::lower::Names;
use crate::ty::AdtKindView;
use crate::ty::DefId;
use crate::ty::FieldView;
use crate::ty::FloatTy;
use crate::ty::IntrinsicType;
use crate::ty::TyView;
use crate::ty::VariantView;
use crate::words::instruction;
use crate::words::low32;
use crate::words::OP_CONSTANT;
use crate::words::OP_TYPE_BOOL;
use crate::words::OP_TYPE_FLOAT;
use crate::words::OP_TYPE_FUNCTION;
use crate::words::OP_TYPE_INT;
use crate::words::OP_TYPE_POINTER;
use crate::words::OP_TYPE_STRUCT;
use crate::words::OP_TYPE_VECTOR;
use crate::words::OP_TYPE_VOID;

verus! {

/// The opcode of an instruction.
pub open spec fn opcode(inst: Seq<u32>) -> u32 {
    inst[0] % 0x1_0000
}

/// The id that a type or a constant declares.
pub open spec fn declares(inst: Seq<u32>) -> u32 {
    if opcode(inst) == OP_CONSTANT {
        inst[2]
    } else {
        inst[1]
    }
}

/// The ids of the types that a type or a constant is made of.
pub open spec fn uses(inst: Seq<u32>) -> Seq<u32> {
    if opcode(inst) == OP_TYPE_STRUCT || opcode(inst) == OP_TYPE_FUNCTION {
        inst.skip(2)
    } else if opcode(inst) == OP_TYPE_POINTER {
        seq![inst[3]]
    } else if opcode(inst) == OP_TYPE_VECTOR {
        seq![inst[2]]
    } else if opcode(inst) == OP_CONSTANT {
        seq![inst[1]]
    } else {
        seq![]
    }
}

/// One of the instructions declares the id.
pub open spec fn declared(insts: Seq<Seq<u32>>, id: u32) -> bool {
    exists|j: int| 0 <= j < insts.len() && declares(#[trigger] insts[j]) == id
}

/// Each of the ids is declared by one of the instructions, or is zero, which
/// stands for the never type and is declared nowhere.
pub open spec fn all_declared(insts: Seq<Seq<u32>>, ids: Seq<u32>) -> bool {
    forall|i: int| 0 <= i < ids.len() ==> #[trigger] ids[i] == 0 || declared(insts, ids[i])
}

/// Every type and every constant of a module uses ids alone that are declared by
/// instructions before its own, but for zero.
pub open spec fn in_order(module: ModuleState) -> bool {
    forall|k: int|
        0 <= k < module.globals().len() ==> all_declared(
            module.globals().take(k),
            uses(#[trigger] module.globals()[k]),
        )
}

/// A state of lowering whose module is in order, and which knows no id that is
/// not declared, but for zero.
pub open spec fn ordered(st: Lowering) -> bool {
    &&& st.module.wf()
    &&& 0 <= st.module.next_id
    &&& forall|ty: TyView| #[trigger]
        st.cache.contains_key(ty) ==> st.cache[ty] == 0 || declared(
            st.module.globals(),
            st.cache[ty],
        )
    &&& in_order(st.module)
}

/// What is declared stays declared.
proof fn lemma_declared_kept(before: ModuleState, after: ModuleState, ids: Seq<u32>)
    requires
        before.wf(),
        module_kept(before, after),
        all_declared(before.globals(), ids),
    ensures
        all_declared(after.globals(), ids),
{
    assert(starts_with(after.sections[GLOBALS as int], before.sections[GLOBALS as int]));
    assert forall|i: int| 0 <= i < ids.len() implies #[trigger] ids[i] == 0 || declared(
        after.globals(),
        ids[i],
    ) by {
        if ids[i] != 0 {
            let j = choose|j: int|
                0 <= j < before.globals().len() && declares(#[trigger] before.globals()[j])
                    == ids[i];
            assert(after.globals()[j] == before.globals()[j]);
        }
    }
}

proof fn lemma_all_declared_joined(insts: Seq<Seq<u32>>, ids: Seq<u32>, id: u32)
    requires
        all_declared(insts, ids),
        all_declared(insts, seq![id]),
    ensures
        all_declared(insts, ids.push(id)),
        all_declared(insts, seq![id] + ids),
{
    assert(seq![id][0] == id);
    assert forall|i: int| 0 <= i < ids.len() + 1 implies #[trigger] (seq![id] + ids)[i] == 0
        || declared(insts, (seq![id] + ids)[i]) by {
        if i > 0 {
            assert((seq![id] + ids)[i] == ids[i - 1]);
        }
    }
}

proof fn lemma_opcode(code: u32, rest: Seq<u32>)
    requires
        code < 0x1_0000,
    ensures
        opcode(instruction(code, rest)) == code,
        instruction(code, rest).skip(1) == rest,
        instruction(code, rest).len() == rest.len() + 1,
{
    let count = (rest.len() + 1) % 0x1_0000;
    assert((code + count * 0x1_0000) % 0x1_0000 == code);
    assert(instruction(code, rest).skip(1) =~= rest);
}

/// What the operands of a new type must satisfy for the module to stay in
/// order.
spec fn fit(code: u32, operands: Seq<u32>, insts: Seq<Seq<u32>>) -> bool {
    if code == OP_TYPE_STRUCT || code == OP_TYPE_FUNCTION {
        all_declared(insts, operands)
    } else if code == OP_TYPE_POINTER {
        operands.len() == 2 && all_declared(insts, seq![operands[1]])
    } else if code == OP_TYPE_VECTOR {
        operands.len() == 2 && all_declared(insts, seq![operands[0]])
    } else {
        code != OP_CONSTANT
    }
}

/// A module in order stays so with one instruction more that uses declared ids,
/// and then declares the id of that instruction too.
proof fn lemma_append_in_order(module: ModuleState, after: ModuleState, inst: Seq<u32>)
    requires
        in_order(module),
        after.globals() == module.globals().push(inst),
        all_declared(module.globals(), uses(inst)),
    ensures
        in_order(after),
        declared(after.globals(), declares(inst)),
{
    let insts = module.globals();
    assert forall|k: int| 0 <= k < after.globals().len() implies all_declared(
        after.globals().take(k),
        uses(#[trigger] after.globals()[k]),
    ) by {
        if k < insts.len() {
            assert(after.globals()[k] == insts[k]);
            assert(after.globals().take(k) =~= insts.take(k));
        } else {
            assert(after.globals().take(k) =~= insts);
        }
    }
    assert(after.globals()[insts.len() as int] == inst);
}

proof fn lemma_define_type_in_order(st: Lowering, code: u32, operands: Seq<u32>)
    requires
        ordered(st),
        code < 0x1_0000,
        fit(code, operands, st.module.globals()),
    ensures
        ordered(define(st, code, operands).0),
        declared(define(st, code, operands).0.module.globals(), st.module.fresh()),
{
    let module = st.module;
    let inst = instruction(code, seq![module.fresh()] + operands);
    lemma_opcode(code, seq![module.fresh()] + operands);
    assert(inst[1] == module.fresh());
    assert(forall|i: int| 0 <= i < operands.len() ==> inst[2 + i] == #[trigger] operands[i]);
    assert(inst.skip(2) =~= operands);
    if code == OP_TYPE_POINTER {
        assert(inst[3] == operands[1]);
    } else if code == OP_TYPE_VECTOR {
        assert(inst[2] == operands[0]);
    }
    let after = module.define_type(code, operands);
    assert(after.globals() =~= module.globals().push(inst));
    lemma_append_in_order(module, after, inst);
    lemma_define_grew(module, code, operands);
    lemma_cache_declared(st, after);
}

/// The ids of the types lowered so far stay declared.
proof fn lemma_cache_declared(st: Lowering, after: ModuleState)
    requires
        ordered(st),
        module_kept(st.module, after),
    ensures
        forall|ty: TyView| #[trigger]
            st.cache.contains_key(ty) ==> st.cache[ty] == 0 || declared(
                after.globals(),
                st.cache[ty],
            ),
{
    assert forall|ty: TyView| #[trigger] st.cache.contains_key(ty) implies st.cache[ty] == 0
        || declared(after.globals(), st.cache[ty]) by {
        let ids = seq![st.cache[ty]];
        lemma_declared_kept(st.module, after, ids);
        assert(ids[0] == st.cache[ty]);
    }
}

proof fn lemma_define_struct_in_order(
    names: Names,
    st: Lowering,
    members: Seq<u32>,
    fields: Seq<FieldView>,
    def_id: DefId,
)
    requires
        ordered(st),
        all_declared(st.module.globals(), members),
    ensures
        ordered(
            Lowering { module: define_struct(names, st.module, members, fields, def_id), ..st },
        ),
        declared(
            define_struct(names, st.module, members, fields, def_id).globals(),
            st.module.fresh(),
        ),
{
    lemma_define_type_in_order(st, OP_TYPE_STRUCT, members);
    lemma_define_struct_grew(names, st.module, members, fields, def_id);
    let after = define_struct(names, st.module, members, fields, def_id);
    assert(after.globals() == st.module.define_type(OP_TYPE_STRUCT, members).globals());
}

/// Lowering declares every type after the types that it is made of, and the id
/// that it gives is declared, or zero.
pub proof fn lemma_lower_in_order(names: Names, st: Lowering, ty: TyView)
    requires
        ordered(st),
    ensures
        ordered(lower(names, st, ty).0),
        all_declared(lower(names, st, ty).0.module.globals(), seq![lower(names, st, ty).1]),
    decreases rank(ty), ty, 1nat,
{
    lemma_lower_grew(names, st, ty);
    if !st.cache.contains_key(pointer_form(ty)) {
        lemma_emit_in_order(names, st, ty);
        let id = emit(names, st, ty).1;
        assert(seq![id][0] == id);
    }
}

proof fn lemma_emit_in_order(names: Names, st: Lowering, ty: TyView)
    requires
        ordered(st),
    ensures
        ordered(emit(names, st, ty).0),
        all_declared(emit(names, st, ty).0.module.globals(), seq![emit(names, st, ty).1]),
    decreases rank(ty), ty, 0nat,
{
    match ty {
        TyView::Bool => {
            lemma_define_type_in_order(st, OP_TYPE_BOOL, seq![]);
        },
        TyView::Int(int_ty) => {
            lemma_define_type_in_order(st, OP_TYPE_INT, seq![int_ty.width(), 1u32]);
        },
        TyView::Uint(uint_ty) => {
            lemma_define_type_in_order(st, OP_TYPE_INT, seq![uint_ty.width(), 0u32]);
        },
        TyView::Float(FloatTy::F32) => {
            lemma_define_type_in_order(st, OP_TYPE_FLOAT, seq![32u32]);
        },
        TyView::Tuple(items, _) => {
            if items.len() > 0 {
                lemma_lower_all_in_order(names, st, items);
                let (after, ids) = lower_all(names, st, items);
                lemma_define_type_in_order(after, OP_TYPE_STRUCT, ids);
            } else {
                lemma_define_type_in_order(st, OP_TYPE_VOID, seq![]);
            }
        },
        TyView::FnPtr { inputs, output, .. } => {
            let (returned, output_id) = lower(names, st, *output);
            lemma_lower_grew(names, st, *output);
            lemma_lower_all_grew(names, returned, inputs);
            lemma_lower_in_order(names, st, *output);
            lemma_lower_all_in_order(names, returned, inputs);
            let (after, ids) = lower_all(names, returned, inputs);
            lemma_declared_kept(returned.module, after.module, seq![output_id]);
            lemma_all_declared_joined(after.module.globals(), ids, output_id);
            lemma_define_type_in_order(after, OP_TYPE_FUNCTION, seq![output_id] + ids);
        },
        TyView::RawPtr { ty: inner, .. } => {
            lemma_pointer_in_order(names, st, *inner);
        },
        TyView::Ref { ty: inner, .. } => {
            lemma_pointer_in_order(names, st, *inner);
        },
        TyView::Adt { did, kind, .. } => {
            match kind {
                AdtKindView::Struct { intrinsic, fields } => {
                    match intrinsic {
                        Some(IntrinsicType::Vec(dim)) => {
                            if fields.len() > 0 {
                                lemma_lower_in_order(names, st, fields[0].ty);
                                let (after, id) = lower(names, st, fields[0].ty);
                                lemma_define_type_in_order(
                                    after,
                                    OP_TYPE_VECTOR,
                                    seq![id, low32(dim as int)],
                                );
                            }
                        },
                        None => {
                            let (after, ids) = lower_fields(names, st, fields);
                            lemma_lower_fields_grew(names, st, fields);
                            lemma_define_struct_grew(names, after.module, ids, fields, did);
                            lemma_lower_fields_in_order(names, st, fields);
                            lemma_define_struct_in_order(names, after, ids, fields, did);
                        },
                    }
                },
                AdtKindView::Enum { variants } => {
                    if names.discrs.contains_key(ty) {
                        let discr_ty = TyView::Uint(names.discrs[ty]);
                        lemma_lower_grew(names, st, discr_ty);
                        let (tagged, discr_id) = lower(names, st, discr_ty);
                        lemma_lower_variants_grew(names, tagged, variants);
                        let (after, ids) = lower_variants(names, tagged, variants);
                        let members = ids.push(discr_id);
                        let fields = all_fields(variants);
                        lemma_define_struct_grew(names, after.module, members, fields, did);
                        lemma_lower_in_order(names, st, discr_ty);
                        lemma_lower_variants_in_order(names, tagged, variants);
                        lemma_declared_kept(tagged.module, after.module, seq![discr_id]);
                        lemma_all_declared_joined(after.module.globals(), ids, discr_id);
                        lemma_define_struct_in_order(names, after, members, fields, did);
                    }
                },
                AdtKindView::Union => {},
            }
        },
        _ => {},
    }
}

proof fn lemma_pointer_in_order(names: Names, st: Lowering, inner: TyView)
    requires
        ordered(st),
    ensures
        ({
            let (after, id) = lower(names, st, inner);
            let operands = seq![StorageClass::Function.number(), id];
            let pointer = define(after, OP_TYPE_POINTER, operands).0;
            ordered(pointer) && declared(pointer.module.globals(), after.module.fresh())
        }),
    decreases rank(inner), inner, 2nat,
{
    lemma_lower_in_order(names, st, inner);
    let (after, id) = lower(names, st, inner);
    lemma_define_type_in_order(
        after,
        OP_TYPE_POINTER,
        seq![StorageClass::Function.number(), id],
    );
}

proof fn lemma_lower_all_in_order(names: Names, st: Lowering, tys: Seq<TyView>)
    requires
        ordered(st),
    ensures
        ordered(lower_all(names, st, tys).0),
        all_declared(lower_all(names, st, tys).0.module.globals(), lower_all(names, st, tys).1),
    decreases 1nat, tys, 0nat,
{
    if tys.len() > 0 {
        let before = lower_all(names, st, tys.drop_last()).0;
        lemma_lower_all_grew(names, st, tys.drop_last());
        lemma_lower_grew(names, before, tys.last());
        lemma_lower_all_in_order(names, st, tys.drop_last());
        lemma_lower_in_order(names, before, tys.last());
        let ids = lower_all(names, st, tys.drop_last()).1;
        let (after, id) = lower(names, before, tys.last());
        lemma_declared_kept(before.module, after.module, ids);
        lemma_all_declared_joined(after.module.globals(), ids, id);
    }
}

proof fn lemma_lower_fields_in_order(names: Names, st: Lowering, fields: Seq<FieldView>)
    requires
        ordered(st),
    ensures
        ordered(lower_fields(names, st, fields).0),
        all_declared(
            lower_fields(names, st, fields).0.module.globals(),
            lower_fields(names, st, fields).1,
        ),
    decreases 1nat, fields, 0nat,
{
    if fields.len() > 0 {
        let before = lower_fields(names, st, fields.drop_last()).0;
        lemma_lower_fields_grew(names, st, fields.drop_last());
        lemma_lower_grew(names, before, fields.last().ty);
        lemma_lower_fields_in_order(names, st, fields.drop_last());
        lemma_lower_in_order(names, before, fields.last().ty);
        let ids = lower_fields(names, st, fields.drop_last()).1;
        let (after, id) = lower(names, before, fields.last().ty);
        lemma_declared_kept(before.module, after.module, ids);
        lemma_all_declared_joined(after.module.globals(), ids, id);
    }
}

proof fn lemma_lower_variants_in_order(names: Names, st: Lowering, variants: Seq<VariantView>)
    requires
        ordered(st),
    ensures
        ordered(lower_variants(names, st, variants).0),
        all_declared(
            lower_variants(names, st, variants).0.module.globals(),
            lower_variants(names, st, variants).1,
        ),
    decreases 1nat, variants, 0nat,
{
    if variants.len() > 0 {
        let before = lower_variants(names, st, variants.drop_last()).0;
        let variant = variants.last();
        lemma_lower_variants_grew(names, st, variants.drop_last());
        lemma_lower_fields_grew(names, before, variant.fields);
        let (after, members) = lower_fields(names, before, variant.fields);
        lemma_define_struct_grew(names, after.module, members, variant.fields, variant.did);
        lemma_lower_variants_in_order(names, st, variants.drop_last());
        lemma_lower_fields_in_order(names, before, variant.fields);
        lemma_define_struct_in_order(names, after, members, variant.fields, variant.did);
        let ids = lower_variants(names, st, variants.drop_last()).1;
        let defined = lower_variants(names, st, variants).0.module;
        lemma_declared_kept(before.module, after.module, ids);
        lemma_declared_kept(after.module, defined, ids);
        lemma_all_declared_joined(defined.globals(), ids, after.module.fresh());
    }
}

/// A constant is declared after its type.
pub proof fn lemma_constant_in_order(names: Names, st: Constants, val: SpirvConstVal)
    requires
        ordered(st.lowering),
    ensures
        ordered(lower_constant(names, st, val).0.lowering),
{
    if !st.cache.contains_key(val) {
        lemma_lower_in_order(names, st.lowering, val.ty());
        let (after, ty_id) = lower(names, st.lowering, val.ty());
        let rest = seq![ty_id, after.module.fresh(), val.literal()];
        let inst = instruction(OP_CONSTANT, rest);
        lemma_opcode(OP_CONSTANT, rest);
        assert(inst[1] == rest[0] && inst[2] == rest[1]);
        let defined = after.module.define_constant(ty_id, val.literal());
        assert(defined.globals() =~= after.module.globals().push(inst));
        lemma_append_in_order(after.module, defined, inst);
        lemma_cache_declared(after, defined);
    }
}

/// The module that a context starts with is in order.
pub proof fn lemma_initial_in_order(st: Lowering)
    requires
        st.module == initial_module(),
        st.cache == Map::<TyView, u32>::empty(),
    ensures
        ordered(st),
{
}

} // verus!
