//! What lowering a type to SPIR-V means: which instructions are emitted, which
//! id stands for the type, and what is remembered for later.

use vstd::prelude::*;

use crate::builder::member_name_instruction;
use crate::builder::name_instruction;
use crate::builder::ModuleState;
use crate::builder::StorageClass;
use crate::builder::DEBUGS;
use crate::builder::GLOBALS;
use crate::ty::AdtKindView;
use crate::ty::DefId;
use crate::ty::FieldView;
use crate::ty::FloatTy;
use crate::ty::IntrinsicType;
use crate::ty::Mutability;
use crate::ty::TyView;
use crate::ty::UintTy;
use crate::ty::VariantView;
use crate::words::low32;
use crate::words::OP_TYPE_BOOL;
use crate::words::OP_TYPE_FLOAT;
use crate::words::OP_TYPE_FUNCTION;
use crate::words::OP_TYPE_INT;
use crate::words::OP_TYPE_POINTER;
use crate::words::OP_TYPE_STRUCT;
use crate::words::OP_TYPE_VECTOR;
use crate::words::OP_TYPE_VOID;

verus! {

/// What lowering reads beside the type: whether names are emitted, the names of
/// the local definitions by their keys, and the types of the discriminants of
/// enumerations.
pub struct Names {
    pub debug_symbols: bool,
    pub local: Map<u64, Seq<char>>,
    pub discrs: Map<TyView, UintTy>,
}

/// What lowering changes: the module, and the types lowered so far with the
/// ids that stand for them.
#[verifier::ext_equal]
pub struct Lowering {
    pub module: ModuleState,
    pub cache: Map<TyView, u32>,
}

/// A reference is lowered as the mutable raw pointer to the same type; every
/// other type as itself.
pub open spec fn pointer_form(ty: TyView) -> TyView {
    match ty {
        TyView::Ref { ty: inner, .. } => TyView::RawPtr { ty: inner, mutbl: Mutability::Mutable },
        _ => ty,
    }
}

/// The debug instructions that name the members of a structure type.
pub open spec fn member_names(target: u32, fields: Seq<FieldView>) -> Seq<Seq<u32>> {
    Seq::new(
        fields.len(),
        |i: int| member_name_instruction(target, low32(i), fields[i].name),
    )
}

/// All fields of all variants, in order.
pub open spec fn all_fields(variants: Seq<VariantView>) -> Seq<FieldView>
    decreases variants.len(),
{
    if variants.len() == 0 {
        seq![]
    } else {
        all_fields(variants.drop_last()) + variants.last().fields
    }
}

/// The module after the target of `id` got the name of a definition, which
/// happens where names are emitted and the definition is local.
pub open spec fn name_definition(
    names: Names,
    module: ModuleState,
    def_id: DefId,
    id: u32,
) -> ModuleState {
    if names.debug_symbols && names.local.contains_key(def_id.key()) {
        module.extend(DEBUGS, seq![name_instruction(id, names.local[def_id.key()])])
    } else {
        module
    }
}

/// The module after a structure type was emitted and, where names are emitted,
/// its members and itself were named.
pub open spec fn define_struct(
    names: Names,
    module: ModuleState,
    members: Seq<u32>,
    fields: Seq<FieldView>,
    def_id: DefId,
) -> ModuleState {
    let id = module.fresh();
    let defined = module.define_type(OP_TYPE_STRUCT, members);
    let described = if names.debug_symbols {
        defined.extend(DEBUGS, member_names(id, fields))
    } else {
        defined
    };
    name_definition(names, described, def_id, id)
}

/// Unsigned integers rank below all other types. (The type of a discriminant is
/// one, and is no part of the enumeration.)
pub open spec fn rank(ty: TyView) -> nat {
    if ty is Uint {
        0
    } else {
        1
    }
}

/// Lowers a type that contains no type parameter: a type that was lowered
/// before keeps its id and nothing is emitted; any other is emitted and
/// remembered.
pub open spec fn lower(names: Names, st: Lowering, ty: TyView) -> (Lowering, u32)
    decreases rank(ty), ty, 1nat,
{
    let key = pointer_form(ty);
    if st.cache.contains_key(key) {
        (st, st.cache[key])
    } else {
        let (after, id) = emit(names, st, ty);
        (Lowering { module: after.module, cache: after.cache.insert(key, id) }, id)
    }
}

/// Emits the instructions for a type: first those for the types that it is
/// made of, then its own.
pub open spec fn emit(names: Names, st: Lowering, ty: TyView) -> (Lowering, u32)
    decreases rank(ty), ty, 0nat,
{
    match ty {
        TyView::Never => (st, 0),
        TyView::Bool => define(st, OP_TYPE_BOOL, seq![]),
        TyView::Int(int_ty) => define(st, OP_TYPE_INT, seq![int_ty.width(), 1u32]),
        TyView::Uint(uint_ty) => define(st, OP_TYPE_INT, seq![uint_ty.width(), 0u32]),
        TyView::Float(FloatTy::F32) => define(st, OP_TYPE_FLOAT, seq![32u32]),
        TyView::Tuple(items, _) => {
            if items.len() == 0 {
                define(st, OP_TYPE_VOID, seq![])
            } else {
                let (after, ids) = lower_all(names, st, items);
                define(after, OP_TYPE_STRUCT, ids)
            }
        },
        TyView::FnPtr { inputs, output, .. } => {
            let (returned, output_id) = lower(names, st, *output);
            let (after, input_ids) = lower_all(names, returned, inputs);
            define(after, OP_TYPE_FUNCTION, seq![output_id] + input_ids)
        },
        TyView::RawPtr { ty: inner, .. } => {
            let (after, id) = lower(names, st, *inner);
            define(after, OP_TYPE_POINTER, seq![StorageClass::Function.number(), id])
        },
        TyView::Ref { ty: inner, .. } => {
            let (after, id) = lower(names, st, *inner);
            define(after, OP_TYPE_POINTER, seq![StorageClass::Function.number(), id])
        },
        TyView::Adt { did, kind, .. } => {
            match kind {
                AdtKindView::Struct { intrinsic, fields } => {
                    match intrinsic {
                        Some(IntrinsicType::Vec(dim)) => {
                            if fields.len() == 0 {
                                (st, 0)
                            } else {
                                let (after, id) = lower(names, st, fields[0].ty);
                                define(after, OP_TYPE_VECTOR, seq![id, low32(dim as int)])
                            }
                        },
                        None => {
                            let (after, ids) = lower_fields(names, st, fields);
                            (
                                Lowering {
                                    module: define_struct(names, after.module, ids, fields, did),
                                    ..after
                                },
                                after.module.fresh(),
                            )
                        },
                    }
                },
                AdtKindView::Enum { variants } => {
                    if names.discrs.contains_key(ty) {
                        let discr_ty = TyView::Uint(names.discrs[ty]);
                        let (tagged, discr_id) = lower(names, st, discr_ty);
                        let (after, ids) = lower_variants(names, tagged, variants);
                        (
                            Lowering {
                                module: define_struct(
                                    names,
                                    after.module,
                                    ids.push(discr_id),
                                    all_fields(variants),
                                    did,
                                ),
                                ..after
                            },
                            after.module.fresh(),
                        )
                    } else {
                        (st, 0)
                    }
                },
                AdtKindView::Union => (st, 0),
            }
        },
        _ => (st, 0),
    }
}

/// Emits one type instruction.
pub open spec fn define(st: Lowering, opcode: u32, operands: Seq<u32>) -> (Lowering, u32) {
    (Lowering { module: st.module.define_type(opcode, operands), ..st }, st.module.fresh())
}

/// Lowers types one after the other.
pub open spec fn lower_all(names: Names, st: Lowering, tys: Seq<TyView>) -> (Lowering, Seq<u32>)
    decreases 1nat, tys, 0nat,
{
    if tys.len() == 0 {
        (st, seq![])
    } else {
        let (before, ids) = lower_all(names, st, tys.drop_last());
        let (after, id) = lower(names, before, tys.last());
        (after, ids.push(id))
    }
}

/// Lowers the types of fields one after the other.
pub open spec fn lower_fields(names: Names, st: Lowering, fields: Seq<FieldView>) -> (
    Lowering,
    Seq<u32>,
)
    decreases 1nat, fields, 0nat,
{
    if fields.len() == 0 {
        (st, seq![])
    } else {
        let (before, ids) = lower_fields(names, st, fields.drop_last());
        let (after, id) = lower(names, before, fields.last().ty);
        (after, ids.push(id))
    }
}

/// Emits a structure type for each variant, one after the other.
pub open spec fn lower_variants(names: Names, st: Lowering, variants: Seq<VariantView>) -> (
    Lowering,
    Seq<u32>,
)
    decreases 1nat, variants, 0nat,
{
    if variants.len() == 0 {
        (st, seq![])
    } else {
        let (before, ids) = lower_variants(names, st, variants.drop_last());
        let variant = variants.last();
        let (after, members) = lower_fields(names, before, variant.fields);
        (
            Lowering {
                module: define_struct(names, after.module, members, variant.fields, variant.did),
                ..after
            },
            ids.push(after.module.fresh()),
        )
    }
}

/// `after` starts with `before`.
pub open spec fn starts_with<A>(after: Seq<A>, before: Seq<A>) -> bool {
    &&& before.len() <= after.len()
    &&& forall|i: int| 0 <= i < before.len() ==> after[i] == #[trigger] before[i]
}

/// Nothing was taken back between two states of a module: every section still
/// starts with what it held, ids only grow, nothing but debug instructions and
/// types or constants was added, and nothing that cannot be written out.
pub open spec fn module_kept(before: ModuleState, after: ModuleState) -> bool {
    &&& before.next_id <= after.next_id
    &&& before.version == after.version
    &&& before.assembles == after.assembles
    &&& before.sections.len() == after.sections.len()
    &&& forall|k: int|
        0 <= k < before.sections.len() ==> starts_with(
            #[trigger] after.sections[k],
            before.sections[k],
        )
    &&& forall|k: int|
        0 <= k < before.sections.len() && k != DEBUGS && k != GLOBALS
            ==> #[trigger] after.sections[k] == before.sections[k]
}

/// Types were emitted between two states of a module: nothing was taken back,
/// and each id that was handed out is the result of one new type instruction,
/// in order.
pub open spec fn module_grew(before: ModuleState, after: ModuleState) -> bool {
    &&& module_kept(before, after)
    &&& after.globals().len() - before.globals().len() == after.next_id - before.next_id
    &&& forall|k: int|
        before.globals().len() <= k < after.globals().len() ==> (#[trigger] after.globals()[k])[1]
            == (before.next_id + (k - before.globals().len())) as u32
}

/// An id was handed out between two states of a module, or is zero.
pub open spec fn handed_out(before: ModuleState, after: ModuleState, id: u32) -> bool {
    id == 0 || before.next_id <= id < after.next_id
}

/// Types were emitted between two states of lowering. Every type that was
/// lowered before keeps its id, and every other has an id that was handed out
/// in between (as long as there are ids) or zero.
pub open spec fn grew(before: Lowering, after: Lowering) -> bool {
    &&& module_grew(before.module, after.module)
    &&& after.module.next_id <= u32::MAX ==> forall|ty: TyView| #[trigger]
        after.cache.contains_key(ty) && !before.cache.contains_key(ty) ==> handed_out(
            before.module,
            after.module,
            after.cache[ty],
        )
    &&& forall|ty: TyView| #[trigger]
        before.cache.contains_key(ty) ==> after.cache.contains_key(ty) && after.cache[ty]
            == before.cache[ty]
}

proof fn lemma_extend_grew(module: ModuleState, instructions: Seq<Seq<u32>>)
    requires
        module.wf(),
    ensures
        module_grew(module, module.extend(DEBUGS, instructions)),
{
}

pub(crate) proof fn lemma_define_grew(module: ModuleState, opcode: u32, operands: Seq<u32>)
    requires
        module.wf(),
    ensures
        module_grew(module, module.define_type(opcode, operands)),
{
}

pub(crate) proof fn lemma_define_struct_grew(
    names: Names,
    module: ModuleState,
    members: Seq<u32>,
    fields: Seq<FieldView>,
    def_id: DefId,
)
    requires
        module.wf(),
    ensures
        module_grew(module, define_struct(names, module, members, fields, def_id)),
        define_struct(names, module, members, fields, def_id).next_id == module.next_id + 1,
{
    let id = module.fresh();
    let defined = module.define_type(OP_TYPE_STRUCT, members);
    lemma_define_grew(module, OP_TYPE_STRUCT, members);
    lemma_extend_grew(defined, member_names(id, fields));
    let described = if names.debug_symbols {
        defined.extend(DEBUGS, member_names(id, fields))
    } else {
        defined
    };
    lemma_extend_grew(described, seq![name_instruction(id, names.local[def_id.key()])]);
    lemma_module_grew_transitive(module, defined, described);
    lemma_module_grew_transitive(module, described, name_definition(names, described, def_id, id));
}

proof fn lemma_module_grew_transitive(a: ModuleState, b: ModuleState, c: ModuleState)
    requires
        a.wf(),
        module_grew(a, b),
        module_grew(b, c),
    ensures
        module_grew(a, c),
{
    assert forall|k: int| 0 <= k < a.sections.len() implies starts_with(
        #[trigger] c.sections[k],
        a.sections[k],
    ) by {
        assert(starts_with(b.sections[k], a.sections[k]));
        assert forall|i: int| 0 <= i < a.sections[k].len() implies c.sections[k][i]
            == #[trigger] a.sections[k][i] by {
            assert(b.sections[k][i] == a.sections[k][i]);
        }
    }
    assert forall|k: int|
        0 <= k < a.sections.len() && k != DEBUGS && k != GLOBALS implies #[trigger] c.sections[k]
        == a.sections[k] by {
        assert(b.sections[k] == a.sections[k]);
    }
    assert forall|k: int| a.globals().len() <= k < c.globals().len() implies (
    #[trigger] c.globals()[k])[1] == (a.next_id + (k - a.globals().len())) as u32 by {
        if k < b.globals().len() {
            assert(starts_with(c.sections[GLOBALS as int], b.sections[GLOBALS as int]));
            assert(c.globals()[k] == b.globals()[k]);
        }
    }
}

proof fn lemma_grew_transitive(a: Lowering, b: Lowering, c: Lowering)
    requires
        a.module.wf(),
        grew(a, b),
        grew(b, c),
    ensures
        grew(a, c),
{
    lemma_module_grew_transitive(a.module, b.module, c.module);
}

/// Lowering takes nothing back: what was emitted stays, and every type lowered
/// before keeps its id. Each id that it hands out is the result of one new type
/// instruction, in order.
pub proof fn lemma_lower_grew(names: Names, st: Lowering, ty: TyView)
    requires
        st.module.wf(),
        0 <= st.module.next_id,
    ensures
        grew(st, lower(names, st, ty).0),
    decreases rank(ty), ty, 1nat,
{
    if !st.cache.contains_key(pointer_form(ty)) {
        lemma_emit_grew(names, st, ty);
    }
}

pub(crate) proof fn lemma_emit_grew(names: Names, st: Lowering, ty: TyView)
    requires
        st.module.wf(),
        0 <= st.module.next_id,
    ensures
        grew(st, emit(names, st, ty).0),
        emit(names, st, ty).0.module.next_id <= u32::MAX ==> handed_out(
            st.module,
            emit(names, st, ty).0.module,
            emit(names, st, ty).1,
        ),
    decreases rank(ty), ty, 0nat,
{
    match ty {
        TyView::Tuple(items, _) => {
            if items.len() > 0 {
                lemma_lower_all_grew(names, st, items);
                let after = lower_all(names, st, items).0;
                lemma_grew_transitive(st, after, emit(names, st, ty).0);
            }
        },
        TyView::FnPtr { inputs, output, .. } => {
            lemma_lower_grew(names, st, *output);
            let returned = lower(names, st, *output).0;
            lemma_lower_all_grew(names, returned, inputs);
            let after = lower_all(names, returned, inputs).0;
            lemma_grew_transitive(st, returned, after);
            lemma_grew_transitive(st, after, emit(names, st, ty).0);
        },
        TyView::RawPtr { ty: inner, .. } => {
            lemma_lower_grew(names, st, *inner);
            lemma_grew_transitive(st, lower(names, st, *inner).0, emit(names, st, ty).0);
        },
        TyView::Ref { ty: inner, .. } => {
            lemma_lower_grew(names, st, *inner);
            lemma_grew_transitive(st, lower(names, st, *inner).0, emit(names, st, ty).0);
        },
        TyView::Adt { did, kind, .. } => {
            match kind {
                AdtKindView::Struct { intrinsic, fields } => {
                    match intrinsic {
                        Some(_) => {
                            if fields.len() > 0 {
                                lemma_lower_grew(names, st, fields[0].ty);
                                lemma_grew_transitive(
                                    st,
                                    lower(names, st, fields[0].ty).0,
                                    emit(names, st, ty).0,
                                );
                            }
                        },
                        None => {
                            lemma_lower_fields_grew(names, st, fields);
                            let (after, ids) = lower_fields(names, st, fields);
                            lemma_define_struct_grew(names, after.module, ids, fields, did);
                            lemma_grew_transitive(st, after, emit(names, st, ty).0);
                        },
                    }
                },
                AdtKindView::Enum { variants } => {
                    if names.discrs.contains_key(ty) {
                        let discr_ty = TyView::Uint(names.discrs[ty]);
                        lemma_lower_grew(names, st, discr_ty);
                        let (tagged, discr_id) = lower(names, st, discr_ty);
                        lemma_lower_variants_grew(names, tagged, variants);
                        let (after, ids) = lower_variants(names, tagged, variants);
                        lemma_grew_transitive(st, tagged, after);
                        lemma_define_struct_grew(
                            names,
                            after.module,
                            ids.push(discr_id),
                            all_fields(variants),
                            did,
                        );
                        lemma_grew_transitive(st, after, emit(names, st, ty).0);
                    }
                },
                AdtKindView::Union => {},
            }
        },
        _ => {},
    }
}

pub(crate) proof fn lemma_lower_all_grew(names: Names, st: Lowering, tys: Seq<TyView>)
    requires
        st.module.wf(),
        0 <= st.module.next_id,
    ensures
        grew(st, lower_all(names, st, tys).0),
    decreases 1nat, tys, 0nat,
{
    if tys.len() > 0 {
        lemma_lower_all_grew(names, st, tys.drop_last());
        let before = lower_all(names, st, tys.drop_last()).0;
        lemma_lower_grew(names, before, tys.last());
        lemma_grew_transitive(st, before, lower_all(names, st, tys).0);
    }
}

pub(crate) proof fn lemma_lower_fields_grew(names: Names, st: Lowering, fields: Seq<FieldView>)
    requires
        st.module.wf(),
        0 <= st.module.next_id,
    ensures
        grew(st, lower_fields(names, st, fields).0),
    decreases 1nat, fields, 0nat,
{
    if fields.len() > 0 {
        lemma_lower_fields_grew(names, st, fields.drop_last());
        let before = lower_fields(names, st, fields.drop_last()).0;
        lemma_lower_grew(names, before, fields.last().ty);
        lemma_grew_transitive(st, before, lower_fields(names, st, fields).0);
    }
}

pub(crate) proof fn lemma_lower_variants_grew(
    names: Names,
    st: Lowering,
    variants: Seq<VariantView>,
)
    requires
        st.module.wf(),
        0 <= st.module.next_id,
    ensures
        grew(st, lower_variants(names, st, variants).0),
    decreases 1nat, variants, 0nat,
{
    if variants.len() > 0 {
        lemma_lower_variants_grew(names, st, variants.drop_last());
        let before = lower_variants(names, st, variants.drop_last()).0;
        let variant = variants.last();
        lemma_lower_fields_grew(names, before, variant.fields);
        let (after, members) = lower_fields(names, before, variant.fields);
        lemma_grew_transitive(st, before, after);
        lemma_define_struct_grew(names, after.module, members, variant.fields, variant.did);
        lemma_grew_transitive(st, after, lower_variants(names, st, variants).0);
    }
}

/// What stands after the first `i` types stays while the others are lowered.
pub proof fn lemma_lower_all_prefix(names: Names, st: Lowering, tys: Seq<TyView>, i: int)
    requires
        st.module.wf(),
        0 <= st.module.next_id,
        0 <= i <= tys.len(),
    ensures
        grew(lower_all(names, st, tys.take(i)).0, lower_all(names, st, tys).0),
        grew(st, lower_all(names, st, tys.take(i)).0),
    decreases tys.len(),
{
    lemma_lower_all_grew(names, st, tys.take(i));
    if i == tys.len() {
        assert(tys.take(i) =~= tys);
    } else {
        let rest = tys.drop_last();
        lemma_lower_all_prefix(names, st, rest, i);
        assert(rest.take(i) =~= tys.take(i));
        lemma_lower_all_grew(names, st, rest);
        let before = lower_all(names, st, rest).0;
        lemma_lower_grew(names, before, tys.last());
        lemma_grew_transitive(
            lower_all(names, st, tys.take(i)).0,
            before,
            lower_all(names, st, tys).0,
        );
    }
}

/// What stands after the first `i` fields stays while the others are lowered.
pub proof fn lemma_lower_fields_prefix(names: Names, st: Lowering, fields: Seq<FieldView>, i: int)
    requires
        st.module.wf(),
        0 <= st.module.next_id,
        0 <= i <= fields.len(),
    ensures
        grew(lower_fields(names, st, fields.take(i)).0, lower_fields(names, st, fields).0),
        grew(st, lower_fields(names, st, fields.take(i)).0),
    decreases fields.len(),
{
    lemma_lower_fields_grew(names, st, fields.take(i));
    if i == fields.len() {
        assert(fields.take(i) =~= fields);
    } else {
        let rest = fields.drop_last();
        lemma_lower_fields_prefix(names, st, rest, i);
        assert(rest.take(i) =~= fields.take(i));
        lemma_lower_fields_grew(names, st, rest);
        let before = lower_fields(names, st, rest).0;
        lemma_lower_grew(names, before, fields.last().ty);
        lemma_grew_transitive(
            lower_fields(names, st, fields.take(i)).0,
            before,
            lower_fields(names, st, fields).0,
        );
    }
}

/// What stands after the first `i` variants stays while the others are emitted.
pub proof fn lemma_lower_variants_prefix(
    names: Names,
    st: Lowering,
    variants: Seq<VariantView>,
    i: int,
)
    requires
        st.module.wf(),
        0 <= st.module.next_id,
        0 <= i <= variants.len(),
    ensures
        grew(lower_variants(names, st, variants.take(i)).0, lower_variants(names, st, variants).0),
        grew(st, lower_variants(names, st, variants.take(i)).0),
    decreases variants.len(),
{
    lemma_lower_variants_grew(names, st, variants.take(i));
    if i == variants.len() {
        assert(variants.take(i) =~= variants);
    } else {
        let rest = variants.drop_last();
        lemma_lower_variants_prefix(names, st, rest, i);
        assert(rest.take(i) =~= variants.take(i));
        lemma_lower_variants_grew(names, st, rest);
        let before = lower_variants(names, st, rest).0;
        let variant = variants.last();
        lemma_lower_fields_grew(names, before, variant.fields);
        let (after, members) = lower_fields(names, before, variant.fields);
        lemma_define_struct_grew(names, after.module, members, variant.fields, variant.did);
        let whole = lower_variants(names, st, variants).0;
        lemma_grew_transitive(before, after, whole);
        lemma_grew_transitive(lower_variants(names, st, variants.take(i)).0, before, whole);
    }
}

} // verus!
