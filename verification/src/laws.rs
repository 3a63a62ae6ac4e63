//! What holds of lowering as a whole.

use vstd::prelude::*;

use crate::builder::ModuleState;
use crate::builder::DEBUGS;
use crate::constant::lower_constant;
use crate::constant::Constants;
use crate::constant::SpirvConstVal;
use crate::context::initial_module;
use crate::lower::all_fields;
use crate::lower::define_struct;
use crate::lower::emit;
use crate::lower::lemma_define_struct_grew;
use crate::lower::lemma_lower_all_grew;
use crate::lower::lemma_lower_fields_grew;
use crate::lower::lemma_lower_grew;
use crate::lower::lemma_lower_variants_grew;
use crate::lower::lower;
use crate::lower::lower_all;
use crate::lower::lower_fields;
use crate::lower::lower_variants;
use crate::lower::module_kept;
use crate::lower::pointer_form;
use crate::lower::rank;
use crate::lower::starts_with;
use crate::lower::Lowering;
use crate::lower::Names;
use crate::support::all_supported;
use crate::support::fields_supported;
use crate::support::supported;
use crate::support::variants_supported;
use crate::ty::AdtKindView;
use crate::ty::DefId;
use crate::ty::FieldView;
use crate::ty::Mutability;
use crate::ty::TyView;
use crate::ty::VariantView;

verus! {

/// A type is emitted once: lowering it again, at any later time, whatever types
/// and constants came in between, gives the same id and changes nothing.
pub proof fn lemma_lowered_once(
    names: Names,
    st: Lowering,
    ty: TyView,
    later_names: Names,
    later: Lowering,
)
    requires
        forall|other: TyView| #[trigger]
            lower(names, st, ty).0.cache.contains_key(other) ==> later.cache.contains_key(other)
                && later.cache[other] == lower(names, st, ty).0.cache[other],
    ensures
        lower(later_names, later, ty) == (later, lower(names, st, ty).1),
{
    assert(lower(names, st, ty).0.cache.contains_key(pointer_form(ty)));
}

/// A reference, whether it may be written through or not, is lowered as the
/// mutable raw pointer.
pub proof fn lemma_reference_is_pointer(
    names: Names,
    st: Lowering,
    inner: TyView,
    mutbl: Mutability,
)
    ensures
        lower(names, st, TyView::Ref { ty: Box::new(inner), mutbl }) == lower(
            names,
            st,
            TyView::RawPtr { ty: Box::new(inner), mutbl: Mutability::Mutable },
        ),
{
}

/// No reference is among the types lowered so far: each went in as the mutable
/// raw pointer.
pub open spec fn no_reference_lowered(st: Lowering) -> bool {
    forall|ty: TyView| #[trigger] st.cache.contains_key(ty) ==> !(ty is Ref)
}

/// Lowering never remembers a reference.
pub proof fn lemma_lower_no_reference(names: Names, st: Lowering, ty: TyView)
    requires
        no_reference_lowered(st),
    ensures
        no_reference_lowered(lower(names, st, ty).0),
    decreases rank(ty), ty, 1nat,
{
    if !st.cache.contains_key(pointer_form(ty)) {
        lemma_emit_no_reference(names, st, ty);
    }
}

proof fn lemma_emit_no_reference(names: Names, st: Lowering, ty: TyView)
    requires
        no_reference_lowered(st),
    ensures
        no_reference_lowered(emit(names, st, ty).0),
    decreases rank(ty), ty, 0nat,
{
    match ty {
        TyView::Tuple(items, _) => {
            lemma_all_no_reference(names, st, items);
        },
        TyView::FnPtr { inputs, output, .. } => {
            lemma_lower_no_reference(names, st, *output);
            lemma_all_no_reference(names, lower(names, st, *output).0, inputs);
        },
        TyView::RawPtr { ty: inner, .. } => {
            lemma_lower_no_reference(names, st, *inner);
        },
        TyView::Ref { ty: inner, .. } => {
            lemma_lower_no_reference(names, st, *inner);
        },
        TyView::Adt { kind, .. } => {
            match kind {
                AdtKindView::Struct { intrinsic, fields } => {
                    match intrinsic {
                        Some(_) => {
                            if fields.len() > 0 {
                                lemma_lower_no_reference(names, st, fields[0].ty);
                            }
                        },
                        None => {
                            lemma_fields_no_reference(names, st, fields);
                        },
                    }
                },
                AdtKindView::Enum { variants } => {
                    if names.discrs.contains_key(ty) {
                        let discr_ty = TyView::Uint(names.discrs[ty]);
                        lemma_lower_no_reference(names, st, discr_ty);
                        lemma_variants_no_reference(
                            names,
                            lower(names, st, discr_ty).0,
                            variants,
                        );
                    }
                },
                AdtKindView::Union => {},
            }
        },
        _ => {},
    }
}

proof fn lemma_all_no_reference(names: Names, st: Lowering, tys: Seq<TyView>)
    requires
        no_reference_lowered(st),
    ensures
        no_reference_lowered(lower_all(names, st, tys).0),
    decreases 1nat, tys, 0nat,
{
    if tys.len() > 0 {
        lemma_all_no_reference(names, st, tys.drop_last());
        lemma_lower_no_reference(names, lower_all(names, st, tys.drop_last()).0, tys.last());
    }
}

proof fn lemma_fields_no_reference(names: Names, st: Lowering, fields: Seq<FieldView>)
    requires
        no_reference_lowered(st),
    ensures
        no_reference_lowered(lower_fields(names, st, fields).0),
    decreases 1nat, fields, 0nat,
{
    if fields.len() > 0 {
        lemma_fields_no_reference(names, st, fields.drop_last());
        lemma_lower_no_reference(
            names,
            lower_fields(names, st, fields.drop_last()).0,
            fields.last().ty,
        );
    }
}

proof fn lemma_variants_no_reference(names: Names, st: Lowering, variants: Seq<VariantView>)
    requires
        no_reference_lowered(st),
    ensures
        no_reference_lowered(lower_variants(names, st, variants).0),
    decreases 1nat, variants, 0nat,
{
    if variants.len() > 0 {
        lemma_variants_no_reference(names, st, variants.drop_last());
        lemma_fields_no_reference(
            names,
            lower_variants(names, st, variants.drop_last()).0,
            variants.last().fields,
        );
    }
}

/// Emitting a constant never remembers a reference.
pub proof fn lemma_constant_no_reference(names: Names, st: Constants, val: SpirvConstVal)
    requires
        no_reference_lowered(st.lowering),
    ensures
        no_reference_lowered(lower_constant(names, st, val).0.lowering),
{
    lemma_lower_no_reference(names, st.lowering, val.ty());
}

/// The ids of the types lowered so far: each was handed out, zero stands for
/// the never type alone, and no two types share one.
pub open spec fn ids_told_apart(st: Lowering) -> bool {
    &&& st.module.wf()
    &&& 1 <= st.module.next_id <= u32::MAX
    &&& forall|ty: TyView| #[trigger]
        st.cache.contains_key(ty) ==> st.cache[ty] < st.module.next_id && (st.cache[ty] == 0
            <==> ty == TyView::Never)
    &&& forall|a: TyView, b: TyView| #[trigger]
        st.cache.contains_key(a) && #[trigger] st.cache.contains_key(b) && st.cache[a]
            == st.cache[b] ==> a == b
}

/// What holds after a type was emitted: its id is the last one handed out, so
/// no other type has it; the never type has zero.
spec fn emitted_last(after: Lowering, id: u32, ty: TyView) -> bool {
    if ty == TyView::Never {
        id == 0
    } else {
        &&& 0 < id
        &&& id == after.module.next_id - 1
        &&& forall|other: TyView| #[trigger]
            after.cache.contains_key(other) ==> after.cache[other] < id
    }
}

/// Lowering keeps the ids of different types apart.
pub proof fn lemma_lower_tells_apart(names: Names, st: Lowering, ty: TyView)
    requires
        ids_told_apart(st),
        supported(names.discrs, ty),
        lower(names, st, ty).0.module.next_id <= u32::MAX,
    ensures
        ids_told_apart(lower(names, st, ty).0),
        lower(names, st, ty).1 < lower(names, st, ty).0.module.next_id,
        lower(names, st, ty).1 == 0 <==> ty == TyView::Never,
    decreases rank(ty), ty, 1nat,
{
    let key = pointer_form(ty);
    if !st.cache.contains_key(key) {
        lemma_emit_tells_apart(names, st, ty);
    }
}

proof fn lemma_emit_tells_apart(names: Names, st: Lowering, ty: TyView)
    requires
        ids_told_apart(st),
        supported(names.discrs, ty),
        emit(names, st, ty).0.module.next_id <= u32::MAX,
    ensures
        ids_told_apart(emit(names, st, ty).0),
        emitted_last(emit(names, st, ty).0, emit(names, st, ty).1, ty),
    decreases rank(ty), ty, 0nat,
{
    match ty {
        TyView::Tuple(items, _) => {
            if items.len() > 0 {
                lemma_lower_all_tells_apart(names, st, items);
            }
        },
        TyView::FnPtr { inputs, output, .. } => {
            let returned = lower(names, st, *output).0;
            lemma_lower_grew(names, st, *output);
            lemma_lower_all_grew(names, returned, inputs);
            lemma_lower_tells_apart(names, st, *output);
            lemma_lower_all_tells_apart(names, returned, inputs);
        },
        TyView::RawPtr { ty: inner, .. } => {
            lemma_lower_tells_apart(names, st, *inner);
        },
        TyView::Ref { ty: inner, .. } => {
            lemma_lower_tells_apart(names, st, *inner);
        },
        TyView::Adt { did, kind, .. } => {
            match kind {
                AdtKindView::Struct { intrinsic, fields } => {
                    match intrinsic {
                        Some(_) => {
                            lemma_lower_tells_apart(names, st, fields[0].ty);
                        },
                        None => {
                            lemma_lower_fields_grew(names, st, fields);
                            let (after, ids) = lower_fields(names, st, fields);
                            lemma_define_struct_grew(names, after.module, ids, fields, did);
                            lemma_lower_fields_tells_apart(names, st, fields);
                        },
                    }
                },
                AdtKindView::Enum { variants } => {
                    if names.discrs.contains_key(ty) {
                        let discr_ty = TyView::Uint(names.discrs[ty]);
                        lemma_lower_grew(names, st, discr_ty);
                        let (tagged, discr_id) = lower(names, st, discr_ty);
                        lemma_lower_variants_grew(names, tagged, variants);
                        let (after, ids) = lower_variants(names, tagged, variants);
                        lemma_define_struct_grew(
                            names,
                            after.module,
                            ids.push(discr_id),
                            all_fields(variants),
                            did,
                        );
                        lemma_lower_tells_apart(names, st, discr_ty);
                        lemma_lower_variants_tells_apart(names, tagged, variants);
                    }
                },
                AdtKindView::Union => {},
            }
        },
        _ => {},
    }
}

proof fn lemma_lower_all_tells_apart(names: Names, st: Lowering, tys: Seq<TyView>)
    requires
        ids_told_apart(st),
        all_supported(names.discrs, tys),
        lower_all(names, st, tys).0.module.next_id <= u32::MAX,
    ensures
        ids_told_apart(lower_all(names, st, tys).0),
    decreases 1nat, tys, 0nat,
{
    if tys.len() > 0 {
        let rest = tys.drop_last();
        assert forall|i: int| 0 <= i < rest.len() implies supported(
            names.discrs,
            #[trigger] rest[i],
        ) by {
            assert(rest[i] == tys[i]);
        }
        lemma_lower_all_grew(names, st, rest);
        let before = lower_all(names, st, rest).0;
        lemma_lower_grew(names, before, tys.last());
        lemma_lower_all_tells_apart(names, st, rest);
        assert(supported(names.discrs, tys[tys.len() - 1]));
        lemma_lower_tells_apart(names, before, tys.last());
    }
}

proof fn lemma_lower_fields_tells_apart(names: Names, st: Lowering, fields: Seq<FieldView>)
    requires
        ids_told_apart(st),
        fields_supported(names.discrs, fields),
        lower_fields(names, st, fields).0.module.next_id <= u32::MAX,
    ensures
        ids_told_apart(lower_fields(names, st, fields).0),
    decreases 1nat, fields, 0nat,
{
    if fields.len() > 0 {
        let rest = fields.drop_last();
        assert forall|i: int| 0 <= i < rest.len() implies supported(
            names.discrs,
            (#[trigger] rest[i]).ty,
        ) by {
            assert(rest[i] == fields[i]);
        }
        lemma_lower_fields_grew(names, st, rest);
        let before = lower_fields(names, st, rest).0;
        lemma_lower_grew(names, before, fields.last().ty);
        lemma_lower_fields_tells_apart(names, st, rest);
        assert(supported(names.discrs, fields[fields.len() - 1].ty));
        lemma_lower_tells_apart(names, before, fields.last().ty);
    }
}

proof fn lemma_lower_variants_tells_apart(names: Names, st: Lowering, variants: Seq<VariantView>)
    requires
        ids_told_apart(st),
        variants_supported(names.discrs, variants),
        lower_variants(names, st, variants).0.module.next_id <= u32::MAX,
    ensures
        ids_told_apart(lower_variants(names, st, variants).0),
    decreases 1nat, variants, 0nat,
{
    if variants.len() > 0 {
        let rest = variants.drop_last();
        assert forall|i: int| 0 <= i < rest.len() implies fields_supported(
            names.discrs,
            (#[trigger] rest[i]).fields,
        ) by {
            assert(rest[i] == variants[i]);
        }
        lemma_lower_variants_grew(names, st, rest);
        let before = lower_variants(names, st, rest).0;
        let variant = variants.last();
        lemma_lower_fields_grew(names, before, variant.fields);
        let (after, members) = lower_fields(names, before, variant.fields);
        lemma_define_struct_grew(names, after.module, members, variant.fields, variant.did);
        lemma_lower_variants_tells_apart(names, st, rest);
        assert(fields_supported(names.discrs, variants[variants.len() - 1].fields));
        lemma_lower_fields_tells_apart(names, before, variant.fields);
    }
}

/// Two types have the same id exactly if they are the same type, references
/// counted as mutable raw pointers.
pub proof fn lemma_same_id_same_type(names: Names, st: Lowering, a: TyView, b: TyView)
    requires
        ids_told_apart(st),
        supported(names.discrs, a),
        supported(names.discrs, b),
        lower(names, lower(names, st, a).0, b).0.module.next_id <= u32::MAX,
    ensures
        lower(names, st, a).1 == lower(names, lower(names, st, a).0, b).1 <==> pointer_form(a)
            == pointer_form(b),
{
    let (first, a_id) = lower(names, st, a);
    let (second, b_id) = lower(names, first, b);
    lemma_lower_grew(names, st, a);
    lemma_lower_grew(names, first, b);
    lemma_lower_tells_apart(names, st, a);
    lemma_lower_tells_apart(names, first, b);
    assert(first.cache.contains_key(pointer_form(a)) && first.cache[pointer_form(a)] == a_id);
    assert(second.cache.contains_key(pointer_form(a)) && second.cache[pointer_form(a)] == a_id);
    assert(second.cache.contains_key(pointer_form(b)) && second.cache[pointer_form(b)] == b_id);
}

/// The modules differ in their debug instructions alone.
pub open spec fn modules_same_but_debugs(a: ModuleState, b: ModuleState) -> bool {
    &&& a.next_id == b.next_id
    &&& a.version == b.version
    &&& a.wf()
    &&& b.wf()
    &&& forall|k: int|
        0 <= k < a.sections.len() && k != DEBUGS ==> #[trigger] a.sections[k] == b.sections[k]
}

/// The states of lowering differ in the debug instructions alone.
pub open spec fn same_but_debugs(a: Lowering, b: Lowering) -> bool {
    modules_same_but_debugs(a.module, b.module) && a.cache == b.cache
}

proof fn lemma_define_struct_names(
    a_names: Names,
    b_names: Names,
    a: ModuleState,
    b: ModuleState,
    members: Seq<u32>,
    fields: Seq<FieldView>,
    def_id: DefId,
)
    requires
        modules_same_but_debugs(a, b),
    ensures
        modules_same_but_debugs(
            define_struct(a_names, a, members, fields, def_id),
            define_struct(b_names, b, members, fields, def_id),
        ),
{
}

/// Names are no more than names: whether they are emitted, and what they are,
/// makes no difference but in the debug instructions.
pub proof fn lemma_names_only_name(
    a_names: Names,
    b_names: Names,
    a: Lowering,
    b: Lowering,
    ty: TyView,
)
    requires
        a_names.discrs == b_names.discrs,
        same_but_debugs(a, b),
    ensures
        same_but_debugs(lower(a_names, a, ty).0, lower(b_names, b, ty).0),
        lower(a_names, a, ty).1 == lower(b_names, b, ty).1,
    decreases rank(ty), ty, 1nat,
{
    if !a.cache.contains_key(pointer_form(ty)) {
        lemma_names_only_name_emitted(a_names, b_names, a, b, ty);
    }
}

proof fn lemma_names_only_name_emitted(
    a_names: Names,
    b_names: Names,
    a: Lowering,
    b: Lowering,
    ty: TyView,
)
    requires
        a_names.discrs == b_names.discrs,
        same_but_debugs(a, b),
    ensures
        same_but_debugs(emit(a_names, a, ty).0, emit(b_names, b, ty).0),
        emit(a_names, a, ty).1 == emit(b_names, b, ty).1,
    decreases rank(ty), ty, 0nat,
{
    match ty {
        TyView::Tuple(items, _) => {
            lemma_names_only_name_all(a_names, b_names, a, b, items);
        },
        TyView::FnPtr { inputs, output, .. } => {
            lemma_names_only_name(a_names, b_names, a, b, *output);
            lemma_names_only_name_all(
                a_names,
                b_names,
                lower(a_names, a, *output).0,
                lower(b_names, b, *output).0,
                inputs,
            );
        },
        TyView::RawPtr { ty: inner, .. } => {
            lemma_names_only_name(a_names, b_names, a, b, *inner);
        },
        TyView::Ref { ty: inner, .. } => {
            lemma_names_only_name(a_names, b_names, a, b, *inner);
        },
        TyView::Adt { did, kind, .. } => {
            match kind {
                AdtKindView::Struct { intrinsic, fields } => {
                    match intrinsic {
                        Some(_) => {
                            if fields.len() > 0 {
                                lemma_names_only_name(a_names, b_names, a, b, fields[0].ty);
                            }
                        },
                        None => {
                            lemma_names_only_name_fields(a_names, b_names, a, b, fields);
                            let (a_after, ids) = lower_fields(a_names, a, fields);
                            let (b_after, _) = lower_fields(b_names, b, fields);
                            lemma_define_struct_names(
                                a_names,
                                b_names,
                                a_after.module,
                                b_after.module,
                                ids,
                                fields,
                                did,
                            );
                        },
                    }
                },
                AdtKindView::Enum { variants } => {
                    if a_names.discrs.contains_key(ty) {
                        let discr_ty = TyView::Uint(a_names.discrs[ty]);
                        lemma_names_only_name(a_names, b_names, a, b, discr_ty);
                        let (a_tagged, discr_id) = lower(a_names, a, discr_ty);
                        let (b_tagged, _) = lower(b_names, b, discr_ty);
                        lemma_names_only_name_variants(
                            a_names,
                            b_names,
                            a_tagged,
                            b_tagged,
                            variants,
                        );
                        let (a_after, ids) = lower_variants(a_names, a_tagged, variants);
                        let (b_after, _) = lower_variants(b_names, b_tagged, variants);
                        lemma_define_struct_names(
                            a_names,
                            b_names,
                            a_after.module,
                            b_after.module,
                            ids.push(discr_id),
                            all_fields(variants),
                            did,
                        );
                    }
                },
                AdtKindView::Union => {},
            }
        },
        _ => {},
    }
}

proof fn lemma_names_only_name_all(
    a_names: Names,
    b_names: Names,
    a: Lowering,
    b: Lowering,
    tys: Seq<TyView>,
)
    requires
        a_names.discrs == b_names.discrs,
        same_but_debugs(a, b),
    ensures
        same_but_debugs(lower_all(a_names, a, tys).0, lower_all(b_names, b, tys).0),
        lower_all(a_names, a, tys).1 == lower_all(b_names, b, tys).1,
    decreases 1nat, tys, 0nat,
{
    if tys.len() > 0 {
        let rest = tys.drop_last();
        lemma_names_only_name_all(a_names, b_names, a, b, rest);
        lemma_names_only_name(
            a_names,
            b_names,
            lower_all(a_names, a, rest).0,
            lower_all(b_names, b, rest).0,
            tys.last(),
        );
    }
}

proof fn lemma_names_only_name_fields(
    a_names: Names,
    b_names: Names,
    a: Lowering,
    b: Lowering,
    fields: Seq<FieldView>,
)
    requires
        a_names.discrs == b_names.discrs,
        same_but_debugs(a, b),
    ensures
        same_but_debugs(lower_fields(a_names, a, fields).0, lower_fields(b_names, b, fields).0),
        lower_fields(a_names, a, fields).1 == lower_fields(b_names, b, fields).1,
    decreases 1nat, fields, 0nat,
{
    if fields.len() > 0 {
        let rest = fields.drop_last();
        lemma_names_only_name_fields(a_names, b_names, a, b, rest);
        lemma_names_only_name(
            a_names,
            b_names,
            lower_fields(a_names, a, rest).0,
            lower_fields(b_names, b, rest).0,
            fields.last().ty,
        );
    }
}

proof fn lemma_names_only_name_variants(
    a_names: Names,
    b_names: Names,
    a: Lowering,
    b: Lowering,
    variants: Seq<VariantView>,
)
    requires
        a_names.discrs == b_names.discrs,
        same_but_debugs(a, b),
    ensures
        same_but_debugs(
            lower_variants(a_names, a, variants).0,
            lower_variants(b_names, b, variants).0,
        ),
        lower_variants(a_names, a, variants).1 == lower_variants(b_names, b, variants).1,
    decreases 1nat, variants, 0nat,
{
    if variants.len() > 0 {
        let rest = variants.drop_last();
        lemma_names_only_name_variants(a_names, b_names, a, b, rest);
        let a_before = lower_variants(a_names, a, rest).0;
        let b_before = lower_variants(b_names, b, rest).0;
        let variant = variants.last();
        lemma_names_only_name_fields(a_names, b_names, a_before, b_before, variant.fields);
        let (a_after, members) = lower_fields(a_names, a_before, variant.fields);
        let (b_after, _) = lower_fields(b_names, b_before, variant.fields);
        lemma_define_struct_names(
            a_names,
            b_names,
            a_after.module,
            b_after.module,
            members,
            variant.fields,
            variant.did,
        );
    }
}

/// Without debug symbols no debug instruction is emitted.
pub proof fn lemma_no_symbols_no_names(names: Names, st: Lowering, ty: TyView)
    requires
        !names.debug_symbols,
        st.module.wf(),
    ensures
        lower(names, st, ty).0.module.wf(),
        lower(names, st, ty).0.module.debugs() == st.module.debugs(),
    decreases rank(ty), ty, 1nat,
{
    if !st.cache.contains_key(pointer_form(ty)) {
        lemma_no_symbols_emitted(names, st, ty);
    }
}

proof fn lemma_no_symbols_emitted(names: Names, st: Lowering, ty: TyView)
    requires
        !names.debug_symbols,
        st.module.wf(),
    ensures
        emit(names, st, ty).0.module.wf(),
        emit(names, st, ty).0.module.debugs() == st.module.debugs(),
    decreases rank(ty), ty, 0nat,
{
    match ty {
        TyView::Tuple(items, _) => {
            lemma_no_symbols_all(names, st, items);
        },
        TyView::FnPtr { inputs, output, .. } => {
            lemma_no_symbols_no_names(names, st, *output);
            lemma_no_symbols_all(names, lower(names, st, *output).0, inputs);
        },
        TyView::RawPtr { ty: inner, .. } => {
            lemma_no_symbols_no_names(names, st, *inner);
        },
        TyView::Ref { ty: inner, .. } => {
            lemma_no_symbols_no_names(names, st, *inner);
        },
        TyView::Adt { did, kind, .. } => {
            match kind {
                AdtKindView::Struct { intrinsic, fields } => {
                    match intrinsic {
                        Some(_) => {
                            if fields.len() > 0 {
                                lemma_no_symbols_no_names(names, st, fields[0].ty);
                            }
                        },
                        None => {
                            lemma_no_symbols_fields(names, st, fields);
                        },
                    }
                },
                AdtKindView::Enum { variants } => {
                    if names.discrs.contains_key(ty) {
                        let discr_ty = TyView::Uint(names.discrs[ty]);
                        lemma_no_symbols_no_names(names, st, discr_ty);
                        lemma_no_symbols_variants(names, lower(names, st, discr_ty).0, variants);
                    }
                },
                AdtKindView::Union => {},
            }
        },
        _ => {},
    }
}

proof fn lemma_no_symbols_all(names: Names, st: Lowering, tys: Seq<TyView>)
    requires
        !names.debug_symbols,
        st.module.wf(),
    ensures
        lower_all(names, st, tys).0.module.wf(),
        lower_all(names, st, tys).0.module.debugs() == st.module.debugs(),
    decreases 1nat, tys, 0nat,
{
    if tys.len() > 0 {
        lemma_no_symbols_all(names, st, tys.drop_last());
        lemma_no_symbols_no_names(names, lower_all(names, st, tys.drop_last()).0, tys.last());
    }
}

proof fn lemma_no_symbols_fields(names: Names, st: Lowering, fields: Seq<FieldView>)
    requires
        !names.debug_symbols,
        st.module.wf(),
    ensures
        lower_fields(names, st, fields).0.module.wf(),
        lower_fields(names, st, fields).0.module.debugs() == st.module.debugs(),
    decreases 1nat, fields, 0nat,
{
    if fields.len() > 0 {
        lemma_no_symbols_fields(names, st, fields.drop_last());
        lemma_no_symbols_no_names(
            names,
            lower_fields(names, st, fields.drop_last()).0,
            fields.last().ty,
        );
    }
}

proof fn lemma_no_symbols_variants(names: Names, st: Lowering, variants: Seq<VariantView>)
    requires
        !names.debug_symbols,
        st.module.wf(),
    ensures
        lower_variants(names, st, variants).0.module.wf(),
        lower_variants(names, st, variants).0.module.debugs() == st.module.debugs(),
    decreases 1nat, variants, 0nat,
{
    if variants.len() > 0 {
        lemma_no_symbols_variants(names, st, variants.drop_last());
        lemma_no_symbols_fields(
            names,
            lower_variants(names, st, variants.drop_last()).0,
            variants.last().fields,
        );
    }
}

/// The number of type instructions that a type consists of.
pub open spec fn id_cost(ty: TyView) -> nat
    decreases rank(ty), ty, 0nat,
{
    match ty {
        TyView::Never => 0,
        TyView::Bool => 1,
        TyView::Int(_) => 1,
        TyView::Uint(_) => 1,
        TyView::Float(_) => 1,
        TyView::Tuple(items, _) => 1 + id_cost_all(items),
        TyView::FnPtr { inputs, output, .. } => 1 + id_cost(*output) + id_cost_all(inputs),
        TyView::RawPtr { ty: inner, .. } => 1 + id_cost(*inner),
        TyView::Ref { ty: inner, .. } => 1 + id_cost(*inner),
        TyView::Adt { kind, .. } => match kind {
            AdtKindView::Struct { fields, .. } => 1 + id_cost_fields(fields),
            AdtKindView::Enum { variants } => 2 + id_cost_variants(variants),
            AdtKindView::Union => 0,
        },
        TyView::Param(_) => 0,
        TyView::Other { .. } => 0,
    }
}

/// [`id_cost`] of types taken together.
pub open spec fn id_cost_all(tys: Seq<TyView>) -> nat
    decreases 1nat, tys, 0nat,
{
    if tys.len() == 0 {
        0
    } else {
        id_cost_all(tys.drop_last()) + id_cost(tys.last())
    }
}

/// [`id_cost`] of the types of fields taken together.
pub open spec fn id_cost_fields(fields: Seq<FieldView>) -> nat
    decreases 1nat, fields, 0nat,
{
    if fields.len() == 0 {
        0
    } else {
        id_cost_fields(fields.drop_last()) + id_cost(fields.last().ty)
    }
}

/// [`id_cost`] of variants taken together, each with its own structure type.
pub open spec fn id_cost_variants(variants: Seq<VariantView>) -> nat
    decreases 1nat, variants, 0nat,
{
    if variants.len() == 0 {
        0
    } else {
        id_cost_variants(variants.drop_last()) + 1 + id_cost_fields(variants.last().fields)
    }
}

/// Lowering a type takes no more ids than the type has parts.
pub proof fn lemma_lower_id_cost(names: Names, st: Lowering, ty: TyView)
    ensures
        lower(names, st, ty).0.module.next_id <= st.module.next_id + id_cost(ty),
    decreases rank(ty), ty, 1nat,
{
    if !st.cache.contains_key(pointer_form(ty)) {
        lemma_emit_id_cost(names, st, ty);
    }
}

proof fn lemma_emit_id_cost(names: Names, st: Lowering, ty: TyView)
    ensures
        emit(names, st, ty).0.module.next_id <= st.module.next_id + id_cost(ty),
    decreases rank(ty), ty, 0nat,
{
    match ty {
        TyView::Tuple(items, _) => {
            lemma_lower_all_id_cost(names, st, items);
        },
        TyView::FnPtr { inputs, output, .. } => {
            lemma_lower_id_cost(names, st, *output);
            lemma_lower_all_id_cost(names, lower(names, st, *output).0, inputs);
        },
        TyView::RawPtr { ty: inner, .. } => {
            lemma_lower_id_cost(names, st, *inner);
        },
        TyView::Ref { ty: inner, .. } => {
            lemma_lower_id_cost(names, st, *inner);
        },
        TyView::Adt { kind, .. } => {
            match kind {
                AdtKindView::Struct { intrinsic, fields } => {
                    match intrinsic {
                        Some(_) => {
                            if fields.len() > 0 {
                                lemma_lower_id_cost(names, st, fields[0].ty);
                                lemma_first_field_cost(fields);
                            }
                        },
                        None => {
                            lemma_lower_fields_id_cost(names, st, fields);
                        },
                    }
                },
                AdtKindView::Enum { variants } => {
                    if names.discrs.contains_key(ty) {
                        let discr_ty = TyView::Uint(names.discrs[ty]);
                        lemma_lower_id_cost(names, st, discr_ty);
                        lemma_lower_variants_id_cost(
                            names,
                            lower(names, st, discr_ty).0,
                            variants,
                        );
                    }
                },
                AdtKindView::Union => {},
            }
        },
        _ => {},
    }
}

proof fn lemma_first_field_cost(fields: Seq<FieldView>)
    requires
        fields.len() > 0,
    ensures
        id_cost(fields[0].ty) <= id_cost_fields(fields),
    decreases fields.len(),
{
    if fields.len() > 1 {
        lemma_first_field_cost(fields.drop_last());
    }
}

proof fn lemma_lower_all_id_cost(names: Names, st: Lowering, tys: Seq<TyView>)
    ensures
        lower_all(names, st, tys).0.module.next_id <= st.module.next_id + id_cost_all(tys),
    decreases 1nat, tys, 0nat,
{
    if tys.len() > 0 {
        lemma_lower_all_id_cost(names, st, tys.drop_last());
        lemma_lower_id_cost(names, lower_all(names, st, tys.drop_last()).0, tys.last());
    }
}

proof fn lemma_lower_fields_id_cost(names: Names, st: Lowering, fields: Seq<FieldView>)
    ensures
        lower_fields(names, st, fields).0.module.next_id <= st.module.next_id + id_cost_fields(
            fields,
        ),
    decreases 1nat, fields, 0nat,
{
    if fields.len() > 0 {
        lemma_lower_fields_id_cost(names, st, fields.drop_last());
        lemma_lower_id_cost(
            names,
            lower_fields(names, st, fields.drop_last()).0,
            fields.last().ty,
        );
    }
}

proof fn lemma_lower_variants_id_cost(names: Names, st: Lowering, variants: Seq<VariantView>)
    ensures
        lower_variants(names, st, variants).0.module.next_id <= st.module.next_id
            + id_cost_variants(variants),
    decreases 1nat, variants, 0nat,
{
    if variants.len() > 0 {
        lemma_lower_variants_id_cost(names, st, variants.drop_last());
        lemma_lower_fields_id_cost(
            names,
            lower_variants(names, st, variants.drop_last()).0,
            variants.last().fields,
        );
    }
}

/// A constant is emitted once: emitting it again, at any later time, whatever
/// types and constants came in between, gives the same id and changes nothing.
pub proof fn lemma_constant_emitted_once(
    names: Names,
    st: Constants,
    val: SpirvConstVal,
    later_names: Names,
    later: Constants,
)
    requires
        forall|other: SpirvConstVal| #[trigger]
            lower_constant(names, st, val).0.cache.contains_key(other)
                ==> later.cache.contains_key(other) && later.cache[other] == lower_constant(
                names,
                st,
                val,
            ).0.cache[other],
    ensures
        lower_constant(later_names, later, val) == (later, lower_constant(names, st, val).1),
{
    assert(lower_constant(names, st, val).0.cache.contains_key(val));
}

/// Emitting a constant takes nothing back: what was emitted stays, and every
/// type and every constant keeps its id.
pub proof fn lemma_constant_keeps(names: Names, st: Constants, val: SpirvConstVal)
    requires
        st.lowering.module.wf(),
        0 <= st.lowering.module.next_id,
    ensures
        module_kept(st.lowering.module, lower_constant(names, st, val).0.lowering.module),
        forall|ty: TyView| #[trigger]
            st.lowering.cache.contains_key(ty) ==> lower_constant(
                names,
                st,
                val,
            ).0.lowering.cache.contains_key(ty) && lower_constant(
                names,
                st,
                val,
            ).0.lowering.cache[ty] == st.lowering.cache[ty],
        forall|other: SpirvConstVal| #[trigger]
            st.cache.contains_key(other) ==> lower_constant(names, st, val).0.cache.contains_key(
                other,
            ) && lower_constant(names, st, val).0.cache[other] == st.cache[other],
{
    if !st.cache.contains_key(val) {
        lemma_lower_grew(names, st.lowering, val.ty());
        let before = st.lowering.module;
        let lowered = lower(names, st.lowering, val.ty()).0.module;
        let after = lower_constant(names, st, val).0.lowering.module;
        assert forall|k: int| 0 <= k < before.sections.len() implies starts_with(
            #[trigger] after.sections[k],
            before.sections[k],
        ) by {
            assert(starts_with(lowered.sections[k], before.sections[k]));
        }
    }
}

/// The ids of all types and constants so far: types are told apart by theirs,
/// each constant has its own, and no constant has that of a type.
pub open spec fn constants_told_apart(st: Constants) -> bool {
    &&& ids_told_apart(st.lowering)
    &&& forall|val: SpirvConstVal| #[trigger]
        st.cache.contains_key(val) ==> 0 < st.cache[val] < st.lowering.module.next_id
    &&& forall|a: SpirvConstVal, b: SpirvConstVal| #[trigger]
        st.cache.contains_key(a) && #[trigger] st.cache.contains_key(b) && st.cache[a]
            == st.cache[b] ==> a == b
    &&& forall|val: SpirvConstVal, ty: TyView| #[trigger]
        st.cache.contains_key(val) && #[trigger] st.lowering.cache.contains_key(ty)
            ==> st.cache[val] != st.lowering.cache[ty]
}

/// Lowering a type keeps the ids of types and constants apart.
pub proof fn lemma_lower_tells_constants_apart(names: Names, st: Constants, ty: TyView)
    requires
        constants_told_apart(st),
        supported(names.discrs, ty),
        lower(names, st.lowering, ty).0.module.next_id <= u32::MAX,
    ensures
        constants_told_apart(Constants { lowering: lower(names, st.lowering, ty).0, ..st }),
{
    lemma_lower_grew(names, st.lowering, ty);
    lemma_lower_tells_apart(names, st.lowering, ty);
    let after = lower(names, st.lowering, ty).0;
    assert forall|val: SpirvConstVal, other: TyView| #[trigger]
        st.cache.contains_key(val) && #[trigger] after.cache.contains_key(
            other,
        ) implies st.cache[val] != after.cache[other] by {
        if st.lowering.cache.contains_key(other) {
            assert(after.cache[other] == st.lowering.cache[other]);
        }
    }
}

/// Emitting a constant keeps the ids of types and constants apart.
pub proof fn lemma_constant_tells_apart(names: Names, st: Constants, val: SpirvConstVal)
    requires
        constants_told_apart(st),
        st.cache.contains_key(val) || val.supported(),
        lower_constant(names, st, val).0.lowering.module.next_id <= u32::MAX,
    ensures
        constants_told_apart(lower_constant(names, st, val).0),
{
    if !st.cache.contains_key(val) {
        lemma_lower_tells_constants_apart(names, st, val.ty());
    }
}

/// In the context of a new compilation the ids are told apart, and no reference
/// was lowered.
pub proof fn lemma_initial_told_apart(st: Constants)
    requires
        st.lowering.module == initial_module(),
        st.lowering.cache == Map::<TyView, u32>::empty(),
        st.cache == Map::<SpirvConstVal, u32>::empty(),
    ensures
        constants_told_apart(st),
        no_reference_lowered(st.lowering),
{
}

} // verus!
