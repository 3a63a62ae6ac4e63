//! How lowering a type relates to lowering its parts: the parts are lowered one
//! after the other, and one instruction more declares the type.

use vstd::prelude::*;

use crate::binary::is_instruction;
use crate::binary::lemma_instruction_says;
use crate::binary::lemma_member_name_says;
use crate::binary::lemma_name_says;
use crate::binary::names_member;
use crate::binary::names_target;
use crate::builder::ModuleState;
use crate::builder::StorageClass;
use crate::builder::DEBUGS;
use crate::lower::all_fields;
use crate::lower::define_struct;
use crate::lower::emit;
use crate::lower::lemma_lower_all_grew;
use crate::lower::lemma_lower_fields_grew;
use crate::lower::lemma_lower_grew;
use crate::lower::lemma_lower_variants_grew;
use crate::lower::lower;
use crate::lower::lower_all;
use crate::lower::lower_fields;
use crate::lower::lower_variants;
use crate::lower::member_names;
use crate::lower::name_definition;
use crate::lower::pointer_form;
use crate::lower::starts_with;
use crate::lower::Lowering;
use crate::lower::Names;
use crate::meaning::field_types;
use crate::meaning::int_bits;
use crate::meaning::remembered_as;
use crate::meaning::uint_bits;
use crate::ty::AdtKindView;
use crate::ty::DefId;
use crate::ty::FieldView;
use crate::ty::FloatTy;
use crate::ty::IntrinsicType;
use crate::ty::TyView;
use crate::ty::VariantView;
use crate::words::instruction;
use crate::words::low32;
use crate::words::OP_TYPE_BOOL;
use crate::words::OP_TYPE_FLOAT;
use crate::words::OP_TYPE_FUNCTION;
use crate::words::OP_TYPE_INT;
use crate::words::OP_TYPE_POINTER;
use crate::words::OP_TYPE_STRUCT;
use crate::words::OP_TYPE_VECTOR;
use crate::words::OP_TYPE_VOID;

verus! {

/// Lowering the types one after the other leads from each state to the next, and
/// gives these ids.
pub open spec fn in_turn(
    names: Names,
    states: Seq<Lowering>,
    tys: Seq<TyView>,
    ids: Seq<u32>,
) -> bool {
    &&& states.len() == tys.len() + 1
    &&& ids.len() == tys.len()
    &&& forall|i: int|
        0 <= i < tys.len() ==> (states[i + 1], ids[i]) == lower(
            names,
            states[i],
            #[trigger] tys[i],
        )
}

/// Lowering the types one after the other leads from one state to the other, and
/// gives these ids.
pub open spec fn lowered_in_turn(
    names: Names,
    from: Lowering,
    tys: Seq<TyView>,
    to: Lowering,
    ids: Seq<u32>,
) -> bool {
    exists|states: Seq<Lowering>| #[trigger]
        in_turn(names, states, tys, ids) && states[0] == from && states.last() == to
}

/// The module with one type instruction more: it has this opcode, declares the
/// next id and has these further operands. Nothing else but debug instructions
/// may be new.
pub open spec fn one_more(
    from: ModuleState,
    to: ModuleState,
    id: u32,
    opcode: int,
    operands: Seq<u32>,
) -> bool {
    &&& id == from.next_id as u32
    &&& to.next_id == from.next_id + 1
    &&& to.version == from.version
    &&& to.assembles == from.assembles
    &&& to.sections.len() == from.sections.len()
    &&& forall|k: int|
        0 <= k < from.sections.len() && k != 6 && k != 8 ==> #[trigger] to.sections[k]
            == from.sections[k]
    &&& to.sections[8].len() == from.sections[8].len() + 1
    &&& starts_with(to.sections[8], from.sections[8])
    &&& is_instruction(to.sections[8].last(), opcode, seq![id] + operands)
}

/// The debug instructions that follow a structure type: where names are emitted,
/// one for each member in order, and one for the type itself if its definition
/// is local.
pub open spec fn named(
    names: Names,
    from: ModuleState,
    to: ModuleState,
    id: u32,
    fields: Seq<FieldView>,
    def_id: DefId,
) -> bool {
    let key = (def_id.krate * 0x1_0000_0000 + def_id.index) as u64;
    let before = from.sections[6];
    let after = to.sections[6];
    if !names.debug_symbols {
        after == before
    } else {
        &&& starts_with(after, before)
        &&& after.len() == before.len() + fields.len() + if names.local.contains_key(key) {
            1nat
        } else {
            0nat
        }
        &&& forall|i: int|
            0 <= i < fields.len() ==> names_member(
                after[before.len() + i],
                id,
                i,
                (#[trigger] fields[i]).name,
            )
        &&& names.local.contains_key(key) ==> names_target(after.last(), id, names.local[key])
    }
}

/// A structure type was emitted for fields: their types were lowered one after
/// the other, then the structure was declared with them as members, and named.
/// The structure itself is not remembered.
pub open spec fn structure_in_turn(
    names: Names,
    from: Lowering,
    fields: Seq<FieldView>,
    def_id: DefId,
    to: Lowering,
    id: u32,
) -> bool {
    exists|mid: Lowering, members: Seq<u32>| #[trigger]
        lowered_in_turn(names, from, field_types(fields), mid, members) && one_more(
            mid.module,
            to.module,
            id,
            30,
            members,
        ) && named(names, mid.module, to.module, id, fields, def_id) && to.cache == mid.cache
}

/// Structure types were emitted for variants one after the other, leading from
/// each state to the next, with these ids.
pub open spec fn variants_in_turn(
    names: Names,
    states: Seq<Lowering>,
    variants: Seq<VariantView>,
    ids: Seq<u32>,
) -> bool {
    &&& states.len() == variants.len() + 1
    &&& ids.len() == variants.len()
    &&& forall|i: int|
        0 <= i < variants.len() ==> structure_in_turn(
            names,
            states[i],
            (#[trigger] variants[i]).fields,
            variants[i].did,
            states[i + 1],
            ids[i],
        )
}

/// The fields of all variants, in order.
pub open spec fn fields_in_order(variants: Seq<VariantView>) -> Seq<FieldView> {
    Seq::new(variants.len(), |i: int| variants[i].fields).flatten()
}

/// A type that is remembered gives the id that it is remembered with, and
/// changes nothing.
pub proof fn lemma_lower_remembered(names: Names, st: Lowering, ty: TyView)
    requires
        st.cache.contains_key(remembered_as(ty)),
    ensures
        lower(names, st, ty) == (st, st.cache[remembered_as(ty)]),
{
}

/// A type without parts is declared by one instruction that says what it is; the
/// never type has the id zero and no instruction.
pub proof fn lemma_lower_simple(names: Names, st: Lowering, ty: TyView)
    requires
        st.module.wf(),
        !st.cache.contains_key(ty),
    ensures
        ({
            let (after, id) = lower(names, st, ty);
            &&& match ty {
                TyView::Never => id == 0 && after.module == st.module,
                TyView::Bool => one_more(st.module, after.module, id, 20, seq![]),
                TyView::Int(int_ty) => one_more(
                    st.module,
                    after.module,
                    id,
                    21,
                    seq![int_bits(int_ty), 1],
                ),
                TyView::Uint(uint_ty) => one_more(
                    st.module,
                    after.module,
                    id,
                    21,
                    seq![uint_bits(uint_ty), 0],
                ),
                TyView::Float(FloatTy::F32) => one_more(
                    st.module,
                    after.module,
                    id,
                    22,
                    seq![32],
                ),
                TyView::Tuple(items, _) => items.len() == 0 ==> one_more(
                    st.module,
                    after.module,
                    id,
                    19,
                    seq![],
                ),
                _ => true,
            }
            &&& (ty is Never || ty is Bool || ty is Int || ty is Uint || ty
                == TyView::Float(FloatTy::F32) || (ty is Tuple && ty->Tuple_0.len() == 0)) ==> {
                &&& after.cache == st.cache.insert(ty, id)
                &&& after.module.sections[6] == st.module.sections[6]
            }
        }),
{
    match ty {
        TyView::Bool => {
            lemma_define_one_more(st.module, OP_TYPE_BOOL, seq![]);
        },
        TyView::Int(int_ty) => {
            lemma_define_one_more(
                st.module,
                OP_TYPE_INT,
                seq![int_ty.width(), 1u32],
            );
        },
        TyView::Uint(uint_ty) => {
            lemma_define_one_more(
                st.module,
                OP_TYPE_INT,
                seq![uint_ty.width(), 0u32],
            );
        },
        TyView::Float(FloatTy::F32) => {
            lemma_define_one_more(st.module, OP_TYPE_FLOAT, seq![32u32]);
        },
        TyView::Tuple(_, _) => {
            lemma_define_one_more(st.module, OP_TYPE_VOID, seq![]);
        },
        _ => {},
    }
}

/// A pointer is declared after the type that it points to, in the function
/// storage class; a reference as the mutable pointer.
pub proof fn lemma_lower_pointer(names: Names, st: Lowering, ty: TyView, inner: TyView)
    requires
        st.module.wf(),
        0 <= st.module.next_id,
        !st.cache.contains_key(remembered_as(ty)),
        (ty is RawPtr && *ty->RawPtr_ty == inner) || (ty is Ref && *ty->Ref_ty == inner),
    ensures
        ({
            let (mid, inner_id) = lower(names, st, inner);
            let (after, id) = lower(names, st, ty);
            &&& one_more(mid.module, after.module, id, 32, seq![7, inner_id])
            &&& after.module.sections[6] == mid.module.sections[6]
            &&& after.cache == mid.cache.insert(remembered_as(ty), id)
        }),
{
    lemma_lower_grew(names, st, inner);
    let (mid, inner_id) = lower(names, st, inner);
    lemma_define_one_more(
        mid.module,
        OP_TYPE_POINTER,
        seq![StorageClass::Function.number(), inner_id],
    );
}

/// A tuple is declared after its items, as a structure of them.
pub proof fn lemma_lower_tuple(names: Names, st: Lowering, items: Seq<TyView>, defaulted: bool)
    requires
        st.module.wf(),
        0 <= st.module.next_id,
        items.len() > 0,
        !st.cache.contains_key(TyView::Tuple(items, defaulted)),
    ensures
        ({
            let ty = TyView::Tuple(items, defaulted);
            let (after, id) = lower(names, st, ty);
            exists|mid: Lowering, ids: Seq<u32>| #[trigger]
                lowered_in_turn(names, st, items, mid, ids) && one_more(
                    mid.module,
                    after.module,
                    id,
                    30,
                    ids,
                ) && after.module.sections[6] == mid.module.sections[6] && after.cache
                    == mid.cache.insert(ty, id)
        }),
{
    lemma_lower_all_grew(names, st, items);
    lemma_all_in_turn(names, st, items);
    let (mid, ids) = lower_all(names, st, items);
    lemma_define_one_more(mid.module, OP_TYPE_STRUCT, ids);
    assert(lowered_in_turn(names, st, items, mid, ids));
}

/// A function is declared after its result and then its parameters, with the
/// result in front.
pub proof fn lemma_lower_function(
    names: Names,
    st: Lowering,
    tag: u64,
    inputs: Seq<TyView>,
    output: TyView,
)
    requires
        st.module.wf(),
        0 <= st.module.next_id,
        !st.cache.contains_key(TyView::FnPtr { tag, inputs, output: Box::new(output) }),
    ensures
        ({
            let ty = TyView::FnPtr { tag, inputs, output: Box::new(output) };
            let (returned, output_id) = lower(names, st, output);
            let (after, id) = lower(names, st, ty);
            exists|mid: Lowering, ids: Seq<u32>| #[trigger]
                lowered_in_turn(names, returned, inputs, mid, ids) && one_more(
                    mid.module,
                    after.module,
                    id,
                    33,
                    seq![output_id] + ids,
                ) && after.module.sections[6] == mid.module.sections[6] && after.cache
                    == mid.cache.insert(ty, id)
        }),
{
    lemma_lower_grew(names, st, output);
    let (returned, output_id) = lower(names, st, output);
    lemma_lower_all_grew(names, returned, inputs);
    lemma_all_in_turn(names, returned, inputs);
    let (mid, ids) = lower_all(names, returned, inputs);
    lemma_define_one_more(mid.module, OP_TYPE_FUNCTION, seq![output_id] + ids);
    assert(lowered_in_turn(names, returned, inputs, mid, ids));
}

/// A vector is declared after the type of its first field, with that type and
/// its own dimension.
pub proof fn lemma_lower_vector(
    names: Names,
    st: Lowering,
    did: DefId,
    substs: Seq<TyView>,
    dim: usize,
    fields: Seq<FieldView>,
)
    requires
        st.module.wf(),
        0 <= st.module.next_id,
        fields.len() > 0,
        !st.cache.contains_key(
            TyView::Adt {
                did,
                substs,
                kind: AdtKindView::Struct { intrinsic: Some(IntrinsicType::Vec(dim)), fields },
            },
        ),
    ensures
        ({
            let ty = TyView::Adt {
                did,
                substs,
                kind: AdtKindView::Struct { intrinsic: Some(IntrinsicType::Vec(dim)), fields },
            };
            let (mid, component) = lower(names, st, fields[0].ty);
            let (after, id) = lower(names, st, ty);
            &&& one_more(
                mid.module,
                after.module,
                id,
                23,
                seq![component, (dim as int % 0x1_0000_0000) as u32],
            )
            &&& after.module.sections[6] == mid.module.sections[6]
            &&& after.cache == mid.cache.insert(ty, id)
        }),
{
    lemma_lower_grew(names, st, fields[0].ty);
    let (mid, component) = lower(names, st, fields[0].ty);
    lemma_define_one_more(
        mid.module,
        OP_TYPE_VECTOR,
        seq![component, low32(dim as int)],
    );
}

/// A structure is declared after the types of its fields, with them as members,
/// and named.
pub proof fn lemma_lower_structure(
    names: Names,
    st: Lowering,
    did: DefId,
    substs: Seq<TyView>,
    fields: Seq<FieldView>,
)
    requires
        st.module.wf(),
        0 <= st.module.next_id,
        !st.cache.contains_key(
            TyView::Adt { did, substs, kind: AdtKindView::Struct { intrinsic: None, fields } },
        ),
    ensures
        ({
            let ty = TyView::Adt {
                did,
                substs,
                kind: AdtKindView::Struct { intrinsic: None, fields },
            };
            let (after, id) = lower(names, st, ty);
            exists|to: Lowering| #[trigger]
                structure_in_turn(names, st, fields, did, to, id) && after.module == to.module
                    && after.cache == to.cache.insert(ty, id)
        }),
{
    lemma_lower_fields_grew(names, st, fields);
    let (mid, ids) = lower_fields(names, st, fields);
    let to = Lowering { module: define_struct(names, mid.module, ids, fields, did), ..mid };
    lemma_structure_in_turn(names, st, fields, did);
    let ty = TyView::Adt { did, substs, kind: AdtKindView::Struct { intrinsic: None, fields } };
    assert(emit(names, st, ty) == (to, mid.module.fresh()));
    assert(pointer_form(ty) == ty);
    assert(structure_in_turn(names, st, fields, did, to, lower(names, st, ty).1));
}

/// An enumeration is declared after the type of its discriminant and then a
/// structure for each of its variants, in order: a structure of these, with the
/// discriminant behind them. Its members are named after the fields of all
/// variants.
pub proof fn lemma_lower_enumeration(
    names: Names,
    st: Lowering,
    did: DefId,
    substs: Seq<TyView>,
    variants: Seq<VariantView>,
)
    requires
        st.module.wf(),
        0 <= st.module.next_id,
        names.discrs.contains_key(
            TyView::Adt { did, substs, kind: AdtKindView::Enum { variants } },
        ),
        !st.cache.contains_key(TyView::Adt { did, substs, kind: AdtKindView::Enum { variants } }),
    ensures
        ({
            let ty = TyView::Adt { did, substs, kind: AdtKindView::Enum { variants } };
            let (tagged, discr_id) = lower(names, st, TyView::Uint(names.discrs[ty]));
            let (after, id) = lower(names, st, ty);
            exists|states: Seq<Lowering>, ids: Seq<u32>| #[trigger]
                variants_in_turn(names, states, variants, ids) && states[0] == tagged && one_more(
                    states.last().module,
                    after.module,
                    id,
                    30,
                    ids + seq![discr_id],
                ) && named(
                    names,
                    states.last().module,
                    after.module,
                    id,
                    fields_in_order(variants),
                    did,
                ) && after.cache == states.last().cache.insert(ty, id)
        }),
{
    let ty = TyView::Adt { did, substs, kind: AdtKindView::Enum { variants } };
    let discr_ty = TyView::Uint(names.discrs[ty]);
    lemma_lower_grew(names, st, discr_ty);
    let (tagged, discr_id) = lower(names, st, discr_ty);
    lemma_lower_variants_grew(names, tagged, variants);
    let states = lemma_variants_in_turn(names, tagged, variants);
    let (mid, ids) = lower_variants(names, tagged, variants);
    assert(ids.push(discr_id) =~= ids + seq![discr_id]);
    lemma_define_struct_one_more(
        names,
        mid.module,
        ids.push(discr_id),
        all_fields(variants),
        did,
    );
    lemma_all_fields_in_order(variants);
    assert(variants_in_turn(names, states, variants, ids));
}

proof fn lemma_all_fields_in_order(variants: Seq<VariantView>)
    ensures
        all_fields(variants) == fields_in_order(variants),
    decreases variants.len(),
{
    let lists = Seq::new(variants.len(), |i: int| variants[i].fields);
    if variants.len() > 0 {
        let rest = variants.drop_last();
        lemma_all_fields_in_order(rest);
        let rest_lists = Seq::new(rest.len(), |i: int| rest[i].fields);
        assert(lists.drop_last() =~= rest_lists);
        lists.lemma_flatten_and_flatten_alt_are_equivalent();
        rest_lists.lemma_flatten_and_flatten_alt_are_equivalent();
        assert(lists.last() == variants.last().fields);
    }
}

proof fn lemma_define_one_more(module: ModuleState, code: u32, operands: Seq<u32>)
    requires
        module.wf(),
        code < 0x1_0000,
    ensures
        one_more(
            module,
            module.define_type(code, operands),
            module.fresh(),
            code as int,
            operands,
        ),
        module.define_type(code, operands).sections[6] == module.sections[6],
{
    let rest = seq![module.fresh()] + operands;
    lemma_instruction_says(code, rest);
    let after = module.define_type(code, operands);
    assert(after.sections[8] =~= module.sections[8].push(instruction(code, rest)));
}

proof fn lemma_define_struct_one_more(
    names: Names,
    module: ModuleState,
    members: Seq<u32>,
    fields: Seq<FieldView>,
    def_id: DefId,
)
    requires
        module.wf(),
    ensures
        one_more(
            module,
            define_struct(names, module, members, fields, def_id),
            module.fresh(),
            30,
            members,
        ),
        named(
            names,
            module,
            define_struct(names, module, members, fields, def_id),
            module.fresh(),
            fields,
            def_id,
        ),
{
    let id = module.fresh();
    let after = define_struct(names, module, members, fields, def_id);
    lemma_define_one_more(module, OP_TYPE_STRUCT, members);
    let defined = module.define_type(OP_TYPE_STRUCT, members);
    assert(after.sections[8] == defined.sections[8]);
    if names.debug_symbols {
        let before = module.sections[6];
        let described = defined.extend(DEBUGS, member_names(id, fields));
        assert(described.sections[6] =~= before + member_names(id, fields));
        lemma_name_definition_says(names, described, def_id, id);
        assert forall|i: int| 0 <= i < fields.len() implies names_member(
            after.sections[6][before.len() + i],
            id,
            i,
            (#[trigger] fields[i]).name,
        ) by {
            lemma_member_name_says(id, i, fields[i].name);
            assert(described.sections[6][before.len() + i] == member_names(id, fields)[i]);
        }
    }
}

/// Naming the target of an id after a definition gives it the name of the
/// definition, where names are emitted and the definition is local, and does
/// nothing else.
pub proof fn lemma_name_definition_says(
    names: Names,
    module: ModuleState,
    def_id: DefId,
    id: u32,
)
    requires
        module.wf(),
    ensures
        ({
            let key = (def_id.krate * 0x1_0000_0000 + def_id.index) as u64;
            let after = name_definition(names, module, def_id, id);
            if names.debug_symbols && names.local.contains_key(key) {
                &&& after.next_id == module.next_id
                &&& after.version == module.version
                &&& after.assembles == module.assembles
                &&& after.sections.len() == module.sections.len()
                &&& forall|k: int|
                    0 <= k < module.sections.len() && k != 6 ==> #[trigger] after.sections[k]
                        == module.sections[k]
                &&& after.sections[6].len() == module.sections[6].len() + 1
                &&& starts_with(after.sections[6], module.sections[6])
                &&& names_target(after.sections[6].last(), id, names.local[key])
            } else {
                after == module
            }
        }),
{
    if names.debug_symbols && names.local.contains_key(def_id.key()) {
        lemma_name_says(id, names.local[def_id.key()]);
    }
}

proof fn lemma_all_in_turn(names: Names, st: Lowering, tys: Seq<TyView>) -> (states: Seq<Lowering>)
    ensures
        in_turn(names, states, tys, lower_all(names, st, tys).1),
        states[0] == st,
        states.last() == lower_all(names, st, tys).0,
    decreases tys.len(),
{
    if tys.len() == 0 {
        seq![st]
    } else {
        let rest = tys.drop_last();
        let before = lemma_all_in_turn(names, st, rest);
        let (after, all) = lower_all(names, st, tys);
        let states = before.push(after);
        assert forall|i: int| 0 <= i < tys.len() implies (states[i + 1], all[i]) == lower(
            names,
            states[i],
            #[trigger] tys[i],
        ) by {
            if i < rest.len() {
                assert(rest[i] == tys[i]);
            }
        }
        states
    }
}

proof fn lemma_fields_in_turn(names: Names, st: Lowering, fields: Seq<FieldView>)
    ensures
        lowered_in_turn(
            names,
            st,
            field_types(fields),
            lower_fields(names, st, fields).0,
            lower_fields(names, st, fields).1,
        ),
    decreases fields.len(),
{
    let tys = field_types(fields);
    if fields.len() == 0 {
        assert(in_turn(names, seq![st], tys, seq![]));
    } else {
        let rest = fields.drop_last();
        lemma_fields_in_turn(names, st, rest);
        let (mid, ids) = lower_fields(names, st, rest);
        let before = choose|states: Seq<Lowering>| #[trigger]
            in_turn(names, states, field_types(rest), ids) && states[0] == st && states.last()
                == mid;
        let (after, all) = lower_fields(names, st, fields);
        let states = before.push(after);
        assert forall|i: int| 0 <= i < tys.len() implies (states[i + 1], all[i]) == lower(
            names,
            states[i],
            #[trigger] tys[i],
        ) by {
            if i < rest.len() {
                assert(field_types(rest)[i] == tys[i]);
            }
        }
        assert(in_turn(names, states, tys, all));
    }
}

proof fn lemma_structure_in_turn(
    names: Names,
    st: Lowering,
    fields: Seq<FieldView>,
    def_id: DefId,
)
    requires
        st.module.wf(),
        0 <= st.module.next_id,
    ensures
        ({
            let (mid, ids) = lower_fields(names, st, fields);
            let to = Lowering {
                module: define_struct(names, mid.module, ids, fields, def_id),
                ..mid
            };
            structure_in_turn(names, st, fields, def_id, to, mid.module.fresh())
        }),
{
    lemma_lower_fields_grew(names, st, fields);
    lemma_fields_in_turn(names, st, fields);
    let (mid, ids) = lower_fields(names, st, fields);
    lemma_define_struct_one_more(names, mid.module, ids, fields, def_id);
}

proof fn lemma_variants_in_turn(names: Names, st: Lowering, variants: Seq<VariantView>) -> (states:
    Seq<Lowering>)
    requires
        st.module.wf(),
        0 <= st.module.next_id,
    ensures
        variants_in_turn(names, states, variants, lower_variants(names, st, variants).1),
        states[0] == st,
        states.last() == lower_variants(names, st, variants).0,
    decreases variants.len(),
{
    if variants.len() == 0 {
        seq![st]
    } else {
        let rest = variants.drop_last();
        let before = lemma_variants_in_turn(names, st, rest);
        lemma_lower_variants_grew(names, st, rest);
        let variant = variants.last();
        lemma_structure_in_turn(names, before.last(), variant.fields, variant.did);
        let (after, all) = lower_variants(names, st, variants);
        let states = before.push(after);
        assert forall|i: int| 0 <= i < variants.len() implies structure_in_turn(
            names,
            states[i],
            (#[trigger] variants[i]).fields,
            variants[i].did,
            states[i + 1],
            all[i],
        ) by {
            if i < rest.len() {
                assert(rest[i] == variants[i]);
            }
        }
        states
    }
}

} // verus!
