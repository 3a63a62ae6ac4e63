//! Lowering types: the code that emits what [`crate::lower`] describes.

use vstd::prelude::*;

use crate::builder::member_name_instruction;
use crate::builder::module_of;
use crate::builder::ModuleState;
use crate::builder::StorageClass;
use crate::builder::DEBUGS;
use crate::cache::SpirvTy;
use crate::context::SpirvCtx;
use crate::layout::discr_of;
use crate::lower::all_fields;
use crate::lower::define_struct;
use crate::lower::emit;
use crate::lower::lemma_define_struct_grew;
use crate::lower::lemma_lower_all_grew;
use crate::lower::lemma_lower_all_prefix;
use crate::lower::lemma_lower_fields_grew;
use crate::lower::lemma_lower_fields_prefix;
use crate::lower::lemma_lower_grew;
use crate::lower::lemma_lower_variants_grew;
use crate::lower::lemma_lower_variants_prefix;
use crate::lower::lower;
use crate::lower::lower_all;
use crate::lower::lower_fields;
use crate::lower::lower_variants;
use crate::lower::member_names;
use crate::lower::pointer_form;
use crate::lower::rank;
use crate::lower::Lowering;
use crate::support::all_supported;
use crate::support::fields_supported;
use crate::support::supported;
use crate::support::variants_supported;
use crate::ty::fields_model;
use crate::ty::tys_model;
use crate::ty::variants_model;
use crate::ty::AdtKind;
use crate::ty::DefId;
use crate::ty::FieldDef;
use crate::ty::FieldView;
use crate::ty::IntrinsicType;
use crate::ty::Mutability;
use crate::ty::Ty;
use crate::ty::TyView;
use crate::ty::UintTy;
use crate::ty::VariantDef;
use crate::words::low32;

verus! {

/// The debug instructions that name fields as members of `target`, the first
/// of them as member `start`.
spec fn member_names_from(target: u32, start: int, fields: Seq<FieldView>) -> Seq<Seq<u32>> {
    Seq::new(
        fields.len(),
        |i: int| member_name_instruction(target, low32(start + i), fields[i].name),
    )
}

proof fn lemma_extend_twice(
    module: ModuleState,
    section: usize,
    first: Seq<Seq<u32>>,
    second: Seq<Seq<u32>>,
)
    requires
        section < module.sections.len(),
    ensures
        module.extend(section, first).extend(section, second) == module.extend(
            section,
            first + second,
        ),
{
    let twice = module.extend(section, first).extend(section, second);
    let once = module.extend(section, first + second);
    assert(twice.sections[section as int] =~= once.sections[section as int]);
    assert(twice.sections =~= once.sections);
}

proof fn lemma_extend_nothing(module: ModuleState, section: usize)
    requires
        section < module.sections.len(),
    ensures
        module.extend(section, seq![]) == module,
{
    assert(module.extend(section, seq![]).sections[section as int]
        =~= module.sections[section as int]);
    assert(module.extend(section, seq![]).sections =~= module.sections);
}

/// A reference becomes the mutable raw pointer to the same type; every other
/// type stays as it is.
fn pointer_form_of(ty: &Ty) -> (key: Ty)
    ensures
        key@ == pointer_form(ty@),
{
    match ty {
        Ty::Ref { ty: inner, .. } => Ty::RawPtr {
            ty: Box::new((&**inner).clone()),
            mutbl: Mutability::Mutable,
        },
        _ => ty.clone(),
    }
}

impl SpirvCtx {
    /// Names fields as members of `target`, counting from `start` on; returns
    /// the number of the member after them.
    fn name_fields(&mut self, target: u32, start: u32, fields: &Vec<FieldDef>) -> (next: u32)
        requires
            old(self).wf(),
        ensures
            final(self).wf(),
            final(self).same_but_lowering(old(self)),
            final(self).ty_cache == old(self).ty_cache,
            module_of(final(self).builder) == module_of(old(self).builder).extend(
                DEBUGS,
                member_names_from(target, start as int, fields_model(fields@)),
            ),
            next == low32(start + fields@.len()),
    {
        let ghost before = module_of(self.builder);
        let ghost all = member_names_from(target, start as int, fields_model(fields@));
        let mut i: usize = 0;
        let mut member: u32 = start;
        proof {
            lemma_extend_nothing(before, DEBUGS);
            assert(all.take(0) =~= seq![]);
        }
        while i < fields.len()
            invariant
                i <= fields.len(),
                member == low32(start + i),
                before.wf(),
                before == module_of(old(self).builder),
                all == member_names_from(target, start as int, fields_model(fields@)),
                self.wf(),
                self.same_but_lowering(old(self)),
                self.ty_cache == old(self).ty_cache,
                module_of(self.builder) == before.extend(DEBUGS, all.take(i as int)),
            decreases fields.len() - i,
        {
            crate::builder::member_name(
                &mut self.builder,
                target,
                member,
                fields[i].name.as_str(),
            );
            proof {
                assert(all[i as int] == member_name_instruction(
                    target,
                    member,
                    fields@[i as int].name@,
                ));
                lemma_extend_twice(before, DEBUGS, all.take(i as int), seq![all[i as int]]);
                assert(all.take(i + 1) =~= all.take(i as int) + seq![all[i as int]]);
            }
            member = member.wrapping_add(1);
            i = i + 1;
        }
        assert(all.take(fields@.len() as int) =~= all);
        member
    }

    /// Emits a structure type and, where names are emitted, names its members
    /// and itself.
    fn emit_struct(&mut self, members: &Vec<u32>, fields: &Vec<FieldDef>, def_id: DefId) -> (id:
        u32)
        requires
            old(self).wf(),
            module_of(old(self).builder).next_id < u32::MAX,
        ensures
            final(self).wf(),
            final(self).same_but_lowering(old(self)),
            final(self).ty_cache == old(self).ty_cache,
            id == module_of(old(self).builder).fresh(),
            module_of(final(self).builder) == define_struct(
                old(self).names(),
                module_of(old(self).builder),
                members@,
                fields_model(fields@),
                def_id,
            ),
    {
        let id: u32 = crate::builder::type_struct(&mut self.builder, members);
        if self.debug_symbols {
            let _next: u32 = self.name_fields(id, 0, fields);
            assert(member_names_from(id, 0, fields_model(fields@)) =~= member_names(
                id,
                fields_model(fields@),
            ));
        }
        self.name_from_def_id(def_id, id);
        id
    }

    /// Emits the structure type of an enumeration; its members are named after
    /// all fields of all variants.
    fn emit_enum(&mut self, members: &Vec<u32>, variants: &Vec<VariantDef>, def_id: DefId) -> (id:
        u32)
        requires
            old(self).wf(),
            module_of(old(self).builder).next_id < u32::MAX,
        ensures
            final(self).wf(),
            final(self).same_but_lowering(old(self)),
            final(self).ty_cache == old(self).ty_cache,
            id == module_of(old(self).builder).fresh(),
            module_of(final(self).builder) == define_struct(
                old(self).names(),
                module_of(old(self).builder),
                members@,
                all_fields(variants_model(variants@)),
                def_id,
            ),
    {
        let id: u32 = crate::builder::type_struct(&mut self.builder, members);
        if self.debug_symbols {
            let ghost before = module_of(self.builder);
            let ghost model = variants_model(variants@);
            let mut i: usize = 0;
            let mut member: u32 = 0;
            proof {
                lemma_extend_nothing(before, DEBUGS);
                assert(model.take(0) =~= seq![]);
                assert(member_names(id, all_fields(model.take(0))) =~= seq![]);
            }
            while i < variants.len()
                invariant
                    i <= variants.len(),
                    model == variants_model(variants@),
                    before.wf(),
                    member == low32(all_fields(model.take(i as int)).len() as int),
                    self.wf(),
                    self.same_but_lowering(old(self)),
                    self.ty_cache == old(self).ty_cache,
                    module_of(self.builder) == before.extend(
                        DEBUGS,
                        member_names(id, all_fields(model.take(i as int))),
                    ),
                decreases variants.len() - i,
            {
                let ghost done = all_fields(model.take(i as int));
                let ghost fields = model[i as int].fields;
                let ghost start = member;
                member = self.name_fields(id, member, &variants[i].fields);
                proof {
                    assert(model.take(i + 1).drop_last() =~= model.take(i as int));
                    assert(model.take(i + 1).last() == model[i as int]);
                    assert(fields == fields_model(variants@[i as int].fields@));
                    assert(member_names(id, done + fields) =~= member_names(id, done)
                        + member_names_from(id, start as int, fields));
                    lemma_extend_twice(
                        before,
                        DEBUGS,
                        member_names(id, done),
                        member_names_from(id, start as int, fields),
                    );
                }
                i = i + 1;
            }
            assert(model.take(variants@.len() as int) =~= model);
        }
        self.name_from_def_id(def_id, id);
        id
    }

    /// Lowers a type without type parameters: see [`lower`].
    pub(crate) fn lower_ty(&mut self, ty: &Ty) -> (spirv_ty: SpirvTy)
        requires
            old(self).wf(),
            supported(old(self).names().discrs, ty@),
            lower(old(self).names(), old(self).lowering(), ty@).0.module.next_id <= u32::MAX,
        ensures
            final(self).wf(),
            final(self).same_but_lowering(old(self)),
            final(self).lowering() == lower(old(self).names(), old(self).lowering(), ty@).0,
            spirv_ty.word == lower(old(self).names(), old(self).lowering(), ty@).1,
        decreases rank(ty@), ty, 1nat,
    {
        let key = pointer_form_of(ty);
        if let Some(found) = self.ty_cache.get(&key) {
            return found;
        }
        let spirv_ty = SpirvTy { word: self.emit_ty(ty) };
        self.ty_cache.insert(key, spirv_ty);
        spirv_ty
    }

    /// Emits the instructions for a type: see [`emit`].
    fn emit_ty(&mut self, ty: &Ty) -> (id: u32)
        requires
            old(self).wf(),
            supported(old(self).names().discrs, ty@),
            emit(old(self).names(), old(self).lowering(), ty@).0.module.next_id <= u32::MAX,
        ensures
            final(self).wf(),
            final(self).same_but_lowering(old(self)),
            final(self).lowering() == emit(old(self).names(), old(self).lowering(), ty@).0,
            id == emit(old(self).names(), old(self).lowering(), ty@).1,
        decreases rank(ty@), ty, 0nat,
    {
        let ghost names = self.names();
        let ghost st = self.lowering();
        match ty {
            Ty::Never => 0,
            Ty::Bool => crate::builder::type_bool(&mut self.builder),
            Ty::Int(int_ty) => crate::builder::type_int(&mut self.builder, int_ty.width(), 1),
            Ty::Uint(uint_ty) => crate::builder::type_int(&mut self.builder, uint_ty.width(), 0),
            Ty::Float(_) => crate::builder::type_float(&mut self.builder, 32),
            Ty::Tuple(items, _) => {
                assert(tys_model(items@).len() == items@.len());
                if items.len() == 0 {
                    crate::builder::type_void(&mut self.builder)
                } else {
                    let ids = self.lower_tys(items);
                    crate::builder::type_struct(&mut self.builder, &ids)
                }
            },
            Ty::FnPtr { inputs, output, .. } => {
                proof {
                    lemma_lower_grew(names, st, output@);
                    lemma_lower_all_grew(names, lower(names, st, output@).0, tys_model(inputs@));
                }
                let return_type = self.lower_ty(output);
                let ids = self.lower_tys(inputs);
                crate::builder::type_function(&mut self.builder, return_type.word, &ids)
            },
            Ty::RawPtr { ty: inner, .. } => self.emit_pointer(inner),
            Ty::Ref { ty: inner, .. } => self.emit_pointer(inner),
            Ty::Adt { did, kind, .. } => {
                assert(ty@->Adt_kind == kind.model());
                match kind {
                    AdtKind::Struct { intrinsic: Some(IntrinsicType::Vec(dim)), fields } => {
                        assert(fields_model(fields@)[0] == fields@[0]@);
                        let component = self.lower_ty(&fields[0].ty);
                        let count: u32 = (*dim as u64 % 0x1_0000_0000) as u32;
                        crate::builder::type_vector(&mut self.builder, component.word, count)
                    },
                    AdtKind::Struct { intrinsic: None, fields } => {
                        proof {
                            let (after, ids) = lower_fields(names, st, fields_model(fields@));
                            lemma_lower_fields_grew(names, st, fields_model(fields@));
                            lemma_define_struct_grew(
                                names,
                                after.module,
                                ids,
                                fields_model(fields@),
                                *did,
                            );
                        }
                        let ids = self.lower_field_tys(fields);
                        self.emit_struct(&ids, fields, *did)
                    },
                    AdtKind::Enum { variants } => {
                        let discr: UintTy = discr_of(&self.tcx.layouts, ty).unwrap();
                        proof {
                            let model = variants_model(variants@);
                            let discr_ty = TyView::Uint(discr);
                            lemma_lower_grew(names, st, discr_ty);
                            let (tagged, discr_id) = lower(names, st, discr_ty);
                            lemma_lower_variants_grew(names, tagged, model);
                            let (after, ids) = lower_variants(names, tagged, model);
                            lemma_define_struct_grew(
                                names,
                                after.module,
                                ids.push(discr_id),
                                all_fields(model),
                                *did,
                            );
                        }
                        let discr_ty = self.lower_ty(&Ty::Uint(discr));
                        let mut ids = self.lower_variant_tys(variants);
                        ids.push(discr_ty.word);
                        self.emit_enum(&ids, variants, *did)
                    },
                    AdtKind::Union => 0,
                }
            },
            Ty::Param(_) => 0,
            Ty::Other { .. } => 0,
        }
    }

    /// Emits the pointer to a type, in the function storage class.
    fn emit_pointer(&mut self, inner: &Ty) -> (id: u32)
        requires
            old(self).wf(),
            supported(old(self).names().discrs, inner@),
            lower(old(self).names(), old(self).lowering(), inner@).0.module.next_id < u32::MAX,
        ensures
            final(self).wf(),
            final(self).same_but_lowering(old(self)),
            (final(self).lowering(), id) == ({
                let (after, inner_id) = lower(old(self).names(), old(self).lowering(), inner@);
                crate::lower::define(
                    after,
                    crate::words::OP_TYPE_POINTER,
                    seq![StorageClass::Function.number(), inner_id],
                )
            }),
        decreases rank(inner@), inner, 2nat,
    {
        let pointee = self.lower_ty(inner);
        crate::builder::type_pointer(&mut self.builder, StorageClass::Function, pointee.word)
    }

    /// Lowers types one after the other: see [`lower_all`].
    fn lower_tys(&mut self, tys: &Vec<Ty>) -> (ids: Vec<u32>)
        requires
            old(self).wf(),
            all_supported(old(self).names().discrs, tys_model(tys@)),
            lower_all(old(self).names(), old(self).lowering(), tys_model(tys@)).0.module.next_id
                <= u32::MAX,
        ensures
            final(self).wf(),
            final(self).same_but_lowering(old(self)),
            (final(self).lowering(), ids@) == lower_all(
                old(self).names(),
                old(self).lowering(),
                tys_model(tys@),
            ),
        decreases 1nat, tys, 0nat,
    {
        let ghost names = self.names();
        let ghost st = self.lowering();
        let ghost model = tys_model(tys@);
        let mut ids: Vec<u32> = Vec::new();
        let mut i: usize = 0;
        assert(model.take(0) =~= seq![]);
        while i < tys.len()
            invariant
                i <= tys.len(),
                model == tys_model(tys@),
                names == old(self).names(),
                st == old(self).lowering(),
                st.module.wf(),
                0 <= st.module.next_id,
                all_supported(names.discrs, model),
                lower_all(names, st, model).0.module.next_id <= u32::MAX,
                self.wf(),
                self.same_but_lowering(old(self)),
                (self.lowering(), ids@) == lower_all(names, st, model.take(i as int)),
            decreases tys.len() - i,
        {
            proof {
                lemma_lower_all_prefix(names, st, model, i + 1);
                assert(model.take(i + 1).drop_last() =~= model.take(i as int));
                assert(model.take(i + 1).last() == model[i as int]);
                assert(model[i as int] == tys@[i as int]@);
                assert(supported(names.discrs, model[i as int]));
            }
            let spirv_ty = self.lower_ty(&tys[i]);
            ids.push(spirv_ty.word);
            i = i + 1;
        }
        assert(model.take(tys@.len() as int) =~= model);
        ids
    }

    /// Lowers the types of fields one after the other: see [`lower_fields`].
    fn lower_field_tys(&mut self, fields: &Vec<FieldDef>) -> (ids: Vec<u32>)
        requires
            old(self).wf(),
            fields_supported(old(self).names().discrs, fields_model(fields@)),
            lower_fields(
                old(self).names(),
                old(self).lowering(),
                fields_model(fields@),
            ).0.module.next_id <= u32::MAX,
        ensures
            final(self).wf(),
            final(self).same_but_lowering(old(self)),
            (final(self).lowering(), ids@) == lower_fields(
                old(self).names(),
                old(self).lowering(),
                fields_model(fields@),
            ),
        decreases 1nat, fields, 0nat,
    {
        let ghost names = self.names();
        let ghost st = self.lowering();
        let ghost model = fields_model(fields@);
        let mut ids: Vec<u32> = Vec::new();
        let mut i: usize = 0;
        assert(model.take(0) =~= seq![]);
        while i < fields.len()
            invariant
                i <= fields.len(),
                model == fields_model(fields@),
                names == old(self).names(),
                st == old(self).lowering(),
                st.module.wf(),
                0 <= st.module.next_id,
                fields_supported(names.discrs, model),
                lower_fields(names, st, model).0.module.next_id <= u32::MAX,
                self.wf(),
                self.same_but_lowering(old(self)),
                (self.lowering(), ids@) == lower_fields(names, st, model.take(i as int)),
            decreases fields.len() - i,
        {
            proof {
                lemma_lower_fields_prefix(names, st, model, i + 1);
                assert(model.take(i + 1).drop_last() =~= model.take(i as int));
                assert(model.take(i + 1).last() == model[i as int]);
                assert(model[i as int] == fields@[i as int]@);
                assert(supported(names.discrs, model[i as int].ty));
            }
            let spirv_ty = self.lower_ty(&fields[i].ty);
            ids.push(spirv_ty.word);
            i = i + 1;
        }
        assert(model.take(fields@.len() as int) =~= model);
        ids
    }

    /// Emits a structure type for each variant: see [`lower_variants`].
    fn lower_variant_tys(&mut self, variants: &Vec<VariantDef>) -> (ids: Vec<u32>)
        requires
            old(self).wf(),
            variants_supported(old(self).names().discrs, variants_model(variants@)),
            lower_variants(
                old(self).names(),
                old(self).lowering(),
                variants_model(variants@),
            ).0.module.next_id <= u32::MAX,
        ensures
            final(self).wf(),
            final(self).same_but_lowering(old(self)),
            (final(self).lowering(), ids@) == lower_variants(
                old(self).names(),
                old(self).lowering(),
                variants_model(variants@),
            ),
        decreases 1nat, variants, 0nat,
    {
        let ghost names = self.names();
        let ghost st = self.lowering();
        let ghost model = variants_model(variants@);
        let mut ids: Vec<u32> = Vec::new();
        let mut i: usize = 0;
        assert(model.take(0) =~= seq![]);
        while i < variants.len()
            invariant
                i <= variants.len(),
                model == variants_model(variants@),
                names == old(self).names(),
                st == old(self).lowering(),
                st.module.wf(),
                0 <= st.module.next_id,
                variants_supported(names.discrs, model),
                lower_variants(names, st, model).0.module.next_id <= u32::MAX,
                self.wf(),
                self.same_but_lowering(old(self)),
                (self.lowering(), ids@) == lower_variants(names, st, model.take(i as int)),
            decreases variants.len() - i,
        {
            proof {
                lemma_lower_variants_prefix(names, st, model, i + 1);
                assert(model.take(i + 1).drop_last() =~= model.take(i as int));
                assert(model.take(i + 1).last() == model[i as int]);
                assert(model[i as int] == variants@[i as int].model());
                assert(fields_supported(names.discrs, model[i as int].fields));
                let variant = model[i as int];
                let (after, members) = lower_fields(names, self.lowering(), variant.fields);
                lemma_lower_fields_grew(names, self.lowering(), variant.fields);
                lemma_define_struct_grew(
                    names,
                    after.module,
                    members,
                    variant.fields,
                    variant.did,
                );
            }
            let members = self.lower_field_tys(&variants[i].fields);
            let id: u32 = self.emit_struct(&members, &variants[i].fields, variants[i].did);
            ids.push(id);
            i = i + 1;
        }
        assert(model.take(variants@.len() as int) =~= model);
        ids
    }
}

} // verus!
