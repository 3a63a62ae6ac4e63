//! Which types can be lowered.

use vstd::prelude::*;

use crate::layout::discr_of;
use crate::layout::discrs_of;
use crate::layout::EnumLayout;
use crate::mono::all_params_below;
use crate::mono::field_params_below;
use crate::mono::params_below;
use crate::mono::variant_params_below;
use crate::ty::fields_model;
use crate::ty::tys_model;
use crate::ty::variants_model;
use crate::ty::AdtKind;
use crate::ty::AdtKindView;
use crate::ty::FieldDef;
use crate::ty::FieldView;
use crate::ty::FloatTy;
use crate::ty::Ty;
use crate::ty::TyView;
use crate::ty::UintTy;
use crate::ty::VariantDef;
use crate::ty::VariantView;

verus! {

/// Whether lowering has an answer for the type. It has none for 64-bit floating
/// point numbers, type parameters, unions, enumerations whose layout has no
/// discriminant beside the variants (those not in `discrs`), vectors without a
/// field to take the component from, and types of other kinds, nor for types
/// made of such.
pub open spec fn supported(discrs: Map<TyView, UintTy>, ty: TyView) -> bool
    decreases ty,
{
    match ty {
        TyView::Never => true,
        TyView::Bool => true,
        TyView::Int(_) => true,
        TyView::Uint(_) => true,
        TyView::Float(float_ty) => float_ty == FloatTy::F32,
        TyView::Tuple(items, _) => all_supported(discrs, items),
        TyView::FnPtr { inputs, output, .. } => supported(discrs, *output) && all_supported(
            discrs,
            inputs,
        ),
        TyView::RawPtr { ty: inner, .. } => supported(discrs, *inner),
        TyView::Ref { ty: inner, .. } => supported(discrs, *inner),
        TyView::Param(_) => false,
        TyView::Adt { kind, .. } => match kind {
            AdtKindView::Struct { intrinsic, fields } => match intrinsic {
                Some(_) => fields.len() > 0 && supported(discrs, fields[0].ty),
                None => fields_supported(discrs, fields),
            },
            AdtKindView::Enum { variants } => discrs.contains_key(ty) && variants_supported(
                discrs,
                variants,
            ),
            AdtKindView::Union => false,
        },
        TyView::Other { .. } => false,
    }
}

/// [`supported`] of each type of a list.
pub open spec fn all_supported(discrs: Map<TyView, UintTy>, tys: Seq<TyView>) -> bool
    decreases tys,
{
    forall|i: int| 0 <= i < tys.len() ==> supported(discrs, #[trigger] tys[i])
}

/// [`supported`] of the type of each field.
pub open spec fn fields_supported(discrs: Map<TyView, UintTy>, fields: Seq<FieldView>) -> bool
    decreases fields,
{
    forall|i: int| 0 <= i < fields.len() ==> supported(discrs, (#[trigger] fields[i]).ty)
}

/// [`supported`] of the fields of each variant.
pub open spec fn variants_supported(
    discrs: Map<TyView, UintTy>,
    variants: Seq<VariantView>,
) -> bool
    decreases variants,
{
    forall|i: int|
        0 <= i < variants.len() ==> fields_supported(discrs, (#[trigger] variants[i]).fields)
}

/// Lowering has an answer for a type exactly if it has one for each type that
/// the type is made of, and the type is of a kind that SPIR-V has: no 64-bit
/// floating point number, type parameter, union or other kind, no enumeration
/// without a discriminant of its own and no vector without a field.
pub proof fn lemma_supported_parts(discrs: Map<TyView, UintTy>, ty: TyView)
    ensures
        supported(discrs, ty) <==> match ty {
            TyView::Never | TyView::Bool | TyView::Int(_) | TyView::Uint(_) => true,
            TyView::Float(float_ty) => float_ty == FloatTy::F32,
            TyView::Tuple(items, _) => forall|i: int|
                0 <= i < items.len() ==> supported(discrs, #[trigger] items[i]),
            TyView::FnPtr { inputs, output, .. } => supported(discrs, *output) && forall|i: int|
                0 <= i < inputs.len() ==> supported(discrs, #[trigger] inputs[i]),
            TyView::RawPtr { ty: inner, .. } => supported(discrs, *inner),
            TyView::Ref { ty: inner, .. } => supported(discrs, *inner),
            TyView::Adt { kind: AdtKindView::Struct { intrinsic: Some(_), fields }, .. } =>
                fields.len() > 0 && supported(discrs, fields[0].ty),
            TyView::Adt { kind: AdtKindView::Struct { intrinsic: None, fields }, .. } =>
                forall|i: int|
                    0 <= i < fields.len() ==> supported(discrs, (#[trigger] fields[i]).ty),
            TyView::Adt { kind: AdtKindView::Enum { variants }, .. } => discrs.contains_key(ty)
                && forall|i: int, j: int|
                #![trigger variants[i].fields[j]]
                0 <= i < variants.len() && 0 <= j < variants[i].fields.len() ==> supported(
                    discrs,
                    variants[i].fields[j].ty,
                ),
            _ => false,
        },
{
    match ty {
        TyView::Tuple(items, _) => {
            assert(supported(discrs, ty) == all_supported(discrs, items));
        },
        TyView::FnPtr { inputs, output, .. } => {
            assert(supported(discrs, ty) == (supported(discrs, *output) && all_supported(
                discrs,
                inputs,
            )));
        },
        TyView::Adt { kind: AdtKindView::Struct { intrinsic: None, fields }, .. } => {
            assert(supported(discrs, ty) == fields_supported(discrs, fields));
        },
        TyView::Adt { kind: AdtKindView::Enum { variants }, .. } => {
            assert(supported(discrs, ty) == (discrs.contains_key(ty) && variants_supported(
                discrs,
                variants,
            )));
        },
        _ => {},
    }
    if let TyView::Adt { kind: AdtKindView::Enum { variants }, .. } = ty {
        if variants_supported(discrs, variants) {
            assert forall|i: int, j: int|
                #![trigger variants[i].fields[j]]
                0 <= i < variants.len() && 0 <= j < variants[i].fields.len() implies supported(
                discrs,
                variants[i].fields[j].ty,
            ) by {
                assert(fields_supported(discrs, variants[i].fields));
            }
        }
        if forall|i: int, j: int|
            #![trigger variants[i].fields[j]]
            0 <= i < variants.len() && 0 <= j < variants[i].fields.len() ==> supported(
                discrs,
                variants[i].fields[j].ty,
            ) {
            assert forall|i: int| 0 <= i < variants.len() implies fields_supported(
                discrs,
                (#[trigger] variants[i]).fields,
            ) by {
                assert forall|j: int| 0 <= j < variants[i].fields.len() implies supported(
                    discrs,
                    (#[trigger] variants[i].fields[j]).ty,
                ) by {}
            }
        }
    }
}

impl Ty {
    /// Whether lowering has an answer for the type, given the layouts of
    /// enumerations.
    pub fn is_supported(&self, layouts: &Vec<EnumLayout>) -> (result: bool)
        ensures
            result == supported(discrs_of(layouts@), self@),
        decreases self,
    {
        match self {
            Ty::Never => true,
            Ty::Bool => true,
            Ty::Int(_) => true,
            Ty::Uint(_) => true,
            Ty::Float(float_ty) => *float_ty == FloatTy::F32,
            Ty::Tuple(items, _) => tys_are_supported(items, layouts),
            Ty::FnPtr { inputs, output, .. } => output.is_supported(layouts) && tys_are_supported(
                inputs,
                layouts,
            ),
            Ty::RawPtr { ty, .. } => ty.is_supported(layouts),
            Ty::Ref { ty, .. } => ty.is_supported(layouts),
            Ty::Param(_) => false,
            Ty::Adt { kind, .. } => {
                assert(self@->Adt_kind == kind.model());
                match kind {
                    AdtKind::Struct { intrinsic: Some(_), fields } => {
                        assert(fields@.len() > 0 ==> fields_model(fields@)[0] == fields@[0]@);
                        fields.len() > 0 && fields[0].ty.is_supported(layouts)
                    },
                    AdtKind::Struct { intrinsic: None, fields } => fields_are_supported(
                        fields,
                        layouts,
                    ),
                    AdtKind::Enum { variants } => discr_of(layouts, self).is_some()
                        && variants_are_supported(variants, layouts),
                    AdtKind::Union => false,
                }
            },
            Ty::Other { .. } => false,
        }
    }

    /// Whether every type parameter in the type has a position below `n`.
    pub fn has_params_below(&self, n: usize) -> (result: bool)
        ensures
            result == params_below(self@, n as int),
        decreases self,
    {
        match self {
            Ty::Tuple(items, _) => tys_have_params_below(items, n),
            Ty::FnPtr { inputs, output, .. } => tys_have_params_below(inputs, n)
                && output.has_params_below(n),
            Ty::RawPtr { ty, .. } => ty.has_params_below(n),
            Ty::Ref { ty, .. } => ty.has_params_below(n),
            Ty::Param(index) => (*index as u64) < n as u64,
            Ty::Adt { substs, kind, .. } => {
                assert(self@->Adt_kind == kind.model());
                tys_have_params_below(substs, n) && match kind {
                    AdtKind::Struct { fields, .. } => fields_have_params_below(fields, n),
                    AdtKind::Enum { variants } => variants_have_params_below(variants, n),
                    AdtKind::Union => true,
                }
            },
            Ty::Other { parts, .. } => tys_have_params_below(parts, n),
            _ => true,
        }
    }
}

fn tys_are_supported(tys: &Vec<Ty>, layouts: &Vec<EnumLayout>) -> (result: bool)
    ensures
        result == all_supported(discrs_of(layouts@), tys_model(tys@)),
    decreases tys,
{
    let mut i: usize = 0;
    while i < tys.len()
        invariant
            i <= tys.len(),
            forall|j: int|
                0 <= j < i ==> supported(
                    discrs_of(layouts@),
                    #[trigger] tys_model(tys@)[j],
                ),
        decreases tys.len() - i,
    {
        if !tys[i].is_supported(layouts) {
            assert(!supported(discrs_of(layouts@), tys_model(tys@)[i as int]));
            return false;
        }
        i = i + 1;
    }
    true
}

fn fields_are_supported(fields: &Vec<FieldDef>, layouts: &Vec<EnumLayout>) -> (result: bool)
    ensures
        result == fields_supported(discrs_of(layouts@), fields_model(fields@)),
    decreases fields,
{
    let mut i: usize = 0;
    while i < fields.len()
        invariant
            i <= fields.len(),
            forall|j: int|
                0 <= j < i ==> supported(
                    discrs_of(layouts@),
                    (#[trigger] fields_model(fields@)[j]).ty,
                ),
        decreases fields.len() - i,
    {
        if !fields[i].ty.is_supported(layouts) {
            assert(!supported(discrs_of(layouts@), fields_model(fields@)[i as int].ty));
            return false;
        }
        i = i + 1;
    }
    true
}

fn variants_are_supported(variants: &Vec<VariantDef>, layouts: &Vec<EnumLayout>) -> (result: bool)
    ensures
        result == variants_supported(discrs_of(layouts@), variants_model(variants@)),
    decreases variants,
{
    let mut i: usize = 0;
    while i < variants.len()
        invariant
            i <= variants.len(),
            forall|j: int|
                0 <= j < i ==> fields_supported(
                    discrs_of(layouts@),
                    (#[trigger] variants_model(variants@)[j]).fields,
                ),
        decreases variants.len() - i,
    {
        if !fields_are_supported(&variants[i].fields, layouts) {
            assert(!fields_supported(
                discrs_of(layouts@),
                variants_model(variants@)[i as int].fields,
            ));
            return false;
        }
        i = i + 1;
    }
    true
}

fn tys_have_params_below(tys: &Vec<Ty>, n: usize) -> (result: bool)
    ensures
        result == all_params_below(tys_model(tys@), n as int),
    decreases tys,
{
    let mut i: usize = 0;
    while i < tys.len()
        invariant
            i <= tys.len(),
            forall|j: int| 0 <= j < i ==> params_below(#[trigger] tys_model(tys@)[j], n as int),
        decreases tys.len() - i,
    {
        if !tys[i].has_params_below(n) {
            assert(!params_below(tys_model(tys@)[i as int], n as int));
            return false;
        }
        i = i + 1;
    }
    true
}

fn fields_have_params_below(fields: &Vec<FieldDef>, n: usize) -> (result: bool)
    ensures
        result == field_params_below(fields_model(fields@), n as int),
    decreases fields,
{
    let mut i: usize = 0;
    while i < fields.len()
        invariant
            i <= fields.len(),
            forall|j: int|
                0 <= j < i ==> params_below(
                    (#[trigger] fields_model(fields@)[j]).ty,
                    n as int,
                ),
        decreases fields.len() - i,
    {
        if !fields[i].ty.has_params_below(n) {
            assert(!params_below(fields_model(fields@)[i as int].ty, n as int));
            return false;
        }
        i = i + 1;
    }
    true
}

fn variants_have_params_below(variants: &Vec<VariantDef>, n: usize) -> (result: bool)
    ensures
        result == variant_params_below(variants_model(variants@), n as int),
    decreases variants,
{
    let mut i: usize = 0;
    while i < variants.len()
        invariant
            i <= variants.len(),
            forall|j: int|
                0 <= j < i ==> field_params_below(
                    (#[trigger] variants_model(variants@)[j]).fields,
                    n as int,
                ),
        decreases variants.len() - i,
    {
        if !fields_have_params_below(&variants[i].fields, n) {
            assert(!field_params_below(variants_model(variants@)[i as int].fields, n as int));
            return false;
        }
        i = i + 1;
    }
    true
}

} // verus!
