//! Monomorphization: putting types in place of type parameters.

use vstd::prelude::*;

use crate::ty::fields_model;
use crate::ty::tys_model;
use crate::ty::variants_model;
use crate::ty::AdtKind;
use crate::ty::AdtKindView;
use crate::ty::DefId;
use crate::ty::FieldDef;
use crate::ty::FieldView;
use crate::ty::Ty;
use crate::ty::TyView;
use crate::ty::VariantDef;
use crate::ty::VariantView;

verus! {

/// The type with the types `substs` in place of its type parameters.
pub open spec fn subst(ty: TyView, substs: Seq<TyView>) -> TyView
    decreases ty,
{
    match ty {
        TyView::Tuple(items, defaulted) => TyView::Tuple(subst_all(items, substs), defaulted),
        TyView::FnPtr { tag, inputs, output } => TyView::FnPtr {
            tag,
            inputs: subst_all(inputs, substs),
            output: Box::new(subst(*output, substs)),
        },
        TyView::RawPtr { ty: inner, mutbl } => TyView::RawPtr {
            ty: Box::new(subst(*inner, substs)),
            mutbl,
        },
        TyView::Ref { ty: inner, mutbl } => TyView::Ref {
            ty: Box::new(subst(*inner, substs)),
            mutbl,
        },
        TyView::Param(index) => if index < substs.len() {
            substs[index as int]
        } else {
            ty
        },
        TyView::Adt { did, substs: args, kind } => TyView::Adt {
            did,
            substs: subst_all(args, substs),
            kind: subst_kind(kind, substs),
        },
        TyView::Other { tag, parts } => TyView::Other { tag, parts: subst_all(parts, substs) },
        _ => ty,
    }
}

/// [`subst`] on each type of a list.
pub open spec fn subst_all(tys: Seq<TyView>, substs: Seq<TyView>) -> Seq<TyView>
    decreases tys,
{
    Seq::new(
        tys.len(),
        |i: int|
            if 0 <= i < tys.len() {
                subst(tys[i], substs)
            } else {
                TyView::Never
            },
    )
}

/// [`subst`] on the types in a data type.
pub open spec fn subst_kind(kind: AdtKindView, substs: Seq<TyView>) -> AdtKindView
    decreases kind,
{
    match kind {
        AdtKindView::Struct { intrinsic, fields } => AdtKindView::Struct {
            intrinsic,
            fields: subst_fields(fields, substs),
        },
        AdtKindView::Enum { variants } => AdtKindView::Enum {
            variants: subst_variants(variants, substs),
        },
        AdtKindView::Union => kind,
    }
}

/// [`subst`] on the type of each field.
pub open spec fn subst_fields(fields: Seq<FieldView>, substs: Seq<TyView>) -> Seq<FieldView>
    decreases fields,
{
    Seq::new(
        fields.len(),
        |i: int|
            if 0 <= i < fields.len() {
                FieldView { name: fields[i].name, ty: subst(fields[i].ty, substs) }
            } else {
                FieldView { name: seq![], ty: TyView::Never }
            },
    )
}

/// [`subst`] on the fields of each variant.
pub open spec fn subst_variants(variants: Seq<VariantView>, substs: Seq<TyView>) -> Seq<
    VariantView,
>
    decreases variants,
{
    Seq::new(
        variants.len(),
        |i: int|
            if 0 <= i < variants.len() {
                VariantView {
                    did: variants[i].did,
                    fields: subst_fields(variants[i].fields, substs),
                }
            } else {
                VariantView { did: DefId { krate: 0, index: 0 }, fields: seq![] }
            },
    )
}

/// Whether every type parameter in the type has a position below `n`.
pub open spec fn params_below(ty: TyView, n: int) -> bool
    decreases ty,
{
    match ty {
        TyView::Tuple(items, _) => all_params_below(items, n),
        TyView::FnPtr { inputs, output, .. } => all_params_below(inputs, n) && params_below(
            *output,
            n,
        ),
        TyView::RawPtr { ty: inner, .. } => params_below(*inner, n),
        TyView::Ref { ty: inner, .. } => params_below(*inner, n),
        TyView::Param(index) => index < n,
        TyView::Adt { substs, kind, .. } => all_params_below(substs, n) && match kind {
            AdtKindView::Struct { fields, .. } => field_params_below(fields, n),
            AdtKindView::Enum { variants } => variant_params_below(variants, n),
            AdtKindView::Union => true,
        },
        TyView::Other { parts, .. } => all_params_below(parts, n),
        _ => true,
    }
}

/// [`params_below`] of each type of a list.
pub open spec fn all_params_below(tys: Seq<TyView>, n: int) -> bool
    decreases tys,
{
    forall|i: int| 0 <= i < tys.len() ==> params_below(#[trigger] tys[i], n)
}

/// [`params_below`] of the type of each field.
pub open spec fn field_params_below(fields: Seq<FieldView>, n: int) -> bool
    decreases fields,
{
    forall|i: int| 0 <= i < fields.len() ==> params_below((#[trigger] fields[i]).ty, n)
}

/// [`params_below`] of the fields of each variant.
pub open spec fn variant_params_below(variants: Seq<VariantView>, n: int) -> bool
    decreases variants,
{
    forall|i: int|
        0 <= i < variants.len() ==> field_params_below((#[trigger] variants[i]).fields, n)
}

/// Whether a type contains no type parameter.
pub open spec fn monomorphic(ty: TyView) -> bool {
    params_below(ty, 0)
}

/// The function whose types are lowered: its definition and the types that
/// stand for its type parameters.
#[derive(Debug)]
pub struct MirContext {
    pub def_id: DefId,
    pub substs: Vec<Ty>,
}

impl MirContext {
    /// The types that stand for the type parameters.
    pub open spec fn args(&self) -> Seq<TyView> {
        tys_model(self.substs@)
    }

    /// The type with the context's types in place of its type parameters, each
    /// of which must be one of the context's.
    pub fn monomorphize(&self, value: &Ty) -> (ty: Ty)
        requires
            params_below(value@, self.substs@.len() as int),
        ensures
            ty@ == subst(value@, self.args()),
            value@ matches TyView::Param(index) ==> ty@ == self.substs@[index as int]@,
    {
        subst_ty(value, &self.substs)
    }
}

/// The types of a context are those that were put into it, in their order.
pub proof fn lemma_args_in_order(mtx: MirContext, i: int)
    requires
        0 <= i < mtx.substs@.len(),
    ensures
        mtx.args().len() == mtx.substs@.len(),
        mtx.args()[i] == mtx.substs@[i]@,
{
}

/// Each type parameter gives the type at its own position, and nothing else
/// changes: a type is monomorphized by monomorphizing its parts, each in its
/// place.
pub proof fn lemma_monomorphize_parts(ty: TyView, substs: Seq<TyView>)
    ensures
        match ty {
            TyView::Param(index) => index < substs.len() ==> subst(ty, substs)
                == substs[index as int],
            TyView::Tuple(items, defaulted) => {
                &&& subst(ty, substs) is Tuple
                &&& subst(ty, substs)->Tuple_1 == defaulted
                &&& subst(ty, substs)->Tuple_0.len() == items.len()
                &&& forall|i: int|
                    0 <= i < items.len() ==> #[trigger] subst(ty, substs)->Tuple_0[i] == subst(
                        items[i],
                        substs,
                    )
            },
            TyView::FnPtr { tag, inputs, output } => {
                &&& subst(ty, substs) is FnPtr
                &&& subst(ty, substs)->FnPtr_tag == tag
                &&& *subst(ty, substs)->FnPtr_output == subst(*output, substs)
                &&& subst(ty, substs)->FnPtr_inputs.len() == inputs.len()
                &&& forall|i: int|
                    0 <= i < inputs.len() ==> #[trigger] subst(ty, substs)->FnPtr_inputs[i]
                        == subst(inputs[i], substs)
            },
            TyView::RawPtr { ty: inner, mutbl } => {
                &&& subst(ty, substs) is RawPtr
                &&& *subst(ty, substs)->RawPtr_ty == subst(*inner, substs)
                &&& subst(ty, substs)->RawPtr_mutbl == mutbl
            },
            TyView::Ref { ty: inner, mutbl } => {
                &&& subst(ty, substs) is Ref
                &&& *subst(ty, substs)->Ref_ty == subst(*inner, substs)
                &&& subst(ty, substs)->Ref_mutbl == mutbl
            },
            TyView::Adt { did, substs: args, kind } => {
                &&& subst(ty, substs) is Adt
                &&& subst(ty, substs)->Adt_did == did
                &&& subst(ty, substs)->Adt_substs.len() == args.len()
                &&& forall|i: int|
                    0 <= i < args.len() ==> #[trigger] subst(ty, substs)->Adt_substs[i] == subst(
                        args[i],
                        substs,
                    )
                &&& match (kind, subst(ty, substs)->Adt_kind) {
                    (
                        AdtKindView::Struct { intrinsic, fields },
                        AdtKindView::Struct { intrinsic: new_intrinsic, fields: new_fields },
                    ) => new_intrinsic == intrinsic && fields_monomorphized(
                        fields,
                        substs,
                        new_fields,
                    ),
                    (
                        AdtKindView::Enum { variants },
                        AdtKindView::Enum { variants: new_variants },
                    ) => {
                        &&& new_variants.len() == variants.len()
                        &&& forall|i: int|
                            0 <= i < variants.len() ==> (#[trigger] new_variants[i]).did
                                == variants[i].did && fields_monomorphized(
                                variants[i].fields,
                                substs,
                                new_variants[i].fields,
                            )
                    },
                    (AdtKindView::Union, AdtKindView::Union) => true,
                    _ => false,
                }
            },
            TyView::Other { tag, parts } => {
                &&& subst(ty, substs) is Other
                &&& subst(ty, substs)->Other_tag == tag
                &&& subst(ty, substs)->Other_parts.len() == parts.len()
                &&& forall|i: int|
                    0 <= i < parts.len() ==> #[trigger] subst(ty, substs)->Other_parts[i] == subst(
                        parts[i],
                        substs,
                    )
            },
            _ => subst(ty, substs) == ty,
        },
{
    match ty {
        TyView::Tuple(items, _) => {
            assert(subst(ty, substs)->Tuple_0 == subst_all(items, substs));
        },
        TyView::FnPtr { inputs, .. } => {
            assert(subst(ty, substs)->FnPtr_inputs == subst_all(inputs, substs));
        },
        TyView::Adt { substs: args, .. } => {
            assert(subst(ty, substs)->Adt_substs == subst_all(args, substs));
        },
        TyView::Other { parts, .. } => {
            assert(subst(ty, substs)->Other_parts == subst_all(parts, substs));
        },
        _ => {},
    }
    if let TyView::Adt { kind, .. } = ty {
        assert(subst(ty, substs)->Adt_kind == subst_kind(kind, substs));
        match kind {
            AdtKindView::Struct { intrinsic, fields } => {
                assert(fields_monomorphized(fields, substs, subst_fields(fields, substs)));
                assert(subst_kind(kind, substs) == AdtKindView::Struct {
                    intrinsic,
                    fields: subst_fields(fields, substs),
                });
            },
            AdtKindView::Enum { variants } => {
                let after = subst_variants(variants, substs);
                assert(subst_kind(kind, substs) == AdtKindView::Enum { variants: after });
                assert forall|i: int| 0 <= i < variants.len() implies fields_monomorphized(
                    variants[i].fields,
                    substs,
                    (#[trigger] after[i]).fields,
                ) by {
                    assert(after[i].fields == subst_fields(variants[i].fields, substs));
                }
            },
            AdtKindView::Union => {
                assert(subst_kind(kind, substs) == AdtKindView::Union);
            },
        }
    }
}

/// The fields `after` have the names of the fields `before`, and their types
/// monomorphized, each in its place.
pub open spec fn fields_monomorphized(
    before: Seq<FieldView>,
    substs: Seq<TyView>,
    after: Seq<FieldView>,
) -> bool {
    &&& after.len() == before.len()
    &&& forall|i: int|
        0 <= i < before.len() ==> (#[trigger] after[i]).name == before[i].name && after[i].ty
            == subst(before[i].ty, substs)
}

/// Types that put the same types in place of the first parameters give the same
/// for every type that has no others.
pub proof fn lemma_monomorphize_depends(
    ty: TyView,
    n: int,
    a: Seq<TyView>,
    b: Seq<TyView>,
)
    requires
        params_below(ty, n),
        n <= a.len(),
        n <= b.len(),
        forall|i: int| 0 <= i < n ==> #[trigger] a[i] == b[i],
    ensures
        subst(ty, a) == subst(ty, b),
    decreases ty, 1nat,
{
    match ty {
        TyView::Tuple(items, _) => {
            lemma_all_depend(items, n, a, b);
        },
        TyView::FnPtr { inputs, output, .. } => {
            lemma_all_depend(inputs, n, a, b);
            lemma_monomorphize_depends(*output, n, a, b);
        },
        TyView::RawPtr { ty: inner, .. } => {
            lemma_monomorphize_depends(*inner, n, a, b);
        },
        TyView::Ref { ty: inner, .. } => {
            lemma_monomorphize_depends(*inner, n, a, b);
        },
        TyView::Adt { substs: args, kind, .. } => {
            lemma_all_depend(args, n, a, b);
            match kind {
                AdtKindView::Struct { fields, .. } => {
                    lemma_fields_depend(fields, n, a, b);
                },
                AdtKindView::Enum { variants } => {
                    assert(variant_params_below(variants, n));
                    assert forall|i: int| 0 <= i < variants.len() implies subst_variants(
                        variants,
                        a,
                    )[i] == subst_variants(variants, b)[i] by {
                        assert(field_params_below(variants[i].fields, n));
                        lemma_fields_depend(variants[i].fields, n, a, b);
                    }
                    assert(subst_variants(variants, a) =~= subst_variants(variants, b));
                },
                AdtKindView::Union => {},
            }
            assert(subst_kind(kind, a) == subst_kind(kind, b));
        },
        TyView::Other { parts, .. } => {
            lemma_all_depend(parts, n, a, b);
        },
        _ => {},
    }
}

proof fn lemma_all_depend(tys: Seq<TyView>, n: int, a: Seq<TyView>, b: Seq<TyView>)
    requires
        all_params_below(tys, n),
        n <= a.len(),
        n <= b.len(),
        forall|i: int| 0 <= i < n ==> #[trigger] a[i] == b[i],
    ensures
        subst_all(tys, a) == subst_all(tys, b),
    decreases tys, 0nat,
{
    assert forall|i: int| 0 <= i < tys.len() implies subst_all(tys, a)[i] == subst_all(
        tys,
        b,
    )[i] by {
        lemma_monomorphize_depends(tys[i], n, a, b);
    }
    assert(subst_all(tys, a) =~= subst_all(tys, b));
}

proof fn lemma_fields_depend(fields: Seq<FieldView>, n: int, a: Seq<TyView>, b: Seq<TyView>)
    requires
        field_params_below(fields, n),
        n <= a.len(),
        n <= b.len(),
        forall|i: int| 0 <= i < n ==> #[trigger] a[i] == b[i],
    ensures
        subst_fields(fields, a) == subst_fields(fields, b),
    decreases fields, 0nat,
{
    assert forall|i: int| 0 <= i < fields.len() implies subst_fields(fields, a)[i]
        == subst_fields(fields, b)[i] by {
        lemma_monomorphize_depends(fields[i].ty, n, a, b);
    }
    assert(subst_fields(fields, a) =~= subst_fields(fields, b));
}

/// A type has no parameter at position `n` or above exactly if none of its parts
/// has.
pub proof fn lemma_params_below_parts(ty: TyView, n: int)
    ensures
        params_below(ty, n) <==> match ty {
            TyView::Param(index) => index < n,
            TyView::Tuple(items, _) => forall|i: int|
                0 <= i < items.len() ==> params_below(#[trigger] items[i], n),
            TyView::FnPtr { inputs, output, .. } => params_below(*output, n) && forall|i: int|
                0 <= i < inputs.len() ==> params_below(#[trigger] inputs[i], n),
            TyView::RawPtr { ty: inner, .. } => params_below(*inner, n),
            TyView::Ref { ty: inner, .. } => params_below(*inner, n),
            TyView::Adt { substs, kind, .. } => {
                &&& forall|i: int| 0 <= i < substs.len() ==> params_below(#[trigger] substs[i], n)
                &&& kind matches AdtKindView::Struct { fields, .. } ==> forall|i: int|
                    0 <= i < fields.len() ==> params_below((#[trigger] fields[i]).ty, n)
                &&& kind matches AdtKindView::Enum { variants } ==> forall|i: int, j: int|
                    #![trigger variants[i].fields[j]]
                    0 <= i < variants.len() && 0 <= j < variants[i].fields.len() ==> params_below(
                        variants[i].fields[j].ty,
                        n,
                    )
            },
            TyView::Other { parts, .. } => forall|i: int|
                0 <= i < parts.len() ==> params_below(#[trigger] parts[i], n),
            _ => true,
        },
        monomorphic(ty) <==> params_below(ty, 0),
{
    match ty {
        TyView::Tuple(items, _) => {
            assert(params_below(ty, n) == all_params_below(items, n));
        },
        TyView::FnPtr { inputs, output, .. } => {
            assert(params_below(ty, n) == (all_params_below(inputs, n) && params_below(
                *output,
                n,
            )));
        },
        TyView::Adt { substs, kind: AdtKindView::Struct { fields, .. }, .. } => {
            assert(params_below(ty, n) == (all_params_below(substs, n) && field_params_below(
                fields,
                n,
            )));
        },
        TyView::Adt { substs, kind: AdtKindView::Enum { variants }, .. } => {
            assert(params_below(ty, n) == (all_params_below(substs, n) && variant_params_below(
                variants,
                n,
            )));
        },
        TyView::Adt { substs, kind: AdtKindView::Union, .. } => {
            assert(params_below(ty, n) == all_params_below(substs, n));
        },
        TyView::Other { parts, .. } => {
            assert(params_below(ty, n) == all_params_below(parts, n));
        },
        _ => {},
    }
    if let TyView::Adt { kind: AdtKindView::Enum { variants }, .. } = ty {
        assert(variant_params_below(variants, n) <==> forall|i: int, j: int|
            #![trigger variants[i].fields[j]]
            0 <= i < variants.len() && 0 <= j < variants[i].fields.len() ==> params_below(
                variants[i].fields[j].ty,
                n,
            )) by {
            if variant_params_below(variants, n) {
                assert forall|i: int, j: int|
                    #![trigger variants[i].fields[j]]
                    0 <= i < variants.len() && 0 <= j
                        < variants[i].fields.len() implies params_below(
                    variants[i].fields[j].ty,
                    n,
                ) by {
                    assert(field_params_below(variants[i].fields, n));
                }
            }
            if forall|i: int, j: int|
                #![trigger variants[i].fields[j]]
                0 <= i < variants.len() && 0 <= j < variants[i].fields.len() ==> params_below(
                    variants[i].fields[j].ty,
                    n,
                ) {
                assert forall|i: int| 0 <= i < variants.len() implies field_params_below(
                    (#[trigger] variants[i]).fields,
                    n,
                ) by {
                    assert forall|j: int| 0 <= j < variants[i].fields.len() implies params_below(
                        (#[trigger] variants[i].fields[j]).ty,
                        n,
                    ) by {}
                }
            }
        }
    }
}

fn subst_ty(ty: &Ty, substs: &Vec<Ty>) -> (result: Ty)
    ensures
        result@ == subst(ty@, tys_model(substs@)),
    decreases ty,
{
    match ty {
        Ty::Never => Ty::Never,
        Ty::Bool => Ty::Bool,
        Ty::Int(int_ty) => Ty::Int(*int_ty),
        Ty::Uint(uint_ty) => Ty::Uint(*uint_ty),
        Ty::Float(float_ty) => Ty::Float(*float_ty),
        Ty::Tuple(items, defaulted) => Ty::Tuple(subst_tys(items, substs), *defaulted),
        Ty::FnPtr { tag, inputs, output } => Ty::FnPtr {
            tag: *tag,
            inputs: subst_tys(inputs, substs),
            output: Box::new(subst_ty(output, substs)),
        },
        Ty::RawPtr { ty: inner, mutbl } => Ty::RawPtr {
            ty: Box::new(subst_ty(inner, substs)),
            mutbl: *mutbl,
        },
        Ty::Ref { ty: inner, mutbl } => Ty::Ref {
            ty: Box::new(subst_ty(inner, substs)),
            mutbl: *mutbl,
        },
        Ty::Param(index) => if (*index as u64) < substs.len() as u64 {
            substs[*index as usize].clone()
        } else {
            Ty::Param(*index)
        },
        Ty::Adt { did, substs: args, kind } => Ty::Adt {
            did: *did,
            substs: subst_tys(args, substs),
            kind: subst_adt(kind, substs),
        },
        Ty::Other { tag, parts } => Ty::Other { tag: *tag, parts: subst_tys(parts, substs) },
    }
}

fn subst_adt(kind: &AdtKind, substs: &Vec<Ty>) -> (result: AdtKind)
    ensures
        result.model() == subst_kind(kind.model(), tys_model(substs@)),
    decreases kind,
{
    match kind {
        AdtKind::Struct { intrinsic, fields } => AdtKind::Struct {
            intrinsic: *intrinsic,
            fields: subst_field_defs(fields, substs),
        },
        AdtKind::Enum { variants } => AdtKind::Enum {
            variants: subst_variant_defs(variants, substs),
        },
        AdtKind::Union => AdtKind::Union,
    }
}

fn subst_tys(tys: &Vec<Ty>, substs: &Vec<Ty>) -> (result: Vec<Ty>)
    ensures
        tys_model(result@) == subst_all(tys_model(tys@), tys_model(substs@)),
    decreases tys,
{
    let mut result: Vec<Ty> = Vec::new();
    let mut i: usize = 0;
    while i < tys.len()
        invariant
            i <= tys.len(),
            result.len() == i,
            forall|j: int|
                0 <= j < i ==> (#[trigger] result@[j])@ == subst(tys@[j]@, tys_model(substs@)),
        decreases tys.len() - i,
    {
        result.push(subst_ty(&tys[i], substs));
        i = i + 1;
    }
    assert(tys_model(result@) =~= subst_all(tys_model(tys@), tys_model(substs@)));
    result
}

fn subst_field_defs(fields: &Vec<FieldDef>, substs: &Vec<Ty>) -> (result: Vec<FieldDef>)
    ensures
        fields_model(result@) == subst_fields(fields_model(fields@), tys_model(substs@)),
    decreases fields,
{
    let mut result: Vec<FieldDef> = Vec::new();
    let mut i: usize = 0;
    while i < fields.len()
        invariant
            i <= fields.len(),
            result.len() == i,
            forall|j: int|
                0 <= j < i ==> {
                    &&& (#[trigger] result@[j]).name@ == fields@[j].name@
                    &&& result@[j].ty@ == subst(fields@[j].ty@, tys_model(substs@))
                },
        decreases fields.len() - i,
    {
        result.push(
            FieldDef { name: fields[i].name.clone(), ty: subst_ty(&fields[i].ty, substs) },
        );
        i = i + 1;
    }
    assert(fields_model(result@) =~= subst_fields(fields_model(fields@), tys_model(substs@)));
    result
}

fn subst_variant_defs(variants: &Vec<VariantDef>, substs: &Vec<Ty>) -> (result: Vec<VariantDef>)
    ensures
        variants_model(result@) == subst_variants(variants_model(variants@), tys_model(substs@)),
    decreases variants,
{
    let mut result: Vec<VariantDef> = Vec::new();
    let mut i: usize = 0;
    while i < variants.len()
        invariant
            i <= variants.len(),
            result.len() == i,
            forall|j: int|
                0 <= j < i ==> {
                    &&& (#[trigger] result@[j]).did == variants@[j].did
                    &&& fields_model(result@[j].fields@) == subst_fields(
                        fields_model(variants@[j].fields@),
                        tys_model(substs@),
                    )
                },
        decreases variants.len() - i,
    {
        result.push(
            VariantDef {
                did: variants[i].did,
                fields: subst_field_defs(&variants[i].fields, substs),
            },
        );
        i = i + 1;
    }
    assert(variants_model(result@) =~= subst_variants(
        variants_model(variants@),
        tys_model(substs@),
    ));
    result
}

/// Monomorphizing a type that contains no type parameter changes nothing.
pub proof fn lemma_monomorphic_is_fixed(ty: TyView, substs: Seq<TyView>)
    requires
        monomorphic(ty),
    ensures
        subst(ty, substs) == ty,
    decreases ty, 1nat,
{
    match ty {
        TyView::Tuple(items, _) => {
            lemma_all_fixed(items, substs);
        },
        TyView::FnPtr { inputs, output, .. } => {
            lemma_all_fixed(inputs, substs);
            lemma_monomorphic_is_fixed(*output, substs);
        },
        TyView::RawPtr { ty: inner, .. } => {
            lemma_monomorphic_is_fixed(*inner, substs);
        },
        TyView::Ref { ty: inner, .. } => {
            lemma_monomorphic_is_fixed(*inner, substs);
        },
        TyView::Adt { substs: args, kind, .. } => {
            lemma_all_fixed(args, substs);
            match kind {
                AdtKindView::Struct { fields, .. } => {
                    lemma_fields_fixed(fields, substs);
                },
                AdtKindView::Enum { variants } => {
                    lemma_variants_fixed(variants, substs);
                },
                AdtKindView::Union => {},
            }
            assert(subst_kind(kind, substs) == kind);
        },
        TyView::Other { parts, .. } => {
            lemma_all_fixed(parts, substs);
        },
        _ => {},
    }
}

proof fn lemma_all_fixed(tys: Seq<TyView>, substs: Seq<TyView>)
    requires
        all_params_below(tys, 0),
    ensures
        subst_all(tys, substs) == tys,
    decreases tys, 0nat,
{
    assert forall|i: int| 0 <= i < tys.len() implies subst_all(tys, substs)[i] == tys[i] by {
        lemma_monomorphic_is_fixed(tys[i], substs);
    }
    assert(subst_all(tys, substs) =~= tys);
}

proof fn lemma_fields_fixed(fields: Seq<FieldView>, substs: Seq<TyView>)
    requires
        field_params_below(fields, 0),
    ensures
        subst_fields(fields, substs) == fields,
    decreases fields, 0nat,
{
    assert forall|i: int| 0 <= i < fields.len() implies subst_fields(fields, substs)[i]
        == fields[i] by {
        lemma_monomorphic_is_fixed(fields[i].ty, substs);
    }
    assert(subst_fields(fields, substs) =~= fields);
}

proof fn lemma_variants_fixed(variants: Seq<VariantView>, substs: Seq<TyView>)
    requires
        variant_params_below(variants, 0),
    ensures
        subst_variants(variants, substs) == variants,
    decreases variants, 0nat,
{
    assert forall|i: int| 0 <= i < variants.len() implies subst_variants(variants, substs)[i]
        == variants[i] by {
        lemma_fields_fixed(variants[i].fields, substs);
    }
    assert(subst_variants(variants, substs) =~= variants);
}

/// Monomorphizing with types that contain no type parameter leaves none, where
/// every parameter of the type has one of them.
pub proof fn lemma_monomorphize_is_monomorphic(ty: TyView, substs: Seq<TyView>)
    requires
        params_below(ty, substs.len() as int),
        all_params_below(substs, 0),
    ensures
        monomorphic(subst(ty, substs)),
    decreases ty, 1nat,
{
    match ty {
        TyView::Tuple(items, _) => {
            lemma_all_monomorphic(items, substs);
        },
        TyView::FnPtr { inputs, output, .. } => {
            lemma_all_monomorphic(inputs, substs);
            lemma_monomorphize_is_monomorphic(*output, substs);
        },
        TyView::RawPtr { ty: inner, .. } => {
            lemma_monomorphize_is_monomorphic(*inner, substs);
        },
        TyView::Ref { ty: inner, .. } => {
            lemma_monomorphize_is_monomorphic(*inner, substs);
        },
        TyView::Param(index) => {
            assert(params_below(substs[index as int], 0));
        },
        TyView::Adt { substs: args, kind, .. } => {
            lemma_all_monomorphic(args, substs);
            let result = subst_kind(kind, substs);
            match kind {
                AdtKindView::Struct { fields, .. } => {
                    lemma_fields_monomorphic(fields, substs);
                    assert(result is Struct);
                },
                AdtKindView::Enum { variants } => {
                    lemma_variants_monomorphic(variants, substs);
                    assert(result is Enum);
                },
                AdtKindView::Union => {
                    assert(result is Union);
                },
            }
        },
        TyView::Other { parts, .. } => {
            lemma_all_monomorphic(parts, substs);
        },
        _ => {},
    }
}

/// Monomorphizing a second time changes nothing.
pub proof fn lemma_monomorphize_twice(ty: TyView, substs: Seq<TyView>)
    requires
        params_below(ty, substs.len() as int),
        all_params_below(substs, 0),
    ensures
        subst(subst(ty, substs), substs) == subst(ty, substs),
{
    lemma_monomorphize_is_monomorphic(ty, substs);
    lemma_monomorphic_is_fixed(subst(ty, substs), substs);
}

proof fn lemma_all_monomorphic(tys: Seq<TyView>, substs: Seq<TyView>)
    requires
        all_params_below(tys, substs.len() as int),
        all_params_below(substs, 0),
    ensures
        all_params_below(subst_all(tys, substs), 0),
    decreases tys, 0nat,
{
    assert forall|i: int| 0 <= i < tys.len() implies params_below(
        #[trigger] subst_all(tys, substs)[i],
        0,
    ) by {
        assert(params_below(tys[i], substs.len() as int));
        lemma_monomorphize_is_monomorphic(tys[i], substs);
    }
}

proof fn lemma_fields_monomorphic(fields: Seq<FieldView>, substs: Seq<TyView>)
    requires
        field_params_below(fields, substs.len() as int),
        all_params_below(substs, 0),
    ensures
        field_params_below(subst_fields(fields, substs), 0),
    decreases fields, 0nat,
{
    assert forall|i: int| 0 <= i < fields.len() implies params_below(
        (#[trigger] subst_fields(fields, substs)[i]).ty,
        0,
    ) by {
        assert(params_below(fields[i].ty, substs.len() as int));
        lemma_monomorphize_is_monomorphic(fields[i].ty, substs);
    }
}

proof fn lemma_variants_monomorphic(variants: Seq<VariantView>, substs: Seq<TyView>)
    requires
        variant_params_below(variants, substs.len() as int),
        all_params_below(substs, 0),
    ensures
        variant_params_below(subst_variants(variants, substs), 0),
    decreases variants, 0nat,
{
    assert forall|i: int| 0 <= i < variants.len() implies field_params_below(
        (#[trigger] subst_variants(variants, substs)[i]).fields,
        0,
    ) by {
        assert(field_params_below(variants[i].fields, substs.len() as int));
        lemma_fields_monomorphic(variants[i].fields, substs);
    }
}

} // verus!
