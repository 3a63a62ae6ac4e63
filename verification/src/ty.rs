//! The types of the source language, as far as lowering reads them.

use vstd::prelude::*;

verus! {

/// The identity of a definition: the crate it stands in and its index there.
#[derive(Clone, Copy, Debug, PartialEq, Eq, Structural)]
pub struct DefId {
    pub krate: u32,
    pub index: u32,
}

impl DefId {
    /// The definition as one integer, under which maps hold it.
    pub open spec fn spec_key(self) -> u64 {
        (self.krate * 0x1_0000_0000 + self.index) as u64
    }

    /// The definition as one integer, under which maps hold it.
    #[verifier::when_used_as_spec(spec_key)]
    pub fn key(self) -> (key: u64)
        ensures
            key == self.spec_key(),
    {
        self.krate as u64 * 0x1_0000_0000 + self.index as u64
    }
}

/// Different definitions have different keys.
pub proof fn lemma_def_id_key_injective(a: DefId, b: DefId)
    requires
        a.key() == b.key(),
    ensures
        a == b,
{
}

/// Signed integer types.
#[derive(Clone, Copy, Debug, PartialEq, Eq, Structural)]
pub enum IntTy {
    Isize,
    I8,
    I16,
    I32,
    I64,
    I128,
}

/// Unsigned integer types.
#[derive(Clone, Copy, Debug, PartialEq, Eq, Structural)]
pub enum UintTy {
    Usize,
    U8,
    U16,
    U32,
    U64,
    U128,
}

/// Floating point types.
#[derive(Clone, Copy, Debug, PartialEq, Eq, Structural)]
pub enum FloatTy {
    F32,
    F64,
}

/// Whether a pointer may be written through.
#[derive(Clone, Copy, Debug, PartialEq, Eq, Structural)]
pub enum Mutability {
    Mutable,
    Immutable,
}

/// A structure type that stands for a type built into SPIR-V.
#[derive(Clone, Copy, Debug, PartialEq, Eq, Structural)]
pub enum IntrinsicType {
    /// A vector with this many components.
    Vec(usize),
}

impl IntTy {
    /// The width in bits; a pointer-sized integer has 32.
    pub open spec fn spec_width(self) -> u32 {
        match self {
            IntTy::Isize => 32,
            IntTy::I8 => 8,
            IntTy::I16 => 16,
            IntTy::I32 => 32,
            IntTy::I64 => 64,
            IntTy::I128 => 128,
        }
    }

    /// The width in bits; a pointer-sized integer has 32.
    #[verifier::when_used_as_spec(spec_width)]
    pub fn width(self) -> (width: u32)
        ensures
            width == self.spec_width(),
    {
        match self {
            IntTy::Isize => 32,
            IntTy::I8 => 8,
            IntTy::I16 => 16,
            IntTy::I32 => 32,
            IntTy::I64 => 64,
            IntTy::I128 => 128,
        }
    }
}

impl UintTy {
    /// The width in bits; a pointer-sized integer has 32.
    pub open spec fn spec_width(self) -> u32 {
        match self {
            UintTy::Usize => 32,
            UintTy::U8 => 8,
            UintTy::U16 => 16,
            UintTy::U32 => 32,
            UintTy::U64 => 64,
            UintTy::U128 => 128,
        }
    }

    /// The width in bits; a pointer-sized integer has 32.
    #[verifier::when_used_as_spec(spec_width)]
    pub fn width(self) -> (width: u32)
        ensures
            width == self.spec_width(),
    {
        match self {
            UintTy::Usize => 32,
            UintTy::U8 => 8,
            UintTy::U16 => 16,
            UintTy::U32 => 32,
            UintTy::U64 => 64,
            UintTy::U128 => 128,
        }
    }
}

/// A type, normalized: an associated type is given as the type that it is, and
/// lifetimes are erased.
#[derive(Debug)]
pub enum Ty {
    Never,
    Bool,
    Int(IntTy),
    Uint(UintTy),
    Float(FloatTy),
    /// A tuple; the flag sets the unit type of what never returns apart.
    Tuple(Vec<Ty>, bool),
    /// A pointer to a function. What sets it apart beside its inputs and its
    /// output (its ABI, whether it is unsafe or variadic, how its lifetimes are
    /// bound) is told by a number.
    FnPtr { tag: u64, inputs: Vec<Ty>, output: Box<Ty> },
    RawPtr { ty: Box<Ty>, mutbl: Mutability },
    Ref { ty: Box<Ty>, mutbl: Mutability },
    /// A type parameter, by its position.
    Param(u32),
    /// A structure, enumeration or union with its type arguments. The types of
    /// its fields are those for these arguments.
    Adt { did: DefId, substs: Vec<Ty>, kind: AdtKind },
    /// A type that lowering has no answer for (an array, say), told apart by a
    /// number and by the types that it is made of.
    Other { tag: u64, parts: Vec<Ty> },
}

/// What an algebraic data type consists of.
#[derive(Debug)]
pub enum AdtKind {
    Struct { intrinsic: Option<IntrinsicType>, fields: Vec<FieldDef> },
    Enum { variants: Vec<VariantDef> },
    Union,
}

/// A field with its name and its type.
#[derive(Debug)]
pub struct FieldDef {
    pub name: String,
    pub ty: Ty,
}

/// A variant of an enumeration.
#[derive(Debug)]
pub struct VariantDef {
    pub did: DefId,
    pub fields: Vec<FieldDef>,
}

/// The mathematical value of a [`Ty`].
pub enum TyView {
    Never,
    Bool,
    Int(IntTy),
    Uint(UintTy),
    Float(FloatTy),
    Tuple(Seq<TyView>, bool),
    FnPtr { tag: u64, inputs: Seq<TyView>, output: Box<TyView> },
    RawPtr { ty: Box<TyView>, mutbl: Mutability },
    Ref { ty: Box<TyView>, mutbl: Mutability },
    Param(u32),
    Adt { did: DefId, substs: Seq<TyView>, kind: AdtKindView },
    Other { tag: u64, parts: Seq<TyView> },
}

/// The mathematical value of an [`AdtKind`].
pub enum AdtKindView {
    Struct { intrinsic: Option<IntrinsicType>, fields: Seq<FieldView> },
    Enum { variants: Seq<VariantView> },
    Union,
}

/// The mathematical value of a [`FieldDef`].
pub struct FieldView {
    pub name: Seq<char>,
    pub ty: TyView,
}

/// The mathematical value of a [`VariantDef`].
pub struct VariantView {
    pub did: DefId,
    pub fields: Seq<FieldView>,
}

impl Ty {
    /// The mathematical value of the type.
    pub open spec fn model(&self) -> TyView
        decreases self,
    {
        match self {
            Ty::Never => TyView::Never,
            Ty::Bool => TyView::Bool,
            Ty::Int(int_ty) => TyView::Int(*int_ty),
            Ty::Uint(uint_ty) => TyView::Uint(*uint_ty),
            Ty::Float(float_ty) => TyView::Float(*float_ty),
            Ty::Tuple(items, defaulted) => TyView::Tuple(tys_model(items@), *defaulted),
            Ty::FnPtr { tag, inputs, output } => TyView::FnPtr {
                tag: *tag,
                inputs: tys_model(inputs@),
                output: Box::new(output.model()),
            },
            Ty::RawPtr { ty, mutbl } => TyView::RawPtr { ty: Box::new(ty.model()), mutbl: *mutbl },
            Ty::Ref { ty, mutbl } => TyView::Ref { ty: Box::new(ty.model()), mutbl: *mutbl },
            Ty::Param(index) => TyView::Param(*index),
            Ty::Adt { did, substs, kind } => TyView::Adt {
                did: *did,
                substs: tys_model(substs@),
                kind: kind.model(),
            },
            Ty::Other { tag, parts } => TyView::Other { tag: *tag, parts: tys_model(parts@) },
        }
    }
}

/// The mathematical values of a list of types.
pub open spec fn tys_model(tys: Seq<Ty>) -> Seq<TyView>
    decreases tys,
{
    Seq::new(
        tys.len(),
        |i: int|
            if 0 <= i < tys.len() {
                tys[i].model()
            } else {
                TyView::Never
            },
    )
}

impl AdtKind {
    /// The mathematical value of the data type's contents.
    pub open spec fn model(&self) -> AdtKindView
        decreases self,
    {
        match self {
            AdtKind::Struct { intrinsic, fields } => AdtKindView::Struct {
                intrinsic: *intrinsic,
                fields: fields_model(fields@),
            },
            AdtKind::Enum { variants } => AdtKindView::Enum {
                variants: variants_model(variants@),
            },
            AdtKind::Union => AdtKindView::Union,
        }
    }
}

impl FieldDef {
    /// The mathematical value of the field.
    pub open spec fn model(&self) -> FieldView
        decreases self,
    {
        FieldView { name: self.name@, ty: self.ty.model() }
    }
}

/// The mathematical values of a list of fields.
pub open spec fn fields_model(fields: Seq<FieldDef>) -> Seq<FieldView>
    decreases fields,
{
    Seq::new(
        fields.len(),
        |i: int|
            if 0 <= i < fields.len() {
                fields[i].model()
            } else {
                FieldView { name: seq![], ty: TyView::Never }
            },
    )
}

impl VariantDef {
    /// The mathematical value of the variant.
    pub open spec fn model(&self) -> VariantView
        decreases self,
    {
        VariantView { did: self.did, fields: fields_model(self.fields@) }
    }
}

/// The mathematical values of a list of variants.
pub open spec fn variants_model(variants: Seq<VariantDef>) -> Seq<VariantView>
    decreases variants,
{
    Seq::new(
        variants.len(),
        |i: int|
            if 0 <= i < variants.len() {
                variants[i].model()
            } else {
                VariantView { did: DefId { krate: 0, index: 0 }, fields: seq![] }
            },
    )
}

impl View for Ty {
    type V = TyView;

    open spec fn view(&self) -> TyView {
        self.model()
    }
}

impl View for FieldDef {
    type V = FieldView;

    open spec fn view(&self) -> FieldView {
        self.model()
    }
}

/// The value of a type leaves nothing out: it is of the same kind, with the same
/// marks, and its parts are the values of the type's parts, each in its place.
pub proof fn lemma_view_keeps_all(ty: Ty)
    ensures
        match ty {
            Ty::Never => ty@ == TyView::Never,
            Ty::Bool => ty@ == TyView::Bool,
            Ty::Int(int_ty) => ty@ == TyView::Int(int_ty),
            Ty::Uint(uint_ty) => ty@ == TyView::Uint(uint_ty),
            Ty::Float(float_ty) => ty@ == TyView::Float(float_ty),
            Ty::Tuple(items, defaulted) => {
                &&& ty@ is Tuple
                &&& ty@->Tuple_1 == defaulted
                &&& views_of(items@, ty@->Tuple_0)
            },
            Ty::FnPtr { tag, inputs, output } => {
                &&& ty@ is FnPtr
                &&& ty@->FnPtr_tag == tag
                &&& views_of(inputs@, ty@->FnPtr_inputs)
                &&& *ty@->FnPtr_output == output@
            },
            Ty::RawPtr { ty: inner, mutbl } => {
                &&& ty@ is RawPtr
                &&& *ty@->RawPtr_ty == inner@
                &&& ty@->RawPtr_mutbl == mutbl
            },
            Ty::Ref { ty: inner, mutbl } => {
                &&& ty@ is Ref
                &&& *ty@->Ref_ty == inner@
                &&& ty@->Ref_mutbl == mutbl
            },
            Ty::Param(index) => ty@ == TyView::Param(index),
            Ty::Adt { did, substs, kind } => {
                &&& ty@ is Adt
                &&& ty@->Adt_did == did
                &&& views_of(substs@, ty@->Adt_substs)
                &&& match (kind, ty@->Adt_kind) {
                    (
                        AdtKind::Struct { intrinsic, fields },
                        AdtKindView::Struct { intrinsic: intrinsic_view, fields: field_views },
                    ) => intrinsic == intrinsic_view && field_views_of(fields@, field_views),
                    (
                        AdtKind::Enum { variants },
                        AdtKindView::Enum { variants: variant_views },
                    ) => {
                        &&& variant_views.len() == variants@.len()
                        &&& forall|i: int|
                            0 <= i < variants@.len() ==> (#[trigger] variant_views[i]).did
                                == variants@[i].did && field_views_of(
                                variants@[i].fields@,
                                variant_views[i].fields,
                            )
                    },
                    (AdtKind::Union, AdtKindView::Union) => true,
                    _ => false,
                }
            },
            Ty::Other { tag, parts } => {
                &&& ty@ is Other
                &&& ty@->Other_tag == tag
                &&& views_of(parts@, ty@->Other_parts)
            },
        },
{
    match ty {
        Ty::Tuple(items, _) => {
            assert(ty@->Tuple_0 == tys_model(items@));
        },
        Ty::FnPtr { inputs, .. } => {
            assert(ty@->FnPtr_inputs == tys_model(inputs@));
        },
        Ty::Adt { substs, .. } => {
            assert(ty@->Adt_substs == tys_model(substs@));
        },
        Ty::Other { parts, .. } => {
            assert(ty@->Other_parts == tys_model(parts@));
        },
        _ => {},
    }
    if let Ty::Adt { kind, .. } = ty {
        assert(ty@->Adt_kind == kind.model());
        match kind {
            AdtKind::Struct { intrinsic, fields } => {
                assert(field_views_of(fields@, fields_model(fields@)));
                assert(kind.model() == AdtKindView::Struct {
                    intrinsic,
                    fields: fields_model(fields@),
                });
            },
            AdtKind::Enum { variants } => {
                let views = variants_model(variants@);
                assert(kind.model() == AdtKindView::Enum { variants: views });
                assert forall|i: int| 0 <= i < variants@.len() implies (#[trigger] views[i]).did
                    == variants@[i].did && field_views_of(
                    variants@[i].fields@,
                    views[i].fields,
                ) by {
                    assert(views[i] == variants@[i].model());
                }
            },
            AdtKind::Union => {
                assert(kind.model() == AdtKindView::Union);
            },
        }
    }
}

/// The values of types, each in its place.
pub open spec fn views_of(tys: Seq<Ty>, views: Seq<TyView>) -> bool {
    &&& views.len() == tys.len()
    &&& forall|i: int| 0 <= i < tys.len() ==> #[trigger] views[i] == tys[i]@
}

/// The names and the values of the types of fields, each in its place.
pub open spec fn field_views_of(fields: Seq<FieldDef>, views: Seq<FieldView>) -> bool {
    &&& views.len() == fields.len()
    &&& forall|i: int|
        0 <= i < fields.len() ==> (#[trigger] views[i]).name == fields[i].name@ && views[i].ty
            == fields[i].ty@
}

impl Clone for Ty {
    fn clone(&self) -> (copy: Self)
        ensures
            copy@ == self@,
        decreases self,
    {
        match self {
            Ty::Never => Ty::Never,
            Ty::Bool => Ty::Bool,
            Ty::Int(int_ty) => Ty::Int(*int_ty),
            Ty::Uint(uint_ty) => Ty::Uint(*uint_ty),
            Ty::Float(float_ty) => Ty::Float(*float_ty),
            Ty::Tuple(items, defaulted) => Ty::Tuple(clone_tys(items), *defaulted),
            Ty::FnPtr { tag, inputs, output } => Ty::FnPtr {
                tag: *tag,
                inputs: clone_tys(inputs),
                output: Box::new((&**output).clone()),
            },
            Ty::RawPtr { ty, mutbl } => Ty::RawPtr {
                ty: Box::new((&**ty).clone()),
                mutbl: *mutbl,
            },
            Ty::Ref { ty, mutbl } => Ty::Ref { ty: Box::new((&**ty).clone()), mutbl: *mutbl },
            Ty::Param(index) => Ty::Param(*index),
            Ty::Adt { did, substs, kind } => Ty::Adt {
                did: *did,
                substs: clone_tys(substs),
                kind: kind.clone(),
            },
            Ty::Other { tag, parts } => Ty::Other { tag: *tag, parts: clone_tys(parts) },
        }
    }
}

impl Clone for AdtKind {
    fn clone(&self) -> (copy: Self)
        ensures
            copy.model() == self.model(),
        decreases self,
    {
        match self {
            AdtKind::Struct { intrinsic, fields } => AdtKind::Struct {
                intrinsic: *intrinsic,
                fields: clone_fields(fields),
            },
            AdtKind::Enum { variants } => AdtKind::Enum { variants: clone_variants(variants) },
            AdtKind::Union => AdtKind::Union,
        }
    }
}

fn clone_tys(tys: &Vec<Ty>) -> (copy: Vec<Ty>)
    ensures
        tys_model(copy@) == tys_model(tys@),
    decreases tys,
{
    let mut copy: Vec<Ty> = Vec::new();
    let mut i: usize = 0;
    while i < tys.len()
        invariant
            i <= tys.len(),
            copy.len() == i,
            forall|j: int| 0 <= j < i ==> (#[trigger] copy@[j])@ == tys@[j]@,
        decreases tys.len() - i,
    {
        copy.push(tys[i].clone());
        i = i + 1;
    }
    assert(tys_model(copy@) =~= tys_model(tys@));
    copy
}

fn clone_fields(fields: &Vec<FieldDef>) -> (copy: Vec<FieldDef>)
    ensures
        fields_model(copy@) == fields_model(fields@),
    decreases fields,
{
    let mut copy: Vec<FieldDef> = Vec::new();
    let mut i: usize = 0;
    while i < fields.len()
        invariant
            i <= fields.len(),
            copy.len() == i,
            forall|j: int| 0 <= j < i ==> (#[trigger] copy@[j])@ == fields@[j]@,
        decreases fields.len() - i,
    {
        copy.push(FieldDef { name: fields[i].name.clone(), ty: fields[i].ty.clone() });
        i = i + 1;
    }
    assert(fields_model(copy@) =~= fields_model(fields@));
    copy
}

fn clone_variants(variants: &Vec<VariantDef>) -> (copy: Vec<VariantDef>)
    ensures
        variants_model(copy@) == variants_model(variants@),
    decreases variants,
{
    let mut copy: Vec<VariantDef> = Vec::new();
    let mut i: usize = 0;
    while i < variants.len()
        invariant
            i <= variants.len(),
            copy.len() == i,
            forall|j: int|
                0 <= j < i ==> (#[trigger] copy@[j]).model() == variants@[j].model(),
        decreases variants.len() - i,
    {
        copy.push(
            VariantDef { did: variants[i].did, fields: clone_fields(&variants[i].fields) },
        );
        i = i + 1;
    }
    assert(variants_model(copy@) =~= variants_model(variants@));
    copy
}

impl Ty {
    /// Whether two types are the same type.
    pub fn same(&self, other: &Ty) -> (result: bool)
        ensures
            result == (self@ == other@),
        decreases self,
    {
        match (self, other) {
            (Ty::Never, Ty::Never) => true,
            (Ty::Bool, Ty::Bool) => true,
            (Ty::Int(a), Ty::Int(b)) => *a == *b,
            (Ty::Uint(a), Ty::Uint(b)) => *a == *b,
            (Ty::Float(a), Ty::Float(b)) => *a == *b,
            (Ty::Tuple(a, a_defaulted), Ty::Tuple(b, b_defaulted)) => same_tys(a, b)
                && *a_defaulted == *b_defaulted,
            (
                Ty::FnPtr { tag: a_tag, inputs: a, output: a_output },
                Ty::FnPtr { tag: b_tag, inputs: b, output: b_output },
            ) => *a_tag == *b_tag && same_tys(a, b) && a_output.same(b_output),
            (
                Ty::RawPtr { ty: a, mutbl: a_mutbl },
                Ty::RawPtr { ty: b, mutbl: b_mutbl },
            ) => a.same(b) && *a_mutbl == *b_mutbl,
            (Ty::Ref { ty: a, mutbl: a_mutbl }, Ty::Ref { ty: b, mutbl: b_mutbl }) => a.same(b)
                && *a_mutbl == *b_mutbl,
            (Ty::Param(a), Ty::Param(b)) => *a == *b,
            (
                Ty::Adt { did: a_did, substs: a_substs, kind: a_kind },
                Ty::Adt { did: b_did, substs: b_substs, kind: b_kind },
            ) => *a_did == *b_did && same_tys(a_substs, b_substs) && a_kind.same(b_kind),
            (Ty::Other { tag: a_tag, parts: a }, Ty::Other { tag: b_tag, parts: b }) => *a_tag
                == *b_tag && same_tys(a, b),
            _ => false,
        }
    }
}

impl AdtKind {
    fn same(&self, other: &AdtKind) -> (result: bool)
        ensures
            result == (self.model() == other.model()),
        decreases self,
    {
        match (self, other) {
            (
                AdtKind::Struct { intrinsic: a_intrinsic, fields: a },
                AdtKind::Struct { intrinsic: b_intrinsic, fields: b },
            ) => same_intrinsic(*a_intrinsic, *b_intrinsic) && same_fields(a, b),
            (AdtKind::Enum { variants: a }, AdtKind::Enum { variants: b }) => same_variants(a, b),
            (AdtKind::Union, AdtKind::Union) => true,
            _ => false,
        }
    }
}

fn same_intrinsic(a: Option<IntrinsicType>, b: Option<IntrinsicType>) -> (result: bool)
    ensures
        result == (a == b),
{
    match (a, b) {
        (Some(x), Some(y)) => x == y,
        (None, None) => true,
        _ => false,
    }
}

fn same_tys(a: &Vec<Ty>, b: &Vec<Ty>) -> (result: bool)
    ensures
        result == (tys_model(a@) == tys_model(b@)),
    decreases a,
{
    if a.len() != b.len() {
        assert(tys_model(a@).len() != tys_model(b@).len());
        return false;
    }
    let mut i: usize = 0;
    while i < a.len()
        invariant
            i <= a.len(),
            a.len() == b.len(),
            forall|j: int| 0 <= j < i ==> (#[trigger] a@[j])@ == b@[j]@,
        decreases a.len() - i,
    {
        if !a[i].same(&b[i]) {
            assert(tys_model(a@)[i as int] != tys_model(b@)[i as int]);
            return false;
        }
        i = i + 1;
    }
    assert(tys_model(a@) =~= tys_model(b@));
    true
}

fn same_fields(a: &Vec<FieldDef>, b: &Vec<FieldDef>) -> (result: bool)
    ensures
        result == (fields_model(a@) == fields_model(b@)),
    decreases a,
{
    if a.len() != b.len() {
        assert(fields_model(a@).len() != fields_model(b@).len());
        return false;
    }
    let mut i: usize = 0;
    while i < a.len()
        invariant
            i <= a.len(),
            a.len() == b.len(),
            forall|j: int| 0 <= j < i ==> (#[trigger] a@[j])@ == b@[j]@,
        decreases a.len() - i,
    {
        if !(a[i].name == b[i].name && a[i].ty.same(&b[i].ty)) {
            assert(fields_model(a@)[i as int] != fields_model(b@)[i as int]);
            return false;
        }
        i = i + 1;
    }
    assert(fields_model(a@) =~= fields_model(b@));
    true
}

fn same_variants(a: &Vec<VariantDef>, b: &Vec<VariantDef>) -> (result: bool)
    ensures
        result == (variants_model(a@) == variants_model(b@)),
    decreases a,
{
    if a.len() != b.len() {
        assert(variants_model(a@).len() != variants_model(b@).len());
        return false;
    }
    let mut i: usize = 0;
    while i < a.len()
        invariant
            i <= a.len(),
            a.len() == b.len(),
            forall|j: int| 0 <= j < i ==> (#[trigger] a@[j]).model() == b@[j].model(),
        decreases a.len() - i,
    {
        if !(a[i].did == b[i].did && same_fields(&a[i].fields, &b[i].fields)) {
            assert(variants_model(a@)[i as int] != variants_model(b@)[i as int]);
            return false;
        }
        i = i + 1;
    }
    assert(variants_model(a@) =~= variants_model(b@));
    true
}

} // verus!
