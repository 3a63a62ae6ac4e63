//! The layouts of enumerations, as far as lowering reads them.

use vstd::prelude::*;

use crate::ty::Ty;
use crate::ty::TyView;
use crate::ty::UintTy;

verus! {

/// An enumeration whose layout has a discriminant beside the variants, and the
/// type of that discriminant. The layout is that of one type without type
/// parameters: with other type arguments, the same enumeration may have another.
#[derive(Debug)]
pub struct EnumLayout {
    pub ty: Ty,
    pub discr: UintTy,
}

/// The type of the discriminant by the type of the enumeration. Of two layouts
/// of one type the later counts.
pub open spec fn discrs_of(layouts: Seq<EnumLayout>) -> Map<TyView, UintTy>
    decreases layouts.len(),
{
    if layouts.len() == 0 {
        Map::empty()
    } else {
        discrs_of(layouts.drop_last()).insert(layouts.last().ty@, layouts.last().discr)
    }
}

/// The type of the discriminant of an enumeration, if its layout has one.
pub fn discr_of(layouts: &Vec<EnumLayout>, ty: &Ty) -> (discr: Option<UintTy>)
    ensures
        discr == if discrs_of(layouts@).contains_key(ty@) {
            Some(discrs_of(layouts@)[ty@])
        } else {
            None
        },
{
    let mut discr: Option<UintTy> = None;
    let mut i: usize = 0;
    while i < layouts.len()
        invariant
            i <= layouts.len(),
            discr == if discrs_of(layouts@.take(i as int)).contains_key(ty@) {
                Some(discrs_of(layouts@.take(i as int))[ty@])
            } else {
                None
            },
        decreases layouts.len() - i,
    {
        assert(layouts@.take(i + 1).drop_last() =~= layouts@.take(i as int));
        if layouts[i].ty.same(ty) {
            discr = Some(layouts[i].discr);
        }
        i = i + 1;
    }
    assert(layouts@.take(layouts@.len() as int) =~= layouts@);
    discr
}

} // verus!
