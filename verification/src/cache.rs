//! What was emitted before, looked up by what it was emitted for.

use vstd::prelude::*;

use crate::constant::SpirvConstVal;
use crate::ty::Ty;
use crate::ty::TyView;

verus! {

/// A SPIR-V type, by its id.
#[derive(Clone, Copy, Debug, PartialEq, Eq, Structural)]
pub struct SpirvTy {
    pub word: u32,
}

/// A SPIR-V value, by its id.
#[derive(Clone, Copy, Debug, PartialEq, Eq, Structural)]
pub struct SpirvValue(pub u32);

/// The map that a list of pairs stands for: the last pair with a key counts.
pub open spec fn pairs_to_map<K, V>(pairs: Seq<(K, V)>) -> Map<K, V>
    decreases pairs.len(),
{
    if pairs.len() == 0 {
        Map::empty()
    } else {
        pairs_to_map(pairs.drop_last()).insert(pairs.last().0, pairs.last().1)
    }
}

/// No key occurs twice.
pub open spec fn distinct_keys<K, V>(pairs: Seq<(K, V)>) -> bool {
    forall|i: int, j: int|
        0 <= i < j < pairs.len() ==> (#[trigger] pairs[i]).0 != (#[trigger] pairs[j]).0
}

proof fn lemma_pair_in_map<K, V>(pairs: Seq<(K, V)>, i: int)
    requires
        distinct_keys(pairs),
        0 <= i < pairs.len(),
    ensures
        pairs_to_map(pairs).contains_key(pairs[i].0),
        pairs_to_map(pairs)[pairs[i].0] == pairs[i].1,
    decreases pairs.len(),
{
    if i < pairs.len() - 1 {
        assert(pairs.drop_last()[i] == pairs[i]);
        assert(pairs[i].0 != pairs[pairs.len() - 1].0);
        lemma_pair_in_map(pairs.drop_last(), i);
    }
}

proof fn lemma_no_pair_not_in_map<K, V>(pairs: Seq<(K, V)>, key: K)
    requires
        forall|i: int| 0 <= i < pairs.len() ==> (#[trigger] pairs[i]).0 != key,
    ensures
        !pairs_to_map(pairs).contains_key(key),
    decreases pairs.len(),
{
    if pairs.len() > 0 {
        assert(pairs[pairs.len() - 1].0 != key);
        assert forall|i: int| 0 <= i < pairs.drop_last().len() implies (
        #[trigger] pairs.drop_last()[i]).0 != key by {
            assert(pairs.drop_last()[i] == pairs[i]);
        }
        lemma_no_pair_not_in_map(pairs.drop_last(), key);
    }
}

proof fn lemma_update_in_map<K, V>(pairs: Seq<(K, V)>, i: int, value: V)
    requires
        distinct_keys(pairs),
        0 <= i < pairs.len(),
    ensures
        distinct_keys(pairs.update(i, (pairs[i].0, value))),
        pairs_to_map(pairs.update(i, (pairs[i].0, value))) == pairs_to_map(pairs).insert(
            pairs[i].0,
            value,
        ),
    decreases pairs.len(),
{
    let updated = pairs.update(i, (pairs[i].0, value));
    assert(forall|k: int| 0 <= k < pairs.len() ==> (#[trigger] updated[k]).0 == pairs[k].0);
    let rest = pairs.drop_last();
    if i == pairs.len() - 1 {
        assert(updated.drop_last() =~= rest);
    } else {
        assert(updated.drop_last() =~= rest.update(i, (rest[i].0, value)));
        lemma_update_in_map(rest, i, value);
        assert(pairs[i].0 != pairs[pairs.len() - 1].0);
    }
    assert(pairs_to_map(updated) =~= pairs_to_map(pairs).insert(pairs[i].0, value));
}

proof fn lemma_push_in_map<K, V>(pairs: Seq<(K, V)>, key: K, value: V)
    requires
        distinct_keys(pairs),
        forall|i: int| 0 <= i < pairs.len() ==> (#[trigger] pairs[i]).0 != key,
    ensures
        distinct_keys(pairs.push((key, value))),
        pairs_to_map(pairs.push((key, value))) == pairs_to_map(pairs).insert(key, value),
{
    let pushed = pairs.push((key, value));
    assert(pushed.drop_last() =~= pairs);
    assert forall|i: int, j: int| 0 <= i < j < pushed.len() implies (#[trigger] pushed[i]).0 != (
    #[trigger] pushed[j]).0 by {
        assert(pairs[i].0 != key);
        if j < pairs.len() {
            assert(pairs[i].0 != pairs[j].0);
        }
    }
}

/// The types lowered so far, each once.
#[derive(Debug)]
pub struct TyCache {
    entries: Vec<(Ty, SpirvTy)>,
}

impl TyCache {
    /// The entries with the types and ids as values.
    pub closed spec fn pairs(&self) -> Seq<(TyView, u32)> {
        Seq::new(self.entries@.len(), |i: int| (self.entries@[i].0@, self.entries@[i].1.word))
    }

    /// No type occurs twice.
    pub closed spec fn wf(&self) -> bool {
        distinct_keys(self.pairs())
    }

    /// A cache without entries.
    pub fn new() -> (cache: TyCache)
        ensures
            cache.wf(),
            cache@ == Map::<TyView, u32>::empty(),
    {
        TyCache { entries: Vec::new() }
    }

    /// The id that stands for a type, if the type was lowered.
    pub fn get(&self, ty: &Ty) -> (result: Option<SpirvTy>)
        requires
            self.wf(),
        ensures
            match result {
                Some(found) => self@.contains_key(ty@) && self@[ty@] == found.word,
                None => !self@.contains_key(ty@),
            },
    {
        let mut i: usize = 0;
        while i < self.entries.len()
            invariant
                i <= self.entries.len(),
                self.wf(),
                forall|j: int| 0 <= j < i ==> (#[trigger] self.pairs()[j]).0 != ty@,
            decreases self.entries.len() - i,
        {
            if self.entries[i].0.same(ty) {
                proof {
                    assert(self.pairs()[i as int].0 == ty@);
                    lemma_pair_in_map(self.pairs(), i as int);
                }
                return Some(self.entries[i].1);
            }
            i = i + 1;
        }
        proof {
            lemma_no_pair_not_in_map(self.pairs(), ty@);
        }
        None
    }

    /// Remembers the id that stands for a type.
    pub(crate) fn insert(&mut self, ty: Ty, spirv_ty: SpirvTy)
        requires
            old(self).wf(),
        ensures
            final(self).wf(),
            final(self)@ == old(self)@.insert(ty@, spirv_ty.word),
    {
        let ghost before = self.pairs();
        let ghost key = ty@;
        let mut i: usize = 0;
        while i < self.entries.len()
            invariant
                i <= self.entries.len(),
                self == old(self),
                self.wf(),
                before == self.pairs(),
                key == ty@,
                forall|j: int| 0 <= j < i ==> (#[trigger] before[j]).0 != key,
            decreases self.entries.len() - i,
        {
            if self.entries[i].0.same(&ty) {
                proof {
                    assert(before[i as int].0 == key);
                    lemma_update_in_map(before, i as int, spirv_ty.word);
                }
                self.entries.set(i, (ty, spirv_ty));
                assert(self.pairs() =~= before.update(i as int, (key, spirv_ty.word)));
                return;
            }
            i = i + 1;
        }
        proof {
            lemma_push_in_map(before, key, spirv_ty.word);
        }
        self.entries.push((ty, spirv_ty));
        assert(self.pairs() =~= before.push((key, spirv_ty.word)));
    }
}

impl View for TyCache {
    type V = Map<TyView, u32>;

    closed spec fn view(&self) -> Map<TyView, u32> {
        pairs_to_map(self.pairs())
    }
}

/// The constants emitted so far, each once.
#[derive(Debug)]
pub struct ConstCache {
    entries: Vec<(SpirvConstVal, SpirvValue)>,
}

impl ConstCache {
    /// The entries with the ids as values.
    pub closed spec fn pairs(&self) -> Seq<(SpirvConstVal, u32)> {
        Seq::new(self.entries@.len(), |i: int| (self.entries@[i].0, self.entries@[i].1.0))
    }

    /// No constant occurs twice.
    pub closed spec fn wf(&self) -> bool {
        distinct_keys(self.pairs())
    }

    /// A cache without entries.
    pub fn new() -> (cache: ConstCache)
        ensures
            cache.wf(),
            cache@ == Map::<SpirvConstVal, u32>::empty(),
    {
        ConstCache { entries: Vec::new() }
    }

    /// The id that stands for a constant, if the constant was emitted.
    pub fn get(&self, val: SpirvConstVal) -> (result: Option<SpirvValue>)
        requires
            self.wf(),
        ensures
            match result {
                Some(found) => self@.contains_key(val) && self@[val] == found.0,
                None => !self@.contains_key(val),
            },
    {
        let mut i: usize = 0;
        while i < self.entries.len()
            invariant
                i <= self.entries.len(),
                self.wf(),
                forall|j: int| 0 <= j < i ==> (#[trigger] self.pairs()[j]).0 != val,
            decreases self.entries.len() - i,
        {
            if self.entries[i].0 == val {
                proof {
                    assert(self.pairs()[i as int].0 == val);
                    lemma_pair_in_map(self.pairs(), i as int);
                }
                return Some(self.entries[i].1);
            }
            i = i + 1;
        }
        proof {
            lemma_no_pair_not_in_map(self.pairs(), val);
        }
        None
    }

    /// Remembers the id that stands for a constant.
    pub(crate) fn insert(&mut self, val: SpirvConstVal, spirv_val: SpirvValue)
        requires
            old(self).wf(),
        ensures
            final(self).wf(),
            final(self)@ == old(self)@.insert(val, spirv_val.0),
    {
        let ghost before = self.pairs();
        let ghost key = val;
        let mut i: usize = 0;
        while i < self.entries.len()
            invariant
                i <= self.entries.len(),
                self == old(self),
                self.wf(),
                before == self.pairs(),
                key == val,
                forall|j: int| 0 <= j < i ==> (#[trigger] before[j]).0 != key,
            decreases self.entries.len() - i,
        {
            if self.entries[i].0 == val {
                proof {
                    assert(before[i as int].0 == key);
                    lemma_update_in_map(before, i as int, spirv_val.0);
                }
                self.entries.set(i, (val, spirv_val));
                assert(self.pairs() =~= before.update(i as int, (key, spirv_val.0)));
                return;
            }
            i = i + 1;
        }
        proof {
            lemma_push_in_map(before, key, spirv_val.0);
        }
        self.entries.push((val, spirv_val));
        assert(self.pairs() =~= before.push((key, spirv_val.0)));
    }
}

impl View for ConstCache {
    type V = Map<SpirvConstVal, u32>;

    closed spec fn view(&self) -> Map<SpirvConstVal, u32> {
        pairs_to_map(self.pairs())
    }
}

} // verus!
