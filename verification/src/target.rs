//! Normalizes raw metadata-lookup results into the target set.
//!
//! Each raw target symbol is looked up against the brokerage's asset
//! metadata by the caller; a lookup either yields a descriptor or nothing
//! (unknown symbol or a per-item error, both dropped silently). From those
//! results this module keeps the descriptors that are tradable and
//! fractionable, deduplicated by asset id with the first occurrence winning.

use vstd::prelude::*;
use crate::model::AssetDescriptor;
use crate::model::spec_eligible;

verus! {

/// The ids of a sequence of descriptors, in order.
pub open spec fn spec_ids(assets: Seq<AssetDescriptor>) -> Seq<u128> {
    assets.map_values(|a: AssetDescriptor| a.id)
}

/// The set of ids occurring in a sequence of descriptors.
pub open spec fn spec_id_set(assets: Seq<AssetDescriptor>) -> Set<u128> {
    Set::new(|id: u128| spec_ids(assets).contains(id))
}

/// What normalization keeps: walking the lookup results front to back,
/// a descriptor is kept when the lookup succeeded, the asset is eligible,
/// and its id has not been seen yet.
pub open spec fn spec_normalize(
    lookups: Seq<Option<AssetDescriptor>>,
    seen: Set<u128>,
) -> Seq<AssetDescriptor>
    decreases lookups.len(),
{
    if lookups.len() == 0 {
        Seq::empty()
    } else {
        match lookups[0] {
            Option::Some(a) => {
                if spec_eligible(a) && !seen.contains(a.id) {
                    seq![a] + spec_normalize(lookups.drop_first(), seen.insert(a.id))
                } else {
                    spec_normalize(lookups.drop_first(), seen)
                }
            },
            Option::None => spec_normalize(lookups.drop_first(), seen),
        }
    }
}

/// The validated target set: every member is tradable and fractionable, and
/// no asset id occurs twice.
pub struct TargetSet {
    pub assets: Vec<AssetDescriptor>,
}

impl TargetSet {
    /// The invariant every constructed target set satisfies.
    pub open spec fn wf(self) -> bool {
        &&& forall|i: int| 0 <= i < self.assets@.len() ==> spec_eligible(#[trigger] self.assets@[i])
        &&& forall|i: int, j: int|
            0 <= i < j < self.assets@.len() ==> self.assets@[i].id != self.assets@[j].id
    }

    /// How many targets there are.
    pub fn len(&self) -> (n: usize)
        ensures
            n == self.assets@.len(),
    {
        self.assets.len()
    }

    /// Whether some target carries the given asset id.
    pub fn contains_id(&self, id: u128) -> (r: bool)
        ensures
            r == spec_ids(self.assets@).contains(id),
    {
        let mut k: usize = 0;
        while k < self.assets.len()
            invariant
                0 <= k <= self.assets@.len(),
                forall|i: int| 0 <= i < k ==> #[trigger] self.assets@[i].id != id,
            decreases self.assets@.len() - k,
        {
            if self.assets[k].id == id {
                assert(spec_ids(self.assets@)[k as int] == id);
                return true;
            }
            k += 1;
        }
        assert forall|i: int| 0 <= i < spec_ids(self.assets@).len() implies #[trigger] spec_ids(
            self.assets@,
        )[i] != id by {
            assert(spec_ids(self.assets@)[i] == self.assets@[i].id);
        }
        false
    }

    /// Builds the target set from raw lookup results: failed lookups are
    /// dropped, ineligible assets are dropped, and a repeated asset id keeps
    /// only its first descriptor.
    pub fn from_lookups(lookups: Vec<Option<AssetDescriptor>>) -> (r: TargetSet)
        ensures
            r.assets@ == spec_normalize(lookups@, Set::<u128>::empty()),
            r.wf(),
    {
        let mut rest = lookups;
        let mut kept: Vec<AssetDescriptor> = Vec::new();
        proof {
            assert(spec_id_set(kept@) =~= Set::<u128>::empty());
            assert(kept@ + spec_normalize(lookups@, Set::<u128>::empty()) =~= spec_normalize(
                lookups@,
                Set::<u128>::empty(),
            ));
        }
        while rest.len() > 0
            invariant
                spec_normalize(lookups@, Set::<u128>::empty()) == kept@ + spec_normalize(
                    rest@,
                    spec_id_set(kept@),
                ),
                forall|i: int| 0 <= i < kept@.len() ==> spec_eligible(#[trigger] kept@[i]),
                forall|i: int, j: int|
                    0 <= i < j < kept@.len() ==> kept@[i].id != kept@[j].id,
            decreases rest@.len(),
        {
            let ghost prev_rest = rest@;
            let ghost prev_kept = kept@;
            let item = rest.remove(0);
            assert(rest@ =~= prev_rest.drop_first());
            match item {
                Option::Some(a) => {
                    let is_new = !ids_contain(&kept, a.id);
                    if a.eligible() && is_new {
                        let ghost a_spec = a;
                        proof {
                            assert forall|i: int| 0 <= i < prev_kept.len() implies #[trigger]
                                prev_kept[i].id != a_spec.id by {
                                if prev_kept[i].id == a_spec.id {
                                    assert(spec_ids(prev_kept)[i] == a_spec.id);
                                }
                            }
                        }
                        kept.push(a);
                        proof {
                            assert(spec_id_set(kept@) =~= spec_id_set(prev_kept).insert(
                                a_spec.id,
                            )) by {
                                lemma_id_set_push(prev_kept, a_spec);
                            }
                            assert(kept@ + spec_normalize(rest@, spec_id_set(kept@))
                                =~= prev_kept + spec_normalize(prev_rest, spec_id_set(prev_kept)));
                        }
                    } else {
                        assert(kept@ + spec_normalize(rest@, spec_id_set(kept@)) =~= prev_kept
                            + spec_normalize(prev_rest, spec_id_set(prev_kept)));
                    }
                },
                Option::None => {
                    assert(kept@ + spec_normalize(rest@, spec_id_set(kept@)) =~= prev_kept
                        + spec_normalize(prev_rest, spec_id_set(prev_kept)));
                },
            }
        }
        assert(spec_normalize(rest@, spec_id_set(kept@)) =~= Seq::<AssetDescriptor>::empty());
        assert(kept@ =~= kept@ + Seq::<AssetDescriptor>::empty());
        TargetSet { assets: kept }
    }
}

/// Pushing one descriptor extends the id set by exactly that id.
proof fn lemma_id_set_push(assets: Seq<AssetDescriptor>, a: AssetDescriptor)
    ensures
        spec_id_set(assets.push(a)) =~= spec_id_set(assets).insert(a.id),
{
    let before = spec_ids(assets);
    let after = spec_ids(assets.push(a));
    assert(after =~= before.push(a.id)) by {
        assert forall|i: int| 0 <= i < after.len() implies after[i] == before.push(a.id)[i] by {
            if i < assets.len() {
                assert(after[i] == assets.push(a)[i].id);
            }
        }
    }
    assert forall|id: u128| #[trigger]
        spec_id_set(assets.push(a)).contains(id) implies spec_id_set(assets).insert(
        a.id,
    ).contains(id) by {
        let i = choose|i: int| 0 <= i < after.len() && after[i] == id;
        if i < assets.len() {
            assert(before[i] == id);
        }
    }
    assert forall|id: u128| spec_id_set(assets).insert(a.id).contains(id) implies #[trigger]
        spec_id_set(assets.push(a)).contains(id) by {
        if id == a.id {
            assert(after[assets.len() as int] == a.id);
        } else {
            let i = choose|i: int| 0 <= i < before.len() && before[i] == id;
            assert(after[i] == id);
        }
    }
}

/// Whether any descriptor in the vector carries the given id.
fn ids_contain(assets: &Vec<AssetDescriptor>, id: u128) -> (r: bool)
    ensures
        r == spec_id_set(assets@).contains(id),
{
    let mut k: usize = 0;
    while k < assets.len()
        invariant
            0 <= k <= assets@.len(),
            forall|i: int| 0 <= i < k ==> #[trigger] assets@[i].id != id,
        decreases assets@.len() - k,
    {
        if assets[k].id == id {
            assert(spec_ids(assets@)[k as int] == id);
            return true;
        }
        k += 1;
    }
    assert forall|i: int| 0 <= i < spec_ids(assets@).len() implies #[trigger] spec_ids(
        assets@,
    )[i] != id by {
        assert(spec_ids(assets@)[i] == assets@[i].id);
    }
    false
}

} // verus!
