//! The read-only registry of crop species definitions.

use vstd::prelude::*;
use crate::item_id::CropId;

verus! {

/// The static parameters shared by all crop instances of one species: how
/// many growth stages it has and how long each stage lasts, in simulation
/// seconds.
pub struct CropDefinition {
    pub id: CropId,
    pub name: String,
    pub stages: u8,
    pub growth_time_per_stage: u32,
}

/// Registry of every crop species, keyed by [`CropId`]. Ids are unique and
/// every species has at least one growth stage.
pub struct AllCrops {
    definitions: Vec<CropDefinition>,
}

impl AllCrops {
    /// All definitions held, in insertion order.
    pub closed spec fn defs(self) -> Seq<CropDefinition> {
        self.definitions@
    }

    /// Ids are unique and every species has at least one stage.
    pub open spec fn wf(self) -> bool {
        &&& forall|i: int, j: int|
            0 <= i < self.defs().len() && 0 <= j < self.defs().len() && i != j
                ==> self.defs()[i].id != self.defs()[j].id
        &&& forall|i: int| 0 <= i < self.defs().len() ==> (#[trigger] self.defs()[i]).stages >= 1
    }

    /// Whether a species with this id is registered.
    pub open spec fn spec_contains(self, id: CropId) -> bool {
        exists|i: int| 0 <= i < self.defs().len() && (#[trigger] self.defs()[i]).id == id
    }

    /// The definition registered under this id (meaningful only when
    /// `spec_contains(id)` holds; ids are unique, so it is then the one
    /// matching entry).
    pub open spec fn spec_get(self, id: CropId) -> CropDefinition {
        self.defs()[choose|i: int| 0 <= i < self.defs().len() && (#[trigger] self.defs()[i]).id == id]
    }

    /// An empty registry.
    pub fn new() -> (r: AllCrops)
        ensures
            r.wf(),
            r.defs().len() == 0,
            forall|id: CropId| !r.spec_contains(id),
    {
        AllCrops { definitions: Vec::new() }
    }

    /// Registers a new species. The id must not be taken yet and the species
    /// must have at least one growth stage.
    pub fn insert(&mut self, def: CropDefinition)
        requires
            old(self).wf(),
            !old(self).spec_contains(def.id),
            def.stages >= 1,
        ensures
            final(self).wf(),
            final(self).defs() == old(self).defs().push(def),
            final(self).spec_contains(def.id),
            final(self).spec_get(def.id) == def,
            forall|id: CropId| #[trigger] final(self).spec_contains(id)
                <==> old(self).spec_contains(id) || id == def.id,
            forall|id: CropId| id != def.id && old(self).spec_contains(id)
                ==> #[trigger] final(self).spec_get(id) == old(self).spec_get(id),
    {
        self.definitions.push(def);
        proof {
            let n = self.defs().len() - 1;
            assert(self.defs()[n].id == def.id);
            assert forall|id: CropId| #[trigger] self.spec_contains(id)
                implies old(self).spec_contains(id) || id == def.id by {
                let i = choose|i: int|
                    0 <= i < self.defs().len() && (#[trigger] self.defs()[i]).id == id;
                if i < n {
                    assert(old(self).defs()[i].id == id);
                }
            }
            assert forall|id: CropId| old(self).spec_contains(id)
                implies #[trigger] self.spec_contains(id) by {
                let i = choose|i: int|
                    0 <= i < old(self).defs().len() && (#[trigger] old(self).defs()[i]).id == id;
                assert(self.defs()[i].id == id);
            }
            assert forall|id: CropId| id != def.id && old(self).spec_contains(id)
                implies #[trigger] self.spec_get(id) == old(self).spec_get(id) by {
                let i = choose|i: int|
                    0 <= i < old(self).defs().len() && (#[trigger] old(self).defs()[i]).id == id;
                assert(self.defs()[i].id == id);
            }
        }
    }

    /// Looks up the species registered under `id`, if any.
    pub fn get(&self, id: CropId) -> (r: Option<&CropDefinition>)
        requires
            self.wf(),
        ensures
            r is Some <==> self.spec_contains(id),
            r matches Some(def) ==> *def == self.spec_get(id),
    {
        let n = self.definitions.len();
        for i in 0..n
            invariant
                n == self.defs().len(),
                self.wf(),
                forall|j: int| 0 <= j < i ==> (#[trigger] self.defs()[j]).id != id,
        {
            if self.definitions[i].id == id {
                return Some(&self.definitions[i]);
            }
        }
        None
    }

    /// Number of registered species.
    pub fn len(&self) -> (r: usize)
        ensures
            r == self.defs().len(),
    {
        self.definitions.len()
    }
}

/// Builds the registry the game ships with: two example species, one slow
/// and one fast, both with four growth stages.
pub fn parse_crops() -> (r: AllCrops)
    ensures
        r.wf(),
        r.spec_contains(CropId(0)),
        r.spec_contains(CropId(1)),
        r.spec_get(CropId(0)).stages == 4,
        r.spec_get(CropId(0)).growth_time_per_stage == 5,
        r.spec_get(CropId(1)).stages == 4,
        r.spec_get(CropId(1)).growth_time_per_stage == 1,
{
    let mut all = AllCrops::new();
    all.insert(CropDefinition {
        id: CropId(0),
        name: "Blue Debug Plant".to_owned(),
        stages: 4,
        growth_time_per_stage: 5,
    });
    all.insert(CropDefinition {
        id: CropId(1),
        name: "Red Debug Plant".to_owned(),
        stages: 4,
        growth_time_per_stage: 1,
    });
    all
}

} // verus!
