//! The closed set of building kinds the player can place.
//!
//! Each kind is a variant with a stable key; the registry maps the key to
//! the kind's display name and sprite asset. The outer layer does the actual
//! spawning and asset loading.

use vstd::prelude::*;

verus! {

/// Stable key of a building kind.
#[derive(Clone, Copy, Debug, PartialEq, Eq, Structural, Hash)]
pub enum BuildingKey {
    DebugPlant,
    Harvester,
}

/// What one building kind offers: its key, its display name, and the sprite
/// it is drawn with.
#[derive(Clone, Copy, Debug, PartialEq, Eq)]
pub struct BuildingType {
    pub key: BuildingKey,
    pub name: &'static str,
    pub sprite_path: &'static str,
}

/// The building kind that plants debug roots.
pub open spec fn debug_plant_type() -> BuildingType {
    BuildingType { key: BuildingKey::DebugPlant, name: "Debug Roots", sprite_path: "plant_base_test.png" }
}

/// The building kind that harvests nearby fruit.
pub open spec fn harvester_type() -> BuildingType {
    BuildingType { key: BuildingKey::Harvester, name: "Harvester", sprite_path: "harvester_test.png" }
}

/// Registry of every placeable building kind.
pub struct BuildingTypeMap {
    pub type_map: Vec<BuildingType>,
}

impl BuildingTypeMap {
    /// The registry's record for a key, if the key is registered: the first
    /// entry carrying it.
    pub fn get(&self, key: BuildingKey) -> (r: Option<&BuildingType>)
        ensures
            r is Some <==> exists|i: int|
                0 <= i < self.type_map@.len() && (#[trigger] self.type_map@[i]).key == key,
            r matches Some(t) ==> exists|i: int|
                {
                    &&& 0 <= i < self.type_map@.len()
                    &&& *t == self.type_map@[i]
                    &&& (#[trigger] self.type_map@[i]).key == key
                    &&& forall|j: int| 0 <= j < i ==> (#[trigger] self.type_map@[j]).key != key
                },
    {
        let mut i: usize = 0;
        while i < self.type_map.len()
            invariant
                i <= self.type_map@.len(),
                forall|j: int| 0 <= j < i ==> (#[trigger] self.type_map@[j]).key != key,
            decreases self.type_map@.len() - i,
        {
            if self.type_map[i].key == key {
                return Some(&self.type_map[i]);
            }
            i = i + 1;
        }
        None
    }
}

/// Builds the registry of every building kind, debug roots first, the
/// harvester second.
pub fn sys_setup_building_types() -> (m: BuildingTypeMap)
    ensures
        m.type_map@ =~= seq![debug_plant_type(), harvester_type()],
{
    let mut type_map: Vec<BuildingType> = Vec::new();
    type_map.push(
        BuildingType {
            key: BuildingKey::DebugPlant,
            name: "Debug Roots",
            sprite_path: "plant_base_test.png",
        },
    );
    type_map.push(
        BuildingType {
            key: BuildingKey::Harvester,
            name: "Harvester",
            sprite_path: "harvester_test.png",
        },
    );
    BuildingTypeMap { type_map }
}

} // verus!
