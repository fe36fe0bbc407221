//! Fruit species and fruit growth.
//!
//! Growth time is counted in milliseconds. Sprite assets are named by their
//! path; the outer layer loads them.

use vstd::prelude::*;

verus! {

/// Botanical genus of a fruiting plant.
#[derive(Clone, Copy, Debug, PartialEq, Eq, Structural, Hash)]
pub enum FruitGenus {
    Carrot,
}

/// One species' data: its genus, how long a bud takes to ripen, and the
/// sprite shown once it has fruited.
#[derive(Clone, Copy, Debug, PartialEq, Eq)]
pub struct FruitSpecies {
    pub genus: FruitGenus,
    pub growth_time_ms: u32,
    pub fruit_image: &'static str,
}

/// Registry of fruit species; a fruit names its species by index into the
/// vector.
pub struct FruitSpeciesMap {
    pub species_vector: Vec<FruitSpecies>,
}

impl FruitSpeciesMap {
    /// The species a fruit of the given kind belongs to, if the kind is
    /// known.
    pub fn get(&self, fruit_type: usize) -> (r: Option<&FruitSpecies>)
        ensures
            fruit_type < self.species_vector@.len() ==> r == Some(
                &self.species_vector@[fruit_type as int],
            ),
            fruit_type >= self.species_vector@.len() ==> r is None,
    {
        if fruit_type < self.species_vector.len() {
            Some(&self.species_vector[fruit_type])
        } else {
            None
        }
    }
}

/// Installs the built-in fruit species.
pub struct FruitSpeciesPlugin;

/// The carrot species: six seconds from bud to fruit.
pub open spec fn carrot_species() -> FruitSpecies {
    FruitSpecies { genus: FruitGenus::Carrot, growth_time_ms: 6000, fruit_image: "Crops/Carrot/carrot.png" }
}

impl FruitSpeciesPlugin {
    /// A fresh registry holding the built-in species.
    pub fn build(&self) -> (m: FruitSpeciesMap)
        ensures
            m.species_vector@ =~= seq![carrot_species()],
    {
        let mut m = FruitSpeciesMap { species_vector: Vec::new() };
        sys_init_fruit_species(&mut m);
        m
    }
}

/// Appends the built-in carrot species to the registry.
pub fn sys_init_fruit_species(fruit_map: &mut FruitSpeciesMap)
    ensures
        final(fruit_map).species_vector@ == old(fruit_map).species_vector@.push(carrot_species()),
{
    fruit_map.species_vector.push(
        FruitSpecies {
            genus: FruitGenus::Carrot,
            growth_time_ms: 6000,
            fruit_image: "Crops/Carrot/carrot.png",
        },
    );
}

/// A fruit's growth: still a bud with some accumulated growth time, or
/// fully fruited.
#[derive(Clone, Copy, Debug, PartialEq, Eq, Structural)]
pub enum FruitGrowthState {
    Bud { millis_of_growth: u32 },
    Fruited,
}

/// One growth tick for one fruit: a bud accumulates elapsed time and ripens
/// the moment its growth reaches the species' growth time; a fruited fruit
/// stays as it is. Reports whether the fruit ripened on this very tick.
pub fn sys_fruit_grow(growth: &mut FruitGrowthState, species: &FruitSpecies, delta_ms: u32) -> (ripened:
    bool)
    ensures
        match *old(growth) {
            FruitGrowthState::Bud { millis_of_growth } => {
                if millis_of_growth + delta_ms >= species.growth_time_ms {
                    *final(growth) == FruitGrowthState::Fruited && ripened
                } else {
                    *final(growth) == (FruitGrowthState::Bud {
                        millis_of_growth: (millis_of_growth + delta_ms) as u32,
                    }) && !ripened
                }
            },
            FruitGrowthState::Fruited => *final(growth) == FruitGrowthState::Fruited && !ripened,
        },
{
    match *growth {
        FruitGrowthState::Bud { millis_of_growth } => {
            let grown = millis_of_growth as u64 + delta_ms as u64;
            if grown >= species.growth_time_ms as u64 {
                *growth = FruitGrowthState::Fruited;
                true
            } else {
                *growth = FruitGrowthState::Bud { millis_of_growth: grown as u32 };
                false
            }
        },
        FruitGrowthState::Fruited => false,
    }
}

} // verus!
