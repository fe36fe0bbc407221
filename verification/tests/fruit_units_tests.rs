use fruitstar_core::fruit::{
    sys_fruit_grow, sys_init_fruit_species, FruitGenus, FruitGrowthState, FruitSpecies,
    FruitSpeciesMap, FruitSpeciesPlugin,
};
use fruitstar_core::grid::build_level_grid;
use fruitstar_core::nutrients::{sys_setup_nutrients, TileWater};
use fruitstar_core::units::{sys_setup_building_types, BuildingKey};

#[test]
fn built_in_species_is_the_carrot() {
    let map = FruitSpeciesPlugin.build();
    assert_eq!(map.species_vector.len(), 1);
    let carrot = &map.species_vector[0];
    assert_eq!(carrot.genus, FruitGenus::Carrot);
    assert_eq!(carrot.growth_time_ms, 6000);
    assert_eq!(carrot.fruit_image, "Crops/Carrot/carrot.png");
}

#[test]
fn species_registry_appends_and_indexes() {
    let mut map = FruitSpeciesMap { species_vector: Vec::new() };
    sys_init_fruit_species(&mut map);
    sys_init_fruit_species(&mut map);
    assert_eq!(map.species_vector.len(), 2);
    assert!(map.get(1).is_some());
    assert!(map.get(2).is_none());
}

#[test]
fn bud_ripens_exactly_at_its_growth_time() {
    let species = FruitSpecies {
        genus: FruitGenus::Carrot,
        growth_time_ms: 6000,
        fruit_image: "Crops/Carrot/carrot.png",
    };
    let mut growth = FruitGrowthState::Bud { millis_of_growth: 0 };
    for _ in 0..5 {
        assert!(!sys_fruit_grow(&mut growth, &species, 1000));
    }
    assert_eq!(growth, FruitGrowthState::Bud { millis_of_growth: 5000 });
    assert!(sys_fruit_grow(&mut growth, &species, 1000));
    assert_eq!(growth, FruitGrowthState::Fruited);
    // A fruited fruit stays fruited and never reports ripening again.
    assert!(!sys_fruit_grow(&mut growth, &species, 1000));
    assert_eq!(growth, FruitGrowthState::Fruited);
}

#[test]
fn building_registry_lists_both_kinds() {
    let map = sys_setup_building_types();
    assert_eq!(map.type_map.len(), 2);
    let plant = map.get(BuildingKey::DebugPlant).expect("debug plant registered");
    assert_eq!(plant.name, "Debug Roots");
    assert_eq!(plant.sprite_path, "plant_base_test.png");
    let harvester = map.get(BuildingKey::Harvester).expect("harvester registered");
    assert_eq!(harvester.name, "Harvester");
    assert_eq!(harvester.sprite_path, "harvester_test.png");
}

#[test]
fn water_is_seeded_from_passability() {
    // 2x2 image, one walkable cell at (1, 0).
    let luma = vec![0u8, 200u8, 0u8, 0u8];
    let (_grid, tiles) = build_level_grid(&luma, 2, 2);
    let water = sys_setup_nutrients(&tiles);
    assert_eq!(water.len(), 4);
    for (t, w) in tiles.iter().zip(water.iter()) {
        let expect = if t.passable { 1000 } else { 0 };
        assert_eq!(*w, TileWater(expect));
    }
    assert_eq!(water.iter().filter(|w| w.0 == 1000).count(), 1);
}
