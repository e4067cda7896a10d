use life_sim::kill_zone::{distance_to_killzone, is_point_in_killzone, KillZone};
use life_sim::rendering::additive_blend;
use life_sim::scenario::food::generate_food;
use life_sim::scenario::radiation_zone::{displacement_along, RadiationZone};
use life_sim::scenario::scenario::Scenario;
use life_sim::services::scenarios::{FoodFile, RadiationFile, ScenarioFile};

fn zone(start_time: usize, end_time: usize, position: (u32, u32), width: u32, height: u32) -> RadiationZone {
    RadiationZone { start_time, end_time, position, width, height }
}

fn kill_zone(start_time: usize, end_time: usize, position: (u32, u32), width: u32, height: u32) -> KillZone {
    KillZone { start_time, end_time, position, width, height }
}

fn zones() -> Vec<RadiationZone> {
    vec![
        zone(0, 10, (0, 0), 2, 2),
        zone(5, 30, (4, 4), 3, 1),
        zone(8, 20, (1, 5), 1, 1),
        zone(25, 28, (0, 0), 6, 6),
    ]
}

fn fertile_6_by_6() -> Vec<bool> {
    (0..36).map(|cell| cell % 7 == 0 || cell == 17).collect()
}

fn file(food: bool, radiation: bool) -> ScenarioFile {
    ScenarioFile {
        supplement_population: true,
        limit_population: false,
        food: if food {
            Some(FoodFile { starting_food: 5, cull_for_starvation: true })
        } else {
            None
        },
        radiation: if radiation {
            Some(RadiationFile { death_threshold: Some(4), zones: zones() })
        } else {
            None
        },
    }
}

#[test]
fn a_scenario_starts_with_every_zone_to_come() {
    let scenario = Scenario::from_file(file(true, true), 6, 6, &fertile_6_by_6());
    assert_eq!(scenario.generation_step_count, 30);
    assert!(scenario.supplement_population);
    assert!(!scenario.limit_population);
    assert_eq!((scenario.grid_width, scenario.grid_height), (6, 6));
    let radiation = scenario.radiation.as_ref().unwrap();
    assert_eq!(radiation.death_threshold, Some(4));
    assert_eq!(radiation.starting_rad_zones.len(), 4);
    assert_eq!(radiation.starting_rad_zones[1].position, (4, 4));
    assert_eq!(radiation.remaining_rad_zones, vec![0, 1, 2, 3]);
    assert_eq!(radiation.active_rad_zones, Vec::<usize>::new());
    let food = scenario.food.as_ref().unwrap();
    assert_eq!(food.starting_food, 5);
    assert!(food.cull_for_starvation);
    assert_eq!(food.food_map, fertile_6_by_6());
    assert_eq!(food.food_positions, vec![(0, 0), (1, 1), (2, 2), (5, 2), (3, 3), (4, 4), (5, 5)]);
}

#[test]
fn a_scenario_without_radiation_or_food_has_neither() {
    let scenario = Scenario::from_file(file(false, false), 6, 6, &Vec::new());
    assert_eq!(scenario.generation_step_count, 0);
    assert!(scenario.radiation.is_none());
    assert!(scenario.food.is_none());
    let only_food = Scenario::from_file(file(true, false), 2, 1, &vec![false, true]);
    assert_eq!(only_food.generation_step_count, 0);
    assert_eq!(only_food.food.as_ref().unwrap().food_positions, vec![(1, 0)]);
}

#[test]
fn food_lies_on_the_fertile_cells_in_row_major_order() {
    let (map, positions) = generate_food(3, 2, 0, &vec![false, true, true, true, false, true]);
    assert_eq!(map, vec![false, true, true, true, false, true]);
    assert_eq!(positions, vec![(1, 0), (2, 0), (0, 1), (2, 1)]);
    let (map, positions) = generate_food(0, 5, 9, &Vec::new());
    assert!(map.is_empty() && positions.is_empty());
    let (_, positions) = generate_food(1, 3, 9, &vec![true, true, true]);
    assert_eq!(positions, vec![(0, 0), (0, 1), (0, 2)]);
}

#[test]
fn zones_come_into_force_and_end() {
    let mut scenario = Scenario::from_file(file(false, true), 6, 6, &Vec::new());
    let lists = |scenario: &Scenario| {
        let radiation = scenario.radiation.as_ref().unwrap();
        (radiation.remaining_rad_zones.clone(), radiation.active_rad_zones.clone())
    };
    scenario.update(0);
    assert_eq!(lists(&scenario), (vec![0, 1, 2, 3], vec![0]));
    scenario.update(5);
    assert_eq!(lists(&scenario), (vec![0, 1, 2, 3], vec![0, 1]));
    scenario.update(9);
    assert_eq!(lists(&scenario), (vec![0, 1, 2, 3], vec![0, 1, 2]));
    scenario.update(10);
    assert_eq!(lists(&scenario), (vec![1, 2, 3], vec![1, 2]));
    scenario.update(20);
    assert_eq!(lists(&scenario), (vec![1, 3], vec![1]));
    scenario.update(26);
    assert_eq!(lists(&scenario), (vec![1, 3], vec![1, 3]));
    scenario.update(28);
    assert_eq!(lists(&scenario), (vec![1], vec![1]));
    scenario.update(30);
    assert_eq!(lists(&scenario), (vec![], vec![]));
    scenario.update(0);
    assert_eq!(lists(&scenario), (vec![], vec![]));
    scenario.reset(&Vec::new());
    assert_eq!(lists(&scenario), (vec![0, 1, 2, 3], vec![]));
    assert_eq!(scenario.generation_step_count, 30);
    let mut plain = Scenario::from_file(file(false, false), 6, 6, &Vec::new());
    plain.update(3);
    plain.reset(&Vec::new());
    assert!(plain.radiation.is_none() && plain.food.is_none());
}

#[test]
fn a_reset_lays_the_food_out_anew() {
    let mut scenario = Scenario::from_file(file(true, true), 6, 6, &fertile_6_by_6());
    scenario.consume_food_at_point((1, 1));
    scenario.update(9);
    let barren: Vec<bool> = (0..36).map(|cell| cell == 35).collect();
    scenario.reset(&barren);
    let food = scenario.food.as_ref().unwrap();
    assert_eq!(food.food_map, barren);
    assert_eq!(food.food_positions, vec![(5, 5)]);
    assert_eq!(food.starting_food, 5);
    assert!(food.cull_for_starvation);
    assert_eq!(scenario.radiation.as_ref().unwrap().remaining_rad_zones, vec![0, 1, 2, 3]);
    assert_eq!(scenario.radiation.as_ref().unwrap().death_threshold, Some(4));
}

#[test]
fn a_cell_is_irradiated_by_a_zone_in_force_that_covers_it() {
    let mut scenario = Scenario::from_file(file(false, true), 6, 6, &Vec::new());
    assert!(!scenario.is_point_in_rad_zone((0, 0), 0));
    scenario.update(0);
    assert!(scenario.is_point_in_rad_zone((0, 0), 0));
    assert!(scenario.is_point_in_rad_zone((1, 1), 0));
    assert!(!scenario.is_point_in_rad_zone((2, 1), 0));
    assert!(!scenario.is_point_in_rad_zone((1, 2), 0));
    assert!(!scenario.is_point_in_rad_zone((0, 0), 11));
    scenario.update(9);
    assert!(scenario.is_point_in_rad_zone((4, 4), 9));
    assert!(scenario.is_point_in_rad_zone((6, 4), 9));
    assert!(!scenario.is_point_in_rad_zone((7, 4), 9));
    assert!(!scenario.is_point_in_rad_zone((4, 5), 9));
    assert!(scenario.is_point_in_rad_zone((1, 5), 9));
    assert!(!scenario.is_point_in_rad_zone((1, 5), 7));
    assert!(!scenario.is_point_in_rad_zone((3, 3), 9));
    let huge = ScenarioFile {
        supplement_population: false,
        limit_population: false,
        food: None,
        radiation: Some(RadiationFile {
            death_threshold: None,
            zones: vec![zone(0, 1, (u32::MAX, u32::MAX), u32::MAX, u32::MAX)],
        }),
    };
    let mut scenario = Scenario::from_file(huge, 1, 1, &Vec::new());
    scenario.update(0);
    assert!(scenario.is_point_in_rad_zone((u32::MAX, u32::MAX), 0));
    assert!(!scenario.is_point_in_rad_zone((u32::MAX - 1, u32::MAX), 0));
}

#[test]
fn displacements_along_an_axis() {
    assert_eq!(displacement_along(4, 3, 1), 3);
    assert_eq!(displacement_along(4, 3, 4), 0);
    assert_eq!(displacement_along(4, 3, 6), 0);
    assert_eq!(displacement_along(4, 3, 7), 0);
    assert_eq!(displacement_along(4, 3, 9), -2);
    assert_eq!(displacement_along(u32::MAX, u32::MAX, 0), u32::MAX as i64);
    assert_eq!(displacement_along(0, 0, u32::MAX), -(u32::MAX as i64));
    assert_eq!(zone(0, 0, (4, 4), 3, 1).displacement_from((1, 9)), (3, -4));
    assert!(zone(2, 3, (4, 4), 3, 1).is_covering((6, 4), 3));
    assert!(!zone(2, 3, (4, 4), 3, 1).is_covering((6, 4), 4));
}

#[test]
fn the_nearest_zone_in_force_is_found() {
    let mut scenario = Scenario::from_file(file(false, true), 6, 6, &Vec::new());
    assert_eq!(scenario.shortest_rad_zone_displacement((3, 3)), None);
    scenario.update(9);
    assert_eq!(scenario.shortest_rad_zone_displacement((3, 3)), Some((-1, -1)));
    assert_eq!(scenario.shortest_rad_zone_displacement((0, 0)), Some((0, 0)));
    assert_eq!(scenario.shortest_rad_zone_displacement((3, 5)), Some((1, 0)));
    assert_eq!(scenario.shortest_rad_zone_displacement((1, 3)), Some((0, -1)));
    assert_eq!(scenario.shortest_rad_zone_displacement((0, 4)), Some((1, 1)));
    assert_eq!(scenario.shortest_rad_zone_displacement((9, 4)), Some((-2, 0)));
    scenario.update(15);
    assert_eq!(scenario.shortest_rad_zone_displacement((0, 0)), Some((1, 5)));
    assert_eq!(scenario.shortest_rad_zone_displacement((2, 4)), Some((0, 1)));
    // both zones are equally far: the first in the list wins
    assert_eq!(scenario.shortest_rad_zone_displacement((3, 5)), Some((1, 0)));
}

#[test]
fn the_nearest_food_is_found() {
    let mut scenario = Scenario::from_file(file(true, false), 6, 6, &fertile_6_by_6());
    assert_eq!(scenario.shortest_food_displacement((0, 0)), Some((0, 0)));
    assert_eq!(scenario.shortest_food_displacement((5, 3)), Some((0, -1)));
    // two cells are equally far: the first in the list wins
    assert_eq!(scenario.shortest_food_displacement((0, 5)), Some((2, -3)));
    assert_eq!(scenario.shortest_food_displacement((1, 0)), Some((-1, 0)));
    assert_eq!(scenario.shortest_food_displacement((4, 2)), Some((1, 0)));
    scenario.reset(&vec![false; 36]);
    assert_eq!(scenario.shortest_food_displacement((4, 2)), None);
}

#[test]
fn food_is_eaten_off_a_cell() {
    let mut scenario = Scenario::from_file(file(true, true), 6, 6, &fertile_6_by_6());
    assert!(scenario.is_food_at_point((5, 2)));
    assert!(scenario.is_food_at_point((0, 0)));
    assert!(!scenario.is_food_at_point((2, 5)));
    assert!(!scenario.is_food_at_point((1, 0)));
    scenario.consume_food_at_point((5, 2));
    assert!(!scenario.is_food_at_point((5, 2)));
    assert!(scenario.is_food_at_point((4, 4)));
    let food = scenario.food.as_ref().unwrap();
    assert_eq!(food.food_positions, vec![(0, 0), (1, 1), (2, 2), (3, 3), (4, 4), (5, 5)]);
    assert_eq!(food.food_map.iter().filter(|cell| **cell).count(), 6);
    assert!(!food.food_map[17]);
    scenario.consume_food_at_point((2, 5));
    assert_eq!(scenario.food.as_ref().unwrap().food_positions.len(), 6);
    assert_eq!(scenario.generation_step_count, 30);
    assert_eq!(scenario.radiation.as_ref().unwrap().remaining_rad_zones, vec![0, 1, 2, 3]);
}

#[test]
fn gaps_to_kill_zones_are_taken_axis_by_axis() {
    let first = kill_zone(0, 5, (4, 4), 3, 2);
    let second = kill_zone(0, 5, (10, 0), 1, 1);
    assert_eq!(distance_to_killzone(&vec![&first], (0, 0)), (4, 4));
    assert_eq!(distance_to_killzone(&vec![&first], (4, 5)), (0, 0));
    assert_eq!(distance_to_killzone(&vec![&first], (6, 6)), (0, 1));
    assert_eq!(distance_to_killzone(&vec![&first], (7, 9)), (1, 4));
    assert_eq!(distance_to_killzone(&vec![&first, &second], (9, 0)), (1, 0));
    assert_eq!(distance_to_killzone(&vec![&first, &second], (12, 3)), (2, 1));
    assert_eq!(distance_to_killzone(&vec![&second, &first], (0, 7)), (4, 2));
    assert_eq!(distance_to_killzone(&Vec::new(), (3, 3)), (u32::MAX, u32::MAX));
    let far = kill_zone(0, 0, (u32::MAX - 1, 0), 1, 1);
    assert_eq!(distance_to_killzone(&vec![&far], (0, u32::MAX)), (u32::MAX - 1, u32::MAX));
}

#[test]
fn a_cell_is_killed_by_a_zone_that_covers_it_at_the_time() {
    let kill_zones = vec![kill_zone(2, 5, (4, 4), 3, 2), kill_zone(0, 1, (0, 0), 1, 1)];
    assert!(is_point_in_killzone(&kill_zones, (4, 4), 2));
    assert!(is_point_in_killzone(&kill_zones, (6, 5), 5));
    assert!(!is_point_in_killzone(&kill_zones, (6, 5), 6));
    assert!(!is_point_in_killzone(&kill_zones, (6, 5), 1));
    assert!(!is_point_in_killzone(&kill_zones, (7, 5), 3));
    assert!(!is_point_in_killzone(&kill_zones, (6, 6), 3));
    assert!(!is_point_in_killzone(&kill_zones, (3, 4), 3));
    assert!(is_point_in_killzone(&kill_zones, (0, 0), 0));
    assert!(!is_point_in_killzone(&kill_zones, (0, 0), 2));
    assert!(!is_point_in_killzone(&Vec::new(), (0, 0), 0));
    let wide = vec![kill_zone(0, 0, (u32::MAX, 0), u32::MAX, 1)];
    assert!(is_point_in_killzone(&wide, (u32::MAX, 0), 0));
}

#[test]
fn colours_add_up_to_the_brightest() {
    assert_eq!(additive_blend([1, 2, 3, 4], [10, 20, 30, 40]), [11, 22, 33, 255]);
    assert_eq!(additive_blend([200, 100, 255, 0], [56, 155, 1, 0]), [255, 255, 255, 255]);
    assert_eq!(additive_blend([200, 100, 0, 9], [55, 154, 0, 9]), [255, 254, 0, 255]);
    assert_eq!(additive_blend([0, 0, 0, 0], [0, 0, 0, 0]), [0, 0, 0, 255]);
    assert_eq!(additive_blend([255, 255, 255, 255], [255, 255, 255, 255]), [255, 255, 255, 255]);
}
