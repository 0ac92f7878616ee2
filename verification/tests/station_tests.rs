use robot_swarm::grid::{CellType, Grid};
use robot_swarm::robot::{Robot, RobotState, RobotType, INITIAL_ROBOT_ENERGY};
use robot_swarm::station::{
    find_clear_spot_for_robot, find_clear_spot_near_target, Station,
};

fn lookup(station: &Station, key: (usize, usize)) -> Option<CellType> {
    station
        .known_map
        .iter()
        .find(|e| e.0 == key)
        .map(|e| e.1.clone())
}

#[test]
fn test_station_new_defaults() {
    let s = Station::new(4, 5);
    assert_eq!((s.x, s.y), (4, 5));
    assert_eq!(s.energy, 2000);
    assert_eq!(s.minerals, 500);
    assert_eq!(s.science_points, 0);
    assert!(s.known_map.is_empty());
    assert!(s.robots.is_empty());
}

#[test]
fn test_collect_and_consume_resources() {
    let mut s = Station::new(0, 0);
    s.collect_resources(10, 20, 3);
    assert_eq!(s.energy, 2010);
    assert_eq!(s.minerals, 520);
    assert_eq!(s.science_points, 3);

    assert!(s.consume_resources(2000, 500));
    assert_eq!(s.energy, 10);
    assert_eq!(s.minerals, 20);

    // Not affordable: nothing changes.
    assert!(!s.consume_resources(11, 0));
    assert_eq!(s.energy, 10);
    assert_eq!(s.minerals, 20);
}

// A station with 1 known valuable cell refuses to build; with 2 and enough
// resources it builds.
#[test]
fn test_should_create_robot_thresholds() {
    let mut s = Station::new(0, 0);
    s.energy = 120;
    s.minerals = 40;
    s.share_data(&vec![((1, 1), CellType::Energy(30))]);
    assert!(!s.should_create_robot());

    s.share_data(&vec![((2, 2), CellType::Mineral(10))]);
    // Two valuable cells now, but the ledger is still too thin.
    assert!(!s.should_create_robot());

    s.energy = 500;
    s.minerals = 200;
    assert!(s.should_create_robot());

    // A drained report makes a cell worthless.
    s.share_data(&vec![((2, 2), CellType::Energy(0))]);
    assert!(!s.should_create_robot());
}

#[test]
fn test_should_create_robot_honours_cap() {
    let mut s = Station::new(0, 0);
    s.share_data(&vec![
        ((1, 1), CellType::Energy(30)),
        ((2, 2), CellType::SciencePoint),
    ]);
    assert!(s.should_create_robot());
    for i in 0..12 {
        s.robots.push(Robot::new_with_type(i, 1, RobotType::Explorer));
    }
    assert!(!s.should_create_robot());
}

#[test]
fn test_create_robot_costs_and_first_is_explorer() {
    let mut s = Station::new(0, 0);
    assert!(s.create_robot(3, 3));
    assert_eq!(s.energy, 1900);
    assert_eq!(s.minerals, 450);
    assert_eq!(s.robots.len(), 1);
    let r = &s.robots[0];
    assert_eq!((r.x, r.y), (3, 3));
    assert_eq!(r.robot_type, RobotType::Explorer);
    assert_eq!(r.energy, INITIAL_ROBOT_ENERGY);
    assert_eq!(r.state, RobotState::Exploring);

    // Too poor to build: nothing happens.
    let mut poor = Station::new(0, 0);
    poor.energy = 99;
    assert!(!poor.create_robot(1, 1));
    assert!(poor.robots.is_empty());
    assert_eq!(poor.energy, 99);
}

#[test]
fn test_choose_robot_type_policy() {
    // Low station energy with a known energy source: an energy collector,
    // once an explorer exists.
    let mut s = Station::new(0, 0);
    s.energy = 299 + 100; // 399 after paying the building cost: below 300
    s.robots.push(Robot::new_with_type(1, 0, RobotType::Explorer));
    s.share_data(&vec![((4, 4), CellType::Energy(10))]);
    assert!(s.create_robot(2, 0));
    assert_eq!(s.robots[1].robot_type, RobotType::EnergyCollector);

    // More minerals known than energy: a mineral collector.
    let mut s = Station::new(0, 0);
    s.robots.push(Robot::new_with_type(1, 0, RobotType::Explorer));
    s.share_data(&vec![
        ((4, 4), CellType::Mineral(10)),
        ((5, 5), CellType::Mineral(10)),
    ]);
    assert!(s.create_robot(2, 0));
    assert_eq!(s.robots[1].robot_type, RobotType::MineralCollector);

    // A known science point: a scientist.
    let mut s = Station::new(0, 0);
    s.robots.push(Robot::new_with_type(1, 0, RobotType::Explorer));
    s.share_data(&vec![((4, 4), CellType::SciencePoint)]);
    assert!(s.create_robot(2, 0));
    assert_eq!(s.robots[1].robot_type, RobotType::Scientist);

    // Nothing known at all: the default explorer.
    let mut s = Station::new(0, 0);
    s.robots.push(Robot::new_with_type(1, 0, RobotType::Explorer));
    assert!(s.create_robot(2, 0));
    assert_eq!(s.robots[1].robot_type, RobotType::Explorer);
}

#[test]
fn test_share_data_last_write_wins() {
    let mut s = Station::new(0, 0);
    s.share_data(&vec![
        ((1, 1), CellType::Energy(30)),
        ((2, 2), CellType::Mineral(5)),
        ((1, 1), CellType::Empty),
    ]);
    assert_eq!(lookup(&s, (1, 1)), Some(CellType::Empty));
    assert_eq!(lookup(&s, (2, 2)), Some(CellType::Mineral(5)));
    assert_eq!(lookup(&s, (3, 3)), None);
    assert_eq!(s.known_map.len(), 2);

    // A later batch overwrites unconditionally.
    s.share_data(&vec![((2, 2), CellType::SciencePoint)]);
    assert_eq!(lookup(&s, (2, 2)), Some(CellType::SciencePoint));
    assert_eq!(s.known_map.len(), 2);
}

// Relocating a zero-energy robot refuels it exactly when the station's
// reserve covers the baseline.
#[test]
fn test_respawn_refuels_iff_station_can_afford_it() {
    let mut s = Station::new(6, 6);
    let mut dead = Robot::new_with_type(1, 1, RobotType::Explorer);
    dead.energy = 0;
    dead.minerals = 7;
    s.robots.push(dead);
    s.energy = INITIAL_ROBOT_ENERGY; // exactly affordable
    s.respawn_robot(0);
    assert_eq!((s.robots[0].x, s.robots[0].y), (6, 6));
    assert_eq!(s.robots[0].state, RobotState::AtStation);
    assert_eq!(s.robots[0].energy, INITIAL_ROBOT_ENERGY);
    assert_eq!(s.robots[0].minerals, 7);
    assert_eq!(s.energy, 0);

    // Not affordable: relocated but left at zero energy.
    let mut s = Station::new(6, 6);
    let mut dead = Robot::new_with_type(1, 1, RobotType::Explorer);
    dead.energy = 0;
    s.robots.push(dead);
    s.energy = INITIAL_ROBOT_ENERGY - 1;
    s.respawn_robot(0);
    assert_eq!((s.robots[0].x, s.robots[0].y), (6, 6));
    assert_eq!(s.robots[0].energy, 0);
    assert_eq!(s.energy, INITIAL_ROBOT_ENERGY - 1);

    // A robot with energy is untouched.
    let mut s = Station::new(6, 6);
    s.robots.push(Robot::new_with_type(1, 1, RobotType::Explorer));
    s.respawn_robot(0);
    assert_eq!((s.robots[0].x, s.robots[0].y), (1, 1));
}

#[test]
fn test_respawn_inert_robots_sweeps_the_swarm() {
    let mut s = Station::new(2, 2);
    let mut dead = Robot::new_with_type(0, 0, RobotType::Scientist);
    dead.energy = 0;
    s.robots.push(Robot::new_with_type(4, 4, RobotType::Explorer));
    s.robots.push(dead);
    s.respawn_inert_robots();
    assert_eq!((s.robots[0].x, s.robots[0].y), (4, 4));
    assert_eq!((s.robots[1].x, s.robots[1].y), (2, 2));
    assert_eq!(s.robots[1].energy, INITIAL_ROBOT_ENERGY);
    assert_eq!(s.robots[1].state, RobotState::AtStation);
}

#[test]
fn test_handle_arrivals_banks_payload_and_refuels() {
    let mut s = Station::new(3, 3);
    let mut back = Robot::new_with_type(3, 3, RobotType::MineralCollector);
    back.energy = 40;
    back.minerals = 25;
    back.science_points = 2;
    back.pending_exploration_updates = vec![((9, 9), CellType::Mineral(3))];
    back.state = RobotState::AtStation;
    let away = Robot::new_with_type(5, 5, RobotType::Explorer);
    s.robots.push(back);
    s.robots.push(away.clone());

    s.handle_arrivals();

    // Payload banked, reports merged, robot refuelled and sent off.
    assert_eq!(s.minerals, 525);
    assert_eq!(s.science_points, 2);
    assert_eq!(lookup(&s, (9, 9)), Some(CellType::Mineral(3)));
    assert_eq!(s.robots[0].energy, INITIAL_ROBOT_ENERGY);
    assert_eq!(s.robots[0].minerals, 0);
    assert_eq!(s.robots[0].science_points, 0);
    assert_eq!(s.robots[0].state, RobotState::Exploring);
    assert!(s.robots[0].pending_exploration_updates.is_empty());
    // Refuelling 60 energy came out of the reserve.
    assert_eq!(s.energy, 2000 - 60);
    // The robot away from the station is untouched.
    assert_eq!((s.robots[1].x, s.robots[1].y), (5, 5));
    assert_eq!(s.robots[1].energy, away.energy);
}

#[test]
fn test_update_robots_runs_every_robot_once() {
    let mut grid = Grid::new(10, 10, 0);
    let mut s = Station::new(9, 9);
    let mut low = Robot::new_with_type(4, 4, RobotType::Explorer);
    low.energy = 25;
    s.robots.push(low);
    s.robots.push(Robot::new_with_type(2, 2, RobotType::Explorer));
    s.update_robots(&mut grid);
    // The low robot turned for home; the other one acted (and explored).
    assert_eq!(s.robots[0].state, RobotState::ReturningToStation);
    assert_eq!(s.robots.len(), 2);
    assert_eq!(s.robots[1].robot_type, RobotType::Explorer);
    assert!(grid.get_cell(2, 2).unwrap().explored);
}

#[test]
fn test_try_spawn_robot() {
    let mut grid = Grid::new(8, 8, 0);
    let mut s = Station::new(4, 4);
    s.share_data(&vec![
        ((1, 1), CellType::Energy(30)),
        ((2, 2), CellType::SciencePoint),
    ]);
    assert!(s.try_spawn_robot(&grid));
    assert_eq!(s.robots.len(), 1);
    assert_ne!((s.robots[0].x, s.robots[0].y), (4, 4));

    // Without a reason to build, nothing happens.
    let mut idle = Station::new(4, 4);
    assert!(!idle.try_spawn_robot(&grid));
    assert!(idle.robots.is_empty());
}

#[test]
fn test_find_clear_spot_avoids_station_and_robots() {
    let grid = Grid::new(5, 5, 0);
    let spot = find_clear_spot_for_robot(&grid, 2, 2);
    assert_ne!(spot, (2, 2));
    assert!(spot.0 < 5 && spot.1 < 5);

    let robots = vec![
        Robot::new_with_type(3, 3, RobotType::Explorer),
        Robot::new_with_type(1, 1, RobotType::Explorer),
    ];
    let near = find_clear_spot_near_target(&grid, 3, 3, &robots);
    assert_ne!(near, (3, 3));
    assert_ne!(near, (1, 1));
    assert!(near.0 < 5 && near.1 < 5);
    assert_ne!(
        grid.get_cell(near.0, near.1).unwrap().cell_type,
        CellType::Obstacle
    );
}

#[test]
fn test_display_stats_lines() {
    let mut s = Station::new(1, 2);
    assert_eq!(
        s.display_stats(),
        "Station @ (1, 2) => Energy: 2000, Minerals: 500, Science: 0, Robots: 0"
    );
    assert_eq!(s.display_swarm_stats(), "No robots in swarm");

    let mut dead = Robot::new_with_type(0, 0, RobotType::Scientist);
    dead.energy = 0;
    dead.science_points = 4;
    s.robots.push(Robot::new_with_type(4, 4, RobotType::Explorer));
    s.robots.push(dead);
    assert_eq!(
        s.display_swarm_stats(),
        "Swarm: 2 robots | Types: E:1 En:0 M:0 S:1 | States: Exploring:1 Returning:0 AtStation:0 Dead:1 | Total Cargo: Energy:100 Minerals:0 Science:4"
    );
}

// A few full ticks of the driver pipeline: robots act, arrivals are
// serviced, casualties are respawned and the station may build.
#[test]
fn test_tick_pipeline_keeps_swarm_consistent() {
    let mut grid = Grid::new(20, 20, 0);
    grid.set_cell_type(3, 3, CellType::Energy(40));
    grid.set_cell_type(15, 15, CellType::Mineral(20));
    let mut s = Station::new(10, 10);
    s.robots.push(Robot::new_with_type(9, 10, RobotType::Explorer));
    s.robots.push(Robot::new_with_type(11, 10, RobotType::EnergyCollector));
    let mut dying = Robot::new_with_type(2, 2, RobotType::Scientist);
    dying.energy = 1;
    s.robots.push(dying);

    for _ in 0..30 {
        s.update_robots(&mut grid);
        s.handle_arrivals();
        s.respawn_inert_robots();
        s.try_spawn_robot(&grid);
    }

    // Nobody vanished, everybody is on the grid, and every robot the
    // station may have added since is accounted for.
    assert!(s.robots.len() >= 3);
    assert!(s.robots.len() <= 12);
    for r in &s.robots {
        assert!(r.x < 20 && r.y < 20);
    }
}

#[test]
fn test_find_clear_spot_fallback_when_grid_is_full() {
    // Every cell an obstacle: there is no clear spot, so the search falls
    // back to (0, 0).
    let mut grid = Grid::new(3, 3, 0);
    for y in 0..3 {
        for x in 0..3 {
            grid.set_cell_type(x, y, CellType::Obstacle);
        }
    }
    assert_eq!(find_clear_spot_for_robot(&grid, 1, 1), (0, 0));

    // One free cell far from the station is still found.
    grid.set_cell_type(2, 2, CellType::Empty);
    assert_eq!(find_clear_spot_for_robot(&grid, 1, 1), (2, 2));
}

#[test]
fn test_try_spawn_robot_needs_a_clear_spot() {
    // The policy wants a robot, but the only non-obstacle cell is the
    // station's own: nothing can be placed, nothing is paid.
    let mut grid = Grid::new(3, 3, 0);
    for y in 0..3 {
        for x in 0..3 {
            if !(x == 1 && y == 1) {
                grid.set_cell_type(x, y, CellType::Obstacle);
            }
        }
    }
    let mut s = Station::new(1, 1);
    s.share_data(&vec![
        ((0, 0), CellType::Energy(30)),
        ((2, 2), CellType::SciencePoint),
    ]);
    assert!(s.should_create_robot());
    assert!(!s.try_spawn_robot(&grid));
    assert!(s.robots.is_empty());
    assert_eq!(s.energy, 2000);
    assert_eq!(s.minerals, 500);
}

#[test]
fn test_find_clear_spot_near_target_prefers_the_target() {
    let grid = Grid::new(5, 5, 0);
    let robots = Vec::new();
    assert_eq!(find_clear_spot_near_target(&grid, 3, 3, &robots), (3, 3));
}
