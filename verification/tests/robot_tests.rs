use robot_swarm::grid::{CellType, Grid};
use robot_swarm::robot::{Direction, Robot, RobotState, RobotType, INITIAL_ROBOT_ENERGY};

#[test]
fn test_new_robot_defaults() {
    let r = Robot::new(3, 4);
    assert_eq!(r.x, 3);
    assert_eq!(r.y, 4);
    assert_eq!(r.energy, INITIAL_ROBOT_ENERGY);
    assert_eq!(r.minerals, 0);
    assert_eq!(r.science_points, 0);
    assert_eq!(r.robot_type, RobotType::Explorer);
    assert_eq!(r.state, RobotState::Exploring);
    assert_eq!(r.steps_since_last_find, 0);
    assert!(r.pending_exploration_updates.is_empty());
    assert!(r.is_active());
}

#[test]
fn test_move_in_direction_costs_one_energy() {
    let grid = Grid::new(5, 5, 0);
    let others = Vec::new();
    let mut r = Robot::new_with_type(2, 2, RobotType::Explorer);
    assert!(r.move_in_direction(Direction::East, &grid, &others));
    assert_eq!((r.x, r.y), (3, 2));
    assert_eq!(r.energy, INITIAL_ROBOT_ENERGY - 1);
}

#[test]
fn test_move_blocked_by_rim_obstacle_and_robot() {
    let mut grid = Grid::new(3, 3, 0);
    grid.set_cell_type(1, 0, CellType::Obstacle);
    let mut r = Robot::new_with_type(0, 0, RobotType::Explorer);

    // The rim.
    let others = Vec::new();
    assert!(!r.move_in_direction(Direction::North, &grid, &others));
    assert!(!r.move_in_direction(Direction::West, &grid, &others));
    // An obstacle.
    assert!(!r.move_in_direction(Direction::East, &grid, &others));
    // Another active robot.
    let others = vec![Robot::new_with_type(0, 1, RobotType::Scientist)];
    assert!(!r.move_in_direction(Direction::South, &grid, &others));
    // A robot without energy does not block.
    let mut dead = Robot::new_with_type(0, 1, RobotType::Scientist);
    dead.energy = 0;
    let others = vec![dead];
    assert!(r.move_in_direction(Direction::South, &grid, &others));

    assert_eq!((r.x, r.y), (0, 1));
    assert_eq!(r.energy, INITIAL_ROBOT_ENERGY - 1);
}

// An explorer walked to the energy cell extracts exactly its amount and
// leaves the cell empty.
#[test]
fn test_explorer_extracts_energy_cell() {
    let mut grid = Grid::new(10, 10, 0);
    grid.set_cell_type(5, 5, CellType::Energy(50));
    let others = Vec::new();

    let mut r = Robot::new_with_type(0, 0, RobotType::Explorer);
    assert_eq!(r.energy, 100);
    for _ in 0..5 {
        assert!(r.move_in_direction(Direction::East, &grid, &others));
    }
    for _ in 0..5 {
        assert!(r.move_in_direction(Direction::South, &grid, &others));
    }
    assert_eq!((r.x, r.y), (5, 5));

    let before = r.energy;
    assert!(r.collect_resource(&mut grid));
    assert_eq!(r.energy, before + 50);
    assert_eq!(grid.get_cell(5, 5).unwrap().cell_type, CellType::Empty);
    // A second attempt finds nothing.
    assert!(!r.collect_resource(&mut grid));
}

#[test]
fn test_collect_resource_credits_by_kind() {
    let mut grid = Grid::new(3, 3, 0);
    grid.set_cell_type(0, 0, CellType::Mineral(9));
    grid.set_cell_type(1, 0, CellType::SciencePoint);

    let mut r = Robot::new_with_type(0, 0, RobotType::MineralCollector);
    assert!(r.collect_resource(&mut grid));
    assert_eq!(r.minerals, 9);
    assert_eq!(r.energy, INITIAL_ROBOT_ENERGY);

    r.x = 1;
    assert!(r.collect_resource(&mut grid));
    assert_eq!(r.science_points, 1);
}

#[test]
fn test_explore_records_pending_update() {
    let mut grid = Grid::new(3, 3, 0);
    grid.set_cell_type(1, 1, CellType::Mineral(4));
    let mut r = Robot::new_with_type(1, 1, RobotType::Explorer);
    assert!(r.explore(&mut grid));
    assert!(grid.get_cell(1, 1).unwrap().explored);
    assert_eq!(
        r.pending_exploration_updates,
        vec![((1, 1), CellType::Mineral(4))]
    );
    let taken = r.get_exploration_updates();
    assert_eq!(taken, vec![((1, 1), CellType::Mineral(4))]);
    assert!(r.pending_exploration_updates.is_empty());
}

// Payload conservation: the returned triple plus what the robot keeps equals
// exactly what it carried.
#[test]
fn test_unload_payload_conserves_resources() {
    let mut r = Robot::new_with_type(0, 0, RobotType::EnergyCollector);
    r.energy = 173;
    r.minerals = 41;
    r.science_points = 5;

    let (e, m, s) = r.unload_payload();
    assert_eq!(e + r.energy, 173);
    assert_eq!(m + r.minerals, 41);
    assert_eq!(s + r.science_points, 5);
    assert_eq!(r.energy, INITIAL_ROBOT_ENERGY);
    assert_eq!(r.minerals, 0);
    assert_eq!(r.science_points, 0);

    // A robot below the baseline keeps everything.
    let mut poor = Robot::new_with_type(0, 0, RobotType::Explorer);
    poor.energy = 30;
    let (e, m, s) = poor.unload_payload();
    assert_eq!((e, m, s), (0, 0, 0));
    assert_eq!(poor.energy, 30);
}

#[test]
fn test_low_energy_triggers_return_to_station() {
    let mut grid = Grid::new(10, 10, 0);
    let others = Vec::new();
    let mut r = Robot::new_with_type(4, 4, RobotType::Explorer);
    r.energy = 25;
    r.autonomous_update(&mut grid, 9, 9, &others);
    assert_eq!(r.state, RobotState::ReturningToStation);
    assert_eq!(r.target_x, Some(9));
    assert_eq!(r.target_y, Some(9));
    assert_eq!(r.energy, 25);
}

#[test]
fn test_mineral_collector_returns_when_loaded() {
    let mut grid = Grid::new(10, 10, 0);
    let others = Vec::new();
    let mut r = Robot::new_with_type(4, 4, RobotType::MineralCollector);
    r.minerals = 36;
    r.autonomous_update(&mut grid, 0, 0, &others);
    assert_eq!(r.state, RobotState::ReturningToStation);
}

#[test]
fn test_robot_without_energy_does_nothing() {
    let mut grid = Grid::new(6, 6, 0);
    let others = Vec::new();
    let mut r = Robot::new_with_type(2, 2, RobotType::Explorer);
    r.energy = 0;
    r.autonomous_update(&mut grid, 0, 0, &others);
    assert_eq!((r.x, r.y), (2, 2));
    assert_eq!(r.state, RobotState::Exploring);
    assert_eq!(r.energy, 0);
    assert!(!r.is_active());
}

#[test]
fn test_at_station_resets_to_exploring() {
    let mut grid = Grid::new(6, 6, 0);
    let others = Vec::new();
    let mut r = Robot::new_with_type(3, 3, RobotType::Explorer);
    r.state = RobotState::AtStation;
    r.autonomous_update(&mut grid, 3, 3, &others);
    assert_eq!(r.state, RobotState::Exploring);
}

#[test]
fn test_returning_robot_docks_at_station() {
    let mut grid = Grid::new(6, 6, 0);
    let others = Vec::new();
    let mut r = Robot::new_with_type(2, 2, RobotType::Explorer);
    r.state = RobotState::ReturningToStation;
    r.autonomous_update(&mut grid, 2, 2, &others);
    assert_eq!(r.state, RobotState::AtStation);
}

#[test]
fn test_returning_robot_closes_in_on_station() {
    let mut grid = Grid::new(10, 10, 0);
    let others = Vec::new();
    let mut r = Robot::new_with_type(0, 0, RobotType::Explorer);
    r.state = RobotState::ReturningToStation;
    let mut steps = 0;
    while r.state == RobotState::ReturningToStation && steps < 50 {
        r.autonomous_update(&mut grid, 7, 4, &others);
        steps += 1;
    }
    assert_eq!(r.state, RobotState::AtStation);
    assert_eq!((r.x, r.y), (7, 4));
    // Shortest route plus the docking tick.
    assert_eq!(steps, 12);
    assert_eq!(r.energy, INITIAL_ROBOT_ENERGY - 11);
}

// A stuck robot triggers the long-range scan; the counter resets to 0 only
// on a successful relocation.
#[test]
fn test_stuck_robot_relocates_and_resets_counter() {
    let mut grid = Grid::new(30, 30, 0);
    // An enclosed pocket at (15, 15).
    for (x, y) in [(14, 15), (16, 15), (15, 14), (15, 16)] {
        grid.set_cell_type(x, y, CellType::Obstacle);
    }
    let others = Vec::new();
    let mut r = Robot::new_with_type(15, 15, RobotType::Explorer);

    for tick in 1..=5 {
        r.autonomous_update(&mut grid, 0, 0, &others);
        assert_eq!((r.x, r.y), (15, 15));
        assert_eq!(r.steps_since_last_find, tick);
    }
    // The sixth barren tick pushes the counter past 5 and the scan fires.
    r.autonomous_update(&mut grid, 0, 0, &others);
    assert_ne!((r.x, r.y), (15, 15));
    assert_eq!(r.steps_since_last_find, 0);
    assert_eq!(r.energy, INITIAL_ROBOT_ENERGY - 3);
    assert_ne!(
        grid.get_cell(r.x, r.y).unwrap().cell_type,
        CellType::Obstacle
    );
}

#[test]
fn test_stuck_robot_with_no_way_out_keeps_counting() {
    let mut grid = Grid::new(5, 5, 0);
    for y in 0..5 {
        for x in 0..5 {
            if !(x == 2 && y == 2) {
                grid.set_cell_type(x, y, CellType::Obstacle);
            }
        }
    }
    let others = Vec::new();
    let mut r = Robot::new_with_type(2, 2, RobotType::Explorer);
    for tick in 1..=8 {
        r.autonomous_update(&mut grid, 0, 0, &others);
        assert_eq!((r.x, r.y), (2, 2));
        assert_eq!(r.steps_since_last_find, tick);
    }
    // The scan ran (counter exceeded 5) but found no legal sample, so the
    // counter was never reset and no energy was spent on a jump.
    assert_eq!(r.energy, INITIAL_ROBOT_ENERGY);
}

#[test]
fn test_display_stats_line() {
    let mut r = Robot::new_with_type(2, 7, RobotType::Explorer);
    r.minerals = 3;
    assert_eq!(
        r.display_stats(),
        "Robot at (2, 7) | Energy: 100 | Minerals: 3 | Science Points: 0 | Updates: 0"
    );
}

#[test]
fn test_exploring_tick_reports_the_harvested_cell() {
    // One exploring tick harvests the cell underfoot, marks it explored and
    // records exactly one report of the emptied cell.
    let mut grid = Grid::new(10, 10, 0);
    grid.set_cell_type(4, 4, CellType::Mineral(6));
    let others = Vec::new();
    let mut r = Robot::new_with_type(4, 4, RobotType::MineralCollector);
    r.autonomous_update(&mut grid, 9, 9, &others);
    assert_eq!(r.minerals, 6);
    let cell = grid.get_cell(4, 4).unwrap();
    assert_eq!(cell.cell_type, CellType::Empty);
    assert!(cell.explored);
    assert_eq!(
        r.pending_exploration_updates,
        vec![((4, 4), CellType::Empty)]
    );
}
