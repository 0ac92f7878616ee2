use robot_swarm::grid::{CellType, Grid};

#[test]
fn test_map_creation() {
    let map = Grid::new(10, 10, 123);
    assert_eq!(map.width, 10);
    assert_eq!(map.height, 10);
    assert_eq!(map.seed, 123);
}

#[test]
fn test_valid_position() {
    let map = Grid::new(5, 5, 123);
    assert!(map.is_valid_position(0, 0));
    assert!(map.is_valid_position(4, 4));
    assert!(!map.is_valid_position(5, 5));
    assert!(!map.is_valid_position(10, 10));
}

#[test]
fn test_get_cell() {
    let map = Grid::new(3, 3, 123);
    assert!(map.get_cell(0, 0).is_some());
    assert!(map.get_cell(2, 2).is_some());
    assert!(map.get_cell(3, 3).is_none());
}

#[test]
fn test_explore_cell() {
    let mut map = Grid::new(3, 3, 123);
    assert!(map.explore(1, 1));
    assert!(!map.explore(5, 5)); // Invalid position

    if let Some(cell) = map.get_cell(1, 1) {
        assert!(cell.explored);
    }
}

#[test]
fn test_collect_resource() {
    let mut map = Grid::new(3, 3, 123);
    // Manually set a cell to have energy
    assert!(map.set_cell_type(1, 1, CellType::Energy(50)));

    let result = map.collect_resource(1, 1);
    assert!(result.is_some());
    if let Some((cell_type, amount)) = result {
        assert_eq!(amount, 50);
        match cell_type {
            CellType::Energy(_) => {} // Expected
            _ => panic!("Expected Energy type"),
        }
    }

    // Cell should now be empty
    if let Some(cell) = map.get_cell(1, 1) {
        assert_eq!(cell.cell_type, CellType::Empty);
    }
}

#[test]
fn test_new_grid_is_empty_and_unexplored() {
    let map = Grid::new(4, 3, 7);
    for y in 0..3 {
        for x in 0..4 {
            let cell = map.get_cell(x, y).unwrap();
            assert_eq!(cell.cell_type, CellType::Empty);
            assert!(!cell.explored);
        }
    }
}

#[test]
fn test_collect_resource_variants() {
    let mut map = Grid::new(3, 3, 0);
    map.set_cell_type(0, 0, CellType::Mineral(7));
    map.set_cell_type(1, 0, CellType::SciencePoint);
    map.set_cell_type(2, 0, CellType::Obstacle);

    assert_eq!(map.collect_resource(0, 0), Some((CellType::Mineral(0), 7)));
    assert_eq!(map.collect_resource(1, 0), Some((CellType::SciencePoint, 1)));
    assert_eq!(map.collect_resource(2, 0), None); // obstacle yields nothing
    assert_eq!(map.collect_resource(1, 1), None); // empty cell yields nothing
    assert_eq!(map.collect_resource(9, 9), None); // off the grid

    // The obstacle is untouched, the harvested cells are empty.
    assert_eq!(map.get_cell(2, 0).unwrap().cell_type, CellType::Obstacle);
    assert_eq!(map.get_cell(0, 0).unwrap().cell_type, CellType::Empty);
}

#[test]
fn test_set_cell_type_preserves_explored_flag() {
    let mut map = Grid::new(2, 2, 0);
    assert!(map.explore(0, 0));
    assert!(map.set_cell_type(0, 0, CellType::Energy(5)));
    let cell = map.get_cell(0, 0).unwrap();
    assert_eq!(cell.cell_type, CellType::Energy(5));
    assert!(cell.explored);
    assert!(!map.set_cell_type(2, 2, CellType::Empty));
}
