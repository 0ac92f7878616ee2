use std::collections::VecDeque;

use robot_swarm::grid::{CellType, Grid};
use robot_swarm::planner::{find_path, PathNode};

/// A brute-force breadth-first search returning the number of cells on a
/// shortest path (start and goal included), for cross-checking the planner.
fn bfs_path_cells(
    grid: &Grid,
    start: (usize, usize),
    goal: (usize, usize),
    blocked: &[(usize, usize)],
) -> Option<usize> {
    let w = grid.width;
    let h = grid.height;
    let mut dist = vec![usize::MAX; w * h];
    let mut queue = VecDeque::new();
    dist[start.1 * w + start.0] = 1;
    queue.push_back(start);
    while let Some((x, y)) = queue.pop_front() {
        if (x, y) == goal {
            return Some(dist[y * w + x]);
        }
        let mut neighbors = Vec::new();
        if x > 0 {
            neighbors.push((x - 1, y));
        }
        if x + 1 < w {
            neighbors.push((x + 1, y));
        }
        if y > 0 {
            neighbors.push((x, y - 1));
        }
        if y + 1 < h {
            neighbors.push((x, y + 1));
        }
        for (nx, ny) in neighbors {
            let passable = grid.get_cell(nx, ny).unwrap().cell_type != CellType::Obstacle
                && !blocked.contains(&(nx, ny));
            if passable && dist[ny * w + nx] == usize::MAX {
                dist[ny * w + nx] = dist[y * w + x] + 1;
                queue.push_back((nx, ny));
            }
        }
    }
    None
}

#[test]
fn test_path_node_new() {
    let n = PathNode::new(3, 4, 10, 7);
    assert_eq!(n.x, 3);
    assert_eq!(n.y, 4);
    assert_eq!(n.g_cost, 10);
    assert_eq!(n.h_cost, 7);
    assert_eq!(n.f_cost, 17);
}

#[test]
fn test_astar_on_open_grid_matches_manhattan() {
    let grid = Grid::new(10, 10, 0);
    let blocked = Vec::new();
    let path = find_path(&grid, 0, 0, 7, 3, &blocked).expect("path must exist");
    assert_eq!(path[0], (0, 0));
    assert_eq!(path[path.len() - 1], (7, 3));
    // Obstacle-free grid: exactly the Manhattan distance in steps.
    assert_eq!(path.len(), 7 + 3 + 1);
    for w in path.windows(2) {
        let dx = (w[0].0 as i64 - w[1].0 as i64).abs();
        let dy = (w[0].1 as i64 - w[1].1 as i64).abs();
        assert_eq!(dx + dy, 1);
    }
}

#[test]
fn test_astar_matches_bfs_around_obstacles() {
    let mut grid = Grid::new(12, 12, 0);
    // A wall across the grid with one gap.
    for y in 0..12 {
        if y != 9 {
            grid.set_cell_type(6, y, CellType::Obstacle);
        }
    }
    let blocked = Vec::new();
    let path = find_path(&grid, 1, 1, 10, 2, &blocked).expect("path must exist");
    let bfs = bfs_path_cells(&grid, (1, 1), (10, 2), &[]).expect("bfs must find it");
    assert_eq!(path.len(), bfs);
    // The path never crosses the wall.
    for p in &path {
        assert_ne!(grid.get_cell(p.0, p.1).unwrap().cell_type, CellType::Obstacle);
    }
}

#[test]
fn test_astar_respects_blocked_positions() {
    let grid = Grid::new(5, 1, 0);
    // A robot in the middle of the only row: no way around it.
    let blocked = vec![(2, 0)];
    assert!(find_path(&grid, 0, 0, 4, 0, &blocked).is_none());
    let free = Vec::new();
    assert!(find_path(&grid, 0, 0, 4, 0, &free).is_some());
}

#[test]
fn test_astar_no_path_when_goal_enclosed() {
    let mut grid = Grid::new(8, 8, 0);
    for (x, y) in [(4, 3), (4, 5), (3, 4), (5, 4)] {
        grid.set_cell_type(x, y, CellType::Obstacle);
    }
    let blocked = Vec::new();
    assert!(find_path(&grid, 0, 0, 4, 4, &blocked).is_none());
}

#[test]
fn test_astar_start_equals_goal() {
    let grid = Grid::new(3, 3, 0);
    let blocked = Vec::new();
    let path = find_path(&grid, 2, 2, 2, 2, &blocked).unwrap();
    assert_eq!(path, vec![(2, 2)]);
}

#[test]
fn test_astar_determinism() {
    let mut grid = Grid::new(16, 16, 0);
    for y in 2..14 {
        grid.set_cell_type(8, y, CellType::Obstacle);
    }
    for x in 3..12 {
        grid.set_cell_type(x, 6, CellType::Obstacle);
    }
    let blocked = vec![(1, 1), (14, 14)];
    let a = find_path(&grid, 0, 0, 15, 15, &blocked);
    let b = find_path(&grid, 0, 0, 15, 15, &blocked);
    assert_eq!(a, b);
    let c = find_path(&grid, 0, 0, 15, 15, &blocked);
    assert_eq!(a, c);
}
