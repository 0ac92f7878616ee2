//! A* path planning over the grid.
//!
//! `find_path` searches for a shortest route between two grid positions,
//! moving in the four cardinal directions, around obstacles and around a
//! caller-supplied set of blocked positions.  Edge cost is uniformly 1 and
//! the heuristic is the Manhattan distance, which is admissible and
//! consistent for 4-directional movement.  Ties on total cost are broken
//! towards the lower heuristic, and among equal (cost, heuristic) pairs the
//! earliest-queued node wins, so the search is deterministic.
//!
//! The contract of `find_path` pins the search down: every returned path is
//! a real path — it starts at the start, ends at the goal, moves one cell at
//! a time and never enters an obstacle or a blocked position — and no valid
//! path between the two points is shorter; a `None` means no valid path (of
//! a length a cost counter can hold) exists at all.
//! `lemma_path_at_least_manhattan` bounds every valid path from below by the
//! Manhattan distance, so on unobstructed ground the returned path has
//! exactly the Manhattan length.

use vstd::prelude::*;

use crate::grid::{CellType, Grid};

verus! {

/// The distance between two integers.
pub open spec fn dist1(a: int, b: int) -> int {
    if a >= b {
        a - b
    } else {
        b - a
    }
}

/// Manhattan distance between two positions.
pub open spec fn manhattan(ax: int, ay: int, bx: int, by: int) -> int {
    dist1(ax, bx) + dist1(ay, by)
}

/// Two positions are adjacent when exactly one coordinate differs by one.
pub open spec fn adjacent(a: (usize, usize), b: (usize, usize)) -> bool {
    manhattan(a.0 as int, a.1 as int, b.0 as int, b.1 as int) == 1
}

/// A position a robot may step on: on the grid, not an obstacle, and not in
/// the blocked set.
pub open spec fn passable(grid: &Grid, blocked: Seq<(usize, usize)>, p: (usize, usize)) -> bool {
    &&& p.0 < grid.width
    &&& p.1 < grid.height
    &&& grid.cell_at(p.0 as int, p.1 as int).cell_type != CellType::Obstacle
    &&& !blocked.contains(p)
}

/// What it means for `path` to be a real route from `start` to `goal`:
/// it begins at `start`, ends at `goal`, each step is to an adjacent cell,
/// and every cell after the first is passable.
pub open spec fn valid_path(
    grid: &Grid,
    blocked: Seq<(usize, usize)>,
    start: (usize, usize),
    goal: (usize, usize),
    path: Seq<(usize, usize)>,
) -> bool {
    &&& path.len() >= 1
    &&& path[0] == start
    &&& path[path.len() - 1] == goal
    &&& start.0 < grid.width && start.1 < grid.height
    &&& forall|i: int| 0 <= i < path.len() - 1 ==> adjacent(#[trigger] path[i], path[i + 1])
    &&& forall|i: int| 1 <= i < path.len() ==> passable(grid, blocked, #[trigger] path[i])
}

/// Every path between two points takes at least their Manhattan distance in
/// steps: one move changes the distance to the goal by at most one.
pub proof fn lemma_path_at_least_manhattan(
    grid: &Grid,
    blocked: Seq<(usize, usize)>,
    start: (usize, usize),
    goal: (usize, usize),
    path: Seq<(usize, usize)>,
)
    requires
        valid_path(grid, blocked, start, goal, path),
    ensures
        path.len() >= 1 + manhattan(start.0 as int, start.1 as int, goal.0 as int, goal.1 as int),
    decreases path.len(),
{
    if path.len() > 1 {
        let tail = path.drop_first();
        assert forall|i: int| 0 <= i < tail.len() - 1 implies adjacent(
            #[trigger] tail[i],
            tail[i + 1],
        ) by {
            assert(tail[i] == path[i + 1]);
            assert(tail[i + 1] == path[i + 2]);
        }
        assert forall|i: int| 1 <= i < tail.len() implies passable(
            grid,
            blocked,
            #[trigger] tail[i],
        ) by {
            assert(tail[i] == path[i + 1]);
        }
        assert(passable(grid, blocked, path[1]));
        assert(valid_path(grid, blocked, path[1], goal, tail));
        lemma_path_at_least_manhattan(grid, blocked, path[1], goal, tail);
        assert(adjacent(path[0], path[1]));
    }
}

/// Two shortest routes between the same points have the same length, so the
/// length of what `find_path` returns is pinned by its inputs alone; the
/// search is deterministic in full, but only the length of its answer is a
/// stated consequence of the contract.
pub proof fn lemma_shortest_paths_equal_length(
    grid: &Grid,
    blocked: Seq<(usize, usize)>,
    start: (usize, usize),
    goal: (usize, usize),
    a: Seq<(usize, usize)>,
    b: Seq<(usize, usize)>,
)
    requires
        valid_path(grid, blocked, start, goal, a),
        valid_path(grid, blocked, start, goal, b),
        forall|other: Seq<(usize, usize)>|
            valid_path(grid, blocked, start, goal, other) ==> a.len() <= other.len(),
        forall|other: Seq<(usize, usize)>|
            valid_path(grid, blocked, start, goal, other) ==> b.len() <= other.len(),
    ensures
        a.len() == b.len(),
{
}

/// A node of the search: a position with its cost from the start (`g_cost`),
/// its heuristic distance to the goal (`h_cost`) and their sum (`f_cost`).
#[derive(Debug, Clone, Copy, PartialEq, Eq, Structural)]
pub struct PathNode {
    pub x: usize,
    pub y: usize,
    pub g_cost: u32,
    pub h_cost: u32,
    pub f_cost: u32,
}

impl PathNode {
    pub fn new(x: usize, y: usize, g_cost: u32, h_cost: u32) -> (n: Self)
        requires
            g_cost + h_cost <= u32::MAX,
        ensures
            n == (PathNode { x, y, g_cost, h_cost, f_cost: (g_cost + h_cost) as u32 }),
    {
        Self { x, y, g_cost, h_cost, f_cost: g_cost + h_cost }
    }
}

/// A `height`-by-`width` table stored row by row.
pub open spec fn table_shape<T>(t: Seq<Vec<T>>, width: int, height: int) -> bool {
    &&& t.len() == height
    &&& forall|y: int| 0 <= y < height ==> (#[trigger] t[y])@.len() == width
}

/// The bookkeeping of the search is consistent: wherever a cell has been
/// given a cost, either it is the start, or it has a recorded predecessor
/// that is adjacent, cheaper, and leads to it over passable ground.
/// Following predecessors therefore always walks a real path back to the
/// start.
pub open spec fn parents_ok(
    grid: &Grid,
    blocked: Seq<(usize, usize)>,
    start: (usize, usize),
    g: Seq<Vec<u32>>,
    came: Seq<Vec<Option<(usize, usize)>>>,
) -> bool {
    forall|x: usize, y: usize|
        x < grid.width && y < grid.height && (#[trigger] g[y as int]@[x as int]) < u32::MAX
            ==> parent_ok_at(grid, blocked, start, g, came, x, y)
}

pub open spec fn parent_ok_at(
    grid: &Grid,
    blocked: Seq<(usize, usize)>,
    start: (usize, usize),
    g: Seq<Vec<u32>>,
    came: Seq<Vec<Option<(usize, usize)>>>,
    x: usize,
    y: usize,
) -> bool {
    match came[y as int]@[x as int] {
        None => (x, y) == start,
        Some(q) => {
            &&& q.0 < grid.width
            &&& q.1 < grid.height
            &&& adjacent(q, (x, y))
            &&& passable(grid, blocked, (x, y))
            &&& g[q.1 as int]@[q.0 as int] < g[y as int]@[x as int]
        },
    }
}

/// Every queued node is on the grid and its cell has been given a cost.
pub open spec fn open_ok(open: Seq<PathNode>, grid: &Grid, g: Seq<Vec<u32>>) -> bool {
    forall|k: int|
        0 <= k < open.len() ==> {
            &&& (#[trigger] open[k]).x < grid.width
            &&& open[k].y < grid.height
            &&& g[open[k].y as int]@[open[k].x as int] < u32::MAX
        }
}

/// The exact total cost of a queued node: its cost from the start plus the
/// Manhattan distance from its cell to the goal.
pub open spec fn exact_f(n: PathNode, goal: (usize, usize)) -> int {
    n.g_cost + manhattan(n.x as int, n.y as int, goal.0 as int, goal.1 as int)
}

/// Every queued node's recorded heuristic is its Manhattan distance to goal.
pub open spec fn open_h_exact(open: Seq<PathNode>, goal: (usize, usize)) -> bool {
    forall|k: int|
        0 <= k < open.len() ==> (#[trigger] open[k]).h_cost == manhattan(
            open[k].x as int,
            open[k].y as int,
            goal.0 as int,
            goal.1 as int,
        )
}

/// A cell's recorded cost never exceeds the cost of any of its queued nodes.
pub open spec fn open_g_consistent(open: Seq<PathNode>, g: Seq<Vec<u32>>) -> bool {
    forall|k: int|
        0 <= k < open.len() ==> g[(#[trigger] open[k]).y as int]@[open[k].x as int]
            <= open[k].g_cost
}

/// Every scored cell that has not been expanded yet keeps a queued node that
/// carries exactly its recorded cost.
pub open spec fn open_live(
    open: Seq<PathNode>,
    closed: Seq<Vec<bool>>,
    g: Seq<Vec<u32>>,
    grid: &Grid,
) -> bool {
    forall|x: usize, y: usize|
        x < grid.width && y < grid.height && !closed[y as int]@[x as int] && (#[trigger] g[y
            as int]@[x as int]) < u32::MAX ==> exists|k: int|
            0 <= k < open.len() && (#[trigger] open[k]).x == x && open[k].y == y && open[k].g_cost
                == g[y as int]@[x as int]
}

/// Every queued node's total cost is at least the frontier bound, the
/// highest total cost at which a cell has been expanded so far.
pub open spec fn frontier_bounded(open: Seq<PathNode>, goal: (usize, usize), bound: int) -> bool {
    forall|k: int| 0 <= k < open.len() ==> exact_f(#[trigger] open[k], goal) >= bound
}

/// What holds of an expanded (closed) cell: it is scored, its total cost is
/// within the frontier bound, and every passable neighbour has been offered
/// a cost at most one higher.
pub open spec fn closed_cell_ok(
    grid: &Grid,
    blocked: Seq<(usize, usize)>,
    goal: (usize, usize),
    g: Seq<Vec<u32>>,
    bound: int,
    x: usize,
    y: usize,
) -> bool {
    &&& g[y as int]@[x as int] < u32::MAX
    &&& g[y as int]@[x as int] + manhattan(x as int, y as int, goal.0 as int, goal.1 as int)
        <= bound
    &&& forall|q: (usize, usize)|
        q.0 < grid.width && q.1 < grid.height && adjacent((x, y), q) && #[trigger] passable(
            grid,
            blocked,
            q,
        ) ==> g[q.1 as int]@[q.0 as int] <= g[y as int]@[x as int] + 1
}

pub open spec fn closed_ok(
    grid: &Grid,
    blocked: Seq<(usize, usize)>,
    goal: (usize, usize),
    closed: Seq<Vec<bool>>,
    g: Seq<Vec<u32>>,
    bound: int,
) -> bool {
    forall|x: usize, y: usize|
        x < grid.width && y < grid.height && (#[trigger] closed[y as int]@[x as int])
            ==> closed_cell_ok(grid, blocked, goal, g, bound, x, y)
}

/// Along a chain of adjacent positions, the Manhattan distance from any
/// waypoint to the last one is at most the number of steps that remain.
proof fn lemma_manhattan_along_path(path: Seq<(usize, usize)>, j: int)
    requires
        path.len() >= 1,
        0 <= j < path.len(),
        forall|i: int| 0 <= i < path.len() - 1 ==> adjacent(#[trigger] path[i], path[i + 1]),
    ensures
        manhattan(
            path[j].0 as int,
            path[j].1 as int,
            path[path.len() - 1].0 as int,
            path[path.len() - 1].1 as int,
        ) <= path.len() - 1 - j,
    decreases path.len() - j,
{
    if j < path.len() - 1 {
        lemma_manhattan_along_path(path, j + 1);
        assert(adjacent(path[j], path[j + 1]));
    }
}

/// Walk a valid path from a waypoint whose cell is scored within its index:
/// either the goal itself is scored within the path's length, or some queued
/// node's total cost is within it.  This is the frontier argument behind the
/// optimality of the search.
proof fn lemma_walk(
    grid: &Grid,
    blocked: Seq<(usize, usize)>,
    start: (usize, usize),
    goal: (usize, usize),
    g: Seq<Vec<u32>>,
    closed: Seq<Vec<bool>>,
    open: Seq<PathNode>,
    bound: int,
    path: Seq<(usize, usize)>,
    j: int,
)
    requires
        grid.wf(),
        table_shape(g, grid.width as int, grid.height as int),
        table_shape(closed, grid.width as int, grid.height as int),
        open_live(open, closed, g, grid),
        closed_ok(grid, blocked, goal, closed, g, bound),
        valid_path(grid, blocked, start, goal, path),
        path.len() <= u32::MAX,
        0 <= j < path.len(),
        path[j].0 < grid.width && path[j].1 < grid.height,
        g[path[j].1 as int]@[path[j].0 as int] <= j,
    ensures
        (g[goal.1 as int]@[goal.0 as int] < u32::MAX && g[goal.1 as int]@[goal.0 as int]
            <= path.len() - 1) || exists|k: int|
            0 <= k < open.len() && exact_f(#[trigger] open[k], goal) <= path.len() - 1,
    decreases path.len() - j,
{
    let p = path[j];
    if !closed[p.1 as int]@[p.0 as int] {
        assert(g[p.1 as int]@[p.0 as int] < u32::MAX);
        let k = choose|k: int|
            0 <= k < open.len() && (#[trigger] open[k]).x == p.0 && open[k].y == p.1
                && open[k].g_cost == g[p.1 as int]@[p.0 as int];
        lemma_manhattan_along_path(path, j);
        assert(path[path.len() - 1] == goal);
        assert(exact_f(open[k], goal) <= path.len() - 1);
    } else {
        assert(closed_cell_ok(grid, blocked, goal, g, bound, p.0, p.1));
        if j == path.len() - 1 {
            assert(p == goal);
        } else {
            let q = path[j + 1];
            assert(passable(grid, blocked, q));
            assert(adjacent(p, q));
            assert(g[q.1 as int]@[q.0 as int] <= g[p.1 as int]@[p.0 as int] + 1);
            lemma_walk(grid, blocked, start, goal, g, closed, open, bound, path, j + 1);
        }
    }
}

/// At the moment the goal's node is taken off the queue, no valid path can
/// be shorter than the goal's recorded cost: walking any such path either
/// shows the goal scored within the path's length, or reaches a queued node
/// whose total cost is within it — and the popped node was the minimum.
proof fn lemma_goal_optimal(
    grid: &Grid,
    blocked: Seq<(usize, usize)>,
    start: (usize, usize),
    goal: (usize, usize),
    g: Seq<Vec<u32>>,
    closed: Seq<Vec<bool>>,
    open_before: Seq<PathNode>,
    bound: int,
    current: PathNode,
    best: int,
)
    requires
        grid.wf(),
        table_shape(g, grid.width as int, grid.height as int),
        table_shape(closed, grid.width as int, grid.height as int),
        open_live(open_before, closed, g, grid),
        closed_ok(grid, blocked, goal, closed, g, bound),
        g[start.1 as int]@[start.0 as int] == 0,
        start.0 < grid.width,
        start.1 < grid.height,
        goal.0 < grid.width,
        goal.1 < grid.height,
        0 <= best < open_before.len(),
        current == open_before[best],
        current.x == goal.0 && current.y == goal.1,
        forall|k: int|
            0 <= k < open_before.len() ==> exact_f(open_before[best], goal) <= exact_f(
                #[trigger] open_before[k],
                goal,
            ),
        g[goal.1 as int]@[goal.0 as int] < u32::MAX,
        g[goal.1 as int]@[goal.0 as int] <= current.g_cost,
    ensures
        forall|other: Seq<(usize, usize)>|
            valid_path(grid, blocked, start, goal, other) ==> g[goal.1 as int]@[goal.0 as int]
                <= other.len() - 1,
{
    assert forall|other: Seq<(usize, usize)>|
        valid_path(grid, blocked, start, goal, other) implies g[goal.1 as int]@[goal.0 as int]
        <= other.len() - 1 by {
        if other.len() > u32::MAX as int {
            assert(g[goal.1 as int]@[goal.0 as int] < u32::MAX);
        } else {
            assert(other[0] == start);
            lemma_walk(grid, blocked, start, goal, g, closed, open_before, bound, other, 0);
            if exists|k: int|
                0 <= k < open_before.len() && exact_f(#[trigger] open_before[k], goal)
                    <= other.len() - 1 {
                let k = choose|k: int|
                    0 <= k < open_before.len() && exact_f(#[trigger] open_before[k], goal)
                        <= other.len() - 1;
                assert(exact_f(open_before[best], goal) <= exact_f(open_before[k], goal));
                assert(exact_f(current, goal) == current.g_cost + manhattan(
                    goal.0 as int,
                    goal.1 as int,
                    goal.0 as int,
                    goal.1 as int,
                ));
            }
        }
    }
}

/// After expanding `(cx, cy)`: every closed cell is scored within the new
/// frontier bound and all its passable neighbours sit within one step of its
/// cost.
proof fn lemma_expand_closed_ok(
    grid: &Grid,
    blocked: Seq<(usize, usize)>,
    goal: (usize, usize),
    closed_before: Seq<Vec<bool>>,
    closed: Seq<Vec<bool>>,
    g_mid: Seq<Vec<u32>>,
    g: Seq<Vec<u32>>,
    bound_prev: int,
    bound: int,
    cx: usize,
    cy: usize,
    gc_cur: u32,
)
    requires
        grid.wf(),
        table_shape(closed_before, grid.width as int, grid.height as int),
        table_shape(closed, grid.width as int, grid.height as int),
        table_shape(g_mid, grid.width as int, grid.height as int),
        table_shape(g, grid.width as int, grid.height as int),
        cx < grid.width,
        cy < grid.height,
        closed_ok(grid, blocked, goal, closed_before, g_mid, bound_prev),
        closed[cy as int]@[cx as int],
        forall|x: usize, y: usize|
            x < grid.width && y < grid.height && !(x == cx && y == cy)
                ==> (#[trigger] closed[y as int]@[x as int]) == closed_before[y as int]@[x as int],
        g_mid[cy as int]@[cx as int] == gc_cur,
        gc_cur < u32::MAX,
        bound == gc_cur + manhattan(cx as int, cy as int, goal.0 as int, goal.1 as int),
        bound_prev <= bound,
        forall|x: int, y: int|
            0 <= x < grid.width && 0 <= y < grid.height ==> (#[trigger] g[y]@[x]) <= g_mid[y]@[x],
        forall|x: int, y: int|
            0 <= x < grid.width && 0 <= y < grid.height && closed[y]@[x] ==> (#[trigger] g[y]@[x])
                == g_mid[y]@[x],
        forall|q: (usize, usize)|
            q.0 < grid.width && q.1 < grid.height && adjacent((cx, cy), q) && (
            #[trigger] closed_before[q.1 as int]@[q.0 as int]) ==> g_mid[q.1 as int]@[q.0 as int]
                <= gc_cur + 1,
        (cx > 0 && passable(grid, blocked, (((cx - 1) as usize), cy)) && !closed[cy as int]@[cx - 1])
            ==> g[cy as int]@[cx - 1] <= gc_cur + 1,
        (cx + 1 < grid.width && passable(grid, blocked, (((cx + 1) as usize), cy)) && !closed[cy
            as int]@[cx + 1]) ==> g[cy as int]@[cx + 1] <= gc_cur + 1,
        (cy > 0 && passable(grid, blocked, (cx, ((cy - 1) as usize))) && !closed[(cy - 1) as int]@[cx
            as int]) ==> g[(cy - 1) as int]@[cx as int] <= gc_cur + 1,
        (cy + 1 < grid.height && passable(grid, blocked, (cx, ((cy + 1) as usize))) && !closed[(cy
            + 1) as int]@[cx as int]) ==> g[(cy + 1) as int]@[cx as int] <= gc_cur + 1,
    ensures
        closed_ok(grid, blocked, goal, closed, g, bound),
{
    assert forall|x: usize, y: usize|
        x < grid.width && y < grid.height && (#[trigger] closed[y as int]@[x as int]) implies
        closed_cell_ok(grid, blocked, goal, g, bound, x, y) by {
        if x == cx && y == cy {
            assert(g[y as int]@[x as int] == gc_cur);
            assert forall|q: (usize, usize)|
                q.0 < grid.width && q.1 < grid.height && adjacent((x, y), q) && #[trigger] passable(
                grid,
                blocked,
                q,
            ) implies g[q.1 as int]@[q.0 as int] <= gc_cur + 1 by {
                if closed[q.1 as int]@[q.0 as int] {
                    assert(closed_before[q.1 as int]@[q.0 as int]);
                    assert(g_mid[q.1 as int]@[q.0 as int] <= gc_cur + 1);
                    assert(g[q.1 as int]@[q.0 as int] == g_mid[q.1 as int]@[q.0 as int]);
                } else {
                    assert(q == (((cx - 1) as usize), cy) || q == (((cx + 1) as usize), cy) || q
                        == (cx, ((cy - 1) as usize)) || q == (cx, ((cy + 1) as usize)));
                }
            }
        } else {
            assert(closed_before[y as int]@[x as int]);
            assert(closed_cell_ok(grid, blocked, goal, g_mid, bound_prev, x, y));
            assert(g[y as int]@[x as int] == g_mid[y as int]@[x as int]);
            assert forall|q: (usize, usize)|
                q.0 < grid.width && q.1 < grid.height && adjacent((x, y), q) && #[trigger] passable(
                grid,
                blocked,
                q,
            ) implies g[q.1 as int]@[q.0 as int] <= g[y as int]@[x as int] + 1 by {
                assert(g_mid[q.1 as int]@[q.0 as int] <= g_mid[y as int]@[x as int] + 1);
                assert(g[q.1 as int]@[q.0 as int] <= g_mid[q.1 as int]@[q.0 as int]);
            }
        }
    }
}

/// After expanding `(cx, cy)`: every queued node still meets the new
/// frontier bound — surviving nodes were no better than the popped minimum,
/// and fresh nodes cost one more step from the expanded cell.
proof fn lemma_expand_frontier(
    goal: (usize, usize),
    open_before: Seq<PathNode>,
    open_mid: Seq<PathNode>,
    open: Seq<PathNode>,
    best: int,
    bound: int,
    gc_cur: u32,
    cx: usize,
    cy: usize,
)
    requires
        0 <= best < open_before.len(),
        open_mid == open_before.remove(best),
        bound == gc_cur + manhattan(cx as int, cy as int, goal.0 as int, goal.1 as int),
        exact_f(open_before[best], goal) == bound,
        forall|k: int|
            0 <= k < open_before.len() ==> exact_f(open_before[best], goal) <= exact_f(
                #[trigger] open_before[k],
                goal,
            ),
        open.len() >= open_mid.len(),
        forall|k: int| 0 <= k < open_mid.len() ==> (#[trigger] open[k]) == open_mid[k],
        forall|k: int|
            open_mid.len() <= k < open.len() ==> (#[trigger] open[k]).g_cost == gc_cur + 1
                && adjacent((cx, cy), (open[k].x, open[k].y)),
    ensures
        frontier_bounded(open, goal, bound),
{
    assert forall|k: int| 0 <= k < open.len() implies exact_f(#[trigger] open[k], goal)
        >= bound by {
        if k < open_mid.len() {
            if k < best {
                assert(open_mid[k] == open_before[k]);
                assert(exact_f(open_before[best], goal) <= exact_f(open_before[k], goal));
            } else {
                assert(open_mid[k] == open_before[k + 1]);
                assert(exact_f(open_before[best], goal) <= exact_f(open_before[k + 1], goal));
            }
        } else {
            let n = open[k];
            assert(n.g_cost == gc_cur + 1);
            assert(adjacent((cx, cy), (n.x, n.y)));
        }
    }
}

/// When the queue has run dry, every scored cell is closed and every closed
/// cell's neighbours are scored.  Walking any valid path (of representable
/// length) therefore scores, and hence closes, the goal — though the search
/// never closes the goal, so no such path can exist.
proof fn lemma_exhausted_no_path(
    grid: &Grid,
    blocked: Seq<(usize, usize)>,
    start: (usize, usize),
    goal: (usize, usize),
    g: Seq<Vec<u32>>,
    closed: Seq<Vec<bool>>,
    bound: int,
    path: Seq<(usize, usize)>,
    j: int,
)
    requires
        grid.wf(),
        table_shape(g, grid.width as int, grid.height as int),
        table_shape(closed, grid.width as int, grid.height as int),
        closed_ok(grid, blocked, goal, closed, g, bound),
        forall|x: usize, y: usize|
            x < grid.width && y < grid.height && (#[trigger] g[y as int]@[x as int]) < u32::MAX
                ==> closed[y as int]@[x as int],
        valid_path(grid, blocked, start, goal, path),
        path.len() <= u32::MAX,
        0 <= j < path.len(),
        path[j].0 < grid.width && path[j].1 < grid.height,
        g[path[j].1 as int]@[path[j].0 as int] <= j,
    ensures
        closed[goal.1 as int]@[goal.0 as int],
    decreases path.len() - j,
{
    let p = path[j];
    assert(g[p.1 as int]@[p.0 as int] < u32::MAX);
    assert(closed[p.1 as int]@[p.0 as int]);
    if j == path.len() - 1 {
        assert(p == goal);
    } else {
        assert(closed_cell_ok(grid, blocked, goal, g, bound, p.0, p.1));
        let q = path[j + 1];
        assert(passable(grid, blocked, q));
        assert(adjacent(p, q));
        assert(g[q.1 as int]@[q.0 as int] <= g[p.1 as int]@[p.0 as int] + 1);
        lemma_exhausted_no_path(grid, blocked, start, goal, g, closed, bound, path, j + 1);
    }
}

/// Removing a queued node whose cell is already closed keeps a live node for
/// every unexpanded scored cell.
proof fn lemma_open_live_after_remove(
    open: Seq<PathNode>,
    idx: int,
    closed: Seq<Vec<bool>>,
    g: Seq<Vec<u32>>,
    grid: &Grid,
)
    requires
        0 <= idx < open.len(),
        open_live(open, closed, g, grid),
        closed[open[idx].y as int]@[open[idx].x as int],
    ensures
        open_live(open.remove(idx), closed, g, grid),
{
    let open2 = open.remove(idx);
    assert forall|x: usize, y: usize|
        x < grid.width && y < grid.height && !closed[y as int]@[x as int] && (#[trigger] g[y
            as int]@[x as int]) < u32::MAX implies exists|k: int|
        0 <= k < open2.len() && (#[trigger] open2[k]).x == x && open2[k].y == y && open2[k].g_cost
            == g[y as int]@[x as int] by {
        let k0 = choose|k: int|
            0 <= k < open.len() && (#[trigger] open[k]).x == x && open[k].y == y && open[k].g_cost
                == g[y as int]@[x as int];
        assert(k0 != idx);
        if k0 < idx {
            assert(open2[k0] == open[k0]);
        } else {
            assert(open2[k0 - 1] == open[k0]);
        }
    }
}

/// How many cells of the table still hold `false`.
pub open spec fn count_false_row(row: Seq<bool>) -> nat
    decreases row.len(),
{
    if row.len() == 0 {
        0nat
    } else {
        count_false_row(row.drop_last()) + (if row[row.len() - 1] {
            0nat
        } else {
            1nat
        })
    }
}

pub open spec fn count_false_table(t: Seq<Vec<bool>>) -> nat
    decreases t.len(),
{
    if t.len() == 0 {
        0nat
    } else {
        count_false_table(t.drop_last()) + count_false_row(t[t.len() - 1]@)
    }
}

proof fn lemma_count_false_row_update(row: Seq<bool>, i: int)
    requires
        0 <= i < row.len(),
        !row[i],
    ensures
        count_false_row(row.update(i, true)) + 1 == count_false_row(row),
    decreases row.len(),
{
    let r2 = row.update(i, true);
    if i == row.len() - 1 {
        assert(r2.drop_last() =~= row.drop_last());
    } else {
        lemma_count_false_row_update(row.drop_last(), i);
        assert(r2.drop_last() =~= row.drop_last().update(i, true));
        assert(r2[r2.len() - 1] == row[row.len() - 1]);
    }
}

proof fn lemma_count_false_table_update(t: Seq<Vec<bool>>, y: int, r: Vec<bool>)
    requires
        0 <= y < t.len(),
    ensures
        count_false_table(t.update(y, r)) + count_false_row(t[y]@) == count_false_table(t)
            + count_false_row(r@),
    decreases t.len(),
{
    let t2 = t.update(y, r);
    if y == t.len() - 1 {
        assert(t2.drop_last() =~= t.drop_last());
        assert(t2[t2.len() - 1] == r);
    } else {
        lemma_count_false_table_update(t.drop_last(), y, r);
        assert(t2.drop_last() =~= t.drop_last().update(y, r));
        assert(t2[t2.len() - 1] == t[t.len() - 1]);
    }
}

/// A row of `width` copies of `v`.
fn filled_row<T: Copy>(width: usize, v: T) -> (r: Vec<T>)
    ensures
        r@.len() == width,
        forall|i: int| 0 <= i < width ==> r@[i] == v,
{
    let mut r: Vec<T> = Vec::new();
    let mut i: usize = 0;
    while i < width
        invariant
            i <= width,
            r@.len() == i,
            forall|j: int| 0 <= j < i ==> r@[j] == v,
        decreases width - i,
    {
        r.push(v);
        i += 1;
    }
    r
}

/// A `height`-by-`width` table of copies of `v`.
fn filled_table<T: Copy>(width: usize, height: usize, v: T) -> (t: Vec<Vec<T>>)
    ensures
        table_shape(t@, width as int, height as int),
        forall|x: int, y: int| 0 <= x < width && 0 <= y < height ==> (#[trigger] t@[y]@[x]) == v,
{
    let mut t: Vec<Vec<T>> = Vec::new();
    let mut y: usize = 0;
    while y < height
        invariant
            y <= height,
            t@.len() == y,
            forall|j: int| 0 <= j < y ==> (#[trigger] t@[j])@.len() == width,
            forall|i: int, j: int| 0 <= i < width && 0 <= j < y ==> (#[trigger] t@[j]@[i]) == v,
        decreases height - y,
    {
        t.push(filled_row(width, v));
        y += 1;
    }
    t
}

/// Whether `(x, y)` appears in the blocked set.
fn is_blocked(blocked: &Vec<(usize, usize)>, x: usize, y: usize) -> (b: bool)
    ensures
        b == blocked@.contains((x, y)),
{
    let mut i: usize = 0;
    while i < blocked.len()
        invariant
            i <= blocked@.len(),
            forall|j: int| 0 <= j < i ==> (#[trigger] blocked@[j]) != (x, y),
        decreases blocked@.len() - i,
    {
        if blocked[i].0 == x && blocked[i].1 == y {
            assert(blocked@[i as int] == (x, y));
            return true;
        }
        i += 1;
    }
    false
}

/// Whether a robot may step on `(x, y)`.
fn passable_at(grid: &Grid, blocked: &Vec<(usize, usize)>, x: usize, y: usize) -> (b: bool)
    requires
        grid.wf(),
        x < grid.width,
        y < grid.height,
    ensures
        b == passable(grid, blocked@, (x, y)),
{
    let cell = &grid.cells[y][x];
    if matches!(cell.cell_type, CellType::Obstacle) {
        return false;
    }
    !is_blocked(blocked, x, y)
}

/// Manhattan distance, as the planner's heuristic.
fn heuristic(x1: usize, y1: usize, x2: usize, y2: usize) -> (r: u32)
    requires
        x1 < 0x8000_0000,
        y1 < 0x8000_0000,
        x2 < 0x8000_0000,
        y2 < 0x8000_0000,
    ensures
        r == manhattan(x1 as int, y1 as int, x2 as int, y2 as int),
{
    let dx = if x1 >= x2 {
        x1 - x2
    } else {
        x2 - x1
    };
    let dy = if y1 >= y2 {
        y1 - y2
    } else {
        y2 - y1
    };
    (dx + dy) as u32
}

/// Record that `(nx, ny)` can be reached from `(cx, cy)` in one more step, if
/// that improves on its best known cost, and queue it for expansion.  A cell
/// that has already been expanded is left alone: its cost is final.
fn relax(
    grid: &Grid,
    blocked: &Vec<(usize, usize)>,
    start: (usize, usize),
    goal: (usize, usize),
    g_score: &mut Vec<Vec<u32>>,
    came_from: &mut Vec<Vec<Option<(usize, usize)>>>,
    open: &mut Vec<PathNode>,
    closed: &Vec<Vec<bool>>,
    cx: usize,
    cy: usize,
    nx: usize,
    ny: usize,
)
    requires
        grid.wf(),
        grid.width < 0x8000_0000,
        grid.height < 0x8000_0000,
        goal.0 < grid.width,
        goal.1 < grid.height,
        start.0 < grid.width,
        start.1 < grid.height,
        table_shape(old(g_score)@, grid.width as int, grid.height as int),
        table_shape(old(came_from)@, grid.width as int, grid.height as int),
        table_shape(closed@, grid.width as int, grid.height as int),
        parents_ok(grid, blocked@, start, old(g_score)@, old(came_from)@),
        open_ok(old(open)@, grid, old(g_score)@),
        open_h_exact(old(open)@, goal),
        open_g_consistent(old(open)@, old(g_score)@),
        open_live(old(open)@, closed@, old(g_score)@, grid),
        old(g_score)@[start.1 as int]@[start.0 as int] == 0,
        cx < grid.width,
        cy < grid.height,
        closed@[cy as int]@[cx as int],
        old(g_score)@[cy as int]@[cx as int] < u32::MAX,
        nx < grid.width,
        ny < grid.height,
        adjacent((cx, cy), (nx, ny)),
        passable(grid, blocked@, (nx, ny)),
    ensures
        table_shape(final(g_score)@, grid.width as int, grid.height as int),
        table_shape(final(came_from)@, grid.width as int, grid.height as int),
        parents_ok(grid, blocked@, start, final(g_score)@, final(came_from)@),
        open_ok(final(open)@, grid, final(g_score)@),
        open_h_exact(final(open)@, goal),
        open_g_consistent(final(open)@, final(g_score)@),
        open_live(final(open)@, closed@, final(g_score)@, grid),
        final(g_score)@[start.1 as int]@[start.0 as int] == 0,
        forall|x: int, y: int|
            0 <= x < grid.width && 0 <= y < grid.height
                ==> (#[trigger] final(g_score)@[y]@[x]) <= old(g_score)@[y]@[x],
        forall|x: int, y: int|
            0 <= x < grid.width && 0 <= y < grid.height && closed@[y]@[x]
                ==> (#[trigger] final(g_score)@[y]@[x]) == old(g_score)@[y]@[x],
        !closed@[ny as int]@[nx as int] ==> final(g_score)@[ny as int]@[nx as int] <= old(
            g_score,
        )@[cy as int]@[cx as int] + 1,
        final(open)@.len() >= old(open)@.len(),
        forall|k: int| 0 <= k < old(open)@.len() ==> final(open)@[k] == old(open)@[k],
        forall|k: int|
            old(open)@.len() <= k < final(open)@.len() ==> {
                let n = #[trigger] final(open)@[k];
                &&& n.x == nx
                &&& n.y == ny
                &&& n.g_cost == old(g_score)@[cy as int]@[cx as int] + 1
                &&& n.h_cost == manhattan(nx as int, ny as int, goal.0 as int, goal.1 as int)
            },
{
    if closed[ny][nx] {
        return ;
    }
    let gc = g_score[cy][cx];
    let tentative = gc + 1;
    let current_g = g_score[ny][nx];
    if tentative < current_g {
        came_from[ny][nx] = Some((cx, cy));
        g_score[ny][nx] = tentative;
        let h = heuristic(nx, ny, goal.0, goal.1);
        let f = if tentative <= u32::MAX - h {
            tentative + h
        } else {
            u32::MAX
        };
        open.push(PathNode { x: nx, y: ny, g_cost: tentative, h_cost: h, f_cost: f });
        proof {
            assert forall|x: usize, y: usize|
                x < grid.width && y < grid.height && (#[trigger] g_score@[y as int]@[x as int])
                    < u32::MAX implies parent_ok_at(
                grid,
                blocked@,
                start,
                g_score@,
                came_from@,
                x,
                y,
            ) by {
                if x == nx && y == ny {
                } else {
                    assert(parent_ok_at(
                        grid,
                        blocked@,
                        start,
                        old(g_score)@,
                        old(came_from)@,
                        x,
                        y,
                    ));
                }
            }
            assert forall|x: usize, y: usize|
                x < grid.width && y < grid.height && !closed@[y as int]@[x as int] && (
                #[trigger] g_score@[y as int]@[x as int]) < u32::MAX implies exists|k: int|
                0 <= k < open@.len() && (#[trigger] open@[k]).x == x && open@[k].y == y
                    && open@[k].g_cost == g_score@[y as int]@[x as int] by {
                if x == nx && y == ny {
                    assert(open@[open@.len() - 1].x == x && open@[open@.len() - 1].y == y
                        && open@[open@.len() - 1].g_cost == g_score@[y as int]@[x as int]);
                } else {
                    let k0 = choose|k: int|
                        0 <= k < old(open)@.len() && (#[trigger] old(open)@[k]).x == x && old(
                            open,
                        )@[k].y == y && old(open)@[k].g_cost == old(g_score)@[y as int]@[x as int];
                    assert(open@[k0] == old(open)@[k0]);
                }
            }
        }
    }
}

/// Walk the recorded predecessors back from `goal` and return the route from
/// `start` to `goal` in forward order.
fn reconstruct_path(
    grid: &Grid,
    blocked: &Vec<(usize, usize)>,
    start: (usize, usize),
    goal: (usize, usize),
    g_score: &Vec<Vec<u32>>,
    came_from: &Vec<Vec<Option<(usize, usize)>>>,
) -> (path: Vec<(usize, usize)>)
    requires
        grid.wf(),
        start.0 < grid.width,
        start.1 < grid.height,
        goal.0 < grid.width,
        goal.1 < grid.height,
        table_shape(g_score@, grid.width as int, grid.height as int),
        table_shape(came_from@, grid.width as int, grid.height as int),
        parents_ok(grid, blocked@, start, g_score@, came_from@),
        g_score@[goal.1 as int]@[goal.0 as int] < u32::MAX,
        g_score@[start.1 as int]@[start.0 as int] == 0,
    ensures
        valid_path(grid, blocked@, start, goal, path@),
        path@.len() <= g_score@[goal.1 as int]@[goal.0 as int] + 1,
{
    let mut path: Vec<(usize, usize)> = Vec::new();
    path.push(goal);
    let mut cur: (usize, usize) = goal;
    loop
        invariant
            grid.wf(),
            start.0 < grid.width,
            start.1 < grid.height,
            table_shape(g_score@, grid.width as int, grid.height as int),
            table_shape(came_from@, grid.width as int, grid.height as int),
            parents_ok(grid, blocked@, start, g_score@, came_from@),
            cur.0 < grid.width,
            cur.1 < grid.height,
            g_score@[cur.1 as int]@[cur.0 as int] < u32::MAX,
            g_score@[start.1 as int]@[start.0 as int] == 0,
            path@.len() + g_score@[cur.1 as int]@[cur.0 as int] <= g_score@[goal.1 as int]@[goal.0
                as int] + 1,
            path@.len() >= 1,
            path@[0] == cur,
            path@[path@.len() - 1] == goal,
            forall|i: int| 0 <= i < path@.len() - 1 ==> adjacent(#[trigger] path@[i], path@[i + 1]),
            forall|i: int| 1 <= i < path@.len() ==> passable(grid, blocked@, #[trigger] path@[i]),
        ensures
            cur == start,
        decreases g_score@[cur.1 as int]@[cur.0 as int],
    {
        assert(parent_ok_at(grid, blocked@, start, g_score@, came_from@, cur.0, cur.1));
        match came_from[cur.1][cur.0] {
            Some(q) => {
                path.insert(0, q);
                cur = q;
            },
            None => {
                break;
            },
        }
    }
    path
}

/// Expand one freshly popped cell: mark it closed and offer each of its four
/// neighbours a route through it.  `open_before` is the queue as it stood
/// before the pop, `best` the popped index and `bound_prev` the old frontier
/// bound; the returned ghost value is the new frontier bound, under which
/// every queue and closed-cell obligation holds again.
#[verifier::rlimit(100)]
fn expand_cell(
    grid: &Grid,
    blocked: &Vec<(usize, usize)>,
    start: (usize, usize),
    goal: (usize, usize),
    g_score: &mut Vec<Vec<u32>>,
    came_from: &mut Vec<Vec<Option<(usize, usize)>>>,
    open: &mut Vec<PathNode>,
    closed: &mut Vec<Vec<bool>>,
    current: PathNode,
    Ghost(open_before): Ghost<Seq<PathNode>>,
    Ghost(best): Ghost<int>,
    Ghost(bound_prev): Ghost<int>,
) -> (new_bound: Ghost<int>)
    requires
        grid.wf(),
        grid.width < 0x8000_0000,
        grid.height < 0x8000_0000,
        start.0 < grid.width,
        start.1 < grid.height,
        goal.0 < grid.width,
        goal.1 < grid.height,
        table_shape(old(g_score)@, grid.width as int, grid.height as int),
        table_shape(old(came_from)@, grid.width as int, grid.height as int),
        table_shape(old(closed)@, grid.width as int, grid.height as int),
        parents_ok(grid, blocked@, start, old(g_score)@, old(came_from)@),
        old(g_score)@[start.1 as int]@[start.0 as int] == 0,
        open_ok(open_before, grid, old(g_score)@),
        open_h_exact(open_before, goal),
        open_g_consistent(open_before, old(g_score)@),
        open_live(open_before, old(closed)@, old(g_score)@, grid),
        frontier_bounded(open_before, goal, bound_prev),
        closed_ok(grid, blocked@, goal, old(closed)@, old(g_score)@, bound_prev),
        0 <= best < open_before.len(),
        current == open_before[best],
        old(open)@ == open_before.remove(best),
        forall|k: int|
            0 <= k < open_before.len() ==> exact_f(open_before[best], goal) <= exact_f(
                #[trigger] open_before[k],
                goal,
            ),
        !old(closed)@[current.y as int]@[current.x as int],
    ensures
        table_shape(final(g_score)@, grid.width as int, grid.height as int),
        table_shape(final(came_from)@, grid.width as int, grid.height as int),
        table_shape(final(closed)@, grid.width as int, grid.height as int),
        parents_ok(grid, blocked@, start, final(g_score)@, final(came_from)@),
        final(g_score)@[start.1 as int]@[start.0 as int] == 0,
        open_ok(final(open)@, grid, final(g_score)@),
        open_h_exact(final(open)@, goal),
        open_g_consistent(final(open)@, final(g_score)@),
        open_live(final(open)@, final(closed)@, final(g_score)@, grid),
        frontier_bounded(final(open)@, goal, new_bound@),
        closed_ok(grid, blocked@, goal, final(closed)@, final(g_score)@, new_bound@),
        count_false_table(final(closed)@) < count_false_table(old(closed)@),
        final(closed)@[current.y as int]@[current.x as int],
        forall|x: usize, y: usize|
            x < grid.width && y < grid.height && !(x == current.x && y == current.y)
                ==> (#[trigger] final(closed)@[y as int]@[x as int]) == old(closed)@[y as int]@[x
                as int],
{
    let cx = current.x;
    let cy = current.y;
    let ghost gc_cur = g_score@[cy as int]@[cx as int];
    proof {
        assert(cx < grid.width && cy < grid.height);
        assert(gc_cur < u32::MAX);
    }
    let ghost bound = gc_cur + manhattan(cx as int, cy as int, goal.0 as int, goal.1 as int);
    proof {
        // A freshly expanded cell is popped through a node that carries
        // exactly its recorded cost: the cell has a live node with that
        // cost, and the popped node was no worse.
        let k0 = choose|k: int|
            0 <= k < open_before.len() && (#[trigger] open_before[k]).x == cx && open_before[k].y
                == cy && open_before[k].g_cost == g_score@[cy as int]@[cx as int];
        assert(exact_f(open_before[best], goal) <= exact_f(open_before[k0], goal));
        assert(gc_cur <= current.g_cost);
        assert(current.g_cost == gc_cur);
        // The frontier bound never shrinks.
        assert(exact_f(current, goal) >= bound_prev);
        assert(bound_prev <= bound);
        // Neighbours expanded earlier already meet the one-step bound: they
        // were expanded within the old frontier bound, and the Manhattan
        // heuristic changes by at most one between adjacent cells.
        assert forall|q: (usize, usize)|
            q.0 < grid.width && q.1 < grid.height && adjacent((cx, cy), q) && (#[trigger] closed@[q.1
            as int]@[q.0 as int]) implies g_score@[q.1 as int]@[q.0 as int] <= gc_cur + 1 by {
            assert(closed_cell_ok(grid, blocked@, goal, g_score@, bound_prev, q.0, q.1));
        }
    }

    let ghost closed_before = closed@;
    closed[cy][cx] = true;
    proof {
        let cyi = cy as int;
        let cxi = cx as int;
        lemma_count_false_row_update(closed_before[cyi]@, cxi);
        lemma_count_false_table_update(closed_before, cyi, closed@[cyi]);
        assert(closed@[cyi]@ =~= closed_before[cyi]@.update(cxi, true));
        assert(closed@ =~= closed_before.update(cyi, closed@[cyi]));
        assert(count_false_table(closed@) < count_false_table(closed_before));
        // Closing a cell only shrinks the set of cells that need a live
        // queued node.
        assert forall|x: usize, y: usize|
            x < grid.width && y < grid.height && !closed@[y as int]@[x as int] && (
            #[trigger] g_score@[y as int]@[x as int]) < u32::MAX implies exists|k: int|
            0 <= k < open_before.len() && (#[trigger] open_before[k]).x == x && open_before[k].y
                == y && open_before[k].g_cost == g_score@[y as int]@[x as int] by {
            assert(!closed_before[y as int]@[x as int]);
        }
        lemma_open_live_after_remove(open_before, best, closed@, g_score@, grid);
    }

    let ghost g_mid = g_score@;
    let ghost open_mid = open@;
    relax_neighbors(grid, blocked, start, goal, g_score, came_from, open, closed, cx, cy);
    proof {
        // The new closed table differs from the old one at `(cx, cy)` only.
        assert forall|x: usize, y: usize|
            x < grid.width && y < grid.height && !(x == cx && y == cy) implies (
        #[trigger] closed@[y as int]@[x as int]) == closed_before[y as int]@[x as int] by {}
        lemma_expand_closed_ok(
            grid,
            blocked@,
            goal,
            closed_before,
            closed@,
            g_mid,
            g_score@,
            bound_prev,
            bound,
            cx,
            cy,
            gc_cur,
        );
        lemma_expand_frontier(goal, open_before, open_mid, open@, best, bound, gc_cur, cx, cy);
    }
    Ghost(bound)
}

/// Offer each of the four neighbours of the freshly closed `(cx, cy)` a
/// route through it.  Costs only decrease and closed cells keep theirs; the
/// queue keeps its old nodes and gains only nodes one step beyond `(cx, cy)`.
#[verifier::rlimit(100)]
fn relax_neighbors(
    grid: &Grid,
    blocked: &Vec<(usize, usize)>,
    start: (usize, usize),
    goal: (usize, usize),
    g_score: &mut Vec<Vec<u32>>,
    came_from: &mut Vec<Vec<Option<(usize, usize)>>>,
    open: &mut Vec<PathNode>,
    closed: &Vec<Vec<bool>>,
    cx: usize,
    cy: usize,
)
    requires
        grid.wf(),
        grid.width < 0x8000_0000,
        grid.height < 0x8000_0000,
        start.0 < grid.width,
        start.1 < grid.height,
        goal.0 < grid.width,
        goal.1 < grid.height,
        table_shape(old(g_score)@, grid.width as int, grid.height as int),
        table_shape(old(came_from)@, grid.width as int, grid.height as int),
        table_shape(closed@, grid.width as int, grid.height as int),
        parents_ok(grid, blocked@, start, old(g_score)@, old(came_from)@),
        old(g_score)@[start.1 as int]@[start.0 as int] == 0,
        open_ok(old(open)@, grid, old(g_score)@),
        open_h_exact(old(open)@, goal),
        open_g_consistent(old(open)@, old(g_score)@),
        open_live(old(open)@, closed@, old(g_score)@, grid),
        cx < grid.width,
        cy < grid.height,
        closed@[cy as int]@[cx as int],
        old(g_score)@[cy as int]@[cx as int] < u32::MAX,
    ensures
        table_shape(final(g_score)@, grid.width as int, grid.height as int),
        table_shape(final(came_from)@, grid.width as int, grid.height as int),
        parents_ok(grid, blocked@, start, final(g_score)@, final(came_from)@),
        final(g_score)@[start.1 as int]@[start.0 as int] == 0,
        open_ok(final(open)@, grid, final(g_score)@),
        open_h_exact(final(open)@, goal),
        open_g_consistent(final(open)@, final(g_score)@),
        open_live(final(open)@, closed@, final(g_score)@, grid),
        forall|x: int, y: int|
            0 <= x < grid.width && 0 <= y < grid.height ==> (#[trigger] final(g_score)@[y]@[x])
                <= old(g_score)@[y]@[x],
        forall|x: int, y: int|
            0 <= x < grid.width && 0 <= y < grid.height && closed@[y]@[x]
                ==> (#[trigger] final(g_score)@[y]@[x]) == old(g_score)@[y]@[x],
        (cx > 0 && passable(grid, blocked@, (((cx - 1) as usize), cy)) && !closed@[cy as int]@[cx
            - 1]) ==> final(g_score)@[cy as int]@[cx - 1] <= old(g_score)@[cy as int]@[cx as int]
            + 1,
        (cx + 1 < grid.width && passable(grid, blocked@, (((cx + 1) as usize), cy)) && !closed@[cy
            as int]@[cx + 1]) ==> final(g_score)@[cy as int]@[cx + 1] <= old(g_score)@[cy
            as int]@[cx as int] + 1,
        (cy > 0 && passable(grid, blocked@, (cx, ((cy - 1) as usize))) && !closed@[(cy - 1)
            as int]@[cx as int]) ==> final(g_score)@[(cy - 1) as int]@[cx as int] <= old(
            g_score,
        )@[cy as int]@[cx as int] + 1,
        (cy + 1 < grid.height && passable(grid, blocked@, (cx, ((cy + 1) as usize))) && !closed@[(cy
            + 1) as int]@[cx as int]) ==> final(g_score)@[(cy + 1) as int]@[cx as int] <= old(
            g_score,
        )@[cy as int]@[cx as int] + 1,
        final(open)@.len() >= old(open)@.len(),
        forall|k: int| 0 <= k < old(open)@.len() ==> (#[trigger] final(open)@[k]) == old(open)@[k],
        forall|k: int|
            old(open)@.len() <= k < final(open)@.len() ==> ((#[trigger] final(open)@[k]).g_cost
                == old(g_score)@[cy as int]@[cx as int] + 1 && adjacent(
                (cx, cy),
                (final(open)@[k].x, final(open)@[k].y),
            )),
{
    let ghost gc_cur = g_score@[cy as int]@[cx as int];
    let ghost g_mid = g_score@;
    let ghost open_mid = open@;
    // West
    if cx > 0 {
        if passable_at(grid, blocked, cx - 1, cy) {
            relax(
                grid,
                blocked,
                start,
                goal,
                g_score,
                came_from,
                open,
                closed,
                cx,
                cy,
                cx - 1,
                cy,
            );
        }
    }
    let ghost g1 = g_score@;
    let ghost l1 = open@.len();
    // East
    if cx + 1 < grid.width {
        if passable_at(grid, blocked, cx + 1, cy) {
            relax(
                grid,
                blocked,
                start,
                goal,
                g_score,
                came_from,
                open,
                closed,
                cx,
                cy,
                cx + 1,
                cy,
            );
        }
    }
    let ghost g2 = g_score@;
    let ghost l2 = open@.len();
    // North
    if cy > 0 {
        if passable_at(grid, blocked, cx, cy - 1) {
            relax(
                grid,
                blocked,
                start,
                goal,
                g_score,
                came_from,
                open,
                closed,
                cx,
                cy,
                cx,
                cy - 1,
            );
        }
    }
    let ghost g3 = g_score@;
    let ghost l3 = open@.len();
    // South
    if cy + 1 < grid.height {
        if passable_at(grid, blocked, cx, cy + 1) {
            relax(
                grid,
                blocked,
                start,
                goal,
                g_score,
                came_from,
                open,
                closed,
                cx,
                cy,
                cx,
                cy + 1,
            );
        }
    }
    proof {
        // The cost table only ever went down, and closed cells not at all.
        assert forall|x: int, y: int|
            0 <= x < grid.width && 0 <= y < grid.height implies (#[trigger] g_score@[y]@[x])
            <= g_mid[y]@[x] by {
            assert(g1[y]@[x] <= g_mid[y]@[x]);
            assert(g2[y]@[x] <= g1[y]@[x]);
            assert(g3[y]@[x] <= g2[y]@[x]);
            assert(g_score@[y]@[x] <= g3[y]@[x]);
        }
        assert forall|x: int, y: int|
            0 <= x < grid.width && 0 <= y < grid.height && closed@[y]@[x] implies (
        #[trigger] g_score@[y]@[x]) == g_mid[y]@[x] by {
            assert(g1[y]@[x] == g_mid[y]@[x]);
            assert(g2[y]@[x] == g1[y]@[x]);
            assert(g3[y]@[x] == g2[y]@[x]);
            assert(g_score@[y]@[x] == g3[y]@[x]);
        }
        // Fresh offers to the four neighbours, over the final table.
        assert((cx > 0 && passable(grid, blocked@, (((cx - 1) as usize), cy)) && !closed@[cy
            as int]@[cx - 1]) ==> g_score@[cy as int]@[cx - 1] <= gc_cur + 1) by {
            if cx > 0 && passable(grid, blocked@, (((cx - 1) as usize), cy)) && !closed@[cy
                as int]@[cx - 1] {
                assert(g1[cy as int]@[cx - 1] <= gc_cur + 1);
            }
        }
        assert((cx + 1 < grid.width && passable(grid, blocked@, (((cx + 1) as usize), cy))
            && !closed@[cy as int]@[cx + 1]) ==> g_score@[cy as int]@[cx + 1] <= gc_cur + 1) by {
            if cx + 1 < grid.width && passable(grid, blocked@, (((cx + 1) as usize), cy))
                && !closed@[cy as int]@[cx + 1] {
                assert(g2[cy as int]@[cx + 1] <= gc_cur + 1);
            }
        }
        assert((cy > 0 && passable(grid, blocked@, (cx, ((cy - 1) as usize))) && !closed@[(cy - 1)
            as int]@[cx as int]) ==> g_score@[(cy - 1) as int]@[cx as int] <= gc_cur + 1) by {
            if cy > 0 && passable(grid, blocked@, (cx, ((cy - 1) as usize))) && !closed@[(cy - 1)
                as int]@[cx as int] {
                assert(g3[(cy - 1) as int]@[cx as int] <= gc_cur + 1);
            }
        }
        assert((cy + 1 < grid.height && passable(grid, blocked@, (cx, ((cy + 1) as usize)))
            && !closed@[(cy + 1) as int]@[cx as int]) ==> g_score@[(cy + 1) as int]@[cx as int]
            <= gc_cur + 1);
        // The queue kept its old nodes ahead of the fresh ones.
        assert forall|k: int| 0 <= k < open_mid.len() implies (#[trigger] open@[k]) == open_mid[k]
            by {}
        assert forall|k: int|
            open_mid.len() <= k < open@.len() implies ((#[trigger] open@[k]).g_cost == gc_cur + 1
            && adjacent((cx, cy), (open@[k].x, open@[k].y))) by {
            if k < l1 as int {
            } else if k < l2 as int {
            } else if k < l3 as int {
            } else {
            }
        }
    }
}

/// A* search from `(start_x, start_y)` to `(goal_x, goal_y)`.
///
/// Any returned path is a real route — it starts at the start, ends at the
/// goal, moves one cell at a time, and every cell after the first is on the
/// grid, free of obstacles and outside `blocked` — and it is a shortest one:
/// no valid path between the two points has fewer cells.  When start and
/// goal coincide the one-cell path is always found.  `None` means the search
/// exhausted every reachable cell without meeting the goal.
#[verifier::rlimit(100)]
pub fn find_path(
    grid: &Grid,
    start_x: usize,
    start_y: usize,
    goal_x: usize,
    goal_y: usize,
    blocked: &Vec<(usize, usize)>,
) -> (r: Option<Vec<(usize, usize)>>)
    requires
        grid.wf(),
        grid.width < 0x8000_0000,
        grid.height < 0x8000_0000,
        start_x < grid.width,
        start_y < grid.height,
        goal_x < grid.width,
        goal_y < grid.height,
    ensures
        match r {
            Some(path) => valid_path(grid, blocked@, (start_x, start_y), (goal_x, goal_y), path@)
                && (forall|other: Seq<(usize, usize)>|
                valid_path(grid, blocked@, (start_x, start_y), (goal_x, goal_y), other)
                    ==> path@.len() <= other.len()),
            None => forall|other: Seq<(usize, usize)>|
                valid_path(grid, blocked@, (start_x, start_y), (goal_x, goal_y), other)
                    ==> other.len() > u32::MAX,
        },
        start_x == goal_x && start_y == goal_y ==> r is Some,
{
    let start: (usize, usize) = (start_x, start_y);
    let goal: (usize, usize) = (goal_x, goal_y);
    if start_x == goal_x && start_y == goal_y {
        let mut path: Vec<(usize, usize)> = Vec::new();
        path.push(start);
        return Some(path);
    }

    let mut g_score: Vec<Vec<u32>> = filled_table(grid.width, grid.height, u32::MAX);
    let mut came_from: Vec<Vec<Option<(usize, usize)>>> = filled_table(
        grid.width,
        grid.height,
        None,
    );
    let mut closed: Vec<Vec<bool>> = filled_table(grid.width, grid.height, false);
    let mut open: Vec<PathNode> = Vec::new();

    g_score[start_y][start_x] = 0;
    let start_h = heuristic(start_x, start_y, goal_x, goal_y);
    open.push(PathNode::new(start_x, start_y, 0, start_h));

    // The highest total cost at which a cell has been expanded so far.
    let ghost mut bound: int = 0;
    proof {
        assert forall|x: usize, y: usize|
            x < grid.width && y < grid.height && !closed@[y as int]@[x as int] && (
            #[trigger] g_score@[y as int]@[x as int]) < u32::MAX implies exists|k: int|
            0 <= k < open@.len() && (#[trigger] open@[k]).x == x && open@[k].y == y
                && open@[k].g_cost == g_score@[y as int]@[x as int] by {
            assert(x == start_x && y == start_y);
            assert(open@[0].x == x && open@[0].y == y && open@[0].g_cost == g_score@[y as int]@[x
                as int]);
        }
    }

    while open.len() > 0
        invariant
            grid.wf(),
            grid.width < 0x8000_0000,
            grid.height < 0x8000_0000,
            start == (start_x, start_y),
            goal == (goal_x, goal_y),
            start.0 < grid.width,
            start.1 < grid.height,
            goal.0 < grid.width,
            goal.1 < grid.height,
            table_shape(g_score@, grid.width as int, grid.height as int),
            table_shape(came_from@, grid.width as int, grid.height as int),
            table_shape(closed@, grid.width as int, grid.height as int),
            parents_ok(grid, blocked@, start, g_score@, came_from@),
            open_ok(open@, grid, g_score@),
            open_h_exact(open@, goal),
            open_g_consistent(open@, g_score@),
            open_live(open@, closed@, g_score@, grid),
            frontier_bounded(open@, goal, bound),
            closed_ok(grid, blocked@, goal, closed@, g_score@, bound),
            g_score@[start.1 as int]@[start.0 as int] == 0,
            !closed@[goal.1 as int]@[goal.0 as int],
        decreases count_false_table(closed@), open@.len(),
    {
        let ghost open_before = open@;
        // Pick the queued node with the lowest total cost, breaking ties
        // towards the lower heuristic, then towards the earliest queued.
        // Totals are compared in 64 bits, where g + h cannot overflow.
        let mut best: usize = 0;
        let mut i: usize = 1;
        while i < open.len()
            invariant
                open@ == open_before,
                open@.len() >= 1,
                best < open@.len(),
                i <= open@.len(),
                open_h_exact(open@, goal),
                forall|k: int|
                    0 <= k < i ==> exact_f(open@[best as int], goal) <= exact_f(
                        #[trigger] open@[k],
                        goal,
                    ),
            decreases open@.len() - i,
        {
            let fi: u64 = open[i].g_cost as u64 + open[i].h_cost as u64;
            let fb: u64 = open[best].g_cost as u64 + open[best].h_cost as u64;
            let better = fi < fb || (fi == fb && open[i].h_cost < open[best].h_cost);
            if better {
                best = i;
            }
            i += 1;
        }
        let current = open.remove(best);
        proof {
            assert(current == open_before[best as int]);
            assert(open@ == open_before.remove(best as int));
            // Every surviving node was already queued.
            assert forall|k: int| 0 <= k < open@.len() implies (exists|k0: int|
                0 <= k0 < open_before.len() && open_before[k0] == #[trigger] open@[k]) by {
                if k < best as int {
                    assert(open_before[k] == open@[k]);
                } else {
                    assert(open_before[k + 1] == open@[k]);
                }
            }
        }

        if current.x == goal.0 && current.y == goal.1 {
            proof {
                assert(g_score@[goal.1 as int]@[goal.0 as int] < u32::MAX);
                assert(g_score@[goal.1 as int]@[goal.0 as int] <= current.g_cost);
                lemma_goal_optimal(
                    grid,
                    blocked@,
                    start,
                    goal,
                    g_score@,
                    closed@,
                    open_before,
                    bound,
                    current,
                    best as int,
                );
            }
            let path = reconstruct_path(grid, blocked, start, goal, &g_score, &came_from);
            return Some(path);
        }

        if closed[current.y][current.x] {
            proof {
                lemma_open_live_after_remove(open_before, best as int, closed@, g_score@, grid);
            }
            continue;
        }

        let ghost bound_prev = bound;
        let new_bound = expand_cell(
            grid,
            blocked,
            start,
            goal,
            &mut g_score,
            &mut came_from,
            &mut open,
            &mut closed,
            current,
            Ghost(open_before),
            Ghost(best as int),
            Ghost(bound_prev),
        );
        proof {
            bound = new_bound@;
        }
    }

    proof {
        assert forall|other: Seq<(usize, usize)>|
            valid_path(grid, blocked@, start, goal, other) implies other.len() > u32::MAX by {
            if other.len() <= u32::MAX {
                assert forall|x: usize, y: usize|
                    x < grid.width && y < grid.height && (#[trigger] g_score@[y as int]@[x as int])
                        < u32::MAX implies closed@[y as int]@[x as int] by {
                    if !closed@[y as int]@[x as int] {
                        let k = choose|k: int|
                            0 <= k < open@.len() && (#[trigger] open@[k]).x == x && open@[k].y == y
                                && open@[k].g_cost == g_score@[y as int]@[x as int];
                        assert(false);
                    }
                }
                assert(other[0] == start);
                lemma_exhausted_no_path(
                    grid,
                    blocked@,
                    start,
                    goal,
                    g_score@,
                    closed@,
                    bound,
                    other,
                    0,
                );
            }
        }
    }
    None
}

} // verus!
