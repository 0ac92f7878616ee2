//! The per-robot decision engine: a state machine with type-specific scoring
//! heuristics, stuck detection and recovery, and movement with saturating
//! energy accounting.

use vstd::prelude::*;

use rand::Rng;

use crate::grid::{Cell, CellType, Grid, RobotExplorationUpdate};
use crate::planner;

verus! {

/// Relies on rand's `Rng::gen_range` over `-1..=1`: the sample always lies
/// within the given (non-empty) range.  Which value comes back is chance.
#[verifier::external_body]
fn random_unit_offset() -> (r: i32)
    ensures
        -1 <= r <= 1,
{
    rand::thread_rng().gen_range(-1..=1)
}

/// Relies on rand's `Rng::gen_range` over `0..n`: the sample always lies
/// within the given (non-empty) range.  Which value comes back is chance.
#[verifier::external_body]
fn random_below(n: usize) -> (r: usize)
    requires
        n >= 1,
    ensures
        r < n,
{
    rand::thread_rng().gen_range(0..n)
}

/// `v` clamped onto `[0, size)`.
pub open spec fn clamp_to(v: int, size: int) -> int {
    if v < 0 {
        0
    } else if v >= size {
        size - 1
    } else {
        v
    }
}

/// 1 when the window cell at offset `(dx, dy)` from `(cx, cy)`, clamped onto
/// the grid, is unexplored (and, with `need_free`, not an obstacle).
pub open spec fn win_cell(grid: &Grid, cx: int, cy: int, dx: int, dy: int, need_free: bool) -> int {
    let gx = clamp_to(cx + dx, grid.width as int);
    let gy = clamp_to(cy + dy, grid.height as int);
    if !grid.cell_at(gx, gy).explored && (!need_free || grid.cell_at(gx, gy).cell_type
        != CellType::Obstacle) {
        1
    } else {
        0
    }
}

pub open spec fn win_row(grid: &Grid, cx: int, cy: int, dy: int, n: nat, need_free: bool) -> int
    decreases n,
{
    if n == 0 {
        0
    } else {
        win_row(grid, cx, cy, dy, (n - 1) as nat, need_free) + win_cell(
            grid,
            cx,
            cy,
            n - 3,
            dy,
            need_free,
        )
    }
}

pub open spec fn win_rows(grid: &Grid, cx: int, cy: int, m: nat, need_free: bool) -> int
    decreases m,
{
    if m == 0 {
        0
    } else {
        win_rows(grid, cx, cy, (m - 1) as nat, need_free) + win_row(grid, cx, cy, m - 3, 5, need_free)
    }
}

/// Unexplored cells in the 5-by-5 window around `(cx, cy)`, offsets clamped
/// onto the grid (so cells near the rim may count more than once).
pub open spec fn win5_unexplored(grid: &Grid, cx: int, cy: int) -> int {
    win_rows(grid, cx, cy, 5, false)
}

/// As `win5_unexplored`, counting only non-obstacle cells.
pub open spec fn win5_unexplored_free(grid: &Grid, cx: int, cy: int) -> int {
    win_rows(grid, cx, cy, 5, true)
}

/// The look-ahead value of walking on from `(x, y)` in direction `d`,
/// counted from step number `step`: at the first unexplored cell within the
/// 15-step horizon, the size of its free cluster weighted by inverse
/// distance; a flat 50 when the grid's rim is reached first; 0 when the
/// horizon runs out with everything explored.
pub open spec fn spec_unexplored_potential(
    grid: &Grid,
    x: usize,
    y: usize,
    d: Direction,
    step: int,
) -> int
    decreases 16 - step,
{
    if step > 15 || step < 1 {
        0
    } else {
        match Robot::spec_next_pos(x, y, d, grid) {
            None => 50,
            Some(p) => if !grid.cell_at(p.0 as int, p.1 as int).explored {
                win5_unexplored_free(grid, p.0 as int, p.1 as int) * (16 - step)
            } else {
                spec_unexplored_potential(grid, p.0, p.1, d, step + 1)
            },
        }
    }
}

/// `base + k - 2` clamped onto `[0, size)`.
fn clamp_off(base: usize, k: usize, size: usize) -> (r: usize)
    requires
        size >= 1,
        k <= 4,
        base + 4 <= usize::MAX,
    ensures
        r == clamp_to(base + k - 2, size as int),
        r < size,
{
    let v = base + k;
    if v < 2 {
        0
    } else {
        let w = v - 2;
        if w >= size {
            size - 1
        } else {
            w
        }
    }
}

/// Count the unexplored (and, with `need_free`, non-obstacle) cells in the
/// clamped 5-by-5 window around `(cx, cy)`.
fn count_window(grid: &Grid, cx: usize, cy: usize, need_free: bool) -> (n: u32)
    requires
        grid.wf(),
        grid.width >= 1,
        grid.height >= 1,
        cx + 4 <= usize::MAX,
        cy + 4 <= usize::MAX,
    ensures
        n == win_rows(grid, cx as int, cy as int, 5, need_free),
        n <= 25,
{
    let mut n: u32 = 0;
    let mut ky: usize = 0;
    while ky < 5
        invariant
            grid.wf(),
            grid.width >= 1,
            grid.height >= 1,
            cx + 4 <= usize::MAX,
            cy + 4 <= usize::MAX,
            ky <= 5,
            n == win_rows(grid, cx as int, cy as int, ky as nat, need_free),
            n <= 5 * ky,
        decreases 5 - ky,
    {
        let mut kx: usize = 0;
        while kx < 5
            invariant
                grid.wf(),
                grid.width >= 1,
                grid.height >= 1,
                cx + 4 <= usize::MAX,
                cy + 4 <= usize::MAX,
                ky < 5,
                kx <= 5,
                n == win_rows(grid, cx as int, cy as int, ky as nat, need_free) + win_row(
                    grid,
                    cx as int,
                    cy as int,
                    ky - 2,
                    kx as nat,
                    need_free,
                ),
                n <= 5 * ky + kx,
            decreases 5 - kx,
        {
            let gx = clamp_off(cx, kx, grid.width);
            let gy = clamp_off(cy, ky, grid.height);
            let cell = &grid.cells[gy][gx];
            let counts = !cell.explored && (!need_free || !matches!(
                cell.cell_type,
                CellType::Obstacle,
            ));
            if counts {
                n += 1;
            }
            kx += 1;
        }
        ky += 1;
    }
    n
}

/// Energy a freshly built or refuelled robot holds; also the amount a robot
/// keeps for itself when unloading at the station.
pub const INITIAL_ROBOT_ENERGY: u32 = 100;

/// The four directions a robot can move in.
#[derive(Debug, Clone, Copy, PartialEq, Eq, Structural)]
pub enum Direction {
    North,
    East,
    South,
    West,
}

/// The specialisations a robot can be built with.
#[derive(Debug, Clone, Copy, PartialEq, Eq, Structural)]
pub enum RobotType {
    Explorer,
    EnergyCollector,
    MineralCollector,
    Scientist,
}

/// The behavioural state of a robot.
#[derive(Debug, Clone, Copy, PartialEq, Eq, Structural)]
pub enum RobotState {
    Exploring,
    ReturningToStation,
    AtStation,
}

/// An exploration robot.
#[derive(Debug, Clone)]
pub struct Robot {
    pub x: usize,
    pub y: usize,
    pub energy: u32,
    pub minerals: u32,
    pub science_points: u32,
    pub pending_exploration_updates: RobotExplorationUpdate,
    pub robot_type: RobotType,
    pub state: RobotState,
    pub target_x: Option<usize>,
    pub target_y: Option<usize>,
    pub steps_since_last_find: u32,
}

impl Robot {
    /// The robot stands on the grid.
    pub open spec fn in_bounds(&self, grid: &Grid) -> bool {
        self.x < grid.width && self.y < grid.height
    }

    /// When a robot breaks off exploring and heads home: always on critically
    /// low energy, and otherwise by a type-specific trigger on its energy or
    /// cargo.
    pub open spec fn spec_should_return(&self) -> bool {
        ||| self.energy <= 20
        ||| match self.robot_type {
            RobotType::Explorer => self.energy <= 25 || self.pending_exploration_updates@.len()
                > 30,
            RobotType::EnergyCollector => self.energy <= 25 || self.energy
                > INITIAL_ROBOT_ENERGY + 70,
            RobotType::MineralCollector => self.minerals > 35 || self.energy <= 25,
            RobotType::Scientist => self.science_points > 6 || self.energy <= 25,
        }
    }

    /// Where one step in `d` from `(x, y)` lands, or `None` at the rim.
    pub open spec fn spec_next_pos(x: usize, y: usize, d: Direction, grid: &Grid) -> Option<
        (usize, usize),
    > {
        match d {
            Direction::North => if y == 0 {
                None
            } else {
                Some((x, (y - 1) as usize))
            },
            Direction::East => if x + 1 >= grid.width {
                None
            } else {
                Some(((x + 1) as usize, y))
            },
            Direction::South => if y + 1 >= grid.height {
                None
            } else {
                Some((x, (y + 1) as usize))
            },
            Direction::West => if x == 0 {
                None
            } else {
                Some(((x - 1) as usize, y))
            },
        }
    }

    /// A cell a robot may move onto: on the grid, not an obstacle, and not
    /// occupied by another robot that still has energy.
    pub open spec fn spec_valid_move(grid: &Grid, others: Seq<Robot>, x: usize, y: usize) -> bool {
        &&& x < grid.width
        &&& y < grid.height
        &&& grid.cell_at(x as int, y as int).cell_type != CellType::Obstacle
        &&& forall|j: int|
            0 <= j < others.len() ==> !((#[trigger] others[j]).x == x && others[j].y == y
                && others[j].energy > 0)
    }

    /// The state a freshly built robot starts in.
    pub open spec fn spec_is_new(&self, x: usize, y: usize, robot_type: RobotType) -> bool {
        &&& self.x == x
        &&& self.y == y
        &&& self.energy == INITIAL_ROBOT_ENERGY
        &&& self.minerals == 0
        &&& self.science_points == 0
        &&& self.pending_exploration_updates@ == Seq::<((usize, usize), CellType)>::empty()
        &&& self.robot_type == robot_type
        &&& self.state == RobotState::Exploring
        &&& self.target_x is None
        &&& self.target_y is None
        &&& self.steps_since_last_find == 0
    }

    pub fn new(x: usize, y: usize) -> (r: Self)
        ensures
            r.spec_is_new(x, y, RobotType::Explorer),
    {
        Self::new_with_type(x, y, RobotType::Explorer)
    }

    pub fn new_with_type(x: usize, y: usize, robot_type: RobotType) -> (r: Self)
        ensures
            r.spec_is_new(x, y, robot_type),
    {
        let r = Self {
            x,
            y,
            energy: INITIAL_ROBOT_ENERGY,
            minerals: 0,
            science_points: 0,
            pending_exploration_updates: Vec::new(),
            robot_type,
            state: RobotState::Exploring,
            target_x: None,
            target_y: None,
            steps_since_last_find: 0,
        };
        proof {
            assert(r.pending_exploration_updates@ =~= Seq::<((usize, usize), CellType)>::empty());
        }
        r
    }

    fn should_return_to_station(&self) -> (b: bool)
        ensures
            b == self.spec_should_return(),
    {
        if self.energy <= 20 {
            return true;
        }
        match self.robot_type {
            RobotType::Explorer => self.energy <= 25 || self.pending_exploration_updates.len()
                > 30,
            RobotType::EnergyCollector => self.energy <= 25 || self.energy
                > INITIAL_ROBOT_ENERGY + 70,
            RobotType::MineralCollector => self.minerals > 35 || self.energy <= 25,
            RobotType::Scientist => self.science_points > 6 || self.energy <= 25,
        }
    }

    /// Where one step in `direction` lands, or `None` at the rim of the grid.
    fn get_next_position(&self, direction: Direction, grid: &Grid) -> (r: Option<(usize, usize)>)
        requires
            self.x < grid.width,
            self.y < grid.height,
        ensures
            r == Robot::spec_next_pos(self.x, self.y, direction, grid),
    {
        Self::next_position_from(self.x, self.y, direction, grid)
    }

    /// `get_next_position` from an arbitrary cell instead of the robot's own.
    fn next_position_from(x: usize, y: usize, direction: Direction, grid: &Grid) -> (r: Option<
        (usize, usize),
    >)
        requires
            x < grid.width,
            y < grid.height,
        ensures
            r == Robot::spec_next_pos(x, y, direction, grid),
    {
        match direction {
            Direction::North => if y == 0 {
                None
            } else {
                Some((x, y - 1))
            },
            Direction::East => if x + 1 >= grid.width {
                None
            } else {
                Some((x + 1, y))
            },
            Direction::South => if y + 1 >= grid.height {
                None
            } else {
                Some((x, y + 1))
            },
            Direction::West => if x == 0 {
                None
            } else {
                Some((x - 1, y))
            },
        }
    }

    /// Whether the robot may move onto `(x, y)`.
    fn is_valid_move(&self, x: usize, y: usize, grid: &Grid, others: &Vec<Robot>) -> (b: bool)
        requires
            grid.wf(),
        ensures
            b == Robot::spec_valid_move(grid, others@, x, y),
    {
        match grid.get_cell(x, y) {
            None => false,
            Some(cell) => {
                if matches!(cell.cell_type, CellType::Obstacle) {
                    return false;
                }
                let mut j: usize = 0;
                while j < others.len()
                    invariant
                        j <= others@.len(),
                        forall|k: int|
                            0 <= k < j ==> !((#[trigger] others@[k]).x == x && others@[k].y == y
                                && others@[k].energy > 0),
                    decreases others@.len() - j,
                {
                    if others[j].x == x && others[j].y == y && others[j].energy > 0 {
                        return false;
                    }
                    j += 1;
                }
                true
            },
        }
    }

    /// Step one cell in `direction` if that cell is free, paying one energy
    /// (saturating).  Returns whether the robot moved.
    pub fn move_in_direction(
        &mut self,
        direction: Direction,
        grid: &Grid,
        others: &Vec<Robot>,
    ) -> (moved: bool)
        requires
            grid.wf(),
            old(self).x < grid.width,
            old(self).y < grid.height,
        ensures
            match Robot::spec_next_pos(old(self).x, old(self).y, direction, grid) {
                None => !moved && *final(self) == *old(self),
                Some(p) => if Robot::spec_valid_move(grid, others@, p.0, p.1) {
                    &&& moved
                    &&& *final(self) == (Robot {
                        x: p.0,
                        y: p.1,
                        energy: old(self).energy.saturating_sub(1),
                        ..*old(self)
                    })
                } else {
                    !moved && *final(self) == *old(self)
                },
            },
            final(self).x < grid.width,
            final(self).y < grid.height,
    {
        let next = self.get_next_position(direction, grid);
        match next {
            None => false,
            Some((new_x, new_y)) => {
                if self.is_valid_move(new_x, new_y, grid, others) {
                    self.x = new_x;
                    self.y = new_y;
                    self.energy = self.energy.saturating_sub(1);
                    true
                } else {
                    false
                }
            },
        }
    }

    /// Extract whatever resource sits under the robot, crediting the matching
    /// counter (saturating) and emptying the cell.  Returns whether anything
    /// was collected.
    pub fn collect_resource(&mut self, grid: &mut Grid) -> (collected: bool)
        requires
            old(grid).wf(),
        ensures
            final(grid).wf(),
            final(grid).same_but(old(grid), old(self).x, old(self).y),
            final(self).x == old(self).x && final(self).y == old(self).y,
            final(self).robot_type == old(self).robot_type,
            final(self).state == old(self).state,
            final(self).pending_exploration_updates == old(self).pending_exploration_updates,
            final(self).target_x == old(self).target_x,
            final(self).target_y == old(self).target_y,
            final(self).steps_since_last_find == old(self).steps_since_last_find,
            if old(grid).spec_valid(old(self).x, old(self).y) {
                match old(grid).cell_at(old(self).x as int, old(self).y as int).cell_type {
                    CellType::Energy(amount) => {
                        &&& collected
                        &&& final(self).energy == old(self).energy.saturating_add(amount)
                        &&& final(self).minerals == old(self).minerals
                        &&& final(self).science_points == old(self).science_points
                        &&& final(grid).cell_at(old(self).x as int, old(self).y as int).cell_type
                            == CellType::Empty
                    },
                    CellType::Mineral(amount) => {
                        &&& collected
                        &&& final(self).minerals == old(self).minerals.saturating_add(amount)
                        &&& final(self).energy == old(self).energy
                        &&& final(self).science_points == old(self).science_points
                        &&& final(grid).cell_at(old(self).x as int, old(self).y as int).cell_type
                            == CellType::Empty
                    },
                    CellType::SciencePoint => {
                        &&& collected
                        &&& final(self).science_points == old(self).science_points.saturating_add(
                            1,
                        )
                        &&& final(self).energy == old(self).energy
                        &&& final(self).minerals == old(self).minerals
                        &&& final(grid).cell_at(old(self).x as int, old(self).y as int).cell_type
                            == CellType::Empty
                    },
                    _ => !collected && *final(self) == *old(self) && *final(grid) == *old(grid),
                }
            } else {
                !collected && *final(self) == *old(self) && *final(grid) == *old(grid)
            },
    {
        match grid.collect_resource(self.x, self.y) {
            None => false,
            Some((resource_type, amount)) => {
                match resource_type {
                    CellType::Energy(_) => {
                        self.energy = self.energy.saturating_add(amount);
                        true
                    },
                    CellType::Mineral(_) => {
                        self.minerals = self.minerals.saturating_add(amount);
                        true
                    },
                    CellType::SciencePoint => {
                        self.science_points = self.science_points.saturating_add(amount);
                        true
                    },
                    _ => {
                        proof {
                            assert(false);
                        }
                        false
                    },
                }
            },
        }
    }

    /// Mark the cell under the robot as explored and remember the report
    /// `((x, y), content)` for the station.  Returns false off the grid.
    pub fn explore(&mut self, grid: &mut Grid) -> (r: bool)
        requires
            old(grid).wf(),
        ensures
            final(grid).wf(),
            final(grid).same_but(old(grid), old(self).x, old(self).y),
            r == old(grid).spec_valid(old(self).x, old(self).y),
            final(self).x == old(self).x && final(self).y == old(self).y,
            final(self).energy == old(self).energy,
            final(self).minerals == old(self).minerals,
            final(self).science_points == old(self).science_points,
            final(self).robot_type == old(self).robot_type,
            final(self).state == old(self).state,
            final(self).target_x == old(self).target_x,
            final(self).target_y == old(self).target_y,
            final(self).steps_since_last_find == old(self).steps_since_last_find,
            if r {
                &&& final(grid).cell_at(old(self).x as int, old(self).y as int) == (Cell {
                    cell_type: old(grid).cell_at(old(self).x as int, old(self).y as int).cell_type,
                    explored: true,
                })
                &&& final(self).pending_exploration_updates@ == old(
                    self,
                ).pending_exploration_updates@.push(
                    (
                        (old(self).x, old(self).y),
                        old(grid).cell_at(old(self).x as int, old(self).y as int).cell_type,
                    ),
                )
            } else {
                &&& *final(grid) == *old(grid)
                &&& final(self).pending_exploration_updates == old(
                    self,
                ).pending_exploration_updates
            },
    {
        let x = self.x;
        let y = self.y;
        if grid.explore(x, y) {
            match grid.get_cell(x, y) {
                Some(cell) => {
                    let ct = cell.cell_type;
                    self.pending_exploration_updates.push(((x, y), ct));
                },
                None => {
                    proof {
                        assert(false);
                    }
                },
            }
            true
        } else {
            false
        }
    }

    /// Hand the station everything above the kept baseline: the energy
    /// surplus, all minerals and all science points.  The returned triple
    /// plus what the robot keeps equals exactly what it carried.
    pub fn unload_payload(&mut self) -> (payload: (u32, u32, u32))
        ensures
            payload.0 + final(self).energy == old(self).energy,
            payload.1 + final(self).minerals == old(self).minerals,
            payload.2 + final(self).science_points == old(self).science_points,
            final(self).energy == (if old(self).energy > INITIAL_ROBOT_ENERGY {
                INITIAL_ROBOT_ENERGY
            } else {
                old(self).energy
            }),
            final(self).minerals == 0,
            final(self).science_points == 0,
            final(self).x == old(self).x && final(self).y == old(self).y,
            final(self).robot_type == old(self).robot_type,
            final(self).state == old(self).state,
            final(self).pending_exploration_updates == old(self).pending_exploration_updates,
            final(self).target_x == old(self).target_x,
            final(self).target_y == old(self).target_y,
            final(self).steps_since_last_find == old(self).steps_since_last_find,
    {
        let energy_payload = self.energy.saturating_sub(INITIAL_ROBOT_ENERGY);
        self.energy = self.energy.saturating_sub(energy_payload);

        let minerals_payload = self.minerals;
        self.minerals = 0;

        let science_payload = self.science_points;
        self.science_points = 0;

        (energy_payload, minerals_payload, science_payload)
    }

    /// Take the accumulated exploration reports, leaving none behind.
    pub fn get_exploration_updates(&mut self) -> (updates: RobotExplorationUpdate)
        ensures
            updates@ == old(self).pending_exploration_updates@,
            final(self).pending_exploration_updates@.len() == 0,
            final(self).x == old(self).x && final(self).y == old(self).y,
            final(self).energy == old(self).energy,
            final(self).minerals == old(self).minerals,
            final(self).science_points == old(self).science_points,
            final(self).robot_type == old(self).robot_type,
            final(self).state == old(self).state,
            final(self).target_x == old(self).target_x,
            final(self).target_y == old(self).target_y,
            final(self).steps_since_last_find == old(self).steps_since_last_find,
    {
        let mut updates: RobotExplorationUpdate = Vec::new();
        core::mem::swap(&mut updates, &mut self.pending_exploration_updates);
        updates
    }

    /// Whether the robot still has energy to act.
    pub fn is_active(&self) -> (b: bool)
        ensures
            b == (self.energy > 0),
    {
        self.energy > 0
    }

    /// Whether the cell under the robot holds a resource or science point.
    fn found_something_at_current_position(&self, grid: &Grid) -> (b: bool)
        requires
            grid.wf(),
        ensures
            b == (self.in_bounds(grid) && match grid.cell_at(
                self.x as int,
                self.y as int,
            ).cell_type {
                CellType::Energy(_) | CellType::Mineral(_) | CellType::SciencePoint => true,
                _ => false,
            }),
    {
        match grid.get_cell(self.x, self.y) {
            Some(cell) => match cell.cell_type {
                CellType::Energy(_) | CellType::Mineral(_) | CellType::SciencePoint => true,
                _ => false,
            },
            None => false,
        }
    }

    /// The cardinal direction from the robot towards `(target_x, target_y)`,
    /// or `None` when the target is diagonal or underfoot.
    fn get_direction_to_position(&self, target_x: usize, target_y: usize) -> (r: Option<Direction>)
        ensures
            r == Robot::spec_direction_to(self.x, self.y, target_x, target_y),
    {
        if target_x > self.x && target_y == self.y {
            Some(Direction::East)
        } else if target_x < self.x && target_y == self.y {
            Some(Direction::West)
        } else if target_x == self.x && target_y > self.y {
            Some(Direction::South)
        } else if target_x == self.x && target_y < self.y {
            Some(Direction::North)
        } else {
            None
        }
    }

    pub open spec fn spec_direction_to(x: usize, y: usize, tx: usize, ty: usize) -> Option<
        Direction,
    > {
        if tx > x && ty == y {
            Some(Direction::East)
        } else if tx < x && ty == y {
            Some(Direction::West)
        } else if tx == x && ty > y {
            Some(Direction::South)
        } else if tx == x && ty < y {
            Some(Direction::North)
        } else {
            None
        }
    }
}

/// What a cell holds after a harvest attempt: resources and science points
/// are taken (the cell becomes `Empty`); anything else is untouched.
pub open spec fn spec_after_harvest(c: CellType) -> CellType {
    match c {
        CellType::Energy(_) | CellType::Mineral(_) | CellType::SciencePoint => CellType::Empty,
        _ => c,
    }
}

/// Whether a cell's content is what a collector of type `t` is after.
pub open spec fn spec_matches_target(t: RobotType, c: CellType) -> bool {
    match t {
        RobotType::EnergyCollector => c is Energy,
        RobotType::MineralCollector => c is Mineral,
        RobotType::Scientist => c is SciencePoint,
        RobotType::Explorer => false,
    }
}

/// What one surrounding window cell at offset `(dx, dy)` adds to a
/// collector's score: `8 - (|dx| + |dy|)` when it holds the target resource,
/// plus 1 when it is unexplored; off-grid offsets add nothing.
pub open spec fn res_cell(grid: &Grid, t: RobotType, x: int, y: int, dx: int, dy: int) -> int {
    let gx = x + dx;
    let gy = y + dy;
    if 0 <= gx < grid.width && 0 <= gy < grid.height {
        (if spec_matches_target(t, grid.cell_at(gx, gy).cell_type) {
            8 - (planner::dist1(dx, 0) + planner::dist1(dy, 0))
        } else {
            0
        }) + (if !grid.cell_at(gx, gy).explored {
            1int
        } else {
            0int
        })
    } else {
        0
    }
}

pub open spec fn res_row(grid: &Grid, t: RobotType, x: int, y: int, dy: int, n: nat) -> int
    decreases n,
{
    if n == 0 {
        0
    } else {
        res_row(grid, t, x, y, dy, (n - 1) as nat) + (if n - 3 == 0 && dy == 0 {
            0
        } else {
            res_cell(grid, t, x, y, n - 3, dy)
        })
    }
}

pub open spec fn res_rows(grid: &Grid, t: RobotType, x: int, y: int, m: nat) -> int
    decreases m,
{
    if m == 0 {
        0
    } else {
        res_rows(grid, t, x, y, (m - 1) as nat) + res_row(grid, t, x, y, m - 3, 5)
    }
}

/// The deterministic part of a collector's score for standing on `(x, y)`:
/// 25 for the target resource underfoot, 5 if the cell is unexplored, plus
/// the surrounding-window contributions (the cell itself excepted).
pub open spec fn spec_resource_base(grid: &Grid, t: RobotType, x: usize, y: usize) -> int {
    (if spec_matches_target(t, grid.cell_at(x as int, y as int).cell_type) {
        25int
    } else {
        0int
    }) + (if !grid.cell_at(x as int, y as int).explored {
        5int
    } else {
        0int
    }) + res_rows(grid, t, x as int, y as int, 5)
}

/// An explorer's score for standing on `(x, y)`: a large bonus for an
/// unexplored cell (a penalty for an explored one), 3 per Manhattan step
/// away from the robot, 15 per unexplored cell in the clamped 5-by-5 window
/// (the cell itself excepted), and bonuses for grid edges and corners.
pub open spec fn spec_explorer_score(grid: &Grid, x: usize, y: usize, rx: usize, ry: usize) -> int {
    let base = if !grid.cell_at(x as int, y as int).explored {
        150int
    } else {
        -30int
    };
    let dist = planner::manhattan(x as int, y as int, rx as int, ry as int);
    let neigh = win5_unexplored(grid, x as int, y as int) - (if !grid.cell_at(
        x as int,
        y as int,
    ).explored {
        1int
    } else {
        0int
    });
    let edge = if x == 0 || x == grid.width - 1 || y == 0 || y == grid.height - 1 {
        40int
    } else {
        0int
    };
    let corner = if (x == 0 || x == grid.width - 1) && (y == 0 || y == grid.height - 1) {
        20int
    } else {
        0int
    };
    base + dist * 3 + neigh * 15 + edge + corner
}

impl Robot {
    /// Score a candidate cell for an explorer.
    fn calculate_explorer_score(&self, x: usize, y: usize, grid: &Grid) -> (score: i32)
        requires
            grid.wf(),
            grid.width >= 1,
            grid.height >= 1,
            grid.width <= 0x1000_0000,
            grid.height <= 0x1000_0000,
            x < grid.width,
            y < grid.height,
            self.x < grid.width,
            self.y < grid.height,
        ensures
            score == spec_explorer_score(grid, x, y, self.x, self.y),
    {
        let unexplored_here = !grid.cells[y][x].explored;
        let base: i32 = if unexplored_here {
            150
        } else {
            -30
        };
        let dx = if x >= self.x {
            x - self.x
        } else {
            self.x - x
        };
        let dy = if y >= self.y {
            y - self.y
        } else {
            self.y - y
        };
        let dist: i32 = (dx + dy) as i32;
        let window = count_window(grid, x, y, false);
        let neigh: i32 = window as i32 - (if unexplored_here {
            1
        } else {
            0
        });
        let edge: i32 = if x == 0 || x == grid.width - 1 || y == 0 || y == grid.height - 1 {
            40
        } else {
            0
        };
        let corner: i32 = if (x == 0 || x == grid.width - 1) && (y == 0 || y == grid.height - 1) {
            20
        } else {
            0
        };
        base + dist * 3 + neigh * 15 + edge + corner
    }

    /// Score a candidate cell for a resource collector, with a random
    /// 1-step jitter to break ties and discourage clustering.
    fn calculate_resource_score(&self, x: usize, y: usize, grid: &Grid, target: RobotType) -> (score:
        i32)
        requires
            grid.wf(),
            grid.width <= 0x1000_0000,
            grid.height <= 0x1000_0000,
            x < grid.width,
            y < grid.height,
        ensures
            spec_resource_base(grid, target, x, y) - 1 <= score <= spec_resource_base(
                grid,
                target,
                x,
                y,
            ) + 1,
    {
        let center = &grid.cells[y][x];
        let mut score: i32 = 0;
        if is_target_cell(target, &center.cell_type) {
            score += 25;
        }
        if !center.explored {
            score += 5;
        }

        let mut wscore: i32 = 0;
        let mut ky: usize = 0;
        while ky < 5
            invariant
                grid.wf(),
                grid.width <= 0x1000_0000,
                grid.height <= 0x1000_0000,
                x < grid.width,
                y < grid.height,
                ky <= 5,
                wscore == res_rows(grid, target, x as int, y as int, ky as nat),
                0 <= wscore <= 45 * ky,
            decreases 5 - ky,
        {
            let mut kx: usize = 0;
            while kx < 5
                invariant
                    grid.wf(),
                    grid.width <= 0x1000_0000,
                    grid.height <= 0x1000_0000,
                    x < grid.width,
                    y < grid.height,
                    ky < 5,
                    kx <= 5,
                    wscore == res_rows(grid, target, x as int, y as int, ky as nat) + res_row(
                        grid,
                        target,
                        x as int,
                        y as int,
                        ky - 2,
                        kx as nat,
                    ),
                    0 <= wscore <= 45 * ky + 9 * kx,
                decreases 5 - kx,
            {
                let mut cell_add: i32 = 0;
                if !(kx == 2 && ky == 2) {
                    let vx = x + kx;
                    let vy = y + ky;
                    if vx >= 2 && vy >= 2 {
                        let gx = vx - 2;
                        let gy = vy - 2;
                        if gx < grid.width && gy < grid.height {
                            let cell = &grid.cells[gy][gx];
                            if is_target_cell(target, &cell.cell_type) {
                                let ax: usize = if kx >= 2 {
                                    kx - 2
                                } else {
                                    2 - kx
                                };
                                let ay: usize = if ky >= 2 {
                                    ky - 2
                                } else {
                                    2 - ky
                                };
                                cell_add += 8 - (ax + ay) as i32;
                            }
                            if !cell.explored {
                                cell_add += 1;
                            }
                        }
                    }
                    proof {
                        assert(cell_add == res_cell(
                            grid,
                            target,
                            x as int,
                            y as int,
                            kx - 2,
                            ky - 2,
                        ));
                    }
                }
                wscore += cell_add;
                kx += 1;
            }
            ky += 1;
        }

        score + wscore + random_unit_offset()
    }
}

/// Whether a cell's content matches what a collector of type `t` is after.
fn is_target_cell(t: RobotType, c: &CellType) -> (b: bool)
    ensures
        b == spec_matches_target(t, *c),
{
    match t {
        RobotType::EnergyCollector => matches!(c, CellType::Energy(_)),
        RobotType::MineralCollector => matches!(c, CellType::Mineral(_)),
        RobotType::Scientist => matches!(c, CellType::SciencePoint),
        RobotType::Explorer => false,
    }
}

impl Robot {
    /// Stepping in `d` is possible and lands on a cell the robot may occupy.
    pub open spec fn spec_move_ok(&self, grid: &Grid, others: Seq<Robot>, d: Direction) -> bool {
        match Robot::spec_next_pos(self.x, self.y, d, grid) {
            Some(p) => Robot::spec_valid_move(grid, others, p.0, p.1),
            None => false,
        }
    }

    /// Unexplored non-obstacle cells in the 5-by-5 window around a cell.
    fn count_unexplored_cluster(&self, center_x: usize, center_y: usize, grid: &Grid) -> (n: usize)
        requires
            grid.wf(),
            grid.width >= 1,
            grid.height >= 1,
            center_x + 4 <= usize::MAX,
            center_y + 4 <= usize::MAX,
        ensures
            n == win5_unexplored_free(grid, center_x as int, center_y as int),
            n <= 25,
    {
        count_window(grid, center_x, center_y, true) as usize
    }

    /// Look up to 15 cells ahead in `direction` for the nearest unexplored
    /// cell; its cluster size weighted by inverse distance is the potential,
    /// with a flat bonus when the grid's rim is reached first.
    fn calculate_unexplored_potential(
        &self,
        x: usize,
        y: usize,
        direction: Direction,
        grid: &Grid,
    ) -> (p: usize)
        requires
            grid.wf(),
            grid.width >= 1,
            grid.height >= 1,
            grid.width <= 0x1000_0000,
            grid.height <= 0x1000_0000,
            x < grid.width,
            y < grid.height,
        ensures
            p == spec_unexplored_potential(grid, x, y, direction, 1),
            p <= 425,
    {
        let mut potential: usize = 0;
        let mut cx = x;
        let mut cy = y;
        let mut step: usize = 1;
        while step <= 15
            invariant_except_break
                potential == 0,
                spec_unexplored_potential(grid, x, y, direction, 1) == spec_unexplored_potential(
                    grid,
                    cx,
                    cy,
                    direction,
                    step as int,
                ),
            invariant
                grid.wf(),
                grid.width >= 1,
                grid.height >= 1,
                grid.width <= 0x1000_0000,
                grid.height <= 0x1000_0000,
                cx < grid.width,
                cy < grid.height,
                1 <= step <= 16,
                potential <= 425,
            ensures
                potential <= 425,
                potential == spec_unexplored_potential(grid, x, y, direction, 1),
            decreases 16 - step,
        {
            match Self::next_position_from(cx, cy, direction, grid) {
                Some((nx, ny)) => {
                    proof {
                        assert(spec_unexplored_potential(grid, cx, cy, direction, step as int)
                            == (if !grid.cell_at(nx as int, ny as int).explored {
                            win5_unexplored_free(grid, nx as int, ny as int) * (16 - step)
                        } else {
                            spec_unexplored_potential(grid, nx, ny, direction, step + 1)
                        }));
                    }
                    cx = nx;
                    cy = ny;
                    if !grid.cells[cy][cx].explored {
                        let cluster = self.count_unexplored_cluster(cx, cy, grid);
                        let weight = 16 - step;
                        proof {
                            assert(cluster * weight <= 375) by (nonlinear_arith)
                                requires
                                    cluster <= 25,
                                    weight <= 15,
                            ;
                        }
                        potential = cluster * weight;
                        break ;
                    }
                },
                None => {
                    potential = 50;
                    break ;
                },
            }
            step += 1;
        }
        potential
    }

    /// One step of a direction fold: take `d` when it is a legal move whose
    /// look-ahead potential strictly beats the best so far.
    pub open spec fn spec_away_step(
        &self,
        grid: &Grid,
        others: Seq<Robot>,
        best: Option<Direction>,
        best_p: int,
        d: Direction,
    ) -> (Option<Direction>, int) {
        match Robot::spec_next_pos(self.x, self.y, d, grid) {
            Some(p) => if Robot::spec_valid_move(grid, others, p.0, p.1)
                && spec_unexplored_potential(grid, p.0, p.1, d, 1) > best_p {
                (Some(d), spec_unexplored_potential(grid, p.0, p.1, d, 1))
            } else {
                (best, best_p)
            },
            None => (best, best_p),
        }
    }

    /// The look-ahead fallback's exact choice: the first direction, in
    /// North, East, South, West order, that is a legal move with a positive
    /// look-ahead potential no later direction strictly beats; `None` when
    /// no legal direction has positive potential.
    pub open spec fn spec_away_choice(&self, grid: &Grid, others: Seq<Robot>) -> Option<Direction> {
        let s0 = self.spec_away_step(grid, others, None, 0, Direction::North);
        let s1 = self.spec_away_step(grid, others, s0.0, s0.1, Direction::East);
        let s2 = self.spec_away_step(grid, others, s1.0, s1.1, Direction::South);
        self.spec_away_step(grid, others, s2.0, s2.1, Direction::West).0
    }

    /// Pick the neighbour direction with the most promise of reaching
    /// unexplored territory: exactly `spec_away_choice`, so any direction
    /// returned is a legal move with positive look-ahead potential.
    fn choose_direction_away_from_explored_areas(&self, grid: &Grid, others: &Vec<Robot>) -> (r:
        Option<Direction>)
        requires
            grid.wf(),
            grid.width >= 1,
            grid.height >= 1,
            grid.width <= 0x1000_0000,
            grid.height <= 0x1000_0000,
            self.x < grid.width,
            self.y < grid.height,
        ensures
            r == self.spec_away_choice(grid, others@),
            match r {
                Some(d) => self.spec_move_ok(grid, others@, d),
                None => true,
            },
    {
        let mut best_direction: Option<Direction> = None;
        let mut max_potential: usize = 0;

        if let Some((nx, ny)) = self.get_next_position(Direction::North, grid) {
            if self.is_valid_move(nx, ny, grid, others) {
                let p = self.calculate_unexplored_potential(nx, ny, Direction::North, grid);
                if p > max_potential {
                    max_potential = p;
                    best_direction = Some(Direction::North);
                }
            }
        }
        proof {
            let s0 = self.spec_away_step(grid, others@, None, 0, Direction::North);
            assert(best_direction == s0.0 && max_potential == s0.1);
        }
        if let Some((nx, ny)) = self.get_next_position(Direction::East, grid) {
            if self.is_valid_move(nx, ny, grid, others) {
                let p = self.calculate_unexplored_potential(nx, ny, Direction::East, grid);
                if p > max_potential {
                    max_potential = p;
                    best_direction = Some(Direction::East);
                }
            }
        }
        proof {
            let s0 = self.spec_away_step(grid, others@, None, 0, Direction::North);
            let s1 = self.spec_away_step(grid, others@, s0.0, s0.1, Direction::East);
            assert(best_direction == s1.0 && max_potential == s1.1);
        }
        if let Some((nx, ny)) = self.get_next_position(Direction::South, grid) {
            if self.is_valid_move(nx, ny, grid, others) {
                let p = self.calculate_unexplored_potential(nx, ny, Direction::South, grid);
                if p > max_potential {
                    max_potential = p;
                    best_direction = Some(Direction::South);
                }
            }
        }
        if let Some((nx, ny)) = self.get_next_position(Direction::West, grid) {
            if self.is_valid_move(nx, ny, grid, others) {
                let p = self.calculate_unexplored_potential(nx, ny, Direction::West, grid);
                if p > max_potential {
                    max_potential = p;
                    best_direction = Some(Direction::West);
                }
            }
        }
        best_direction
    }

    /// A legal step whose target cell the explorer values at zero or better.
    pub open spec fn spec_good_explorer_dir(
        &self,
        grid: &Grid,
        others: Seq<Robot>,
        d: Direction,
    ) -> bool {
        match Robot::spec_next_pos(self.x, self.y, d, grid) {
            Some(p) => Robot::spec_valid_move(grid, others, p.0, p.1) && spec_explorer_score(
                grid,
                p.0,
                p.1,
                self.x,
                self.y,
            ) >= 0,
            None => false,
        }
    }

    /// One step of the explorer's direction fold: take `d` when it is a
    /// legal move whose explorer score strictly beats the best so far.
    pub open spec fn spec_explorer_step(
        &self,
        grid: &Grid,
        others: Seq<Robot>,
        best: Option<Direction>,
        best_score: int,
        d: Direction,
    ) -> (Option<Direction>, int) {
        match Robot::spec_next_pos(self.x, self.y, d, grid) {
            Some(p) => if Robot::spec_valid_move(grid, others, p.0, p.1) && spec_explorer_score(
                grid,
                p.0,
                p.1,
                self.x,
                self.y,
            ) > best_score {
                (Some(d), spec_explorer_score(grid, p.0, p.1, self.x, self.y))
            } else {
                (best, best_score)
            },
            None => (best, best_score),
        }
    }

    /// The explorer's primary choice and its score: the first legal
    /// direction, in North, East, South, West order, whose explorer score no
    /// later direction strictly beats.
    pub open spec fn spec_explorer_primary(&self, grid: &Grid, others: Seq<Robot>) -> (
        Option<Direction>,
        int,
    ) {
        let s0 = self.spec_explorer_step(grid, others, None, -1000, Direction::North);
        let s1 = self.spec_explorer_step(grid, others, s0.0, s0.1, Direction::East);
        let s2 = self.spec_explorer_step(grid, others, s1.0, s1.1, Direction::South);
        self.spec_explorer_step(grid, others, s2.0, s2.1, Direction::West)
    }

    /// An explorer's direction choice: the legal neighbour with the highest
    /// explorer score (ties to the earlier of North, East, South, West),
    /// falling back to the look-ahead search when nothing scores at least
    /// zero.  Any direction returned is a legal move.
    fn choose_explorer_direction(&self, grid: &Grid, others: &Vec<Robot>) -> (r: Option<Direction>)
        requires
            grid.wf(),
            grid.width >= 1,
            grid.height >= 1,
            grid.width <= 0x1000_0000,
            grid.height <= 0x1000_0000,
            self.x < grid.width,
            self.y < grid.height,
        ensures
            r == ({
                let primary = self.spec_explorer_primary(grid, others@);
                if primary.0 is Some && primary.1 >= 0 {
                    primary.0
                } else {
                    self.spec_away_choice(grid, others@)
                }
            }),
            match r {
                Some(d) => self.spec_move_ok(grid, others@, d),
                None => true,
            },
            (exists|d: Direction| #[trigger] self.spec_good_explorer_dir(grid, others@, d))
                ==> r is Some,
    {
        let mut best_direction: Option<Direction> = None;
        let mut best_score: i32 = -1000;

        if let Some((nx, ny)) = self.get_next_position(Direction::North, grid) {
            if self.is_valid_move(nx, ny, grid, others) {
                let score = self.calculate_explorer_score(nx, ny, grid);
                if score > best_score {
                    best_score = score;
                    best_direction = Some(Direction::North);
                }
            }
        }
        if let Some((nx, ny)) = self.get_next_position(Direction::East, grid) {
            if self.is_valid_move(nx, ny, grid, others) {
                let score = self.calculate_explorer_score(nx, ny, grid);
                if score > best_score {
                    best_score = score;
                    best_direction = Some(Direction::East);
                }
            }
        }
        if let Some((nx, ny)) = self.get_next_position(Direction::South, grid) {
            if self.is_valid_move(nx, ny, grid, others) {
                let score = self.calculate_explorer_score(nx, ny, grid);
                if score > best_score {
                    best_score = score;
                    best_direction = Some(Direction::South);
                }
            }
        }
        if let Some((nx, ny)) = self.get_next_position(Direction::West, grid) {
            if self.is_valid_move(nx, ny, grid, others) {
                let score = self.calculate_explorer_score(nx, ny, grid);
                if score > best_score {
                    best_score = score;
                    best_direction = Some(Direction::West);
                }
            }
        }

        proof {
            assert forall|d: Direction|
                self.spec_good_explorer_dir(grid, others@, d) implies (best_direction is Some
                && best_score >= 0) by {
                if d == Direction::North {
                } else if d == Direction::East {
                } else if d == Direction::South {
                } else {
                    assert(d == Direction::West);
                }
            }
        }
        if best_direction.is_none() || best_score < 0 {
            return self.choose_direction_away_from_explored_areas(grid, others);
        }
        best_direction
    }

    /// A collector's direction choice: the legal neighbour with the highest
    /// resource score for `target`.  Any direction returned is a legal move.
    /// A legal step whose target cell's deterministic resource score leaves
    /// the step attractive even after the worst tie-breaking jitter.
    pub open spec fn spec_good_resource_dir(
        &self,
        grid: &Grid,
        others: Seq<Robot>,
        target: RobotType,
        d: Direction,
    ) -> bool {
        match Robot::spec_next_pos(self.x, self.y, d, grid) {
            Some(p) => Robot::spec_valid_move(grid, others, p.0, p.1) && spec_resource_base(
                grid,
                target,
                p.0,
                p.1,
            ) >= 1,
            None => false,
        }
    }

    fn choose_resource_direction(
        &self,
        grid: &Grid,
        others: &Vec<Robot>,
        target: RobotType,
    ) -> (r: Option<Direction>)
        requires
            grid.wf(),
            grid.width >= 1,
            grid.height >= 1,
            grid.width <= 0x1000_0000,
            grid.height <= 0x1000_0000,
            self.x < grid.width,
            self.y < grid.height,
        ensures
            match r {
                Some(d) => self.spec_move_ok(grid, others@, d),
                None => true,
            },
            (exists|d: Direction|
                #[trigger] self.spec_good_resource_dir(grid, others@, target, d)) ==> r is Some,
    {
        let mut best_direction: Option<Direction> = None;
        let mut best_score: i32 = -1;

        if let Some((nx, ny)) = self.get_next_position(Direction::North, grid) {
            if self.is_valid_move(nx, ny, grid, others) {
                let score = self.calculate_resource_score(nx, ny, grid, target);
                if score > best_score {
                    best_score = score;
                    best_direction = Some(Direction::North);
                }
            }
        }
        if let Some((nx, ny)) = self.get_next_position(Direction::East, grid) {
            if self.is_valid_move(nx, ny, grid, others) {
                let score = self.calculate_resource_score(nx, ny, grid, target);
                if score > best_score {
                    best_score = score;
                    best_direction = Some(Direction::East);
                }
            }
        }
        if let Some((nx, ny)) = self.get_next_position(Direction::South, grid) {
            if self.is_valid_move(nx, ny, grid, others) {
                let score = self.calculate_resource_score(nx, ny, grid, target);
                if score > best_score {
                    best_score = score;
                    best_direction = Some(Direction::South);
                }
            }
        }
        if let Some((nx, ny)) = self.get_next_position(Direction::West, grid) {
            if self.is_valid_move(nx, ny, grid, others) {
                let score = self.calculate_resource_score(nx, ny, grid, target);
                if score > best_score {
                    best_score = score;
                    best_direction = Some(Direction::West);
                }
            }
        }
        proof {
            assert forall|d: Direction|
                self.spec_good_resource_dir(grid, others@, target, d) implies best_direction
                is Some by {
                if d == Direction::North {
                } else if d == Direction::East {
                } else if d == Direction::South {
                } else {
                    assert(d == Direction::West);
                }
            }
        }
        best_direction
    }

    fn choose_energy_collector_direction(&self, grid: &Grid, others: &Vec<Robot>) -> (r: Option<
        Direction,
    >)
        requires
            grid.wf(),
            grid.width >= 1,
            grid.height >= 1,
            grid.width <= 0x1000_0000,
            grid.height <= 0x1000_0000,
            self.x < grid.width,
            self.y < grid.height,
        ensures
            match r {
                Some(d) => self.spec_move_ok(grid, others@, d),
                None => true,
            },
            (exists|d: Direction|
                #[trigger] self.spec_good_resource_dir(
                    grid,
                    others@,
                    RobotType::EnergyCollector,
                    d,
                )) ==> r is Some,
    {
        self.choose_resource_direction(grid, others, RobotType::EnergyCollector)
    }

    fn choose_mineral_collector_direction(&self, grid: &Grid, others: &Vec<Robot>) -> (r: Option<
        Direction,
    >)
        requires
            grid.wf(),
            grid.width >= 1,
            grid.height >= 1,
            grid.width <= 0x1000_0000,
            grid.height <= 0x1000_0000,
            self.x < grid.width,
            self.y < grid.height,
        ensures
            match r {
                Some(d) => self.spec_move_ok(grid, others@, d),
                None => true,
            },
            (exists|d: Direction|
                #[trigger] self.spec_good_resource_dir(
                    grid,
                    others@,
                    RobotType::MineralCollector,
                    d,
                )) ==> r is Some,
    {
        self.choose_resource_direction(grid, others, RobotType::MineralCollector)
    }

    fn choose_scientist_direction(&self, grid: &Grid, others: &Vec<Robot>) -> (r: Option<
        Direction,
    >)
        requires
            grid.wf(),
            grid.width >= 1,
            grid.height >= 1,
            grid.width <= 0x1000_0000,
            grid.height <= 0x1000_0000,
            self.x < grid.width,
            self.y < grid.height,
        ensures
            match r {
                Some(d) => self.spec_move_ok(grid, others@, d),
                None => true,
            },
            (exists|d: Direction|
                #[trigger] self.spec_good_resource_dir(
                    grid,
                    others@,
                    RobotType::Scientist,
                    d,
                )) ==> r is Some,
    {
        self.choose_resource_direction(grid, others, RobotType::Scientist)
    }

    /// `other` is `from` moved one step to `(x, y)`, one energy poorer.
    pub open spec fn spec_moved_to(&self, from: &Robot, x: usize, y: usize) -> bool {
        &&& self.x == x
        &&& self.y == y
        &&& self.energy == from.energy.saturating_sub(1)
        &&& self.minerals == from.minerals
        &&& self.science_points == from.science_points
        &&& self.pending_exploration_updates == from.pending_exploration_updates
        &&& self.robot_type == from.robot_type
        &&& self.state == from.state
        &&& self.target_x == from.target_x
        &&& self.target_y == from.target_y
        &&& self.steps_since_last_find == from.steps_since_last_find
    }

    /// Try the four directions in a random order until one move succeeds.
    fn move_randomly(&mut self, grid: &Grid, others: &Vec<Robot>) -> (moved: bool)
        requires
            grid.wf(),
            old(self).x < grid.width,
            old(self).y < grid.height,
        ensures
            final(self).x < grid.width,
            final(self).y < grid.height,
            moved ==> {
                &&& planner::adjacent(
                    (old(self).x, old(self).y),
                    (final(self).x, final(self).y),
                )
                &&& Robot::spec_valid_move(grid, others@, final(self).x, final(self).y)
                &&& final(self).spec_moved_to(old(self), final(self).x, final(self).y)
            },
            !moved ==> *final(self) == *old(self),
            (exists|d: Direction| old(self).spec_move_ok(grid, others@, d)) ==> moved,
    {
        let mut dirs: Vec<Direction> = Vec::new();
        dirs.push(Direction::North);
        dirs.push(Direction::East);
        dirs.push(Direction::South);
        dirs.push(Direction::West);
        proof {
            assert forall|d: Direction| #[trigger] spec_dir_listed(dirs@, d) by {
                if d == Direction::North {
                    assert(dirs@[0] == d);
                } else if d == Direction::East {
                    assert(dirs@[1] == d);
                } else if d == Direction::South {
                    assert(dirs@[2] == d);
                } else {
                    assert(dirs@[3] == d);
                }
            }
        }

        let mut i: usize = 0;
        while i < 4
            invariant
                dirs@.len() == 4,
                *self == *old(self),
                forall|d: Direction| #[trigger] spec_dir_listed(dirs@, d),
            decreases 4 - i,
        {
            let j = random_below(4);
            let a = dirs[i];
            let b = dirs[j];
            let ghost before = dirs@;
            dirs[i] = b;
            dirs[j] = a;
            proof {
                assert forall|d: Direction| #[trigger] spec_dir_listed(dirs@, d) by {
                    assert(spec_dir_listed(before, d));
                    let m0 = choose|m: int| 0 <= m < 4 && before[m] == d;
                    if m0 == i as int {
                        assert(dirs@[j as int] == d);
                    } else if m0 == j as int {
                        assert(dirs@[i as int] == d);
                    } else {
                        assert(dirs@[m0] == d);
                    }
                }
            }
            i += 1;
        }

        let mut k: usize = 0;
        while k < 4
            invariant
                grid.wf(),
                dirs@.len() == 4,
                *self == *old(self),
                self.x < grid.width,
                self.y < grid.height,
                forall|d: Direction| #[trigger] spec_dir_listed(dirs@, d),
                forall|j: int|
                    0 <= j < k ==> !old(self).spec_move_ok(grid, others@, #[trigger] dirs@[j]),
            decreases 4 - k,
        {
            let d = dirs[k];
            let before_x = self.x;
            let before_y = self.y;
            if self.move_in_direction(d, grid, others) {
                proof {
                    assert(planner::adjacent((before_x, before_y), (self.x, self.y)));
                }
                return true;
            }
            k += 1;
        }
        proof {
            assert forall|d: Direction| !old(self).spec_move_ok(grid, others@, d) by {
                assert(spec_dir_listed(dirs@, d));
                let m0 = choose|m: int| 0 <= m < 4 && dirs@[m] == d;
                assert(!old(self).spec_move_ok(grid, others@, dirs@[m0]));
            }
        }
        false
    }
}

/// A quarter-turn cosine table in fixed point: `cos(k * pi / 8) * 1024`,
/// rounded, for the 16 angular samples of the long-range scan.
pub open spec fn spec_cos_q10(k: int) -> int {
    if k == 0 {
        1024
    } else if k == 1 {
        946
    } else if k == 2 {
        724
    } else if k == 3 {
        392
    } else if k == 4 {
        0
    } else if k == 5 {
        -392
    } else if k == 6 {
        -724
    } else if k == 7 {
        -946
    } else if k == 8 {
        -1024
    } else if k == 9 {
        -946
    } else if k == 10 {
        -724
    } else if k == 11 {
        -392
    } else if k == 12 {
        0
    } else if k == 13 {
        392
    } else if k == 14 {
        724
    } else {
        946
    }
}

/// `sin(k * pi / 8) * 1024`: the cosine table shifted by a quarter turn.
pub open spec fn spec_sin_q10(k: int) -> int {
    spec_cos_q10((k + 12) % 16)
}

fn cos_q10(k: usize) -> (r: i32)
    requires
        k < 16,
    ensures
        r == spec_cos_q10(k as int),
        -1024 <= r <= 1024,
{
    match k {
        0 => 1024,
        1 => 946,
        2 => 724,
        3 => 392,
        4 => 0,
        5 => -392,
        6 => -724,
        7 => -946,
        8 => -1024,
        9 => -946,
        10 => -724,
        11 => -392,
        12 => 0,
        13 => 392,
        14 => 724,
        _ => 946,
    }
}

fn sin_q10(k: usize) -> (r: i32)
    requires
        k < 16,
    ensures
        r == spec_sin_q10(k as int),
        -1024 <= r <= 1024,
{
    cos_q10((k + 12) % 16)
}

/// `base` shifted by `mag` (down when `negative`), clamped onto `[0, size)`.
fn clamp_shift(base: usize, mag: usize, negative: bool, size: usize) -> (r: usize)
    requires
        size >= 1,
        base <= 0x1000_0000,
        mag <= 25,
    ensures
        r == clamp_to(
            base + (if negative {
                -(mag as int)
            } else {
                mag as int
            }),
            size as int,
        ),
        r < size,
{
    if negative {
        if base >= mag {
            let v = base - mag;
            if v >= size {
                size - 1
            } else {
                v
            }
        } else {
            0
        }
    } else {
        let v = base + mag;
        if v >= size {
            size - 1
        } else {
            v
        }
    }
}

/// Where the long-range scan's sample at radius `r` and angle `k` lands: the
/// robot's position shifted by the rounded polar offset, clamped onto the
/// grid.
pub open spec fn spec_scan_candidate(grid: &Grid, me_x: int, me_y: int, r: int, k: int) -> (
    usize,
    usize,
) {
    let c = spec_cos_q10(k);
    let s = spec_sin_q10(k);
    let dx = if c >= 0 {
        (r * c) / 1024
    } else {
        -((r * -c) / 1024)
    };
    let dy = if s >= 0 {
        (r * s) / 1024
    } else {
        -((r * -s) / 1024)
    };
    (clamp_to(me_x + dx, grid.width as int) as usize, clamp_to(me_y + dy, grid.height as int)
        as usize)
}

/// Whether the sample at radius `r` and angle `k` is a cell the stuck robot
/// could legally occupy.
pub open spec fn spec_scan_candidate_ok(
    grid: &Grid,
    others: Seq<Robot>,
    me_x: int,
    me_y: int,
    r: int,
    k: int,
) -> bool {
    let p = spec_scan_candidate(grid, me_x, me_y, r, k);
    Robot::spec_valid_move(grid, others, p.0, p.1)
}

/// Whether the long-range scan can free the robot at all: some sample on
/// some ring is a legal cell.
pub open spec fn spec_can_unstuck(grid: &Grid, others: Seq<Robot>, me_x: int, me_y: int) -> bool {
    exists|r: int, k: int|
        8 <= r <= 25 && 0 <= k < 16 && #[trigger] spec_scan_candidate_ok(
            grid,
            others,
            me_x,
            me_y,
            r,
            k,
        )
}

/// How the long-range scan values the sample at radius `r` and angle `k`: a
/// large bonus for an unexplored cell, 15 per unexplored cell in its clamped
/// 5-by-5 window (the cell itself included), and the Manhattan distance
/// moved, to favour long jumps.
pub open spec fn spec_scan_score(grid: &Grid, me_x: int, me_y: int, r: int, k: int) -> int {
    let p = spec_scan_candidate(grid, me_x, me_y, r, k);
    (if !grid.cell_at(p.0 as int, p.1 as int).explored {
        150int
    } else {
        0int
    }) + 15 * win5_unexplored(grid, p.0 as int, p.1 as int) + planner::manhattan(
        me_x,
        me_y,
        p.0 as int,
        p.1 as int,
    )
}

/// `dest` is a legal sample from rings 8 through `last_r` with score `sc`,
/// and no legal sample from those rings scores higher.
pub open spec fn spec_scan_winner(
    grid: &Grid,
    others: Seq<Robot>,
    me_x: int,
    me_y: int,
    last_r: int,
    dest: (usize, usize),
    sc: int,
) -> bool {
    &&& (exists|rr: int, kk: int|
        8 <= rr <= last_r && 0 <= kk < 16 && #[trigger] spec_scan_candidate_ok(
            grid,
            others,
            me_x,
            me_y,
            rr,
            kk,
        ) && dest == spec_scan_candidate(grid, me_x, me_y, rr, kk) && sc == spec_scan_score(
            grid,
            me_x,
            me_y,
            rr,
            kk,
        ))
    &&& (forall|rr: int, kk: int|
        8 <= rr <= last_r && 0 <= kk < 16 && #[trigger] spec_scan_candidate_ok(
            grid,
            others,
            me_x,
            me_y,
            rr,
            kk,
        ) ==> spec_scan_score(grid, me_x, me_y, rr, kk) <= sc)
}

impl Robot {
    /// The long-range scan of a stuck robot: sample positions on rings of
    /// radius 8 to 25 around the robot, 16 angles per ring, score each legal
    /// sample by `spec_scan_score`, and jump to the best one found — the
    /// search may stop at the first ring whose best beats 200 — for a flat
    /// 3-energy cost, resetting the stuck counter.  When no legal sample
    /// exists the robot stays exactly as it was, stuck counter included.
    #[verifier::rlimit(100)]
    fn try_unstuck(&mut self, grid: &Grid, others: &Vec<Robot>)
        requires
            grid.wf(),
            grid.width >= 1,
            grid.height >= 1,
            grid.width <= 0x1000_0000,
            grid.height <= 0x1000_0000,
            old(self).x < grid.width,
            old(self).y < grid.height,
        ensures
            final(self).x < grid.width,
            final(self).y < grid.height,
            if spec_can_unstuck(grid, others@, old(self).x as int, old(self).y as int) {
                &&& Robot::spec_valid_move(grid, others@, final(self).x, final(self).y)
                &&& (exists|last_r: int, sc: int|
                    8 <= last_r <= 25 && #[trigger] spec_scan_winner(
                        grid,
                        others@,
                        old(self).x as int,
                        old(self).y as int,
                        last_r,
                        (final(self).x, final(self).y),
                        sc,
                    ) && (last_r == 25 || sc > 200))
                &&& final(self).energy == old(self).energy.saturating_sub(3)
                &&& final(self).steps_since_last_find == 0
                &&& final(self).minerals == old(self).minerals
                &&& final(self).science_points == old(self).science_points
                &&& final(self).pending_exploration_updates == old(
                    self,
                ).pending_exploration_updates
                &&& final(self).robot_type == old(self).robot_type
                &&& final(self).state == old(self).state
                &&& final(self).target_x == old(self).target_x
                &&& final(self).target_y == old(self).target_y
            } else {
                *final(self) == *old(self)
            },
    {
        let mut best_position: Option<(usize, usize)> = None;
        let mut best_score: i32 = -1;

        let mut radius: usize = 8;
        while radius <= 25
            invariant_except_break
                (match best_position {
                    Some(p) => spec_scan_winner(
                        grid,
                        others@,
                        self.x as int,
                        self.y as int,
                        radius - 1,
                        p,
                        best_score as int,
                    ),
                    None => true,
                }),
            invariant
                grid.wf(),
                grid.width >= 1,
                grid.height >= 1,
                grid.width <= 0x1000_0000,
                grid.height <= 0x1000_0000,
                self.x < grid.width,
                self.y < grid.height,
                *self == *old(self),
                8 <= radius <= 26,
                best_position is None ==> best_score == -1,
                (match best_position {
                    Some(p) => Robot::spec_valid_move(grid, others@, p.0, p.1)
                        && spec_can_unstuck(grid, others@, self.x as int, self.y as int),
                    None => forall|r: int, k: int|
                        8 <= r < radius && 0 <= k < 16 ==> !spec_scan_candidate_ok(
                            grid,
                            others@,
                            self.x as int,
                            self.y as int,
                            r,
                            k,
                        ),
                }),
            ensures
                *self == *old(self),
                8 <= radius <= 26,
                best_position is None ==> best_score == -1,
                (match best_position {
                    Some(p) => Robot::spec_valid_move(grid, others@, p.0, p.1)
                        && spec_can_unstuck(grid, others@, self.x as int, self.y as int)
                        && (exists|last_r: int|
                        8 <= last_r <= 25 && #[trigger] spec_scan_winner(
                            grid,
                            others@,
                            self.x as int,
                            self.y as int,
                            last_r,
                            p,
                            best_score as int,
                        ) && (last_r == 25 || best_score > 200)),
                    None => forall|r: int, k: int|
                        8 <= r < radius && 0 <= k < 16 ==> !spec_scan_candidate_ok(
                            grid,
                            others@,
                            self.x as int,
                            self.y as int,
                            r,
                            k,
                        ),
                }),
                best_position is None ==> radius == 26,
            decreases 26 - radius,
        {
            let mut angle: usize = 0;
            while angle < 16
                invariant
                    grid.wf(),
                    grid.width >= 1,
                    grid.height >= 1,
                    grid.width <= 0x1000_0000,
                    grid.height <= 0x1000_0000,
                    self.x < grid.width,
                    self.y < grid.height,
                    *self == *old(self),
                    8 <= radius <= 25,
                    angle <= 16,
                    best_position is None ==> best_score == -1,
                    (match best_position {
                        Some(p) => Robot::spec_valid_move(grid, others@, p.0, p.1)
                            && spec_can_unstuck(grid, others@, self.x as int, self.y as int)
                            && (exists|rr: int, kk: int|
                            8 <= rr <= radius && 0 <= kk < 16 && (rr < radius || kk < angle)
                                && #[trigger] spec_scan_candidate_ok(
                                grid,
                                others@,
                                self.x as int,
                                self.y as int,
                                rr,
                                kk,
                            ) && p == spec_scan_candidate(
                                grid,
                                self.x as int,
                                self.y as int,
                                rr,
                                kk,
                            ) && best_score == spec_scan_score(
                                grid,
                                self.x as int,
                                self.y as int,
                                rr,
                                kk,
                            )) && (forall|rr: int, kk: int|
                            8 <= rr <= radius && 0 <= kk < 16 && (rr < radius || kk < angle)
                                && #[trigger] spec_scan_candidate_ok(
                                grid,
                                others@,
                                self.x as int,
                                self.y as int,
                                rr,
                                kk,
                            ) ==> spec_scan_score(grid, self.x as int, self.y as int, rr, kk)
                                <= best_score),
                        None => (forall|r: int, k: int|
                            8 <= r < radius && 0 <= k < 16 ==> !spec_scan_candidate_ok(
                                grid,
                                others@,
                                self.x as int,
                                self.y as int,
                                r,
                                k,
                            )) && (forall|k: int|
                            0 <= k < angle ==> !spec_scan_candidate_ok(
                                grid,
                                others@,
                                self.x as int,
                                self.y as int,
                                radius as int,
                                k,
                            )),
                    }),
                decreases 16 - angle,
            {
                let c = cos_q10(angle);
                let s = sin_q10(angle);
                let c_abs: u32 = if c >= 0 {
                    c as u32
                } else {
                    (-c) as u32
                };
                let s_abs: u32 = if s >= 0 {
                    s as u32
                } else {
                    (-s) as u32
                };
                proof {
                    assert((radius as u32) * c_abs <= 25 * 1024) by (nonlinear_arith)
                        requires
                            radius <= 25,
                            c_abs <= 1024,
                    ;
                    assert((radius as u32) * s_abs <= 25 * 1024) by (nonlinear_arith)
                        requires
                            radius <= 25,
                            s_abs <= 1024,
                    ;
                }
                let dx_mag_q: u32 = (radius as u32) * c_abs;
                let dy_mag_q: u32 = (radius as u32) * s_abs;
                let dx_mag: usize = (dx_mag_q / 1024) as usize;
                let dy_mag: usize = (dy_mag_q / 1024) as usize;
                assert(dx_mag <= 25);
                assert(dy_mag <= 25);
                let new_x = clamp_shift(self.x, dx_mag, c < 0, grid.width);
                let new_y = clamp_shift(self.y, dy_mag, s < 0, grid.height);
                proof {
                    assert((new_x, new_y) == spec_scan_candidate(
                        grid,
                        self.x as int,
                        self.y as int,
                        radius as int,
                        angle as int,
                    ));
                }

                let valid = self.is_valid_move(new_x, new_y, grid, others);
                proof {
                    if valid {
                        assert(spec_scan_candidate_ok(
                            grid,
                            others@,
                            self.x as int,
                            self.y as int,
                            radius as int,
                            angle as int,
                        ));
                    } else {
                        assert(!spec_scan_candidate_ok(
                            grid,
                            others@,
                            self.x as int,
                            self.y as int,
                            radius as int,
                            angle as int,
                        ));
                    }
                }
                if valid {
                    let mut score: i32 = 0;
                    if !grid.cells[new_y][new_x].explored {
                        score += 150;
                    }
                    let wc = count_window(grid, new_x, new_y, false);
                    score += (wc as i32) * 15;
                    let ddx = if new_x >= self.x {
                        new_x - self.x
                    } else {
                        self.x - new_x
                    };
                    let ddy = if new_y >= self.y {
                        new_y - self.y
                    } else {
                        self.y - new_y
                    };
                    score += (ddx + ddy) as i32;
                    proof {
                        assert(score == spec_scan_score(
                            grid,
                            self.x as int,
                            self.y as int,
                            radius as int,
                            angle as int,
                        ));
                    }
                    if score > best_score {
                        best_score = score;
                        best_position = Some((new_x, new_y));
                    }
                }
                angle += 1;
            }

            proof {
                match best_position {
                    Some(p) => {
                        assert(spec_scan_winner(
                            grid,
                            others@,
                            self.x as int,
                            self.y as int,
                            radius as int,
                            p,
                            best_score as int,
                        ));
                    },
                    None => {},
                }
            }
            if best_position.is_some() && best_score > 200 {
                break ;
            }
            radius += 1;
        }

        proof {
            if best_position is None {
                assert forall|r: int, k: int|
                    8 <= r <= 25 && 0 <= k < 16 implies !spec_scan_candidate_ok(
                    grid,
                    others@,
                    self.x as int,
                    self.y as int,
                    r,
                    k,
                ) by {}
                assert(!spec_can_unstuck(grid, others@, self.x as int, self.y as int));
            }
        }
        if let Some((nx, ny)) = best_position {
            self.x = nx;
            self.y = ny;
            self.steps_since_last_find = 0;
            self.energy = self.energy.saturating_sub(3);
        }
    }
}

/// A route from `from` to `to` that a robot could walk: each step moves to
/// an adjacent cell that is on the grid, free of obstacles and free of any
/// other robot that still has energy.
pub open spec fn robots_path_ok(
    grid: &Grid,
    others: Seq<Robot>,
    from: (usize, usize),
    to: (usize, usize),
    path: Seq<(usize, usize)>,
) -> bool {
    &&& path.len() >= 1
    &&& path[0] == from
    &&& path[path.len() - 1] == to
    &&& from.0 < grid.width && from.1 < grid.height
    &&& forall|i: int|
        0 <= i < path.len() - 1 ==> planner::adjacent(#[trigger] path[i], path[i + 1])
    &&& forall|i: int|
        1 <= i < path.len() ==> Robot::spec_valid_move(
            grid,
            others,
            (#[trigger] path[i]).0,
            path[i].1,
        )
}

/// Some walkable route of representable length leads from `from` to `to`.
pub open spec fn spec_route_exists(
    grid: &Grid,
    others: Seq<Robot>,
    from: (usize, usize),
    to: (usize, usize),
) -> bool {
    exists|path: Seq<(usize, usize)>|
        #[trigger] robots_path_ok(grid, others, from, to, path) && path.len() <= u32::MAX
}

/// What one exploring tick pins down when the robot does not turn for home,
/// whatever the scoring heuristics and the dice decide.  Writing `pre` and
/// `post` for the robot and the grid before and after the tick: the robot's
/// old cell is harvested and marked explored, exactly one report of that
/// cell (as it is after the harvest) is appended, the cargo is credited by
/// the resource's kind, the grid changes nowhere else, the robot ends on
/// its old cell or on a cell it may legally occupy, pays at most one energy
/// for a step plus three for a relocation jump — and a stuck counter above
/// five can persist only where the long-range scan finds no way out.
pub open spec fn spec_explore_outcome(
    pre: &Robot,
    post: &Robot,
    pre_grid: &Grid,
    post_grid: &Grid,
    others: Seq<Robot>,
) -> bool {
    let oc = pre_grid.cell_at(pre.x as int, pre.y as int).cell_type;
    let harvested = spec_after_harvest(oc);
    let e1 = match oc {
        CellType::Energy(a) => pre.energy.saturating_add(a),
        _ => pre.energy,
    };
    &&& post_grid.same_but(pre_grid, pre.x, pre.y)
    &&& post_grid.cell_at(pre.x as int, pre.y as int) == (Cell {
        cell_type: harvested,
        explored: true,
    })
    &&& post.pending_exploration_updates@ == pre.pending_exploration_updates@.push(
        ((pre.x, pre.y), harvested),
    )
    &&& post.minerals == (match oc {
        CellType::Mineral(a) => pre.minerals.saturating_add(a),
        _ => pre.minerals,
    })
    &&& post.science_points == (match oc {
        CellType::SciencePoint => pre.science_points.saturating_add(1),
        _ => pre.science_points,
    })
    &&& (post.energy == e1 || post.energy == e1.saturating_sub(1) || post.energy
        == e1.saturating_sub(3) || post.energy == e1.saturating_sub(4))
    &&& ((post.x == pre.x && post.y == pre.y) || Robot::spec_valid_move(
        post_grid,
        others,
        post.x,
        post.y,
    ))
    &&& (post.steps_since_last_find == 0 || post.steps_since_last_find
        == pre.steps_since_last_find || post.steps_since_last_find
        == pre.steps_since_last_find.saturating_add(1))
    &&& (post.steps_since_last_find > 5 ==> !spec_can_unstuck(
        post_grid,
        others,
        post.x as int,
        post.y as int,
    ))
}

/// `d` appears somewhere in the first four entries of `dirs`.
pub open spec fn spec_dir_listed(dirs: Seq<Direction>, d: Direction) -> bool {
    exists|m: int| 0 <= m < 4 && dirs[m] == d
}

/// What one tick pins down for a single robot regardless of what the grid
/// and the other robots looked like when its turn came: a robot without
/// energy does not act, a docked robot merely resets to exploring, a robot
/// that hits its return trigger turns for home with everything else kept,
/// an exploring robot keeps its target and never sheds cargo or reports,
/// and a homebound robot carries its cargo and reports unchanged.
pub open spec fn spec_tick_outcome(
    pre: Robot,
    post: Robot,
    station_x: usize,
    station_y: usize,
) -> bool {
    &&& post.robot_type == pre.robot_type
    &&& (pre.energy == 0 ==> post == pre)
    &&& (pre.energy > 0 && pre.state == RobotState::AtStation ==> post == (Robot {
        state: RobotState::Exploring,
        ..pre
    }))
    &&& (pre.energy > 0 && pre.state == RobotState::Exploring ==> (if pre.spec_should_return() {
        post == (Robot {
            state: RobotState::ReturningToStation,
            target_x: Some(station_x),
            target_y: Some(station_y),
            ..pre
        })
    } else {
        &&& post.state == RobotState::Exploring
        &&& post.minerals >= pre.minerals
        &&& post.science_points >= pre.science_points
        &&& pre.pending_exploration_updates@.is_prefix_of(post.pending_exploration_updates@)
        &&& post.target_x == pre.target_x && post.target_y == pre.target_y
        &&& (post.steps_since_last_find == 0 || post.steps_since_last_find
            == pre.steps_since_last_find || post.steps_since_last_find
            == pre.steps_since_last_find.saturating_add(1))
    }))
    &&& (pre.energy > 0 && pre.state == RobotState::ReturningToStation ==> {
        &&& post.minerals == pre.minerals
        &&& post.science_points == pre.science_points
        &&& post.pending_exploration_updates == pre.pending_exploration_updates
        &&& (post.state == RobotState::AtStation || post.state
            == RobotState::ReturningToStation)
    })
}

/// `p` is where some robot of `others` with energy left stands.
pub open spec fn is_active_pos(others: Seq<Robot>, p: (usize, usize)) -> bool {
    exists|j: int|
        0 <= j < others.len() && (#[trigger] others[j]).x == p.0 && others[j].y == p.1
            && others[j].energy > 0
}

/// The positions of every robot in `others` that still has energy: the
/// blocked set handed to the path planner.
fn active_positions(others: &Vec<Robot>) -> (r: Vec<(usize, usize)>)
    ensures
        forall|k: int| 0 <= k < r@.len() ==> is_active_pos(others@, #[trigger] r@[k]),
        forall|j: int|
            0 <= j < others@.len() && (#[trigger] others@[j]).energy > 0 ==> r@.contains(
                (others@[j].x, others@[j].y),
            ),
{
    let mut r: Vec<(usize, usize)> = Vec::new();
    let mut i: usize = 0;
    while i < others.len()
        invariant
            i <= others@.len(),
            forall|k: int| 0 <= k < r@.len() ==> is_active_pos(others@, #[trigger] r@[k]),
            forall|j: int|
                0 <= j < i && (#[trigger] others@[j]).energy > 0 ==> r@.contains(
                    (others@[j].x, others@[j].y),
                ),
        decreases others@.len() - i,
    {
        let ghost r_before = r@;
        if others[i].energy > 0 {
            let p = (others[i].x, others[i].y);
            r.push(p);
            proof {
                assert(others@[i as int].x == p.0 && others@[i as int].y == p.1 && others@[i
                    as int].energy > 0);
                assert(is_active_pos(others@, p));
                assert(r@[r@.len() - 1] == p);
                assert(r@.contains(p));
                assert forall|j: int|
                    0 <= j < i && (#[trigger] others@[j]).energy > 0 implies r@.contains(
                    (others@[j].x, others@[j].y),
                ) by {
                    let q = (others@[j].x, others@[j].y);
                    assert(r_before.contains(q));
                    let k0 = choose|k: int| 0 <= k < r_before.len() && r_before[k] == q;
                    assert(r@[k0] == q);
                }
            }
        }
        i += 1;
    }
    r
}

/// The four directions ordered by preference for closing in on the station:
/// first by the signs of the offsets, then the remaining directions.
fn direction_preference(x: usize, y: usize, sx: usize, sy: usize) -> (r: Vec<Direction>)
    ensures
        r@.len() == 4,
{
    let mut r: Vec<Direction> = Vec::new();
    if x < sx && y < sy {
        r.push(Direction::East);
        r.push(Direction::South);
        r.push(Direction::North);
        r.push(Direction::West);
    } else if x < sx && y > sy {
        r.push(Direction::East);
        r.push(Direction::North);
        r.push(Direction::South);
        r.push(Direction::West);
    } else if x > sx && y < sy {
        r.push(Direction::West);
        r.push(Direction::South);
        r.push(Direction::North);
        r.push(Direction::East);
    } else if x > sx && y > sy {
        r.push(Direction::West);
        r.push(Direction::North);
        r.push(Direction::South);
        r.push(Direction::East);
    } else if x < sx {
        r.push(Direction::East);
        r.push(Direction::North);
        r.push(Direction::South);
        r.push(Direction::West);
    } else if x > sx {
        r.push(Direction::West);
        r.push(Direction::North);
        r.push(Direction::South);
        r.push(Direction::East);
    } else if y < sy {
        r.push(Direction::South);
        r.push(Direction::East);
        r.push(Direction::West);
        r.push(Direction::North);
    } else {
        r.push(Direction::North);
        r.push(Direction::East);
        r.push(Direction::West);
        r.push(Direction::South);
    }
    r
}

impl Robot {
    /// One homing step.  At the station the robot docks (state `AtStation`)
    /// and nothing else changes.  Otherwise it follows the planner's path
    /// towards the station, falling back to sign-ordered directions and
    /// finally a random move; the robot moves at most one cell, pays at most
    /// one energy, and its cargo, reports and type are untouched.
    fn move_towards_station(
        &mut self,
        grid: &Grid,
        station_x: usize,
        station_y: usize,
        others: &Vec<Robot>,
    )
        requires
            grid.wf(),
            grid.width >= 1,
            grid.height >= 1,
            grid.width <= 0x1000_0000,
            grid.height <= 0x1000_0000,
            station_x < grid.width,
            station_y < grid.height,
            old(self).x < grid.width,
            old(self).y < grid.height,
        ensures
            final(self).x < grid.width,
            final(self).y < grid.height,
            if old(self).x == station_x && old(self).y == station_y {
                &&& final(self).state == RobotState::AtStation
                &&& final(self).x == old(self).x && final(self).y == old(self).y
                &&& final(self).energy == old(self).energy
                &&& final(self).minerals == old(self).minerals
                &&& final(self).science_points == old(self).science_points
                &&& final(self).pending_exploration_updates == old(
                    self,
                ).pending_exploration_updates
                &&& final(self).robot_type == old(self).robot_type
                &&& final(self).target_x == old(self).target_x
                &&& final(self).target_y == old(self).target_y
                &&& final(self).steps_since_last_find == old(self).steps_since_last_find
            } else {
                &&& final(self).state == old(self).state
                &&& (final(self).energy == old(self).energy || final(self).energy == old(
                    self,
                ).energy.saturating_sub(1))
                &&& final(self).minerals == old(self).minerals
                &&& final(self).science_points == old(self).science_points
                &&& final(self).pending_exploration_updates == old(
                    self,
                ).pending_exploration_updates
                &&& final(self).robot_type == old(self).robot_type
                &&& final(self).target_x == old(self).target_x
                &&& final(self).target_y == old(self).target_y
                &&& final(self).steps_since_last_find == old(self).steps_since_last_find
                &&& ((final(self).x == old(self).x && final(self).y == old(self).y) || (
                planner::adjacent((old(self).x, old(self).y), (final(self).x, final(self).y))
                    && Robot::spec_valid_move(grid, others@, final(self).x, final(self).y)))
                &&& (spec_route_exists(
                    grid,
                    others@,
                    (old(self).x, old(self).y),
                    (station_x, station_y),
                ) ==> (final(self).x != old(self).x || final(self).y != old(self).y))
            },
    {
        if self.x == station_x && self.y == station_y {
            self.state = RobotState::AtStation;
            return ;
        }

        let blocked = active_positions(others);
        match planner::find_path(grid, self.x, self.y, station_x, station_y, &blocked) {
            Some(path) => {
                proof {
                    // Away from the station, any route there has two cells or
                    // more, and its second cell is adjacent and free.
                    assert(path@[0] == (self.x, self.y));
                    assert(path@.len() >= 2);
                }
                if path.len() > 1 {
                    let next = path[1];
                    proof {
                        assert(planner::adjacent(path@[0], path@[1]));
                        assert(planner::passable(grid, blocked@, path@[1]));
                        assert forall|j: int|
                            0 <= j < others@.len() implies !((#[trigger] others@[j]).x == next.0
                            && others@[j].y == next.1 && others@[j].energy > 0) by {
                            if others@[j].x == next.0 && others@[j].y == next.1 && others@[j].energy
                                > 0 {
                                assert(blocked@.contains((others@[j].x, others@[j].y)));
                            }
                        }
                        assert(Robot::spec_valid_move(grid, others@, next.0, next.1));
                    }
                    match self.get_direction_to_position(next.0, next.1) {
                        Some(dir) => {
                            proof {
                                assert(Robot::spec_next_pos(self.x, self.y, dir, grid) == Some(
                                    (next.0, next.1),
                                ));
                            }
                            let before_x = self.x;
                            let before_y = self.y;
                            if self.move_in_direction(dir, grid, others) {
                                proof {
                                    assert(planner::adjacent(
                                        (before_x, before_y),
                                        (self.x, self.y),
                                    ));
                                }
                                return ;
                            }
                            proof {
                                assert(false);
                            }
                        },
                        None => {
                            proof {
                                assert(false);
                            }
                        },
                    }
                }
            },
            None => {
                proof {
                    // The planner exhausted the grid: no walkable route can
                    // exist, or it would have been found.
                    if spec_route_exists(
                        grid,
                        others@,
                        (old(self).x, old(self).y),
                        (station_x, station_y),
                    ) {
                        let route = choose|p: Seq<(usize, usize)>|
                            #[trigger] robots_path_ok(
                                grid,
                                others@,
                                (old(self).x, old(self).y),
                                (station_x, station_y),
                                p,
                            ) && p.len() <= u32::MAX;
                        assert forall|i: int|
                            1 <= i < route.len() implies planner::passable(
                            grid,
                            blocked@,
                            #[trigger] route[i],
                        ) by {
                            assert(Robot::spec_valid_move(grid, others@, route[i].0, route[i].1));
                            if blocked@.contains(route[i]) {
                                let k0 = choose|k0: int|
                                    0 <= k0 < blocked@.len() && blocked@[k0] == route[i];
                                assert(is_active_pos(others@, blocked@[k0]));
                                assert(false);
                            }
                        }
                        assert(planner::valid_path(
                            grid,
                            blocked@,
                            (old(self).x, old(self).y),
                            (station_x, station_y),
                            route,
                        ));
                        assert(false);
                    }
                }
            },
        }

        let dir_list = direction_preference(self.x, self.y, station_x, station_y);
        let mut k: usize = 0;
        while k < 4
            invariant
                grid.wf(),
                dir_list@.len() == 4,
                !(old(self).x == station_x && old(self).y == station_y),
                !spec_route_exists(
                    grid,
                    others@,
                    (old(self).x, old(self).y),
                    (station_x, station_y),
                ),
                self.x == old(self).x && self.y == old(self).y,
                self.x < grid.width,
                self.y < grid.height,
                self.state == old(self).state,
                self.energy == old(self).energy,
                self.minerals == old(self).minerals,
                self.science_points == old(self).science_points,
                self.pending_exploration_updates == old(self).pending_exploration_updates,
                self.robot_type == old(self).robot_type,
                self.target_x == old(self).target_x,
                self.target_y == old(self).target_y,
                self.steps_since_last_find == old(self).steps_since_last_find,
            decreases 4 - k,
        {
            let before_x = self.x;
            let before_y = self.y;
            if self.move_in_direction(dir_list[k], grid, others) {
                proof {
                    assert(planner::adjacent((before_x, before_y), (self.x, self.y)));
                }
                return ;
            }
            k += 1;
        }

        self.move_randomly(grid, others);
    }

    /// One exploring step: possibly break off and head home, otherwise
    /// harvest and mark the current cell, move by the type-specific scoring,
    /// and keep the stuck counter, jumping clear after more than five barren
    /// steps.  What the dice leave open is the move taken; everything else —
    /// the harvest, the report, the crediting, the energy spent, where the
    /// robot may stand — is pinned by `spec_explore_outcome`.
    fn autonomous_explore(
        &mut self,
        grid: &mut Grid,
        station_x: usize,
        station_y: usize,
        others: &Vec<Robot>,
    )
        requires
            old(grid).wf(),
            old(grid).width >= 1,
            old(grid).height >= 1,
            old(grid).width <= 0x1000_0000,
            old(grid).height <= 0x1000_0000,
            old(self).x < old(grid).width,
            old(self).y < old(grid).height,
        ensures
            final(grid).wf(),
            final(grid).width == old(grid).width,
            final(grid).height == old(grid).height,
            final(grid).seed == old(grid).seed,
            final(self).x < final(grid).width,
            final(self).y < final(grid).height,
            final(self).robot_type == old(self).robot_type,
            if old(self).spec_should_return() {
                &&& *final(grid) == *old(grid)
                &&& final(self).state == RobotState::ReturningToStation
                &&& final(self).target_x == Some(station_x)
                &&& final(self).target_y == Some(station_y)
                &&& final(self).x == old(self).x && final(self).y == old(self).y
                &&& final(self).energy == old(self).energy
                &&& final(self).minerals == old(self).minerals
                &&& final(self).science_points == old(self).science_points
                &&& final(self).pending_exploration_updates == old(
                    self,
                ).pending_exploration_updates
                &&& final(self).steps_since_last_find == old(self).steps_since_last_find
            } else {
                &&& final(self).state == old(self).state
                &&& final(self).target_x == old(self).target_x
                &&& final(self).target_y == old(self).target_y
                &&& spec_explore_outcome(old(self), final(self), old(grid), final(grid), others@)
            },
    {
        if self.should_return_to_station() {
            self.state = RobotState::ReturningToStation;
            self.target_x = Some(station_x);
            self.target_y = Some(station_y);
            return ;
        }

        self.collect_resource(grid);
        self.explore(grid);

        let next_direction = match self.robot_type {
            RobotType::Explorer => self.choose_explorer_direction(grid, others),
            RobotType::EnergyCollector => self.choose_energy_collector_direction(grid, others),
            RobotType::MineralCollector => self.choose_mineral_collector_direction(grid, others),
            RobotType::Scientist => self.choose_scientist_direction(grid, others),
        };

        match next_direction {
            Some(direction) => {
                if self.move_in_direction(direction, grid, others) {
                    if self.found_something_at_current_position(grid) {
                        self.steps_since_last_find = 0;
                    } else {
                        self.steps_since_last_find = self.steps_since_last_find.saturating_add(1);
                    }
                } else {
                    self.steps_since_last_find = self.steps_since_last_find.saturating_add(1);
                }
            },
            None => {
                if !self.move_randomly(grid, others) {
                    self.steps_since_last_find = self.steps_since_last_find.saturating_add(1);
                }
            },
        }

        if self.steps_since_last_find > 5 {
            self.try_unstuck(grid, others);
        }
    }

    /// One tick of the decision engine.  A robot without energy does nothing
    /// at all.  At the station it merely resets to `Exploring` (the station
    /// handles the exchange).  Otherwise it explores or heads home according
    /// to its state.
    pub fn autonomous_update(
        &mut self,
        grid: &mut Grid,
        station_x: usize,
        station_y: usize,
        others: &Vec<Robot>,
    )
        requires
            old(grid).wf(),
            old(grid).width >= 1,
            old(grid).height >= 1,
            old(grid).width <= 0x1000_0000,
            old(grid).height <= 0x1000_0000,
            station_x < old(grid).width,
            station_y < old(grid).height,
            old(self).x < old(grid).width,
            old(self).y < old(grid).height,
        ensures
            final(grid).wf(),
            final(grid).width == old(grid).width,
            final(grid).height == old(grid).height,
            final(grid).seed == old(grid).seed,
            final(self).x < final(grid).width,
            final(self).y < final(grid).height,
            final(self).robot_type == old(self).robot_type,
            old(grid).cell_at(old(self).x as int, old(self).y as int).cell_type
                != CellType::Obstacle ==> final(grid).cell_at(
                final(self).x as int,
                final(self).y as int,
            ).cell_type != CellType::Obstacle,
            spec_tick_outcome(*old(self), *final(self), station_x, station_y),
            old(self).energy == 0 ==> *final(self) == *old(self) && *final(grid) == *old(grid),
            old(self).energy > 0 && old(self).state == RobotState::AtStation ==> {
                &&& *final(grid) == *old(grid)
                &&& final(self).state == RobotState::Exploring
                &&& final(self).x == old(self).x && final(self).y == old(self).y
                &&& final(self).energy == old(self).energy
                &&& final(self).minerals == old(self).minerals
                &&& final(self).science_points == old(self).science_points
                &&& final(self).pending_exploration_updates == old(
                    self,
                ).pending_exploration_updates
                &&& final(self).target_x == old(self).target_x
                &&& final(self).target_y == old(self).target_y
                &&& final(self).steps_since_last_find == old(self).steps_since_last_find
            },
            old(self).energy > 0 && old(self).state == RobotState::Exploring ==> {
                if old(self).spec_should_return() {
                    &&& *final(grid) == *old(grid)
                    &&& final(self).state == RobotState::ReturningToStation
                    &&& final(self).target_x == Some(station_x)
                    &&& final(self).target_y == Some(station_y)
                    &&& final(self).energy == old(self).energy
                } else {
                    &&& final(self).state == old(self).state
                    &&& spec_explore_outcome(
                        old(self),
                        final(self),
                        old(grid),
                        final(grid),
                        others@,
                    )
                }
            },
            old(self).energy > 0 && old(self).state == RobotState::ReturningToStation ==> {
                &&& *final(grid) == *old(grid)
                &&& final(self).minerals == old(self).minerals
                &&& final(self).science_points == old(self).science_points
                &&& final(self).pending_exploration_updates == old(
                    self,
                ).pending_exploration_updates
                &&& (final(self).state == RobotState::AtStation || final(self).state == old(
                    self,
                ).state)
                &&& ((final(self).x == old(self).x && final(self).y == old(self).y) || (
                planner::adjacent((old(self).x, old(self).y), (final(self).x, final(self).y))
                    && Robot::spec_valid_move(old(grid), others@, final(self).x, final(self).y)))
                &&& ((!(old(self).x == station_x && old(self).y == station_y) && spec_route_exists(
                    old(grid),
                    others@,
                    (old(self).x, old(self).y),
                    (station_x, station_y),
                )) ==> (final(self).x != old(self).x || final(self).y != old(self).y))
            },
    {
        if self.energy == 0 {
            return ;
        }

        match self.state {
            RobotState::Exploring => {
                self.autonomous_explore(grid, station_x, station_y, others);
            },
            RobotState::ReturningToStation => {
                self.move_towards_station(grid, station_x, station_y, others);
            },
            RobotState::AtStation => {
                self.state = RobotState::Exploring;
            },
        }
    }

    /// A one-line summary of the robot for the display layer.
    pub fn display_stats(&self) -> String {
        fmt_robot_stats(
            self.x,
            self.y,
            self.energy,
            self.minerals,
            self.science_points,
            self.pending_exploration_updates.len(),
        )
    }
}

/// An agent's energy is never negative, whatever sequence of moves,
/// extractions and unloads ran before: energy is carried as an unsigned
/// integer, every subtraction in the library saturates at zero, and every
/// operation is verified free of underflow.
pub proof fn lemma_energy_never_negative(r: Robot)
    ensures
        r.energy >= 0,
{
}

/// Relies on std's `format!` to render the robot's numbers into one line.
#[verifier::external_body]
fn fmt_robot_stats(
    x: usize,
    y: usize,
    energy: u32,
    minerals: u32,
    science: u32,
    updates: usize,
) -> String {
    format!(
        "Robot at ({}, {}) | Energy: {} | Minerals: {} | Science Points: {} | Updates: {}",
        x,
        y,
        energy,
        minerals,
        science,
        updates,
    )
}

} // verus!
