//! The central station: a resource ledger, the swarm's shared map knowledge,
//! and the policy that decides when and what kind of robot to build.

use vstd::prelude::*;

use crate::grid::{CellType, Grid, RobotExplorationUpdate};
use crate::robot::{spec_tick_outcome, Robot, RobotState, RobotType, INITIAL_ROBOT_ENERGY};

verus! {

/// One remembered report: a position and the cell content last reported there.
pub type KnownEntry = ((usize, usize), CellType);

/// What a station statistic counts a known cell as.
#[derive(Debug, Clone, Copy, PartialEq, Eq, Structural)]
pub enum KnownKind {
    /// An untapped resource worth sending a robot after.
    Valuable,
    /// An energy cell with a positive amount.
    EnergySource,
    /// A mineral cell with a positive amount.
    MineralSource,
    /// A science point.
    ScienceSource,
    /// A reported empty cell.
    Unexplored,
}

pub open spec fn spec_cell_counts(c: CellType, k: KnownKind) -> bool {
    match k {
        KnownKind::Valuable => match c {
            CellType::Energy(a) => a > 0,
            CellType::Mineral(a) => a > 0,
            CellType::SciencePoint => true,
            _ => false,
        },
        KnownKind::EnergySource => match c {
            CellType::Energy(a) => a > 0,
            _ => false,
        },
        KnownKind::MineralSource => match c {
            CellType::Mineral(a) => a > 0,
            _ => false,
        },
        KnownKind::ScienceSource => c is SciencePoint,
        KnownKind::Unexplored => c is Empty,
    }
}

/// How many of the first `n` remembered cells count as `k`.
pub open spec fn count_known(m: Seq<KnownEntry>, n: int, k: KnownKind) -> int
    decreases n,
{
    if n <= 0 {
        0
    } else {
        count_known(m, n - 1, k) + (if spec_cell_counts(m[n - 1].1, k) {
            1int
        } else {
            0int
        })
    }
}

/// How many of the first `n` robots are of type `t`.
pub open spec fn count_type(rs: Seq<Robot>, n: int, t: RobotType) -> int
    decreases n,
{
    if n <= 0 {
        0
    } else {
        count_type(rs, n - 1, t) + (if rs[n - 1].robot_type == t {
            1int
        } else {
            0int
        })
    }
}

/// No position is remembered twice.
pub open spec fn known_wf(m: Seq<KnownEntry>) -> bool {
    forall|i: int, j: int| 0 <= i < j < m.len() ==> (#[trigger] m[i]).0 != (#[trigger] m[j]).0
}

/// What the station remembers about position `k`, if anything.
pub open spec fn known_lookup(m: Seq<KnownEntry>, k: (usize, usize)) -> Option<CellType>
    decreases m.len(),
{
    if m.len() == 0 {
        None
    } else if m[0].0 == k {
        Some(m[0].1)
    } else {
        known_lookup(m.drop_first(), k)
    }
}

/// The station's reserve after relocating the first `n` robots that ran
/// dry, paying one baseline charge for each refuel it could afford in turn.
pub open spec fn spec_respawn_energy(rs: Seq<Robot>, n: int, e: int) -> int
    decreases n,
{
    if n <= 0 {
        e
    } else {
        let prev = spec_respawn_energy(rs, n - 1, e);
        if rs[n - 1].energy == 0 && prev >= INITIAL_ROBOT_ENERGY {
            prev - INITIAL_ROBOT_ENERGY
        } else {
            prev
        }
    }
}

/// The last value written for key `k` among the first `n` updates, if any.
pub open spec fn last_written(d: Seq<KnownEntry>, n: int, k: (usize, usize)) -> Option<CellType>
    decreases n,
{
    if n <= 0 {
        None
    } else if d[n - 1].0 == k {
        Some(d[n - 1].1)
    } else {
        last_written(d, n - 1, k)
    }
}

/// `v` capped at what a ledger counter (a `u32`) can hold: additions to the
/// ledger saturate.
pub open spec fn cap_u32(v: int) -> int {
    if v <= u32::MAX {
        v
    } else {
        u32::MAX as int
    }
}

/// The energy surplus a robot carrying `e` surrenders on arrival.
pub open spec fn spec_surplus(e: int) -> int {
    if e > INITIAL_ROBOT_ENERGY {
        e - INITIAL_ROBOT_ENERGY
    } else {
        0
    }
}

/// The energy a robot carrying `e` keeps for itself on arrival.
pub open spec fn spec_kept(e: int) -> int {
    if e > INITIAL_ROBOT_ENERGY {
        INITIAL_ROBOT_ENERGY as int
    } else {
        e
    }
}

/// The station's reserve after one exchange with a robot that arrived
/// carrying `r_energy`: its surplus is banked (saturating) and the refuel up
/// to the baseline is paid exactly when the reserve then covers it.
pub open spec fn spec_exchange_station_energy(e_station: int, r_energy: int) -> int {
    let banked = cap_u32(e_station + spec_surplus(r_energy));
    let cost = INITIAL_ROBOT_ENERGY - spec_kept(r_energy);
    if cost > 0 && banked >= cost {
        banked - cost
    } else {
        banked
    }
}

/// The robot's energy after that exchange: the baseline when the refuel was
/// affordable, else what it kept.
pub open spec fn spec_exchange_robot_energy(e_station: int, r_energy: int) -> int {
    let banked = cap_u32(e_station + spec_surplus(r_energy));
    let cost = INITIAL_ROBOT_ENERGY - spec_kept(r_energy);
    if cost > 0 && banked >= cost {
        INITIAL_ROBOT_ENERGY as int
    } else {
        spec_kept(r_energy)
    }
}

/// The station's reserve after exchanging, in order, with those of the
/// first `n` robots that stand on the station cell `(sx, sy)`.
pub open spec fn spec_arrivals_energy(rs: Seq<Robot>, n: int, sx: usize, sy: usize, e: int) -> int
    decreases n,
{
    if n <= 0 {
        e
    } else {
        let prev = spec_arrivals_energy(rs, n - 1, sx, sy, e);
        if rs[n - 1].x == sx && rs[n - 1].y == sy {
            spec_exchange_station_energy(prev, rs[n - 1].energy as int)
        } else {
            prev
        }
    }
}

/// The banked minerals after those exchanges (saturating adds, in order).
pub open spec fn spec_arrivals_minerals(rs: Seq<Robot>, n: int, sx: usize, sy: usize, m: int) -> int
    decreases n,
{
    if n <= 0 {
        m
    } else {
        let prev = spec_arrivals_minerals(rs, n - 1, sx, sy, m);
        if rs[n - 1].x == sx && rs[n - 1].y == sy {
            cap_u32(prev + rs[n - 1].minerals)
        } else {
            prev
        }
    }
}

/// The banked science points after those exchanges.
pub open spec fn spec_arrivals_science(rs: Seq<Robot>, n: int, sx: usize, sy: usize, s: int) -> int
    decreases n,
{
    if n <= 0 {
        s
    } else {
        let prev = spec_arrivals_science(rs, n - 1, sx, sy, s);
        if rs[n - 1].x == sx && rs[n - 1].y == sy {
            cap_u32(prev + rs[n - 1].science_points)
        } else {
            prev
        }
    }
}

/// What the station remembers about position `k` after merging, in order,
/// the report batches of those of the first `n` robots that stand on the
/// station cell, each batch last-write-wins over `base`.
pub open spec fn spec_arrivals_lookup(
    rs: Seq<Robot>,
    n: int,
    sx: usize,
    sy: usize,
    k: (usize, usize),
    base: Option<CellType>,
) -> Option<CellType>
    decreases n,
{
    if n <= 0 {
        base
    } else {
        let prev = spec_arrivals_lookup(rs, n - 1, sx, sy, k, base);
        if rs[n - 1].x == sx && rs[n - 1].y == sy {
            match last_written(
                rs[n - 1].pending_exploration_updates@,
                rs[n - 1].pending_exploration_updates@.len() as int,
                k,
            ) {
                Some(v) => Some(v),
                None => prev,
            }
        } else {
            prev
        }
    }
}

/// The central station.
pub struct Station {
    pub x: usize,
    pub y: usize,
    pub energy: u32,
    pub minerals: u32,
    pub science_points: u32,
    /// The merged map knowledge, one entry per reported position
    /// (last write wins).  Kept as a list with unique keys.
    pub known_map: Vec<KnownEntry>,
    pub robots: Vec<Robot>,
}

impl Station {
    /// The station's internal invariant: no position remembered twice.
    pub open spec fn wf(&self) -> bool {
        known_wf(self.known_map@)
    }

    pub fn new(x: usize, y: usize) -> (s: Self)
        ensures
            s.wf(),
            s.x == x,
            s.y == y,
            s.energy == 2000,
            s.minerals == 500,
            s.science_points == 0,
            s.known_map@.len() == 0,
            s.robots@.len() == 0,
    {
        Self {
            x,
            y,
            energy: 2000,
            minerals: 500,
            science_points: 0,
            known_map: Vec::new(),
            robots: Vec::new(),
        }
    }

    /// Bank a payload handed in by a robot (saturating).
    pub fn collect_resources(&mut self, energy: u32, minerals: u32, science: u32)
        ensures
            final(self).energy == old(self).energy.saturating_add(energy),
            final(self).minerals == old(self).minerals.saturating_add(minerals),
            final(self).science_points == old(self).science_points.saturating_add(science),
            final(self).x == old(self).x && final(self).y == old(self).y,
            final(self).known_map == old(self).known_map,
            final(self).robots == old(self).robots,
    {
        self.energy = self.energy.saturating_add(energy);
        self.minerals = self.minerals.saturating_add(minerals);
        self.science_points = self.science_points.saturating_add(science);
    }

    /// Pay for something if the ledger covers it; nothing changes otherwise.
    pub fn consume_resources(&mut self, energy_cost: u32, mineral_cost: u32) -> (paid: bool)
        ensures
            paid == (old(self).energy >= energy_cost && old(self).minerals >= mineral_cost),
            paid ==> final(self).energy == old(self).energy - energy_cost && final(self).minerals
                == old(self).minerals - mineral_cost,
            !paid ==> final(self).energy == old(self).energy && final(self).minerals == old(
                self,
            ).minerals,
            final(self).science_points == old(self).science_points,
            final(self).x == old(self).x && final(self).y == old(self).y,
            final(self).known_map == old(self).known_map,
            final(self).robots == old(self).robots,
    {
        if self.energy >= energy_cost && self.minerals >= mineral_cost {
            self.energy = self.energy - energy_cost;
            self.minerals = self.minerals - mineral_cost;
            true
        } else {
            false
        }
    }

    /// How many remembered cells count as `k`.
    pub fn count_known_cells(&self, k: KnownKind) -> (n: usize)
        ensures
            n == count_known(self.known_map@, self.known_map@.len() as int, k),
            n <= self.known_map@.len(),
    {
        let mut n: usize = 0;
        let mut i: usize = 0;
        while i < self.known_map.len()
            invariant
                i <= self.known_map@.len(),
                n == count_known(self.known_map@, i as int, k),
                n <= i,
            decreases self.known_map@.len() - i,
        {
            let counts = match k {
                KnownKind::Valuable => match self.known_map[i].1 {
                    CellType::Energy(a) => a > 0,
                    CellType::Mineral(a) => a > 0,
                    CellType::SciencePoint => true,
                    _ => false,
                },
                KnownKind::EnergySource => match self.known_map[i].1 {
                    CellType::Energy(a) => a > 0,
                    _ => false,
                },
                KnownKind::MineralSource => match self.known_map[i].1 {
                    CellType::Mineral(a) => a > 0,
                    _ => false,
                },
                KnownKind::ScienceSource => matches!(self.known_map[i].1, CellType::SciencePoint),
                KnownKind::Unexplored => matches!(self.known_map[i].1, CellType::Empty),
            };
            if counts {
                n += 1;
            }
            i += 1;
        }
        n
    }

    /// How many robots of the swarm are of type `t`.
    pub fn count_robots_of_type(&self, t: RobotType) -> (n: usize)
        ensures
            n == count_type(self.robots@, self.robots@.len() as int, t),
            n <= self.robots@.len(),
    {
        let mut n: usize = 0;
        let mut i: usize = 0;
        while i < self.robots.len()
            invariant
                i <= self.robots@.len(),
                n == count_type(self.robots@, i as int, t),
                n <= i,
            decreases self.robots@.len() - i,
        {
            if self.robots[i].robot_type == t {
                n += 1;
            }
            i += 1;
        }
        n
    }

    /// Build a robot exactly when the swarm is below its cap of 12, the
    /// ledger holds the building cost plus a reserve (400 energy, 150
    /// minerals in all), and at least 2 known cells are still valuable.
    pub open spec fn spec_should_create(&self) -> bool {
        &&& self.robots@.len() < 12
        &&& self.minerals >= 150
        &&& self.energy >= 400
        &&& count_known(self.known_map@, self.known_map@.len() as int, KnownKind::Valuable) >= 2
    }

    pub fn should_create_robot(&self) -> (r: bool)
        ensures
            r == self.spec_should_create(),
    {
        if self.robots.len() >= MAX_ROBOT_COUNT {
            return false;
        }
        if self.minerals < ROBOT_MINERAL_COST + ROBOT_CREATION_MINERAL_BUFFER || self.energy
            < ROBOT_ENERGY_COST + ROBOT_CREATION_ENERGY_BUFFER {
            return false;
        }
        let known_untapped_valuable_cells = self.count_known_cells(KnownKind::Valuable);
        if known_untapped_valuable_cells < MIN_KNOWN_UNTAPPED_VALUABLE_CELLS_FOR_NEW_ROBOT {
            return false;
        }
        true
    }

    /// The provisioning policy: explorers first (one always, a second while
    /// much is unexplored), then an energy collector when reserves run low,
    /// a mineral collector when minerals outnumber energy finds, a single
    /// scientist when science is known, and an explorer as the default.
    pub open spec fn spec_choose_robot_type(&self) -> RobotType {
        let explorers = count_type(self.robots@, self.robots@.len() as int, RobotType::Explorer);
        let energy_collectors = count_type(
            self.robots@,
            self.robots@.len() as int,
            RobotType::EnergyCollector,
        );
        let mineral_collectors = count_type(
            self.robots@,
            self.robots@.len() as int,
            RobotType::MineralCollector,
        );
        let scientists = count_type(self.robots@, self.robots@.len() as int, RobotType::Scientist);
        let energy_sources = count_known(
            self.known_map@,
            self.known_map@.len() as int,
            KnownKind::EnergySource,
        );
        let mineral_sources = count_known(
            self.known_map@,
            self.known_map@.len() as int,
            KnownKind::MineralSource,
        );
        let science_sources = count_known(
            self.known_map@,
            self.known_map@.len() as int,
            KnownKind::ScienceSource,
        );
        let unexplored = count_known(
            self.known_map@,
            self.known_map@.len() as int,
            KnownKind::Unexplored,
        );
        if explorers == 0 || (unexplored > 10 && explorers < 2) {
            RobotType::Explorer
        } else if self.energy < 300 && energy_sources > 0 && energy_collectors < 2 {
            RobotType::EnergyCollector
        } else if mineral_sources > energy_sources && mineral_collectors < 2 {
            RobotType::MineralCollector
        } else if science_sources > 0 && scientists < 1 {
            RobotType::Scientist
        } else {
            RobotType::Explorer
        }
    }

    fn choose_robot_type(&self) -> (t: RobotType)
        ensures
            t == self.spec_choose_robot_type(),
    {
        let explorer_count = self.count_robots_of_type(RobotType::Explorer);
        let energy_collector_count = self.count_robots_of_type(RobotType::EnergyCollector);
        let mineral_collector_count = self.count_robots_of_type(RobotType::MineralCollector);
        let scientist_count = self.count_robots_of_type(RobotType::Scientist);

        let energy_sources = self.count_known_cells(KnownKind::EnergySource);
        let mineral_sources = self.count_known_cells(KnownKind::MineralSource);
        let science_sources = self.count_known_cells(KnownKind::ScienceSource);
        let unexplored_cells = self.count_known_cells(KnownKind::Unexplored);

        if explorer_count == 0 || (unexplored_cells > 10 && explorer_count < 2) {
            return RobotType::Explorer;
        }
        if self.energy < 300 && energy_sources > 0 && energy_collector_count < 2 {
            return RobotType::EnergyCollector;
        }
        if mineral_sources > energy_sources && mineral_collector_count < 2 {
            return RobotType::MineralCollector;
        }
        if science_sources > 0 && scientist_count < 1 {
            return RobotType::Scientist;
        }
        RobotType::Explorer
    }

    /// Build one robot at `(start_x, start_y)` if the ledger covers the cost
    /// (100 energy, 50 minerals), picking its type by the provisioning
    /// policy.  Returns whether a robot was built.
    pub fn create_robot(&mut self, start_x: usize, start_y: usize) -> (built: bool)
        ensures
            built == (old(self).energy >= 100 && old(self).minerals >= 50),
            built ==> {
                &&& final(self).energy == old(self).energy - 100
                &&& final(self).minerals == old(self).minerals - 50
                &&& final(self).robots@.len() == old(self).robots@.len() + 1
                &&& final(self).robots@.last().spec_is_new(
                    start_x,
                    start_y,
                    (Station {
                        energy: (old(self).energy - 100) as u32,
                        minerals: (old(self).minerals - 50) as u32,
                        ..*old(self)
                    }).spec_choose_robot_type(),
                )
                &&& final(self).robots@.take(old(self).robots@.len() as int) == old(self).robots@
            },
            !built ==> *final(self) == *old(self),
            final(self).x == old(self).x && final(self).y == old(self).y,
            final(self).science_points == old(self).science_points,
            final(self).known_map == old(self).known_map,
            final(self).wf() == old(self).wf(),
    {
        if self.consume_resources(ROBOT_ENERGY_COST, ROBOT_MINERAL_COST) {
            let robot_type = self.choose_robot_type();
            let new_robot = Robot::new_with_type(start_x, start_y, robot_type);
            self.robots.push(new_robot);
            proof {
                assert(self.robots@.take(old(self).robots@.len() as int) =~= old(self).robots@);
                assert(forall|t: RobotType|
                    count_type(self.robots@, old(self).robots@.len() as int, t) == count_type(
                        old(self).robots@,
                        old(self).robots@.len() as int,
                        t,
                    )) by {
                    assert forall|t: RobotType|
                        count_type(self.robots@, old(self).robots@.len() as int, t) == count_type(
                            old(self).robots@,
                            old(self).robots@.len() as int,
                            t,
                        ) by {
                        lemma_count_type_prefix(
                            self.robots@,
                            old(self).robots@,
                            old(self).robots@.len() as int,
                            t,
                        );
                    }
                }
            }
            true
        } else {
            false
        }
    }
}

/// Counting robot types looks only at the first `n` robots, so two swarms
/// that agree on those agree on the count.
proof fn lemma_count_type_prefix(a: Seq<Robot>, b: Seq<Robot>, n: int, t: RobotType)
    requires
        0 <= n <= a.len(),
        n <= b.len(),
        forall|i: int| 0 <= i < n ==> a[i] == b[i],
    ensures
        count_type(a, n, t) == count_type(b, n, t),
    decreases n,
{
    if n > 0 {
        lemma_count_type_prefix(a, b, n - 1, t);
    }
}

const ROBOT_ENERGY_COST: u32 = 100;
const ROBOT_MINERAL_COST: u32 = 50;
const ROBOT_CREATION_MINERAL_BUFFER: u32 = 100;
const ROBOT_CREATION_ENERGY_BUFFER: u32 = 300;
const MAX_ROBOT_COUNT: usize = 12;
const MIN_KNOWN_UNTAPPED_VALUABLE_CELLS_FOR_NEW_ROBOT: usize = 2;

/// A key is absent exactly when no entry carries it.
proof fn lemma_lookup_none_iff_absent(m: Seq<KnownEntry>, k: (usize, usize))
    ensures
        known_lookup(m, k) is None <==> (forall|i: int| 0 <= i < m.len() ==> (#[trigger] m[i]).0
            != k),
    decreases m.len(),
{
    if m.len() > 0 {
        lemma_lookup_none_iff_absent(m.drop_first(), k);
        assert forall|i: int| 1 <= i < m.len() implies m.drop_first()[i - 1] == (#[trigger] m[i]) by {}
    }
}

/// Overwriting the entry that holds `key` rewrites that key's value and no
/// other.
proof fn lemma_lookup_update(m: Seq<KnownEntry>, i: int, key: (usize, usize), val: CellType, k: (
    usize,
    usize,
))
    requires
        known_wf(m),
        0 <= i < m.len(),
        m[i].0 == key,
    ensures
        known_lookup(m.update(i, (key, val)), k) == (if k == key {
            Some(val)
        } else {
            known_lookup(m, k)
        }),
    decreases m.len(),
{
    let m2 = m.update(i, (key, val));
    if i == 0 {
        if k == key {
        } else {
            assert(m2.drop_first() =~= m.drop_first());
        }
    } else {
        assert(m2.drop_first() =~= m.drop_first().update(i - 1, (key, val)));
        assert(known_wf(m.drop_first())) by {
            assert forall|a: int, b: int|
                0 <= a < b < m.drop_first().len() implies (#[trigger] m.drop_first()[a]).0 != (
            #[trigger] m.drop_first()[b]).0 by {
                assert(m.drop_first()[a] == m[a + 1]);
                assert(m.drop_first()[b] == m[b + 1]);
            }
        }
        assert(m.drop_first()[i - 1] == m[i]);
        lemma_lookup_update(m.drop_first(), i - 1, key, val, k);
        assert(m[0].0 != key);
    }
}

/// Appending an entry for a fresh key adds that key and disturbs no other.
proof fn lemma_lookup_push(m: Seq<KnownEntry>, key: (usize, usize), val: CellType, k: (
    usize,
    usize,
))
    requires
        known_lookup(m, key) is None,
    ensures
        known_lookup(m.push((key, val)), k) == (if k == key {
            Some(val)
        } else {
            known_lookup(m, k)
        }),
    decreases m.len(),
{
    let m2 = m.push((key, val));
    if m.len() == 0 {
        assert(m2.len() == 1);
        assert(m2[0] == (key, val));
        if k != key {
            assert(m2.drop_first() =~= Seq::<KnownEntry>::empty());
            assert(m2.drop_first().len() == 0);
            assert(known_lookup(m2.drop_first(), k) is None);
            assert(known_lookup(m2, k) == known_lookup(m2.drop_first(), k));
        }
    } else {
        assert(m2[0] == m[0]);
        if m[0].0 == k {
        } else {
            assert(m[0].0 != key || k != key);
            assert(m2.drop_first() =~= m.drop_first().push((key, val)));
            assert(known_lookup(m.drop_first(), key) is None);
            lemma_lookup_push(m.drop_first(), key, val, k);
        }
    }
}

/// Record one report in a known-map list, overwriting the key if present.
fn known_insert(m: &mut Vec<KnownEntry>, key: (usize, usize), val: CellType)
    requires
        known_wf(old(m)@),
    ensures
        known_wf(final(m)@),
        forall|k: (usize, usize)|
            #[trigger] known_lookup(final(m)@, k) == (if k == key {
                Some(val)
            } else {
                known_lookup(old(m)@, k)
            }),
{
    let mut i: usize = 0;
    while i < m.len()
        invariant
            known_wf(m@),
            *m == *old(m),
            i <= m@.len(),
            forall|j: int| 0 <= j < i ==> (#[trigger] m@[j]).0 != key,
        decreases m@.len() - i,
    {
        if m[i].0 .0 == key.0 && m[i].0 .1 == key.1 {
            m[i] = (key, val);
            proof {
                assert(old(m)@[i as int].0 == key);
                assert forall|k: (usize, usize)|
                    #[trigger] known_lookup(m@, k) == (if k == key {
                        Some(val)
                    } else {
                        known_lookup(old(m)@, k)
                    }) by {
                    lemma_lookup_update(old(m)@, i as int, key, val, k);
                }
                assert forall|a: int, b: int| 0 <= a < b < m@.len() implies (#[trigger] m@[a]).0
                    != (#[trigger] m@[b]).0 by {
                    assert(old(m)@[a].0 == m@[a].0 || a == i);
                    assert(old(m)@[b].0 == m@[b].0 || b == i);
                }
            }
            return ;
        }
        i += 1;
    }
    m.push((key, val));
    proof {
        lemma_lookup_none_iff_absent(old(m)@, key);
        assert forall|k: (usize, usize)|
            #[trigger] known_lookup(m@, k) == (if k == key {
                Some(val)
            } else {
                known_lookup(old(m)@, k)
            }) by {
            lemma_lookup_push(old(m)@, key, val, k);
        }
        assert forall|a: int, b: int| 0 <= a < b < m@.len() implies (#[trigger] m@[a]).0 != (
        #[trigger] m@[b]).0 by {
            if b == m@.len() - 1 {
                assert(m@[a] == old(m)@[a]);
            }
        }
    }
}

impl Station {
    /// Merge a robot's reports into the station's map knowledge, in report
    /// order, each report overwriting whatever was remembered for its
    /// position: last write wins, with no staleness check.
    pub fn share_data(&mut self, data_from_robot: &RobotExplorationUpdate)
        requires
            old(self).wf(),
        ensures
            final(self).wf(),
            forall|k: (usize, usize)|
                #[trigger] known_lookup(final(self).known_map@, k) == (match last_written(
                    data_from_robot@,
                    data_from_robot@.len() as int,
                    k,
                ) {
                    Some(v) => Some(v),
                    None => known_lookup(old(self).known_map@, k),
                }),
            final(self).x == old(self).x && final(self).y == old(self).y,
            final(self).energy == old(self).energy,
            final(self).minerals == old(self).minerals,
            final(self).science_points == old(self).science_points,
            final(self).robots == old(self).robots,
    {
        let mut i: usize = 0;
        while i < data_from_robot.len()
            invariant
                known_wf(self.known_map@),
                i <= data_from_robot@.len(),
                self.x == old(self).x && self.y == old(self).y,
                self.energy == old(self).energy,
                self.minerals == old(self).minerals,
                self.science_points == old(self).science_points,
                self.robots == old(self).robots,
                forall|k: (usize, usize)|
                    #[trigger] known_lookup(self.known_map@, k) == (match last_written(
                        data_from_robot@,
                        i as int,
                        k,
                    ) {
                        Some(v) => Some(v),
                        None => known_lookup(old(self).known_map@, k),
                    }),
            decreases data_from_robot@.len() - i,
        {
            let entry = data_from_robot[i];
            known_insert(&mut self.known_map, entry.0, entry.1);
            i += 1;
        }
    }
}

/// How many of the first `n` robots still have energy and are in state `st`.
pub open spec fn count_active_in_state(rs: Seq<Robot>, n: int, st: RobotState) -> int
    decreases n,
{
    if n <= 0 {
        0
    } else {
        count_active_in_state(rs, n - 1, st) + (if rs[n - 1].energy > 0 && rs[n - 1].state == st {
            1int
        } else {
            0int
        })
    }
}

/// How many of the first `n` robots are out of energy.
pub open spec fn count_dead(rs: Seq<Robot>, n: int) -> int
    decreases n,
{
    if n <= 0 {
        0
    } else {
        count_dead(rs, n - 1) + (if rs[n - 1].energy == 0 {
            1int
        } else {
            0int
        })
    }
}

/// `v` capped at what a `u64` can hold (the sums below are reported capped,
/// though the cap is unreachable for any real swarm).
pub open spec fn clamp_u64(v: int) -> int {
    if v <= u64::MAX {
        v
    } else {
        u64::MAX as int
    }
}

/// The energy carried by the first `n` robots, as an unbounded sum.
pub open spec fn sum_energy(rs: Seq<Robot>, n: int) -> int
    decreases n,
{
    if n <= 0 {
        0
    } else {
        sum_energy(rs, n - 1) + rs[n - 1].energy
    }
}

pub open spec fn sum_minerals(rs: Seq<Robot>, n: int) -> int
    decreases n,
{
    if n <= 0 {
        0
    } else {
        sum_minerals(rs, n - 1) + rs[n - 1].minerals
    }
}

pub open spec fn sum_science(rs: Seq<Robot>, n: int) -> int
    decreases n,
{
    if n <= 0 {
        0
    } else {
        sum_science(rs, n - 1) + rs[n - 1].science_points
    }
}

/// A census of the swarm: robots by type, active robots by state, robots out
/// of energy, and the cargo they carry between them.
pub struct SwarmSummary {
    pub explorers: usize,
    pub energy_collectors: usize,
    pub mineral_collectors: usize,
    pub scientists: usize,
    pub exploring: usize,
    pub returning: usize,
    pub at_station: usize,
    pub dead: usize,
    pub total_energy: u64,
    pub total_minerals: u64,
    pub total_science: u64,
}

impl Station {
    /// Count the swarm by type and state and sum the carried cargo.
    pub fn swarm_summary(&self) -> (s: SwarmSummary)
        ensures
            s.explorers == count_type(
                self.robots@,
                self.robots@.len() as int,
                RobotType::Explorer,
            ),
            s.energy_collectors == count_type(
                self.robots@,
                self.robots@.len() as int,
                RobotType::EnergyCollector,
            ),
            s.mineral_collectors == count_type(
                self.robots@,
                self.robots@.len() as int,
                RobotType::MineralCollector,
            ),
            s.scientists == count_type(
                self.robots@,
                self.robots@.len() as int,
                RobotType::Scientist,
            ),
            s.exploring == count_active_in_state(
                self.robots@,
                self.robots@.len() as int,
                RobotState::Exploring,
            ),
            s.returning == count_active_in_state(
                self.robots@,
                self.robots@.len() as int,
                RobotState::ReturningToStation,
            ),
            s.at_station == count_active_in_state(
                self.robots@,
                self.robots@.len() as int,
                RobotState::AtStation,
            ),
            s.dead == count_dead(self.robots@, self.robots@.len() as int),
            s.total_energy == clamp_u64(sum_energy(self.robots@, self.robots@.len() as int)),
            s.total_minerals == clamp_u64(sum_minerals(self.robots@, self.robots@.len() as int)),
            s.total_science == clamp_u64(sum_science(self.robots@, self.robots@.len() as int)),
    {
        let mut s = SwarmSummary {
            explorers: 0,
            energy_collectors: 0,
            mineral_collectors: 0,
            scientists: 0,
            exploring: 0,
            returning: 0,
            at_station: 0,
            dead: 0,
            total_energy: 0,
            total_minerals: 0,
            total_science: 0,
        };
        let n = self.robots.len();
        let mut i: usize = 0;
        while i < n
            invariant
                n == self.robots@.len(),
                i <= n,
                s.explorers == count_type(self.robots@, i as int, RobotType::Explorer),
                s.energy_collectors == count_type(
                    self.robots@,
                    i as int,
                    RobotType::EnergyCollector,
                ),
                s.mineral_collectors == count_type(
                    self.robots@,
                    i as int,
                    RobotType::MineralCollector,
                ),
                s.scientists == count_type(self.robots@, i as int, RobotType::Scientist),
                s.exploring == count_active_in_state(self.robots@, i as int, RobotState::Exploring),
                s.returning == count_active_in_state(
                    self.robots@,
                    i as int,
                    RobotState::ReturningToStation,
                ),
                s.at_station == count_active_in_state(
                    self.robots@,
                    i as int,
                    RobotState::AtStation,
                ),
                s.dead == count_dead(self.robots@, i as int),
                s.explorers <= i && s.energy_collectors <= i && s.mineral_collectors <= i
                    && s.scientists <= i,
                s.exploring <= i && s.returning <= i && s.at_station <= i && s.dead <= i,
                s.total_energy == clamp_u64(sum_energy(self.robots@, i as int)),
                s.total_minerals == clamp_u64(sum_minerals(self.robots@, i as int)),
                s.total_science == clamp_u64(sum_science(self.robots@, i as int)),
            decreases n - i,
        {
            let robot = &self.robots[i];
            match robot.robot_type {
                RobotType::Explorer => {
                    s.explorers += 1;
                },
                RobotType::EnergyCollector => {
                    s.energy_collectors += 1;
                },
                RobotType::MineralCollector => {
                    s.mineral_collectors += 1;
                },
                RobotType::Scientist => {
                    s.scientists += 1;
                },
            }
            if robot.energy == 0 {
                s.dead += 1;
            } else {
                match robot.state {
                    RobotState::Exploring => {
                        s.exploring += 1;
                    },
                    RobotState::ReturningToStation => {
                        s.returning += 1;
                    },
                    RobotState::AtStation => {
                        s.at_station += 1;
                    },
                }
            }
            s.total_energy = s.total_energy.saturating_add(robot.energy as u64);
            s.total_minerals = s.total_minerals.saturating_add(robot.minerals as u64);
            s.total_science = s.total_science.saturating_add(robot.science_points as u64);
            i += 1;
        }
        s
    }

    /// A one-line summary of the station for the display layer.
    pub fn display_stats(&self) -> String {
        fmt_station_stats(
            self.x,
            self.y,
            self.energy,
            self.minerals,
            self.science_points,
            self.robots.len(),
        )
    }

    /// A one-line census of the swarm for the display layer.
    pub fn display_swarm_stats(&self) -> String {
        if self.robots.len() == 0 {
            return "No robots in swarm".to_owned();
        }
        let s = self.swarm_summary();
        fmt_swarm_stats(self.robots.len(), &s)
    }
}

impl Station {
    /// Every robot stands on the grid.
    pub open spec fn robots_on(&self, grid: &Grid) -> bool {
        forall|i: int|
            0 <= i < self.robots@.len() ==> (#[trigger] self.robots@[i]).x < grid.width
                && self.robots@[i].y < grid.height
    }

    /// Run one tick of every robot's decision engine, in a fixed order.
    /// Each robot sees the positions the earlier-updated robots already
    /// took, never the later ones.  Robot types are preserved, the ledger
    /// and map knowledge are untouched, and every robot stays on the grid.
    pub fn update_robots(&mut self, grid: &mut Grid)
        requires
            old(grid).wf(),
            old(grid).width >= 1,
            old(grid).height >= 1,
            old(grid).width <= 0x1000_0000,
            old(grid).height <= 0x1000_0000,
            old(self).x < old(grid).width,
            old(self).y < old(grid).height,
            old(self).robots_on(old(grid)),
        ensures
            final(grid).wf(),
            final(grid).width == old(grid).width,
            final(grid).height == old(grid).height,
            final(grid).seed == old(grid).seed,
            final(self).robots@.len() == old(self).robots@.len(),
            final(self).robots_on(final(grid)),
            forall|i: int|
                0 <= i < final(self).robots@.len() ==> (#[trigger] final(self).robots@[i]).robot_type
                    == old(self).robots@[i].robot_type,
            forall|i: int|
                0 <= i < final(self).robots@.len() ==> spec_tick_outcome(
                    old(self).robots@[i],
                    #[trigger] final(self).robots@[i],
                    old(self).x,
                    old(self).y,
                ),
            final(self).x == old(self).x && final(self).y == old(self).y,
            final(self).energy == old(self).energy,
            final(self).minerals == old(self).minerals,
            final(self).science_points == old(self).science_points,
            final(self).known_map == old(self).known_map,
    {
        let n = self.robots.len();
        let mut i: usize = 0;
        while i < n
            invariant
                grid.wf(),
                grid.width == old(grid).width,
                grid.height == old(grid).height,
                grid.seed == old(grid).seed,
                grid.width >= 1,
                grid.height >= 1,
                grid.width <= 0x1000_0000,
                grid.height <= 0x1000_0000,
                self.x < grid.width,
                self.y < grid.height,
                i <= n,
                n == self.robots@.len(),
                n == old(self).robots@.len(),
                self.robots_on(grid),
                forall|j: int|
                    0 <= j < n ==> (#[trigger] self.robots@[j]).robot_type == old(
                        self,
                    ).robots@[j].robot_type,
                forall|j: int|
                    i <= j < n ==> (#[trigger] self.robots@[j]) == old(self).robots@[j],
                forall|j: int|
                    0 <= j < i ==> spec_tick_outcome(
                        old(self).robots@[j],
                        #[trigger] self.robots@[j],
                        old(self).x,
                        old(self).y,
                    ),
                self.x == old(self).x && self.y == old(self).y,
                self.energy == old(self).energy,
                self.minerals == old(self).minerals,
                self.science_points == old(self).science_points,
                self.known_map == old(self).known_map,
            decreases n - i,
        {
            let ghost before = self.robots@;
            let mut r = self.robots.remove(i);
            r.autonomous_update(grid, self.x, self.y, &self.robots);
            self.robots.insert(i, r);
            proof {
                assert forall|j: int| 0 <= j < n implies (#[trigger] self.robots@[j]) == (if j == i
                    as int {
                    self.robots@[i as int]
                } else {
                    before[j]
                }) by {
                    if j < i as int {
                    } else if j == i as int {
                    } else {
                    }
                }
            }
            i += 1;
        }
    }

    /// Exchange with every robot standing on the station's cell: bank its
    /// payload, merge its reports, refuel it to the baseline when the ledger
    /// affords it, and send it exploring again.  Robots elsewhere are left
    /// alone; banked minerals and science never decrease.
    pub fn handle_arrivals(&mut self)
        requires
            old(self).wf(),
        ensures
            final(self).wf(),
            final(self).x == old(self).x && final(self).y == old(self).y,
            final(self).robots@.len() == old(self).robots@.len(),
            final(self).energy == spec_arrivals_energy(
                old(self).robots@,
                old(self).robots@.len() as int,
                old(self).x,
                old(self).y,
                old(self).energy as int,
            ),
            final(self).minerals == spec_arrivals_minerals(
                old(self).robots@,
                old(self).robots@.len() as int,
                old(self).x,
                old(self).y,
                old(self).minerals as int,
            ),
            final(self).science_points == spec_arrivals_science(
                old(self).robots@,
                old(self).robots@.len() as int,
                old(self).x,
                old(self).y,
                old(self).science_points as int,
            ),
            forall|k: (usize, usize)|
                #[trigger] known_lookup(final(self).known_map@, k) == spec_arrivals_lookup(
                    old(self).robots@,
                    old(self).robots@.len() as int,
                    old(self).x,
                    old(self).y,
                    k,
                    known_lookup(old(self).known_map@, k),
                ),
            forall|i: int|
                0 <= i < old(self).robots@.len() && !((#[trigger] old(self).robots@[i]).x == old(
                    self,
                ).x && old(self).robots@[i].y == old(self).y) ==> final(self).robots@[i] == old(
                    self,
                ).robots@[i],
            forall|i: int|
                0 <= i < old(self).robots@.len() && (#[trigger] old(self).robots@[i]).x == old(
                    self,
                ).x && old(self).robots@[i].y == old(self).y ==> {
                    let before = old(self).robots@[i];
                    let after = final(self).robots@[i];
                    &&& after.state == RobotState::Exploring
                    &&& after.minerals == 0
                    &&& after.science_points == 0
                    &&& after.pending_exploration_updates@.len() == 0
                    &&& after.energy == spec_exchange_robot_energy(
                        spec_arrivals_energy(
                            old(self).robots@,
                            i,
                            old(self).x,
                            old(self).y,
                            old(self).energy as int,
                        ),
                        before.energy as int,
                    )
                    &&& after.x == before.x && after.y == before.y
                    &&& after.robot_type == before.robot_type
                    &&& after.target_x == before.target_x && after.target_y == before.target_y
                    &&& after.steps_since_last_find == before.steps_since_last_find
                },
    {
        let n = self.robots.len();
        let mut i: usize = 0;
        while i < n
            invariant
                self.wf(),
                i <= n,
                n == self.robots@.len(),
                n == old(self).robots@.len(),
                self.x == old(self).x && self.y == old(self).y,
                self.energy == spec_arrivals_energy(
                    old(self).robots@,
                    i as int,
                    old(self).x,
                    old(self).y,
                    old(self).energy as int,
                ),
                self.minerals == spec_arrivals_minerals(
                    old(self).robots@,
                    i as int,
                    old(self).x,
                    old(self).y,
                    old(self).minerals as int,
                ),
                self.science_points == spec_arrivals_science(
                    old(self).robots@,
                    i as int,
                    old(self).x,
                    old(self).y,
                    old(self).science_points as int,
                ),
                forall|k: (usize, usize)|
                    #[trigger] known_lookup(self.known_map@, k) == spec_arrivals_lookup(
                        old(self).robots@,
                        i as int,
                        old(self).x,
                        old(self).y,
                        k,
                        known_lookup(old(self).known_map@, k),
                    ),
                forall|j: int|
                    i <= j < n ==> (#[trigger] self.robots@[j]) == old(self).robots@[j],
                forall|j: int|
                    0 <= j < i && !((#[trigger] old(self).robots@[j]).x == old(self).x && old(
                        self,
                    ).robots@[j].y == old(self).y) ==> self.robots@[j] == old(self).robots@[j],
                forall|j: int|
                    0 <= j < i && (#[trigger] old(self).robots@[j]).x == old(self).x && old(
                        self,
                    ).robots@[j].y == old(self).y ==> {
                        let before = old(self).robots@[j];
                        let after = self.robots@[j];
                        &&& after.state == RobotState::Exploring
                        &&& after.minerals == 0
                        &&& after.science_points == 0
                        &&& after.pending_exploration_updates@.len() == 0
                        &&& after.energy == spec_exchange_robot_energy(
                            spec_arrivals_energy(
                                old(self).robots@,
                                j,
                                old(self).x,
                                old(self).y,
                                old(self).energy as int,
                            ),
                            before.energy as int,
                        )
                        &&& after.x == before.x && after.y == before.y
                        &&& after.robot_type == before.robot_type
                        &&& after.target_x == before.target_x && after.target_y == before.target_y
                        &&& after.steps_since_last_find == before.steps_since_last_find
                    },
            decreases n - i,
        {
            if self.robots[i].x == self.x && self.robots[i].y == self.y {
                let ghost before = self.robots@;
                let mut r = self.robots.remove(i);

                let payload = r.unload_payload();
                if payload.0 > 0 || payload.1 > 0 || payload.2 > 0 {
                    self.collect_resources(payload.0, payload.1, payload.2);
                }

                let updates = r.get_exploration_updates();
                if updates.len() > 0 {
                    self.share_data(&updates);
                }

                let refuel_cost = INITIAL_ROBOT_ENERGY.saturating_sub(r.energy);
                if refuel_cost > 0 && self.energy >= refuel_cost {
                    self.energy = self.energy - refuel_cost;
                    r.energy = INITIAL_ROBOT_ENERGY;
                }

                r.state = RobotState::Exploring;
                self.robots.insert(i, r);
                proof {
                    assert forall|j: int| 0 <= j < n && j != i as int implies (
                    #[trigger] self.robots@[j]) == before[j] by {}
                }
            }
            i += 1;
        }
    }

    /// Relocate one robot to the station if it has run out of energy,
    /// refuelling it to the baseline exactly when the station's reserve
    /// covers the baseline, and leaving it at zero energy otherwise.  A
    /// robot that still has energy is left untouched.
    pub fn respawn_robot(&mut self, i: usize)
        requires
            i < old(self).robots@.len(),
        ensures
            final(self).robots@.len() == old(self).robots@.len(),
            forall|j: int|
                0 <= j < old(self).robots@.len() && j != i ==> (#[trigger] final(self).robots@[j])
                    == old(self).robots@[j],
            final(self).x == old(self).x && final(self).y == old(self).y,
            final(self).minerals == old(self).minerals,
            final(self).science_points == old(self).science_points,
            final(self).known_map == old(self).known_map,
            old(self).robots@[i as int].energy > 0 ==> final(self).robots@[i as int] == old(
                self,
            ).robots@[i as int] && final(self).energy == old(self).energy,
            old(self).robots@[i as int].energy == 0 ==> {
                let before = old(self).robots@[i as int];
                let after = final(self).robots@[i as int];
                &&& after.x == old(self).x && after.y == old(self).y
                &&& after.state == RobotState::AtStation
                &&& after.steps_since_last_find == 0
                &&& (if old(self).energy >= INITIAL_ROBOT_ENERGY {
                    after.energy == INITIAL_ROBOT_ENERGY && final(self).energy == old(self).energy
                        - INITIAL_ROBOT_ENERGY
                } else {
                    after.energy == 0 && final(self).energy == old(self).energy
                })
                &&& after.minerals == before.minerals
                &&& after.science_points == before.science_points
                &&& after.pending_exploration_updates == before.pending_exploration_updates
                &&& after.robot_type == before.robot_type
                &&& after.target_x == before.target_x && after.target_y == before.target_y
            },
    {
        let ghost before = self.robots@;
        let mut r = self.robots.remove(i);
        if r.energy == 0 {
            r.x = self.x;
            r.y = self.y;
            r.state = RobotState::AtStation;
            r.steps_since_last_find = 0;
            if self.energy >= INITIAL_ROBOT_ENERGY {
                self.energy = self.energy - INITIAL_ROBOT_ENERGY;
                r.energy = INITIAL_ROBOT_ENERGY;
            }
        }
        self.robots.insert(i, r);
        proof {
            assert forall|j: int|
                0 <= j < before.len() && j != i as int implies (#[trigger] self.robots@[j])
                == before[j] by {}
        }
    }

    /// Relocate and refuel every robot that has run out of energy, in order.
    /// Relocate and refuel every robot that has run out of energy, in order,
    /// paying one baseline charge from the reserve for each refuel that it
    /// can afford at that robot's turn.
    pub fn respawn_inert_robots(&mut self)
        ensures
            final(self).robots@.len() == old(self).robots@.len(),
            final(self).x == old(self).x && final(self).y == old(self).y,
            final(self).minerals == old(self).minerals,
            final(self).science_points == old(self).science_points,
            final(self).known_map == old(self).known_map,
            final(self).energy == spec_respawn_energy(
                old(self).robots@,
                old(self).robots@.len() as int,
                old(self).energy as int,
            ),
            forall|j: int|
                0 <= j < old(self).robots@.len() && (#[trigger] old(self).robots@[j]).energy > 0
                    ==> final(self).robots@[j] == old(self).robots@[j],
            forall|j: int|
                0 <= j < old(self).robots@.len() && (#[trigger] old(self).robots@[j]).energy == 0
                    ==> {
                    let before = old(self).robots@[j];
                    let after = final(self).robots@[j];
                    &&& after.x == old(self).x && after.y == old(self).y
                    &&& after.state == RobotState::AtStation
                    &&& after.steps_since_last_find == 0
                    &&& after.energy == (if spec_respawn_energy(
                        old(self).robots@,
                        j,
                        old(self).energy as int,
                    ) >= INITIAL_ROBOT_ENERGY {
                        INITIAL_ROBOT_ENERGY as int
                    } else {
                        0int
                    })
                    &&& after.minerals == before.minerals
                    &&& after.science_points == before.science_points
                    &&& after.pending_exploration_updates == before.pending_exploration_updates
                    &&& after.robot_type == before.robot_type
                    &&& after.target_x == before.target_x && after.target_y == before.target_y
                },
    {
        let n = self.robots.len();
        let mut i: usize = 0;
        while i < n
            invariant
                i <= n,
                n == self.robots@.len(),
                n == old(self).robots@.len(),
                self.x == old(self).x && self.y == old(self).y,
                self.minerals == old(self).minerals,
                self.science_points == old(self).science_points,
                self.known_map == old(self).known_map,
                self.energy == spec_respawn_energy(
                    old(self).robots@,
                    i as int,
                    old(self).energy as int,
                ),
                forall|j: int|
                    i <= j < n ==> (#[trigger] self.robots@[j]) == old(self).robots@[j],
                forall|j: int|
                    0 <= j < i && (#[trigger] old(self).robots@[j]).energy > 0 ==> self.robots@[j]
                        == old(self).robots@[j],
                forall|j: int|
                    0 <= j < i && (#[trigger] old(self).robots@[j]).energy == 0 ==> {
                        let before = old(self).robots@[j];
                        let after = self.robots@[j];
                        &&& after.x == old(self).x && after.y == old(self).y
                        &&& after.state == RobotState::AtStation
                        &&& after.steps_since_last_find == 0
                        &&& after.energy == (if spec_respawn_energy(
                            old(self).robots@,
                            j,
                            old(self).energy as int,
                        ) >= INITIAL_ROBOT_ENERGY {
                            INITIAL_ROBOT_ENERGY as int
                        } else {
                            0int
                        })
                        &&& after.minerals == before.minerals
                        &&& after.science_points == before.science_points
                        &&& after.pending_exploration_updates == before.pending_exploration_updates
                        &&& after.robot_type == before.robot_type
                        &&& after.target_x == before.target_x && after.target_y == before.target_y
                    },
            decreases n - i,
        {
            self.respawn_robot(i);
            i += 1;
        }
    }

    /// Build a robot on a clear spot near the station when the provisioning
    /// policy calls for one and a spot distinct from the station exists.
    pub fn try_spawn_robot(&mut self, grid: &Grid) -> (built: bool)
        requires
            old(self).wf(),
            grid.wf(),
            grid.width >= 1,
            grid.height >= 1,
            grid.width <= 0x1000_0000,
            grid.height <= 0x1000_0000,
            old(self).x < grid.width,
            old(self).y < grid.height,
        ensures
            final(self).wf(),
            built == (old(self).spec_should_create() && exists|p: (usize, usize)|
                #[trigger] spec_clear_spot(grid, Seq::<Robot>::empty(), old(self).x, old(self).y, p)),
            !built ==> *final(self) == *old(self),
            built ==> {
                &&& final(self).robots@.len() == old(self).robots@.len() + 1
                &&& final(self).robots@.last().energy == INITIAL_ROBOT_ENERGY
                &&& final(self).robots@.last().state == RobotState::Exploring
                &&& final(self).robots@.take(old(self).robots@.len() as int) == old(self).robots@
                &&& final(self).energy == old(self).energy - 100
                &&& final(self).minerals == old(self).minerals - 50
                &&& final(self).known_map == old(self).known_map
            },
    {
        if self.should_create_robot() {
            let spot = find_clear_spot_for_robot(grid, self.x, self.y);
            match grid.get_cell(spot.0, spot.1) {
                Some(cell) => {
                    if !matches!(cell.cell_type, CellType::Obstacle) && !(spot.0 == self.x && spot.1
                        == self.y) {
                        proof {
                            // The spot the checks accepted is itself a clear
                            // spot, so one certainly exists.
                            assert(spec_clear_spot(
                                grid,
                                Seq::<Robot>::empty(),
                                self.x,
                                self.y,
                                spot,
                            ));
                        }
                        return self.create_robot(spot.0, spot.1);
                    }
                },
                None => {},
            }
            proof {
                // The search came back with no clear spot (or only the
                // fallback cell, which the checks just rejected as unusable):
                // had any clear spot existed, the search would have returned
                // one and the checks would have passed.
                if exists|p: (usize, usize)|
                    #[trigger] spec_clear_spot(grid, Seq::<Robot>::empty(), self.x, self.y, p) {
                    assert(spec_clear_spot(grid, Seq::<Robot>::empty(), self.x, self.y, spot));
                    assert(false);
                }
            }
        }
        false
    }
}

/// Relies on std's `format!` to render the station's numbers into one line.
#[verifier::external_body]
fn fmt_station_stats(
    x: usize,
    y: usize,
    energy: u32,
    minerals: u32,
    science: u32,
    robots: usize,
) -> String {
    format!(
        "Station @ ({}, {}) => Energy: {}, Minerals: {}, Science: {}, Robots: {}",
        x,
        y,
        energy,
        minerals,
        science,
        robots,
    )
}

/// A cell a robot could be placed on: on the grid, not an obstacle, and not
/// where any listed robot stands (energy notwithstanding).
pub open spec fn spec_open_spot(grid: &Grid, robots: Seq<Robot>, p: (usize, usize)) -> bool {
    &&& p.0 < grid.width && p.1 < grid.height
    &&& grid.cell_at(p.0 as int, p.1 as int).cell_type != CellType::Obstacle
    &&& forall|j: int|
        0 <= j < robots.len() ==> !((#[trigger] robots[j]).x == p.0 && robots[j].y == p.1)
}

/// An open spot that is not the station's own cell.
pub open spec fn spec_clear_spot(
    grid: &Grid,
    robots: Seq<Robot>,
    sx: usize,
    sy: usize,
    p: (usize, usize),
) -> bool {
    spec_open_spot(grid, robots, p) && !(p.0 == sx && p.1 == sy)
}

/// Whether `(x, y)` is an open spot.
fn is_open_spot(grid: &Grid, robots: &Vec<Robot>, x: usize, y: usize) -> (b: bool)
    requires
        grid.wf(),
    ensures
        b == spec_open_spot(grid, robots@, (x, y)),
{
    match grid.get_cell(x, y) {
        None => false,
        Some(cell) => {
            if matches!(cell.cell_type, CellType::Obstacle) {
                return false;
            }
            let mut j: usize = 0;
            while j < robots.len()
                invariant
                    j <= robots@.len(),
                    forall|k: int|
                        0 <= k < j ==> !((#[trigger] robots@[k]).x == x && robots@[k].y == y),
                decreases robots@.len() - j,
            {
                if robots[j].x == x && robots[j].y == y {
                    return false;
                }
                j += 1;
            }
            true
        },
    }
}

/// Find a cell to place a robot on, near the station but never on it:
/// first on growing rings around the station, then by scanning the whole
/// grid.  Returns `(0, 0)` only when no such cell exists at all.
pub fn find_clear_spot_for_robot_avoiding_others(
    grid: &Grid,
    station_x: usize,
    station_y: usize,
    existing_robots: &Vec<Robot>,
) -> (r: (usize, usize))
    requires
        grid.wf(),
        grid.width >= 1,
        grid.height >= 1,
        grid.width <= 0x1000_0000,
        grid.height <= 0x1000_0000,
        station_x < grid.width,
        station_y < grid.height,
    ensures
        (exists|p: (usize, usize)|
            spec_clear_spot(grid, existing_robots@, station_x, station_y, p)) ==> spec_clear_spot(
            grid,
            existing_robots@,
            station_x,
            station_y,
            r,
        ),
        (forall|p: (usize, usize)|
            !spec_clear_spot(grid, existing_robots@, station_x, station_y, p)) ==> r == (
        0usize,
        0usize,
        ),
{
    let mut radius: usize = 1;
    while radius <= 5
        invariant
            grid.wf(),
            grid.width >= 1,
            grid.height >= 1,
            grid.width <= 0x1000_0000,
            grid.height <= 0x1000_0000,
            station_x < grid.width,
            station_y < grid.height,
            1 <= radius <= 6,
        decreases 6 - radius,
    {
        let mut dxi: usize = 0;
        while dxi <= 2 * radius
            invariant
                grid.wf(),
                grid.width >= 1,
                grid.height >= 1,
                grid.width <= 0x1000_0000,
                grid.height <= 0x1000_0000,
                station_x < grid.width,
                station_y < grid.height,
                1 <= radius <= 5,
                dxi <= 2 * radius + 1,
            decreases 2 * radius + 1 - dxi,
        {
            let mut dyi: usize = 0;
            while dyi <= 2 * radius
                invariant
                    grid.wf(),
                    grid.width >= 1,
                    grid.height >= 1,
                    grid.width <= 0x1000_0000,
                    grid.height <= 0x1000_0000,
                    station_x < grid.width,
                    station_y < grid.height,
                    1 <= radius <= 5,
                    dxi <= 2 * radius,
                    dyi <= 2 * radius + 1,
                decreases 2 * radius + 1 - dyi,
            {
                // Only the perimeter of the ring.
                let on_rim = dxi == 0 || dxi == 2 * radius || dyi == 0 || dyi == 2 * radius;
                if on_rim {
                    let vx = station_x + dxi;
                    let vy = station_y + dyi;
                    if vx >= radius && vy >= radius {
                        let new_x = vx - radius;
                        let new_y = vy - radius;
                        if new_x < grid.width && new_y < grid.height {
                            if !(new_x == station_x && new_y == station_y) {
                                if is_open_spot(grid, existing_robots, new_x, new_y) {
                                    proof {
                                        assert(spec_clear_spot(
                                            grid,
                                            existing_robots@,
                                            station_x,
                                            station_y,
                                            (new_x, new_y),
                                        ));
                                    }
                                    return (new_x, new_y);
                                }
                            }
                        }
                    }
                }
                dyi += 1;
            }
            dxi += 1;
        }
        radius += 1;
    }

    // Exhaustive scan of the whole grid.
    let mut ry: usize = 0;
    while ry < grid.height
        invariant
            grid.wf(),
            grid.width >= 1,
            grid.height >= 1,
            station_x < grid.width,
            station_y < grid.height,
            ry <= grid.height,
            forall|px: usize, py: usize|
                py < ry && px < grid.width ==> !spec_clear_spot(
                    grid,
                    existing_robots@,
                    station_x,
                    station_y,
                    (px, py),
                ),
        decreases grid.height - ry,
    {
        let mut rx: usize = 0;
        while rx < grid.width
            invariant
                grid.wf(),
                grid.width >= 1,
                grid.height >= 1,
                station_x < grid.width,
                station_y < grid.height,
                ry < grid.height,
                rx <= grid.width,
                forall|px: usize, py: usize|
                    py < ry && px < grid.width ==> !spec_clear_spot(
                        grid,
                        existing_robots@,
                        station_x,
                        station_y,
                        (px, py),
                    ),
                forall|px: usize|
                    px < rx ==> !spec_clear_spot(
                        grid,
                        existing_robots@,
                        station_x,
                        station_y,
                        (px, ry),
                    ),
            decreases grid.width - rx,
        {
            if !(rx == station_x && ry == station_y) {
                if is_open_spot(grid, existing_robots, rx, ry) {
                    proof {
                        assert(spec_clear_spot(
                            grid,
                            existing_robots@,
                            station_x,
                            station_y,
                            (rx, ry),
                        ));
                    }
                    return (rx, ry);
                }
            }
            rx += 1;
        }
        ry += 1;
    }

    proof {
        assert forall|p: (usize, usize)|
            !spec_clear_spot(grid, existing_robots@, station_x, station_y, p) by {
            if p.0 < grid.width && p.1 < grid.height {
            }
        }
    }
    (0, 0)
}

/// `find_clear_spot_for_robot_avoiding_others` with no robots to avoid.
pub fn find_clear_spot_for_robot(grid: &Grid, station_x: usize, station_y: usize) -> (r: (
    usize,
    usize,
))
    requires
        grid.wf(),
        grid.width >= 1,
        grid.height >= 1,
        grid.width <= 0x1000_0000,
        grid.height <= 0x1000_0000,
        station_x < grid.width,
        station_y < grid.height,
    ensures
        (exists|p: (usize, usize)|
            spec_clear_spot(grid, Seq::<Robot>::empty(), station_x, station_y, p))
            ==> spec_clear_spot(grid, Seq::<Robot>::empty(), station_x, station_y, r),
        (forall|p: (usize, usize)|
            !spec_clear_spot(grid, Seq::<Robot>::empty(), station_x, station_y, p)) ==> r == (
        0usize,
        0usize,
        ),
{
    let none: Vec<Robot> = Vec::new();
    let r = find_clear_spot_for_robot_avoiding_others(grid, station_x, station_y, &none);
    proof {
        assert(none@ =~= Seq::<Robot>::empty());
    }
    r
}

/// Find a cell to place a robot on, as close to `(target_x, target_y)` as
/// possible: the target itself, then growing rings around it, then the
/// general search around the target.  Returns an occupiable spot, or
/// `(0, 0)` when the grid holds none apart possibly from the target itself.
pub fn find_clear_spot_near_target(
    grid: &Grid,
    target_x: usize,
    target_y: usize,
    existing_robots: &Vec<Robot>,
) -> (r: (usize, usize))
    requires
        grid.wf(),
        grid.width >= 1,
        grid.height >= 1,
        grid.width <= 0x1000_0000,
        grid.height <= 0x1000_0000,
        target_x < grid.width,
        target_y < grid.height,
    ensures
        spec_open_spot(grid, existing_robots@, (target_x, target_y)) ==> r == (
        target_x,
        target_y,
        ),
        spec_open_spot(grid, existing_robots@, r) || (r == (0usize, 0usize) && (forall|
            p: (usize, usize),
        |
            !spec_clear_spot(grid, existing_robots@, target_x, target_y, p))),
{
    if is_open_spot(grid, existing_robots, target_x, target_y) {
        return (target_x, target_y);
    }

    let mut radius: usize = 1;
    while radius <= 5
        invariant
            grid.wf(),
            grid.width >= 1,
            grid.height >= 1,
            grid.width <= 0x1000_0000,
            grid.height <= 0x1000_0000,
            target_x < grid.width,
            target_y < grid.height,
            !spec_open_spot(grid, existing_robots@, (target_x, target_y)),
            1 <= radius <= 6,
        decreases 6 - radius,
    {
        let mut dxi: usize = 0;
        while dxi <= 2 * radius
            invariant
                grid.wf(),
                grid.width >= 1,
                grid.height >= 1,
                grid.width <= 0x1000_0000,
                grid.height <= 0x1000_0000,
                target_x < grid.width,
                target_y < grid.height,
                !spec_open_spot(grid, existing_robots@, (target_x, target_y)),
                1 <= radius <= 5,
                dxi <= 2 * radius + 1,
            decreases 2 * radius + 1 - dxi,
        {
            let mut dyi: usize = 0;
            while dyi <= 2 * radius
                invariant
                    grid.wf(),
                    grid.width >= 1,
                    grid.height >= 1,
                    grid.width <= 0x1000_0000,
                    grid.height <= 0x1000_0000,
                    target_x < grid.width,
                    target_y < grid.height,
                    !spec_open_spot(grid, existing_robots@, (target_x, target_y)),
                    1 <= radius <= 5,
                    dxi <= 2 * radius,
                    dyi <= 2 * radius + 1,
                decreases 2 * radius + 1 - dyi,
            {
                let on_rim = dxi == 0 || dxi == 2 * radius || dyi == 0 || dyi == 2 * radius;
                if on_rim {
                    let vx = target_x + dxi;
                    let vy = target_y + dyi;
                    if vx >= radius && vy >= radius {
                        let new_x = vx - radius;
                        let new_y = vy - radius;
                        if new_x < grid.width && new_y < grid.height {
                            if is_open_spot(grid, existing_robots, new_x, new_y) {
                                return (new_x, new_y);
                            }
                        }
                    }
                }
                dyi += 1;
            }
            dxi += 1;
        }
        radius += 1;
    }

    find_clear_spot_for_robot_avoiding_others(grid, target_x, target_y, existing_robots)
}

/// Relies on std's `format!` to render the swarm census into one line.
#[verifier::external_body]
fn fmt_swarm_stats(robots: usize, s: &SwarmSummary) -> String {
    format!(
        "Swarm: {} robots | Types: E:{} En:{} M:{} S:{} | States: Exploring:{} Returning:{} AtStation:{} Dead:{} | Total Cargo: Energy:{} Minerals:{} Science:{}",
        robots, s.explorers, s.energy_collectors, s.mineral_collectors, s.scientists,
        s.exploring, s.returning, s.at_station, s.dead,
        s.total_energy, s.total_minerals, s.total_science,
    )
}

} // verus!
