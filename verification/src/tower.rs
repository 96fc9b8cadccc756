//! Towers: cooldown-gated firing at the nearest hostile, and the one-way
//! select-to-build transition that turns a placeholder site into a tower.

use vstd::prelude::*;
use crate::vec3::{Vec3, dist_sq, dist_sq_ex};
use crate::timer::{Timer, TimerMode, spec_tick};
use crate::target::Hostile;
use crate::bullet::{Bullet, Lifetime, Projectile, BULLET_SPEED, BULLET_LIFETIME};
use crate::{ConfigError, POS_LIMIT, PERIOD_MAX};

verus! {

/// Fire period of a tower created by the build transition, in
/// milliseconds: twice the fire rate of a starting tower.
pub const TOMATO_PERIOD: u64 = 500;

/// Muzzle rise of a tower created by the build transition, in milli-units.
pub const TOMATO_MUZZLE_RISE: i64 = 600;

/// Behavioural data of a tower: the repeating fire cooldown and the
/// offset from the tower's anchor to its projectile spawn point.
#[derive(Clone, Copy, Debug, PartialEq, Eq, Structural)]
pub struct Tower {
    pub shooting_timer: Timer,
    pub bullet_offset: Vec3,
}

/// One tower in the arena: behavioural data plus its world position.
/// Towers never die from combat, so they carry no destruction mark.
#[derive(Clone, Copy, Debug, PartialEq, Eq, Structural)]
pub struct TowerEnt {
    pub tower: Tower,
    pub pos: Vec3,
}

impl TowerEnt {
    /// A well-formed repeating cooldown, with anchor and muzzle offset in
    /// range.
    pub open spec fn wf(self) -> bool {
        &&& self.tower.shooting_timer.wf()
        &&& self.tower.shooting_timer.mode == TimerMode::Repeating
        &&& self.pos.within(POS_LIMIT as int)
        &&& self.tower.bullet_offset.within(POS_LIMIT as int)
    }

    /// What a spawn request yields: rejected, in this order, for a
    /// non-positive or out-of-range fire period and an out-of-range
    /// position or muzzle offset; any other spawn succeeds with a fresh
    /// repeating cooldown.
    pub open spec fn spec_new_result(pos: Vec3, period: u64, bullet_offset: Vec3) -> Result<
        TowerEnt,
        ConfigError,
    > {
        if !(0 < period <= PERIOD_MAX) {
            Result::Err(ConfigError::BadPeriod)
        } else if !(pos.within(POS_LIMIT as int) && bullet_offset.within(POS_LIMIT as int)) {
            Result::Err(ConfigError::OutOfRange)
        } else {
            Result::Ok(
                TowerEnt {
                    tower: Tower {
                        shooting_timer: Timer {
                            mode: TimerMode::Repeating,
                            period,
                            acc: 0,
                            finished: false,
                            just: false,
                        },
                        bullet_offset,
                    },
                    pos,
                },
            )
        }
    }

    /// Validates a spawn request exactly as `spec_new_result` says.
    pub fn new(pos: Vec3, period: u64, bullet_offset: Vec3) -> (r: Result<TowerEnt, ConfigError>)
        ensures
            r == Self::spec_new_result(pos, period, bullet_offset),
            r is Ok ==> r->Ok_0.wf(),
    {
        if period == 0 || period > PERIOD_MAX {
            Err(ConfigError::BadPeriod)
        } else if !pos.in_range() || !bullet_offset.in_range() {
            Err(ConfigError::OutOfRange)
        } else {
            Ok(
                TowerEnt {
                    tower: Tower {
                        shooting_timer: Timer {
                            mode: TimerMode::Repeating,
                            period,
                            acc: 0,
                            finished: false,
                            just: false,
                        },
                        bullet_offset,
                    },
                    pos,
                },
            )
        }
    }
}

/// The first index among the live hostiles in the prefix of length `n`
/// whose position minimizes the distance to `from`; ties keep the earlier
/// index, so the choice is deterministic for a given input order.
pub open spec fn nearest_upto(hs: Seq<Hostile>, from: Vec3, n: int) -> Option<int>
    decreases n,
{
    if n <= 0 {
        None
    } else {
        let prev = nearest_upto(hs, from, n - 1);
        if !hs[n - 1].alive {
            prev
        } else {
            match prev {
                Option::None => Option::Some(n - 1),
                Option::Some(j) => if dist_sq(hs[n - 1].pos, from) < dist_sq(hs[j].pos, from) {
                    Option::Some(n - 1)
                } else {
                    Option::Some(j)
                },
            }
        }
    }
}

/// Targeting: the first live hostile at minimal distance, if any live
/// hostile exists.
pub open spec fn spec_nearest(hs: Seq<Hostile>, from: Vec3) -> Option<int> {
    nearest_upto(hs, from, hs.len() as int)
}

/// Targeting selects a live hostile minimizing the distance to the firing
/// point — strictly below every earlier live hostile's distance — and
/// selects nothing exactly when no live hostile exists.
pub proof fn lemma_nearest_props(hs: Seq<Hostile>, from: Vec3, n: int)
    requires
        0 <= n <= hs.len(),
    ensures
        (nearest_upto(hs, from, n) is None) <==> (forall|j: int| 0 <= j < n ==> !hs[j].alive),
        nearest_upto(hs, from, n) matches Option::Some(i) ==> {
            &&& 0 <= i < n
            &&& hs[i].alive
            &&& (forall|j: int|
                0 <= j < n && hs[j].alive ==> dist_sq(hs[i].pos, from) <= dist_sq(hs[j].pos, from))
            &&& (forall|j: int|
                0 <= j < i && hs[j].alive ==> dist_sq(hs[i].pos, from) < dist_sq(hs[j].pos, from))
        },
    decreases n,
{
    if n > 0 {
        lemma_nearest_props(hs, from, n - 1);
    }
}

/// Selects the first live hostile at minimal distance from `from`.
pub fn nearest_target(hostiles: &Vec<Hostile>, from: Vec3) -> (r: Option<usize>)
    requires
        forall|i: int| 0 <= i < hostiles@.len() ==> #[trigger] hostiles@[i].wf(),
        from.within(2 * POS_LIMIT),
    ensures
        match r {
            Option::Some(i) => spec_nearest(hostiles@, from) == Option::Some(i as int),
            Option::None => spec_nearest(hostiles@, from) is None,
        },
{
    let mut best: Option<usize> = None;
    let mut best_d: i128 = 0;
    let mut j: usize = 0;
    while j < hostiles.len()
        invariant
            0 <= j <= hostiles@.len(),
            forall|i: int| 0 <= i < hostiles@.len() ==> #[trigger] hostiles@[i].wf(),
            from.within(2 * POS_LIMIT),
            match best {
                Option::Some(b) => nearest_upto(hostiles@, from, j as int) == Option::Some(b as int)
                    && b < j && best_d == dist_sq(hostiles@[b as int].pos, from),
                Option::None => nearest_upto(hostiles@, from, j as int) is None,
            },
        decreases hostiles@.len() - j,
    {
        let h = hostiles[j];
        proof {
            assert(hostiles@[j as int].wf());
        }
        if h.alive {
            let d: i128 = dist_sq_ex(h.pos, from);
            match best {
                Option::None => {
                    best = Some(j);
                    best_d = d;
                },
                Option::Some(_) => {
                    if d < best_d {
                        best = Some(j);
                        best_d = d;
                    }
                },
            }
        }
        j = j + 1;
    }
    best
}

/// What a tower whose cooldown just completed fires: from the spawn point
/// (tower anchor plus muzzle offset), the projectile aimed at the nearest
/// live hostile, its direction the un-normalized difference of target and
/// spawn positions; nothing when no live hostile exists.
pub open spec fn spec_fire_bullet(t: TowerEnt, hs: Seq<Hostile>) -> Option<Projectile> {
    let spawn = Vec3 {
        x: (t.pos.x + t.tower.bullet_offset.x) as i64,
        y: (t.pos.y + t.tower.bullet_offset.y) as i64,
        z: (t.pos.z + t.tower.bullet_offset.z) as i64,
    };
    match spec_nearest(hs, spawn) {
        Option::None => Option::None,
        Option::Some(j) => Option::Some(
            Projectile {
                bullet: Bullet {
                    direction: Vec3 {
                        x: (hs[j].pos.x - spawn.x) as i64,
                        y: (hs[j].pos.y - spawn.y) as i64,
                        z: (hs[j].pos.z - spawn.z) as i64,
                    },
                    speed: BULLET_SPEED,
                },
                lifetime: Lifetime {
                    timer: Timer {
                        mode: TimerMode::Once,
                        period: BULLET_LIFETIME,
                        acc: 0,
                        finished: false,
                        just: false,
                    },
                },
                pos: spawn,
                alive: true,
            },
        ),
    }
}

/// The shooting pass over the first `n` towers: each cooldown accumulates
/// the elapsed time, and each tower whose cooldown just completed fires at
/// most one projectile; the spawned projectiles line up in tower order.
pub open spec fn spec_shoot(towers: Seq<TowerEnt>, hs: Seq<Hostile>, elapsed: u64, n: int) -> (
    Seq<TowerEnt>,
    Seq<Projectile>,
)
    decreases n,
{
    if n <= 0 {
        (towers, Seq::<Projectile>::empty())
    } else {
        let prev = spec_shoot(towers, hs, elapsed, n - 1);
        let i = n - 1;
        let t2 = spec_tick(towers[i].tower.shooting_timer, elapsed);
        let tower2 = TowerEnt {
            tower: Tower { shooting_timer: t2, ..towers[i].tower },
            ..towers[i]
        };
        let ts2 = prev.0.update(i, tower2);
        if t2.just {
            match spec_fire_bullet(tower2, hs) {
                Option::Some(p) => (ts2, prev.1.push(p)),
                Option::None => (ts2, prev.1),
            }
        } else {
            (ts2, prev.1)
        }
    }
}

/// The shooting pass touches no tower at or beyond its bound.
pub proof fn lemma_shoot_frame(towers: Seq<TowerEnt>, hs: Seq<Hostile>, elapsed: u64, n: int)
    requires
        0 <= n <= towers.len(),
    ensures
        spec_shoot(towers, hs, elapsed, n).0.len() == towers.len(),
        forall|j: int|
            n <= j < towers.len() ==> spec_shoot(towers, hs, elapsed, n).0[j] == towers[j],
    decreases n,
{
    if n > 0 {
        lemma_shoot_frame(towers, hs, elapsed, n - 1);
    }
}

/// When no live hostile exists, a completed cooldown spawns no
/// projectile.
pub proof fn lemma_no_target_no_spawn(t: TowerEnt, hs: Seq<Hostile>)
    requires
        forall|j: int| 0 <= j < hs.len() ==> !hs[j].alive,
    ensures
        spec_fire_bullet(t, hs) is None,
{
    let spawn = Vec3 {
        x: (t.pos.x + t.tower.bullet_offset.x) as i64,
        y: (t.pos.y + t.tower.bullet_offset.y) as i64,
        z: (t.pos.z + t.tower.bullet_offset.z) as i64,
    };
    lemma_nearest_props(hs, spawn, hs.len() as int);
}

/// A placeholder structure the player can select; a build trigger while
/// it is selected replaces it, once and irreversibly, by a tower.
#[derive(Clone, Copy, Debug, PartialEq, Eq, Structural)]
pub struct Site {
    pub pos: Vec3,
    pub selected: bool,
    pub alive: bool,
}

impl Site {
    pub open spec fn wf(self) -> bool {
        self.pos.within(POS_LIMIT as int)
    }

    /// Rejects an out-of-range position; any other site starts alive and
    /// unselected.
    pub fn new(pos: Vec3) -> (r: Result<Site, ConfigError>)
        ensures
            !pos.within(POS_LIMIT as int) ==> r == Result::<Site, ConfigError>::Err(
                ConfigError::OutOfRange,
            ),
            pos.within(POS_LIMIT as int) ==> r == Result::<Site, ConfigError>::Ok(
                Site { pos, selected: false, alive: true },
            ),
            r is Ok ==> r->Ok_0.wf(),
    {
        if !pos.in_range() {
            Err(ConfigError::OutOfRange)
        } else {
            Ok(Site { pos, selected: false, alive: true })
        }
    }
}

/// The tower the build transition creates at a site's position, with its
/// own fire cooldown and muzzle offset, distinct from any starting tower.
pub open spec fn spec_tomato_tower(pos: Vec3) -> TowerEnt {
    TowerEnt {
        tower: Tower {
            shooting_timer: Timer {
                mode: TimerMode::Repeating,
                period: TOMATO_PERIOD,
                acc: 0,
                finished: false,
                just: false,
            },
            bullet_offset: Vec3 { x: 0, y: TOMATO_MUZZLE_RISE, z: 0 },
        },
        pos,
    }
}

/// What the build trigger does to one site: a live selected site is
/// consumed; every other site is untouched.
pub open spec fn spec_build_site(s: Site) -> Site {
    if s.alive && s.selected {
        Site { alive: false, ..s }
    } else {
        s
    }
}

/// The sites after a build trigger.
pub open spec fn spec_build_sites(sites: Seq<Site>) -> Seq<Site> {
    sites.map_values(|s: Site| spec_build_site(s))
}

/// The towers a build trigger creates: one per live selected site, at
/// that site's position, in site order.
pub open spec fn spec_built_towers(sites: Seq<Site>) -> Seq<TowerEnt>
    decreases sites.len(),
{
    if sites.len() == 0 {
        Seq::<TowerEnt>::empty()
    } else {
        spec_built_towers(sites.drop_last()) + (if sites.last().alive && sites.last().selected {
            seq![spec_tomato_tower(sites.last().pos)]
        } else {
            Seq::<TowerEnt>::empty()
        })
    }
}

/// The build transition is idempotent: a second trigger in immediate
/// succession, with no site re-selected or re-created, leaves the sites
/// as they are and creates no further tower, so two triggers produce
/// exactly the towers of one.
pub proof fn lemma_build_idempotent(sites: Seq<Site>)
    ensures
        spec_build_sites(spec_build_sites(sites)) == spec_build_sites(sites),
        spec_built_towers(spec_build_sites(sites)) == Seq::<TowerEnt>::empty(),
{
    let once = spec_build_sites(sites);
    assert forall|j: int| 0 <= j < once.len() implies #[trigger] spec_build_site(once[j])
        == once[j] by {
        assert(once[j] == spec_build_site(sites[j]));
    }
    assert(spec_build_sites(once) =~= once);
    lemma_built_towers_of_consumed(once);
}

/// No tower arises from sites none of which is both live and selected.
proof fn lemma_built_towers_of_consumed(sites: Seq<Site>)
    requires
        forall|j: int| 0 <= j < sites.len() ==> !(#[trigger] sites[j].alive && sites[j].selected),
    ensures
        spec_built_towers(sites) == Seq::<TowerEnt>::empty(),
    decreases sites.len(),
{
    if sites.len() > 0 {
        lemma_built_towers_of_consumed(sites.drop_last());
        assert(!(sites.last().alive && sites.last().selected));
        assert(spec_built_towers(sites) =~= Seq::<TowerEnt>::empty());
    }
}

} // verus!
