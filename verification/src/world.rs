//! The arena: dense per-kind collections of hostiles, towers, projectiles
//! and buildable sites, a staging list for projectiles spawned during a
//! tick, and the per-tick scheduling of movement, firing, projectile
//! motion and expiry, contact resolution and death resolution.

use vstd::prelude::*;
use crate::vec3::{Vec3, vec_add, vec_sub};
use crate::timer::{Timer, TimerMode};
use crate::target::{Hostile, spec_advance_hostile, spec_hit, spec_mark_death};
use crate::bullet::{
    Bullet, Lifetime, Projectile, in_contact, in_contact_ex, spec_move_projectile,
    spec_expire_projectile, BULLET_SPEED, BULLET_LIFETIME,
};
use crate::tower::{
    TowerEnt, Tower, Site, nearest_target, spec_fire_bullet, spec_shoot, spec_build_site,
    spec_build_sites, spec_built_towers, spec_tomato_tower, lemma_shoot_frame,
    lemma_nearest_props, TOMATO_PERIOD, TOMATO_MUZZLE_RISE,
};
use crate::{ConfigError, ELAPSED_MAX, POS_LIMIT};

verus! {

/// The mathematical snapshot of an arena.
#[verifier::ext_equal]
pub ghost struct WorldModel {
    pub hostiles: Seq<Hostile>,
    pub towers: Seq<TowerEnt>,
    pub bullets: Seq<Projectile>,
    pub sites: Seq<Site>,
    pub spawned: Seq<Projectile>,
}

/// The arena. Entities destroyed during a tick are only marked
/// (`alive == false`) and entities fired during a tick only staged in
/// `spawned`; both batches take effect when the tick ends, so no
/// collection changes shape while it is being iterated.
pub struct World {
    pub hostiles: Vec<Hostile>,
    pub towers: Vec<TowerEnt>,
    pub bullets: Vec<Projectile>,
    pub sites: Vec<Site>,
    pub spawned: Vec<Projectile>,
}

impl World {
    pub open spec fn model(self) -> WorldModel {
        WorldModel {
            hostiles: self.hostiles@,
            towers: self.towers@,
            bullets: self.bullets@,
            sites: self.sites@,
            spawned: self.spawned@,
        }
    }

    /// Every record in the arena is well-formed.
    pub open spec fn wf(self) -> bool {
        &&& forall|i: int| 0 <= i < self.hostiles@.len() ==> (#[trigger] self.hostiles@[i]).wf()
        &&& forall|i: int| 0 <= i < self.towers@.len() ==> (#[trigger] self.towers@[i]).wf()
        &&& forall|i: int| 0 <= i < self.bullets@.len() ==> (#[trigger] self.bullets@[i]).wf()
        &&& forall|i: int| 0 <= i < self.sites@.len() ==> (#[trigger] self.sites@[i]).wf()
        &&& forall|i: int| 0 <= i < self.spawned@.len() ==> (#[trigger] self.spawned@[i]).wf()
    }

    /// An empty arena.
    pub fn new() -> (w: World)
        ensures
            w.hostiles@ == Seq::<Hostile>::empty(),
            w.towers@ == Seq::<TowerEnt>::empty(),
            w.bullets@ == Seq::<Projectile>::empty(),
            w.sites@ == Seq::<Site>::empty(),
            w.spawned@ == Seq::<Projectile>::empty(),
            w.wf(),
    {
        World {
            hostiles: Vec::new(),
            towers: Vec::new(),
            bullets: Vec::new(),
            sites: Vec::new(),
            spawned: Vec::new(),
        }
    }

    /// Spawns a hostile, rejecting invalid configurations as
    /// `Hostile::new` does; on rejection the arena is unchanged.
    pub fn spawn_target(&mut self, pos: Vec3, speed: i64, health: i32) -> (r: Result<
        (),
        ConfigError,
    >)
        requires
            old(self).wf(),
        ensures
            match Hostile::spec_new_result(pos, speed, health) {
                Result::Ok(h) => r == Result::<(), ConfigError>::Ok(()) && final(self).hostiles@
                    == old(self).hostiles@.push(h),
                Result::Err(e) => r == Result::<(), ConfigError>::Err(e) && final(self).hostiles@
                    == old(self).hostiles@,
            },
            final(self).towers@ == old(self).towers@,
            final(self).bullets@ == old(self).bullets@,
            final(self).sites@ == old(self).sites@,
            final(self).spawned@ == old(self).spawned@,
            final(self).wf(),
    {
        match Hostile::new(pos, speed, health) {
            Ok(h) => {
                self.hostiles.push(h);
                Ok(())
            },
            Err(e) => Err(e),
        }
    }

    /// Spawns a tower, rejecting invalid configurations as
    /// `TowerEnt::new` does; on rejection the arena is unchanged.
    pub fn spawn_tower(&mut self, pos: Vec3, period: u64, bullet_offset: Vec3) -> (r: Result<
        (),
        ConfigError,
    >)
        requires
            old(self).wf(),
        ensures
            match TowerEnt::spec_new_result(pos, period, bullet_offset) {
                Result::Ok(t) => r == Result::<(), ConfigError>::Ok(()) && final(self).towers@
                    == old(self).towers@.push(t),
                Result::Err(e) => r == Result::<(), ConfigError>::Err(e) && final(self).towers@
                    == old(self).towers@,
            },
            final(self).hostiles@ == old(self).hostiles@,
            final(self).bullets@ == old(self).bullets@,
            final(self).sites@ == old(self).sites@,
            final(self).spawned@ == old(self).spawned@,
            final(self).wf(),
    {
        match TowerEnt::new(pos, period, bullet_offset) {
            Ok(t) => {
                self.towers.push(t);
                Ok(())
            },
            Err(e) => Err(e),
        }
    }

    /// Spawns a projectile directly (as a completed fire sequence would),
    /// rejecting invalid configurations as `Projectile::new` does; on
    /// rejection the arena is unchanged.
    pub fn spawn_projectile(&mut self, pos: Vec3, direction: Vec3, speed: i64, lifetime: u64) -> (r:
        Result<(), ConfigError>)
        requires
            old(self).wf(),
        ensures
            match Projectile::spec_new_result(pos, direction, speed, lifetime) {
                Result::Ok(p) => r == Result::<(), ConfigError>::Ok(()) && final(self).bullets@
                    == old(self).bullets@.push(p),
                Result::Err(e) => r == Result::<(), ConfigError>::Err(e) && final(self).bullets@
                    == old(self).bullets@,
            },
            final(self).hostiles@ == old(self).hostiles@,
            final(self).towers@ == old(self).towers@,
            final(self).sites@ == old(self).sites@,
            final(self).spawned@ == old(self).spawned@,
            final(self).wf(),
    {
        match Projectile::new(pos, direction, speed, lifetime) {
            Ok(p) => {
                self.bullets.push(p);
                Ok(())
            },
            Err(e) => Err(e),
        }
    }

    /// Spawns a buildable site, rejecting an out-of-range position; on
    /// rejection the arena is unchanged.
    pub fn spawn_site(&mut self, pos: Vec3) -> (r: Result<(), ConfigError>)
        requires
            old(self).wf(),
        ensures
            pos.within(POS_LIMIT as int) ==> r == Result::<(), ConfigError>::Ok(())
                && final(self).sites@ == old(self).sites@.push(
                Site { pos, selected: false, alive: true },
            ),
            !pos.within(POS_LIMIT as int) ==> r == Result::<(), ConfigError>::Err(
                ConfigError::OutOfRange,
            ) && final(self).sites@ == old(self).sites@,
            final(self).hostiles@ == old(self).hostiles@,
            final(self).towers@ == old(self).towers@,
            final(self).bullets@ == old(self).bullets@,
            final(self).spawned@ == old(self).spawned@,
            final(self).wf(),
    {
        match Site::new(pos) {
            Ok(s) => {
                self.sites.push(s);
                Ok(())
            },
            Err(e) => Err(e),
        }
    }

    /// Spawns the build variant's tower — its own fire cooldown and
    /// muzzle offset — at a position, as the build transition does;
    /// rejects an out-of-range position, leaving the arena unchanged.
    pub fn spawn_tomato_tower(&mut self, pos: Vec3) -> (r: Result<(), ConfigError>)
        requires
            old(self).wf(),
        ensures
            pos.within(POS_LIMIT as int) ==> r == Result::<(), ConfigError>::Ok(())
                && final(self).towers@ == old(self).towers@.push(spec_tomato_tower(pos)),
            !pos.within(POS_LIMIT as int) ==> r == Result::<(), ConfigError>::Err(
                ConfigError::OutOfRange,
            ) && final(self).towers@ == old(self).towers@,
            final(self).hostiles@ == old(self).hostiles@,
            final(self).bullets@ == old(self).bullets@,
            final(self).sites@ == old(self).sites@,
            final(self).spawned@ == old(self).spawned@,
            final(self).wf(),
    {
        if !pos.in_range() {
            return Err(ConfigError::OutOfRange);
        }
        let t = TowerEnt {
            tower: Tower {
                shooting_timer: Timer {
                    mode: TimerMode::Repeating,
                    period: TOMATO_PERIOD,
                    acc: 0,
                    finished: false,
                    just: false,
                },
                bullet_offset: Vec3 { x: 0, y: TOMATO_MUZZLE_RISE, z: 0 },
            },
            pos,
        };
        proof {
            assert(t == spec_tomato_tower(pos));
        }
        self.towers.push(t);
        Ok(())
    }

    /// Records the externally driven selection state of a site; an index
    /// beyond the sites is a no-op reporting `false`.
    pub fn set_site_selected(&mut self, i: usize, selected: bool) -> (r: bool)
        requires
            old(self).wf(),
        ensures
            i < old(self).sites@.len() ==> r && final(self).sites@ == old(self).sites@.update(
                i as int,
                Site { selected, ..old(self).sites@[i as int] },
            ),
            i >= old(self).sites@.len() ==> !r && final(self).sites@ == old(self).sites@,
            final(self).hostiles@ == old(self).hostiles@,
            final(self).towers@ == old(self).towers@,
            final(self).bullets@ == old(self).bullets@,
            final(self).spawned@ == old(self).spawned@,
            final(self).wf(),
    {
        if i < self.sites.len() {
            let s = self.sites[i];
            self.sites[i] = Site { selected, ..s };
            true
        } else {
            false
        }
    }

    /// Unit movement: every hostile advances along the x axis by its
    /// speed times the elapsed time.
    pub fn move_targets(&mut self, elapsed: u64)
        requires
            old(self).wf(),
            elapsed <= ELAPSED_MAX,
        ensures
            final(self).hostiles@ == spec_move_hostiles(old(self).hostiles@, elapsed),
            final(self).towers@ == old(self).towers@,
            final(self).bullets@ == old(self).bullets@,
            final(self).sites@ == old(self).sites@,
            final(self).spawned@ == old(self).spawned@,
            final(self).wf(),
    {
        let n = self.hostiles.len();
        let mut i: usize = 0;
        while i < n
            invariant
                0 <= i <= n,
                n == self.hostiles@.len(),
                elapsed <= ELAPSED_MAX,
                forall|k: int| i <= k < n ==> self.hostiles@[k] == old(self).hostiles@[k],
                forall|k: int|
                    0 <= k < i ==> self.hostiles@[k] == spec_advance_hostile(
                        old(self).hostiles@[k],
                        elapsed,
                    ),
                forall|k: int| 0 <= k < n ==> (#[trigger] self.hostiles@[k]).wf(),
                old(self).wf(),
                n == old(self).hostiles@.len(),
                self.towers@ == old(self).towers@,
                self.bullets@ == old(self).bullets@,
                self.sites@ == old(self).sites@,
                self.spawned@ == old(self).spawned@,
            decreases n - i,
        {
            let mut h = self.hostiles[i];
            h.advance(elapsed);
            self.hostiles[i] = h;
            i = i + 1;
        }
        proof {
            assert(self.hostiles@ =~= spec_move_hostiles(old(self).hostiles@, elapsed));
        }
    }

    /// Projectile motion: every projectile advances along its fixed
    /// direction by its speed times the elapsed time.
    pub fn move_bullets(&mut self, elapsed: u64)
        requires
            old(self).wf(),
            elapsed <= ELAPSED_MAX,
        ensures
            final(self).bullets@ == spec_move_bullets(old(self).bullets@, elapsed),
            final(self).hostiles@ == old(self).hostiles@,
            final(self).towers@ == old(self).towers@,
            final(self).sites@ == old(self).sites@,
            final(self).spawned@ == old(self).spawned@,
            final(self).wf(),
    {
        let n = self.bullets.len();
        let mut i: usize = 0;
        while i < n
            invariant
                0 <= i <= n,
                n == self.bullets@.len(),
                elapsed <= ELAPSED_MAX,
                forall|k: int| i <= k < n ==> self.bullets@[k] == old(self).bullets@[k],
                forall|k: int|
                    0 <= k < i ==> self.bullets@[k] == spec_move_projectile(
                        old(self).bullets@[k],
                        elapsed,
                    ),
                forall|k: int| 0 <= k < n ==> (#[trigger] self.bullets@[k]).wf(),
                old(self).wf(),
                n == old(self).bullets@.len(),
                self.hostiles@ == old(self).hostiles@,
                self.towers@ == old(self).towers@,
                self.sites@ == old(self).sites@,
                self.spawned@ == old(self).spawned@,
            decreases n - i,
        {
            let mut p = self.bullets[i];
            p.advance(elapsed);
            self.bullets[i] = p;
            i = i + 1;
        }
        proof {
            assert(self.bullets@ =~= spec_move_bullets(old(self).bullets@, elapsed));
        }
    }

    /// Projectile expiry: every projectile's one-shot countdown
    /// accumulates the elapsed time, and a projectile is destroyed on the
    /// countdown's completion edge, unconditionally.
    pub fn bullet_despawn(&mut self, elapsed: u64)
        requires
            old(self).wf(),
            elapsed <= ELAPSED_MAX,
        ensures
            final(self).bullets@ == spec_expire_bullets(old(self).bullets@, elapsed),
            final(self).hostiles@ == old(self).hostiles@,
            final(self).towers@ == old(self).towers@,
            final(self).sites@ == old(self).sites@,
            final(self).spawned@ == old(self).spawned@,
            final(self).wf(),
    {
        let n = self.bullets.len();
        let mut i: usize = 0;
        while i < n
            invariant
                0 <= i <= n,
                n == self.bullets@.len(),
                elapsed <= ELAPSED_MAX,
                forall|k: int| i <= k < n ==> self.bullets@[k] == old(self).bullets@[k],
                forall|k: int|
                    0 <= k < i ==> self.bullets@[k] == spec_expire_projectile(
                        old(self).bullets@[k],
                        elapsed,
                    ),
                forall|k: int| 0 <= k < n ==> (#[trigger] self.bullets@[k]).wf(),
                old(self).wf(),
                n == old(self).bullets@.len(),
                self.hostiles@ == old(self).hostiles@,
                self.towers@ == old(self).towers@,
                self.sites@ == old(self).sites@,
                self.spawned@ == old(self).spawned@,
            decreases n - i,
        {
            let mut p = self.bullets[i];
            p.expire(elapsed);
            self.bullets[i] = p;
            i = i + 1;
        }
        proof {
            assert(self.bullets@ =~= spec_expire_bullets(old(self).bullets@, elapsed));
        }
    }

    /// Firing: every tower's cooldown accumulates the elapsed time, and
    /// each tower whose cooldown just completed fires one projectile from
    /// its spawn point (anchor plus muzzle offset) at the nearest live
    /// hostile — none when no live hostile exists; the cooldown resets
    /// either way. Fired projectiles are staged and join the arena when
    /// the tick's batch is flushed.
    pub fn tower_shooting(&mut self, elapsed: u64)
        requires
            old(self).wf(),
            elapsed <= ELAPSED_MAX,
        ensures
            final(self).towers@ == spec_shoot(
                old(self).towers@,
                old(self).hostiles@,
                elapsed,
                old(self).towers@.len() as int,
            ).0,
            final(self).spawned@ == old(self).spawned@ + spec_shoot(
                old(self).towers@,
                old(self).hostiles@,
                elapsed,
                old(self).towers@.len() as int,
            ).1,
            final(self).hostiles@ == old(self).hostiles@,
            final(self).bullets@ == old(self).bullets@,
            final(self).sites@ == old(self).sites@,
            final(self).wf(),
    {
        let n = self.towers.len();
        let mut i: usize = 0;
        while i < n
            invariant
                0 <= i <= n,
                n == old(self).towers@.len(),
                elapsed <= ELAPSED_MAX,
                old(self).wf(),
                self.towers@ == spec_shoot(
                    old(self).towers@,
                    old(self).hostiles@,
                    elapsed,
                    i as int,
                ).0,
                self.spawned@ == old(self).spawned@ + spec_shoot(
                    old(self).towers@,
                    old(self).hostiles@,
                    elapsed,
                    i as int,
                ).1,
                self.towers@.len() == n,
                forall|k: int| 0 <= k < self.towers@.len() ==> (#[trigger] self.towers@[k]).wf(),
                forall|k: int| 0 <= k < self.spawned@.len() ==> (#[trigger] self.spawned@[k]).wf(),
                self.hostiles@ == old(self).hostiles@,
                self.bullets@ == old(self).bullets@,
                self.sites@ == old(self).sites@,
            decreases n - i,
        {
            proof {
                lemma_shoot_frame(old(self).towers@, old(self).hostiles@, elapsed, i as int);
                assert(self.towers@[i as int] == old(self).towers@[i as int]);
                assert(old(self).towers@[i as int].wf());
            }
            let mut t = self.towers[i];
            t.tower.shooting_timer.tick(elapsed);
            self.towers[i] = t;
            if t.tower.shooting_timer.just_finished() {
                let spawn = vec_add(t.pos, t.tower.bullet_offset);
                match nearest_target(&self.hostiles, spawn) {
                    Option::Some(j) => {
                        proof {
                            lemma_nearest_props(
                                self.hostiles@,
                                spawn,
                                self.hostiles@.len() as int,
                            );
                        }
                        let direction = vec_sub(self.hostiles[j].pos, spawn);
                        let p = Projectile {
                            bullet: Bullet { direction, speed: BULLET_SPEED },
                            lifetime: Lifetime {
                                timer: Timer {
                                    mode: TimerMode::Once,
                                    period: BULLET_LIFETIME,
                                    acc: 0,
                                    finished: false,
                                    just: false,
                                },
                            },
                            pos: spawn,
                            alive: true,
                        };
                        proof {
                            assert(Option::Some(p) == spec_fire_bullet(
                                self.towers@[i as int],
                                self.hostiles@,
                            ));
                        }
                        self.spawned.push(p);
                    },
                    Option::None => {},
                }
            }
            i = i + 1;
            proof {
                assert(self.spawned@ =~= old(self).spawned@ + spec_shoot(
                    old(self).towers@,
                    old(self).hostiles@,
                    elapsed,
                    i as int,
                ).1);
            }
        }
    }

    /// The build transition: on a build trigger, every site that is both
    /// live and selected is consumed — destroyed, once and irreversibly —
    /// and a tower with its own fire cooldown and muzzle offset is created
    /// at the site's position. Sites not selected, and sites already
    /// consumed, are untouched, so a repeated trigger builds nothing more.
    pub fn build_tower(&mut self)
        requires
            old(self).wf(),
        ensures
            final(self).sites@ == spec_build_sites(old(self).sites@),
            final(self).towers@ == old(self).towers@ + spec_built_towers(old(self).sites@),
            final(self).hostiles@ == old(self).hostiles@,
            final(self).bullets@ == old(self).bullets@,
            final(self).spawned@ == old(self).spawned@,
            final(self).wf(),
    {
        let n = self.sites.len();
        let mut i: usize = 0;
        while i < n
            invariant
                0 <= i <= n,
                n == self.sites@.len(),
                n == old(self).sites@.len(),
                old(self).wf(),
                forall|k: int| i <= k < n ==> self.sites@[k] == old(self).sites@[k],
                forall|k: int|
                    0 <= k < i ==> self.sites@[k] == spec_build_site(old(self).sites@[k]),
                self.towers@ == old(self).towers@ + spec_built_towers(
                    old(self).sites@.take(i as int),
                ),
                forall|k: int| 0 <= k < self.sites@.len() ==> (#[trigger] self.sites@[k]).wf(),
                forall|k: int| 0 <= k < self.towers@.len() ==> (#[trigger] self.towers@[k]).wf(),
                self.hostiles@ == old(self).hostiles@,
                self.bullets@ == old(self).bullets@,
                self.spawned@ == old(self).spawned@,
            decreases n - i,
        {
            let s = self.sites[i];
            if s.alive && s.selected {
                self.sites[i] = Site { alive: false, ..s };
                let t = TowerEnt {
                    tower: Tower {
                        shooting_timer: Timer {
                            mode: TimerMode::Repeating,
                            period: TOMATO_PERIOD,
                            acc: 0,
                            finished: false,
                            just: false,
                        },
                        bullet_offset: Vec3 { x: 0, y: TOMATO_MUZZLE_RISE, z: 0 },
                    },
                    pos: s.pos,
                };
                proof {
                    assert(t == spec_tomato_tower(s.pos));
                }
                self.towers.push(t);
            }
            i = i + 1;
            proof {
                assert(old(self).sites@.take(i as int).drop_last() =~= old(self).sites@.take(
                    i as int - 1,
                ));
                assert(self.towers@ =~= old(self).towers@ + spec_built_towers(
                    old(self).sites@.take(i as int),
                ));
            }
        }
        proof {
            assert(old(self).sites@.take(n as int) =~= old(self).sites@);
            assert(self.sites@ =~= spec_build_sites(old(self).sites@));
        }
    }

    /// Contact resolution: for every live projectile, in order, the first
    /// live hostile within the contact radius — if any — loses one health
    /// point and the projectile is destroyed, so one projectile damages at
    /// most one hostile.
    pub fn bullet_collision(&mut self)
        requires
            old(self).wf(),
        ensures
            final(self).bullets@ == collide_upto(
                old(self).bullets@,
                old(self).hostiles@,
                old(self).bullets@.len() as int,
            ).0,
            final(self).hostiles@ == collide_upto(
                old(self).bullets@,
                old(self).hostiles@,
                old(self).bullets@.len() as int,
            ).1,
            final(self).towers@ == old(self).towers@,
            final(self).sites@ == old(self).sites@,
            final(self).spawned@ == old(self).spawned@,
            final(self).wf(),
    {
        let nb = self.bullets.len();
        let mut i: usize = 0;
        while i < nb
            invariant
                0 <= i <= nb,
                nb == old(self).bullets@.len(),
                old(self).wf(),
                self.bullets@ == collide_upto(old(self).bullets@, old(self).hostiles@, i as int).0,
                self.hostiles@ == collide_upto(old(self).bullets@, old(self).hostiles@, i as int).1,
                self.bullets@.len() == nb,
                self.hostiles@.len() == old(self).hostiles@.len(),
                forall|k: int| 0 <= k < self.bullets@.len() ==> (#[trigger] self.bullets@[k]).wf(),
                forall|k: int|
                    0 <= k < self.hostiles@.len() ==> (#[trigger] self.hostiles@[k]).wf(),
                self.towers@ == old(self).towers@,
                self.sites@ == old(self).sites@,
                self.spawned@ == old(self).spawned@,
            decreases nb - i,
        {
            let p = self.bullets[i];
            proof {
                assert(self.bullets@[i as int].wf());
            }
            if p.alive {
                let hit = first_contact_ex(&p, &self.hostiles);
                match hit {
                    Option::Some(j) => {
                        proof {
                            lemma_first_contact_props(p, self.hostiles@, 0);
                        }
                        self.bullets[i] = Projectile { alive: false, ..p };
                        let mut h = self.hostiles[j];
                        if h.health.value > i32::MIN {
                            h.health.value = h.health.value - 1;
                        }
                        proof {
                            assert(h == spec_hit(self.hostiles@[j as int]));
                        }
                        self.hostiles[j] = h;
                    },
                    Option::None => {},
                }
            }
            i = i + 1;
            proof {
                lemma_collide_frame(old(self).bullets@, old(self).hostiles@, i as int);
            }
        }
    }

    /// Death resolution: every hostile whose health is no longer positive
    /// is destroyed. Runs after — never interleaved with — contact
    /// resolution.
    pub fn target_death(&mut self)
        requires
            old(self).wf(),
        ensures
            final(self).hostiles@ == spec_deaths(old(self).hostiles@),
            final(self).towers@ == old(self).towers@,
            final(self).bullets@ == old(self).bullets@,
            final(self).sites@ == old(self).sites@,
            final(self).spawned@ == old(self).spawned@,
            final(self).wf(),
    {
        let n = self.hostiles.len();
        let mut i: usize = 0;
        while i < n
            invariant
                0 <= i <= n,
                n == self.hostiles@.len(),
                forall|k: int| i <= k < n ==> self.hostiles@[k] == old(self).hostiles@[k],
                forall|k: int|
                    0 <= k < i ==> self.hostiles@[k] == spec_mark_death(old(self).hostiles@[k]),
                forall|k: int| 0 <= k < n ==> (#[trigger] self.hostiles@[k]).wf(),
                old(self).wf(),
                n == old(self).hostiles@.len(),
                self.towers@ == old(self).towers@,
                self.bullets@ == old(self).bullets@,
                self.sites@ == old(self).sites@,
                self.spawned@ == old(self).spawned@,
            decreases n - i,
        {
            let mut h = self.hostiles[i];
            if h.health.value <= 0 {
                h.alive = false;
            }
            self.hostiles[i] = h;
            i = i + 1;
        }
        proof {
            assert(self.hostiles@ =~= spec_deaths(old(self).hostiles@));
        }
    }
    /// Flushes the tick's deferred batch: records marked destroyed leave
    /// the arena and staged projectiles join it, so the next tick begins
    /// on settled collections.
    pub fn flush(&mut self)
        requires
            old(self).wf(),
        ensures
            final(self).hostiles@ == live_hostiles(old(self).hostiles@),
            final(self).bullets@ == live_projectiles(old(self).bullets@) + old(self).spawned@,
            final(self).sites@ == live_sites(old(self).sites@),
            final(self).towers@ == old(self).towers@,
            final(self).spawned@ == Seq::<Projectile>::empty(),
            final(self).wf(),
    {
        let nh = self.hostiles.len();
        let mut kept_h: Vec<Hostile> = Vec::new();
        let mut i: usize = 0;
        while i < nh
            invariant
                0 <= i <= nh,
                nh == self.hostiles@.len(),
                *self == *old(self),
                old(self).wf(),
                kept_h@ == live_hostiles(self.hostiles@.take(i as int)),
                forall|k: int| 0 <= k < kept_h@.len() ==> (#[trigger] kept_h@[k]).wf(),
            decreases nh - i,
        {
            let h = self.hostiles[i];
            proof {
                assert(self.hostiles@[i as int].wf());
                assert(self.hostiles@.take(i as int + 1).drop_last() =~= self.hostiles@.take(
                    i as int,
                ));
            }
            if h.alive {
                kept_h.push(h);
            }
            i = i + 1;
        }
        proof {
            assert(self.hostiles@.take(nh as int) =~= self.hostiles@);
        }
        self.hostiles = kept_h;

        let nb = self.bullets.len();
        let mut kept_b: Vec<Projectile> = Vec::new();
        let mut j: usize = 0;
        while j < nb
            invariant
                0 <= j <= nb,
                nb == self.bullets@.len(),
                self.bullets@ == old(self).bullets@,
                self.spawned@ == old(self).spawned@,
                self.sites@ == old(self).sites@,
                self.towers@ == old(self).towers@,
                old(self).wf(),
                kept_b@ == live_projectiles(self.bullets@.take(j as int)),
                forall|k: int| 0 <= k < kept_b@.len() ==> (#[trigger] kept_b@[k]).wf(),
            decreases nb - j,
        {
            let p = self.bullets[j];
            proof {
                assert(self.bullets@[j as int].wf());
                assert(self.bullets@.take(j as int + 1).drop_last() =~= self.bullets@.take(
                    j as int,
                ));
            }
            if p.alive {
                kept_b.push(p);
            }
            j = j + 1;
        }
        proof {
            assert(self.bullets@.take(nb as int) =~= self.bullets@);
        }
        self.bullets = kept_b;

        let ns = self.sites.len();
        let mut kept_s: Vec<Site> = Vec::new();
        let mut k: usize = 0;
        while k < ns
            invariant
                0 <= k <= ns,
                ns == self.sites@.len(),
                self.sites@ == old(self).sites@,
                self.spawned@ == old(self).spawned@,
                self.towers@ == old(self).towers@,
                old(self).wf(),
                kept_s@ == live_sites(self.sites@.take(k as int)),
                forall|m: int| 0 <= m < kept_s@.len() ==> (#[trigger] kept_s@[m]).wf(),
            decreases ns - k,
        {
            let s = self.sites[k];
            proof {
                assert(self.sites@[k as int].wf());
                assert(self.sites@.take(k as int + 1).drop_last() =~= self.sites@.take(k as int));
            }
            if s.alive {
                kept_s.push(s);
            }
            k = k + 1;
        }
        proof {
            assert(self.sites@.take(ns as int) =~= self.sites@);
        }
        self.sites = kept_s;

        self.bullets.append(&mut self.spawned);
    }

    /// One full simulation tick, in the fixed intra-tick order: unit
    /// movement, then cooldown-gated firing, then projectile motion and
    /// expiry, then contact resolution, then death resolution; the
    /// deferred destruction and spawn batches take effect at the end of
    /// the tick. Sites change only on build triggers, never with time.
    pub fn tick(&mut self, elapsed: u64)
        requires
            old(self).wf(),
            elapsed <= ELAPSED_MAX,
        ensures
            final(self).model() == spec_world_tick(old(self).model(), elapsed),
            final(self).wf(),
    {
        self.move_targets(elapsed);
        self.tower_shooting(elapsed);
        self.move_bullets(elapsed);
        self.bullet_despawn(elapsed);
        self.bullet_collision();
        self.target_death();
        self.flush();
        proof {
            let w = old(self).model();
            let h1 = spec_move_hostiles(w.hostiles, elapsed);
            let shot = spec_shoot(w.towers, h1, elapsed, w.towers.len() as int);
            let b1 = spec_expire_bullets(spec_move_bullets(w.bullets, elapsed), elapsed);
            let fought = collide_upto(b1, h1, b1.len() as int);
            assert(self.bullets@ =~= live_projectiles(fought.0) + w.spawned + shot.1);
            assert(self.model() =~= spec_world_tick(old(self).model(), elapsed));
        }
    }
}

/// What one full tick does to the arena: hostiles move, towers fire at
/// the moved hostiles, projectiles move and expire, the moved live
/// projectiles resolve contacts against the moved hostiles, hostiles
/// without positive health die, and the deferred batches are flushed —
/// destroyed records leave — sites consumed by an earlier build trigger
/// among them — and staged projectiles (earlier stages first, then this
/// tick's, in tower order) join the arena.
pub open spec fn spec_world_tick(w: WorldModel, elapsed: u64) -> WorldModel {
    let h1 = spec_move_hostiles(w.hostiles, elapsed);
    let shot = spec_shoot(w.towers, h1, elapsed, w.towers.len() as int);
    let b1 = spec_expire_bullets(spec_move_bullets(w.bullets, elapsed), elapsed);
    let fought = collide_upto(b1, h1, b1.len() as int);
    let h3 = spec_deaths(fought.1);
    WorldModel {
        hostiles: live_hostiles(h3),
        towers: shot.0,
        bullets: live_projectiles(fought.0) + w.spawned + shot.1,
        sites: live_sites(w.sites),
        spawned: Seq::<Projectile>::empty(),
    }
}

/// The hostiles after unit movement.
pub open spec fn spec_move_hostiles(hs: Seq<Hostile>, elapsed: u64) -> Seq<Hostile> {
    hs.map_values(|h: Hostile| spec_advance_hostile(h, elapsed))
}

/// The projectiles after projectile motion.
pub open spec fn spec_move_bullets(bs: Seq<Projectile>, elapsed: u64) -> Seq<Projectile> {
    bs.map_values(|p: Projectile| spec_move_projectile(p, elapsed))
}

/// The projectiles after one tick of their expiry countdowns.
pub open spec fn spec_expire_bullets(bs: Seq<Projectile>, elapsed: u64) -> Seq<Projectile> {
    bs.map_values(|p: Projectile| spec_expire_projectile(p, elapsed))
}

/// The hostiles after death resolution.
pub open spec fn spec_deaths(hs: Seq<Hostile>) -> Seq<Hostile> {
    hs.map_values(|h: Hostile| spec_mark_death(h))
}

/// The hostile records that survive a flush.
pub open spec fn live_hostiles(hs: Seq<Hostile>) -> Seq<Hostile>
    decreases hs.len(),
{
    if hs.len() == 0 {
        Seq::<Hostile>::empty()
    } else {
        live_hostiles(hs.drop_last()) + (if hs.last().alive {
            seq![hs.last()]
        } else {
            Seq::<Hostile>::empty()
        })
    }
}

/// The projectile records that survive a flush.
pub open spec fn live_projectiles(bs: Seq<Projectile>) -> Seq<Projectile>
    decreases bs.len(),
{
    if bs.len() == 0 {
        Seq::<Projectile>::empty()
    } else {
        live_projectiles(bs.drop_last()) + (if bs.last().alive {
            seq![bs.last()]
        } else {
            Seq::<Projectile>::empty()
        })
    }
}

/// The first live hostile at index `j` or beyond that a projectile is in
/// contact with.
pub open spec fn first_contact_from(p: Projectile, hs: Seq<Hostile>, j: int) -> Option<int>
    decreases hs.len() - j,
{
    if j < 0 || j >= hs.len() {
        Option::None
    } else if hs[j].alive && in_contact(p.pos, hs[j].pos) {
        Option::Some(j)
    } else {
        first_contact_from(p, hs, j + 1)
    }
}

/// The first live hostile a projectile is in contact with: first-match-
/// wins, in hostile iteration order.
pub open spec fn first_contact(p: Projectile, hs: Seq<Hostile>) -> Option<int> {
    first_contact_from(p, hs, 0)
}

/// What the scan from `j` returns: a live hostile in contact, below which
/// no hostile at or beyond `j` is a live contact; or nothing exactly when
/// no such hostile exists at or beyond `j`.
pub proof fn lemma_first_contact_props(p: Projectile, hs: Seq<Hostile>, j: int)
    requires
        0 <= j <= hs.len(),
    ensures
        first_contact_from(p, hs, j) matches Option::Some(k) ==> {
            &&& j <= k < hs.len()
            &&& hs[k].alive
            &&& in_contact(p.pos, hs[k].pos)
            &&& forall|m: int|
                j <= m < k ==> !((#[trigger] hs[m]).alive && in_contact(p.pos, hs[m].pos))
        },
        (first_contact_from(p, hs, j) is None) <==> (forall|m: int|
            j <= m < hs.len() ==> !((#[trigger] hs[m]).alive && in_contact(p.pos, hs[m].pos))),
    decreases hs.len() - j,
{
    if j < hs.len() {
        lemma_first_contact_props(p, hs, j + 1);
    }
}

/// The scan reads only the hostiles' liveness and positions, so damage
/// applied to healths during combat never changes which hostile a
/// projectile first contacts.
pub proof fn lemma_first_contact_stable(p: Projectile, hs1: Seq<Hostile>, hs2: Seq<Hostile>, j: int)
    requires
        0 <= j,
        hs1.len() == hs2.len(),
        forall|m: int|
            0 <= m < hs1.len() ==> (#[trigger] hs2[m]).alive == hs1[m].alive && hs2[m].pos
                == hs1[m].pos,
    ensures
        first_contact_from(p, hs1, j) == first_contact_from(p, hs2, j),
    decreases hs1.len() - j,
{
    if j < hs1.len() {
        lemma_first_contact_stable(p, hs1, hs2, j + 1);
    }
}

/// One projectile's combat resolution: a live projectile in contact with
/// a live hostile is destroyed and that hostile — the first in iteration
/// order — loses one health point; any other projectile resolves nothing.
pub open spec fn collide_step(bs: Seq<Projectile>, hs: Seq<Hostile>, i: int) -> (
    Seq<Projectile>,
    Seq<Hostile>,
) {
    let p = bs[i];
    if p.alive {
        match first_contact(p, hs) {
            Option::Some(j) => (
                bs.update(i, Projectile { alive: false, ..p }),
                hs.update(j, spec_hit(hs[j])),
            ),
            Option::None => (bs, hs),
        }
    } else {
        (bs, hs)
    }
}

/// Contact resolution over the first `n` projectiles, in order.
pub open spec fn collide_upto(bs: Seq<Projectile>, hs: Seq<Hostile>, n: int) -> (
    Seq<Projectile>,
    Seq<Hostile>,
)
    decreases n,
{
    if n <= 0 {
        (bs, hs)
    } else {
        let prev = collide_upto(bs, hs, n - 1);
        collide_step(prev.0, prev.1, n - 1)
    }
}

/// Contact resolution only clears projectiles' liveness marks and lowers
/// hostiles' healths: lengths, flight data, positions, hostile liveness
/// and projectiles at or beyond the bound are untouched.
pub proof fn lemma_collide_frame(bs: Seq<Projectile>, hs: Seq<Hostile>, n: int)
    requires
        0 <= n <= bs.len(),
    ensures
        collide_upto(bs, hs, n).0.len() == bs.len(),
        collide_upto(bs, hs, n).1.len() == hs.len(),
        forall|i: int|
            0 <= i < bs.len() ==> {
                &&& (#[trigger] collide_upto(bs, hs, n).0[i]).bullet == bs[i].bullet
                &&& collide_upto(bs, hs, n).0[i].pos == bs[i].pos
                &&& collide_upto(bs, hs, n).0[i].lifetime == bs[i].lifetime
                &&& (collide_upto(bs, hs, n).0[i].alive ==> bs[i].alive)
            },
        forall|i: int| n <= i < bs.len() ==> collide_upto(bs, hs, n).0[i] == bs[i],
        forall|j: int|
            0 <= j < hs.len() ==> {
                &&& (#[trigger] collide_upto(bs, hs, n).1[j]).alive == hs[j].alive
                &&& collide_upto(bs, hs, n).1[j].pos == hs[j].pos
                &&& collide_upto(bs, hs, n).1[j].target == hs[j].target
                &&& collide_upto(bs, hs, n).1[j].health.value <= hs[j].health.value
            },
    decreases n,
{
    if n > 0 {
        lemma_collide_frame(bs, hs, n - 1);
        let prev = collide_upto(bs, hs, n - 1);
        let p = prev.0[n - 1];
        if p.alive {
            lemma_first_contact_props(p, prev.1, 0);
        }
    }
}

/// Once contact resolution has passed a projectile's index, later steps
/// leave that projectile as they found it.
pub proof fn lemma_collide_prefix(bs: Seq<Projectile>, hs: Seq<Hostile>, n: int, m: int)
    requires
        0 <= n <= m <= bs.len(),
    ensures
        forall|i: int|
            0 <= i < n ==> collide_upto(bs, hs, m).0[i] == #[trigger] collide_upto(bs, hs, n).0[i],
    decreases m - n,
{
    if n < m {
        lemma_collide_prefix(bs, hs, n, m - 1);
        lemma_collide_frame(bs, hs, m - 1);
        let prev = collide_upto(bs, hs, m - 1);
        let p = prev.0[m - 1];
        if p.alive {
            lemma_first_contact_props(p, prev.1, 0);
        }
    }
}

/// Scans the hostiles for the first live contact of a projectile.
fn first_contact_ex(p: &Projectile, hostiles: &Vec<Hostile>) -> (r: Option<usize>)
    requires
        p.pos.within(2 * POS_LIMIT),
        forall|k: int| 0 <= k < hostiles@.len() ==> (#[trigger] hostiles@[k]).wf(),
    ensures
        match r {
            Option::Some(j) => first_contact(*p, hostiles@) == Option::Some(j as int),
            Option::None => first_contact(*p, hostiles@) is None,
        },
{
    let n = hostiles.len();
    let mut j: usize = 0;
    while j < n
        invariant
            0 <= j <= n,
            n == hostiles@.len(),
            p.pos.within(2 * POS_LIMIT),
            forall|k: int| 0 <= k < hostiles@.len() ==> (#[trigger] hostiles@[k]).wf(),
            first_contact(*p, hostiles@) == first_contact_from(*p, hostiles@, j as int),
        decreases n - j,
    {
        let h = hostiles[j];
        proof {
            assert(hostiles@[j as int].wf());
        }
        if h.alive && in_contact_ex(p.pos, h.pos) {
            return Some(j);
        }
        j = j + 1;
    }
    None
}

/// Projectiles never home: through one tick's motion, expiry and combat,
/// the projectile at every index keeps the direction computed at its
/// spawn, whatever the hostiles are — even if its original target has
/// moved or been destroyed.
pub proof fn lemma_no_homing(bs: Seq<Projectile>, hs: Seq<Hostile>, elapsed: u64)
    ensures
        collide_upto(
            spec_expire_bullets(spec_move_bullets(bs, elapsed), elapsed),
            hs,
            bs.len() as int,
        ).0.len() == bs.len(),
        forall|i: int|
            0 <= i < bs.len() ==> (#[trigger] collide_upto(
                spec_expire_bullets(spec_move_bullets(bs, elapsed), elapsed),
                hs,
                bs.len() as int,
            ).0[i]).bullet.direction == bs[i].bullet.direction,
{
    let b1 = spec_move_bullets(bs, elapsed);
    let b2 = spec_expire_bullets(b1, elapsed);
    assert forall|i: int| 0 <= i < bs.len() implies (#[trigger] b2[i]).bullet
        == bs[i].bullet by {
        assert(b1[i] == spec_move_projectile(bs[i], elapsed));
        assert(b2[i] == spec_expire_projectile(b1[i], elapsed));
    }
    lemma_collide_frame(b2, hs, bs.len() as int);
}

/// On the tick in which a live projectile stands within the contact
/// radius of some live hostile, contact resolution destroys that
/// projectile, and exactly one hostile — the first live contact in
/// iteration order — loses exactly one health point to it.
pub proof fn lemma_contact_resolves(bs: Seq<Projectile>, hs: Seq<Hostile>, i: int)
    requires
        0 <= i < bs.len(),
        bs[i].alive,
        exists|j: int|
            0 <= j < hs.len() && (#[trigger] hs[j]).alive && in_contact(bs[i].pos, hs[j].pos),
    ensures
        first_contact(bs[i], hs) is Some,
        !collide_upto(bs, hs, bs.len() as int).0[i].alive,
        ({
            let j = first_contact(bs[i], hs)->Some_0;
            let before = collide_upto(bs, hs, i);
            &&& 0 <= j < hs.len()
            &&& hs[j].alive
            &&& in_contact(bs[i].pos, hs[j].pos)
            &&& (forall|m: int|
                0 <= m < j ==> !((#[trigger] hs[m]).alive && in_contact(bs[i].pos, hs[m].pos)))
            &&& collide_upto(bs, hs, i + 1).1 == before.1.update(j, spec_hit(before.1[j]))
            &&& (before.1[j].health.value > i32::MIN ==> collide_upto(bs, hs, i + 1).1[j].health.value
                == before.1[j].health.value - 1)
            &&& collide_upto(bs, hs, i + 1).0 == before.0.update(
                i,
                Projectile { alive: false, ..bs[i] },
            )
        }),
{
    let before = collide_upto(bs, hs, i);
    lemma_collide_frame(bs, hs, i);
    lemma_first_contact_stable(bs[i], hs, before.1, 0);
    lemma_first_contact_props(bs[i], hs, 0);
    if first_contact(bs[i], hs) is None {
        // impossible: the scan found nothing, yet a live contact exists
        let j = choose|j: int|
            0 <= j < hs.len() && (#[trigger] hs[j]).alive && in_contact(bs[i].pos, hs[j].pos);
        assert(false);
    }
    let j = first_contact(bs[i], hs)->Some_0;
    assert(collide_upto(bs, hs, i + 1) == collide_step(before.0, before.1, i));
    lemma_collide_prefix(bs, hs, i + 1, bs.len() as int);
    assert(collide_upto(bs, hs, i + 1).0[i] == (Projectile { alive: false, ..bs[i] }));
    assert(collide_upto(bs, hs, bs.len() as int).0[i] == collide_upto(bs, hs, i + 1).0[i]);
}

/// Every record that survives a flush of the hostiles was live and stood
/// in the collection.
pub proof fn lemma_live_hostiles_membership(hs: Seq<Hostile>)
    ensures
        forall|k: int|
            0 <= k < live_hostiles(hs).len() ==> (#[trigger] live_hostiles(hs)[k]).alive
                && hs.contains(live_hostiles(hs)[k]),
    decreases hs.len(),
{
    if hs.len() > 0 {
        lemma_live_hostiles_membership(hs.drop_last());
        assert forall|k: int| 0 <= k < live_hostiles(hs).len() implies (#[trigger] live_hostiles(
            hs,
        )[k]).alive && hs.contains(live_hostiles(hs)[k]) by {
            let prefix = live_hostiles(hs.drop_last());
            if k < prefix.len() {
                assert(live_hostiles(hs)[k] == prefix[k]);
                let m = choose|m: int|
                    0 <= m < hs.drop_last().len() && hs.drop_last()[m] == prefix[k];
                assert(hs[m] == prefix[k]);
            } else {
                assert(live_hostiles(hs)[k] == hs.last());
                assert(hs[hs.len() - 1] == hs.last());
            }
        }
    }
}

/// A hostile whose health is no longer positive is destroyed by the death
/// resolution step — its record is marked dead — and does not survive the
/// tick's flush: every hostile still in the arena afterwards has positive
/// health, so a dead hostile is never moved, targeted or damaged again.
pub proof fn lemma_death_resolution(hs: Seq<Hostile>)
    ensures
        forall|j: int|
            0 <= j < hs.len() && hs[j].health.value <= 0 ==> !(#[trigger] spec_deaths(
                hs,
            )[j]).alive,
        forall|k: int|
            0 <= k < live_hostiles(spec_deaths(hs)).len() ==> (#[trigger] live_hostiles(
                spec_deaths(hs),
            )[k]).health.value > 0,
{
    let d = spec_deaths(hs);
    assert forall|j: int| 0 <= j < hs.len() && hs[j].health.value <= 0 implies !(
    #[trigger] d[j]).alive by {
        assert(d[j] == spec_mark_death(hs[j]));
    }
    lemma_live_hostiles_membership(d);
    assert forall|k: int| 0 <= k < live_hostiles(d).len() implies (#[trigger] live_hostiles(
        d,
    )[k]).health.value > 0 by {
        let e = live_hostiles(d)[k];
        assert(e.alive && d.contains(e));
        let m = choose|m: int| 0 <= m < d.len() && d[m] == e;
        assert(d[m] == spec_mark_death(hs[m]));
    }
}

/// Every record that survives a flush of the projectiles was live and
/// stood in the collection.
pub proof fn lemma_live_projectiles_membership(bs: Seq<Projectile>)
    ensures
        forall|k: int|
            0 <= k < live_projectiles(bs).len() ==> (#[trigger] live_projectiles(bs)[k]).alive
                && bs.contains(live_projectiles(bs)[k]),
    decreases bs.len(),
{
    if bs.len() > 0 {
        lemma_live_projectiles_membership(bs.drop_last());
        assert forall|k: int| 0 <= k < live_projectiles(bs).len() implies (
        #[trigger] live_projectiles(bs)[k]).alive && bs.contains(live_projectiles(bs)[k]) by {
            let prefix = live_projectiles(bs.drop_last());
            if k < prefix.len() {
                assert(live_projectiles(bs)[k] == prefix[k]);
                let m = choose|m: int|
                    0 <= m < bs.drop_last().len() && bs.drop_last()[m] == prefix[k];
                assert(bs[m] == prefix[k]);
            } else {
                assert(live_projectiles(bs)[k] == bs.last());
                assert(bs[bs.len() - 1] == bs.last());
            }
        }
    }
}

/// Every projectile the shooting pass spawns starts live.
pub proof fn lemma_shoot_spawned_alive(
    towers: Seq<TowerEnt>,
    hs: Seq<Hostile>,
    elapsed: u64,
    n: int,
)
    ensures
        forall|k: int|
            0 <= k < spec_shoot(towers, hs, elapsed, n).1.len() ==> (#[trigger] spec_shoot(
                towers,
                hs,
                elapsed,
                n,
            ).1[k]).alive,
    decreases n,
{
    if n > 0 {
        lemma_shoot_spawned_alive(towers, hs, elapsed, n - 1);
    }
}

/// A tick leaves no destroyed record behind: every hostile still in the
/// arena afterwards is live with positive health, and every projectile
/// still in the arena is live (projectiles staged before the tick are
/// live when the simulation itself staged them).
pub proof fn lemma_tick_settles(w: WorldModel, elapsed: u64)
    requires
        forall|k: int| 0 <= k < w.spawned.len() ==> (#[trigger] w.spawned[k]).alive,
    ensures
        forall|k: int|
            0 <= k < spec_world_tick(w, elapsed).hostiles.len() ==> (#[trigger] spec_world_tick(
                w,
                elapsed,
            ).hostiles[k]).alive && spec_world_tick(w, elapsed).hostiles[k].health.value > 0,
        forall|k: int|
            0 <= k < spec_world_tick(w, elapsed).bullets.len() ==> (#[trigger] spec_world_tick(
                w,
                elapsed,
            ).bullets[k]).alive,
{
    let h1 = spec_move_hostiles(w.hostiles, elapsed);
    let shot = spec_shoot(w.towers, h1, elapsed, w.towers.len() as int);
    let b1 = spec_expire_bullets(spec_move_bullets(w.bullets, elapsed), elapsed);
    let fought = collide_upto(b1, h1, b1.len() as int);
    lemma_death_resolution(fought.1);
    lemma_live_hostiles_membership(spec_deaths(fought.1));
    lemma_live_projectiles_membership(fought.0);
    lemma_shoot_spawned_alive(w.towers, h1, elapsed, w.towers.len() as int);
    let live = live_projectiles(fought.0);
    assert forall|k: int| 0 <= k < spec_world_tick(w, elapsed).bullets.len() implies (
    #[trigger] spec_world_tick(w, elapsed).bullets[k]).alive by {
        let all = live + w.spawned + shot.1;
        if k < live.len() {
            assert(all[k] == live[k]);
        } else if k < live.len() + w.spawned.len() {
            assert(all[k] == w.spawned[k - live.len()]);
        } else {
            assert(all[k] == shot.1[k - live.len() - w.spawned.len()]);
        }
    }
}

/// The site records that survive a flush.
pub open spec fn live_sites(ss: Seq<Site>) -> Seq<Site>
    decreases ss.len(),
{
    if ss.len() == 0 {
        Seq::<Site>::empty()
    } else {
        live_sites(ss.drop_last()) + (if ss.last().alive {
            seq![ss.last()]
        } else {
            Seq::<Site>::empty()
        })
    }
}

} // verus!
