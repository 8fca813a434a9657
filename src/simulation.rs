use vstd::prelude::*;
use crate::config::Configuration;
use crate::entity::{CollisionEvent, Entity, EntityModel, Role, new_enemy, new_tower};
use crate::timer::Timer;
use crate::world::{
    World, acquired, chosen_focus, combat_upto, first_candidate, flag_matches_health, hit,
    id_of, ids_unique, is_candidate, is_expired, is_kept, lemma_attack_keeps_length,
    lemma_same_identities, live_enemies, live_enemy_named, purge_of, purged, reaped, record,
    removed_ids, sensed_by, struck, tick_after,
};

verus! {

/// What one tick did, for the code that mirrors the table elsewhere.
pub struct TickReport {
    /// The enemy created by the spawn stage, if any.
    pub spawned: Option<u64>,
    /// The entities removed by the reaper, in table order.
    pub removed: Vec<u64>,
}

/// The entity table and the state shared by the stages of a tick.
pub struct Simulation {
    config: Configuration,
    spawn_timer: Timer,
    entities: Vec<Entity>,
    next_id: u64,
    now: u64,
}

/// The values of the records in `v`.
pub closed spec fn models(v: Seq<Entity>) -> Seq<EntityModel> {
    v.map_values(|e: Entity| e@)
}

impl View for Simulation {
    type V = World;

    closed spec fn view(&self) -> World {
        World {
            config: self.config,
            spawn_timer: self.spawn_timer,
            entities: models(self.entities@),
            next_id: self.next_id,
            now: self.now,
        }
    }
}

impl Simulation {
    /// An empty world whose spawn timer starts at zero.
    pub fn new(config: Configuration) -> (r: Simulation)
        ensures
            r@ == (World {
                config,
                spawn_timer: Timer {
                    period: config.spawn_period,
                    elapsed: 0,
                    repeating: true,
                    finished: false,
                    just_fired: false,
                },
                entities: Seq::empty(),
                next_id: 0,
                now: 0,
            }),
            r@.wf(),
    {
        let r = Simulation {
            config,
            spawn_timer: Timer::repeating(config.spawn_period),
            entities: Vec::new(),
            next_id: 0,
            now: 0,
        };
        assert(models(r.entities@) =~= Seq::empty());
        r
    }

    fn create(&mut self, e: Entity)
        requires
            old(self)@.wf(),
            old(self).next_id < u64::MAX,
            e.id == old(self).next_id,
            flag_matches_health(e@),
        ensures
            final(self)@ == old(self)@.created(e@),
            final(self)@.wf(),
    {
        let ghost before = self.entities@;
        self.entities.push(e);
        self.next_id = self.next_id + 1;
        assert(models(self.entities@) =~= models(before).push(e@));
    }

    /// Creates a fresh enemy, unless every identifier is taken.
    pub fn spawn_enemy(&mut self) -> (r: Option<u64>)
        requires
            old(self)@.wf(),
        ensures
            final(self)@.wf(),
            old(self)@.next_id < u64::MAX ==> r == Some(old(self)@.next_id) && final(self)@
                == old(self)@.created(new_enemy(old(self)@.next_id)),
            old(self)@.next_id == u64::MAX ==> r is None && final(self)@ == old(self)@,
    {
        if self.next_id == u64::MAX {
            return None;
        }
        let id = self.next_id;
        self.create(Entity::enemy(id));
        Some(id)
    }

    /// Creates a tower armed with the configured attack period, unless every
    /// identifier is taken.
    pub fn add_tower(&mut self) -> (r: Option<u64>)
        requires
            old(self)@.wf(),
        ensures
            final(self)@.wf(),
            old(self)@.next_id < u64::MAX ==> r == Some(old(self)@.next_id) && final(self)@
                == old(self)@.created(new_tower(old(self)@.next_id, old(self)@.config.attack_period)),
            old(self)@.next_id == u64::MAX ==> r is None && final(self)@ == old(self)@,
    {
        if self.next_id == u64::MAX {
            return None;
        }
        let id = self.next_id;
        self.create(Entity::tower(id, self.config.attack_period));
        Some(id)
    }

    /// The number of enemies that are not flagged dead.
    pub fn live_enemy_count(&self) -> (r: usize)
        ensures
            r == live_enemies(self@.entities),
    {
        let mut n: usize = 0;
        let mut i: usize = 0;
        while i < self.entities.len()
            invariant
                i <= self.entities@.len(),
                n == live_enemies(models(self.entities@).take(i as int)),
                n <= i,
            decreases self.entities@.len() - i,
        {
            let ghost s = models(self.entities@);
            assert(s.take(i + 1).drop_last() =~= s.take(i as int));
            let e = &self.entities[i];
            if e.dead_since.is_none() {
                if let Role::Enemy { .. } = e.role {
                    n = n + 1;
                }
            }
            i = i + 1;
        }
        assert(models(self.entities@).take(self.entities@.len() as int) =~= models(self.entities@));
        n
    }

    /// The spawn stage of a tick.
    ///
    /// The spawn timer advances by `dt`. When it fires and fewer than
    /// `max_count` enemies are live, one enemy is created and its identifier
    /// returned. Enemies flagged dead but not yet removed do not count.
    pub fn spawn_step(&mut self, dt: u64) -> (r: Option<u64>)
        requires
            old(self)@.wf(),
        ensures
            final(self)@ == old(self)@.spawned(dt),
            final(self)@.wf(),
            r == (if final(self)@.entities.len() > old(self)@.entities.len() {
                Some(old(self)@.next_id)
            } else {
                None
            }),
    {
        self.spawn_timer.advance(dt);
        if self.spawn_timer.fired() && (self.live_enemy_count() as u64) < self.config.max_count {
            self.spawn_enemy()
        } else {
            None
        }
    }

    /// Applies one collision event to the colliding sets of the two entities
    /// it names. Events that name unknown entities change nothing for them.
    pub fn apply_collision(&mut self, ev: CollisionEvent)
        requires
            old(self)@.wf(),
        ensures
            final(self)@ == (World { entities: sensed_by(old(self)@.entities, ev), ..old(self)@ }),
            final(self)@.wf(),
    {
        let ghost v0 = self.entities@;
        let ghost s0 = models(v0);
        let mut i: usize = 0;
        while i < self.entities.len()
            invariant
                i <= self.entities@.len(),
                self.entities@.len() == v0.len(),
                forall|k: int| 0 <= k < i ==> #[trigger] self.entities@[k]@ == v0[k]@.sensed(ev),
                forall|k: int| i <= k < v0.len() ==> #[trigger] self.entities@[k] == v0[k],
                self.config == old(self).config,
                self.spawn_timer == old(self).spawn_timer,
                self.next_id == old(self).next_id,
                self.now == old(self).now,
                s0 == old(self)@.entities,
            decreases v0.len() - i,
        {
            self.entities[i].sense(ev);
            i = i + 1;
        }
        assert(models(self.entities@) =~= sensed_by(s0, ev));
        proof {
            lemma_same_identities(s0, sensed_by(s0, ev));
        }
    }

    /// The sensor stage of a tick: applies the collision events in order.
    pub fn apply_collisions(&mut self, evs: &Vec<CollisionEvent>)
        requires
            old(self)@.wf(),
        ensures
            final(self)@ == old(self)@.collided(evs@),
            final(self)@.wf(),
    {
        let mut i: usize = 0;
        while i < evs.len()
            invariant
                i <= evs@.len(),
                self@ == old(self)@.collided(evs@.take(i as int)),
                self@.wf(),
            decreases evs@.len() - i,
        {
            assert(evs@.take(i + 1).drop_last() =~= evs@.take(i as int));
            self.apply_collision(evs[i]);
            i = i + 1;
        }
        assert(evs@.take(evs@.len() as int) =~= evs@);
    }

    /// The place in the table of the entity named `id`.
    pub fn find(&self, id: u64) -> (r: Option<usize>)
        ensures
            match r {
                Some(j) => j < self@.entities.len() && self@.entities[j as int].id == id,
                None => forall|j: int| 0 <= j < self@.entities.len() ==> self@.entities[j].id != id,
            },
    {
        let mut i: usize = 0;
        while i < self.entities.len()
            invariant
                i <= self.entities@.len(),
                forall|k: int| 0 <= k < i ==> self.entities@[k].id != id,
            decreases self.entities@.len() - i,
        {
            if self.entities[i].id == id {
                return Some(i);
            }
            i = i + 1;
        }
        None
    }

    fn is_candidate(&self, r: Role, id: u64) -> (b: bool)
        requires
            self@.wf(),
        ensures
            b == is_candidate(self@.entities, r, id),
    {
        match self.find(id) {
            Some(j) => {
                let e = &self.entities[j];
                let mine = matches!(r, Role::Enemy { .. });
                let theirs = matches!(e.role, Role::Enemy { .. });
                let b = e.dead_since.is_none() && mine != theirs;
                proof {
                    if is_candidate(self@.entities, r, id) {
                        let k = choose|k: int|
                            0 <= k < self@.entities.len() && self@.entities[k].id == id
                                && !self@.entities[k].is_dead() && r.opposes(
                                self@.entities[k].role,
                            );
                        assert(k == j);
                    }
                }
                b
            },
            None => false,
        }
    }

    fn first_candidate(&self, r: Role, c: &Vec<u64>) -> (f: Option<u64>)
        requires
            self@.wf(),
        ensures
            f == first_candidate(self@.entities, r, c@),
    {
        let ghost s = self@.entities;
        let mut i: usize = 0;
        assert(c@.skip(0) =~= c@);
        while i < c.len()
            invariant
                i <= c@.len(),
                first_candidate(s, r, c@) == first_candidate(s, r, c@.skip(i as int)),
                s == self@.entities,
                self@.wf(),
            decreases c@.len() - i,
        {
            assert(c@.skip(i as int).drop_first() =~= c@.skip(i + 1));
            if self.is_candidate(r, c[i]) {
                return Some(c[i]);
            }
            i = i + 1;
        }
        None
    }

    fn chosen_focus(&self, i: usize) -> (f: Option<u64>)
        requires
            self@.wf(),
            i < self@.entities.len(),
        ensures
            f == chosen_focus(self@.entities, self@.entities[i as int]),
    {
        let e = &self.entities[i];
        match e.focus {
            Some(t) => {
                if crate::entity::holds(&e.colliding, t) {
                    Some(t)
                } else {
                    self.first_candidate(e.role, &e.colliding)
                }
            },
            None => self.first_candidate(e.role, &e.colliding),
        }
    }

    /// The target acquisition stage of a tick.
    ///
    /// Every entity not flagged dead keeps its target while the target is in
    /// its colliding set; otherwise it takes the first member of its colliding
    /// set that is a live entity of the opposing kind, or none.
    pub fn acquire_targets(&mut self)
        requires
            old(self)@.wf(),
        ensures
            final(self)@ == old(self)@.focused(),
            final(self)@.wf(),
    {
        let ghost v0 = self.entities@;
        let ghost s0 = self@.entities;
        let mut choices: Vec<Option<u64>> = Vec::new();
        let mut i: usize = 0;
        while i < self.entities.len()
            invariant
                i <= self.entities@.len(),
                choices@.len() == i,
                self@.wf(),
                self@.entities == s0,
                forall|k: int| 0 <= k < i ==> #[trigger] choices@[k] == acquired(s0)[k].focus,
            decreases self.entities@.len() - i,
        {
            let f = if self.entities[i].dead_since.is_some() {
                self.entities[i].focus
            } else {
                self.chosen_focus(i)
            };
            choices.push(f);
            i = i + 1;
        }
        let mut i: usize = 0;
        while i < self.entities.len()
            invariant
                i <= self.entities@.len(),
                self.entities@.len() == v0.len(),
                choices@.len() == v0.len(),
                s0 == models(v0),
                forall|k: int| 0 <= k < v0.len() ==> #[trigger] choices@[k] == acquired(s0)[k].focus,
                forall|k: int| 0 <= k < i ==> #[trigger] self.entities@[k]@ == acquired(s0)[k],
                forall|k: int| i <= k < v0.len() ==> #[trigger] self.entities@[k] == v0[k],
                self.config == old(self).config,
                self.spawn_timer == old(self).spawn_timer,
                self.next_id == old(self).next_id,
                self.now == old(self).now,
            decreases v0.len() - i,
        {
            self.entities[i].focus = choices[i];
            i = i + 1;
        }
        assert(models(self.entities@) =~= acquired(s0));
        proof {
            lemma_same_identities(s0, acquired(s0));
        }
    }

    /// Shoots `target` once: a live enemy loses `damage_per_hit` health and is
    /// flagged dead when its health reaches zero or below.
    fn hit(&mut self, target: u64)
        requires
            old(self)@.wf(),
        ensures
            final(self)@ == (World {
                entities: hit(old(self)@.entities, target, old(self)@.config.damage_per_hit, old(self)@.now),
                ..old(self)@
            }),
            final(self)@.wf(),
    {
        let ghost s0 = self@.entities;
        let ghost v0 = self.entities@;
        let damage = self.config.damage_per_hit;
        let now = self.now;
        if let Some(j) = self.find(target) {
            if self.entities[j].dead_since.is_none() {
                if let Role::Enemy { health } = self.entities[j].role {
                    proof {
                        assert(flag_matches_health(s0[j as int]));
                        let k = choose|k: int|
                            0 <= k < s0.len() && s0[k].id == target && s0[k].is_live_enemy();
                        assert(k == j);
                    }
                    let h: i64 = health - damage as i64;
                    self.entities[j].role = Role::Enemy { health: h };
                    if h <= 0 {
                        self.entities[j].dead_since = Some(now);
                    }
                    proof {
                        let s1 = s0.update(j as int, struck(s0[j as int], damage, now));
                        assert(models(self.entities@) =~= s1);
                        assert(flag_matches_health(s1[j as int]));
                        assert forall|i: int| 0 <= i < s1.len() implies flag_matches_health(#[trigger] s1[i]) by {
                            if i != j {
                                assert(s1[i] == s0[i]);
                            }
                        }
                        assert forall|a: int, b: int| 0 <= a < s1.len() && 0 <= b < s1.len() && a != b
                            implies s1[a].id != s1[b].id by {
                            assert(s0[a].id == s1[a].id);
                            assert(s0[b].id == s1[b].id);
                        }
                        assert forall|i: int| 0 <= i < s1.len() implies s1[i].id < self.next_id by {
                            assert(s0[i].id == s1[i].id);
                        }
                    }
                    return;
                }
            }
            proof {
                if live_enemy_named(s0, target) {
                    let k = choose|k: int| 0 <= k < s0.len() && s0[k].id == target && s0[k].is_live_enemy();
                    assert(k == j);
                }
            }
        }
    }

    /// The combat stage of a tick.
    ///
    /// In table order, every tower that is not flagged dead and has a target
    /// advances its weapon timer by `dt`; when it fires, the target loses
    /// `damage_per_hit` health if it is still a live enemy, and is flagged dead
    /// on this tick when its health reaches zero or below. A tower without a
    /// target does not advance its weapon.
    pub fn resolve_combat(&mut self, dt: u64)
        requires
            old(self)@.wf(),
        ensures
            final(self)@ == old(self)@.fought(dt),
            final(self)@.wf(),
    {
        let ghost s0 = self@.entities;
        let damage = self.config.damage_per_hit;
        let now = self.now;
        let n = self.entities.len();
        let mut i: usize = 0;
        while i < n
            invariant
                i <= n,
                n == s0.len(),
                self@.wf(),
                self@ == (World { entities: combat_upto(s0, i as nat, dt, damage, now), ..old(self)@ }),
                damage == self.config.damage_per_hit,
                now == self.now,
            decreases n - i,
        {
            proof {
                lemma_attack_keeps_length(s0, i as nat, dt, damage, now);
            }
            let ghost s = self@.entities;
            let ghost v = self.entities@;
            let role = self.entities[i].role;
            let focus = self.entities[i].focus;
            if let Role::Tower { weapon } = role {
                if self.entities[i].dead_since.is_none() {
                    if let Some(t) = focus {
                        let mut w = weapon;
                        w.advance(dt);
                        self.entities[i].role = Role::Tower { weapon: w };
                        proof {
                            let s1 = s.update(i as int, EntityModel { role: Role::Tower { weapon: w }, ..s[i as int] });
                            assert(models(self.entities@) =~= s1);
                            assert forall|k: int| 0 <= k < s1.len() implies flag_matches_health(#[trigger] s1[k]) by {
                                assert(flag_matches_health(s[k]));
                            }
                            assert forall|a: int, b: int| 0 <= a < s1.len() && 0 <= b < s1.len() && a != b
                                implies s1[a].id != s1[b].id by {
                                assert(s[a].id == s1[a].id);
                                assert(s[b].id == s1[b].id);
                            }
                            assert forall|k: int| 0 <= k < s1.len() implies s1[k].id < self.next_id by {
                                assert(s[k].id == s1[k].id);
                            }
                        }
                        if w.fired() {
                            self.hit(t);
                        }
                    }
                }
            }
            i = i + 1;
        }
    }

    /// The reaper stage of a tick.
    ///
    /// Removes every entity flagged dead on an earlier tick, and takes it out
    /// of the colliding sets of those that remain. Entities flagged on this
    /// tick stay until the next one. Returns the removed identifiers in table
    /// order.
    pub fn reap(&mut self) -> (r: Vec<u64>)
        requires
            old(self)@.wf(),
        ensures
            r@ == removed_ids(old(self)@.entities, old(self)@.now),
            final(self)@ == old(self)@.cleared(),
            final(self)@.wf(),
    {
        let ghost s0 = self@.entities;
        let ghost v0 = self.entities@;
        let now = self.now;
        let mut gone: Vec<u64> = Vec::new();
        let mut i: usize = 0;
        while i < self.entities.len()
            invariant
                i <= s0.len(),
                self@.entities == s0,
                self.entities@ == v0,
                s0 == models(v0),
                now == self.now,
                gone@ == s0.take(i as int).filter(is_expired(now)).map_values(id_of()),
            decreases s0.len() - i,
        {
            let e = &self.entities[i];
            proof {
                assert(s0.take(i + 1) =~= s0.take(i as int).push(s0[i as int]));
                s0.take(i as int).lemma_filter_push(s0[i as int], is_expired(now));
                assert(s0[i as int] == e@);
                let f = s0.take(i as int).filter(is_expired(now));
                assert(f.push(e@).map_values(id_of()) =~= f.map_values(id_of()).push(e.id));
            }
            let is_gone = match e.dead_since {
                Some(t) => t != now,
                None => false,
            };
            if is_gone {
                gone.push(e.id);
            }
            i = i + 1;
        }
        assert(s0.take(s0.len() as int) =~= s0);
        let mut kept: Vec<Entity> = Vec::new();
        let mut i: usize = 0;
        while i < self.entities.len()
            invariant
                i <= s0.len(),
                self@.entities == s0,
                self.entities@ == v0,
                s0 == models(v0),
                self@.wf(),
                now == self.now,
                gone@ == removed_ids(s0, now),
                models(kept@) == s0.take(i as int).filter(is_kept(now)).map_values(purge_of(gone@)),
                forall|a: int|
                    0 <= a < kept@.len() ==> exists|k: int|
                        0 <= k < i && #[trigger] kept@[a]@ == purged(s0[k], gone@),
                ids_unique(models(kept@)),
            decreases s0.len() - i,
        {
            let e = &self.entities[i];
            let ghost f = s0.take(i as int).filter(is_kept(now));
            proof {
                assert(s0.take(i + 1) =~= s0.take(i as int).push(s0[i as int]));
                s0.take(i as int).lemma_filter_push(s0[i as int], is_kept(now));
                assert(s0[i as int] == e@);
            }
            let keep = match e.dead_since {
                Some(t) => t == now,
                None => true,
            };
            if keep {
                let ne = Entity {
                    id: e.id,
                    role: e.role,
                    focus: e.focus,
                    colliding: crate::entity::retain_absent(&e.colliding, &gone),
                    dead_since: e.dead_since,
                };
                let ghost before = kept@;
                kept.push(ne);
                proof {
                    assert(ne@ == purged(s0[i as int], gone@));
                    assert(models(kept@) =~= models(before).push(ne@));
                    assert(f.push(e@).map_values(purge_of(gone@)) =~= f.map_values(purge_of(gone@)).push(
                        ne@,
                    ));
                    assert forall|a: int|
                        0 <= a < kept@.len() implies exists|k: int|
                            0 <= k < i + 1 && #[trigger] kept@[a]@ == purged(s0[k], gone@) by {
                        if a == kept@.len() - 1 {
                            assert(kept@[a]@ == purged(s0[i as int], gone@));
                        } else {
                            assert(kept@[a] == before[a]);
                        }
                    }
                    assert forall|a: int, b: int|
                        0 <= a < models(kept@).len() && 0 <= b < models(kept@).len() && a != b
                        implies models(kept@)[a].id != models(kept@)[b].id by {
                        assert(models(kept@)[a] == kept@[a]@);
                        assert(models(kept@)[b] == kept@[b]@);
                        if a < before.len() && b < before.len() {
                            assert(models(before)[a] == before[a]@);
                            assert(models(before)[b] == before[b]@);
                        } else if a < before.len() {
                            assert(kept@[a] == before[a]);
                            let k = choose|k: int| 0 <= k < i && #[trigger] before[a]@ == purged(s0[k], gone@);
                            assert(s0[k].id != s0[i as int].id);
                        } else {
                            assert(kept@[b] == before[b]);
                            let k = choose|k: int| 0 <= k < i && #[trigger] before[b]@ == purged(s0[k], gone@);
                            assert(s0[k].id != s0[i as int].id);
                        }
                    }
                }
            }
            i = i + 1;
        }
        assert(s0.take(s0.len() as int) =~= s0);
        proof {
            let s1 = models(kept@);
            assert(s1 == reaped(s0, now));
            assert forall|a: int| 0 <= a < s1.len() implies flag_matches_health(#[trigger] s1[a])
                && s1[a].id < self.next_id by {
                assert(s1[a] == kept@[a]@);
                let k = choose|k: int| 0 <= k < s0.len() && #[trigger] kept@[a]@ == purged(s0[k], gone@);
                assert(flag_matches_health(s0[k]));
            }
        }
        self.entities = kept;
        gone
    }

    /// Runs one tick of `dt` nanoseconds, in which the physics engine reported
    /// the collision events `evs`.
    pub fn tick(&mut self, dt: u64, evs: &Vec<CollisionEvent>) -> (r: TickReport)
        requires
            old(self)@.wf(),
        ensures
            final(self)@ == old(self)@.ticked(dt, evs@),
            final(self)@.wf(),
            r.spawned == (if old(self)@.started().spawned(dt).entities.len()
                > old(self)@.entities.len() {
                Some(old(self)@.next_id)
            } else {
                None
            }),
            r.removed@ == removed_ids(
                old(self)@.before_reaping(dt, evs@).entities,
                tick_after(old(self)@.now),
            ),
    {
        self.now = if self.now == u64::MAX {
            0
        } else {
            self.now + 1
        };
        assert(models(self.entities@) == old(self)@.entities);
        let spawned = self.spawn_step(dt);
        self.apply_collisions(evs);
        self.acquire_targets();
        self.resolve_combat(dt);
        let removed = self.reap();
        TickReport { spawned, removed }
    }

    /// The record named `id`.
    pub fn get(&self, id: u64) -> (r: Option<&Entity>)
        requires
            self@.wf(),
        ensures
            match r {
                Some(e) => record(self@.entities, id) == Some(e@),
                None => record(self@.entities, id) is None,
            },
    {
        match self.find(id) {
            Some(j) => {
                proof {
                    let k = choose|k: int| 0 <= k < self@.entities.len() && self@.entities[k].id == id;
                    assert(k == j);
                    assert(self@.entities[j as int] == self.entities@[j as int]@);
                }
                Some(&self.entities[j])
            },
            None => None,
        }
    }

    /// Whether an entity named `id` is in the table, flagged dead or not.
    pub fn contains(&self, id: u64) -> (r: bool)
        ensures
            r == exists|j: int| 0 <= j < self@.entities.len() && self@.entities[j].id == id,
    {
        match self.find(id) {
            Some(_) => true,
            None => false,
        }
    }

    /// The identifiers of the table, in table order.
    pub fn ids(&self) -> (r: Vec<u64>)
        ensures
            r@ == self@.entities.map_values(id_of()),
    {
        let mut r: Vec<u64> = Vec::new();
        let mut i: usize = 0;
        while i < self.entities.len()
            invariant
                i <= self.entities@.len(),
                r@ == self@.entities.take(i as int).map_values(id_of()),
            decreases self.entities@.len() - i,
        {
            proof {
                assert(self@.entities.take(i + 1).map_values(id_of()) =~= self@.entities.take(
                    i as int,
                ).map_values(id_of()).push(self.entities@[i as int].id));
            }
            r.push(self.entities[i].id);
            i = i + 1;
        }
        assert(self@.entities.take(self.entities@.len() as int) =~= self@.entities);
        r
    }

    /// The number of the current tick.
    pub fn now(&self) -> (r: u64)
        ensures
            r == self@.now,
    {
        self.now
    }

    /// The spawn timer.
    pub fn spawn_timer(&self) -> (r: Timer)
        ensures
            r == self@.spawn_timer,
    {
        self.spawn_timer
    }

    /// The configuration in force.
    pub fn configuration(&self) -> (r: Configuration)
        ensures
            r == self@.config,
    {
        self.config
    }

    /// Replaces the configuration; meant to be called between ticks. Towers
    /// keep the weapon period they were created with.
    pub fn set_configuration(&mut self, config: Configuration)
        ensures
            final(self)@ == (World { config, ..old(self)@ }),
    {
        self.config = config;
    }
}

} // verus!
