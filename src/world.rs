use vstd::prelude::*;
use crate::config::Configuration;
use crate::entity::{CollisionEvent, EntityModel, Role, new_enemy, without_all};
use crate::timer::Timer;

verus! {

/// No two records share an identifier.
pub open spec fn ids_unique(s: Seq<EntityModel>) -> bool {
    forall|i: int, j: int|
        0 <= i < s.len() && 0 <= j < s.len() && i != j ==> s[i].id != s[j].id
}

/// An enemy is flagged dead exactly when its health is at or below zero.
pub open spec fn flag_matches_health(e: EntityModel) -> bool {
    match e.role {
        Role::Enemy { health } => e.is_dead() <==> health <= 0,
        Role::Tower { .. } => true,
    }
}

/// The number of enemies in `s` that are not flagged dead.
pub open spec fn live_enemies(s: Seq<EntityModel>) -> nat
    decreases s.len(),
{
    if s.len() == 0 {
        0
    } else {
        live_enemies(s.drop_last()) + if s.last().is_live_enemy() {
            1nat
        } else {
            0nat
        }
    }
}

/// Records at the same place carry the same identifier, role and dead flag.
pub open spec fn same_identities(s1: Seq<EntityModel>, s2: Seq<EntityModel>) -> bool {
    &&& s1.len() == s2.len()
    &&& forall|i: int|
        0 <= i < s1.len() ==> #[trigger] s1[i].id == s2[i].id && s1[i].role == s2[i].role
            && s1[i].dead_since == s2[i].dead_since
}

/// Every record after one collision event.
pub open spec fn sensed_by(s: Seq<EntityModel>, ev: CollisionEvent) -> Seq<EntityModel> {
    s.map_values(|e: EntityModel| e.sensed(ev))
}

/// Every record after a list of collision events, applied in order.
pub open spec fn after_events(s: Seq<EntityModel>, evs: Seq<CollisionEvent>) -> Seq<EntityModel>
    decreases evs.len(),
{
    if evs.len() == 0 {
        s
    } else {
        sensed_by(after_events(s, evs.drop_last()), evs.last())
    }
}

/// Whether `id` names a live entity that an entity of role `r` may focus on.
pub open spec fn is_candidate(s: Seq<EntityModel>, r: Role, id: u64) -> bool {
    exists|j: int| 0 <= j < s.len() && s[j].id == id && !s[j].is_dead() && r.opposes(s[j].role)
}

/// The first member of `c` that an entity of role `r` may focus on.
pub open spec fn first_candidate(s: Seq<EntityModel>, r: Role, c: Seq<u64>) -> Option<u64>
    decreases c.len(),
{
    if c.len() == 0 {
        None
    } else if is_candidate(s, r, c[0]) {
        Some(c[0])
    } else {
        first_candidate(s, r, c.drop_first())
    }
}

/// The focus of `e` after target acquisition: the current target while it is
/// still in the colliding set, else the first candidate of the colliding set.
pub open spec fn chosen_focus(s: Seq<EntityModel>, e: EntityModel) -> Option<u64> {
    match e.focus {
        Some(t) => if e.colliding.contains(t) {
            Some(t)
        } else {
            first_candidate(s, e.role, e.colliding)
        },
        None => first_candidate(s, e.role, e.colliding),
    }
}

/// Every record after target acquisition. Dead entities keep their focus.
pub open spec fn acquired(s: Seq<EntityModel>) -> Seq<EntityModel> {
    s.map_values(
        |e: EntityModel|
            if e.is_dead() {
                e
            } else {
                EntityModel { focus: chosen_focus(s, e), ..e }
            },
    )
}

/// The enemy `e` after one hit of `damage`. It is flagged dead on tick `now`
/// when its health reaches zero or below.
pub open spec fn struck(e: EntityModel, damage: u32, now: u64) -> EntityModel {
    match e.role {
        Role::Enemy { health } => {
            let h = health - damage;
            EntityModel {
                role: Role::Enemy { health: h as i64 },
                dead_since: if h <= 0 {
                    Some(now)
                } else {
                    e.dead_since
                },
                ..e
            }
        },
        Role::Tower { .. } => e,
    }
}

/// Whether `s` holds a live enemy named `target`.
pub open spec fn live_enemy_named(s: Seq<EntityModel>, target: u64) -> bool {
    exists|j: int| 0 <= j < s.len() && s[j].id == target && s[j].is_live_enemy()
}

/// The table after one shot at `target`. A target that is gone, flagged dead
/// or no enemy is not touched.
pub open spec fn hit(s: Seq<EntityModel>, target: u64, damage: u32, now: u64) -> Seq<EntityModel> {
    if live_enemy_named(s, target) {
        let j = choose|j: int| 0 <= j < s.len() && s[j].id == target && s[j].is_live_enemy();
        s.update(j, struck(s[j], damage, now))
    } else {
        s
    }
}

/// The table after the record at `i` takes its turn in combat: a live tower
/// with a target advances its weapon by `dt` and shoots when the weapon fires.
pub open spec fn attack(s: Seq<EntityModel>, i: int, dt: u64, damage: u32, now: u64) -> Seq<
    EntityModel,
> {
    let e = s[i];
    match e.role {
        Role::Tower { weapon } => match e.focus {
            Some(t) => if e.is_dead() {
                s
            } else {
                let w = weapon.advanced(dt);
                let s1 = s.update(i, EntityModel { role: Role::Tower { weapon: w }, ..e });
                if w.just_fired {
                    hit(s1, t, damage, now)
                } else {
                    s1
                }
            },
            None => s,
        },
        Role::Enemy { .. } => s,
    }
}

/// The table after the first `k` records have taken their turn in combat, in
/// table order.
pub open spec fn combat_upto(s: Seq<EntityModel>, k: nat, dt: u64, damage: u32, now: u64) -> Seq<
    EntityModel,
>
    decreases k,
{
    if k == 0 {
        s
    } else {
        attack(combat_upto(s, (k - 1) as nat, dt, damage, now), k - 1, dt, damage, now)
    }
}

/// Whether `e` was flagged dead on a tick before `now`.
pub open spec fn expired(e: EntityModel, now: u64) -> bool {
    e.dead_since is Some && e.dead_since != Some(now)
}

/// Holds of the records flagged dead before tick `now`.
pub open spec fn is_expired(now: u64) -> spec_fn(EntityModel) -> bool {
    |e: EntityModel| expired(e, now)
}

/// Holds of the records that the reaper of tick `now` keeps.
pub open spec fn is_kept(now: u64) -> spec_fn(EntityModel) -> bool {
    |e: EntityModel| !expired(e, now)
}

/// The identifier of a record.
pub open spec fn id_of() -> spec_fn(EntityModel) -> u64 {
    |e: EntityModel| e.id
}

/// The identifiers that the reaper of tick `now` removes, in table order.
pub open spec fn removed_ids(s: Seq<EntityModel>, now: u64) -> Seq<u64> {
    s.filter(is_expired(now)).map_values(id_of())
}

/// `e` with the identifiers of `gone` taken out of its colliding set.
pub open spec fn purged(e: EntityModel, gone: Seq<u64>) -> EntityModel {
    EntityModel { colliding: without_all(e.colliding, gone), ..e }
}

/// Takes the identifiers of `gone` out of a record's colliding set.
pub open spec fn purge_of(gone: Seq<u64>) -> spec_fn(EntityModel) -> EntityModel {
    |e: EntityModel| purged(e, gone)
}

/// The table after the reaper of tick `now`: records flagged dead on an
/// earlier tick are removed, and no longer overlap anything that remains.
pub open spec fn reaped(s: Seq<EntityModel>, now: u64) -> Seq<EntityModel> {
    s.filter(is_kept(now)).map_values(purge_of(removed_ids(s, now)))
}

/// Combat keeps the table's length.
pub proof fn lemma_attack_keeps_length(s: Seq<EntityModel>, k: nat, dt: u64, damage: u32, now: u64)
    requires
        k <= s.len(),
    ensures
        combat_upto(s, k, dt, damage, now).len() == s.len(),
    decreases k,
{
    if k > 0 {
        lemma_attack_keeps_length(s, (k - 1) as nat, dt, damage, now);
    }
}

/// The record named `id`, if the table holds one.
pub open spec fn record(s: Seq<EntityModel>, id: u64) -> Option<EntityModel> {
    if exists|j: int| 0 <= j < s.len() && s[j].id == id {
        Some(s[choose|j: int| 0 <= j < s.len() && s[j].id == id])
    } else {
        None
    }
}

/// Records that keep their identifiers, roles and flags keep the table's
/// well-formedness and its number of live enemies.
pub proof fn lemma_same_identities(s1: Seq<EntityModel>, s2: Seq<EntityModel>)
    requires
        same_identities(s1, s2),
    ensures
        ids_unique(s1) ==> ids_unique(s2),
        (forall|i: int| 0 <= i < s1.len() ==> flag_matches_health(#[trigger] s1[i]))
            ==> (forall|i: int| 0 <= i < s2.len() ==> flag_matches_health(#[trigger] s2[i])),
        live_enemies(s1) == live_enemies(s2),
    decreases s1.len(),
{
    if (forall|i: int| 0 <= i < s1.len() ==> flag_matches_health(#[trigger] s1[i])) {
        assert forall|i: int| 0 <= i < s2.len() implies flag_matches_health(#[trigger] s2[i]) by {
            assert(s1[i].id == s2[i].id);
            assert(flag_matches_health(s1[i]));
        }
    }
    if ids_unique(s1) {
        assert forall|i: int, j: int|
            0 <= i < s2.len() && 0 <= j < s2.len() && i != j implies s2[i].id != s2[j].id by {
            assert(s1[i].id == s2[i].id);
            assert(s1[j].id == s2[j].id);
        }
    }
    if s1.len() > 0 {
        let n = s1.len() - 1;
        assert(s1[n].id == s2[n].id);
        assert forall|i: int| 0 <= i < n implies #[trigger] s1.drop_last()[i].id
            == s2.drop_last()[i].id && s1.drop_last()[i].role == s2.drop_last()[i].role
            && s1.drop_last()[i].dead_since == s2.drop_last()[i].dead_since by {
            assert(s1[i].id == s2[i].id);
        }
        lemma_same_identities(s1.drop_last(), s2.drop_last());
    }
}

/// The number of the tick after tick `n`.
pub open spec fn tick_after(n: u64) -> u64 {
    if n == u64::MAX {
        0
    } else {
        (n + 1) as u64
    }
}

/// The mathematical value of a [`Simulation`](crate::simulation::Simulation).
pub struct World {
    pub config: Configuration,
    pub spawn_timer: Timer,
    /// The entity table, in order of creation.
    pub entities: Seq<EntityModel>,
    /// The identifier that the next created entity gets.
    pub next_id: u64,
    /// The number of the current tick.
    pub now: u64,
}

impl World {
    pub open spec fn wf(self) -> bool {
        &&& ids_unique(self.entities)
        &&& forall|i: int| 0 <= i < self.entities.len() ==> self.entities[i].id < self.next_id
        &&& forall|i: int| 0 <= i < self.entities.len() ==> flag_matches_health(#[trigger] self.entities[i])
    }

    /// The world with one more record at the end of the table, under the next
    /// identifier.
    pub open spec fn created(self, e: EntityModel) -> World {
        World { entities: self.entities.push(e), next_id: (self.next_id + 1) as u64, ..self }
    }

    /// The spawn stage: the spawn timer advances by `dt`, and when it fires
    /// while fewer than `max_count` enemies are live, one enemy is created.
    pub open spec fn spawned(self, dt: u64) -> World {
        let timer = self.spawn_timer.advanced(dt);
        let w = World { spawn_timer: timer, ..self };
        if timer.just_fired && live_enemies(self.entities) < self.config.max_count
            && self.next_id < u64::MAX {
            w.created(new_enemy(self.next_id))
        } else {
            w
        }
    }

    /// The target acquisition stage.
    pub open spec fn focused(self) -> World {
        World { entities: acquired(self.entities), ..self }
    }

    /// The combat stage: every record takes its turn, in table order.
    pub open spec fn fought(self, dt: u64) -> World {
        World {
            entities: combat_upto(
                self.entities,
                self.entities.len(),
                dt,
                self.config.damage_per_hit,
                self.now,
            ),
            ..self
        }
    }

    /// The reaper stage.
    pub open spec fn cleared(self) -> World {
        World { entities: reaped(self.entities, self.now), ..self }
    }

    /// The world as a new tick begins: only the tick number moves on.
    pub open spec fn started(self) -> World {
        World { now: tick_after(self.now), ..self }
    }

    /// The world just before the reaper of a tick runs.
    pub open spec fn before_reaping(self, dt: u64, evs: Seq<CollisionEvent>) -> World {
        self.started().spawned(dt).collided(evs).focused().fought(dt)
    }

    /// One tick of `dt` nanoseconds with the collision events `evs`: spawn,
    /// sensors, target acquisition, combat and reaper, in this order.
    pub open spec fn ticked(self, dt: u64, evs: Seq<CollisionEvent>) -> World {
        self.before_reaping(dt, evs).cleared()
    }

    /// The sensor stage: every collision event of `evs`, in order.
    pub open spec fn collided(self, evs: Seq<CollisionEvent>) -> World {
        World { entities: after_events(self.entities, evs), ..self }
    }
}

} // verus!
