use vstd::prelude::*;
use crate::entity::{CollisionEvent, EntityModel, Role, new_enemy, without_all};
use crate::world::{
    World, acquired, after_events, combat_upto, expired, flag_matches_health, is_kept,
    live_enemies, purge_of, purged, reaped, removed_ids, sensed_by, tick_after,
};

verus! {

/// What combat may do to one record: a record flagged dead is left as it
/// was, and a record is only ever flagged on the tick `now`.
pub open spec fn combat_keeps(x: EntityModel, y: EntityModel, now: u64) -> bool {
    &&& y.id == x.id
    &&& y.focus == x.focus
    &&& y.colliding == x.colliding
    &&& y.role.is_enemy() == x.role.is_enemy()
    &&& x.is_dead() ==> y.role == x.role && y.dead_since == x.dead_since
    &&& y.dead_since == x.dead_since || (!x.is_dead() && y.dead_since == Some(now))
}

/// The record keeps its identifier, role, flag and target.
pub open spec fn sensing_keeps(x: EntityModel, y: EntityModel) -> bool {
    &&& y.id == x.id
    &&& y.role == x.role
    &&& y.dead_since == x.dead_since
    &&& y.focus == x.focus
}

proof fn lemma_live_push(s: Seq<EntityModel>, x: EntityModel)
    ensures
        live_enemies(s.push(x)) == live_enemies(s) + if x.is_live_enemy() {
            1nat
        } else {
            0nat
        },
{
    assert(s.push(x).drop_last() =~= s);
}

proof fn lemma_live_monotone(s1: Seq<EntityModel>, s2: Seq<EntityModel>)
    requires
        s1.len() == s2.len(),
        forall|i: int| 0 <= i < s1.len() && (#[trigger] s2[i]).is_live_enemy() ==> s1[i].is_live_enemy(),
    ensures
        live_enemies(s2) <= live_enemies(s1),
    decreases s1.len(),
{
    if s1.len() > 0 {
        let (p1, p2) = (s1.drop_last(), s2.drop_last());
        assert forall|i: int| 0 <= i < p1.len() && (#[trigger] p2[i]).is_live_enemy() implies p1[i].is_live_enemy() by {
            assert(p2[i] == s2[i]);
            assert(p1[i] == s1[i]);
        }
        lemma_live_monotone(p1, p2);
    }
}

proof fn lemma_live_reaped(s: Seq<EntityModel>, now: u64, gone: Seq<u64>)
    ensures
        live_enemies(s.filter(is_kept(now)).map_values(purge_of(gone))) == live_enemies(s),
    decreases s.len(),
{
    if s.len() == 0 {
        s.lemma_filter_len(is_kept(now));
        assert(s.filter(is_kept(now)).map_values(purge_of(gone)) =~= Seq::<EntityModel>::empty());
    } else {
        let p = s.drop_last();
        let x = s.last();
        assert(s =~= p.push(x));
        p.lemma_filter_push(x, is_kept(now));
        lemma_live_reaped(p, now, gone);
        let f = p.filter(is_kept(now));
        if !expired(x, now) {
            assert(f.push(x).map_values(purge_of(gone)) =~= f.map_values(purge_of(gone)).push(
                purged(x, gone),
            ));
            lemma_live_push(f.map_values(purge_of(gone)), purged(x, gone));
        }
        lemma_live_push(p, x);
    }
}

proof fn lemma_events_keep(s: Seq<EntityModel>, evs: Seq<CollisionEvent>)
    ensures
        after_events(s, evs).len() == s.len(),
        forall|m: int| 0 <= m < s.len() ==> sensing_keeps(s[m], #[trigger] after_events(s, evs)[m]),
    decreases evs.len(),
{
    if evs.len() > 0 {
        lemma_events_keep(s, evs.drop_last());
        let p = after_events(s, evs.drop_last());
        assert forall|m: int| 0 <= m < s.len() implies sensing_keeps(s[m], #[trigger] after_events(s, evs)[m]) by {
            assert(sensed_by(p, evs.last())[m] == p[m].sensed(evs.last()));
            assert(sensing_keeps(s[m], p[m]));
        }
    }
}

proof fn lemma_attack_step(s: Seq<EntityModel>, i: int, dt: u64, damage: u32, now: u64)
    requires
        0 <= i < s.len(),
        forall|m: int| 0 <= m < s.len() ==> flag_matches_health(#[trigger] s[m]),
    ensures
        crate::world::attack(s, i, dt, damage, now).len() == s.len(),
        forall|m: int|
            0 <= m < s.len() ==> combat_keeps(
                s[m],
                #[trigger] crate::world::attack(s, i, dt, damage, now)[m],
                now,
            ) && flag_matches_health(crate::world::attack(s, i, dt, damage, now)[m]),
{
    let a = crate::world::attack(s, i, dt, damage, now);
    let e = s[i];
    if let Role::Tower { weapon } = e.role {
        if let Some(t) = e.focus {
            if !e.is_dead() {
                let w = weapon.advanced(dt);
                let s1 = s.update(i, EntityModel { role: Role::Tower { weapon: w }, ..e });
                assert forall|m: int| 0 <= m < s.len() implies combat_keeps(s[m], #[trigger] s1[m], now)
                    && flag_matches_health(s1[m]) by {
                    assert(flag_matches_health(s[m]));
                }
                if w.just_fired && crate::world::live_enemy_named(s1, t) {
                    let j = choose|j: int| 0 <= j < s1.len() && s1[j].id == t && s1[j].is_live_enemy();
                    assert(a == s1.update(j, crate::world::struck(s1[j], damage, now)));
                    assert forall|m: int| 0 <= m < s.len() implies combat_keeps(s[m], #[trigger] a[m], now)
                        && flag_matches_health(a[m]) by {
                        if m == j {
                            assert(combat_keeps(s[m], s1[m], now));
                            assert(flag_matches_health(s1[m]));
                        } else {
                            assert(a[m] == s1[m]);
                        }
                    }
                }
            }
        }
    }
}

proof fn lemma_combat(s: Seq<EntityModel>, k: nat, dt: u64, damage: u32, now: u64)
    requires
        k <= s.len(),
        forall|m: int| 0 <= m < s.len() ==> flag_matches_health(#[trigger] s[m]),
    ensures
        combat_upto(s, k, dt, damage, now).len() == s.len(),
        forall|m: int|
            0 <= m < s.len() ==> combat_keeps(s[m], #[trigger] combat_upto(s, k, dt, damage, now)[m], now)
                && flag_matches_health(combat_upto(s, k, dt, damage, now)[m]),
    decreases k,
{
    if k > 0 {
        lemma_combat(s, (k - 1) as nat, dt, damage, now);
        let p = combat_upto(s, (k - 1) as nat, dt, damage, now);
        assert forall|m: int| 0 <= m < p.len() implies flag_matches_health(#[trigger] p[m]) by {}
        lemma_attack_step(p, k - 1, dt, damage, now);
        assert forall|m: int|
            0 <= m < s.len() implies combat_keeps(s[m], #[trigger] combat_upto(s, k, dt, damage, now)[m], now)
                && flag_matches_health(combat_upto(s, k, dt, damage, now)[m]) by {
            assert(combat_keeps(s[m], p[m], now));
            assert(combat_keeps(p[m], crate::world::attack(p, k - 1, dt, damage, now)[m], now));
        }
    }
}

proof fn lemma_reaped_origin(s: Seq<EntityModel>, now: u64, j: int)
    requires
        0 <= j < reaped(s, now).len(),
    ensures
        exists|k: int|
            0 <= k < s.len() && !expired(s[k], now) && #[trigger] reaped(s, now)[j] == purged(
                s[k],
                removed_ids(s, now),
            ),
{
    let f = s.filter(is_kept(now));
    s.lemma_filter_pred(is_kept(now), j);
    assert(f.contains(f[j]));
    s.lemma_filter_contains_rev(is_kept(now), f[j]);
    let k = choose|k: int| 0 <= k < s.len() && s[k] == f[j];
    assert(reaped(s, now)[j] == purged(s[k], removed_ids(s, now)));
}

/// Facts about the table just before the reaper, record by record.
proof fn lemma_before_reaping(w: World, dt: u64, evs: Seq<CollisionEvent>)
    requires
        w.wf(),
    ensures
        ({
            let o = w.entities;
            let sp = w.started().spawned(dt).entities;
            let c = after_events(sp, evs);
            let a = acquired(c);
            let b = w.before_reaping(dt, evs).entities;
            &&& b.len() == sp.len()
            &&& sp.len() == o.len() || sp.len() == o.len() + 1
            &&& forall|k: int| 0 <= k < o.len() ==> sp[k] == o[k]
            &&& sp.len() == o.len() + 1 ==> sp[o.len() as int] == new_enemy(w.next_id)
            &&& forall|k: int| 0 <= k < sp.len() ==> sensing_keeps(sp[k], #[trigger] c[k])
            &&& a.len() == sp.len()
            &&& forall|k: int| 0 <= k < sp.len() ==> combat_keeps(#[trigger] a[k], b[k], tick_after(w.now))
            &&& forall|k: int| 0 <= k < sp.len() ==> flag_matches_health(#[trigger] b[k])
        }),
{
    let o = w.entities;
    let w1 = w.started().spawned(dt);
    let sp = w1.entities;
    let c = after_events(sp, evs);
    let a = acquired(c);
    lemma_events_keep(sp, evs);
    assert forall|k: int| 0 <= k < sp.len() implies flag_matches_health(#[trigger] sp[k]) by {
        if k < o.len() {
            assert(flag_matches_health(o[k]));
        }
    }
    assert forall|k: int| 0 <= k < a.len() implies flag_matches_health(#[trigger] a[k]) by {
        assert(sensing_keeps(sp[k], c[k]));
        assert(flag_matches_health(sp[k]));
    }
    lemma_combat(a, a.len(), dt, w.config.damage_per_hit, tick_after(w.now));
}

/// Every record after a tick comes from the record at the same place before
/// the reaper, which the reaper kept.
proof fn lemma_after_tick_origin(w: World, dt: u64, evs: Seq<CollisionEvent>, j: int)
    requires
        0 <= j < w.ticked(dt, evs).entities.len(),
    ensures
        exists|k: int|
            0 <= k < w.before_reaping(dt, evs).entities.len() && #[trigger] w.ticked(dt, evs).entities[j]
                == purged(
                w.before_reaping(dt, evs).entities[k],
                removed_ids(w.before_reaping(dt, evs).entities, tick_after(w.now)),
            ),
{
    lemma_reaped_origin(w.before_reaping(dt, evs).entities, tick_after(w.now), j);
}

/// Over one tick the number of live enemies does not rise above `max_count`,
/// when it was not above it before the tick.
pub proof fn population_cap_holds(w: World, dt: u64, evs: Seq<CollisionEvent>)
    requires
        w.wf(),
        live_enemies(w.entities) <= w.config.max_count,
    ensures
        live_enemies(w.ticked(dt, evs).entities) <= w.config.max_count,
{
    let o = w.entities;
    let sp = w.started().spawned(dt).entities;
    let c = after_events(sp, evs);
    let a = acquired(c);
    let b = w.before_reaping(dt, evs).entities;
    let now = tick_after(w.now);
    lemma_before_reaping(w, dt, evs);
    if sp.len() == o.len() + 1 {
        assert(sp =~= o.push(new_enemy(w.next_id)));
        lemma_live_push(o, new_enemy(w.next_id));
    } else {
        assert(sp =~= o);
    }
    crate::world::lemma_same_identities(sp, c);
    crate::world::lemma_same_identities(c, a);
    assert forall|i: int| 0 <= i < a.len() && (#[trigger] b[i]).is_live_enemy() implies a[i].is_live_enemy() by {
        assert(combat_keeps(a[i], b[i], now));
    }
    lemma_live_monotone(a, b);
    lemma_live_reaped(b, now, removed_ids(b, now));
}

/// A record that was in the table before a tick and is in it after the tick
/// comes from the record at the same place before the reaper.
proof fn lemma_tracked(w: World, dt: u64, evs: Seq<CollisionEvent>, i: int, j: int)
    requires
        w.wf(),
        0 <= i < w.entities.len(),
        0 <= j < w.ticked(dt, evs).entities.len(),
        w.ticked(dt, evs).entities[j].id == w.entities[i].id,
    ensures
        w.ticked(dt, evs).entities[j] == purged(
            w.before_reaping(dt, evs).entities[i],
            removed_ids(w.before_reaping(dt, evs).entities, tick_after(w.now)),
        ),
{
    let o = w.entities;
    let sp = w.started().spawned(dt).entities;
    let c = after_events(sp, evs);
    let a = acquired(c);
    let b = w.before_reaping(dt, evs).entities;
    let now = tick_after(w.now);
    lemma_before_reaping(w, dt, evs);
    lemma_after_tick_origin(w, dt, evs, j);
    let k = choose|k: int|
        0 <= k < b.len() && #[trigger] w.ticked(dt, evs).entities[j] == purged(b[k], removed_ids(b, now));
    assert(sensing_keeps(sp[k], c[k]));
    assert(combat_keeps(a[k], b[k], now));
    assert(a[k].id == c[k].id);
    if k < o.len() {
        assert(sp[k] == o[k]);
    } else {
        assert(sp[k] == new_enemy(w.next_id));
    }
}

/// A record flagged dead keeps its flag and its role, health included, for as
/// long as it stays in the table.
pub proof fn dead_records_stay_frozen(w: World, dt: u64, evs: Seq<CollisionEvent>, i: int, j: int)
    requires
        w.wf(),
        0 <= i < w.entities.len(),
        w.entities[i].is_dead(),
        0 <= j < w.ticked(dt, evs).entities.len(),
        w.ticked(dt, evs).entities[j].id == w.entities[i].id,
    ensures
        w.ticked(dt, evs).entities[j].dead_since == w.entities[i].dead_since,
        w.ticked(dt, evs).entities[j].role == w.entities[i].role,
{
    let sp = w.started().spawned(dt).entities;
    let c = after_events(sp, evs);
    let a = acquired(c);
    let b = w.before_reaping(dt, evs).entities;
    lemma_before_reaping(w, dt, evs);
    lemma_tracked(w, dt, evs, i, j);
    assert(sensing_keeps(sp[i], c[i]));
    assert(combat_keeps(a[i], b[i], tick_after(w.now)));
}

/// An entity keeps its target over a tick when the target is still in its
/// colliding set at the end of the tick.
pub proof fn focus_is_stable(w: World, dt: u64, evs: Seq<CollisionEvent>, i: int, j: int, t: u64)
    requires
        w.wf(),
        0 <= i < w.entities.len(),
        w.entities[i].focus == Some(t),
        0 <= j < w.ticked(dt, evs).entities.len(),
        w.ticked(dt, evs).entities[j].id == w.entities[i].id,
        w.ticked(dt, evs).entities[j].colliding.contains(t),
    ensures
        w.ticked(dt, evs).entities[j].focus == Some(t),
{
    let sp = w.started().spawned(dt).entities;
    let c = after_events(sp, evs);
    let a = acquired(c);
    let b = w.before_reaping(dt, evs).entities;
    let now = tick_after(w.now);
    lemma_before_reaping(w, dt, evs);
    lemma_tracked(w, dt, evs, i, j);
    assert(sensing_keeps(sp[i], c[i]));
    assert(combat_keeps(a[i], b[i], now));
    let gone = removed_ids(b, now);
    assert(without_all(b[i].colliding, gone).contains(t));
    b[i].colliding.lemma_filter_contains_rev(crate::entity::absent_from(gone), t);
    assert(a[i].colliding.contains(t));
}

/// An enemy that is live before a tick is, after the tick, flagged dead
/// exactly when its health is at or below zero, and then with this tick's
/// number.
pub proof fn death_flag_on_the_fatal_tick(w: World, dt: u64, evs: Seq<CollisionEvent>, i: int, j: int)
    requires
        w.wf(),
        0 <= i < w.entities.len(),
        w.entities[i].is_live_enemy(),
        0 <= j < w.ticked(dt, evs).entities.len(),
        w.ticked(dt, evs).entities[j].id == w.entities[i].id,
    ensures
        w.ticked(dt, evs).entities[j].role.is_enemy(),
        flag_matches_health(w.ticked(dt, evs).entities[j]),
        w.ticked(dt, evs).entities[j].is_dead() ==> w.ticked(dt, evs).entities[j].dead_since == Some(
            w.ticked(dt, evs).now,
        ),
{
    let sp = w.started().spawned(dt).entities;
    let c = after_events(sp, evs);
    let a = acquired(c);
    let b = w.before_reaping(dt, evs).entities;
    lemma_before_reaping(w, dt, evs);
    lemma_tracked(w, dt, evs, i, j);
    assert(sensing_keeps(sp[i], c[i]));
    assert(combat_keeps(a[i], b[i], tick_after(w.now)));
    assert(flag_matches_health(b[i]));
}

} // verus!
