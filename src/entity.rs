use vstd::prelude::*;
use crate::timer::Timer;

verus! {

/// Health of a freshly spawned enemy.
pub const ENEMY_HEALTH: i64 = 100;

/// What an entity is, with the state that only that kind carries.
#[derive(Clone, Copy, PartialEq, Eq, Structural, Debug)]
pub enum Role {
    /// An enemy walks towards the objective and can be shot.
    Enemy { health: i64 },
    /// A tower shoots the enemy it focuses on whenever its weapon fires.
    Tower { weapon: Timer },
}

impl Role {
    pub open spec fn is_enemy(self) -> bool {
        self is Enemy
    }

    pub open spec fn is_tower(self) -> bool {
        self is Tower
    }

    /// Enemies target towers and towers target enemies.
    pub open spec fn opposes(self, other: Role) -> bool {
        self.is_enemy() != other.is_enemy()
    }
}

/// An overlap reported by the physics engine between two sensing entities.
#[derive(Clone, Copy, PartialEq, Eq, Structural, Debug)]
pub enum CollisionEvent {
    /// The two entities began to overlap.
    Started(u64, u64),
    /// The two entities stopped overlapping.
    Stopped(u64, u64),
}

/// `c` with `x` added at the end, unless it is already there.
pub open spec fn with_member(c: Seq<u64>, x: u64) -> Seq<u64> {
    if c.contains(x) {
        c
    } else {
        c.push(x)
    }
}

/// Holds of every identifier but `x`.
pub open spec fn other_than(x: u64) -> spec_fn(u64) -> bool {
    |y: u64| y != x
}

/// Holds of every identifier that `gone` does not hold.
pub open spec fn absent_from(gone: Seq<u64>) -> spec_fn(u64) -> bool {
    |y: u64| !gone.contains(y)
}

/// `c` with every occurrence of `x` taken out, the rest in order.
pub open spec fn without_member(c: Seq<u64>, x: u64) -> Seq<u64> {
    c.filter(other_than(x))
}

/// `c` with every member of `gone` taken out, the rest in order.
pub open spec fn without_all(c: Seq<u64>, gone: Seq<u64>) -> Seq<u64> {
    c.filter(absent_from(gone))
}

/// The mathematical value of an [`Entity`].
pub struct EntityModel {
    pub id: u64,
    pub role: Role,
    pub focus: Option<u64>,
    pub colliding: Seq<u64>,
    pub dead_since: Option<u64>,
}

impl EntityModel {
    pub open spec fn is_dead(self) -> bool {
        self.dead_since is Some
    }

    pub open spec fn is_live_enemy(self) -> bool {
        self.role.is_enemy() && !self.is_dead()
    }

    /// The entity's colliding set after one collision event.
    pub open spec fn sensed(self, ev: CollisionEvent) -> EntityModel {
        match ev {
            CollisionEvent::Started(a, b) => if self.id == a {
                EntityModel { colliding: with_member(self.colliding, b), ..self }
            } else if self.id == b {
                EntityModel { colliding: with_member(self.colliding, a), ..self }
            } else {
                self
            },
            CollisionEvent::Stopped(a, b) => if self.id == a {
                EntityModel { colliding: without_member(self.colliding, b), ..self }
            } else if self.id == b {
                EntityModel { colliding: without_member(self.colliding, a), ..self }
            } else {
                self
            },
        }
    }
}

/// A fresh enemy record.
pub open spec fn new_enemy(id: u64) -> EntityModel {
    EntityModel {
        id,
        role: Role::Enemy { health: ENEMY_HEALTH },
        focus: None,
        colliding: Seq::empty(),
        dead_since: None,
    }
}

/// A fresh tower record whose weapon fires every `attack_period` nanoseconds.
pub open spec fn new_tower(id: u64, attack_period: u64) -> EntityModel {
    EntityModel {
        id,
        role: Role::Tower {
            weapon: Timer {
                period: attack_period,
                elapsed: 0,
                repeating: true,
                finished: false,
                just_fired: false,
            },
        },
        focus: None,
        colliding: Seq::empty(),
        dead_since: None,
    }
}

/// One record of the entity table.
pub struct Entity {
    pub id: u64,
    pub role: Role,
    /// The entity this one concentrates on, if any.
    pub focus: Option<u64>,
    /// The entities overlapping this one's sensor, in the order they arrived.
    pub colliding: Vec<u64>,
    /// The tick on which this entity was flagged dead.
    pub dead_since: Option<u64>,
}

impl View for Entity {
    type V = EntityModel;

    open spec fn view(&self) -> EntityModel {
        EntityModel {
            id: self.id,
            role: self.role,
            focus: self.focus,
            colliding: self.colliding@,
            dead_since: self.dead_since,
        }
    }
}

/// Whether `v` holds `x`.
pub fn holds(v: &Vec<u64>, x: u64) -> (r: bool)
    ensures
        r == v@.contains(x),
{
    let mut i: usize = 0;
    while i < v.len()
        invariant
            i <= v@.len(),
            forall|k: int| 0 <= k < i ==> v@[k] != x,
        decreases v@.len() - i,
    {
        if v[i] == x {
            return true;
        }
        i = i + 1;
    }
    false
}

/// The members of `c` that are not in `gone`, in order.
pub fn retain_absent(c: &Vec<u64>, gone: &Vec<u64>) -> (r: Vec<u64>)
    ensures
        r@ == without_all(c@, gone@),
{
    let mut r: Vec<u64> = Vec::new();
    let mut i: usize = 0;
    while i < c.len()
        invariant
            i <= c@.len(),
            r@ == without_all(c@.take(i as int), gone@),
        decreases c@.len() - i,
    {
        let x = c[i];
        let keep = !holds(gone, x);
        proof {
            assert(c@.take(i + 1) =~= c@.take(i as int).push(x));
            c@.take(i as int).lemma_filter_push(x, absent_from(gone@));
        }
        if keep {
            r.push(x);
        }
        i = i + 1;
    }
    assert(c@.take(c@.len() as int) =~= c@);
    r
}

/// The members of `c` other than `x`, in order.
pub fn retain_other(c: &Vec<u64>, x: u64) -> (r: Vec<u64>)
    ensures
        r@ == without_member(c@, x),
{
    let mut r: Vec<u64> = Vec::new();
    let mut i: usize = 0;
    while i < c.len()
        invariant
            i <= c@.len(),
            r@ == without_member(c@.take(i as int), x),
        decreases c@.len() - i,
    {
        let y = c[i];
        proof {
            assert(c@.take(i + 1) =~= c@.take(i as int).push(y));
            c@.take(i as int).lemma_filter_push(y, other_than(x));
        }
        if y != x {
            r.push(y);
        }
        i = i + 1;
    }
    assert(c@.take(c@.len() as int) =~= c@);
    r
}

impl Entity {
    /// A fresh enemy record.
    pub fn enemy(id: u64) -> (e: Entity)
        ensures
            e@ == new_enemy(id),
    {
        Entity {
            id,
            role: Role::Enemy { health: ENEMY_HEALTH },
            focus: None,
            colliding: Vec::new(),
            dead_since: None,
        }
    }

    /// A fresh tower record.
    pub fn tower(id: u64, attack_period: u64) -> (e: Entity)
        ensures
            e@ == new_tower(id, attack_period),
    {
        Entity {
            id,
            role: Role::Tower { weapon: Timer::repeating(attack_period) },
            focus: None,
            colliding: Vec::new(),
            dead_since: None,
        }
    }

    fn join(&mut self, x: u64)
        ensures
            final(self)@ == (EntityModel { colliding: with_member(old(self)@.colliding, x), ..old(self)@ }),
    {
        if !holds(&self.colliding, x) {
            self.colliding.push(x);
        }
    }

    fn leave(&mut self, x: u64)
        ensures
            final(self)@ == (EntityModel { colliding: without_member(old(self)@.colliding, x), ..old(self)@ }),
    {
        self.colliding = retain_other(&self.colliding, x);
    }

    /// Applies one collision event to this entity's colliding set.
    pub fn sense(&mut self, ev: CollisionEvent)
        ensures
            final(self)@ == old(self)@.sensed(ev),
    {
        match ev {
            CollisionEvent::Started(a, b) => {
                if self.id == a {
                    self.join(b);
                } else if self.id == b {
                    self.join(a);
                }
            },
            CollisionEvent::Stopped(a, b) => {
                if self.id == a {
                    self.leave(b);
                } else if self.id == b {
                    self.leave(a);
                }
            },
        }
    }

    /// The health of an enemy; none for a tower.
    pub fn health(&self) -> (r: Option<i64>)
        ensures
            r == (match self.role {
                Role::Enemy { health } => Some(health),
                Role::Tower { .. } => None,
            }),
    {
        match self.role {
            Role::Enemy { health } => Some(health),
            Role::Tower { .. } => None,
        }
    }

    /// The health of an enemy as it is shown to the player: never below zero.
    pub fn shown_health(&self) -> (r: Option<i64>)
        ensures
            r == (match self.role {
                Role::Enemy { health } => Some(if health < 0 {
                    0
                } else {
                    health
                }),
                Role::Tower { .. } => None,
            }),
    {
        match self.role {
            Role::Enemy { health } => Some(if health < 0 {
                0
            } else {
                health
            }),
            Role::Tower { .. } => None,
        }
    }

    /// The weapon timer of a tower; none for an enemy.
    pub fn weapon(&self) -> (r: Option<Timer>)
        ensures
            r == (match self.role {
                Role::Enemy { .. } => None,
                Role::Tower { weapon } => Some(weapon),
            }),
    {
        match self.role {
            Role::Enemy { .. } => None,
            Role::Tower { weapon } => Some(weapon),
        }
    }

    /// Whether the entity is flagged dead.
    pub fn is_dead(&self) -> (r: bool)
        ensures
            r == self@.is_dead(),
    {
        self.dead_since.is_some()
    }
}

} // verus!
