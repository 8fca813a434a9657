use vstd::prelude::*;

verus! {

/// Tunable parameters of the simulation, read by every stage of a tick.
///
/// Periods are in nanoseconds.
#[derive(Clone, Copy, PartialEq, Eq, Structural, Debug)]
pub struct Configuration {
    /// Most live enemies that the spawner lets exist at once.
    pub max_count: u64,
    /// Health taken from the target by one shot of a tower.
    pub damage_per_hit: u32,
    /// Time between two shots of a tower's weapon.
    pub attack_period: u64,
    /// Time between two spawn attempts.
    pub spawn_period: u64,
}

impl Default for Configuration {
    /// One enemy at a time, ten damage every half second, a spawn attempt every
    /// two seconds.
    fn default() -> (c: Configuration)
        ensures
            c == (Configuration {
                max_count: 1,
                damage_per_hit: 10,
                attack_period: 500_000_000,
                spawn_period: 2_000_000_000,
            }),
    {
        Configuration {
            max_count: 1,
            damage_per_hit: 10,
            attack_period: 500_000_000,
            spawn_period: 2_000_000_000,
        }
    }
}

} // verus!
