use vstd::prelude::*;
use crate::components::{EntityStats, HealthStats};
use crate::rng::{rng_new, rng_range};

verus! {

/// The six attributes of a being.
#[derive(Debug, Copy, Clone, PartialEq, Eq, Structural)]
pub struct Stats {
    pub intelligence: usize,
    pub strength: usize,
    pub dexterity: usize,
    pub vitality: usize,
    pub precision: usize,
    pub charisma: usize,
}

/// The sum of the six attributes.
pub open spec fn stats_total(s: Stats) -> int {
    s.intelligence + s.vitality + s.strength + s.dexterity + s.precision + s.charisma
}

/// Random attributes, each between 1 and 20.
pub fn get_random_stats() -> (e: EntityStats)
    ensures
        1 <= e.set.intelligence <= 20,
        1 <= e.set.strength <= 20,
        1 <= e.set.dexterity <= 20,
        1 <= e.set.vitality <= 20,
        1 <= e.set.precision <= 20,
        1 <= e.set.charisma <= 20,
{
    let mut rng = rng_new();
    let intelligence = rng_range(&mut rng, 1, 21);
    let strength = rng_range(&mut rng, 1, 21);
    let dexterity = rng_range(&mut rng, 1, 21);
    let vitality = rng_range(&mut rng, 1, 21);
    let precision = rng_range(&mut rng, 1, 21);
    let charisma = rng_range(&mut rng, 1, 21);
    EntityStats::from(Stats { intelligence, strength, dexterity, vitality, precision, charisma })
}

impl Stats {
    pub fn zero() -> (s: Self)
        ensures
            s == (Stats { intelligence: 0, strength: 0, dexterity: 0, vitality: 0, precision: 0, charisma: 0 }),
    {
        Self { intelligence: 0, strength: 0, dexterity: 0, vitality: 0, precision: 0, charisma: 0 }
    }

    pub fn get_total(&self) -> (t: usize)
        requires
            stats_total(*self) <= usize::MAX,
        ensures
            t == stats_total(*self),
    {
        self.intelligence + self.vitality + self.strength + self.dexterity + self.precision + self.charisma
    }

    /// Generates complementary health stats based off the vitality: `vitality + 10` hit points
    /// and two thirds of the vitality (rounded down) as defense.
    pub fn get_health_stats(&self) -> (h: HealthStats)
        requires
            self.vitality + 10 <= u32::MAX,
            self.vitality * 2 <= usize::MAX,
        ensures
            h.hp == self.vitality + 10,
            h.max_hp == self.vitality + 10,
            h.defense == self.vitality * 2 / 3,
    {
        let max_hp = (self.vitality + 10) as u32;
        let defense = (self.vitality * 2 / 3) as u32;
        HealthStats::new(max_hp, defense)
    }
}

/// Builds the attributes of a being one at a time.
pub struct EntityStatsBuilder {
    pub stats: Stats,
}

impl EntityStatsBuilder {
    /// Initializes stats with all zeroes. Meant to be used with the extension methods `with_*something*`
    pub fn new() -> (b: Self)
        ensures
            b.stats == Stats::spec_zero(),
    {
        Self { stats: Stats { intelligence: 0, strength: 0, dexterity: 0, vitality: 0, precision: 0, charisma: 0 } }
    }

    pub fn with_intelligence(&mut self, intelligence: usize) -> (r: &mut Self)
        ensures
            r.stats == (Stats { intelligence, ..old(self).stats }),
            *final(self) == *final(r),
    {
        self.stats.intelligence = intelligence;
        self
    }

    pub fn with_strength(&mut self, strength: usize) -> (r: &mut Self)
        ensures
            r.stats == (Stats { strength, ..old(self).stats }),
            *final(self) == *final(r),
    {
        self.stats.strength = strength;
        self
    }

    pub fn with_dexterity(&mut self, dexterity: usize) -> (r: &mut Self)
        ensures
            r.stats == (Stats { dexterity, ..old(self).stats }),
            *final(self) == *final(r),
    {
        self.stats.dexterity = dexterity;
        self
    }

    pub fn with_vitality(&mut self, vitality: usize) -> (r: &mut Self)
        ensures
            r.stats == (Stats { vitality, ..old(self).stats }),
            *final(self) == *final(r),
    {
        self.stats.vitality = vitality;
        self
    }

    pub fn with_precision(&mut self, precision: usize) -> (r: &mut Self)
        ensures
            r.stats == (Stats { precision, ..old(self).stats }),
            *final(self) == *final(r),
    {
        self.stats.precision = precision;
        self
    }

    pub fn with_charisma(&mut self, charisma: usize) -> (r: &mut Self)
        ensures
            r.stats == (Stats { charisma, ..old(self).stats }),
            *final(self) == *final(r),
    {
        self.stats.charisma = charisma;
        self
    }

    /// The attributes built so far, and the health that goes with them.
    pub fn build(&mut self) -> (r: (EntityStats, HealthStats))
        requires
            old(self).stats.vitality + 10 <= u32::MAX,
            old(self).stats.vitality * 2 <= usize::MAX,
        ensures
            r.0.set == old(self).stats,
            r.1.hp == old(self).stats.vitality + 10,
            r.1.max_hp == old(self).stats.vitality + 10,
            r.1.defense == old(self).stats.vitality * 2 / 3,
            *final(self) == *old(self),
    {
        (EntityStats::from(self.stats), self.stats.get_health_stats())
    }
}

impl Stats {
    /// All six attributes zero.
    pub open spec fn spec_zero() -> Stats {
        Stats { intelligence: 0, strength: 0, dexterity: 0, vitality: 0, precision: 0, charisma: 0 }
    }
}

} // verus!
