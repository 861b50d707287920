//! A player's record outside of any lattice.

use vstd::prelude::*;

verus! {

/// A player's pair of strategies and the fitness it has collected.
///
/// The first letter of the variant is the strategy the player held before,
/// the second the one it holds now; `C` stands for cooperation and `D` for
/// defection. The payload is the fitness.
#[derive(Debug, Clone, Copy, PartialEq, Eq, Structural)]
pub enum Strategy {
    /// Was a cooperator, is a cooperator.
    CC(i32),
    /// Was a cooperator, is a defector.
    CD(i32),
    /// Was a defector, is a defector.
    DD(i32),
    /// Was a defector, is a cooperator.
    DC(i32),
}

impl Strategy {
    /// The record with the given previous strategy, current strategy and
    /// fitness.
    pub open spec fn of(was_cooperator: bool, is_cooperator: bool, fitness: i32) -> Strategy {
        if was_cooperator {
            if is_cooperator {
                Strategy::CC(fitness)
            } else {
                Strategy::CD(fitness)
            }
        } else {
            if is_cooperator {
                Strategy::DC(fitness)
            } else {
                Strategy::DD(fitness)
            }
        }
    }

    /// Whether the current strategy is to cooperate.
    pub open spec fn spec_is_cooperator(&self) -> bool {
        self is CC || self is DC
    }

    /// Whether the previous strategy was to cooperate.
    pub open spec fn was_cooperator(&self) -> bool {
        self is CC || self is CD
    }

    /// The fitness of the record.
    pub open spec fn spec_get_fitness(&self) -> i32 {
        match *self {
            Strategy::CC(fitness) => fitness,
            Strategy::CD(fitness) => fitness,
            Strategy::DD(fitness) => fitness,
            Strategy::DC(fitness) => fitness,
        }
    }

    /// The record of a player that never changed its strategy and has
    /// collected nothing yet.
    pub fn new(is_cooperator: bool) -> (strategy: Strategy)
        ensures
            strategy == Strategy::of(is_cooperator, is_cooperator, 0),
    {
        if is_cooperator {
            Strategy::CC(0)
        } else {
            Strategy::DD(0)
        }
    }

    /// Whether the current strategy is to cooperate.
    #[verifier::when_used_as_spec(spec_is_cooperator)]
    pub fn is_cooperator(&self) -> (b: bool)
        ensures
            b == self.spec_is_cooperator(),
    {
        match self {
            Strategy::CC(_) | Strategy::DC(_) => true,
            Strategy::CD(_) | Strategy::DD(_) => false,
        }
    }

    /// The fitness of the record.
    #[verifier::when_used_as_spec(spec_get_fitness)]
    pub fn get_fitness(&self) -> (fitness: i32)
        ensures
            fitness == self.spec_get_fitness(),
    {
        match self {
            Strategy::CC(fitness)
            | Strategy::CD(fitness)
            | Strategy::DD(fitness)
            | Strategy::DC(fitness) => *fitness,
        }
    }

    /// Overwrites the fitness and leaves both strategies as they are.
    pub fn set_fitness(&mut self, new_fitness: i32)
        ensures
            *final(self) == Strategy::of(
                old(self).was_cooperator(),
                old(self).is_cooperator(),
                new_fitness,
            ),
    {
        *self = match *self {
            Strategy::CC(_) => Strategy::CC(new_fitness),
            Strategy::CD(_) => Strategy::CD(new_fitness),
            Strategy::DD(_) => Strategy::DD(new_fitness),
            Strategy::DC(_) => Strategy::DC(new_fitness),
        };
    }

    /// Adds `increment` to the fitness and leaves both strategies as they
    /// are. The sum has to be representable.
    pub fn increment_fitness(&mut self, increment: i32)
        requires
            i32::MIN <= old(self).get_fitness() + increment <= i32::MAX,
        ensures
            final(self).was_cooperator() == old(self).was_cooperator(),
            final(self).is_cooperator() == old(self).is_cooperator(),
            final(self).get_fitness() == old(self).get_fitness() + increment,
    {
        let fitness: i32 = self.get_fitness() + increment;
        self.set_fitness(fitness);
    }
}

} // verus!
