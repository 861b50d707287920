//! The state of one lattice site.

use vstd::prelude::*;

verus! {

/// One site of the lattice.
///
/// The variant records two strategies: the one the site held before its most
/// recent transition (first letter) and the one it holds now (second letter),
/// `C` for cooperator and `D` for defector. The payload is the fitness the
/// site collected in the last fitness pass.
#[derive(Debug, Clone, Copy, PartialEq, Eq, Structural)]
pub enum Cell {
    /// Was a cooperator, is a cooperator.
    CC(i32),
    /// Was a cooperator, is a defector.
    CD(i32),
    /// Was a defector, is a defector.
    DD(i32),
    /// Was a defector, is a cooperator.
    DC(i32),
}

impl Cell {
    /// The cell with the given previous strategy, current strategy and
    /// fitness.
    pub open spec fn of(was_cooperator: bool, is_cooperator: bool, fitness: i32) -> Cell {
        if was_cooperator {
            if is_cooperator {
                Cell::CC(fitness)
            } else {
                Cell::CD(fitness)
            }
        } else {
            if is_cooperator {
                Cell::DC(fitness)
            } else {
                Cell::DD(fitness)
            }
        }
    }

    /// The cell of a site that has made no transition yet: its previous
    /// strategy equals its current one, and its fitness is zero.
    pub open spec fn fresh(is_cooperator: bool) -> Cell {
        Cell::of(is_cooperator, is_cooperator, 0)
    }

    /// Whether the current strategy is to cooperate.
    pub open spec fn spec_is_cooperator(&self) -> bool {
        self is CC || self is DC
    }

    /// Whether the strategy held before the last transition was to
    /// cooperate.
    pub open spec fn was_cooperator(&self) -> bool {
        self is CC || self is CD
    }

    /// The fitness carried by the cell.
    pub open spec fn spec_get_fitness(&self) -> i32 {
        match *self {
            Cell::CC(fitness) => fitness,
            Cell::CD(fitness) => fitness,
            Cell::DD(fitness) => fitness,
            Cell::DC(fitness) => fitness,
        }
    }

    /// The cell after a transition to the given strategy: what was current
    /// becomes previous, and the fitness is carried over.
    pub open spec fn after_transition(&self, to_cooperator: bool) -> Cell {
        Cell::of(self.spec_is_cooperator(), to_cooperator, self.spec_get_fitness())
    }

    /// The cell after one transition for each entry of `moves`, in order.
    pub open spec fn after_transitions(&self, moves: Seq<bool>) -> Cell
        decreases moves.len(),
    {
        if moves.len() == 0 {
            *self
        } else {
            self.after_transitions(moves.drop_last()).after_transition(moves.last())
        }
    }

    /// However many transitions a cell makes, and whichever, its fitness
    /// stays what it was.
    pub proof fn lemma_transitions_keep_fitness(&self, moves: Seq<bool>)
        ensures
            self.after_transitions(moves).get_fitness() == self.get_fitness(),
        decreases moves.len(),
    {
        if moves.len() > 0 {
            self.lemma_transitions_keep_fitness(moves.drop_last());
        }
    }

    /// A fresh cell: no transition has happened yet, so the previous strategy
    /// equals the current one, and the fitness is zero.
    pub fn new(is_cooperator: bool) -> (cell: Cell)
        ensures
            cell == Cell::fresh(is_cooperator),
    {
        if is_cooperator {
            Cell::CC(0)
        } else {
            Cell::DD(0)
        }
    }

    /// Whether the current strategy is to cooperate.
    #[verifier::when_used_as_spec(spec_is_cooperator)]
    pub fn is_cooperator(&self) -> (b: bool)
        ensures
            b == self.spec_is_cooperator(),
    {
        match self {
            Cell::CC(_) | Cell::DC(_) => true,
            Cell::CD(_) | Cell::DD(_) => false,
        }
    }

    /// The fitness carried by the cell.
    #[verifier::when_used_as_spec(spec_get_fitness)]
    pub fn get_fitness(&self) -> (fitness: i32)
        ensures
            fitness == self.spec_get_fitness(),
    {
        match self {
            Cell::CC(fitness) | Cell::CD(fitness) | Cell::DD(fitness) | Cell::DC(fitness) => *fitness,
        }
    }

    /// Overwrites the fitness and leaves both strategies as they are.
    pub fn set_fitness(&mut self, new_fitness: i32)
        ensures
            *final(self) == Cell::of(
                old(self).was_cooperator(),
                old(self).is_cooperator(),
                new_fitness,
            ),
    {
        *self = match *self {
            Cell::CC(_) => Cell::CC(new_fitness),
            Cell::CD(_) => Cell::CD(new_fitness),
            Cell::DD(_) => Cell::DD(new_fitness),
            Cell::DC(_) => Cell::DC(new_fitness),
        };
    }

    /// Adds `increment` to the fitness and leaves both strategies as they
    /// are. The sum has to be representable.
    pub fn increment_fitness(&mut self, increment: i32)
        requires
            i32::MIN <= old(self).get_fitness() + increment <= i32::MAX,
        ensures
            final(self).was_cooperator() == old(self).was_cooperator(),
            final(self).is_cooperator() == old(self).is_cooperator(),
            final(self).get_fitness() == old(self).get_fitness() + increment,
    {
        let fitness: i32 = self.get_fitness() + increment;
        self.set_fitness(fitness);
    }

    /// Moves the cell to the given strategy. The strategy held until now
    /// becomes the previous one; the fitness is untouched.
    pub fn update_strategy(&mut self, to_cooperator: bool)
        ensures
            *final(self) == old(self).after_transition(to_cooperator),
            final(self).get_fitness() == old(self).get_fitness(),
            final(self).was_cooperator() == old(self).is_cooperator(),
            final(self).is_cooperator() == to_cooperator,
    {
        let fitness: i32 = self.get_fitness();
        let now_cooperator: bool = self.is_cooperator();
        *self = if to_cooperator {
            if now_cooperator {
                Cell::CC(fitness)
            } else {
                Cell::DC(fitness)
            }
        } else {
            if now_cooperator {
                Cell::CD(fitness)
            } else {
                Cell::DD(fitness)
            }
        };
    }
}

} // verus!
