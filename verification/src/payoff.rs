//! What a player earns from one encounter.

use vstd::prelude::*;
use crate::cell::Cell;

verus! {

/// The payoff table of the two-strategy game. Each entry is what the first
/// player earns; the first letter of its name is the first player's strategy
/// and the second letter the opponent's.
#[derive(Debug, Clone, Copy, PartialEq, Eq, Structural)]
pub struct PayoffMatrix {
    /// Cooperator against cooperator.
    pub c_c: i32,
    /// Cooperator against defector.
    pub c_d: i32,
    /// Defector against cooperator.
    pub d_c: i32,
    /// Defector against defector.
    pub d_d: i32,
}

impl PayoffMatrix {
    /// What a player with strategy `first` earns against one with strategy
    /// `second`; `true` stands for cooperation.
    pub open spec fn entry(&self, first: bool, second: bool) -> i32 {
        if first {
            if second {
                self.c_c
            } else {
                self.c_d
            }
        } else {
            if second {
                self.d_c
            } else {
                self.d_d
            }
        }
    }

    /// What `cell_1` earns from an encounter with `cell_2`.
    pub open spec fn spec_get_payoff(&self, cell_1: &Cell, cell_2: &Cell) -> i32 {
        self.entry(cell_1.is_cooperator(), cell_2.is_cooperator())
    }

    /// The table with the given four entries.
    pub fn new(c_c: i32, c_d: i32, d_c: i32, d_d: i32) -> (matrix: PayoffMatrix)
        ensures
            matrix == (PayoffMatrix { c_c, c_d, d_c, d_d }),
    {
        PayoffMatrix { c_c, c_d, d_c, d_d }
    }

    /// What `cell_1` earns from an encounter with `cell_2`. Only the current
    /// strategies of the two cells matter. The opponent's earnings are the
    /// result of the call with the arguments swapped.
    #[verifier::when_used_as_spec(spec_get_payoff)]
    pub fn get_payoff(&self, cell_1: &Cell, cell_2: &Cell) -> (payoff: i32)
        ensures
            payoff == self.spec_get_payoff(cell_1, cell_2),
    {
        if cell_1.is_cooperator() {
            if cell_2.is_cooperator() {
                self.c_c
            } else {
                self.c_d
            }
        } else {
            if cell_2.is_cooperator() {
                self.d_c
            } else {
                self.d_d
            }
        }
    }
}

/// The payoff rule of a simulation: the table of the game.
#[derive(Debug, Clone, Copy, PartialEq, Eq, Structural)]
pub struct Payoff {
    /// The table of the game.
    pub matrix: PayoffMatrix,
}

impl Payoff {
    /// What `cell_1` earns from an encounter with `cell_2`.
    pub open spec fn spec_get_payoff(&self, cell_1: &Cell, cell_2: &Cell) -> i32 {
        self.matrix.spec_get_payoff(cell_1, cell_2)
    }

    /// The rule that pays by the given table.
    pub fn new(matrix: PayoffMatrix) -> (payoff: Payoff)
        ensures
            payoff.matrix == matrix,
    {
        Payoff { matrix }
    }

    /// What `cell_1` earns from an encounter with `cell_2`: the entry of the
    /// table. Where on the lattice the encounter takes place makes no
    /// difference.
    pub fn get_payoff(&self, cell_1: &Cell, cell_2: &Cell, coordinates: Option<(i32, i32)>) -> (payoff:
        i32)
        ensures
            payoff == self.spec_get_payoff(cell_1, cell_2),
    {
        self.matrix.get_payoff(cell_1, cell_2)
    }
}

/// A payoff that depends on where a site lies on the lattice. Users supply
/// their own rule by implementing it; nothing is required of the value.
pub trait SpatialPayoff {
    /// The payoff at (`row`, `col`) of a lattice with `num_rows` rows and
    /// `num_cols` columns.
    fn calculate(&self, num_rows: usize, num_cols: usize, row: usize, col: usize) -> i32;
}

} // verus!
