//! A run of the simulation: one lattice, one neighbourhood, one payoff rule.

use vstd::prelude::*;
use crate::generation::{
    check_fitness_representable,
    fitness_pass,
    fitness_representable,
    run_fitness_pass,
    run_strategy_pass,
    strategy_pass,
};
use crate::grid::Grid;
use crate::neighbourhood::{Direction, Neighbourhood};
use crate::payoff::Payoff;
use crate::rng::RngSettings;

verus! {

/// A run of the simulation.
#[derive(Debug)]
pub struct Trajectory {
    /// What tells this run from others of the same name.
    pub id: String,
    /// The name of the run.
    pub name: String,
    /// How many generations the run is meant to last.
    pub max_iterations: usize,
    /// How many generations have been recorded.
    pub curr_iteration: usize,
    /// The lattice.
    pub grid: Grid,
    /// Which sites count as neighbours.
    pub neighbourhood: Neighbourhood,
    /// What an encounter pays.
    pub payoff: Payoff,
    /// The fingerprints of the generations recorded so far.
    pub history: Vec<u64>,
}

/// What is recorded of the lattice of a run.
#[derive(Debug, PartialEq)]
pub struct GridMetadata {
    /// The number of rows and the number of columns.
    pub dimension: (i32, i32),
    /// Whether coordinates wrap around the edges.
    pub wrapped: bool,
    /// How the initial population was drawn; `None` for the lone defector.
    pub rng_settings: Option<RngSettings>,
}

/// What is recorded of a run, so that it can be told from others and run
/// again.
#[derive(Debug, PartialEq)]
pub struct TrajectoryMetadata {
    /// What tells this run from others of the same name.
    pub id: String,
    /// The name of the run.
    pub name: String,
    /// How many generations the run is meant to last.
    pub max_iterations: usize,
    /// The directions of the neighbourhood, in order.
    pub neighbourhood: Vec<Direction>,
    /// What an encounter pays.
    pub payoff: Payoff,
    /// The lattice.
    pub grid: GridMetadata,
}

impl Trajectory {
    /// What is recorded of the run: its name and id, its length, the
    /// directions of its neighbourhood, its payoff rule, and the shape of
    /// its lattice with the settings of the initial population.
    pub fn get_metadata(&self) -> (metadata: TrajectoryMetadata)
        ensures
            metadata.id == self.id,
            metadata.name == self.name,
            metadata.max_iterations == self.max_iterations,
            metadata.neighbourhood@ == self.neighbourhood@,
            metadata.payoff == self.payoff,
            metadata.grid == (GridMetadata {
                dimension: self.grid.dimension,
                wrapped: self.grid.wrapped,
                rng_settings: self.grid.rng_settings,
            }),
    {
        let directions = self.neighbourhood.get_directions();
        let mut neighbourhood: Vec<Direction> = Vec::new();
        let mut i: usize = 0;
        while i < directions.len()
            invariant
                i <= directions.len(),
                neighbourhood@ == directions@.take(i as int),
            decreases directions.len() - i,
        {
            neighbourhood.push(directions[i]);
            assert(neighbourhood@ =~= directions@.take(i + 1));
            i += 1;
        }
        assert(directions@.take(i as int) =~= directions@);
        TrajectoryMetadata {
            id: self.id.clone(),
            name: self.name.clone(),
            max_iterations: self.max_iterations,
            neighbourhood,
            payoff: self.payoff,
            grid: GridMetadata {
                dimension: self.grid.dimension,
                wrapped: self.grid.wrapped,
                rng_settings: self.grid.rng_settings,
            },
        }
    }

    /// Whether the fitness pass can run: the grid is well formed and the
    /// payoff that each site gathers can be stored as a fitness.
    pub open spec fn fitness_fits(&self) -> bool {
        &&& self.grid.well_formed()
        &&& fitness_representable(self.grid@, self.payoff.matrix, self.neighbourhood.offsets())
    }

    /// Everything but the cells of the lattice is the same in both runs.
    pub open spec fn same_setting(&self, other: &Trajectory) -> bool {
        &&& self.id == other.id
        &&& self.name == other.name
        &&& self.max_iterations == other.max_iterations
        &&& self.curr_iteration == other.curr_iteration
        &&& self.grid.dimension == other.grid.dimension
        &&& self.grid.wrapped == other.grid.wrapped
        &&& self.grid.rng_settings == other.grid.rng_settings
        &&& self.neighbourhood == other.neighbourhood
        &&& self.payoff == other.payoff
        &&& self.history == other.history
    }

    /// A run at its start: no generation recorded, no fingerprint kept.
    pub fn new(
        id: String,
        name: String,
        max_iterations: usize,
        grid: Grid,
        neighbourhood: Neighbourhood,
        payoff: Payoff,
    ) -> (trajectory: Trajectory)
        ensures
            trajectory.id == id,
            trajectory.name == name,
            trajectory.max_iterations == max_iterations,
            trajectory.curr_iteration == 0,
            trajectory.grid == grid,
            trajectory.neighbourhood == neighbourhood,
            trajectory.payoff == payoff,
            trajectory.history@ == Seq::<u64>::empty(),
    {
        Trajectory {
            id,
            name,
            max_iterations,
            curr_iteration: 0,
            grid,
            neighbourhood,
            payoff,
            history: Vec::new(),
        }
    }

    /// Whether the payoff that each site would gather in the fitness pass
    /// can be stored as a fitness.
    pub fn check_fitness_fits(&self) -> (fits: bool)
        requires
            self.grid.well_formed(),
        ensures
            fits == self.fitness_fits(),
    {
        check_fitness_representable(&self.grid, &self.neighbourhood, &self.payoff.matrix)
    }

    /// The fitness pass. Every site gathers what it earns from each of its
    /// neighbours on the lattice as it is now; a neighbour that lies
    /// outside a bounded lattice is passed over. When every site has its
    /// sum, the sums become the fitness of the sites. No strategy changes.
    pub fn update_fitness(&mut self)
        requires
            old(self).fitness_fits(),
        ensures
            final(self).grid@ == fitness_pass(
                old(self).grid@,
                old(self).payoff.matrix,
                old(self).neighbourhood.offsets(),
            ),
            final(self).grid.well_formed(),
            final(self).same_setting(old(self)),
    {
        run_fitness_pass(&mut self.grid, &self.neighbourhood, &self.payoff.matrix);
    }

    /// The strategy pass. Every site looks at itself and at its neighbours
    /// on the lattice as it is now, and keeps its strategy if that strategy
    /// is held by one of those with the highest fitness; otherwise it takes
    /// the other strategy. When every site has decided, all make their
    /// transition. No fitness changes.
    pub fn update_strategy(&mut self)
        requires
            old(self).grid.well_formed(),
        ensures
            final(self).grid@ == strategy_pass(old(self).grid@, old(self).neighbourhood.offsets()),
            final(self).grid.well_formed(),
            final(self).same_setting(old(self)),
    {
        run_strategy_pass(&mut self.grid, &self.neighbourhood);
    }
}

} // verus!
