//! One generation: the fitness pass, then the strategy pass.
//!
//! Both passes read the lattice as it was when the pass began. What a pass
//! computes for a site is written only after it has been computed for every
//! site.

use vstd::prelude::*;
use crate::cell::Cell;
use crate::fingerprint::{digest_after, lemma_tag_reads_strategies};
use crate::grid::{Grid, GridView};
use crate::neighbourhood::{Direction, Neighbourhood};
use crate::payoff::PayoffMatrix;

verus! {

/// The cell that lies one `offset` away from the site at position `site`,
/// if there is one. An offset is (columns, rows).
pub open spec fn neighbour(grid: GridView, site: int, offset: (i32, i32)) -> Option<Cell> {
    grid.cell(grid.row_of(site) + offset.1, grid.col_of(site) + offset.0)
}

/// What the site earns from the neighbour one `offset` away: the entry of
/// the table for the two current strategies, and nothing where no neighbour
/// lies there.
pub open spec fn earned_from(
    grid: GridView,
    matrix: PayoffMatrix,
    site: int,
    offset: (i32, i32),
) -> int {
    match neighbour(grid, site, offset) {
        Some(other) => matrix.spec_get_payoff(&grid.cells[site], &other) as int,
        None => 0,
    }
}

/// The sum of what the site earns from the neighbours at the given offsets.
/// An offset that occurs twice counts twice.
pub open spec fn gathered_payoff(
    grid: GridView,
    matrix: PayoffMatrix,
    offsets: Seq<(i32, i32)>,
    site: int,
) -> int
    decreases offsets.len(),
{
    if offsets.len() == 0 {
        0
    } else {
        gathered_payoff(grid, matrix, offsets.drop_last(), site) + earned_from(
            grid,
            matrix,
            site,
            offsets.last(),
        )
    }
}

/// Whether the payoff that each site gathers can be stored as a fitness.
pub open spec fn fitness_representable(
    grid: GridView,
    matrix: PayoffMatrix,
    offsets: Seq<(i32, i32)>,
) -> bool {
    forall|site: int|
        0 <= site < grid.cells.len() ==> i32::MIN <= #[trigger] gathered_payoff(
            grid,
            matrix,
            offsets,
            site,
        ) <= i32::MAX
}

/// The lattice after the fitness pass: every site keeps its two strategies,
/// and its fitness is the payoff it gathers on the lattice as it was.
pub open spec fn fitness_pass(
    grid: GridView,
    matrix: PayoffMatrix,
    offsets: Seq<(i32, i32)>,
) -> GridView {
    GridView {
        rows: grid.rows,
        cols: grid.cols,
        wrapped: grid.wrapped,
        cells: Seq::new(
            grid.cells.len(),
            |site: int|
                Cell::of(
                    grid.cells[site].was_cooperator(),
                    grid.cells[site].is_cooperator(),
                    gathered_payoff(grid, matrix, offsets, site) as i32,
                ),
        ),
    }
}

/// The highest fitness among the candidates of a site: the site itself and
/// its neighbours at the given offsets.
pub open spec fn best_fitness(grid: GridView, offsets: Seq<(i32, i32)>, site: int) -> int
    decreases offsets.len(),
{
    if offsets.len() == 0 {
        grid.cells[site].get_fitness() as int
    } else {
        let among_rest = best_fitness(grid, offsets.drop_last(), site);
        match neighbour(grid, site, offsets.last()) {
            Some(other) => if other.get_fitness() > among_rest {
                other.get_fitness() as int
            } else {
                among_rest
            },
            None => among_rest,
        }
    }
}

/// Whether the neighbour at the `k`-th offset exists, has fitness `target`
/// and holds the same strategy as the site.
pub open spec fn backs(
    grid: GridView,
    offsets: Seq<(i32, i32)>,
    site: int,
    target: int,
    k: int,
) -> bool {
    neighbour(grid, site, offsets[k]) matches Some(other) && other.get_fitness() == target
        && other.is_cooperator() == grid.cells[site].is_cooperator()
}

/// Whether the site keeps its strategy: whether some candidate of the best
/// fitness holds the strategy that the site holds. The site is a candidate
/// itself.
pub open spec fn keeps_strategy(grid: GridView, offsets: Seq<(i32, i32)>, site: int) -> bool {
    let best = best_fitness(grid, offsets, site);
    grid.cells[site].get_fitness() == best || exists|k: int|
        0 <= k < offsets.len() && #[trigger] backs(grid, offsets, site, best, k)
}

/// The strategy of the site in the next generation: its own where it keeps
/// it, the other one where it does not.
pub open spec fn next_strategy(grid: GridView, offsets: Seq<(i32, i32)>, site: int) -> bool {
    if keeps_strategy(grid, offsets, site) {
        grid.cells[site].is_cooperator()
    } else {
        !grid.cells[site].is_cooperator()
    }
}

/// The lattice after the strategy pass: every site makes the transition to
/// its next strategy, decided on the lattice as it was.
pub open spec fn strategy_pass(grid: GridView, offsets: Seq<(i32, i32)>) -> GridView {
    GridView {
        rows: grid.rows,
        cols: grid.cols,
        wrapped: grid.wrapped,
        cells: Seq::new(
            grid.cells.len(),
            |site: int| grid.cells[site].after_transition(next_strategy(grid, offsets, site)),
        ),
    }
}

/// The lattice one generation later: the fitness pass, then the strategy
/// pass on its result.
pub open spec fn generation(
    grid: GridView,
    matrix: PayoffMatrix,
    offsets: Seq<(i32, i32)>,
) -> GridView {
    strategy_pass(fitness_pass(grid, matrix, offsets), offsets)
}

/// Two lattices of the same shape on which every site holds the same
/// current strategy.
pub open spec fn same_play(a: GridView, b: GridView) -> bool {
    &&& a.rows == b.rows
    &&& a.cols == b.cols
    &&& a.wrapped == b.wrapped
    &&& a.cells.len() == b.cells.len()
    &&& forall|site: int|
        0 <= site < a.cells.len() ==> (#[trigger] a.cells[site]).is_cooperator()
            == b.cells[site].is_cooperator()
}

/// Two lattices of the same shape on which every site holds the same
/// current strategy and the same fitness.
pub open spec fn same_standing(a: GridView, b: GridView) -> bool {
    &&& same_play(a, b)
    &&& forall|site: int|
        0 <= site < a.cells.len() ==> (#[trigger] a.cells[site]).get_fitness()
            == b.cells[site].get_fitness()
}

/// Whether a site has a neighbour one `offset` away depends on the shape of
/// the lattice alone, and so does the position of that neighbour.
pub proof fn lemma_neighbour_position(a: GridView, b: GridView, site: int, offset: (i32, i32))
    requires
        a.well_formed(),
        same_play(a, b),
        0 <= site < a.cells.len(),
    ensures
        neighbour(a, site, offset).is_some() == neighbour(b, site, offset).is_some(),
        neighbour(a, site, offset) matches Some(in_a) ==> {
            &&& neighbour(b, site, offset) matches Some(in_b)
            &&& in_a.is_cooperator() == in_b.is_cooperator()
            &&& (same_standing(a, b) ==> in_a.get_fitness() == in_b.get_fitness())
        },
{
    let row = a.row_of(site) + offset.1;
    let col = a.col_of(site) + offset.0;
    a.lemma_index_in_bounds(row, col);
    assert(a.index(row, col) == b.index(row, col));
    if a.index(row, col).is_some() {
        let position = a.index(row, col).unwrap();
        assert(a.cells[position].is_cooperator() == b.cells[position].is_cooperator());
        if same_standing(a, b) {
            assert(a.cells[position].get_fitness() == b.cells[position].get_fitness());
        }
    }
}

/// The payoff that a site gathers is decided by the current strategies on
/// the lattice: neither the fitness of any cell nor its previous strategy
/// has a part in it.
pub proof fn lemma_payoff_reads_strategies(
    a: GridView,
    b: GridView,
    matrix: PayoffMatrix,
    offsets: Seq<(i32, i32)>,
    site: int,
)
    requires
        a.well_formed(),
        same_play(a, b),
        0 <= site < a.cells.len(),
    ensures
        gathered_payoff(a, matrix, offsets, site) == gathered_payoff(b, matrix, offsets, site),
    decreases offsets.len(),
{
    if offsets.len() > 0 {
        lemma_payoff_reads_strategies(a, b, matrix, offsets.drop_last(), site);
        lemma_neighbour_position(a, b, site, offsets.last());
        assert(a.cells[site].is_cooperator() == b.cells[site].is_cooperator());
    }
}

/// The best fitness around a site is decided by the fitness of the cells.
pub proof fn lemma_best_fitness_reads_standing(
    a: GridView,
    b: GridView,
    offsets: Seq<(i32, i32)>,
    site: int,
)
    requires
        a.well_formed(),
        same_standing(a, b),
        0 <= site < a.cells.len(),
    ensures
        best_fitness(a, offsets, site) == best_fitness(b, offsets, site),
    decreases offsets.len(),
{
    if offsets.len() > 0 {
        lemma_best_fitness_reads_standing(a, b, offsets.drop_last(), site);
        lemma_neighbour_position(a, b, site, offsets.last());
    } else {
        assert(a.cells[site].get_fitness() == b.cells[site].get_fitness());
    }
}

/// The decision of a site is taken on the current strategies and the
/// fitness of the cells: the previous strategies have no part in it.
pub proof fn lemma_decision_reads_standing(
    a: GridView,
    b: GridView,
    offsets: Seq<(i32, i32)>,
    site: int,
)
    requires
        a.well_formed(),
        same_standing(a, b),
        0 <= site < a.cells.len(),
    ensures
        keeps_strategy(a, offsets, site) == keeps_strategy(b, offsets, site),
        next_strategy(a, offsets, site) == next_strategy(b, offsets, site),
{
    lemma_best_fitness_reads_standing(a, b, offsets, site);
    let best = best_fitness(a, offsets, site);
    assert(a.cells[site].get_fitness() == b.cells[site].get_fitness());
    assert(a.cells[site].is_cooperator() == b.cells[site].is_cooperator());
    assert forall|k: int| 0 <= k < offsets.len() implies backs(a, offsets, site, best, k) == backs(
        b,
        offsets,
        site,
        best,
        k,
    ) by {
        lemma_neighbour_position(a, b, site, offsets[k]);
    }
    if keeps_strategy(a, offsets, site) && a.cells[site].get_fitness() != best {
        let k = choose|k: int| 0 <= k < offsets.len() && #[trigger] backs(a, offsets, site, best, k);
        assert(backs(b, offsets, site, best, k));
    }
    if keeps_strategy(b, offsets, site) && b.cells[site].get_fitness() != best {
        let k = choose|k: int| 0 <= k < offsets.len() && #[trigger] backs(b, offsets, site, best, k);
        assert(backs(a, offsets, site, best, k));
    }
}

/// The best fitness around a site is the maximum over its candidates: it
/// is no lower than the fitness of the site or of any of its neighbours,
/// and the site or one of its neighbours has it.
pub proof fn lemma_best_fitness_is_maximum(grid: GridView, offsets: Seq<(i32, i32)>, site: int)
    ensures
        grid.cells[site].get_fitness() <= best_fitness(grid, offsets, site),
        forall|k: int|
            0 <= k < offsets.len() ==> (#[trigger] neighbour(grid, site, offsets[k]) matches Some(
                other,
            ) ==> other.get_fitness() <= best_fitness(grid, offsets, site)),
        grid.cells[site].get_fitness() == best_fitness(grid, offsets, site) || exists|k: int|
            0 <= k < offsets.len() && (#[trigger] neighbour(grid, site, offsets[k]) matches Some(
                other,
            ) && other.get_fitness() == best_fitness(grid, offsets, site)),
    decreases offsets.len(),
{
    if offsets.len() > 0 {
        let rest = offsets.drop_last();
        let last = offsets.len() - 1;
        lemma_best_fitness_is_maximum(grid, rest, site);
        let best = best_fitness(grid, offsets, site);
        assert forall|k: int| 0 <= k < offsets.len() implies (#[trigger] neighbour(
            grid,
            site,
            offsets[k],
        ) matches Some(other) ==> other.get_fitness() <= best) by {
            if k < last {
                assert(rest[k] == offsets[k]);
            }
        }
        if grid.cells[site].get_fitness() != best {
            let at_last = neighbour(grid, site, offsets[last]);
            if at_last.is_some() && at_last.unwrap().get_fitness() == best {
            } else {
                let k = choose|k: int|
                    0 <= k < rest.len() && (#[trigger] neighbour(grid, site, rest[k]) matches Some(
                        other,
                    ) && other.get_fitness() == best_fitness(grid, rest, site));
                assert(rest[k] == offsets[k]);
                assert(neighbour(grid, site, offsets[k]) matches Some(other) && other.get_fitness()
                    == best);
            }
        }
    }
}

/// A site whose fitness is not below that of any of its neighbours keeps
/// its strategy.
pub proof fn lemma_leader_keeps_strategy(grid: GridView, offsets: Seq<(i32, i32)>, site: int)
    requires
        forall|k: int|
            0 <= k < offsets.len() ==> (#[trigger] neighbour(grid, site, offsets[k]) matches Some(
                other,
            ) ==> other.get_fitness() <= grid.cells[site].get_fitness()),
    ensures
        keeps_strategy(grid, offsets, site),
        next_strategy(grid, offsets, site) == grid.cells[site].is_cooperator(),
{
    lemma_best_fitness_is_maximum(grid, offsets, site);
}

/// The fitness pass keeps the shape of the lattice and both strategies of
/// every site.
pub proof fn lemma_fitness_pass_keeps_strategies(
    grid: GridView,
    matrix: PayoffMatrix,
    offsets: Seq<(i32, i32)>,
)
    requires
        grid.well_formed(),
    ensures
        fitness_pass(grid, matrix, offsets).well_formed(),
        same_play(grid, fitness_pass(grid, matrix, offsets)),
        fitness_pass(grid, matrix, offsets).strategy_tags() == grid.strategy_tags(),
{
    let after = fitness_pass(grid, matrix, offsets);
    assert(after.strategy_tags() =~= grid.strategy_tags());
}

/// The strategy pass keeps the shape of the lattice and the fitness of
/// every site, and what was the current strategy of a site is its previous
/// strategy afterwards.
pub proof fn lemma_strategy_pass_keeps_fitness(grid: GridView, offsets: Seq<(i32, i32)>)
    requires
        grid.well_formed(),
    ensures
        strategy_pass(grid, offsets).well_formed(),
        forall|site: int|
            0 <= site < grid.cells.len() ==> {
                let after = #[trigger] strategy_pass(grid, offsets).cells[site];
                &&& after.get_fitness() == grid.cells[site].get_fitness()
                &&& after.was_cooperator() == grid.cells[site].is_cooperator()
            },
{
}

/// A lattice whose strategies come out of a generation as they went in has
/// reached a fixed point: every further generation leaves every cell as it
/// is, fitness and both strategies.
///
/// The lattice before the generation is `grid`; what is compared are the
/// tags that the fingerprint is computed from. The lattice after that
/// generation is the fixed point, and one and two generations from it give
/// it back.
pub proof fn lemma_fixed_point_is_stable(
    grid: GridView,
    matrix: PayoffMatrix,
    offsets: Seq<(i32, i32)>,
)
    requires
        grid.well_formed(),
        fitness_representable(grid, matrix, offsets),
        generation(grid, matrix, offsets).strategy_tags() == grid.strategy_tags(),
    ensures
        fitness_representable(generation(grid, matrix, offsets), matrix, offsets),
        generation(generation(grid, matrix, offsets), matrix, offsets) == generation(
            grid,
            matrix,
            offsets,
        ),
        generation(
            generation(generation(grid, matrix, offsets), matrix, offsets),
            matrix,
            offsets,
        ) == generation(grid, matrix, offsets),
{
    let scored = fitness_pass(grid, matrix, offsets);
    let fixed = generation(grid, matrix, offsets);
    lemma_fitness_pass_keeps_strategies(grid, matrix, offsets);
    assert forall|site: int| 0 <= site < grid.cells.len() implies {
        &&& (#[trigger] fixed.cells[site]).is_cooperator() == grid.cells[site].is_cooperator()
        &&& fixed.cells[site].was_cooperator() == grid.cells[site].is_cooperator()
        &&& fixed.cells[site].get_fitness() == scored.cells[site].get_fitness()
        &&& next_strategy(scored, offsets, site) == grid.cells[site].is_cooperator()
    } by {
        assert(fixed.strategy_tags()[site] == grid.strategy_tags()[site]);
        lemma_tag_reads_strategies(fixed.cells[site], grid.cells[site]);
    }
    assert(same_play(grid, fixed));
    assert(same_standing(scored, fixed));
    assert forall|site: int| 0 <= site < fixed.cells.len() implies #[trigger] gathered_payoff(
        fixed,
        matrix,
        offsets,
        site,
    ) == gathered_payoff(grid, matrix, offsets, site) by {
        lemma_payoff_reads_strategies(grid, fixed, matrix, offsets, site);
    }
    assert(fitness_representable(fixed, matrix, offsets));
    let rescored = fitness_pass(fixed, matrix, offsets);
    assert(rescored.cells =~= fixed.cells);
    assert(rescored == fixed);
    let again = strategy_pass(fixed, offsets);
    assert forall|site: int| 0 <= site < fixed.cells.len() implies again.cells[site]
        == fixed.cells[site] by {
        lemma_decision_reads_standing(scored, fixed, offsets, site);
    }
    assert(again.cells =~= fixed.cells);
    assert(again == fixed);
}

/// A fixed point told by the fingerprint: where the fingerprint under a
/// hasher comes out of a generation as it went in, every further generation
/// leaves every cell as it is, and the fingerprint with it.
///
/// A fingerprint has 64 bits, so two lattices that differ can have the same
/// one. The statement leaves that case out: the hasher is to tell the
/// lattice before the generation from the one after it unless their tags
/// are the same.
pub proof fn lemma_fixed_point_by_fingerprint(
    grid: GridView,
    matrix: PayoffMatrix,
    offsets: Seq<(i32, i32)>,
    hasher: ahash::AHasher,
)
    requires
        grid.well_formed(),
        fitness_representable(grid, matrix, offsets),
        digest_after(hasher, generation(grid, matrix, offsets).strategy_tags()) == digest_after(
            hasher,
            grid.strategy_tags(),
        ),
        generation(grid, matrix, offsets).strategy_tags() != grid.strategy_tags() ==> digest_after(
            hasher,
            generation(grid, matrix, offsets).strategy_tags(),
        ) != digest_after(hasher, grid.strategy_tags()),
    ensures
        fitness_representable(generation(grid, matrix, offsets), matrix, offsets),
        generation(generation(grid, matrix, offsets), matrix, offsets) == generation(
            grid,
            matrix,
            offsets,
        ),
        generation(
            generation(generation(grid, matrix, offsets), matrix, offsets),
            matrix,
            offsets,
        ) == generation(grid, matrix, offsets),
        digest_after(
            hasher,
            generation(
                generation(generation(grid, matrix, offsets), matrix, offsets),
                matrix,
                offsets,
            ).strategy_tags(),
        ) == digest_after(hasher, grid.strategy_tags()),
{
    lemma_fixed_point_is_stable(grid, matrix, offsets);
}

/// The row and the column of the site at position `site` of the lattice.
fn site_coordinates(grid: &Grid, site: usize) -> (at: (i32, i32))
    requires
        grid.well_formed(),
        site < grid.lattice@.len(),
    ensures
        at.0 == grid@.row_of(site as int),
        at.1 == grid@.col_of(site as int),
        grid@.in_range(at.0 as int, at.1 as int),
{
    proof {
        grid@.lemma_site_coordinates(site as int);
    }
    let cols: usize = grid.dimension.1 as usize;
    ((site / cols) as i32, (site % cols) as i32)
}

/// The neighbour of the site in the given direction, if there is one; `at`
/// is the row and the column of the site.
fn neighbour_at<'a>(grid: &'a Grid, site: usize, at: (i32, i32), direction: Direction) -> (other:
    Option<&'a Cell>)
    requires
        grid.well_formed(),
        site < grid.lattice@.len(),
        at.0 == grid@.row_of(site as int),
        at.1 == grid@.col_of(site as int),
        grid@.in_range(at.0 as int, at.1 as int),
    ensures
        match other {
            Some(cell) => neighbour(grid@, site as int, direction.to_offset()) == Some(*cell),
            None => neighbour(grid@, site as int, direction.to_offset()).is_none(),
        },
{
    let offset = direction.to_offset();
    grid.get_cell(at.0 + offset.1, at.1 + offset.0)
}

/// The payoff that the site gathers from its neighbours, in a type wide
/// enough for any neighbourhood.
fn gather_payoff(grid: &Grid, neighbourhood: &Neighbourhood, matrix: &PayoffMatrix, site: usize) -> (total:
    i128)
    requires
        grid.well_formed(),
        site < grid.lattice@.len(),
    ensures
        total == gathered_payoff(grid@, *matrix, neighbourhood.offsets(), site as int),
{
    let at = site_coordinates(grid, site);
    let own = &grid.lattice[site];
    let directions = neighbourhood.get_directions();
    let ghost offsets = neighbourhood.offsets();
    let mut total: i128 = 0;
    let mut k: usize = 0;
    while k < directions.len()
        invariant
            k <= directions.len(),
            directions@ == neighbourhood@,
            offsets == neighbourhood.offsets(),
            grid.well_formed(),
            site < grid.lattice@.len(),
            at.0 == grid@.row_of(site as int),
            at.1 == grid@.col_of(site as int),
            grid@.in_range(at.0 as int, at.1 as int),
            *own == grid.lattice@[site as int],
            total == gathered_payoff(grid@, *matrix, offsets.take(k as int), site as int),
            -(k as int) * 0x8000_0000 <= total <= (k as int) * 0x8000_0000,
        decreases directions.len() - k,
    {
        let earned: i32 = match neighbour_at(grid, site, at, directions[k]) {
            Some(other) => matrix.get_payoff(own, other),
            None => 0,
        };
        proof {
            let upto = offsets.take(k + 1);
            assert(upto.drop_last() =~= offsets.take(k as int));
            assert(upto.last() == directions@[k as int].to_offset());
        }
        total = total + earned as i128;
        k += 1;
    }
    assert(offsets.take(k as int) =~= offsets);
    total
}

/// Whether the payoff that each site gathers can be stored as a fitness.
pub(crate) fn check_fitness_representable(
    grid: &Grid,
    neighbourhood: &Neighbourhood,
    matrix: &PayoffMatrix,
) -> (fits: bool)
    requires
        grid.well_formed(),
    ensures
        fits == fitness_representable(grid@, *matrix, neighbourhood.offsets()),
{
    let sites: usize = grid.lattice.len();
    let ghost offsets = neighbourhood.offsets();
    let mut site: usize = 0;
    while site < sites
        invariant
            site <= sites,
            sites == grid.lattice@.len(),
            grid.well_formed(),
            offsets == neighbourhood.offsets(),
            forall|j: int|
                0 <= j < site ==> i32::MIN <= #[trigger] gathered_payoff(
                    grid@,
                    *matrix,
                    offsets,
                    j,
                ) <= i32::MAX,
        decreases sites - site,
    {
        let total: i128 = gather_payoff(grid, neighbourhood, matrix, site);
        if total < i32::MIN as i128 || total > i32::MAX as i128 {
            return false;
        }
        site += 1;
    }
    true
}

/// The strategy of the site in the next generation.
fn decide_strategy(grid: &Grid, neighbourhood: &Neighbourhood, site: usize) -> (to_cooperator: bool)
    requires
        grid.well_formed(),
        site < grid.lattice@.len(),
    ensures
        to_cooperator == next_strategy(grid@, neighbourhood.offsets(), site as int),
{
    let at = site_coordinates(grid, site);
    let own = &grid.lattice[site];
    let directions = neighbourhood.get_directions();
    let ghost offsets = neighbourhood.offsets();
    let mut max_fitness: i32 = own.get_fitness();
    let mut k: usize = 0;
    while k < directions.len()
        invariant
            k <= directions.len(),
            directions@ == neighbourhood@,
            offsets == neighbourhood.offsets(),
            grid.well_formed(),
            site < grid.lattice@.len(),
            at.0 == grid@.row_of(site as int),
            at.1 == grid@.col_of(site as int),
            grid@.in_range(at.0 as int, at.1 as int),
            max_fitness == best_fitness(grid@, offsets.take(k as int), site as int),
        decreases directions.len() - k,
    {
        proof {
            let upto = offsets.take(k + 1);
            assert(upto.drop_last() =~= offsets.take(k as int));
            assert(upto.last() == directions@[k as int].to_offset());
        }
        match neighbour_at(grid, site, at, directions[k]) {
            Some(other) => {
                if other.get_fitness() > max_fitness {
                    max_fitness = other.get_fitness();
                }
            },
            None => {},
        }
        k += 1;
    }
    assert(offsets.take(k as int) =~= offsets);
    let mut keep_strategy: bool = own.get_fitness() == max_fitness;
    let mut k: usize = 0;
    while k < directions.len()
        invariant
            k <= directions.len(),
            directions@ == neighbourhood@,
            offsets == neighbourhood.offsets(),
            grid.well_formed(),
            site < grid.lattice@.len(),
            at.0 == grid@.row_of(site as int),
            at.1 == grid@.col_of(site as int),
            grid@.in_range(at.0 as int, at.1 as int),
            *own == grid.lattice@[site as int],
            max_fitness == best_fitness(grid@, offsets, site as int),
            keep_strategy <==> (own.get_fitness() == max_fitness || exists|j: int|
                0 <= j < k && #[trigger] backs(grid@, offsets, site as int, max_fitness as int, j)),
        decreases directions.len() - k,
    {
        let backing: bool = match neighbour_at(grid, site, at, directions[k]) {
            Some(other) => other.get_fitness() == max_fitness && other.is_cooperator()
                == own.is_cooperator(),
            None => false,
        };
        assert(offsets[k as int] == directions@[k as int].to_offset());
        assert(backing == backs(grid@, offsets, site as int, max_fitness as int, k as int));
        if backing {
            keep_strategy = true;
        }
        k += 1;
    }
    if keep_strategy {
        own.is_cooperator()
    } else {
        !own.is_cooperator()
    }
}

/// Runs the fitness pass on the grid.
pub(crate) fn run_fitness_pass(
    grid: &mut Grid,
    neighbourhood: &Neighbourhood,
    matrix: &PayoffMatrix,
)
    requires
        old(grid).well_formed(),
        fitness_representable(old(grid)@, *matrix, neighbourhood.offsets()),
    ensures
        final(grid)@ == fitness_pass(old(grid)@, *matrix, neighbourhood.offsets()),
        final(grid).dimension == old(grid).dimension,
        final(grid).wrapped == old(grid).wrapped,
        final(grid).rng_settings == old(grid).rng_settings,
        final(grid).well_formed(),
{
    let sites: usize = grid.lattice.len();
    let ghost before = grid@;
    let ghost offsets = neighbourhood.offsets();
    let mut fitness: Vec<i32> = Vec::new();
    let mut site: usize = 0;
    while site < sites
        invariant
            site <= sites,
            sites == grid.lattice@.len(),
            grid.well_formed(),
            grid@ == before,
            offsets == neighbourhood.offsets(),
            fitness_representable(before, *matrix, offsets),
            fitness@.len() == site,
            forall|j: int|
                0 <= j < site ==> fitness@[j] == gathered_payoff(before, *matrix, offsets, j),
        decreases sites - site,
    {
        fitness.push(gather_payoff(grid, neighbourhood, matrix, site) as i32);
        site += 1;
    }
    let mut site: usize = 0;
    while site < sites
        invariant
            site <= sites,
            sites == before.cells.len(),
            grid.lattice@.len() == sites,
            grid.dimension == old(grid).dimension,
            grid.wrapped == old(grid).wrapped,
            grid.rng_settings == old(grid).rng_settings,
            before == old(grid)@,
            fitness@.len() == sites,
            forall|j: int|
                0 <= j < sites ==> fitness@[j] == gathered_payoff(before, *matrix, offsets, j),
            forall|j: int|
                0 <= j < site ==> grid.lattice@[j] == fitness_pass(before, *matrix, offsets).cells[j],
            forall|j: int| site <= j < sites ==> grid.lattice@[j] == before.cells[j],
        decreases sites - site,
    {
        let mut cell = grid.lattice[site];
        cell.set_fitness(fitness[site]);
        grid.lattice.set(site, cell);
        site += 1;
    }
    assert(grid@.cells =~= fitness_pass(before, *matrix, offsets).cells);
}

/// Runs the strategy pass on the grid.
pub(crate) fn run_strategy_pass(grid: &mut Grid, neighbourhood: &Neighbourhood)
    requires
        old(grid).well_formed(),
    ensures
        final(grid)@ == strategy_pass(old(grid)@, neighbourhood.offsets()),
        final(grid).dimension == old(grid).dimension,
        final(grid).wrapped == old(grid).wrapped,
        final(grid).rng_settings == old(grid).rng_settings,
        final(grid).well_formed(),
{
    let sites: usize = grid.lattice.len();
    let ghost before = grid@;
    let ghost offsets = neighbourhood.offsets();
    let mut decisions: Vec<bool> = Vec::new();
    let mut site: usize = 0;
    while site < sites
        invariant
            site <= sites,
            sites == grid.lattice@.len(),
            grid.well_formed(),
            grid@ == before,
            offsets == neighbourhood.offsets(),
            decisions@.len() == site,
            forall|j: int| 0 <= j < site ==> decisions@[j] == next_strategy(before, offsets, j),
        decreases sites - site,
    {
        decisions.push(decide_strategy(grid, neighbourhood, site));
        site += 1;
    }
    let mut site: usize = 0;
    while site < sites
        invariant
            site <= sites,
            sites == before.cells.len(),
            grid.lattice@.len() == sites,
            grid.dimension == old(grid).dimension,
            grid.wrapped == old(grid).wrapped,
            grid.rng_settings == old(grid).rng_settings,
            before == old(grid)@,
            decisions@.len() == sites,
            forall|j: int| 0 <= j < sites ==> decisions@[j] == next_strategy(before, offsets, j),
            forall|j: int|
                0 <= j < site ==> grid.lattice@[j] == strategy_pass(before, offsets).cells[j],
            forall|j: int| site <= j < sites ==> grid.lattice@[j] == before.cells[j],
        decreases sites - site,
    {
        let mut cell = grid.lattice[site];
        cell.update_strategy(decisions[site]);
        grid.lattice.set(site, cell);
        site += 1;
    }
    assert(grid@.cells =~= strategy_pass(before, offsets).cells);
}

} // verus!
