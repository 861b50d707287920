//! The lattice and its coordinates.

use vstd::prelude::*;
use vstd::arithmetic::div_mod::{lemma_fundamental_div_mod, lemma_fundamental_div_mod_converse};
use crate::cell::Cell;
use crate::error::InvalidConfiguration;
use crate::fingerprint::{
    absorb,
    digest_after,
    finish,
    lemma_tag_reads_strategies,
    new_hasher,
    strategy_tag,
    tag_of,
};
use crate::rng::{draw_words, RngSettings};

verus! {

/// The remainder of `x` by `n` that lies in `0..n`, whatever the sign of `x`.
pub open spec fn floor_mod(x: int, n: int) -> int
    recommends
        n > 0,
{
    x % n
}

/// The lattice as a mathematical value: what a simulation step reads and
/// writes.
pub struct GridView {
    /// The number of rows.
    pub rows: int,
    /// The number of columns.
    pub cols: int,
    /// Whether coordinates wrap around the edges.
    pub wrapped: bool,
    /// The cells, row by row.
    pub cells: Seq<Cell>,
}

impl GridView {
    /// Both dimensions are positive, the number of sites fits in an `i32`,
    /// and there is one cell per site.
    pub open spec fn well_formed(self) -> bool {
        &&& self.rows > 0
        &&& self.cols > 0
        &&& self.rows * self.cols <= i32::MAX
        &&& self.cells.len() == self.rows * self.cols
    }

    /// Whether the coordinates lie inside the lattice without wrapping.
    pub open spec fn in_range(self, row: int, col: int) -> bool {
        0 <= row < self.rows && 0 <= col < self.cols
    }

    /// The position in `cells` of the site that the coordinates name, if
    /// they name one.
    ///
    /// On a wrapped lattice each coordinate is reduced to its remainder by
    /// the dimension, so every pair names a site. On a bounded lattice only
    /// the pairs inside the lattice do.
    pub open spec fn index(self, row: int, col: int) -> Option<int> {
        if self.wrapped {
            Some(floor_mod(row, self.rows) * self.cols + floor_mod(col, self.cols))
        } else if self.in_range(row, col) {
            Some(row * self.cols + col)
        } else {
            None
        }
    }

    /// The cell that the coordinates name, if they name one.
    pub open spec fn cell(self, row: int, col: int) -> Option<Cell> {
        match self.index(row, col) {
            Some(index) => Some(self.cells[index]),
            None => None,
        }
    }

    /// The row of the site at position `site` of `cells`.
    pub open spec fn row_of(self, site: int) -> int {
        site / self.cols
    }

    /// The column of the site at position `site` of `cells`.
    pub open spec fn col_of(self, site: int) -> int {
        site % self.cols
    }

    /// The tags of all cells, in lattice order.
    pub open spec fn strategy_tags(self) -> Seq<u8> {
        Seq::new(self.cells.len(), |i: int| strategy_tag(self.cells[i]))
    }

    /// Two lattices have the same tags exactly if they have as many cells
    /// and every site is the same variant in both. So the tags change
    /// whenever the variant of a cell changes, and they do not change with
    /// the fitness of any cell.
    pub proof fn lemma_tags_tell_variants(self, other: GridView)
        ensures
            self.strategy_tags() == other.strategy_tags() <==> {
                &&& self.cells.len() == other.cells.len()
                &&& forall|site: int|
                    0 <= site < self.cells.len() ==> {
                        &&& (#[trigger] self.cells[site]).was_cooperator()
                            == other.cells[site].was_cooperator()
                        &&& self.cells[site].is_cooperator() == other.cells[site].is_cooperator()
                    }
            },
    {
        if self.strategy_tags() == other.strategy_tags() {
            assert(self.cells.len() == self.strategy_tags().len());
            assert(other.cells.len() == other.strategy_tags().len());
            assert forall|site: int| 0 <= site < self.cells.len() implies {
                &&& (#[trigger] self.cells[site]).was_cooperator()
                    == other.cells[site].was_cooperator()
                &&& self.cells[site].is_cooperator() == other.cells[site].is_cooperator()
            } by {
                assert(self.strategy_tags()[site] == other.strategy_tags()[site]);
                lemma_tag_reads_strategies(self.cells[site], other.cells[site]);
            }
        }
        if self.cells.len() == other.cells.len() && (forall|site: int|
            0 <= site < self.cells.len() ==> {
                &&& (#[trigger] self.cells[site]).was_cooperator()
                    == other.cells[site].was_cooperator()
                &&& self.cells[site].is_cooperator() == other.cells[site].is_cooperator()
            }) {
            assert forall|site: int| 0 <= site < self.cells.len() implies self.strategy_tags()[site]
                == other.strategy_tags()[site] by {
                lemma_tag_reads_strategies(self.cells[site], other.cells[site]);
            }
            assert(self.strategy_tags() =~= other.strategy_tags());
        }
    }

    /// Under one hasher two lattices have the same fingerprint if they have
    /// as many cells and every site is the same variant in both, whatever
    /// the fitness of their cells and whether they wrap or not. So the
    /// fingerprint of a lattice under a hasher is the same every time it is
    /// taken, and a change of fitness alone does not change it.
    pub proof fn lemma_fingerprint_reads_variants(self, other: GridView, hasher: ahash::AHasher)
        requires
            self.cells.len() == other.cells.len(),
            forall|site: int|
                0 <= site < self.cells.len() ==> {
                    &&& (#[trigger] self.cells[site]).was_cooperator()
                        == other.cells[site].was_cooperator()
                    &&& self.cells[site].is_cooperator() == other.cells[site].is_cooperator()
                },
        ensures
            digest_after(hasher, self.strategy_tags()) == digest_after(
                hasher,
                other.strategy_tags(),
            ),
    {
        self.lemma_tags_tell_variants(other);
    }

    /// Every index that the coordinate mapping yields is a position of the
    /// lattice.
    pub proof fn lemma_index_in_bounds(self, row: int, col: int)
        requires
            self.well_formed(),
        ensures
            self.index(row, col) matches Some(index) ==> 0 <= index < self.cells.len(),
    {
        let rows = self.rows;
        let cols = self.cols;
        if self.wrapped {
            let r = floor_mod(row, rows);
            let c = floor_mod(col, cols);
            assert(0 <= r * cols + c < rows * cols) by (nonlinear_arith)
                requires
                    0 <= r < rows,
                    0 <= c < cols,
            ;
        } else if self.in_range(row, col) {
            assert(0 <= row * cols + col < rows * cols) by (nonlinear_arith)
                requires
                    0 <= row < rows,
                    0 <= col < cols,
            ;
        }
    }

    /// On a bounded lattice a lookup finds a cell exactly for the
    /// coordinates inside the lattice: it finds none for a negative row or
    /// column, nor for a row or column at or beyond the dimension.
    pub proof fn lemma_bounded_lookup(self, row: int, col: int)
        requires
            self.well_formed(),
            !self.wrapped,
        ensures
            self.cell(row, col).is_none() <==> (row < 0 || row >= self.rows || col < 0 || col
                >= self.cols),
            self.cell(row, col) matches Some(cell) ==> cell == self.cells[row * self.cols + col],
    {
    }

    /// On a wrapped lattice a lookup finds a cell for every pair of
    /// integers, and it is a cell of the lattice.
    pub proof fn lemma_wrapped_lookup(self, row: int, col: int)
        requires
            self.well_formed(),
            self.wrapped,
        ensures
            self.cell(row, col) matches Some(cell) && exists|site: int|
                0 <= site < self.cells.len() && cell == #[trigger] self.cells[site],
    {
        self.lemma_index_in_bounds(row, col);
        let site = self.index(row, col).unwrap();
        assert(self.cell(row, col).unwrap() == self.cells[site]);
    }

    /// Inside the lattice the coordinates of a site lead back to its
    /// position, wrapped or not.
    pub proof fn lemma_site_coordinates(self, site: int)
        requires
            self.well_formed(),
            0 <= site < self.cells.len(),
        ensures
            self.in_range(self.row_of(site), self.col_of(site)),
            self.index(self.row_of(site), self.col_of(site)) == Some(site),
    {
        let row = self.row_of(site);
        let col = self.col_of(site);
        lemma_fundamental_div_mod(site, self.cols);
        assert(0 <= row < self.rows) by (nonlinear_arith)
            requires
                site == self.cols * row + col,
                0 <= col < self.cols,
                0 <= site < self.rows * self.cols,
                self.cols > 0,
        ;
        assert(self.cols * row == row * self.cols) by (nonlinear_arith);
        if self.wrapped {
            lemma_fundamental_div_mod_converse(row, self.rows, 0, row);
            lemma_fundamental_div_mod_converse(col, self.cols, 0, col);
        }
    }
}

/// A `rows` by `cols` lattice of cells, stored row by row.
#[derive(Debug, PartialEq)]
pub struct Grid {
    /// The number of rows and the number of columns.
    pub dimension: (i32, i32),
    /// Whether coordinates wrap around the edges.
    pub wrapped: bool,
    /// How the initial population was drawn; `None` for the lone defector.
    /// It is kept for the record: no step of the simulation reads it.
    pub rng_settings: Option<RngSettings>,
    /// The cells, row by row.
    pub lattice: Vec<Cell>,
}

impl View for Grid {
    type V = GridView;

    open spec fn view(&self) -> GridView {
        GridView {
            rows: self.dimension.0 as int,
            cols: self.dimension.1 as int,
            wrapped: self.wrapped,
            cells: self.lattice@,
        }
    }
}

impl Grid {
    /// Both dimensions are positive, the number of sites fits in an `i32`,
    /// and the lattice holds one cell per site.
    pub open spec fn well_formed(&self) -> bool {
        self@.well_formed()
    }

    /// Why no grid can be built from the given dimensions and settings, if
    /// none can. The dimensions are looked at first.
    pub open spec fn rejection(
        dimension: (i32, i32),
        rng_settings: Option<RngSettings>,
    ) -> Option<InvalidConfiguration> {
        if dimension.0 <= 0 || dimension.1 <= 0 || dimension.0 * dimension.1 > i32::MAX {
            Some(InvalidConfiguration::Dimension)
        } else if rng_settings matches Some(settings) && !settings.well_formed() {
            Some(InvalidConfiguration::CooperatorFrequency)
        } else {
            None
        }
    }

    /// The initial population of a lattice of `sites` sites.
    ///
    /// Without settings it is the lone defector: every site is a fresh
    /// cooperator but the one in the middle of the row-major order, which is
    /// a fresh defector. With settings it is the population drawn under
    /// them.
    pub open spec fn initial_population(sites: nat, rng_settings: Option<RngSettings>) -> Seq<
        Cell,
    > {
        match rng_settings {
            None => Seq::new(sites, |i: int| Cell::fresh(i != sites / 2)),
            Some(settings) => settings.population(sites),
        }
    }

    /// A grid of the given dimensions with its initial population.
    ///
    /// With settings, the generator of the seed gives one random word for
    /// each site, in row-major order, and the site starts as a cooperator
    /// where the frequency says so. Without settings the population is the
    /// lone defector. Dimensions that are not positive, a lattice of more
    /// than `i32::MAX` sites and a frequency outside of 0.0 to 1.0 are
    /// turned down.
    pub fn new(dimension: (i32, i32), wrapped: bool, rng_settings: Option<RngSettings>) -> (grid:
        Result<Grid, InvalidConfiguration>)
        ensures
            match grid {
                Ok(g) => {
                    &&& Grid::rejection(dimension, rng_settings).is_none()
                    &&& g.well_formed()
                    &&& g.dimension == dimension
                    &&& g.wrapped == wrapped
                    &&& g.rng_settings == rng_settings
                    &&& g.lattice@ == Grid::initial_population(
                        (dimension.0 * dimension.1) as nat,
                        rng_settings,
                    )
                },
                Err(e) => Grid::rejection(dimension, rng_settings) == Some(e),
            },
    {
        if dimension.0 <= 0 || dimension.1 <= 0 {
            return Err(InvalidConfiguration::Dimension);
        }
        assert(0 < dimension.0 * dimension.1 <= 0x7FFF_FFFF * 0x7FFF_FFFF) by (nonlinear_arith)
            requires
                0 < dimension.0 <= 0x7FFF_FFFF,
                0 < dimension.1 <= 0x7FFF_FFFF,
        ;
        let total_cells: i64 = dimension.0 as i64 * dimension.1 as i64;
        if total_cells > i32::MAX as i64 {
            return Err(InvalidConfiguration::Dimension);
        }
        let total: usize = total_cells as usize;
        let lattice: Vec<Cell> = match &rng_settings {
            Some(settings) => {
                if !RngSettings::accepts_frequency(settings.cooperator_frequency) {
                    return Err(InvalidConfiguration::CooperatorFrequency);
                }
                let words = draw_words(settings.seed, total);
                settings.populate(&words)
            },
            None => Grid::lone_defector(total),
        };
        Ok(Grid { dimension, wrapped, rng_settings, lattice })
    }

    /// The population of `sites` fresh cooperators with one fresh defector
    /// in the middle of the order.
    fn lone_defector(sites: usize) -> (lattice: Vec<Cell>)
        ensures
            lattice@ == Grid::initial_population(sites as nat, None),
    {
        let center_index: usize = sites / 2;
        let mut lattice: Vec<Cell> = Vec::new();
        let mut i: usize = 0;
        while i < sites
            invariant
                i <= sites,
                center_index == sites / 2,
                lattice@.len() == i,
                forall|j: int| 0 <= j < i ==> lattice@[j] == Cell::fresh(j != center_index),
            decreases sites - i,
        {
            lattice.push(Cell::new(i != center_index));
            i += 1;
        }
        assert(lattice@ =~= Grid::initial_population(sites as nat, None));
        lattice
    }

    /// Whether the grid is well formed. A grid that `new` has built is, and
    /// stays so under every function of this crate; the test is for a grid
    /// whose fields were written from outside.
    pub fn is_well_formed(&self) -> (well_formed: bool)
        ensures
            well_formed == self.well_formed(),
    {
        if self.dimension.0 <= 0 || self.dimension.1 <= 0 {
            return false;
        }
        assert(0 < self.dimension.0 * self.dimension.1 <= 0x7FFF_FFFF * 0x7FFF_FFFF)
            by (nonlinear_arith)
            requires
                0 < self.dimension.0 <= 0x7FFF_FFFF,
                0 < self.dimension.1 <= 0x7FFF_FFFF,
        ;
        let sites: i64 = self.dimension.0 as i64 * self.dimension.1 as i64;
        sites <= i32::MAX as i64 && self.lattice.len() == sites as usize
    }

    /// The position in `lattice` of the site at (`row`, `col`).
    ///
    /// On a wrapped lattice every pair of coordinates names a site: each
    /// coordinate is reduced to its remainder by the dimension, taken in
    /// `0..dimension` also for negative coordinates. On a bounded lattice
    /// only coordinates inside the lattice name a site.
    pub fn get_index(&self, row: i32, col: i32) -> (index: Option<usize>)
        requires
            self.well_formed(),
        ensures
            match index {
                Some(i) => self@.index(row as int, col as int) == Some(i as int) && i
                    < self.lattice@.len(),
                None => self@.index(row as int, col as int).is_none(),
            },
            index.is_none() <==> !self.wrapped && !self@.in_range(row as int, col as int),
    {
        let num_rows: i64 = self.dimension.0 as i64;
        let num_cols: i64 = self.dimension.1 as i64;
        proof {
            self@.lemma_index_in_bounds(row as int, col as int);
        }
        if self.wrapped {
            let wrapped_row: i64 = wrap_coordinate(row, self.dimension.0) as i64;
            let wrapped_col: i64 = wrap_coordinate(col, self.dimension.1) as i64;
            proof {
                assert(0 <= wrapped_row * num_cols <= wrapped_row * num_cols + wrapped_col
                    < num_rows * num_cols) by (nonlinear_arith)
                    requires
                        0 <= wrapped_row < num_rows,
                        0 <= wrapped_col < num_cols,
                ;
            }
            Some((wrapped_row * num_cols + wrapped_col) as usize)
        } else if row >= 0 && (row as i64) < num_rows && col >= 0 && (col as i64) < num_cols {
            proof {
                assert(0 <= row * num_cols <= row * num_cols + col < num_rows * num_cols)
                    by (nonlinear_arith)
                    requires
                        0 <= row < num_rows,
                        0 <= col < num_cols,
                ;
            }
            Some((row as i64 * num_cols + col as i64) as usize)
        } else {
            None
        }
    }

    /// The cell at (`row`, `col`), if the coordinates name a site.
    pub fn get_cell(&self, row: i32, col: i32) -> (cell: Option<&Cell>)
        requires
            self.well_formed(),
        ensures
            match cell {
                Some(c) => self@.cell(row as int, col as int) == Some(*c),
                None => self@.cell(row as int, col as int).is_none(),
            },
            cell.is_none() <==> !self.wrapped && !self@.in_range(row as int, col as int),
    {
        match self.get_index(row, col) {
            Some(index) => Some(&self.lattice[index]),
            None => None,
        }
    }

    /// The cell at (`row`, `col`) for writing, if the coordinates name a
    /// site. Whatever is written replaces that one cell; the rest of the
    /// grid stays as it is.
    pub fn get_cell_mut(&mut self, row: i32, col: i32) -> (cell: Option<&mut Cell>)
        requires
            old(self).well_formed(),
        ensures
            final(self).dimension == old(self).dimension,
            final(self).wrapped == old(self).wrapped,
            final(self).rng_settings == old(self).rng_settings,
            match cell {
                Some(c) => {
                    &&& old(self)@.index(row as int, col as int) matches Some(index)
                    &&& *c == old(self).lattice@[index]
                    &&& final(self).lattice@ == old(self).lattice@.update(index, *final(c))
                },
                None => {
                    &&& old(self)@.index(row as int, col as int).is_none()
                    &&& final(self).lattice@ == old(self).lattice@
                },
            },
            cell.is_none() <==> !old(self).wrapped && !old(self)@.in_range(row as int, col as int),
    {
        match self.get_index(row, col) {
            Some(index) => Some(&mut self.lattice[index]),
            None => None,
        }
    }

    /// The tags of all cells, in lattice order: what the fingerprint of the
    /// lattice is computed from.
    pub fn get_strategy_tags(&self) -> (tags: Vec<u8>)
        ensures
            tags@ == self@.strategy_tags(),
    {
        let mut tags: Vec<u8> = Vec::new();
        let mut i: usize = 0;
        while i < self.lattice.len()
            invariant
                i <= self.lattice.len(),
                tags@.len() == i,
                forall|j: int| 0 <= j < i ==> tags@[j] == strategy_tag(self.lattice@[j]),
            decreases self.lattice.len() - i,
        {
            tags.push(tag_of(&self.lattice[i]));
            i += 1;
        }
        assert(tags@ =~= self@.strategy_tags());
        tags
    }

    /// The fingerprint of the strategies on the lattice under the given
    /// hasher: the digest that the hasher gives once it has been fed the tag
    /// of every cell, in lattice order.
    ///
    /// Neither the fitness of a cell nor the shape of the lattice is part of
    /// a tag, so for one hasher the fingerprint is decided by the variants
    /// of the cells, in their order.
    pub fn lattice_hash_with(&self, hasher: ahash::AHasher) -> (hash: u64)
        ensures
            hash == digest_after(hasher, self@.strategy_tags()),
    {
        let tags = self.get_strategy_tags();
        let ghost start = hasher;
        let mut hasher = hasher;
        let mut i: usize = 0;
        proof {
            assert forall|rest: Seq<u8>| #[trigger]
                digest_after(hasher, rest) == digest_after(start, tags@.take(0) + rest) by {
                assert(tags@.take(0) + rest =~= rest);
            }
        }
        while i < tags.len()
            invariant
                i <= tags.len(),
                forall|rest: Seq<u8>| #[trigger]
                    digest_after(hasher, rest) == digest_after(start, tags@.take(i as int) + rest),
            decreases tags.len() - i,
        {
            let ghost before = hasher;
            absorb(&mut hasher, tags[i]);
            proof {
                assert forall|rest: Seq<u8>| #[trigger]
                    digest_after(hasher, rest) == digest_after(
                        start,
                        tags@.take(i + 1) + rest,
                    ) by {
                    let fed = seq![tags@[i as int]] + rest;
                    assert(digest_after(hasher, rest) == digest_after(before, fed));
                    assert(tags@.take(i as int) + fed =~= tags@.take(i + 1) + rest);
                }
            }
            i += 1;
        }
        proof {
            assert(tags@.take(i as int) + Seq::<u8>::empty() =~= tags@);
        }
        finish(&hasher)
    }

    /// A fingerprint of the strategies on the lattice, for telling whether
    /// two generations look alike without keeping them.
    ///
    /// It is the fingerprint under a fresh hasher. The hasher draws its keys
    /// once in the life of a process: fingerprints can be compared within a
    /// run but mean nothing to another run. That every fresh hasher of a
    /// run is keyed alike is the hasher's own matter and is not claimed
    /// here.
    pub fn get_lattice_hash(&self) -> (hash: u64)
        ensures
            exists|fresh: ahash::AHasher| hash == #[trigger] digest_after(
                fresh,
                self@.strategy_tags(),
            ),
    {
        let fresh = new_hasher();
        let hash = self.lattice_hash_with(fresh);
        assert(hash == digest_after(fresh, self@.strategy_tags()));
        hash
    }
}

/// Reduces a coordinate to its remainder by the dimension `n`, in `0..n`
/// also for a negative coordinate.
fn wrap_coordinate(x: i32, n: i32) -> (r: i32)
    requires
        n > 0,
    ensures
        r == floor_mod(x as int, n as int),
        0 <= r < n,
{
    let wide: i64 = x as i64;
    let modulus: i64 = n as i64;
    if x >= 0 {
        (wide % modulus) as i32
    } else {
        let mirrored: i64 = -(wide + 1);
        let m: i64 = mirrored % modulus;
        proof {
            let q = mirrored as int / modulus as int;
            lemma_fundamental_div_mod(mirrored as int, modulus as int);
            assert(wide == -(q + 1) * modulus + (modulus - 1 - m)) by (nonlinear_arith)
                requires
                    mirrored == modulus * q + m,
                    mirrored == -(wide + 1),
            ;
            lemma_fundamental_div_mod_converse(
                wide as int,
                modulus as int,
                -(q + 1),
                (modulus - 1 - m) as int,
            );
        }
        (modulus - 1 - m) as i32
    }
}

} // verus!
