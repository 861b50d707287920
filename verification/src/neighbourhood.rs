//! Which sites count as neighbours of a site.

use vstd::prelude::*;

verus! {

/// One of the eight compass directions around a site.
#[derive(Debug, Clone, Copy, PartialEq, Eq, Structural)]
pub enum Direction {
    Up,
    TopRight,
    Right,
    BottomRight,
    Down,
    BottomLeft,
    Left,
    TopLeft,
}

impl Direction {
    /// The step that the direction stands for, as (columns, rows). Rows grow
    /// downwards and columns grow to the right.
    pub open spec fn spec_to_offset(self) -> (i32, i32) {
        match self {
            Direction::Up => (0, -1i32),
            Direction::TopRight => (1, -1i32),
            Direction::Right => (1, 0),
            Direction::BottomRight => (1, 1),
            Direction::Down => (0, 1),
            Direction::BottomLeft => (-1i32, 1),
            Direction::Left => (-1i32, 0),
            Direction::TopLeft => (-1i32, -1i32),
        }
    }

    /// The step that the direction stands for, as (columns, rows).
    #[verifier::when_used_as_spec(spec_to_offset)]
    pub fn to_offset(self) -> (offset: (i32, i32))
        ensures
            offset == self.spec_to_offset(),
            -1 <= offset.0 <= 1,
            -1 <= offset.1 <= 1,
            offset != (0i32, 0i32),
    {
        match self {
            Direction::Up => (0, -1),
            Direction::TopRight => (1, -1),
            Direction::Right => (1, 0),
            Direction::BottomRight => (1, 1),
            Direction::Down => (0, 1),
            Direction::BottomLeft => (-1, 1),
            Direction::Left => (-1, 0),
            Direction::TopLeft => (-1, -1),
        }
    }
}

/// The steps that a sequence of directions stands for, in the same order.
pub open spec fn offsets_of(directions: Seq<Direction>) -> Seq<(i32, i32)> {
    Seq::new(directions.len(), |i: int| directions[i].to_offset())
}

/// The eight directions, clockwise from `Up`.
pub open spec fn moore_directions() -> Seq<Direction> {
    seq![
        Direction::Up,
        Direction::TopRight,
        Direction::Right,
        Direction::BottomRight,
        Direction::Down,
        Direction::BottomLeft,
        Direction::Left,
        Direction::TopLeft,
    ]
}

/// The four orthogonal directions, clockwise from `Up`.
pub open spec fn von_neumann_directions() -> Seq<Direction> {
    seq![Direction::Up, Direction::Right, Direction::Down, Direction::Left]
}

/// The Moore neighbourhood has eight steps, no two alike, and they are the
/// eight vectors with both components in -1, 0 and 1 other than the zero
/// vector.
pub proof fn lemma_moore_offsets()
    ensures
        offsets_of(moore_directions()).len() == 8,
        offsets_of(moore_directions()).no_duplicates(),
        forall|columns: i32, rows: i32|
            offsets_of(moore_directions()).contains((columns, rows)) <==> (-1 <= columns <= 1 && -1
                <= rows <= 1 && (columns, rows) != (0i32, 0i32)),
{
    let offsets = offsets_of(moore_directions());
    assert(offsets =~= seq![
        (0i32, -1i32),
        (1i32, -1i32),
        (1i32, 0i32),
        (1i32, 1i32),
        (0i32, 1i32),
        (-1i32, 1i32),
        (-1i32, 0i32),
        (-1i32, -1i32),
    ]);
    assert forall|columns: i32, rows: i32|
        (-1 <= columns <= 1 && -1 <= rows <= 1 && (columns, rows) != (
            0i32,
            0i32,
        )) implies offsets.contains((columns, rows)) by {
        let found = if (columns, rows) == (0i32, -1i32) {
            0int
        } else if (columns, rows) == (1i32, -1i32) {
            1int
        } else if (columns, rows) == (1i32, 0i32) {
            2int
        } else if (columns, rows) == (1i32, 1i32) {
            3int
        } else if (columns, rows) == (0i32, 1i32) {
            4int
        } else if (columns, rows) == (-1i32, 1i32) {
            5int
        } else if (columns, rows) == (-1i32, 0i32) {
            6int
        } else {
            7int
        };
        assert(offsets[found] == (columns, rows));
    }
}

/// The von Neumann neighbourhood has four steps, no two alike, and they are
/// the four vectors of length one along an axis.
pub proof fn lemma_von_neumann_offsets()
    ensures
        offsets_of(von_neumann_directions()).len() == 4,
        offsets_of(von_neumann_directions()).no_duplicates(),
        forall|columns: i32, rows: i32|
            offsets_of(von_neumann_directions()).contains((columns, rows)) <==> ((columns == 0 && (
            rows == 1 || rows == -1)) || (rows == 0 && (columns == 1 || columns == -1))),
{
    let offsets = offsets_of(von_neumann_directions());
    assert(offsets =~= seq![(0i32, -1i32), (1i32, 0i32), (0i32, 1i32), (-1i32, 0i32)]);
    assert forall|columns: i32, rows: i32|
        ((columns == 0 && (rows == 1 || rows == -1)) || (rows == 0 && (columns == 1 || columns
            == -1))) implies offsets.contains((columns, rows)) by {
        let found = if (columns, rows) == (0i32, -1i32) {
            0int
        } else if (columns, rows) == (1i32, 0i32) {
            1int
        } else if (columns, rows) == (0i32, 1i32) {
            2int
        } else {
            3int
        };
        assert(offsets[found] == (columns, rows));
    }
}

/// Without directions there are no steps.
pub proof fn lemma_no_directions_no_offsets()
    ensures
        offsets_of(Seq::<Direction>::empty()) == Seq::<(i32, i32)>::empty(),
{
    assert(offsets_of(Seq::<Direction>::empty()) =~= Seq::<(i32, i32)>::empty());
}

/// An ordered list of directions. A direction may occur more than once, and
/// the list may be empty.
#[derive(Debug, Clone, PartialEq)]
pub struct Neighbourhood {
    neighbours: Vec<Direction>,
}

impl View for Neighbourhood {
    type V = Seq<Direction>;

    closed spec fn view(&self) -> Seq<Direction> {
        self.neighbours@
    }
}

impl Neighbourhood {
    /// The steps of the neighbourhood, in the order of its directions.
    pub open spec fn offsets(&self) -> Seq<(i32, i32)> {
        offsets_of(self@)
    }

    /// The neighbourhood made of exactly the given directions, in the given
    /// order.
    pub fn custom(neighbours: Vec<Direction>) -> (neighbourhood: Neighbourhood)
        ensures
            neighbourhood@ == neighbours@,
    {
        Neighbourhood { neighbours }
    }

    /// All eight directions, clockwise from `Up`.
    pub fn moore() -> (neighbourhood: Neighbourhood)
        ensures
            neighbourhood@ == moore_directions(),
    {
        let neighbours: Vec<Direction> = vec![
            Direction::Up,
            Direction::TopRight,
            Direction::Right,
            Direction::BottomRight,
            Direction::Down,
            Direction::BottomLeft,
            Direction::Left,
            Direction::TopLeft,
        ];
        assert(neighbours@ =~= moore_directions());
        Neighbourhood { neighbours }
    }

    /// The four orthogonal directions, clockwise from `Up`.
    pub fn von_neumann() -> (neighbourhood: Neighbourhood)
        ensures
            neighbourhood@ == von_neumann_directions(),
    {
        let neighbours: Vec<Direction> = vec![
            Direction::Up,
            Direction::Right,
            Direction::Down,
            Direction::Left,
        ];
        assert(neighbours@ =~= von_neumann_directions());
        Neighbourhood { neighbours }
    }

    /// The directions, in construction order.
    pub fn get_directions(&self) -> (directions: &Vec<Direction>)
        ensures
            directions@ == self@,
    {
        &self.neighbours
    }

    /// The step that a direction stands for, as (columns, rows).
    pub fn direction_to_offset(direction: &Direction) -> (offset: (i32, i32))
        ensures
            offset == direction.to_offset(),
    {
        direction.to_offset()
    }

    /// The steps of the neighbourhood, in the order of its directions.
    pub fn get_neighbourhood(&self) -> (offsets: Vec<(i32, i32)>)
        ensures
            offsets@ == self.offsets(),
    {
        let mut offsets: Vec<(i32, i32)> = Vec::new();
        let mut i: usize = 0;
        while i < self.neighbours.len()
            invariant
                i <= self.neighbours.len(),
                offsets@ == offsets_of(self.neighbours@.take(i as int)),
            decreases self.neighbours.len() - i,
        {
            offsets.push(Neighbourhood::direction_to_offset(&self.neighbours[i]));
            assert(offsets@ =~= offsets_of(self.neighbours@.take(i + 1)));
            i += 1;
        }
        assert(self.neighbours@.take(i as int) =~= self.neighbours@);
        offsets
    }

    /// The steps of the neighbourhood, in the order of its directions. Every
    /// call yields the same sequence.
    pub fn offsets_iter(&self) -> (offsets: Vec<(i32, i32)>)
        ensures
            offsets@ == self.offsets(),
    {
        self.get_neighbourhood()
    }
}

} // verus!
