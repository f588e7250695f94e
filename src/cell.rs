use vstd::prelude::*;

verus! {

/// The state of one cell of the grid.
#[derive(Clone, Copy, Debug, PartialEq, Eq, Structural)]
pub enum Cell {
    Dead,
    Alive,
}

/// How `Universe::populate` fills a freshly made grid.
#[derive(Clone, Copy, Debug, PartialEq, Eq, Structural)]
pub enum StartMode {
    Blank,
    Random,
}

/// Which edit a host applies on a click: one cell, or a whole glider.
#[derive(Clone, Copy, Debug, PartialEq, Eq, Structural)]
pub enum ToggleMode {
    Point,
    Glider,
}

/// The diagonal a stamped glider travels toward.
#[derive(Clone, Copy, Debug, PartialEq, Eq, Structural)]
pub enum GliderDirection {
    NW,
    NE,
    SW,
    SE,
}

/// The other state.
pub open spec fn flipped(c: Cell) -> Cell {
    match c {
        Cell::Dead => Cell::Alive,
        Cell::Alive => Cell::Dead,
    }
}

/// 1 for a live cell, 0 for a dead one.
pub open spec fn weight(c: Cell) -> nat {
    match c {
        Cell::Dead => 0,
        Cell::Alive => 1,
    }
}

/// The classic rule: a live cell survives with 2 or 3 live neighbours, a dead
/// cell comes alive with exactly 3, every other cell ends dead.
pub open spec fn next_state(c: Cell, n: nat) -> Cell {
    match c {
        Cell::Alive => if n == 2 || n == 3 { Cell::Alive } else { Cell::Dead },
        Cell::Dead => if n == 3 { Cell::Alive } else { Cell::Dead },
    }
}

/// The tag the rule leaves: 1 for a cell that died, 2 for one that was born,
/// 0 for one whose state stayed.
pub open spec fn change_tag(c: Cell, n: nat) -> u8 {
    match c {
        Cell::Alive => if n < 2 || n > 3 { 1 } else { 0 },
        Cell::Dead => if n == 3 { 2 } else { 0 },
    }
}

/// The 3x3 mask a glider stamp writes, row above first, each row left to
/// right.
pub open spec fn glider_mask(d: GliderDirection) -> Seq<Cell> {
    let a = Cell::Alive;
    let o = Cell::Dead;
    match d {
        GliderDirection::NW => seq![a, a, a, a, o, o, o, a, o],
        GliderDirection::NE => seq![a, a, a, o, o, a, o, a, o],
        GliderDirection::SW => seq![o, a, o, a, o, o, a, a, a],
        GliderDirection::SE => seq![o, a, o, o, o, a, a, a, a],
    }
}

impl Cell {
    /// Flips the cell between dead and alive.
    pub fn toggle(&mut self)
        ensures
            *final(self) == flipped(*old(self)),
    {
        *self = match *self {
            Cell::Dead => Cell::Alive,
            Cell::Alive => Cell::Dead,
        };
    }

    /// 1 for a live cell, 0 for a dead one.
    pub fn weight(&self) -> (r: u8)
        ensures
            r as nat == weight(*self),
    {
        match self {
            Cell::Dead => 0,
            Cell::Alive => 1,
        }
    }
}

/// The mask for `d`, as `glider_mask` gives it.
pub fn glider_cells(d: GliderDirection) -> (r: Vec<Cell>)
    ensures
        r@ == glider_mask(d),
{
    let a = Cell::Alive;
    let o = Cell::Dead;
    let r = match d {
        GliderDirection::NW => vec![a, a, a, a, o, o, o, a, o],
        GliderDirection::NE => vec![a, a, a, o, o, a, o, a, o],
        GliderDirection::SW => vec![o, a, o, a, o, o, a, a, a],
        GliderDirection::SE => vec![o, a, o, o, o, a, a, a, a],
    };
    assert(r@ =~= glider_mask(d));
    r
}

} // verus!
