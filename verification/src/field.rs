//! Grid geometry: cells and the rectangle in which the game is played.

use vstd::prelude::*;

verus! {

/// A grid coordinate: column first, row second.
pub type Cell = (u16, u16);

/// The rectangle a field covers, over the mathematical integers. All four
/// bounds are inclusive.
pub struct Bounds {
    pub x_min: int,
    pub x_max: int,
    pub y_min: int,
    pub y_max: int,
}

impl Bounds {
    /// The rectangle is not empty, fits the coordinate type and leaves column 0
    /// and row 0 outside, so that a coordinate clamped to zero is never inside.
    pub open spec fn valid(self) -> bool {
        &&& 1 <= self.x_min <= self.x_max <= u16::MAX
        &&& 1 <= self.y_min <= self.y_max <= u16::MAX
    }

    /// Whether `cell` lies inside the rectangle.
    pub open spec fn contains(self, cell: Cell) -> bool {
        &&& self.x_min <= cell.0 <= self.x_max
        &&& self.y_min <= cell.1 <= self.y_max
    }

    /// The cell halfway between the bounds, each coordinate rounded down.
    pub open spec fn center(self) -> Cell {
        (((self.x_min + self.x_max) / 2) as u16, ((self.y_min + self.y_max) / 2) as u16)
    }

    /// Every cell of `cells` lies inside the rectangle.
    pub open spec fn encloses(self, cells: Seq<Cell>) -> bool {
        forall|i: int| 0 <= i < cells.len() ==> self.contains(#[trigger] cells[i])
    }
}

/// The playable interior of the grid. It is fixed at construction.
#[derive(Debug)]
pub struct Field {
    x_min: u16,
    x_max: u16,
    y_min: u16,
    y_max: u16,
}

impl View for Field {
    type V = Bounds;

    closed spec fn view(&self) -> Bounds {
        Bounds {
            x_min: self.x_min as int,
            x_max: self.x_max as int,
            y_min: self.y_min as int,
            y_max: self.y_max as int,
        }
    }
}

impl Field {
    /// Every field covers a valid rectangle.
    #[verifier::type_invariant]
    pub open spec fn wf(&self) -> bool {
        self@.valid()
    }

    /// A field of `width` columns and `height` rows, numbered from 1.
    pub fn new(width: u16, height: u16) -> (field: Field)
        requires
            width >= 1,
            height >= 1,
        ensures
            field@ == (Bounds { x_min: 1, x_max: width as int, y_min: 1, y_max: height as int }),
            field@.valid(),
    {
        Field { x_min: 1, x_max: width, y_min: 1, y_max: height }
    }

    /// The leftmost playable column.
    pub fn x_min(&self) -> (x: u16)
        ensures
            x == self@.x_min,
            self@.valid(),
    {
        proof {
            use_type_invariant(self);
        }
        self.x_min
    }

    /// The rightmost playable column.
    pub fn x_max(&self) -> (x: u16)
        ensures
            x == self@.x_max,
            self@.valid(),
    {
        proof {
            use_type_invariant(self);
        }
        self.x_max
    }

    /// The topmost playable row.
    pub fn y_min(&self) -> (y: u16)
        ensures
            y == self@.y_min,
            self@.valid(),
    {
        proof {
            use_type_invariant(self);
        }
        self.y_min
    }

    /// The bottommost playable row.
    pub fn y_max(&self) -> (y: u16)
        ensures
            y == self@.y_max,
            self@.valid(),
    {
        proof {
            use_type_invariant(self);
        }
        self.y_max
    }

    /// Whether `cell` lies inside the field.
    pub fn contains(&self, cell: Cell) -> (inside: bool)
        ensures
            inside == self@.contains(cell),
    {
        self.x_min <= cell.0 && cell.0 <= self.x_max && self.y_min <= cell.1 && cell.1
            <= self.y_max
    }

    /// The cell at which a new snake starts.
    pub fn center(&self) -> (cell: Cell)
        ensures
            cell == self@.center(),
            self@.contains(cell),
    {
        proof {
            use_type_invariant(self);
        }
        let x: u32 = (self.x_min as u32 + self.x_max as u32) / 2;
        let y: u32 = (self.y_min as u32 + self.y_max as u32) / 2;
        (x as u16, y as u16)
    }
}

} // verus!
