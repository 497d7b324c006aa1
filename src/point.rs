use vstd::prelude::*;

verus! {

/// A point of the grid. A point is an intersection when its column or its row
/// lies strictly inside the grid.
#[derive(Clone, Copy, Debug, PartialEq, Eq, Structural)]
pub struct Point {
    pub x: i32,
    pub y: i32,
    pub is_intersection: bool,
}

impl Point {
    /// The character that marks this point on a drawing of the grid.
    pub fn symbol(&self) -> (r: char)
        ensures
            r == (if self.is_intersection { 'X' } else { 'O' }),
    {
        if self.is_intersection {
            'X'
        } else {
            'O'
        }
    }
}

} // verus!
