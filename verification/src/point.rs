//! A two-dimensional point.

use crate::decimal::fmt_fixed;
use crate::fixed::Fixed;
use crate::render::push_fixed;
use vstd::prelude::*;
use vstd::string::StringExecFns;

verus! {

/// The textual form of a point: `(x, y)`.
pub open spec fn point_text(x: int, y: int) -> Seq<char> {
    "("@ + fmt_fixed(x) + ", "@ + fmt_fixed(y) + ")"@
}

/// A point in the plane.  A pure value: two fixed-point coordinates, no
/// identity.
#[derive(Clone, Copy, Debug, PartialEq, Eq, Structural)]
pub struct Point {
    pub x: Fixed,
    pub y: Fixed,
}

impl Point {
    /// The origin.
    pub fn new() -> (r: Point)
        ensures
            r.x@ == 0,
            r.y@ == 0,
    {
        Point { x: Fixed::zero(), y: Fixed::zero() }
    }

    /// Renders the point as text, `(x, y)`.
    pub fn describe(&self) -> (s: String)
        requires
            self.x@ > i64::MIN,
            self.y@ > i64::MIN,
        ensures
            s@ == point_text(self.x@, self.y@),
    {
        let mut s = String::new();
        s.append("(");
        push_fixed(&mut s, self.x.m);
        s.append(", ");
        push_fixed(&mut s, self.y.m);
        s.append(")");
        proof {
            assert(s@ =~= point_text(self.x@, self.y@));
        }
        s
    }
}

} // verus!
