//! Minimal axis-aligned rectangle accumulator and splitter.
//!
//! A [`BBox`] starts out invalid (empty); the first added point makes it
//! valid and seeds both corners, and every further point widens the
//! rectangle by component-wise minimum and maximum.  A valid box therefore
//! satisfies `llx <= urx` and `lly <= ury`.  Boxes can be unioned with
//! [`BBox::expand`] and partitioned with [`BBox::split_h`] and
//! [`BBox::split_v`]; the behaviour of `expand` on an invalid operand is a
//! documented caller obligation, not a runtime check.

use crate::fixed::{div_trunc, in_range, tdiv, Fixed, UNIT};
use crate::fixed::{lemma_tdiv_abs, lemma_tdiv_scaled_bounds};
use crate::point::Point;
use vstd::math::{max, min};
use vstd::prelude::*;
use vstd::string::StringExecFns;

verus! {

/// Mathematical model of a bounding box: a validity flag and four corner
/// coordinates in thousandths of a unit.
pub ghost struct BBoxV {
    pub valid: bool,
    pub llx: int,
    pub lly: int,
    pub urx: int,
    pub ury: int,
}

/// The empty (invalid) box.
pub open spec fn bb_new() -> BBoxV {
    BBoxV { valid: false, llx: 0, lly: 0, urx: 0, ury: 0 }
}

/// Adding a point: the first point seeds both corners, later points widen
/// the rectangle component-wise.
pub open spec fn bb_add(b: BBoxV, x: int, y: int) -> BBoxV {
    if !b.valid {
        BBoxV { valid: true, llx: x, lly: y, urx: x, ury: y }
    } else {
        BBoxV {
            valid: true,
            llx: min(b.llx, x),
            lly: min(b.lly, y),
            urx: max(b.urx, x),
            ury: max(b.ury, y),
        }
    }
}

/// Adding a whole sequence of points, front to back.
pub open spec fn bb_fold(b: BBoxV, pts: Seq<(int, int)>) -> BBoxV
    decreases pts.len(),
{
    if pts.len() == 0 {
        b
    } else {
        bb_fold(bb_add(b, pts[0].0, pts[0].1), pts.drop_first())
    }
}

/// Component-wise union of two boxes.  The validity flag of the first
/// operand is kept, as the union of an invalid operand is undefined and a
/// documented caller obligation.
pub open spec fn bb_expand(b: BBoxV, o: BBoxV) -> BBoxV {
    BBoxV {
        valid: b.valid,
        llx: min(b.llx, o.llx),
        lly: min(b.lly, o.lly),
        urx: max(b.urx, o.urx),
        ury: max(b.ury, o.ury),
    }
}

/// Horizontal split at a fractional bias (in thousandths): the partition
/// line `lly + bias * dy` is the top edge of the bottom part and the bottom
/// edge of the top part.
pub open spec fn bb_split_h(b: BBoxV, bias: int) -> (BBoxV, BBoxV) {
    let mid = b.lly + tdiv(bias * (b.ury - b.lly), UNIT as int);
    (
        BBoxV { valid: b.valid, llx: b.llx, lly: b.lly, urx: b.urx, ury: mid },
        BBoxV { valid: b.valid, llx: b.llx, lly: mid, urx: b.urx, ury: b.ury },
    )
}

/// Vertical split at a fractional bias (in thousandths): the partition line
/// `llx + bias * dx` is shared by the two parts.
pub open spec fn bb_split_v(b: BBoxV, bias: int) -> (BBoxV, BBoxV) {
    let mid = b.llx + tdiv(bias * (b.urx - b.llx), UNIT as int);
    (
        BBoxV { valid: b.valid, llx: b.llx, lly: b.lly, urx: mid, ury: b.ury },
        BBoxV { valid: b.valid, llx: mid, lly: b.lly, urx: b.urx, ury: b.ury },
    )
}

/// All four corners within the range accepted by the drawing operations.
pub open spec fn bb_in_range(b: BBoxV) -> bool {
    in_range(b.llx) && in_range(b.lly) && in_range(b.urx) && in_range(b.ury)
}

/// Minimal axis-aligned rectangle accumulator.  `valid == false` is the
/// empty state; the fields are meaningful only once a point has been added
/// or the fields have been set directly.
#[derive(Clone, Copy, Debug, PartialEq, Eq, Structural)]
pub struct BBox {
    pub valid: bool,
    pub llx: Fixed,
    pub lly: Fixed,
    pub urx: Fixed,
    pub ury: Fixed,
}

impl View for BBox {
    type V = BBoxV;

    open spec fn view(&self) -> BBoxV {
        BBoxV { valid: self.valid, llx: self.llx@, lly: self.lly@, urx: self.urx@, ury: self.ury@ }
    }
}

impl BBox {
    /// Creates the empty (invalid) box.
    pub fn new() -> (r: BBox)
        ensures
            r@ == bb_new(),
    {
        BBox {
            valid: false,
            llx: Fixed::zero(),
            lly: Fixed::zero(),
            urx: Fixed::zero(),
            ury: Fixed::zero(),
        }
    }

    /// Widens the box to contain the point, seeding it if it was empty.
    pub fn addpoint(&mut self, px: Fixed, py: Fixed)
        requires
            bb_in_range(old(self)@),
            in_range(px@),
            in_range(py@),
        ensures
            final(self)@ == bb_add(old(self)@, px@, py@),
    {
        if !self.valid {
            self.llx = px;
            self.lly = py;
            self.urx = px;
            self.ury = py;
            self.valid = true;
        } else {
            if px.m < self.llx.m {
                self.llx = px;
            }
            if py.m < self.lly.m {
                self.lly = py;
            }
            if px.m > self.urx.m {
                self.urx = px;
            }
            if py.m > self.ury.m {
                self.ury = py;
            }
        }
    }

    /// The area `(urx - llx) * (ury - lly)`, in fixed-point units squared.
    pub fn area(&self) -> (r: Fixed)
        requires
            bb_in_range(self@),
        ensures
            r@ == tdiv((self@.urx - self@.llx) * (self@.ury - self@.lly), UNIT as int),
            -4_000_000_000_000_000_000 <= r@ <= 4_000_000_000_000_000_000,
    {
        let dx = self.urx.m - self.llx.m;
        let dy = self.ury.m - self.lly.m;
        proof {
            assert(-4_000_000_000_000_000_000 <= dx * dy <= 4_000_000_000_000_000_000)
                by (nonlinear_arith)
                requires
                    -2_000_000_000 <= dx <= 2_000_000_000,
                    -2_000_000_000 <= dy <= 2_000_000_000,
            ;
            lemma_tdiv_abs(dx as int * dy as int, UNIT as int);
        }
        Fixed::from_milli(div_trunc(dx * dy, UNIT))
    }

    /// The width `urx - llx`.
    pub fn dx(&self) -> (r: Fixed)
        requires
            bb_in_range(self@),
        ensures
            r@ == self@.urx - self@.llx,
    {
        Fixed::from_milli(self.urx.m - self.llx.m)
    }

    /// The height `ury - lly`.
    pub fn dy(&self) -> (r: Fixed)
        requires
            bb_in_range(self@),
        ensures
            r@ == self@.ury - self@.lly,
    {
        Fixed::from_milli(self.ury.m - self.lly.m)
    }

    /// The midpoint of the rectangle.
    pub fn center(&self) -> (r: Point)
        requires
            bb_in_range(self@),
        ensures
            r.x@ == tdiv(self@.urx + self@.llx, 2),
            r.y@ == tdiv(self@.ury + self@.lly, 2),
    {
        Point {
            x: Fixed::from_milli(div_trunc(self.urx.m + self.llx.m, 2)),
            y: Fixed::from_milli(div_trunc(self.ury.m + self.lly.m, 2)),
        }
    }

    /// Widens the box to the component-wise union with `other`.  Both boxes
    /// should be valid; the result on an invalid operand is meaningless (the
    /// caller must check `valid` first).
    pub fn expand(&mut self, other: &BBox)
        requires
            bb_in_range(old(self)@),
            bb_in_range(other@),
        ensures
            final(self)@ == bb_expand(old(self)@, other@),
    {
        if other.llx.m < self.llx.m {
            self.llx = other.llx;
        }
        if other.lly.m < self.lly.m {
            self.lly = other.lly;
        }
        if other.urx.m > self.urx.m {
            self.urx = other.urx;
        }
        if other.ury.m > self.ury.m {
            self.ury = other.ury;
        }
    }

    /// Splits the box horizontally at `bias` (in thousandths of the height),
    /// returning the bottom and top parts, which share the partition line.
    pub fn split_h(&self, bias: Fixed) -> (r: (BBox, BBox))
        requires
            bb_in_range(self@),
            0 <= bias@ <= 1000,
        ensures
            r.0@ == bb_split_h(self@, bias@).0,
            r.1@ == bb_split_h(self@, bias@).1,
            r.0@.ury == r.1@.lly,
    {
        let mut bottom = *self;
        let mut top = *self;
        let dy = self.ury.m - self.lly.m;
        proof {
            lemma_tdiv_abs(bias@ * dy as int, UNIT as int);
            assert(-2_000_000_000_000 <= bias@ * dy <= 2_000_000_000_000) by (nonlinear_arith)
                requires
                    0 <= bias@ <= 1000,
                    -2_000_000_000 <= dy <= 2_000_000_000,
            ;
        }
        bottom.ury = Fixed::from_milli(bottom.lly.m + div_trunc(bias.m * dy, UNIT));
        top.lly = bottom.ury;
        (bottom, top)
    }

    /// Splits the box vertically at `bias` (in thousandths of the width),
    /// returning the left and right parts, which share the partition line.
    pub fn split_v(&self, bias: Fixed) -> (r: (BBox, BBox))
        requires
            bb_in_range(self@),
            0 <= bias@ <= 1000,
        ensures
            r.0@ == bb_split_v(self@, bias@).0,
            r.1@ == bb_split_v(self@, bias@).1,
            r.0@.urx == r.1@.llx,
    {
        let mut left = *self;
        let mut right = *self;
        let dx = self.urx.m - self.llx.m;
        proof {
            lemma_tdiv_abs(bias@ * dx as int, UNIT as int);
            assert(-2_000_000_000_000 <= bias@ * dx <= 2_000_000_000_000) by (nonlinear_arith)
                requires
                    0 <= bias@ <= 1000,
                    -2_000_000_000 <= dx <= 2_000_000_000,
            ;
        }
        left.urx = Fixed::from_milli(left.llx.m + div_trunc(bias.m * dx, UNIT));
        right.llx = left.urx;
        (left, right)
    }
}

/// The textual form of a box: `[(llx, lly) - (urx, ury)]:area`.
pub open spec fn bbox_text(b: BBoxV) -> Seq<char> {
    "["@ + crate::point::point_text(b.llx, b.lly) + " - "@ + crate::point::point_text(b.urx, b.ury)
        + "]:"@ + crate::decimal::fmt_fixed(tdiv((b.urx - b.llx) * (b.ury - b.lly), UNIT as int))
}

impl BBox {
    /// Renders the box as text: both corners and the area.
    pub fn describe(&self) -> (s: String)
        requires
            bb_in_range(self@),
        ensures
            s@ == bbox_text(self@),
    {
        let mut s = String::new();
        s.append("[");
        let ll = Point { x: self.llx, y: self.lly };
        let lls = ll.describe();
        s.append(lls.as_str());
        s.append(" - ");
        let ur = Point { x: self.urx, y: self.ury };
        let urs = ur.describe();
        s.append(urs.as_str());
        s.append("]:");
        let a = self.area();
        let ast = crate::decimal::fixed_to_string(a.m);
        s.append(ast.as_str());
        proof {
            assert(s@ =~= bbox_text(self@));
        }
        s
    }
}

/// Folding one more point equals folding the prefix and then adding it.
pub proof fn lemma_bb_fold_snoc(b: BBoxV, pts: Seq<(int, int)>, p: (int, int))
    ensures
        bb_fold(b, pts.push(p)) == bb_add(bb_fold(b, pts), p.0, p.1),
    decreases pts.len(),
{
    let q = pts.push(p);
    assert(q[0] == if pts.len() == 0 {
        p
    } else {
        pts[0]
    });
    if pts.len() == 0 {
        assert(q.drop_first() =~= Seq::<(int, int)>::empty());
        assert(bb_fold(b, q) == bb_fold(bb_add(b, p.0, p.1), q.drop_first()));
    } else {
        assert(q.drop_first() =~= pts.drop_first().push(p));
        lemma_bb_fold_snoc(bb_add(b, pts[0].0, pts[0].1), pts.drop_first(), p);
        assert(bb_fold(b, q) == bb_fold(bb_add(b, pts[0].0, pts[0].1), q.drop_first()));
    }
}

/// Law: for every sequence of added points, the accumulated box contains
/// every added coordinate, and each of the four sides is achieved by at
/// least one added point.
pub proof fn lemma_bbox_contains_points(pts: Seq<(int, int)>)
    requires
        pts.len() > 0,
    ensures
        ({
            let b = bb_fold(bb_new(), pts);
            &&& b.valid
            &&& forall|i: int|
                0 <= i < pts.len() ==> b.llx <= (#[trigger] pts[i]).0 <= b.urx && b.lly
                    <= pts[i].1 <= b.ury
            &&& exists|i: int| 0 <= i < pts.len() && (#[trigger] pts[i]).0 == b.llx
            &&& exists|i: int| 0 <= i < pts.len() && (#[trigger] pts[i]).0 == b.urx
            &&& exists|i: int| 0 <= i < pts.len() && (#[trigger] pts[i]).1 == b.lly
            &&& exists|i: int| 0 <= i < pts.len() && (#[trigger] pts[i]).1 == b.ury
        }),
    decreases pts.len(),
{
    let b = bb_fold(bb_new(), pts);
    if pts.len() == 1 {
        assert(pts.drop_first() =~= Seq::<(int, int)>::empty());
        assert(b == bb_fold(bb_add(bb_new(), pts[0].0, pts[0].1), pts.drop_first()));
        assert(b == bb_add(bb_new(), pts[0].0, pts[0].1));
        assert(pts[0].0 == b.llx);
        assert(pts[0].0 == b.urx);
        assert(pts[0].1 == b.lly);
        assert(pts[0].1 == b.ury);
    } else {
        let pts0 = pts.drop_last();
        let p = pts.last();
        assert(pts =~= pts0.push(p));
        lemma_bb_fold_snoc(bb_new(), pts0, p);
        lemma_bbox_contains_points(pts0);
        let b0 = bb_fold(bb_new(), pts0);
        assert(b == bb_add(b0, p.0, p.1));
        assert forall|i: int|
            0 <= i < pts.len() implies b.llx <= (#[trigger] pts[i]).0 <= b.urx && b.lly <= pts[i].1
            <= b.ury by {
            if i < pts.len() - 1 {
                assert(pts[i] == pts0[i]);
            }
        }
        if b.llx == b0.llx {
            let i0 = choose|i: int| 0 <= i < pts0.len() && (#[trigger] pts0[i]).0 == b0.llx;
            assert(pts[i0].0 == b.llx);
        } else {
            assert(pts[pts.len() - 1].0 == b.llx);
        }
        if b.urx == b0.urx {
            let i0 = choose|i: int| 0 <= i < pts0.len() && (#[trigger] pts0[i]).0 == b0.urx;
            assert(pts[i0].0 == b.urx);
        } else {
            assert(pts[pts.len() - 1].0 == b.urx);
        }
        if b.lly == b0.lly {
            let i0 = choose|i: int| 0 <= i < pts0.len() && (#[trigger] pts0[i]).1 == b0.lly;
            assert(pts[i0].1 == b.lly);
        } else {
            assert(pts[pts.len() - 1].1 == b.lly);
        }
        if b.ury == b0.ury {
            let i0 = choose|i: int| 0 <= i < pts0.len() && (#[trigger] pts0[i]).1 == b0.ury;
            assert(pts[i0].1 == b.ury);
        } else {
            assert(pts[pts.len() - 1].1 == b.ury);
        }
    }
}

/// Law: splitting a valid box horizontally partitions it: the two parts
/// share the partition line, and their union reconstructs the original box.
pub proof fn lemma_split_h_partitions(b: BBoxV, bias: int)
    requires
        b.valid,
        b.lly <= b.ury,
        0 <= bias <= 1000,
    ensures
        bb_split_h(b, bias).0.ury == bb_split_h(b, bias).1.lly,
        bb_expand(bb_split_h(b, bias).0, bb_split_h(b, bias).1) == b,
{
    lemma_tdiv_scaled_bounds(b.ury - b.lly, bias, 1000);
}

/// Law: splitting a valid box vertically partitions it: the two parts share
/// the partition line, and their union reconstructs the original box.
pub proof fn lemma_split_v_partitions(b: BBoxV, bias: int)
    requires
        b.valid,
        b.llx <= b.urx,
        0 <= bias <= 1000,
    ensures
        bb_split_v(b, bias).0.urx == bb_split_v(b, bias).1.llx,
        bb_expand(bb_split_v(b, bias).0, bb_split_v(b, bias).1) == b,
{
    lemma_tdiv_scaled_bounds(b.urx - b.llx, bias, 1000);
}

} // verus!
