//! Rectangles on the screen, in whole pixels with a top-left origin.

use vstd::prelude::*;
use crate::units::{ratio, lemma_ratio_bounds, UNIT};

verus! {

/// A region of interest: the top-left corner and the extent.
#[derive(Clone, Copy, Debug, PartialEq, Eq, Structural)]
pub struct BoundingBox {
    pub x: i32,
    pub y: i32,
    pub width: u32,
    pub height: u32,
}

/// The greater of two numbers.
pub open spec fn max_int(a: int, b: int) -> int {
    if a >= b {
        a
    } else {
        b
    }
}

/// The smaller of two numbers.
pub open spec fn min_int(a: int, b: int) -> int {
    if a <= b {
        a
    } else {
        b
    }
}

impl BoundingBox {
    /// The coordinate just right of the box.
    pub open spec fn right(self) -> int {
        self.x + self.width
    }

    /// The coordinate just below the box.
    pub open spec fn bottom(self) -> int {
        self.y + self.height
    }

    /// The number of pixels of the box.
    pub open spec fn spec_area(self) -> int {
        self.width * self.height
    }

    /// Whether the two boxes touch or overlap.
    pub open spec fn spec_intersects(self, other: BoundingBox) -> bool {
        !(self.right() < other.x || other.right() < self.x || self.bottom() < other.y
            || other.bottom() < self.y)
    }

    /// The number of pixels that the two boxes share.
    pub open spec fn spec_intersection_area(self, other: BoundingBox) -> int {
        if self.spec_intersects(other) {
            (min_int(self.right(), other.right()) - max_int(self.x as int, other.x as int)) * (min_int(
                self.bottom(),
                other.bottom(),
            ) - max_int(self.y as int, other.y as int))
        } else {
            0
        }
    }

    /// The number of pixels that at least one of the two boxes covers.
    pub open spec fn spec_union_area(self, other: BoundingBox) -> int {
        self.spec_area() + other.spec_area() - self.spec_intersection_area(other)
    }

    /// Intersection over union, in millionths; 0 where the union is empty.
    pub open spec fn spec_iou(self, other: BoundingBox) -> int {
        ratio(self.spec_intersection_area(other), self.spec_union_area(other))
    }

    /// Twice the horizontal coordinate of the centre.
    pub open spec fn center_x2(self) -> int {
        2 * self.x + self.width
    }

    /// Twice the vertical coordinate of the centre.
    pub open spec fn center_y2(self) -> int {
        2 * self.y + self.height
    }

    /// Four times the squared distance between the centres of the two boxes.
    pub open spec fn spec_center_distance_sq4(self, other: BoundingBox) -> int {
        (self.center_x2() - other.center_x2()) * (self.center_x2() - other.center_x2()) + (
        self.center_y2() - other.center_y2()) * (self.center_y2() - other.center_y2())
    }

    /// Whether the centres of the two boxes are at most `limit` pixels apart.
    pub open spec fn spec_centers_within(self, other: BoundingBox, limit: int) -> bool {
        self.spec_center_distance_sq4(other) <= 4 * limit * limit
    }

    pub fn new(x: i32, y: i32, width: u32, height: u32) -> (b: BoundingBox)
        ensures
            b == (BoundingBox { x, y, width, height }),
    {
        BoundingBox { x, y, width, height }
    }

    /// The area in square pixels.
    pub fn area(&self) -> (a: u64)
        ensures
            a as int == self.spec_area(),
    {
        proof {
            assert(self.width as int * self.height as int <= 0xffff_ffff * 0xffff_ffff)
                by (nonlinear_arith)
                requires
                    0 <= self.width as int <= 0xffff_ffff,
                    0 <= self.height as int <= 0xffff_ffff,
            ;
            assert(0 <= self.width as int * self.height as int) by (nonlinear_arith)
                requires
                    0 <= self.width as int,
                    0 <= self.height as int,
            ;
        }
        (self.width as u64) * (self.height as u64)
    }

    /// Whether the two boxes share a pixel.
    pub fn intersects(&self, other: &BoundingBox) -> (r: bool)
        ensures
            r == self.spec_intersects(*other),
    {
        let r1: i64 = self.x as i64 + self.width as i64;
        let r2: i64 = other.x as i64 + other.width as i64;
        let b1: i64 = self.y as i64 + self.height as i64;
        let b2: i64 = other.y as i64 + other.height as i64;
        !(r1 < other.x as i64 || r2 < self.x as i64 || b1 < other.y as i64 || b2 < self.y as i64)
    }

    /// The number of pixels that the two boxes share.
    pub fn intersection_area(&self, other: &BoundingBox) -> (a: u64)
        ensures
            a as int == self.spec_intersection_area(*other),
            a as int <= self.spec_area(),
            a as int <= other.spec_area(),
    {
        proof {
            lemma_intersection_bounds(*self, *other);
        }
        if !self.intersects(other) {
            return 0;
        }
        let r1: i64 = self.x as i64 + self.width as i64;
        let r2: i64 = other.x as i64 + other.width as i64;
        let b1: i64 = self.y as i64 + self.height as i64;
        let b2: i64 = other.y as i64 + other.height as i64;
        let left: i64 = if self.x >= other.x {
            self.x as i64
        } else {
            other.x as i64
        };
        let top: i64 = if self.y >= other.y {
            self.y as i64
        } else {
            other.y as i64
        };
        let right: i64 = if r1 <= r2 {
            r1
        } else {
            r2
        };
        let bottom: i64 = if b1 <= b2 {
            b1
        } else {
            b2
        };
        let w: u64 = (right - left) as u64;
        let h: u64 = (bottom - top) as u64;
        proof {
            assert(w as int * h as int <= self.width as int * self.height as int)
                by (nonlinear_arith)
                requires
                    0 <= w as int <= self.width as int,
                    0 <= h as int <= self.height as int,
            ;
            assert(self.width as int * self.height as int <= 0xffff_ffff * 0xffff_ffff)
                by (nonlinear_arith)
                requires
                    0 <= self.width as int <= 0xffff_ffff,
                    0 <= self.height as int <= 0xffff_ffff,
            ;
            assert(0 <= w as int * h as int) by (nonlinear_arith)
                requires
                    0 <= w as int,
                    0 <= h as int,
            ;
        }
        w * h
    }

    /// Intersection over union, in millionths.
    pub fn iou(&self, other: &BoundingBox) -> (r: u32)
        ensures
            r as int == self.spec_iou(*other),
            r <= UNIT,
    {
        let inter: u64 = self.intersection_area(other);
        let a1: u64 = self.area();
        let a2: u64 = other.area();
        let union: u128 = a1 as u128 + a2 as u128 - inter as u128;
        proof {
            lemma_ratio_bounds(inter as int, union as int);
        }
        if union > 0 {
            proof {
                assert(inter as int * 1_000_000 <= 0xffff_ffff_ffff_ffff * 1_000_000)
                    by (nonlinear_arith)
                    requires
                        0 <= inter as int <= 0xffff_ffff_ffff_ffff,
                ;
            }
            ((inter as u128 * (UNIT as u128)) / union) as u32
        } else {
            0
        }
    }

    /// Whether the centres of the two boxes are at most `limit` pixels apart.
    pub fn centers_within(&self, other: &BoundingBox, limit: u32) -> (r: bool)
        ensures
            r == self.spec_centers_within(*other, limit as int),
    {
        let dx: i128 = (2 * (self.x as i128) + self.width as i128) - (2 * (other.x as i128)
            + other.width as i128);
        let dy: i128 = (2 * (self.y as i128) + self.height as i128) - (2 * (other.y as i128)
            + other.height as i128);
        proof {
            let b: int = 0x4_0000_0000;
            assert(0 <= dx as int * dx as int <= b * b) by (nonlinear_arith)
                requires
                    -b <= dx as int <= b,
            ;
            assert(0 <= dy as int * dy as int <= b * b) by (nonlinear_arith)
                requires
                    -b <= dy as int <= b,
            ;
            assert(0 <= limit as int * limit as int <= 0xffff_ffff * 0xffff_ffff)
                by (nonlinear_arith)
                requires
                    0 <= limit as int <= 0xffff_ffff,
            ;
            assert(4 * limit as int * limit as int == 4 * (limit as int * limit as int))
                by (nonlinear_arith);
        }
        let d2: i128 = dx * dx + dy * dy;
        let l2: i128 = 4 * ((limit as i128) * (limit as i128));
        d2 <= l2
    }
}

/// The shared area of two boxes is at most the area of either.
pub proof fn lemma_intersection_bounds(a: BoundingBox, b: BoundingBox)
    ensures
        0 <= a.spec_intersection_area(b) <= a.spec_area(),
        a.spec_intersection_area(b) <= b.spec_area(),
        a.spec_intersection_area(b) == b.spec_intersection_area(a),
{
    if a.spec_intersects(b) {
        let w = min_int(a.right(), b.right()) - max_int(a.x as int, b.x as int);
        let h = min_int(a.bottom(), b.bottom()) - max_int(a.y as int, b.y as int);
        assert(0 <= w * h <= a.width as int * a.height as int) by (nonlinear_arith)
            requires
                0 <= w <= a.width as int,
                0 <= h <= a.height as int,
        ;
        assert(w * h <= b.width as int * b.height as int) by (nonlinear_arith)
            requires
                0 <= w <= b.width as int,
                0 <= h <= b.height as int,
        ;
    } else {
        assert(0 <= a.width as int * a.height as int) by (nonlinear_arith)
            requires
                0 <= a.width as int,
                0 <= a.height as int,
        ;
        assert(0 <= b.width as int * b.height as int) by (nonlinear_arith)
            requires
                0 <= b.width as int,
                0 <= b.height as int,
        ;
    }
}

/// The overlap of any two boxes is a score between 0 and 1.
pub proof fn lemma_iou_in_unit_range(a: BoundingBox, b: BoundingBox)
    ensures
        0 <= a.spec_iou(b) <= UNIT as int,
{
    lemma_intersection_bounds(a, b);
    lemma_ratio_bounds(a.spec_intersection_area(b), a.spec_union_area(b));
}

/// A box that covers at least one pixel overlaps itself completely.
pub proof fn lemma_iou_of_identical_boxes(b: BoundingBox)
    requires
        b.spec_area() > 0,
    ensures
        b.spec_iou(b) == UNIT as int,
{
    assert(b.spec_intersects(b));
    assert(b.spec_intersection_area(b) == b.spec_area());
    lemma_ratio_bounds(b.spec_area(), b.spec_area());
}

/// Two boxes that share no pixel have overlap 0.
pub proof fn lemma_iou_of_disjoint_boxes(a: BoundingBox, b: BoundingBox)
    requires
        a.spec_intersection_area(b) == 0,
    ensures
        a.spec_iou(b) == 0,
{
    lemma_intersection_bounds(a, b);
    lemma_ratio_bounds(0, a.spec_union_area(b));
}

/// The overlap does not depend on the order of the two boxes.
pub proof fn lemma_iou_symmetric(a: BoundingBox, b: BoundingBox)
    ensures
        a.spec_iou(b) == b.spec_iou(a),
{
    lemma_intersection_bounds(a, b);
}

} // verus!
