//! Axis-aligned bounding boxes over ordinate keys.
use vstd::prelude::*;

use crate::ordinate::{is_finite_key, key_of_bits, ordinate_from_bits, ordinate_is_finite, ordinate_to_bits};

verus! {

/// The rectangle `[min_x, max_x] x [min_y, max_y]`, each bound an ordinate key.
#[derive(Clone, Copy, Debug, PartialEq, Eq, Structural)]
pub struct BoundingBox {
    pub min_x: i64,
    pub min_y: i64,
    pub max_x: i64,
    pub max_y: i64,
}

pub open spec fn min_of(a: i64, b: i64) -> i64 {
    if a <= b {
        a
    } else {
        b
    }
}

pub open spec fn max_of(a: i64, b: i64) -> i64 {
    if a >= b {
        a
    } else {
        b
    }
}

impl BoundingBox {
    /// Every bound is the key of a finite `f64`, and each minimum is at most
    /// its maximum.
    pub open spec fn wf(&self) -> bool {
        &&& is_finite_key(self.min_x as int)
        &&& is_finite_key(self.min_y as int)
        &&& is_finite_key(self.max_x as int)
        &&& is_finite_key(self.max_y as int)
        &&& self.min_x <= self.max_x
        &&& self.min_y <= self.max_y
    }

    /// The point `(x, y)` lies in the box (its border included).
    pub open spec fn contains_point(&self, x: int, y: int) -> bool {
        self.min_x <= x <= self.max_x && self.min_y <= y <= self.max_y
    }

    /// The two boxes share at least one point.
    pub open spec fn spec_intersects(&self, other: &BoundingBox) -> bool {
        &&& self.min_x <= other.max_x
        &&& other.min_x <= self.max_x
        &&& self.min_y <= other.max_y
        &&& other.min_y <= self.max_y
    }

    /// The smallest box that covers both boxes.
    pub open spec fn spec_union(&self, other: &BoundingBox) -> BoundingBox {
        BoundingBox {
            min_x: min_of(self.min_x, other.min_x),
            min_y: min_of(self.min_y, other.min_y),
            max_x: max_of(self.max_x, other.max_x),
            max_y: max_of(self.max_y, other.max_y),
        }
    }

    /// Whether every bound is finite and each minimum is at most its maximum.
    pub fn is_valid(&self) -> (r: bool)
        ensures
            r == self.wf(),
    {
        ordinate_is_finite(self.min_x) && ordinate_is_finite(self.min_y) && ordinate_is_finite(
            self.max_x,
        ) && ordinate_is_finite(self.max_y) && self.min_x <= self.max_x && self.min_y
            <= self.max_y
    }

    /// The box with the given `f64` bounds, given by their bit patterns
    /// (`f64::to_bits`); `None` when a bound is not finite or a minimum
    /// exceeds its maximum.
    pub fn from_f64_bits(min_x: u64, min_y: u64, max_x: u64, max_y: u64) -> (r: Option<
        BoundingBox,
    >)
        ensures
            ({
                let k = BoundingBox {
                    min_x: key_of_bits(min_x) as i64,
                    min_y: key_of_bits(min_y) as i64,
                    max_x: key_of_bits(max_x) as i64,
                    max_y: key_of_bits(max_y) as i64,
                };
                match r {
                    Some(b) => b == k && b.wf(),
                    None => !k.wf(),
                }
            }),
    {
        let b = BoundingBox {
            min_x: ordinate_from_bits(min_x),
            min_y: ordinate_from_bits(min_y),
            max_x: ordinate_from_bits(max_x),
            max_y: ordinate_from_bits(max_y),
        };
        if b.is_valid() {
            Some(b)
        } else {
            None
        }
    }

    /// The bit patterns of the four `f64` bounds, in the order
    /// `(min_x, min_y, max_x, max_y)`.
    pub fn to_f64_bits(&self) -> (r: (u64, u64, u64, u64))
        requires
            self.wf(),
        ensures
            crate::ordinate::key_of_bits(r.0) == self.min_x as int,
            crate::ordinate::key_of_bits(r.1) == self.min_y as int,
            crate::ordinate::key_of_bits(r.2) == self.max_x as int,
            crate::ordinate::key_of_bits(r.3) == self.max_y as int,
    {
        (
            ordinate_to_bits(self.min_x),
            ordinate_to_bits(self.min_y),
            ordinate_to_bits(self.max_x),
            ordinate_to_bits(self.max_y),
        )
    }

    /// Whether the two boxes share at least one point.
    pub fn intersects(&self, other: &BoundingBox) -> (r: bool)
        ensures
            r == self.spec_intersects(other),
    {
        self.min_x <= other.max_x && other.min_x <= self.max_x && self.min_y <= other.max_y
            && other.min_y <= self.max_y
    }

    /// The smallest box that covers both boxes: coordinate-wise min and max.
    pub fn union(&self, other: &BoundingBox) -> (r: BoundingBox)
        ensures
            r == self.spec_union(other),
            self.wf() && other.wf() ==> r.wf(),
    {
        BoundingBox {
            min_x: if self.min_x <= other.min_x {
                self.min_x
            } else {
                other.min_x
            },
            min_y: if self.min_y <= other.min_y {
                self.min_y
            } else {
                other.min_y
            },
            max_x: if self.max_x >= other.max_x {
                self.max_x
            } else {
                other.max_x
            },
            max_y: if self.max_y >= other.max_y {
                self.max_y
            } else {
                other.max_y
            },
        }
    }
}

/// Two boxes that hold a common point intersect.
pub proof fn lemma_common_point_intersects(a: BoundingBox, b: BoundingBox, x: int, y: int)
    requires
        a.contains_point(x, y),
        b.contains_point(x, y),
    ensures
        a.spec_intersects(&b),
{
}

/// The union covers every point of either box.
pub proof fn lemma_union_covers(a: BoundingBox, b: BoundingBox, x: int, y: int)
    requires
        a.contains_point(x, y) || b.contains_point(x, y),
    ensures
        a.spec_union(&b).contains_point(x, y),
{
}

} // verus!
