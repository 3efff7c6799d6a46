//! A minimal 2D vector of fixed-point (milli-unit) coordinates.  All
//! operations are pure and return new values; results are saturated into
//! `[-SAT, SAT]`.  Division by zero is reported as an error, never silently
//! propagated.

use vstd::prelude::*;
use crate::fixmath::{
    div_trunc, div_i128, isqrt_spec, isqrt_u128, mul_wide, sat_i64, sat_spec, SAT,
};

verus! {

#[derive(Clone, Copy, PartialEq, Eq, Structural, Debug)]
pub struct Vec2 {
    pub x: i64,
    pub y: i64,
}

/// Errors of the simulation core.
#[derive(Clone, Copy, PartialEq, Eq, Structural, Debug)]
pub enum SimError {
    /// A non-positive or out-of-range physical parameter at construction.
    InvalidParameter,
    /// A raw vector division by a zero scalar or zero component.
    DivideByZero,
}

/// Squared Euclidean length of the difference of two points, over `int`.
pub open spec fn dist_sq_spec(a: Vec2, b: Vec2) -> int {
    (a.x - b.x) * (a.x - b.x) + (a.y - b.y) * (a.y - b.y)
}

/// Euclidean distance rounded down to a whole number of milli-units.
pub open spec fn dist_spec(a: Vec2, b: Vec2) -> int {
    isqrt_spec(dist_sq_spec(a, b) as nat) as int
}

impl Vec2 {
    pub open spec fn in_range(self) -> bool {
        -SAT <= self.x <= SAT && -SAT <= self.y <= SAT
    }

    pub fn new(x: i64, y: i64) -> (r: Vec2)
        ensures
            r.x == sat_spec(x as int),
            r.y == sat_spec(y as int),
            r.in_range(),
    {
        Vec2 { x: sat_i64(x as i128), y: sat_i64(y as i128) }
    }

    pub fn add(&self, other: &Vec2) -> (r: Vec2)
        ensures
            r.x == sat_spec(self.x + other.x),
            r.y == sat_spec(self.y + other.y),
            r.in_range(),
    {
        Vec2 {
            x: sat_i64(self.x as i128 + other.x as i128),
            y: sat_i64(self.y as i128 + other.y as i128),
        }
    }

    pub fn sub(&self, other: &Vec2) -> (r: Vec2)
        ensures
            r.x == sat_spec(self.x - other.x),
            r.y == sat_spec(self.y - other.y),
            r.in_range(),
    {
        Vec2 {
            x: sat_i64(self.x as i128 - other.x as i128),
            y: sat_i64(self.y as i128 - other.y as i128),
        }
    }

    /// Scalar multiplication.
    pub fn scale(&self, scalar: i64) -> (r: Vec2)
        ensures
            r.x == sat_spec(self.x * scalar),
            r.y == sat_spec(self.y * scalar),
            r.in_range(),
    {
        Vec2 { x: sat_i64(mul_wide(self.x, scalar)), y: sat_i64(mul_wide(self.y, scalar)) }
    }

    /// Component-wise multiplication.
    pub fn mul_components(&self, other: &Vec2) -> (r: Vec2)
        ensures
            r.x == sat_spec(self.x * other.x),
            r.y == sat_spec(self.y * other.y),
            r.in_range(),
    {
        Vec2 {
            x: sat_i64(mul_wide(self.x, other.x)),
            y: sat_i64(mul_wide(self.y, other.y)),
        }
    }

    /// Scalar division, truncating; a zero scalar is an error.
    pub fn div_scalar(&self, scalar: i64) -> (r: Result<Vec2, SimError>)
        ensures
            scalar == 0 <==> r is Err,
            r is Err ==> r->Err_0 == SimError::DivideByZero,
            r is Ok ==> r->Ok_0.x == sat_spec(div_trunc(self.x as int, scalar as int))
                && r->Ok_0.y == sat_spec(div_trunc(self.y as int, scalar as int))
                && r->Ok_0.in_range(),
    {
        if scalar == 0 {
            Err(SimError::DivideByZero)
        } else {
            Ok(Vec2 {
                x: sat_i64(div_i128(self.x as i128, scalar as i128)),
                y: sat_i64(div_i128(self.y as i128, scalar as i128)),
            })
        }
    }

    /// Component-wise division, truncating; a zero component is an error.
    pub fn div_components(&self, other: &Vec2) -> (r: Result<Vec2, SimError>)
        ensures
            (other.x == 0 || other.y == 0) <==> r is Err,
            r is Err ==> r->Err_0 == SimError::DivideByZero,
            r is Ok ==> r->Ok_0.x == sat_spec(div_trunc(self.x as int, other.x as int))
                && r->Ok_0.y == sat_spec(div_trunc(self.y as int, other.y as int))
                && r->Ok_0.in_range(),
    {
        if other.x == 0 || other.y == 0 {
            Err(SimError::DivideByZero)
        } else {
            Ok(Vec2 {
                x: sat_i64(div_i128(self.x as i128, other.x as i128)),
                y: sat_i64(div_i128(self.y as i128, other.y as i128)),
            })
        }
    }

    /// Dot product, saturated.
    pub fn dot(&self, other: &Vec2) -> (r: i64)
        requires
            self.in_range(),
            other.in_range(),
        ensures
            r == sat_spec(self.x * other.x + self.y * other.y),
    {
        let px: i128 = mul_wide(self.x, other.x);
        let py: i128 = mul_wide(self.y, other.y);
        proof {
            assert(-1_000_000_000_000_000_000_000_000_000_000_000_000 <= px
                <= 1_000_000_000_000_000_000_000_000_000_000_000_000) by (nonlinear_arith)
                requires
                    px == self.x as int * other.x as int,
                    -1_000_000_000_000_000_000 <= self.x as int <= 1_000_000_000_000_000_000,
                    -1_000_000_000_000_000_000 <= other.x as int <= 1_000_000_000_000_000_000,
            ;
            assert(-1_000_000_000_000_000_000_000_000_000_000_000_000 <= py
                <= 1_000_000_000_000_000_000_000_000_000_000_000_000) by (nonlinear_arith)
                requires
                    py == self.y as int * other.y as int,
                    -1_000_000_000_000_000_000 <= self.y as int <= 1_000_000_000_000_000_000,
                    -1_000_000_000_000_000_000 <= other.y as int <= 1_000_000_000_000_000_000,
            ;
        }
        sat_i64(px + py)
    }

    /// Euclidean distance between two points, rounded down.
    pub fn dist(&self, other: &Vec2) -> (r: i64)
        requires
            self.in_range(),
            other.in_range(),
        ensures
            r == dist_spec(*self, *other),
            r >= 0,
    {
        let dx: i128 = self.x as i128 - other.x as i128;
        let dy: i128 = self.y as i128 - other.y as i128;
        proof {
            assert(0 <= dx * dx <= 4_000_000_000_000_000_000_000_000_000_000_000_000)
                by (nonlinear_arith)
                requires
                    -2_000_000_000_000_000_000 <= dx <= 2_000_000_000_000_000_000,
            ;
            assert(0 <= dy * dy <= 4_000_000_000_000_000_000_000_000_000_000_000_000)
                by (nonlinear_arith)
                requires
                    -2_000_000_000_000_000_000 <= dy <= 2_000_000_000_000_000_000,
            ;
        }
        let sqi: i128 = dx * dx + dy * dy;
        let sq: u128 = sqi as u128;
        let r: u128 = isqrt_u128(sq);
        proof {
            assert(r < 3_000_000_000_000_000_000) by (nonlinear_arith)
                requires
                    r * r <= sq,
                    sq <= 8_000_000_000_000_000_000_000_000_000_000_000_000,
            ;
        }
        r as i64
    }

    /// Length of the vector, rounded down.
    pub fn magnitude(&self) -> (r: i64)
        requires
            self.in_range(),
        ensures
            r == dist_spec(*self, Vec2 { x: 0, y: 0 }),
            r >= 0,
    {
        self.dist(&Vec2 { x: 0, y: 0 })
    }
}

} // verus!
