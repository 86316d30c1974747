//! Dispatch geometry: how many invocation groups cover a problem domain.
use vstd::prelude::*;

use crate::vector::UVec3;

verus! {

/// Smallest `g` with `g * b >= a`.
pub open spec fn ceil_div_spec(a: int, b: int) -> int {
    (a + b - 1) / b
}

/// Integer ceiling division: `a / b`, plus one when a remainder is left.
pub fn ceil_div(a: u32, b: u32) -> (r: u32)
    requires
        b >= 1,
    ensures
        r as int == ceil_div_spec(a as int, b as int),
{
    let q = a / b;
    proof {
        assert(a as int == q as int * b as int + (a % b) as int) by (nonlinear_arith)
            requires q == a / b, b >= 1;
        assert(q as int * b as int <= a as int) by (nonlinear_arith)
            requires a as int == q as int * b as int + (a % b) as int, a % b >= 0;
        assert(q < u32::MAX || b == 1) by (nonlinear_arith)
            requires q as int * b as int <= a as int, a <= u32::MAX, b >= 1, q == a / b;
        assert((a as int + b as int - 1) / b as int == if a % b > 0 { q + 1 } else { q as int })
            by (nonlinear_arith)
            requires a as int == q as int * b as int + (a % b) as int, 0 <= a % b < b, b >= 1;
    }
    if a % b > 0 {
        q + 1
    } else {
        q
    }
}

/// Number of groups per axis so that `size` is covered by groups of `group_size`.
pub open spec fn plan_spec(size: UVec3, group_size: UVec3) -> UVec3 {
    UVec3 {
        x: ceil_div_spec(size.x as int, group_size.x as int) as u32,
        y: ceil_div_spec(size.y as int, group_size.y as int) as u32,
        z: ceil_div_spec(size.z as int, group_size.z as int) as u32,
    }
}

pub open spec fn valid_group_size(group_size: UVec3) -> bool {
    group_size.x >= 1 && group_size.y >= 1 && group_size.z >= 1
}

/// Computes the group counts to dispatch, per axis by ceiling division.
pub fn plan(size: UVec3, group_size: UVec3) -> (r: UVec3)
    requires
        valid_group_size(group_size),
    ensures
        r == plan_spec(size, group_size),
{
    UVec3 {
        x: ceil_div(size.x, group_size.x),
        y: ceil_div(size.y, group_size.y),
        z: ceil_div(size.z, group_size.z),
    }
}

pub proof fn lemma_ceil_div_bounds(a: int, b: int)
    requires
        a >= 1,
        b >= 1,
    ensures
        ceil_div_spec(a, b) * b >= a,
        (ceil_div_spec(a, b) - 1) * b < a,
        ceil_div_spec(a, b) >= 1,
{
    let g = ceil_div_spec(a, b);
    assert(g * b >= a && (g - 1) * b < a && g >= 1) by (nonlinear_arith)
        requires g == (a + b - 1) / b, a >= 1, b >= 1;
}

/// The planned groups cover the whole problem on every axis, and on every
/// axis one group less would leave part of the problem uncovered.
pub proof fn lemma_plan_covers(size: UVec3, group_size: UVec3)
    requires
        size.x >= 1 && size.y >= 1 && size.z >= 1,
        valid_group_size(group_size),
    ensures
        ({
            let g = plan_spec(size, group_size);
            &&& g.x * group_size.x >= size.x
            &&& g.y * group_size.y >= size.y
            &&& g.z * group_size.z >= size.z
            &&& (g.x - 1) * group_size.x < size.x
            &&& (g.y - 1) * group_size.y < size.y
            &&& (g.z - 1) * group_size.z < size.z
        }),
{
    lemma_ceil_div_bounds(size.x as int, group_size.x as int);
    lemma_ceil_div_bounds(size.y as int, group_size.y as int);
    lemma_ceil_div_bounds(size.z as int, group_size.z as int);
    assert(ceil_div_spec(size.x as int, group_size.x as int) <= size.x) by (nonlinear_arith)
        requires size.x >= 1, group_size.x >= 1,
            ceil_div_spec(size.x as int, group_size.x as int) == (size.x + group_size.x - 1) / group_size.x as int;
    assert(ceil_div_spec(size.y as int, group_size.y as int) <= size.y) by (nonlinear_arith)
        requires size.y >= 1, group_size.y >= 1,
            ceil_div_spec(size.y as int, group_size.y as int) == (size.y + group_size.y - 1) / group_size.y as int;
    assert(ceil_div_spec(size.z as int, group_size.z as int) <= size.z) by (nonlinear_arith)
        requires size.z >= 1, group_size.z >= 1,
            ceil_div_spec(size.z as int, group_size.z as int) == (size.z + group_size.z - 1) / group_size.z as int;
}

} // verus!
