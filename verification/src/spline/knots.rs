//! Clamped uniform knot vectors for splines fitted to frame samples.

use vstd::prelude::*;

use super::de::SplineError;

verus! {

/// Interior knot `i` of a clamped knot vector over `[0, max_t]` with
/// `interior` interior knots: `(i + 1) * max_t / (interior + 1)`, rounded.
pub open spec fn interior_knot(i: int, interior: int, max_t: int) -> int {
    ((i + 1) * max_t + (interior + 1) / 2) / (interior + 1)
}

/// Knot `k` of the clamped knot vector for `n` control points of degree
/// `degree`: `degree + 1` zeros, the interior knots, `degree + 1` copies of
/// `n - 1`.
pub open spec fn clamped_knot(k: int, n: int, degree: int) -> int {
    let interior = n - degree - 1;
    if k < degree + 1 {
        0
    } else if k < degree + 1 + interior {
        interior_knot(k - (degree + 1), interior, n - 1)
    } else {
        n - 1
    }
}

/// The clamped knot vector for `n` control points, or why there is none:
/// no control point, a zero degree, no more control points than the
/// degree, or a last knot above 255.
pub open spec fn clamped_knots_spec(n: nat, degree: nat) -> Result<Seq<u8>, SplineError> {
    if n == 0 {
        Err(SplineError::InvalidData("B-spline requires at least one control point"))
    } else if degree == 0 {
        Err(SplineError::InvalidData("B-spline degree must not be zero"))
    } else if n <= degree {
        Err(SplineError::InvalidData("B-spline control point count must exceed degree"))
    } else if n - 1 > 255 {
        Err(SplineError::InvalidData("B-spline knot values exceed the u8 representation"))
    } else {
        Ok(Seq::new(n + degree + 1, |k: int| clamped_knot(k, n as int, degree as int) as u8))
    }
}

/// Interior knots lie in `[0, max_t]` and do not decrease.
proof fn lemma_interior_knot_bounds(i: int, interior: int, max_t: int)
    requires
        0 <= i < interior,
        interior < max_t,
    ensures
        0 <= interior_knot(i, interior, max_t) <= max_t,
        i + 1 < interior ==> interior_knot(i, interior, max_t) <= interior_knot(i + 1, interior, max_t),
{
    let c = (interior + 1) / 2;
    let m = interior + 1;
    assert(0 <= (i + 1) * max_t + c) by (nonlinear_arith)
        requires
            0 <= i,
            0 <= max_t,
            0 <= c,
    ;
    assert((i + 1) * max_t + c <= m * max_t) by (nonlinear_arith)
        requires
            0 <= i < interior,
            m == interior + 1,
            c <= interior < max_t,
    ;
    vstd::arithmetic::div_mod::lemma_div_is_ordered((i + 1) * max_t + c, m * max_t, m);
    vstd::arithmetic::div_mod::lemma_div_multiples_vanish(max_t, m);
    vstd::arithmetic::div_mod::lemma_div_pos_is_pos((i + 1) * max_t + c, m);
    if i + 1 < interior {
        assert((i + 1) * max_t + c <= (i + 2) * max_t + c) by (nonlinear_arith)
            requires
                0 <= max_t,
        ;
        vstd::arithmetic::div_mod::lemma_div_is_ordered((i + 1) * max_t + c, (i + 2) * max_t + c, m);
    }
}

/// The clamped knot vector starts with `degree + 1` zeros, ends with
/// `degree + 1` copies of `n - 1`, stays within `[0, n - 1]` and never
/// decreases.
pub proof fn lemma_clamped_knots_shape(n: nat, degree: nat)
    requires
        clamped_knots_spec(n, degree) is Ok,
    ensures
        ({
            let knots = clamped_knots_spec(n, degree)->Ok_0;
            &&& knots.len() == n + degree + 1
            &&& forall|k: int| 0 <= k <= degree ==> knots[k] == 0
            &&& forall|k: int| n <= k < n + degree + 1 ==> knots[k] == n - 1
            &&& forall|k: int| 0 <= k < knots.len() ==> knots[k] <= n - 1
            &&& forall|j: int, k: int| 0 <= j <= k < knots.len() ==> knots[j] <= knots[k]
        }),
{
    let interior = n - degree - 1;
    assert forall|k: int| 0 <= k < n + degree + 1 implies 0 <= #[trigger] clamped_knot(k, n as int, degree as int) <= n - 1 by {
        if degree + 1 <= k < degree + 1 + interior {
            lemma_interior_knot_bounds(k - (degree + 1), interior, n - 1);
        }
    }
    assert forall|j: int, k: int| 0 <= j <= k < n + degree + 1 implies clamped_knot(j, n as int, degree as int)
        <= clamped_knot(k, n as int, degree as int) by {
        lemma_clamped_knot_monotone(j, k, n as int, degree as int);
    }
}

/// Knots of the clamped vector do not decrease.
proof fn lemma_clamped_knot_monotone(j: int, k: int, n: int, degree: int)
    requires
        1 <= degree < n,
        0 <= j <= k < n + degree + 1,
    ensures
        clamped_knot(j, n, degree) <= clamped_knot(k, n, degree),
    decreases k - j,
{
    let interior = n - degree - 1;
    if j < k {
        lemma_clamped_knot_monotone(j, k - 1, n, degree);
        let a = k - 1;
        if degree + 1 <= a && k < degree + 1 + interior {
            lemma_interior_knot_bounds(a - (degree + 1), interior, n - 1);
        } else if a < degree + 1 && degree + 1 <= k < degree + 1 + interior {
            lemma_interior_knot_bounds(k - (degree + 1), interior, n - 1);
        } else if degree + 1 <= a < degree + 1 + interior {
            lemma_interior_knot_bounds(a - (degree + 1), interior, n - 1);
        }
    }
}

/// Builds the clamped knot vector for `n` control points of degree
/// `degree`; see [`clamped_knots_spec`].
pub fn make_clamped_knots(n: usize, degree: usize) -> (r: Result<Vec<u8>, SplineError>)
    ensures
        match clamped_knots_spec(n as nat, degree as nat) {
            Ok(k) => r matches Ok(v) && v@ == k,
            Err(e) => r == Err::<Vec<u8>, SplineError>(e),
        },
{
    if n == 0 {
        return Err(SplineError::InvalidData("B-spline requires at least one control point"));
    }
    if degree == 0 {
        return Err(SplineError::InvalidData("B-spline degree must not be zero"));
    }
    if n <= degree {
        return Err(SplineError::InvalidData("B-spline control point count must exceed degree"));
    }
    let max_t = n - 1;
    if max_t > 255 {
        return Err(SplineError::InvalidData("B-spline knot values exceed the u8 representation"));
    }
    let interior = n - degree - 1;
    let ghost spec_knots = Seq::new((n + degree + 1) as nat, |k: int| clamped_knot(k, n as int, degree as int) as u8);
    let mut knots: Vec<u8> = Vec::new();
    let mut k: usize = 0;
    while k < degree + 1
        invariant
            n <= 256,
            1 <= degree < n,
            k <= degree + 1,
            knots@ =~= spec_knots.take(k as int),
            spec_knots == Seq::new((n + degree + 1) as nat, |k: int| clamped_knot(k, n as int, degree as int) as u8),
        decreases degree + 1 - k,
    {
        knots.push(0);
        k = k + 1;
    }
    let mut index: usize = 0;
    while index < interior
        invariant
            n <= 256,
            1 <= degree < n,
            max_t == n - 1,
            interior == n - degree - 1,
            index <= interior,
            knots@ =~= spec_knots.take(degree + 1 + index),
            spec_knots == Seq::new((n + degree + 1) as nat, |k: int| clamped_knot(k, n as int, degree as int) as u8),
        decreases interior - index,
    {
        proof {
            lemma_interior_knot_bounds(index as int, interior as int, max_t as int);
        }
        assert((index + 1) * max_t <= 256 * 256) by (nonlinear_arith)
            requires
                index < interior,
                interior <= 256,
                max_t <= 255,
        ;
        let value = ((index + 1) * max_t + (interior + 1) / 2) / (interior + 1);
        knots.push(value as u8);
        index = index + 1;
    }
    let mut k: usize = 0;
    while k < degree + 1
        invariant
            n <= 256,
            1 <= degree < n,
            max_t == n - 1,
            k <= degree + 1,
            knots@ =~= spec_knots.take(n + k),
            spec_knots == Seq::new((n + degree + 1) as nat, |k: int| clamped_knot(k, n as int, degree as int) as u8),
        decreases degree + 1 - k,
    {
        knots.push(max_t as u8);
        k = k + 1;
    }
    assert(spec_knots.take((n + degree + 1) as int) =~= spec_knots);
    Ok(knots)
}

/// The knot vector of a spline sampled at every frame: `degree + 1` zeros,
/// `1, 2, ...` for the interior knots, `degree + 1` copies of
/// `control_point_count - degree`.
pub open spec fn uniform_knot(k: int, control_point_count: int, degree: int) -> int {
    if k < degree + 1 {
        0
    } else if k < control_point_count {
        k - degree
    } else {
        control_point_count - degree
    }
}

/// Builds the clamped uniform knot vector with integer interior knots.
pub fn clamped_uniform_knots(control_point_count: usize, degree: usize) -> (r: Vec<usize>)
    requires
        degree > 0,
        control_point_count > degree,
        control_point_count + degree + 1 <= usize::MAX,
    ensures
        r@.len() == control_point_count + degree + 1,
        forall|k: int| 0 <= k < r@.len() ==> #[trigger] r@[k] == uniform_knot(k, control_point_count as int, degree as int),
{
    let knot_count = control_point_count + degree + 1;
    let mut knots: Vec<usize> = Vec::new();
    let mut k: usize = 0;
    while k < knot_count
        invariant
            knot_count == control_point_count + degree + 1,
            degree > 0,
            control_point_count > degree,
            k <= knot_count,
            knots@.len() == k,
            forall|j: int| 0 <= j < k ==> #[trigger] knots@[j] == uniform_knot(j, control_point_count as int, degree as int),
        decreases knot_count - k,
    {
        let value = if k < degree + 1 {
            0
        } else if k < control_point_count {
            k - degree
        } else {
            control_point_count - degree
        };
        knots.push(value);
        k = k + 1;
    }
    knots
}

} // verus!
