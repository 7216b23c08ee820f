//! Interpolation between two crops over a run of frames.

use crate::crop::{CropArea, CropResult};
use vstd::arithmetic::div_mod::{
    lemma_div_is_ordered, lemma_fundamental_div_mod, lemma_fundamental_div_mod_converse, lemma_mod_bound,
};
use vstd::arithmetic::mul::{lemma_mul_inequality, lemma_mul_is_commutative};
use vstd::prelude::*;

verus! {

/// The x-coordinate at step `i` of `n` on the straight line from `start_x`
/// to `dest_x`, rounded down to a whole pixel:
/// `start_x + i / (n - 1) * (dest_x - start_x)`.
pub open spec fn interpolated_x(start_x: int, dest_x: int, i: int, n: int) -> int
    recommends
        n >= 2,
        0 <= i < n,
{
    start_x + (i * (dest_x - start_x)) / (n - 1)
}

/// The crop at step `i` of an interpolation over `n` frames. Between two
/// `Single` crops only x moves; y, width and height are the destination's
/// from the first step on. Every other pairing is the destination itself.
pub open spec fn interpolated_crop(start: CropResult, destination: CropResult, i: int, n: int) -> CropResult {
    match (start, destination) {
        (CropResult::Single(s), CropResult::Single(d)) => if n >= 2 {
            CropResult::Single(
                CropArea {
                    x: interpolated_x(s.x as int, d.x as int, i, n) as i32,
                    y: d.y,
                    width: d.width,
                    height: d.height,
                },
            )
        } else {
            destination
        },
        _ => destination,
    }
}

/// The crops that lead from `start` to `destination` over `n` frames.
pub open spec fn interpolation(start: CropResult, destination: CropResult, n: nat) -> Seq<CropResult> {
    Seq::new(n, |i: int| interpolated_crop(start, destination, i, n as int))
}

/// Rounding down `-m / d` is the same as rounding up `m / d` and negating.
proof fn lemma_floor_of_negative(m: int, d: int)
    requires
        0 <= m,
        0 < d,
    ensures
        (-m) / d == -((m + d - 1) / d),
{
    let q = (m + d - 1) / d;
    let r = (m + d - 1) % d;
    lemma_fundamental_div_mod(m + d - 1, d);
    lemma_mod_bound(m + d - 1, d);
    assert(m + d - 1 == d * q + r);
    lemma_mul_is_commutative(d, q);
    assert(-m == (-q) * d + (d - 1 - r)) by (nonlinear_arith)
        requires
            m + d - 1 == q * d + r,
    ;
    lemma_fundamental_div_mod_converse(-m, d, -q, d - 1 - r);
}

/// An interpolated x never leaves the closed interval between its two ends,
/// takes the start's value first and the destination's value last.
pub proof fn lemma_interpolated_x_bounds(start_x: int, dest_x: int, i: int, n: int)
    requires
        n >= 2,
        0 <= i < n,
    ensures
        start_x <= dest_x ==> start_x <= interpolated_x(start_x, dest_x, i, n) <= dest_x,
        dest_x <= start_x ==> dest_x <= interpolated_x(start_x, dest_x, i, n) <= start_x,
        i == 0 ==> interpolated_x(start_x, dest_x, i, n) == start_x,
        i == n - 1 ==> interpolated_x(start_x, dest_x, i, n) == dest_x,
{
    let d = dest_x - start_x;
    let last = n - 1;
    assert(0 * d == 0);
    assert((last * d) / last == d) by {
        lemma_mul_is_commutative(last, d);
        lemma_fundamental_div_mod_converse(last * d, last, d, 0);
    }
    assert(0int / last == 0) by {
        lemma_fundamental_div_mod_converse(0, last, 0, 0);
    }
    if d >= 0 {
        lemma_mul_inequality(0, i, d);
        lemma_mul_inequality(i, last, d);
        lemma_div_is_ordered(0, i * d, last);
        lemma_div_is_ordered(i * d, last * d, last);
    } else {
        lemma_mul_inequality(0, i, -d);
        lemma_mul_inequality(i, last, -d);
        assert(i * d == -(i * (-d))) by (nonlinear_arith);
        assert(last * d == -(last * (-d))) by (nonlinear_arith);
        lemma_div_is_ordered(i * d, 0, last);
        lemma_div_is_ordered(last * d, i * d, last);
    }
}

/// From one step to a later one an interpolated x moves towards the
/// destination or stays, and never moves back.
pub proof fn lemma_interpolated_x_monotonic(start_x: int, dest_x: int, i: int, j: int, n: int)
    requires
        n >= 2,
        0 <= i <= j < n,
    ensures
        start_x <= dest_x ==> interpolated_x(start_x, dest_x, i, n) <= interpolated_x(start_x, dest_x, j, n),
        dest_x <= start_x ==> interpolated_x(start_x, dest_x, i, n) >= interpolated_x(start_x, dest_x, j, n),
{
    let d = dest_x - start_x;
    let last = n - 1;
    if d == 0 {
        assert(i * d == j * d) by (nonlinear_arith)
            requires
                d == 0,
        ;
    } else if d > 0 {
        lemma_mul_inequality(i, j, d);
        lemma_div_is_ordered(i * d, j * d, last);
    } else {
        lemma_mul_inequality(i, j, -d);
        assert(i * d == -(i * (-d))) by (nonlinear_arith);
        assert(j * d == -(j * (-d))) by (nonlinear_arith);
        lemma_div_is_ordered(j * d, i * d, last);
    }
}

/// An interpolation has as many crops as frames were asked for: none for no
/// frame, and the destination alone for one frame.
pub proof fn lemma_interpolation_length(start: CropResult, destination: CropResult, n: nat)
    ensures
        interpolation(start, destination, n).len() == n,
        n == 0 ==> interpolation(start, destination, n) == Seq::<CropResult>::empty(),
        n == 1 ==> interpolation(start, destination, n) == seq![destination],
{
    if n == 0 {
        assert(interpolation(start, destination, n) =~= Seq::<CropResult>::empty());
    }
    if n == 1 {
        assert(interpolation(start, destination, n) =~= seq![destination]);
    }
}

/// Between two `Single` crops every crop of the interpolation is a `Single`
/// with the destination's y, width and height, and with an x between the two
/// ends; the first x is the start's and the last the destination's.
pub proof fn lemma_interpolation_single(start: CropArea, destination: CropArea, i: int, n: nat)
    requires
        0 <= i < n,
    ensures
        interpolation(CropResult::Single(start), CropResult::Single(destination), n)[i] matches CropResult::Single(
            c,
        ) && {
            &&& c.y == destination.y
            &&& c.width == destination.width
            &&& c.height == destination.height
            &&& n >= 2 ==> c.x == interpolated_x(start.x as int, destination.x as int, i, n as int)
            &&& n >= 2 && i == 0 ==> c.x == start.x
            &&& i == n - 1 ==> c.x == destination.x
            &&& start.x <= destination.x && n >= 2 ==> start.x <= c.x <= destination.x
            &&& destination.x <= start.x && n >= 2 ==> destination.x <= c.x <= start.x
        },
{
    if n >= 2 {
        lemma_interpolated_x_bounds(start.x as int, destination.x as int, i, n as int);
    }
}

/// Between two `Single` crops x moves one way only: where the destination
/// lies to the right of the start, x never decreases from a frame to a later
/// one, and where it lies to the left, x never increases. At every frame y,
/// width and height are the destination's.
pub proof fn lemma_interpolation_monotonic(start: CropArea, destination: CropArea, i: int, j: int, n: nat)
    requires
        0 <= i <= j < n,
    ensures
        ({
            let crops = interpolation(CropResult::Single(start), CropResult::Single(destination), n);
            &&& crops[i] is Single
            &&& crops[j] is Single
            &&& start.x <= destination.x ==> crops[i]->Single_0.x <= crops[j]->Single_0.x
            &&& destination.x <= start.x ==> crops[i]->Single_0.x >= crops[j]->Single_0.x
            &&& crops[i]->Single_0.y == destination.y
            &&& crops[i]->Single_0.width == destination.width
            &&& crops[i]->Single_0.height == destination.height
        }),
{
    lemma_interpolation_single(start, destination, i, n);
    lemma_interpolation_single(start, destination, j, n);
    if n >= 2 {
        lemma_interpolated_x_monotonic(start.x as int, destination.x as int, i, j, n as int);
    }
}

/// Interpolating from a crop to itself gives that crop at every frame.
pub proof fn lemma_interpolation_identity(crop: CropResult, n: nat)
    ensures
        interpolation(crop, crop, n) == Seq::new(n, |i: int| crop),
{
    assert forall|i: int| 0 <= i < n implies interpolation(crop, crop, n)[i] == crop by {
        if let CropResult::Single(a) = crop {
            lemma_interpolation_single(a, a, i, n);
        }
    }
    assert(interpolation(crop, crop, n) =~= Seq::new(n, |i: int| crop));
}

fn interpolate_x(start_x: i32, dest_x: i32, i: usize, n: usize) -> (x: i32)
    requires
        n >= 2,
        i < n,
    ensures
        x == interpolated_x(start_x as int, dest_x as int, i as int, n as int),
{
    let last: u128 = (n - 1) as u128;
    proof {
        lemma_interpolated_x_bounds(start_x as int, dest_x as int, i as int, n as int);
    }
    if dest_x >= start_x {
        let span: u128 = (dest_x as i64 - start_x as i64) as u128;
        assert(i * span <= 0xffff_ffff_ffff_ffff * 0xffff_ffff) by (nonlinear_arith)
            requires
                0 <= i <= 0xffff_ffff_ffff_ffff,
                0 <= span <= 0xffff_ffff,
        ;
        let moved: u128 = (i as u128 * span) / last;
        (start_x as i64 + moved as i64) as i32
    } else {
        let span: u128 = (start_x as i64 - dest_x as i64) as u128;
        assert(0 <= i * span <= 0xffff_ffff_ffff_ffff * 0xffff_ffff) by (nonlinear_arith)
            requires
                0 <= i <= 0xffff_ffff_ffff_ffff,
                0 <= span <= 0xffff_ffff,
        ;
        let moved: u128 = (i as u128 * span + (last - 1)) / last;
        proof {
            lemma_floor_of_negative(i * span, last as int);
            assert(i * (dest_x - start_x) == -(i * span)) by (nonlinear_arith)
                requires
                    span == start_x - dest_x,
            ;
        }
        (start_x as i64 - moved as i64) as i32
    }
}

/// Leads from `start` to `destination` in `num_frames` crops.
///
/// Between two `Single` crops the x-coordinate moves in equal steps from the
/// start's to the destination's, each rounded down to a whole pixel, while y,
/// width and height are the destination's throughout. Where either crop is not
/// a `Single`, every crop returned is the destination.
pub fn interpolate_crop_results(start: &CropResult, destination: &CropResult, num_frames: usize) -> (crops: Vec<
    CropResult,
>)
    ensures
        crops@ == interpolation(*start, *destination, num_frames as nat),
        crops@.len() == num_frames,
{
    let mut crops: Vec<CropResult> = Vec::new();
    let mut i: usize = 0;
    while i < num_frames
        invariant
            i <= num_frames,
            crops@.len() == i,
            forall|k: int|
                0 <= k < i ==> crops@[k] == interpolated_crop(*start, *destination, k, num_frames as int),
        decreases num_frames - i,
    {
        let crop = match (start, destination) {
            (CropResult::Single(s), CropResult::Single(d)) => {
                if num_frames >= 2 {
                    CropResult::Single(CropArea::new(interpolate_x(s.x, d.x, i, num_frames), d.y, d.width, d.height))
                } else {
                    *destination
                }
            },
            _ => *destination,
        };
        crops.push(crop);
        i += 1;
    }
    assert(crops@ =~= interpolation(*start, *destination, num_frames as nat));
    crops
}

} // verus!
