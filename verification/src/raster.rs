use crate::vector::{Scalar, FRACTION_RANGE, INFINITY_BITS, SIGN_BIT};
use vstd::arithmetic::power2::pow2;
use vstd::prelude::*;

verus! {

/// The distance of `value` from zero.
pub open spec fn magnitude(value: int) -> int {
    if value < 0 {
        -value
    } else {
        value
    }
}

/// The number of steps in which a line is drawn whose ends lie `dx` columns
/// and `dy` rows apart: the greater of the two distances. The line takes one
/// sample more than it has steps, so a line of no length is one point.
pub fn run_length(dx: isize, dy: isize) -> (steps: usize)
    ensures
        steps == if magnitude(dx as int) >= magnitude(dy as int) {
            magnitude(dx as int)
        } else {
            magnitude(dy as int)
        },
        steps == 0 <==> dx == 0 && dy == 0,
        steps < usize::MAX,
{
    let across = distance(dx);
    let down = distance(dy);
    if across >= down {
        across
    } else {
        down
    }
}

/// The distance of `value` from zero.
fn distance(value: isize) -> (distance: usize)
    ensures
        distance == magnitude(value as int),
{
    if value < 0 {
        (-(value + 1)) as usize + 1
    } else {
        value as usize
    }
}

/// The whole number nearest to `significand` times two to the power of
/// `power`, for a significand that is not negative; a number halfway between
/// two whole numbers goes to the greater.
pub open spec fn nearest_whole(significand: int, power: int) -> int {
    if power >= 0 {
        significand * pow2(power as nat)
    } else {
        (2 * significand + pow2((-power) as nat)) / (2 * pow2((-power) as nat) as int)
    }
}

/// A whole number as an index: itself where it is neither below zero nor
/// beyond the greatest index, and none otherwise.
pub open spec fn as_index(whole: Option<int>) -> Option<usize> {
    match whole {
        Some(whole) => if 0 <= whole <= usize::MAX {
            Some(whole as usize)
        } else {
            None
        },
        None => None,
    }
}

/// The whole number nearest to a coordinate, a coordinate halfway between
/// two whole numbers going to the one farther from zero. A coordinate that
/// is no number, or is infinite, has none.
pub open spec fn nearest_integer(coordinate: Scalar) -> Option<int> {
    if !coordinate.finite() {
        None
    } else if coordinate.sign_set() {
        Some(-nearest_whole(coordinate.significand(), coordinate.power()))
    } else {
        Some(nearest_whole(coordinate.significand(), coordinate.power()))
    }
}

/// The pixel row or column that a coordinate names: the whole number
/// nearest to it, where that is an index. A coordinate that rounds below
/// zero or beyond the greatest index names no pixel, nor does one that is
/// no number.
pub open spec fn pixel_index(coordinate: Scalar) -> Option<usize> {
    as_index(nearest_integer(coordinate))
}

/// The scan line that a coordinate names: the whole number nearest to it,
/// which may lie above the first row of an image. A coordinate that is no
/// number, or whose nearest whole number fits no signed index, names none.
pub open spec fn row_index(coordinate: Scalar) -> Option<isize> {
    match nearest_integer(coordinate) {
        Some(whole) => if isize::MIN <= whole <= isize::MAX {
            Some(whole as isize)
        } else {
            None
        },
        None => None,
    }
}

/// The whole part of `significand` times two to the power of `power`, for a
/// significand that is not negative: what is left when the fraction is cut
/// off.
pub open spec fn whole_part(significand: int, power: int) -> int {
    if power >= 0 {
        significand * pow2(power as nat)
    } else {
        significand / (pow2((-power) as nat) as int)
    }
}

/// A coordinate with its fraction cut off, as a whole number. A coordinate
/// that is no number, or is infinite, has none.
pub open spec fn truncated_integer(coordinate: Scalar) -> Option<int> {
    if !coordinate.finite() {
        None
    } else if coordinate.sign_set() {
        Some(-whole_part(coordinate.significand(), coordinate.power()))
    } else {
        Some(whole_part(coordinate.significand(), coordinate.power()))
    }
}

/// The pixel row or column in which a coordinate lies once its fraction is
/// cut off, where that is an index. A coordinate at or below minus one, or
/// beyond the greatest index, lies in no pixel, nor does one that is no
/// number.
pub open spec fn pixel_under_index(coordinate: Scalar) -> Option<usize> {
    as_index(truncated_integer(coordinate))
}

/// The pixel at which the marker of a vertex starts: the pixel in which the
/// vertex lies, its coordinates taken without their fractions. A vertex that
/// lies in no pixel gets no marker.
pub open spec fn marker_pixel(x: Scalar, y: Scalar) -> Option<(usize, usize)> {
    match (pixel_under_index(x), pixel_under_index(y)) {
        (Some(column), Some(row)) => Some((column, row)),
        _ => None,
    }
}

/// `nearest_whole` rounds to the nearest whole number: the number that it
/// rounds lies no more than a half below it and less than a half above it.
/// Here the number is `significand / unit`, with `unit` standing for two to
/// the power of `-power`.
pub proof fn lemma_nearest_whole_is_nearest(significand: int, power: int)
    requires
        significand >= 0,
        power < 0,
    ensures
        ({
            let unit = pow2((-power) as nat) as int;
            let whole = nearest_whole(significand, power);
            2 * unit * whole - unit <= 2 * significand < 2 * unit * whole + unit
        }),
{
    let unit = pow2((-power) as nat) as int;
    vstd::arithmetic::power2::lemma_pow2_pos((-power) as nat);
    let whole = (2 * significand + unit) / (2 * unit);
    vstd::arithmetic::div_mod::lemma_fundamental_div_mod(2 * significand + unit, 2 * unit);
    vstd::arithmetic::div_mod::lemma_mod_pos_bound(2 * significand + unit, 2 * unit);
    assert(2 * unit * whole == (2 * unit) * ((2 * significand + unit) / (2 * unit)))
        by (nonlinear_arith)
        requires
            whole == (2 * significand + unit) / (2 * unit),
    ;
}

/// A coordinate below zero whose size is a half or more rounds below zero,
/// so it names no pixel.
pub proof fn lemma_left_of_zero_names_no_pixel(coordinate: Scalar)
    requires
        coordinate.sign_set(),
        !coordinate.nan(),
        coordinate.power() < 0,
        2 * coordinate.significand() >= pow2((-coordinate.power()) as nat),
    ensures
        pixel_index(coordinate) is None,
{
    let unit = pow2((-coordinate.power()) as nat) as int;
    let significand = coordinate.significand();
    vstd::arithmetic::power2::lemma_pow2_pos((-coordinate.power()) as nat);
    assert((2 * significand + unit) / (2 * unit) >= 1) by (nonlinear_arith)
        requires
            unit > 0,
            2 * significand >= unit,
    ;
}

/// The significand of a finite coordinate and the power of two that goes
/// with it. The power is given as a distance and a direction: up for a power
/// of zero or more, down for one below zero.
fn split(coordinate: Scalar) -> (parts: (u64, u64, bool))
    requires
        coordinate.finite(),
    ensures
        parts.0 == coordinate.significand(),
        parts.0 < 2 * FRACTION_RANGE,
        parts.2 ==> parts.1 == coordinate.power() && parts.0 >= FRACTION_RANGE,
        !parts.2 ==> parts.1 == -coordinate.power() && 1 <= parts.1 <= 1074,
{
    let magnitude = if coordinate.bits >= SIGN_BIT {
        coordinate.bits - SIGN_BIT
    } else {
        coordinate.bits
    };
    let field = magnitude / FRACTION_RANGE;
    let fraction = magnitude % FRACTION_RANGE;
    if field >= 1075 {
        (fraction + FRACTION_RANGE, field - 1075, true)
    } else if field == 0 {
        (fraction, 1074, false)
    } else {
        (fraction + FRACTION_RANGE, 1075 - field, false)
    }
}

/// `significand` times two to the power of `power`, or `None` where that
/// does not fit 64 bits.
fn scaled_up(significand: u64, power: u64) -> (size: Option<u64>)
    requires
        FRACTION_RANGE <= significand < 2 * FRACTION_RANGE,
    ensures
        size matches Some(whole) ==> whole == significand * pow2(power as nat),
        size is None ==> significand * pow2(power as nat) > u64::MAX,
{
    proof {
        vstd::arithmetic::power2::lemma2_to64();
    }
    if power >= 12 {
        proof {
            if power > 12 {
                vstd::arithmetic::power2::lemma_pow2_strictly_increases(12, power as nat);
            }
            assert(significand * pow2(power as nat) > u64::MAX) by (nonlinear_arith)
                requires
                    significand >= 0x0010_0000_0000_0000,
                    pow2(power as nat) >= 4096,
            ;
        }
        return None;
    }
    proof {
        if power < 11 {
            vstd::arithmetic::power2::lemma_pow2_strictly_increases(power as nat, 11);
        }
        assert(significand * pow2(power as nat) <= u64::MAX) by (nonlinear_arith)
            requires
                0 <= significand < 0x0020_0000_0000_0000,
                0 < pow2(power as nat) <= 2048,
        ;
        vstd::bits::lemma_u64_shl_is_mul(significand, power);
    }
    Some(significand << power)
}

/// The size of a finite coordinate, rounded to the nearest whole number, or
/// `None` where that does not fit 64 bits.
fn rounded_size(coordinate: Scalar) -> (size: Option<u64>)
    requires
        coordinate.finite(),
    ensures
        size matches Some(whole) ==> whole == nearest_whole(
            coordinate.significand(),
            coordinate.power(),
        ),
        size is None ==> nearest_whole(coordinate.significand(), coordinate.power()) > u64::MAX,
{
    let (significand, shift, up) = split(coordinate);
    if up {
        return scaled_up(significand, shift);
    }
    proof {
        vstd::arithmetic::power2::lemma2_to64();
        vstd::arithmetic::power2::lemma2_to64_rest();
    }
    if shift >= 54 {
        proof {
            if shift > 54 {
                vstd::arithmetic::power2::lemma_pow2_strictly_increases(54, shift as nat);
            }
            let unit = pow2(shift as nat) as int;
            assert((2 * significand + unit) / (2 * unit) == 0) by (nonlinear_arith)
                requires
                    0 <= 2 * significand < unit,
            ;
        }
        return Some(0);
    }
    proof {
        vstd::arithmetic::power2::lemma_pow2_strictly_increases(shift as nat, 54);
        vstd::arithmetic::power2::lemma_pow2_unfold((shift + 1) as nat);
        vstd::bits::lemma_u64_shl_is_mul(1, shift);
        vstd::bits::lemma_u64_shr_is_div(
            (2 * significand + (1u64 << shift)) as u64,
            (shift + 1) as u64,
        );
    }
    Some((2 * significand + (1u64 << shift)) >> (shift + 1))
}

/// The size of a finite coordinate with its fraction cut off, or `None`
/// where that does not fit 64 bits.
fn truncated_size(coordinate: Scalar) -> (size: Option<u64>)
    requires
        coordinate.finite(),
    ensures
        size matches Some(whole) ==> whole == whole_part(
            coordinate.significand(),
            coordinate.power(),
        ),
        size is None ==> whole_part(coordinate.significand(), coordinate.power()) > u64::MAX,
{
    let (significand, shift, up) = split(coordinate);
    if up {
        return scaled_up(significand, shift);
    }
    proof {
        vstd::arithmetic::power2::lemma2_to64();
        vstd::arithmetic::power2::lemma2_to64_rest();
    }
    if shift >= 53 {
        proof {
            if shift > 53 {
                vstd::arithmetic::power2::lemma_pow2_strictly_increases(53, shift as nat);
            }
            let unit = pow2(shift as nat) as int;
            assert(significand as int / unit == 0) by (nonlinear_arith)
                requires
                    0 <= significand < unit,
            ;
        }
        return Some(0);
    }
    proof {
        vstd::bits::lemma_u64_shr_is_div(significand, shift);
    }
    Some(significand >> shift)
}

/// The index that a whole number of the given sign and size is, if it is
/// one; a size of `None` stands for one beyond 64 bits.
fn index_for(sign_set: bool, size: Option<u64>) -> (index: Option<usize>)
    ensures
        size matches Some(whole) ==> index == as_index(
            Some(
                if sign_set {
                    -(whole as int)
                } else {
                    whole as int
                },
            ),
        ),
        size is None ==> index is None,
{
    match size {
        Some(whole) => {
            if sign_set {
                if whole == 0 {
                    Some(0)
                } else {
                    None
                }
            } else if whole > usize::MAX as u64 {
                None
            } else {
                Some(whole as usize)
            }
        },
        None => None,
    }
}

/// The pixel row or column in which a coordinate lies once its fraction is
/// cut off, if it lies in one.
pub fn pixel_under(coordinate: Scalar) -> (index: Option<usize>)
    ensures
        index == pixel_under_index(coordinate),
{
    if !coordinate.is_finite() {
        return None;
    }
    index_for(coordinate.bits >= SIGN_BIT, truncated_size(coordinate))
}

/// The pixel at which the marker of the vertex at `(x, y)` starts, if the
/// vertex lies in a pixel.
pub fn marker_corner(x: Scalar, y: Scalar) -> (corner: Option<(usize, usize)>)
    ensures
        corner == marker_pixel(x, y),
{
    match (pixel_under(x), pixel_under(y)) {
        (Some(column), Some(row)) => Some((column, row)),
        _ => None,
    }
}

/// The pixel row or column that a coordinate names, if it names one. A
/// caller that has no pixel for a sample drops the sample.
pub fn pixel_of(coordinate: Scalar) -> (index: Option<usize>)
    ensures
        index == pixel_index(coordinate),
{
    if !coordinate.is_finite() {
        return None;
    }
    index_for(coordinate.bits >= SIGN_BIT, rounded_size(coordinate))
}

/// The scan line that a coordinate names, if it names one.
pub fn row_of(coordinate: Scalar) -> (row: Option<isize>)
    ensures
        row == row_index(coordinate),
{
    if !coordinate.is_finite() {
        return None;
    }
    match rounded_size(coordinate) {
        Some(whole) => {
            if whole <= isize::MAX as u64 {
                if coordinate.bits >= SIGN_BIT {
                    Some(-(whole as isize))
                } else {
                    Some(whole as isize)
                }
            } else if coordinate.bits >= SIGN_BIT && whole - 1 == isize::MAX as u64 {
                Some(isize::MIN)
            } else {
                None
            }
        },
        None => None,
    }
}

/// The shape of a triangle whose corners are sorted from top to bottom.
#[derive(Clone, Copy, Debug, PartialEq, Eq, Structural)]
pub enum FillKind {
    /// The two lower corners lie on one row: the triangle is filled from
    /// its top corner down to them.
    FlatBottom,
    /// The two upper corners lie on one row: the triangle is filled from
    /// them down to its bottom corner.
    FlatTop,
    /// No two corners lie on one row: the triangle is cut at the row of its
    /// middle corner into a flat-bottomed and a flat-topped one.
    Split,
}

/// How to fill a triangle: which of its three corners, counted from zero, is
/// the top, the middle and the bottom one, and the shape that they make.
#[derive(Clone, Copy, Debug, PartialEq, Eq, Structural)]
pub struct FillPlan {
    pub top: usize,
    pub middle: usize,
    pub bottom: usize,
    pub kind: FillKind,
}

/// Whether corner `first` comes before corner `second` from top to bottom:
/// it lies on a row above, or on the same row and was given earlier.
pub open spec fn scans_before(ys: Seq<Scalar>, first: int, second: int) -> bool {
    ys[first].below(&ys[second]) || (ys[first].same_number(&ys[second]) && first < second)
}

/// The shape of the triangle whose corners lie on the rows `top`, `middle`
/// and `bottom`, top first.
pub open spec fn fill_kind(top: Scalar, middle: Scalar, bottom: Scalar) -> FillKind {
    if middle.same_number(&bottom) {
        FillKind::FlatBottom
    } else if top.same_number(&middle) {
        FillKind::FlatTop
    } else {
        FillKind::Split
    }
}

/// Whether `plan` sorts the corners on the rows `ys` from top to bottom,
/// corners of one row in the order in which they were given, and names their
/// shape.
pub open spec fn plans_fill(ys: Seq<Scalar>, plan: FillPlan) -> bool {
    &&& plan.top < 3 && plan.middle < 3 && plan.bottom < 3
    &&& plan.top != plan.middle && plan.middle != plan.bottom && plan.top != plan.bottom
    &&& scans_before(ys, plan.top as int, plan.middle as int)
    &&& scans_before(ys, plan.middle as int, plan.bottom as int)
    &&& plan.kind == fill_kind(ys[plan.top as int], ys[plan.middle as int], ys[plan.bottom as int])
}

/// Plans the fill of the triangle whose corners lie on the rows `y0`, `y1`
/// and `y2`, rows being counted downwards.
pub fn fill_plan(y0: Scalar, y1: Scalar, y2: Scalar) -> (plan: FillPlan)
    requires
        !y0.nan(),
        !y1.nan(),
        !y2.nan(),
    ensures
        plans_fill(seq![y0, y1, y2], plan),
{
    let mut top: (usize, Scalar) = (0, y0);
    let mut middle: (usize, Scalar) = (1, y1);
    let mut bottom: (usize, Scalar) = (2, y2);
    if middle.1.less_than(&top.1) {
        let moved = top;
        top = middle;
        middle = moved;
    }
    if bottom.1.less_than(&middle.1) {
        let moved = middle;
        middle = bottom;
        bottom = moved;
        if middle.1.less_than(&top.1) {
            let moved = top;
            top = middle;
            middle = moved;
        }
    }
    let kind = if middle.1.equals(&bottom.1) {
        FillKind::FlatBottom
    } else if top.1.equals(&middle.1) {
        FillKind::FlatTop
    } else {
        FillKind::Split
    };
    FillPlan { top: top.0, middle: middle.0, bottom: bottom.0, kind }
}

/// Only one plan sorts three corners: the order from top to bottom is
/// settled by the rows and, among corners of one row, by the order in which
/// they were given.
pub proof fn lemma_fill_plan_unique(ys: Seq<Scalar>, first: FillPlan, second: FillPlan)
    requires
        ys.len() == 3,
        !ys[0].nan(),
        !ys[1].nan(),
        !ys[2].nan(),
        plans_fill(ys, first),
        plans_fill(ys, second),
    ensures
        first == second,
{
}

} // verus!
