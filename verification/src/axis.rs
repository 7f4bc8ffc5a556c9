//! Planning one axis: from the weights and the number of pixels to segments
//! that cover the axis exactly.
//!
//! `planned_segments` says what the plan of an axis is; `plan_axis` computes
//! it. The lemmas below state what holds of every plan.

use crate::weights::{valid_weights, GridSpec};
use vstd::math::min;
use vstd::prelude::*;

verus! {

/// One part of an axis: `length` pixels starting at pixel `offset`.
#[derive(Clone, Copy, Debug, PartialEq, Eq, Structural)]
pub struct Segment {
    pub offset: u32,
    pub length: u32,
}

/// The weights that are actually laid out along an axis of `extent` pixels.
///
/// A spec of one weight `n` stands for `n` parts of weight 1, but never for
/// more parts than there are pixels. A longer spec is taken as it is.
pub open spec fn effective_weights(extent: int, weights: Seq<u32>) -> Seq<int> {
    if weights.len() == 1 {
        Seq::new(min(weights[0] as int, extent) as nat, |i: int| 1int)
    } else {
        Seq::new(weights.len(), |i: int| weights[i] as int)
    }
}

/// The sum of the first `i` weights.
pub open spec fn weight_before(ws: Seq<int>, i: int) -> int
    decreases i,
{
    if i <= 0 {
        0
    } else {
        weight_before(ws, i - 1) + ws[i - 1]
    }
}

/// The sum of all the weights.
pub open spec fn total_weight(ws: Seq<int>) -> int {
    weight_before(ws, ws.len() as int)
}

/// The pixels that one unit of weight is worth: the extent divided by the
/// total weight, rounded down, and at least one pixel.
pub open spec fn unit_length(extent: int, ws: Seq<int>) -> int {
    let total = total_weight(ws);
    if total > 0 && extent / total >= 1 {
        extent / total
    } else {
        1
    }
}

/// Where part `i` begins. Part `i` nominally begins after the units of all
/// the weights before it; no part begins beyond the extent, and the position
/// after the last part is the extent itself, so that the last part takes
/// whatever the rounding has left.
pub open spec fn cut_point(extent: int, ws: Seq<int>, i: int) -> int {
    if i >= ws.len() {
        extent
    } else {
        min(extent, unit_length(extent, ws) * weight_before(ws, i))
    }
}

/// The parts into which `weights` divide an axis of `extent` pixels: part `i`
/// reaches from its cut point to the next one.
pub open spec fn planned_segments(extent: u32, weights: Seq<u32>) -> Seq<Segment> {
    let ws = effective_weights(extent as int, weights);
    Seq::new(
        ws.len(),
        |i: int|
            Segment {
                offset: cut_point(extent as int, ws, i) as u32,
                length: (cut_point(extent as int, ws, i + 1) - cut_point(extent as int, ws, i)) as u32,
            },
    )
}

/// Effective weights are at least 1 each when the spec is valid.
proof fn lemma_effective_positive(extent: int, weights: Seq<u32>)
    requires
        valid_weights(weights),
    ensures
        forall|i: int|
            0 <= i < effective_weights(extent, weights).len() ==> #[trigger] effective_weights(
                extent,
                weights,
            )[i] >= 1,
{
}

/// Prefix sums of weights that are at least 1 grow by at least 1 per weight.
proof fn lemma_weight_before_grows(ws: Seq<int>, i: int, j: int)
    requires
        forall|k: int| 0 <= k < ws.len() ==> #[trigger] ws[k] >= 1,
        0 <= i <= j <= ws.len(),
    ensures
        weight_before(ws, i) + (j - i) <= weight_before(ws, j),
    decreases j,
{
    if i < j {
        lemma_weight_before_grows(ws, i, j - 1);
    }
}

/// The first `i` of a run of weights 1 weigh `i`.
proof fn lemma_weight_before_ones(ws: Seq<int>, i: int)
    requires
        forall|k: int| 0 <= k < ws.len() ==> #[trigger] ws[k] == 1,
        0 <= i <= ws.len(),
    ensures
        weight_before(ws, i) == i,
    decreases i,
{
    if i > 0 {
        lemma_weight_before_ones(ws, i - 1);
    }
}

/// The unit is at least one pixel, and all the units together fit into the
/// extent whenever the total weight does.
proof fn lemma_unit_bounds(extent: int, ws: Seq<int>)
    requires
        0 <= extent,
    ensures
        unit_length(extent, ws) >= 1,
        0 < total_weight(ws) <= extent ==> unit_length(extent, ws) == extent / total_weight(ws)
            && unit_length(extent, ws) * total_weight(ws) <= extent,
        total_weight(ws) > extent ==> unit_length(extent, ws) == 1,
{
    let total = total_weight(ws);
    if total > 0 {
        vstd::arithmetic::div_mod::lemma_fundamental_div_mod(extent, total);
        vstd::arithmetic::div_mod::lemma_mod_bound(extent, total);
        vstd::arithmetic::mul::lemma_mul_is_commutative(total, extent / total);
        if total > extent {
            vstd::arithmetic::div_mod::lemma_basic_div(extent, total);
        } else {
            assert(extent / total >= 1) by (nonlinear_arith)
                requires
                    0 < total <= extent,
            ;
        }
    }
}

/// Cut points never go back and never pass the extent.
proof fn lemma_cut_points_ordered(extent: int, ws: Seq<int>, i: int, j: int)
    requires
        0 <= extent,
        forall|k: int| 0 <= k < ws.len() ==> #[trigger] ws[k] >= 1,
        0 <= i <= j,
    ensures
        0 <= cut_point(extent, ws, i) <= cut_point(extent, ws, j) <= extent,
{
    lemma_unit_bounds(extent, ws);
    let unit = unit_length(extent, ws);
    if i < ws.len() {
        lemma_weight_before_grows(ws, 0, i);
        vstd::arithmetic::mul::lemma_mul_nonnegative(unit, weight_before(ws, i));
        if j < ws.len() {
            lemma_weight_before_grows(ws, i, j);
            vstd::arithmetic::mul::lemma_mul_inequality(
                weight_before(ws, i),
                weight_before(ws, j),
                unit,
            );
            vstd::arithmetic::mul::lemma_mul_is_commutative(unit, weight_before(ws, i));
            vstd::arithmetic::mul::lemma_mul_is_commutative(unit, weight_before(ws, j));
        }
    }
}

/// Computes the pixels per unit of weight for a spec of several weights.
fn weighted_unit(extent: u32, weights: &Vec<u32>) -> (unit: u32)
    requires
        valid_weights(weights@),
        weights.len() != 1,
    ensures
        unit == unit_length(extent as int, effective_weights(extent as int, weights@)),
{
    let ghost ws = effective_weights(extent as int, weights@);
    let cap: u64 = extent as u64 + 1;
    let mut sum: u64 = 0;
    let mut i: usize = 0;
    while i < weights.len()
        invariant
            i <= weights.len(),
            weights.len() != 1,
            valid_weights(weights@),
            ws == effective_weights(extent as int, weights@),
            cap == extent + 1,
            sum == min(weight_before(ws, i as int), cap as int),
            weight_before(ws, i as int) >= i,
        decreases weights.len() - i,
    {
        proof {
            lemma_effective_positive(extent as int, weights@);
            lemma_weight_before_grows(ws, i as int, i + 1);
        }
        let next: u64 = sum + weights[i] as u64;
        sum = if next < cap { next } else { cap };
        i += 1;
    }
    proof {
        lemma_unit_bounds(extent as int, ws);
    }
    if sum <= extent as u64 {
        extent / (sum as u32)
    } else {
        1
    }
}

/// The number of parts into which `spec` divides an axis of `extent` pixels.
pub fn segment_count(extent: u32, spec: &GridSpec) -> (count: usize)
    ensures
        valid_weights(spec@),
        count == planned_segments(extent, spec@).len(),
{
    let weights = spec.weights();
    if weights.len() == 1 {
        if weights[0] < extent {
            weights[0] as usize
        } else {
            extent as usize
        }
    } else {
        weights.len()
    }
}

/// Divides an axis of `extent` pixels into the parts that `spec` asks for.
///
/// Every part but the last is as long as its weight times the unit; the last
/// one takes the rest, so that the parts cover the axis exactly. Where the
/// weights ask for more pixels than there are, parts end at the extent and the
/// parts after that are empty.
pub fn plan_axis(extent: u32, spec: &GridSpec) -> (segments: Vec<Segment>)
    ensures
        valid_weights(spec@),
        segments@ == planned_segments(extent, spec@),
{
    let weights = spec.weights();
    let ghost ws = effective_weights(extent as int, weights@);
    let shorthand = weights.len() == 1;
    let count = segment_count(extent, spec);
    let unit: u32 = if shorthand {
        proof {
            lemma_weight_before_ones(ws, count as int);
            lemma_unit_bounds(extent as int, ws);
        }
        if count == 0 {
            1
        } else {
            extent / (count as u32)
        }
    } else {
        weighted_unit(extent, weights)
    };
    let mut segments: Vec<Segment> = Vec::new();
    let mut cut: u32 = 0;
    let mut i: usize = 0;
    proof {
        lemma_effective_positive(extent as int, weights@);
    }
    while i < count
        invariant
            i <= count,
            count == ws.len(),
            ws == effective_weights(extent as int, weights@),
            weights@ == spec@,
            valid_weights(weights@),
            shorthand == (weights.len() == 1),
            forall|k: int| 0 <= k < ws.len() ==> #[trigger] ws[k] >= 1,
            unit == unit_length(extent as int, ws),
            unit >= 1,
            cut == cut_point(extent as int, ws, i as int),
            segments@ == planned_segments(extent, spec@).take(i as int),
        decreases count - i,
    {
        let weight: u32 = if shorthand {
            1
        } else {
            weights[i]
        };
        let next: u32 = if i + 1 == count {
            extent
        } else {
            assert(weight * unit <= 0xffff_ffff * 0xffff_ffff) by (nonlinear_arith)
                requires
                    weight <= 0xffff_ffff,
                    unit <= 0xffff_ffff,
            ;
            let nominal: u64 = cut as u64 + (weight as u64) * (unit as u64);
            if nominal < extent as u64 {
                nominal as u32
            } else {
                extent
            }
        };
        proof {
            lemma_cut_points_ordered(extent as int, ws, i as int, i + 1);
            assert(weight == ws[i as int]);
            if i + 1 < count {
                let before = weight_before(ws, i as int);
                assert(weight_before(ws, i + 1) == before + weight);
                vstd::arithmetic::mul::lemma_mul_is_distributive_add(
                    unit as int,
                    before,
                    weight as int,
                );
                vstd::arithmetic::mul::lemma_mul_is_commutative(unit as int, weight as int);
                vstd::arithmetic::mul::lemma_mul_nonnegative(unit as int, weight as int);
            }
            assert(next == cut_point(extent as int, ws, i + 1));
        }
        segments.push(Segment { offset: cut, length: next - cut });
        proof {
            let planned = planned_segments(extent, spec@);
            assert(planned.take(i + 1) =~= planned.take(i as int).push(planned[i as int]));
        }
        cut = next;
        i += 1;
    }
    proof {
        let planned = planned_segments(extent, spec@);
        assert(planned.take(count as int) =~= planned);
    }
    segments
}

/// The pixels that the first `n` segments hold together.
pub open spec fn length_before(segments: Seq<Segment>, n: int) -> int
    decreases n,
{
    if n <= 0 {
        0
    } else {
        length_before(segments, n - 1) + segments[n - 1].length
    }
}

/// Segment `i` of a plan lies between cut point `i` and cut point `i + 1`.
pub proof fn lemma_segment_between_cuts(extent: u32, weights: Seq<u32>, i: int)
    requires
        valid_weights(weights),
        0 <= i < planned_segments(extent, weights).len(),
    ensures
        ({
            let ws = effective_weights(extent as int, weights);
            let segment = planned_segments(extent, weights)[i];
            &&& segment.offset == cut_point(extent as int, ws, i)
            &&& segment.offset + segment.length == cut_point(extent as int, ws, i + 1)
        }),
{
    let ws = effective_weights(extent as int, weights);
    lemma_effective_positive(extent as int, weights);
    lemma_cut_points_ordered(extent as int, ws, i, i + 1);
}

/// The first `n` segments of a plan reach exactly to cut point `n`.
proof fn lemma_length_before_is_cut(extent: u32, weights: Seq<u32>, n: int)
    requires
        valid_weights(weights),
        0 <= n <= planned_segments(extent, weights).len(),
        0 < planned_segments(extent, weights).len(),
    ensures
        length_before(planned_segments(extent, weights), n) == cut_point(
            extent as int,
            effective_weights(extent as int, weights),
            n,
        ),
    decreases n,
{
    if n > 0 {
        lemma_length_before_is_cut(extent, weights, n - 1);
        lemma_segment_between_cuts(extent, weights, n - 1);
    }
}

/// The segments of a plan are laid end to end from pixel 0 to the extent:
/// each begins where the one before it ends, none reaches beyond the extent,
/// no two overlap, and their lengths add up to the extent. An axis with at
/// least one pixel gets at least one segment.
pub proof fn lemma_segments_tile_extent(extent: u32, weights: Seq<u32>)
    requires
        valid_weights(weights),
    ensures
        ({
            let segments = planned_segments(extent, weights);
            &&& extent > 0 ==> segments.len() > 0
            &&& segments.len() > 0 ==> segments[0].offset == 0
            &&& forall|i: int|
                0 <= i < segments.len() - 1 ==> (#[trigger] segments[i]).offset + segments[i].length
                    == segments[i + 1].offset
            &&& segments.len() > 0 ==> segments.last().offset + segments.last().length == extent
            &&& forall|i: int|
                0 <= i < segments.len() ==> (#[trigger] segments[i]).offset + segments[i].length
                    <= extent
            &&& forall|i: int, j: int|
                0 <= i < j < segments.len() ==> (#[trigger] segments[i]).offset
                    + segments[i].length <= (#[trigger] segments[j]).offset
            &&& length_before(segments, segments.len() as int) == extent
        }),
{
    let segments = planned_segments(extent, weights);
    let ws = effective_weights(extent as int, weights);
    lemma_effective_positive(extent as int, weights);
    if segments.len() > 0 {
        lemma_segment_between_cuts(extent, weights, 0);
        lemma_segment_between_cuts(extent, weights, segments.len() - 1);
        lemma_length_before_is_cut(extent, weights, segments.len() as int);
    }
    assert forall|i: int| 0 <= i < segments.len() - 1 implies (#[trigger] segments[i]).offset
        + segments[i].length == segments[i + 1].offset by {
        lemma_segment_between_cuts(extent, weights, i);
        lemma_segment_between_cuts(extent, weights, i + 1);
    }
    assert forall|i: int| 0 <= i < segments.len() implies (#[trigger] segments[i]).offset
        + segments[i].length <= extent by {
        lemma_segment_between_cuts(extent, weights, i);
        lemma_cut_points_ordered(extent as int, ws, i + 1, i + 1);
    }
    assert forall|i: int, j: int| 0 <= i < j < segments.len() implies (#[trigger] segments[i]).offset
        + segments[i].length <= (#[trigger] segments[j]).offset by {
        lemma_segment_between_cuts(extent, weights, i);
        lemma_segment_between_cuts(extent, weights, j);
        lemma_cut_points_ordered(extent as int, ws, i + 1, j);
    }
}

/// Whether pixel `p` of an axis lies in a segment.
pub open spec fn segment_holds(segment: Segment, p: int) -> bool {
    segment.offset <= p < segment.offset + segment.length
}

/// Looks for the segment that holds pixel `p`, from segment `from` on.
proof fn lemma_find_segment(extent: u32, weights: Seq<u32>, p: int, from: int) -> (i: int)
    requires
        valid_weights(weights),
        0 <= from < planned_segments(extent, weights).len(),
        cut_point(extent as int, effective_weights(extent as int, weights), from) <= p < extent,
    ensures
        from <= i < planned_segments(extent, weights).len(),
        segment_holds(planned_segments(extent, weights)[i], p),
    decreases planned_segments(extent, weights).len() - from,
{
    let ws = effective_weights(extent as int, weights);
    lemma_segment_between_cuts(extent, weights, from);
    if p < cut_point(extent as int, ws, from + 1) {
        from
    } else {
        lemma_find_segment(extent, weights, p, from + 1)
    }
}

/// Every pixel of an axis lies in exactly one segment of its plan: the
/// segments leave no gap and do not overlap.
pub proof fn lemma_pixel_in_one_segment(extent: u32, weights: Seq<u32>, p: int) -> (i: int)
    requires
        valid_weights(weights),
        0 <= p < extent,
    ensures
        0 <= i < planned_segments(extent, weights).len(),
        segment_holds(planned_segments(extent, weights)[i], p),
        forall|j: int|
            0 <= j < planned_segments(extent, weights).len() && segment_holds(
                #[trigger] planned_segments(extent, weights)[j],
                p,
            ) ==> j == i,
{
    lemma_segments_tile_extent(extent, weights);
    lemma_segment_between_cuts(extent, weights, 0);
    lemma_find_segment(extent, weights, p, 0)
}

/// Where the total weight fits into the extent, and so for every spec of one
/// weight, no segment is empty.
pub proof fn lemma_no_empty_segment(extent: u32, weights: Seq<u32>)
    requires
        valid_weights(weights),
        weights.len() == 1 || total_weight(effective_weights(extent as int, weights)) <= extent,
    ensures
        forall|i: int|
            0 <= i < planned_segments(extent, weights).len() ==> (#[trigger] planned_segments(
                extent,
                weights,
            )[i]).length >= 1,
{
    let ws = effective_weights(extent as int, weights);
    let segments = planned_segments(extent, weights);
    let total = total_weight(ws);
    let unit = unit_length(extent as int, ws);
    lemma_effective_positive(extent as int, weights);
    lemma_unit_bounds(extent as int, ws);
    if weights.len() == 1 {
        lemma_weight_before_ones(ws, ws.len() as int);
    }
    assert forall|i: int| 0 <= i < segments.len() implies (#[trigger] segments[i]).length
        >= 1 by {
        lemma_weight_before_grows(ws, 0, ws.len() as int);
        lemma_segment_between_cuts(extent, weights, i);
        lemma_weight_before_grows(ws, 0, i);
        lemma_weight_before_grows(ws, i, i + 1);
        lemma_weight_before_grows(ws, i + 1, ws.len() as int);
        let before = weight_before(ws, i);
        let after = weight_before(ws, i + 1);
        assert(unit * before + unit <= unit * after) by (nonlinear_arith)
            requires
                before + 1 <= after,
                unit >= 1,
        ;
        assert(unit * after <= unit * total) by (nonlinear_arith)
            requires
                after <= total,
                unit >= 1,
        ;
    }
}

/// A spec of one weight `n` yields `n` segments where the axis has at least
/// `n` pixels, and one segment per pixel where it has fewer.
pub proof fn lemma_shorthand_count(extent: u32, n: u32)
    ensures
        planned_segments(extent, seq![n]).len() == if n <= extent {
            n
        } else {
            extent
        },
{
}

/// A spec of several weights yields one segment per weight.
pub proof fn lemma_weighted_count(extent: u32, weights: Seq<u32>)
    requires
        weights.len() != 1,
    ensures
        planned_segments(extent, weights).len() == weights.len(),
{
}

/// Where the total weight fits into the extent, every segment but the last
/// begins after the units of the weights before it and is as long as its own
/// weight times the unit, the unit being the extent divided by the total
/// weight, rounded down; the lengths still add up to the extent. This is so
/// for every spec of one weight.
pub proof fn lemma_parts_get_their_units(extent: u32, weights: Seq<u32>)
    requires
        valid_weights(weights),
        weights.len() == 1 || total_weight(effective_weights(extent as int, weights)) <= extent,
    ensures
        ({
            let ws = effective_weights(extent as int, weights);
            let segments = planned_segments(extent, weights);
            let unit = extent as int / total_weight(ws);
            &&& segments.len() > 0 ==> 0 < total_weight(ws) <= extent
            &&& forall|i: int|
                0 <= i < segments.len() - 1 ==> (#[trigger] segments[i]).offset == unit
                    * weight_before(ws, i) && segments[i].length == unit * ws[i]
            &&& length_before(segments, segments.len() as int) == extent
        }),
{
    let ws = effective_weights(extent as int, weights);
    let segments = planned_segments(extent, weights);
    let total = total_weight(ws);
    lemma_effective_positive(extent as int, weights);
    lemma_segments_tile_extent(extent, weights);
    lemma_unit_bounds(extent as int, ws);
    if weights.len() == 1 {
        lemma_weight_before_ones(ws, ws.len() as int);
    }
    if segments.len() > 0 {
        lemma_weight_before_grows(ws, 0, ws.len() as int);
    }
    let unit = unit_length(extent as int, ws);
    assert forall|i: int| 0 <= i < segments.len() - 1 implies (#[trigger] segments[i]).offset
        == unit * weight_before(ws, i) && segments[i].length == unit * ws[i] by {
        lemma_segment_between_cuts(extent, weights, i);
        lemma_weight_before_grows(ws, 0, i);
        lemma_weight_before_grows(ws, i + 1, ws.len() as int);
        let before = weight_before(ws, i);
        let after = weight_before(ws, i + 1);
        assert(after == before + ws[i]);
        vstd::arithmetic::mul::lemma_mul_is_distributive_add(unit, before, ws[i]);
        vstd::arithmetic::mul::lemma_mul_inequality(after, total, unit);
        vstd::arithmetic::mul::lemma_mul_is_commutative(unit, after);
        vstd::arithmetic::mul::lemma_mul_is_commutative(unit, total);
        vstd::arithmetic::mul::lemma_mul_inequality(before, after, unit);
        vstd::arithmetic::mul::lemma_mul_is_commutative(unit, before);
    }
}

} // verus!
