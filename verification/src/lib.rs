//! Synthetic next-value generation for a bounded numeric series.
//!
//! The crate has two parts: a fixed-capacity, FIFO-evicting history
//! container ([`RingBuffer`]), and the discrete decisions of the value
//! simulator (input validation, momentum weighting, seed-band selection).
//! The floating-point arithmetic that combines these decisions lives in the
//! unverified application layer.

use vstd::prelude::*;

pub mod ringbuffer;

pub use crate::ringbuffer::RingBuffer;

verus! {

/// An invalid caller input, detected before or during a computation.
#[derive(Copy, Clone, Debug, PartialEq, Eq, Structural)]
pub enum SimulationError {
    /// A history container was requested with capacity zero.
    InvalidCapacity,
    /// The lower bound of the allowed range is not below the upper bound.
    InvalidRange,
    /// The curve and scale combination would produce a non-finite modifier.
    InvalidConfig,
    /// The claimed history length disagrees with the elements actually given.
    InvalidHistory,
}

/// The sub-band of the allowed range in which a value is seeded when no
/// history exists.
#[derive(Copy, Clone, Debug, PartialEq, Eq, Structural)]
pub enum StartingPosition {
    BottomThird,
    MiddleThird,
    TopThird,
}

/// Shape of the transform applied to a momentum weight index or to the
/// reversion scale.
#[derive(Copy, Clone, Debug, PartialEq, Eq, Structural)]
pub enum CurveType {
    Linear,
    Quadratic,
    Logarithmic,
}

/// Offset of a starting band, in hundredths of the range.
pub open spec fn spec_starting_offset_hundredths(position: StartingPosition) -> int {
    match position {
        StartingPosition::BottomThird => 0,
        StartingPosition::MiddleThird => 33,
        StartingPosition::TopThird => 66,
    }
}

/// Returns the offset of the seed band chosen by `position`, in hundredths
/// of the range: the seeded value starts `offset / 100` of the way up the
/// allowed range.
pub fn starting_offset_hundredths(position: StartingPosition) -> (r: u64)
    ensures
        r == spec_starting_offset_hundredths(position),
{
    match position {
        StartingPosition::BottomThird => 0,
        StartingPosition::MiddleThird => 33,
        StartingPosition::TopThird => 66,
    }
}

/// The admission decision for one simulation call, given the discrete facts
/// about its inputs: an ascending range, a reversion curve whose transform is
/// finite on the given scale, and a history whose claimed length matches the
/// elements actually given.
pub open spec fn spec_check_simulation_inputs(
    range_ascending: bool,
    reversion_curve: CurveType,
    reversion_scale_positive: bool,
    claimed_len: int,
    actual_len: int,
) -> Result<(), SimulationError> {
    if !range_ascending {
        Err(SimulationError::InvalidRange)
    } else if reversion_curve is Logarithmic && !reversion_scale_positive {
        Err(SimulationError::InvalidConfig)
    } else if claimed_len != actual_len {
        Err(SimulationError::InvalidHistory)
    } else {
        Ok(())
    }
}

/// Admits or rejects one simulation call.
///
/// `range_ascending` says whether the caller's lower bound is strictly below
/// its upper bound; `reversion_scale_positive` whether the reversion scale is
/// strictly positive. A logarithmic reversion curve on a non-positive scale
/// would produce a non-finite modifier, so that combination is rejected as
/// [`SimulationError::InvalidConfig`] rather than computed.
pub fn check_simulation_inputs(
    range_ascending: bool,
    reversion_curve: CurveType,
    reversion_scale_positive: bool,
    claimed_len: usize,
    actual_len: usize,
) -> (r: Result<(), SimulationError>)
    ensures
        r == spec_check_simulation_inputs(
            range_ascending,
            reversion_curve,
            reversion_scale_positive,
            claimed_len as int,
            actual_len as int,
        ),
{
    if !range_ascending {
        Err(SimulationError::InvalidRange)
    } else if matches!(reversion_curve, CurveType::Logarithmic) && !reversion_scale_positive {
        Err(SimulationError::InvalidConfig)
    } else if claimed_len != actual_len {
        Err(SimulationError::InvalidHistory)
    } else {
        Ok(())
    }
}

/// The momentum weight of the delta with 1-based index `i` (1 is the oldest
/// delta, larger indices are more recent) under an integer-valued curve.
/// The logarithmic curve is not integer-valued; it is given weight zero here
/// and handled apart.
pub open spec fn recency_weight(curve: CurveType, i: int) -> int
    recommends
        !(curve is Logarithmic),
{
    match curve {
        CurveType::Linear => i,
        CurveType::Quadratic => i * i,
        CurveType::Logarithmic => 0,
    }
}

/// Returns the momentum weight of the delta with 1-based index `i` under
/// `curve`, or `None` for the logarithmic curve, whose weights are not
/// integers.
pub fn momentum_weight(curve: CurveType, i: u64) -> (r: Option<u64>)
    requires
        1 <= i <= 0xFFFF_FFFFu64,
    ensures
        r is None <==> curve is Logarithmic,
        r matches Some(w) ==> w == recency_weight(curve, i as int),
{
    match curve {
        CurveType::Linear => Some(i),
        CurveType::Quadratic => {
            proof {
                assert((i as int) * (i as int) <= 0xFFFF_FFFFu64 * 0xFFFF_FFFFu64)
                    by (nonlinear_arith)
                    requires
                        1 <= i as int <= 0xFFFF_FFFFu64,
                ;
            }
            Some(i * i)
        },
        CurveType::Logarithmic => None,
    }
}

/// Returns the momentum weights of `count` deltas under `curve`, oldest
/// first (so entry `k` is the weight of the delta with 1-based index
/// `k + 1`), or `None` for the logarithmic curve.
pub fn integer_momentum_weights(curve: CurveType, count: usize) -> (r: Option<Vec<u64>>)
    requires
        count <= 0xFFFF_FFFFusize,
    ensures
        r is None <==> curve is Logarithmic,
        r matches Some(ws) ==> ws@.len() == count && (forall|k: int|
            0 <= k < count ==> ws@[k] == recency_weight(curve, k + 1)),
{
    if matches!(curve, CurveType::Logarithmic) {
        return None;
    }
    let mut ws: Vec<u64> = Vec::new();
    let mut i: usize = 0;
    while i < count
        invariant
            i <= count,
            count <= 0xFFFF_FFFFusize,
            !(curve is Logarithmic),
            ws@.len() == i,
            forall|k: int| 0 <= k < i ==> ws@[k] == recency_weight(curve, k + 1),
        decreases count - i,
    {
        let w = match momentum_weight(curve, (i as u64) + 1) {
            Some(w) => w,
            None => 0,
        };
        ws.push(w);
        i = i + 1;
    }
    Some(ws)
}

/// Law: momentum weighting is strictly recency-increasing under the linear
/// and quadratic curves: a more recent delta (larger 1-based index) always
/// receives a strictly larger weight than an older one.
pub proof fn lemma_momentum_weight_recency_increasing(curve: CurveType, i: int, j: int)
    requires
        curve is Linear || curve is Quadratic,
        1 <= i < j,
    ensures
        recency_weight(curve, i) < recency_weight(curve, j),
{
    if curve is Quadratic {
        assert(i * i < j * j) by (nonlinear_arith)
            requires
                1 <= i < j,
        ;
    }
}

} // verus!
