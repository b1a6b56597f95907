//! Measures of a run of touch samples: velocities, speeds, their spread and
//! the length of the path.
//!
//! Velocities are layout units per second. A pair of consecutive samples
//! counts as moving when time passes between the two.

use crate::events::{distance_sq, position_distance_sq, Position};
use crate::numeric::{
    clamp_int, div_trunc, floor_sqrt, isqrt, lemma_floor_sqrt_under,
    lemma_norm_sq_bound, norm_sq, saturate_i32, trunc_div, vector_norm_sq,
};
use vstd::prelude::*;

verus! {

/// One reading of a touch.
#[derive(Clone, Copy, Debug, PartialEq, Eq, Structural)]
pub struct GestureSample {
    pub timestamp: u64,
    pub position: Position,
    /// Units per second since the sample before.
    pub velocity: Position,
    pub pressure: Option<u32>,
}

/// One coordinate of the velocity of a move by `delta` units in `elapsed`
/// milliseconds, cut off at the ends of `i32`.
pub open spec fn velocity_component(delta: int, elapsed: int) -> i32 {
    clamp_int(trunc_div(delta * 1000, elapsed), i32::MIN as int, i32::MAX as int) as i32
}

/// The velocity of a move from `from` at `earlier` to `to` at `later`; zero
/// when no time passes.
pub open spec fn velocity_between(from: Position, earlier: u64, to: Position, later: u64) -> Position {
    if later > earlier {
        Position {
            x: velocity_component(to.x - from.x, later - earlier),
            y: velocity_component(to.y - from.y, later - earlier),
        }
    } else {
        Position { x: 0, y: 0 }
    }
}

/// The velocity from one sample to the next.
pub open spec fn pair_velocity(a: GestureSample, b: GestureSample) -> Position {
    velocity_between(a.position, a.timestamp, b.position, b.timestamp)
}

/// The size of a velocity, rounded down.
pub open spec fn speed_of(velocity: Position) -> int {
    floor_sqrt(norm_sq(velocity.x as int, velocity.y as int))
}

/// Whether time passes from `a` to `b`.
pub open spec fn moves(a: GestureSample, b: GestureSample) -> bool {
    b.timestamp > a.timestamp
}

/// The number of moving pairs among consecutive samples.
pub open spec fn moving_pairs(samples: Seq<GestureSample>) -> int
    decreases samples.len(),
{
    if samples.len() < 2 {
        0
    } else {
        moving_pairs(samples.drop_last()) + if moves(
            samples[samples.len() - 2],
            samples[samples.len() - 1],
        ) {
            1int
        } else {
            0int
        }
    }
}

/// The sum of the speeds of the moving pairs.
pub open spec fn speed_sum(samples: Seq<GestureSample>) -> int
    decreases samples.len(),
{
    if samples.len() < 2 {
        0
    } else {
        speed_sum(samples.drop_last()) + if moves(
            samples[samples.len() - 2],
            samples[samples.len() - 1],
        ) {
            speed_of(pair_velocity(samples[samples.len() - 2], samples[samples.len() - 1]))
        } else {
            0int
        }
    }
}

/// The sum of the horizontal velocities of the moving pairs.
pub open spec fn velocity_sum_x(samples: Seq<GestureSample>) -> int
    decreases samples.len(),
{
    if samples.len() < 2 {
        0
    } else {
        velocity_sum_x(samples.drop_last()) + pair_velocity(
            samples[samples.len() - 2],
            samples[samples.len() - 1],
        ).x
    }
}

/// The sum of the vertical velocities of the moving pairs.
pub open spec fn velocity_sum_y(samples: Seq<GestureSample>) -> int
    decreases samples.len(),
{
    if samples.len() < 2 {
        0
    } else {
        velocity_sum_y(samples.drop_last()) + pair_velocity(
            samples[samples.len() - 2],
            samples[samples.len() - 1],
        ).y
    }
}

/// The mean of the speeds of the moving pairs; zero when nothing moves.
pub open spec fn mean_speed(samples: Seq<GestureSample>) -> int {
    if moving_pairs(samples) > 0 {
        speed_sum(samples) / moving_pairs(samples)
    } else {
        0
    }
}

/// The mean of the velocities of the moving pairs; zero when nothing moves.
pub open spec fn mean_velocity(samples: Seq<GestureSample>) -> Position {
    if moving_pairs(samples) > 0 {
        Position {
            x: clamp_int(
                trunc_div(velocity_sum_x(samples), moving_pairs(samples)),
                i32::MIN as int,
                i32::MAX as int,
            ) as i32,
            y: clamp_int(
                trunc_div(velocity_sum_y(samples), moving_pairs(samples)),
                i32::MIN as int,
                i32::MAX as int,
            ) as i32,
        }
    } else {
        Position { x: 0, y: 0 }
    }
}

/// The sum, over the moving pairs, of the squared distance of the speed
/// from `mean`.
pub open spec fn deviation_sum(samples: Seq<GestureSample>, mean: int) -> int
    decreases samples.len(),
{
    if samples.len() < 2 {
        0
    } else {
        deviation_sum(samples.drop_last(), mean) + if moves(
            samples[samples.len() - 2],
            samples[samples.len() - 1],
        ) {
            let speed = speed_of(
                pair_velocity(samples[samples.len() - 2], samples[samples.len() - 1]),
            );
            (speed - mean) * (speed - mean)
        } else {
            0int
        }
    }
}

/// How uneven the speeds are, in thousandths: the standard deviation of
/// the speeds of the moving pairs over their mean, the mean taken as at
/// least one. Zero for fewer than three samples or when nothing moves.
pub open spec fn speed_spread(samples: Seq<GestureSample>) -> int {
    if samples.len() < 3 || moving_pairs(samples) == 0 {
        0
    } else {
        let mean = mean_speed(samples);
        let variance = deviation_sum(samples, mean) / moving_pairs(samples);
        floor_sqrt(variance) * 1000 / if mean > 1 {
            mean
        } else {
            1
        }
    }
}

/// The length of the path through the samples: the sum of the distances
/// between consecutive samples, each rounded down.
pub open spec fn path_length(samples: Seq<GestureSample>) -> int
    decreases samples.len(),
{
    if samples.len() < 2 {
        0
    } else {
        path_length(samples.drop_last()) + floor_sqrt(
            distance_sq(samples[samples.len() - 2].position, samples[samples.len() - 1].position),
        )
    }
}

/// Computes one coordinate of a velocity.
fn component_velocity(delta: i64, elapsed: u64) -> (r: i32)
    requires
        elapsed > 0,
        -0x1_0000_0000 <= delta <= 0x1_0000_0000,
    ensures
        r == velocity_component(delta as int, elapsed as int),
{
    saturate_i32(div_trunc((delta as i128) * 1000, elapsed as i128))
}

/// Computes the velocity of a move between two points.
pub fn calculate_velocity(from: Position, earlier: u64, to: Position, later: u64) -> (r: Position)
    ensures
        r == velocity_between(from, earlier, to, later),
{
    if later > earlier {
        let elapsed = later - earlier;
        Position {
            x: component_velocity(to.x as i64 - from.x as i64, elapsed),
            y: component_velocity(to.y as i64 - from.y as i64, elapsed),
        }
    } else {
        Position { x: 0, y: 0 }
    }
}

/// Computes the size of a velocity.
pub fn calculate_speed(velocity: Position) -> (r: u64)
    ensures
        r == speed_of(velocity),
        r < 0x1_0000_0000,
{
    let squared = vector_norm_sq(velocity.x as i64, velocity.y as i64);
    let root = isqrt(squared);
    proof {
        lemma_norm_sq_bound(velocity.x as int, velocity.y as int);
        assert(norm_sq(velocity.x as int, velocity.y as int) <= 0x8000_0000_0000_0000) by {
            assert((velocity.x as int) * (velocity.x as int) <= 0x4000_0000_0000_0000)
                by (nonlinear_arith)
                requires
                    -0x8000_0000 <= velocity.x as int <= 0x8000_0000,
            ;
            assert((velocity.y as int) * (velocity.y as int) <= 0x4000_0000_0000_0000)
                by (nonlinear_arith)
                requires
                    -0x8000_0000 <= velocity.y as int <= 0x8000_0000,
            ;
        }
        assert(0x1_0000_0000int * 0x1_0000_0000int == 0x1_0000_0000_0000_0000int)
            by (nonlinear_arith);
        lemma_floor_sqrt_under(squared as int, root as int, 0x1_0000_0000);
    }
    root
}

/// The sums that the measures of a run are made of.
pub struct MotionTotals {
    pub pairs: u64,
    pub speed_sum: u128,
    pub velocity_sum_x: i128,
    pub velocity_sum_y: i128,
}

/// Adds up the moving pairs of a run, their speeds and their velocities.
pub fn motion_totals(samples: &Vec<GestureSample>) -> (r: MotionTotals)
    ensures
        r.pairs == moving_pairs(samples@),
        r.speed_sum == speed_sum(samples@),
        r.velocity_sum_x == velocity_sum_x(samples@),
        r.velocity_sum_y == velocity_sum_y(samples@),
        r.pairs <= samples@.len(),
        r.speed_sum <= r.pairs * 0x1_0000_0000,
        -(r.pairs * 0x8000_0000) <= r.velocity_sum_x <= r.pairs * 0x8000_0000,
        -(r.pairs * 0x8000_0000) <= r.velocity_sum_y <= r.pairs * 0x8000_0000,
{
    let mut totals = MotionTotals { pairs: 0, speed_sum: 0, velocity_sum_x: 0, velocity_sum_y: 0 };
    if samples.len() < 2 {
        return totals;
    }
    let mut i: usize = 1;
    assert(samples@.take(1).len() == 1);
    while i < samples.len()
        invariant
            1 <= i <= samples.len(),
            totals.pairs == moving_pairs(samples@.take(i as int)),
            totals.speed_sum == speed_sum(samples@.take(i as int)),
            totals.velocity_sum_x == velocity_sum_x(samples@.take(i as int)),
            totals.velocity_sum_y == velocity_sum_y(samples@.take(i as int)),
            totals.pairs < i,
            totals.speed_sum <= totals.pairs * 0x1_0000_0000,
            -(totals.pairs * 0x8000_0000) <= totals.velocity_sum_x <= totals.pairs * 0x8000_0000,
            -(totals.pairs * 0x8000_0000) <= totals.velocity_sum_y <= totals.pairs * 0x8000_0000,
        decreases samples.len() - i,
    {
        let a = samples[i - 1];
        let b = samples[i];
        proof {
            let grown = samples@.take(i as int + 1);
            assert(grown.drop_last() =~= samples@.take(i as int));
            assert(grown[grown.len() - 2] == a);
            assert(grown[grown.len() - 1] == b);
        }
        let velocity = calculate_velocity(a.position, a.timestamp, b.position, b.timestamp);
        if b.timestamp > a.timestamp {
            let speed = calculate_speed(velocity);
            totals.pairs = totals.pairs + 1;
            totals.speed_sum = totals.speed_sum + speed as u128;
            totals.velocity_sum_x = totals.velocity_sum_x + velocity.x as i128;
            totals.velocity_sum_y = totals.velocity_sum_y + velocity.y as i128;
        }
        i += 1;
    }
    assert(samples@.take(samples.len() as int) =~= samples@);
    totals
}

/// Computes the mean velocity of a run.
pub fn calculate_average_velocity(samples: &Vec<GestureSample>) -> (r: Position)
    ensures
        r == mean_velocity(samples@),
{
    let totals = motion_totals(samples);
    if totals.pairs > 0 {
        Position {
            x: saturate_i32(div_trunc(totals.velocity_sum_x, totals.pairs as i128)),
            y: saturate_i32(div_trunc(totals.velocity_sum_y, totals.pairs as i128)),
        }
    } else {
        Position { x: 0, y: 0 }
    }
}

/// Computes the mean speed of a run.
pub fn calculate_average_speed(samples: &Vec<GestureSample>) -> (r: u64)
    ensures
        r == mean_speed(samples@),
        r <= 0x1_0000_0000,
{
    let totals = motion_totals(samples);
    if totals.pairs > 0 {
        let mean: u128 = totals.speed_sum / (totals.pairs as u128);
        assert(mean <= 0x1_0000_0000) by (nonlinear_arith)
            requires
                mean == totals.speed_sum / (totals.pairs as u128),
                totals.pairs > 0,
                totals.speed_sum <= totals.pairs * 0x1_0000_0000,
        ;
        mean as u64
    } else {
        0
    }
}

/// Adds up the squared distances of the speeds from `mean`.
fn deviation_total(samples: &Vec<GestureSample>, mean: u64) -> (r: u128)
    requires
        mean <= 0x1_0000_0000,
    ensures
        r == deviation_sum(samples@, mean as int),
        r <= moving_pairs(samples@) * 0x1_0000_0000_0000_0000,
        moving_pairs(samples@) <= samples@.len(),
{
    let mut total: u128 = 0;
    if samples.len() < 2 {
        return total;
    }
    let mut i: usize = 1;
    let ghost mut pairs: int = 0;
    assert(samples@.take(1).len() == 1);
    while i < samples.len()
        invariant
            1 <= i <= samples.len(),
            mean <= 0x1_0000_0000,
            pairs == moving_pairs(samples@.take(i as int)),
            0 <= pairs < i,
            total == deviation_sum(samples@.take(i as int), mean as int),
            total <= pairs * 0x1_0000_0000_0000_0000,
        decreases samples.len() - i,
    {
        let a = samples[i - 1];
        let b = samples[i];
        proof {
            let grown = samples@.take(i as int + 1);
            assert(grown.drop_last() =~= samples@.take(i as int));
            assert(grown[grown.len() - 2] == a);
            assert(grown[grown.len() - 1] == b);
        }
        if b.timestamp > a.timestamp {
            let velocity = calculate_velocity(a.position, a.timestamp, b.position, b.timestamp);
            let speed = calculate_speed(velocity);
            let away: i128 = speed as i128 - mean as i128;
            assert(0 <= away * away <= 0x1_0000_0000_0000_0000) by (nonlinear_arith)
                requires
                    -0x1_0000_0000 <= away <= 0x1_0000_0000,
            ;
            assert((pairs + 1) * 0x1_0000_0000_0000_0000 <= 0xffff_ffff_ffff_ffff
                * 0x1_0000_0000_0000_0000) by (nonlinear_arith)
                requires
                    0 <= pairs + 1 <= 0xffff_ffff_ffff_ffff,
            ;
            total = total + (away * away) as u128;
            proof {
                pairs = pairs + 1;
            }
        }
        i += 1;
    }
    assert(samples@.take(samples.len() as int) =~= samples@);
    total
}

/// Computes how uneven the speeds of a run are, in thousandths.
pub fn calculate_velocity_variance(samples: &Vec<GestureSample>) -> (r: u64)
    ensures
        r == speed_spread(samples@),
{
    if samples.len() < 3 {
        return 0;
    }
    let totals = motion_totals(samples);
    if totals.pairs == 0 {
        return 0;
    }
    let mean = calculate_average_speed(samples);
    let deviation = deviation_total(samples, mean);
    let variance: u128 = deviation / (totals.pairs as u128);
    assert(variance <= 0x1_0000_0000_0000_0000) by (nonlinear_arith)
        requires
            variance == deviation / (totals.pairs as u128),
            totals.pairs > 0,
            deviation <= totals.pairs * 0x1_0000_0000_0000_0000,
    ;
    let deviation_root = isqrt(variance);
    proof {
        assert(0x1_0000_0001int * 0x1_0000_0001int > 0x1_0000_0000_0000_0000int)
            by (nonlinear_arith);
        lemma_floor_sqrt_under(variance as int, deviation_root as int, 0x1_0000_0001);
    }
    let base: u64 = if mean > 1 {
        mean
    } else {
        1
    };
    deviation_root * 1000 / base
}

/// Computes the length of the path through the samples, cut off at the top
/// of `u64`.
pub fn calculate_total_path_distance(samples: &Vec<GestureSample>) -> (r: u64)
    ensures
        r == clamp_int(path_length(samples@), 0, u64::MAX as int),
{
    let mut total: u128 = 0;
    if samples.len() < 2 {
        return 0;
    }
    let mut i: usize = 1;
    assert(samples@.take(1).len() == 1);
    while i < samples.len()
        invariant
            1 <= i <= samples.len(),
            total == path_length(samples@.take(i as int)),
            total <= (i - 1) * 0x4_0000_0000,
        decreases samples.len() - i,
    {
        let a = samples[i - 1];
        let b = samples[i];
        proof {
            let grown = samples@.take(i as int + 1);
            assert(grown.drop_last() =~= samples@.take(i as int));
            assert(grown[grown.len() - 2] == a);
            assert(grown[grown.len() - 1] == b);
        }
        let squared = position_distance_sq(a.position, b.position);
        let step = isqrt(squared);
        proof {
            assert(0x4_0000_0000int * 0x4_0000_0000int > 0x2_0000_0000_0000_0000int)
                by (nonlinear_arith);
            lemma_floor_sqrt_under(squared as int, step as int, 0x4_0000_0000);
            assert(i * 0x4_0000_0000 <= 0xffff_ffff_ffff_ffff * 0x4_0000_0000) by (nonlinear_arith)
                requires
                    0 <= i <= 0xffff_ffff_ffff_ffff,
            ;
        }
        total = total + step as u128;
        i += 1;
    }
    assert(samples@.take(samples.len() as int) =~= samples@);
    if total > u64::MAX as u128 {
        u64::MAX
    } else {
        total as u64
    }
}

} // verus!
