//! The low-discrepancy Fibonacci-spiral disk pattern used by the
//! sample-accelerated shadow kernels: 64 unit directions, and a sample whose
//! distance from the center grows with the square root of its index so the
//! samples cover the disk uniformly.

use vstd::prelude::*;

use crate::fx::{fmul, fsqrt, fx_mul, fx_sqrt, lemma_fmul_self_nonneg, sat64, FX_ONE};
use crate::vec::{scale2, Vec2, V2};

verus! {

/// The number of directions in the disk pattern.
pub const FIB_SAMPLE_NUM: usize = 64;

/// The i-th unit direction of the Fibonacci spiral (fixed point).
pub open spec fn fib_dir(i: int) -> (int, int) {
    if i == 0 { (65536int, 0int) } else if i == 1 { (-48324int, 44269int) } else if i == 2 { (5730int, -65285int) } else if i == 3 { (39875int, 52009int) } else if i == 4 { (-64534int, -11415int) } else if i == 5 { (55296int, -35175int) } else if i == 6 { (-17013int, 63289int) } else if i == 7 { (-30206int, -58160int) } else if i == 8 { (61559int, 22481int) } else if i == 9 { (-60578int, 25006int) } else if i == 10 { (27777int, -59358int) } else if i == 11 { (19614int, 62532int) } else if i == 12 { (-56702int, -32860int) } else if i == 13 { (64007int, -14072int) } else if i == 14 { (-37692int, 53613int) } else if i == 15 { (-8422int, -64993int) } else if i == 16 { (50112int, 42234int) } else if i == 17 { (-65480int, 2708int) } else if i == 18 { (46454int, -46228int) } else if i == 19 { (-3027int, 65466int) } else if i == 20 { (-41990int, -50317int) } else if i == 21 { (64951int, 8739int) } else if i == 22 { (-53796int, 37430int) } else if i == 23 { (14384int, -63938int) } else if i == 24 { (32583int, 56862int) } else if i == 25 { (-62436int, -19919int) } else if i == 26 { (59493int, -27487int) } else if i == 27 { (-25301int, 60455int) } else if i == 28 { (-22181int, -61668int) } else if i == 29 { (58012int, 30489int) } else if i == 30 { (-63371int, 16704int) } else if i == 31 { (35444int, -55124int) } else if i == 32 { (11100int, 64589int) } else if i == 33 { (-51814int, -40128int) } else if i == 34 { (65312int, -5411int) } else if i == 35 { (-44504int, 48108int) } else if i == 36 { (320int, -65535int) } else if i == 37 { (44033int, 48540int) } else if i == 38 { (-65256int, -6048int) } else if i == 39 { (52203int, -39620int) } else if i == 40 { (-11730int, 64478int) } else if i == 41 { (-34905int, -55467int) } else if i == 42 { (63205int, 17322int) } else if i == 43 { (-58306int, 29922int) } else if i == 44 { (22781int, -61449int) } else if i == 45 { (24710int, 60699int) } else if i == 46 { (-59222int, -28066int) } else if i == 47 { (62627int, -19309int) } else if i == 48 { (-33136int, 56542int) } else if i == 49 { (-13759int, -64075int) } else if i == 50 { (53428int, 37953int) } else if i == 51 { (-65033int, 8105int) } else if i == 52 { (42478int, -49905int) } else if i == 53 { (2388int, 65492int) } else if i == 54 { (-46001int, -46679int) } else if i == 55 { (65450int, 3347int) } else if i == 56 { (-50522int, 41744int) } else if i == 57 { (9056int, -64907int) } else if i == 58 { (37167int, 53978int) } else if i == 59 { (-63867int, -14696int) } else if i == 60 { (57020int, -32305int) } else if i == 61 { (-20223int, 62338int) } else if i == 62 { (-27197int, -59626int) } else { (60331int, 25596int) }
}

/// Fetch the i-th unit direction of the Fibonacci spiral.
pub fn fibonacci_spiral_direction(i: usize) -> (r: (i64, i64))
    requires
        i < FIB_SAMPLE_NUM,
    ensures
        (r.0 as int, r.1 as int) == fib_dir(i as int),
{
    match i {
        0 => (65536, 0),
        1 => (-48324, 44269),
        2 => (5730, -65285),
        3 => (39875, 52009),
        4 => (-64534, -11415),
        5 => (55296, -35175),
        6 => (-17013, 63289),
        7 => (-30206, -58160),
        8 => (61559, 22481),
        9 => (-60578, 25006),
        10 => (27777, -59358),
        11 => (19614, 62532),
        12 => (-56702, -32860),
        13 => (64007, -14072),
        14 => (-37692, 53613),
        15 => (-8422, -64993),
        16 => (50112, 42234),
        17 => (-65480, 2708),
        18 => (46454, -46228),
        19 => (-3027, 65466),
        20 => (-41990, -50317),
        21 => (64951, 8739),
        22 => (-53796, 37430),
        23 => (14384, -63938),
        24 => (32583, 56862),
        25 => (-62436, -19919),
        26 => (59493, -27487),
        27 => (-25301, 60455),
        28 => (-22181, -61668),
        29 => (58012, 30489),
        30 => (-63371, 16704),
        31 => (35444, -55124),
        32 => (11100, 64589),
        33 => (-51814, -40128),
        34 => (65312, -5411),
        35 => (-44504, 48108),
        36 => (320, -65535),
        37 => (44033, 48540),
        38 => (-65256, -6048),
        39 => (52203, -39620),
        40 => (-11730, 64478),
        41 => (-34905, -55467),
        42 => (63205, 17322),
        43 => (-58306, 29922),
        44 => (22781, -61449),
        45 => (24710, 60699),
        46 => (-59222, -28066),
        47 => (62627, -19309),
        48 => (-33136, 56542),
        49 => (-13759, -64075),
        50 => (53428, 37953),
        51 => (-65033, 8105),
        52 => (42478, -49905),
        53 => (2388, 65492),
        54 => (-46001, -46679),
        55 => (65450, 3347),
        56 => (-50522, 41744),
        57 => (9056, -64907),
        58 => (37167, 53978),
        59 => (-63867, -14696),
        60 => (57020, -32305),
        61 => (-20223, 62338),
        62 => (-27197, -59626),
        _ => (60331, 25596),
    }
}

/// The i-th disk sample: the i-th spiral direction scaled by the square root
/// of i divided by the sample count, so the samples spread uniformly over
/// the unit disk.
pub open spec fn fib_disk_sample(i: int, sample_count_inverse: int) -> V2 {
    let d = fib_dir(i);
    let dist = fsqrt(fmul(sat64(i * FX_ONE as int), sample_count_inverse));
    scale2(dist, V2 { x: d.0, y: d.1 })
}

/// Compute the i-th Fibonacci-spiral disk sample.
pub fn compute_fibonacci_spiral_disk_sample_uniform(sample_index: usize,
    sample_count_inverse: i64,
) -> (r: Vec2)
    requires
        sample_index < FIB_SAMPLE_NUM,
        sample_count_inverse >= 0,
    ensures
        r@ == fib_disk_sample(sample_index as int, sample_count_inverse as int),
{
    let d = fibonacci_spiral_direction(sample_index);
    let ifx = crate::fx::fx_from_int(sample_index as i64);
    let m = fx_mul(ifx, sample_count_inverse);
    proof {
        lemma_fx_mul_nonneg(sample_index as int, sample_count_inverse as int);
    }
    let dist = fx_sqrt(m);
    Vec2 { x: fx_mul(dist, d.0), y: fx_mul(dist, d.1) }
}

proof fn lemma_fx_mul_nonneg(i: int, s: int)
    requires
        0 <= i,
        0 <= s,
    ensures
        fmul(sat64(i * FX_ONE as int), s) >= 0,
{
    assert(i * FX_ONE as int >= 0) by (nonlinear_arith)
        requires
            0 <= i,
    ;
    assert(sat64(i * FX_ONE as int) * s >= 0) by (nonlinear_arith)
        requires
            sat64(i * FX_ONE as int) >= 0,
            0 <= s,
    ;
}

} // verus!
