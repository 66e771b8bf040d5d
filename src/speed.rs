use vstd::prelude::*;

verus! {

/// The speed code the printer expects for a given average number of
/// compressed bytes per print buffer.
pub open spec fn speed_for(avg: int) -> u16 {
    if avg > 3000 {
        10
    } else if avg > 2800 {
        15
    } else if avg > 2500 {
        20
    } else if avg > 2000 {
        25
    } else if avg > 1500 {
        40
    } else if avg > 1000 {
        45
    } else if avg > 500 {
        55
    } else {
        60
    }
}

/// Pick the print speed from the average compressed size per buffer.
///
/// Denser images compress worse, so the head needs more dwell time and the
/// printer is told to feed more slowly.
pub fn calc_speed(compressed_size: usize) -> (r: u16)
    ensures
        r == speed_for(compressed_size as int),
{
    if compressed_size > 3000 {
        10
    } else if compressed_size > 2800 {
        15
    } else if compressed_size > 2500 {
        20
    } else if compressed_size > 2000 {
        25
    } else if compressed_size > 1500 {
        40
    } else if compressed_size > 1000 {
        45
    } else if compressed_size > 500 {
        55
    } else {
        60
    }
}

/// A larger average never yields a faster speed code.
pub proof fn lemma_speed_monotone(a: usize, b: usize)
    requires
        a <= b,
    ensures
        speed_for(b as int) <= speed_for(a as int),
{
}

} // verus!
