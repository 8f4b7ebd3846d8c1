//! The wall clock, and the time between two moments.

use vstd::prelude::*;

verus! {

/// The low 64 bits of a number, as a cast keeps them.
pub open spec fn low_64(n: int) -> u64 {
    (n % 0x1_0000_0000_0000_0000) as u64
}

/// Casts to 64 bits.
pub fn truncate(n: u128) -> (r: u64)
    ensures
        r == low_64(n as int),
{
    assert(#[verifier::truncate] (n as u64) == n % 0x1_0000_0000_0000_0000) by (bit_vector);
    #[verifier::truncate]
    (n as u64)
}

/// Nanoseconds since the Unix epoch, by `SystemTime::now`; the error's text where the clock
/// stands before the epoch. Nothing is promised of the reading: it is the machine's clock.
#[verifier::external_body]
pub(crate) fn system_clock() -> (r: Result<u128, String>)
{
    match std::time::SystemTime::now().duration_since(std::time::UNIX_EPOCH) {
        Ok(duration) => Ok(duration.as_nanos()),
        Err(err) => Err(err.to_string()),
    }
}

/// The whole milliseconds of a clock reading, in 64 bits.
pub open spec fn millis_of(reading: Result<u128, String>) -> u64 {
    match reading {
        Ok(nanos) => low_64(nanos as int / 1_000_000),
        Err(_) => 0,
    }
}

/// Milliseconds since the Unix epoch of a clock reading; zero before the epoch.
pub fn unix_millis(reading: Result<u128, String>) -> (r: u64)
    ensures
        r == millis_of(reading),
{
    match reading {
        Ok(nanos) => truncate(nanos / 1_000_000),
        Err(_) => 0,
    }
}

/// Milliseconds since the Unix epoch; zero where the clock stands before it.
pub fn current_unix_millis() -> (r: u64)
    ensures
        exists|reading: Result<u128, String>| r == #[trigger] millis_of(reading),
{
    unix_millis(system_clock())
}

/// The time from `then` to `now`; none where `now` is the earlier one.
pub open spec fn elapsed(now: u128, then: u128) -> u128 {
    if now >= then {
        (now - then) as u128
    } else {
        0
    }
}

/// A number below 2 to the 64th is kept by a cast, and multiples of that are dropped.
pub proof fn law_cast_drops_multiples(n: u64, k: nat)
    ensures
        low_64(n as int) == n,
        low_64(n + k * 0x1_0000_0000_0000_0000) == n,
{
    vstd::arithmetic::div_mod::lemma_mod_multiples_vanish(
        k as int,
        n as int,
        0x1_0000_0000_0000_0000,
    );
    assert(0x1_0000_0000_0000_0000 * k + n == n + k * 0x1_0000_0000_0000_0000)
        by (nonlinear_arith);
}

/// The milliseconds of a reading are the whole ones in its nanoseconds: the reading lies within
/// the millisecond that they count up to. Before the epoch they are zero.
pub proof fn law_millis_are_whole(nanos: u128, message: String)
    ensures
        nanos < 1_000_000 * 0x1_0000_0000_0000_0000 ==> {
            let millis = millis_of(Ok::<u128, String>(nanos));
            1_000_000 * millis <= nanos < 1_000_000 * (millis + 1)
        },
        millis_of(Err::<u128, String>(message)) == 0,
{
}

/// The time between two moments and the earlier one give the later one; backwards there is none.
pub proof fn law_elapsed_bridges_two_moments(now: u128, then: u128)
    ensures
        now >= then ==> then + elapsed(now, then) == now,
        now <= then ==> elapsed(now, then) == 0,
{
}

} // verus!
