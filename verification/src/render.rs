//! Render-loop decisions: what to push to the strip driver, how long to
//! suspend to keep the fixed cadence, and which frame the next tick shows.
//!
//! The loop itself — blocking for the very first frame, timing the push,
//! sleeping, polling the mailbox — runs in the unverified shell; it feeds
//! these functions plain values and obeys what they return. A device error
//! from the driver is fatal and ends the loop; nothing here retries it.

use vstd::prelude::*;

use crate::data::{Color, Data};
use crate::mailbox::ChannelMessage;

verus! {

/// The driver-side byte at position `j` of a frame's payload: four
/// channels per LED, the color's red, green and blue followed by a fixed
/// zero fourth channel.
pub open spec fn driver_channel_at(leds: Seq<Color>, j: int) -> u8 {
    if j % 4 == 0 {
        leds[j / 4].red
    } else if j % 4 == 1 {
        leds[j / 4].green
    } else if j % 4 == 2 {
        leds[j / 4].blue
    } else {
        0
    }
}

/// The payload handed to the strip driver for a frame: `(red, green,
/// blue, 0)` per LED, low strip index first.
pub open spec fn driver_bytes_of(leds: Seq<Color>) -> Seq<u8> {
    Seq::new(4 * leds.len(), |j: int| driver_channel_at(leds, j))
}

/// Lays a frame out as the strip driver expects it: each color becomes
/// its three channel bytes plus the always-zero fourth channel.
pub fn to_driver_bytes(data: &Data) -> (r: Vec<u8>)
    ensures
        r@ == driver_bytes_of(data@),
{
    let count = data.leds.len();
    let mut bytes: Vec<u8> = Vec::new();
    let mut i: usize = 0;
    while i < count
        invariant
            count == data.leds@.len(),
            i <= count,
            bytes@.len() == 4 * i,
            forall|k: int| 0 <= k < i ==> bytes@[4 * k] == data.leds@[k].red
                && bytes@[4 * k + 1] == data.leds@[k].green
                && bytes@[4 * k + 2] == data.leds@[k].blue
                && bytes@[4 * k + 3] == 0,
        decreases count - i,
    {
        let led = data.leds[i];
        bytes.push(led.red);
        bytes.push(led.green);
        bytes.push(led.blue);
        bytes.push(0);
        i = i + 1;
    }
    proof {
        assert forall|j: int| 0 <= j < 4 * count implies bytes@[j] == driver_channel_at(
            data@,
            j,
        ) by {
            let k = j / 4;
            assert(j == 4 * k + j % 4);
            assert(bytes@[4 * k] == data.leds@[k].red);
            assert(bytes@[4 * k + 1] == data.leds@[k].green);
            assert(bytes@[4 * k + 2] == data.leds@[k].blue);
            assert(bytes@[4 * k + 3] == 0);
        }
        assert(bytes@ =~= driver_bytes_of(data@));
    }
    bytes
}

/// The tick period in nanoseconds for a target cadence of `fps` frames
/// per second.
pub fn tick_nanos(fps: u64) -> (r: u64)
    requires
        1 <= fps,
    ensures
        r == 1_000_000_000u64 / fps,
{
    1_000_000_000 / fps
}

/// The remainder of a tick period not consumed by a push that took
/// `elapsed`: nothing when the push overran the tick.
pub open spec fn sleep_after(tick: u64, elapsed: u64) -> u64 {
    if elapsed < tick {
        (tick - elapsed) as u64
    } else {
        0u64
    }
}

/// How long the loop suspends after a push: the remainder of the tick not
/// consumed by the push, and nothing when the push already overran it.
/// This is the loop's only scheduled suspension point.
pub fn remaining_sleep(tick: u64, elapsed: u64) -> (r: u64)
    ensures
        r == sleep_after(tick, elapsed),
{
    if elapsed < tick {
        tick - elapsed
    } else {
        0
    }
}

/// The wall time a run of ticks takes when the pushes cost `costs`, one
/// entry per iteration: each push followed by its computed sleep.
pub open spec fn paced_total(tick: u64, costs: Seq<u64>) -> int
    decreases costs.len(),
{
    if costs.len() == 0 {
        0
    } else {
        paced_total(tick, costs.drop_last()) + costs.last() + sleep_after(tick, costs.last())
    }
}

/// Fixed cadence: as long as no push overruns the tick period, every
/// iteration — push plus computed sleep — takes exactly one tick, so a
/// run of `n` iterations paces out to exactly `n` tick periods.
pub proof fn lemma_fixed_cadence(tick: u64, costs: Seq<u64>)
    requires
        forall|i: int| 0 <= i < costs.len() ==> costs[i] <= tick,
    ensures
        paced_total(tick, costs) == costs.len() * tick,
    decreases costs.len(),
{
    if costs.len() > 0 {
        lemma_fixed_cadence(tick, costs.drop_last());
        assert(costs.last() + sleep_after(tick, costs.last()) == tick);
        assert(costs.len() * tick == (costs.len() - 1) * tick + tick) by (nonlinear_arith);
    }
}

/// The frame the coming tick shows: the newly fetched message when one
/// arrived — latest wins — and, under starvation, the frame already held,
/// unchanged, so the strip keeps its last pattern rather than going dark.
pub fn next_frame(current: ChannelMessage, fetched: Option<ChannelMessage>) -> (r: ChannelMessage)
    ensures
        fetched matches Some(m) ==> r == m,
        fetched is None ==> r == current,
{
    match fetched {
        Some(m) => m,
        None => current,
    }
}

} // verus!
