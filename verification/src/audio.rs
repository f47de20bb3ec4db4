//! The beat generator that drives the scene's audio reactions.

use vstd::prelude::*;
use std::sync::Arc;
use std::sync::atomic::{AtomicBool, AtomicU32, Ordering};

verus! {

/// Seed of the generator's noise sequence.
pub const NOISE_SEED: u32 = 12345;

/// The noise sequence's next seed: `seed * 1103515245 + 12345` modulo
/// `2^32`.
pub open spec fn next_noise_seed_spec(seed: u32) -> u32 {
    ((seed as int * 1103515245 + 12345) % 0x1_0000_0000) as u32
}

/// The noise sequence's next seed.
pub fn next_noise_seed(seed: u32) -> (next: u32)
    ensures
        next == next_noise_seed_spec(seed),
{
    let next = seed.wrapping_mul(1103515245).wrapping_add(12345);
    assert(next == next_noise_seed_spec(seed)) by (nonlinear_arith)
        requires
            next == vstd::wrapping::u32_specs::wrapping_add(vstd::wrapping::u32_specs::wrapping_mul(seed, 1103515245), 12345),
    ;
    next
}

/// The 15-bit noise level drawn from `seed`: bits 16 to 30.
pub open spec fn noise_level_spec(seed: u32) -> u32 {
    (seed / 65536) % 32768
}

/// The noise level drawn from `seed`, below `32768`.
pub fn noise_level(seed: u32) -> (level: u32)
    ensures
        level == noise_level_spec(seed),
        level < 32768,
{
    (seed / 65536) % 32768
}

/// Audio visualizer: holds the current volume, in thousandths, that a
/// background generator publishes, and the flag that stops the generator.
pub struct AudioVisualizer {
    volume: Arc<AtomicU32>,
    should_stop: Arc<AtomicBool>,
}

impl AudioVisualizer {
    /// Where the generator publishes the volume.
    pub closed spec fn volume_source(&self) -> Arc<AtomicU32> {
        self.volume
    }

    /// The flag that stops the generator.
    pub closed spec fn stop_flag(&self) -> Arc<AtomicBool> {
        self.should_stop
    }

    /// The visualizer reading `volume` and stopping its generator through
    /// `should_stop`.
    pub fn new(volume: Arc<AtomicU32>, should_stop: Arc<AtomicBool>) -> (v: AudioVisualizer)
        ensures
            v.volume_source() == volume,
            v.stop_flag() == should_stop,
    {
        AudioVisualizer { volume, should_stop }
    }

    /// The last volume the generator published, in thousandths. It is
    /// written concurrently, so nothing is known of it here.
    pub fn volume_permille(&self) -> u32 {
        self.volume.load(Ordering::SeqCst)
    }
}

impl Drop for AudioVisualizer {
    /// Stops the generator when the visualizer goes away.
    fn drop(&mut self)
        opens_invariants none
        no_unwind
    {
        raise_flag(&self.should_stop);
    }
}

/// Calls `AtomicBool::store(flag, true, Ordering::SeqCst)`. Claims only that
/// the call returns without unwinding and opens no invariant: std documents
/// that `store` panics only for the orderings `Acquire` and `AcqRel`.
#[verifier::external_body]
fn raise_flag(flag: &AtomicBool)
    opens_invariants none
    no_unwind
{
    flag.store(true, Ordering::SeqCst);
}

} // verus!
