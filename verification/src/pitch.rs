//! Exact pitch representation in microcents (1/1,000,000 of a cent).

use vstd::prelude::*;

verus! {

/// Microcents per equal-tempered semitone.
pub const MICRO_CENTS_PER_SEMITONE: u32 = 100_000_000;

/// Microcents per octave (twelve semitones).
pub const MICRO_CENTS_PER_OCTAVE: u32 = 12 * MICRO_CENTS_PER_SEMITONE;

/// A pitch class in microcents, in the range 0 to 1,199,999,999
/// (12 semitones of 100 cents each).
#[derive(Clone, Copy, Debug, PartialEq, Eq, PartialOrd, Ord, Structural)]
pub struct PitchClass(pub u32);

impl PitchClass {
    /// A pitch class from raw microcents, wrapped into one octave.
    pub fn new(microcents: u32) -> (r: Self)
        ensures
            r.0 == microcents as int % (MICRO_CENTS_PER_OCTAVE as int),
            r.0 < MICRO_CENTS_PER_OCTAVE,
    {
        PitchClass(microcents % MICRO_CENTS_PER_OCTAVE)
    }
}

/// An absolute pitch: an octave number and a pitch class within it.
#[derive(Clone, Copy, Debug, PartialEq, Eq, Structural)]
pub struct Pitch {
    pub pitch_class: PitchClass,
    pub octave: i32,
}

impl Pitch {
    /// A pitch from its parts.
    pub fn new(pitch_class: PitchClass, octave: i32) -> (r: Self)
        ensures
            r.pitch_class == pitch_class,
            r.octave == octave,
    {
        Pitch { pitch_class, octave }
    }

    /// The pitch of a MIDI note number: octave `note / 12 - 1` and a
    /// pitch class of `note % 12` equal-tempered semitones.
    pub fn from_midi(note: u8) -> (r: Self)
        ensures
            r.octave == note as int / 12 - 1,
            r.pitch_class.0 == (note as int % 12) * (MICRO_CENTS_PER_SEMITONE as int),
    {
        let n = note as u32;
        let octave = (n / 12) as i32 - 1;
        let pc_val = n % 12;
        let microcents = pc_val * MICRO_CENTS_PER_SEMITONE;
        Pitch { pitch_class: PitchClass::new(microcents), octave }
    }
}

} // verus!
