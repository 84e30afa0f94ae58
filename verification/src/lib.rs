//! Lattice-to-MIDI translation engine for an isomorphic keyboard controller.
//!
//! A grid of keys is mapped onto a 2D lattice in which each axis step has a
//! fixed musical meaning: one step right is a major second (two fifths, one
//! octave down), one step up is an ascending perfect fourth (one fifth down,
//! one octave up).  Key-edge events at lattice coordinates are turned into
//! standard or MPE MIDI output, a bounded pool of MPE channels is managed as
//! a shared resource, and inbound USB-MIDI traffic is decoded into a ledger
//! of remotely sounding voices for display.
//!
//! Pitch is measured in tenths of a cent ("deci-cents") throughout, so that
//! every derivation - lattice position to cents, cents to note plus bend -
//! is exact integer arithmetic.

pub mod layout;
pub mod layout_5x25;
pub mod midi;
pub mod mpe;
pub mod pitch;
pub mod prototype;
pub mod tuning;
pub mod util;

pub use layout::Coordinate;
pub use layout::Layout;
pub use layout::LedIndex;
pub use layout::build_reversed_lookup;
pub use midi::Channel;
pub use midi::MidiEvent;
pub use midi::MidiMessage;
pub use midi::RemoteLedger;
pub use midi::RemoteVoice;
pub use midi::channel_to_index;
pub use midi::index_to_channel;
pub use mpe::MpeVoiceAllocator;
pub use tuning::ActiveChannelMap;
pub use tuning::Tunables;
pub use tuning::TuningMode;
pub use tuning::get_midi_event;
