//! Tunable parameters, coordinate/pitch geometry and the translation
//! engine that turns key-edge events into MIDI output events.
//!
//! Pitch is measured in deci-cents (tenths of a cent): the fifth size is
//! stored as deci-cents per fifth step, and the pitch-bend range as
//! deci-semitones per full bend sweep, so the clamp steps of a tenth of a
//! unit used by the UI stay exact.

use vstd::prelude::*;
use vstd::arithmetic::div_mod::lemma_fundamental_div_mod;
use vstd::arithmetic::div_mod::lemma_fundamental_div_mod_converse;
use vstd::arithmetic::div_mod::lemma_mod_bound;
use vstd::arithmetic::div_mod::lemma_div_pos_is_pos;
use vstd::arithmetic::div_mod::lemma_div_nonincreasing;

use crate::layout::Coordinate;
use crate::layout::Layout;
use crate::layout::spec_coord_to_midi;
use crate::midi::Channel;
use crate::midi::MidiEvent;
use crate::midi::spec_channel_index;
use crate::midi::spec_index_channel;
use crate::midi::lemma_channel_index_roundtrip;
use crate::midi::try_note;
use crate::mpe::MpeVoiceAllocator;
use crate::mpe::mask_bit;
use crate::mpe::spec_first_free;
use crate::mpe::lemma_first_free;
use crate::mpe::lemma_set_bit;
use crate::mpe::lemma_clear_bit;
use crate::mpe::lemma_set_clear_roundtrip;

verus! {

/// Which tuning algorithm the translation engine applies.
#[derive(Clone, Copy, Debug, PartialEq, Eq, Structural)]
pub enum TuningMode {
    Standard,
    Fifths,
}

/// The pitch of the anchor coordinate, in deci-cents (middle C, 6000 cents).
pub const PITCH_ANCHOR_DECICENTS: i32 = 60000;

/// The fifth size that selects the pure 12-tone equal temperament path,
/// in deci-cents (700 cents).
pub const PURE_FIFTH_DECICENTS: u16 = 7000;

/// The globally visible, independently mutable tuning parameters consulted
/// by the translation engine on every event.
#[derive(Clone, Copy, Debug, PartialEq, Eq, Structural)]
pub struct Tunables {
    /// The active tuning algorithm.
    pub mode: TuningMode,
    /// Cents per fifth step, in deci-cents; clamped to 6000..=8000.
    pub fifth_size: u16,
    /// Semitones per full pitch-bend sweep, in deci-semitones; clamped to
    /// 1..=960.
    pub mpe_pbr: u16,
}

impl Tunables {
    /// The documented clamping ranges of the two scalar parameters.
    pub open spec fn wf(&self) -> bool {
        &&& 6000 <= self.fifth_size <= 8000
        &&& 1 <= self.mpe_pbr <= 960
    }

    /// Power-up defaults: fifths mode, a 697-cent fifth, a one-semitone
    /// bend range.
    pub fn new() -> (r: Self)
        ensures
            r.wf(),
            r.mode == TuningMode::Fifths,
            r.fifth_size == 6970,
            r.mpe_pbr == 10,
    {
        Tunables { mode: TuningMode::Fifths, fifth_size: 6970, mpe_pbr: 10 }
    }
}

/// Flips between the two tuning modes and returns the new mode.
pub fn toggle_mode(tun: &mut Tunables) -> (m: TuningMode)
    ensures
        m == final(tun).mode,
        final(tun).mode == (match old(tun).mode {
            TuningMode::Standard => TuningMode::Fifths,
            TuningMode::Fifths => TuningMode::Standard,
        }),
        final(tun).fifth_size == old(tun).fifth_size,
        final(tun).mpe_pbr == old(tun).mpe_pbr,
{
    let new_mode = match tun.mode {
        TuningMode::Standard => TuningMode::Fifths,
        TuningMode::Fifths => TuningMode::Standard,
    };
    tun.mode = new_mode;
    new_mode
}

/// The active tuning mode.
pub fn get_mode(tun: &Tunables) -> (m: TuningMode)
    ensures
        m == tun.mode,
{
    tun.mode
}

/// The current fifth size in deci-cents.
pub fn get_fifth_size(tun: &Tunables) -> (r: u16)
    ensures
        r == tun.fifth_size,
{
    tun.fifth_size
}

/// Moves the fifth size by `delta` deci-cents, clamped to 6000..=8000
/// (600 to 800 cents).
pub fn adjust_fifth_size(tun: &mut Tunables, delta: i16)
    ensures
        final(tun).fifth_size == {
            let moved = old(tun).fifth_size + delta;
            if moved < 6000 {
                6000int
            } else if moved > 8000 {
                8000int
            } else {
                moved
            }
        },
        final(tun).mode == old(tun).mode,
        final(tun).mpe_pbr == old(tun).mpe_pbr,
        final(tun).fifth_size >= 6000 && final(tun).fifth_size <= 8000,
{
    let moved: i32 = tun.fifth_size as i32 + delta as i32;
    tun.fifth_size = if moved < 6000 {
        6000
    } else if moved > 8000 {
        8000
    } else {
        moved as u16
    };
}

/// The current pitch-bend range in deci-semitones.
pub fn get_mpe_pbr(tun: &Tunables) -> (r: u16)
    ensures
        r == tun.mpe_pbr,
{
    tun.mpe_pbr
}

/// Moves the pitch-bend range by `delta` deci-semitones, clamped to
/// 1..=960 (0.1 to 96 semitones).
pub fn adjust_mpe_pbr(tun: &mut Tunables, delta: i16)
    ensures
        final(tun).mpe_pbr == {
            let moved = old(tun).mpe_pbr + delta;
            if moved < 1 {
                1int
            } else if moved > 960 {
                960int
            } else {
                moved
            }
        },
        final(tun).mode == old(tun).mode,
        final(tun).fifth_size == old(tun).fifth_size,
        final(tun).mpe_pbr >= 1 && final(tun).mpe_pbr <= 960,
{
    let moved: i32 = tun.mpe_pbr as i32 + delta as i32;
    tun.mpe_pbr = if moved < 1 {
        1
    } else if moved > 960 {
        960
    } else {
        moved as u16
    };
}

/// Floor division by two (rounding towards negative infinity).
fn div2_floor(n: i16) -> (q: i16)
    requires
        -32767 <= n,
    ensures
        q == n as int / 2,
{
    if n >= 0 {
        ((n as u16) / 2) as i16
    } else {
        let p: u16 = (-(n as i32)) as u16;
        let qq: u16 = (p + 1) / 2;
        proof {
            let ni = n as int;
            let pi = p as int;
            let qe = ni / 2;
            let rr = ni % 2;
            assert(ni == 2 * qe + rr);
            assert(pi + 1 == (-qe) * 2 + (1 - rr));
            lemma_fundamental_div_mod_converse(pi + 1, 2, -qe, 1 - rr);
        }
        -(qq as i16)
    }
}

/// The octave component of a coordinate's offset from the center:
/// `floor(-dy / 2)`.
pub open spec fn spec_octaves(center: Coordinate, coord: Coordinate) -> int {
    (-(coord.y - center.y)) / 2
}

/// The fifths component of a coordinate's offset from the center.
pub open spec fn spec_fifths(center: Coordinate, coord: Coordinate) -> int {
    let dx = coord.x - center.x;
    let shift = (-(coord.y - center.y)) % 2;
    2 * dx - 2 * spec_octaves(center, coord) - shift
}

/// Decomposes a lattice offset from the center into octave and fifth
/// steps:
/// - x + 1, y - 1 (up-right) is a perfect fifth;
/// - x + 0, y - 2 (up twice) is an octave.
pub fn calculate_fifths_offsets(center: Coordinate, coord: Coordinate) -> (r: (i16, i16))
    ensures
        r.0 == spec_octaves(center, coord),
        r.1 == spec_fifths(center, coord),
        -128 <= r.0 <= 127,
        -766 <= r.1 <= 766,
{
    let dx_raw: i16 = coord.x as i16 - center.x as i16;
    let dy_raw: i16 = coord.y as i16 - center.y as i16;

    let neg_dy: i16 = -dy_raw;
    let octaves = div2_floor(neg_dy);
    let shift = neg_dy - 2 * octaves;
    let fifths = 2 * dx_raw - 2 * octaves - shift;

    (octaves, fifths)
}

/// The pitch of a coordinate in deci-cents: the anchor, plus octaves of
/// 1200 cents, plus fifth steps of the configured size, with the fifths
/// chain folded back towards the anchor octave by `floor(fifths / 2)`
/// octaves.
pub open spec fn spec_pitch_dc(fifth_size: int, center: Coordinate, coord: Coordinate) -> int {
    let oc = spec_octaves(center, coord);
    let fifths = spec_fifths(center, coord);
    60000 + oc * 12000 + fifths * fifth_size - (fifths / 2) * 12000
}

/// Computes the pitch of a key in deci-cents under the current fifth size.
pub fn get_key_pitch(tun: &Tunables, center: Coordinate, coord: Coordinate) -> (r: i32)
    requires
        tun.wf(),
    ensures
        r == spec_pitch_dc(tun.fifth_size as int, center, coord),
        -16_000_000 <= r <= 16_000_000,
{
    let (oc, fifths) = calculate_fifths_offsets(center, coord);
    let fold = div2_floor(fifths);
    let fs = tun.fifth_size as i32;
    proof {
        assert(-766 * 8000 <= (fifths as int) * (tun.fifth_size as int) <= 766 * 8000)
            by (nonlinear_arith)
            requires
                -766 <= fifths as int <= 766,
                6000 <= tun.fifth_size as int <= 8000,
        ;
    }
    60000 + (oc as i32) * 12000 + (fifths as i32) * fs - (fold as i32) * 12000
}

/// Rounds a deci-cent pitch to the nearest MIDI note number, clamped to
/// 0..=127.
pub open spec fn spec_note_of_dc(dc: int) -> int {
    let v = (dc + 500) / 1000;
    if v < 0 {
        0
    } else if v > 127 {
        127
    } else {
        v
    }
}

/// Rounds a deci-cent pitch to the nearest MIDI note number, clamped to
/// the valid range.
pub fn note_of_dc(dc: i32) -> (note: u8)
    requires
        -16_000_000 <= dc <= 16_000_000,
    ensures
        note == spec_note_of_dc(dc as int),
        note <= 127,
{
    let shifted = dc + 500;
    if shifted < 0 {
        0
    } else {
        let v = (shifted as u32) / 1000;
        if v > 127 {
            127
        } else {
            v as u8
        }
    }
}

/// The 14-bit pitch-bend value that moves a note by `dc - note * 1000`
/// deci-cents under pitch-bend range `pbr` (deci-semitones): center 8192
/// plus the bend offset scaled by `8192 / pbr` semitones, clamped to the
/// representable range.
pub open spec fn spec_bend_of_dc(dc: int, note: int, pbr: int) -> int {
    let bend_dc = dc - note * 1000;
    let offset = (bend_dc * 8192) / (100 * pbr);
    let v = 8192 + offset;
    if v < 0 {
        0
    } else if v > 16383 {
        16383
    } else {
        v
    }
}

/// Floor division for the bend scaling, on the ranges the engine uses.
fn div_floor_i64(num: i64, den: i64) -> (q: i64)
    requires
        1 <= den <= 100_000,
        -200_000_000_000 <= num <= 200_000_000_000,
    ensures
        q == num as int / den as int,
        -201_000_000_000 <= q <= 200_000_000_000,
{
    let d = den as u64;
    if num >= 0 {
        let qq: u64 = (num as u64) / d;
        proof {
            lemma_div_pos_is_pos(num as int, den as int);
            lemma_div_nonincreasing(num as int, den as int);
        }
        qq as i64
    } else {
        let p: u64 = (-num) as u64;
        let qq: u64 = (p + d - 1) / d;
        proof {
            let ni = num as int;
            let de = den as int;
            let pi = p as int;
            lemma_fundamental_div_mod(ni, de);
            lemma_mod_bound(ni, de);
            let qe = ni / de;
            let rr = ni % de;
            assert(ni == de * qe + rr);
            assert((-qe) * de == -(de * qe)) by (nonlinear_arith);
            assert(pi + de - 1 == (-qe) * de + (de - 1 - rr));
            lemma_fundamental_div_mod_converse(pi + de - 1, de, -qe, de - 1 - rr);
            assert(de * qe < 0);
            assert(qe < 0) by (nonlinear_arith)
                requires
                    de >= 1,
                    de * qe < 0,
            ;
            assert(qe >= de * qe) by (nonlinear_arith)
                requires
                    de >= 1,
                    qe <= 0,
            ;
            assert(qe >= ni - de + 1);
        }
        -(qq as i64)
    }
}

/// Computes the 14-bit pitch-bend value for a target pitch and its
/// rounded note.
pub fn bend_of_dc(dc: i32, note: u8, pbr: u16) -> (bend: u16)
    requires
        -16_000_000 <= dc <= 16_000_000,
        1 <= pbr <= 960,
    ensures
        bend == spec_bend_of_dc(dc as int, note as int, pbr as int),
        bend <= 16383,
{
    let bend_dc: i64 = dc as i64 - (note as i64) * 1000;
    let offset = div_floor_i64(bend_dc * 8192, 100 * (pbr as i64));
    let v: i64 = 8192 + offset;
    if v < 0 {
        0
    } else if v > 16383 {
        16383
    } else {
        v as u16
    }
}

/// The well-formedness of the active-voice ledger against a usage mask:
/// every recorded channel is an MPE channel currently marked allocated,
/// no channel is recorded twice, and the ledger respects its capacity.
pub open spec fn entries_wf(entries: Seq<(Coordinate, Channel)>, mask: u16) -> bool {
    &&& entries.len() <= 16
    &&& forall|i: int|
        0 <= i < entries.len() ==> {
            &&& 1 <= spec_channel_index((#[trigger] entries[i]).1) < 16
            &&& mask_bit(mask, spec_channel_index(entries[i].1))
        }
    &&& forall|i: int, j: int|
        0 <= i < j < entries.len() ==> (#[trigger] entries[i]).1 != (#[trigger] entries[j]).1
}

/// The index of the first ledger entry for a coordinate, or -1 when the
/// coordinate holds no voice.
pub open spec fn spec_find_coord(entries: Seq<(Coordinate, Channel)>, coord: Coordinate) -> int
    decreases entries.len(),
{
    if entries.len() == 0 {
        -1
    } else if entries[0].0 == coord {
        0
    } else {
        let r = spec_find_coord(entries.drop_first(), coord);
        if r < 0 {
            -1
        } else {
            r + 1
        }
    }
}

/// What `spec_find_coord` returns: the first matching index, or -1 when
/// nothing matches.
pub proof fn lemma_find_coord_props(entries: Seq<(Coordinate, Channel)>, coord: Coordinate)
    ensures
        -1 <= spec_find_coord(entries, coord) < entries.len(),
        spec_find_coord(entries, coord) >= 0 ==> entries[spec_find_coord(entries, coord)].0
            == coord,
        spec_find_coord(entries, coord) == -1 ==> forall|k: int|
            0 <= k < entries.len() ==> (#[trigger] entries[k]).0 != coord,
    decreases entries.len(),
{
    if entries.len() > 0 && entries[0].0 != coord {
        lemma_find_coord_props(entries.drop_first(), coord);
        let fd = spec_find_coord(entries.drop_first(), coord);
        if fd >= 0 {
            assert(entries.drop_first()[fd] == entries[fd + 1]);
        } else {
            assert forall|k: int| 0 <= k < entries.len() implies (#[trigger] entries[k]).0
                != coord by {
                if k > 0 {
                    assert(entries.drop_first()[k - 1] == entries[k]);
                    assert(entries.drop_first()[k - 1].0 != coord);
                }
            }
        }
    }
}

/// A first match at index `i` pins down `spec_find_coord`.
pub proof fn lemma_find_coord_at(entries: Seq<(Coordinate, Channel)>, coord: Coordinate, i: int)
    requires
        0 <= i < entries.len(),
        entries[i].0 == coord,
        forall|k: int| 0 <= k < i ==> (#[trigger] entries[k]).0 != coord,
    ensures
        spec_find_coord(entries, coord) == i,
    decreases i,
{
    if entries[0].0 != coord {
        assert forall|k: int| 0 <= k < i - 1 implies (#[trigger] entries.drop_first()[k]).0
            != coord by {
            assert(entries.drop_first()[k] == entries[k + 1]);
        }
        assert(entries.drop_first()[i - 1] == entries[i]);
        lemma_find_coord_at(entries.drop_first(), coord, i - 1);
    }
}

/// No match anywhere pins `spec_find_coord` to -1.
pub proof fn lemma_find_coord_none(entries: Seq<(Coordinate, Channel)>, coord: Coordinate)
    requires
        forall|k: int| 0 <= k < entries.len() ==> (#[trigger] entries[k]).0 != coord,
    ensures
        spec_find_coord(entries, coord) == -1,
    decreases entries.len(),
{
    if entries.len() > 0 {
        assert forall|k: int| 0 <= k < entries.drop_first().len() implies (#[trigger] entries
            .drop_first()[k]).0 != coord by {
            assert(entries.drop_first()[k] == entries[k + 1]);
        }
        lemma_find_coord_none(entries.drop_first(), coord);
    }
}

/// The bounded ledger mapping each sounding coordinate to the MPE channel
/// that carries it (standard mode with a non-pure fifth only).
pub struct ActiveChannelMap {
    pub entries: Vec<(Coordinate, Channel)>,
}

impl ActiveChannelMap {
    /// Ledger well-formedness against the allocator's usage mask.
    pub open spec fn wf(&self, mask: u16) -> bool {
        entries_wf(self.entries@, mask)
    }

    /// An empty ledger.
    pub fn new() -> (r: Self)
        ensures
            r.entries@.len() == 0,
    {
        ActiveChannelMap { entries: Vec::new() }
    }

    /// How many voices are currently recorded.
    pub fn len(&self) -> (n: usize)
        ensures
            n == self.entries@.len(),
    {
        self.entries.len()
    }
}

/// Clamp to an inclusive range.
pub open spec fn spec_clamp(v: int, lo: int, hi: int) -> int {
    if v < lo {
        lo
    } else if v > hi {
        hi
    } else {
        v
    }
}

/// The deterministic fifths-mode event: channel index `4 + octaves` and
/// note `60 + fifths`, both clamped; presses give note-on, releases give
/// note-off.  No allocation and no ledger access.
pub open spec fn spec_fifths_event(
    center: Coordinate,
    coord: Coordinate,
    velocity: u8,
    is_note_on: bool,
) -> Option<MidiEvent> {
    let ch_idx = spec_clamp(4 + spec_octaves(center, coord), 0, 15);
    let note = spec_clamp(60 + spec_fifths(center, coord), 0, 127) as u8;
    let channel = spec_index_channel(ch_idx);
    if is_note_on {
        Some(MidiEvent::NoteOn { channel, note, velocity })
    } else {
        Some(MidiEvent::NoteOff { channel, note, velocity })
    }
}

/// The standard-mode press transition on (usage mask, ledger): the pure
/// 12-TET path emits on channel 1 without allocating; the microtonal path
/// allocates the lowest free channel, records the coordinate, and emits an
/// MPE note-on with its bend, or drops the event when the pool is
/// exhausted.
pub open spec fn spec_standard_press(
    fs: int,
    pbr: int,
    mask: u16,
    entries: Seq<(Coordinate, Channel)>,
    center: Coordinate,
    coord: Coordinate,
    velocity: u8,
) -> (u16, Seq<(Coordinate, Channel)>, Option<MidiEvent>) {
    let dc = spec_pitch_dc(fs, center, coord);
    let note = spec_note_of_dc(dc) as u8;
    if fs == 7000 {
        (mask, entries, Some(MidiEvent::NoteOn { channel: Channel::Ch1, note, velocity }))
    } else {
        let i = spec_first_free(mask);
        if i == 16 {
            (mask, entries, None)
        } else {
            let channel = spec_index_channel(i);
            let mask1 = mask | (1u16 << (i as u16));
            let entries1 = if entries.len() < 16 {
                entries.push((coord, channel))
            } else {
                entries
            };
            let bend = spec_bend_of_dc(dc, note as int, pbr) as u16;
            (mask1, entries1, Some(
                MidiEvent::MpeNoteOn { channel, note, velocity, pitch_bend: bend },
            ))
        }
    }
}

/// The standard-mode release transition: a recorded coordinate frees its
/// channel, leaves the ledger by swap-removal, and emits a note-off on
/// that channel with the pitch recomputed under the current parameters;
/// an unrecorded coordinate falls back to the pure 12-TET note-off when
/// the fifth is pure, and is dropped otherwise.
pub open spec fn spec_standard_release(
    fs: int,
    mask: u16,
    entries: Seq<(Coordinate, Channel)>,
    center: Coordinate,
    coord: Coordinate,
    velocity: u8,
) -> (u16, Seq<(Coordinate, Channel)>, Option<MidiEvent>) {
    let dc = spec_pitch_dc(fs, center, coord);
    let note = spec_note_of_dc(dc) as u8;
    let fi = spec_find_coord(entries, coord);
    if fi >= 0 {
        let channel = entries[fi].1;
        let ci = spec_channel_index(channel);
        let mask1 = if ci > 0 {
            mask & !(1u16 << (ci as u16))
        } else {
            mask
        };
        let entries1 = entries.update(fi, entries.last()).drop_last();
        (mask1, entries1, Some(MidiEvent::NoteOff { channel, note, velocity }))
    } else if fs == 7000 {
        (mask, entries, Some(MidiEvent::NoteOff { channel: Channel::Ch1, note, velocity }))
    } else {
        (mask, entries, None)
    }
}

/// One step of the translation engine: how a key-edge event at a
/// coordinate transforms the usage mask and the ledger, and which output
/// event (if any) it emits.
pub open spec fn spec_translate(
    tun: Tunables,
    mask: u16,
    entries: Seq<(Coordinate, Channel)>,
    center: Coordinate,
    coord: Coordinate,
    velocity: u8,
    is_note_on: bool,
) -> (u16, Seq<(Coordinate, Channel)>, Option<MidiEvent>) {
    match tun.mode {
        TuningMode::Standard => if is_note_on {
            spec_standard_press(
                tun.fifth_size as int,
                tun.mpe_pbr as int,
                mask,
                entries,
                center,
                coord,
                velocity,
            )
        } else {
            spec_standard_release(tun.fifth_size as int, mask, entries, center, coord, velocity)
        },
        TuningMode::Fifths => (mask, entries, spec_fifths_event(center, coord, velocity, is_note_on)),
    }
}

/// Translates one key-edge event into at most one MIDI output event,
/// driving the channel allocator and the active-voice ledger as the
/// tuning mode demands.
pub fn get_midi_event(
    tun: &Tunables,
    allocator: &mut MpeVoiceAllocator,
    active: &mut ActiveChannelMap,
    center: Coordinate,
    coord: Coordinate,
    velocity: u8,
    is_note_on: bool,
) -> (r: Option<MidiEvent>)
    requires
        tun.wf(),
        velocity <= 127,
        old(active).wf(old(allocator).mask()),
    ensures
        final(allocator).mask() == spec_translate(
            *tun,
            old(allocator).mask(),
            old(active).entries@,
            center,
            coord,
            velocity,
            is_note_on,
        ).0,
        final(active).entries@ == spec_translate(
            *tun,
            old(allocator).mask(),
            old(active).entries@,
            center,
            coord,
            velocity,
            is_note_on,
        ).1,
        r == spec_translate(
            *tun,
            old(allocator).mask(),
            old(active).entries@,
            center,
            coord,
            velocity,
            is_note_on,
        ).2,
        final(active).wf(final(allocator).mask()),
{
    let mode = get_mode(tun);
    match mode {
        TuningMode::Standard => {
            if is_note_on {
                let target_dc = get_key_pitch(tun, center, coord);
                if get_fifth_size(tun) == PURE_FIFTH_DECICENTS {
                    let midi_note = note_of_dc(target_dc);
                    if let Some(note) = try_note(midi_note) {
                        return Some(
                            MidiEvent::NoteOn { channel: Channel::Ch1, note, velocity },
                        );
                    }
                    return None;
                }
                let channel_opt = allocator.allocate();
                if let Some(channel) = channel_opt {
                    proof {
                        lemma_first_free(old(allocator).mask());
                        lemma_set_bit(
                            old(allocator).mask(),
                            spec_first_free(old(allocator).mask()) as u16,
                        );
                        lemma_channel_index_roundtrip(
                            channel,
                            spec_first_free(old(allocator).mask()),
                        );
                    }
                    if active.entries.len() < 16 {
                        active.entries.push((coord, channel));
                    }
                    let midi_note = note_of_dc(target_dc);
                    let bend_val = bend_of_dc(target_dc, midi_note, get_mpe_pbr(tun));
                    if let Some(note) = try_note(midi_note) {
                        proof {
                            let mask0 = old(allocator).mask();
                            let i = spec_first_free(mask0);
                            let entries0 = old(active).entries@;
                            assert forall|k: int| 0 <= k < active.entries@.len() implies {
                                &&& 1 <= spec_channel_index((#[trigger] active.entries@[k]).1) < 16
                                &&& mask_bit(
                                    allocator.mask(),
                                    spec_channel_index(active.entries@[k].1),
                                )
                            } by {
                                if k < entries0.len() {
                                    assert(entries0[k].1 == active.entries@[k].1);
                                    assert(mask_bit(mask0, spec_channel_index(entries0[k].1)));
                                    assert(spec_channel_index(entries0[k].1) != i);
                                }
                            }
                            assert forall|k: int, l: int|
                                0 <= k < l < active.entries@.len() implies (#[trigger] active
                                .entries@[k]).1 != (#[trigger] active.entries@[l]).1 by {
                                if l < entries0.len() {
                                    assert(entries0[k].1 != entries0[l].1);
                                } else if l == entries0.len() && l < active.entries@.len() {
                                    assert(mask_bit(mask0, spec_channel_index(entries0[k].1)));
                                    assert(!mask_bit(mask0, i));
                                    assert(active.entries@[l].1 == channel);
                                }
                            }
                        }
                        Some(MidiEvent::MpeNoteOn { channel, note, velocity, pitch_bend: bend_val })
                    } else {
                        // Roll back the allocation and the ledger entry together.
                        allocator.free(channel);
                        if active.entries.len() > 0 {
                            let _ = active.entries.pop();
                        }
                        None
                    }
                } else {
                    proof {
                        lemma_first_free(old(allocator).mask());
                    }
                    None
                }
            } else {
                let n = active.entries.len();
                let mut i: usize = 0;
                let mut found: Option<usize> = None;
                while i < n
                    invariant_except_break
                        found is None,
                    invariant
                        n == active.entries@.len(),
                        i <= n,
                        active.entries@ == old(active).entries@,
                        allocator.mask() == old(allocator).mask(),
                        forall|k: int|
                            0 <= k < i ==> (#[trigger] active.entries@[k]).0 != coord,
                    ensures
                        n == active.entries@.len(),
                        active.entries@ == old(active).entries@,
                        allocator.mask() == old(allocator).mask(),
                        found is None ==> forall|k: int|
                            0 <= k < n ==> (#[trigger] active.entries@[k]).0 != coord,
                        found matches Some(fi) ==> fi < n && active.entries@[fi as int].0 == coord
                            && (forall|k: int|
                            0 <= k < fi ==> (#[trigger] active.entries@[k]).0 != coord),
                    decreases n - i,
                {
                    if active.entries[i].0 == coord {
                        found = Some(i);
                        break ;
                    }
                    i = i + 1;
                }
                if let Some(idx) = found {
                    proof {
                        lemma_find_coord_at(active.entries@, coord, idx as int);
                    }
                    let (_co, channel) = active.entries.swap_remove(idx);
                    proof {
                        let entries0 = old(active).entries@;
                        let ci = spec_channel_index(channel);
                        assert(1 <= ci < 16);
                        lemma_clear_bit(old(allocator).mask(), ci as u16);
                        assert forall|k: int, l: int|
                            0 <= k < l < active.entries@.len() implies (#[trigger] active
                            .entries@[k]).1 != (#[trigger] active.entries@[l]).1 by {
                            let n0 = entries0.len();
                            let k0: int = if k == idx { n0 - 1 } else { k };
                            let l0: int = if l == idx { n0 - 1 } else { l };
                            assert(active.entries@[k] == entries0[k0]);
                            assert(active.entries@[l] == entries0[l0]);
                        }
                        assert forall|k: int| 0 <= k < active.entries@.len() implies {
                            &&& 1 <= spec_channel_index((#[trigger] active.entries@[k]).1) < 16
                            &&& mask_bit(
                                old(allocator).mask() & !(1u16 << (ci as u16)),
                                spec_channel_index(active.entries@[k].1),
                            )
                        } by {
                            let n0 = entries0.len();
                            let k0: int = if k == idx { n0 - 1 } else { k };
                            assert(active.entries@[k] == entries0[k0]);
                            assert(entries0[k0].1 != channel);
                            lemma_channel_index_roundtrip(entries0[k0].1, 0);
                            lemma_channel_index_roundtrip(channel, 0);
                            assert(spec_channel_index(entries0[k0].1) != ci);
                        }
                    }
                    allocator.free(channel);
                    let target_dc = get_key_pitch(tun, center, coord);
                    let midi_note = note_of_dc(target_dc);
                    if let Some(note) = try_note(midi_note) {
                        Some(MidiEvent::NoteOff { channel, note, velocity })
                    } else {
                        None
                    }
                } else {
                    proof {
                        lemma_find_coord_none(active.entries@, coord);
                    }
                    if get_fifth_size(tun) == PURE_FIFTH_DECICENTS {
                        let target_dc = get_key_pitch(tun, center, coord);
                        let midi_note = note_of_dc(target_dc);
                        if let Some(note) = try_note(midi_note) {
                            Some(MidiEvent::NoteOff { channel: Channel::Ch1, note, velocity })
                        } else {
                            None
                        }
                    } else {
                        None
                    }
                }
            }
        },
        TuningMode::Fifths => {
            let (oc, fifths) = calculate_fifths_offsets(center, coord);
            // Channel increases with lattice octaves.
            let ch_sum: i16 = 4 + oc;
            let ch_idx: u8 = if ch_sum < 0 {
                0
            } else if ch_sum > 15 {
                15
            } else {
                ch_sum as u8
            };
            // Pitch increases with lattice fifths.
            let pitch_sum: i16 = 60 + fifths;
            let pitch_idx: u8 = if pitch_sum < 0 {
                0
            } else if pitch_sum > 127 {
                127
            } else {
                pitch_sum as u8
            };
            if let Some(note) = try_note(pitch_idx) {
                let channel = index_to_channel_or_ch1(ch_idx);
                if is_note_on {
                    Some(MidiEvent::NoteOn { channel, note, velocity })
                } else {
                    Some(MidiEvent::NoteOff { channel, note, velocity })
                }
            } else {
                None
            }
        },
    }
}

/// Stepping one major second to the right (`x + 1`, same `y`) leaves the
/// octave component unchanged, raises the fifths component by exactly 2,
/// and raises the pitch by `2 * fifth_size` minus the octave-folding term
/// of 1200 cents.
pub proof fn lemma_major_second_step(fs: int, center: Coordinate, c1: Coordinate, c2: Coordinate)
    requires
        c2.x == c1.x + 1,
        c2.y == c1.y,
    ensures
        spec_octaves(center, c2) == spec_octaves(center, c1),
        spec_fifths(center, c2) == spec_fifths(center, c1) + 2,
        spec_pitch_dc(fs, center, c2) == spec_pitch_dc(fs, center, c1) + 2 * fs - 12000,
{
    let f = spec_fifths(center, c1);
    lemma_fundamental_div_mod(f, 2);
    lemma_mod_bound(f, 2);
    assert(f + 2 == (f / 2 + 1) * 2 + f % 2) by (nonlinear_arith)
        requires
            f == 2 * (f / 2) + f % 2,
    ;
    lemma_fundamental_div_mod_converse(f + 2, 2, f / 2 + 1, f % 2);
    assert((f + 2) * fs == f * fs + 2 * fs) by (nonlinear_arith);
}

/// A press with every MPE channel already held emits no event and leaves
/// both the usage mask and the ledger untouched.
pub proof fn lemma_press_full_allocator(
    tun: Tunables,
    mask: u16,
    entries: Seq<(Coordinate, Channel)>,
    center: Coordinate,
    coord: Coordinate,
    velocity: u8,
)
    requires
        tun.mode == TuningMode::Standard,
        tun.fifth_size != 7000,
        spec_first_free(mask) == 16,
    ensures
        spec_translate(tun, mask, entries, center, coord, velocity, true).0 == mask,
        spec_translate(tun, mask, entries, center, coord, velocity, true).1 == entries,
        spec_translate(tun, mask, entries, center, coord, velocity, true).2 is None,
{
}

/// Fifths mode is a pure function of the coordinate, the center, the
/// velocity and the edge: the same inputs give the same output event
/// whatever the allocator and ledger hold, and neither is changed.
pub proof fn lemma_fifths_mode_pure(
    tun: Tunables,
    mask1: u16,
    entries1: Seq<(Coordinate, Channel)>,
    mask2: u16,
    entries2: Seq<(Coordinate, Channel)>,
    center: Coordinate,
    coord: Coordinate,
    velocity: u8,
    is_note_on: bool,
)
    requires
        tun.mode == TuningMode::Fifths,
    ensures
        spec_translate(tun, mask1, entries1, center, coord, velocity, is_note_on).2
            == spec_translate(tun, mask2, entries2, center, coord, velocity, is_note_on).2,
        spec_translate(tun, mask1, entries1, center, coord, velocity, is_note_on).0 == mask1,
        spec_translate(tun, mask1, entries1, center, coord, velocity, is_note_on).1 == entries1,
{
}

/// Every event the translation engine emits is well-formed for the
/// transport: note and velocity fit in seven bits and the bend in
/// fourteen, so its expansion into messages packs into valid packets.
pub proof fn lemma_translate_event_wf(
    tun: Tunables,
    mask: u16,
    entries: Seq<(Coordinate, Channel)>,
    center: Coordinate,
    coord: Coordinate,
    velocity: u8,
    is_note_on: bool,
)
    requires
        velocity <= 127,
    ensures
        spec_translate(tun, mask, entries, center, coord, velocity, is_note_on).2 matches Some(e)
            ==> crate::midi::spec_event_wf(e),
{
}

/// A press followed by a release of the same coordinate in microtonal
/// standard mode restores the allocator's usage mask and the ledger
/// exactly, provided a channel is free, the ledger has room, and the
/// coordinate is not already sounding.
pub proof fn lemma_press_release_roundtrip(
    tun: Tunables,
    mask: u16,
    entries: Seq<(Coordinate, Channel)>,
    center: Coordinate,
    coord: Coordinate,
    vel_on: u8,
    vel_off: u8,
)
    requires
        tun.wf(),
        tun.mode == TuningMode::Standard,
        tun.fifth_size != 7000,
        spec_first_free(mask) < 16,
        entries_wf(entries, mask),
        entries.len() < 16,
        spec_find_coord(entries, coord) == -1,
    ensures
        ({
            let press = spec_translate(tun, mask, entries, center, coord, vel_on, true);
            let release = spec_translate(tun, press.0, press.1, center, coord, vel_off, false);
            &&& press.2 is Some
            &&& release.2 is Some
            &&& release.0 == mask
            &&& release.1 == entries
        }),
{
    let i = spec_first_free(mask);
    lemma_first_free(mask);
    let channel = spec_index_channel(i);
    lemma_channel_index_roundtrip(channel, i);
    let press = spec_translate(tun, mask, entries, center, coord, vel_on, true);
    let pushed = entries.push((coord, channel));
    assert(press.1 == pushed);
    lemma_find_coord_props(entries, coord);
    assert forall|k: int| 0 <= k < entries.len() implies (#[trigger] pushed[k]).0 != coord by {
        assert(pushed[k] == entries[k]);
    }
    assert(pushed[entries.len() as int].0 == coord);
    lemma_find_coord_at(pushed, coord, entries.len() as int);
    let fi = spec_find_coord(pushed, coord);
    assert(fi == entries.len());
    assert(pushed[fi].1 == channel);
    assert(spec_channel_index(channel) == i);
    assert(!mask_bit(mask, i));
    lemma_set_clear_roundtrip(mask, i as u16);
    assert(pushed.update(fi, pushed.last()) =~= pushed);
    assert(pushed.drop_last() =~= entries);
}

/// The signed display distance of a grid cell from a target pitch:
/// the absolute pitch difference in deci-cents, minus a 20-cent bias when
/// the cell's generic MIDI note matches the bias note; `None` where no
/// key sits.
pub open spec fn spec_cell_dist<L: Layout>(
    fs: int,
    target: int,
    bias_note: Option<u8>,
    r: int,
    c: int,
) -> Option<int> {
    match L::spec_key_to_coord(r, c) {
        Some(co) => {
            let p = spec_pitch_dc(fs, L::spec_center(), co);
            let d = if p >= target {
                p - target
            } else {
                target - p
            };
            let d2 = if bias_note matches Some(n) && spec_coord_to_midi(co, L::spec_center())
                == n {
                d - 200
            } else {
                d
            };
            Some(d2)
        },
        None => None,
    }
}

/// The smallest cell distance among the first `k` cells in row-major
/// order, starting from `max_dist`.
pub open spec fn spec_min_dist_upto<L: Layout>(
    fs: int,
    target: int,
    bias_note: Option<u8>,
    max_dist: int,
    cols: int,
    k: int,
) -> int
    decreases k,
{
    if k <= 0 {
        max_dist
    } else {
        let prev = spec_min_dist_upto::<L>(fs, target, bias_note, max_dist, cols, k - 1);
        match spec_cell_dist::<L>(fs, target, bias_note, (k - 1) / cols, (k - 1) % cols) {
            Some(d) => if d < prev {
                d
            } else {
                prev
            },
            None => prev,
        }
    }
}

/// The first cells (up to four) in row-major order among the first `k`
/// whose distance does not exceed `thresh`.
pub open spec fn spec_collect_upto<L: Layout>(
    fs: int,
    target: int,
    bias_note: Option<u8>,
    thresh: int,
    cols: int,
    k: int,
) -> Seq<Coordinate>
    decreases k,
{
    if k <= 0 {
        Seq::empty()
    } else {
        let prev = spec_collect_upto::<L>(fs, target, bias_note, thresh, cols, k - 1);
        if prev.len() >= 4 {
            prev
        } else {
            match L::spec_key_to_coord((k - 1) / cols, (k - 1) % cols) {
                Some(co) => {
                    let p = spec_pitch_dc(fs, L::spec_center(), co);
                    let d = if p >= target {
                        p - target
                    } else {
                        target - p
                    };
                    let d2 = if bias_note matches Some(n) && spec_coord_to_midi(
                        co,
                        L::spec_center(),
                    ) == n {
                        d - 200
                    } else {
                        d
                    };
                    if d2 <= thresh {
                        prev.push(co)
                    } else {
                        prev
                    }
                },
                None => prev,
            }
        }
    }
}

/// Once four candidates are collected, later cells change nothing.
proof fn lemma_collect_stable<L: Layout>(
    fs: int,
    target: int,
    bias_note: Option<u8>,
    thresh: int,
    cols: int,
    k1: int,
    k2: int,
)
    requires
        0 <= k1 <= k2,
        spec_collect_upto::<L>(fs, target, bias_note, thresh, cols, k1).len() >= 4,
    ensures
        spec_collect_upto::<L>(fs, target, bias_note, thresh, cols, k2) == spec_collect_upto::<L>(
            fs,
            target,
            bias_note,
            thresh,
            cols,
            k1,
        ),
    decreases k2 - k1,
{
    if k1 < k2 {
        lemma_collect_stable::<L>(fs, target, bias_note, thresh, cols, k1, k2 - 1);
    }
}

/// Finds the board keys whose pitch lies closest to a target, for display:
/// first the smallest distance over the whole grid (starting from
/// `max_dist`, with a 20-cent bonus for keys whose generic MIDI note
/// matches `bias_note`), then the first cells, up to four, within one cent
/// of that minimum.  An empty list when no key comes nearer than
/// `max_dist`.
pub fn find_closest_keys<L: Layout>(
    tun: &Tunables,
    target_dc: i64,
    max_dist: i64,
    rows: usize,
    cols: usize,
    bias_note: Option<u8>,
) -> (cand: Vec<Coordinate>)
    requires
        tun.wf(),
        -100_000_000 <= target_dc <= 100_000_000,
        0 <= max_dist <= 100_000_000,
    ensures
        cand@.len() <= 4,
        ({
            let fs = tun.fifth_size as int;
            let total = (rows * cols) as int;
            let m = spec_min_dist_upto::<L>(
                fs,
                target_dc as int,
                bias_note,
                max_dist as int,
                cols as int,
                total,
            );
            if m >= max_dist {
                cand@ == Seq::<Coordinate>::empty()
            } else {
                cand@ == spec_collect_upto::<L>(
                    fs,
                    target_dc as int,
                    bias_note,
                    m + 10,
                    cols as int,
                    total,
                )
            }
        }),
{
    let ghost fs = tun.fifth_size as int;
    let ghost total = (rows * cols) as int;
    let center = L::center_coord();
    let mut min_dist: i64 = max_dist;
    let mut r: usize = 0;
    while r < rows
        invariant
            tun.wf(),
            fs == tun.fifth_size as int,
            r <= rows,
            center == L::spec_center(),
            -100_000_000 <= target_dc <= 100_000_000,
            0 <= max_dist <= 100_000_000,
            min_dist <= max_dist,
            -300_000_000 <= min_dist,
            min_dist == spec_min_dist_upto::<L>(
                fs,
                target_dc as int,
                bias_note,
                max_dist as int,
                cols as int,
                r as int * cols as int,
            ),
        decreases rows - r,
    {
        let mut c: usize = 0;
        while c < cols
            invariant
                tun.wf(),
                fs == tun.fifth_size as int,
                r < rows,
                c <= cols,
                center == L::spec_center(),
                -100_000_000 <= target_dc <= 100_000_000,
                0 <= max_dist <= 100_000_000,
                min_dist <= max_dist,
                -300_000_000 <= min_dist,
                min_dist == spec_min_dist_upto::<L>(
                    fs,
                    target_dc as int,
                    bias_note,
                    max_dist as int,
                    cols as int,
                    r as int * cols as int + c as int,
                ),
            decreases cols - c,
        {
            proof {
                lemma_fundamental_div_mod_converse(
                    r as int * cols as int + c as int,
                    cols as int,
                    r as int,
                    c as int,
                );
            }
            if let Some(co) = L::key_to_coord(r, c) {
                let pitch = get_key_pitch(tun, center, co) as i64;
                let mut dist: i64 = if pitch >= target_dc {
                    pitch - target_dc
                } else {
                    target_dc - pitch
                };
                if let Some(note) = bias_note {
                    if L::coord_to_midi(co) == note {
                        dist = dist - 200;
                    }
                }
                if dist < min_dist {
                    min_dist = dist;
                }
            }
            c = c + 1;
        }
        proof {
            assert((r as int + 1) * (cols as int) == r as int * cols as int + cols as int)
                by (nonlinear_arith);
        }
        r = r + 1;
    }
    let mut cand: Vec<Coordinate> = Vec::new();
    if min_dist >= max_dist {
        return cand;
    }
    let ghost thresh = min_dist as int + 10;
    let mut r: usize = 0;
    while r < rows
        invariant
            tun.wf(),
            fs == tun.fifth_size as int,
            r <= rows,
            center == L::spec_center(),
            -100_000_000 <= target_dc <= 100_000_000,
            -300_000_000 <= min_dist <= 100_000_000,
            min_dist < max_dist,
            min_dist == spec_min_dist_upto::<L>(
                fs,
                target_dc as int,
                bias_note,
                max_dist as int,
                cols as int,
                (rows * cols) as int,
            ),
            thresh == min_dist as int + 10,
            cand@.len() < 4,
            cand@ == spec_collect_upto::<L>(
                fs,
                target_dc as int,
                bias_note,
                thresh,
                cols as int,
                r as int * cols as int,
            ),
        decreases rows - r,
    {
        let mut c: usize = 0;
        while c < cols
            invariant
                tun.wf(),
                fs == tun.fifth_size as int,
                r < rows,
                c <= cols,
                center == L::spec_center(),
                -100_000_000 <= target_dc <= 100_000_000,
                -300_000_000 <= min_dist <= 100_000_000,
                min_dist < max_dist,
                min_dist == spec_min_dist_upto::<L>(
                    fs,
                    target_dc as int,
                    bias_note,
                    max_dist as int,
                    cols as int,
                    (rows * cols) as int,
                ),
                thresh == min_dist as int + 10,
                cand@.len() < 4,
                cand@ == spec_collect_upto::<L>(
                    fs,
                    target_dc as int,
                    bias_note,
                    thresh,
                    cols as int,
                    r as int * cols as int + c as int,
                ),
            decreases cols - c,
        {
            proof {
                lemma_fundamental_div_mod_converse(
                    r as int * cols as int + c as int,
                    cols as int,
                    r as int,
                    c as int,
                );
            }
            if let Some(co) = L::key_to_coord(r, c) {
                let pitch = get_key_pitch(tun, center, co) as i64;
                let mut dist: i64 = if pitch >= target_dc {
                    pitch - target_dc
                } else {
                    target_dc - pitch
                };
                if let Some(note) = bias_note {
                    if L::coord_to_midi(co) == note {
                        dist = dist - 200;
                    }
                }
                if dist <= min_dist + 10 {
                    cand.push(co);
                    if cand.len() >= 4 {
                        proof {
                            assert(0 <= r as int * cols as int + c as int + 1 <= (rows
                                * cols) as int) by (nonlinear_arith)
                                requires
                                    0 <= (r as int) < (rows as int),
                                    0 <= (c as int) < (cols as int),
                            ;
                            lemma_collect_stable::<L>(
                                fs,
                                target_dc as int,
                                bias_note,
                                thresh,
                                cols as int,
                                r as int * cols as int + c as int + 1,
                                (rows * cols) as int,
                            );
                        }
                        return cand;
                    }
                }
            }
            c = c + 1;
        }
        proof {
            assert((r as int + 1) * (cols as int) == r as int * cols as int + cols as int)
                by (nonlinear_arith);
        }
        r = r + 1;
    }
    cand
}

/// The channel with the given index, falling back to channel 1 for an
/// index outside the valid range.
fn index_to_channel_or_ch1(idx: u8) -> (ch: Channel)
    ensures
        idx < 16 ==> ch == spec_index_channel(idx as int),
        idx >= 16 ==> ch == Channel::Ch1,
{
    match crate::midi::index_to_channel(idx) {
        Some(c) => c,
        None => Channel::Ch1,
    }
}

} // verus!

