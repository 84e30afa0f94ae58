//! MIDI value types shared by the translation engine and the transport.

use vstd::prelude::*;

verus! {

/// One of the sixteen MIDI channels.
#[derive(Clone, Copy, Debug, PartialEq, Eq, Structural)]
pub enum Channel {
    Ch1,
    Ch2,
    Ch3,
    Ch4,
    Ch5,
    Ch6,
    Ch7,
    Ch8,
    Ch9,
    Ch10,
    Ch11,
    Ch12,
    Ch13,
    Ch14,
    Ch15,
    Ch16,
}

/// Zero-based index of a channel: `Ch1` is 0, `Ch16` is 15.
pub open spec fn spec_channel_index(ch: Channel) -> int {
    match ch {
        Channel::Ch1 => 0,
        Channel::Ch2 => 1,
        Channel::Ch3 => 2,
        Channel::Ch4 => 3,
        Channel::Ch5 => 4,
        Channel::Ch6 => 5,
        Channel::Ch7 => 6,
        Channel::Ch8 => 7,
        Channel::Ch9 => 8,
        Channel::Ch10 => 9,
        Channel::Ch11 => 10,
        Channel::Ch12 => 11,
        Channel::Ch13 => 12,
        Channel::Ch14 => 13,
        Channel::Ch15 => 14,
        Channel::Ch16 => 15,
    }
}

/// The channel with the given zero-based index.
pub open spec fn spec_index_channel(idx: int) -> Channel
    recommends
        0 <= idx < 16,
{
    if idx == 0 {
        Channel::Ch1
    } else if idx == 1 {
        Channel::Ch2
    } else if idx == 2 {
        Channel::Ch3
    } else if idx == 3 {
        Channel::Ch4
    } else if idx == 4 {
        Channel::Ch5
    } else if idx == 5 {
        Channel::Ch6
    } else if idx == 6 {
        Channel::Ch7
    } else if idx == 7 {
        Channel::Ch8
    } else if idx == 8 {
        Channel::Ch9
    } else if idx == 9 {
        Channel::Ch10
    } else if idx == 10 {
        Channel::Ch11
    } else if idx == 11 {
        Channel::Ch12
    } else if idx == 12 {
        Channel::Ch13
    } else if idx == 13 {
        Channel::Ch14
    } else if idx == 14 {
        Channel::Ch15
    } else {
        Channel::Ch16
    }
}

/// The two index mappings invert each other.
pub proof fn lemma_channel_index_roundtrip(ch: Channel, idx: int)
    ensures
        spec_index_channel(spec_channel_index(ch)) == ch,
        0 <= idx < 16 ==> spec_channel_index(spec_index_channel(idx)) == idx,
{
}

/// Zero-based index of a channel.
pub fn channel_to_index(ch: Channel) -> (idx: usize)
    ensures
        idx == spec_channel_index(ch),
        idx < 16,
{
    match ch {
        Channel::Ch1 => 0,
        Channel::Ch2 => 1,
        Channel::Ch3 => 2,
        Channel::Ch4 => 3,
        Channel::Ch5 => 4,
        Channel::Ch6 => 5,
        Channel::Ch7 => 6,
        Channel::Ch8 => 7,
        Channel::Ch9 => 8,
        Channel::Ch10 => 9,
        Channel::Ch11 => 10,
        Channel::Ch12 => 11,
        Channel::Ch13 => 12,
        Channel::Ch14 => 13,
        Channel::Ch15 => 14,
        Channel::Ch16 => 15,
    }
}

/// The channel with the given zero-based index, or `None` above 15.
pub fn index_to_channel(idx: u8) -> (ch: Option<Channel>)
    ensures
        idx < 16 ==> ch == Some(spec_index_channel(idx as int)),
        idx >= 16 ==> ch is None,
{
    match idx {
        0 => Some(Channel::Ch1),
        1 => Some(Channel::Ch2),
        2 => Some(Channel::Ch3),
        3 => Some(Channel::Ch4),
        4 => Some(Channel::Ch5),
        5 => Some(Channel::Ch6),
        6 => Some(Channel::Ch7),
        7 => Some(Channel::Ch8),
        8 => Some(Channel::Ch9),
        9 => Some(Channel::Ch10),
        10 => Some(Channel::Ch11),
        11 => Some(Channel::Ch12),
        12 => Some(Channel::Ch13),
        13 => Some(Channel::Ch14),
        14 => Some(Channel::Ch15),
        15 => Some(Channel::Ch16),
        _ => None,
    }
}

/// Clamps a byte into the 7-bit data range used for notes and velocities.
pub fn to_u7(v: u8) -> (r: u8)
    ensures
        r == if v <= 127 { v as int } else { 127 },
{
    if v <= 127 {
        v
    } else {
        127
    }
}

/// The checked construction of a MIDI note number from a raw index: a
/// note is valid when it fits in seven bits.
pub fn try_note(idx: u8) -> (r: Option<u8>)
    ensures
        idx <= 127 ==> r == Some(idx),
        idx > 127 ==> r is None,
{
    if idx <= 127 {
        Some(idx)
    } else {
        None
    }
}

/// An output event produced by the translation engine and consumed by the
/// outbound transport loop.
#[derive(Clone, Copy, Debug, PartialEq, Eq, Structural)]
pub enum MidiEvent {
    NoteOn { channel: Channel, note: u8, velocity: u8 },
    NoteOff { channel: Channel, note: u8, velocity: u8 },
    PitchBendChange { channel: Channel, value: u16 },
    MpeNoteOn { channel: Channel, note: u8, velocity: u8, pitch_bend: u16 },
}

/// A remotely sounding voice, decoded from inbound MIDI and read by the
/// display collaborators.
#[derive(Clone, Copy, Debug, PartialEq, Eq, Structural)]
pub struct RemoteVoice {
    pub channel: Channel,
    pub note: u8,
    pub velocity: u8,
    /// Raw 14-bit pitch-bend value (0-16383, center 8192).
    pub pitch_bend: u16,
}

/// One logical MIDI channel message, as carried in a USB-MIDI packet.
#[derive(Clone, Copy, Debug, PartialEq, Eq, Structural)]
pub enum MidiMessage {
    NoteOff { channel: Channel, note: u8, velocity: u8 },
    NoteOn { channel: Channel, note: u8, velocity: u8 },
    ControlChange { channel: Channel, controller: u8, value: u8 },
    PitchBendChange { channel: Channel, bend: u16 },
}

/// Data bytes fit in seven bits and bend values in fourteen.
pub open spec fn spec_message_wf(m: MidiMessage) -> bool {
    match m {
        MidiMessage::NoteOff { note, velocity, .. } => note <= 127 && velocity <= 127,
        MidiMessage::NoteOn { note, velocity, .. } => note <= 127 && velocity <= 127,
        MidiMessage::ControlChange { controller, value, .. } => controller <= 127 && value <= 127,
        MidiMessage::PitchBendChange { bend, .. } => bend <= 16383,
    }
}

/// Note and velocity fields of an output event fit in seven bits.
pub open spec fn spec_event_wf(e: MidiEvent) -> bool {
    match e {
        MidiEvent::NoteOn { note, velocity, .. } => note <= 127 && velocity <= 127,
        MidiEvent::NoteOff { note, velocity, .. } => note <= 127 && velocity <= 127,
        MidiEvent::PitchBendChange { .. } => true,
        MidiEvent::MpeNoteOn { note, velocity, pitch_bend, .. } => note <= 127 && velocity <= 127
            && pitch_bend <= 16383,
    }
}

/// The logical messages that one output event puts on the wire, in order.
/// A plain note-on is preceded by a pitch-bend reset so that no bend left
/// over from the channel's previous occupant affects it; an MPE note-on
/// is preceded by its own bend, which must arrive before the note so the
/// receiving synthesizer applies it atomically with voice start.
pub open spec fn spec_outbound_messages(e: MidiEvent) -> Seq<MidiMessage> {
    match e {
        MidiEvent::NoteOn { channel, note, velocity } => seq![
            MidiMessage::PitchBendChange { channel, bend: 8192 },
            MidiMessage::NoteOn { channel, note, velocity },
        ],
        MidiEvent::NoteOff { channel, note, velocity } => seq![
            MidiMessage::NoteOff { channel, note, velocity },
        ],
        MidiEvent::PitchBendChange { channel, value } => seq![
            MidiMessage::PitchBendChange {
                channel,
                bend: if value <= 16383 {
                    value
                } else {
                    16383
                },
            },
        ],
        MidiEvent::MpeNoteOn { channel, note, velocity, pitch_bend } => seq![
            MidiMessage::PitchBendChange {
                channel,
                bend: if pitch_bend <= 16383 {
                    pitch_bend
                } else {
                    16383
                },
            },
            MidiMessage::NoteOn { channel, note, velocity },
        ],
    }
}

/// Expands one output event into the logical MIDI messages to transmit,
/// in transmission order.
pub fn outbound_messages(event: &MidiEvent) -> (msgs: Vec<MidiMessage>)
    ensures
        msgs@ == spec_outbound_messages(*event),
        spec_event_wf(*event) ==> forall|k: int|
            0 <= k < msgs@.len() ==> spec_message_wf(#[trigger] msgs@[k]),
{
    let mut msgs: Vec<MidiMessage> = Vec::new();
    match *event {
        MidiEvent::NoteOn { channel, note, velocity } => {
            msgs.push(MidiMessage::PitchBendChange { channel, bend: 8192 });
            msgs.push(MidiMessage::NoteOn { channel, note, velocity });
        },
        MidiEvent::NoteOff { channel, note, velocity } => {
            msgs.push(MidiMessage::NoteOff { channel, note, velocity });
        },
        MidiEvent::PitchBendChange { channel, value } => {
            let bend = if value <= 16383 {
                value
            } else {
                16383
            };
            msgs.push(MidiMessage::PitchBendChange { channel, bend });
        },
        MidiEvent::MpeNoteOn { channel, note, velocity, pitch_bend } => {
            let bend = if pitch_bend <= 16383 {
                pitch_bend
            } else {
                16383
            };
            msgs.push(MidiMessage::PitchBendChange { channel, bend });
            msgs.push(MidiMessage::NoteOn { channel, note, velocity });
        },
    }
    proof {
        assert(msgs@ =~= spec_outbound_messages(*event));
    }
    msgs
}

/// An MPE note-on always yields exactly two messages: a pitch-bend change
/// followed by a note-on, both on the same channel.
pub proof fn lemma_mpe_note_on_two_messages(channel: Channel, note: u8, velocity: u8, bend: u16)
    ensures
        ({
            let msgs = spec_outbound_messages(
                MidiEvent::MpeNoteOn { channel, note, velocity, pitch_bend: bend },
            );
            &&& msgs.len() == 2
            &&& msgs[0] matches MidiMessage::PitchBendChange { channel: c0, .. } && c0 == channel
            &&& msgs[1] matches MidiMessage::NoteOn { channel: c1, note: n1, velocity: v1 } && c1
                == channel && n1 == note && v1 == velocity
        }),
{
}

/// The 4-byte USB-MIDI packet for a logical message: a zero cable number
/// combined with the code-index number of the message kind, then the raw
/// 3-byte MIDI message (status, data, data).
pub open spec fn spec_message_packet(m: MidiMessage) -> Seq<u8> {
    match m {
        MidiMessage::NoteOff { channel, note, velocity } => seq![
            0x08u8,
            (0x80 + spec_channel_index(channel)) as u8,
            note,
            velocity,
        ],
        MidiMessage::NoteOn { channel, note, velocity } => seq![
            0x09u8,
            (0x90 + spec_channel_index(channel)) as u8,
            note,
            velocity,
        ],
        MidiMessage::ControlChange { channel, controller, value } => seq![
            0x0Bu8,
            (0xB0 + spec_channel_index(channel)) as u8,
            controller,
            value,
        ],
        MidiMessage::PitchBendChange { channel, bend } => seq![
            0x0Eu8,
            (0xE0 + spec_channel_index(channel)) as u8,
            (bend % 128) as u8,
            (bend / 128) as u8,
        ],
    }
}

/// Packs one logical MIDI message into its 4-byte USB-MIDI packet.
pub fn message_to_packet(m: &MidiMessage) -> (packet: Vec<u8>)
    requires
        spec_message_wf(*m),
    ensures
        packet@ == spec_message_packet(*m),
        packet@.len() == 4,
{
    let mut packet: Vec<u8> = Vec::new();
    match *m {
        MidiMessage::NoteOff { channel, note, velocity } => {
            packet.push(0x08);
            packet.push(0x80 + channel_to_index(channel) as u8);
            packet.push(note);
            packet.push(velocity);
        },
        MidiMessage::NoteOn { channel, note, velocity } => {
            packet.push(0x09);
            packet.push(0x90 + channel_to_index(channel) as u8);
            packet.push(note);
            packet.push(velocity);
        },
        MidiMessage::ControlChange { channel, controller, value } => {
            packet.push(0x0B);
            packet.push(0xB0 + channel_to_index(channel) as u8);
            packet.push(controller);
            packet.push(value);
        },
        MidiMessage::PitchBendChange { channel, bend } => {
            packet.push(0x0E);
            packet.push(0xE0 + channel_to_index(channel) as u8);
            packet.push((bend % 128) as u8);
            packet.push((bend / 128) as u8);
        },
    }
    proof {
        assert(packet@ =~= spec_message_packet(*m));
    }
    packet
}

/// The channel message encoded by the raw 3-byte MIDI message, if it is
/// one the transport understands: a status byte whose high nibble names
/// the kind and whose low nibble names the channel, then two 7-bit data
/// bytes (for pitch bend: least significant byte first).  Anything else -
/// system messages, kinds this subsystem ignores, or malformed data
/// bytes - decodes to nothing.
pub open spec fn spec_parse_midi(b1: u8, b2: u8, b3: u8) -> Option<MidiMessage> {
    let kind = b1 / 16;
    let channel = spec_index_channel(b1 as int % 16);
    if b2 > 127 || b3 > 127 {
        None
    } else if kind == 0x8 {
        Some(MidiMessage::NoteOff { channel, note: b2, velocity: b3 })
    } else if kind == 0x9 {
        Some(MidiMessage::NoteOn { channel, note: b2, velocity: b3 })
    } else if kind == 0xB {
        Some(MidiMessage::ControlChange { channel, controller: b2, value: b3 })
    } else if kind == 0xE {
        Some(MidiMessage::PitchBendChange { channel, bend: (b2 + 128 * b3) as u16 })
    } else {
        None
    }
}

/// Parses one raw 3-byte MIDI message into the channel messages the
/// transport understands.
pub fn parse_midi_message(b1: u8, b2: u8, b3: u8) -> (r: Option<MidiMessage>)
    ensures
        r == spec_parse_midi(b1, b2, b3),
        r matches Some(m) ==> spec_message_wf(m),
{
    let kind = b1 / 16;
    let channel = match index_to_channel(b1 % 16) {
        Some(c) => c,
        None => Channel::Ch1,
    };
    if b2 > 127 || b3 > 127 {
        None
    } else if kind == 0x8 {
        Some(MidiMessage::NoteOff { channel, note: b2, velocity: b3 })
    } else if kind == 0x9 {
        Some(MidiMessage::NoteOn { channel, note: b2, velocity: b3 })
    } else if kind == 0xB {
        Some(MidiMessage::ControlChange { channel, controller: b2, value: b3 })
    } else if kind == 0xE {
        Some(MidiMessage::PitchBendChange { channel, bend: b2 as u16 + 128 * (b3 as u16) })
    } else {
        None
    }
}

/// The index of the first remote voice on `channel` with `note`, or -1.
pub open spec fn spec_find_voice(voices: Seq<RemoteVoice>, channel: Channel, note: u8) -> int
    decreases voices.len(),
{
    if voices.len() == 0 {
        -1
    } else if voices[0].channel == channel && voices[0].note == note {
        0
    } else {
        let r = spec_find_voice(voices.drop_first(), channel, note);
        if r < 0 {
            -1
        } else {
            r + 1
        }
    }
}

/// A first match at index `i` pins down `spec_find_voice`.
proof fn lemma_find_voice_at(voices: Seq<RemoteVoice>, channel: Channel, note: u8, i: int)
    requires
        0 <= i < voices.len(),
        voices[i].channel == channel && voices[i].note == note,
        forall|k: int|
            0 <= k < i ==> !((#[trigger] voices[k]).channel == channel && voices[k].note == note),
    ensures
        spec_find_voice(voices, channel, note) == i,
    decreases i,
{
    if !(voices[0].channel == channel && voices[0].note == note) {
        assert forall|k: int| 0 <= k < i - 1 implies !((#[trigger] voices.drop_first()[k]).channel
            == channel && voices.drop_first()[k].note == note) by {
            assert(voices.drop_first()[k] == voices[k + 1]);
        }
        assert(voices.drop_first()[i - 1] == voices[i]);
        lemma_find_voice_at(voices.drop_first(), channel, note, i - 1);
    }
}

/// No match anywhere pins `spec_find_voice` to -1.
proof fn lemma_find_voice_none(voices: Seq<RemoteVoice>, channel: Channel, note: u8)
    requires
        forall|k: int|
            0 <= k < voices.len() ==> !((#[trigger] voices[k]).channel == channel && voices[k].note
                == note),
    ensures
        spec_find_voice(voices, channel, note) == -1,
    decreases voices.len(),
{
    if voices.len() > 0 {
        assert forall|k: int| 0 <= k < voices.drop_first().len() implies !((#[trigger] voices
            .drop_first()[k]).channel == channel && voices.drop_first()[k].note == note) by {
            assert(voices.drop_first()[k] == voices[k + 1]);
        }
        lemma_find_voice_none(voices.drop_first(), channel, note);
    }
}

/// The voices that remain after removing every voice on `channel` with
/// `note`, in their original order.
pub open spec fn spec_remove_voices(voices: Seq<RemoteVoice>, channel: Channel, note: u8) -> Seq<
    RemoteVoice,
>
    decreases voices.len(),
{
    if voices.len() == 0 {
        Seq::empty()
    } else {
        let rest = spec_remove_voices(voices.drop_last(), channel, note);
        if voices.last().channel == channel && voices.last().note == note {
            rest
        } else {
            rest.push(voices.last())
        }
    }
}

/// Every voice on `channel` retuned to `bend`; other voices unchanged.
pub open spec fn spec_bend_voices(voices: Seq<RemoteVoice>, channel: Channel, bend: u16) -> Seq<
    RemoteVoice,
> {
    Seq::new(
        voices.len(),
        |i: int|
            if voices[i].channel == channel {
                RemoteVoice { pitch_bend: bend, ..voices[i] }
            } else {
                voices[i]
            },
    )
}

/// How one decoded message transforms the remote-voice ledger and the
/// per-channel bend table:
/// - note-on with velocity: update the matching voice in place, or insert
///   a new one carrying the channel's last known bend (dropped silently
///   when the ledger is full);
/// - note-on without velocity, or note-off: remove the matching voices;
/// - pitch-bend: record the channel's bend and retune its voices;
/// - control-change 120 (all sound off) or 123 (all notes off): clear the
///   ledger; any other message leaves everything as it was.
pub open spec fn spec_remote_step(
    voices: Seq<RemoteVoice>,
    bends: Seq<u16>,
    m: MidiMessage,
) -> (Seq<RemoteVoice>, Seq<u16>) {
    match m {
        MidiMessage::NoteOn { channel, note, velocity } => {
            if velocity > 0 {
                let b = bends[spec_channel_index(channel)];
                let fi = spec_find_voice(voices, channel, note);
                if fi >= 0 {
                    (voices.update(fi, RemoteVoice { channel, note, velocity, pitch_bend: b }), bends)
                } else if voices.len() < 32 {
                    (voices.push(RemoteVoice { channel, note, velocity, pitch_bend: b }), bends)
                } else {
                    (voices, bends)
                }
            } else {
                (spec_remove_voices(voices, channel, note), bends)
            }
        },
        MidiMessage::NoteOff { channel, note, .. } => (
            spec_remove_voices(voices, channel, note),
            bends,
        ),
        MidiMessage::PitchBendChange { channel, bend } => (
            spec_bend_voices(voices, channel, bend),
            bends.update(spec_channel_index(channel), bend),
        ),
        MidiMessage::ControlChange { controller, .. } => {
            if controller == 120 || controller == 123 {
                (Seq::empty(), bends)
            } else {
                (voices, bends)
            }
        },
    }
}

/// The ledger of remotely sounding voices and the per-channel table of
/// last-known pitch-bend values, both fed only by the inbound decoder.
pub struct RemoteLedger {
    pub voices: Vec<RemoteVoice>,
    pub channel_bends: Vec<u16>,
}

impl RemoteLedger {
    /// At most 32 voices, and one bend entry per MIDI channel.
    pub open spec fn wf(&self) -> bool {
        &&& self.voices@.len() <= 32
        &&& self.channel_bends@.len() == 16
    }

    /// An empty ledger with every channel's bend at center (8192).
    pub fn new() -> (r: Self)
        ensures
            r.wf(),
            r.voices@.len() == 0,
            forall|i: int| 0 <= i < 16 ==> r.channel_bends@[i] == 8192u16,
    {
        let mut bends: Vec<u16> = Vec::new();
        let mut i: usize = 0;
        while i < 16
            invariant
                i <= 16,
                bends@.len() == i,
                forall|k: int| 0 <= k < i ==> bends@[k] == 8192u16,
            decreases 16 - i,
        {
            bends.push(8192);
            i = i + 1;
        }
        RemoteLedger { voices: Vec::new(), channel_bends: bends }
    }

    /// How many remote voices are sounding.
    pub fn len(&self) -> (n: usize)
        ensures
            n == self.voices@.len(),
    {
        self.voices.len()
    }
}

/// Applies one decoded channel message to the remote-voice ledger.
pub fn process_remote_midi(led: &mut RemoteLedger, message: &MidiMessage)
    requires
        old(led).wf(),
    ensures
        final(led).voices@ == spec_remote_step(
            old(led).voices@,
            old(led).channel_bends@,
            *message,
        ).0,
        final(led).channel_bends@ == spec_remote_step(
            old(led).voices@,
            old(led).channel_bends@,
            *message,
        ).1,
        final(led).wf(),
{
    match *message {
        MidiMessage::NoteOn { channel, note, velocity } => {
            if velocity > 0 {
                let idx = channel_to_index(channel);
                let initial_bend = led.channel_bends[idx];
                let n = led.voices.len();
                let mut i: usize = 0;
                let mut found: Option<usize> = None;
                while i < n
                    invariant_except_break
                        found is None,
                    invariant
                        n == led.voices@.len(),
                        i <= n,
                        led.voices@ == old(led).voices@,
                        led.channel_bends@ == old(led).channel_bends@,
                        forall|k: int|
                            0 <= k < i ==> !((#[trigger] led.voices@[k]).channel == channel
                                && led.voices@[k].note == note),
                    ensures
                        n == led.voices@.len(),
                        led.voices@ == old(led).voices@,
                        led.channel_bends@ == old(led).channel_bends@,
                        found is None ==> forall|k: int|
                            0 <= k < n ==> !((#[trigger] led.voices@[k]).channel == channel
                                && led.voices@[k].note == note),
                        found matches Some(fi) ==> fi < n && led.voices@[fi as int].channel
                            == channel && led.voices@[fi as int].note == note && (forall|k: int|
                            0 <= k < fi ==> !((#[trigger] led.voices@[k]).channel == channel
                                && led.voices@[k].note == note)),
                    decreases n - i,
                {
                    if led.voices[i].channel == channel && led.voices[i].note == note {
                        found = Some(i);
                        break ;
                    }
                    i = i + 1;
                }
                if let Some(fi) = found {
                    proof {
                        lemma_find_voice_at(led.voices@, channel, note, fi as int);
                    }
                    let mut v = led.voices[fi];
                    v.velocity = velocity;
                    v.pitch_bend = initial_bend;
                    led.voices[fi] = v;
                    proof {
                        assert(led.voices@[fi as int] == (RemoteVoice {
                            channel,
                            note,
                            velocity,
                            pitch_bend: initial_bend,
                        }));
                    }
                } else {
                    proof {
                        lemma_find_voice_none(led.voices@, channel, note);
                    }
                    if led.voices.len() < 32 {
                        led.voices.push(
                            RemoteVoice { channel, note, velocity, pitch_bend: initial_bend },
                        );
                    }
                }
            } else {
                remove_matching_voices(led, channel, note);
            }
        },
        MidiMessage::NoteOff { channel, note, .. } => {
            remove_matching_voices(led, channel, note);
        },
        MidiMessage::PitchBendChange { channel, bend } => {
            let idx = channel_to_index(channel);
            led.channel_bends[idx] = bend;
            let n = led.voices.len();
            let mut i: usize = 0;
            while i < n
                invariant
                    n == led.voices@.len(),
                    i <= n,
                    led.channel_bends@ == old(led).channel_bends@.update(
                        spec_channel_index(channel),
                        bend,
                    ),
                    forall|k: int|
                        0 <= k < i ==> #[trigger] led.voices@[k] == (if old(
                            led,
                        ).voices@[k].channel == channel {
                            RemoteVoice { pitch_bend: bend, ..old(led).voices@[k] }
                        } else {
                            old(led).voices@[k]
                        }),
                    forall|k: int| i <= k < n ==> #[trigger] led.voices@[k] == old(led).voices@[k],
                decreases n - i,
            {
                if led.voices[i].channel == channel {
                    let mut v = led.voices[i];
                    v.pitch_bend = bend;
                    led.voices[i] = v;
                }
                i = i + 1;
            }
            proof {
                assert(led.voices@ =~= spec_bend_voices(old(led).voices@, channel, bend));
            }
        },
        MidiMessage::ControlChange { controller, .. } => {
            if controller == 120 || controller == 123 {
                led.voices.clear();
            }
        },
    }
}

/// Removes every remote voice on `channel` with `note`, keeping the rest
/// in order.
fn remove_matching_voices(led: &mut RemoteLedger, channel: Channel, note: u8)
    requires
        old(led).wf(),
    ensures
        final(led).voices@ == spec_remove_voices(old(led).voices@, channel, note),
        final(led).channel_bends@ == old(led).channel_bends@,
        final(led).wf(),
{
    let n = led.voices.len();
    let mut kept: Vec<RemoteVoice> = Vec::new();
    let mut i: usize = 0;
    while i < n
        invariant
            n == led.voices@.len(),
            i <= n,
            led.voices@ == old(led).voices@,
            led.channel_bends@ == old(led).channel_bends@,
            kept@ == spec_remove_voices(led.voices@.subrange(0, i as int), channel, note),
            kept@.len() <= i,
        decreases n - i,
    {
        proof {
            assert(led.voices@.subrange(0, i as int + 1).drop_last() =~= led.voices@.subrange(
                0,
                i as int,
            ));
            assert(led.voices@.subrange(0, i as int + 1).last() == led.voices@[i as int]);
        }
        let v = led.voices[i];
        if !(v.channel == channel && v.note == note) {
            kept.push(v);
        }
        i = i + 1;
    }
    proof {
        assert(led.voices@.subrange(0, n as int) =~= led.voices@);
    }
    led.voices = kept;
}

/// How a raw inbound USB transfer transforms the remote-voice ledger: the
/// payload splits into 4-byte USB-MIDI groups (a trailing partial group is
/// ignored), groups whose leading byte is zero are padding, and each
/// remaining group's 3-byte MIDI message is decoded and applied in order.
pub open spec fn spec_remote_stream(
    voices: Seq<RemoteVoice>,
    bends: Seq<u16>,
    data: Seq<u8>,
) -> (Seq<RemoteVoice>, Seq<u16>)
    decreases data.len(),
{
    if data.len() < 4 {
        (voices, bends)
    } else {
        let next = if data[0] != 0 {
            match spec_parse_midi(data[1], data[2], data[3]) {
                Some(m) => spec_remote_step(voices, bends, m),
                None => (voices, bends),
            }
        } else {
            (voices, bends)
        };
        spec_remote_stream(next.0, next.1, data.skip(4))
    }
}

/// Feeds one raw inbound USB transfer through the decoder, updating the
/// remote-voice ledger message by message.
pub fn process_usb_midi(led: &mut RemoteLedger, data: &[u8])
    requires
        old(led).wf(),
    ensures
        (final(led).voices@, final(led).channel_bends@) == spec_remote_stream(
            old(led).voices@,
            old(led).channel_bends@,
            data@,
        ),
        final(led).wf(),
{
    let n = data.len();
    let mut i: usize = 0;
    proof {
        assert(data@.skip(0) =~= data@);
    }
    while n - i >= 4
        invariant
            n == data@.len(),
            i <= n,
            led.wf(),
            spec_remote_stream(led.voices@, led.channel_bends@, data@.skip(i as int))
                == spec_remote_stream(old(led).voices@, old(led).channel_bends@, data@),
        decreases n - i,
    {
        proof {
            assert(data@.skip(i as int)[0] == data@[i as int]);
            assert(data@.skip(i as int)[1] == data@[i as int + 1]);
            assert(data@.skip(i as int)[2] == data@[i as int + 2]);
            assert(data@.skip(i as int)[3] == data@[i as int + 3]);
            assert(data@.skip(i as int).skip(4) =~= data@.skip(i as int + 4));
        }
        if data[i] != 0 {
            if let Some(m) = parse_midi_message(data[i + 1], data[i + 2], data[i + 3]) {
                process_remote_midi(led, &m);
            }
        }
        i = i + 4;
    }
    proof {
        assert(data@.skip(i as int).len() < 4);
    }
}

} // verus!
