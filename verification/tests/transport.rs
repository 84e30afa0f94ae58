use lattice_midi::Channel;
use lattice_midi::Coordinate;
use lattice_midi::MidiEvent;
use lattice_midi::MidiMessage;
use lattice_midi::MpeVoiceAllocator;
use lattice_midi::RemoteLedger;
use lattice_midi::tuning::ActiveChannelMap;
use lattice_midi::tuning::Tunables;
use lattice_midi::tuning::get_midi_event;
use lattice_midi::tuning::toggle_mode;
use lattice_midi::midi::message_to_packet;
use lattice_midi::midi::outbound_messages;
use lattice_midi::midi::parse_midi_message;
use lattice_midi::midi::process_remote_midi;
use lattice_midi::midi::process_usb_midi;
use lattice_midi::util::hex_upper;

#[test]
fn mpe_note_on_sends_bend_then_note_on_same_channel() {
    let event = MidiEvent::MpeNoteOn {
        channel: Channel::Ch4,
        note: 67,
        velocity: 101,
        pitch_bend: 9000,
    };
    let msgs = outbound_messages(&event);
    assert_eq!(msgs.len(), 2);
    assert_eq!(
        msgs[0],
        MidiMessage::PitchBendChange { channel: Channel::Ch4, bend: 9000 }
    );
    assert_eq!(
        msgs[1],
        MidiMessage::NoteOn { channel: Channel::Ch4, note: 67, velocity: 101 }
    );
}

#[test]
fn plain_note_on_is_preceded_by_bend_reset() {
    let event = MidiEvent::NoteOn { channel: Channel::Ch1, note: 60, velocity: 100 };
    let msgs = outbound_messages(&event);
    assert_eq!(msgs.len(), 2);
    assert_eq!(
        msgs[0],
        MidiMessage::PitchBendChange { channel: Channel::Ch1, bend: 8192 }
    );
    assert_eq!(
        msgs[1],
        MidiMessage::NoteOn { channel: Channel::Ch1, note: 60, velocity: 100 }
    );
}

#[test]
fn note_off_and_bend_send_single_clamped_messages() {
    let msgs = outbound_messages(&MidiEvent::NoteOff {
        channel: Channel::Ch2,
        note: 55,
        velocity: 0,
    });
    assert_eq!(msgs.len(), 1);
    assert_eq!(
        msgs[0],
        MidiMessage::NoteOff { channel: Channel::Ch2, note: 55, velocity: 0 }
    );

    // An out-of-range bend value is clamped to the 14-bit maximum.
    let msgs = outbound_messages(&MidiEvent::PitchBendChange {
        channel: Channel::Ch3,
        value: 60000,
    });
    assert_eq!(msgs.len(), 1);
    assert_eq!(
        msgs[0],
        MidiMessage::PitchBendChange { channel: Channel::Ch3, bend: 16383 }
    );
}

#[test]
fn packets_carry_code_index_status_and_data() {
    let p = message_to_packet(&MidiMessage::NoteOn {
        channel: Channel::Ch4,
        note: 67,
        velocity: 101,
    });
    assert_eq!(p, vec![0x09, 0x93, 67, 101]);

    let p = message_to_packet(&MidiMessage::NoteOff {
        channel: Channel::Ch1,
        note: 60,
        velocity: 0,
    });
    assert_eq!(p, vec![0x08, 0x80, 60, 0]);

    // 9000 = 70 * 128 + 40: least significant 7 bits first.
    let p = message_to_packet(&MidiMessage::PitchBendChange {
        channel: Channel::Ch4,
        bend: 9000,
    });
    assert_eq!(p, vec![0x0E, 0xE3, 40, 70]);

    let p = message_to_packet(&MidiMessage::ControlChange {
        channel: Channel::Ch1,
        controller: 123,
        value: 0,
    });
    assert_eq!(p, vec![0x0B, 0xB0, 123, 0]);
}

#[test]
fn parsing_accepts_channel_messages_and_rejects_the_rest() {
    assert_eq!(
        parse_midi_message(0x91, 60, 100),
        Some(MidiMessage::NoteOn { channel: Channel::Ch2, note: 60, velocity: 100 })
    );
    assert_eq!(
        parse_midi_message(0x80, 60, 0),
        Some(MidiMessage::NoteOff { channel: Channel::Ch1, note: 60, velocity: 0 })
    );
    assert_eq!(
        parse_midi_message(0xE3, 40, 70),
        Some(MidiMessage::PitchBendChange { channel: Channel::Ch4, bend: 9000 })
    );
    assert_eq!(
        parse_midi_message(0xB0, 123, 0),
        Some(MidiMessage::ControlChange { channel: Channel::Ch1, controller: 123, value: 0 })
    );
    // A data byte with the high bit set is malformed.
    assert_eq!(parse_midi_message(0x91, 200, 100), None);
    // A leading byte without status bit cannot start a message.
    assert_eq!(parse_midi_message(0x45, 60, 100), None);
    // Program change and other kinds are ignored by this subsystem.
    assert_eq!(parse_midi_message(0xC1, 5, 0), None);
}

#[test]
fn decode_note_on_then_all_notes_off_leaves_ledger_empty() {
    let mut led = RemoteLedger::new();
    process_usb_midi(&mut led, &[0x09, 0x90, 60, 100]);
    assert_eq!(led.len(), 1);
    assert_eq!(led.voices[0].channel, Channel::Ch1);
    assert_eq!(led.voices[0].note, 60);
    assert_eq!(led.voices[0].velocity, 100);
    process_usb_midi(&mut led, &[0x0B, 0xB0, 123, 0]);
    assert_eq!(led.len(), 0);
}

#[test]
fn decode_ignores_padding_partial_groups_and_other_controllers() {
    let mut led = RemoteLedger::new();
    // One transfer: a padding group, a note-on, a harmless controller, and
    // a trailing partial group.
    let bytes = [
        0x00u8, 0x90, 62, 9, // padding: leading zero
        0x09, 0x90, 62, 100, // note-on
        0x0B, 0xB0, 7, 99, // controller 7 is not all-sound-off
        0x09, 0x90, // incomplete group, dropped
    ];
    process_usb_midi(&mut led, &bytes);
    assert_eq!(led.len(), 1);
    assert_eq!(led.voices[0].note, 62);
    assert_eq!(led.voices[0].velocity, 100);
}

#[test]
fn note_on_updates_existing_voice_in_place() {
    let mut led = RemoteLedger::new();
    process_remote_midi(
        &mut led,
        &MidiMessage::NoteOn { channel: Channel::Ch3, note: 60, velocity: 80 },
    );
    process_remote_midi(
        &mut led,
        &MidiMessage::NoteOn { channel: Channel::Ch3, note: 60, velocity: 127 },
    );
    assert_eq!(led.len(), 1);
    assert_eq!(led.voices[0].velocity, 127);
}

#[test]
fn note_off_and_zero_velocity_note_on_remove_voices() {
    let mut led = RemoteLedger::new();
    process_remote_midi(
        &mut led,
        &MidiMessage::NoteOn { channel: Channel::Ch3, note: 60, velocity: 80 },
    );
    process_remote_midi(
        &mut led,
        &MidiMessage::NoteOn { channel: Channel::Ch3, note: 64, velocity: 80 },
    );
    process_remote_midi(
        &mut led,
        &MidiMessage::NoteOn { channel: Channel::Ch3, note: 60, velocity: 0 },
    );
    assert_eq!(led.len(), 1);
    assert_eq!(led.voices[0].note, 64);
    process_remote_midi(
        &mut led,
        &MidiMessage::NoteOff { channel: Channel::Ch3, note: 64, velocity: 0 },
    );
    assert_eq!(led.len(), 0);
}

#[test]
fn pitch_bend_updates_table_and_sounding_voices() {
    let mut led = RemoteLedger::new();
    process_remote_midi(
        &mut led,
        &MidiMessage::NoteOn { channel: Channel::Ch3, note: 60, velocity: 80 },
    );
    process_remote_midi(
        &mut led,
        &MidiMessage::NoteOn { channel: Channel::Ch3, note: 64, velocity: 80 },
    );
    process_remote_midi(
        &mut led,
        &MidiMessage::NoteOn { channel: Channel::Ch5, note: 50, velocity: 80 },
    );
    assert_eq!(led.voices[0].pitch_bend, 8192);

    process_remote_midi(
        &mut led,
        &MidiMessage::PitchBendChange { channel: Channel::Ch3, bend: 1000 },
    );
    assert_eq!(led.voices[0].pitch_bend, 1000);
    assert_eq!(led.voices[1].pitch_bend, 1000);
    // The voice on another channel keeps its bend.
    assert_eq!(led.voices[2].pitch_bend, 8192);
    assert_eq!(led.channel_bends[2], 1000);

    // A voice arriving later on the bent channel starts at the recorded bend.
    process_remote_midi(
        &mut led,
        &MidiMessage::NoteOn { channel: Channel::Ch3, note: 72, velocity: 80 },
    );
    assert_eq!(led.voices[3].pitch_bend, 1000);
}

#[test]
fn full_remote_ledger_drops_new_voices() {
    let mut led = RemoteLedger::new();
    for note in 0..32u8 {
        process_remote_midi(
            &mut led,
            &MidiMessage::NoteOn { channel: Channel::Ch1, note, velocity: 64 },
        );
    }
    assert_eq!(led.len(), 32);
    process_remote_midi(
        &mut led,
        &MidiMessage::NoteOn { channel: Channel::Ch1, note: 100, velocity: 64 },
    );
    assert_eq!(led.len(), 32);
    assert!(led.voices.iter().all(|v| v.note != 100));
    // Updating a voice already present still works at capacity.
    process_remote_midi(
        &mut led,
        &MidiMessage::NoteOn { channel: Channel::Ch1, note: 5, velocity: 99 },
    );
    assert_eq!(led.len(), 32);
    assert_eq!(led.voices[5].velocity, 99);
}

#[test]
fn mpe_press_reaches_the_wire_as_two_packets() {
    let mut tun = Tunables::new();
    toggle_mode(&mut tun);
    let mut alloc = MpeVoiceAllocator::new();
    let mut active = ActiveChannelMap::new();
    let center = Coordinate { x: 3, y: 2 };
    let fifth = Coordinate { x: 4, y: 1 };
    let event = get_midi_event(&tun, &mut alloc, &mut active, center, fifth, 101, true)
        .expect("a free channel is available");

    let mut packets = Vec::new();
    for message in outbound_messages(&event) {
        packets.push(message_to_packet(&message));
    }
    // Bend 8192 - 246 = 7946 = 62 * 128 + 10, sent before the note-on,
    // both on channel 2.
    assert_eq!(packets.len(), 2);
    assert_eq!(packets[0], vec![0x0E, 0xE1, 10, 62]);
    assert_eq!(packets[1], vec![0x09, 0x91, 67, 101]);
}

#[test]
fn one_transfer_carries_several_messages_in_order() {
    let mut led = RemoteLedger::new();
    // Bend channel 2, then start a voice there, then end it.
    let bytes = [
        0x0Eu8, 0xE1, 0, 32, // bend channel 2 to 4096
        0x09, 0x91, 60, 100, // note-on: picks up the recorded bend
        0x09, 0x91, 64, 90, // a second voice
        0x08, 0x81, 60, 0, // note-off for the first
    ];
    process_usb_midi(&mut led, &bytes);
    assert_eq!(led.len(), 1);
    assert_eq!(led.voices[0].note, 64);
    assert_eq!(led.voices[0].velocity, 90);
    assert_eq!(led.voices[0].pitch_bend, 4096);
    assert_eq!(led.channel_bends[1], 4096);
}

#[test]
fn hex_formatting_of_unique_id() {
    let id = [0xABu8, 0x01, 0x5F, 0x00];
    let hex = hex_upper(&id);
    assert_eq!(hex, b"AB015F00".to_vec());
}
