use lattice_midi::Channel;
use lattice_midi::Coordinate;
use lattice_midi::MidiEvent;
use lattice_midi::MpeVoiceAllocator;
use lattice_midi::TuningMode;
use lattice_midi::pitch::Pitch;
use lattice_midi::tuning::ActiveChannelMap;
use lattice_midi::tuning::Tunables;
use lattice_midi::tuning::adjust_fifth_size;
use lattice_midi::tuning::adjust_mpe_pbr;
use lattice_midi::tuning::calculate_fifths_offsets;
use lattice_midi::tuning::get_fifth_size;
use lattice_midi::tuning::get_key_pitch;
use lattice_midi::tuning::get_midi_event;
use lattice_midi::tuning::get_mode;
use lattice_midi::tuning::get_mpe_pbr;
use lattice_midi::tuning::toggle_mode;

const CENTER: Coordinate = Coordinate { x: 3, y: 2 };

fn standard_tunables() -> Tunables {
    let mut tun = Tunables::new();
    toggle_mode(&mut tun);
    assert_eq!(get_mode(&tun), TuningMode::Standard);
    tun
}

#[test]
fn test_pitch_midi_conversion() {
    // C4 = 60
    // Octave = (60 / 12) - 1 = 4
    // PC = 0
    let p = Pitch::from_midi(60);
    assert_eq!(p.octave, 4);
    assert_eq!(p.pitch_class.0, 0);

    // C#4 = 61
    // Octave 4, PC 1
    let p = Pitch::from_midi(61);
    assert_eq!(p.octave, 4);
    assert_eq!(p.pitch_class.0, 100_000_000);
}

#[test]
fn tunables_defaults_and_clamping() {
    let mut tun = Tunables::new();
    assert_eq!(get_mode(&tun), TuningMode::Fifths);
    assert_eq!(get_fifth_size(&tun), 6970);
    assert_eq!(get_mpe_pbr(&tun), 10);

    adjust_fifth_size(&mut tun, 10);
    assert_eq!(get_fifth_size(&tun), 6980);
    adjust_fifth_size(&mut tun, 30000);
    assert_eq!(get_fifth_size(&tun), 8000);
    adjust_fifth_size(&mut tun, -30000);
    assert_eq!(get_fifth_size(&tun), 6000);

    adjust_mpe_pbr(&mut tun, -30000);
    assert_eq!(get_mpe_pbr(&tun), 1);
    adjust_mpe_pbr(&mut tun, 30000);
    assert_eq!(get_mpe_pbr(&tun), 960);

    assert_eq!(toggle_mode(&mut tun), TuningMode::Standard);
    assert_eq!(toggle_mode(&mut tun), TuningMode::Fifths);
}

#[test]
fn offsets_of_named_intervals() {
    // The center itself.
    assert_eq!(calculate_fifths_offsets(CENTER, CENTER), (0, 0));
    // Up-right is a perfect fifth.
    let fifth = Coordinate { x: CENTER.x + 1, y: CENTER.y - 1 };
    assert_eq!(calculate_fifths_offsets(CENTER, fifth), (0, 1));
    // One step right is a major second: two more fifths, with the octave
    // drop folded in by the pitch formula.
    let second = Coordinate { x: CENTER.x + 1, y: CENTER.y };
    assert_eq!(calculate_fifths_offsets(CENTER, second), (0, 2));
    // Two steps up is two ascending fourths: one octave up, two fifths down.
    let up_up = Coordinate { x: CENTER.x, y: CENTER.y - 2 };
    assert_eq!(calculate_fifths_offsets(CENTER, up_up), (1, -2));
}

#[test]
fn major_second_step_moves_pitch_by_two_fifths_folded() {
    let tun = standard_tunables();
    for x in -3i8..4i8 {
        for y in -3i8..4i8 {
            let c1 = Coordinate { x, y };
            let c2 = Coordinate { x: x + 1, y };
            let (o1, f1) = calculate_fifths_offsets(CENTER, c1);
            let (o2, f2) = calculate_fifths_offsets(CENTER, c2);
            assert_eq!(o2, o1);
            assert_eq!(f2, f1 + 2);
            let p1 = get_key_pitch(&tun, CENTER, c1);
            let p2 = get_key_pitch(&tun, CENTER, c2);
            assert_eq!(p2 - p1, 2 * 6970 - 12000);
        }
    }
}

#[test]
fn allocator_hands_out_fifteen_channels_lowest_first() {
    let mut alloc = MpeVoiceAllocator::new();
    let first = alloc.allocate();
    assert_eq!(first, Some(Channel::Ch2));
    let mut handed = vec![first.unwrap()];
    for _ in 1..15 {
        let ch = alloc.allocate().expect("pool should hold fifteen channels");
        assert_ne!(ch, Channel::Ch1);
        assert!(!handed.contains(&ch));
        handed.push(ch);
    }
    // The sixteenth allocation finds every channel held.
    assert_eq!(alloc.allocate(), None);
}

#[test]
fn allocator_reuses_lowest_freed_channel() {
    let mut alloc = MpeVoiceAllocator::new();
    let a = alloc.allocate().unwrap();
    let b = alloc.allocate().unwrap();
    assert_eq!(a, Channel::Ch2);
    assert_eq!(b, Channel::Ch3);
    alloc.free(a);
    assert_eq!(alloc.allocate(), Some(Channel::Ch2));
    // Freeing channel 1 or an already-free channel changes nothing.
    alloc.free(Channel::Ch1);
    alloc.free(Channel::Ch16);
    assert_eq!(alloc.allocate(), Some(Channel::Ch4));
}

#[test]
fn fifths_mode_press_and_release_at_center() {
    let tun = Tunables::new();
    let mut alloc = MpeVoiceAllocator::new();
    let mut active = ActiveChannelMap::new();
    let on = get_midi_event(&tun, &mut alloc, &mut active, CENTER, CENTER, 100, true);
    assert_eq!(
        on,
        Some(MidiEvent::NoteOn { channel: Channel::Ch5, note: 60, velocity: 100 })
    );
    let off = get_midi_event(&tun, &mut alloc, &mut active, CENTER, CENTER, 100, false);
    assert_eq!(
        off,
        Some(MidiEvent::NoteOff { channel: Channel::Ch5, note: 60, velocity: 100 })
    );
    // Neither event touched the allocator or the ledger.
    assert_eq!(alloc, MpeVoiceAllocator::new());
    assert_eq!(active.len(), 0);
}

#[test]
fn fifths_mode_is_independent_of_prior_presses() {
    let tun = Tunables::new();
    let coord = Coordinate { x: 4, y: 1 };

    let mut alloc1 = MpeVoiceAllocator::new();
    let mut active1 = ActiveChannelMap::new();
    let fresh = get_midi_event(&tun, &mut alloc1, &mut active1, CENTER, coord, 100, true);

    // The same press after unrelated activity elsewhere on the board.
    let mut alloc2 = MpeVoiceAllocator::new();
    let mut active2 = ActiveChannelMap::new();
    for x in 0..3i8 {
        get_midi_event(
            &tun,
            &mut alloc2,
            &mut active2,
            CENTER,
            Coordinate { x, y: 0 },
            100,
            true,
        );
    }
    let later = get_midi_event(&tun, &mut alloc2, &mut active2, CENTER, coord, 100, true);
    assert_eq!(fresh, later);

    // The fifth channel index rises with the octave component.
    let up_up = Coordinate { x: 3, y: 0 };
    let ev = get_midi_event(&tun, &mut alloc1, &mut active1, CENTER, up_up, 90, true);
    assert_eq!(
        ev,
        Some(MidiEvent::NoteOn { channel: Channel::Ch6, note: 58, velocity: 90 })
    );
}

#[test]
fn fifths_mode_clamps_channel_and_note() {
    let tun = Tunables::new();
    let mut alloc = MpeVoiceAllocator::new();
    let mut active = ActiveChannelMap::new();

    // Far to the right: the note index saturates at 127.
    let ev = get_midi_event(
        &tun,
        &mut alloc,
        &mut active,
        CENTER,
        Coordinate { x: 120, y: 2 },
        100,
        true,
    );
    assert_eq!(
        ev,
        Some(MidiEvent::NoteOn { channel: Channel::Ch5, note: 127, velocity: 100 })
    );

    // Far to the left: the note index saturates at 0.
    let ev = get_midi_event(
        &tun,
        &mut alloc,
        &mut active,
        CENTER,
        Coordinate { x: -120, y: 2 },
        100,
        true,
    );
    assert_eq!(
        ev,
        Some(MidiEvent::NoteOn { channel: Channel::Ch5, note: 0, velocity: 100 })
    );

    // Far down: the channel index saturates at 0 (channel 1).
    let ev = get_midi_event(
        &tun,
        &mut alloc,
        &mut active,
        CENTER,
        Coordinate { x: 3, y: 120 },
        100,
        true,
    );
    match ev {
        Some(MidiEvent::NoteOn { channel, .. }) => assert_eq!(channel, Channel::Ch1),
        other => panic!("expected a note-on, got {:?}", other),
    }

    // Far up: the channel index saturates at 15 (channel 16).
    let ev = get_midi_event(
        &tun,
        &mut alloc,
        &mut active,
        CENTER,
        Coordinate { x: 3, y: -128 },
        100,
        true,
    );
    match ev {
        Some(MidiEvent::NoteOn { channel, .. }) => assert_eq!(channel, Channel::Ch16),
        other => panic!("expected a note-on, got {:?}", other),
    }
}

#[test]
fn rounding_at_the_half_semitone_goes_up() {
    // A 650-cent fifth puts the fifth key at 6650 cents: exactly half way
    // between notes 66 and 67, which rounds up, leaving a half-semitone
    // downward bend (4096 units below center at a 1-semitone range).
    let mut tun = standard_tunables();
    adjust_fifth_size(&mut tun, -470);
    assert_eq!(get_fifth_size(&tun), 6500);
    let mut alloc = MpeVoiceAllocator::new();
    let mut active = ActiveChannelMap::new();
    let fifth = Coordinate { x: CENTER.x + 1, y: CENTER.y - 1 };
    assert_eq!(get_key_pitch(&tun, CENTER, fifth), 66500);
    let on = get_midi_event(&tun, &mut alloc, &mut active, CENTER, fifth, 100, true);
    assert_eq!(
        on,
        Some(MidiEvent::MpeNoteOn {
            channel: Channel::Ch2,
            note: 67,
            velocity: 100,
            pitch_bend: 8192 - 4096,
        })
    );
}

#[test]
fn pure_twelve_tet_press_at_anchor() {
    let mut tun = standard_tunables();
    adjust_fifth_size(&mut tun, 30);
    assert_eq!(get_fifth_size(&tun), 7000);
    let mut alloc = MpeVoiceAllocator::new();
    let mut active = ActiveChannelMap::new();
    // The center maps to the 6000-cent anchor, hence exactly middle C.
    assert_eq!(get_key_pitch(&tun, CENTER, CENTER), 60000);
    let on = get_midi_event(&tun, &mut alloc, &mut active, CENTER, CENTER, 100, true);
    assert_eq!(
        on,
        Some(MidiEvent::NoteOn { channel: Channel::Ch1, note: 60, velocity: 100 })
    );
    // No allocation happens on the pure path.
    assert_eq!(alloc, MpeVoiceAllocator::new());
    assert_eq!(active.len(), 0);
    let off = get_midi_event(&tun, &mut alloc, &mut active, CENTER, CENTER, 100, false);
    assert_eq!(
        off,
        Some(MidiEvent::NoteOff { channel: Channel::Ch1, note: 60, velocity: 100 })
    );
}

#[test]
fn microtonal_press_allocates_and_bends() {
    let tun = standard_tunables();
    let mut alloc = MpeVoiceAllocator::new();
    let mut active = ActiveChannelMap::new();

    // At the anchor the bend is exactly centered.
    let on = get_midi_event(&tun, &mut alloc, &mut active, CENTER, CENTER, 100, true);
    assert_eq!(
        on,
        Some(MidiEvent::MpeNoteOn {
            channel: Channel::Ch2,
            note: 60,
            velocity: 100,
            pitch_bend: 8192,
        })
    );
    assert_eq!(active.len(), 1);

    // A perfect fifth above: 6697 cents rounds to note 67, 3 cents flat;
    // with a 1-semitone bend range that is 246 bend units below center.
    let fifth = Coordinate { x: CENTER.x + 1, y: CENTER.y - 1 };
    let on = get_midi_event(&tun, &mut alloc, &mut active, CENTER, fifth, 101, true);
    assert_eq!(
        on,
        Some(MidiEvent::MpeNoteOn {
            channel: Channel::Ch3,
            note: 67,
            velocity: 101,
            pitch_bend: 8192 - 246,
        })
    );
    assert_eq!(active.len(), 2);
}

#[test]
fn press_release_round_trip_restores_allocator() {
    let tun = standard_tunables();
    let mut alloc = MpeVoiceAllocator::new();
    let mut active = ActiveChannelMap::new();
    // Occupy one channel with another key first.
    let other = Coordinate { x: 1, y: 1 };
    get_midi_event(&tun, &mut alloc, &mut active, CENTER, other, 100, true).unwrap();
    let before = alloc.clone();
    let held = active.len();

    let coord = Coordinate { x: 4, y: 2 };
    let on = get_midi_event(&tun, &mut alloc, &mut active, CENTER, coord, 100, true);
    assert!(on.is_some());
    assert_eq!(active.len(), held + 1);
    let off = get_midi_event(&tun, &mut alloc, &mut active, CENTER, coord, 100, false);
    match off {
        Some(MidiEvent::NoteOff { channel, .. }) => assert_eq!(channel, Channel::Ch3),
        other => panic!("expected a note-off, got {:?}", other),
    }
    assert_eq!(alloc, before);
    assert_eq!(active.len(), held);
}

#[test]
fn press_with_full_allocator_is_dropped() {
    let tun = standard_tunables();
    let mut alloc = MpeVoiceAllocator::new();
    let mut active = ActiveChannelMap::new();
    // Hold fifteen distinct keys: every expressive channel is taken.
    for i in 0..15i8 {
        let coord = Coordinate { x: i, y: -1 };
        let ev = get_midi_event(&tun, &mut alloc, &mut active, CENTER, coord, 100, true);
        assert!(ev.is_some());
    }
    assert_eq!(active.len(), 15);
    let before = alloc.clone();

    let ev = get_midi_event(
        &tun,
        &mut alloc,
        &mut active,
        CENTER,
        Coordinate { x: 0, y: 3 },
        100,
        true,
    );
    assert_eq!(ev, None);
    assert_eq!(alloc, before);
    assert_eq!(active.len(), 15);

    // Releasing the dropped key is silently ignored too.
    let ev = get_midi_event(
        &tun,
        &mut alloc,
        &mut active,
        CENTER,
        Coordinate { x: 0, y: 3 },
        100,
        false,
    );
    assert_eq!(ev, None);
    assert_eq!(alloc, before);
}

#[test]
fn release_recomputes_pitch_under_new_parameters() {
    // The documented stuck-note edge case: changing the fifth size while
    // a microtonal note is held makes the release emit the note number
    // derived from the new parameters.
    let mut tun = standard_tunables();
    let fifth = Coordinate { x: CENTER.x + 1, y: CENTER.y - 1 };
    let mut alloc = MpeVoiceAllocator::new();
    let mut active = ActiveChannelMap::new();
    let on = get_midi_event(&tun, &mut alloc, &mut active, CENTER, fifth, 100, true);
    match on {
        Some(MidiEvent::MpeNoteOn { note, .. }) => assert_eq!(note, 67),
        other => panic!("expected an MPE note-on, got {:?}", other),
    }
    adjust_fifth_size(&mut tun, 30000);
    assert_eq!(get_fifth_size(&tun), 8000);
    let off = get_midi_event(&tun, &mut alloc, &mut active, CENTER, fifth, 100, false);
    match off {
        Some(MidiEvent::NoteOff { note, .. }) => assert_eq!(note, 68),
        other => panic!("expected a note-off, got {:?}", other),
    }
    // The channel came back to the pool all the same.
    assert_eq!(alloc, MpeVoiceAllocator::new());
}

#[test]
fn unknown_release_falls_back_only_on_pure_fifth() {
    let mut tun = standard_tunables();
    let mut alloc = MpeVoiceAllocator::new();
    let mut active = ActiveChannelMap::new();
    let coord = Coordinate { x: 2, y: 2 };
    // Microtonal: a release with no ledger entry is dropped.
    let ev = get_midi_event(&tun, &mut alloc, &mut active, CENTER, coord, 100, false);
    assert_eq!(ev, None);
    // Pure 12-TET: it falls back to a channel-1 note-off.
    adjust_fifth_size(&mut tun, 30);
    let ev = get_midi_event(&tun, &mut alloc, &mut active, CENTER, coord, 100, false);
    match ev {
        Some(MidiEvent::NoteOff { channel, .. }) => assert_eq!(channel, Channel::Ch1),
        other => panic!("expected a note-off, got {:?}", other),
    }
}
