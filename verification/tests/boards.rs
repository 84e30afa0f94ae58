use lattice_midi::Coordinate;
use lattice_midi::Layout;
use lattice_midi::build_reversed_lookup;
use lattice_midi::layout_5x25::Layout5x25;
use lattice_midi::layout_5x25::build_key_map;
use lattice_midi::layout_5x25::build_led_lookup;
use lattice_midi::layout_5x25::build_led_matrix;
use lattice_midi::layout_5x25::calculate_coordinate;
use lattice_midi::layout_5x25::calculate_led_index;
use lattice_midi::layout_5x25::log_key_map;
use lattice_midi::layout_5x25::log_led_map;
use lattice_midi::prototype::PrototypeLayout;
use lattice_midi::prototype::build_proto_led_matrix;
use lattice_midi::tuning::Tunables;
use lattice_midi::tuning::find_closest_keys;
use lattice_midi::tuning::get_key_pitch;
use lattice_midi::tuning::toggle_mode;

#[test]
fn prototype_key_grid_matches_presence_table() {
    assert_eq!(PrototypeLayout::key_to_coord(0, 0), None);
    assert_eq!(
        PrototypeLayout::key_to_coord(0, 1),
        Some(Coordinate { x: 1, y: 0 })
    );
    assert_eq!(
        PrototypeLayout::key_to_coord(2, 6),
        Some(Coordinate { x: 6, y: 2 })
    );
    assert_eq!(PrototypeLayout::key_to_coord(3, 2), None);
    assert_eq!(
        PrototypeLayout::key_to_coord(4, 5),
        Some(Coordinate { x: 5, y: 4 })
    );
    assert_eq!(PrototypeLayout::key_to_coord(5, 0), None);
    assert_eq!(PrototypeLayout::center_coord(), Coordinate { x: 3, y: 2 });
}

#[test]
fn prototype_led_mapping_round_trips() {
    for idx in 0..19usize {
        let coord = PrototypeLayout::led_to_coord(idx).expect("index in range");
        assert_eq!(PrototypeLayout::coord_to_led(coord), Some(idx));
    }
    assert_eq!(PrototypeLayout::led_to_coord(19), None);
    assert_eq!(
        PrototypeLayout::coord_to_led(Coordinate { x: 0, y: 0 }),
        None
    );
    assert_eq!(
        PrototypeLayout::coord_to_led(Coordinate { x: -1, y: 2 }),
        None
    );
}

#[test]
fn reversed_lookup_inverts_the_prototype_matrix() {
    let matrix = build_proto_led_matrix();
    let lookup = build_reversed_lookup(&matrix, 255, 19);
    assert_eq!(lookup.len(), 19);
    assert_eq!(lookup[0], Coordinate { x: 1, y: 0 });
    assert_eq!(lookup[2], Coordinate { x: 0, y: 1 });
    assert_eq!(lookup[18], Coordinate { x: 5, y: 4 });
}

#[test]
fn coord_to_midi_counts_seconds_and_fourths() {
    let center = PrototypeLayout::center_coord();
    assert_eq!(PrototypeLayout::coord_to_midi(center), 60);
    assert_eq!(
        PrototypeLayout::coord_to_midi(Coordinate { x: center.x + 1, y: center.y }),
        62
    );
    assert_eq!(
        PrototypeLayout::coord_to_midi(Coordinate { x: center.x, y: center.y + 1 }),
        55
    );
    assert_eq!(
        PrototypeLayout::coord_to_midi(Coordinate { x: 120, y: -120 }),
        127
    );
    assert_eq!(
        PrototypeLayout::coord_to_midi(Coordinate { x: -120, y: 120 }),
        0
    );
}

#[test]
fn board_5x25_has_123_distinct_leds() {
    let lookup = build_led_lookup();
    assert_eq!(lookup.len(), 123);
    let matrix = build_led_matrix();
    let mut seen = [false; 123];
    for r in 0..10 {
        for c in 0..13 {
            let v = matrix[r][c];
            assert_eq!(v, calculate_led_index(r, c));
            if v != 255 {
                let idx = v as usize;
                assert!(idx < 123);
                assert!(!seen[idx], "LED index {} appears twice", idx);
                seen[idx] = true;
            }
        }
    }
    assert!(seen.iter().all(|&s| s));
}

#[test]
fn board_5x25_key_map_matches_cells() {
    let map = build_key_map();
    assert_eq!(map.len(), 10);
    for r in 0..10 {
        assert_eq!(map[r].len(), 13);
        for c in 0..13 {
            assert_eq!(map[r][c], calculate_coordinate(r, c));
        }
    }
    // The corner gaps left for the microcontroller.
    assert_eq!(calculate_coordinate(1, 0), None);
    assert_eq!(calculate_coordinate(0, 1), None);
    // Even rows have no key in column zero.
    assert_eq!(calculate_coordinate(2, 0), None);
    // The first key of the top row.
    assert_eq!(calculate_coordinate(0, 2), Some(Coordinate { x: 1, y: 0 }));
    assert_eq!(
        Layout5x25::key_to_coord(0, 2),
        Some(Coordinate { x: 1, y: 0 })
    );
    assert_eq!(Layout5x25::key_to_coord(10, 0), None);
    assert_eq!(Layout5x25::center_coord(), Coordinate { x: 1, y: 6 });
}

#[test]
fn board_5x25_led_mapping_round_trips() {
    for idx in 0..123usize {
        let coord = Layout5x25::led_to_coord(idx).expect("index in range");
        assert_eq!(Layout5x25::coord_to_led(coord), Some(idx));
    }
    assert_eq!(Layout5x25::led_to_coord(123), None);
}

#[test]
fn diagnostic_maps_list_populated_cells() {
    let keys = log_key_map();
    // 10 x 13 cells minus the 12 gaps: 5 even rows of 12 keys and 5 odd
    // rows of 13 keys, minus the two corner gaps.
    assert_eq!(keys.len(), 5 * 12 + 5 * 13 - 2);
    for &(r, c, co) in &keys {
        assert_eq!(calculate_coordinate(r, c), Some(co));
    }
    let leds = log_led_map();
    assert_eq!(leds.len(), 123);
    for &(r, c, v) in &leds {
        assert_eq!(calculate_led_index(r, c), v);
        assert_ne!(v, 255);
    }
}

#[test]
fn closest_keys_finds_the_exact_key_first() {
    let mut tun = Tunables::new();
    toggle_mode(&mut tun);
    let center = PrototypeLayout::center_coord();
    let target = get_key_pitch(&tun, center, center) as i64;
    let found = find_closest_keys::<PrototypeLayout>(&tun, target, 2000, 5, 7, None);
    assert_eq!(found.len(), 1);
    assert_eq!(found[0], center);

    // Far away from every key, nothing lights up.
    let found = find_closest_keys::<PrototypeLayout>(&tun, 99_000_000, 2000, 5, 7, None);
    assert!(found.is_empty());

    // The bias note pulls in enharmonic-adjacent keys within 20 cents.
    let found = find_closest_keys::<PrototypeLayout>(
        &tun,
        target,
        2000,
        5,
        7,
        Some(PrototypeLayout::coord_to_midi(center)),
    );
    assert!(found.contains(&center));
}
