//! The 5x25 board: a 10x13 scan matrix whose PCB rows zigzag over the
//! lattice in blocks of six keys, with 123 LEDs (two positions are left
//! free for the microcontroller).

use vstd::prelude::*;

use crate::layout::Coordinate;
use crate::layout::Layout;
use crate::layout::LedIndex;
use crate::layout::coord_to_midi_for;
use crate::layout::spec_coord_to_midi;
use vstd::arithmetic::div_mod::lemma_fundamental_div_mod_converse;

verus! {

/// Scan matrix rows.
pub const ROWS: usize = 10;

/// Scan matrix columns.
pub const COLS: usize = 13;

/// LEDs on the strip.
pub const NUM_LEDS: usize = 123;

/// The matrix value marking a position without an LED.
pub const NO_LED: u8 = 255;

/// The lattice x-offset of each position within a block of six keys.
pub open spec fn spec_x_pattern(i: int) -> int {
    if i == 0 {
        0
    } else if i == 1 {
        1
    } else if i == 2 {
        2
    } else if i == 3 {
        2
    } else if i == 4 {
        3
    } else {
        4
    }
}

/// The lattice y-offset of each position within a block of six keys.
pub open spec fn spec_y_pattern(i: int) -> int {
    if i < 3 {
        0
    } else {
        1
    }
}

/// The lattice coordinate of a physical matrix position, or `None` where
/// no key sits.  Even PCB rows hold twelve keys starting at column 1; odd
/// rows hold thirteen starting at column 0, staggered; successive blocks
/// of six step five columns right and two rows down in lattice terms.
pub open spec fn spec_coordinate(row: int, col: int) -> Option<Coordinate> {
    if (row == 1 && col == 0) || (row == 0 && col == 1) {
        None
    } else if row % 2 == 0 {
        if col == 0 || col >= 13 {
            None
        } else {
            let block_count = (col - 1) / 6;
            let block_idx = (col - 1) % 6;
            Some(
                Coordinate {
                    x: (spec_x_pattern(block_idx) + 5 * block_count - row / 2) as i8,
                    y: (row + spec_y_pattern(block_idx) + 2 * block_count) as i8,
                },
            )
        }
    } else {
        if col >= 13 {
            None
        } else {
            let block_count = (col + 2) / 6;
            let block_idx = (col + 2) % 6;
            Some(
                Coordinate {
                    x: (-2 + spec_x_pattern(block_idx) + 5 * block_count - (row + 1) / 2) as i8,
                    y: (row - 1 + spec_y_pattern(block_idx) + 2 * block_count) as i8,
                },
            )
        }
    }
}

/// Calculates the logical coordinate for a given physical (row, col).
pub fn calculate_coordinate(row: usize, col: usize) -> (r: Option<Coordinate>)
    requires
        row < 10,
        col < 13,
    ensures
        r == spec_coordinate(row as int, col as int),
{
    // Specific missing keys make room for the microcontroller.
    if (row == 1 && col == 0) || (row == 0 && col == 1) {
        return None;
    }
    if row % 2 == 0 {
        if col == 0 {
            return None;
        }
        let block_count = (col - 1) / 6;
        let block_idx = (col - 1) % 6;
        let x_pat = x_pattern(block_idx);
        let y_pat = y_pattern(block_idx);
        Some(
            Coordinate {
                x: (x_pat + 5 * (block_count as i32) - (row / 2) as i32) as i8,
                y: (row as i32 + y_pat + 2 * (block_count as i32)) as i8,
            },
        )
    } else {
        let block_count = (col + 2) / 6;
        let block_idx = (col + 2) % 6;
        let x_pat = x_pattern(block_idx);
        let y_pat = y_pattern(block_idx);
        Some(
            Coordinate {
                x: (-2 + x_pat + 5 * (block_count as i32) - ((row + 1) / 2) as i32) as i8,
                y: (row as i32 - 1 + y_pat + 2 * (block_count as i32)) as i8,
            },
        )
    }
}

/// The x-offset within a block of six keys.
fn x_pattern(i: usize) -> (r: i32)
    requires
        i < 6,
    ensures
        r == spec_x_pattern(i as int),
{
    match i {
        0 => 0,
        1 => 1,
        2 => 2,
        3 => 2,
        4 => 3,
        _ => 4,
    }
}

/// The y-offset within a block of six keys.
fn y_pattern(i: usize) -> (r: i32)
    requires
        i < 6,
    ensures
        r == spec_y_pattern(i as int),
{
    if i < 3 {
        0
    } else {
        1
    }
}

/// The LED index of a physical position, or 255 where no LED sits: the
/// physical snake pattern numbers the positions row by row, alternating
/// direction, and the two gap positions shift later indices down.
pub open spec fn spec_led_index(row: int, col: int) -> int {
    if row >= 10 || col >= 13 || row < 0 || col < 0 {
        255
    } else if (row == 1 && col == 0) || (row == 0 && col == 1) {
        255
    } else if row % 2 == 0 && col == 0 {
        255
    } else {
        let raw = if row % 2 == 0 {
            25 * (row / 2) + col - 1
        } else {
            (row / 2 + 1) * 25 - 1 - col
        };
        if raw >= 25 {
            raw - 2
        } else if raw >= 1 {
            raw - 1
        } else {
            255
        }
    }
}

/// Calculates the LED index (0-122) for a given physical (row, col),
/// returning 255 where no LED is present.
pub fn calculate_led_index(row: usize, col: usize) -> (r: u8)
    ensures
        r == spec_led_index(row as int, col as int),
{
    if row >= ROWS || col >= COLS {
        return NO_LED;
    }
    if (row == 1 && col == 0) || (row == 0 && col == 1) {
        return NO_LED;
    }
    let raw_idx: usize = if row % 2 == 0 {
        if col == 0 {
            return NO_LED;
        }
        25 * (row / 2) + col - 1
    } else {
        (row / 2 + 1) * 25 - 1 - col
    };
    if raw_idx >= 25 {
        (raw_idx - 2) as u8
    } else if raw_idx >= 1 {
        (raw_idx - 1) as u8
    } else {
        NO_LED
    }
}

/// Builds the physical-position-to-coordinate table for the whole matrix.
pub fn build_key_map() -> (map: Vec<Vec<Option<Coordinate>>>)
    ensures
        map@.len() == 10,
        forall|r: int| 0 <= r < 10 ==> (#[trigger] map@[r])@.len() == 13,
        forall|r: int, c: int|
            0 <= r < 10 && 0 <= c < 13 ==> (#[trigger] map@[r]@[c]) == spec_coordinate(r, c),
{
    let mut map: Vec<Vec<Option<Coordinate>>> = Vec::new();
    let mut r: usize = 0;
    while r < ROWS
        invariant
            r <= 10,
            map@.len() == r,
            forall|i: int| 0 <= i < r ==> (#[trigger] map@[i])@.len() == 13,
            forall|i: int, c: int|
                0 <= i < r && 0 <= c < 13 ==> (#[trigger] map@[i]@[c]) == spec_coordinate(i, c),
        decreases 10 - r,
    {
        let mut row: Vec<Option<Coordinate>> = Vec::new();
        let mut c: usize = 0;
        while c < COLS
            invariant
                r < 10,
                c <= 13,
                row@.len() == c,
                forall|j: int| 0 <= j < c ==> (#[trigger] row@[j]) == spec_coordinate(r as int, j),
            decreases 13 - c,
        {
            row.push(calculate_coordinate(r, c));
            c = c + 1;
        }
        map.push(row);
        r = r + 1;
    }
    map
}

/// Builds the physical-position-to-LED-index matrix.
pub fn build_led_matrix() -> (map: Vec<Vec<u8>>)
    ensures
        map@.len() == 10,
        forall|r: int| 0 <= r < 10 ==> (#[trigger] map@[r])@.len() == 13,
        forall|r: int, c: int|
            0 <= r < 10 && 0 <= c < 13 ==> (#[trigger] map@[r]@[c]) == spec_led_index(r, c),
{
    let mut map: Vec<Vec<u8>> = Vec::new();
    let mut r: usize = 0;
    while r < ROWS
        invariant
            r <= 10,
            map@.len() == r,
            forall|i: int| 0 <= i < r ==> (#[trigger] map@[i])@.len() == 13,
            forall|i: int, c: int|
                0 <= i < r && 0 <= c < 13 ==> (#[trigger] map@[i]@[c]) == spec_led_index(i, c),
        decreases 10 - r,
    {
        let mut row: Vec<u8> = Vec::new();
        let mut c: usize = 0;
        while c < COLS
            invariant
                r < 10,
                c <= 13,
                row@.len() == c,
                forall|j: int| 0 <= j < c ==> (#[trigger] row@[j]) == spec_led_index(r as int, j),
            decreases 13 - c,
        {
            row.push(calculate_led_index(r, c));
            c = c + 1;
        }
        map.push(row);
        r = r + 1;
    }
    map
}

/// Whether the coordinate stored for LED `idx` comes from a matrix cell
/// whose LED index is `idx`.
pub open spec fn spec_led_entry_ok(idx: int, co: Coordinate) -> bool {
    exists|r: int, c: int|
        0 <= r < 10 && 0 <= c < 13 && #[trigger] spec_led_index(r, c) == idx && spec_coordinate(
            r,
            c,
        ) == Some(co)
}

/// One cell's write into the LED lookup: a cell with an LED and a key
/// stores its coordinate under its LED index.
pub open spec fn spec_lookup_cell(lookup: Seq<Coordinate>, r: int, c: int) -> Seq<Coordinate> {
    let v = spec_led_index(r, c);
    match spec_coordinate(r, c) {
        Some(co) => if v != 255 && 0 <= v < lookup.len() {
            lookup.update(v, co)
        } else {
            lookup
        },
        None => lookup,
    }
}

/// The LED lookup after the first `c_count` cells of row `r`.
pub open spec fn spec_lookup_row(lookup: Seq<Coordinate>, r: int, c_count: int) -> Seq<Coordinate>
    decreases c_count,
{
    if c_count <= 0 {
        lookup
    } else {
        spec_lookup_cell(spec_lookup_row(lookup, r, c_count - 1), r, c_count - 1)
    }
}

/// The LED lookup after the first `r_count` whole rows.
pub open spec fn spec_lookup_fill(lookup: Seq<Coordinate>, r_count: int) -> Seq<Coordinate>
    decreases r_count,
{
    if r_count <= 0 {
        lookup
    } else {
        spec_lookup_row(spec_lookup_fill(lookup, r_count - 1), r_count - 1, 13)
    }
}

/// The LED-index-to-coordinate table of the whole board: 123 default
/// entries of (0, 0), overwritten cell by cell in row-major order.
pub open spec fn spec_led_lookup() -> Seq<Coordinate> {
    spec_lookup_fill(Seq::new(123, |i: int| (Coordinate { x: 0, y: 0 })), 10)
}

/// Builds the LED-index-to-coordinate lookup: entry `idx` holds the
/// coordinate of the key whose LED index is `idx`, and unnamed entries
/// keep the default coordinate (0, 0).
pub fn build_led_lookup() -> (lookup: Vec<Coordinate>)
    ensures
        lookup@.len() == 123,
        lookup@ == spec_led_lookup(),
        forall|idx: int|
            0 <= idx < 123 ==> spec_led_entry_ok(idx, #[trigger] lookup@[idx]) || lookup@[idx] == (
            Coordinate { x: 0, y: 0 }),
{
    let ghost init: Seq<Coordinate> = Seq::new(123, |i: int| (Coordinate { x: 0, y: 0 }));
    let mut lookup: Vec<Coordinate> = Vec::new();
    let mut k: usize = 0;
    while k < NUM_LEDS
        invariant
            k <= 123,
            lookup@.len() == k,
            forall|i: int| 0 <= i < k ==> #[trigger] lookup@[i] == (Coordinate { x: 0, y: 0 }),
        decreases 123 - k,
    {
        lookup.push(Coordinate { x: 0, y: 0 });
        k = k + 1;
    }
    proof {
        assert(lookup@ =~= init);
    }
    let mut r: usize = 0;
    while r < ROWS
        invariant
            r <= 10,
            lookup@.len() == 123,
            lookup@ == spec_lookup_fill(init, r as int),
            forall|idx: int|
                0 <= idx < 123 ==> spec_led_entry_ok(idx, #[trigger] lookup@[idx]) || lookup@[idx]
                    == (Coordinate { x: 0, y: 0 }),
        decreases 10 - r,
    {
        let mut c: usize = 0;
        while c < COLS
            invariant
                r < 10,
                c <= 13,
                lookup@.len() == 123,
                lookup@ == spec_lookup_row(spec_lookup_fill(init, r as int), r as int, c as int),
                forall|idx: int|
                    0 <= idx < 123 ==> spec_led_entry_ok(idx, #[trigger] lookup@[idx])
                        || lookup@[idx] == (Coordinate { x: 0, y: 0 }),
            decreases 13 - c,
        {
            let led_idx = calculate_led_index(r, c);
            if led_idx != NO_LED {
                let idx = led_idx as usize;
                if idx < NUM_LEDS {
                    if let Some(co) = calculate_coordinate(r, c) {
                        lookup[idx] = co;
                        proof {
                            assert(spec_led_index(r as int, c as int) == idx as int);
                            assert(spec_led_entry_ok(idx as int, co));
                        }
                    }
                }
            }
            c = c + 1;
        }
        r = r + 1;
    }
    lookup
}

/// The populated key-map entries among the first `k` cells in row-major
/// order.
pub open spec fn spec_key_map_entries(k: int) -> Seq<(usize, usize, Coordinate)>
    decreases k,
{
    if k <= 0 {
        Seq::empty()
    } else {
        let prev = spec_key_map_entries(k - 1);
        let r = (k - 1) / 13;
        let c = (k - 1) % 13;
        match spec_coordinate(r, c) {
            Some(co) => prev.push((r as usize, c as usize, co)),
            None => prev,
        }
    }
}

/// The populated key-map entries, row-major, for diagnostic display.
pub fn log_key_map() -> (entries: Vec<(usize, usize, Coordinate)>)
    ensures
        entries@ == spec_key_map_entries(130),
        forall|k: int|
            0 <= k < entries@.len() ==> {
                let e = #[trigger] entries@[k];
                e.0 < 10 && e.1 < 13 && spec_coordinate(e.0 as int, e.1 as int) == Some(e.2)
            },
{
    let mut entries: Vec<(usize, usize, Coordinate)> = Vec::new();
    let mut r: usize = 0;
    while r < ROWS
        invariant
            r <= 10,
            entries@ == spec_key_map_entries(r as int * 13),
            forall|k: int|
                0 <= k < entries@.len() ==> {
                    let e = #[trigger] entries@[k];
                    e.0 < 10 && e.1 < 13 && spec_coordinate(e.0 as int, e.1 as int) == Some(e.2)
                },
        decreases 10 - r,
    {
        let mut c: usize = 0;
        while c < COLS
            invariant
                r < 10,
                c <= 13,
                entries@ == spec_key_map_entries(r as int * 13 + c as int),
                forall|k: int|
                    0 <= k < entries@.len() ==> {
                        let e = #[trigger] entries@[k];
                        e.0 < 10 && e.1 < 13 && spec_coordinate(e.0 as int, e.1 as int) == Some(e.2)
                    },
            decreases 13 - c,
        {
            proof {
                lemma_fundamental_div_mod_converse(
                    r as int * 13 + c as int,
                    13,
                    r as int,
                    c as int,
                );
            }
            if let Some(co) = calculate_coordinate(r, c) {
                entries.push((r, c, co));
            }
            c = c + 1;
        }
        r = r + 1;
    }
    entries
}

/// The populated LED-map entries among the first `k` cells in row-major
/// order.
pub open spec fn spec_led_map_entries(k: int) -> Seq<(usize, usize, u8)>
    decreases k,
{
    if k <= 0 {
        Seq::empty()
    } else {
        let prev = spec_led_map_entries(k - 1);
        let r = (k - 1) / 13;
        let c = (k - 1) % 13;
        let v = spec_led_index(r, c);
        if v != 255 {
            prev.push((r as usize, c as usize, v as u8))
        } else {
            prev
        }
    }
}

/// The populated LED-map entries, row-major, for diagnostic display.
pub fn log_led_map() -> (entries: Vec<(usize, usize, u8)>)
    ensures
        entries@ == spec_led_map_entries(130),
        forall|k: int|
            0 <= k < entries@.len() ==> {
                let e = #[trigger] entries@[k];
                e.0 < 10 && e.1 < 13 && spec_led_index(e.0 as int, e.1 as int) == e.2 && e.2 != 255
            },
{
    let mut entries: Vec<(usize, usize, u8)> = Vec::new();
    let mut r: usize = 0;
    while r < ROWS
        invariant
            r <= 10,
            entries@ == spec_led_map_entries(r as int * 13),
            forall|k: int|
                0 <= k < entries@.len() ==> {
                    let e = #[trigger] entries@[k];
                    e.0 < 10 && e.1 < 13 && spec_led_index(e.0 as int, e.1 as int) == e.2 && e.2
                        != 255
                },
        decreases 10 - r,
    {
        let mut c: usize = 0;
        while c < COLS
            invariant
                r < 10,
                c <= 13,
                entries@ == spec_led_map_entries(r as int * 13 + c as int),
                forall|k: int|
                    0 <= k < entries@.len() ==> {
                        let e = #[trigger] entries@[k];
                        e.0 < 10 && e.1 < 13 && spec_led_index(e.0 as int, e.1 as int) == e.2 && e.2
                            != 255
                    },
            decreases 13 - c,
        {
            proof {
                lemma_fundamental_div_mod_converse(
                    r as int * 13 + c as int,
                    13,
                    r as int,
                    c as int,
                );
            }
            let led_idx = calculate_led_index(r, c);
            if led_idx != NO_LED {
                entries.push((r, c, led_idx));
            }
            c = c + 1;
        }
        r = r + 1;
    }
    entries
}

/// The 5x25 board layout.
pub struct Layout5x25;

impl Layout for Layout5x25 {
    open spec fn spec_key_to_coord(row: int, col: int) -> Option<Coordinate> {
        if 0 <= row < 10 && 0 <= col < 13 {
            spec_coordinate(row, col)
        } else {
            None
        }
    }

    open spec fn spec_center() -> Coordinate {
        Coordinate { x: 1, y: 6 }
    }

    open spec fn spec_num_leds() -> nat {
        123
    }

    open spec fn spec_led_to_coord(idx: int) -> Option<Coordinate> {
        if 0 <= idx < 123 {
            Some(spec_led_lookup()[idx])
        } else {
            None
        }
    }

    fn key_to_coord(row: usize, col: usize) -> (r: Option<Coordinate>) {
        if row < ROWS && col < COLS {
            calculate_coordinate(row, col)
        } else {
            None
        }
    }

    fn led_to_coord(idx: LedIndex) -> (r: Option<Coordinate>) {
        if idx < NUM_LEDS {
            let lookup = build_led_lookup();
            Some(lookup[idx])
        } else {
            None
        }
    }

    fn coord_to_led(coord: Coordinate) -> (r: Option<LedIndex>) {
        // Linear search: there is no coordinate-to-index map, and indexing
        // the LED matrix by (y, x) would be wrong since lattice x/y are
        // not matrix row/column.  123 entries is fast enough.
        let lookup = build_led_lookup();
        let mut i: usize = 0;
        while i < NUM_LEDS
            invariant
                lookup@.len() == 123,
                i <= 123,
            decreases 123 - i,
        {
            if lookup[i].x == coord.x && lookup[i].y == coord.y {
                return Some(i);
            }
            i = i + 1;
        }
        None
    }

    fn center_coord() -> (r: Coordinate) {
        Coordinate { x: 1, y: 6 }
    }

    fn coord_to_midi(coord: Coordinate) -> (r: u8) {
        coord_to_midi_for(coord, Coordinate { x: 1, y: 6 })
    }
}

} // verus!
