//! The hand-wired prototype board: a 5x7 direct-scan matrix with 19 LEDs.

use vstd::prelude::*;

use crate::layout::Coordinate;
use crate::layout::Layout;
use crate::layout::LedIndex;
use crate::layout::build_reversed_lookup;
use crate::layout::coord_to_midi_for;
use crate::layout::spec_reversed_lookup;

verus! {

/// Scan matrix rows.
pub const ROWS: usize = 5;

/// Scan matrix columns.
pub const COLS: usize = 7;

/// LEDs on the strip.
pub const NUM_LEDS: usize = 19;

/// The matrix value marking a position without an LED.
pub const NO_LED: u8 = 255;

/// Whether a key is present at the physical position.
pub open spec fn spec_key_presence(row: int, col: int) -> bool {
    if row == 0 {
        col == 1 || col == 2
    } else if row == 1 {
        0 <= col <= 4
    } else if row == 2 {
        0 <= col <= 6
    } else if row == 3 {
        3 <= col <= 6
    } else if row == 4 {
        col == 5
    } else {
        false
    }
}

/// The LED index wired to the physical position, or 255 where none is.
pub open spec fn spec_led_matrix(row: int, col: int) -> int {
    if row == 0 {
        if col == 1 {
            0
        } else if col == 2 {
            1
        } else {
            255
        }
    } else if row == 1 {
        if 0 <= col <= 4 {
            2 + col
        } else {
            255
        }
    } else if row == 2 {
        if 0 <= col <= 6 {
            7 + col
        } else {
            255
        }
    } else if row == 3 {
        if 3 <= col <= 6 {
            11 + col
        } else {
            255
        }
    } else if row == 4 {
        if col == 5 {
            18
        } else {
            255
        }
    } else {
        255
    }
}

/// Whether a key is present at the physical position.
pub fn key_presence(row: usize, col: usize) -> (r: bool)
    ensures
        r == spec_key_presence(row as int, col as int),
{
    if row == 0 {
        col == 1 || col == 2
    } else if row == 1 {
        col <= 4
    } else if row == 2 {
        col <= 6
    } else if row == 3 {
        3 <= col && col <= 6
    } else if row == 4 {
        col == 5
    } else {
        false
    }
}

/// The LED index wired to the physical position, or 255 where none is.
pub fn led_matrix_at(row: usize, col: usize) -> (r: u8)
    ensures
        r == spec_led_matrix(row as int, col as int),
        r == 255 || r < 19,
{
    if row == 0 {
        if col == 1 {
            0
        } else if col == 2 {
            1
        } else {
            255
        }
    } else if row == 1 {
        if col <= 4 {
            2 + col as u8
        } else {
            255
        }
    } else if row == 2 {
        if col <= 6 {
            7 + col as u8
        } else {
            255
        }
    } else if row == 3 {
        if 3 <= col && col <= 6 {
            11 + col as u8
        } else {
            255
        }
    } else if row == 4 {
        if col == 5 {
            18
        } else {
            255
        }
    } else {
        255
    }
}

/// Builds the LED matrix as rows of index values.
pub fn build_proto_led_matrix() -> (matrix: Vec<Vec<u8>>)
    ensures
        matrix@.len() == 5,
        forall|r: int| 0 <= r < 5 ==> (#[trigger] matrix@[r])@.len() == 7,
        forall|r: int, c: int|
            0 <= r < 5 && 0 <= c < 7 ==> (#[trigger] matrix@[r]@[c]) == spec_led_matrix(r, c),
{
    let mut matrix: Vec<Vec<u8>> = Vec::new();
    let mut r: usize = 0;
    while r < ROWS
        invariant
            r <= 5,
            matrix@.len() == r,
            forall|i: int| 0 <= i < r ==> (#[trigger] matrix@[i])@.len() == 7,
            forall|i: int, c: int|
                0 <= i < r && 0 <= c < 7 ==> (#[trigger] matrix@[i]@[c]) == spec_led_matrix(i, c),
        decreases 5 - r,
    {
        let mut row: Vec<u8> = Vec::new();
        let mut c: usize = 0;
        while c < COLS
            invariant
                r < 5,
                c <= 7,
                row@.len() == c,
                forall|j: int| 0 <= j < c ==> (#[trigger] row@[j]) == spec_led_matrix(r as int, j),
            decreases 7 - c,
        {
            row.push(led_matrix_at(r, c));
            c = c + 1;
        }
        matrix.push(row);
        r = r + 1;
    }
    matrix
}

/// The LED matrix as a sequence of rows of index values.
pub open spec fn spec_proto_matrix() -> Seq<Seq<u8>> {
    Seq::new(5, |r: int| Seq::new(7, |c: int| spec_led_matrix(r, c) as u8))
}

/// The prototype board layout.
pub struct PrototypeLayout;

impl Layout for PrototypeLayout {
    open spec fn spec_key_to_coord(row: int, col: int) -> Option<Coordinate> {
        if 0 <= row < 5 && 0 <= col < 7 && spec_key_presence(row, col) {
            Some(Coordinate { x: col as i8, y: row as i8 })
        } else {
            None
        }
    }

    open spec fn spec_center() -> Coordinate {
        Coordinate { x: 3, y: 2 }
    }

    open spec fn spec_num_leds() -> nat {
        19
    }

    open spec fn spec_led_to_coord(idx: int) -> Option<Coordinate> {
        if 0 <= idx < 19 {
            Some(spec_reversed_lookup(spec_proto_matrix(), 255, 19)[idx])
        } else {
            None
        }
    }

    fn key_to_coord(row: usize, col: usize) -> (r: Option<Coordinate>) {
        if row < ROWS && col < COLS {
            if key_presence(row, col) {
                return Some(Coordinate { x: col as i8, y: row as i8 });
            }
        }
        None
    }

    fn led_to_coord(idx: LedIndex) -> (r: Option<Coordinate>) {
        if idx < NUM_LEDS {
            let matrix = build_proto_led_matrix();
            let lookup = build_reversed_lookup(&matrix, NO_LED, NUM_LEDS);
            proof {
                let mm = matrix@.map_values(|row: Vec<u8>| row@);
                assert forall|r0: int| 0 <= r0 < 5 implies mm[r0] == spec_proto_matrix()[r0] by {
                    assert(mm[r0] == matrix@[r0]@);
                    assert forall|c0: int| 0 <= c0 < 7 implies mm[r0][c0] == spec_proto_matrix(
                    )[r0][c0] by {
                        assert(matrix@[r0]@[c0] == spec_led_matrix(r0, c0));
                    }
                    assert(mm[r0] =~= spec_proto_matrix()[r0]);
                }
                assert(mm =~= spec_proto_matrix());
            }
            Some(lookup[idx])
        } else {
            None
        }
    }

    fn coord_to_led(coord: Coordinate) -> (r: Option<LedIndex>) {
        if coord.y < 0 || coord.x < 0 {
            return None;
        }
        let row = coord.y as usize;
        let col = coord.x as usize;
        if row >= ROWS || col >= COLS {
            return None;
        }
        let led = led_matrix_at(row, col);
        if led != NO_LED {
            Some(led as usize)
        } else {
            None
        }
    }

    fn center_coord() -> (r: Coordinate) {
        Coordinate { x: 3, y: 2 }
    }

    fn coord_to_midi(coord: Coordinate) -> (r: u8) {
        coord_to_midi_for(coord, Coordinate { x: 3, y: 2 })
    }
}

} // verus!
