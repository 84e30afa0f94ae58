//! Lattice coordinates and the interface a board layout provides.

use vstd::prelude::*;

verus! {

/// X and Y coordinates on the square key grid.
///
/// Going one step to the right (x + 1) is a major second (2 fifths, down an
/// octave).  Going one step up (y + 1) is an ascending perfect fourth
/// (-1 fifth, up an octave).
#[derive(Debug, Clone, Copy, PartialEq, Eq, Structural)]
pub struct Coordinate {
    pub x: i8,
    pub y: i8,
}

/// Logical index of an LED on the strip.
pub type LedIndex = usize;

/// A generic MIDI note for a coordinate: the center maps to middle C (60),
/// one step right adds a major second, one step up subtracts a fourth,
/// clamped to the valid note range.
pub open spec fn spec_coord_to_midi(coord: Coordinate, center: Coordinate) -> int {
    let note = 60 + 2 * (coord.x - center.x) - 5 * (coord.y - center.y);
    if note < 0 {
        0
    } else if note > 127 {
        127
    } else {
        note
    }
}

/// The interface that every board variant implements, decoupling the
/// physical hardware (matrix rows/columns, LED indices) from the logical
/// musical representation.
pub trait Layout {
    /// The lattice coordinate of a physical key position, if a key exists
    /// there.
    spec fn spec_key_to_coord(row: int, col: int) -> Option<Coordinate>;

    /// The coordinate that corresponds to middle C (MIDI 60).
    spec fn spec_center() -> Coordinate;

    /// How many LEDs the board carries.
    spec fn spec_num_leds() -> nat;

    /// The lattice coordinate shown for an LED index.
    spec fn spec_led_to_coord(idx: int) -> Option<Coordinate>;

    /// Convert physical matrix coordinates to a logical lattice coordinate.
    fn key_to_coord(row: usize, col: usize) -> (r: Option<Coordinate>)
        ensures
            r == Self::spec_key_to_coord(row as int, col as int),
    ;

    /// Convert a physical LED index to a logical lattice coordinate.
    fn led_to_coord(idx: LedIndex) -> (r: Option<Coordinate>)
        ensures
            r == Self::spec_led_to_coord(idx as int),
            r is Some <==> idx < Self::spec_num_leds(),
    ;

    /// Convert a logical lattice coordinate to a physical LED index.
    fn coord_to_led(coord: Coordinate) -> (r: Option<LedIndex>)
        ensures
            r matches Some(i) ==> i < Self::spec_num_leds(),
    ;

    /// Returns the logical coordinate that corresponds to middle C.
    fn center_coord() -> (r: Coordinate)
        ensures
            r == Self::spec_center(),
    ;

    /// Convert a coordinate to a generic MIDI pitch (0-127), mapping the
    /// center coordinate to 60.
    fn coord_to_midi(coord: Coordinate) -> (r: u8)
        ensures
            r == spec_coord_to_midi(coord, Self::spec_center()),
    ;
}

/// Computes the generic MIDI note of a coordinate relative to a center;
/// board layouts share this as the body of their `coord_to_midi`.
pub fn coord_to_midi_for(coord: Coordinate, center: Coordinate) -> (r: u8)
    ensures
        r == spec_coord_to_midi(coord, center),
{
    let dx: i16 = coord.x as i16 - center.x as i16;
    let dy: i16 = coord.y as i16 - center.y as i16;
    let note: i16 = 60 + dx * 2 - dy * 5;
    if note < 0 {
        0
    } else if note > 127 {
        127
    } else {
        note as u8
    }
}

/// Whether the coordinate stored for LED `idx` comes from a matrix cell
/// that maps to that index.
pub open spec fn spec_reverse_entry_from_matrix(
    matrix: Seq<Seq<u8>>,
    no_led: u8,
    idx: int,
    co: Coordinate,
) -> bool {
    exists|r: int, c: int|
        0 <= r < matrix.len() && 0 <= c < matrix[r].len() && #[trigger] matrix[r][c] != no_led
            && matrix[r][c] == idx && co == (Coordinate { x: c as i8, y: r as i8 })
}

/// One cell's write into the reverse lookup: a matrix value that names a
/// valid LED index stores the cell's grid position there.
pub open spec fn spec_reverse_cell(
    lookup: Seq<Coordinate>,
    matrix: Seq<Seq<u8>>,
    no_led: u8,
    r: int,
    c: int,
) -> Seq<Coordinate> {
    let v = matrix[r][c];
    if v != no_led && v < lookup.len() {
        lookup.update(v as int, Coordinate { x: c as i8, y: r as i8 })
    } else {
        lookup
    }
}

/// The reverse lookup after the first `c_count` cells of row `r`.
pub open spec fn spec_reverse_fill_row(
    lookup: Seq<Coordinate>,
    matrix: Seq<Seq<u8>>,
    no_led: u8,
    r: int,
    c_count: int,
) -> Seq<Coordinate>
    decreases c_count,
{
    if c_count <= 0 {
        lookup
    } else {
        spec_reverse_cell(
            spec_reverse_fill_row(lookup, matrix, no_led, r, c_count - 1),
            matrix,
            no_led,
            r,
            c_count - 1,
        )
    }
}

/// The reverse lookup after the first `r_count` whole rows.
pub open spec fn spec_reverse_fill(
    lookup: Seq<Coordinate>,
    matrix: Seq<Seq<u8>>,
    no_led: u8,
    r_count: int,
) -> Seq<Coordinate>
    decreases r_count,
{
    if r_count <= 0 {
        lookup
    } else {
        spec_reverse_fill_row(
            spec_reverse_fill(lookup, matrix, no_led, r_count - 1),
            matrix,
            no_led,
            r_count - 1,
            matrix[r_count - 1].len() as int,
        )
    }
}

/// The reverse lookup table of a whole matrix: `num_leds` default entries
/// of (0, 0), overwritten cell by cell in row-major order.
pub open spec fn spec_reversed_lookup(
    matrix: Seq<Seq<u8>>,
    no_led: u8,
    num_leds: int,
) -> Seq<Coordinate> {
    spec_reverse_fill(
        Seq::new(num_leds as nat, |i: int| Coordinate { x: 0, y: 0 }),
        matrix,
        no_led,
        matrix.len() as int,
    )
}

/// Builds a reverse lookup table from an LED matrix: entry `idx` holds the
/// grid position of the cell whose matrix value is `idx`, and positions
/// that no cell names keep the default coordinate (0, 0).
pub fn build_reversed_lookup(matrix: &Vec<Vec<u8>>, no_led: u8, num_leds: usize) -> (lookup: Vec<
    Coordinate,
>)
    requires
        matrix@.len() < 128,
        forall|r: int| 0 <= r < matrix@.len() ==> (#[trigger] matrix@[r]).len() < 128,
    ensures
        lookup@.len() == num_leds,
        lookup@ == spec_reversed_lookup(
            matrix@.map_values(|row: Vec<u8>| row@),
            no_led,
            num_leds as int,
        ),
        forall|idx: int|
            0 <= idx < num_leds ==> spec_reverse_entry_from_matrix(
                matrix@.map_values(|row: Vec<u8>| row@),
                no_led,
                idx,
                #[trigger] lookup@[idx],
            ) || lookup@[idx] == (Coordinate { x: 0, y: 0 }),
{
    let ghost m: Seq<Seq<u8>> = matrix@.map_values(|row: Vec<u8>| row@);
    let ghost init: Seq<Coordinate> = Seq::new(num_leds as nat, |i: int| (Coordinate { x: 0, y: 0 }));
    let mut lookup: Vec<Coordinate> = Vec::new();
    let mut k: usize = 0;
    while k < num_leds
        invariant
            lookup@.len() == k,
            k <= num_leds,
            forall|idx: int| 0 <= idx < k ==> #[trigger] lookup@[idx] == (Coordinate { x: 0, y: 0 }),
        decreases num_leds - k,
    {
        lookup.push(Coordinate { x: 0, y: 0 });
        k = k + 1;
    }
    proof {
        assert(lookup@ =~= init);
    }
    let mut r: usize = 0;
    while r < matrix.len()
        invariant
            m == matrix@.map_values(|row: Vec<u8>| row@),
            matrix@.len() < 128,
            forall|i: int| 0 <= i < matrix@.len() ==> (#[trigger] matrix@[i]).len() < 128,
            r <= matrix.len(),
            lookup@.len() == num_leds,
            lookup@ == spec_reverse_fill(init, m, no_led, r as int),
            forall|idx: int|
                0 <= idx < num_leds ==> spec_reverse_entry_from_matrix(
                    m,
                    no_led,
                    idx,
                    #[trigger] lookup@[idx],
                ) || lookup@[idx] == (Coordinate { x: 0, y: 0 }),
        decreases matrix.len() - r,
    {
        let row = &matrix[r];
        let mut c: usize = 0;
        while c < row.len()
            invariant
                m == matrix@.map_values(|row_: Vec<u8>| row_@),
                matrix@.len() < 128,
                forall|i: int| 0 <= i < matrix@.len() ==> (#[trigger] matrix@[i]).len() < 128,
                r < matrix@.len(),
                row == &matrix[r as int],
                c <= row.len(),
                lookup@.len() == num_leds,
                lookup@ == spec_reverse_fill_row(
                    spec_reverse_fill(init, m, no_led, r as int),
                    m,
                    no_led,
                    r as int,
                    c as int,
                ),
                forall|idx: int|
                    0 <= idx < num_leds ==> spec_reverse_entry_from_matrix(
                        m,
                        no_led,
                        idx,
                        #[trigger] lookup@[idx],
                    ) || lookup@[idx] == (Coordinate { x: 0, y: 0 }),
            decreases row.len() - c,
        {
            let led_idx = row[c];
            proof {
                assert(m[r as int][c as int] == led_idx);
            }
            if led_idx != no_led {
                let idx = led_idx as usize;
                if idx < num_leds {
                    let co = Coordinate { x: c as i8, y: r as i8 };
                    lookup[idx] = co;
                    proof {
                        assert(spec_reverse_entry_from_matrix(m, no_led, idx as int, co));
                    }
                }
            }
            c = c + 1;
        }
        r = r + 1;
    }
    proof {
        assert(m.len() == matrix@.len());
    }
    lookup
}

} // verus!
