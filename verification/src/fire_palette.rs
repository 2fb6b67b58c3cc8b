//! The fixed color lookup table: one (R, G, B) triple for every possible
//! intensity, from near-black smoke at 0 up to white-hot at the maximum.

use vstd::prelude::*;

use crate::fire_engine::FireBuffer;
use crate::fire_engine::cells_within;

verus! {

/// Number of palette entries; intensities range over `0 .. MAX_PALETTE_ENTRIES`.
pub const MAX_PALETTE_ENTRIES: usize = 37;

/// The palette as a mathematical lookup: the (R, G, B) triple shown for
/// intensity `i`. Intensities outside the palette map to black.
pub open spec fn spec_palette(i: int) -> (u8, u8, u8) {
    if i == 0 {
        (7u8, 7u8, 7u8)
    } else if i == 1 {
        (31u8, 7u8, 7u8)
    } else if i == 2 {
        (47u8, 15u8, 7u8)
    } else if i == 3 {
        (71u8, 15u8, 7u8)
    } else if i == 4 {
        (87u8, 23u8, 7u8)
    } else if i == 5 {
        (103u8, 31u8, 7u8)
    } else if i == 6 {
        (119u8, 31u8, 7u8)
    } else if i == 7 {
        (143u8, 39u8, 7u8)
    } else if i == 8 {
        (159u8, 47u8, 7u8)
    } else if i == 9 {
        (175u8, 63u8, 7u8)
    } else if i == 10 {
        (191u8, 71u8, 7u8)
    } else if i == 11 {
        (199u8, 71u8, 7u8)
    } else if i == 12 {
        (223u8, 79u8, 7u8)
    } else if i == 13 {
        (223u8, 87u8, 7u8)
    } else if i == 14 {
        (223u8, 87u8, 7u8)
    } else if i == 15 {
        (215u8, 95u8, 7u8)
    } else if i == 16 {
        (215u8, 95u8, 7u8)
    } else if i == 17 {
        (215u8, 103u8, 15u8)
    } else if i == 18 {
        (207u8, 111u8, 15u8)
    } else if i == 19 {
        (207u8, 119u8, 15u8)
    } else if i == 20 {
        (207u8, 127u8, 15u8)
    } else if i == 21 {
        (207u8, 135u8, 23u8)
    } else if i == 22 {
        (199u8, 135u8, 23u8)
    } else if i == 23 {
        (199u8, 143u8, 23u8)
    } else if i == 24 {
        (199u8, 151u8, 31u8)
    } else if i == 25 {
        (191u8, 159u8, 31u8)
    } else if i == 26 {
        (191u8, 159u8, 31u8)
    } else if i == 27 {
        (191u8, 167u8, 39u8)
    } else if i == 28 {
        (191u8, 167u8, 39u8)
    } else if i == 29 {
        (191u8, 175u8, 47u8)
    } else if i == 30 {
        (183u8, 175u8, 47u8)
    } else if i == 31 {
        (183u8, 183u8, 47u8)
    } else if i == 32 {
        (183u8, 183u8, 55u8)
    } else if i == 33 {
        (207u8, 207u8, 111u8)
    } else if i == 34 {
        (223u8, 223u8, 159u8)
    } else if i == 35 {
        (239u8, 239u8, 199u8)
    } else if i == 36 {
        (255u8, 255u8, 255u8)
    } else {
        (0u8, 0u8, 0u8)
    }
}

/// Looks an intensity up in the palette.
pub fn palette_color(intensity: usize) -> (c: (u8, u8, u8))
    requires
        intensity < MAX_PALETTE_ENTRIES,
    ensures
        c == spec_palette(intensity as int),
{
    match intensity {
        0 => (7u8, 7u8, 7u8),
        1 => (31u8, 7u8, 7u8),
        2 => (47u8, 15u8, 7u8),
        3 => (71u8, 15u8, 7u8),
        4 => (87u8, 23u8, 7u8),
        5 => (103u8, 31u8, 7u8),
        6 => (119u8, 31u8, 7u8),
        7 => (143u8, 39u8, 7u8),
        8 => (159u8, 47u8, 7u8),
        9 => (175u8, 63u8, 7u8),
        10 => (191u8, 71u8, 7u8),
        11 => (199u8, 71u8, 7u8),
        12 => (223u8, 79u8, 7u8),
        13 => (223u8, 87u8, 7u8),
        14 => (223u8, 87u8, 7u8),
        15 => (215u8, 95u8, 7u8),
        16 => (215u8, 95u8, 7u8),
        17 => (215u8, 103u8, 15u8),
        18 => (207u8, 111u8, 15u8),
        19 => (207u8, 119u8, 15u8),
        20 => (207u8, 127u8, 15u8),
        21 => (207u8, 135u8, 23u8),
        22 => (199u8, 135u8, 23u8),
        23 => (199u8, 143u8, 23u8),
        24 => (199u8, 151u8, 31u8),
        25 => (191u8, 159u8, 31u8),
        26 => (191u8, 159u8, 31u8),
        27 => (191u8, 167u8, 39u8),
        28 => (191u8, 167u8, 39u8),
        29 => (191u8, 175u8, 47u8),
        30 => (183u8, 175u8, 47u8),
        31 => (183u8, 183u8, 47u8),
        32 => (183u8, 183u8, 55u8),
        33 => (207u8, 207u8, 111u8),
        34 => (223u8, 223u8, 159u8),
        35 => (239u8, 239u8, 199u8),
        36 => (255u8, 255u8, 255u8),
        _ => (0u8, 0u8, 0u8),
    }
}

/// The four bytes of cell `i` in a packed 32-bit-per-pixel frame hold the
/// palette entry of the intensity at `i`, ordered blue, green, red, with
/// the fourth byte left at 0.
pub open spec fn bgra_cell(bytes: Seq<u8>, cells: Seq<i32>, i: int) -> bool {
    let (r, g, b) = spec_palette(cells[i] as int);
    &&& bytes[4 * i] == b
    &&& bytes[4 * i + 1] == g
    &&& bytes[4 * i + 2] == r
    &&& bytes[4 * i + 3] == 0u8
}

/// Packs one frame into a byte buffer for a 32-bit-per-pixel canvas: cell
/// `i` occupies bytes `4 * i ..`, ordered blue, green, red, with the fourth
/// byte left at 0.
pub fn bgra_bytes(buffer: &FireBuffer) -> (bytes: Vec<u8>)
    requires
        cells_within(buffer.buffer@, MAX_PALETTE_ENTRIES - 1),
    ensures
        bytes@.len() == 4 * buffer.buffer@.len(),
        forall|i: int|
            0 <= i < buffer.buffer@.len() ==> #[trigger] bgra_cell(bytes@, buffer.buffer@, i),
{
    let n = buffer.buffer.len();
    let mut bytes: Vec<u8> = Vec::new();
    let mut i: usize = 0;
    while i < n
        invariant
            n == buffer.buffer@.len(),
            cells_within(buffer.buffer@, MAX_PALETTE_ENTRIES - 1),
            i <= n,
            bytes@.len() == 4 * i,
            forall|j: int| 0 <= j < i ==> #[trigger] bgra_cell(bytes@, buffer.buffer@, j),
        decreases n - i,
    {
        let ghost bytes_pre = bytes@;
        let pixel = buffer.buffer[i];
        let (r, g, b) = palette_color(pixel as usize);
        bytes.push(b);
        bytes.push(g);
        bytes.push(r);
        bytes.push(0u8);
        proof {
            assert forall|j: int| 0 <= j <= i as int implies #[trigger] bgra_cell(
                bytes@,
                buffer.buffer@,
                j,
            ) by {
                if j < i as int {
                    assert(bgra_cell(bytes_pre, buffer.buffer@, j));
                }
            }
        }
        i = i + 1;
    }
    bytes
}

} // verus!
