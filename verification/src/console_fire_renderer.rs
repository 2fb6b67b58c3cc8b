//! The terminal backend's share of the work that can be computed: turning a
//! frame of intensities into the colors the terminal cells should show.

use vstd::prelude::*;

use crate::fire_engine::FireBuffer;
use crate::fire_engine::cells_within;
use crate::fire_palette::MAX_PALETTE_ENTRIES;
use crate::fire_palette::palette_color;
use crate::fire_palette::spec_palette;

verus! {

/// Marker for the terminal-cell backend. The drawing itself is I/O and is
/// carried out by the caller; [`cell_colors`] prepares everything a terminal
/// needs per frame.
pub struct ConsoleFireRenderer;

impl ConsoleFireRenderer {
    pub fn new() -> ConsoleFireRenderer {
        ConsoleFireRenderer {  }
    }
}

/// The color every terminal cell should show for one frame, in the same
/// row-major order as the grid: cell `i` gets the palette entry of the
/// intensity at `i`.
pub fn cell_colors(buffer: &FireBuffer) -> (colors: Vec<(u8, u8, u8)>)
    requires
        cells_within(buffer.buffer@, MAX_PALETTE_ENTRIES - 1),
    ensures
        colors@.len() == buffer.buffer@.len(),
        forall|i: int|
            0 <= i < colors@.len() ==> colors@[i] == spec_palette(buffer.buffer@[i] as int),
{
    let n = buffer.buffer.len();
    let mut colors: Vec<(u8, u8, u8)> = Vec::new();
    let mut i: usize = 0;
    while i < n
        invariant
            n == buffer.buffer@.len(),
            cells_within(buffer.buffer@, MAX_PALETTE_ENTRIES - 1),
            i <= n,
            colors@.len() == i,
            forall|j: int|
                0 <= j < i ==> colors@[j] == spec_palette(buffer.buffer@[j] as int),
        decreases n - i,
    {
        let pixel = buffer.buffer[i];
        colors.push(palette_color(pixel as usize));
        i = i + 1;
    }
    colors
}

} // verus!
