//! The fire simulation core: a flat intensity grid and the step rule that
//! diffuses heat upward with a random rightward drift and decay.

use vstd::prelude::*;

use crate::fire_palette::MAX_PALETTE_ENTRIES;

verus! {

/// One application of the spread rule at source cell `pos` with decay draw
/// `decay`. An extinguished source (intensity at most 0) writes a 0 to the
/// cell directly above. A burning source writes its intensity, lowered by
/// the parity of the draw, one row up and one column to the right, shifted
/// left by the draw — unless that destination would fall before the start
/// of the grid, in which case the write is skipped.
pub open spec fn spread_spec(cells: Seq<i32>, width: int, pos: int, decay: int) -> Seq<i32>
    recommends
        1 <= width <= pos < cells.len(),
        0 <= decay,
{
    let pixel = cells[pos];
    if pixel <= 0 {
        cells.update(pos - width, 0)
    } else if pos - width + 1 - decay >= 0 {
        cells.update(pos - width + 1 - decay, (pixel - decay % 2) as i32)
    } else {
        cells
    }
}

/// Source position of the `k`-th spread within one step: columns are walked
/// outermost, rows 1 to height - 1 innermost, so `k = x * (height - 1) + (y - 1)`.
pub open spec fn step_order_pos(width: int, height: int, k: int) -> int
    recommends
        width >= 1,
        height >= 2,
        0 <= k < width * (height - 1),
{
    let x = k / (height - 1);
    let y = 1 + k % (height - 1);
    y * width + x
}

/// The grid after the first `k` spreads of one step, the `k`-th spread
/// consuming the `k`-th decay draw.
pub open spec fn step_spec(
    cells: Seq<i32>,
    width: int,
    height: int,
    decays: Seq<usize>,
    k: int,
) -> Seq<i32>
    recommends
        width >= 1,
        height >= 1,
        cells.len() == width * height,
        0 <= k <= decays.len(),
        k <= width * (height - 1),
    decreases k,
{
    if k <= 0 {
        cells
    } else {
        spread_spec(
            step_spec(cells, width, height, decays, k - 1),
            width,
            step_order_pos(width, height, k - 1),
            decays[k - 1] as int,
        )
    }
}

/// Every intensity lies in [0, hi].
pub open spec fn cells_within(cells: Seq<i32>, hi: int) -> bool {
    forall|i: int| 0 <= i < cells.len() ==> 0 <= #[trigger] cells[i] <= hi
}

/// The bottom (ignition) row reads `v` in every column.
pub open spec fn ignition_row_is(cells: Seq<i32>, width: int, v: i32) -> bool {
    forall|j: int| cells.len() - width <= j < cells.len() ==> #[trigger] cells[j] == v
}

/// A width × height grid of fire intensities, stored row-major: the cell at
/// column `x`, row `y` is `buffer[y * width + x]`. Row 0 is the top of the
/// flame; the bottom row is the ignition source.
pub struct FireBuffer {
    pub height: usize,
    pub width: usize,
    pub buffer: Vec<i32>,
}

/// The display capability the simulation needs: a renderer presents a frame
/// and may report a backend-specific exit signal. Rendering must not touch
/// the buffer, which the shared borrow already guarantees.
pub trait FireRenderer {
    fn render(&mut self, buffer: &FireBuffer);

    fn poll_for_exit(&self) -> bool {
        false
    }
}

impl FireBuffer {
    /// Well-formedness: positive dimensions and exactly one cell per (x, y).
    pub open spec fn wf(&self) -> bool {
        &&& self.width >= 1
        &&& self.height >= 1
        &&& self.buffer@.len() == self.width * self.height
    }

    /// First index of the bottom (ignition) row.
    pub open spec fn ignition_row_start(&self) -> int {
        self.width * (self.height - 1)
    }

    /// Sets every cell of the bottom row to `ignition_value` and leaves the
    /// rest of the grid untouched.
    pub fn initialise_buffer(&mut self, ignition_value: i32)
        requires
            old(self).wf(),
        ensures
            final(self).wf(),
            final(self).width == old(self).width,
            final(self).height == old(self).height,
            forall|i: int|
                0 <= i < old(self).ignition_row_start()
                    ==> final(self).buffer@[i] == old(self).buffer@[i],
            forall|i: int|
                old(self).ignition_row_start() <= i < final(self).buffer@.len()
                    ==> final(self).buffer@[i] == ignition_value,
    {
        let n = self.buffer.len();
        proof {
            vstd::arithmetic::mul::lemma_mul_inequality(
                (self.height - 1) as int,
                self.height as int,
                self.width as int,
            );
        }
        let final_row_index = self.width * (self.height - 1);
        let mut i: usize = final_row_index;
        while i < n
            invariant
                n == self.buffer@.len(),
                final_row_index <= i <= self.buffer@.len(),
                final_row_index == old(self).width * (old(self).height - 1),
                self.width == old(self).width,
                self.height == old(self).height,
                self.buffer@.len() == old(self).buffer@.len(),
                forall|j: int| 0 <= j < final_row_index ==> self.buffer@[j] == old(self).buffer@[j],
                forall|j: int| final_row_index <= j < i ==> self.buffer@[j] == ignition_value,
            decreases self.buffer@.len() - i,
        {
            self.buffer.set(i, ignition_value);
            i = i + 1;
        }
    }

    /// Applies the spread rule once at `source_position` with the given
    /// decay draw, exactly as [`spread_spec`] describes.
    pub fn spread_fire(&mut self, source_position: usize, decay: usize)
        requires
            old(self).wf(),
            old(self).width <= source_position < old(self).buffer@.len(),
            decay < 3,
        ensures
            final(self).wf(),
            final(self).width == old(self).width,
            final(self).height == old(self).height,
            final(self).buffer@ == spread_spec(
                old(self).buffer@,
                old(self).width as int,
                source_position as int,
                decay as int,
            ),
    {
        let pixel = self.buffer[source_position];
        if pixel <= 0 {
            self.buffer.set(source_position - self.width, 0);
        } else {
            let above_right = source_position - self.width + 1;
            if above_right >= decay {
                let destination_position = above_right - decay;
                self.buffer.set(destination_position, pixel - (decay as i32 % 2));
            }
        }
    }

    /// Advances the simulation one frame with an explicit sequence of decay
    /// draws, one per spread, in processing order. The resulting grid is
    /// exactly [`step_spec`] of the old grid; intensities that started in
    /// the palette range stay there.
    pub fn step_fire_with_decays(&mut self, decays: &Vec<usize>)
        requires
            old(self).wf(),
            decays@.len() == old(self).width * (old(self).height - 1),
            forall|k: int| 0 <= k < decays@.len() ==> #[trigger] decays@[k] < 3,
        ensures
            final(self).wf(),
            final(self).width == old(self).width,
            final(self).height == old(self).height,
            final(self).buffer@ == step_spec(
                old(self).buffer@,
                old(self).width as int,
                old(self).height as int,
                decays@,
                decays@.len() as int,
            ),
            cells_within(old(self).buffer@, MAX_PALETTE_ENTRIES - 1) ==> cells_within(
                final(self).buffer@,
                MAX_PALETTE_ENTRIES - 1,
            ),
            forall|v: i32|
                #[trigger] ignition_row_is(old(self).buffer@, old(self).width as int, v) && v > 0
                    ==> ignition_row_is(final(self).buffer@, old(self).width as int, v),
    {
        let width = self.width;
        let height = self.height;
        let n = self.buffer.len();
        let ghost cells0 = self.buffer@;
        let mut k: usize = 0;
        let mut x: usize = 0;
        while x < width
            invariant
                self.wf(),
                self.width == width,
                self.height == height,
                n == self.buffer@.len(),
                0 <= x <= width,
                k == x * (height - 1),
                decays@.len() == width * (height - 1),
                forall|j: int| 0 <= j < decays@.len() ==> #[trigger] decays@[j] < 3,
                self.buffer@ == step_spec(
                    cells0,
                    width as int,
                    height as int,
                    decays@,
                    k as int,
                ),
                cells0.len() == self.buffer@.len(),
            decreases width - x,
        {
            proof {
                vstd::arithmetic::mul::lemma_mul_inequality(
                    x as int + 1,
                    width as int,
                    (height - 1) as int,
                );
            }
            let mut y: usize = 1;
            while y < height
                invariant
                    self.wf(),
                    self.width == width,
                    self.height == height,
                    n == self.buffer@.len(),
                    x < width,
                    1 <= y <= height,
                    k == x * (height - 1) + (y - 1),
                    decays@.len() == width * (height - 1),
                    (x + 1) * (height - 1) <= width * (height - 1),
                    forall|j: int| 0 <= j < decays@.len() ==> #[trigger] decays@[j] < 3,
                    self.buffer@ == step_spec(
                        cells0,
                        width as int,
                        height as int,
                        decays@,
                        k as int,
                    ),
                    cells0.len() == self.buffer@.len(),
                decreases height - y,
            {
                proof {
                    assert(k < width * (height - 1)) by (nonlinear_arith)
                        requires
                            k == x * (height - 1) + (y - 1),
                            (x + 1) * (height - 1) <= width * (height - 1),
                            1 <= y < height,
                    ;
                    vstd::arithmetic::div_mod::lemma_fundamental_div_mod_converse(
                        k as int,
                        (height - 1) as int,
                        x as int,
                        (y - 1) as int,
                    );
                    vstd::arithmetic::mul::lemma_mul_inequality(
                        (height - 1) as int,
                        height as int,
                        width as int,
                    );
                    assert(y * width + x < width * height) by (nonlinear_arith)
                        requires
                            1 <= y < height,
                            x < width,
                    ;
                    assert(width <= y * width + x) by (nonlinear_arith)
                        requires
                            1 <= y,
                            0 <= x,
                            width >= 1,
                    ;
                }
                let current_position = y * width + x;
                self.spread_fire(current_position, decays[k]);
                k = k + 1;
                y = y + 1;
            }
            proof {
                assert(k == (x + 1) * (height - 1)) by (nonlinear_arith)
                    requires
                        k == x * (height - 1) + (height - 1),
                ;
            }
            x = x + 1;
        }
        proof {
            assert(k == width * (height - 1));
            if cells_within(cells0, MAX_PALETTE_ENTRIES - 1) {
                lemma_step_preserves_bounds(
                    cells0,
                    width as int,
                    height as int,
                    decays@,
                    k as int,
                    MAX_PALETTE_ENTRIES - 1,
                );
            }
            assert forall|v: i32|
                #[trigger] ignition_row_is(cells0, width as int, v) && v > 0 implies ignition_row_is(
                self.buffer@,
                width as int,
                v,
            ) by {
                lemma_step_preserves_ignition_row(
                    cells0,
                    width as int,
                    height as int,
                    decays@,
                    k as int,
                    v,
                );
            }
        }
    }

    /// Advances the simulation one frame, drawing each cell's decay
    /// uniformly from {0, 1, 2}. Whatever the draws turn out to be, the
    /// result is [`step_spec`] of the old grid under some sequence of
    /// draws below 3, so intensities that started in the palette range
    /// stay there.
    pub fn step_fire(&mut self)
        requires
            old(self).wf(),
        ensures
            final(self).wf(),
            final(self).width == old(self).width,
            final(self).height == old(self).height,
            exists|ds: Seq<usize>|
                {
                    &&& ds.len() == old(self).width * (old(self).height - 1)
                    &&& (forall|k: int| 0 <= k < ds.len() ==> #[trigger] ds[k] < 3)
                    &&& final(self).buffer@ == step_spec(
                        old(self).buffer@,
                        old(self).width as int,
                        old(self).height as int,
                        ds,
                        ds.len() as int,
                    )
                },
            cells_within(old(self).buffer@, MAX_PALETTE_ENTRIES - 1) ==> cells_within(
                final(self).buffer@,
                MAX_PALETTE_ENTRIES - 1,
            ),
            forall|v: i32|
                #[trigger] ignition_row_is(old(self).buffer@, old(self).width as int, v) && v > 0
                    ==> ignition_row_is(final(self).buffer@, old(self).width as int, v),
    {
        let n = self.buffer.len();
        proof {
            assert(n - self.width == self.width * (self.height - 1)) by (nonlinear_arith)
                requires
                    n == self.width * self.height,
                    self.width >= 1,
                    self.height >= 1,
            ;
        }
        let count = n - self.width;
        let mut draws: Vec<usize> = Vec::new();
        while draws.len() < count
            invariant
                draws@.len() <= count,
                forall|k: int| 0 <= k < draws@.len() ==> #[trigger] draws@[k] < 3,
            decreases count - draws@.len(),
        {
            let r: usize = rand::random();
            draws.push(r % 3);
        }
        self.step_fire_with_decays(&draws);
        proof {
            let ds = draws@;
            assert(ds.len() == old(self).width * (old(self).height - 1) && (forall|k: int|
                0 <= k < ds.len() ==> #[trigger] ds[k] < 3) && self.buffer@ == step_spec(
                old(self).buffer@,
                old(self).width as int,
                old(self).height as int,
                ds,
                ds.len() as int,
            ));
        }
    }
}

/// Relies on rand::random: draws a value of the requested type from the
/// thread-local generator. Nothing is promised of the value; every caller
/// must cope with any result.
pub assume_specification<T>[ rand::random::<T> ]() -> (r: T)
    where
        rand::distributions::Standard: rand::distributions::Distribution<T>,
;

/// Law: the source position of the `k`-th spread lies strictly above the
/// bottom row's start and within the grid.
pub proof fn lemma_step_order_pos_in_range(width: int, height: int, k: int)
    requires
        width >= 1,
        height >= 1,
        0 <= k < width * (height - 1),
    ensures
        width <= step_order_pos(width, height, k) < width * height,
{
    assert(height >= 2) by (nonlinear_arith)
        requires
            width >= 1,
            height >= 1,
            0 <= k < width * (height - 1),
    ;
    let x = k / (height - 1);
    let y = 1 + k % (height - 1);
    vstd::arithmetic::div_mod::lemma_mod_bound(k, height - 1);
    vstd::arithmetic::div_mod::lemma_fundamental_div_mod(k, height - 1);
    assert(0 <= x < width) by (nonlinear_arith)
        requires
            height >= 2,
            k == (height - 1) * x + k % (height - 1),
            0 <= k % (height - 1) < height - 1,
            0 <= k < width * (height - 1),
    ;
    assert(width <= y * width + x < width * height) by (nonlinear_arith)
        requires
            1 <= y <= height - 1,
            0 <= x < width,
            width >= 1,
    ;
}

/// Law (monotonic extinguishing): when the source cell reads at most 0,
/// the spread writes a 0 to the cell directly above it, whatever the decay
/// draw, and leaves every other cell untouched.
pub proof fn lemma_monotonic_extinguishing(cells: Seq<i32>, width: int, pos: int, decay: int)
    requires
        1 <= width <= pos < cells.len(),
        cells[pos] <= 0,
    ensures
        spread_spec(cells, width, pos, decay)[pos - width] == 0,
        forall|j: int|
            0 <= j < cells.len() && j != pos - width ==> spread_spec(cells, width, pos, decay)[j]
                == cells[j],
{
}

/// Law (decay parity): when the source cell burns and the destination does
/// not fall off the left edge of the grid, the destination — one row up,
/// one column right, shifted left by the draw — receives exactly the
/// source intensity minus the draw's parity: draws 0 and 2 carry the
/// intensity unchanged, draw 1 lowers it by one. No other cell moves.
pub proof fn lemma_decay_parity(cells: Seq<i32>, width: int, pos: int, decay: int)
    requires
        1 <= width <= pos < cells.len(),
        cells[pos] > 0,
        0 <= decay,
        pos - width + 1 - decay >= 0,
    ensures
        spread_spec(cells, width, pos, decay)[pos - width + 1 - decay] == cells[pos] - decay % 2,
        decay == 0 || decay == 2 ==> spread_spec(cells, width, pos, decay)[pos - width + 1 - decay]
            == cells[pos],
        decay == 1 ==> spread_spec(cells, width, pos, decay)[pos - width + 1 - decay] == cells[pos]
            - 1,
        forall|j: int|
            0 <= j < cells.len() && j != pos - width + 1 - decay ==> spread_spec(
                cells,
                width,
                pos,
                decay,
            )[j] == cells[j],
{
}

/// Law (left-edge clipping): for a burning cell in column 0, a draw of 2
/// either skips the write entirely (in row 1, where the destination would
/// fall before the start of the grid) or misses the row above altogether,
/// and a draw of 1 reaches only column 0 of the row above, lowered by one;
/// in both cases no cell of the row above at a negative column offset is
/// ever written.
pub proof fn lemma_left_edge_clipping(cells: Seq<i32>, width: int, pos: int, decay: int)
    requires
        1 <= width <= pos < cells.len(),
        pos % width == 0,
        cells[pos] > 0,
        1 <= decay <= 2,
    ensures
        pos - width + 1 - decay < 0 ==> spread_spec(cells, width, pos, decay) == cells,
        forall|j: int|
            pos - width <= j < pos ==> spread_spec(cells, width, pos, decay)[j] == (if decay == 1
                && j == pos - width {
                (cells[pos] - 1) as i32
            } else {
                cells[j]
            }),
{
    if pos - width + 1 - decay >= 0 && decay == 2 {
        assert(pos - width - 1 < pos - width);
    }
}

/// Law (ignition source, single spread): a burning, uniform bottom row is
/// never changed by a spread. The one write that can land in it — from the
/// grid's last cell with a draw of 0 — copies the row's own value back.
pub proof fn lemma_spread_preserves_ignition_row(
    cells: Seq<i32>,
    width: int,
    pos: int,
    decay: int,
    v: i32,
)
    requires
        1 <= width <= pos < cells.len(),
        0 <= decay,
        v > 0,
        ignition_row_is(cells, width, v),
    ensures
        spread_spec(cells, width, pos, decay).len() == cells.len(),
        ignition_row_is(spread_spec(cells, width, pos, decay), width, v),
{
}

/// Law (ignition source): a whole step leaves a burning, uniform bottom
/// row exactly as it was; the diffusion never erodes its own fuel.
pub proof fn lemma_step_preserves_ignition_row(
    cells: Seq<i32>,
    width: int,
    height: int,
    decays: Seq<usize>,
    k: int,
    v: i32,
)
    requires
        width >= 1,
        height >= 1,
        cells.len() == width * height,
        0 <= k <= decays.len(),
        k <= width * (height - 1),
        v > 0,
        ignition_row_is(cells, width, v),
    ensures
        step_spec(cells, width, height, decays, k).len() == cells.len(),
        ignition_row_is(step_spec(cells, width, height, decays, k), width, v),
    decreases k,
{
    if k > 0 {
        lemma_step_preserves_ignition_row(cells, width, height, decays, k - 1, v);
        lemma_step_order_pos_in_range(width, height, k - 1);
        lemma_spread_preserves_ignition_row(
            step_spec(cells, width, height, decays, k - 1),
            width,
            step_order_pos(width, height, k - 1),
            decays[k - 1] as int,
            v,
        );
    }
}

/// Law (bounds preservation, single spread): a spread never writes an
/// intensity outside [0, hi] when every intensity already lies there.
pub proof fn lemma_spread_preserves_bounds(
    cells: Seq<i32>,
    width: int,
    pos: int,
    decay: int,
    hi: int,
)
    requires
        1 <= width <= pos < cells.len(),
        0 <= decay,
        0 <= hi,
        cells_within(cells, hi),
    ensures
        spread_spec(cells, width, pos, decay).len() == cells.len(),
        cells_within(spread_spec(cells, width, pos, decay), hi),
{
}

/// Law (bounds invariant): a whole step keeps every intensity within
/// [0, hi]; in particular intensities never leave the palette range and no
/// cell is ever driven negative.
pub proof fn lemma_step_preserves_bounds(
    cells: Seq<i32>,
    width: int,
    height: int,
    decays: Seq<usize>,
    k: int,
    hi: int,
)
    requires
        width >= 1,
        height >= 1,
        cells.len() == width * height,
        0 <= k <= decays.len(),
        k <= width * (height - 1),
        0 <= hi,
        cells_within(cells, hi),
    ensures
        step_spec(cells, width, height, decays, k).len() == cells.len(),
        cells_within(step_spec(cells, width, height, decays, k), hi),
    decreases k,
{
    if k > 0 {
        lemma_step_preserves_bounds(cells, width, height, decays, k - 1, hi);
        lemma_step_order_pos_in_range(width, height, k - 1);
        lemma_spread_preserves_bounds(
            step_spec(cells, width, height, decays, k - 1),
            width,
            step_order_pos(width, height, k - 1),
            decays[k - 1] as int,
            hi,
        );
    }
}

} // verus!
