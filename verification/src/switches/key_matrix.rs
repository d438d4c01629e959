use vstd::arithmetic::div_mod::lemma_div_is_ordered;
use vstd::prelude::*;

use super::buffer::{edge_step, next_count, next_pressed, Buffer};
use super::kalman_filter::{
    spec_gain, spec_next_mu, spec_next_sigma, KalmanFilter, FRAC_ONE, MU_MAX,
};
use super::switch_identifier::SwitchIdentifier;

verus! {

// The scanning engine.  One scan pass walks the matrix column-major (the
// multiplexer address is set once per column), feeds every cell's raw ADC
// sample through that cell's Kalman filter and debounce buffer, refreshes
// the published value grid, and collects the newly-pressed identifiers into
// a bounded list of at most 12 (the report limit).
//
// The matrix hardware itself (drive lines, multiplexer, ADC) lives with the
// caller, which performs the timed sweep and hands the raw samples in; the
// settle times and the address encoding it must use are fixed here.

/// Press threshold, in Q16.16: a cell whose filtered level exceeds this is
/// counted as touched (40.0 in the units of the 12-bit ADC value).
pub const THRESHOLD: u64 = 40 * FRAC_ONE;

/// Measurement-noise variance of every cell's filter (2.0 in Q16.16).
pub const STATE_SIGMA: u64 = 2 * FRAC_ONE;

/// Process-noise variance of every cell's filter (10.0 in Q16.16).
pub const NOISE_SIGMA: u64 = 10 * FRAC_ONE;

/// Most identifiers one scan may report.
pub const MAX_KEYS: usize = 12;

/// Settle time after changing the multiplexer address, in microseconds.
pub const MUX_SETTLE_US: u16 = 10;

/// Settle time with the charge/reset line held low, in microseconds.
pub const CHARGE_SETTLE_US: u16 = 40;

/// Settle time around the ADC read after driving a row, in microseconds.
pub const READ_SETTLE_US: u16 = 8;

/// Settle time after restoring the row and charge lines, in microseconds.
pub const ROW_RESTORE_SETTLE_US: u16 = 5;

/// The multiplexer address line `sel` for column `col`: bit `sel` of the
/// binary encoding of the column index.
pub fn mux_select_bit(col: usize, sel: usize) -> (r: bool)
    requires
        sel < 32,
    ensures
        r == (col & (1usize << sel) != 0),
{
    col & (1usize << sel) != 0
}

#[verifier::external_type_specification]
#[verifier::external_body]
#[verifier::reject_recursive_types(T)]
pub struct ExHeaplessVec<T, const N: usize>(heapless::Vec<T, N>);

/// The identifiers a key list holds, oldest first, each as (row, column).
pub uninterp spec fn key_list_ids(v: heapless::Vec<SwitchIdentifier, 12>) -> Seq<(u8, u8)>;

/// Relies on heapless::Vec::new: a freshly constructed vector is empty.
#[verifier::external_body]
fn key_list_new() -> (v: heapless::Vec<SwitchIdentifier, 12>)
    ensures
        key_list_ids(v) == Seq::<(u8, u8)>::empty(),
{
    heapless::Vec::new()
}

/// Relies on heapless::Vec::push: appends the item while the vector is
/// below its capacity of 12, and otherwise hands the item back and leaves
/// the vector unchanged.
#[verifier::external_body]
fn key_list_push(v: &mut heapless::Vec<SwitchIdentifier, 12>, id: SwitchIdentifier)
    ensures
        key_list_ids(*old(v)).len() < 12 ==> key_list_ids(*final(v)) == key_list_ids(
            *old(v),
        ).push((id.row, id.col)),
        key_list_ids(*old(v)).len() >= 12 ==> key_list_ids(*final(v)) == key_list_ids(*old(v)),
{
    let _ = v.push(id);
}

/// A fresh filter, as every cell starts out.
pub open spec fn fresh_filter() -> KalmanFilter {
    KalmanFilter { state: None, state_sigma: STATE_SIGMA, noise_sigma: NOISE_SIGMA }
}

/// A fresh debounce buffer, as every cell starts out.
pub open spec fn fresh_buffer() -> Buffer<3> {
    Buffer { count: 0, pressed: false }
}

/// The scanning engine: one filter, one buffer and one published value per
/// cell, all grids indexed row-major.
pub struct KeyMatrix {
    pub rows: usize,
    pub cols: usize,
    pub filters: Vec<KalmanFilter>,
    pub buffers: Vec<Buffer<3>>,
    pub values: Vec<u16>,
}

impl KeyMatrix {
    /// Row-major position of cell (row, col) in the grids.
    pub open spec fn spec_idx(self, row: int, col: int) -> int {
        row * self.cols + col
    }

    pub open spec fn wf(self) -> bool {
        &&& 1 <= self.rows <= 256
        &&& 1 <= self.cols <= 256
        &&& self.filters@.len() == self.rows * self.cols
        &&& self.buffers@.len() == self.rows * self.cols
        &&& self.values@.len() == self.rows * self.cols
        &&& forall|i: int| 0 <= i < self.filters@.len() ==> self.filters@[i].wf()
        &&& forall|i: int| 0 <= i < self.buffers@.len() ==> self.buffers@[i].wf()
    }

    /// The estimate cell (row, col)'s filter yields for its entry of
    /// `samples`, in Q16.16: the seed on a first observation, the Kalman
    /// update on every further one.
    pub open spec fn cell_filtered(self, samples: Seq<u16>, row: int, col: int) -> int {
        let f = self.filters@[self.spec_idx(row, col)];
        let obs_q = samples[self.spec_idx(row, col)] * (FRAC_ONE as int);
        match f.state {
            None => obs_q,
            Some(g) => spec_next_mu(
                g.mu as int,
                obs_q,
                spec_gain(g.sigma + f.noise_sigma, f.state_sigma as int),
            ),
        }
    }

    /// The variance that goes with `cell_filtered`.
    pub open spec fn cell_sigma_after(self, samples: Seq<u16>, row: int, col: int) -> int {
        let f = self.filters@[self.spec_idx(row, col)];
        match f.state {
            None => f.state_sigma as int,
            Some(g) => spec_next_sigma(g.sigma + f.noise_sigma, f.state_sigma as int),
        }
    }

    /// Whether cell (row, col)'s filtered level crosses the press threshold.
    pub open spec fn cell_above(self, samples: Seq<u16>, row: int, col: int) -> bool {
        self.cell_filtered(samples, row, col) > THRESHOLD
    }

    /// Whether cell (row, col)'s debounce buffer reports a press edge on
    /// this pass.
    pub open spec fn cell_edge(self, samples: Seq<u16>, row: int, col: int) -> bool {
        let b = self.buffers@[self.spec_idx(row, col)];
        edge_step(b.count as nat, b.pressed, 3, self.cell_above(samples, row, col))
    }

    /// The identifiers reported by the cells before position (col, row) of
    /// the column-major sweep: all of columns 0..col, then rows 0..row of
    /// column col.  The list stops growing at 12 entries.
    pub open spec fn edge_ids(self, samples: Seq<u16>, col: int, row: int) -> Seq<(u8, u8)>
        decreases col, row,
    {
        if row > 0 {
            let prev = self.edge_ids(samples, col, row - 1);
            if self.cell_edge(samples, row - 1, col) && prev.len() < 12 {
                prev.push(((row - 1) as u8, col as u8))
            } else {
                prev
            }
        } else if col > 0 {
            self.edge_ids(samples, col - 1, self.rows as int)
        } else {
            Seq::empty()
        }
    }

    /// The identifiers a full scan pass reports.
    pub open spec fn scan_ids(self, samples: Seq<u16>) -> Seq<(u8, u8)> {
        self.edge_ids(samples, self.cols as int, 0)
    }

    /// Cell (row, col) of `post` carries the outcome of feeding `samples`
    /// through `self`: the filter advanced by one Kalman step, the buffer by
    /// one debounce step on the thresholded estimate, and the published
    /// value refreshed with the estimate in whole ADC units.
    pub open spec fn cell_updated(self, post: KeyMatrix, samples: Seq<u16>, row: int, col: int) -> bool {
        let idx = self.spec_idx(row, col);
        let f0 = self.filters@[idx];
        let b0 = self.buffers@[idx];
        let f1 = post.filters@[idx];
        let b1 = post.buffers@[idx];
        &&& f1.state is Some
        &&& f1.state->Some_0.mu == self.cell_filtered(samples, row, col)
        &&& f1.state->Some_0.sigma == self.cell_sigma_after(samples, row, col)
        &&& f1.state_sigma == f0.state_sigma
        &&& f1.noise_sigma == f0.noise_sigma
        &&& b1.count == next_count(b0.count as nat, 3, self.cell_above(samples, row, col))
        &&& b1.pressed == next_pressed(
            b0.count as nat,
            b0.pressed,
            3,
            self.cell_above(samples, row, col),
        )
        &&& post.values@[idx] == self.cell_filtered(samples, row, col) / (FRAC_ONE as int)
    }

    /// Cell (row, col) of `post` still carries exactly `self`'s state.
    pub open spec fn cell_untouched(self, post: KeyMatrix, row: int, col: int) -> bool {
        let idx = self.spec_idx(row, col);
        &&& post.filters@[idx] == self.filters@[idx]
        &&& post.buffers@[idx] == self.buffers@[idx]
        &&& post.values@[idx] == self.values@[idx]
    }

    /// During a sweep that stands at (col, row): every cell before that
    /// position is updated, every cell at or after it untouched.
    pub open spec fn cell_state_ok(
        self,
        post: KeyMatrix,
        samples: Seq<u16>,
        col: int,
        row: int,
        r2: int,
        c2: int,
    ) -> bool {
        if c2 < col || (c2 == col && r2 < row) {
            self.cell_updated(post, samples, r2, c2)
        } else {
            self.cell_untouched(post, r2, c2)
        }
    }

    /// A matrix of the given dimensions, every cell's filter unseeded and
    /// every cell's buffer released, every published value zero.
    pub fn new(rows: usize, cols: usize) -> (r: KeyMatrix)
        requires
            1 <= rows <= 256,
            1 <= cols <= 256,
        ensures
            r.wf(),
            r.rows == rows,
            r.cols == cols,
            forall|i: int| 0 <= i < r.filters@.len() ==> r.filters@[i] == fresh_filter(),
            forall|i: int| 0 <= i < r.buffers@.len() ==> r.buffers@[i] == fresh_buffer(),
            forall|i: int| 0 <= i < r.values@.len() ==> r.values@[i] == 0,
    {
        proof {
            assert(rows * cols <= 65536) by (nonlinear_arith)
                requires
                    rows <= 256,
                    cols <= 256,
            ;
        }
        let total: usize = rows * cols;
        let mut filters: Vec<KalmanFilter> = Vec::new();
        let mut i: usize = 0;
        while i < total
            invariant
                i <= total,
                filters@.len() == i,
                forall|j: int| 0 <= j < i ==> filters@[j] == fresh_filter(),
            decreases total - i,
        {
            let f = KalmanFilter::new(STATE_SIGMA, NOISE_SIGMA);
            filters.push(f);
            i = i + 1;
        }
        let mut buffers: Vec<Buffer<3>> = Vec::new();
        let mut j: usize = 0;
        while j < total
            invariant
                j <= total,
                buffers@.len() == j,
                forall|k: int| 0 <= k < j ==> buffers@[k] == fresh_buffer(),
            decreases total - j,
        {
            let b = Buffer::<3>::new();
            buffers.push(b);
            j = j + 1;
        }
        let mut values: Vec<u16> = Vec::new();
        let mut k: usize = 0;
        while k < total
            invariant
                k <= total,
                values@.len() == k,
                forall|m: int| 0 <= m < k ==> values@[m] == 0,
            decreases total - k,
        {
            values.push(0);
            k = k + 1;
        }
        KeyMatrix { rows, cols, filters, buffers, values }
    }

    /// The published grid of filtered values, row-major, in whole ADC units.
    pub fn values(&self) -> (r: Vec<u16>)
        ensures
            r@ == self.values@,
    {
        let mut out: Vec<u16> = Vec::new();
        let mut i: usize = 0;
        let n: usize = self.values.len();
        while i < n
            invariant
                i <= n,
                n == self.values@.len(),
                out@.len() == i,
                forall|j: int| 0 <= j < i ==> out@[j] == self.values@[j],
            decreases n - i,
        {
            out.push(self.values[i]);
            i = i + 1;
        }
        proof {
            assert(out@ =~= self.values@);
        }
        out
    }

    /// Whether any published value crosses the press threshold, in the whole
    /// ADC units of the published grid.
    pub fn is_any_key_pressed(&self) -> (r: bool)
        ensures
            r == exists|i: int|
                0 <= i < self.values@.len() && self.values@[i] > THRESHOLD / FRAC_ONE,
    {
        let mut i: usize = 0;
        let n: usize = self.values.len();
        while i < n
            invariant
                i <= n,
                n == self.values@.len(),
                forall|j: int| 0 <= j < i ==> !(self.values@[j] > THRESHOLD / FRAC_ONE),
            decreases n - i,
        {
            if (self.values[i] as u64) * FRAC_ONE > THRESHOLD {
                proof {
                    assert(self.values@[i as int] > THRESHOLD / FRAC_ONE);
                }
                return true;
            }
            i = i + 1;
        }
        false
    }

    /// One full scan pass over the raw samples of every cell (row-major, one
    /// per cell): updates every cell's filter, buffer and published value,
    /// and returns the identifiers of the newly-pressed cells in sweep
    /// order, at most 12.
    pub fn scan(&mut self, samples: &Vec<u16>) -> (keys: heapless::Vec<SwitchIdentifier, 12>)
        requires
            old(self).wf(),
            samples@.len() == old(self).rows * old(self).cols,
        ensures
            final(self).wf(),
            final(self).rows == old(self).rows,
            final(self).cols == old(self).cols,
            forall|r2: int, c2: int|
                0 <= r2 < old(self).rows && 0 <= c2 < old(self).cols ==> old(self).cell_updated(
                    *final(self),
                    samples@,
                    r2,
                    c2,
                ),
            key_list_ids(keys) == old(self).scan_ids(samples@),
            key_list_ids(keys).len() <= 12,
    {
        let ghost m0: KeyMatrix = *old(self);
        let rows: usize = self.rows;
        let cols: usize = self.cols;
        let mut keys: heapless::Vec<SwitchIdentifier, 12> = key_list_new();
        let mut col: usize = 0;
        while col < cols
            invariant
                m0.wf(),
                rows == m0.rows,
                cols == m0.cols,
                col <= cols,
                samples@.len() == m0.rows * m0.cols,
                self.rows == m0.rows,
                self.cols == m0.cols,
                self.filters@.len() == m0.filters@.len(),
                self.buffers@.len() == m0.buffers@.len(),
                self.values@.len() == m0.values@.len(),
                forall|i: int| 0 <= i < self.filters@.len() ==> self.filters@[i].wf(),
                forall|i: int| 0 <= i < self.buffers@.len() ==> self.buffers@[i].wf(),
                forall|r2: int, c2: int|
                    0 <= r2 < m0.rows && 0 <= c2 < m0.cols ==> m0.cell_state_ok(
                        *self,
                        samples@,
                        col as int,
                        0,
                        r2,
                        c2,
                    ),
                key_list_ids(keys) == m0.edge_ids(samples@, col as int, 0),
            decreases cols - col,
        {
            let mut row: usize = 0;
            while row < rows
                invariant
                    m0.wf(),
                    rows == m0.rows,
                    cols == m0.cols,
                    col < cols,
                    row <= rows,
                    samples@.len() == m0.rows * m0.cols,
                    self.rows == m0.rows,
                    self.cols == m0.cols,
                    self.filters@.len() == m0.filters@.len(),
                    self.buffers@.len() == m0.buffers@.len(),
                    self.values@.len() == m0.values@.len(),
                    forall|i: int| 0 <= i < self.filters@.len() ==> self.filters@[i].wf(),
                    forall|i: int| 0 <= i < self.buffers@.len() ==> self.buffers@[i].wf(),
                    forall|r2: int, c2: int|
                        0 <= r2 < m0.rows && 0 <= c2 < m0.cols ==> m0.cell_state_ok(
                            *self,
                            samples@,
                            col as int,
                            row as int,
                            r2,
                            c2,
                        ),
                    key_list_ids(keys) == m0.edge_ids(samples@, col as int, row as int),
                decreases rows - row,
            {
                let ghost pre: KeyMatrix = *self;
                proof {
                    assert(row * cols + col < rows * cols && rows * cols <= 65536)
                        by (nonlinear_arith)
                        requires
                            row < rows,
                            col < cols,
                            rows <= 256,
                            cols <= 256,
                    ;
                    assert(m0.cell_state_ok(pre, samples@, col as int, row as int, row as int, col as int));
                    assert(m0.cell_untouched(pre, row as int, col as int));
                }
                let idx: usize = row * cols + col;
                let sample: u16 = samples[idx];
                let mut f: KalmanFilter = self.filters[idx];
                let val_q: u64 = f.predict(sample);
                self.filters.set(idx, f);
                proof {
                    lemma_div_is_ordered(val_q as int, MU_MAX as int, FRAC_ONE as int);
                }
                let stored: u16 = (val_q / FRAC_ONE) as u16;
                self.values.set(idx, stored);
                let above: bool = val_q > THRESHOLD;
                let mut b: Buffer<3> = self.buffers[idx];
                let edge: bool = b.update(above);
                self.buffers.set(idx, b);
                if edge {
                    let id = SwitchIdentifier { row: row as u8, col: col as u8 };
                    key_list_push(&mut keys, id);
                }
                proof {
                    let s = samples@;
                    let ci: int = col as int;
                    let ri: int = row as int;
                    let idxint: int = m0.spec_idx(ri, ci);
                    assert(idxint == idx);
                    assert(pre.filters@[idxint] == m0.filters@[idxint]);
                    assert(pre.buffers@[idxint] == m0.buffers@[idxint]);
                    assert(val_q == m0.cell_filtered(s, ri, ci));
                    assert(above == m0.cell_above(s, ri, ci));
                    assert(edge == m0.cell_edge(s, ri, ci));
                    let prev = m0.edge_ids(s, ci, ri);
                    assert(m0.edge_ids(s, ci, ri + 1) == if m0.cell_edge(s, ri, ci)
                        && prev.len() < 12 {
                        prev.push((ri as u8, ci as u8))
                    } else {
                        prev
                    });
                    assert(key_list_ids(keys) == m0.edge_ids(s, ci, ri + 1));
                    let ri1: int = ri + 1;
                    assert forall|r2: int, c2: int|
                        0 <= r2 < m0.rows && 0 <= c2 < m0.cols implies m0.cell_state_ok(
                        *self,
                        s,
                        ci,
                        ri1,
                        r2,
                        c2,
                    ) by {
                        assert(m0.cell_state_ok(pre, s, ci, ri, r2, c2));
                        lemma_idx_in_range(m0.rows as int, m0.cols as int, r2, c2);
                        assert(0 <= m0.spec_idx(r2, c2) < m0.filters@.len());
                        if r2 == ri && c2 == ci {
                            assert(self.filters@[idxint] == f);
                            assert(self.buffers@[idxint] == b);
                            assert(self.values@[idxint] == stored);
                            assert(m0.cell_updated(*self, s, r2, c2));
                        } else {
                            lemma_linear_index_injective(m0.cols as int, r2, c2, ri, ci);
                            assert(m0.spec_idx(r2, c2) != idxint);
                            assert(self.filters@[m0.spec_idx(r2, c2)] == pre.filters@[m0.spec_idx(r2, c2)]);
                            assert(self.buffers@[m0.spec_idx(r2, c2)] == pre.buffers@[m0.spec_idx(r2, c2)]);
                            assert(self.values@[m0.spec_idx(r2, c2)] == pre.values@[m0.spec_idx(r2, c2)]);
                        }
                    }
                }
                row = row + 1;
            }
            proof {
                assert(m0.edge_ids(samples@, col as int + 1, 0) == m0.edge_ids(
                    samples@,
                    col as int,
                    m0.rows as int,
                ));
                let cip1: int = col as int + 1;
                assert forall|r2: int, c2: int|
                    0 <= r2 < m0.rows && 0 <= c2 < m0.cols implies m0.cell_state_ok(
                    *self,
                    samples@,
                    cip1,
                    0,
                    r2,
                    c2,
                ) by {
                    assert(m0.cell_state_ok(*self, samples@, col as int, rows as int, r2, c2));
                }
            }
            col = col + 1;
        }
        proof {
            assert forall|r2: int, c2: int|
                0 <= r2 < m0.rows && 0 <= c2 < m0.cols implies m0.cell_updated(
                *self,
                samples@,
                r2,
                c2,
            ) by {
                assert(m0.cell_state_ok(*self, samples@, cols as int, 0, r2, c2));
            }
            lemma_edge_ids_len(m0, samples@, m0.cols as int, 0);
        }
        keys
    }
}

/// A cell inside the matrix has its row-major position inside the grids.
proof fn lemma_idx_in_range(rows: int, cols: int, r: int, c: int)
    by (nonlinear_arith)
    requires
        0 <= r < rows,
        0 <= c < cols,
    ensures
        0 <= r * cols + c < rows * cols,
{
}

/// Distinct cells of one grid have distinct row-major positions.
proof fn lemma_linear_index_injective(cols: int, r1: int, c1: int, r2: int, c2: int)
    by (nonlinear_arith)
    requires
        0 <= c1 < cols,
        0 <= c2 < cols,
        r1 >= 0,
        r2 >= 0,
        !(r1 == r2 && c1 == c2),
    ensures
        r1 * cols + c1 != r2 * cols + c2,
{
}

/// Law: a scan never reports more than 12 identifiers.
pub proof fn lemma_edge_ids_len(m: KeyMatrix, samples: Seq<u16>, col: int, row: int)
    ensures
        m.edge_ids(samples, col, row).len() <= 12,
    decreases col, row,
{
    if row > 0 {
        lemma_edge_ids_len(m, samples, col, row - 1);
    } else if col > 0 {
        lemma_edge_ids_len(m, samples, col - 1, m.rows as int);
    }
}

/// A reported identifier (row, column) names a cell inside the matrix
/// whose debounce buffer signalled a press edge on this pass.
pub open spec fn reported_cell_ok(m: KeyMatrix, samples: Seq<u16>, t: (u8, u8)) -> bool {
    &&& (t.0 as int) < m.rows
    &&& (t.1 as int) < m.cols
    &&& m.cell_edge(samples, t.0 as int, t.1 as int)
}

/// Law: every identifier a scan reports names a cell inside the matrix
/// whose debounce buffer signalled a press edge on this pass.
pub proof fn lemma_edge_ids_are_edges(m: KeyMatrix, samples: Seq<u16>, col: int, row: int)
    requires
        m.wf(),
        0 <= col <= m.cols,
        0 <= row <= m.rows,
        row > 0 ==> col < m.cols,
    ensures
        forall|k: int|
            0 <= k < m.edge_ids(samples, col, row).len() ==> #[trigger] reported_cell_ok(
                m,
                samples,
                m.edge_ids(samples, col, row)[k],
            ),
    decreases col, row,
{
    if row > 0 {
        lemma_edge_ids_are_edges(m, samples, col, row - 1);
        let prev = m.edge_ids(samples, col, row - 1);
        let cur = m.edge_ids(samples, col, row);
        if m.cell_edge(samples, row - 1, col) && prev.len() < 12 {
            let t = (((row - 1) as u8), (col as u8));
            assert(cur == prev.push(t));
            assert(reported_cell_ok(m, samples, t));
            assert forall|k: int| 0 <= k < cur.len() implies reported_cell_ok(m, samples, cur[k]) by {
                if k < prev.len() {
                    assert(cur[k] == prev[k]);
                    assert(reported_cell_ok(m, samples, prev[k]));
                } else {
                    assert(cur[k] == t);
                }
            }
        } else {
            assert(cur == prev);
            assert forall|k: int| 0 <= k < cur.len() implies reported_cell_ok(m, samples, cur[k]) by {
                assert(cur[k] == prev[k]);
                assert(reported_cell_ok(m, samples, prev[k]));
            }
        }
    } else if col > 0 {
        lemma_edge_ids_are_edges(m, samples, col - 1, m.rows as int);
        let prev = m.edge_ids(samples, col - 1, m.rows as int);
        let cur = m.edge_ids(samples, col, row);
        assert(cur == prev);
        assert forall|k: int| 0 <= k < cur.len() implies reported_cell_ok(m, samples, cur[k]) by {
            assert(cur[k] == prev[k]);
            assert(reported_cell_ok(m, samples, prev[k]));
        }
    }
}

} // verus!
