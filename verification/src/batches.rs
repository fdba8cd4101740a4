//! Splitting an id range into fixed-size batches for table scans.

use vstd::prelude::*;

verus! {

/// Rust's `/` on signed integers: the quotient truncated toward zero.
pub open spec fn trunc_div(x: int, d: int) -> int {
    if x == 0 {
        0
    } else if x > 0 && d > 0 {
        x / d
    } else if x < 0 && d < 0 {
        (-x) / (-d)
    } else if x < 0 {
        -((-x) / d)
    } else {
        -(x / (-d))
    }
}

/// How many batches a scan up to `end` in steps of `size` produces before
/// running out (zero or negative means none).
pub open spec fn batch_total(end: i32, size: i32) -> int {
    trunc_div(end as int, size as int) + 1
}

/// The whole scan stays within `i32`: the step is usable as a divisor, the
/// batch counter never overflows and every bound `size * k` of the scan fits.
pub open spec fn batches_fit(end: i32, size: i32) -> bool {
    &&& size != 0
    &&& !(end == i32::MIN && size == -1)
    &&& batch_total(end, size) < i32::MAX
    &&& batch_total(end, size) <= 0 || (i32::MIN <= size * batch_total(end, size) <= i32::MAX)
}

/// The bounds of the `k`-th batch (counting from 1): `[size * (k - 1), size * k]`.
pub open spec fn batch_bounds(size: int, k: int) -> (int, int) {
    (size * (k - 1), size * k)
}

/// The plain values a [`Batch`] holds.
pub struct BatchState {
    pub start: i32,
    pub end: i32,
    pub iteration: i32,
    pub size: i32,
}

/// The cursor can be advanced to its end without overflow.
pub open spec fn batch_wf(b: BatchState) -> bool {
    &&& batches_fit(b.end, b.size)
    &&& 1 <= b.iteration
    &&& (b.iteration <= batch_total(b.end, b.size) + 1 || b.iteration == 1)
}

/// Whether the cursor still has a batch to yield.
pub open spec fn batch_has_next(b: BatchState) -> bool {
    b.iteration <= batch_total(b.end, b.size)
}

/// One call of `next` stays within `i32`: the step is a usable divisor, the
/// number of batches can be computed, and, when a batch is due, its bounds
/// and the next batch number fit.
pub open spec fn step_fits(b: BatchState) -> bool {
    &&& b.size != 0
    &&& !(b.end == i32::MIN && b.size == -1)
    &&& batch_total(b.end, b.size) <= i32::MAX
    &&& 1 <= b.iteration
    &&& batch_has_next(b) ==> {
        &&& i32::MIN <= b.size * (b.iteration - 1) <= i32::MAX
        &&& i32::MIN <= b.size * b.iteration <= i32::MAX
        &&& b.iteration < i32::MAX
    }
}

/// A cursor whose whole scan fits can always take its next step.
pub proof fn lemma_wf_step_fits(b: BatchState)
    requires
        batch_wf(b),
    ensures
        step_fits(b),
{
    if batch_has_next(b) {
        lemma_bounds_fit(b.end, b.size, b.iteration as int);
    }
}

/// What one call of `next` does: the cursor afterwards, and the batch it
/// yields, if any. A yielded batch is a copy of the cursor whose bounds
/// are those of the current iteration.
pub open spec fn batch_step(b: BatchState) -> (BatchState, Option<BatchState>) {
    if !batch_has_next(b) {
        (b, None)
    } else {
        let bounds = batch_bounds(b.size as int, b.iteration as int);
        (
            BatchState { iteration: (b.iteration + 1) as i32, ..b },
            Some(BatchState { start: bounds.0 as i32, end: bounds.1 as i32, ..b }),
        )
    }
}

/// One batch of an id scan, and at the same time the cursor that yields the
/// following batches.
#[derive(Clone, Copy, Debug)]
pub struct Batch {
    pub start: i32,
    pub end: i32,
    iteration: i32,
    size: i32,
}

impl View for Batch {
    type V = BatchState;

    closed spec fn view(&self) -> BatchState {
        BatchState { start: self.start, end: self.end, iteration: self.iteration, size: self.size }
    }
}

impl Batch {
    /// The first id of the batch.
    pub fn start(&self) -> (r: i32)
        ensures
            r == self@.start,
    {
        self.start
    }

    /// The last id of the batch.
    pub fn end(&self) -> (r: i32)
        ensures
            r == self@.end,
    {
        self.end
    }

    /// Whether the next call of `next` stays within `i32`.
    pub fn can_step(&self) -> (r: bool)
        ensures
            r == step_fits(self@),
    {
        if self.size == 0 || (self.end == i32::MIN && self.size == -1) || self.iteration < 1 {
            return false;
        }
        let quotient = match self.end.checked_div(self.size) {
            Some(q) => q,
            None => {
                return false;
            },
        };
        if quotient == i32::MAX {
            return false;
        }
        let total = quotient + 1;
        if self.iteration > total {
            return true;
        }
        if self.iteration == i32::MAX {
            return false;
        }
        let it = self.iteration as i64;
        let size = self.size as i64;
        assert(-0x8000_0000 * 0x7fff_ffff <= size * it <= 0x7fff_ffff * 0x7fff_ffff) by (nonlinear_arith)
            requires -0x8000_0000 <= size <= 0x7fff_ffff, 1 <= it <= 0x7fff_ffff;
        assert(-0x8000_0000 * 0x7fff_ffff <= size * (it - 1) <= 0x7fff_ffff * 0x7fff_ffff) by (nonlinear_arith)
            requires -0x8000_0000 <= size <= 0x7fff_ffff, 1 <= it <= 0x7fff_ffff;
        let upper = size * it;
        let lower = size * (it - 1);
        i32::MIN as i64 <= lower && lower <= i32::MAX as i64 && i32::MIN as i64 <= upper && upper
            <= i32::MAX as i64
    }

    /// Yields the next batch of the scan, or `None` once all batches were
    /// yielded.
    pub fn next(&mut self) -> (res: Option<Batch>)
        requires
            step_fits(old(self)@),
        ensures
            batch_wf(old(self)@) ==> batch_wf(final(self)@),
            final(self)@ == batch_step(old(self)@).0,
            res matches Some(b) ==> batch_step(old(self)@).1 == Some(b@),
            res is None <==> batch_step(old(self)@).1 is None,
    {
        let total = match self.end.checked_div(self.size) {
            Some(q) => q + 1,
            None => {
                return None;
            },
        };
        if self.iteration > total {
            return None;
        }
        let mut batch = *self;
        batch.start = self.size * (self.iteration - 1);
        batch.end = self.size * self.iteration;
        self.iteration += 1;
        Some(batch)
    }
}

/// Every bound that the scan computes fits in `i32`.
proof fn lemma_bounds_fit(end: i32, size: i32, k: int)
    requires
        batches_fit(end, size),
        1 <= k <= batch_total(end, size),
    ensures
        i32::MIN <= size * (k - 1) <= i32::MAX,
        i32::MIN <= size * k <= i32::MAX,
{
    let t = batch_total(end, size);
    if size > 0 {
        assert(0 <= size * (k - 1) <= size * k <= size * t) by (nonlinear_arith)
            requires size > 0, 1 <= k <= t;
    } else {
        assert(size * t <= size * k <= size * (k - 1) <= 0) by (nonlinear_arith)
            requires size < 0, 1 <= k <= t;
    }
}

/// The bounds of the batches that a cursor has yet to yield, in order.
pub open spec fn batches_remaining(b: BatchState) -> Seq<(int, int)> {
    let left = batch_total(b.end, b.size) - b.iteration + 1;
    Seq::new(
        if left > 0 { left as nat } else { 0 },
        |j: int| batch_bounds(b.size as int, b.iteration + j),
    )
}

/// Each call of `next` yields the first of the remaining batches and leaves
/// the rest; once no batch is left, `next` changes nothing and keeps
/// returning `None`.
pub proof fn law_next_walks_the_remaining_batches(b: BatchState)
    requires
        batch_wf(b),
    ensures
        batch_step(b).1 matches Some(x) ==> {
            &&& batches_remaining(b).len() > 0
            &&& (x.start as int, x.end as int) == batches_remaining(b)[0]
            &&& batches_remaining(batch_step(b).0) == batches_remaining(b).drop_first()
        },
        batch_step(b).1 is None ==> {
            &&& batches_remaining(b).len() == 0
            &&& batch_step(b).0 == b
            &&& batch_step(batch_step(b).0).1 is None
        },
{
    if batch_has_next(b) {
        lemma_bounds_fit(b.end, b.size, b.iteration as int);
        assert(batches_remaining(batch_step(b).0) =~= batches_remaining(b).drop_first());
    }
}

/// A fresh scan yields `end / size + 1` batches (none when that is not
/// positive); the `k`-th of them, counting from zero, is
/// `[size * k, size * (k + 1)]`, whatever `start` the scan was given.
pub proof fn law_fresh_scan_batches(start: i32, end: i32, size: i32, k: int)
    requires
        batches_fit(end, size),
        0 <= k < batches_remaining(BatchState { start, end, iteration: 1, size }).len(),
    ensures
        batches_remaining(BatchState { start, end, iteration: 1, size }).len()
            == batch_total(end, size),
        batches_remaining(BatchState { start, end, iteration: 1, size })[k]
            == (size * k, size * (k + 1)),
{
}

/// With a positive step and an end above `-size`, the first call of `next`
/// on a fresh scan may be made (unless counting the batches itself
/// overflows) and yields `[0, size]`.
pub proof fn law_first_batch_starts_at_zero(start: i32, end: i32, size: i32)
    requires
        size > 0,
        end > -size,
        batch_total(end, size) <= i32::MAX,
    ensures
        step_fits(BatchState { start, end, iteration: 1, size }),
        batch_step(BatchState { start, end, iteration: 1, size }).1 == Some(
            BatchState { start: 0, end: size, iteration: 1, size },
        ),
{
    assert(trunc_div(end as int, size as int) >= 0) by {
        if end < 0 {
            assert((-(end as int)) / (size as int) == 0) by (nonlinear_arith)
                requires 0 < -(end as int) < size;
        } else if end > 0 {
            assert((end as int) / (size as int) >= 0) by (nonlinear_arith)
                requires end > 0, size > 0;
        }
    }
}

/// Consecutive batches touch: each batch ends where the next one starts.
pub proof fn law_batches_are_contiguous(b: BatchState, j: int)
    requires
        batch_wf(b),
        0 <= j,
        j + 1 < batches_remaining(b).len(),
    ensures
        batches_remaining(b)[j].1 == batches_remaining(b)[j + 1].0,
{
}

/// With a positive step and a non-negative end, the batches of a fresh scan
/// cover every id from 0 to `end`.
pub proof fn law_fresh_scan_covers(start: i32, end: i32, size: i32, id: int)
    requires
        batches_fit(end, size),
        size > 0,
        0 <= id <= end,
    ensures
        exists|j: int|
            0 <= j < batches_remaining(BatchState { start, end, iteration: 1, size }).len()
                && #[trigger] batches_remaining(BatchState { start, end, iteration: 1, size })[j].0 <= id
                && id <= batches_remaining(BatchState { start, end, iteration: 1, size })[j].1,
{
    let r = batches_remaining(BatchState { start, end, iteration: 1, size });
    let j = id / (size as int);
    assert(0 <= j <= (end as int) / (size as int) && size * j <= id <= size * (j + 1)) by (nonlinear_arith)
        requires size > 0, 0 <= id <= end, j == id / (size as int);
    assert(r[j].0 <= id && id <= r[j].1);
}

/// Whether a scan up to `end` in steps of `size` stays within `i32`, so that
/// it can be started.
pub fn scan_fits(end: i32, size: i32) -> (res: bool)
    ensures
        res == batches_fit(end, size),
{
    if size == 0 || (end == i32::MIN && size == -1) {
        return false;
    }
    let quotient = match end.checked_div(size) {
        Some(q) => q,
        None => {
            return false;
        },
    };
    let total: i64 = quotient as i64 + 1;
    if total >= i32::MAX as i64 {
        return false;
    }
    if total <= 0 {
        return true;
    }
    assert(-0x8000_0000 * 0x7fff_ffff <= size * total <= 0x7fff_ffff * 0x7fff_ffff) by (nonlinear_arith)
        requires -0x8000_0000 <= size <= 0x7fff_ffff, 0 < total < 0x7fff_ffff;
    let last: i64 = size as i64 * total;
    i32::MIN as i64 <= last && last <= i32::MAX as i64
}

/// Starts a scan up to `end` in steps of `size`, keeping `start` and `end`.
/// The first batch is `[0, size]`: the scan counts from zero whatever
/// `start` is. Every call of `next` may be made while `step_fits` holds,
/// which `batches_fit(end, size)` guarantees for the whole scan.
pub fn batches(start: i32, end: i32, size: i32) -> (res: Batch)
    ensures
        batches_fit(end, size) ==> batch_wf(res@),
        res@ == (BatchState { start, end, iteration: 1, size }),
{
    Batch { start: start, end: end, iteration: 1, size: size }
}

} // verus!
