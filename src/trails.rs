use vstd::prelude::*;
use std::collections::VecDeque;
use crate::colour::Colour;
use crate::geometry::{Pixel, HEIGHT};

verus! {

/// Frames a trail pixel waits in the queue before it can be collided with.
pub const BUFFER_DELAY: u64 = 1;

/// Cells in the trail bitmap.
pub const CELLS: usize = 250000;

/// Position of a pixel's cell in the bitmap's storage (column-major).
pub open spec fn cell_index(p: Pixel) -> int {
    p.x * HEIGHT + p.y
}

/// The cells after an attempt to mark `p` with `c`: the first colour written
/// to a cell stays.
pub open spec fn marked(cells: Seq<Option<Colour>>, p: Pixel, c: Colour) -> Seq<Option<Colour>> {
    if p.in_bounds() && cells[cell_index(p)] is None {
        cells.update(cell_index(p), Some(c))
    } else {
        cells
    }
}

/// The cells after marking each entry in turn, first to last.
pub open spec fn marked_all(cells: Seq<Option<Colour>>, entries: Seq<TrailEntry>) -> Seq<Option<Colour>>
    decreases entries.len(),
{
    if entries.len() == 0 {
        cells
    } else {
        let last = entries.last();
        marked(marked_all(cells, entries.drop_last()), last.pixel, last.colour)
    }
}

/// Whether an entry has waited long enough to be promoted at `frame`.
pub open spec fn ripe(e: TrailEntry, frame: u64) -> bool {
    e.frame + BUFFER_DELAY <= frame
}

proof fn lemma_cell_index(p: Pixel)
    requires
        p.in_bounds(),
    ensures
        0 <= cell_index(p) < CELLS,
{
}

/// A cell keeps the first colour written to it: once a pixel has been marked,
/// marking it again, with any colour, changes nothing.
pub proof fn lemma_first_write_wins(cells: Seq<Option<Colour>>, p: Pixel, a: Colour, b: Colour)
    requires
        cells.len() == CELLS,
        p.in_bounds(),
    ensures
        marked(marked(cells, p, a), p, b) == marked(cells, p, a),
        marked(cells, p, a)[cell_index(p)] is Some,
        cells[cell_index(p)] is None ==> marked(marked(cells, p, a), p, b)[cell_index(p)] == Some(a),
        cells[cell_index(p)] is Some ==> marked(cells, p, b) == cells,
{
    lemma_cell_index(p);
}

/// Trail is permanent: marking any sequence of entries never empties a cell
/// and never changes the colour of a cell that already holds trail.
pub proof fn lemma_marks_are_permanent(cells: Seq<Option<Colour>>, entries: Seq<TrailEntry>, i: int)
    requires
        cells.len() == CELLS,
        0 <= i < CELLS,
        cells[i] is Some,
    ensures
        marked_all(cells, entries).len() == CELLS,
        marked_all(cells, entries)[i] == cells[i],
    decreases entries.len(),
{
    if entries.len() > 0 {
        lemma_marks_are_permanent(cells, entries.drop_last(), i);
        let last = entries.last();
        if last.pixel.in_bounds() {
            lemma_cell_index(last.pixel);
        }
    }
}

proof fn lemma_filter_all_or_none(s: Seq<TrailEntry>, frame: u64, keep: bool)
    requires
        forall|i: int| 0 <= i < s.len() ==> !ripe(#[trigger] s[i], frame) == keep,
    ensures
        s.filter(|e: TrailEntry| !ripe(e, frame)) == if keep { s } else { Seq::<TrailEntry>::empty() },
    decreases s.len(),
{
    reveal(Seq::filter);
    if s.len() > 0 {
        let t = s.drop_last();
        assert(forall|i: int| 0 <= i < t.len() ==> #[trigger] t[i] == s[i]);
        lemma_filter_all_or_none(t, frame, keep);
        if keep {
            assert(t.push(s.last()) =~= s);
        }
    }
}

/// Promotion keeps exactly the entries that are not yet ripe: a queue whose
/// first `k` entries are ripe at `frame` and whose others are not keeps, from
/// position `k` on, the queue filtered to its unripe entries.
pub proof fn lemma_promotion_keeps_unripe(q: Seq<TrailEntry>, k: int, frame: u64)
    requires
        0 <= k <= q.len(),
        forall|i: int| 0 <= i < k ==> ripe(#[trigger] q[i], frame),
        forall|i: int| k <= i < q.len() ==> !ripe(#[trigger] q[i], frame),
    ensures
        q.subrange(k, q.len() as int) == q.filter(|e: TrailEntry| !ripe(e, frame)),
{
    let a = q.subrange(0, k);
    let b = q.subrange(k, q.len() as int);
    assert(forall|i: int| 0 <= i < a.len() ==> #[trigger] a[i] == q[i]);
    assert(forall|i: int| 0 <= i < b.len() ==> #[trigger] b[i] == q[k + i]);
    lemma_filter_all_or_none(a, frame, false);
    lemma_filter_all_or_none(b, frame, true);
    Seq::filter_distributes_over_add(a, b, |e: TrailEntry| !ripe(e, frame));
    assert(a + b =~= q);
    assert(Seq::<TrailEntry>::empty() + b =~= b);
}

/// One pixel of trail waiting for promotion: where, whose, and the frame it
/// was drawn on.
#[derive(Clone, Copy, Debug, PartialEq, Eq, Structural)]
pub struct TrailEntry {
    pub pixel: Pixel,
    pub colour: Colour,
    pub frame: u64,
}

/// Which pixels of the play area hold trail, and of which colour.
pub struct TrailBitmap {
    pub cells: Vec<Option<Colour>>,
}

impl TrailBitmap {
    pub open spec fn view(&self) -> Seq<Option<Colour>> {
        self.cells@
    }

    pub open spec fn wf(&self) -> bool {
        self.cells@.len() == CELLS
    }

    /// The content of the cell of an in-bounds pixel.
    pub open spec fn cell(&self, p: Pixel) -> Option<Colour> {
        self.cells@[cell_index(p)]
    }

    pub open spec fn is_empty(&self) -> bool {
        forall|i: int| 0 <= i < CELLS ==> #[trigger] self.cells@[i] is None
    }

    /// A bitmap with no trail in it.
    pub fn new() -> (r: TrailBitmap)
        ensures
            r.wf(),
            r.is_empty(),
    {
        let mut cells: Vec<Option<Colour>> = Vec::with_capacity(CELLS);
        let mut i: usize = 0;
        while i < CELLS
            invariant
                i <= CELLS,
                cells@.len() == i,
                forall|j: int| 0 <= j < i ==> #[trigger] cells@[j] is None,
            decreases CELLS - i,
        {
            cells.push(None);
            i = i + 1;
        }
        TrailBitmap { cells }
    }

    /// The content of an in-bounds pixel's cell.
    pub fn get(&self, p: Pixel) -> (r: Option<Colour>)
        requires
            self.wf(),
            p.in_bounds(),
        ensures
            r == self.cell(p),
    {
        proof { lemma_cell_index(p); }
        self.cells[(p.x as usize) * (HEIGHT as usize) + p.y as usize]
    }

    /// Marks an in-bounds pixel with `colour` unless it already holds trail.
    pub fn set_if_empty(&mut self, p: Pixel, colour: Colour)
        requires
            old(self).wf(),
            p.in_bounds(),
        ensures
            final(self).wf(),
            final(self)@ == marked(old(self)@, p, colour),
    {
        proof { lemma_cell_index(p); }
        let i = (p.x as usize) * (HEIGHT as usize) + p.y as usize;
        if self.cells[i].is_none() {
            self.cells.set(i, Some(colour));
        }
    }
}

/// Trail pixels in the order they were drawn, waiting to enter the bitmap.
pub struct TrailQueue {
    pub entries: VecDeque<TrailEntry>,
}

impl TrailQueue {
    pub open spec fn view(&self) -> Seq<TrailEntry> {
        self.entries@
    }

    /// Every entry is in bounds and frames never decrease front to back.
    pub open spec fn wf(&self) -> bool {
        &&& forall|i: int| 0 <= i < self@.len() ==> (#[trigger] self@[i]).pixel.in_bounds()
        &&& forall|i: int, j: int|
            0 <= i <= j < self@.len() ==> (#[trigger] self@[i]).frame <= (#[trigger] self@[j]).frame
    }

    /// Whether an entry drawn on `frame` may be appended.
    pub open spec fn accepts(&self, frame: u64) -> bool {
        self@.len() > 0 ==> self@.last().frame <= frame
    }

    pub fn new() -> (r: TrailQueue)
        ensures
            r@ == Seq::<TrailEntry>::empty(),
            r.wf(),
    {
        TrailQueue { entries: VecDeque::new() }
    }

    pub fn len(&self) -> (r: usize)
        ensures
            r == self@.len(),
    {
        self.entries.len()
    }

    /// Appends an in-bounds entry no older than the last one.
    pub fn enqueue(&mut self, entry: TrailEntry)
        requires
            old(self).wf(),
            old(self).accepts(entry.frame),
            entry.pixel.in_bounds(),
        ensures
            final(self).wf(),
            final(self)@ == old(self)@.push(entry),
    {
        self.entries.push_back(entry);
    }
}

/// Moves the entries that have waited `BUFFER_DELAY` frames at `frame` from
/// the front of the queue into the bitmap, oldest first, and stops at the
/// first entry that is still too young.
pub fn add_trails_from_buffer(frame: u64, trail_queue: &mut TrailQueue, trails: &mut TrailBitmap)
    requires
        old(trail_queue).wf(),
        old(trails).wf(),
    ensures
        final(trail_queue).wf(),
        final(trails).wf(),
        final(trail_queue)@.len() <= old(trail_queue)@.len(),
        ({
            let k = old(trail_queue)@.len() - final(trail_queue)@.len();
            &&& final(trail_queue)@ == old(trail_queue)@.subrange(k, old(trail_queue)@.len() as int)
            &&& forall|i: int| 0 <= i < k ==> ripe(#[trigger] old(trail_queue)@[i], frame)
            &&& final(trails)@ == marked_all(old(trails)@, old(trail_queue)@.subrange(0, k))
        }),
        forall|i: int|
            0 <= i < final(trail_queue)@.len() ==> !ripe(#[trigger] final(trail_queue)@[i], frame),
        final(trail_queue)@ == old(trail_queue)@.filter(|e: TrailEntry| !ripe(e, frame)),
{
    let ghost q0 = trail_queue@;
    let ghost t0 = trails@;
    let ghost mut k: int = 0;
    loop
        invariant
            trail_queue.wf(),
            trails.wf(),
            0 <= k <= q0.len(),
            trail_queue@ == q0.subrange(k, q0.len() as int),
            forall|i: int| 0 <= i < k ==> ripe(#[trigger] q0[i], frame),
            trails@ == marked_all(t0, q0.subrange(0, k)),
        ensures
            0 <= k <= q0.len(),
            trail_queue@ == q0.subrange(k, q0.len() as int),
            forall|i: int| 0 <= i < k ==> ripe(#[trigger] q0[i], frame),
            trails@ == marked_all(t0, q0.subrange(0, k)),
            k == q0.len() || !ripe(q0[k], frame),
        decreases q0.len() - k,
    {
        if trail_queue.entries.len() == 0 {
            break;
        }
        let front = trail_queue.entries[0];
        if front.frame > frame || frame - front.frame < BUFFER_DELAY {
            break;
        }
        let popped = trail_queue.entries.pop_front();
        proof {
            assert(q0.subrange(0, k + 1).drop_last() == q0.subrange(0, k));
            assert(q0.subrange(0, k + 1).last() == q0[k]);
            assert(q0.subrange(k + 1, q0.len() as int) == q0.subrange(k, q0.len() as int).subrange(1, q0.len() - k));
            k = k + 1;
        }
        match popped {
            Some(e) => {
                trails.set_if_empty(e.pixel, e.colour);
            },
            None => {},
        }
    }
    proof {
        if q0.len() > k {
            assert forall|i: int| 0 <= i < trail_queue@.len() implies !ripe(#[trigger] trail_queue@[i], frame) by {
                assert(trail_queue@[i] == q0[k + i]);
                assert(q0[k].frame <= q0[k + i].frame);
            }
        }
        assert forall|i: int| k <= i < q0.len() implies !ripe(#[trigger] q0[i], frame) by {
            assert(q0[i] == trail_queue@[i - k]);
        }
        lemma_promotion_keeps_unripe(q0, k, frame);
    }
}

} // verus!
