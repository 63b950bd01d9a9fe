//! The anti-chatter filter between raw matrix snapshots and logical events.
//!
//! For each cell the debouncer keeps the last settled state and a counter of
//! consecutive samples that differ from it. A sample equal to the settled
//! state resets the counter; once the counter reaches the configured
//! threshold the settled state flips and exactly one press or release event
//! is emitted for that coordinate. At most one event per coordinate can come
//! out of a single call.

use vstd::prelude::*;

use crate::event::Event;
use crate::grid::{Grid, COLS, NKEYS, ROWS};

verus! {

/// The mathematical state of the debouncer.
pub ghost struct DebModel {
    /// Last stable state of every cell, row-major.
    pub settled: Seq<bool>,
    /// Consecutive differing samples seen per cell.
    pub counts: Seq<u16>,
    /// Samples a change must persist for before it is believed.
    pub threshold: u16,
}

/// A sound debouncer state: full grids, a positive threshold, and no counter
/// at or past the threshold (reaching it resets the counter).
pub open spec fn deb_wf(m: DebModel) -> bool {
    &&& m.settled.len() == NKEYS
    &&& m.counts.len() == NKEYS
    &&& m.threshold >= 1
    &&& forall|i: int| 0 <= i < NKEYS ==> m.counts[i] < m.threshold
}

/// Whether feeding `raw` makes cell `i` flip its settled state.
pub open spec fn cell_flips(m: DebModel, raw: Seq<bool>, i: int) -> bool {
    raw[i] != m.settled[i] && m.counts[i] + 1 >= m.threshold
}

/// Settled grid after one sample.
pub open spec fn step_settled(m: DebModel, raw: Seq<bool>) -> Seq<bool> {
    Seq::new(NKEYS as nat, |i: int| if cell_flips(m, raw, i) { raw[i] } else { m.settled[i] })
}

/// Counters after one sample: reset on a matching sample or on a flip,
/// otherwise one more differing sample.
pub open spec fn step_counts(m: DebModel, raw: Seq<bool>) -> Seq<u16> {
    Seq::new(
        NKEYS as nat,
        |i: int|
            if raw[i] == m.settled[i] || cell_flips(m, raw, i) {
                0u16
            } else {
                (m.counts[i] + 1) as u16
            },
    )
}

/// The whole state after one sample.
pub open spec fn step_model(m: DebModel, raw: Seq<bool>) -> DebModel {
    DebModel { settled: step_settled(m, raw), counts: step_counts(m, raw), threshold: m.threshold }
}

/// The event a flip of cell `i` emits: the cell's new state names the kind.
pub open spec fn event_at(raw: Seq<bool>, i: int) -> Event {
    if raw[i] {
        Event::Press((i / COLS as int) as u8, (i % COLS as int) as u8)
    } else {
        Event::Release((i / COLS as int) as u8, (i % COLS as int) as u8)
    }
}

/// Events emitted for the first `n` cells, in row-major cell order.
pub open spec fn events_upto(m: DebModel, raw: Seq<bool>, n: int) -> Seq<Event>
    decreases n,
{
    if n <= 0 {
        Seq::empty()
    } else if cell_flips(m, raw, n - 1) {
        events_upto(m, raw, n - 1).push(event_at(raw, n - 1))
    } else {
        events_upto(m, raw, n - 1)
    }
}

/// All events one sample emits.
pub open spec fn step_events(m: DebModel, raw: Seq<bool>) -> Seq<Event> {
    events_upto(m, raw, NKEYS as int)
}

/// The debouncer state after feeding the same sample `n` times.
pub open spec fn feeds(m: DebModel, raw: Seq<bool>, n: nat) -> DebModel
    decreases n,
{
    if n == 0 {
        m
    } else {
        step_model(feeds(m, raw, (n - 1) as nat), raw)
    }
}

/// A sample where no cell flips emits no event.
proof fn lemma_events_empty_upto(m: DebModel, raw: Seq<bool>, n: int)
    requires
        forall|i: int| 0 <= i < n ==> !cell_flips(m, raw, i),
    ensures
        events_upto(m, raw, n).len() == 0,
    decreases n,
{
    if n > 0 {
        lemma_events_empty_upto(m, raw, n - 1);
    }
}

/// A sample where exactly one cell flips emits exactly its event.
proof fn lemma_events_single_upto(m: DebModel, raw: Seq<bool>, j: int, n: int)
    requires
        0 <= j,
        cell_flips(m, raw, j),
        forall|i: int| 0 <= i < n && i != j ==> !cell_flips(m, raw, i),
    ensures
        j < n ==> events_upto(m, raw, n) == seq![event_at(raw, j)],
        j >= n ==> events_upto(m, raw, n).len() == 0,
    decreases n,
{
    if n > 0 {
        lemma_events_single_upto(m, raw, j, n - 1);
        if j == n - 1 {
            assert(events_upto(m, raw, n) =~= seq![event_at(raw, j)]);
        }
    }
}

/// After `n < threshold` feeds of a sample that differs from a fully settled
/// state in cell `j` alone, only cell `j`'s counter has moved, to `n`, and
/// the settled state has not.
proof fn lemma_feeds_state(m: DebModel, raw: Seq<bool>, j: int, n: nat)
    requires
        deb_wf(m),
        raw.len() == NKEYS,
        forall|i: int| 0 <= i < NKEYS ==> m.counts[i] == 0,
        0 <= j < NKEYS,
        raw[j] != m.settled[j],
        forall|i: int| 0 <= i < NKEYS && i != j ==> raw[i] == m.settled[i],
        n < m.threshold,
    ensures
        feeds(m, raw, n).threshold == m.threshold,
        feeds(m, raw, n).settled == m.settled,
        feeds(m, raw, n).counts.len() == NKEYS,
        feeds(m, raw, n).counts[j] == n,
        forall|i: int| 0 <= i < NKEYS && i != j ==> feeds(m, raw, n).counts[i] == 0,
    decreases n,
{
    if n > 0 {
        lemma_feeds_state(m, raw, j, (n - 1) as nat);
        let p = feeds(m, raw, (n - 1) as nat);
        assert(forall|i: int| 0 <= i < NKEYS ==> !cell_flips(p, raw, i));
        assert(step_settled(p, raw) =~= p.settled);
        assert(feeds(m, raw, n).counts[j] == n);
    }
}

/// The flat cell index an event's coordinate names.
pub open spec fn cell_of(e: Event) -> int {
    e.row() * COLS + e.col()
}

/// Events come out in strictly increasing cell order, each from a cell below
/// `n`.
proof fn lemma_events_upto_cells(m: DebModel, raw: Seq<bool>, n: int)
    requires
        n <= NKEYS,
    ensures
        forall|i: int|
            0 <= i < events_upto(m, raw, n).len() ==> 0 <= cell_of(
                #[trigger] events_upto(m, raw, n)[i],
            ) < n,
        forall|i: int, j: int|
            0 <= i < j < events_upto(m, raw, n).len() ==> cell_of(events_upto(m, raw, n)[i])
                < cell_of(events_upto(m, raw, n)[j]),
    decreases n,
{
    if n > 0 {
        lemma_events_upto_cells(m, raw, n - 1);
        if cell_flips(m, raw, n - 1) {
            assert(cell_of(event_at(raw, n - 1)) == n - 1);
            assert(forall|i: int|
                0 <= i < events_upto(m, raw, n - 1).len() ==> events_upto(m, raw, n)[i]
                    == #[trigger] events_upto(m, raw, n - 1)[i]);
        }
    }
}

/// One sample emits at most one event per coordinate: two distinct events of
/// the same call never share a coordinate.
pub proof fn lemma_one_event_per_coordinate(m: DebModel, raw: Seq<bool>, i: int, j: int)
    requires
        0 <= i < j < step_events(m, raw).len(),
    ensures
        !(step_events(m, raw)[i].row() == step_events(m, raw)[j].row() && step_events(m, raw)[i].col(
        ) == step_events(m, raw)[j].col()),
{
    lemma_events_upto_cells(m, raw, NKEYS as int);
}

/// The debouncer's threshold behaviour, for a settled state and a sample
/// that differs from it in exactly one cell `j`: each of the first
/// `threshold - 1` feeds of that sample emits no event and leaves the
/// settled state alone, and the feed that reaches the threshold emits
/// exactly one event, the transition of cell `j`, flipping it.
pub proof fn lemma_debounce_threshold(m: DebModel, raw: Seq<bool>, j: int, n: nat)
    requires
        deb_wf(m),
        raw.len() == NKEYS,
        forall|i: int| 0 <= i < NKEYS ==> m.counts[i] == 0,
        0 <= j < NKEYS,
        raw[j] != m.settled[j],
        forall|i: int| 0 <= i < NKEYS && i != j ==> raw[i] == m.settled[i],
        1 <= n <= m.threshold,
    ensures
        n < m.threshold ==> step_events(feeds(m, raw, (n - 1) as nat), raw) == Seq::<Event>::empty()
            && feeds(m, raw, n).settled == m.settled,
        n == m.threshold ==> step_events(feeds(m, raw, (n - 1) as nat), raw) == seq![
            event_at(raw, j),
        ] && feeds(m, raw, n).settled == m.settled.update(j, raw[j]),
{
    lemma_feeds_state(m, raw, j, (n - 1) as nat);
    let p = feeds(m, raw, (n - 1) as nat);
    if n < m.threshold {
        assert(forall|i: int| 0 <= i < NKEYS ==> !cell_flips(p, raw, i));
        lemma_events_empty_upto(p, raw, NKEYS as int);
        assert(step_events(p, raw) =~= Seq::<Event>::empty());
        lemma_feeds_state(m, raw, j, n);
    } else {
        assert(cell_flips(p, raw, j));
        assert(forall|i: int| 0 <= i < NKEYS && i != j ==> !cell_flips(p, raw, i));
        lemma_events_single_upto(p, raw, j, NKEYS as int);
        assert(feeds(m, raw, n) == step_model(p, raw));
        assert(step_settled(p, raw) =~= m.settled.update(j, raw[j]));
    }
}

/// Consumes raw grid snapshots and emits debounced press/release events.
pub struct Debouncer {
    settled: Grid,
    counts: Vec<u16>,
    threshold: u16,
}

impl View for Debouncer {
    type V = DebModel;

    closed spec fn view(&self) -> DebModel {
        DebModel { settled: self.settled@, counts: self.counts@, threshold: self.threshold }
    }
}

impl Debouncer {
    /// Starts all-released with every counter at zero.
    pub fn new(threshold: u16) -> (d: Debouncer)
        requires
            threshold >= 1,
        ensures
            deb_wf(d@),
            d@.threshold == threshold,
            forall|i: int| 0 <= i < NKEYS ==> !d@.settled[i],
            forall|i: int| 0 <= i < NKEYS ==> d@.counts[i] == 0,
    {
        let settled = Grid::new_released();
        let mut counts: Vec<u16> = Vec::new();
        let mut i: usize = 0;
        while i < NKEYS
            invariant
                i <= NKEYS,
                counts@.len() == i,
                forall|j: int| 0 <= j < i ==> counts@[j] == 0,
            decreases NKEYS - i,
        {
            counts.push(0);
            i = i + 1;
        }
        Debouncer { settled, counts, threshold }
    }

    /// The settled state of cell `(r, c)`.
    pub fn settled_at(&self, r: usize, c: usize) -> (b: bool)
        requires
            deb_wf(self@),
            r < ROWS,
            c < COLS,
        ensures
            b == self@.settled[r * COLS + c],
    {
        self.settled.get(r, c)
    }

    /// Applies one raw snapshot and returns the events it settles, one per
    /// flipped coordinate, in row-major order.
    pub fn events(&mut self, raw: &Grid) -> (evs: Vec<Event>)
        requires
            deb_wf(old(self)@),
            raw.wf(),
        ensures
            deb_wf(final(self)@),
            final(self)@ == step_model(old(self)@, raw@),
            evs@ == step_events(old(self)@, raw@),
            forall|k: int| 0 <= k < evs@.len() ==> (#[trigger] evs@[k]).in_range(),
    {
        let ghost m0 = self@;
        let mut evs: Vec<Event> = Vec::new();
        let mut i: usize = 0;
        while i < NKEYS
            invariant
                deb_wf(m0),
                raw@.len() == NKEYS,
                i <= NKEYS,
                self.threshold == m0.threshold,
                self.settled@.len() == NKEYS,
                self.counts@.len() == NKEYS,
                forall|j: int| i <= j < NKEYS ==> self.settled@[j] == m0.settled[j],
                forall|j: int| i <= j < NKEYS ==> self.counts@[j] == m0.counts[j],
                forall|j: int| 0 <= j < i ==> self.settled@[j] == step_settled(m0, raw@)[j],
                forall|j: int| 0 <= j < i ==> self.counts@[j] == step_counts(m0, raw@)[j],
                evs@ == events_upto(m0, raw@, i as int),
                forall|k: int| 0 <= k < evs@.len() ==> (#[trigger] evs@[k]).in_range(),
            decreases NKEYS - i,
        {
            let sample = raw.cells[i];
            let prev = self.settled.cells[i];
            proof {
                assert(self.counts@[i as int] == m0.counts[i as int]);
                assert(m0.counts[i as int] < m0.threshold);
            }
            if sample == prev {
                self.counts.set(i, 0);
            } else if self.counts[i] + 1 >= self.threshold {
                let rr = i / COLS;
                let cc = i % COLS;
                proof {
                    assert(rr < ROWS && cc < COLS);
                    assert(rr * COLS + cc == i);
                }
                let ev = if sample {
                    Event::Press(rr as u8, cc as u8)
                } else {
                    Event::Release(rr as u8, cc as u8)
                };
                self.settled.set(rr, cc, sample);
                self.counts.set(i, 0);
                evs.push(ev);
            } else {
                let n = self.counts[i] + 1;
                self.counts.set(i, n);
            }
            i = i + 1;
        }
        proof {
            assert(self@.settled =~= step_settled(m0, raw@));
            assert(self@.counts =~= step_counts(m0, raw@));
        }
        evs
    }
}

} // verus!
