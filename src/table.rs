//! The live table: for each identifier, the latest frame, its recent arrival
//! times and an estimate of how often it arrives.

use crate::frame::{Frame, FrameView};
use std::collections::VecDeque;
use vstd::prelude::*;

verus! {

/// Arrivals older than this, relative to the newest, leave the history.
pub const WINDOW_US: u128 = 100_000;

/// A gap longer than this makes the estimate the reciprocal of the gap.
pub const SPARSE_GAP_US: u128 = 50_000;

/// Microseconds in a second.
pub const US_PER_SECOND: u128 = 1_000_000;

/// Windows of `WINDOW_US` in a second.
pub const WINDOWS_PER_SECOND: u128 = 10;

/// A rate in hertz, held exactly as `numerator / denominator`.
#[derive(Clone, Copy, Debug, PartialEq, Eq, Structural)]
pub struct Frequency {
    pub numerator: u128,
    pub denominator: u128,
}

/// The estimate of an identifier seen once: not yet computable.
pub open spec fn zero_frequency() -> Frequency {
    Frequency { numerator: 0, denominator: 1 }
}

/// State kept for one identifier.
#[derive(Debug)]
pub struct TableEntry {
    /// The most recent frame.
    pub frame: Frame,
    /// Arrival times within the trailing window, oldest first.
    pub history: VecDeque<u128>,
    /// Arrival time of `frame`, in microseconds.
    pub last_arrival_us: u128,
    /// Current estimate of the arrival rate.
    pub frequency: Frequency,
}

pub ghost struct EntryView {
    pub frame: FrameView,
    pub history: Seq<u128>,
    pub last_arrival_us: u128,
    pub frequency: Frequency,
}

impl View for TableEntry {
    type V = EntryView;

    open spec fn view(&self) -> EntryView {
        EntryView {
            frame: self.frame@,
            history: self.history@,
            last_arrival_us: self.last_arrival_us,
            frequency: self.frequency,
        }
    }
}

pub open spec fn sorted(s: Seq<u128>) -> bool {
    forall|i: int, j: int| 0 <= i <= j < s.len() ==> s[i] <= s[j]
}

/// Drops from the front of `s` the arrivals older than the window that ends at `t`.
pub open spec fn evict(s: Seq<u128>, t: u128) -> Seq<u128>
    decreases s.len(),
{
    if s.len() > 0 && t - s[0] > WINDOW_US {
        evict(s.drop_first(), t)
    } else {
        s
    }
}

/// The entry made by the first arrival of an identifier.
pub open spec fn first_arrival(frame: FrameView, t: u128) -> EntryView {
    EntryView {
        frame: frame,
        history: seq![t],
        last_arrival_us: t,
        frequency: zero_frequency(),
    }
}

/// The estimate after an arrival at `t`, given the retained history: the
/// reciprocal of the gap when the gap exceeds `SPARSE_GAP_US`, else ten times
/// the arrivals in the window when there are two or more, else unchanged.
pub open spec fn next_frequency(e: EntryView, history: Seq<u128>, t: u128) -> Frequency {
    let gap = t - e.last_arrival_us;
    if gap > SPARSE_GAP_US {
        Frequency { numerator: US_PER_SECOND, denominator: gap as u128 }
    } else if history.len() > 1 {
        Frequency { numerator: (history.len() * WINDOWS_PER_SECOND) as u128, denominator: 1 }
    } else {
        e.frequency
    }
}

/// The entry `e` after `frame` arrives at `t`.
pub open spec fn next_arrival(e: EntryView, frame: FrameView, t: u128) -> EntryView {
    let history = evict(e.history.push(t), t);
    EntryView {
        frame: frame,
        history: history,
        last_arrival_us: t,
        frequency: next_frequency(e, history, t),
    }
}

impl EntryView {
    /// The history ends at the last arrival, is ordered, and spans no more
    /// than the window; the estimate has a positive denominator.
    pub open spec fn wf(self) -> bool {
        &&& self.frame.wf()
        &&& self.history.len() > 0
        &&& self.history.last() == self.last_arrival_us
        &&& sorted(self.history)
        &&& forall|i: int|
            0 <= i < self.history.len() ==> self.last_arrival_us - #[trigger] self.history[i]
                <= WINDOW_US
        &&& self.frequency.denominator > 0
    }
}

/// The arrival times of `history` followed by `t`, without those older than
/// the window that ends at `t`.
fn retained_history(history: &VecDeque<u128>, t: u128) -> (r: VecDeque<u128>)
    requires
        sorted(history@),
        forall|i: int| 0 <= i < history@.len() ==> #[trigger] history@[i] <= t,
    ensures
        r@ == evict(history@.push(t), t),
        r@.len() > 0,
        r@.last() == t,
        sorted(r@),
        forall|i: int| 0 <= i < r@.len() ==> t - #[trigger] r@[i] <= WINDOW_US,
{
    let n = history.len();
    let mut r: VecDeque<u128> = VecDeque::new();
    let mut i: usize = 0;
    while i < n
        invariant
            i <= n,
            n == history@.len(),
            r@ == history@.subrange(0, i as int),
        decreases n - i,
    {
        r.push_back(history[i]);
        i = i + 1;
        assert(r@ =~= history@.subrange(0, i as int));
    }
    r.push_back(t);
    let ghost pushed = history@.push(t);
    assert(r@ =~= pushed.subrange(0, n + 1));
    assert(pushed.subrange(0, n + 1) =~= pushed);
    let ghost mut k: int = 0;
    while r.len() > 0 && t - r[0] > WINDOW_US
        invariant
            0 <= k <= n,
            n == history@.len(),
            pushed == history@.push(t),
            r@ == pushed.subrange(k, n + 1),
            forall|i: int| 0 <= i < history@.len() ==> #[trigger] history@[i] <= t,
            evict(r@, t) == evict(pushed, t),
        decreases r@.len(),
    {
        let ghost before = r@;
        r.pop_front();
        proof {
            assert(before.drop_first() =~= r@);
            assert(r@ =~= pushed.subrange(k + 1, n + 1));
            k = k + 1;
        }
    }
    r
}

/// The entry `old` after `frame` arrives at `t`.
fn next_entry(old: &TableEntry, frame: Frame, t: u128) -> (r: TableEntry)
    requires
        old@.wf(),
        frame@.wf(),
        old.last_arrival_us <= t,
    ensures
        r@ == next_arrival(old@, frame@, t),
        r@.wf(),
{
    let history = retained_history(&old.history, t);
    let gap = t - old.last_arrival_us;
    let frequency = if gap > SPARSE_GAP_US {
        Frequency { numerator: US_PER_SECOND, denominator: gap }
    } else if history.len() > 1 {
        Frequency { numerator: history.len() as u128 * WINDOWS_PER_SECOND, denominator: 1 }
    } else {
        old.frequency
    };
    let r = TableEntry { frame, history, last_arrival_us: t, frequency };
    assert forall|i: int, j: int| 0 <= i <= j < r@.history.len() implies r@.history[i]
        <= r@.history[j] by {}
    r
}

/// The table: one entry per identifier.
#[derive(Debug)]
pub struct FrameTable {
    pub entries: Vec<TableEntry>,
}

impl View for FrameTable {
    type V = Seq<EntryView>;

    open spec fn view(&self) -> Seq<EntryView> {
        self.entries@.map_values(|e: TableEntry| e@)
    }
}

impl FrameTable {
    /// Every entry is well formed and no identifier has two entries.
    pub open spec fn wf(&self) -> bool {
        &&& forall|i: int| 0 <= i < self@.len() ==> (#[trigger] self@[i]).wf()
        &&& forall|i: int, j: int|
            0 <= i < self@.len() && 0 <= j < self@.len() && i != j ==> (#[trigger] self@[i]).frame.id
                != (#[trigger] self@[j]).frame.id
    }

    /// No entry of `id` arrived after `t`.
    pub open spec fn accepts(&self, id: u32, t: u128) -> bool {
        forall|i: int|
            0 <= i < self@.len() && (#[trigger] self@[i]).frame.id == id ==> self@[i].last_arrival_us
                <= t
    }

    pub open spec fn holds(&self, id: u32) -> bool {
        exists|i: int| 0 <= i < self@.len() && (#[trigger] self@[i]).frame.id == id
    }

    /// An empty table.
    pub fn new() -> (r: FrameTable)
        ensures
            r.wf(),
            r@ == Seq::<EntryView>::empty(),
    {
        let r = FrameTable { entries: Vec::new() };
        assert(r@ =~= Seq::<EntryView>::empty());
        r
    }

    /// Number of identifiers in the table.
    pub fn len(&self) -> (r: usize)
        ensures
            r == self@.len(),
    {
        self.entries.len()
    }

    /// Where the entry of `id` stands, if there is one.
    pub fn position(&self, id: u32) -> (r: Option<usize>)
        ensures
            match r {
                Some(i) => i < self@.len() && self@[i as int].frame.id == id,
                None => !self.holds(id),
            },
    {
        let mut i: usize = 0;
        while i < self.entries.len()
            invariant
                i <= self@.len(),
                self@.len() == self.entries@.len(),
                forall|j: int| 0 <= j < i ==> (#[trigger] self@[j]).frame.id != id,
            decreases self.entries@.len() - i,
        {
            if self.entries[i].frame.id == id {
                return Some(i);
            }
            i = i + 1;
        }
        None
    }

    /// Whether an arrival of `id` at `t` keeps arrival times in order.
    pub fn accepts_arrival(&self, id: u32, t: u128) -> (r: bool)
        requires
            self.wf(),
        ensures
            r == self.accepts(id, t),
    {
        match self.position(id) {
            Some(i) => self.entries[i].last_arrival_us <= t,
            None => true,
        }
    }

    /// Records that `frame` arrived at `t`: a new identifier gets a fresh
    /// entry at the end; a known one has its entry advanced in place.
    pub fn upsert(&mut self, frame: Frame, t: u128)
        requires
            old(self).wf(),
            frame@.wf(),
            old(self).accepts(frame.id, t),
        ensures
            final(self).wf(),
            !old(self).holds(frame.id) ==> final(self)@ == old(self)@.push(
                first_arrival(frame@, t),
            ),
            forall|i: int|
                0 <= i < old(self)@.len() && (#[trigger] old(self)@[i]).frame.id == frame.id
                    ==> final(self)@ == old(self)@.update(i, next_arrival(old(self)@[i], frame@, t)),
    {
        let ghost before = self@;
        let ghost fv = frame@;
        match self.position(frame.id) {
            None => {
                let mut history: VecDeque<u128> = VecDeque::new();
                history.push_back(t);
                let e = TableEntry {
                    frame,
                    history,
                    last_arrival_us: t,
                    frequency: Frequency { numerator: 0, denominator: 1 },
                };
                assert(e@.history =~= seq![t]);
                self.entries.push(e);
                assert(self@ =~= before.push(first_arrival(fv, t)));
            },
            Some(i) => {
                let e = next_entry(&self.entries[i], frame, t);
                self.entries.set(i, e);
                assert(self@ =~= before.update(i as int, next_arrival(before[i as int], fv, t)));
            },
        }
    }

    /// Removes every entry.
    pub fn clear_all(&mut self)
        ensures
            final(self).wf(),
            final(self)@ == Seq::<EntryView>::empty(),
    {
        self.entries.clear();
        assert(self@ =~= Seq::<EntryView>::empty());
    }

    /// Removes the entry of `id`, if there is one.
    pub fn clear_one(&mut self, id: u32)
        requires
            old(self).wf(),
        ensures
            final(self).wf(),
            !old(self).holds(id) ==> final(self)@ == old(self)@,
            forall|i: int|
                0 <= i < old(self)@.len() && (#[trigger] old(self)@[i]).frame.id == id
                    ==> final(self)@ == old(self)@.remove(i),
    {
        match self.position(id) {
            Some(i) => {
                let ghost before = self@;
                self.entries.remove(i);
                assert(self@ =~= before.remove(i as int));
            },
            None => {},
        }
    }
}

} // verus!
