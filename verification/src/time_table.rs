//! The time table of a trace and the figures derived from it for the viewer.

use vstd::prelude::*;

verus! {

/// Number of consecutive events that one window of the chunk-size heuristic spans.
pub const WINDOW: usize = 128;

/// Timestamps never go back.
pub open spec fn non_decreasing(t: Seq<u64>) -> bool {
    forall|i: int, j: int| 0 <= i <= j < t.len() ==> t[i] <= t[j]
}

/// Time covered by the window of `WINDOW` events that ends at event `i`.
pub open spec fn window_span(t: Seq<u64>, i: int) -> int {
    t[i] - t[i - WINDOW as int]
}

/// The smallest `window_span` over the windows that end before event `n`.
/// Meaningful for `n > WINDOW`.
pub open spec fn tightest_span(t: Seq<u64>, n: int) -> int
    decreases n,
{
    if n <= WINDOW as int + 1 {
        window_span(t, WINDOW as int)
    } else {
        let rest = tightest_span(t, n - 1);
        let last = window_span(t, n - 1);
        if last < rest {
            last
        } else {
            rest
        }
    }
}

/// The chunk size suggested to the viewer: the final timestamp of a short
/// table, else the tightest window, but never less than 1.
pub open spec fn chunk_size_heuristic(t: Seq<u64>) -> int
    recommends
        t.len() > 0,
{
    if t.len() <= WINDOW as int {
        t.last() as int
    } else if tightest_span(t, t.len() as int) < 1 {
        1
    } else {
        tightest_span(t, t.len() as int)
    }
}

/// The quotient `a / b` rounded up.
pub open spec fn ceil_div(a: int, b: int) -> int
    recommends
        b > 0,
{
    if a % b == 0 {
        a / b
    } else {
        a / b + 1
    }
}

/// The end of the displayed time range: the final timestamp plus one average
/// event distance (rounded up, at least 1).
pub open spec fn extended_end(t: Seq<u64>) -> int
    recommends
        t.len() > 0,
{
    let step = ceil_div(t.last() as int, t.len() as int);
    t.last() + if step < 1 {
        1
    } else {
        step
    }
}

/// The extended end as it is reported: where it passes 64 bits, the largest
/// 64-bit time stands for it.
pub open spec fn reported_end(t: Seq<u64>) -> int
    recommends
        t.len() > 0,
{
    if extended_end(t) <= u64::MAX {
        extended_end(t)
    } else {
        u64::MAX as int
    }
}

/// What the analysis reports to the host.
#[derive(Clone, Copy, Debug, PartialEq, Eq, Structural)]
pub struct ChunkSizeReport {
    pub min_span: u64,
    pub extended_end: u64,
    pub event_count: u64,
}

/// `tightest_span` is a lower bound of every window it ranges over, and one of
/// them attains it.
pub proof fn lemma_tightest_span(t: Seq<u64>, n: int)
    requires
        WINDOW < n <= t.len(),
    ensures
        forall|i: int| WINDOW <= i < n ==> tightest_span(t, n) <= #[trigger] window_span(t, i),
        exists|i: int| WINDOW <= i < n && tightest_span(t, n) == #[trigger] window_span(t, i),
    decreases n,
{
    if n > WINDOW as int + 1 {
        lemma_tightest_span(t, n - 1);
        let k = choose|i: int|
            WINDOW <= i < n - 1 && tightest_span(t, n - 1) == #[trigger] window_span(t, i);
        if window_span(t, n - 1) < tightest_span(t, n - 1) {
            assert(tightest_span(t, n) == window_span(t, n - 1));
        } else {
            assert(tightest_span(t, n) == window_span(t, k));
        }
    } else {
        assert(tightest_span(t, n) == window_span(t, WINDOW as int));
    }
}

/// A table of at most `WINDOW` events has its final timestamp as heuristic.
/// The heuristic of a longer table whose every window spans at least 1 is the
/// span of its tightest window: at most the span of every window, and the span
/// of one of them.
pub proof fn lemma_heuristic_bounds(t: Seq<u64>)
    requires
        t.len() > 0,
        t.len() > WINDOW ==> forall|i: int|
            WINDOW <= i < t.len() ==> #[trigger] window_span(t, i) >= 1,
    ensures
        t.len() <= WINDOW ==> chunk_size_heuristic(t) == t.last(),
        t.len() > WINDOW ==> forall|i: int|
            WINDOW <= i < t.len() ==> chunk_size_heuristic(t) <= #[trigger] window_span(t, i),
        t.len() > WINDOW ==> exists|i: int|
            WINDOW <= i < t.len() && chunk_size_heuristic(t) == #[trigger] window_span(t, i),
{
    if t.len() > WINDOW {
        lemma_tightest_span(t, t.len() as int);
    }
}

/// The heuristic of a table of more than `WINDOW` events is never below 1: a
/// tightest window that spans no time is answered with 1.
pub proof fn lemma_heuristic_floor(t: Seq<u64>)
    requires
        t.len() > WINDOW,
    ensures
        chunk_size_heuristic(t) >= 1,
        chunk_size_heuristic(t) == 1 || chunk_size_heuristic(t) == tightest_span(
            t,
            t.len() as int,
        ),
{
}

/// An ordered table from dense time index to absolute timestamp.
pub struct TimeTable {
    times: Vec<u64>,
}

impl View for TimeTable {
    type V = Seq<u64>;

    closed spec fn view(&self) -> Seq<u64> {
        self.times@
    }
}

impl TimeTable {
    #[verifier::type_invariant]
    spec fn wf(&self) -> bool {
        non_decreasing(self.times@)
    }

    /// Takes the timestamps as a time table, unless one of them goes back.
    pub fn new(times: Vec<u64>) -> (r: Option<TimeTable>)
        ensures
            r is Some <==> non_decreasing(times@),
            r matches Some(t) ==> t@ == times@,
    {
        let mut i: usize = 1;
        while i < times.len()
            invariant
                1 <= i,
                forall|a: int, b: int| 0 <= a <= b < i && b < times.len() ==> times[a] <= times[b],
            decreases times.len() - i,
        {
            if times[i - 1] > times[i] {
                return None;
            }
            i += 1;
        }
        Some(TimeTable { times })
    }

    /// Number of events.
    pub fn len(&self) -> (n: usize)
        ensures
            n == self@.len(),
    {
        self.times.len()
    }

    /// The timestamp of the event with time index `idx`, if there is one.
    pub fn get(&self, idx: u32) -> (r: Option<u64>)
        ensures
            r == if (idx as int) < self@.len() {
                Some(self@[idx as int])
            } else {
                None
            },
    {
        if (idx as usize) < self.times.len() {
            Some(self.times[idx as usize])
        } else {
            None
        }
    }

    /// The figures reported to the host once a time table is in place: the
    /// chunk-size heuristic, the extended end and the number of events. An
    /// empty table has none.
    pub fn analyze(&self) -> (r: Option<ChunkSizeReport>)
        ensures
            r is Some <==> self@.len() > 0,
            r matches Some(rep) ==> rep.min_span == chunk_size_heuristic(self@)
                && rep.extended_end == reported_end(self@) && rep.event_count == self@.len(),
    {
        proof {
            use_type_invariant(self);
        }
        let n: usize = self.times.len();
        if n == 0 {
            return None;
        }
        let last: u64 = self.times[n - 1];
        let count: u64 = n as u64;
        let step: u64 = if last % count == 0 {
            last / count
        } else {
            assert(last / count < last) by (nonlinear_arith)
                requires
                    count >= 1,
                    last % count != 0,
            ;
            last / count + 1
        };
        let step: u64 = if step < 1 {
            1
        } else {
            step
        };
        let end: u64 = if last > u64::MAX - step {
            u64::MAX
        } else {
            last + step
        };
        let min_span: u64 = if n <= WINDOW {
            last
        } else {
            let mut best: u64 = self.times[WINDOW] - self.times[0];
            let mut i: usize = WINDOW + 1;
            while i < n
                invariant
                    WINDOW < i <= n,
                    n == self.times.len(),
                    non_decreasing(self.times@),
                    best == tightest_span(self.times@, i as int),
                decreases n - i,
            {
                let span: u64 = self.times[i] - self.times[i - WINDOW];
                if span < best {
                    best = span;
                }
                i += 1;
            }
            if best < 1 {
                1
            } else {
                best
            }
        };
        Some(ChunkSizeReport { min_span, extended_end: end, event_count: count })
    }
}

} // verus!
