//! The rolling log for one run: a bounded in-memory tail buffer plus the
//! rewrite policy that keeps the backing file's size in check.
//!
//! The buffer holds the last `LOG_CAPACITY` appended lines. The backing file
//! itself is written by the embedding program, which appends each line as it
//! is handed in and, whenever `append` or `compact` returns buffer contents,
//! truncates the file and rewrites it from exactly those lines. Writes are
//! best-effort: a failed file write never fails the run.

use vstd::prelude::*;

verus! {

/// Capacity of the in-memory tail buffer, in lines.
pub const LOG_CAPACITY: usize = 500;

/// Number of appended lines between automatic file rewrites.
pub const REWRITE_INTERVAL: usize = 500;

/// The last `LOG_CAPACITY` elements of `h`, all of `h` when it is shorter.
pub open spec fn tail_capped(h: Seq<Seq<char>>) -> Seq<Seq<char>> {
    if h.len() <= LOG_CAPACITY as int {
        h
    } else {
        h.skip(h.len() - LOG_CAPACITY as int)
    }
}

/// In-memory tail of one run's log, with the file-rewrite counter.
pub struct LogBuffer {
    lines: Vec<String>,
    since_rewrite: usize,
    history: Ghost<Seq<Seq<char>>>,
}

impl LogBuffer {
    /// Every line ever appended to this log, in order.
    pub closed spec fn history(&self) -> Seq<Seq<char>> {
        self.history@
    }

    /// The lines currently held in the tail buffer.
    pub closed spec fn buffered(&self) -> Seq<Seq<char>> {
        self.lines@.map_values(|s: String| s@)
    }

    /// Lines appended since the last file rewrite.
    pub closed spec fn pending(&self) -> int {
        self.since_rewrite as int
    }

    /// The buffer holds exactly the capped tail of the history, and the
    /// rewrite counter has not yet reached the rewrite interval.
    pub closed spec fn wf(&self) -> bool {
        &&& self.buffered() == tail_capped(self.history())
        &&& self.since_rewrite < REWRITE_INTERVAL
    }

    /// An empty log: nothing appended, nothing pending.
    pub fn new() -> (l: LogBuffer)
        ensures
            l.wf(),
            l.history() == Seq::<Seq<char>>::empty(),
            l.pending() == 0,
    {
        let l = LogBuffer { lines: Vec::new(), since_rewrite: 0, history: Ghost(Seq::empty()) };
        proof {
            assert(l.buffered() =~= tail_capped(l.history()));
        }
        l
    }

    /// Records one appended line: the oldest buffered line is evicted once
    /// the buffer is full, and every `REWRITE_INTERVAL` appends the call
    /// hands back the buffer contents, from which the caller must rewrite
    /// the backing file after appending the line to it.
    pub fn append(&mut self, line: String) -> (rewrite: Option<Vec<String>>)
        requires
            old(self).wf(),
        ensures
            final(self).wf(),
            final(self).history() == old(self).history().push(line@),
            match rewrite {
                Some(content) => {
                    &&& old(self).pending() == REWRITE_INTERVAL as int - 1
                    &&& final(self).pending() == 0
                    &&& content@.map_values(|s: String| s@) == tail_capped(final(self).history())
                },
                None => {
                    &&& old(self).pending() < REWRITE_INTERVAL as int - 1
                    &&& final(self).pending() == old(self).pending() + 1
                },
            },
    {
        let ghost line_view = line@;
        let ghost line_snap = line;
        let ghost old_history = self.history@;
        let evict = self.lines.len() >= LOG_CAPACITY;
        if evict {
            self.lines.remove(0);
        }
        self.lines.push(line);
        self.history = Ghost(old_history.push(line_view));
        proof {
            let h = old_history;
            let h2 = self.history@;
            let cap = LOG_CAPACITY as int;
            assert(old(self).buffered().len() == old(self).lines@.len());
            assert(self.buffered().len() == self.lines@.len());
            if evict {
                assert(tail_capped(h).len() >= cap);
                assert(h.len() >= cap && tail_capped(h).len() == cap);
                assert(self.lines@ == old(self).lines@.remove(0).push(line_snap));
                assert forall|i: int|
                    0 <= i < cap implies self.buffered()[i] == tail_capped(h2)[i] by {
                    assert(tail_capped(h2)[i] == h2[h2.len() - cap + i]);
                    if i < cap - 1 {
                        assert(old(self).lines@.remove(0)[i] == old(self).lines@[i + 1]);
                        assert(self.buffered()[i] == old(self).buffered()[i + 1]);
                        assert(old(self).buffered()[i + 1] == tail_capped(h)[i + 1]);
                        assert(tail_capped(h)[i + 1] == h[h.len() - cap + i + 1]);
                        assert(h2[h2.len() - cap + i] == h[h.len() - cap + i + 1]);
                    } else {
                        assert(self.buffered()[i] == line_view);
                        assert(h2[h2.len() - cap + i] == line_view);
                    }
                }
                assert(self.buffered() =~= tail_capped(h2));
            } else {
                assert(old(self).lines@.len() < cap);
                assert(tail_capped(h).len() == old(self).lines@.len());
                assert(h.len() < cap);
                assert(self.lines@ == old(self).lines@.push(line_snap));
                assert forall|i: int| 0 <= i < h2.len() implies self.buffered()[i] == h2[i] by {
                    if i < h.len() {
                        assert(self.buffered()[i] == old(self).buffered()[i]);
                        assert(old(self).buffered()[i] == tail_capped(h)[i]);
                    } else {
                        assert(self.buffered()[i] == line_view);
                    }
                }
                assert(self.buffered() =~= tail_capped(h2));
            }
        }
        if self.since_rewrite >= REWRITE_INTERVAL - 1 {
            self.since_rewrite = 0;
            Some(clone_lines(&self.lines))
        } else {
            self.since_rewrite = self.since_rewrite + 1;
            None
        }
    }

    /// Rewrites the file from the buffer: returns the exact lines the file
    /// must hold from now on, and resets the rewrite counter. Called by the
    /// embedding program once more when the run exits, so the file ends up
    /// holding exactly the capped tail of everything appended.
    pub fn compact(&mut self) -> (content: Vec<String>)
        requires
            old(self).wf(),
        ensures
            final(self).wf(),
            final(self).history() == old(self).history(),
            final(self).pending() == 0,
            content@.map_values(|s: String| s@) == tail_capped(old(self).history()),
    {
        self.since_rewrite = 0;
        clone_lines(&self.lines)
    }
}

/// An element-wise copy of a line vector.
fn clone_lines(v: &Vec<String>) -> (r: Vec<String>)
    ensures
        r@ == v@,
{
    let mut out: Vec<String> = Vec::new();
    let mut i: usize = 0;
    while i < v.len()
        invariant
            i <= v@.len(),
            out@ == v@.subrange(0, i as int),
        decreases v@.len() - i,
    {
        let s = v[i].clone();
        out.push(s);
        proof {
            assert(v@.subrange(0, i + 1) =~= v@.subrange(0, i as int).push(v@[i as int]));
        }
        i = i + 1;
    }
    proof {
        assert(v@.subrange(0, v@.len() as int) =~= v@);
    }
    out
}

/// After a compaction forced by the run's exit, the persisted file holds
/// exactly the last `LOG_CAPACITY` appended lines, in their original order,
/// whenever more than `LOG_CAPACITY` lines were appended.
pub proof fn lemma_compaction_keeps_exactly_last_lines(h: Seq<Seq<char>>)
    requires
        h.len() > LOG_CAPACITY as int,
    ensures
        tail_capped(h).len() == LOG_CAPACITY as int,
        forall|i: int|
            0 <= i < LOG_CAPACITY as int ==> tail_capped(h)[i] == h[h.len() - LOG_CAPACITY as int
                + i],
{
}

} // verus!
