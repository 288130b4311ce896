//! The process registry: run id to process id, at most one entry per id.
//!
//! The registry is the shared table the supervisor consults before spawning
//! and releases when a run exits or the whole supervisor shuts down. The
//! embedding program serializes access to it (one lock around each call);
//! this module guarantees the table's own laws: `try_register` refuses a
//! duplicate id, `unregister` is an idempotent no-op on an absent id, and
//! `drain_all` empties the table and hands every entry out exactly once.

use vstd::prelude::*;
use vstd::map::*;
use vstd::string::StringExecFns;

verus! {

/// A start request was refused because the id is still registered.
#[derive(Debug)]
pub struct AlreadyRunning;

impl AlreadyRunning {
    /// The error text reported to the caller of a refused start.
    pub fn message(&self) -> (r: String)
        ensures
            r@ == "Project is already running"@,
    {
        String::from_str("Project is already running")
    }
}

/// No two entries share a run id.
pub open spec fn distinct_ids(s: Seq<(String, u32)>) -> bool {
    forall|i: int, j: int| 0 <= i < j < s.len() ==> s[i].0@ != s[j].0@
}

/// Some entry carries the run id `k`.
pub open spec fn holds_id(s: Seq<(String, u32)>, k: Seq<char>) -> bool {
    exists|i: int| 0 <= i < s.len() && s[i].0@ == k
}

/// The finite map an entry sequence stands for (later entries win; a
/// well-formed registry holds each id at most once, so none is shadowed).
pub open spec fn map_of_entries(s: Seq<(String, u32)>) -> Map<Seq<char>, u32>
    decreases s.len(),
{
    if s.len() == 0 {
        Map::empty()
    } else {
        map_of_entries(s.drop_last()).insert(s.last().0@, s.last().1)
    }
}

pub proof fn lemma_map_of_entries_contains(s: Seq<(String, u32)>, k: Seq<char>)
    ensures
        map_of_entries(s).contains_key(k) <==> holds_id(s, k),
    decreases s.len(),
{
    if s.len() == 0 {
    } else {
        lemma_map_of_entries_contains(s.drop_last(), k);
        if k == s.last().0@ {
            assert(s[s.len() - 1].0@ == k);
            assert(holds_id(s, k));
        } else {
            if holds_id(s, k) {
                let i = choose|i: int| 0 <= i < s.len() && s[i].0@ == k;
                assert(i < s.len() - 1);
                assert(s.drop_last()[i] == s[i]);
                assert(holds_id(s.drop_last(), k));
            }
            if holds_id(s.drop_last(), k) {
                let i = choose|i: int| 0 <= i < s.drop_last().len() && s.drop_last()[i].0@ == k;
                assert(s[i].0@ == k);
                assert(holds_id(s, k));
            }
        }
    }
}

pub proof fn lemma_map_of_entries_value(s: Seq<(String, u32)>, i: int)
    requires
        distinct_ids(s),
        0 <= i < s.len(),
    ensures
        map_of_entries(s).contains_key(s[i].0@),
        map_of_entries(s)[s[i].0@] == s[i].1,
    decreases s.len(),
{
    if i == s.len() - 1 {
    } else {
        assert(forall|a: int, b: int|
            0 <= a < b < s.drop_last().len() ==> s.drop_last()[a].0@ != s.drop_last()[b].0@);
        assert(s.drop_last()[i] == s[i]);
        lemma_map_of_entries_value(s.drop_last(), i);
        assert(s.last().0@ != s[i].0@);
    }
}

pub proof fn lemma_map_of_entries_remove(s: Seq<(String, u32)>, i: int)
    requires
        distinct_ids(s),
        0 <= i < s.len(),
    ensures
        map_of_entries(s.remove(i)) == map_of_entries(s).remove(s[i].0@),
    decreases s.len(),
{
    let k = s[i].0@;
    s.remove_ensures(i);
    if i == s.len() - 1 {
        assert(s.remove(i) =~= s.drop_last());
        lemma_map_of_entries_contains(s.drop_last(), k);
        assert forall|j: int| 0 <= j < s.drop_last().len() implies s.drop_last()[j].0@ != k by {
            assert(s.drop_last()[j] == s[j]);
        }
        assert(!holds_id(s.drop_last(), k));
        assert(!map_of_entries(s.drop_last()).contains_key(k));
        assert(map_of_entries(s.drop_last()).insert(k, s[i].1).remove(k) =~= map_of_entries(
            s.drop_last(),
        ));
    } else {
        assert(forall|a: int, b: int|
            0 <= a < b < s.drop_last().len() ==> s.drop_last()[a].0@ != s.drop_last()[b].0@);
        assert(s.drop_last()[i] == s[i]);
        lemma_map_of_entries_remove(s.drop_last(), i);
        let r = s.remove(i);
        assert(r.len() == s.len() - 1);
        assert(r.last() == s[s.len() - 1]);
        assert(r.drop_last() =~= s.drop_last().remove(i)) by {
            s.drop_last().remove_ensures(i);
            assert forall|x: int| 0 <= x < r.drop_last().len() implies r.drop_last()[x]
                == s.drop_last().remove(i)[x] by {
                if x < i {
                    assert(r[x] == s[x]);
                    assert(s.drop_last().remove(i)[x] == s.drop_last()[x]);
                } else {
                    assert(r[x] == s[x + 1]);
                    assert(s.drop_last().remove(i)[x] == s.drop_last()[x + 1]);
                }
            }
        }
        let lk = s.last().0@;
        let lv = s.last().1;
        assert(map_of_entries(r) == map_of_entries(s.drop_last()).remove(k).insert(lk, lv));
        assert(k != lk);
        assert(map_of_entries(s.drop_last()).remove(k).insert(lk, lv) =~= map_of_entries(
            s.drop_last(),
        ).insert(lk, lv).remove(k));
    }
}

pub proof fn lemma_distinct_remove(s: Seq<(String, u32)>, i: int)
    requires
        distinct_ids(s),
        0 <= i < s.len(),
    ensures
        distinct_ids(s.remove(i)),
{
    s.remove_ensures(i);
    let r = s.remove(i);
    assert forall|a: int, b: int| 0 <= a < b < r.len() implies r[a].0@ != r[b].0@ by {
        let sa: int = if a < i {
            a
        } else {
            a + 1
        };
        let sb: int = if b < i {
            b
        } else {
            b + 1
        };
        assert(r[a] == s[sa]);
        assert(r[b] == s[sb]);
    }
}

/// A stop request or a release for an id with no active entry is a silent
/// no-op, never an error: the stop decision (`lookup`) signals no process,
/// and `unregister` leaves the registry exactly as it was.
pub proof fn lemma_stop_absent_id_is_noop(m: Map<Seq<char>, u32>, id: Seq<char>)
    requires
        !m.contains_key(id),
    ensures
        m.remove(id) == m,
{
    assert(m.remove(id) =~= m);
}

/// The registry: one entry per running command.
pub struct ProcessState {
    entries: Vec<(String, u32)>,
}

impl View for ProcessState {
    type V = Map<Seq<char>, u32>;

    /// The registry as the map from run id to process id.
    closed spec fn view(&self) -> Map<Seq<char>, u32> {
        map_of_entries(self.entries@)
    }
}

impl ProcessState {
    /// Each run id occurs at most once.
    pub closed spec fn wf(&self) -> bool {
        distinct_ids(self.entries@)
    }

    /// Number of registered runs.
    pub closed spec fn entry_count(&self) -> int {
        self.entries@.len() as int
    }

    /// An empty registry.
    pub fn new() -> (s: Self)
        ensures
            s.wf(),
            s@ == Map::<Seq<char>, u32>::empty(),
            s.entry_count() == 0,
    {
        ProcessState { entries: Vec::new() }
    }

    /// How many runs are currently registered.
    pub fn active_count(&self) -> (n: usize)
        ensures
            n as int == self.entry_count(),
    {
        self.entries.len()
    }

    /// The process id registered under `id`, if any. Non-blocking read; also
    /// the whole decision of a stop request: the caller signals the returned
    /// process id and touches nothing when the id is not registered.
    pub fn lookup(&self, id: &String) -> (r: Option<u32>)
        requires
            self.wf(),
        ensures
            r == if self@.contains_key(id@) {
                Some(self@[id@])
            } else {
                None::<u32>
            },
    {
        let n = self.entries.len();
        let mut i: usize = 0;
        while i < n
            invariant
                self.wf(),
                n == self.entries@.len(),
                i <= n,
                forall|j: int| 0 <= j < i ==> self.entries@[j].0@ != id@,
            decreases n - i,
        {
            if self.entries[i].0 == *id {
                proof {
                    lemma_map_of_entries_value(self.entries@, i as int);
                }
                return Some(self.entries[i].1);
            }
            i = i + 1;
        }
        proof {
            lemma_map_of_entries_contains(self.entries@, id@);
        }
        None
    }

    /// Checks for an existing entry under `id` and inserts one atomically
    /// from the caller's point of view: refused, with the registry unchanged,
    /// exactly when `id` is already registered.
    pub fn try_register(&mut self, id: &String, pid: u32) -> (r: Result<(), AlreadyRunning>)
        requires
            old(self).wf(),
        ensures
            final(self).wf(),
            old(self)@.contains_key(id@) ==> r is Err && final(self)@ == old(self)@
                && final(self).entry_count() == old(self).entry_count(),
            !old(self)@.contains_key(id@) ==> r is Ok
                && final(self)@ == old(self)@.insert(id@, pid)
                && final(self).entry_count() == old(self).entry_count() + 1,
    {
        if self.lookup(id).is_some() {
            return Err(AlreadyRunning);
        }
        proof {
            lemma_map_of_entries_contains(self.entries@, id@);
        }
        let entry = (id.clone(), pid);
        self.entries.push(entry);
        proof {
            let s2 = self.entries@;
            let s = old(self).entries@;
            assert(s2.drop_last() =~= s);
            assert forall|a: int, b: int| 0 <= a < b < s2.len() implies s2[a].0@ != s2[b].0@ by {
                if b == s2.len() - 1 {
                    assert(s2[a] == s[a]);
                    assert(!holds_id(s, id@));
                    assert(s[a].0@ != id@);
                }
            }
        }
        Ok(())
    }

    /// Removes the entry under `id`; a no-op, never an error, when no such
    /// entry exists (the run may have exited already).
    pub fn unregister(&mut self, id: &String)
        requires
            old(self).wf(),
        ensures
            final(self).wf(),
            final(self)@ == old(self)@.remove(id@),
    {
        let n = self.entries.len();
        let mut i: usize = 0;
        while i < n
            invariant
                self.wf(),
                self.entries@ == old(self).entries@,
                n == self.entries@.len(),
                i <= n,
                forall|j: int| 0 <= j < i ==> self.entries@[j].0@ != id@,
            decreases n - i,
        {
            if self.entries[i].0 == *id {
                proof {
                    lemma_map_of_entries_remove(self.entries@, i as int);
                    lemma_distinct_remove(self.entries@, i as int);
                }
                self.entries.remove(i);
                return;
            }
            i = i + 1;
        }
        proof {
            lemma_map_of_entries_contains(self.entries@, id@);
            assert(!self@.contains_key(id@));
            assert(self@.remove(id@) =~= self@);
        }
    }

    /// Empties the registry and returns every entry that was in it, so a
    /// shutdown signals each drained process exactly once.
    pub fn drain_all(&mut self) -> (drained: Vec<(String, u32)>)
        requires
            old(self).wf(),
        ensures
            final(self).wf(),
            final(self)@ == Map::<Seq<char>, u32>::empty(),
            final(self).entry_count() == 0,
            map_of_entries(drained@) == old(self)@,
            distinct_ids(drained@),
    {
        let mut drained: Vec<(String, u32)> = Vec::new();
        let n = self.entries.len();
        let mut i: usize = 0;
        while i < n
            invariant
                self.entries@ == old(self).entries@,
                n == self.entries@.len(),
                i <= n,
                drained@ == self.entries@.subrange(0, i as int),
            decreases n - i,
        {
            let pid = self.entries[i].1;
            let rid = self.entries[i].0.clone();
            drained.push((rid, pid));
            proof {
                assert(drained@.last() == self.entries@[i as int]);
                assert(drained@ =~= self.entries@.subrange(0, i + 1));
            }
            i = i + 1;
        }
        proof {
            assert(drained@ =~= self.entries@);
        }
        self.entries = Vec::new();
        drained
    }
}

} // verus!
