//! The active throttles of one backend: per process, the limit in bytes
//! per second and what the backend needs to undo the throttle.
use vstd::prelude::*;

verus! {

/// Active throttles, one entry per process.
pub struct PidTable<T> {
    /// (process, limit in bytes per second, backend data); no process twice.
    pub entries: Vec<(i32, u64, T)>,
}

/// Index of the first of the first `n` entries of `pid`.
pub open spec fn spec_entry_in<T>(s: Seq<(i32, u64, T)>, pid: i32, n: int) -> Option<int>
    decreases n,
{
    if n <= 0 {
        None
    } else {
        match spec_entry_in(s, pid, n - 1) {
            Some(i) => Some(i),
            None => if s[n - 1].0 == pid {
                Some(n - 1)
            } else {
                None
            },
        }
    }
}

proof fn lemma_entry_stable<T>(s: Seq<(i32, u64, T)>, pid: i32, n: int, m: int)
    requires
        0 <= n <= m,
        spec_entry_in(s, pid, n) is Some,
    ensures
        spec_entry_in(s, pid, m) == spec_entry_in(s, pid, n),
    decreases m - n,
{
    if m > n {
        lemma_entry_stable(s, pid, n, m - 1);
    }
}

proof fn lemma_entry_facts<T>(s: Seq<(i32, u64, T)>, pid: i32, n: int)
    requires
        0 <= n <= s.len(),
    ensures
        spec_entry_in(s, pid, n) matches Some(i) ==> 0 <= i < n && s[i].0 == pid,
        spec_entry_in(s, pid, n) is None ==> forall|j: int| 0 <= j < n ==> s[j].0 != pid,
    decreases n,
{
    if n > 0 {
        lemma_entry_facts(s, pid, n - 1);
    }
}

impl<T> PidTable<T> {
    /// No process appears twice.
    pub open spec fn spec_wf(&self) -> bool {
        forall|i: int, j: int|
            0 <= i < j < self.entries@.len() ==> (#[trigger] self.entries@[i]).0 != (
            #[trigger] self.entries@[j]).0
    }

    /// The limit of a process's throttle.
    pub open spec fn spec_limit(&self, pid: i32) -> Option<u64> {
        match spec_entry_in(self.entries@, pid, self.entries@.len() as int) {
            Some(i) => Some(self.entries@[i].1),
            None => None,
        }
    }

    /// The limit and data of a process's throttle.
    pub open spec fn spec_get(&self, pid: i32) -> Option<(u64, T)> {
        match spec_entry_in(self.entries@, pid, self.entries@.len() as int) {
            Some(i) => Some((self.entries@[i].1, self.entries@[i].2)),
            None => None,
        }
    }

    /// An empty table.
    pub fn new() -> (r: Self)
        ensures
            r.entries@.len() == 0,
            r.spec_wf(),
    {
        PidTable { entries: Vec::new() }
    }

    fn index_of(&self, pid: i32) -> (r: Option<usize>)
        ensures
            r matches Some(i) ==> i < self.entries@.len() && spec_entry_in(
                self.entries@,
                pid,
                self.entries@.len() as int,
            ) == Some(i as int),
            r is None ==> spec_entry_in(self.entries@, pid, self.entries@.len() as int) is None,
    {
        let mut i: usize = 0;
        while i < self.entries.len()
            invariant
                i <= self.entries@.len(),
                spec_entry_in(self.entries@, pid, i as int) is None,
            decreases self.entries@.len() - i,
        {
            if self.entries[i].0 == pid {
                proof {
                    lemma_entry_stable(self.entries@, pid, i + 1, self.entries@.len() as int);
                }
                return Some(i);
            }
            i = i + 1;
        }
        None
    }

    /// Set a process's throttle, replacing any it had.
    pub fn insert(&mut self, pid: i32, limit: u64, data: T)
        requires
            old(self).spec_wf(),
        ensures
            final(self).spec_wf(),
            final(self).spec_limit(pid) == Some(limit),
            final(self).spec_get(pid) == Some((limit, data)),
            forall|q: i32| q != pid ==> final(self).spec_limit(q) == old(self).spec_limit(q),
            forall|q: i32| q != pid ==> final(self).spec_get(q) == old(self).spec_get(q),
    {
        proof {
            lemma_entry_facts(self.entries@, pid, self.entries@.len() as int);
        }
        match self.index_of(pid) {
            Some(i) => {
                self.entries.set(i, (pid, limit, data));
                proof {
                    let s = self.entries@;
                    let o = old(self).entries@;
                    assert forall|q: i32| q != pid implies self.spec_limit(q) == old(self).spec_limit(q) && self.spec_get(q) == old(self).spec_get(q) by {
                        lemma_entry_facts(o, q, o.len() as int);
                        lemma_entry_facts(s, q, s.len() as int);
                        match spec_entry_in(o, q, o.len() as int) {
                            Some(k) => {
                                assert(s[k] == o[k]);
                                if spec_entry_in(s, q, s.len() as int) != Some(k) {
                                    lemma_entry_first(s, q, s.len() as int, k);
                                }
                            },
                            None => {
                                if spec_entry_in(s, q, s.len() as int) is Some {
                                    let k = spec_entry_in(s, q, s.len() as int)->0;
                                    assert(s[k].0 == q);
                                    assert(o[k].0 == q);
                                }
                            },
                        }
                    }
                    lemma_entry_facts(s, pid, s.len() as int);
                    lemma_entry_first(s, pid, s.len() as int, i as int);
                }
            },
            None => {
                self.entries.push((pid, limit, data));
                proof {
                    let s = self.entries@;
                    let o = old(self).entries@;
                    assert forall|q: i32| q != pid implies self.spec_limit(q) == old(self).spec_limit(q) && self.spec_get(q) == old(self).spec_get(q) by {
                        lemma_entry_facts(o, q, o.len() as int);
                        lemma_entry_facts(s, q, s.len() as int);
                        match spec_entry_in(o, q, o.len() as int) {
                            Some(k) => {
                                assert(s[k] == o[k]);
                                lemma_entry_first(s, q, s.len() as int, k);
                            },
                            None => {
                                if spec_entry_in(s, q, s.len() as int) is Some {
                                    let k = spec_entry_in(s, q, s.len() as int)->0;
                                    assert(s[k].0 == q);
                                    if k < o.len() {
                                        assert(o[k].0 == q);
                                    }
                                }
                            },
                        }
                    }
                    lemma_entry_first(s, pid, s.len() as int, o.len() as int);
                }
            },
        }
    }

    /// Remove a process's throttle, returning its limit and data.
    pub fn remove(&mut self, pid: i32) -> (r: Option<(u64, T)>)
        requires
            old(self).spec_wf(),
        ensures
            final(self).spec_wf(),
            final(self).spec_limit(pid) is None,
            final(self).spec_get(pid) is None,
            match old(self).spec_limit(pid) {
                Some(l) => r matches Some(e) && e.0 == l,
                None => r is None,
            },
            r == old(self).spec_get(pid),
            forall|q: i32| q != pid ==> final(self).spec_limit(q) == old(self).spec_limit(q),
            forall|q: i32| q != pid ==> final(self).spec_get(q) == old(self).spec_get(q),
    {
        match self.index_of(pid) {
            Some(i) => {
                let (_p, limit, data) = self.entries.remove(i);
                proof {
                    let s = self.entries@;
                    let o = old(self).entries@;
                    lemma_entry_facts(o, pid, o.len() as int);
                    assert(o[i as int].0 == pid);
                    assert(s =~= o.remove(i as int));
                    assert forall|a: int, b: int| 0 <= a < b < s.len() implies (#[trigger] s[a]).0
                        != (#[trigger] s[b]).0 by {
                        let oa = if a < i { a } else { a + 1 };
                        let ob = if b < i { b } else { b + 1 };
                        assert(s[a] == o[oa]);
                        assert(s[b] == o[ob]);
                    }
                    lemma_entry_facts(s, pid, s.len() as int);
                    if spec_entry_in(s, pid, s.len() as int) is Some {
                        let k = spec_entry_in(s, pid, s.len() as int)->0;
                        let ok = if k < i { k } else { k + 1 };
                        assert(s[k] == o[ok]);
                        assert(o[i as int].0 == pid);
                    }
                    assert forall|q: i32| q != pid implies self.spec_limit(q) == old(self).spec_limit(q) && self.spec_get(q) == old(self).spec_get(q) by {
                        lemma_entry_facts(o, q, o.len() as int);
                        lemma_entry_facts(s, q, s.len() as int);
                        match spec_entry_in(o, q, o.len() as int) {
                            Some(k) => {
                                assert(k != i);
                                let sk = if k < i { k } else { k - 1 };
                                assert(s[sk] == o[k]);
                                lemma_entry_first(s, q, s.len() as int, sk);
                            },
                            None => {
                                if spec_entry_in(s, q, s.len() as int) is Some {
                                    let k = spec_entry_in(s, q, s.len() as int)->0;
                                    let ok = if k < i { k } else { k + 1 };
                                    assert(s[k] == o[ok]);
                                }
                            },
                        }
                    }
                }
                Some((limit, data))
            },
            None => None,
        }
    }

    /// The limit of a process's throttle.
    pub fn limit_of(&self, pid: i32) -> (r: Option<u64>)
        ensures
            r == self.spec_limit(pid),
    {
        match self.index_of(pid) {
            Some(i) => Some(self.entries[i].1),
            None => None,
        }
    }

    /// Every throttle as (process, limit), in table order.
    pub fn limits(&self) -> (r: Vec<(i32, u64)>)
        ensures
            r@.len() == self.entries@.len(),
            forall|j: int|
                0 <= j < r@.len() ==> (#[trigger] r@[j]).0 == self.entries@[j].0 && r@[j].1
                    == self.entries@[j].1,
    {
        let mut v: Vec<(i32, u64)> = Vec::new();
        let mut i: usize = 0;
        while i < self.entries.len()
            invariant
                i <= self.entries@.len(),
                v@.len() == i,
                forall|j: int|
                    0 <= j < i ==> (#[trigger] v@[j]).0 == self.entries@[j].0 && v@[j].1
                        == self.entries@[j].1,
            decreases self.entries@.len() - i,
        {
            v.push((self.entries[i].0, self.entries[i].1));
            i = i + 1;
        }
        v
    }

    /// The throttled processes, in table order.
    pub fn pids(&self) -> (r: Vec<i32>)
        ensures
            r@.len() == self.entries@.len(),
            forall|j: int| 0 <= j < r@.len() ==> (#[trigger] r@[j]) == self.entries@[j].0,
    {
        let mut v: Vec<i32> = Vec::new();
        let mut i: usize = 0;
        while i < self.entries.len()
            invariant
                i <= self.entries@.len(),
                v@.len() == i,
                forall|j: int| 0 <= j < i ==> (#[trigger] v@[j]) == self.entries@[j].0,
            decreases self.entries@.len() - i,
        {
            v.push(self.entries[i].0);
            i = i + 1;
        }
        v
    }
}

proof fn lemma_entry_first<T>(s: Seq<(i32, u64, T)>, pid: i32, n: int, k: int)
    requires
        0 <= k < n <= s.len(),
        s[k].0 == pid,
        forall|a: int, b: int| 0 <= a < b < s.len() ==> (#[trigger] s[a]).0 != (#[trigger] s[b]).0,
    ensures
        spec_entry_in(s, pid, n) == Some(k),
    decreases n,
{
    if n > k + 1 {
        lemma_entry_first(s, pid, n - 1, k);
    } else {
        lemma_entry_facts(s, pid, k);
        if spec_entry_in(s, pid, k) is Some {
            let j = spec_entry_in(s, pid, k)->0;
            assert(s[j].0 == s[k].0);
        }
    }
}

} // verus!
