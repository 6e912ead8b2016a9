//! Small maps from process id to a string, kept as vectors of pairs.
//!
//! A lookup takes the first pair with the pid; an insertion replaces that
//! pair or appends one; a removal drops every pair with the pid.
use vstd::prelude::*;

verus! {

/// Index of the first of the first `n` pairs with this pid.
pub open spec fn spec_index_in(s: Seq<(i32, String)>, pid: i32, n: int) -> Option<int>
    decreases n,
{
    if n <= 0 {
        None
    } else {
        match spec_index_in(s, pid, n - 1) {
            Some(i) => Some(i),
            None => if s[n - 1].0 == pid {
                Some(n - 1)
            } else {
                None
            },
        }
    }
}

/// Index of the first pair with this pid.
pub open spec fn spec_index(s: Seq<(i32, String)>, pid: i32) -> Option<int> {
    spec_index_in(s, pid, s.len() as int)
}

/// The string of the first pair with this pid.
pub open spec fn spec_lookup(s: Seq<(i32, String)>, pid: i32) -> Option<String> {
    match spec_index(s, pid) {
        Some(i) => Some(s[i].1),
        None => None,
    }
}

/// The map with `pid` mapped to `value`.
pub open spec fn spec_insert(s: Seq<(i32, String)>, pid: i32, value: String) -> Seq<(i32, String)> {
    match spec_index(s, pid) {
        Some(i) => s.update(i, (pid, value)),
        None => s.push((pid, value)),
    }
}

/// The first `n` pairs without those of this pid.
pub open spec fn spec_without_in(s: Seq<(i32, String)>, pid: i32, n: int) -> Seq<(i32, String)>
    decreases n,
{
    if n <= 0 {
        Seq::empty()
    } else {
        let prev = spec_without_in(s, pid, n - 1);
        if s[n - 1].0 == pid {
            prev
        } else {
            prev.push(s[n - 1])
        }
    }
}

/// The map without `pid`.
pub open spec fn spec_remove(s: Seq<(i32, String)>, pid: i32) -> Seq<(i32, String)> {
    spec_without_in(s, pid, s.len() as int)
}

proof fn lemma_index_stable(s: Seq<(i32, String)>, pid: i32, n: int, m: int)
    requires
        0 <= n <= m,
        spec_index_in(s, pid, n) is Some,
    ensures
        spec_index_in(s, pid, m) == spec_index_in(s, pid, n),
    decreases m - n,
{
    if m > n {
        lemma_index_stable(s, pid, n, m - 1);
    }
}

/// The index found holds the pid, and no earlier pair does.
pub proof fn lemma_index_facts(s: Seq<(i32, String)>, pid: i32, n: int)
    requires
        0 <= n <= s.len(),
    ensures
        spec_index_in(s, pid, n) matches Some(i) ==> 0 <= i < n && s[i].0 == pid && forall|j: int|
            0 <= j < i ==> s[j].0 != pid,
        spec_index_in(s, pid, n) is None ==> forall|j: int| 0 <= j < n ==> s[j].0 != pid,
    decreases n,
{
    if n > 0 {
        lemma_index_facts(s, pid, n - 1);
    }
}

/// Index of the first pair with this pid.
pub fn index_of(v: &Vec<(i32, String)>, pid: i32) -> (r: Option<usize>)
    ensures
        r matches Some(i) ==> spec_index(v@, pid) == Some(i as int) && i < v@.len(),
        r is None ==> spec_index(v@, pid) is None,
{
    let mut i: usize = 0;
    while i < v.len()
        invariant
            i <= v@.len(),
            spec_index_in(v@, pid, i as int) is None,
        decreases v@.len() - i,
    {
        if v[i].0 == pid {
            proof {
                lemma_index_stable(v@, pid, i + 1, v@.len() as int);
            }
            return Some(i);
        }
        i = i + 1;
    }
    None
}

/// The string of the first pair with this pid.
pub fn lookup(v: &Vec<(i32, String)>, pid: i32) -> (r: Option<String>)
    ensures
        r == spec_lookup(v@, pid),
{
    match index_of(v, pid) {
        Some(i) => Some(v[i].1.clone()),
        None => None,
    }
}

/// Map `pid` to `value`.
pub fn insert(v: &mut Vec<(i32, String)>, pid: i32, value: String)
    ensures
        final(v)@ == spec_insert(old(v)@, pid, value),
{
    match index_of(v, pid) {
        Some(i) => {
            v.set(i, (pid, value));
        },
        None => {
            v.push((pid, value));
        },
    }
}

/// Remove `pid`, returning what it was mapped to.
pub fn remove(v: &mut Vec<(i32, String)>, pid: i32) -> (r: Option<String>)
    ensures
        r == spec_lookup(old(v)@, pid),
        final(v)@ == spec_remove(old(v)@, pid),
{
    let found = lookup(v, pid);
    let mut kept: Vec<(i32, String)> = Vec::new();
    let mut i: usize = 0;
    while i < v.len()
        invariant
            i <= v@.len(),
            v@ == old(v)@,
            kept@ == spec_without_in(v@, pid, i as int),
        decreases v@.len() - i,
    {
        if v[i].0 != pid {
            let value = v[i].1.clone();
            kept.push((v[i].0, value));
        }
        i = i + 1;
    }
    *v = kept;
    found
}

/// A lookup after an insertion finds the inserted value for that pid and
/// the previous value for any other pid.
pub proof fn lemma_lookup_insert(s: Seq<(i32, String)>, pid: i32, value: String, other: i32)
    ensures
        spec_lookup(spec_insert(s, pid, value), pid) == Some(value),
        other != pid ==> spec_lookup(spec_insert(s, pid, value), other) == spec_lookup(s, other),
{
    let t = spec_insert(s, pid, value);
    lemma_index_facts(s, pid, s.len() as int);
    lemma_index_facts(s, other, s.len() as int);
    lemma_index_facts(t, pid, t.len() as int);
    lemma_index_facts(t, other, t.len() as int);
    match spec_index(s, pid) {
        Some(i) => {
            assert(t[i].0 == pid);
            if spec_index(t, pid) != Some(i) {
                assert(false);
            }
            if other != pid {
                match spec_index(s, other) {
                    Some(k) => {
                        assert(t[k] == s[k]);
                        if spec_index(t, other) != Some(k) {
                            assert(false);
                        }
                    },
                    None => {
                        if spec_index(t, other) is Some {
                            assert(false);
                        }
                    },
                }
            }
        },
        None => {
            assert(t[s.len() as int].0 == pid);
            if spec_index(t, pid) != Some(s.len() as int) {
                assert(false);
            }
            if other != pid {
                match spec_index(s, other) {
                    Some(k) => {
                        assert(t[k] == s[k]);
                        if spec_index(t, other) != Some(k) {
                            assert(false);
                        }
                    },
                    None => {
                        if spec_index(t, other) is Some {
                            assert(false);
                        }
                    },
                }
            }
        },
    }
}

/// The pairs kept by a removal are exactly the pairs of other pids.
proof fn lemma_without_facts(s: Seq<(i32, String)>, pid: i32, n: int)
    requires
        0 <= n <= s.len(),
    ensures
        forall|j: int|
            0 <= j < spec_without_in(s, pid, n).len() ==> (#[trigger] spec_without_in(s, pid, n)[j]).0
                != pid,
    decreases n,
{
    if n > 0 {
        lemma_without_facts(s, pid, n - 1);
        let prev = spec_without_in(s, pid, n - 1);
        assert forall|j: int| 0 <= j < spec_without_in(s, pid, n).len() implies (
        #[trigger] spec_without_in(s, pid, n)[j]).0 != pid by {
            if j < prev.len() {
                assert(spec_without_in(s, pid, n)[j] == prev[j]);
            }
        }
    }
}

/// After a removal, a lookup of that pid finds nothing.
pub proof fn lemma_lookup_remove(s: Seq<(i32, String)>, pid: i32)
    ensures
        spec_lookup(spec_remove(s, pid), pid) is None,
{
    let t = spec_remove(s, pid);
    lemma_without_facts(s, pid, s.len() as int);
    lemma_index_facts(t, pid, t.len() as int);
}

} // verus!
