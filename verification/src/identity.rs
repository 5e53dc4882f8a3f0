//! Identities of compositor-owned objects.

use vstd::prelude::*;

verus! {

/// An opaque, process-local, stable handle to one server-side object.
///
/// Equality-comparable; the embedding program guarantees a value is never
/// reused while the object it names is alive.
#[derive(Clone, Copy, Debug, Hash, PartialEq, Eq, Structural)]
pub struct RemoteIdentity {
    /// The process-local object number.
    pub id: u64,
}

impl RemoteIdentity {
    /// Wraps a process-local object number.
    pub fn new(id: u64) -> (r: RemoteIdentity)
        ensures
            r.id == id,
    {
        RemoteIdentity { id }
    }
}

/// The index of the first occurrence of `x` in `s`, or `-1` if absent.
pub open spec fn spec_first_index(s: Seq<RemoteIdentity>, x: RemoteIdentity) -> int
    decreases s.len(),
{
    if s.len() == 0 {
        -1
    } else if s[0] == x {
        0
    } else {
        let r = spec_first_index(s.drop_first(), x);
        if r < 0 {
            -1
        } else {
            r + 1
        }
    }
}

/// The sequence with the first occurrence of `x` removed; unchanged if `x`
/// does not occur.
pub open spec fn spec_remove_first(s: Seq<RemoteIdentity>, x: RemoteIdentity) -> Seq<RemoteIdentity> {
    let i = spec_first_index(s, x);
    if i < 0 {
        s
    } else {
        s.remove(i)
    }
}

/// What `spec_first_index` means: `-1` exactly when `x` is absent, and
/// otherwise the smallest index holding `x`.
pub proof fn lemma_first_index(s: Seq<RemoteIdentity>, x: RemoteIdentity)
    ensures
        spec_first_index(s, x) == -1 ==> !s.contains(x),
        spec_first_index(s, x) != -1 ==> {
            let i = spec_first_index(s, x);
            &&& 0 <= i < s.len()
            &&& s[i] == x
            &&& forall|j: int| 0 <= j < i ==> s[j] != x
        },
    decreases s.len(),
{
    if s.len() == 0 {
    } else if s[0] == x {
    } else {
        lemma_first_index(s.drop_first(), x);
        let t = s.drop_first();
        let r = spec_first_index(t, x);
        if r < 0 {
            assert forall|j: int| 0 <= j < s.len() implies s[j] != x by {
                if j == 0 {
                } else {
                    assert(s[j] == t[j - 1]);
                    assert(!t.contains(x));
                }
            }
            assert(!s.contains(x));
        } else {
            assert forall|j: int| 0 <= j < r + 1 implies s[j] != x by {
                if j > 0 {
                    assert(s[j] == t[j - 1]);
                }
            }
            assert(s[r + 1] == t[r]);
        }
    }
}

/// No identity occurs twice.
pub open spec fn spec_no_dups(s: Seq<RemoteIdentity>) -> bool {
    forall|i: int, j: int| 0 <= i < j < s.len() ==> s[i] != s[j]
}

/// Removing the first occurrence of `x` from a duplicate-free sequence
/// keeps it duplicate-free and leaves no occurrence of `x` behind.
pub proof fn lemma_remove_first_no_dups(s: Seq<RemoteIdentity>, x: RemoteIdentity)
    requires
        spec_no_dups(s),
    ensures
        spec_no_dups(spec_remove_first(s, x)),
        !spec_remove_first(s, x).contains(x),
{
    lemma_first_index(s, x);
    let fi = spec_first_index(s, x);
    if fi < 0 {
        assert(!s.contains(x));
    } else {
        let r = s.remove(fi);
        assert forall|a: int, b: int| 0 <= a < b < r.len() implies r[a] != r[b] by {
            let a0 = if a < fi {
                a
            } else {
                a + 1
            };
            let b0 = if b < fi {
                b
            } else {
                b + 1
            };
            assert(r[a] == s[a0] && r[b] == s[b0]);
        }
        assert forall|a: int| 0 <= a < r.len() implies r[a] != x by {
            let a0 = if a < fi {
                a
            } else {
                a + 1
            };
            assert(r[a] == s[a0]);
            if a0 > fi {
                assert(s[fi] != s[a0]);
            }
        }
        assert(!r.contains(x));
    }
}

/// Finds the first occurrence of `x` in `v`.
pub fn find_first(v: &Vec<RemoteIdentity>, x: RemoteIdentity) -> (r: Option<usize>)
    ensures
        match r {
            Some(i) => i == spec_first_index(v@, x) && i < v@.len() && v@[i as int] == x,
            None => spec_first_index(v@, x) == -1 && !v@.contains(x),
        },
{
    proof {
        lemma_first_index(v@, x);
    }
    let mut i: usize = 0;
    while i < v.len()
        invariant
            i <= v@.len(),
            forall|j: int| 0 <= j < i ==> v@[j] != x,
            spec_first_index(v@, x) == -1 ==> !v@.contains(x),
            spec_first_index(v@, x) != -1 ==> {
                let fi = spec_first_index(v@, x);
                &&& 0 <= fi < v@.len()
                &&& v@[fi] == x
                &&& forall|j: int| 0 <= j < fi ==> v@[j] != x
            },
        decreases v@.len() - i,
    {
        if v[i].id == x.id {
            proof {
                if spec_first_index(v@, x) == -1 {
                    assert(v@.contains(x)) by {
                        assert(v@[i as int] == x);
                    }
                }
            }
            return Some(i);
        }
        i = i + 1;
    }
    proof {
        if spec_first_index(v@, x) != -1 {
            let fi = spec_first_index(v@, x);
            assert(v@[fi] != x);
        }
    }
    None
}

/// Removes the first occurrence of `x` from `v`; leaves `v` unchanged if `x`
/// does not occur. Returns whether an occurrence was removed.
pub fn remove_first(v: &mut Vec<RemoteIdentity>, x: RemoteIdentity) -> (removed: bool)
    ensures
        final(v)@ == spec_remove_first(old(v)@, x),
        removed == old(v)@.contains(x),
{
    proof {
        lemma_first_index(v@, x);
    }
    match find_first(v, x) {
        Some(i) => {
            v.remove(i);
            proof {
                assert(old(v)@.contains(x)) by {
                    let fi = spec_first_index(old(v)@, x);
                    assert(old(v)@[fi] == x);
                }
            }
            true
        },
        None => false,
    }
}

} // verus!
