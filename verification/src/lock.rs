//! The instance-lock model: exclusive, non-blocking, advisory locks keyed by
//! a path.  A `LockTable` is the set of paths currently locked; `acquire`
//! fails immediately with `LockError::AlreadyRunning` when the path is
//! already held, and a handle — which can only be obtained from a successful
//! `acquire`, and is consumed by `release` — names the path it locks.

use vstd::prelude::*;

verus! {

/// The one way acquiring the instance lock can fail: another holder
/// already has the path.
#[derive(Clone, Copy, PartialEq, Eq, Structural, Debug)]
pub enum LockError {
    AlreadyRunning,
}

/// Witness of a successful acquisition; its view is the locked path.
#[derive(Debug)]
pub struct LockHandle {
    path: String,
}

impl View for LockHandle {
    type V = Seq<char>;

    closed spec fn view(&self) -> Seq<char> {
        self.path@
    }
}

impl LockHandle {
    /// The path this handle locks.
    pub fn path(&self) -> (p: &String)
        ensures
            p@ == self@,
    {
        &self.path
    }
}

/// The set of paths currently locked, viewed as a `Set` of path contents.
#[derive(Debug)]
pub struct LockTable {
    held: Vec<String>,
}

impl View for LockTable {
    type V = Set<Seq<char>>;

    closed spec fn view(&self) -> Set<Seq<char>> {
        self.held@.map_values(|s: String| s@).to_set()
    }
}

impl LockTable {
    /// No path is recorded twice.
    pub closed spec fn wf(&self) -> bool {
        forall|i: int, j: int|
            #![trigger self.held@[i]@, self.held@[j]@]
            0 <= i < j < self.held@.len() ==> self.held@[i]@ != self.held@[j]@
    }

    /// A table with no lock held.
    pub fn new() -> (t: Self)
        ensures
            t.wf(),
            t@ == Set::<Seq<char>>::empty(),
    {
        let t = LockTable { held: Vec::new() };
        proof {
            assert(t@ =~= Set::<Seq<char>>::empty());
        }
        t
    }

    /// Try to lock `path` exclusively, without blocking: if some holder
    /// already has it the attempt fails at once and the table is unchanged;
    /// otherwise the path becomes held and the handle names it.
    pub fn acquire(&mut self, path: String) -> (r: Result<LockHandle, LockError>)
        requires
            old(self).wf(),
        ensures
            final(self).wf(),
            old(self)@.contains(path@) ==> {
                &&& r == Err::<LockHandle, LockError>(LockError::AlreadyRunning)
                &&& final(self)@ == old(self)@
            },
            !old(self)@.contains(path@) ==> {
                &&& r matches Ok(h) && h@ == path@
                &&& final(self)@ == old(self)@.insert(path@)
            },
    {
        let ghost m = self.held@.map_values(|s: String| s@);
        let mut i: usize = 0;
        while i < self.held.len()
            invariant
                old(self).wf(),
                self.held@ == old(self).held@,
                i <= self.held@.len(),
                m == self.held@.map_values(|s: String| s@),
                forall|j: int| 0 <= j < i ==> self.held@[j]@ != path@,
            decreases self.held@.len() - i,
        {
            if self.held[i] == path {
                proof {
                    assert(m[i as int] == path@);
                    assert(m.contains(path@));
                    assert(self@.contains(path@));
                }
                return Err(LockError::AlreadyRunning);
            }
            i = i + 1;
        }
        proof {
            assert(forall|j: int| 0 <= j < m.len() ==> m[j] != path@);
            assert(!m.contains(path@));
            assert(!self@.contains(path@));
        }
        let handle = LockHandle { path: path.clone() };
        let ghost pre = self.held@;
        self.held.push(path);
        proof {
            let f = |s: String| s@;
            assert(self.held@.map_values(f) =~= pre.map_values(f).push(handle@));
            pre.map_values(f).lemma_push_to_set_commute(handle@);
            assert(self@ =~= old(self)@.insert(handle@));
        }
        Ok(handle)
    }

    /// Unlock the path named by `handle`.  The handle is consumed: a lock
    /// cannot be released twice.
    pub fn release(&mut self, handle: LockHandle)
        requires
            old(self).wf(),
        ensures
            final(self).wf(),
            final(self)@ == old(self)@.remove(handle@),
    {
        let mut i: usize = 0;
        while i < self.held.len()
            invariant
                old(self).wf(),
                self.held@ == old(self).held@,
                i <= self.held@.len(),
                forall|j: int| 0 <= j < i ==> self.held@[j]@ != handle@,
            decreases self.held@.len() - i,
        {
            if self.held[i] == handle.path {
                let ghost pre = self.held@;
                self.held.remove(i);
                proof {
                    let f = |s: String| s@;
                    let m = pre.map_values(f);
                    let m2 = self.held@.map_values(f);
                    assert(pre[i as int]@ == handle.path@);
                    assert(handle@ == handle.path@);
                    assert(m[i as int] == pre[i as int]@);
                    assert(m[i as int] == handle@);
                    assert forall|y: Seq<char>|
                        m2.contains(y) implies m.to_set().remove(handle@).contains(y) by {
                        let k = choose|k: int| 0 <= k < m2.len() && m2[k] == y;
                        let k0: int = if k < i { k } else { k + 1 };
                        assert(m[k0] == y);
                        if k0 != i {
                            if k0 < i {
                                assert(pre[k0]@ != pre[i as int]@);
                            } else {
                                assert(pre[i as int]@ != pre[k0]@);
                            }
                            assert(y != handle@);
                        }
                    };
                    assert forall|y: Seq<char>|
                        m.to_set().remove(handle@).contains(y) implies m2.contains(y) by {
                        let k = choose|k: int| 0 <= k < m.len() && m[k] == y;
                        assert(y != handle@);
                        assert(m[i as int] == handle@);
                        assert(k != i);
                        let k2: int = if k < i { k } else { k - 1 };
                        assert(m2[k2] == y);
                    };
                    assert(self@ =~= old(self)@.remove(handle@));
                    assert forall|a: int, b: int|
                        0 <= a < b < self.held@.len()
                        implies self.held@[a]@ != self.held@[b]@ by {
                        let a0: int = if a < i { a } else { a + 1 };
                        let b0: int = if b < i { b } else { b + 1 };
                        assert(self.held@[a] == pre[a0]);
                        assert(self.held@[b] == pre[b0]);
                        assert(pre[a0]@ != pre[b0]@);
                    };
                }
                return;
            }
            i = i + 1;
        }
        proof {
            let f = |s: String| s@;
            let m = self.held@.map_values(f);
            assert(forall|j: int| 0 <= j < m.len() ==> m[j] != handle@);
            assert(!m.contains(handle@));
            assert(self@ =~= old(self)@.remove(handle@));
        }
    }
}

/// Mutual exclusion of the instance lock: once a path is held, it is in the
/// table, so by `acquire`'s contract a second acquisition of the same path
/// fails with `AlreadyRunning` and changes nothing; after a release of that
/// path the table no longer holds it, so a subsequent acquisition succeeds.
pub proof fn lemma_instance_lock_exclusion(held: Set<Seq<char>>, path: Seq<char>)
    requires
        !held.contains(path),
    ensures
        held.insert(path).contains(path),
        !held.insert(path).remove(path).contains(path),
        held.insert(path).remove(path) == held,
{
    assert(held.insert(path).remove(path) =~= held);
}

} // verus!
