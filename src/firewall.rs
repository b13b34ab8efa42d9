use vstd::prelude::*;

verus! {

/// Why the host packet filter could not be updated.
#[derive(Clone, Debug, PartialEq, Eq)]
pub enum FirewallError {
    CommandFailed(String),
}

/// The set of addresses (IPv4 numbers) whose inbound traffic the host
/// filter drops. Each address is listed once.
pub struct Firewall {
    pub blocked: Vec<u32>,
}

impl Firewall {
    pub open spec fn wf(&self) -> bool {
        self.blocked@.no_duplicates()
    }

    pub open spec fn blocked_set(&self) -> Set<u32> {
        self.blocked@.to_set()
    }

    pub fn new() -> (r: Self)
        ensures
            r.wf(),
            r.blocked_set() == Set::<u32>::empty(),
    {
        let r = Firewall { blocked: Vec::new() };
        assert(r.blocked_set() =~= Set::<u32>::empty());
        r
    }

    pub fn is_blocked(&self, addr: u32) -> (r: bool)
        ensures
            r == self.blocked_set().contains(addr),
    {
        let mut i: usize = 0;
        while i < self.blocked.len()
            invariant
                0 <= i <= self.blocked@.len(),
                forall|j: int| 0 <= j < i ==> self.blocked@[j] != addr,
            decreases self.blocked@.len() - i,
        {
            if self.blocked[i] == addr {
                assert(self.blocked@.contains(addr));
                return true;
            }
            i = i + 1;
        }
        false
    }

    /// Adds `addr` to the blocked set. Returns whether a filter rule must be
    /// installed: only for an address not blocked yet, so blocking again
    /// succeeds and changes nothing.
    pub fn block_ip(&mut self, addr: u32) -> (r: bool)
        requires
            old(self).wf(),
        ensures
            final(self).wf(),
            final(self).blocked_set() == old(self).blocked_set().insert(addr),
            r == !old(self).blocked_set().contains(addr),
            !r ==> final(self).blocked@ == old(self).blocked@,
    {
        if self.is_blocked(addr) {
            assert(self.blocked_set() =~= self.blocked_set().insert(addr));
            false
        } else {
            let ghost before = self.blocked@;
            self.blocked.push(addr);
            proof {
                assert(self.blocked@ == before.push(addr));
                assert(self.blocked_set() =~= before.to_set().insert(addr)) by {
                    assert forall|x: u32| self.blocked@.contains(x) <==> before.contains(x) || x == addr by {
                        if self.blocked@.contains(x) {
                            let k = choose|k: int| 0 <= k < self.blocked@.len() && self.blocked@[k] == x;
                            if k < before.len() {
                                assert(before[k] == x);
                            }
                        }
                        if before.contains(x) {
                            let k = choose|k: int| 0 <= k < before.len() && before[k] == x;
                            assert(self.blocked@[k] == x);
                        }
                        if x == addr {
                            assert(self.blocked@[before.len() as int] == x);
                        }
                    }
                }
            }
            true
        }
    }

    /// Takes `addr` out of the blocked set; returns whether it was there (and
    /// so whether its filter rule must be removed).
    pub fn unblock_ip(&mut self, addr: u32) -> (r: bool)
        requires
            old(self).wf(),
        ensures
            final(self).wf(),
            final(self).blocked_set() == old(self).blocked_set().remove(addr),
            r == old(self).blocked_set().contains(addr),
    {
        let ghost before = self.blocked@;
        let mut kept: Vec<u32> = Vec::new();
        let mut found = false;
        let mut i: usize = 0;
        while i < self.blocked.len()
            invariant
                self.blocked@ == before,
                before.no_duplicates(),
                0 <= i <= before.len(),
                kept@.no_duplicates(),
                forall|x: u32| kept@.contains(x) <==> (before.subrange(0, i as int).contains(x) && x != addr),
                found == before.subrange(0, i as int).contains(addr),
            decreases before.len() - i,
        {
            let v = self.blocked[i];
            let ghost pre = before.subrange(0, i as int);
            let ghost pre1 = before.subrange(0, i as int + 1);
            proof {
                assert(pre1 =~= pre.push(v));
                assert forall|x: u32| pre1.contains(x) <==> (pre.contains(x) || x == v) by {
                    if pre1.contains(x) {
                        let k = choose|k: int| 0 <= k < pre1.len() && pre1[k] == x;
                        if k < pre.len() {
                            assert(pre[k] == x);
                        }
                    }
                    if pre.contains(x) {
                        let k = choose|k: int| 0 <= k < pre.len() && pre[k] == x;
                        assert(pre1[k] == x);
                    }
                    if x == v {
                        assert(pre1[pre.len() as int] == x);
                    }
                }
                if pre.contains(v) {
                    let k = choose|k: int| 0 <= k < pre.len() && pre[k] == v;
                    assert(before[k] == before[i as int]);
                }
            }
            let ghost kept0 = kept@;
            assert(forall|x: u32| kept0.contains(x) <==> (pre.contains(x) && x != addr));
            if v == addr {
                found = true;
            } else {
                let ghost old_kept = kept@;
                kept.push(v);
                proof {
                    assert forall|x: u32| kept@.contains(x) <==> (old_kept.contains(x) || x == v) by {
                        if kept@.contains(x) {
                            let k = choose|k: int| 0 <= k < kept@.len() && kept@[k] == x;
                            if k < old_kept.len() {
                                assert(old_kept[k] == x);
                            }
                        }
                        if old_kept.contains(x) {
                            let k = choose|k: int| 0 <= k < old_kept.len() && old_kept[k] == x;
                            assert(kept@[k] == x);
                        }
                        if x == v {
                            assert(kept@[old_kept.len() as int] == x);
                        }
                    }
                    assert forall|a: int, b: int| 0 <= a < b < kept@.len() implies kept@[a] != kept@[b] by {
                        if b == old_kept.len() {
                            assert(old_kept.contains(kept@[a]));
                        }
                    }
                }
            }
            assert forall|x: u32| kept@.contains(x) <==> (pre1.contains(x) && x != addr) by {
                assert(pre1.contains(x) <==> (pre.contains(x) || x == v));
                assert(kept0.contains(x) <==> (pre.contains(x) && x != addr));
                if v != addr {
                    assert(kept@.contains(x) <==> (kept0.contains(x) || x == v));
                } else {
                    assert(kept@ == kept0);
                }
            }
            i = i + 1;
        }
        assert(before.subrange(0, before.len() as int) =~= before);
        self.blocked = kept;
        proof {
            assert(self.blocked_set() =~= before.to_set().remove(addr));
        }
        found
    }

    /// Reloads the filter rules; there is nothing to reload beyond the
    /// blocked set, so this always succeeds.
    pub fn update_rules(&self) -> (r: Result<(), FirewallError>)
        ensures
            r is Ok,
    {
        Ok(())
    }
}

/// Blocking an address twice leaves the same blocked set as blocking it
/// once, and the second block asks for no new filter rule.
pub proof fn lemma_block_idempotent(s: Set<u32>, addr: u32)
    ensures
        s.insert(addr).insert(addr) == s.insert(addr),
        s.insert(addr).contains(addr),
{
    assert(s.insert(addr).insert(addr) =~= s.insert(addr));
}

} // verus!
