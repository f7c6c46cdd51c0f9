//! The denylist: a bounded set of source addresses whose frames are dropped.
//! It has no eviction: inserting a new address into a full list fails, and
//! the operator has to remove an entry first.
use vstd::prelude::*;

verus! {

/// Most addresses the denylist holds.
pub const DENY_CAPACITY: usize = 1024;

/// An insertion that the denylist refused.
#[derive(Clone, Copy, Debug, PartialEq, Eq, Structural)]
pub enum DenyError {
    /// The list is full and the address is not in it.
    TableFull,
}

/// The denylist after inserting `addr` into `s`, or the reason it is refused.
/// An address already present leaves the list as it is.
pub open spec fn block_result(s: Set<u32>, addr: u32) -> Result<Set<u32>, DenyError> {
    if s.contains(addr) || s.len() < DENY_CAPACITY {
        Ok(s.insert(addr))
    } else {
        Err(DenyError::TableFull)
    }
}

/// The denylist after inserting each of `addrs` in turn, or the first
/// refusal.
pub open spec fn block_all_result(s: Set<u32>, addrs: Seq<u32>) -> Result<Set<u32>, DenyError>
    decreases addrs.len(),
{
    if addrs.len() == 0 {
        Ok(s)
    } else {
        match block_all_result(s, addrs.drop_last()) {
            Ok(t) => block_result(t, addrs.last()),
            Err(e) => Err(e),
        }
    }
}

/// Source addresses, in host byte order, whose frames are dropped.
pub struct DenyList {
    addrs: Vec<u32>,
}

impl View for DenyList {
    type V = Set<u32>;

    closed spec fn view(&self) -> Set<u32> {
        self.addrs@.to_set()
    }
}

impl DenyList {
    /// The addresses are distinct and within the capacity.
    pub closed spec fn wf(&self) -> bool {
        &&& self.addrs@.no_duplicates()
        &&& self.addrs@.len() <= DENY_CAPACITY
    }

    /// The addresses in the order they were first inserted.
    pub closed spec fn listing(&self) -> Seq<u32> {
        self.addrs@
    }

    proof fn lemma_len(&self)
        requires
            self.wf(),
        ensures
            self@.len() == self.listing().len(),
            self@.finite(),
            self.listing().to_set() == self@,
            self.listing().no_duplicates(),
            self@.len() <= DENY_CAPACITY,
    {
        self.addrs@.unique_seq_to_set();
    }

    /// An empty denylist.
    pub fn new() -> (r: DenyList)
        ensures
            r.wf(),
            r@ == Set::<u32>::empty(),
    {
        let r = DenyList { addrs: Vec::new() };
        assert(r@ =~= Set::<u32>::empty());
        r
    }

    /// Number of addresses held.
    pub fn len(&self) -> (r: usize)
        requires
            self.wf(),
        ensures
            r == self@.len(),
    {
        proof {
            self.lemma_len();
        }
        self.addrs.len()
    }

    fn find(&self, addr: u32) -> (r: Option<usize>)
        ensures
            r is None <==> !self@.contains(addr),
            r matches Some(i) ==> i < self.addrs@.len() && self.addrs@[i as int] == addr,
    {
        let mut i: usize = 0;
        while i < self.addrs.len()
            invariant
                0 <= i <= self.addrs@.len(),
                forall|j: int| 0 <= j < i ==> self.addrs@[j] != addr,
            decreases self.addrs@.len() - i,
        {
            if self.addrs[i] == addr {
                return Some(i);
            }
            i = i + 1;
        }
        None
    }

    /// Whether `addr` is denied.
    pub fn contains(&self, addr: u32) -> (r: bool)
        ensures
            r == self@.contains(addr),
    {
        self.find(addr).is_some()
    }

    /// Denies `addr`. An address already present succeeds and changes
    /// nothing; a new address in a full list is refused and changes nothing.
    pub fn insert(&mut self, addr: u32) -> (r: Result<(), DenyError>)
        requires
            old(self).wf(),
        ensures
            final(self).wf(),
            match block_result(old(self)@, addr) {
                Ok(s) => r is Ok && final(self)@ == s,
                Err(e) => r == Err::<(), DenyError>(e) && final(self)@ == old(self)@,
            },
            r is Ok && !old(self)@.contains(addr) ==> final(self).listing() == old(
                self,
            ).listing().push(addr),
            r is Err || old(self)@.contains(addr) ==> final(self).listing() == old(self).listing(),
    {
        proof {
            self.lemma_len();
        }
        if self.contains(addr) {
            assert(self@.insert(addr) =~= self@);
            return Ok(());
        }
        if self.addrs.len() >= DENY_CAPACITY {
            return Err(DenyError::TableFull);
        }
        let ghost s = self.addrs@;
        self.addrs.push(addr);
        proof {
            s.lemma_push_to_set_commute(addr);
            assert forall|i: int, j: int|
                0 <= i < self.addrs@.len() && 0 <= j < self.addrs@.len() && i != j
                implies self.addrs@[i] != self.addrs@[j] by {
                if i < s.len() && j < s.len() {
                } else if i < s.len() {
                    assert(s.contains(s[i]));
                } else {
                    assert(s.contains(s[j]));
                }
            }
        }
        Ok(())
    }

    /// Denies each of `addrs` in turn, stopping at the first refusal; the
    /// addresses inserted before it stay, and the list is then what it was
    /// after the last insertion that succeeded.
    pub fn insert_all(&mut self, addrs: &Vec<u32>) -> (r: Result<(), DenyError>)
        requires
            old(self).wf(),
        ensures
            final(self).wf(),
            match block_all_result(old(self)@, addrs@) {
                Ok(s) => r is Ok && final(self)@ == s,
                Err(e) => r == Err::<(), DenyError>(e),
            },
            r is Err ==> exists|k: int|
                0 <= k < addrs@.len() && block_all_result(old(self)@, addrs@.take(k))
                    == Ok::<Set<u32>, DenyError>(final(self)@) && block_result(
                    final(self)@,
                    addrs@[k],
                ) is Err,
    {
        let ghost s0 = self@;
        let mut i: usize = 0;
        while i < addrs.len()
            invariant
                self.wf(),
                0 <= i <= addrs@.len(),
                s0 == old(self)@,
                block_all_result(s0, addrs@.take(i as int)) == Ok::<Set<u32>, DenyError>(self@),
            decreases addrs@.len() - i,
        {
            assert(addrs@.take(i + 1).drop_last() =~= addrs@.take(i as int));
            match self.insert(addrs[i]) {
                Ok(()) => {},
                Err(e) => {
                    proof {
                        assert(addrs@.take(i + 1).last() == addrs@[i as int]);
                        assert(block_all_result(s0, addrs@.take(i + 1)) is Err);
                        lemma_refusal_persists(s0, addrs@, i as int + 1);
                        assert(block_all_result(s0, addrs@.take(i as int)) == Ok::<Set<u32>, DenyError>(self@));

                    }
                    return Err(e);
                },
            }
            i = i + 1;
        }
        assert(addrs@.take(i as int) =~= addrs@);
        Ok(())
    }

    /// Stops denying `addr`; removing an absent address changes nothing.
    pub fn remove(&mut self, addr: u32)
        requires
            old(self).wf(),
        ensures
            final(self).wf(),
            final(self)@ == old(self)@.remove(addr),
            !old(self)@.contains(addr) ==> final(self).listing() == old(self).listing(),
    {
        match self.find(addr) {
            Some(i) => {
                let ghost s = self.addrs@;
                self.addrs.remove(i);
                proof {
                    assert forall|x: u32| #[trigger] self@.contains(x) == s.to_set().remove(addr).contains(x) by {
                        if self@.contains(x) {
                            let k = choose|k: int| 0 <= k < self.addrs@.len() && self.addrs@[k] == x;
                            if k < i {
                                assert(s[k] == x);
                            } else {
                                assert(s[k + 1] == x);
                            }
                        }
                        if s.to_set().remove(addr).contains(x) {
                            let k = choose|k: int| 0 <= k < s.len() && s[k] == x;
                            assert(k != i);
                            if k < i {
                                assert(self.addrs@[k] == x);
                            } else {
                                assert(self.addrs@[k - 1] == x);
                            }
                        }
                    }
                    assert(self@ =~= s.to_set().remove(addr));
                    assert forall|a: int, b: int|
                        0 <= a < self.addrs@.len() && 0 <= b < self.addrs@.len() && a != b
                        implies self.addrs@[a] != self.addrs@[b] by {
                        let sa = if a < i { a } else { a + 1 };
                        let sb = if b < i { b } else { b + 1 };
                        assert(self.addrs@[a] == s[sa]);
                        assert(self.addrs@[b] == s[sb]);
                    }
                }
            },
            None => {
                assert(self@.remove(addr) =~= self@);
            },
        }
    }

    /// The denied addresses, each once, in the order they were inserted.
    pub fn addresses(&self) -> (r: Vec<u32>)
        requires
            self.wf(),
        ensures
            r@ == self.listing(),
            r@.to_set() == self@,
            r@.no_duplicates(),
    {
        proof {
            self.lemma_len();
        }
        self.addrs.clone()
    }
}

/// Once an insertion in a run is refused, the run as a whole is refused.
proof fn lemma_refusal_persists(s: Set<u32>, addrs: Seq<u32>, k: int)
    requires
        0 <= k <= addrs.len(),
        block_all_result(s, addrs.take(k)) is Err,
    ensures
        block_all_result(s, addrs) is Err,
    decreases addrs.len() - k,
{
    if k < addrs.len() {
        assert(addrs.take(k + 1).drop_last() =~= addrs.take(k));
        lemma_refusal_persists(s, addrs, k + 1);
    } else {
        assert(addrs.take(k) =~= addrs);
    }
}

/// Denying an address that is already denied succeeds and leaves the
/// denylist unchanged; removing an address that is not there leaves it
/// unchanged too.
pub proof fn lemma_block_unblock_idempotent(s: Set<u32>, addr: u32)
    ensures
        s.contains(addr) ==> block_result(s, addr) == Ok::<Set<u32>, DenyError>(s),
        !s.contains(addr) ==> s.remove(addr) == s,
{
    assert(s.contains(addr) ==> s.insert(addr) =~= s);
    assert(!s.contains(addr) ==> s.remove(addr) =~= s);
}

/// An address that was denied successfully is in the denylist, and removing
/// it again takes it out while every other address stays.
pub proof fn lemma_block_then_unblock(s: Set<u32>, addr: u32)
    requires
        block_result(s, addr) is Ok,
    ensures
        block_result(s, addr)->Ok_0.contains(addr),
        !block_result(s, addr)->Ok_0.remove(addr).contains(addr),
        forall|x: u32|
            x != addr ==> (block_result(s, addr)->Ok_0.remove(addr).contains(x) == s.contains(x)),
{
}

} // verus!
