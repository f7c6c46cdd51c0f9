//! The per-source token-bucket table: at most `BUCKET_CAPACITY` sources,
//! kept in order of last use. Writing a new source into a full table evicts
//! the least recently used one, which then starts over at zero tokens.
use vstd::prelude::*;
use crate::bucket::{lemma_admitted_within_burst, TokenBucket};
use crate::verdict::Verdict;

verus! {

/// Most sources whose buckets are kept at once.
pub const BUCKET_CAPACITY: usize = 4096;

/// Whether some entry of `s` belongs to `addr`.
pub open spec fn has_key(s: Seq<(u32, TokenBucket)>, addr: u32) -> bool {
    exists|i: int| 0 <= i < s.len() && s[i].0 == addr
}

/// Whether no two entries of `s` belong to one source.
pub open spec fn keys_unique(s: Seq<(u32, TokenBucket)>) -> bool {
    forall|i: int, j: int| 0 <= i < s.len() && 0 <= j < s.len() && s[i].0 == s[j].0 ==> i == j
}

/// The position of the entry of `addr` in `s`.
pub open spec fn key_index(s: Seq<(u32, TokenBucket)>, addr: u32) -> int
    recommends
        has_key(s, addr),
{
    choose|i: int| 0 <= i < s.len() && s[i].0 == addr
}

/// The bucket of `addr` in `s`, if there is one.
pub open spec fn bucket_of(s: Seq<(u32, TokenBucket)>, addr: u32) -> Option<TokenBucket> {
    if has_key(s, addr) {
        Some(s[key_index(s, addr)].1)
    } else {
        None
    }
}

/// The entries after writing `b` for `addr`: an existing entry of `addr`
/// leaves its place, a full table loses its least recently used entry, and
/// the new entry becomes the most recently used.
pub open spec fn written(s: Seq<(u32, TokenBucket)>, addr: u32, b: TokenBucket) -> Seq<(u32, TokenBucket)> {
    if has_key(s, addr) {
        s.remove(key_index(s, addr)).push((addr, b))
    } else if s.len() >= BUCKET_CAPACITY {
        s.drop_first().push((addr, b))
    } else {
        s.push((addr, b))
    }
}

/// The entries after writing `b` for each of `addrs` in turn.
pub open spec fn written_all(s: Seq<(u32, TokenBucket)>, addrs: Seq<u32>, b: TokenBucket) -> Seq<(u32, TokenBucket)>
    decreases addrs.len(),
{
    if addrs.len() == 0 {
        s
    } else {
        written(written_all(s, addrs.drop_last(), b), addrs.last(), b)
    }
}

/// The verdict for `len` bytes from `src` at `now`, and the entries after it:
/// a source without a bucket starts from a fresh one, and the updated bucket
/// becomes the source's most recently used entry.
pub open spec fn rate_limited(
    s: Seq<(u32, TokenBucket)>,
    src: u32,
    len: u64,
    now: u64,
) -> (Verdict, Seq<(u32, TokenBucket)>) {
    let b = match bucket_of(s, src) {
        Some(b) => b,
        None => TokenBucket::spec_fresh(now),
    };
    let (nb, v) = b.admitted(len, now);
    (v, written(s, src, nb))
}

/// Token buckets by source address, least recently used first.
pub struct BucketTable {
    entries: Vec<(u32, TokenBucket)>,
}

impl View for BucketTable {
    type V = Seq<(u32, TokenBucket)>;

    closed spec fn view(&self) -> Seq<(u32, TokenBucket)> {
        self.entries@
    }
}

impl BucketTable {
    /// One entry per source, no more than the capacity, and no bucket
    /// holding more tokens than its burst size.
    pub open spec fn wf(&self) -> bool {
        &&& keys_unique(self@)
        &&& self@.len() <= BUCKET_CAPACITY
        &&& forall|i: int| 0 <= i < self@.len() ==> (#[trigger] self@[i]).1.wf()
    }

    /// The bucket of `addr`, if the table holds one.
    pub open spec fn spec_get(&self, addr: u32) -> Option<TokenBucket> {
        bucket_of(self@, addr)
    }

    /// An empty table.
    pub fn new() -> (r: BucketTable)
        ensures
            r.wf(),
            r@ == Seq::<(u32, TokenBucket)>::empty(),
    {
        BucketTable { entries: Vec::new() }
    }

    /// Number of sources held.
    pub fn len(&self) -> (r: usize)
        ensures
            r == self@.len(),
    {
        self.entries.len()
    }

    /// The position of the entry of `addr`, if there is one.
    fn find(&self, addr: u32) -> (r: Option<usize>)
        requires
            self.wf(),
        ensures
            r is None <==> !has_key(self@, addr),
            r matches Some(i) ==> i == key_index(self@, addr) && self@[i as int].0 == addr,
    {
        let mut i: usize = 0;
        while i < self.entries.len()
            invariant
                self.wf(),
                0 <= i <= self@.len(),
                forall|j: int| 0 <= j < i ==> self@[j].0 != addr,
            decreases self@.len() - i,
        {
            if self.entries[i].0 == addr {
                assert(keys_unique(self@));
                return Some(i);
            }
            i = i + 1;
        }
        None
    }

    /// The bucket of `addr`, if the table holds one.
    pub fn get(&self, addr: u32) -> (r: Option<TokenBucket>)
        requires
            self.wf(),
        ensures
            r == self.spec_get(addr),
            r matches Some(b) ==> b.wf(),
    {
        match self.find(addr) {
            Some(i) => Some(self.entries[i].1),
            None => None,
        }
    }

    /// Writes `b` as the bucket of `addr` and marks `addr` as the most
    /// recently used source; a duplicate key overwrites, and a new source in
    /// a full table evicts the least recently used one.
    pub fn insert(&mut self, addr: u32, b: TokenBucket)
        requires
            old(self).wf(),
            b.wf(),
        ensures
            final(self).wf(),
            final(self)@ == written(old(self)@, addr, b),
            final(self).spec_get(addr) == Some(b),
    {
        let pos = self.find(addr);
        self.put(pos, addr, b);
    }

    /// Charges `len` bytes arriving at `now` to the bucket of `src`, creating
    /// a fresh bucket for a source seen for the first time. The table is
    /// searched once.
    pub fn charge(&mut self, src: u32, len: u64, now: u64) -> (r: Verdict)
        requires
            old(self).wf(),
        ensures
            final(self).wf(),
            (r, final(self)@) == rate_limited(old(self)@, src, len, now),
    {
        let pos = self.find(src);
        let mut b = match pos {
            Some(i) => self.entries[i].1,
            None => TokenBucket::fresh(now),
        };
        proof {
            lemma_admitted_within_burst(b, len, now);
        }
        let v = b.charge(len, now);
        self.put(pos, src, b);
        v
    }

    /// Writes `b` for `addr`, given where `addr` stands now.
    fn put(&mut self, pos: Option<usize>, addr: u32, b: TokenBucket)
        requires
            old(self).wf(),
            b.wf(),
            pos is None <==> !has_key(old(self)@, addr),
            pos matches Some(i) ==> i == key_index(old(self)@, addr) && old(self)@[i as int].0 == addr,
        ensures
            final(self).wf(),
            final(self)@ == written(old(self)@, addr, b),
            final(self).spec_get(addr) == Some(b),
    {
        let ghost s = self@;
        match pos {
            Some(i) => {
                self.entries.remove(i);
            },
            None => {
                if self.entries.len() >= BUCKET_CAPACITY {
                    self.entries.remove(0);
                    assert(self@ =~= s.drop_first());
                }
            },
        }
        self.entries.push((addr, b));
        proof {
            let n = self@.len() - 1;
            assert(self@[n].0 == addr);
            assert forall|j: int| 0 <= j < n implies self@[j].0 != addr && self@[j].1.wf() by {
                if has_key(s, addr) {
                    let k = key_index(s, addr);
                    if j < k {
                        assert(self@[j] == s[j]);
                    } else {
                        assert(self@[j] == s[j + 1]);
                    }
                } else if s.len() >= BUCKET_CAPACITY {
                    assert(self@[j] == s[j + 1]);
                } else {
                    assert(self@[j] == s[j]);
                }
            }
            assert(keys_unique(self@)) by {
                assert forall|x: int, y: int|
                    0 <= x < self@.len() && 0 <= y < self@.len() && self@[x].0 == self@[y].0
                    implies x == y by {
                    if x < n && y < n {
                        if has_key(s, addr) {
                            let k = key_index(s, addr);
                            let xs = if x < k { x } else { x + 1 };
                            let ys = if y < k { y } else { y + 1 };
                            assert(self@[x] == s[xs]);
                            assert(self@[y] == s[ys]);
                        } else if s.len() >= BUCKET_CAPACITY {
                            assert(self@[x] == s[x + 1]);
                            assert(self@[y] == s[y + 1]);
                        } else {
                            assert(self@[x] == s[x]);
                            assert(self@[y] == s[y]);
                        }
                    }
                }
            }
            assert(has_key(self@, addr));
            assert(key_index(self@, addr) == n);
        }
    }

    /// Gives each of `addrs` a full bucket limited to `rate` bytes per second
    /// with bursts of up to `burst` bytes, replacing what it had.
    pub fn seed(&mut self, addrs: &Vec<u32>, rate: u64, burst: u64)
        requires
            old(self).wf(),
        ensures
            final(self).wf(),
            final(self)@ == written_all(old(self)@, addrs@, TokenBucket::spec_seeded(rate, burst)),
    {
        let b = TokenBucket::seeded(rate, burst);
        let ghost s0 = self@;
        let mut i: usize = 0;
        while i < addrs.len()
            invariant
                self.wf(),
                0 <= i <= addrs@.len(),
                b == TokenBucket::spec_seeded(rate, burst),
                self@ == written_all(s0, addrs@.take(i as int), b),
            decreases addrs@.len() - i,
        {
            assert(addrs@.take(i + 1).drop_last() =~= addrs@.take(i as int));
            self.insert(addrs[i], b);
            i = i + 1;
        }
        assert(addrs@.take(i as int) =~= addrs@);
    }
}

} // verus!
