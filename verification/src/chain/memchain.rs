use vstd::prelude::*;

use super::client::ChainError;
use super::types::{BlockHash, BlockHeader};

verus! {

/// Every header after the first names the one before it as its predecessor.
pub open spec fn linked(s: Seq<BlockHeader>) -> bool {
    forall|i: int| 0 < i < s.len() ==> #[trigger] s[i].prev == s[i - 1].hash
}

/// No two headers carry the same hash.
pub open spec fn distinct_hashes(s: Seq<BlockHeader>) -> bool {
    forall|i: int, j: int|
        0 <= i < s.len() && 0 <= j < s.len() && i != j ==> #[trigger] s[i].hash
            != #[trigger] s[j].hash
}

/// A non-empty run of linked headers, oldest first, with distinct hashes.
pub open spec fn valid_chain(s: Seq<BlockHeader>) -> bool {
    s.len() > 0 && linked(s) && distinct_hashes(s)
}

/// Some header of `s` carries hash `h`.
pub open spec fn has_hash(s: Seq<BlockHeader>, h: BlockHash) -> bool {
    exists|i: int| 0 <= i < s.len() && #[trigger] s[i].hash == h
}

/// The position of the header of `s` with hash `h`, where there is one.
pub open spec fn hash_index(s: Seq<BlockHeader>, h: BlockHash) -> int {
    choose|i: int| 0 <= i < s.len() && #[trigger] s[i].hash == h
}

/// Headers listed newest first, each naming the next one as its
/// predecessor, with distinct hashes: the order in which a store of
/// headers sorted by descending height hands them out.
pub open spec fn valid_descending(v: Seq<BlockHeader>) -> bool {
    &&& v.len() > 0
    &&& forall|i: int| 0 < i < v.len() ==> #[trigger] v[i - 1].prev == v[i].hash
    &&& distinct_hashes(v)
}

/// Walking down `o` from position `j`, the first position whose hash `s`
/// already holds, or -1 when there is none.
pub open spec fn highest_known(s: Seq<BlockHeader>, o: Seq<BlockHeader>, j: int) -> int
    decreases j + 1,
{
    if j < 0 {
        -1
    } else if has_hash(s, o[j].hash) {
        j
    } else {
        highest_known(s, o, j - 1)
    }
}

/// Walking up `o` from position `m`, the first position whose hash `s`
/// already holds, or `o.len()` when there is none.
pub open spec fn lowest_known(s: Seq<BlockHeader>, o: Seq<BlockHeader>, m: int) -> int
    decreases o.len() - m,
{
    if m >= o.len() || m < 0 {
        o.len() as int
    } else if has_hash(s, o[m].hash) {
        m
    } else {
        lowest_known(s, o, m + 1)
    }
}

/// The headers of `s` after `rebase` onto `o`: the blocks of `o` below the
/// base of `s` are put in front of it, walking down until `o`'s base, and
/// stopping short of the first block that `s` already holds.
pub open spec fn rebased(s: Seq<BlockHeader>, o: Seq<BlockHeader>) -> Seq<BlockHeader> {
    if s[0].hash == o[0].hash || !has_hash(o, s[0].prev) {
        s
    } else {
        let j = hash_index(o, s[0].prev);
        o.subrange(highest_known(s, o, j) + 1, j + 1) + s
    }
}

/// The outcome of `rebase` onto `o`.
pub open spec fn rebase_outcome(s: Seq<BlockHeader>, o: Seq<BlockHeader>) -> Result<(), ChainError> {
    if s[0].hash == o[0].hash {
        Ok(())
    } else if !has_hash(o, s[0].prev) {
        Err(ChainError::BlockNotFound)
    } else if highest_known(s, o, hash_index(o, s[0].prev)) >= 0 {
        Err(ChainError::InvalidChain)
    } else {
        Ok(())
    }
}

/// The headers of `s` after `retip` onto `o`: everything above the block
/// with `o`'s base hash is dropped and the blocks of `o` above its base are
/// appended, stopping short of the first one that the kept part holds.
pub open spec fn retipped(s: Seq<BlockHeader>, o: Seq<BlockHeader>) -> Seq<BlockHeader> {
    if !has_hash(s, o[0].hash) {
        s
    } else {
        let kept = s.subrange(0, hash_index(s, o[0].hash) + 1);
        kept + o.subrange(1, lowest_known(kept, o, 1))
    }
}

/// The outcome of `retip` onto `o`.
pub open spec fn retip_outcome(s: Seq<BlockHeader>, o: Seq<BlockHeader>) -> Result<(), ChainError> {
    if !has_hash(s, o[0].hash) {
        Err(ChainError::BlockNotFound)
    } else {
        let kept = s.subrange(0, hash_index(s, o[0].hash) + 1);
        if lowest_known(kept, o, 1) < o.len() {
            Err(ChainError::InvalidChain)
        } else {
            Ok(())
        }
    }
}

pub proof fn lemma_has_hash_concat(a: Seq<BlockHeader>, c: Seq<BlockHeader>, h: BlockHash)
    ensures
        has_hash(a + c, h) <==> (has_hash(a, h) || has_hash(c, h)),
{
    if has_hash(a + c, h) {
        let i = choose|i: int| 0 <= i < (a + c).len() && #[trigger] (a + c)[i].hash == h;
        if i < a.len() {
            assert(a[i].hash == h);
        } else {
            assert(c[i - a.len()].hash == h);
        }
    }
    if has_hash(a, h) {
        let i = choose|i: int| 0 <= i < a.len() && #[trigger] a[i].hash == h;
        assert((a + c)[i].hash == h);
    }
    if has_hash(c, h) {
        let i = choose|i: int| 0 <= i < c.len() && #[trigger] c[i].hash == h;
        assert((a + c)[a.len() + i].hash == h);
    }
}

/// In a sequence with distinct hashes the position of a hash is unique.
pub proof fn lemma_hash_index_unique(s: Seq<BlockHeader>, i: int)
    requires
        distinct_hashes(s),
        0 <= i < s.len(),
    ensures
        has_hash(s, s[i].hash),
        hash_index(s, s[i].hash) == i,
{
    assert(s[i].hash == s[i].hash);
    let k = hash_index(s, s[i].hash);
    assert(0 <= k < s.len() && s[k].hash == s[i].hash);
}

/// A position of `o` whose hash `s` does not hold is walked over by
/// `highest_known`.
proof fn lemma_highest_known_step(s: Seq<BlockHeader>, o: Seq<BlockHeader>, j: int)
    requires
        j >= 0,
        !has_hash(s, o[j].hash),
    ensures
        highest_known(s, o, j) == highest_known(s, o, j - 1),
{
}

/// Walking down from position `j` ends at `j` or below, at a known block
/// or at -1.
proof fn lemma_highest_known_range(s: Seq<BlockHeader>, o: Seq<BlockHeader>, j: int)
    requires
        j >= -1,
    ensures
        -1 <= highest_known(s, o, j) <= j,
        highest_known(s, o, j) >= 0 ==> has_hash(s, o[highest_known(s, o, j)].hash),
    decreases j + 1,
{
    if j >= 0 && !has_hash(s, o[j].hash) {
        lemma_highest_known_range(s, o, j - 1);
    }
}

/// Walking up from position `m` ends at `m` or above, within `o`.
pub proof fn lemma_lowest_known_range(s: Seq<BlockHeader>, o: Seq<BlockHeader>, m: int)
    requires
        0 <= m <= o.len(),
    ensures
        m <= lowest_known(s, o, m) <= o.len(),
    decreases o.len() - m,
{
    if m < o.len() && !has_hash(s, o[m].hash) {
        lemma_lowest_known_range(s, o, m + 1);
    }
}

/// An in-memory run of block headers from a base block up to a tip block.
pub struct Chain {
    headers: Vec<BlockHeader>,
}

impl View for Chain {
    type V = Seq<BlockHeader>;

    /// The headers from base to tip.
    closed spec fn view(&self) -> Seq<BlockHeader> {
        self.headers@
    }
}

impl Clone for Chain {
    fn clone(&self) -> (c: Self)
        ensures
            c@ == self@,
    {
        Chain { headers: self.headers.clone() }
    }
}

impl Chain {
    /// The chain is a valid run of headers.
    pub open spec fn wf(&self) -> bool {
        valid_chain(self@)
    }

    /// A chain of one block, which is both its base and its tip.
    pub fn new(tip: BlockHeader) -> (c: Self)
        ensures
            c.wf(),
            c@ == seq![tip],
    {
        let mut headers: Vec<BlockHeader> = Vec::new();
        headers.push(tip);
        let c = Chain { headers };
        assert(c@ =~= seq![tip]);
        c
    }

    /// Position of the header with hash `hash`, if the chain holds it.
    fn index_of(&self, hash: &BlockHash) -> (r: Option<usize>)
        ensures
            match r {
                Some(i) => i < self@.len() && self@[i as int].hash == *hash,
                None => !has_hash(self@, *hash),
            },
    {
        let mut i: usize = 0;
        while i < self.headers.len()
            invariant
                0 <= i <= self.headers@.len(),
                forall|k: int| 0 <= k < i ==> #[trigger] self.headers@[k].hash != *hash,
            decreases self.headers@.len() - i,
        {
            if self.headers[i].hash.same_as(hash) {
                return Some(i);
            }
            i = i + 1;
        }
        None
    }

    /// Extends the chain by `new_tip`, which must name the current tip as its
    /// predecessor. A header whose hash the chain already holds would close
    /// a cycle; it is refused as an invalid chain too.
    pub fn append(&mut self, new_tip: BlockHeader) -> (r: Result<(), ChainError>)
        requires
            old(self).wf(),
        ensures
            final(self).wf(),
            r is Err <==> (new_tip.prev != old(self)@.last().hash || has_hash(
                old(self)@,
                new_tip.hash,
            )),
            r is Err ==> r == Err::<(), ChainError>(ChainError::InvalidChain) && final(self)@
                == old(self)@,
            r is Ok ==> final(self)@ == old(self)@.push(new_tip),
    {
        let n = self.headers.len();
        if !new_tip.prev.same_as(&self.headers[n - 1].hash) {
            return Err(ChainError::InvalidChain);
        }
        if self.index_of(&new_tip.hash).is_some() {
            return Err(ChainError::InvalidChain);
        }
        self.headers.push(new_tip);
        proof {
            let s = self@;
            assert forall|i: int, j: int|
                0 <= i < s.len() && 0 <= j < s.len() && i != j implies #[trigger] s[i].hash
                != #[trigger] s[j].hash by {
                if i == n as int {
                    assert(old(self)@[j].hash == s[j].hash);
                } else if j == n as int {
                    assert(old(self)@[i].hash == s[i].hash);
                }
            }
        }
        Ok(())
    }

    /// The oldest block of the chain.
    pub fn base(&self) -> (b: BlockHeader)
        requires
            self.wf(),
        ensures
            b == self@[0],
    {
        self.headers[0]
    }

    /// The newest block of the chain.
    pub fn tip(&self) -> (t: BlockHeader)
        requires
            self.wf(),
        ensures
            t == self@.last(),
    {
        self.headers[self.headers.len() - 1]
    }

    /// Whether the chain holds a block with hash `hash`.
    pub fn contains_block(&self, hash: &BlockHash) -> (r: bool)
        ensures
            r == has_hash(self@, *hash),
    {
        self.index_of(hash).is_some()
    }

    /// The block with hash `hash`.
    pub fn get_block(&self, hash: &BlockHash) -> (r: Result<BlockHeader, ChainError>)
        requires
            self.wf(),
        ensures
            r is Ok <==> has_hash(self@, *hash),
            r matches Ok(b) ==> b == self@[hash_index(self@, *hash)] && b.hash == *hash,
            r is Err ==> r == Err::<BlockHeader, ChainError>(ChainError::BlockNotFound),
    {
        match self.index_of(hash) {
            Some(i) => {
                proof {
                    lemma_hash_index_unique(self@, i as int);
                }
                Ok(self.headers[i])
            },
            None => Err(ChainError::BlockNotFound),
        }
    }

    /// Puts `base` below the current base, which must name it as its
    /// predecessor. A header whose hash the chain already holds is refused
    /// as an invalid chain.
    pub fn prepend(&mut self, base: BlockHeader) -> (r: Result<(), ChainError>)
        requires
            old(self).wf(),
        ensures
            final(self).wf(),
            r is Err <==> (old(self)@[0].prev != base.hash || has_hash(old(self)@, base.hash)),
            r is Err ==> r == Err::<(), ChainError>(ChainError::InvalidChain) && final(self)@
                == old(self)@,
            r is Ok ==> final(self)@ == seq![base] + old(self)@,
    {
        if !self.headers[0].prev.same_as(&base.hash) {
            return Err(ChainError::InvalidChain);
        }
        if self.index_of(&base.hash).is_some() {
            return Err(ChainError::InvalidChain);
        }
        self.headers.insert(0, base);
        proof {
            let s = self@;
            let o = old(self)@;
            assert(s =~= seq![base] + o);
            assert forall|i: int| 0 < i < s.len() implies #[trigger] s[i].prev == s[i - 1].hash by {
                if i > 1 {
                    assert(s[i] == o[i - 1] && s[i - 1] == o[i - 2]);
                }
            }
            assert forall|i: int, j: int|
                0 <= i < s.len() && 0 <= j < s.len() && i != j implies #[trigger] s[i].hash
                != #[trigger] s[j].hash by {
                if i == 0 {
                    assert(o[j - 1].hash == s[j].hash);
                } else if j == 0 {
                    assert(o[i - 1].hash == s[i].hash);
                } else {
                    assert(o[i - 1].hash == s[i].hash);
                    assert(o[j - 1].hash == s[j].hash);
                }
            }
        }
        Ok(())
    }

    /// The headers from base to tip.
    pub fn iter_forwards(&self) -> (v: Vec<BlockHeader>)
        ensures
            v@ == self@,
    {
        self.headers.clone()
    }

    /// The headers from tip to base.
    pub fn iter_backwards(&self) -> (v: Vec<BlockHeader>)
        ensures
            v@ == self@.reverse(),
    {
        let n = self.headers.len();
        let mut v: Vec<BlockHeader> = Vec::new();
        let mut i: usize = n;
        while i > 0
            invariant
                i <= n == self.headers@.len(),
                v@ == self@.subrange(i as int, n as int).reverse(),
            decreases i,
        {
            i = i - 1;
            v.push(self.headers[i]);
            assert(v@ =~= self@.subrange(i as int, n as int).reverse());
        }
        v
    }
    /// Extends the chain at its base with the blocks of `other` below it,
    /// walking from the predecessor of the current base down to `other`'s
    /// base.
    pub fn rebase(&mut self, other: &Chain) -> (r: Result<(), ChainError>)
        requires
            old(self).wf(),
            other.wf(),
        ensures
            final(self).wf(),
            final(self)@ == rebased(old(self)@, other@),
            r == rebase_outcome(old(self)@, other@),
    {
        let ghost s = self@;
        let ghost o = other@;
        let ghost j: int = if has_hash(o, s[0].prev) {
            hash_index(o, s[0].prev)
        } else {
            0
        };
        let other_base = other.base();
        let mut next_block = self.base();
        let ghost mut pos: int = o.len() as int;
        loop
            invariant
                self.wf(),
                s == old(self)@,
                other@ == o,
                other.wf(),
                s.len() > 0,
                j == (if has_hash(o, s[0].prev) {
                    hash_index(o, s[0].prev)
                } else {
                    0
                }),
                other_base == o[0],
                next_block == self@[0],
                0 <= pos <= o.len(),
                pos == o.len() ==> self@ == s,
                pos < o.len() ==> {
                    &&& s[0].hash != o[0].hash
                    &&& has_hash(o, s[0].prev)
                    &&& j == hash_index(o, s[0].prev)
                    &&& 0 <= pos <= j < o.len()
                    &&& self@ == o.subrange(pos, j + 1) + s
                    &&& highest_known(s, o, j) == highest_known(s, o, pos - 1)
                },
            ensures
                self.wf(),
                self@ == rebased(s, o),
                rebase_outcome(s, o) == Ok::<(), ChainError>(()),
            decreases pos,
        {
            if next_block.hash.same_as(&other_base.hash) {
                proof {
                    if pos < o.len() {
                        assert(o[pos].hash == o[0].hash);
                        assert(pos == 0);
                        assert(o.subrange(0, j + 1) + s == rebased(s, o));
                    }
                }
                break;
            }
            let current = match other.get_block(&next_block.prev) {
                Ok(b) => b,
                Err(e) => {
                    proof {
                        if pos < o.len() {
                            assert(pos > 0);
                            assert(o[pos].prev == o[pos - 1].hash);
                            assert(o[pos - 1].hash == next_block.prev);
                        }
                    }
                    return Err(e);
                },
            };
            let ghost idx = hash_index(o, next_block.prev);
            proof {
                lemma_hash_index_unique(o, idx);
                if pos < o.len() {
                    assert(pos > 0);
                    assert(o[pos].prev == o[pos - 1].hash);
                    lemma_hash_index_unique(o, pos - 1);
                    assert(idx == pos - 1);
                } else {
                    assert(idx == j);
                }
                let part = if pos < o.len() {
                    o.subrange(pos, j + 1)
                } else {
                    o.subrange(j + 1, j + 1)
                };
                assert(self@ =~= part + s);
                lemma_has_hash_concat(part, s, current.hash);
                if has_hash(part, current.hash) {
                    let m = choose|m: int| 0 <= m < part.len() && #[trigger] part[m].hash == current.hash;
                    assert(o[pos + m].hash == o[idx].hash);
                }
                lemma_highest_known_range(s, o, idx);
            }
            match self.prepend(current) {
                Ok(()) => {},
                Err(e) => {
                    proof {
                        assert(has_hash(s, o[idx].hash));
                        assert(highest_known(s, o, idx) == idx);
                        if pos < o.len() {
                            assert(self@ =~= o.subrange(idx + 1, j + 1) + s);
                        } else {
                            assert(self@ =~= o.subrange(idx + 1, j + 1) + s);
                        }
                    }
                    return Err(e);
                },
            }
            proof {
                assert(!has_hash(s, o[idx].hash));
                lemma_highest_known_step(s, o, idx);
                assert(self@ =~= o.subrange(idx, j + 1) + s);
                pos = idx;
            }
            next_block = current;
        }
        Ok(())
    }

    /// Cuts the chain back to the block with `other`'s base hash and extends
    /// it with the blocks of `other` above its base.
    pub fn retip(&mut self, other: &Chain) -> (r: Result<(), ChainError>)
        requires
            old(self).wf(),
            other.wf(),
        ensures
            final(self).wf(),
            final(self)@ == retipped(old(self)@, other@),
            r == retip_outcome(old(self)@, other@),
    {
        let ghost s = self@;
        let ghost o = other@;
        let k = match self.index_of(&other.headers[0].hash) {
            Some(k) => k,
            None => return Err(ChainError::BlockNotFound),
        };
        proof {
            lemma_hash_index_unique(s, k as int);
        }
        let n = self.headers.len();
        assert(k < n);
        self.headers.truncate(k + 1);
        let ghost kept = self@;
        proof {
            assert(kept =~= s.subrange(0, k + 1));
            lemma_lowest_known_range(kept, o, 1);
        }
        let mut i: usize = 1;
        while i < other.headers.len()
            invariant
                self.wf(),
                other@ == o,
                other.wf(),
                kept == s.subrange(0, k + 1),
                s == old(self)@,
                k < s.len(),
                has_hash(s, o[0].hash),
                hash_index(s, o[0].hash) == k,
                s[k as int].hash == o[0].hash,
                1 <= i <= o.len(),
                self@ == kept + o.subrange(1, i as int),
                lowest_known(kept, o, 1) == lowest_known(kept, o, i as int),
            decreases o.len() - i,
        {
            let next = other.headers[i];
            proof {
                assert(self@.last().hash == next.prev) by {
                    if i == 1 {
                        assert(self@.last() == s[k as int]);
                    } else {
                        assert(self@.last() == o[i - 1]);
                    }
                }
                lemma_has_hash_concat(kept, o.subrange(1, i as int), next.hash);
                if has_hash(o.subrange(1, i as int), next.hash) {
                    let m = choose|m: int|
                        0 <= m < o.subrange(1, i as int).len() && #[trigger] o.subrange(
                            1,
                            i as int,
                        )[m].hash == next.hash;
                    assert(o[1 + m].hash == o[i as int].hash);
                }
            }
            match self.append(next) {
                Ok(()) => {},
                Err(e) => {
                    proof {
                        assert(has_hash(kept, o[i as int].hash));
                        assert(lowest_known(kept, o, i as int) == i);
                    }
                    return Err(e);
                },
            }
            proof {
                assert(self@ =~= kept + o.subrange(1, i + 1));
            }
            i = i + 1;
        }
        proof {
            assert(lowest_known(kept, o, o.len() as int) == o.len());
        }
        Ok(())
    }

    /// Builds a chain from headers listed newest first: the first becomes
    /// the tip and each following one is put below the chain built so far.
    pub fn try_from(headers: Vec<BlockHeader>) -> (r: Result<Chain, ChainError>)
        ensures
            r is Ok <==> valid_descending(headers@),
            r matches Ok(c) ==> c.wf() && c@ == headers@.reverse(),
            r matches Err(e) ==> e == (if headers@.len() == 0 {
                ChainError::EmptyChain
            } else {
                ChainError::InvalidChain
            }),
    {
        if headers.len() == 0 {
            return Err(ChainError::EmptyChain);
        }
        let ghost v = headers@;
        let mut chain = Chain::new(headers[0]);
        proof {
            assert(chain@ =~= v.subrange(0, 1).reverse());
        }
        let mut i: usize = 1;
        while i < headers.len()
            invariant
                chain.wf(),
                headers@ == v,
                1 <= i <= v.len(),
                chain@ == v.subrange(0, i as int).reverse(),
                forall|m: int| 0 < m < i ==> #[trigger] v[m - 1].prev == v[m].hash,
                distinct_hashes(v.subrange(0, i as int)),
            decreases v.len() - i,
        {
            let h = headers[i];
            proof {
                assert(chain@[0] == v[i - 1]);
                if has_hash(chain@, h.hash) {
                    let m = choose|m: int| 0 <= m < chain@.len() && #[trigger] chain@[m].hash
                        == h.hash;
                    assert(v[i - 1 - m].hash == v[i as int].hash);
                }
            }
            match chain.prepend(h) {
                Ok(()) => {},
                Err(_) => {
                    proof {
                        if v[i - 1].prev == v[i as int].hash {
                            let m = choose|m: int| 0 <= m < chain@.len() && #[trigger] chain@[m].hash
                                == h.hash;
                            let a = i - 1 - m;
                            assert(v[a].hash == v[i as int].hash);
                            assert(!distinct_hashes(v));
                        }
                    }
                    return Err(ChainError::InvalidChain);
                },
            }
            proof {
                let w = v.subrange(0, i + 1);
                assert(chain@ =~= w.reverse());
                assert forall|a: int, b: int|
                    0 <= a < w.len() && 0 <= b < w.len() && a != b implies #[trigger] w[a].hash
                    != #[trigger] w[b].hash by {
                    if a == i as int {
                        assert(chain@[i - b].hash == w[b].hash);
                    } else if b == i as int {
                        assert(chain@[i - a].hash == w[a].hash);
                    } else {
                        assert(v.subrange(0, i as int)[a].hash == w[a].hash);
                        assert(v.subrange(0, i as int)[b].hash == w[b].hash);
                    }
                }
            }
            i = i + 1;
        }
        proof {
            assert(v.subrange(0, v.len() as int) =~= v);
        }
        Ok(chain)
    }
}

/// A block appended to a chain is read back under its hash, and every block
/// read before is read back unchanged.
pub proof fn law_read_after_append(s: Seq<BlockHeader>, h: BlockHeader, g: BlockHash)
    requires
        valid_chain(s),
        valid_chain(s.push(h)),
    ensures
        has_hash(s.push(h), h.hash),
        s.push(h)[hash_index(s.push(h), h.hash)] == h,
        has_hash(s, g) ==> has_hash(s.push(h), g) && s.push(h)[hash_index(s.push(h), g)]
            == s[hash_index(s, g)],
{
    let a = s.push(h);
    lemma_hash_index_unique(a, s.len() as int);
    if has_hash(s, g) {
        let i = hash_index(s, g);
        assert(0 <= i < s.len() && s[i].hash == g);
        assert(a[i] == s[i]);
        lemma_hash_index_unique(a, i);
    }
}

/// A block prepended to a chain is read back under its hash, and every
/// block read before is read back unchanged.
pub proof fn law_read_after_prepend(s: Seq<BlockHeader>, h: BlockHeader, g: BlockHash)
    requires
        valid_chain(s),
        valid_chain(seq![h] + s),
    ensures
        has_hash(seq![h] + s, h.hash),
        (seq![h] + s)[hash_index(seq![h] + s, h.hash)] == h,
        has_hash(s, g) ==> has_hash(seq![h] + s, g) && (seq![h] + s)[hash_index(seq![h] + s, g)]
            == s[hash_index(s, g)],
{
    let b = seq![h] + s;
    lemma_hash_index_unique(b, 0);
    if has_hash(s, g) {
        let i = hash_index(s, g);
        assert(0 <= i < s.len() && s[i].hash == g);
        assert(b[i + 1] == s[i]);
        lemma_hash_index_unique(b, i + 1);
    }
}

/// Listing a chain from tip to base and building a chain from that list
/// gives the chain back: the list is a valid newest-first run of headers,
/// and reversed it is the chain.
pub proof fn law_rebuild_from_backwards(s: Seq<BlockHeader>)
    requires
        valid_chain(s),
    ensures
        valid_descending(s.reverse()),
        s.reverse().reverse() == s,
{
    let v = s.reverse();
    assert forall|i: int| 0 < i < v.len() implies #[trigger] v[i - 1].prev == v[i].hash by {
        assert(v[i - 1] == s[s.len() - i]);
        assert(v[i] == s[s.len() - 1 - i]);
    }
    assert forall|i: int, j: int|
        0 <= i < v.len() && 0 <= j < v.len() && i != j implies #[trigger] v[i].hash
        != #[trigger] v[j].hash by {
        assert(v[i] == s[s.len() - 1 - i]);
        assert(v[j] == s[s.len() - 1 - j]);
    }
    assert(v.reverse() =~= s);
}

/// A successful retip keeps the base of the chain and makes the tip of the
/// other chain its tip.
pub proof fn law_retip_moves_tip(s: Seq<BlockHeader>, o: Seq<BlockHeader>)
    requires
        valid_chain(s),
        valid_chain(o),
        retip_outcome(s, o) is Ok,
    ensures
        retipped(s, o)[0] == s[0],
        retipped(s, o).last().hash == o.last().hash,
{
    let k = hash_index(s, o[0].hash);
    let kept = s.subrange(0, k + 1);
    lemma_lowest_known_range(kept, o, 1);
    let r = kept + o.subrange(1, o.len() as int);
    assert(retipped(s, o) == r);
    if o.len() == 1 {
        assert(r.last() == s[k]);
    } else {
        assert(r.last() == o.last());
    }
}

/// A successful rebase keeps the tip of the chain and starts it at the
/// base of the other chain.
pub proof fn law_rebase_keeps_tip(s: Seq<BlockHeader>, o: Seq<BlockHeader>)
    requires
        valid_chain(s),
        valid_chain(o),
        rebase_outcome(s, o) is Ok,
    ensures
        rebased(s, o).last() == s.last(),
        rebased(s, o)[0].hash == o[0].hash,
{
    if s[0].hash != o[0].hash {
        let j = hash_index(o, s[0].prev);
        assert(0 <= j < o.len() && o[j].hash == s[0].prev);
        lemma_highest_known_range(s, o, j);
        assert(highest_known(s, o, j) == -1);
        let part = o.subrange(0, j + 1);
        assert(part[0] == o[0]);
        assert((part + s)[0] == o[0]);
        assert((part + s).last() == s.last());
    }
}

/// A chain that reaches a known block only at its base retips the known
/// chain without error, and its tip becomes the tip of the known chain.
/// This is the shape of the chain that a sync finds: the walk back stops
/// at the first block that the known chain holds.
pub proof fn law_synced_chain_retips(existing: Seq<BlockHeader>, found: Seq<BlockHeader>)
    requires
        valid_chain(existing),
        valid_chain(found),
        has_hash(existing, found[0].hash),
        forall|i: int| 0 < i < found.len() ==> !has_hash(existing, #[trigger] found[i].hash),
    ensures
        retip_outcome(existing, found) is Ok,
        retipped(existing, found).last().hash == found.last().hash,
{
    let k = hash_index(existing, found[0].hash);
    let kept = existing.subrange(0, k + 1);
    assert forall|i: int| 1 <= i < found.len() implies !has_hash(kept, #[trigger] found[i].hash) by {
        if has_hash(kept, found[i].hash) {
            let m = choose|m: int| 0 <= m < kept.len() && #[trigger] kept[m].hash == found[i].hash;
            assert(existing[m].hash == found[i].hash);
        }
    }
    lemma_lowest_known_unknown(kept, found, 1);
    law_retip_moves_tip(existing, found);
}

proof fn lemma_lowest_known_unknown(s: Seq<BlockHeader>, o: Seq<BlockHeader>, m: int)
    requires
        0 <= m <= o.len(),
        forall|i: int| m <= i < o.len() ==> !has_hash(s, #[trigger] o[i].hash),
    ensures
        lowest_known(s, o, m) == o.len(),
    decreases o.len() - m,
{
    if m < o.len() {
        lemma_lowest_known_unknown(s, o, m + 1);
    }
}

} // verus!
