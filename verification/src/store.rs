//! Keyed in-memory stores backing the ledger.
//!
//! Each store is an association list abstracted, through its view, as a
//! mathematical map. `KvList` maps 32-byte digests to values; `NonceStore`
//! maps (origin chain, account) pairs to counters. Well-formedness means the
//! stored keys are pairwise distinct, so the list and the map agree.

use vstd::prelude::*;
use crate::pallet::ChainId;

verus! {

/// Compare two 32-byte digests byte for byte.
fn hash_eq(a: &[u8; 32], b: &[u8; 32]) -> (r: bool)
    ensures
        r <==> a@ == b@,
{
    let mut i: usize = 0;
    while i < 32
        invariant
            i <= 32,
            forall|j: int| 0 <= j < i ==> a@[j] == b@[j],
        decreases 32 - i,
    {
        if a[i] != b[i] {
            return false;
        }
        i += 1;
    }
    proof {
        assert(a@ =~= b@);
    }
    true
}

/// An association list from 32-byte digests to values, viewed as a map from
/// the digest bytes to the values' views.
pub struct KvList<V: View> {
    pairs: Vec<([u8; 32], V)>,
}

impl<V: View> KvList<V> {
    /// Key stored at position `i`.
    pub closed spec fn key_at(s: Seq<([u8; 32], V)>, i: int) -> Seq<u8> {
        s[i].0@
    }

    /// View of the value stored at position `i`.
    pub closed spec fn val_at(s: Seq<([u8; 32], V)>, i: int) -> V::V {
        s[i].1@
    }

    /// No key occurs twice.
    pub closed spec fn distinct_keys(s: Seq<([u8; 32], V)>) -> bool {
        forall|i: int, j: int|
            0 <= i < j < s.len() ==> Self::key_at(s, i) != Self::key_at(s, j)
    }

    /// Some position holds key `k`.
    pub closed spec fn has_key(s: Seq<([u8; 32], V)>, k: Seq<u8>) -> bool {
        exists|i: int| 0 <= i < s.len() && Self::key_at(s, i) == k
    }

    /// The map described by an association list: later entries shadow earlier
    /// ones (well-formed lists have no shadowing).
    pub closed spec fn assoc(s: Seq<([u8; 32], V)>) -> Map<Seq<u8>, V::V>
        decreases s.len(),
    {
        if s.len() <= 0 {
            Map::empty()
        } else {
            Self::assoc(s.drop_last()).insert(s.last().0@, s.last().1@)
        }
    }

    /// The stored keys are pairwise distinct.
    pub closed spec fn wf(&self) -> bool {
        Self::distinct_keys(self.pairs@)
    }

    proof fn lemma_assoc_contains(s: Seq<([u8; 32], V)>)
        ensures
            forall|k: Seq<u8>|
                #[trigger] Self::assoc(s).contains_key(k) <==> Self::has_key(s, k),
        decreases s.len(),
    {
        if s.len() > 0 {
            Self::lemma_assoc_contains(s.drop_last());
            assert forall|k: Seq<u8>| #[trigger] Self::assoc(s).contains_key(k) implies Self::has_key(s, k) by {
                if k == s.last().0@ {
                    assert(Self::key_at(s, s.len() - 1) == k);
                } else {
                    assert(Self::assoc(s.drop_last()).contains_key(k));
                    let i = choose|i: int|
                        0 <= i < s.drop_last().len() && Self::key_at(s.drop_last(), i) == k;
                    assert(Self::key_at(s, i) == k);
                }
            }
            assert forall|k: Seq<u8>| Self::has_key(s, k) implies #[trigger] Self::assoc(s).contains_key(k) by {
                let i = choose|i: int| 0 <= i < s.len() && Self::key_at(s, i) == k;
                if i < s.len() - 1 {
                    assert(Self::key_at(s.drop_last(), i) == k);
                    assert(Self::has_key(s.drop_last(), k));
                    assert(Self::assoc(s.drop_last()).contains_key(k));
                } else {
                    assert(k == s.last().0@);
                }
            }
        }
    }

    proof fn lemma_assoc_at(s: Seq<([u8; 32], V)>, i: int)
        requires
            Self::distinct_keys(s),
            0 <= i < s.len(),
        ensures
            Self::assoc(s).contains_key(Self::key_at(s, i)),
            Self::assoc(s)[Self::key_at(s, i)] == Self::val_at(s, i),
        decreases s.len(),
    {
        if i == s.len() - 1 {
        } else {
            assert(Self::key_at(s, i) != Self::key_at(s, s.len() - 1));
            assert(Self::key_at(s.drop_last(), i) == Self::key_at(s, i));
            assert(Self::val_at(s.drop_last(), i) == Self::val_at(s, i));
            assert forall|j1: int, j2: int| 0 <= j1 < j2 < s.drop_last().len() implies Self::key_at(
                s.drop_last(),
                j1,
            ) != Self::key_at(s.drop_last(), j2) by {
                assert(Self::key_at(s.drop_last(), j1) == Self::key_at(s, j1));
                assert(Self::key_at(s.drop_last(), j2) == Self::key_at(s, j2));
            }
            Self::lemma_assoc_at(s.drop_last(), i);
        }
    }

    /// Create an empty store.
    pub fn new() -> (r: Self)
        ensures
            r.wf(),
            r@ == Map::<Seq<u8>, V::V>::empty(),
    {
        KvList { pairs: Vec::new() }
    }

    /// Look a key up.
    pub fn get(&self, key: &[u8; 32]) -> (r: Option<&V>)
        requires
            self.wf(),
        ensures
            match r {
                Some(v) => self@.contains_key(key@) && v@ == self@[key@],
                None => !self@.contains_key(key@),
            },
    {
        proof {
            Self::lemma_assoc_contains(self.pairs@);
        }
        let n = self.pairs.len();
        let mut i: usize = 0;
        while i < n
            invariant
                self.wf(),
                n == self.pairs@.len(),
                i <= n,
                forall|j: int| 0 <= j < i ==> Self::key_at(self.pairs@, j) != key@,
            decreases n - i,
        {
            if hash_eq(&self.pairs[i].0, key) {
                proof {
                    assert(Self::key_at(self.pairs@, i as int) == key@);
                    Self::lemma_assoc_at(self.pairs@, i as int);
                }
                return Some(&self.pairs[i].1);
            }
            i += 1;
        }
        proof {
            assert(!Self::has_key(self.pairs@, key@));
        }
        None
    }

    /// Position of a key, if present.
    fn index_of(&self, key: &[u8; 32]) -> (r: Option<usize>)
        requires
            self.wf(),
        ensures
            match r {
                Some(i) => i < self.pairs@.len() && Self::key_at(self.pairs@, i as int) == key@,
                None => !Self::has_key(self.pairs@, key@),
            },
    {
        let n = self.pairs.len();
        let mut i: usize = 0;
        while i < n
            invariant
                self.wf(),
                n == self.pairs@.len(),
                i <= n,
                forall|j: int| 0 <= j < i ==> Self::key_at(self.pairs@, j) != key@,
            decreases n - i,
        {
            if hash_eq(&self.pairs[i].0, key) {
                proof {
                    assert(Self::key_at(self.pairs@, i as int) == key@);
                }
                return Some(i);
            }
            i += 1;
        }
        None
    }

    proof fn lemma_assoc_remove_idx(s: Seq<([u8; 32], V)>, i: int)
        requires
            Self::distinct_keys(s),
            0 <= i < s.len(),
        ensures
            Self::distinct_keys(s.remove(i)),
            Self::assoc(s.remove(i)) == Self::assoc(s).remove(Self::key_at(s, i)),
    {
        let t = s.remove(i);
        s.remove_ensures(i);
        assert forall|j1: int, j2: int| 0 <= j1 < j2 < t.len() implies Self::key_at(t, j1)
            != Self::key_at(t, j2) by {
            let o1: int = if j1 < i { j1 } else { j1 + 1 };
            let o2: int = if j2 < i { j2 } else { j2 + 1 };
            assert(Self::key_at(t, j1) == Self::key_at(s, o1));
            assert(Self::key_at(t, j2) == Self::key_at(s, o2));
        }
        Self::lemma_assoc_contains(s);
        Self::lemma_assoc_contains(t);
        let k0 = Self::key_at(s, i);
        assert forall|k: Seq<u8>| true implies #[trigger] Self::assoc(t).contains_key(k)
            == Self::assoc(s).remove(k0).contains_key(k) by {
            if k == k0 {
                if Self::has_key(t, k) {
                    let j = choose|j: int| 0 <= j < t.len() && Self::key_at(t, j) == k;
                    let o: int = if j < i { j } else { j + 1 };
                    assert(Self::key_at(s, o) == k);
                    assert(o != i);
                    assert(false);
                }
            } else {
                if Self::has_key(s, k) {
                    let j = choose|j: int| 0 <= j < s.len() && Self::key_at(s, j) == k;
                    assert(j != i);
                    let jt: int = if j < i { j } else { j - 1 };
                    assert(Self::key_at(t, jt) == k);
                }
                if Self::has_key(t, k) {
                    let j = choose|j: int| 0 <= j < t.len() && Self::key_at(t, j) == k;
                    let o: int = if j < i { j } else { j + 1 };
                    assert(Self::key_at(s, o) == k);
                }
            }
        }
        assert forall|k: Seq<u8>| Self::assoc(t).contains_key(k) implies Self::assoc(t)[k]
            == Self::assoc(s).remove(k0)[k] by {
            let j = choose|j: int| 0 <= j < t.len() && Self::key_at(t, j) == k;
            let o: int = if j < i { j } else { j + 1 };
            assert(Self::key_at(s, o) == k);
            Self::lemma_assoc_at(t, j);
            Self::lemma_assoc_at(s, o);
            assert(Self::val_at(t, j) == Self::val_at(s, o));
        }
        assert(Self::assoc(t) =~= Self::assoc(s).remove(k0));
    }

    proof fn lemma_assoc_push(s: Seq<([u8; 32], V)>, p: ([u8; 32], V))
        requires
            Self::distinct_keys(s),
            !Self::has_key(s, p.0@),
        ensures
            Self::distinct_keys(s.push(p)),
            Self::assoc(s.push(p)) == Self::assoc(s).insert(p.0@, p.1@),
    {
        let t = s.push(p);
        assert(t.drop_last() =~= s);
        assert(t.last() == p);
        assert forall|j1: int, j2: int| 0 <= j1 < j2 < t.len() implies Self::key_at(t, j1)
            != Self::key_at(t, j2) by {
            if j2 == t.len() - 1 {
                assert(Self::key_at(t, j1) == Self::key_at(s, j1));
                assert(Self::key_at(t, j2) == p.0@);
                assert(Self::has_key(s, Self::key_at(s, j1)));
            } else {
                assert(Self::key_at(t, j1) == Self::key_at(s, j1));
                assert(Self::key_at(t, j2) == Self::key_at(s, j2));
            }
        }
    }

    /// Insert a value under a key, replacing any value already there.
    pub fn insert(&mut self, key: [u8; 32], value: V)
        requires
            old(self).wf(),
        ensures
            final(self).wf(),
            final(self)@ == old(self)@.insert(key@, value@),
    {
        proof {
            Self::lemma_assoc_contains(self.pairs@);
        }
        let idx = self.index_of(&key);
        match idx {
            Some(i) => {
                proof {
                    Self::lemma_assoc_remove_idx(self.pairs@, i as int);
                }
                let ghost before = self.pairs@;
                self.pairs.remove(i);
                proof {
                    assert(!Self::has_key(self.pairs@, key@)) by {
                        Self::lemma_assoc_contains(self.pairs@);
                        assert(Self::assoc(self.pairs@) == Self::assoc(before).remove(key@));
                        assert(!Self::assoc(self.pairs@).contains_key(key@));
                    }
                    Self::lemma_assoc_push(self.pairs@, (key, value));
                }
                let ghost mid = self.pairs@;
                self.pairs.push((key, value));
                proof {
                    assert(self.pairs@ == mid.push((key, value)));
                    assert(Self::assoc(self.pairs@) =~= Self::assoc(before).insert(key@, value@));
                }
            },
            None => {
                proof {
                    Self::lemma_assoc_contains(self.pairs@);
                    assert(!Self::assoc(self.pairs@).contains_key(key@));
                    Self::lemma_assoc_push(self.pairs@, (key, value));
                }
                let ghost mid = self.pairs@;
                self.pairs.push((key, value));
                proof {
                    assert(self.pairs@ == mid.push((key, value)));
                }
            },
        }
    }

    /// Remove a key; removing an absent key changes nothing.
    pub fn remove(&mut self, key: &[u8; 32])
        requires
            old(self).wf(),
        ensures
            final(self).wf(),
            final(self)@ == old(self)@.remove(key@),
    {
        proof {
            Self::lemma_assoc_contains(self.pairs@);
        }
        let idx = self.index_of(key);
        match idx {
            Some(i) => {
                proof {
                    Self::lemma_assoc_remove_idx(self.pairs@, i as int);
                }
                self.pairs.remove(i);
            },
            None => {
                proof {
                    assert(!self@.contains_key(key@));
                    assert(self@ =~= self@.remove(key@));
                }
            },
        }
    }

    /// The stored keys, each exactly once, in some order.
    pub fn keys_vec(&self) -> (r: Vec<[u8; 32]>)
        requires
            self.wf(),
        ensures
            forall|j: int| 0 <= j < r@.len() ==> self@.contains_key(#[trigger] r@[j]@),
            forall|k: Seq<u8>|
                #[trigger] self@.contains_key(k) ==> exists|j: int|
                    0 <= j < r@.len() && #[trigger] r@[j]@ == k,
            forall|j1: int, j2: int| 0 <= j1 < j2 < r@.len() ==> r@[j1]@ != r@[j2]@,
    {
        proof {
            Self::lemma_assoc_contains(self.pairs@);
        }
        let n = self.pairs.len();
        let mut r: Vec<[u8; 32]> = Vec::new();
        let mut i: usize = 0;
        while i < n
            invariant
                self.wf(),
                n == self.pairs@.len(),
                i <= n,
                r@.len() == i,
                forall|j: int| 0 <= j < i ==> #[trigger] r@[j]@ == Self::key_at(self.pairs@, j),
            decreases n - i,
        {
            r.push(self.pairs[i].0);
            i += 1;
        }
        proof {
            assert forall|j: int| 0 <= j < r@.len() implies self@.contains_key(#[trigger] r@[j]@) by {
                assert(Self::has_key(self.pairs@, Self::key_at(self.pairs@, j)));
            }
            assert forall|k: Seq<u8>| #[trigger] self@.contains_key(k) implies exists|j: int|
                0 <= j < r@.len() && #[trigger] r@[j]@ == k by {
                let j = choose|j: int| 0 <= j < self.pairs@.len() && Self::key_at(self.pairs@, j) == k;
                assert(r@[j]@ == k);
            }
        }
        r
    }
}

/// Per (origin chain, account) counters, viewed as a map that is zero by
/// default wherever no entry exists.
pub struct NonceStore {
    entries: Vec<(ChainId, u64, u64)>,
}

impl NonceStore {
    /// Key stored at position `i`.
    pub closed spec fn nkey_at(s: Seq<(ChainId, u64, u64)>, i: int) -> (ChainId, u64) {
        (s[i].0, s[i].1)
    }

    /// No (chain, account) pair occurs twice.
    pub closed spec fn distinct_nkeys(s: Seq<(ChainId, u64, u64)>) -> bool {
        forall|i: int, j: int|
            0 <= i < j < s.len() ==> Self::nkey_at(s, i) != Self::nkey_at(s, j)
    }

    /// Some position holds the pair `k`.
    pub closed spec fn has_nkey(s: Seq<(ChainId, u64, u64)>, k: (ChainId, u64)) -> bool {
        exists|i: int| 0 <= i < s.len() && Self::nkey_at(s, i) == k
    }

    /// The map described by the entry list.
    pub closed spec fn nassoc(s: Seq<(ChainId, u64, u64)>) -> Map<(ChainId, u64), u64>
        decreases s.len(),
    {
        if s.len() <= 0 {
            Map::empty()
        } else {
            Self::nassoc(s.drop_last()).insert((s.last().0, s.last().1), s.last().2)
        }
    }

    /// The stored pairs are pairwise distinct.
    pub closed spec fn wf(&self) -> bool {
        Self::distinct_nkeys(self.entries@)
    }

    proof fn lemma_nassoc_contains(s: Seq<(ChainId, u64, u64)>)
        ensures
            forall|k: (ChainId, u64)|
                #[trigger] Self::nassoc(s).contains_key(k) <==> Self::has_nkey(s, k),
        decreases s.len(),
    {
        if s.len() > 0 {
            Self::lemma_nassoc_contains(s.drop_last());
            assert forall|k: (ChainId, u64)| #[trigger] Self::nassoc(s).contains_key(k) implies Self::has_nkey(s, k) by {
                if k == (s.last().0, s.last().1) {
                    assert(Self::nkey_at(s, s.len() - 1) == k);
                } else {
                    assert(Self::nassoc(s.drop_last()).contains_key(k));
                    assert(Self::has_nkey(s.drop_last(), k));
                    let i = choose|i: int|
                        0 <= i < s.drop_last().len() && Self::nkey_at(s.drop_last(), i) == k;
                    assert(Self::nkey_at(s, i) == k);
                }
            }
            assert forall|k: (ChainId, u64)| Self::has_nkey(s, k) implies #[trigger] Self::nassoc(s).contains_key(k) by {
                let i = choose|i: int| 0 <= i < s.len() && Self::nkey_at(s, i) == k;
                if i < s.len() - 1 {
                    assert(Self::nkey_at(s.drop_last(), i) == k);
                    assert(Self::has_nkey(s.drop_last(), k));
                    assert(Self::nassoc(s.drop_last()).contains_key(k));
                } else {
                    assert(k == (s.last().0, s.last().1));
                }
            }
        }
    }

    proof fn lemma_nassoc_at(s: Seq<(ChainId, u64, u64)>, i: int)
        requires
            Self::distinct_nkeys(s),
            0 <= i < s.len(),
        ensures
            Self::nassoc(s).contains_key(Self::nkey_at(s, i)),
            Self::nassoc(s)[Self::nkey_at(s, i)] == s[i].2,
        decreases s.len(),
    {
        if i == s.len() - 1 {
        } else {
            assert(Self::nkey_at(s, i) != Self::nkey_at(s, s.len() - 1));
            assert(Self::nkey_at(s.drop_last(), i) == Self::nkey_at(s, i));
            assert forall|j1: int, j2: int| 0 <= j1 < j2 < s.drop_last().len() implies Self::nkey_at(
                s.drop_last(),
                j1,
            ) != Self::nkey_at(s.drop_last(), j2) by {
                assert(Self::nkey_at(s.drop_last(), j1) == Self::nkey_at(s, j1));
                assert(Self::nkey_at(s.drop_last(), j2) == Self::nkey_at(s, j2));
            }
            Self::lemma_nassoc_at(s.drop_last(), i);
        }
    }

    /// Create an empty tracker.
    pub fn new() -> (r: Self)
        ensures
            r.wf(),
            r@ == Map::<(ChainId, u64), u64>::empty(),
    {
        NonceStore { entries: Vec::new() }
    }

    /// The counter for a pair, zero where none is stored.
    pub fn get_or_zero(&self, chain: ChainId, account: u64) -> (r: u64)
        requires
            self.wf(),
        ensures
            r == if self@.contains_key((chain, account)) {
                self@[(chain, account)]
            } else {
                0u64
            },
    {
        proof {
            Self::lemma_nassoc_contains(self.entries@);
        }
        let n = self.entries.len();
        let mut i: usize = 0;
        while i < n
            invariant
                self.wf(),
                n == self.entries@.len(),
                i <= n,
                forall|j: int| 0 <= j < i ==> Self::nkey_at(self.entries@, j) != (chain, account),
            decreases n - i,
        {
            let e = &self.entries[i];
            if e.0 == chain && e.1 == account {
                proof {
                    assert(Self::nkey_at(self.entries@, i as int) == (chain, account));
                    Self::lemma_nassoc_at(self.entries@, i as int);
                }
                return e.2;
            }
            i += 1;
        }
        proof {
            assert(!Self::has_nkey(self.entries@, (chain, account)));
        }
        0
    }

    /// Store a counter for a pair, replacing any counter already there.
    pub fn set(&mut self, chain: ChainId, account: u64, value: u64)
        requires
            old(self).wf(),
        ensures
            final(self).wf(),
            final(self)@ == old(self)@.insert((chain, account), value),
    {
        proof {
            Self::lemma_nassoc_contains(self.entries@);
        }
        let n = self.entries.len();
        let mut i: usize = 0;
        while i < n
            invariant
                self.wf(),
                self.entries@ == old(self).entries@,
                n == self.entries@.len(),
                i <= n,
                forall|j: int| 0 <= j < i ==> Self::nkey_at(self.entries@, j) != (chain, account),
            decreases n - i,
        {
            let e = &self.entries[i];
            if e.0 == chain && e.1 == account {
                proof {
                    assert(Self::nkey_at(self.entries@, i as int) == (chain, account));
                    Self::lemma_nassoc_remove_idx(self.entries@, i as int);
                }
                let ghost before = self.entries@;
                self.entries.remove(i);
                proof {
                    assert(!Self::has_nkey(self.entries@, (chain, account))) by {
                        Self::lemma_nassoc_contains(self.entries@);
                        assert(Self::nassoc(self.entries@) == Self::nassoc(before).remove(
                            (chain, account),
                        ));
                        assert(!Self::nassoc(self.entries@).contains_key((chain, account)));
                    }
                    Self::lemma_nassoc_push(self.entries@, (chain, account, value));
                }
                let ghost mid = self.entries@;
                self.entries.push((chain, account, value));
                proof {
                    assert(self.entries@ == mid.push((chain, account, value)));
                    assert(Self::nassoc(self.entries@) =~= Self::nassoc(before).insert(
                        (chain, account),
                        value,
                    ));
                }
                return ;
            }
            i += 1;
        }
        proof {
            assert(!Self::has_nkey(self.entries@, (chain, account)));
            Self::lemma_nassoc_contains(self.entries@);
            assert(!Self::nassoc(self.entries@).contains_key((chain, account)));
            Self::lemma_nassoc_push(self.entries@, (chain, account, value));
        }
        let ghost mid = self.entries@;
        self.entries.push((chain, account, value));
        proof {
            assert(self.entries@ == mid.push((chain, account, value)));
        }
    }

    proof fn lemma_nassoc_remove_idx(s: Seq<(ChainId, u64, u64)>, i: int)
        requires
            Self::distinct_nkeys(s),
            0 <= i < s.len(),
        ensures
            Self::distinct_nkeys(s.remove(i)),
            Self::nassoc(s.remove(i)) == Self::nassoc(s).remove(Self::nkey_at(s, i)),
    {
        let t = s.remove(i);
        s.remove_ensures(i);
        assert forall|j1: int, j2: int| 0 <= j1 < j2 < t.len() implies Self::nkey_at(t, j1)
            != Self::nkey_at(t, j2) by {
            let o1: int = if j1 < i { j1 } else { j1 + 1 };
            let o2: int = if j2 < i { j2 } else { j2 + 1 };
            assert(Self::nkey_at(t, j1) == Self::nkey_at(s, o1));
            assert(Self::nkey_at(t, j2) == Self::nkey_at(s, o2));
        }
        Self::lemma_nassoc_contains(s);
        Self::lemma_nassoc_contains(t);
        let k0 = Self::nkey_at(s, i);
        assert forall|k: (ChainId, u64)| true implies #[trigger] Self::nassoc(t).contains_key(k)
            == Self::nassoc(s).remove(k0).contains_key(k) by {
            if k == k0 {
                if Self::has_nkey(t, k) {
                    let j = choose|j: int| 0 <= j < t.len() && Self::nkey_at(t, j) == k;
                    let o: int = if j < i { j } else { j + 1 };
                    assert(Self::nkey_at(s, o) == k);
                    assert(false);
                }
            } else {
                if Self::has_nkey(s, k) {
                    let j = choose|j: int| 0 <= j < s.len() && Self::nkey_at(s, j) == k;
                    assert(j != i);
                    let jt: int = if j < i { j } else { j - 1 };
                    assert(Self::nkey_at(t, jt) == k);
                }
                if Self::has_nkey(t, k) {
                    let j = choose|j: int| 0 <= j < t.len() && Self::nkey_at(t, j) == k;
                    let o: int = if j < i { j } else { j + 1 };
                    assert(Self::nkey_at(s, o) == k);
                }
            }
        }
        assert forall|k: (ChainId, u64)| Self::nassoc(t).contains_key(k) implies Self::nassoc(t)[k]
            == Self::nassoc(s).remove(k0)[k] by {
            let j = choose|j: int| 0 <= j < t.len() && Self::nkey_at(t, j) == k;
            let o: int = if j < i { j } else { j + 1 };
            assert(Self::nkey_at(s, o) == k);
            Self::lemma_nassoc_at(t, j);
            Self::lemma_nassoc_at(s, o);
            assert(t[j].2 == s[o].2);
        }
        assert(Self::nassoc(t) =~= Self::nassoc(s).remove(k0));
    }

    proof fn lemma_nassoc_push(s: Seq<(ChainId, u64, u64)>, p: (ChainId, u64, u64))
        requires
            Self::distinct_nkeys(s),
            !Self::has_nkey(s, (p.0, p.1)),
        ensures
            Self::distinct_nkeys(s.push(p)),
            Self::nassoc(s.push(p)) == Self::nassoc(s).insert((p.0, p.1), p.2),
    {
        let t = s.push(p);
        assert(t.drop_last() =~= s);
        assert(t.last() == p);
        assert forall|j1: int, j2: int| 0 <= j1 < j2 < t.len() implies Self::nkey_at(t, j1)
            != Self::nkey_at(t, j2) by {
            if j2 == t.len() - 1 {
                assert(Self::nkey_at(t, j1) == Self::nkey_at(s, j1));
                assert(Self::nkey_at(t, j2) == (p.0, p.1));
                assert(Self::has_nkey(s, Self::nkey_at(s, j1)));
            } else {
                assert(Self::nkey_at(t, j1) == Self::nkey_at(s, j1));
                assert(Self::nkey_at(t, j2) == Self::nkey_at(s, j2));
            }
        }
    }
}

impl<V: View> View for KvList<V> {
    type V = Map<Seq<u8>, V::V>;

    closed spec fn view(&self) -> Map<Seq<u8>, V::V> {
        Self::assoc(self.pairs@)
    }
}

impl View for NonceStore {
    type V = Map<(ChainId, u64), u64>;

    closed spec fn view(&self) -> Map<(ChainId, u64), u64> {
        Self::nassoc(self.entries@)
    }
}

} // verus!
