//! The whitelist of application contracts, kept in the byte order of the
//! storage keys of its entries.
use vstd::prelude::*;
use vstd::utf8::encode_utf8;

use crate::storage_key::{
    bytes_less, bytes_lt, joined_white_list_key, key_part_fits, lemma_bytes_lt_irreflexive,
    lemma_bytes_lt_total, lemma_bytes_lt_transitive, white_list_key,
};

verus! {

/// One whitelisted application contract, as it is listed.
pub struct WhiteListedView {
    pub contract_address: Seq<u8>,
    pub chain_id: Seq<char>,
    pub chain_type: u32,
}

/// The storage key of a whitelisted contract.
pub open spec fn storage_key_of(w: WhiteListedView) -> Seq<u8> {
    white_list_key(w.contract_address, encode_utf8(w.chain_id), w.chain_type)
}

/// Whether the parts of a whitelist key fit the storage key format.
pub open spec fn white_list_key_fits(contract_address: Seq<u8>, chain_id: Seq<char>) -> bool {
    key_part_fits(contract_address) && key_part_fits(encode_utf8(chain_id))
}

/// The view of a listed entry, given as address, chain id and chain type.
pub open spec fn listed_view(t: (Vec<u8>, String, u32)) -> WhiteListedView {
    WhiteListedView { contract_address: t.0@, chain_id: t.1@, chain_type: t.2 }
}

/// `s` lists the values of `m` exactly once each, in ascending order of their storage keys.
pub open spec fn lists_in_key_order(m: Map<Seq<u8>, WhiteListedView>, s: Seq<WhiteListedView>) -> bool {
    &&& forall|i: int|
        0 <= i < s.len() ==> m.dom().contains(storage_key_of(#[trigger] s[i])) && m[storage_key_of(s[i])]
            == s[i]
    &&& forall|i: int, j: int|
        0 <= i < j < s.len() ==> bytes_lt(storage_key_of(#[trigger] s[i]), storage_key_of(#[trigger] s[j]))
    &&& forall|k: Seq<u8>| #[trigger]
        m.dom().contains(k) ==> exists|i: int| 0 <= i < s.len() && storage_key_of(s[i]) == k
}

pub struct WhiteListEntry {
    storage_key: Vec<u8>,
    contract_address: Vec<u8>,
    chain_id: String,
    chain_type: u32,
}

impl WhiteListEntry {
    pub closed spec fn listed(&self) -> WhiteListedView {
        WhiteListedView {
            contract_address: self.contract_address@,
            chain_id: self.chain_id@,
            chain_type: self.chain_type,
        }
    }

    pub closed spec fn key(&self) -> Seq<u8> {
        self.storage_key@
    }
}

pub open spec fn entries_sorted(s: Seq<WhiteListEntry>) -> bool {
    forall|i: int, j: int| 0 <= i < j < s.len() ==> bytes_lt(#[trigger] s[i].key(), #[trigger] s[j].key())
}

pub open spec fn has_key_at(s: Seq<WhiteListEntry>, k: Seq<u8>, i: int) -> bool {
    0 <= i < s.len() && s[i].key() == k
}

pub open spec fn entries_map(s: Seq<WhiteListEntry>) -> Map<Seq<u8>, WhiteListedView> {
    Map::new(
        |k: Seq<u8>| exists|i: int| has_key_at(s, k, i),
        |k: Seq<u8>| s[choose|i: int| has_key_at(s, k, i)].listed(),
    )
}

proof fn lemma_sorted_distinct(s: Seq<WhiteListEntry>, i: int, j: int)
    requires
        entries_sorted(s),
        0 <= i < s.len(),
        0 <= j < s.len(),
        i != j,
    ensures
        s[i].key() != s[j].key(),
{
    if i < j {
        assert(bytes_lt(s[i].key(), s[j].key()));
        if s[i].key() == s[j].key() {
            lemma_bytes_lt_irreflexive(s[i].key());
        }
    } else {
        assert(bytes_lt(s[j].key(), s[i].key()));
        if s[i].key() == s[j].key() {
            lemma_bytes_lt_irreflexive(s[i].key());
        }
    }
}

proof fn lemma_entries_lookup(s: Seq<WhiteListEntry>, i: int)
    requires
        entries_sorted(s),
        0 <= i < s.len(),
    ensures
        entries_map(s).dom().contains(s[i].key()),
        entries_map(s)[s[i].key()] == s[i].listed(),
{
    assert(has_key_at(s, s[i].key(), i));
    let c = choose|c: int| has_key_at(s, s[i].key(), c);
    if c != i {
        lemma_sorted_distinct(s, c, i);
    }
}

/// The whitelist: entries in strictly ascending order of their storage keys.
pub struct WhiteList {
    entries: Vec<WhiteListEntry>,
}

impl WhiteList {
    pub closed spec fn wf(&self) -> bool {
        &&& entries_sorted(self.entries@)
        &&& forall|i: int|
            0 <= i < self.entries@.len() ==> white_list_key_fits(
                (#[trigger] self.entries@[i]).listed().contract_address,
                self.entries@[i].listed().chain_id,
            )
        &&& forall|i: int|
            0 <= i < self.entries@.len() ==> (#[trigger] self.entries@[i]).key() == storage_key_of(
                self.entries@[i].listed(),
            )
    }

    /// The whitelisted contracts by storage key.
    pub closed spec fn spec_map(&self) -> Map<Seq<u8>, WhiteListedView> {
        entries_map(self.entries@)
    }

    /// Every stored value sits under its own storage key.
    pub proof fn lemma_keys_match(&self)
        requires
            self.wf(),
        ensures
            forall|k: Seq<u8>| #[trigger]
                self.spec_map().dom().contains(k) ==> storage_key_of(self.spec_map()[k]) == k
                    && white_list_key_fits(self.spec_map()[k].contract_address, self.spec_map()[k].chain_id),
    {
        assert forall|k: Seq<u8>| #[trigger] self.spec_map().dom().contains(k) implies storage_key_of(
            self.spec_map()[k],
        ) == k && white_list_key_fits(self.spec_map()[k].contract_address, self.spec_map()[k].chain_id) by {
            let c = choose|c: int| has_key_at(self.entries@, k, c);
            lemma_entries_lookup(self.entries@, c);
        }
    }

    /// The empty whitelist.
    pub fn new() -> (res: WhiteList)
        ensures
            res.wf(),
            res.spec_map() == Map::<Seq<u8>, WhiteListedView>::empty(),
    {
        let res = WhiteList { entries: Vec::new() };
        assert(res.spec_map() =~= Map::<Seq<u8>, WhiteListedView>::empty());
        res
    }

    /// The first position whose key does not come before `key`.
    fn position(&self, key: &Vec<u8>) -> (res: usize)
        requires
            self.wf(),
        ensures
            res <= self.entries@.len(),
            forall|j: int| 0 <= j < res ==> bytes_lt(#[trigger] self.entries@[j].key(), key@),
            res < self.entries@.len() ==> !bytes_lt(self.entries@[res as int].key(), key@),
    {
        let n = self.entries.len();
        let mut p: usize = 0;
        while p < n
            invariant
                n == self.entries@.len(),
                p <= n,
                forall|j: int| 0 <= j < p ==> bytes_lt(#[trigger] self.entries@[j].key(), key@),
            decreases n - p,
        {
            if !bytes_less(&self.entries[p].storage_key, key) {
                return p;
            }
            p = p + 1;
        }
        p
    }

    /// Whether the contract is whitelisted.
    pub fn contains(&self, contract_address: &Vec<u8>, chain_id: &String, chain_type: u32) -> (res: bool)
        requires
            self.wf(),
            white_list_key_fits(contract_address@, chain_id@),
        ensures
            res == self.spec_map().dom().contains(
                white_list_key(contract_address@, encode_utf8(chain_id@), chain_type),
            ),
    {
        let key = joined_white_list_key(contract_address, chain_id, chain_type);
        let p = self.position(&key);
        let found = p < self.entries.len() && !bytes_less(&key, &self.entries[p].storage_key);
        proof {
            let s = self.entries@;
            if found {
                lemma_bytes_lt_total(s[p as int].key(), key@);
                assert(has_key_at(s, key@, p as int));
            } else if self.spec_map().dom().contains(key@) {
                let c = choose|c: int| has_key_at(s, key@, c);
                if c < p {
                    assert(bytes_lt(s[c].key(), key@));
                    lemma_bytes_lt_irreflexive(key@);
                } else if c > p {
                    assert(bytes_lt(s[p as int].key(), s[c].key()));
                    lemma_bytes_lt_total(s[p as int].key(), key@);
                } else {
                    lemma_bytes_lt_irreflexive(key@);
                }
            }
        }
        found
    }

    /// Stores the contract under its storage key.
    pub fn save(&mut self, contract_address: Vec<u8>, chain_id: String, chain_type: u32)
        requires
            old(self).wf(),
            white_list_key_fits(contract_address@, chain_id@),
        ensures
            final(self).wf(),
            final(self).spec_map() == old(self).spec_map().insert(
                white_list_key(contract_address@, encode_utf8(chain_id@), chain_type),
                WhiteListedView { contract_address: contract_address@, chain_id: chain_id@, chain_type },
            ),
    {
        let key = joined_white_list_key(&contract_address, &chain_id, chain_type);
        let p = self.position(&key);
        let ghost s = self.entries@;
        let ghost k = key@;
        let entry = WhiteListEntry { storage_key: key, contract_address, chain_id, chain_type };
        let ghost e = entry;
        if p < self.entries.len() && !bytes_less(&entry.storage_key, &self.entries[p].storage_key) {
            self.entries.set(p, entry);
            proof {
                lemma_bytes_lt_total(s[p as int].key(), k);
                let t = self.entries@;
                assert(t == s.update(p as int, e));
                assert forall|i: int, j: int| 0 <= i < j < t.len() implies bytes_lt(
                    #[trigger] t[i].key(),
                    #[trigger] t[j].key(),
                ) by {
                    assert(s[i].key() == t[i].key());
                    assert(s[j].key() == t[j].key());
                }
                assert forall|q: Seq<u8>| #[trigger]
                    entries_map(t).dom().contains(q) <==> entries_map(s).insert(k, e.listed()).dom().contains(q) by {
                    if entries_map(s).dom().contains(q) {
                        let c = choose|c: int| has_key_at(s, q, c);
                        assert(has_key_at(t, q, c));
                    }
                    if entries_map(t).dom().contains(q) {
                        let c = choose|c: int| has_key_at(t, q, c);
                        if c != p {
                            assert(has_key_at(s, q, c));
                        }
                    }
                    if q == k {
                        assert(has_key_at(t, q, p as int));
                    }
                }
                assert forall|q: Seq<u8>| #[trigger]
                    entries_map(t).dom().contains(q) implies entries_map(t)[q] == entries_map(s).insert(
                        k,
                        e.listed(),
                    )[q] by {
                    let c = choose|c: int| has_key_at(t, q, c);
                    lemma_entries_lookup(t, c);
                    if c != p {
                        lemma_entries_lookup(s, c);
                        lemma_sorted_distinct(t, c, p as int);
                    }
                }
                assert(entries_map(t) =~= entries_map(s).insert(k, e.listed()));
            }
        } else {
            self.entries.insert(p, entry);
            proof {
                let t = self.entries@;
                assert(t == s.insert(p as int, e));
                assert forall|i: int, j: int| 0 <= i < j < t.len() implies bytes_lt(
                    #[trigger] t[i].key(),
                    #[trigger] t[j].key(),
                ) by {
                    if j < p {
                    } else if j == p {
                        assert(bytes_lt(s[i].key(), k));
                    } else if i < p {
                        assert(bytes_lt(s[i].key(), k));
                        assert(t[j] == s[j - 1]);
                        if j - 1 == p {
                            lemma_bytes_lt_total(s[p as int].key(), k);
                            lemma_bytes_lt_transitive(s[i].key(), k, s[p as int].key());
                        } else {
                            lemma_bytes_lt_total(s[p as int].key(), k);
                            lemma_bytes_lt_transitive(k, s[p as int].key(), s[j - 1].key());
                            lemma_bytes_lt_transitive(s[i].key(), k, s[j - 1].key());
                        }
                    } else if i == p {
                        lemma_bytes_lt_total(s[p as int].key(), k);
                        if j - 1 > p {
                            lemma_bytes_lt_transitive(k, s[p as int].key(), s[j - 1].key());
                        }
                    } else {
                        assert(t[i] == s[i - 1]);
                        assert(t[j] == s[j - 1]);
                    }
                }
                assert(!entries_map(s).dom().contains(k)) by {
                    if entries_map(s).dom().contains(k) {
                        let c = choose|c: int| has_key_at(s, k, c);
                        if c < p {
                            lemma_bytes_lt_irreflexive(k);
                        } else {
                            lemma_bytes_lt_total(s[p as int].key(), k);
                            if c > p {
                                assert(bytes_lt(s[p as int].key(), s[c].key()));
                                lemma_bytes_lt_transitive(k, s[p as int].key(), s[c].key());
                            }
                            lemma_bytes_lt_irreflexive(k);
                        }
                    }
                }
                assert forall|q: Seq<u8>| #[trigger]
                    entries_map(t).dom().contains(q) <==> entries_map(s).insert(k, e.listed()).dom().contains(q) by {
                    if entries_map(s).dom().contains(q) {
                        let c = choose|c: int| has_key_at(s, q, c);
                        if c < p {
                            assert(has_key_at(t, q, c));
                        } else {
                            assert(has_key_at(t, q, c + 1));
                        }
                    }
                    if entries_map(t).dom().contains(q) {
                        let c = choose|c: int| has_key_at(t, q, c);
                        if c < p {
                            assert(has_key_at(s, q, c));
                        } else if c > p {
                            assert(has_key_at(s, q, c - 1));
                        }
                    }
                    if q == k {
                        assert(has_key_at(t, q, p as int));
                    }
                }
                assert forall|q: Seq<u8>| #[trigger]
                    entries_map(t).dom().contains(q) implies entries_map(t)[q] == entries_map(s).insert(
                        k,
                        e.listed(),
                    )[q] by {
                    let c = choose|c: int| has_key_at(t, q, c);
                    lemma_entries_lookup(t, c);
                    if c < p {
                        lemma_entries_lookup(s, c);
                        lemma_sorted_distinct(t, c, p as int);
                    } else if c > p {
                        lemma_entries_lookup(s, c - 1);
                        lemma_sorted_distinct(t, c, p as int);
                    }
                }
                assert(entries_map(t) =~= entries_map(s).insert(k, e.listed()));
            }
        }
    }

    /// Removes the entry stored under the contract's storage key, if there is one.
    pub fn remove(&mut self, contract_address: &Vec<u8>, chain_id: &String, chain_type: u32)
        requires
            old(self).wf(),
            white_list_key_fits(contract_address@, chain_id@),
        ensures
            final(self).wf(),
            final(self).spec_map() == old(self).spec_map().remove(
                white_list_key(contract_address@, encode_utf8(chain_id@), chain_type),
            ),
    {
        let key = joined_white_list_key(contract_address, chain_id, chain_type);
        let p = self.position(&key);
        let ghost s = self.entries@;
        let ghost k = key@;
        if p < self.entries.len() && !bytes_less(&key, &self.entries[p].storage_key) {
            self.entries.remove(p);
            proof {
                lemma_bytes_lt_total(s[p as int].key(), k);
                let t = self.entries@;
                assert(t == s.remove(p as int));
                assert forall|i: int, j: int| 0 <= i < j < t.len() implies bytes_lt(
                    #[trigger] t[i].key(),
                    #[trigger] t[j].key(),
                ) by {
                    if i < p && j >= p {
                        assert(t[j] == s[j + 1]);
                    } else if i >= p {
                        assert(t[i] == s[i + 1]);
                        assert(t[j] == s[j + 1]);
                    }
                }
                assert forall|q: Seq<u8>| #[trigger]
                    entries_map(t).dom().contains(q) <==> entries_map(s).remove(k).dom().contains(q) by {
                    if entries_map(s).dom().contains(q) && q != k {
                        let c = choose|c: int| has_key_at(s, q, c);
                        if c < p {
                            assert(has_key_at(t, q, c));
                        } else {
                            assert(has_key_at(t, q, c - 1));
                        }
                    }
                    if entries_map(t).dom().contains(q) {
                        let c = choose|c: int| has_key_at(t, q, c);
                        if c < p {
                            assert(has_key_at(s, q, c));
                            lemma_sorted_distinct(s, c, p as int);
                        } else {
                            assert(has_key_at(s, q, c + 1));
                            lemma_sorted_distinct(s, c + 1, p as int);
                        }
                    }
                }
                assert forall|q: Seq<u8>| #[trigger]
                    entries_map(t).dom().contains(q) implies entries_map(t)[q] == entries_map(s).remove(k)[q] by {
                    let c = choose|c: int| has_key_at(t, q, c);
                    lemma_entries_lookup(t, c);
                    if c < p {
                        lemma_entries_lookup(s, c);
                    } else {
                        lemma_entries_lookup(s, c + 1);
                    }
                }
                assert(entries_map(t) =~= entries_map(s).remove(k));
            }
        } else {
            proof {
                if entries_map(s).dom().contains(k) {
                    let c = choose|c: int| has_key_at(s, k, c);
                    if c < p {
                        lemma_bytes_lt_irreflexive(k);
                    } else if c > p {
                        assert(bytes_lt(s[p as int].key(), s[c].key()));
                        lemma_bytes_lt_total(s[p as int].key(), k);
                        lemma_bytes_lt_irreflexive(k);
                        if bytes_lt(k, s[p as int].key()) {
                            lemma_bytes_lt_transitive(k, s[p as int].key(), s[c].key());
                        }
                    } else {
                        lemma_bytes_lt_irreflexive(k);
                    }
                }
                assert(entries_map(s).remove(k) =~= entries_map(s));
            }
        }
    }

    /// All whitelisted contracts, in ascending order of their storage keys.
    pub fn keys(&self) -> (res: Vec<(Vec<u8>, String, u32)>)
        requires
            self.wf(),
        ensures
            lists_in_key_order(self.spec_map(), res@.map_values(|t: (Vec<u8>, String, u32)| listed_view(t))),
    {
        let mut out: Vec<(Vec<u8>, String, u32)> = Vec::new();
        let n = self.entries.len();
        for i in 0..n
            invariant
                n == self.entries@.len(),
                out@.len() == i,
                forall|j: int| 0 <= j < i ==> listed_view(#[trigger] out@[j]) == self.entries@[j].listed(),
        {
            let e = &self.entries[i];
            let a = e.contract_address.clone();
            assert(a@ =~= e.contract_address@);
            out.push((a, e.chain_id.clone(), e.chain_type));
        }
        proof {
            let s = self.entries@;
            let v = out@.map_values(|t: (Vec<u8>, String, u32)| listed_view(t));
            assert forall|i: int| 0 <= i < v.len() implies self.spec_map().dom().contains(
                storage_key_of(#[trigger] v[i]),
            ) && self.spec_map()[storage_key_of(v[i])] == v[i] by {
                lemma_entries_lookup(s, i);
            }
            assert forall|i: int, j: int| 0 <= i < j < v.len() implies bytes_lt(
                storage_key_of(#[trigger] v[i]),
                storage_key_of(#[trigger] v[j]),
            ) by {
                assert(bytes_lt(s[i].key(), s[j].key()));
            }
            assert forall|k: Seq<u8>| #[trigger] self.spec_map().dom().contains(k) implies exists|i: int|
                0 <= i < v.len() && storage_key_of(v[i]) == k by {
                let c = choose|c: int| has_key_at(s, k, c);
                assert(storage_key_of(v[c]) == k);
            }
        }
        out
    }
}

} // verus!
