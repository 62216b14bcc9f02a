use vstd::prelude::*;

use crate::error::ContractError;

verus! {

/// A custody record: the escrowed asset and the account credited for it.
pub struct VaultItem {
    pub token_id: String,
    pub depositor: String,
}

/// One entry of the depositor index.
pub struct IndexEntry {
    pub depositor: String,
    pub token_id: String,
}

/// The secondary index of the vault, by depositor.
pub struct VaultIndexes {
    pub depositor: Vec<IndexEntry>,
}

/// The vault ledger: custody records keyed by asset id, and the depositor
/// index kept in lockstep with them.
pub struct Vault {
    items: Vec<VaultItem>,
    indexes: VaultIndexes,
}

/// A custody record as a pair of asset id and depositor.
pub open spec fn record_of(it: VaultItem) -> (Seq<char>, Seq<char>) {
    (it.token_id@, it.depositor@)
}

/// The map that a sequence of custody records describes, the later record
/// of an asset id winning.
pub open spec fn records_map(s: Seq<VaultItem>) -> Map<Seq<char>, Seq<char>>
    decreases s.len(),
{
    if s.len() == 0 {
        Map::empty()
    } else {
        records_map(s.drop_last()).insert(s.last().token_id@, s.last().depositor@)
    }
}

/// No two of the records share an asset id.
pub open spec fn distinct_ids(s: Seq<VaultItem>) -> bool {
    forall|i: int, j: int|
        0 <= i < s.len() && 0 <= j < s.len() && i != j ==> #[trigger] s[i].token_id@
            != #[trigger] s[j].token_id@
}

proof fn lemma_records_map_dom(s: Seq<VaultItem>, k: Seq<char>)
    ensures
        records_map(s).contains_key(k) <==> exists|j: int| 0 <= j < s.len() && #[trigger] s[j].token_id@ == k,
    decreases s.len(),
{
    if s.len() > 0 {
        let p = s.drop_last();
        lemma_records_map_dom(p, k);
        if exists|j: int| 0 <= j < p.len() && #[trigger] p[j].token_id@ == k {
            let j = choose|j: int| 0 <= j < p.len() && #[trigger] p[j].token_id@ == k;
            assert(s[j] == p[j]);
        }
        if exists|j: int| 0 <= j < s.len() && #[trigger] s[j].token_id@ == k {
            let j = choose|j: int| 0 <= j < s.len() && #[trigger] s[j].token_id@ == k;
            if j < s.len() - 1 {
                assert(s[j] == p[j]);
            }
        }
    }
}

proof fn lemma_records_map_at(s: Seq<VaultItem>, j: int)
    requires
        distinct_ids(s),
        0 <= j < s.len(),
    ensures
        records_map(s).contains_key(s[j].token_id@),
        records_map(s)[s[j].token_id@] == s[j].depositor@,
    decreases s.len(),
{
    let p = s.drop_last();
    if j < s.len() - 1 {
        assert(s[j] == p[j]);
        assert(distinct_ids(p)) by {
            assert forall|a: int, b: int| 0 <= a < p.len() && 0 <= b < p.len() && a != b implies #[trigger] p[a].token_id@
                != #[trigger] p[b].token_id@ by {
                assert(p[a] == s[a]);
                assert(p[b] == s[b]);
            }
        }
        lemma_records_map_at(p, j);
        assert(s[j].token_id@ != s[s.len() - 1].token_id@);
    }
}

impl Vault {
    /// The stored custody records, in storage order.
    pub closed spec fn records(&self) -> Seq<(Seq<char>, Seq<char>)> {
        self.items@.map_values(|it: VaultItem| record_of(it))
    }

    /// Whether `k` is the asset id of some stored record.
    pub open spec fn holds(&self, k: Seq<char>) -> bool {
        exists|i: int| 0 <= i < self.records().len() && #[trigger] self.records()[i].0 == k
    }

    /// The vault as a map from asset id to depositor.
    pub open spec fn view(&self) -> Map<Seq<char>, Seq<char>> {
        Map::new(
            |k: Seq<char>| self.holds(k),
            |k: Seq<char>|
                self.records()[choose|i: int|
                    0 <= i < self.records().len() && #[trigger] self.records()[i].0 == k].1,
        )
    }

    /// No two records share an asset id, and the depositor index lists
    /// exactly the records' (depositor, asset id) pairs.
    pub closed spec fn wf(&self) -> bool {
        &&& self.indexes.depositor@.len() == self.items@.len()
        &&& forall|i: int|
            0 <= i < self.items@.len() ==> {
                &&& (#[trigger] self.indexes.depositor@[i]).depositor@ == self.items@[i].depositor@
                &&& self.indexes.depositor@[i].token_id@ == self.items@[i].token_id@
            }
        &&& forall|i: int, j: int|
            0 <= i < self.items@.len() && 0 <= j < self.items@.len() && i != j
                ==> #[trigger] self.items@[i].token_id@ != #[trigger] self.items@[j].token_id@
    }

    /// The asset ids that the depositor index lists for `d`.
    pub closed spec fn indexed_for(&self, d: Seq<char>) -> Set<Seq<char>> {
        Set::new(
            |k: Seq<char>|
                exists|i: int|
                    0 <= i < self.indexes.depositor@.len()
                        && (#[trigger] self.indexes.depositor@[i]).depositor@ == d
                        && self.indexes.depositor@[i].token_id@ == k,
        )
    }

    /// The records agree with the map view at every position.
    proof fn lemma_view_at(&self, j: int)
        requires
            self.wf(),
            0 <= j < self.records().len(),
        ensures
            self.view().contains_key(self.records()[j].0),
            self.view()[self.records()[j].0] == self.records()[j].1,
    {
        let k = self.records()[j].0;
        assert(self.holds(k));
        let i = choose|i: int| 0 <= i < self.records().len() && #[trigger] self.records()[i].0 == k;
        assert(self.records()[i].0 == self.items@[i].token_id@);
        assert(self.records()[j].0 == self.items@[j].token_id@);
        assert(i == j);
    }

    /// No two stored records hold the same asset id.
    pub proof fn lemma_single_record(&self, a: Seq<char>, i: int, j: int)
        requires
            self.wf(),
            0 <= i < self.records().len(),
            0 <= j < self.records().len(),
            self.records()[i].0 == a,
            self.records()[j].0 == a,
        ensures
            i == j,
    {
        assert(self.records()[i].0 == self.items@[i].token_id@);
        assert(self.records()[j].0 == self.items@[j].token_id@);
    }

    /// The depositor index always equals the set of asset ids whose record
    /// names that depositor.
    pub proof fn lemma_index_derived(&self, d: Seq<char>)
        requires
            self.wf(),
        ensures
            self.indexed_for(d) == Set::new(
                |k: Seq<char>| self.view().contains_key(k) && self.view()[k] == d,
            ),
    {
        let s = Set::new(|k: Seq<char>| self.view().contains_key(k) && self.view()[k] == d);
        assert forall|k: Seq<char>| self.indexed_for(d).contains(k) <==> s.contains(k) by {
            if self.indexed_for(d).contains(k) {
                let i = choose|i: int|
                    0 <= i < self.indexes.depositor@.len()
                        && (#[trigger] self.indexes.depositor@[i]).depositor@ == d
                        && self.indexes.depositor@[i].token_id@ == k;
                self.lemma_view_at(i);
            }
            if s.contains(k) {
                let i = choose|i: int| 0 <= i < self.records().len() && #[trigger] self.records()[i].0 == k;
                self.lemma_view_at(i);
                assert(self.indexes.depositor@[i].depositor@ == d);
            }
        }
        assert(self.indexed_for(d) =~= s);
    }

    /// An empty vault.
    pub fn new() -> (r: Vault)
        ensures
            r.wf(),
            r.view() == Map::<Seq<char>, Seq<char>>::empty(),
    {
        let r = Vault { items: Vec::new(), indexes: VaultIndexes { depositor: Vec::new() } };
        assert(r.view() =~= Map::<Seq<char>, Seq<char>>::empty());
        r
    }

    /// The position of the record for `token_id`, if there is one.
    fn find(&self, token_id: &String) -> (r: Option<usize>)
        requires
            self.wf(),
        ensures
            r is None <==> !self.view().contains_key(token_id@),
            r matches Some(i) ==> (i < self.records().len() && self.records()[i as int].0
                == token_id@),
    {
        let mut i: usize = 0;
        while i < self.items.len()
            invariant
                i <= self.items@.len(),
                self.wf(),
                forall|j: int| 0 <= j < i ==> self.records()[j].0 != token_id@,
            decreases self.items@.len() - i,
        {
            if self.items[i].token_id == *token_id {
                proof {
                    assert(self.records()[i as int].0 == self.items@[i as int].token_id@);
                    self.lemma_view_at(i as int);
                }
                return Some(i);
            }
            i = i + 1;
        }
        proof {
            if self.holds(token_id@) {
                let j = choose|j: int| 0 <= j < self.records().len() && #[trigger] self.records()[j].0 == token_id@;
                assert(self.records()[j].0 != token_id@);
            }
        }
        None
    }

    /// Whether the vault holds a record for `token_id`.
    pub fn contains(&self, token_id: &String) -> (r: bool)
        requires
            self.wf(),
        ensures
            r == self.view().contains_key(token_id@),
    {
        self.find(token_id).is_some()
    }

    /// The number of records.
    pub fn len(&self) -> (r: usize)
        requires
            self.wf(),
        ensures
            r == self.view().len(),
    {
        proof { self.lemma_len(); }
        self.items.len()
    }

    proof fn lemma_len(&self)
        requires
            self.wf(),
        ensures
            self.view().len() == self.items@.len(),
            self.view().dom().finite(),
        decreases self.items@.len(),
    {
        let ids = self.records().map_values(|r: (Seq<char>, Seq<char>)| r.0);
        assert(self.view().dom() =~= ids.to_set()) by {
            assert forall|k: Seq<char>| self.view().dom().contains(k) implies ids.to_set().contains(k) by {
                let i = choose|i: int| 0 <= i < self.records().len() && #[trigger] self.records()[i].0 == k;
                assert(ids[i] == k);
            }
            assert forall|k: Seq<char>| ids.to_set().contains(k) implies self.view().dom().contains(k) by {
                let i = choose|i: int| 0 <= i < ids.len() && ids[i] == k;
                self.lemma_view_at(i);
            }
        }
        assert(ids.no_duplicates()) by {
            assert forall|i: int, j: int| 0 <= i < ids.len() && 0 <= j < ids.len() && i != j implies ids[i] != ids[j] by {
                assert(ids[i] == self.items@[i].token_id@);
                assert(ids[j] == self.items@[j].token_id@);
            }
        }
        ids.unique_seq_to_set();
    }

    /// Inserts a custody record; refuses to overwrite one for the same asset.
    pub fn put(&mut self, token_id: String, depositor: String) -> (r: Result<(), ContractError>)
        requires
            old(self).wf(),
        ensures
            final(self).wf(),
            old(self).view().contains_key(token_id@) ==> r == Err::<(), ContractError>(ContractError::DuplicateAsset)
                && final(self).view() == old(self).view(),
            !old(self).view().contains_key(token_id@) ==> r is Ok && final(self).view() == old(
                self,
            ).view().insert(token_id@, depositor@),
    {
        if self.find(&token_id).is_some() {
            return Err(ContractError::DuplicateAsset);
        }
        let ghost pre = *self;
        let entry = IndexEntry { depositor: depositor.clone(), token_id: token_id.clone() };
        self.items.push(VaultItem { token_id, depositor });
        self.indexes.depositor.push(entry);
        proof {
            let n = pre.items@.len() as int;
            assert(self.records()[n].0 == self.items@[n].token_id@);
            assert forall|i: int, j: int|
                0 <= i < self.items@.len() && 0 <= j < self.items@.len() && i != j
                    implies #[trigger] self.items@[i].token_id@ != #[trigger] self.items@[j].token_id@ by {
                if i == n {
                    assert(pre.records()[j].0 == pre.items@[j].token_id@);
                } else if j == n {
                    assert(pre.records()[i].0 == pre.items@[i].token_id@);
                } else {
                    assert(pre.items@[i] == self.items@[i]);
                    assert(pre.items@[j] == self.items@[j]);
                }
            }
            assert(forall|i: int| 0 <= i < n ==> self.items@[i] == pre.items@[i]);
            let target = pre.view().insert(token_id@, depositor@);
            assert forall|k: Seq<char>| #[trigger] self.view().contains_key(k) == target.contains_key(k) by {
                if target.contains_key(k) && k != token_id@ {
                    let i = choose|i: int| 0 <= i < pre.records().len() && #[trigger] pre.records()[i].0 == k;
                    assert(self.records()[i] == pre.records()[i]);
                    self.lemma_view_at(i);
                }
                if k == token_id@ {
                    self.lemma_view_at(n);
                }
                if self.view().contains_key(k) && k != token_id@ {
                    let i = choose|i: int| 0 <= i < self.records().len() && #[trigger] self.records()[i].0 == k;
                    assert(i != n);
                    assert(self.records()[i] == pre.records()[i]);
                    pre.lemma_view_at(i);
                }
            }
            assert forall|k: Seq<char>| #[trigger] self.view().contains_key(k) implies self.view()[k] == target[k] by {
                if k == token_id@ {
                    self.lemma_view_at(n);
                } else {
                    let i = choose|i: int| 0 <= i < self.records().len() && #[trigger] self.records()[i].0 == k;
                    assert(i != n);
                    assert(self.records()[i] == pre.records()[i]);
                    self.lemma_view_at(i);
                    pre.lemma_view_at(i);
                }
            }
            assert(self.view() =~= target);
        }
        Ok(())
    }

    /// Removes and returns the custody record for `token_id`.
    pub fn take(&mut self, token_id: &String) -> (r: Result<VaultItem, ContractError>)
        requires
            old(self).wf(),
        ensures
            final(self).wf(),
            !old(self).view().contains_key(token_id@) ==> r == Err::<VaultItem, ContractError>(ContractError::AssetNotEscrowed)
                && final(self).view() == old(self).view(),
            old(self).view().contains_key(token_id@) ==> (r matches Ok(it) && it.token_id@
                == token_id@ && it.depositor@ == old(self).view()[token_id@]
                && final(self).view() == old(self).view().remove(token_id@)),
    {
        let found = self.find(token_id);
        let i = match found {
            None => {
                return Err(ContractError::AssetNotEscrowed);
            },
            Some(i) => i,
        };
        let ghost pre = *self;
        proof {
            pre.lemma_view_at(i as int);
        }
        let it = self.items.remove(i);
        let _entry = self.indexes.depositor.remove(i);
        proof {
            let n = pre.items@.len() as int;
            let ii = i as int;
            assert forall|a: int| 0 <= a < self.items@.len() implies #[trigger] self.items@[a] == pre.items@[
                if a < ii { a } else { a + 1 }
            ] && self.records()[a] == pre.records()[if a < ii { a } else { a + 1 }] by {}
            assert forall|a: int, b: int|
                0 <= a < self.items@.len() && 0 <= b < self.items@.len() && a != b
                    implies #[trigger] self.items@[a].token_id@ != #[trigger] self.items@[b].token_id@ by {
                let a2 = if a < ii { a } else { a + 1 };
                let b2 = if b < ii { b } else { b + 1 };
                assert(pre.items@[a2].token_id@ != pre.items@[b2].token_id@);
            }
            assert forall|a: int| 0 <= a < self.items@.len() implies {
                &&& (#[trigger] self.indexes.depositor@[a]).depositor@ == self.items@[a].depositor@
                &&& self.indexes.depositor@[a].token_id@ == self.items@[a].token_id@
            } by {
                let a2 = if a < ii { a } else { a + 1 };
                assert(self.indexes.depositor@[a] == pre.indexes.depositor@[a2]);
                assert(pre.indexes.depositor@[a2].depositor@ == pre.items@[a2].depositor@);
            }
            let target = pre.view().remove(token_id@);
            assert forall|k: Seq<char>| #[trigger] self.view().contains_key(k) == target.contains_key(k) by {
                if target.contains_key(k) {
                    let j = choose|j: int| 0 <= j < pre.records().len() && #[trigger] pre.records()[j].0 == k;
                    assert(j != ii);
                    let a = if j < ii { j } else { j - 1 };
                    assert(self.records()[a] == pre.records()[j]);
                    self.lemma_view_at(a);
                }
                if self.view().contains_key(k) {
                    let a = choose|a: int| 0 <= a < self.records().len() && #[trigger] self.records()[a].0 == k;
                    let a2 = if a < ii { a } else { a + 1 };
                    assert(self.records()[a] == pre.records()[a2]);
                    pre.lemma_view_at(a2);
                    assert(pre.records()[ii].0 == pre.items@[ii].token_id@);
                    assert(pre.records()[a2].0 == pre.items@[a2].token_id@);
                }
            }
            assert forall|k: Seq<char>| #[trigger] self.view().contains_key(k) implies self.view()[k] == target[k] by {
                let a = choose|a: int| 0 <= a < self.records().len() && #[trigger] self.records()[a].0 == k;
                let a2 = if a < ii { a } else { a + 1 };
                assert(self.records()[a] == pre.records()[a2]);
                self.lemma_view_at(a);
                pre.lemma_view_at(a2);
            }
            assert(self.view() =~= target);
            assert(record_of(it) == pre.records()[ii]);
        }
        Ok(it)
    }

    /// The asset ids currently deposited by `depositor`, read through the
    /// depositor index.
    pub fn by_depositor(&self, depositor: &String) -> (r: Vec<String>)
        requires
            self.wf(),
        ensures
            forall|a: int|
                0 <= a < r@.len() ==> self.view().contains_key(#[trigger] r@[a]@) && self.view()[r@[a]@]
                    == depositor@,
            forall|k: Seq<char>|
                #[trigger] self.view().contains_key(k) && self.view()[k] == depositor@ ==> exists|a: int|
                    0 <= a < r@.len() && r@[a]@ == k,
            forall|a: int, b: int|
                0 <= a < r@.len() && 0 <= b < r@.len() && a != b ==> #[trigger] r@[a]@ != #[trigger] r@[b]@,
    {
        let mut out: Vec<String> = Vec::new();
        let ghost mut pos: Seq<int> = Seq::empty();
        let mut i: usize = 0;
        let n = self.indexes.depositor.len();
        while i < n
            invariant
                n == self.indexes.depositor@.len(),
                i <= n,
                self.wf(),
                pos.len() == out@.len(),
                forall|a: int, b: int| 0 <= a < b < out@.len() ==> #[trigger] pos[a] < #[trigger] pos[b],
                forall|a: int|
                    #![trigger pos[a]]
                    0 <= a < out@.len() ==> 0 <= pos[a] < i && self.indexes.depositor@[pos[a]].depositor@
                        == depositor@ && self.indexes.depositor@[pos[a]].token_id@ == out@[a]@,
                forall|b: int|
                    0 <= b < i && (#[trigger] self.indexes.depositor@[b]).depositor@ == depositor@
                        ==> exists|a: int|
                        0 <= a < out@.len() && out@[a]@ == self.indexes.depositor@[b].token_id@,
            decreases n - i,
        {
            if self.indexes.depositor[i].depositor == *depositor {
                let ghost before = out@;
                out.push(self.indexes.depositor[i].token_id.clone());
                proof {
                    let pos0 = pos;
                    pos = pos.push(i as int);
                    assert(out@[before.len() as int]@ == self.indexes.depositor@[i as int].token_id@);
                    assert forall|a: int| 0 <= a < before.len() implies out@[a] == before[a] by {}
                    assert forall|a: int, b: int| 0 <= a < b < out@.len() implies #[trigger] pos[a] < #[trigger] pos[b] by {
                        assert(pos[a] == pos0[a]);
                        if b < before.len() {
                            assert(pos[b] == pos0[b]);
                        } else {
                            assert(pos0[a] < i) by {
                                assert(out@[a] == before[a]);
                            }
                        }
                    }
                    assert forall|a: int|
                        #![trigger pos[a]]
                        0 <= a < out@.len() implies 0 <= pos[a] < i + 1 && self.indexes.depositor@[pos[a]].depositor@
                            == depositor@ && self.indexes.depositor@[pos[a]].token_id@ == out@[a]@ by {
                        if a < before.len() {
                            assert(out@[a] == before[a]);
                            assert(pos[a] == pos0[a]);
                        } else {
                            assert(pos[a] == i);
                        }
                    }
                    assert forall|b: int|
                        0 <= b < i + 1 && (#[trigger] self.indexes.depositor@[b]).depositor@ == depositor@
                            implies exists|a: int|
                            0 <= a < out@.len() && out@[a]@ == self.indexes.depositor@[b].token_id@ by {
                        if b < i {
                            let a = choose|a: int|
                                0 <= a < before.len() && before[a]@ == self.indexes.depositor@[b].token_id@;
                            assert(out@[a] == before[a]);
                        } else {
                            assert(out@[before.len() as int]@ == self.indexes.depositor@[b].token_id@);
                        }
                    }
                }
            }
            i = i + 1;
        }
        proof {
            assert forall|a: int|
                0 <= a < out@.len() implies self.view().contains_key(#[trigger] out@[a]@) && self.view()[out@[a]@]
                    == depositor@ by {
                let x = out@[a];
                let b = pos[a];
                assert(0 <= b < n);
                assert(self.records().len() == self.items@.len());
                assert(self.records()[b].0 == self.items@[b].token_id@);
                self.lemma_view_at(b);
            }
            assert forall|k: Seq<char>|
                #[trigger] self.view().contains_key(k) && self.view()[k] == depositor@ implies exists|a: int|
                    0 <= a < out@.len() && out@[a]@ == k by {
                let b = choose|b: int| 0 <= b < self.records().len() && #[trigger] self.records()[b].0 == k;
                self.lemma_view_at(b);
                assert(self.indexes.depositor@[b].depositor@ == depositor@);
            }
            assert forall|a: int, b: int|
                0 <= a < out@.len() && 0 <= b < out@.len() && a != b implies #[trigger] out@[a]@ != #[trigger] out@[b]@ by {
                let pa = pos[a];
                let pb = pos[b];
                if a < b {
                    assert(pos[a] < pos[b]);
                } else {
                    assert(pos[b] < pos[a]);
                }
                assert(self.items@[pa].token_id@ != self.items@[pb].token_id@);
            }
        }
        out
    }

    /// A vault holding the given records; refuses two records of one asset.
    pub fn from_items(items: Vec<VaultItem>) -> (r: Result<Vault, ContractError>)
        ensures
            r is Ok <==> distinct_ids(items@),
            r is Err ==> r == Err::<Vault, ContractError>(ContractError::DuplicateAsset),
            r matches Ok(v) ==> (v.wf() && v.view() == records_map(items@)),
    {
        let mut v = Vault::new();
        let mut i: usize = 0;
        while i < items.len()
            invariant
                i <= items@.len(),
                v.wf(),
                v.view() == records_map(items@.take(i as int)),
                distinct_ids(items@.take(i as int)),
            decreases items@.len() - i,
        {
            let ghost t = items@.take(i as int);
            let ghost t1 = items@.take(i + 1);
            proof {
                assert(t1.drop_last() =~= t);
                assert(t1.last() == items@[i as int]);
                lemma_records_map_dom(t, items@[i as int].token_id@);
            }
            let res = v.put(items[i].token_id.clone(), items[i].depositor.clone());
            match res {
                Ok(()) => {},
                Err(e) => {
                    proof {
                        let j = choose|j: int| 0 <= j < t.len() && #[trigger] t[j].token_id@ == items@[i as int].token_id@;
                        assert(items@[j] == t[j]);
                        assert(items@[j].token_id@ == items@[i as int].token_id@);
                    }
                    return Err(e);
                },
            }
            proof {
                assert forall|a: int, b: int| 0 <= a < t1.len() && 0 <= b < t1.len() && a != b implies #[trigger] t1[a].token_id@
                    != #[trigger] t1[b].token_id@ by {
                    if a < i && b < i {
                        assert(t1[a] == t[a]);
                        assert(t1[b] == t[b]);
                    } else if a < i {
                        assert(t1[a] == t[a]);
                    } else {
                        assert(t1[b] == t[b]);
                    }
                }
            }
            i = i + 1;
        }
        proof {
            assert(items@.take(items@.len() as int) =~= items@);
        }
        Ok(v)
    }

    /// The records, in storage order, each copied.
    pub fn to_items(&self) -> (r: Vec<VaultItem>)
        requires
            self.wf(),
        ensures
            distinct_ids(r@),
            records_map(r@) == self.view(),
    {
        let mut out: Vec<VaultItem> = Vec::new();
        let mut i: usize = 0;
        while i < self.items.len()
            invariant
                i <= self.items@.len(),
                self.wf(),
                out@.len() == i,
                forall|a: int| 0 <= a < i ==> #[trigger] record_of(out@[a]) == record_of(self.items@[a]),
            decreases self.items@.len() - i,
        {
            let it = VaultItem {
                token_id: self.items[i].token_id.clone(),
                depositor: self.items[i].depositor.clone(),
            };
            out.push(it);
            i = i + 1;
        }
        proof {
            assert forall|a: int| 0 <= a < out@.len() implies #[trigger] self.records()[a] == record_of(out@[a]) by {
                assert(record_of(out@[a]) == record_of(self.items@[a]));
            }
            assert forall|a: int, b: int| 0 <= a < out@.len() && 0 <= b < out@.len() && a != b implies #[trigger] out@[a].token_id@
                != #[trigger] out@[b].token_id@ by {
                assert(record_of(out@[a]) == record_of(self.items@[a]));
                assert(record_of(out@[b]) == record_of(self.items@[b]));
            }
            let m = records_map(out@);
            assert forall|k: Seq<char>| #[trigger] m.contains_key(k) == self.view().contains_key(k) by {
                lemma_records_map_dom(out@, k);
                if m.contains_key(k) {
                    let j = choose|j: int| 0 <= j < out@.len() && #[trigger] out@[j].token_id@ == k;
                    assert(self.records()[j] == record_of(out@[j]));
                    self.lemma_view_at(j);
                }
                if self.view().contains_key(k) {
                    let j = choose|j: int| 0 <= j < self.records().len() && #[trigger] self.records()[j].0 == k;
                    assert(self.records()[j] == record_of(out@[j]));
                    assert(out@[j].token_id@ == k);
                }
            }
            assert forall|k: Seq<char>| #[trigger] m.contains_key(k) implies m[k] == self.view()[k] by {
                lemma_records_map_dom(out@, k);
                let j = choose|j: int| 0 <= j < out@.len() && #[trigger] out@[j].token_id@ == k;
                assert(self.records()[j] == record_of(out@[j]));
                self.lemma_view_at(j);
                lemma_records_map_at(out@, j);
            }
            assert(m =~= self.view());
        }
        out
    }
}

} // verus!
