//! String-keyed tables with mathematical map and set views: the alias
//! table, the reference-count table and the star-import set are all
//! association lists with distinct keys, viewed as `Map` / `Set`.

use vstd::prelude::*;

verus! {

use crate::strings::str_eq;

/// The map an association list denotes: later entries win.
pub open spec fn alist_map<V>(ps: Seq<(Seq<char>, V)>) -> Map<Seq<char>, V>
    decreases ps.len(),
{
    if ps.len() == 0 {
        Map::empty()
    } else {
        alist_map(ps.drop_last()).insert(ps.last().0, ps.last().1)
    }
}

/// No two entries share a key.
pub open spec fn distinct_keys<V>(ps: Seq<(Seq<char>, V)>) -> bool {
    forall|i: int, j: int| 0 <= i < j < ps.len() ==> ps[i].0 != ps[j].0
}

/// Every entry of the list is a pair of the map.
pub proof fn lemma_alist_entry<V>(ps: Seq<(Seq<char>, V)>, j: int)
    requires
        distinct_keys(ps),
        0 <= j < ps.len(),
    ensures
        alist_map(ps).contains_key(ps[j].0),
        alist_map(ps)[ps[j].0] == ps[j].1,
    decreases ps.len(),
{
    if j == ps.len() - 1 {
    } else {
        assert(distinct_keys(ps.drop_last()));
        lemma_alist_entry(ps.drop_last(), j);
        assert(ps[j].0 != ps.last().0);
    }
}

/// A key under no entry is not in the map.
pub proof fn lemma_alist_absent<V>(ps: Seq<(Seq<char>, V)>, k: Seq<char>)
    requires
        forall|i: int| 0 <= i < ps.len() ==> ps[i].0 != k,
    ensures
        !alist_map(ps).contains_key(k),
    decreases ps.len(),
{
    if ps.len() > 0 {
        lemma_alist_absent(ps.drop_last(), k);
    }
}

/// The domain of the map is exactly the set of listed keys.
pub proof fn lemma_alist_dom<V>(ps: Seq<(Seq<char>, V)>, k: Seq<char>)
    ensures
        alist_map(ps).contains_key(k) <==> exists|i: int| 0 <= i < ps.len() && ps[i].0 == k,
    decreases ps.len(),
{
    if ps.len() > 0 {
        lemma_alist_dom(ps.drop_last(), k);
        if alist_map(ps).contains_key(k) && ps.last().0 != k {
            let i = choose|i: int| 0 <= i < ps.drop_last().len() && ps.drop_last()[i].0 == k;
            assert(ps[i].0 == k);
        }
        if exists|i: int| 0 <= i < ps.len() && ps[i].0 == k {
            let i = choose|i: int| 0 <= i < ps.len() && ps[i].0 == k;
            if i < ps.len() - 1 {
                assert(ps.drop_last()[i].0 == k);
            }
        }
    }
}

/// Replacing the entry at `j` by a pair with the same key updates the
/// map at that key.
pub proof fn lemma_alist_update<V>(ps: Seq<(Seq<char>, V)>, j: int, p: (Seq<char>, V))
    requires
        distinct_keys(ps),
        0 <= j < ps.len(),
        p.0 == ps[j].0,
    ensures
        alist_map(ps.update(j, p)) =~= alist_map(ps).insert(p.0, p.1),
        distinct_keys(ps.update(j, p)),
    decreases ps.len(),
{
    let upd = ps.update(j, p);
    assert forall|i1: int, i2: int| 0 <= i1 < i2 < upd.len() implies upd[i1].0 != upd[i2].0 by {
        assert(ps[i1].0 != ps[i2].0);
    }
    if j == ps.len() - 1 {
        assert(upd.drop_last() =~= ps.drop_last());
    } else {
        assert(upd.drop_last() =~= ps.drop_last().update(j, p));
        assert(distinct_keys(ps.drop_last()));
        lemma_alist_update(ps.drop_last(), j, p);
        assert(upd.last() == ps.last());
        assert(ps.last().0 != p.0);
    }
}

/// A table from dotted names to dotted names (the active-import table).
pub struct StrMap {
    entries: Vec<(String, String)>,
}

/// A table from dotted names to reference counts.
pub struct CountTable {
    entries: Vec<(String, u64)>,
}

/// A set of dotted names (the active star-import set).
pub struct StrSet {
    items: Vec<String>,
}

impl StrMap {
    /// The listed `(key, value)` views, in insertion order.
    pub closed spec fn pairs(&self) -> Seq<(Seq<char>, Seq<char>)> {
        self.entries@.map_values(|p: (String, String)| (p.0@, p.1@))
    }

    /// Keys are distinct, so the list denotes its map faithfully.
    pub open spec fn wf(&self) -> bool {
        distinct_keys(self.pairs())
    }

    pub fn new() -> (r: Self)
        ensures
            r@ =~= Map::<Seq<char>, Seq<char>>::empty(),
            r.wf(),
            r.pairs() =~= Seq::<(Seq<char>, Seq<char>)>::empty(),
    {
        let r = StrMap { entries: Vec::new() };
        proof {
            assert(r.pairs() =~= Seq::<(Seq<char>, Seq<char>)>::empty());
        }
        r
    }

    pub fn len(&self) -> (r: usize)
        ensures
            r == self.pairs().len(),
    {
        self.entries.len()
    }

    pub fn key_at(&self, i: usize) -> (r: &String)
        requires
            i < self.pairs().len(),
        ensures
            r@ == self.pairs()[i as int].0,
    {
        &self.entries[i].0
    }

    pub fn value_at(&self, i: usize) -> (r: &String)
        requires
            i < self.pairs().len(),
        ensures
            r@ == self.pairs()[i as int].1,
    {
        &self.entries[i].1
    }

    /// Index of the entry holding `k`, if any.
    fn find(&self, k: &str) -> (r: Option<usize>)
        ensures
            match r {
                Some(i) => i < self.pairs().len() && self.pairs()[i as int].0 == k@,
                None => forall|i: int| 0 <= i < self.pairs().len() ==> self.pairs()[i].0 != k@,
            },
    {
        let mut i: usize = 0;
        while i < self.entries.len()
            invariant
                i <= self.entries.len(),
                forall|j: int| 0 <= j < i ==> self.pairs()[j].0 != k@,
            decreases self.entries.len() - i,
        {
            if str_eq(self.entries[i].0.as_str(), k) {
                return Some(i);
            }
            i += 1;
        }
        None
    }

    pub fn contains_key(&self, k: &str) -> (r: bool)
        requires
            self.wf(),
        ensures
            r == self@.contains_key(k@),
    {
        proof {
            lemma_alist_dom(self.pairs(), k@);
        }
        match self.find(k) {
            Some(_) => true,
            None => false,
        }
    }

    pub fn get<'a>(&'a self, k: &str) -> (r: Option<&'a String>)
        requires
            self.wf(),
        ensures
            match r {
                Some(v) => self@.contains_key(k@) && v@ == self@[k@],
                None => !self@.contains_key(k@),
            },
    {
        match self.find(k) {
            Some(i) => {
                proof {
                    lemma_alist_entry(self.pairs(), i as int);
                }
                Some(&self.entries[i].1)
            },
            None => {
                proof {
                    lemma_alist_absent(self.pairs(), k@);
                }
                None
            },
        }
    }

    /// Binds `k` to `v`, replacing any earlier binding.
    pub fn insert(&mut self, k: String, v: String)
        requires
            old(self).wf(),
        ensures
            final(self).wf(),
            final(self)@ =~= old(self)@.insert(k@, v@),
    {
        let ghost old_pairs = self.pairs();
        match self.find(k.as_str()) {
            Some(i) => {
                proof {
                    lemma_alist_update(old_pairs, i as int, (k@, v@));
                }
                self.entries.set(i, (k, v));
                proof {
                    assert(self.pairs() =~= old_pairs.update(i as int, (k@, v@)));
                }
            },
            None => {
                self.entries.push((k, v));
                proof {
                    assert(self.pairs() =~= old_pairs.push((k@, v@)));
                    assert(self.pairs().drop_last() =~= old_pairs);
                    assert forall|i1: int, i2: int|
                        0 <= i1 < i2 < self.pairs().len() implies self.pairs()[i1].0
                        != self.pairs()[i2].0 by {}
                }
            },
        }
    }

    /// An element-wise copy.
    pub fn duplicate(&self) -> (r: Self)
        ensures
            r.pairs() == self.pairs(),
            r@ == self@,
            r.wf() == self.wf(),
    {
        let mut entries: Vec<(String, String)> = Vec::new();
        let mut i: usize = 0;
        while i < self.entries.len()
            invariant
                i <= self.entries.len(),
                entries@.len() == i,
                forall|j: int|
                    0 <= j < i ==> entries@[j].0@ == self.pairs()[j].0 && entries@[j].1@
                        == self.pairs()[j].1,
            decreases self.entries.len() - i,
        {
            let p = (self.entries[i].0.clone(), self.entries[i].1.clone());
            entries.push(p);
            i += 1;
        }
        let r = StrMap { entries };
        proof {
            assert(r.pairs() =~= self.pairs());
        }
        r
    }
}

impl View for StrMap {
    type V = Map<Seq<char>, Seq<char>>;

    open spec fn view(&self) -> Map<Seq<char>, Seq<char>> {
        alist_map(self.pairs())
    }
}

impl CountTable {
    /// The listed `(key, count)` views, in insertion order.
    pub closed spec fn pairs(&self) -> Seq<(Seq<char>, u64)> {
        self.entries@.map_values(|p: (String, u64)| (p.0@, p.1))
    }

    /// Keys are distinct, so the list denotes its map faithfully.
    pub open spec fn wf(&self) -> bool {
        distinct_keys(self.pairs())
    }

    /// Number of known names.
    pub open spec fn size(&self) -> nat {
        self.pairs().len()
    }

    pub fn new() -> (r: Self)
        ensures
            r@ =~= Map::<Seq<char>, u64>::empty(),
            r.wf(),
            r.size() == 0,
    {
        let r = CountTable { entries: Vec::new() };
        proof {
            assert(r.pairs() =~= Seq::<(Seq<char>, u64)>::empty());
        }
        r
    }

    pub fn len(&self) -> (r: usize)
        ensures
            r == self.size(),
    {
        self.entries.len()
    }

    pub fn key_at(&self, i: usize) -> (r: &String)
        requires
            i < self.size(),
        ensures
            r@ == self.pairs()[i as int].0,
    {
        &self.entries[i].0
    }

    pub fn count_at(&self, i: usize) -> (r: u64)
        requires
            i < self.size(),
        ensures
            r == self.pairs()[i as int].1,
    {
        self.entries[i].1
    }

    /// Every listed pair is a pair of the map.
    pub proof fn lemma_pair_in_view(&self, i: int)
        requires
            self.wf(),
            0 <= i < self.size(),
        ensures
            self@.contains_pair(self.pairs()[i].0, self.pairs()[i].1),
    {
        lemma_alist_entry(self.pairs(), i);
    }

    /// Every key of the map is listed.
    pub proof fn lemma_key_listed(&self, k: Seq<char>)
        requires
            self@.contains_key(k),
        ensures
            exists|i: int| 0 <= i < self.size() && self.pairs()[i].0 == k,
    {
        lemma_alist_dom(self.pairs(), k);
    }

    fn find(&self, k: &str) -> (r: Option<usize>)
        ensures
            match r {
                Some(i) => i < self.pairs().len() && self.pairs()[i as int].0 == k@,
                None => forall|i: int| 0 <= i < self.pairs().len() ==> self.pairs()[i].0 != k@,
            },
    {
        let mut i: usize = 0;
        while i < self.entries.len()
            invariant
                i <= self.entries.len(),
                forall|j: int| 0 <= j < i ==> self.pairs()[j].0 != k@,
            decreases self.entries.len() - i,
        {
            if str_eq(self.entries[i].0.as_str(), k) {
                return Some(i);
            }
            i += 1;
        }
        None
    }

    pub fn contains_key(&self, k: &str) -> (r: bool)
        requires
            self.wf(),
        ensures
            r == self@.contains_key(k@),
    {
        proof {
            lemma_alist_dom(self.pairs(), k@);
        }
        match self.find(k) {
            Some(_) => true,
            None => false,
        }
    }

    pub fn get(&self, k: &str) -> (r: Option<u64>)
        requires
            self.wf(),
        ensures
            match r {
                Some(v) => self@.contains_key(k@) && v == self@[k@],
                None => !self@.contains_key(k@),
            },
    {
        match self.find(k) {
            Some(i) => {
                proof {
                    lemma_alist_entry(self.pairs(), i as int);
                }
                Some(self.entries[i].1)
            },
            None => {
                proof {
                    lemma_alist_absent(self.pairs(), k@);
                }
                None
            },
        }
    }

    /// Binds `k` to `v`, replacing any earlier binding. The table grows
    /// by one name exactly when `k` was unknown.
    pub fn insert(&mut self, k: String, v: u64)
        requires
            old(self).wf(),
        ensures
            final(self).wf(),
            final(self)@ =~= old(self)@.insert(k@, v),
            old(self)@.contains_key(k@) ==> final(self).size() == old(self).size(),
            !old(self)@.contains_key(k@) ==> final(self).size() == old(self).size() + 1,
    {
        let ghost old_pairs = self.pairs();
        proof {
            lemma_alist_dom(old_pairs, k@);
        }
        match self.find(k.as_str()) {
            Some(i) => {
                proof {
                    lemma_alist_update(old_pairs, i as int, (k@, v));
                }
                self.entries.set(i, (k, v));
                proof {
                    assert(self.pairs() =~= old_pairs.update(i as int, (k@, v)));
                }
            },
            None => {
                self.entries.push((k, v));
                proof {
                    assert(self.pairs() =~= old_pairs.push((k@, v)));
                    assert(self.pairs().drop_last() =~= old_pairs);
                    assert forall|i1: int, i2: int|
                        0 <= i1 < i2 < self.pairs().len() implies self.pairs()[i1].0
                        != self.pairs()[i2].0 by {}
                }
            },
        }
    }
}

impl View for CountTable {
    type V = Map<Seq<char>, u64>;

    open spec fn view(&self) -> Map<Seq<char>, u64> {
        alist_map(self.pairs())
    }
}

impl StrSet {
    /// The listed names, in insertion order.
    pub closed spec fn items_seq(&self) -> Seq<Seq<char>> {
        self.items.deep_view()
    }

    /// No name is listed twice.
    pub open spec fn wf(&self) -> bool {
        self.items_seq().no_duplicates()
    }

    pub fn new() -> (r: Self)
        ensures
            r@ =~= Set::<Seq<char>>::empty(),
            r.wf(),
            r.items_seq() =~= Seq::<Seq<char>>::empty(),
    {
        let r = StrSet { items: Vec::new() };
        proof {
            assert(r.items_seq() =~= Seq::<Seq<char>>::empty());
            assert(r@ =~= Set::<Seq<char>>::empty());
        }
        r
    }

    pub fn len(&self) -> (r: usize)
        ensures
            r == self.items_seq().len(),
    {
        self.items.len()
    }

    pub fn item_at(&self, i: usize) -> (r: &String)
        requires
            i < self.items_seq().len(),
        ensures
            r@ == self.items_seq()[i as int],
            self@.contains(r@),
    {
        proof {
            assert(self.items_seq().contains(self.items_seq()[i as int]));
        }
        &self.items[i]
    }

    pub fn contains(&self, k: &str) -> (r: bool)
        ensures
            r == self@.contains(k@),
    {
        let mut i: usize = 0;
        while i < self.items.len()
            invariant
                i <= self.items.len(),
                forall|j: int| 0 <= j < i ==> self.items_seq()[j] != k@,
            decreases self.items.len() - i,
        {
            if str_eq(self.items[i].as_str(), k) {
                proof {
                    assert(self.items_seq()[i as int] == k@);
                }
                return true;
            }
            i += 1;
        }
        proof {
            if self@.contains(k@) {
                let j = choose|j: int| 0 <= j < self.items_seq().len() && self.items_seq()[j] == k@;
                assert(self.items_seq()[j] != k@);
            }
        }
        false
    }

    /// Adds `k` when it is not yet present.
    pub fn insert(&mut self, k: String)
        requires
            old(self).wf(),
        ensures
            final(self).wf(),
            final(self)@ =~= old(self)@.insert(k@),
    {
        if !self.contains(k.as_str()) {
            let ghost old_items = self.items_seq();
            self.items.push(k);
            proof {
                assert(self.items_seq() =~= old_items.push(k@));
                assert(self.items_seq().drop_last() =~= old_items);
                assert(self.items_seq().no_duplicates());
                assert forall|a: Seq<char>| #![auto] self.items_seq().contains(a) == (
                old_items.contains(a) || a == k@) by {
                    if self.items_seq().contains(a) {
                        let j = choose|j: int|
                            0 <= j < self.items_seq().len() && self.items_seq()[j] == a;
                        if j < old_items.len() {
                            assert(old_items[j] == a);
                        }
                    }
                    if old_items.contains(a) {
                        let j = choose|j: int| 0 <= j < old_items.len() && old_items[j] == a;
                        assert(self.items_seq()[j] == a);
                    }
                    if a == k@ {
                        assert(self.items_seq().last() == k@);
                    }
                }
                assert(self@ =~= old(self)@.insert(k@));
            }
        } else {
            proof {
                assert(self@.contains(k@));
                assert forall|a: Seq<char>| #![auto] self@.insert(k@).contains(a)
                    == self@.contains(a) by {}
                assert(self@ =~= old(self)@.insert(k@));
            }
        }
    }

    /// An element-wise copy.
    pub fn duplicate(&self) -> (r: Self)
        ensures
            r.items_seq() == self.items_seq(),
            r@ == self@,
            r.wf() == self.wf(),
    {
        let mut items: Vec<String> = Vec::new();
        let mut i: usize = 0;
        while i < self.items.len()
            invariant
                i <= self.items.len(),
                items.deep_view() =~= self.items_seq().take(i as int),
            decreases self.items.len() - i,
        {
            let ghost old_deep = items.deep_view();
            items.push(self.items[i].clone());
            proof {
                assert(items.deep_view() =~~= old_deep.push(self.items_seq()[i as int]));
                assert(items.deep_view() =~~= self.items_seq().take(i + 1));
            }
            i += 1;
        }
        let r = StrSet { items };
        proof {
            assert(r.items_seq() =~= self.items_seq());
        }
        r
    }
}

impl View for StrSet {
    type V = Set<Seq<char>>;

    open spec fn view(&self) -> Set<Seq<char>> {
        self.items_seq().to_set()
    }
}

} // verus!
