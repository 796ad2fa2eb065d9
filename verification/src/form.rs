use vstd::prelude::*;

verus! {

/// The value that the first entry named `key` carries, if any.
pub open spec fn lookup(entries: Seq<(Seq<char>, Seq<char>)>, key: Seq<char>) -> Option<Seq<char>>
    decreases entries.len(),
{
    if entries.len() == 0 {
        None
    } else if entries[0].0 == key {
        Some(entries[0].1)
    } else {
        lookup(entries.drop_first(), key)
    }
}

/// The map that a list of entries describes, the first entry for a name
/// deciding its value.
pub open spec fn entries_map(entries: Seq<(Seq<char>, Seq<char>)>) -> Map<Seq<char>, Seq<char>> {
    Map::new(|k: Seq<char>| lookup(entries, k) is Some, |k: Seq<char>| lookup(entries, k)->0)
}

proof fn lemma_lookup_push(entries: Seq<(Seq<char>, Seq<char>)>, key: Seq<char>, value: Seq<char>, k: Seq<char>)
    requires
        lookup(entries, key) is None,
    ensures
        lookup(entries.push((key, value)), k) == (if k == key {
            Some(value)
        } else {
            lookup(entries, k)
        }),
    decreases entries.len(),
{
    if entries.len() > 0 {
        assert(entries.push((key, value)).drop_first() =~= entries.drop_first().push((key, value)));
        lemma_lookup_push(entries.drop_first(), key, value, k);
    } else {
        assert(entries.push((key, value)).drop_first() =~= entries);
    }
}

proof fn lemma_lookup_update(entries: Seq<(Seq<char>, Seq<char>)>, i: int, value: Seq<char>, k: Seq<char>)
    requires
        0 <= i < entries.len(),
        forall|j: int| 0 <= j < i ==> #[trigger] entries[j].0 != entries[i].0,
    ensures
        lookup(entries.update(i, (entries[i].0, value)), k) == (if k == entries[i].0 {
            Some(value)
        } else {
            lookup(entries, k)
        }),
    decreases entries.len(),
{
    if i > 0 {
        let key = entries[i].0;
        assert(entries.update(i, (key, value)).drop_first() =~= entries.drop_first().update(
            i - 1,
            (key, value),
        ));
        assert forall|j: int| 0 <= j < i - 1 implies #[trigger] entries.drop_first()[j].0
            != entries.drop_first()[i - 1].0 by {
            assert(entries[j + 1].0 != entries[i].0);
        }
        lemma_lookup_update(entries.drop_first(), i - 1, value, k);
    } else {
        assert(entries.update(0, (entries[0].0, value)).drop_first() =~= entries.drop_first());
    }
}

/// No two entries carry the same name.
pub open spec fn distinct_names(entries: Seq<(Seq<char>, Seq<char>)>) -> bool {
    forall|i: int, j: int| 0 <= i < j < entries.len() ==> entries[i].0 != entries[j].0
}

proof fn lemma_lookup_none(entries: Seq<(Seq<char>, Seq<char>)>, key: Seq<char>)
    ensures
        lookup(entries, key) is None <==> forall|i: int| 0 <= i < entries.len() ==> #[trigger] entries[i].0 != key,
    decreases entries.len(),
{
    if entries.len() > 0 {
        lemma_lookup_none(entries.drop_first(), key);
        if lookup(entries, key) is None {
            assert forall|i: int| 0 <= i < entries.len() implies #[trigger] entries[i].0 != key by {
                if i > 0 {
                    assert(entries.drop_first()[i - 1] == entries[i]);
                }
            }
        } else if forall|i: int| 0 <= i < entries.len() ==> #[trigger] entries[i].0 != key {
            assert(entries[0].0 != key);
            assert forall|i: int| 0 <= i < entries.drop_first().len() implies #[trigger] entries.drop_first()[i].0 != key by {
                assert(entries[i + 1].0 != key);
            }
        }
    }
}

/// With distinct names, the map has one key per entry.
proof fn lemma_map_size(entries: Seq<(Seq<char>, Seq<char>)>)
    requires
        distinct_names(entries),
    ensures
        entries_map(entries).dom().finite(),
        entries_map(entries).len() == entries.len(),
    decreases entries.len(),
{
    broadcast use vstd::set::group_set_axioms;
    if entries.len() == 0 {
        assert(entries_map(entries).dom() =~= Set::<Seq<char>>::empty());
    } else {
        let front = entries.drop_last();
        let (k, v) = entries.last();
        assert(distinct_names(front));
        lemma_map_size(front);
        assert forall|i: int| 0 <= i < front.len() implies #[trigger] front[i].0 != k by {
            assert(entries[i].0 != entries[entries.len() - 1].0);
        }
        lemma_lookup_none(front, k);
        assert(front.push((k, v)) =~= entries);
        assert forall|q: Seq<char>| #[trigger] lookup(entries, q) == (if q == k {
            Some(v)
        } else {
            lookup(front, q)
        }) by {
            lemma_lookup_push(front, k, v, q);
        }
        assert(entries_map(entries).dom() =~= entries_map(front).dom().insert(k));
        assert(!entries_map(front).dom().contains(k));
    }
}

/// The values submitted for named fields: each name carries at most one
/// value, as in a map from names to values.
#[derive(Debug)]
pub struct FormData {
    entries: Vec<(String, String)>,
}

impl FormData {
    /// The entries as text pairs, in order.
    pub closed spec fn entries_view(&self) -> Seq<(Seq<char>, Seq<char>)> {
        self.entries@.map_values(|e: (String, String)| (e.0@, e.1@))
    }

    /// Each name occurs in one entry at most.
    #[verifier::type_invariant]
    closed spec fn names_distinct(&self) -> bool {
        distinct_names(self.entries_view())
    }
}

impl Clone for FormData {
    fn clone(&self) -> (r: Self)
        ensures
            r@ == self@,
    {
        let mut entries: Vec<(String, String)> = Vec::new();
        let n = self.entries.len();
        for i in 0..n
            invariant
                n == self.entries@.len(),
                entries@.map_values(|e: (String, String)| (e.0@, e.1@)) == self.entries_view().take(
                    i as int,
                ),
        {
            let ghost before = entries@;
            let e = (self.entries[i].0.clone(), self.entries[i].1.clone());
            entries.push(e);
            proof {
                assert(entries@.map_values(|e: (String, String)| (e.0@, e.1@)) =~= before.map_values(
                    |e: (String, String)| (e.0@, e.1@),
                ).push((e.0@, e.1@)));
                assert(self.entries_view().take(i + 1) =~= self.entries_view().take(i as int).push(
                    (e.0@, e.1@),
                ));
            }
        }
        proof {
            use_type_invariant(self);
            assert(self.entries_view().take(n as int) =~= self.entries_view());
        }
        let r = FormData { entries };
        proof {
            assert(r.entries_view() =~= self.entries_view());
        }
        r
    }
}

impl View for FormData {
    type V = Map<Seq<char>, Seq<char>>;

    closed spec fn view(&self) -> Map<Seq<char>, Seq<char>> {
        entries_map(self.entries_view())
    }
}

/// Finitely many names carry a value in a form: no more than its entries.
pub proof fn lemma_form_finite(d: FormData)
    ensures
        d@.dom().finite(),
{
    let es = d.entries_view();
    let names = es.map_values(|e: (Seq<char>, Seq<char>)| e.0);
    assert forall|k: Seq<char>| d@.dom().contains(k) implies names.to_set().contains(k) by {
        lemma_lookup_none(es, k);
        let i = choose|i: int| 0 <= i < es.len() && es[i].0 == k;
        assert(names[i] == k);
    }
    vstd::seq_lib::seq_to_set_is_finite(names);
    vstd::set_lib::lemma_set_subset_finite(names.to_set(), d@.dom());
}

impl FormData {
    /// No values.
    pub fn new() -> (d: FormData)
        ensures
            d@ == Map::<Seq<char>, Seq<char>>::empty(),
    {
        let d = FormData { entries: Vec::new() };
        proof {
            assert(d@ =~= Map::<Seq<char>, Seq<char>>::empty());
        }
        d
    }

    /// The index of the first entry named `key`, if any.
    fn find(&self, key: &str) -> (r: Option<usize>)
        ensures
            match r {
                Some(i) => {
                    &&& i < self.entries@.len()
                    &&& self.entries_view()[i as int].0 == key@
                    &&& forall|j: int| 0 <= j < i ==> self.entries_view()[j].0 != key@
                    &&& lookup(self.entries_view(), key@) == Some(self.entries_view()[i as int].1)
                },
                None => lookup(self.entries_view(), key@) is None,
            },
    {
        let wanted = key.to_owned();
        let n = self.entries.len();
        let ghost es = self.entries_view();
        proof {
            assert(es.skip(0) =~= es);
        }
        for i in 0..n
            invariant
                n == self.entries@.len(),
                es == self.entries_view(),
                wanted@ == key@,
                forall|j: int| 0 <= j < i ==> es[j].0 != key@,
                lookup(es, key@) == lookup(es.skip(i as int), key@),
        {
            proof {
                assert(es.skip(i as int).drop_first() =~= es.skip(i + 1));
            }
            if self.entries[i].0 == wanted {
                return Some(i);
            }
        }
        proof {
            assert(es.skip(n as int).len() == 0);
        }
        None
    }

    /// The value submitted for `key`, if any.
    pub fn get(&self, key: &str) -> (r: Option<&String>)
        ensures
            match r {
                Some(v) => self@.contains_key(key@) && self@[key@] == v@,
                None => !self@.contains_key(key@),
            },
    {
        match self.find(key) {
            Some(i) => Some(&self.entries[i].1),
            None => None,
        }
    }

    /// Whether a value is submitted for `key`.
    pub fn contains_key(&self, key: &str) -> (b: bool)
        ensures
            b == self@.contains_key(key@),
    {
        self.find(key).is_some()
    }

    /// Set the value of `key` to `value`; the value it had before, if any,
    /// is returned.
    pub fn insert(&mut self, key: String, value: String) -> (r: Option<String>)
        ensures
            final(self)@ == old(self)@.insert(key@, value@),
            match r {
                Some(v) => old(self)@.contains_key(key@) && old(self)@[key@] == v@,
                None => !old(self)@.contains_key(key@),
            },
    {
        proof {
            use_type_invariant(&*self);
        }
        let ghost old_es = self.entries_view();
        let ghost k = key@;
        let ghost v = value@;
        let found = self.find(key.as_str());
        let mut entries: Vec<(String, String)> = Vec::new();
        std::mem::swap(&mut entries, &mut self.entries);
        proof {
            assert(entries@.map_values(|e: (String, String)| (e.0@, e.1@)) == old_es);
        }
        match found {
            Some(i) => {
                let old_value = entries[i].1.clone();
                let name = entries[i].0.clone();
                entries.set(i, (name, value));
                let ghost new_es = entries@.map_values(|e: (String, String)| (e.0@, e.1@));
                proof {
                    assert(new_es =~= old_es.update(i as int, (k, v)));
                    assert forall|q: Seq<char>| #[trigger] lookup(new_es, q) == (if q == k {
                        Some(v)
                    } else {
                        lookup(old_es, q)
                    }) by {
                        lemma_lookup_update(old_es, i as int, v, q);
                    }
                    assert(distinct_names(new_es)) by {
                        assert forall|a: int, b: int| 0 <= a < b < new_es.len() implies new_es[a].0
                            != new_es[b].0 by {
                            assert(new_es[a].0 == old_es[a].0);
                            assert(new_es[b].0 == old_es[b].0);
                        }
                    }
                }
                self.entries = entries;
                proof {
                    assert(self.entries_view() == new_es);
                    assert(self@ =~= old(self)@.insert(k, v));
                }
                Some(old_value)
            },
            None => {
                entries.push((key, value));
                let ghost new_es = entries@.map_values(|e: (String, String)| (e.0@, e.1@));
                proof {
                    assert(new_es =~= old_es.push((k, v)));
                    assert forall|q: Seq<char>| #[trigger] lookup(new_es, q) == (if q == k {
                        Some(v)
                    } else {
                        lookup(old_es, q)
                    }) by {
                        lemma_lookup_push(old_es, k, v, q);
                    }
                    lemma_lookup_none(old_es, k);
                    assert(distinct_names(new_es)) by {
                        assert forall|a: int, b: int| 0 <= a < b < new_es.len() implies new_es[a].0
                            != new_es[b].0 by {
                            assert(new_es[a] == old_es[a]);
                            if b < old_es.len() {
                                assert(new_es[b] == old_es[b]);
                            } else {
                                assert(old_es[a].0 != k);
                            }
                        }
                    }
                }
                self.entries = entries;
                proof {
                    assert(self.entries_view() == new_es);
                    assert(self@ =~= old(self)@.insert(k, v));
                }
                None
            },
        }
    }

    /// The number of names that carry a value.
    pub fn len(&self) -> (n: usize)
        ensures
            self@.dom().finite(),
            n == self@.len(),
    {
        proof {
            use_type_invariant(self);
            lemma_map_size(self.entries_view());
        }
        self.entries.len()
    }

    /// Whether no name carries a value.
    pub fn is_empty(&self) -> (b: bool)
        ensures
            self@.dom().finite(),
            b == (self@.len() == 0),
    {
        self.len() == 0
    }
}

} // verus!
