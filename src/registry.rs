//! The overlay registry: the map from overlay id to configuration.
//!
//! Entries are kept in a vector in order of insertion, with no id twice;
//! contracts see the registry as a `Map` from the id's characters to the
//! configuration. The expected number of overlays is small, so lookups scan.
//!
//! A vector rather than a `HashMap<String, _>`: vstd's hash map
//! specifications hold only for key types that it declares to follow its
//! key model, and `String` is not one of them, so lookups by a `String` key
//! could not be proved. The vector also keeps the
//! order of creation for listings.
use vstd::prelude::*;
use crate::overlay::{OverlayConfig, OverlayId};

verus! {

/// One registered overlay.
pub struct OverlayEntry {
    pub id: OverlayId,
    pub config: OverlayConfig,
}

/// The map that a sequence of entries describes; a later entry wins.
pub open spec fn map_of(s: Seq<OverlayEntry>) -> Map<Seq<char>, OverlayConfig>
    decreases s.len(),
{
    if s.len() == 0 {
        Map::empty()
    } else {
        map_of(s.drop_last()).insert(s.last().id@, s.last().config)
    }
}

/// No id occurs twice in `s`.
pub open spec fn ids_unique(s: Seq<OverlayEntry>) -> bool {
    forall|i: int, j: int|
        0 <= i < s.len() && 0 <= j < s.len() && i != j ==> s[i].id@ != s[j].id@
}

/// The characters of each id in `v`.
pub open spec fn ids_view(v: Seq<OverlayId>) -> Seq<Seq<char>> {
    v.map_values(|x: OverlayId| x@)
}

proof fn lemma_map_of_domain(s: Seq<OverlayEntry>, k: Seq<char>)
    ensures
        map_of(s).contains_key(k) <==> exists|i: int| 0 <= i < s.len() && s[i].id@ == k,
    decreases s.len(),
{
    if s.len() > 0 {
        let t = s.drop_last();
        lemma_map_of_domain(t, k);
        if map_of(s).contains_key(k) {
            if k == s.last().id@ {
                assert(s[s.len() - 1].id@ == k);
            } else {
                let i = choose|i: int| 0 <= i < t.len() && t[i].id@ == k;
                assert(s[i] == t[i]);
            }
        }
        if exists|i: int| 0 <= i < s.len() && s[i].id@ == k {
            let i = choose|i: int| 0 <= i < s.len() && s[i].id@ == k;
            if i < s.len() - 1 {
                assert(t[i] == s[i]);
            }
        }
    }
}

proof fn lemma_map_of_value(s: Seq<OverlayEntry>, i: int)
    requires
        ids_unique(s),
        0 <= i < s.len(),
    ensures
        map_of(s).contains_key(s[i].id@),
        map_of(s)[s[i].id@] == s[i].config,
    decreases s.len(),
{
    if i < s.len() - 1 {
        let t = s.drop_last();
        assert(t[i] == s[i]);
        assert(ids_unique(t));
        lemma_map_of_value(t, i);
        assert(s[i].id@ != s[s.len() - 1].id@);
    }
}

proof fn lemma_map_of_remove(s: Seq<OverlayEntry>, i: int)
    requires
        ids_unique(s),
        0 <= i < s.len(),
    ensures
        map_of(s.remove(i)) =~= map_of(s).remove(s[i].id@),
        ids_unique(s.remove(i)),
    decreases s.len(),
{
    let t = s.drop_last();
    let k = s[i].id@;
    assert(ids_unique(t));
    if i == s.len() - 1 {
        assert(s.remove(i) =~= t);
        lemma_map_of_domain(t, k);
        if map_of(t).contains_key(k) {
            let j = choose|j: int| 0 <= j < t.len() && t[j].id@ == k;
            assert(s[j] == t[j]);
        }
    } else {
        assert(t[i] == s[i]);
        lemma_map_of_remove(t, i);
        assert(s.remove(i) =~= t.remove(i).push(s.last()));
        assert(s.remove(i).drop_last() =~= t.remove(i));
        assert(s[s.len() - 1].id@ != k);
    }
    assert(ids_unique(s.remove(i))) by {
        let r = s.remove(i);
        assert forall|a: int, b: int|
            0 <= a < r.len() && 0 <= b < r.len() && a != b implies r[a].id@ != r[b].id@ by {
            let a1 = if a < i {
                a
            } else {
                a + 1
            };
            let b1 = if b < i {
                b
            } else {
                b + 1
            };
            assert(r[a] == s[a1]);
            assert(r[b] == s[b1]);
        }
    }
}

proof fn lemma_map_of_update(s: Seq<OverlayEntry>, i: int, e: OverlayEntry)
    requires
        ids_unique(s),
        0 <= i < s.len(),
        e.id@ == s[i].id@,
    ensures
        map_of(s.update(i, e)) =~= map_of(s).insert(e.id@, e.config),
        ids_unique(s.update(i, e)),
    decreases s.len(),
{
    let t = s.drop_last();
    assert(ids_unique(t));
    if i == s.len() - 1 {
        assert(s.update(i, e).drop_last() =~= t);
    } else {
        assert(t[i] == s[i]);
        lemma_map_of_update(t, i, e);
        assert(s.update(i, e).drop_last() =~= t.update(i, e));
        assert(s.update(i, e).last() == s.last());
        assert(s[s.len() - 1].id@ != e.id@);
    }
    assert(ids_unique(s.update(i, e))) by {
        let r = s.update(i, e);
        assert forall|a: int, b: int|
            0 <= a < r.len() && 0 <= b < r.len() && a != b implies r[a].id@ != r[b].id@ by {
            assert(r[a].id@ == s[a].id@);
            assert(r[b].id@ == s[b].id@);
        }
    }
}

/// The registry of overlays.
pub struct OverlayRegistry {
    entries: Vec<OverlayEntry>,
}

impl View for OverlayRegistry {
    type V = Map<Seq<char>, OverlayConfig>;

    closed spec fn view(&self) -> Map<Seq<char>, OverlayConfig> {
        map_of(self.entries@)
    }
}

impl OverlayRegistry {
    /// The registry's invariant: no id occurs twice.
    pub closed spec fn wf(&self) -> bool {
        ids_unique(self.entries@)
    }

    /// An empty registry.
    pub fn new() -> (r: Self)
        ensures
            r.wf(),
            r@ == Map::<Seq<char>, OverlayConfig>::empty(),
    {
        OverlayRegistry { entries: Vec::new() }
    }

    /// The position of the entry with this id.
    fn find(&self, id: &OverlayId) -> (r: Option<usize>)
        requires
            self.wf(),
        ensures
            match r {
                Some(i) => i < self.entries@.len() && self.entries@[i as int].id@ == id@,
                None => !self@.contains_key(id@),
            },
    {
        let mut i: usize = 0;
        while i < self.entries.len()
            invariant
                i <= self.entries@.len(),
                forall|j: int| 0 <= j < i ==> #[trigger] self.entries@[j].id@ != id@,
            decreases self.entries@.len() - i,
        {
            if self.entries[i].id == *id {
                return Some(i);
            }
            i = i + 1;
        }
        proof {
            lemma_map_of_domain(self.entries@, id@);
        }
        None
    }

    /// Whether an overlay has this id.
    pub fn contains(&self, id: &OverlayId) -> (r: bool)
        requires
            self.wf(),
        ensures
            r == self@.contains_key(id@),
    {
        match self.find(id) {
            Some(i) => {
                proof {
                    lemma_map_of_value(self.entries@, i as int);
                }
                true
            },
            None => false,
        }
    }

    /// The configuration stored under this id.
    pub fn get(&self, id: &OverlayId) -> (r: Option<&OverlayConfig>)
        requires
            self.wf(),
        ensures
            match r {
                Some(c) => self@.contains_key(id@) && *c == self@[id@],
                None => !self@.contains_key(id@),
            },
    {
        match self.find(id) {
            Some(i) => {
                proof {
                    lemma_map_of_value(self.entries@, i as int);
                }
                Some(&self.entries[i].config)
            },
            None => None,
        }
    }

    /// Stores `config` under `id`, replacing and returning what was there.
    pub fn insert(&mut self, id: OverlayId, config: OverlayConfig) -> (r: Option<OverlayConfig>)
        requires
            old(self).wf(),
        ensures
            final(self).wf(),
            final(self)@ == old(self)@.insert(id@, config),
            r == (if old(self)@.contains_key(id@) {
                Some(old(self)@[id@])
            } else {
                None::<OverlayConfig>
            }),
    {
        match self.find(&id) {
            Some(i) => {
                proof {
                    lemma_map_of_value(self.entries@, i as int);
                }
                let ghost before = self.entries@;
                let mut e = OverlayEntry { id, config };
                proof {
                    lemma_map_of_update(before, i as int, e);
                }
                self.entries.set_and_swap(i, &mut e);
                Some(e.config)
            },
            None => {
                let ghost before = self.entries@;
                self.entries.push(OverlayEntry { id, config });
                proof {
                    assert(self.entries@.drop_last() =~= before);
                    lemma_map_of_domain(before, id@);
                    assert forall|a: int, b: int|
                        0 <= a < self.entries@.len() && 0 <= b < self.entries@.len() && a != b
                        implies self.entries@[a].id@ != self.entries@[b].id@ by {
                        if a < before.len() && b < before.len() {
                            assert(self.entries@[a] == before[a]);
                            assert(self.entries@[b] == before[b]);
                        } else if a < before.len() {
                            assert(self.entries@[a] == before[a]);
                        } else {
                            assert(self.entries@[b] == before[b]);
                        }
                    }
                }
                None
            },
        }
    }

    /// Takes the overlay with this id out of the registry.
    pub fn remove(&mut self, id: &OverlayId) -> (r: Option<OverlayConfig>)
        requires
            old(self).wf(),
        ensures
            final(self).wf(),
            final(self)@ == old(self)@.remove(id@),
            !old(self)@.contains_key(id@) ==> final(self)@ == old(self)@,
            r == (if old(self)@.contains_key(id@) {
                Some(old(self)@[id@])
            } else {
                None::<OverlayConfig>
            }),
    {
        match self.find(id) {
            Some(i) => {
                let ghost before = self.entries@;
                proof {
                    lemma_map_of_value(before, i as int);
                    lemma_map_of_remove(before, i as int);
                }
                let e = self.entries.remove(i);
                Some(e.config)
            },
            None => {
                proof {
                    assert(self@.remove(id@) =~= self@);
                }
                None
            },
        }
    }

    /// The ids of all overlays, each once, in order of creation.
    pub fn list_ids(&self) -> (r: Vec<OverlayId>)
        requires
            self.wf(),
        ensures
            ids_view(r@).to_set() == self@.dom(),
            ids_view(r@).no_duplicates(),
    {
        let mut r: Vec<OverlayId> = Vec::new();
        let mut i: usize = 0;
        while i < self.entries.len()
            invariant
                i <= self.entries@.len(),
                r@.len() == i,
                ids_unique(self.entries@),
                forall|j: int| 0 <= j < i ==> #[trigger] r@[j]@ == self.entries@[j].id@,
            decreases self.entries@.len() - i,
        {
            r.push(self.entries[i].id.clone());
            i = i + 1;
        }
        proof {
            let v = ids_view(r@);
            assert forall|k: Seq<char>| v.to_set().contains(k) <==> self@.dom().contains(k) by {
                lemma_map_of_domain(self.entries@, k);
                if v.to_set().contains(k) {
                    let j = choose|j: int| 0 <= j < v.len() && v[j] == k;
                    assert(self.entries@[j].id@ == k);
                }
                if self@.dom().contains(k) {
                    let j = choose|j: int| 0 <= j < self.entries@.len() && self.entries@[j].id@ == k;
                    assert(v[j] == k);
                }
            }
            assert(v.to_set() =~= self@.dom());
            assert forall|a: int, b: int| 0 <= a < v.len() && 0 <= b < v.len() && a != b
                implies v[a] != v[b] by {
                assert(v[a] == self.entries@[a].id@);
                assert(v[b] == self.entries@[b].id@);
            }
        }
        r
    }

    /// Removes every overlay.
    pub fn clear(&mut self)
        requires
            old(self).wf(),
        ensures
            final(self).wf(),
            final(self)@ == Map::<Seq<char>, OverlayConfig>::empty(),
    {
        self.entries = Vec::new();
        proof {
            assert(map_of(self.entries@) =~= Map::<Seq<char>, OverlayConfig>::empty());
        }
    }
}

} // verus!
