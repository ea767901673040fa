use vstd::prelude::*;

use crate::zone::{classify, views_of, zone_of, Reading, ReadingView, Zone};

verus! {

/// A change of zone of one power source.
#[derive(Clone, Debug, PartialEq, Eq)]
pub struct Transition {
    pub source: String,
    pub from: Zone,
    pub to: Zone,
}

/// The mathematical value of a [`Transition`].
pub struct TransitionView {
    pub source: Seq<char>,
    pub from: Zone,
    pub to: Zone,
}

impl View for Transition {
    type V = TransitionView;

    open spec fn view(&self) -> TransitionView {
        TransitionView { source: self.source@, from: self.from, to: self.to }
    }
}

/// The zone stored for `source`, `Other` where none is stored yet.
pub open spec fn stored_zone(m: Map<Seq<char>, Zone>, source: Seq<char>) -> Zone {
    if m.contains_key(source) {
        m[source]
    } else {
        Zone::Other
    }
}

/// The store after a reading: the reading's source holds the reading's zone.
pub open spec fn store_after(m: Map<Seq<char>, Zone>, r: ReadingView) -> Map<Seq<char>, Zone> {
    m.insert(r.source, zone_of(r))
}

/// The transition that a reading causes, if its zone differs from the stored one.
pub open spec fn transition_after(m: Map<Seq<char>, Zone>, r: ReadingView) -> Option<TransitionView> {
    if zone_of(r) == stored_zone(m, r.source) {
        None
    } else {
        Some(TransitionView { source: r.source, from: stored_zone(m, r.source), to: zone_of(r) })
    }
}

/// The store after a sequence of readings, applied in order.
pub open spec fn store_after_all(m: Map<Seq<char>, Zone>, rs: Seq<ReadingView>) -> Map<Seq<char>, Zone>
    decreases rs.len(),
{
    if rs.len() == 0 {
        m
    } else {
        store_after_all(store_after(m, rs[0]), rs.drop_first())
    }
}

/// The transitions that a sequence of readings causes, in order.
pub open spec fn transitions_after_all(m: Map<Seq<char>, Zone>, rs: Seq<ReadingView>) -> Seq<TransitionView>
    decreases rs.len(),
{
    if rs.len() == 0 {
        Seq::empty()
    } else {
        let first = match transition_after(m, rs[0]) {
            Some(t) => seq![t],
            None => Seq::empty(),
        };
        first + transitions_after_all(store_after(m, rs[0]), rs.drop_first())
    }
}

/// The last zone seen for one power source.
pub struct SourceEntry {
    pub source: String,
    pub zone: Zone,
}

/// The zone last seen for each power source. An entry is made on the first
/// reading of a source and is never removed.
pub struct StateStore {
    entries: Vec<SourceEntry>,
    model: Ghost<Map<Seq<char>, Zone>>,
}

impl View for StateStore {
    type V = Map<Seq<char>, Zone>;

    closed spec fn view(&self) -> Map<Seq<char>, Zone> {
        self.model@
    }
}

impl StateStore {
    /// Entries have distinct sources, and the model maps exactly those
    /// sources to their zones.
    pub closed spec fn wf(&self) -> bool {
        &&& self.sources_distinct()
        &&& self.entries_modelled()
        &&& self.model_covered()
    }

    closed spec fn sources_distinct(&self) -> bool {
        forall|i: int, j: int|
            0 <= i < j < self.entries.len() ==> self.entries[i].source@ != self.entries[j].source@
    }

    closed spec fn entries_modelled(&self) -> bool {
        forall|i: int|
            0 <= i < self.entries.len() ==> #[trigger] self.model@.contains_key(self.entries[i].source@)
                && self.model@[self.entries[i].source@] == self.entries[i].zone
    }

    closed spec fn model_covered(&self) -> bool {
        forall|k: Seq<char>|
            #[trigger] self.model@.contains_key(k) ==> exists|i: int|
                0 <= i < self.entries.len() && self.entries[i].source@ == k
    }

    /// An empty store.
    pub fn new() -> (s: Self)
        ensures
            s.wf(),
            s@ == Map::<Seq<char>, Zone>::empty(),
    {
        StateStore { entries: Vec::new(), model: Ghost(Map::empty()) }
    }

    /// The index of the entry for `source`, if there is one.
    fn find(&self, source: &String) -> (r: Option<usize>)
        requires
            self.wf(),
        ensures
            match r {
                Some(i) => i < self.entries.len() && self.entries[i as int].source@ == source@,
                None => !self@.contains_key(source@),
            },
    {
        let mut i: usize = 0;
        while i < self.entries.len()
            invariant
                self.wf(),
                i <= self.entries.len(),
                forall|j: int| 0 <= j < i ==> self.entries[j].source@ != source@,
            decreases self.entries.len() - i,
        {
            if self.entries[i].source == *source {
                return Some(i);
            }
            i += 1;
        }
        None
    }

    /// The zone stored for `source`, `Other` for a source not seen yet.
    pub fn zone_for(&self, source: &String) -> (z: Zone)
        requires
            self.wf(),
        ensures
            z == stored_zone(self@, source@),
    {
        match self.find(source) {
            Some(i) => self.entries[i].zone,
            None => Zone::Other,
        }
    }

    /// Whether a reading of `source` has been seen.
    pub fn contains(&self, source: &String) -> (b: bool)
        requires
            self.wf(),
        ensures
            b == self@.contains_key(source@),
    {
        self.find(source).is_some()
    }

    /// The number of sources seen.
    pub fn len(&self) -> (n: usize)
        requires
            self.wf(),
        ensures
            n == self@.dom().len(),
    {
        proof { self.lemma_dom_len(); }
        self.entries.len()
    }

    proof fn lemma_dom_len(&self)
        requires
            self.wf(),
        ensures
            self@.dom().finite(),
            self@.dom().len() == self.entries.len(),
    {
        let keys = self.entries@.map_values(|e: SourceEntry| e.source@);
        assert(keys.no_duplicates()) by {
            assert forall|i: int, j: int| 0 <= i < keys.len() && 0 <= j < keys.len() && i != j
                implies keys[i] != keys[j] by {
                if j < i {
                    assert(self.entries[j].source@ != self.entries[i].source@);
                }
            }
        }
        assert(keys.to_set() =~= self@.dom()) by {
            assert forall|k: Seq<char>| keys.to_set().contains(k) implies self@.dom().contains(k) by {
                let i = choose|i: int| 0 <= i < keys.len() && keys[i] == k;
                assert(self.model@.contains_key(self.entries[i].source@));
            }
            assert forall|k: Seq<char>| self@.dom().contains(k) implies keys.to_set().contains(k) by {
                assert(self.model@.contains_key(k));
                let i = choose|i: int| 0 <= i < self.entries.len() && self.entries[i].source@ == k;
                assert(keys[i] == k);
            }
        }
        keys.unique_seq_to_set();
    }

    /// Records a reading. The source's entry is made if it is new and then
    /// holds the reading's zone; a transition is returned exactly when that
    /// zone differs from the one stored before.
    pub fn update(&mut self, r: &Reading) -> (t: Option<Transition>)
        requires
            old(self).wf(),
        ensures
            final(self).wf(),
            final(self)@ == store_after(old(self)@, r@),
            t matches Some(tr) ==> transition_after(old(self)@, r@) == Some(tr@),
            t is None ==> transition_after(old(self)@, r@) is None,
    {
        let z = classify(r);
        match self.find(&r.source) {
            Some(i) => {
                let prev = self.entries[i].zone;
                let ghost m = self.model@;
                let ghost es = self.entries@;
                self.entries.set(i, SourceEntry { source: r.source.clone(), zone: z });
                self.model = Ghost(m.insert(r.source@, z));
                proof {
                    assert forall|j: int| 0 <= j < self.entries.len() implies #[trigger] self.model@.contains_key(self.entries[j].source@)
                        && self.model@[self.entries[j].source@] == self.entries[j].zone by {
                        if j != i {
                            assert(m.contains_key(es[j].source@));
                        }
                    }
                    assert forall|a: int, b: int| 0 <= a < b < self.entries.len()
                        implies self.entries[a].source@ != self.entries[b].source@ by {
                        assert(es[a].source@ != es[b].source@);
                    }
                    assert forall|k: Seq<char>| #[trigger] self.model@.contains_key(k) implies exists|j: int|
                        0 <= j < self.entries.len() && self.entries[j].source@ == k by {
                        if k != r.source@ {
                            assert(m.contains_key(k));
                            let j = choose|j: int| 0 <= j < es.len() && es[j].source@ == k;
                            assert(self.entries[j].source@ == k);
                        } else {
                            assert(self.entries[i as int].source@ == k);
                        }
                    }
                    assert(self.sources_distinct());
                    assert(self.entries_modelled());
                    assert(self.model_covered());
                }
                if prev == z {
                    None
                } else {
                    Some(Transition { source: r.source.clone(), from: prev, to: z })
                }
            },
            None => {
                let ghost m = self.model@;
                let ghost es = self.entries@;
                self.entries.push(SourceEntry { source: r.source.clone(), zone: z });
                self.model = Ghost(m.insert(r.source@, z));
                proof {
                    let n = self.entries.len() - 1;
                    assert forall|j: int| 0 <= j < self.entries.len() implies #[trigger] self.model@.contains_key(self.entries[j].source@)
                        && self.model@[self.entries[j].source@] == self.entries[j].zone by {
                        if j < es.len() {
                            assert(m.contains_key(es[j].source@));
                        }
                    }
                    assert forall|k: Seq<char>| #[trigger] self.model@.contains_key(k) implies exists|j: int|
                        0 <= j < self.entries.len() && self.entries[j].source@ == k by {
                        if k != r.source@ {
                            assert(m.contains_key(k));
                            let j = choose|j: int| 0 <= j < es.len() && es[j].source@ == k;
                            assert(self.entries[j].source@ == k);
                        } else {
                            assert(self.entries[n as int].source@ == k);
                        }
                    }
                    assert forall|j: int| 0 <= j < n implies self.entries[j].source@ != r.source@ by {
                        assert(m.contains_key(self.entries[j].source@));
                    }
                    assert forall|a: int, b: int| 0 <= a < b < self.entries.len()
                        implies self.entries[a].source@ != self.entries[b].source@ by {
                        if b < n {
                            assert(es[a].source@ != es[b].source@);
                        }
                    }
                    assert(self.wf());
                }
                if z == Zone::Other {
                    None
                } else {
                    Some(Transition { source: r.source.clone(), from: Zone::Other, to: z })
                }
            },
        }
    }

    /// Records readings in order and returns the transitions they cause.
    pub fn update_all(&mut self, rs: &Vec<Reading>) -> (ts: Vec<Transition>)
        requires
            old(self).wf(),
        ensures
            final(self).wf(),
            final(self)@ == store_after_all(old(self)@, views_of(rs@)),
            ts@.map_values(|t: Transition| t@) == transitions_after_all(old(self)@, views_of(rs@)),
    {
        let ghost m0 = self@;
        let mut ts: Vec<Transition> = Vec::new();
        let mut i: usize = 0;
        assert(views_of(rs@).skip(0) =~= views_of(rs@));
        assert(ts@.map_values(|t: Transition| t@) =~= Seq::<TransitionView>::empty());
        assert(Seq::<TransitionView>::empty() + transitions_after_all(m0, views_of(rs@)) =~= transitions_after_all(m0, views_of(rs@)));
        while i < rs.len()
            invariant
                self.wf(),
                i <= rs.len(),
                store_after_all(m0, views_of(rs@)) == store_after_all(self@, views_of(rs@).skip(i as int)),
                transitions_after_all(m0, views_of(rs@)) == ts@.map_values(|t: Transition| t@)
                    + transitions_after_all(self@, views_of(rs@).skip(i as int)),
            decreases rs.len() - i,
        {
            let ghost before = self@;
            let ghost ts_before = ts@;
            assert(views_of(rs@).skip(i as int).drop_first() =~= views_of(rs@).skip(i + 1));
            let t = self.update(&rs[i]);
            match t {
                Some(tr) => {
                    ts.push(tr);
                },
                None => {},
            }
            assert(ts@.map_values(|t: Transition| t@) =~= ts_before.map_values(|t: Transition| t@) + match transition_after(before, rs@[i as int]@) {
                Some(t) => seq![t],
                None => Seq::empty(),
            });
            i += 1;
        }
        assert(views_of(rs@).skip(i as int) =~= Seq::<ReadingView>::empty());
        assert(ts@.map_values(|t: Transition| t@) + Seq::<TransitionView>::empty() =~= ts@.map_values(|t: Transition| t@));
        ts
    }
}

} // verus!
