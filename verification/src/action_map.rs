//! The actions a key causes, for each interaction.
use vstd::prelude::*;
use crate::deserialized::{actions_view, duplicate_actions, KeyAction, KeyActionView};
use crate::interaction::Interaction;

verus! {

/// A map from interactions to the actions they cause, kept as a list of
/// entries in the order in which their interactions were first inserted. No
/// interaction occurs twice. A std `HashMap` is not used because vstd's
/// model of it holds only for keys whose hashing and equality it knows,
/// which an enum of this crate with derived `Hash` and `Eq` is not; with a
/// list of entries every operation is proved.
pub struct ActionMap {
    entries: Vec<(Interaction, Vec<KeyAction>)>,
}

impl ActionMap {
    #[verifier::type_invariant]
    closed spec fn keys_distinct(self) -> bool {
        forall|i: int, j: int|
            0 <= i < j < self.entries@.len() ==> #[trigger] self.entries@[i].0
                != #[trigger] self.entries@[j].0
    }

    /// The interactions in the order in which they were first inserted.
    pub closed spec fn keys_seq(self) -> Seq<Interaction> {
        self.entries@.map_values(|e: (Interaction, Vec<KeyAction>)| e.0)
    }

    /// The map from interactions to the views of their actions.
    pub closed spec fn view(self) -> Map<Interaction, Seq<KeyActionView>> {
        Map::new(
            |k: Interaction| exists|i: int| 0 <= i < self.entries@.len() && self.entries@[i].0 == k,
            |k: Interaction|
                actions_view(
                    self.entries@[choose|i: int|
                        0 <= i < self.entries@.len() && self.entries@[i].0 == k].1@,
                ),
        )
    }

    proof fn lemma_keys(self)
        requires
            self.keys_distinct(),
        ensures
            forall|i: int, j: int|
                0 <= i < j < self.keys_seq().len() ==> #[trigger] self.keys_seq()[i]
                    != #[trigger] self.keys_seq()[j],
            forall|k: Interaction| #[trigger]
                self.view().contains_key(k) <==> self.keys_seq().contains(k),
    {
        assert forall|k: Interaction| #[trigger]
            self.view().contains_key(k) <==> self.keys_seq().contains(k) by {
            if self.view().contains_key(k) {
                let i = choose|i: int| 0 <= i < self.entries@.len() && self.entries@[i].0 == k;
                assert(self.keys_seq()[i] == k);
            }
            if self.keys_seq().contains(k) {
                let i = choose|i: int| 0 <= i < self.keys_seq().len() && self.keys_seq()[i] == k;
                assert(self.entries@[i].0 == k);
            }
        }
    }

    proof fn lemma_value_at(self, i: int)
        requires
            self.keys_distinct(),
            0 <= i < self.entries@.len(),
        ensures
            self.view().contains_key(self.entries@[i].0),
            self.view()[self.entries@[i].0] == actions_view(self.entries@[i].1@),
    {
        let k = self.entries@[i].0;
        assert(self.view().contains_key(k));
        let j = choose|j: int| 0 <= j < self.entries@.len() && self.entries@[j].0 == k;
        if j < i {
            assert(self.entries@[j].0 != self.entries@[i].0);
        }
        if i < j {
            assert(self.entries@[i].0 != self.entries@[j].0);
        }
    }

    /// An empty map.
    pub fn new() -> (r: Self)
        ensures
            r@ == Map::<Interaction, Seq<KeyActionView>>::empty(),
    {
        let r = ActionMap { entries: Vec::new() };
        assert(r@ =~= Map::<Interaction, Seq<KeyActionView>>::empty());
        r
    }

    /// The number of interactions. The interactions in insertion order are
    /// exactly the keys of the map, each once.
    pub fn len(&self) -> (r: usize)
        ensures
            r == self.keys_seq().len(),
            forall|i: int, j: int|
                0 <= i < j < self.keys_seq().len() ==> #[trigger] self.keys_seq()[i]
                    != #[trigger] self.keys_seq()[j],
            forall|k: Interaction| #[trigger]
                self@.contains_key(k) <==> self.keys_seq().contains(k),
    {
        proof {
            use_type_invariant(self);
            self.lemma_keys();
        }
        self.entries.len()
    }

    /// The interaction at position `i` of the insertion order.
    pub fn key_at(&self, i: usize) -> (r: Interaction)
        requires
            i < self.keys_seq().len(),
        ensures
            r == self.keys_seq()[i as int],
    {
        self.entries[i].0
    }

    /// The actions of the interaction at position `i` of the insertion order.
    pub fn value_at(&self, i: usize) -> (r: &Vec<KeyAction>)
        requires
            i < self.keys_seq().len(),
        ensures
            self@.contains_key(self.keys_seq()[i as int]),
            actions_view(r@) == self@[self.keys_seq()[i as int]],
    {
        proof {
            use_type_invariant(self);
            self.lemma_value_at(i as int);
        }
        &self.entries[i].1
    }

    fn find(&self, key: Interaction) -> (r: Option<usize>)
        ensures
            match r {
                Some(i) => i < self.entries@.len() && self.entries@[i as int].0 == key,
                None => forall|i: int| 0 <= i < self.entries@.len() ==> self.entries@[i].0 != key,
            },
    {
        let mut i: usize = 0;
        while i < self.entries.len()
            invariant
                i <= self.entries@.len(),
                forall|j: int| 0 <= j < i ==> self.entries@[j].0 != key,
            decreases self.entries.len() - i,
        {
            if self.entries[i].0 == key {
                return Some(i);
            }
            i = i + 1;
        }
        None
    }

    /// The actions of the interaction, if it has any entry.
    pub fn get(&self, key: Interaction) -> (r: Option<&Vec<KeyAction>>)
        ensures
            match r {
                Some(v) => self@.contains_key(key) && actions_view(v@) == self@[key],
                None => !self@.contains_key(key),
            },
    {
        proof {
            use_type_invariant(self);
        }
        match self.find(key) {
            Some(i) => {
                proof {
                    self.lemma_value_at(i as int);
                }
                Some(&self.entries[i].1)
            },
            None => None,
        }
    }

    /// Appends the action to the actions of the interaction; an interaction
    /// without an entry gets one holding just this action.
    pub fn push_action(&mut self, key: Interaction, action: KeyAction)
        ensures
            final(self)@ == old(self)@.insert(
                key,
                (if old(self)@.contains_key(key) {
                    old(self)@[key]
                } else {
                    Seq::empty()
                }).push(action@),
            ),
    {
        proof {
            use_type_invariant(&*self);
        }
        let ghost old_entries = self.entries@;
        let ghost a = action@;
        let mut entries: Vec<(Interaction, Vec<KeyAction>)> = Vec::new();
        std::mem::swap(&mut entries, &mut self.entries);
        match find_in(&entries, key) {
            Some(i) => {
                proof {
                    old(self).lemma_value_at(i as int);
                }
                let mut e: (Interaction, Vec<KeyAction>) = (key, Vec::new());
                entries.set_and_swap(i, &mut e);
                let ghost old_v = e.1@;
                e.1.push(action);
                assert(actions_view(e.1@) =~= actions_view(old_v).push(a));
                entries.set(i, e);
                assert forall|p: int, q: int|
                    0 <= p < q < entries@.len() implies #[trigger] entries@[p].0
                    != #[trigger] entries@[q].0 by {
                    assert(old_entries[p].0 != old_entries[q].0);
                }
                self.entries = entries;
                proof {
                    self.lemma_after_update(*old(self), i as int, key, old(self)@[key].push(a));
                }
            },
            None => {
                let mut v: Vec<KeyAction> = Vec::new();
                v.push(action);
                assert(actions_view(v@) =~= Seq::<KeyActionView>::empty().push(a));
                entries.push((key, v));
                assert forall|p: int, q: int|
                    0 <= p < q < entries@.len() implies #[trigger] entries@[p].0
                    != #[trigger] entries@[q].0 by {
                    if q < old_entries.len() {
                        assert(old_entries[p].0 != old_entries[q].0);
                    } else {
                        assert(old_entries[p].0 != key);
                    }
                }
                self.entries = entries;
                proof {
                    self.lemma_after_push(*old(self), key, Seq::<KeyActionView>::empty().push(a));
                }
            },
        }
    }

    proof fn lemma_after_update(self, old_map: Self, i: int, key: Interaction, v: Seq<KeyActionView>)
        requires
            self.keys_distinct(),
            old_map.keys_distinct(),
            0 <= i < old_map.entries@.len(),
            self.entries@.len() == old_map.entries@.len(),
            old_map.entries@[i].0 == key,
            self.entries@[i].0 == key,
            actions_view(self.entries@[i].1@) == v,
            forall|j: int|
                0 <= j < self.entries@.len() && j != i ==> #[trigger] self.entries@[j]
                    == old_map.entries@[j],
        ensures
            self.view() == old_map.view().insert(key, v),
    {
        assert forall|kk: Interaction| #[trigger]
            self.view().contains_key(kk) <==> old_map.view().insert(key, v).contains_key(kk) by {
            if old_map.view().contains_key(kk) {
                let j = choose|j: int|
                    0 <= j < old_map.entries@.len() && old_map.entries@[j].0 == kk;
                if j != i {
                    assert(self.entries@[j] == old_map.entries@[j]);
                }
                assert(self.entries@[j].0 == kk);
            }
            if kk == key {
                assert(self.entries@[i].0 == kk);
            }
            if self.view().contains_key(kk) {
                let j = choose|j: int| 0 <= j < self.entries@.len() && self.entries@[j].0 == kk;
                if j != i {
                    assert(self.entries@[j] == old_map.entries@[j]);
                    assert(old_map.entries@[j].0 == kk);
                }
            }
        }
        assert forall|kk: Interaction| #[trigger] self.view().contains_key(kk) implies self.view()[kk]
            == old_map.view().insert(key, v)[kk] by {
            let j = choose|j: int| 0 <= j < self.entries@.len() && self.entries@[j].0 == kk;
            self.lemma_value_at(j);
            if j != i {
                assert(self.entries@[j] == old_map.entries@[j]);
                old_map.lemma_value_at(j);
            }
        }
        assert(self.view() =~= old_map.view().insert(key, v));
    }

    proof fn lemma_after_push(self, old_map: Self, key: Interaction, v: Seq<KeyActionView>)
        requires
            self.keys_distinct(),
            old_map.keys_distinct(),
            self.entries@.len() == old_map.entries@.len() + 1,
            self.entries@.last().0 == key,
            actions_view(self.entries@.last().1@) == v,
            forall|j: int| 0 <= j < old_map.entries@.len() ==> #[trigger] self.entries@[j] == old_map.entries@[j],
        ensures
            self.view() == old_map.view().insert(key, v),
    {
        let n = old_map.entries@.len() as int;
        assert forall|kk: Interaction| #[trigger]
            self.view().contains_key(kk) <==> old_map.view().insert(key, v).contains_key(kk) by {
            if old_map.view().contains_key(kk) {
                let j = choose|j: int|
                    0 <= j < old_map.entries@.len() && old_map.entries@[j].0 == kk;
                assert(self.entries@[j] == old_map.entries@[j]);
                assert(self.entries@[j].0 == kk);
            }
            if kk == key {
                assert(self.entries@[n].0 == kk);
            }
            if self.view().contains_key(kk) {
                let j = choose|j: int| 0 <= j < self.entries@.len() && self.entries@[j].0 == kk;
                if j != n {
                    assert(self.entries@[j] == old_map.entries@[j]);
                    assert(old_map.entries@[j].0 == kk);
                }
            }
        }
        assert forall|kk: Interaction| #[trigger] self.view().contains_key(kk) implies self.view()[kk]
            == old_map.view().insert(key, v)[kk] by {
            let j = choose|j: int| 0 <= j < self.entries@.len() && self.entries@[j].0 == kk;
            self.lemma_value_at(j);
            if j != n {
                assert(self.entries@[j] == old_map.entries@[j]);
                old_map.lemma_value_at(j);
            }
        }
        assert(self.view() =~= old_map.view().insert(key, v));
    }

    /// A copy of the map.
    pub fn duplicate(&self) -> (r: ActionMap)
        ensures
            r@ == self@,
    {
        proof {
            use_type_invariant(self);
        }
        let mut entries: Vec<(Interaction, Vec<KeyAction>)> = Vec::new();
        let mut i: usize = 0;
        while i < self.entries.len()
            invariant
                self.keys_distinct(),
                i <= self.entries@.len(),
                entries@.len() == i,
                forall|j: int|
                    0 <= j < i ==> #[trigger] entries@[j].0 == self.entries@[j].0 && actions_view(
                        entries@[j].1@,
                    ) == actions_view(self.entries@[j].1@),
            decreases self.entries.len() - i,
        {
            let k = self.entries[i].0;
            let v = duplicate_actions(&self.entries[i].1);
            let ghost prev = entries@;
            entries.push((k, v));
            assert(entries@[i as int].0 == self.entries@[i as int].0);
            assert forall|j: int| 0 <= j < i implies #[trigger] entries@[j] == prev[j] by {}
            i = i + 1;
        }
        assert forall|p: int, q: int|
            0 <= p < q < entries@.len() implies #[trigger] entries@[p].0
            != #[trigger] entries@[q].0 by {
            assert(self.entries@[p].0 != self.entries@[q].0);
        }
        let r = ActionMap { entries };
        proof {
            assert forall|kk: Interaction| #[trigger]
                r.view().contains_key(kk) <==> self.view().contains_key(kk) by {
                if self.view().contains_key(kk) {
                    let j = choose|j: int|
                        0 <= j < self.entries@.len() && self.entries@[j].0 == kk;
                    assert(r.entries@[j].0 == kk);
                }
                if r.view().contains_key(kk) {
                    let j = choose|j: int| 0 <= j < r.entries@.len() && r.entries@[j].0 == kk;
                    assert(self.entries@[j].0 == kk);
                }
            }
            assert forall|kk: Interaction| #[trigger] r.view().contains_key(kk) implies r.view()[kk]
                == self.view()[kk] by {
                let j = choose|j: int| 0 <= j < r.entries@.len() && r.entries@[j].0 == kk;
                r.lemma_value_at(j);
                self.lemma_value_at(j);
            }
            assert(r.view() =~= self.view());
        }
        r
    }
}

fn find_in(entries: &Vec<(Interaction, Vec<KeyAction>)>, key: Interaction) -> (r: Option<
    usize,
>)
    ensures
        match r {
            Some(i) => i < entries@.len() && entries@[i as int].0 == key,
            None => forall|i: int| 0 <= i < entries@.len() ==> entries@[i].0 != key,
        },
{
    let mut i: usize = 0;
    while i < entries.len()
        invariant
            i <= entries@.len(),
            forall|j: int| 0 <= j < i ==> entries@[j].0 != key,
        decreases entries.len() - i,
    {
        if entries[i].0 == key {
            return Some(i);
        }
        i = i + 1;
    }
    None
}


} // verus!
