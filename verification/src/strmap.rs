//! Maps keyed by text.

use crate::text;
use vstd::prelude::*;

verus! {

/// A map from texts to values.
#[derive(Debug)]
pub struct StrMap<V> {
    pub entries: Vec<(String, V)>,
}

/// The map that a list of entries stands for.
pub open spec fn to_map<V>(entries: Seq<(String, V)>) -> Map<Seq<char>, V>
    decreases entries.len(),
{
    if entries.len() == 0 {
        Map::empty()
    } else {
        to_map(entries.drop_last()).insert(entries.last().0@, entries.last().1)
    }
}

/// Whether no key occurs twice.
pub open spec fn keys_differ<V>(entries: Seq<(String, V)>) -> bool {
    forall|i: int, j: int|
        0 <= i < j < entries.len() ==> (#[trigger] entries[i]).0@ != (#[trigger] entries[j]).0@
}

impl<V> View for StrMap<V> {
    type V = Map<Seq<char>, V>;

    open spec fn view(&self) -> Map<Seq<char>, V> {
        to_map(self.entries@)
    }
}

/// The keys of a map are the keys of its entries.
pub proof fn lemma_keys<V>(entries: Seq<(String, V)>, k: Seq<char>)
    ensures
        to_map(entries).dom().contains(k) <==> exists|i: int|
            0 <= i < entries.len() && (#[trigger] entries[i]).0@ == k,
    decreases entries.len(),
{
    if entries.len() > 0 {
        let front = entries.drop_last();
        lemma_keys(front, k);
        if to_map(entries).dom().contains(k) && entries.last().0@ != k {
            let i = choose|i: int| 0 <= i < front.len() && (#[trigger] front[i]).0@ == k;
            assert(entries[i].0@ == k);
        }
        if exists|i: int| 0 <= i < entries.len() && (#[trigger] entries[i]).0@ == k {
            let i = choose|i: int| 0 <= i < entries.len() && (#[trigger] entries[i]).0@ == k;
            if i < front.len() {
                assert(front[i].0@ == k);
            }
        }
        if entries.last().0@ == k {
            assert(entries[entries.len() - 1].0@ == k);
        }
    }
}

/// An entry stands in the map.
pub proof fn lemma_value<V>(entries: Seq<(String, V)>, i: int)
    requires
        keys_differ(entries),
        0 <= i < entries.len(),
    ensures
        to_map(entries).dom().contains(entries[i].0@),
        to_map(entries)[entries[i].0@] == entries[i].1,
    decreases entries.len(),
{
    if i < entries.len() - 1 {
        let front = entries.drop_last();
        assert(forall|a: int| 0 <= a < front.len() ==> front[a] == entries[a]);
        lemma_value(front, i);
    }
}

/// Taking an entry out takes its key out of the map.
pub proof fn lemma_remove<V>(entries: Seq<(String, V)>, i: int)
    requires
        keys_differ(entries),
        0 <= i < entries.len(),
    ensures
        to_map(entries.remove(i)) == to_map(entries).remove(entries[i].0@),
        keys_differ(entries.remove(i)),
    decreases entries.len(),
{
    let front = entries.drop_last();
    let k = entries[i].0@;
    if i == entries.len() - 1 {
        assert(entries.remove(i) =~= front);
        lemma_keys(front, k);
        assert(to_map(front) =~= to_map(entries).remove(k));
    } else {
        assert(forall|a: int| 0 <= a < front.len() ==> front[a] == entries[a]);
        lemma_remove(front, i);
        assert(entries.remove(i).drop_last() =~= front.remove(i));
        assert(entries.remove(i).last() == entries.last());
        assert(to_map(entries.remove(i)) =~= to_map(entries).remove(k));
    }
}

impl<V> StrMap<V> {
    /// Whether no key occurs twice.
    pub open spec fn wf(self) -> bool {
        keys_differ(self.entries@)
    }

    /// A map without entries.
    pub fn new() -> (r: Self)
        ensures
            r.wf(),
            r@ == Map::<Seq<char>, V>::empty(),
    {
        StrMap { entries: Vec::new() }
    }

    fn position(&self, k: &str) -> (r: Option<usize>)
        ensures
            match r {
                Some(i) => i < self.entries@.len() && self.entries@[i as int].0@ == k@,
                None => !self@.dom().contains(k@),
            },
    {
        for i in 0..self.entries.len()
            invariant
                forall|j: int| 0 <= j < i ==> (#[trigger] self.entries@[j]).0@ != k@,
        {
            if text::str_eq(&self.entries[i].0, k) {
                return Some(i);
            }
        }
        proof {
            lemma_keys(self.entries@, k@);
        }
        None
    }

    /// The value under `k`.
    pub fn get(&self, k: &str) -> (r: Option<&V>)
        requires
            self.wf(),
        ensures
            match r {
                Some(v) => self@.dom().contains(k@) && *v == self@[k@],
                None => !self@.dom().contains(k@),
            },
    {
        match self.position(k) {
            Some(i) => {
                proof {
                    lemma_value(self.entries@, i as int);
                }
                Some(&self.entries[i].1)
            },
            None => None,
        }
    }

    /// Takes the value under `k` out.
    pub fn remove(&mut self, k: &str) -> (r: Option<V>)
        requires
            old(self).wf(),
        ensures
            final(self).wf(),
            final(self)@ == old(self)@.remove(k@),
            match r {
                Some(v) => old(self)@.dom().contains(k@) && v == old(self)@[k@],
                None => !old(self)@.dom().contains(k@),
            },
    {
        match self.position(k) {
            Some(i) => {
                proof {
                    lemma_value(self.entries@, i as int);
                    lemma_remove(self.entries@, i as int);
                }
                let e = self.entries.remove(i);
                Some(e.1)
            },
            None => {
                assert(self@.remove(k@) =~= self@);
                None
            },
        }
    }

    /// Puts `v` under `k`.
    pub fn insert(&mut self, k: String, v: V)
        requires
            old(self).wf(),
        ensures
            final(self).wf(),
            final(self)@ == old(self)@.insert(k@, v),
    {
        let _ = self.remove(&k);
        let ghost before = self.entries@;
        proof {
            lemma_keys(before, k@);
        }
        self.entries.push((k, v));
        proof {
            assert(self.entries@.drop_last() =~= before);
            assert(self@ =~= old(self)@.insert(k@, v));
        }
    }
}

/// A map whose entries have different keys holds under each key the value of its entry,
/// and no other key.
pub proof fn law_entries_make_the_map<V>(entries: Seq<(String, V)>, i: int)
    requires
        keys_differ(entries),
        0 <= i < entries.len(),
    ensures
        to_map(entries).dom().contains(entries[i].0@),
        to_map(entries)[entries[i].0@] == entries[i].1,
        forall|k: Seq<char>|
            (forall|j: int| 0 <= j < entries.len() ==> (#[trigger] entries[j]).0@ != k)
                ==> !#[trigger] to_map(entries).dom().contains(k),
    decreases entries.len(),
{
    let front = entries.drop_last();
    lemma_keys(entries, entries[i].0@);
    if i < front.len() {
        assert(front[i] == entries[i]);
        assert(entries[i].0@ != entries[entries.len() - 1].0@);
        assert forall|a: int, b: int| 0 <= a < b < front.len() implies (#[trigger] front[a]).0@ != (
        #[trigger] front[b]).0@ by {
            assert(front[a] == entries[a] && front[b] == entries[b]);
        }
        law_entries_make_the_map(front, i);
    }
    assert forall|k: Seq<char>|
        (forall|j: int| 0 <= j < entries.len() ==> (#[trigger] entries[j]).0@ != k) implies (
    !#[trigger] to_map(entries).dom().contains(k)) by {
        lemma_keys(entries, k);
    }
}

} // verus!
