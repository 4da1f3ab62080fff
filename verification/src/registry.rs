//! A small table keyed by strings, the shape shared by the registries of
//! this crate. Lookups are linear: the tables hold a handful of entries.

use vstd::prelude::*;
use crate::text::str_eq;

verus! {

struct Entry<V> {
    id: String,
    value: V,
}

/// A table of values keyed by string identifiers, each identifier held at
/// most once.
pub struct KeyedTable<V> {
    entries: Vec<Entry<V>>,
}

spec fn has_id_at<V>(entries: Seq<Entry<V>>, id: Seq<char>, i: int) -> bool {
    0 <= i < entries.len() && entries[i].id@ == id
}

spec fn holds<V>(entries: Seq<Entry<V>>, id: Seq<char>) -> bool {
    exists|i: int| has_id_at(entries, id, i)
}

spec fn slot<V>(entries: Seq<Entry<V>>, id: Seq<char>) -> int {
    choose|i: int| has_id_at(entries, id, i)
}

spec fn distinct<V>(entries: Seq<Entry<V>>) -> bool {
    forall|i: int, j: int|
        0 <= i < entries.len() && 0 <= j < entries.len() && i != j ==> #[trigger] entries[i].id@
            != #[trigger] entries[j].id@
}

spec fn model<V: View>(entries: Seq<Entry<V>>) -> Map<Seq<char>, V::V> {
    Map::new(|id: Seq<char>| holds(entries, id), |id: Seq<char>| entries[slot(entries, id)].value@)
}

proof fn lemma_slot<V: View>(entries: Seq<Entry<V>>, id: Seq<char>, i: int)
    requires
        distinct(entries),
        has_id_at(entries, id, i),
    ensures
        holds(entries, id),
        slot(entries, id) == i,
        model(entries).contains_key(id),
        model(entries)[id] == entries[i].value@,
{
    let j = slot(entries, id);
    assert(has_id_at(entries, id, j));
}

proof fn lemma_model_push<V: View>(entries: Seq<Entry<V>>, entry: Entry<V>)
    requires
        distinct(entries),
        !holds(entries, entry.id@),
    ensures
        distinct(entries.push(entry)),
        model(entries.push(entry)) =~= model(entries).insert(entry.id@, entry.value@),
{
    let after = entries.push(entry);
    let last = entries.len() as int;
    assert forall|i: int, j: int|
        0 <= i < after.len() && 0 <= j < after.len() && i != j implies #[trigger] after[i].id@
        != #[trigger] after[j].id@ by {
        if i == last {
            assert(!has_id_at(entries, entry.id@, j));
        } else if j == last {
            assert(!has_id_at(entries, entry.id@, i));
        }
    }
    assert(has_id_at(after, entry.id@, last));
    lemma_slot(after, entry.id@, last);
    assert forall|id: Seq<char>| holds(entries, id) implies holds(after, id) && model(after)[id]
        == model(entries)[id] by {
        let i = slot(entries, id);
        assert(has_id_at(after, id, i));
        lemma_slot(after, id, i);
    }
    assert forall|id: Seq<char>| holds(after, id) && id != entry.id@ implies holds(entries, id) by {
        let i = slot(after, id);
        assert(has_id_at(entries, id, i));
    }
}

proof fn lemma_model_update<V: View>(entries: Seq<Entry<V>>, i: int, entry: Entry<V>)
    requires
        distinct(entries),
        0 <= i < entries.len(),
        entry.id@ == entries[i].id@,
    ensures
        distinct(entries.update(i, entry)),
        model(entries.update(i, entry)) =~= model(entries).insert(entry.id@, entry.value@),
{
    let after = entries.update(i, entry);
    assert forall|a: int, b: int|
        0 <= a < after.len() && 0 <= b < after.len() && a != b implies #[trigger] after[a].id@
        != #[trigger] after[b].id@ by {
        assert(after[a].id@ == entries[a].id@);
        assert(after[b].id@ == entries[b].id@);
    }
    assert(has_id_at(entries, entry.id@, i));
    assert(has_id_at(after, entry.id@, i));
    lemma_slot(after, entry.id@, i);
    assert forall|id: Seq<char>| holds(entries, id) implies holds(after, id) && (id != entry.id@
        ==> model(after)[id] == model(entries)[id]) by {
        let k = slot(entries, id);
        assert(has_id_at(after, id, k));
        lemma_slot(after, id, k);
    }
    assert forall|id: Seq<char>| holds(after, id) implies holds(entries, id) by {
        let k = slot(after, id);
        assert(has_id_at(entries, id, k));
    }
}

proof fn lemma_model_remove<V: View>(entries: Seq<Entry<V>>, i: int)
    requires
        distinct(entries),
        0 <= i < entries.len(),
    ensures
        distinct(entries.remove(i)),
        model(entries.remove(i)) =~= model(entries).remove(entries[i].id@),
{
    let after = entries.remove(i);
    let gone = entries[i].id@;
    assert forall|a: int| 0 <= a < after.len() implies #[trigger] after[a] == entries[if a < i {
        a
    } else {
        a + 1
    }] by {}
    assert forall|a: int, b: int|
        0 <= a < after.len() && 0 <= b < after.len() && a != b implies #[trigger] after[a].id@
        != #[trigger] after[b].id@ by {
        let a0 = if a < i { a } else { a + 1 };
        let b0 = if b < i { b } else { b + 1 };
        assert(after[a] == entries[a0]);
        assert(after[b] == entries[b0]);
    }
    assert forall|id: Seq<char>| holds(after, id) implies id != gone && holds(entries, id)
        && model(after)[id] == model(entries)[id] by {
        let a = slot(after, id);
        let a0 = if a < i { a } else { a + 1 };
        assert(after[a] == entries[a0]);
        assert(has_id_at(entries, id, a0));
        lemma_slot(entries, id, a0);
        lemma_slot(after, id, a);
    }
    assert forall|id: Seq<char>| holds(entries, id) && id != gone implies holds(after, id) by {
        let k = slot(entries, id);
        let k1 = if k < i { k } else { k - 1 };
        assert(after[k1] == entries[k]);
        assert(has_id_at(after, id, k1));
    }
}

proof fn lemma_model_size<V: View>(entries: Seq<Entry<V>>)
    requires
        distinct(entries),
    ensures
        model(entries).dom().finite(),
        model(entries).dom().len() == entries.len(),
    decreases entries.len(),
{
    if entries.len() == 0 {
        assert(model(entries).dom() =~= Set::<Seq<char>>::empty());
    } else {
        let front = entries.drop_last();
        let last = entries.last();
        assert(entries =~= front.push(last));
        assert forall|i: int, j: int|
            0 <= i < front.len() && 0 <= j < front.len() && i != j implies #[trigger] front[i].id@
            != #[trigger] front[j].id@ by {
            assert(front[i] == entries[i] && front[j] == entries[j]);
        }
        assert(!holds(front, last.id@)) by {
            if holds(front, last.id@) {
                let i = slot(front, last.id@);
                assert(has_id_at(front, last.id@, i));
                assert(entries[i].id@ == entries[entries.len() - 1].id@);
            }
        }
        lemma_model_size(front);
        lemma_model_push(front, last);
        assert(model(entries).dom() =~= model(front).dom().insert(last.id@));
    }
}

impl<V: View> View for KeyedTable<V> {
    type V = Map<Seq<char>, V::V>;

    closed spec fn view(&self) -> Map<Seq<char>, V::V> {
        model(self.entries@)
    }
}

impl<V: View> KeyedTable<V> {
    /// No identifier is registered twice.
    pub closed spec fn wf(&self) -> bool {
        distinct(self.entries@)
    }

    /// An empty table.
    pub fn new() -> (table: Self)
        ensures
            table.wf(),
            table@ == Map::<Seq<char>, V::V>::empty(),
    {
        let table = KeyedTable { entries: Vec::new() };
        assert(table@ =~= Map::<Seq<char>, V::V>::empty());
        table
    }

    /// Number of entries.
    pub fn len(&self) -> (n: usize)
        requires
            self.wf(),
        ensures
            self@.dom().finite(),
            n == self@.dom().len(),
    {
        proof {
            lemma_model_size(self.entries@);
        }
        self.entries.len()
    }

    fn position(&self, id: &str) -> (found: Option<usize>)
        ensures
            match found {
                Some(i) => has_id_at(self.entries@, id@, i as int),
                None => !holds(self.entries@, id@),
            },
    {
        let mut i: usize = 0;
        while i < self.entries.len()
            invariant
                i <= self.entries@.len(),
                forall|k: int| 0 <= k < i ==> !has_id_at(self.entries@, id@, k),
            decreases self.entries@.len() - i,
        {
            if str_eq(self.entries[i].id.as_str(), id) {
                return Some(i);
            }
            i += 1;
        }
        None
    }

    /// Whether a value is held under `id`.
    pub fn contains(&self, id: &str) -> (present: bool)
        ensures
            present == self@.contains_key(id@),
    {
        self.position(id).is_some()
    }

    /// Puts `value` under `id` unless the identifier is taken. The check and
    /// the insertion are one step; on refusal the table is left as it was.
    pub fn insert(&mut self, id: String, value: V) -> (inserted: bool)
        requires
            old(self).wf(),
        ensures
            final(self).wf(),
            inserted == !old(self)@.contains_key(id@),
            inserted ==> final(self)@ == old(self)@.insert(id@, value@),
            !inserted ==> final(self)@ == old(self)@,
    {
        match self.position(id.as_str()) {
            Some(_) => false,
            None => {
                let entry = Entry { id, value };
                proof {
                    lemma_model_push(self.entries@, entry);
                }
                self.entries.push(entry);
                true
            },
        }
    }

    /// Looks a value up for reading. Absence is an ordinary answer.
    pub fn get_for_read(&self, id: &str) -> (found: Option<&V>)
        requires
            self.wf(),
        ensures
            found is Some == self@.contains_key(id@),
            found matches Some(value) ==> value@ == self@[id@],
    {
        match self.position(id) {
            Some(i) => {
                proof {
                    lemma_slot(self.entries@, id@, i as int);
                }
                Some(&self.entries[i].value)
            },
            None => None,
        }
    }

    /// Looks a value up for changing it in place. Whatever the caller does
    /// through the reference, the value stays under `id` and every other
    /// entry stays as it is.
    pub fn get_for_write(&mut self, id: &str) -> (found: Option<&mut V>)
        requires
            old(self).wf(),
        ensures
            final(self).wf(),
            found is Some == old(self)@.contains_key(id@),
            match found {
                Some(value) => value@ == old(self)@[id@] && final(self)@ == old(self)@.insert(
                    id@,
                    final(value)@,
                ),
                None => final(self)@ == old(self)@,
            },
    {
        match self.position(id) {
            Some(i) => {
                proof {
                    lemma_slot(self.entries@, id@, i as int);
                }
                let ghost before = self.entries@;
                let value = &mut self.entries[i].value;
                proof {
                    lemma_model_update(
                        before,
                        i as int,
                        Entry { id: before[i as int].id, value: *final(value) },
                    );
                }
                Some(value)
            },
            None => None,
        }
    }

    /// Takes the value held under `id` out of the table.
    pub fn remove(&mut self, id: &str) -> (removed: Option<V>)
        requires
            old(self).wf(),
        ensures
            final(self).wf(),
            removed is Some == old(self)@.contains_key(id@),
            removed matches Some(value) ==> value@ == old(self)@[id@],
            final(self)@ == old(self)@.remove(id@),
    {
        match self.position(id) {
            Some(i) => {
                proof {
                    lemma_slot(self.entries@, id@, i as int);
                    lemma_model_remove(self.entries@, i as int);
                }
                let entry = self.entries.remove(i);
                Some(entry.value)
            },
            None => {
                assert(self@ =~= self@.remove(id@));
                None
            },
        }
    }

    /// Puts `value` under `id`, in place of what was there. Returns what was
    /// there.
    pub fn replace(&mut self, id: String, value: V) -> (replaced: Option<V>)
        requires
            old(self).wf(),
        ensures
            final(self).wf(),
            replaced is Some == old(self)@.contains_key(id@),
            replaced matches Some(previous) ==> previous@ == old(self)@[id@],
            final(self)@ == old(self)@.insert(id@, value@),
    {
        match self.position(id.as_str()) {
            Some(i) => {
                let entry = Entry { id, value };
                proof {
                    lemma_slot(self.entries@, entry.id@, i as int);
                    lemma_model_update(self.entries@, i as int, entry);
                }
                let mut held = entry;
                std::mem::swap(&mut self.entries[i], &mut held);
                Some(held.value)
            },
            None => {
                let entry = Entry { id, value };
                proof {
                    lemma_model_push(self.entries@, entry);
                }
                self.entries.push(entry);
                None
            },
        }
    }
}

} // verus!
