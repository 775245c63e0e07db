//! A small table of values by client id, kept in the order of arrival.

use vstd::prelude::*;

verus! {

/// No id comes twice.
pub open spec fn distinct_ids<T>(entries: Seq<(Seq<char>, T)>) -> bool {
    forall|i: int, j: int| 0 <= i < j < entries.len() ==> entries[i].0 != entries[j].0
}

/// Whether some entry has the id.
pub open spec fn has_id<T>(entries: Seq<(Seq<char>, T)>, id: Seq<char>) -> bool {
    exists|i: int| 0 <= i < entries.len() && #[trigger] entries[i].0 == id
}

/// The entries without those of the given id.
pub open spec fn without_id<T>(entries: Seq<(Seq<char>, T)>, id: Seq<char>) -> Seq<
    (Seq<char>, T),
>
    decreases entries.len(),
{
    if entries.len() == 0 {
        entries
    } else if entries.last().0 == id {
        without_id(entries.drop_last(), id)
    } else {
        without_id(entries.drop_last(), id).push(entries.last())
    }
}

/// Where no entry has the id, nothing is taken out.
pub proof fn lemma_without_absent<T>(entries: Seq<(Seq<char>, T)>, id: Seq<char>)
    requires
        forall|k: int| 0 <= k < entries.len() ==> entries[k].0 != id,
    ensures
        without_id(entries, id) == entries,
    decreases entries.len(),
{
    if entries.len() > 0 {
        lemma_without_absent(entries.drop_last(), id);
        assert(entries.drop_last().push(entries.last()) =~= entries);
    }
}

/// Where ids are distinct and entry `i` has the id, exactly that entry is
/// taken out.
pub proof fn lemma_without_present<T>(entries: Seq<(Seq<char>, T)>, id: Seq<char>, i: int)
    requires
        distinct_ids(entries),
        0 <= i < entries.len(),
        entries[i].0 == id,
    ensures
        without_id(entries, id) == entries.remove(i),
        distinct_ids(entries.remove(i)),
        forall|k: int| 0 <= k < entries.remove(i).len() ==> entries.remove(i)[k].0 != id,
    decreases entries.len(),
{
    let rest = entries.drop_last();
    let removed = entries.remove(i);
    assert(distinct_ids(removed)) by {
        assert forall|a: int, b: int| 0 <= a < b < removed.len() implies removed[a].0
            != removed[b].0 by {
            let a2 = if a < i {
                a
            } else {
                a + 1
            };
            let b2 = if b < i {
                b
            } else {
                b + 1
            };
            assert(entries[a2].0 != entries[b2].0);
        }
    }
    assert forall|k: int| 0 <= k < removed.len() implies removed[k].0 != id by {
        let k2 = if k < i {
            k
        } else {
            k + 1
        };
        if k2 < i {
            assert(entries[k2].0 != entries[i].0);
        } else {
            assert(entries[i].0 != entries[k2].0);
        }
    }
    if i == entries.len() - 1 {
        assert forall|k: int| 0 <= k < rest.len() implies rest[k].0 != id by {
            assert(entries[k].0 != entries[i].0);
        }
        lemma_without_absent(rest, id);
        assert(removed =~= rest);
    } else {
        assert(distinct_ids(rest)) by {
            assert forall|a: int, b: int| 0 <= a < b < rest.len() implies rest[a].0
                != rest[b].0 by {
                assert(entries[a].0 != entries[b].0);
            }
        }
        lemma_without_present(rest, id, i);
        assert(entries[i].0 != entries[entries.len() - 1].0);
        assert(rest.remove(i).push(entries.last()) =~= removed);
    }
}

/// Where ids are distinct, taking an id out shortens the table by one if
/// the id was there, and not at all if it was not.
pub proof fn lemma_without_len<T>(entries: Seq<(Seq<char>, T)>, id: Seq<char>)
    requires
        distinct_ids(entries),
    ensures
        without_id(entries, id).len() == (if has_id(entries, id) {
            entries.len() - 1
        } else {
            entries.len() as int
        }),
{
    if has_id(entries, id) {
        let i = choose|i: int| 0 <= i < entries.len() && #[trigger] entries[i].0 == id;
        lemma_without_present(entries, id, i);
    } else {
        assert forall|k: int| 0 <= k < entries.len() implies entries[k].0 != id by {
            if entries[k].0 == id {
                assert(has_id(entries, id));
            }
        }
        lemma_without_absent(entries, id);
    }
}

/// Taking an id out leaves exactly the entries of the other ids.
pub proof fn lemma_without_entries<T>(
    entries: Seq<(Seq<char>, T)>,
    id: Seq<char>,
    entry: (Seq<char>, T),
)
    ensures
        without_id(entries, id).contains(entry) <==> entries.contains(entry) && entry.0 != id,
    decreases entries.len(),
{
    if entries.len() > 0 {
        let rest = entries.drop_last();
        let last = entries.last();
        lemma_without_entries(rest, id, entry);
        let out = without_id(entries, id);
        let before = without_id(rest, id);
        if out.contains(entry) {
            let k = choose|k: int| 0 <= k < out.len() && out[k] == entry;
            if last.0 != id && k == out.len() - 1 {
                assert(entries[entries.len() - 1] == entry);
            } else {
                assert(before[k] == entry);
                assert(before.contains(entry));
                let j = choose|j: int| 0 <= j < rest.len() && rest[j] == entry;
                assert(entries[j] == entry);
            }
        }
        if entries.contains(entry) && entry.0 != id {
            let j = choose|j: int| 0 <= j < entries.len() && entries[j] == entry;
            if j < rest.len() {
                assert(rest[j] == entry);
                assert(rest.contains(entry));
                let k = choose|k: int| 0 <= k < before.len() && before[k] == entry;
                assert(out[k] == entry);
            } else {
                assert(out[out.len() - 1] == entry);
            }
        }
    }
}

/// Values by client id. Each id is held once; entries stand in the order in
/// which their ids were last put in.
#[derive(Debug)]
pub struct Registry<T> {
    entries: Vec<(String, T)>,
}

impl<T> Registry<T> {
    /// The entries, each as its id and value.
    pub closed spec fn view(&self) -> Seq<(Seq<char>, T)> {
        Seq::new(self.entries@.len(), |i: int| (self.entries@[i].0@, self.entries@[i].1))
    }

    /// No id comes twice. Every constructor establishes this and every
    /// method keeps it.
    pub open spec fn wf(&self) -> bool {
        distinct_ids(self.view())
    }

    /// The empty table.
    pub fn new() -> (r: Self)
        ensures
            r.wf(),
            r@ == Seq::<(Seq<char>, T)>::empty(),
    {
        let r = Registry { entries: Vec::new() };
        r
    }

    /// The number of entries.
    pub fn len(&self) -> (n: usize)
        ensures
            n == self@.len(),
    {
        self.entries.len()
    }

    /// The id of entry `i`.
    pub fn id_at(&self, i: usize) -> (id: &String)
        requires
            i < self@.len(),
        ensures
            id@ == self@[i as int].0,
    {
        &self.entries[i].0
    }

    /// The value of entry `i`.
    pub fn value_at(&self, i: usize) -> (value: &T)
        requires
            i < self@.len(),
        ensures
            *value == self@[i as int].1,
    {
        &self.entries[i].1
    }

    /// The index of the entry with the id, or the length when there is none.
    pub fn position(&self, id: &String) -> (r: usize)
        ensures
            r <= self@.len(),
            r < self@.len() ==> self@[r as int].0 == id@,
            r == self@.len() ==> forall|k: int| 0 <= k < self@.len() ==> self@[k].0 != id@,
            (r < self@.len()) == has_id(self@, id@),
    {
        let mut i: usize = 0;
        while i < self.entries.len()
            invariant
                i <= self.entries.len(),
                forall|k: int| 0 <= k < i ==> self@[k].0 != id@,
            decreases self.entries.len() - i,
        {
            if self.entries[i].0 == *id {
                assert(self@[i as int].0 == id@);
                return i;
            }
            i += 1;
        }
        i
    }

    /// The value under the id, if there is one.
    pub fn get(&self, id: &String) -> (r: Option<&T>)
        ensures
            r is Some == has_id(self@, id@),
            r matches Some(value) ==> exists|i: int|
                0 <= i < self@.len() && #[trigger] self@[i].0 == id@ && self@[i].1 == *value,
    {
        let i: usize = self.position(id);
        if i < self.entries.len() {
            Some(&self.entries[i].1)
        } else {
            None
        }
    }

    /// Takes the entry with the id out, if there is one.
    pub fn remove(&mut self, id: &String) -> (r: Option<T>)
        requires
            old(self).wf(),
        ensures
            final(self).wf(),
            final(self)@ == without_id(old(self)@, id@),
            r is Some == has_id(old(self)@, id@),
            !has_id(final(self)@, id@),
            !has_id(old(self)@, id@) ==> final(self)@ == old(self)@,
            final(self)@.len() == (if has_id(old(self)@, id@) {
                old(self)@.len() - 1
            } else {
                old(self)@.len() as int
            }),
    {
        let i: usize = self.position(id);
        let ghost before = self@;
        if i < self.entries.len() {
            proof {
                lemma_without_present(before, id@, i as int);
            }
            let taken: (String, T) = self.entries.remove(i);
            assert(self@ =~= before.remove(i as int));
            Some(taken.1)
        } else {
            proof {
                lemma_without_absent(before, id@);
            }
            None
        }
    }

    /// Puts a value under the id, in place of the one that was there.
    pub fn put(&mut self, id: String, value: T)
        requires
            old(self).wf(),
        ensures
            final(self).wf(),
            final(self)@ == without_id(old(self)@, id@).push((id@, value)),
            final(self)@.len() == (if has_id(old(self)@, id@) {
                old(self)@.len()
            } else {
                old(self)@.len() + 1
            }),
    {
        let _ = self.remove(&id);
        let ghost middle = self@;
        self.entries.push((id, value));
        assert(self@ =~= middle.push((id@, value)));
    }
}

} // verus!
