use mongodb::bson::Document;
use mongodb::Collection;
use vstd::prelude::*;

use crate::text::same_text;

verus! {

#[verifier::external_type_specification]
#[verifier::external_body]
#[verifier::reject_recursive_types(T)]
pub struct ExCollection<T>(Collection<T>);

/// The name under which the chat collection is kept.
pub const CHATCOLLECTION: &'static str = "Chat";

/// The name under which the user account collection is kept.
pub const USERCOLLECTION: &'static str = "UserAccounts";

/// The database collections in use, by name.
pub struct Cache {
    collection: Vec<(String, Collection<Document>)>,
}

/// The collections of a list of named entries, each name at its last entry.
pub open spec fn entries_map(entries: Seq<(String, Collection<Document>)>) -> Map<Seq<char>, Collection<Document>>
    decreases entries.len(),
{
    if entries.len() == 0 {
        Map::empty()
    } else {
        entries_map(entries.drop_last()).insert(entries.last().0@, entries.last().1)
    }
}

/// No name occurs twice among the entries.
pub open spec fn names_unique(entries: Seq<(String, Collection<Document>)>) -> bool {
    forall|i: int, j: int|
        0 <= i < entries.len() && 0 <= j < entries.len() && i != j ==> #[trigger] entries[i].0@
            != #[trigger] entries[j].0@
}

proof fn lemma_entries_map_index(entries: Seq<(String, Collection<Document>)>, i: int)
    requires
        names_unique(entries),
        0 <= i < entries.len(),
    ensures
        entries_map(entries).contains_key(entries[i].0@),
        entries_map(entries)[entries[i].0@] == entries[i].1,
    decreases entries.len(),
{
    if i < entries.len() - 1 {
        let init = entries.drop_last();
        assert(names_unique(init));
        assert(init[i] == entries[i]);
        lemma_entries_map_index(init, i);
        assert(entries[i].0@ != entries.last().0@);
    }
}

proof fn lemma_entries_map_absent(entries: Seq<(String, Collection<Document>)>, name: Seq<char>)
    requires
        forall|i: int| 0 <= i < entries.len() ==> #[trigger] entries[i].0@ != name,
    ensures
        !entries_map(entries).contains_key(name),
    decreases entries.len(),
{
    if entries.len() > 0 {
        let init = entries.drop_last();
        assert forall|i: int| 0 <= i < init.len() implies #[trigger] init[i].0@ != name by {
            assert(init[i] == entries[i]);
        }
        lemma_entries_map_absent(init, name);
    }
}

proof fn lemma_entries_map_update(
    entries: Seq<(String, Collection<Document>)>,
    i: int,
    e: (String, Collection<Document>),
)
    requires
        names_unique(entries),
        0 <= i < entries.len(),
        e.0@ == entries[i].0@,
    ensures
        entries_map(entries.update(i, e)) =~= entries_map(entries).insert(e.0@, e.1),
    decreases entries.len(),
{
    let upd = entries.update(i, e);
    if i == entries.len() - 1 {
        assert(upd.drop_last() =~= entries.drop_last());
    } else {
        let init = entries.drop_last();
        assert(upd.drop_last() =~= init.update(i, e));
        assert(names_unique(init));
        assert(init[i] == entries[i]);
        lemma_entries_map_update(init, i, e);
        assert(entries[i].0@ != entries.last().0@);
    }
}

impl View for Cache {
    type V = Map<Seq<char>, Collection<Document>>;

    closed spec fn view(&self) -> Map<Seq<char>, Collection<Document>> {
        entries_map(self.collection@)
    }
}

impl Cache {
    #[verifier::type_invariant]
    closed spec fn wf(&self) -> bool {
        names_unique(self.collection@)
    }

    /// An empty cache.
    pub fn new() -> (c: Self)
        ensures
            c@ == Map::<Seq<char>, Collection<Document>>::empty(),
    {
        Cache { collection: Vec::new() }
    }

    /// The index of the entry named `name`.
    fn position(&self, name: &str) -> (r: Option<usize>)
        ensures
            match r {
                Some(i) => i < self.collection@.len() && self.collection@[i as int].0@ == name@,
                None => forall|i: int|
                    0 <= i < self.collection@.len() ==> #[trigger] self.collection@[i].0@ != name@,
            },
    {
        let mut i: usize = 0;
        while i < self.collection.len()
            invariant
                i <= self.collection@.len(),
                forall|j: int| 0 <= j < i ==> #[trigger] self.collection@[j].0@ != name@,
            decreases self.collection.len() - i,
        {
            if same_text(self.collection[i].0.as_str(), name) {
                return Some(i);
            }
            i = i + 1;
        }
        None
    }

    /// Keeps `collection` under `name`, in place of any collection kept
    /// under that name before.
    pub fn set(&mut self, name: String, collection: Collection<Document>)
        ensures
            final(self)@ == old(self)@.insert(name@, collection),
    {
        proof {
            use_type_invariant(&*self);
        }
        let ghost old_entries = self.collection@;
        match self.position(name.as_str()) {
            Some(i) => {
                let ghost e = (name, collection);
                proof {
                    lemma_entries_map_update(old_entries, i as int, (name, collection));
                }
                let mut entries: Vec<(String, Collection<Document>)> = Vec::new();
                std::mem::swap(&mut entries, &mut self.collection);
                entries.set(i, (name, collection));
                self.collection = entries;
                assert(self.collection@ == old_entries.update(i as int, e));
                assert(names_unique(self.collection@)) by {
                    assert forall|a: int, b: int|
                        0 <= a < self.collection@.len() && 0 <= b < self.collection@.len() && a
                            != b implies #[trigger] self.collection@[a].0@
                        != #[trigger] self.collection@[b].0@ by {
                        assert(old_entries[a].0@ == self.collection@[a].0@);
                        assert(old_entries[b].0@ == self.collection@[b].0@);
                    }
                }
            },
            None => {
                let mut entries: Vec<(String, Collection<Document>)> = Vec::new();
                std::mem::swap(&mut entries, &mut self.collection);
                entries.push((name, collection));
                self.collection = entries;
                assert(self.collection@.drop_last() =~= old_entries);
                assert(names_unique(self.collection@)) by {
                    assert forall|a: int, b: int|
                        0 <= a < self.collection@.len() && 0 <= b < self.collection@.len() && a
                            != b implies #[trigger] self.collection@[a].0@
                        != #[trigger] self.collection@[b].0@ by {
                        if a < old_entries.len() {
                            assert(self.collection@[a] == old_entries[a]);
                        }
                        if b < old_entries.len() {
                            assert(self.collection@[b] == old_entries[b]);
                        }
                    }
                }
            },
        }
    }

    /// Whether no collection is kept.
    pub fn is_empty(&self) -> (b: bool)
        ensures
            b == (self@.dom() =~= Set::<Seq<char>>::empty()),
    {
        proof {
            use_type_invariant(self);
        }
        let b = self.collection.len() == 0;
        proof {
            if !b {
                lemma_entries_map_index(self.collection@, 0);
                assert(self@.dom().contains(self.collection@[0].0@));
            }
        }
        b
    }

    /// The collection kept under `name`.
    pub fn get_collection(&self, name: String) -> (r: Option<&Collection<Document>>)
        ensures
            match r {
                Some(c) => self@.contains_key(name@) && *c == self@[name@],
                None => !self@.contains_key(name@),
            },
    {
        proof {
            use_type_invariant(self);
        }
        match self.position(name.as_str()) {
            Some(i) => {
                proof {
                    lemma_entries_map_index(self.collection@, i as int);
                }
                Some(&self.collection[i].1)
            },
            None => {
                proof {
                    lemma_entries_map_absent(self.collection@, name@);
                }
                None
            },
        }
    }
}

/// Reading a name back after keeping a collection under it gives that
/// collection, and keeping it leaves every other name as it was.
pub proof fn lemma_cache_read_after_write(
    m: Map<Seq<char>, Collection<Document>>,
    name: Seq<char>,
    c: Collection<Document>,
    other: Seq<char>,
)
    ensures
        m.insert(name, c).contains_key(name),
        m.insert(name, c)[name] == c,
        other != name ==> m.insert(name, c).contains_key(other) == m.contains_key(other),
        other != name && m.contains_key(other) ==> m.insert(name, c)[other] == m[other],
{
}

/// What a new cache holds after `set` was called with each name and
/// collection of `sets`, in order.
pub open spec fn map_after_sets(sets: Seq<(Seq<char>, Collection<Document>)>) -> Map<Seq<char>, Collection<Document>>
    decreases sets.len(),
{
    if sets.len() == 0 {
        Map::empty()
    } else {
        map_after_sets(sets.drop_last()).insert(sets.last().0, sets.last().1)
    }
}

/// After a new cache was given the collections of `sets`, one `set` call
/// each: a name is kept exactly when some call named it, and it gives back
/// the collection of the last call that named it.
pub proof fn lemma_cache_after_sets(sets: Seq<(Seq<char>, Collection<Document>)>, m: Seq<char>, i: int)
    ensures
        map_after_sets(sets).contains_key(m) <==> exists|j: int| 0 <= j < sets.len() && #[trigger] sets[j].0 == m,
        0 <= i < sets.len() && sets[i].0 == m && (forall|j: int| i < j < sets.len() ==> #[trigger] sets[j].0 != m)
            ==> map_after_sets(sets)[m] == sets[i].1,
    decreases sets.len(),
{
    if sets.len() > 0 {
        let init = sets.drop_last();
        lemma_cache_after_sets(init, m, i);
        if map_after_sets(init).contains_key(m) {
            let j = choose|j: int| 0 <= j < init.len() && #[trigger] init[j].0 == m;
            assert(sets[j].0 == m);
        }
        if exists|j: int| 0 <= j < sets.len() && #[trigger] sets[j].0 == m {
            let j = choose|j: int| 0 <= j < sets.len() && #[trigger] sets[j].0 == m;
            if j < sets.len() - 1 {
                assert(init[j].0 == m);
            }
        }
        if 0 <= i < sets.len() - 1 && sets[i].0 == m && (forall|j: int| i < j < sets.len() ==> #[trigger] sets[j].0 != m) {
            assert(sets[sets.len() - 1].0 != m);
            assert(init[i] == sets[i]);
            assert forall|j: int| i < j < init.len() implies #[trigger] init[j].0 != m by {
                assert(init[j] == sets[j]);
            }
        }
    }
}

} // verus!
