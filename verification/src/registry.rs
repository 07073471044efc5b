//! The registry: counters by name.
//!
//! An `Entry` is the builder, owned by one thread, to which counters are
//! added. `bind` freezes it into a `Registry`, which is never changed again
//! and can be shared by any number of threads; the counters in it go on
//! counting. Adding a counter under a name that is taken replaces the
//! counter that had the name: the last one added wins.

use vstd::prelude::*;
use vstd::hash_map::StringHashMap;
use std::sync::Arc;
use crate::counter::{AnyCounter, Counter, Variant};

verus! {

/// No counter is registered under the name that was asked for.
#[derive(Clone, Debug)]
pub struct CounterNotFoundError {
    counter: String,
}

impl View for CounterNotFoundError {
    type V = Seq<char>;

    /// The name that was asked for.
    closed spec fn view(&self) -> Seq<char> {
        self.counter@
    }
}

impl CounterNotFoundError {
    /// The error for the name `counter`.
    pub fn new(counter: &str) -> (e: CounterNotFoundError)
        ensures
            e@ == counter@,
    {
        CounterNotFoundError { counter: counter.to_owned() }
    }

    /// The name that was asked for.
    pub fn counter(&self) -> (r: &str)
        ensures
            r@ == self@,
    {
        self.counter.as_str()
    }

    /// The error in words: the name, then ` not found`.
    pub fn message(&self) -> (r: String)
        ensures
            r@ == self@ + " not found"@,
    {
        self.counter.clone().concat(" not found")
    }
}

/// The map that holds each pair of `entries` under its name, a later pair
/// taking the place of an earlier one of the same name.
pub open spec fn entries_map(entries: Seq<(String, AnyCounter)>) -> Map<Seq<char>, AnyCounter>
    decreases entries.len(),
{
    if entries.len() == 0 {
        Map::empty()
    } else {
        entries_map(entries.drop_last()).insert(entries.last().0@, entries.last().1)
    }
}

/// Builder of a registry: the counters added so far, by name.
pub struct Entry {
    /// Where in `names` and `counters` each name stands.
    index: StringHashMap<usize>,
    /// The names, in the order in which they were first added.
    names: Vec<String>,
    /// The counter of each name.
    counters: Vec<AnyCounter>,
}

impl View for Entry {
    type V = Map<Seq<char>, AnyCounter>;

    /// The counter registered under each name.
    closed spec fn view(&self) -> Map<Seq<char>, AnyCounter> {
        Map::new(
            |name: Seq<char>| self.index@.contains_key(name),
            |name: Seq<char>| self.counters[self.index@[name] as int],
        )
    }
}

impl Entry {
    /// Every name stands at the place that the index gives for it, and
    /// every place holds a name that the index knows.
    #[verifier::type_invariant]
    spec fn inv(&self) -> bool {
        &&& self.names.len() == self.counters.len()
        &&& forall|name: Seq<char>| #[trigger]
            self.index@.contains_key(name) ==> self.index@[name] < self.names.len()
                && self.names[self.index@[name] as int]@ == name
        &&& forall|i: int|
            0 <= i < self.names.len() ==> self.index@.contains_key(#[trigger] self.names[i]@)
                && self.index@[self.names[i]@] == i
    }

    /// The names, in the order in which they were first added.
    pub closed spec fn spec_names(&self) -> Seq<Seq<char>> {
        Seq::new(self.names.len() as nat, |i: int| self.names[i]@)
    }

    /// A builder without counters.
    pub fn new() -> (e: Entry)
        ensures
            e@ == Map::<Seq<char>, AnyCounter>::empty(),
            e.spec_names() == Seq::<Seq<char>>::empty(),
    {
        let e = Entry { index: StringHashMap::new(), names: Vec::new(), counters: Vec::new() };
        assert(e@ =~= Map::<Seq<char>, AnyCounter>::empty());
        assert(e.spec_names() =~= Seq::<Seq<char>>::empty());
        e
    }

    /// The builder with `counter` under `name`.
    fn with(self, name: &str, counter: AnyCounter) -> (e: Entry)
        ensures
            e@ == self@.insert(name@, counter),
            self@.contains_key(name@) ==> e.spec_names() == self.spec_names(),
            !self@.contains_key(name@) ==> e.spec_names() == self.spec_names().push(name@),
    {
        proof {
            use_type_invariant(&self);
        }
        let ghost before = self@;
        let Entry { mut index, mut names, mut counters } = self;
        match index.get(name) {
            Some(at) => {
                let at: usize = *at;
                counters.set(at, counter);
            },
            None => {
                let at: usize = names.len();
                index.insert(name.to_owned(), at);
                names.push(name.to_owned());
                counters.push(counter);
            },
        }
        let e = Entry { index, names, counters };
        assert(e@ =~= before.insert(name@, counter));
        assert(self@.contains_key(name@) ==> e.spec_names() =~= self.spec_names());
        assert(!self@.contains_key(name@) ==> e.spec_names() =~= self.spec_names().push(name@));
        e
    }

    /// Puts `counter` under `name`. A counter that had the name is dropped.
    pub fn insert(&mut self, name: &str, counter: AnyCounter)
        ensures
            final(self)@ == old(self)@.insert(name@, counter),
            old(self)@.contains_key(name@) ==> final(self).spec_names() == old(self).spec_names(),
            !old(self)@.contains_key(name@) ==> final(self).spec_names() == old(
                self,
            ).spec_names().push(name@),
    {
        let mut taken = Entry::new();
        std::mem::swap(self, &mut taken);
        *self = taken.with(name, counter);
    }

    /// Adds a new counter of kind `T`, called `name`, under `name`. A
    /// counter that had the name is dropped.
    pub fn add_counter<T: Variant>(&mut self, name: &str)
        ensures
            final(self)@ == old(self)@.insert(name@, final(self)@[name@]),
            final(self)@[name@].spec_kind() == T::spec_kind_of(),
            final(self)@[name@].spec_name() == name@,
            old(self)@.contains_key(name@) ==> final(self).spec_names() == old(self).spec_names(),
            !old(self)@.contains_key(name@) ==> final(self).spec_names() == old(
                self,
            ).spec_names().push(name@),
    {
        let counter = T::named(name).into_any();
        self.insert(name, counter);
    }

    /// Freezes the builder into a registry with the same counters.
    pub fn bind(self) -> (r: Registry)
        ensures
            r@ == self@,
            r.spec_names() == self.spec_names(),
    {
        Registry { shared: Arc::new(self) }
    }

    /// The counter registered under `name`.
    pub fn lookup(&self, name: &str) -> (r: Result<&AnyCounter, CounterNotFoundError>)
        ensures
            match r {
                Ok(counter) => self@.contains_key(name@) && *counter == self@[name@],
                Err(e) => !self@.contains_key(name@) && e@ == name@,
            },
    {
        proof {
            use_type_invariant(self);
        }
        match self.index.get(name) {
            Some(at) => Ok(&self.counters[*at]),
            None => Err(CounterNotFoundError::new(name)),
        }
    }

    /// How many counters there are. The places below this number enumerate
    /// the registered names, each once.
    pub fn len(&self) -> (n: usize)
        ensures
            n == self.spec_names().len(),
            self.spec_names().no_duplicates(),
            forall|name: Seq<char>| self@.contains_key(name) <==> self.spec_names().contains(name),
    {
        proof {
            use_type_invariant(self);
            self.lemma_names_enumerate();
        }
        self.names.len()
    }

    /// The name and the counter at place `i` in the order in which the
    /// names were first added; `None` from `len()` on.
    pub fn entry_at(&self, i: usize) -> (r: Option<(&str, &AnyCounter)>)
        ensures
            r is Some <==> i < self.spec_names().len(),
            r matches Some((name, counter)) ==> name@ == self.spec_names()[i as int]
                && self@.contains_key(name@) && *counter == self@[name@],
    {
        proof {
            use_type_invariant(self);
        }
        if i < self.names.len() {
            assert(self.index@.contains_key(self.names[i as int]@));
            Some((self.names[i].as_str(), &self.counters[i]))
        } else {
            None
        }
    }

    /// The places enumerate the names: every registered name stands at
    /// exactly one place, and every place holds a registered name.
    proof fn lemma_names_enumerate(&self)
        requires
            self.inv(),
        ensures
            self.spec_names().no_duplicates(),
            forall|name: Seq<char>| self@.contains_key(name) <==> self.spec_names().contains(name),
    {
        assert forall|name: Seq<char>| self@.contains_key(name) implies self.spec_names().contains(
            name,
        ) by {
            assert(self.spec_names()[self.index@[name] as int] == name);
        }
    }
}

/// The frozen registry. Cloning it gives another handle to the same
/// counters.
#[derive(Clone)]
pub struct Registry {
    shared: Arc<Entry>,
}

impl View for Registry {
    type V = Map<Seq<char>, AnyCounter>;

    /// The counter registered under each name.
    closed spec fn view(&self) -> Map<Seq<char>, AnyCounter> {
        self.shared@
    }
}

impl Registry {
    /// The names, in the order in which they were first added.
    pub closed spec fn spec_names(&self) -> Seq<Seq<char>> {
        self.shared.spec_names()
    }

    /// An empty builder.
    pub fn create() -> (e: Entry)
        ensures
            e@ == Map::<Seq<char>, AnyCounter>::empty(),
            e.spec_names() == Seq::<Seq<char>>::empty(),
    {
        Entry::new()
    }

    /// The registry of the given counters, each under its name. Where a
    /// name comes twice, the later counter has it.
    pub fn from_entries(entries: Vec<(String, AnyCounter)>) -> (r: Registry)
        ensures
            r@ == entries_map(entries@),
    {
        let ghost all = entries@;
        let mut builder = Entry::new();
        for pair in it: entries
            invariant
                it.seq() == all,
                builder@ == entries_map(all.take(it.index() as int)),
        {
            assert(all.take(it.index() + 1).drop_last() =~= all.take(it.index() as int));
            let (name, counter) = pair;
            builder.insert(name.as_str(), counter);
        }
        assert(all.take(all.len() as int) =~= all);
        builder.bind()
    }

    /// The counter registered under `name`.
    pub fn lookup(&self, name: &str) -> (r: Result<&AnyCounter, CounterNotFoundError>)
        ensures
            match r {
                Ok(counter) => self@.contains_key(name@) && *counter == self@[name@],
                Err(e) => !self@.contains_key(name@) && e@ == name@,
            },
    {
        self.shared.lookup(name)
    }

    /// Whether a counter is registered under `name`: `Ok` if there is one,
    /// the error with the name if there is none.
    pub fn count(&self, name: &str) -> (r: Result<(), CounterNotFoundError>)
        ensures
            r is Ok <==> self@.contains_key(name@),
            r matches Err(e) ==> e@ == name@,
    {
        match self.lookup(name) {
            Ok(_) => Ok(()),
            Err(e) => Err(e),
        }
    }

    /// How many counters there are. The places below this number enumerate
    /// the registered names, each once.
    pub fn len(&self) -> (n: usize)
        ensures
            n == self.spec_names().len(),
            self.spec_names().no_duplicates(),
            forall|name: Seq<char>| self@.contains_key(name) <==> self.spec_names().contains(name),
    {
        self.shared.len()
    }

    /// The name and the counter at place `i` in the order in which the
    /// names were first added; `None` from `len()` on.
    pub fn entry_at(&self, i: usize) -> (r: Option<(&str, &AnyCounter)>)
        ensures
            r is Some <==> i < self.spec_names().len(),
            r matches Some((name, counter)) ==> name@ == self.spec_names()[i as int]
                && self@.contains_key(name@) && *counter == self@[name@],
    {
        self.shared.entry_at(i)
    }
}

} // verus!
