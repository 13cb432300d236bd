//! The adapter registry: a collection of named adapters, keys unique,
//! insertion order kept.
//!
//! The registry is modelled as a sequence of `(name, adapter)` pairs. Its
//! invariant, [`Registry::wf`], says that no two live entries share a name;
//! every constructor establishes it and every operation preserves it.
//! `add` rejects a duplicate name rather than silently replacing the entry;
//! an intentional hot-swap goes through [`Registry::replace`], which swaps
//! the entry in place. A failed operation leaves the registry unchanged.
//!
//! The callers of one registry value are expected to serialise their writes
//! (`add` / `remove` / `replace`) against each other and against taking a
//! `list` snapshot; how they do so (a lock, a single owning task) is the
//! embedding program's concern, not this crate's.

use vstd::prelude::*;
use crate::errors::RegistryError;

verus! {

/// One live registration: a unique name bound to an adapter.
struct RegEntry<A> {
    name: String,
    adapter: A,
}

/// Mapping from adapter name to adapter, keys unique, insertion order kept.
pub struct Registry<A> {
    entries: Vec<RegEntry<A>>,
}

impl<A> View for Registry<A> {
    type V = Seq<(Seq<char>, A)>;

    closed spec fn view(&self) -> Seq<(Seq<char>, A)> {
        self.entries@.map_values(|e: RegEntry<A>| (e.name@, e.adapter))
    }
}

/// No two entries of `s` share a name.
pub open spec fn unique_names<A>(s: Seq<(Seq<char>, A)>) -> bool {
    forall|i: int, j: int| 0 <= i < j < s.len() ==> s[i].0 != s[j].0
}

/// Some entry of `s` carries the name `n`.
pub open spec fn has_name<A>(s: Seq<(Seq<char>, A)>, n: Seq<char>) -> bool {
    exists|i: int| 0 <= i < s.len() && s[i].0 == n
}

/// The position of the entry named `n` (meaningful when `has_name(s, n)`;
/// unique when `unique_names(s)`).
pub open spec fn name_index<A>(s: Seq<(Seq<char>, A)>, n: Seq<char>) -> int {
    choose|i: int| 0 <= i < s.len() && s[i].0 == n
}

/// The adapter registered under `n` (meaningful when `has_name(s, n)`).
pub open spec fn adapter_of<A>(s: Seq<(Seq<char>, A)>, n: Seq<char>) -> A {
    s[name_index(s, n)].1
}

impl<A> Registry<A> {
    /// The registry's invariant: entry names are pairwise distinct.
    pub open spec fn wf(&self) -> bool {
        unique_names(self@)
    }

    /// An empty registry.
    pub fn new() -> (r: Registry<A>)
        ensures
            r@ == Seq::<(Seq<char>, A)>::empty(),
            r.wf(),
    {
        let r = Registry { entries: Vec::new() };
        proof {
            assert(r@ =~= Seq::<(Seq<char>, A)>::empty());
        }
        r
    }

    /// The number of live entries.
    pub fn len(&self) -> (r: usize)
        ensures
            r == self@.len(),
    {
        self.entries.len()
    }

    /// The name of the entry at position `i`, in registration order.
    pub fn name_at(&self, i: usize) -> (r: &String)
        requires
            i < self@.len(),
        ensures
            r@ == self@[i as int].0,
    {
        &self.entries[i].name
    }

    /// The adapter of the entry at position `i`, in registration order.
    pub fn adapter_at(&self, i: usize) -> (r: &A)
        requires
            i < self@.len(),
        ensures
            *r == self@[i as int].1,
    {
        &self.entries[i].adapter
    }

    /// Position of the entry named `name`, if any.
    fn find_index(&self, name: &String) -> (r: Option<usize>)
        ensures
            match r {
                Some(i) => i < self@.len() && self@[i as int].0 == name@,
                None => !has_name(self@, name@),
            },
    {
        let n = self.entries.len();
        let mut i: usize = 0;
        while i < n
            invariant
                i <= n,
                n == self@.len(),
                n == self.entries.len(),
                forall|j: int| 0 <= j < i ==> self@[j].0 != name@,
            decreases n - i,
        {
            if self.entries[i].name == *name {
                return Some(i);
            }
            i = i + 1;
        }
        None
    }

    /// Whether an entry named `name` is live.
    pub fn contains(&self, name: &String) -> (r: bool)
        ensures
            r == has_name(self@, name@),
    {
        match self.find_index(name) {
            Some(_) => true,
            None => false,
        }
    }

    /// Register `adapter` under `name`.
    ///
    /// Fails with `DuplicateName` when a live entry already carries `name`;
    /// a failed call leaves the registry unchanged. On success the entry is
    /// appended, so `list` order is registration order.
    pub fn add(&mut self, name: String, adapter: A) -> (r: Result<(), RegistryError>)
        requires
            old(self).wf(),
        ensures
            final(self).wf(),
            has_name(old(self)@, name@) ==> r == Err::<(), RegistryError>(RegistryError::DuplicateName)
                && final(self)@ == old(self)@,
            !has_name(old(self)@, name@) ==> r == Ok::<(), RegistryError>(())
                && final(self)@ == old(self)@.push((name@, adapter)),
    {
        match self.find_index(&name) {
            Some(_) => Err(RegistryError::DuplicateName),
            None => {
                let ghost prev = self@;
                let ghost pair = (name@, adapter);
                self.entries.push(RegEntry { name, adapter });
                proof {
                    assert(self@ =~= prev.push(pair));
                    assert forall|i: int, j: int| 0 <= i < j < self@.len() implies
                        self@[i].0 != self@[j].0 by {
                        if j == prev.len() {
                            assert(!has_name(prev, pair.0));
                            assert(self@[i] == prev[i]);
                        }
                    }
                }
                Ok(())
            }
        }
    }

    /// Remove the entry named `name`.
    ///
    /// Fails with `NotFound` when no live entry carries `name`; a failed
    /// call leaves the registry unchanged. Removal keeps the order of the
    /// remaining entries.
    pub fn remove(&mut self, name: &String) -> (r: Result<(), RegistryError>)
        requires
            old(self).wf(),
        ensures
            final(self).wf(),
            !has_name(old(self)@, name@) ==> r == Err::<(), RegistryError>(RegistryError::NotFound)
                && final(self)@ == old(self)@,
            has_name(old(self)@, name@) ==> r == Ok::<(), RegistryError>(())
                && final(self)@ == old(self)@.remove(name_index(old(self)@, name@)),
    {
        match self.find_index(name) {
            None => Err(RegistryError::NotFound),
            Some(i) => {
                let ghost prev = self@;
                proof {
                    lemma_name_index_unique(prev, name@, i as int);
                }
                self.entries.remove(i);
                proof {
                    assert(self@ =~= prev.remove(i as int));
                    assert forall|p: int, q: int| 0 <= p < q < self@.len() implies
                        self@[p].0 != self@[q].0 by {
                        let pp: int = if p < i { p } else { p + 1 };
                        let qq: int = if q < i { q } else { q + 1 };
                        assert(self@[p] == prev[pp]);
                        assert(self@[q] == prev[qq]);
                    }
                }
                Ok(())
            }
        }
    }

    /// Atomically swap the adapter registered under `name`.
    ///
    /// Fails with `NotFound` when no live entry carries `name`; a failed
    /// call leaves the registry unchanged. On success the entry keeps its
    /// position, so `list` order is unaffected.
    pub fn replace(&mut self, name: &String, adapter: A) -> (r: Result<(), RegistryError>)
        requires
            old(self).wf(),
        ensures
            final(self).wf(),
            !has_name(old(self)@, name@) ==> r == Err::<(), RegistryError>(RegistryError::NotFound)
                && final(self)@ == old(self)@,
            has_name(old(self)@, name@) ==> r == Ok::<(), RegistryError>(())
                && final(self)@ == old(self)@.update(name_index(old(self)@, name@), (name@, adapter)),
    {
        match self.find_index(name) {
            None => Err(RegistryError::NotFound),
            Some(i) => {
                let ghost prev = self@;
                proof {
                    lemma_name_index_unique(prev, name@, i as int);
                }
                let kept = self.entries.remove(i);
                self.entries.insert(i, RegEntry { name: kept.name, adapter });
                proof {
                    assert(self@ =~= prev.update(i as int, (name@, adapter)));
                    assert forall|p: int, q: int| 0 <= p < q < self@.len() implies
                        self@[p].0 != self@[q].0 by {
                        assert(self@[p].0 == prev[p].0);
                        assert(self@[q].0 == prev[q].0);
                    }
                }
                Ok(())
            }
        }
    }

    /// A shared handle on the adapter registered under `name`, if any.
    pub fn lookup(&self, name: &String) -> (r: Option<&A>)
        requires
            self.wf(),
        ensures
            match r {
                Some(h) => has_name(self@, name@) && *h == adapter_of(self@, name@),
                None => !has_name(self@, name@),
            },
    {
        match self.find_index(name) {
            None => None,
            Some(i) => {
                proof {
                    lemma_name_index_unique(self@, name@, i as int);
                }
                Some(&self.entries[i].adapter)
            }
        }
    }

    /// Snapshot of the live entry names, in registration order.
    pub fn list(&self) -> (r: Vec<String>)
        ensures
            r@.len() == self@.len(),
            forall|i: int| 0 <= i < self@.len() ==> r@[i]@ == self@[i].0,
    {
        let n = self.entries.len();
        let mut names: Vec<String> = Vec::new();
        let mut i: usize = 0;
        while i < n
            invariant
                i <= n,
                n == self@.len(),
                n == self.entries.len(),
                names@.len() == i,
                forall|j: int| 0 <= j < i ==> names@[j]@ == self@[j].0,
            decreases n - i,
        {
            names.push(self.entries[i].name.clone());
            i = i + 1;
        }
        names
    }
}

/// In a registry with pairwise-distinct names, any position that carries the
/// name `n` is the position `name_index` denotes.
pub proof fn lemma_name_index_unique<A>(s: Seq<(Seq<char>, A)>, n: Seq<char>, i: int)
    requires
        unique_names(s),
        0 <= i < s.len(),
        s[i].0 == n,
    ensures
        has_name(s, n),
        name_index(s, n) == i,
{
    assert(has_name(s, n));
    let k = name_index(s, n);
    if k != i {
        if k < i {
            assert(s[k].0 != s[i].0);
        } else {
            assert(s[i].0 != s[k].0);
        }
    }
}

/// Law: registering a fresh name makes it resolvable to exactly the adapter
/// that was registered — `lookup(name)` after a successful `add(name, a)`
/// yields `a` — and keeps the names pairwise distinct.
pub proof fn lemma_lookup_after_add<A>(s: Seq<(Seq<char>, A)>, name: Seq<char>, a: A)
    requires
        unique_names(s),
        !has_name(s, name),
    ensures
        unique_names(s.push((name, a))),
        has_name(s.push((name, a)), name),
        adapter_of(s.push((name, a)), name) == a,
{
    let s2 = s.push((name, a));
    assert forall|i: int, j: int| 0 <= i < j < s2.len() implies s2[i].0 != s2[j].0 by {
        if j == s.len() {
            assert(s2[i] == s[i]);
        }
    }
    assert(s2[s.len() as int].0 == name);
    lemma_name_index_unique(s2, name, s.len() as int);
}

/// Law: removing one name leaves every other registration resolvable to the
/// same adapter as before — `lookup(name)` is unaffected by `remove(other)`
/// for `other != name`.
pub proof fn lemma_lookup_after_remove_other<A>(s: Seq<(Seq<char>, A)>, name: Seq<char>, other: Seq<char>)
    requires
        unique_names(s),
        has_name(s, name),
        has_name(s, other),
        name != other,
    ensures
        unique_names(s.remove(name_index(s, other))),
        has_name(s.remove(name_index(s, other)), name),
        adapter_of(s.remove(name_index(s, other)), name) == adapter_of(s, name),
{
    let r = name_index(s, other);
    let k = name_index(s, name);
    assert(0 <= r < s.len() && s[r].0 == other);
    assert(0 <= k < s.len() && s[k].0 == name);
    let s2 = s.remove(r);
    assert forall|p: int, q: int| 0 <= p < q < s2.len() implies s2[p].0 != s2[q].0 by {
        let pp: int = if p < r { p } else { p + 1 };
        let qq: int = if q < r { q } else { q + 1 };
        assert(s2[p] == s[pp]);
        assert(s2[q] == s[qq]);
    }
    let k2: int = if k < r { k } else { k - 1 };
    assert(s2[k2] == s[k]);
    lemma_name_index_unique(s2, name, k2);
}

/// Law: hot-swapping one name leaves every other registration resolvable
/// to the same adapter as before — `lookup(name)` is unaffected by
/// `replace(other, b)` for `other != name`.
pub proof fn lemma_lookup_after_replace_other<A>(
    s: Seq<(Seq<char>, A)>,
    name: Seq<char>,
    other: Seq<char>,
    b: A,
)
    requires
        unique_names(s),
        has_name(s, name),
        has_name(s, other),
        name != other,
    ensures
        unique_names(s.update(name_index(s, other), (other, b))),
        has_name(s.update(name_index(s, other), (other, b)), name),
        adapter_of(s.update(name_index(s, other), (other, b)), name) == adapter_of(s, name),
{
    let r = name_index(s, other);
    let k = name_index(s, name);
    assert(0 <= r < s.len() && s[r].0 == other);
    assert(0 <= k < s.len() && s[k].0 == name);
    let s2 = s.update(r, (other, b));
    assert forall|p: int, q: int| 0 <= p < q < s2.len() implies s2[p].0 != s2[q].0 by {
        assert(s2[p].0 == s[p].0);
        assert(s2[q].0 == s[q].0);
    }
    assert(s2[k] == s[k]);
    lemma_name_index_unique(s2, name, k);
}

} // verus!
