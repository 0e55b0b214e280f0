//! A table that maps 32-bit keys to resources, and keeps track of which
//! resource is a child of which.

use std::collections::hash_map::Entry;
use std::collections::{HashMap, HashSet};

use vstd::prelude::*;

verus! {

broadcast use {vstd::std_specs::hash::group_hash_axioms, vstd::set::group_set_axioms};

/// Why the table refused a request.
#[derive(Clone, Copy, PartialEq, Eq, Debug, Structural)]
pub enum TableError {
    /// The table has no free keys.
    Full,
    /// The value is not present.
    NotPresent,
    /// The value is of another type.
    WrongType,
    /// The entry still has children.
    HasChildren,
}

/// An input stream as the table holds it: one of the host, or one that reads a
/// file.
pub enum InternalInputStream<I: ?Sized, F> {
    /// A stream of the host.
    Host(Box<I>),
    /// A stream that reads a file.
    File(F),
}

/// A resource in a table: `I` are the input streams of the host, `O` its output
/// streams, `F` the streams that read files, and `X` everything else.
pub enum Item<I: ?Sized, O: ?Sized, F, X> {
    /// An input stream.
    Input(InternalInputStream<I, F>),
    /// An output stream.
    Output(Box<O>),
    /// Another resource.
    Other(X),
}

/// An entry of the table.
struct TableEntry<I: ?Sized, O: ?Sized, F, X> {
    /// The resource.
    item: Item<I, O, F, X>,

    /// The key of the parent of this entry, if it has one.
    parent: Option<u32>,

    /// The keys of the children of this entry.
    children: HashSet<u32>,
}

/// A map from 32-bit keys to resources.
pub struct Table<I: ?Sized, O: ?Sized, F, X> {
    map: HashMap<u32, TableEntry<I, O, F, X>>,
    next_key: u32,
}

/// An entry of a table, as specifications see it.
pub struct Slot<I: ?Sized, O: ?Sized, F, X> {
    /// The resource.
    pub item: Item<I, O, F, X>,

    /// The key of its parent, if it has one.
    pub parent: Option<u32>,
}

/// The state of a table.
pub struct TableView<I: ?Sized, O: ?Sized, F, X> {
    /// The entries, by their keys.
    pub entries: Map<u32, Slot<I, O, F, X>>,

    /// The key that is tried first for the next entry.
    pub next_key: u32,
}

/// The key that lies `d` steps behind `start`, where the first key follows the
/// last one.
pub open spec fn key_at(start: u32, d: int) -> u32 {
    ((start + d) % 0x1_0000_0000) as u32
}

impl<I: ?Sized, O: ?Sized, F, X> TableView<I, O, F, X> {
    /// `key` lies `d` steps behind `next_key`, and no key before it is free.
    pub open spec fn tries(self, d: int, key: u32) -> bool {
        &&& 0 <= d
        &&& key == key_at(self.next_key, d)
        &&& forall|e: int|
            0 <= e < d ==> self.entries.contains_key(#[trigger] key_at(self.next_key, e))
    }

    /// `key` is the key for the next entry: the first free one, from `next_key`
    /// on.
    pub open spec fn is_next(self, key: u32) -> bool {
        &&& !self.entries.contains_key(key)
        &&& exists|d: int| self.tries(d, key)
    }

    /// Some entry has the entry under `key` for its parent.
    pub open spec fn has_children(self, key: u32) -> bool {
        exists|child: u32| self.is_child(child, key)
    }

    /// There is an entry under `child`, and `key` is its parent.
    pub open spec fn is_child(self, child: u32, key: u32) -> bool {
        self.entries.contains_key(child) && self.entries[child].parent == Some(key)
    }

    /// The parent of every entry is in the table.
    pub open spec fn has_no_orphans(self) -> bool {
        forall|child: u32, key: u32| #[trigger]
            self.is_child(child, key) ==> self.entries.contains_key(key)
    }

    /// Adding `item` gives `post` and `r`: it goes under the next free key, and
    /// is refused where there is none, or where its parent is not there.
    pub open spec fn pushes(
        self,
        item: Item<I, O, F, X>,
        parent: Option<u32>,
        post: Self,
        r: Result<u32, TableError>,
    ) -> bool {
        if parent is Some && !self.entries.contains_key(parent->0) {
            &&& r == Err::<u32, _>(TableError::NotPresent)
            &&& post == self
        } else if self.entries.len() >= u32::MAX {
            &&& r == Err::<u32, _>(TableError::Full)
            &&& post == self
        } else {
            &&& r is Ok
            &&& self.is_next(r->Ok_0)
            &&& post == TableView {
                entries: self.entries.insert(r->Ok_0, Slot { item, parent }),
                next_key: key_at(r->Ok_0, 1),
            }
        }
    }

    /// What the table holds under `key`.
    pub open spec fn lookup(self, key: u32) -> Result<Item<I, O, F, X>, TableError> {
        if self.entries.contains_key(key) {
            Ok(self.entries[key].item)
        } else {
            Err(TableError::NotPresent)
        }
    }

    /// The table with another resource under `key`.
    pub open spec fn with(self, key: u32, item: Item<I, O, F, X>) -> Self {
        TableView {
            entries: self.entries.insert(key, Slot { item, parent: self.entries[key].parent }),
            ..self
        }
    }

    /// Removing the entry under `key` gives `post` and `r`: it is refused while
    /// the entry has children.
    pub open spec fn removes(
        self,
        key: u32,
        post: Self,
        r: Result<Item<I, O, F, X>, TableError>,
    ) -> bool {
        if !self.entries.contains_key(key) {
            &&& r == Err::<Item<I, O, F, X>, _>(TableError::NotPresent)
            &&& post == self
        } else if self.has_children(key) {
            &&& r == Err::<Item<I, O, F, X>, _>(TableError::HasChildren)
            &&& post == self
        } else {
            &&& r == Ok::<_, TableError>(self.entries[key].item)
            &&& post == TableView { entries: self.entries.remove(key), ..self }
        }
    }
}

/// Where `d` keys in a row are taken, there are as many.
proof fn lemma_tried_keys_are_many(keys: Set<u32>, start: u32, d: int)
    requires
        keys.finite(),
        0 <= d <= 0x1_0000_0000,
        forall|e: int| 0 <= e < d ==> keys.contains(#[trigger] key_at(start, e)),
    ensures
        d <= keys.len(),
    decreases d,
{
    if d > 0 {
        let last = key_at(start, d - 1);
        let rest = keys.remove(last);
        assert forall|e: int| 0 <= e < d - 1 implies rest.contains(#[trigger] key_at(start, e)) by {
            assert(key_at(start, e) != last);
        }
        lemma_tried_keys_are_many(rest, start, d - 1);
    }
}

impl<I: ?Sized, O: ?Sized, F, X> View for Table<I, O, F, X> {
    type V = TableView<I, O, F, X>;

    closed spec fn view(&self) -> TableView<I, O, F, X> {
        TableView {
            entries: self.map@.map_values(
                |e: TableEntry<I, O, F, X>| Slot { item: e.item, parent: e.parent },
            ),
            next_key: self.next_key,
        }
    }
}

impl<I: ?Sized, O: ?Sized, F, X> Table<I, O, F, X> {
    /// The parent of every entry is in the table, and every entry knows its
    /// children.
    pub closed spec fn wf(&self) -> bool {
        &&& self@.entries.dom() == self.map@.dom()
        &&& self@.entries.len() <= u32::MAX
        &&& self@.has_no_orphans()
        &&& forall|key: u32, child: u32|
            self.map@.contains_key(key) ==> (#[trigger] self.map@[key].children@.contains(child)
                <==> self@.is_child(child, key))
    }

    /// In a well-formed table the parent of every entry is in the table.
    pub proof fn law_wf_has_no_orphans(&self)
        requires
            self.wf(),
        ensures
            self@.has_no_orphans(),
    {
    }

    /// The two tables differ at most in the resource under `key`.
    spec fn differs_in_item(&self, after: Self, key: u32) -> bool {
        &&& self.map@.contains_key(key)
        &&& after.map@ == self.map@.insert(
            key,
            TableEntry { item: after.map@[key].item, ..self.map@[key] },
        )
        &&& after.next_key == self.next_key
    }

    /// Replacing the resource of an entry changes nothing else.
    proof fn lemma_item_replaced(&self, after: Self, key: u32)
        requires
            self.wf(),
            self.differs_in_item(after, key),
        ensures
            after.wf(),
            after@ == self@.with(key, after.map@[key].item),
    {
        assert(after@.entries =~= self@.with(key, after.map@[key].item).entries);
        assert(after@.entries.dom() =~= self@.entries.dom());
        assert(after.map@.dom() =~= self.map@.dom());
        assert forall|c: u32, k: u32| #[trigger] after@.is_child(c, k) implies self@.is_child(
            c,
            k,
        ) by {}
        assert forall|k: u32, c: u32| after.map@.contains_key(k) implies (
        #[trigger] after.map@[k].children@.contains(c) <==> after@.is_child(c, k)) by {
            assert(self.map@[k].children@.contains(c) <==> self@.is_child(c, k));
        }
    }

    /// An empty table.
    ///
    /// The keys 0, 1 and 2 are left for later: they are well known as the
    /// descriptors of stdio.
    pub fn new() -> (t: Self)
        ensures
            t.wf(),
            t@.entries == Map::<u32, Slot<I, O, F, X>>::empty(),
            t@.next_key == 3,
    {
        let t = Table { map: HashMap::new(), next_key: 3 };
        proof {
            assert(t@.entries =~= Map::<u32, Slot<I, O, F, X>>::empty());
            assert(t@.entries.dom() =~= t.map@.dom());
        }
        t
    }

    /// Add an entry under the next free key.
    fn push_(&mut self, item: Item<I, O, F, X>, parent: Option<u32>) -> (r: Result<u32, TableError>)
        requires
            old(self).wf(),
            parent matches Some(key) ==> old(self)@.entries.contains_key(key),
        ensures
            final(self).wf(),
            old(self)@.pushes(item, parent, final(self)@, r),
    {
        if self.map.len() == u32::MAX as usize {
            return Err(TableError::Full);
        }
        let mut key: u32 = self.next_key;
        let ghost mut d: int = 0;
        while self.map.contains_key(&key)
            invariant
                self@ == old(self)@,
                self.wf(),
                self@.entries.len() < u32::MAX,
                self@.tries(d, key),
                d <= self@.entries.len(),
            decreases self@.entries.len() - d,
        {
            key = key.wrapping_add(1);
            proof {
                d = d + 1;
                lemma_tried_keys_are_many(self@.entries.dom(), self@.next_key, d);
            }
        }
        if let Some(p) = parent {
            match self.map.entry(p) {
                Entry::Occupied(e) => {
                    let _ = e.into_mut().children.insert(key);
                },
                Entry::Vacant(_) => {},
            }
        }
        let _ = self.map.insert(key, TableEntry { item, parent, children: HashSet::new() });
        self.next_key = key.wrapping_add(1);
        proof {
            let before = old(self)@;
            assert(self@.entries =~= before.entries.insert(key, Slot { item, parent }));
            assert(self@.entries.dom() =~= self.map@.dom());
            assert forall|k: u32, c: u32| self.map@.contains_key(k) implies (
            #[trigger] self.map@[k].children@.contains(c) <==> self@.is_child(c, k)) by {
                if k == key {
                    assert(!before.is_child(c, k));
                } else {
                    assert(old(self).map@[k].children@.contains(c) <==> before.is_child(c, k));
                }
            }
            assert forall|c: u32, k: u32| #[trigger]
                self@.is_child(c, k) implies self@.entries.contains_key(k) by {
                if c != key {
                    assert(before.is_child(c, k));
                }
            }
        }
        Ok(key)
    }

    /// Add a resource under the next free key.
    pub fn push(&mut self, item: Item<I, O, F, X>) -> (r: Result<u32, TableError>)
        requires
            old(self).wf(),
        ensures
            final(self).wf(),
            old(self)@.pushes(item, None, final(self)@, r),
    {
        self.push_(item, None)
    }

    /// Add a resource under the next free key, as a child of another one.
    pub fn push_child(&mut self, item: Item<I, O, F, X>, parent: u32) -> (r: Result<
        u32,
        TableError,
    >)
        requires
            old(self).wf(),
        ensures
            final(self).wf(),
            old(self)@.pushes(item, Some(parent), final(self)@, r),
    {
        if !self.map.contains_key(&parent) {
            return Err(TableError::NotPresent);
        }
        self.push_(item, Some(parent))
    }

    /// Look up a resource.
    pub fn get(&self, key: u32) -> (r: Result<&Item<I, O, F, X>, TableError>)
        ensures
            match r {
                Ok(item) => self@.lookup(key) == Ok::<_, TableError>(*item),
                Err(e) => self@.lookup(key) == Err::<Item<I, O, F, X>, _>(e),
            },
    {
        match self.map.get(&key) {
            Some(e) => Ok(&e.item),
            None => Err(TableError::NotPresent),
        }
    }

    /// Look up a resource, to change it in place.
    pub fn get_mut(&mut self, key: u32) -> (r: Result<&mut Item<I, O, F, X>, TableError>)
        requires
            old(self).wf(),
        ensures
            final(self).wf(),
            match r {
                Ok(item) => {
                    &&& old(self)@.lookup(key) == Ok::<_, TableError>(*item)
                    &&& final(self)@ == old(self)@.with(key, *final(item))
                },
                Err(e) => {
                    &&& old(self)@.lookup(key) == Err::<Item<I, O, F, X>, _>(e)
                    &&& final(self)@ == old(self)@
                },
            },
    {
        proof {
            assert forall|after: Self| self.differs_in_item(after, key) implies #[trigger] after.wf()
                && after@ == self@.with(key, after.map@[key].item) by {
                self.lemma_item_replaced(after, key);
            }
            if !self.map@.contains_key(key) {
                assert(self.map@.remove(key) =~= self.map@);
            }
            assert forall|after: Self|
                after.map@ == self.map@ && after.next_key
                    == self.next_key implies #[trigger] after.wf() && after@ == self@ by {
            }
        }
        match self.map.entry(key) {
            Entry::Occupied(e) => Ok(&mut e.into_mut().item),
            Entry::Vacant(_) => Err(TableError::NotPresent),
        }
    }

    /// Remove a resource that has no children.
    pub fn remove_entry(&mut self, key: u32) -> (r: Result<Item<I, O, F, X>, TableError>)
        requires
            old(self).wf(),
        ensures
            final(self).wf(),
            old(self)@.removes(key, final(self)@, r),
    {
        match self.map.get(&key) {
            Some(e) => {
                proof {
                    if e.children@.is_empty() {
                        assert forall|c: u32| !self@.is_child(c, key) by {
                            assert(!self.map@[key].children@.contains(c));
                        }
                    } else {
                        let c = e.children@.choose();
                        assert(self.map@[key].children@.contains(c));
                        assert(self@.is_child(c, key));
                    }
                }
                if !e.children.is_empty() {
                    return Err(TableError::HasChildren);
                }
            },
            None => return Err(TableError::NotPresent),
        }
        match self.map.remove(&key) {
            Some(e) => {
                if let Some(p) = e.parent {
                    match self.map.entry(p) {
                        Entry::Occupied(o) => {
                            let _ = o.into_mut().children.remove(&key);
                        },
                        Entry::Vacant(_) => {},
                    }
                }
                proof {
                    let before = old(self)@;
                    assert(self@.entries =~= before.entries.remove(key));
                    assert(self@.entries.dom() =~= self.map@.dom());
                    assert(!before.has_children(key));
                    assert forall|k: u32, c: u32| self.map@.contains_key(k) implies (
                    #[trigger] self.map@[k].children@.contains(c) <==> self@.is_child(c, k)) by {
                        assert(old(self).map@[k].children@.contains(c) <==> before.is_child(c, k));
                        if e.parent == Some(k) {
                            assert(self.map@[k].children@ == old(self).map@[k].children@.remove(
                                key,
                            ));
                        } else {
                            assert(self.map@[k].children@ == old(self).map@[k].children@);
                        }
                    }
                    assert forall|c: u32, k: u32| #[trigger]
                        self@.is_child(c, k) implies self@.entries.contains_key(k) by {
                        assert(before.is_child(c, k));
                    }
                }
                Ok(e.item)
            },
            None => Err(TableError::NotPresent),
        }
    }
}

} // verus!
