//! What each operation on a table of resources answers, entry by entry.
//!
//! The laws speak of calls: of the entries and the next key before a call, and
//! of those and the answer after it.

use wasmtime::component::Resource;

use vstd::prelude::*;

use crate::outside::rep_of;
use crate::stream::{HostInputStream, HostOutputStream};
use crate::table::{InternalInputStream, Item, Slot, Table, TableError, TableView};
use crate::table_streams::{
    InputStream, InternalTableStreamExt, OutputStream, TableStreamExt,
};

verus! {

/// The next key is the first one that is free, from `next_key` on and past the
/// last one to the first.
pub proof fn law_next_key_means<I: ?Sized, O: ?Sized, F, X>(v: TableView<I, O, F, X>, key: u32)
    requires
        v.is_next(key),
    ensures
        !v.entries.contains_key(key),
        v.next_key <= key ==> forall|k: u32|
            v.next_key <= k < key ==> #[trigger] v.entries.contains_key(k),
        key < v.next_key ==> forall|k: u32|
            v.next_key <= k || k < key ==> #[trigger] v.entries.contains_key(k),
{
    let d = choose|d: int| v.tries(d, key);
    assert forall|k: u32|
        (v.next_key <= k < key || (key < v.next_key && (v.next_key <= k || k
            < key))) implies #[trigger] v.entries.contains_key(k) by {
        let e = if v.next_key <= k {
            k - v.next_key
        } else {
            k - v.next_key + 0x1_0000_0000
        };
        assert(k == crate::table::key_at(v.next_key, e));
    }
}

/// The meaning of the next key, for all tables at once.
proof fn lemma_next_keys<I: ?Sized, O: ?Sized, F, X>()
    ensures
        forall|v: TableView<I, O, F, X>, key: u32| #[trigger]
            v.is_next(key) ==> {
                &&& v.next_key <= key ==> forall|k: u32|
                    v.next_key <= k < key ==> #[trigger] v.entries.contains_key(k)
                &&& key < v.next_key ==> forall|k: u32|
                    v.next_key <= k || k < key ==> #[trigger] v.entries.contains_key(k)
            },
{
    assert forall|v: TableView<I, O, F, X>, key: u32| #[trigger] v.is_next(key) implies {
        &&& v.next_key <= key ==> forall|k: u32|
            v.next_key <= k < key ==> #[trigger] v.entries.contains_key(k)
        &&& key < v.next_key ==> forall|k: u32|
            v.next_key <= k || k < key ==> #[trigger] v.entries.contains_key(k)
    } by {
        law_next_key_means(v, key);
    }
}

/// An entry has children where it is the parent of some entry.
proof fn lemma_children<I: ?Sized, O: ?Sized, F, X>()
    ensures
        forall|v: TableView<I, O, F, X>, key: u32| #[trigger]
            v.has_children(key) == exists|k: u32| #[trigger]
                v.entries.contains_key(k) && v.entries[k].parent == Some(key),
{
    assert forall|v: TableView<I, O, F, X>, key: u32| #[trigger]
        v.has_children(key) == exists|k: u32| #[trigger]
            v.entries.contains_key(k) && v.entries[k].parent == Some(key) by {
        if exists|k: u32| #[trigger]
            v.entries.contains_key(k) && v.entries[k].parent == Some(key) {
            let k = choose|k: u32| #[trigger]
                v.entries.contains_key(k) && v.entries[k].parent == Some(key);
            assert(v.is_child(k, key));
        }
        if v.has_children(key) {
            let k = choose|k: u32| v.is_child(k, key);
            assert(v.entries.contains_key(k));
        }
    }
}

/// A new table is empty.
pub proof fn law_new_table_is_empty<I: ?Sized, O: ?Sized, F, X>(t: Table<I, O, F, X>)
    requires
        call_ensures(Table::<I, O, F, X>::new, (), t),
    ensures
        t.wf(),
        t@.next_key == 3,
        forall|key: u32| !#[trigger] t@.entries.contains_key(key),
{
}

/// In a well-formed table the parent of every entry is in the table.
pub proof fn law_parents_are_there<I: ?Sized, O: ?Sized, F, X>(t: &Table<I, O, F, X>)
    requires
        t.wf(),
    ensures
        forall|key: u32| #[trigger]
            t@.entries.contains_key(key) && t@.entries[key].parent
                is Some ==> t@.entries.contains_key(t@.entries[key].parent->0),
{
    t.law_wf_has_no_orphans();
    assert forall|key: u32| #[trigger]
        t@.entries.contains_key(key) && t@.entries[key].parent
            is Some implies t@.entries.contains_key(t@.entries[key].parent->0) by {
        assert(t@.is_child(key, t@.entries[key].parent->0));
    }
}

/// Adding a resource succeeds while its parent, if it has one, is there and a key
/// is free. It goes under the first free key, with its parent, and nothing else
/// changes.
pub proof fn law_push_answers<I: ?Sized, O: ?Sized, F, X>(
    item: Item<I, O, F, X>,
    p: u32,
    parent: Option<u32>,
    r: Result<u32, TableError>,
)
    ensures
        forall|t: &mut Table<I, O, F, X>|
            t.wf() ==> #[trigger] call_requires(Table::<I, O, F, X>::push, (t, item)),
        forall|t: &mut Table<I, O, F, X>|
            t.wf() ==> #[trigger] call_requires(Table::<I, O, F, X>::push_child, (t, item, p)),
        forall|t: &mut Table<I, O, F, X>|
            #![trigger call_ensures(Table::<I, O, F, X>::push, (t, item), r)]
            #![trigger call_ensures(Table::<I, O, F, X>::push_child, (t, item, p), r)]
            t.wf() && ((parent is None && call_ensures(Table::<I, O, F, X>::push, (t, item), r))
                || (parent == Some(p) && call_ensures(Table::<I, O, F, X>::push_child, (t, item, p), r))) ==> {
                &&& final(t).wf()
                &&& parent is Some && !t@.entries.contains_key(parent->0) ==> r == Err::<u32, _>(
                    TableError::NotPresent,
                )
                &&& (parent is Some ==> t@.entries.contains_key(parent->0)) && t@.entries.len()
                    >= u32::MAX ==> r == Err::<u32, _>(TableError::Full)
                &&& (parent is Some ==> t@.entries.contains_key(parent->0)) && t@.entries.len()
                    < u32::MAX ==> r is Ok
                &&& r is Err ==> final(t)@.entries == t@.entries && final(t)@.next_key == t@.next_key
                &&& r matches Ok(key) ==> {
                    &&& !t@.entries.contains_key(key)
                    &&& t@.next_key <= key ==> forall|k: u32|
                        t@.next_key <= k < key ==> #[trigger] t@.entries.contains_key(k)
                    &&& key < t@.next_key ==> forall|k: u32|
                        t@.next_key <= k || k < key ==> #[trigger] t@.entries.contains_key(k)
                    &&& final(t)@.entries == t@.entries.insert(
                        key,
                        Slot { item: item, parent },
                    )
                    &&& final(t)@.next_key == if key == u32::MAX {
                        0
                    } else {
                        (key + 1) as u32
                    }
                }
            },
{
    lemma_next_keys::<I, O, F, X>();
}

/// Adding a stream with or without a parent succeeds while the parent is there
/// and a key is free. The handle stands for the first free key, under which the
/// stream then is, with its parent, and nothing else changes.
pub proof fn law_adding_answers<I: ?Sized, O: ?Sized, F, X, T: 'static>(
    v: TableView<I, O, F, X>,
    item: Item<I, O, F, X>,
    parent: Option<u32>,
    post: TableView<I, O, F, X>,
    r: Result<Resource<T>, TableError>,
)
    requires
        v.adds(item, parent, post, r),
    ensures
        ({
            &&& parent is Some && !v.entries.contains_key(parent->0) ==> r == Err::<Resource<T>, _>(
                TableError::NotPresent,
            )
            &&& (parent is Some ==> v.entries.contains_key(parent->0)) && v.entries.len()
                >= u32::MAX ==> r == Err::<Resource<T>, _>(TableError::Full)
            &&& (parent is Some ==> v.entries.contains_key(parent->0)) && v.entries.len()
                < u32::MAX ==> r is Ok
            &&& r is Err ==> post.entries == v.entries && post.next_key == v.next_key
            &&& r matches Ok(handle) ==> {
                let key = rep_of(handle);
                &&& !v.entries.contains_key(key)
                &&& v.next_key <= key ==> forall|k: u32|
                    v.next_key <= k < key ==> #[trigger] v.entries.contains_key(k)
                &&& key < v.next_key ==> forall|k: u32|
                    v.next_key <= k || k < key ==> #[trigger] v.entries.contains_key(k)
                &&& post.entries == v.entries.insert(
                    key,
                    Slot { item: item, parent },
                )
                &&& post.next_key == if key == u32::MAX {
                    0
                } else {
                    (key + 1) as u32
                }
            }
        }),
{
    lemma_next_keys::<I, O, F, X>();
}

/// Pushing an internal input stream succeeds while its parent, if it has
/// one, is there and a key is free. The handle stands for the first free key, under
/// which the stream then is, with its parent, and nothing else changes.
pub proof fn law_push_internal_input_stream_answers<I: ?Sized, O: ?Sized, F, X, T: 'static>(
    stream: InternalInputStream<I, F>,
    h: Resource<T>,
    parent: Option<u32>,
    r: Result<Resource<InputStream>, TableError>,
)
    ensures
        forall|t: &mut Table<I, O, F, X>|
            t.wf() ==> #[trigger] call_requires(Table::<I, O, F, X>::push_internal_input_stream, (t, stream)),
        forall|t: &mut Table<I, O, F, X>|
            t.wf() ==> #[trigger] call_requires(
                Table::<I, O, F, X>::push_internal_input_stream_child::<T>,
                (t, stream, h),
            ),
        forall|t: &mut Table<I, O, F, X>|
            #![trigger call_ensures(
                Table::<I, O, F, X>::push_internal_input_stream,
                (t, stream),
                r,
            )]
            #![trigger call_ensures(
                Table::<I, O, F, X>::push_internal_input_stream_child::<T>,
                (t, stream, h),
                r,
            )]
            t.wf() && ((parent is None && call_ensures(
                    Table::<I, O, F, X>::push_internal_input_stream,
                    (t, stream),
                    r,
                ))
                || (parent == Some(rep_of(h)) && call_ensures(
                    Table::<I, O, F, X>::push_internal_input_stream_child::<T>,
                    (t, stream, h),
                    r,
                ))) ==> {
                &&& final(t).wf()
                &&& parent is Some && !t@.entries.contains_key(parent->0) ==> r == Err::<Resource<InputStream>, _>(
                    TableError::NotPresent,
                )
                &&& (parent is Some ==> t@.entries.contains_key(parent->0)) && t@.entries.len()
                    >= u32::MAX ==> r == Err::<Resource<InputStream>, _>(TableError::Full)
                &&& (parent is Some ==> t@.entries.contains_key(parent->0)) && t@.entries.len()
                    < u32::MAX ==> r is Ok
                &&& r is Err ==> final(t)@.entries == t@.entries && final(t)@.next_key == t@.next_key
                &&& r matches Ok(handle) ==> {
                    let key = rep_of(handle);
                    &&& !t@.entries.contains_key(key)
                    &&& t@.next_key <= key ==> forall|k: u32|
                        t@.next_key <= k < key ==> #[trigger] t@.entries.contains_key(k)
                    &&& key < t@.next_key ==> forall|k: u32|
                        t@.next_key <= k || k < key ==> #[trigger] t@.entries.contains_key(k)
                    &&& final(t)@.entries == t@.entries.insert(
                        key,
                        Slot { item: Item::Input(stream), parent },
                    )
                    &&& final(t)@.next_key == if key == u32::MAX {
                        0
                    } else {
                        (key + 1) as u32
                    }
                }
            },
{
    lemma_next_keys::<I, O, F, X>();
}

/// Pushing an input stream succeeds while its parent, if it has
/// one, is there and a key is free. The handle stands for the first free key, under
/// which the stream then is, with its parent, and nothing else changes.
pub proof fn law_push_input_stream_answers<I: ?Sized, O: ?Sized, F, X, T: 'static>(
    stream: Box<I>,
    h: Resource<T>,
    parent: Option<u32>,
    r: Result<Resource<InputStream>, TableError>,
)
    ensures
        forall|t: &mut Table<I, O, F, X>|
            t.wf() ==> #[trigger] call_requires(Table::<I, O, F, X>::push_input_stream, (t, stream)),
        forall|t: &mut Table<I, O, F, X>|
            t.wf() ==> #[trigger] call_requires(
                Table::<I, O, F, X>::push_input_stream_child::<T>,
                (t, stream, h),
            ),
        forall|t: &mut Table<I, O, F, X>|
            #![trigger call_ensures(Table::<I, O, F, X>::push_input_stream, (t, stream), r)]
            #![trigger call_ensures(
                Table::<I, O, F, X>::push_input_stream_child::<T>,
                (t, stream, h),
                r,
            )]
            t.wf() && ((parent is None && call_ensures(Table::<I, O, F, X>::push_input_stream, (t, stream), r))
                || (parent == Some(rep_of(h)) && call_ensures(
                    Table::<I, O, F, X>::push_input_stream_child::<T>,
                    (t, stream, h),
                    r,
                ))) ==> {
                &&& final(t).wf()
                &&& parent is Some && !t@.entries.contains_key(parent->0) ==> r == Err::<Resource<InputStream>, _>(
                    TableError::NotPresent,
                )
                &&& (parent is Some ==> t@.entries.contains_key(parent->0)) && t@.entries.len()
                    >= u32::MAX ==> r == Err::<Resource<InputStream>, _>(TableError::Full)
                &&& (parent is Some ==> t@.entries.contains_key(parent->0)) && t@.entries.len()
                    < u32::MAX ==> r is Ok
                &&& r is Err ==> final(t)@.entries == t@.entries && final(t)@.next_key == t@.next_key
                &&& r matches Ok(handle) ==> {
                    let key = rep_of(handle);
                    &&& !t@.entries.contains_key(key)
                    &&& t@.next_key <= key ==> forall|k: u32|
                        t@.next_key <= k < key ==> #[trigger] t@.entries.contains_key(k)
                    &&& key < t@.next_key ==> forall|k: u32|
                        t@.next_key <= k || k < key ==> #[trigger] t@.entries.contains_key(k)
                    &&& final(t)@.entries == t@.entries.insert(
                        key,
                        Slot { item: Item::Input(InternalInputStream::Host(stream)), parent },
                    )
                    &&& final(t)@.next_key == if key == u32::MAX {
                        0
                    } else {
                        (key + 1) as u32
                    }
                }
            },
{
    lemma_next_keys::<I, O, F, X>();
}

/// Pushing an output stream succeeds while its parent, if it has
/// one, is there and a key is free. The handle stands for the first free key, under
/// which the stream then is, with its parent, and nothing else changes.
pub proof fn law_push_output_stream_answers<I: ?Sized, O: ?Sized, F, X, T: 'static>(
    stream: Box<O>,
    h: Resource<T>,
    parent: Option<u32>,
    r: Result<Resource<OutputStream>, TableError>,
)
    ensures
        forall|t: &mut Table<I, O, F, X>|
            t.wf() ==> #[trigger] call_requires(Table::<I, O, F, X>::push_output_stream, (t, stream)),
        forall|t: &mut Table<I, O, F, X>|
            t.wf() ==> #[trigger] call_requires(
                Table::<I, O, F, X>::push_output_stream_child::<T>,
                (t, stream, h),
            ),
        forall|t: &mut Table<I, O, F, X>|
            #![trigger call_ensures(Table::<I, O, F, X>::push_output_stream, (t, stream), r)]
            #![trigger call_ensures(
                Table::<I, O, F, X>::push_output_stream_child::<T>,
                (t, stream, h),
                r,
            )]
            t.wf() && ((parent is None && call_ensures(Table::<I, O, F, X>::push_output_stream, (t, stream), r))
                || (parent == Some(rep_of(h)) && call_ensures(
                    Table::<I, O, F, X>::push_output_stream_child::<T>,
                    (t, stream, h),
                    r,
                ))) ==> {
                &&& final(t).wf()
                &&& parent is Some && !t@.entries.contains_key(parent->0) ==> r == Err::<Resource<OutputStream>, _>(
                    TableError::NotPresent,
                )
                &&& (parent is Some ==> t@.entries.contains_key(parent->0)) && t@.entries.len()
                    >= u32::MAX ==> r == Err::<Resource<OutputStream>, _>(TableError::Full)
                &&& (parent is Some ==> t@.entries.contains_key(parent->0)) && t@.entries.len()
                    < u32::MAX ==> r is Ok
                &&& r is Err ==> final(t)@.entries == t@.entries && final(t)@.next_key == t@.next_key
                &&& r matches Ok(handle) ==> {
                    let key = rep_of(handle);
                    &&& !t@.entries.contains_key(key)
                    &&& t@.next_key <= key ==> forall|k: u32|
                        t@.next_key <= k < key ==> #[trigger] t@.entries.contains_key(k)
                    &&& key < t@.next_key ==> forall|k: u32|
                        t@.next_key <= k || k < key ==> #[trigger] t@.entries.contains_key(k)
                    &&& final(t)@.entries == t@.entries.insert(
                        key,
                        Slot { item: Item::Output(stream), parent },
                    )
                    &&& final(t)@.next_key == if key == u32::MAX {
                        0
                    } else {
                        (key + 1) as u32
                    }
                }
            },
{
    lemma_next_keys::<I, O, F, X>();
}

/// Every entry is found, and nothing else.
pub proof fn law_get_answers<I: ?Sized, O: ?Sized, F, X>(
    t: &Table<I, O, F, X>,
    key: u32,
    r: Result<&Item<I, O, F, X>, TableError>,
)
    requires
        call_ensures(Table::<I, O, F, X>::get, (t, key), r),
    ensures
        r == if t@.entries.contains_key(key) {
            Ok(&t@.entries[key].item)
        } else {
            Err(TableError::NotPresent)
        },
{
}

/// Every entry can be changed in place, and nothing else changes.
pub proof fn law_get_mut_answers<I: ?Sized, O: ?Sized, F, X>(
    key: u32,
    r: Result<&mut Item<I, O, F, X>, TableError>,
)
    ensures
        forall|t: &mut Table<I, O, F, X>|
            t.wf() ==> #[trigger] call_requires(Table::<I, O, F, X>::get_mut, (t, key)),
        forall|t: &mut Table<I, O, F, X>|
            #![trigger call_ensures(Table::<I, O, F, X>::get_mut, (t, key), r)]
            t.wf() && call_ensures(Table::<I, O, F, X>::get_mut, (t, key), r) ==> {
                &&& final(t).wf()
                &&& r is Ok <==> t@.entries.contains_key(key)
                &&& r matches Err(e) ==> e == if !t@.entries.contains_key(key) {
                    TableError::NotPresent
                } else {
                    TableError::WrongType
                }
                &&& r is Err ==> final(t)@.entries == t@.entries
                &&& r matches Ok(found) ==> {
                    &&& *found == t@.entries[key].item
                    &&& final(t)@.entries[key].item == *final(found)
                    &&& final(t)@.entries.dom() == t@.entries.dom()
                    &&& final(t)@.entries[key].parent == t@.entries[key].parent
                    &&& forall|k: u32|
                        k != key && t@.entries.contains_key(k) ==> #[trigger] final(t)@.entries[k]
                            == t@.entries[k]
                }
                &&& final(t)@.next_key == t@.next_key
            },
{
}

/// Every input stream is found through its handle, and can be changed in place.
/// Nothing else changes, and nothing else is found.
pub proof fn law_get_internal_input_stream_answers<I: ?Sized, O: ?Sized, F, X>(
    fd: &Resource<InputStream>,
    r: Result<&mut InternalInputStream<I, F>, TableError>,
)
    ensures
        forall|t: &mut Table<I, O, F, X>|
            t.wf() ==> #[trigger] call_requires(
                <Table<I, O, F, X> as InternalTableStreamExt>::get_internal_input_stream_mut,
                (t, fd),
            ),
        forall|t: &mut Table<I, O, F, X>|
            #![trigger call_ensures(
                <Table<I, O, F, X> as InternalTableStreamExt>::get_internal_input_stream_mut,
                (t, fd),
                r,
            )]
            t.wf() && call_ensures(
                <Table<I, O, F, X> as InternalTableStreamExt>::get_internal_input_stream_mut,
                (t, fd),
                r,
            ) ==> {
                let key = rep_of(*fd);
                &&& final(t).wf()
                &&& r is Ok <==> t@.entries.contains_key(key) && t@.entries[key].item is Input
                &&& r matches Err(e) ==> e == if !t@.entries.contains_key(key) {
                    TableError::NotPresent
                } else {
                    TableError::WrongType
                }
                &&& r is Err ==> final(t)@.entries == t@.entries
                &&& r matches Ok(found) ==> {
                    &&& t@.entries[key].item == Item::<I, O, F, X>::Input(*found)
                    &&& final(t)@.entries[key].item == Item::<I, O, F, X>::Input(*final(found))
                    &&& final(t)@.entries.dom() == t@.entries.dom()
                    &&& final(t)@.entries[key].parent == t@.entries[key].parent
                    &&& forall|k: u32|
                        k != key && t@.entries.contains_key(k) ==> #[trigger] final(t)@.entries[k]
                            == t@.entries[k]
                }
                &&& final(t)@.next_key == t@.next_key
            },
{
}

/// Every input stream of the host is found through its handle,
/// and can be changed in place. Nothing else changes, and nothing else is found.
pub proof fn law_get_input_stream_answers<I: ?Sized, O: ?Sized, F, X>(
    fd: &Resource<InputStream>,
    r: Result<&mut I, TableError>,
)
    ensures
        forall|t: &mut Table<I, O, F, X>|
            t.wf() ==> #[trigger] call_requires(Table::<I, O, F, X>::get_input_stream_mut, (t, fd)),
        forall|t: &mut Table<I, O, F, X>|
            #![trigger call_ensures(Table::<I, O, F, X>::get_input_stream_mut, (t, fd), r)]
            t.wf() && call_ensures(Table::<I, O, F, X>::get_input_stream_mut, (t, fd), r) ==> {
                let key = rep_of(*fd);
                &&& final(t).wf()
                &&& r is Ok <==> t@.entries.contains_key(key) && (t@.entries[key].item is Input && t@.entries[key].item->Input_0 is Host)
                &&& r matches Err(e) ==> e == if !t@.entries.contains_key(key) {
                    TableError::NotPresent
                } else {
                    TableError::WrongType
                }
                &&& r is Err ==> final(t)@.entries == t@.entries
                &&& r matches Ok(found) ==> {
                    &&& t@.entries[key].item matches Item::Input(InternalInputStream::Host(b)) && &*b
                        == &*found
                    &&& final(t)@.entries[key].item matches Item::Input(InternalInputStream::Host(b)) && &*b
                        == &*final(found)
                    &&& final(t)@.entries.dom() == t@.entries.dom()
                    &&& final(t)@.entries[key].parent == t@.entries[key].parent
                    &&& forall|k: u32|
                        k != key && t@.entries.contains_key(k) ==> #[trigger] final(t)@.entries[k]
                            == t@.entries[k]
                }
                &&& final(t)@.next_key == t@.next_key
            },
{
}

/// Every output stream is found through its handle,
/// and can be changed in place. Nothing else changes, and nothing else is found.
pub proof fn law_get_output_stream_answers<I: ?Sized, O: ?Sized, F, X>(
    fd: &Resource<OutputStream>,
    r: Result<&mut O, TableError>,
)
    ensures
        forall|t: &mut Table<I, O, F, X>|
            t.wf() ==> #[trigger] call_requires(Table::<I, O, F, X>::get_output_stream_mut, (t, fd)),
        forall|t: &mut Table<I, O, F, X>|
            #![trigger call_ensures(Table::<I, O, F, X>::get_output_stream_mut, (t, fd), r)]
            t.wf() && call_ensures(Table::<I, O, F, X>::get_output_stream_mut, (t, fd), r) ==> {
                let key = rep_of(*fd);
                &&& final(t).wf()
                &&& r is Ok <==> t@.entries.contains_key(key) && t@.entries[key].item is Output
                &&& r matches Err(e) ==> e == if !t@.entries.contains_key(key) {
                    TableError::NotPresent
                } else {
                    TableError::WrongType
                }
                &&& r is Err ==> final(t)@.entries == t@.entries
                &&& r matches Ok(found) ==> {
                    &&& t@.entries[key].item matches Item::Output(b) && &*b == &*found
                    &&& final(t)@.entries[key].item matches Item::Output(b) && &*b == &*final(found)
                    &&& final(t)@.entries.dom() == t@.entries.dom()
                    &&& final(t)@.entries[key].parent == t@.entries[key].parent
                    &&& forall|k: u32|
                        k != key && t@.entries.contains_key(k) ==> #[trigger] final(t)@.entries[k]
                            == t@.entries[k]
                }
                &&& final(t)@.next_key == t@.next_key
            },
{
}

/// Through the trait, every input stream of the host is found through its handle,
/// and can be changed in place. Nothing else changes, and nothing else is found.
pub proof fn law_trait_get_input_stream_answers<
    I: HostInputStream + ?Sized,
    O: HostOutputStream + ?Sized,
    F,
    X,
>(
    fd: &Resource<InputStream>,
    r: Result<&mut I, TableError>,
)
    ensures
        forall|t: &mut Table<I, O, F, X>|
            t.wf() ==> #[trigger] call_requires(
                <Table<I, O, F, X> as TableStreamExt>::get_input_stream_mut,
                (t, fd),
            ),
        forall|t: &mut Table<I, O, F, X>|
            #![trigger call_ensures(
                <Table<I, O, F, X> as TableStreamExt>::get_input_stream_mut,
                (t, fd),
                r,
            )]
            t.wf() && call_ensures(
                <Table<I, O, F, X> as TableStreamExt>::get_input_stream_mut,
                (t, fd),
                r,
            ) ==> {
                let key = rep_of(*fd);
                &&& final(t).wf()
                &&& r is Ok <==> t@.entries.contains_key(key) && (t@.entries[key].item is Input && t@.entries[key].item->Input_0 is Host)
                &&& r matches Err(e) ==> e == if !t@.entries.contains_key(key) {
                    TableError::NotPresent
                } else {
                    TableError::WrongType
                }
                &&& r is Err ==> final(t)@.entries == t@.entries
                &&& r matches Ok(found) ==> {
                    &&& t@.entries[key].item matches Item::Input(InternalInputStream::Host(b)) && &*b
                        == &*found
                    &&& final(t)@.entries[key].item matches Item::Input(InternalInputStream::Host(b)) && &*b
                        == &*final(found)
                    &&& final(t)@.entries.dom() == t@.entries.dom()
                    &&& final(t)@.entries[key].parent == t@.entries[key].parent
                    &&& forall|k: u32|
                        k != key && t@.entries.contains_key(k) ==> #[trigger] final(t)@.entries[k]
                            == t@.entries[k]
                }
                &&& final(t)@.next_key == t@.next_key
            },
{
}

/// Through the trait, every output stream is found through its handle,
/// and can be changed in place. Nothing else changes, and nothing else is found.
pub proof fn law_trait_get_output_stream_answers<
    I: HostInputStream + ?Sized,
    O: HostOutputStream + ?Sized,
    F,
    X,
>(
    fd: &Resource<OutputStream>,
    r: Result<&mut O, TableError>,
)
    ensures
        forall|t: &mut Table<I, O, F, X>|
            t.wf() ==> #[trigger] call_requires(
                <Table<I, O, F, X> as TableStreamExt>::get_output_stream_mut,
                (t, fd),
            ),
        forall|t: &mut Table<I, O, F, X>|
            #![trigger call_ensures(
                <Table<I, O, F, X> as TableStreamExt>::get_output_stream_mut,
                (t, fd),
                r,
            )]
            t.wf() && call_ensures(
                <Table<I, O, F, X> as TableStreamExt>::get_output_stream_mut,
                (t, fd),
                r,
            ) ==> {
                let key = rep_of(*fd);
                &&& final(t).wf()
                &&& r is Ok <==> t@.entries.contains_key(key) && t@.entries[key].item is Output
                &&& r matches Err(e) ==> e == if !t@.entries.contains_key(key) {
                    TableError::NotPresent
                } else {
                    TableError::WrongType
                }
                &&& r is Err ==> final(t)@.entries == t@.entries
                &&& r matches Ok(found) ==> {
                    &&& t@.entries[key].item matches Item::Output(b) && &*b == &*found
                    &&& final(t)@.entries[key].item matches Item::Output(b) && &*b == &*final(found)
                    &&& final(t)@.entries.dom() == t@.entries.dom()
                    &&& final(t)@.entries[key].parent == t@.entries[key].parent
                    &&& forall|k: u32|
                        k != key && t@.entries.contains_key(k) ==> #[trigger] final(t)@.entries[k]
                            == t@.entries[k]
                }
                &&& final(t)@.next_key == t@.next_key
            },
{
}

/// Every entry without children can be removed, which gives its resource back and
/// leaves the others as they are.
pub proof fn law_remove_entry_answers<I: ?Sized, O: ?Sized, F, X>(
    key: u32,
    r: Result<Item<I, O, F, X>, TableError>,
)
    ensures
        forall|t: &mut Table<I, O, F, X>|
            t.wf() ==> #[trigger] call_requires(Table::<I, O, F, X>::remove_entry, (t, key)),
        forall|t: &mut Table<I, O, F, X>|
            #![trigger call_ensures(Table::<I, O, F, X>::remove_entry, (t, key), r)]
            t.wf() && call_ensures(Table::<I, O, F, X>::remove_entry, (t, key), r) ==> {
                &&& final(t).wf()
                &&& r is Ok <==> t@.entries.contains_key(key)
                    && forall|k: u32| #[trigger]
                    t@.entries.contains_key(k) ==> t@.entries[k].parent != Some(key)
                &&& r matches Err(e) ==> e == if !t@.entries.contains_key(key) {
                    TableError::NotPresent
                } else {
                    TableError::HasChildren
                }
                &&& r is Err ==> final(t)@.entries == t@.entries
                &&& r matches Ok(found) ==> {
                    &&& found == t@.entries[key].item
                    &&& final(t)@.entries == t@.entries.remove(key)
                }
                &&& final(t)@.next_key == t@.next_key
            },
{
    lemma_children::<I, O, F, X>();
}

/// Every input stream without children can be deleted through its handle, which
/// gives it back and leaves the other entries as they are.
pub proof fn law_delete_internal_input_stream_answers<I: ?Sized, O: ?Sized, F, X>(
    fd: Resource<InputStream>,
    r: Result<InternalInputStream<I, F>, TableError>,
)
    ensures
        forall|t: &mut Table<I, O, F, X>|
            t.wf() ==> #[trigger] call_requires(
                <Table<I, O, F, X> as InternalTableStreamExt>::delete_internal_input_stream,
                (t, fd),
            ),
        forall|t: &mut Table<I, O, F, X>|
            #![trigger call_ensures(
                <Table<I, O, F, X> as InternalTableStreamExt>::delete_internal_input_stream,
                (t, fd),
                r,
            )]
            t.wf() && call_ensures(
                <Table<I, O, F, X> as InternalTableStreamExt>::delete_internal_input_stream,
                (t, fd),
                r,
            ) ==> {
                let key = rep_of(fd);
                &&& final(t).wf()
                &&& r is Ok <==> t@.entries.contains_key(key) && t@.entries[key].item is Input
                    && forall|k: u32| #[trigger]
                    t@.entries.contains_key(k) ==> t@.entries[k].parent != Some(key)
                &&& r matches Err(e) ==> e == if !t@.entries.contains_key(key) {
                    TableError::NotPresent
                } else if !(t@.entries[key].item is Input) {
                    TableError::WrongType
                } else {
                    TableError::HasChildren
                }
                &&& r is Err ==> final(t)@.entries == t@.entries
                &&& r matches Ok(found) ==> {
                    &&& t@.entries[key].item == Item::<I, O, F, X>::Input(found)
                    &&& final(t)@.entries == t@.entries.remove(key)
                }
                &&& final(t)@.next_key == t@.next_key
            },
{
    lemma_children::<I, O, F, X>();
}

/// Every input stream of the host without children can be
/// deleted through its handle, which gives it back and leaves the other entries as
/// they are.
pub proof fn law_delete_input_stream_answers<I: ?Sized, O: ?Sized, F, X>(
    fd: Resource<InputStream>,
    r: Result<Box<I>, TableError>,
)
    ensures
        forall|t: &mut Table<I, O, F, X>|
            t.wf() ==> #[trigger] call_requires(Table::<I, O, F, X>::delete_input_stream, (t, fd)),
        forall|t: &mut Table<I, O, F, X>|
            #![trigger call_ensures(Table::<I, O, F, X>::delete_input_stream, (t, fd), r)]
            t.wf() && call_ensures(Table::<I, O, F, X>::delete_input_stream, (t, fd), r) ==> {
                let key = rep_of(fd);
                &&& final(t).wf()
                &&& r is Ok <==> t@.entries.contains_key(key) && (t@.entries[key].item is Input && t@.entries[key].item->Input_0 is Host)
                    && forall|k: u32| #[trigger]
                    t@.entries.contains_key(k) ==> t@.entries[k].parent != Some(key)
                &&& r matches Err(e) ==> e == if !t@.entries.contains_key(key) {
                    TableError::NotPresent
                } else if !((t@.entries[key].item is Input && t@.entries[key].item->Input_0 is Host)) {
                    TableError::WrongType
                } else {
                    TableError::HasChildren
                }
                &&& r is Err ==> final(t)@.entries == t@.entries
                &&& r matches Ok(found) ==> {
                    &&& t@.entries[key].item == Item::<I, O, F, X>::Input(
                        InternalInputStream::Host(found),
                    )
                    &&& final(t)@.entries == t@.entries.remove(key)
                }
                &&& final(t)@.next_key == t@.next_key
            },
{
    lemma_children::<I, O, F, X>();
}

/// Every output stream without children can be
/// deleted through its handle, which gives it back and leaves the other entries as
/// they are.
pub proof fn law_delete_output_stream_answers<I: ?Sized, O: ?Sized, F, X>(
    fd: Resource<OutputStream>,
    r: Result<Box<O>, TableError>,
)
    ensures
        forall|t: &mut Table<I, O, F, X>|
            t.wf() ==> #[trigger] call_requires(Table::<I, O, F, X>::delete_output_stream, (t, fd)),
        forall|t: &mut Table<I, O, F, X>|
            #![trigger call_ensures(Table::<I, O, F, X>::delete_output_stream, (t, fd), r)]
            t.wf() && call_ensures(Table::<I, O, F, X>::delete_output_stream, (t, fd), r) ==> {
                let key = rep_of(fd);
                &&& final(t).wf()
                &&& r is Ok <==> t@.entries.contains_key(key) && t@.entries[key].item is Output
                    && forall|k: u32| #[trigger]
                    t@.entries.contains_key(k) ==> t@.entries[k].parent != Some(key)
                &&& r matches Err(e) ==> e == if !t@.entries.contains_key(key) {
                    TableError::NotPresent
                } else if !(t@.entries[key].item is Output) {
                    TableError::WrongType
                } else {
                    TableError::HasChildren
                }
                &&& r is Err ==> final(t)@.entries == t@.entries
                &&& r matches Ok(found) ==> {
                    &&& t@.entries[key].item == Item::<I, O, F, X>::Output(found)
                    &&& final(t)@.entries == t@.entries.remove(key)
                }
                &&& final(t)@.next_key == t@.next_key
            },
{
    lemma_children::<I, O, F, X>();
}

/// Through the trait, every input stream of the host without children can be
/// deleted through its handle, which gives it back and leaves the other entries as
/// they are.
pub proof fn law_trait_delete_input_stream_answers<
    I: HostInputStream + ?Sized,
    O: HostOutputStream + ?Sized,
    F,
    X,
>(
    fd: Resource<InputStream>,
    r: Result<Box<I>, TableError>,
)
    ensures
        forall|t: &mut Table<I, O, F, X>|
            t.wf() ==> #[trigger] call_requires(
                <Table<I, O, F, X> as TableStreamExt>::delete_input_stream,
                (t, fd),
            ),
        forall|t: &mut Table<I, O, F, X>|
            #![trigger call_ensures(
                <Table<I, O, F, X> as TableStreamExt>::delete_input_stream,
                (t, fd),
                r,
            )]
            t.wf() && call_ensures(
                <Table<I, O, F, X> as TableStreamExt>::delete_input_stream,
                (t, fd),
                r,
            ) ==> {
                let key = rep_of(fd);
                &&& final(t).wf()
                &&& r is Ok <==> t@.entries.contains_key(key) && (t@.entries[key].item is Input && t@.entries[key].item->Input_0 is Host)
                    && forall|k: u32| #[trigger]
                    t@.entries.contains_key(k) ==> t@.entries[k].parent != Some(key)
                &&& r matches Err(e) ==> e == if !t@.entries.contains_key(key) {
                    TableError::NotPresent
                } else if !((t@.entries[key].item is Input && t@.entries[key].item->Input_0 is Host)) {
                    TableError::WrongType
                } else {
                    TableError::HasChildren
                }
                &&& r is Err ==> final(t)@.entries == t@.entries
                &&& r matches Ok(found) ==> {
                    &&& t@.entries[key].item == Item::<I, O, F, X>::Input(
                        InternalInputStream::Host(found),
                    )
                    &&& final(t)@.entries == t@.entries.remove(key)
                }
                &&& final(t)@.next_key == t@.next_key
            },
{
    lemma_children::<I, O, F, X>();
}

/// Through the trait, every output stream without children can be
/// deleted through its handle, which gives it back and leaves the other entries as
/// they are.
pub proof fn law_trait_delete_output_stream_answers<
    I: HostInputStream + ?Sized,
    O: HostOutputStream + ?Sized,
    F,
    X,
>(
    fd: Resource<OutputStream>,
    r: Result<Box<O>, TableError>,
)
    ensures
        forall|t: &mut Table<I, O, F, X>|
            t.wf() ==> #[trigger] call_requires(
                <Table<I, O, F, X> as TableStreamExt>::delete_output_stream,
                (t, fd),
            ),
        forall|t: &mut Table<I, O, F, X>|
            #![trigger call_ensures(
                <Table<I, O, F, X> as TableStreamExt>::delete_output_stream,
                (t, fd),
                r,
            )]
            t.wf() && call_ensures(
                <Table<I, O, F, X> as TableStreamExt>::delete_output_stream,
                (t, fd),
                r,
            ) ==> {
                let key = rep_of(fd);
                &&& final(t).wf()
                &&& r is Ok <==> t@.entries.contains_key(key) && t@.entries[key].item is Output
                    && forall|k: u32| #[trigger]
                    t@.entries.contains_key(k) ==> t@.entries[k].parent != Some(key)
                &&& r matches Err(e) ==> e == if !t@.entries.contains_key(key) {
                    TableError::NotPresent
                } else if !(t@.entries[key].item is Output) {
                    TableError::WrongType
                } else {
                    TableError::HasChildren
                }
                &&& r is Err ==> final(t)@.entries == t@.entries
                &&& r matches Ok(found) ==> {
                    &&& t@.entries[key].item == Item::<I, O, F, X>::Output(found)
                    &&& final(t)@.entries == t@.entries.remove(key)
                }
                &&& final(t)@.next_key == t@.next_key
            },
{
    lemma_children::<I, O, F, X>();
}

} // verus!
