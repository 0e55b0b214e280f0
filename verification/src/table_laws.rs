//! What holds across several operations on a table of resources.

use wasmtime::component::Resource;

use vstd::prelude::*;

use crate::outside::rep_of;
use crate::table::{key_at, InternalInputStream, Item, TableError, TableView};
use crate::table_streams::handle_result;

verus! {

/// At most one key is the next one.
pub proof fn law_next_key_is_unique<I: ?Sized, O: ?Sized, F, X>(
    v: TableView<I, O, F, X>,
    a: u32,
    b: u32,
)
    requires
        v.is_next(a),
        v.is_next(b),
    ensures
        a == b,
{
    let d = choose|d: int| v.tries(d, a);
    let e = choose|e: int| v.tries(e, b);
    if d < e {
        assert(v.entries.contains_key(key_at(v.next_key, d)));
    } else if e < d {
        assert(v.entries.contains_key(key_at(v.next_key, e)));
    }
}

/// Where the key that comes next is free, it is the one that is taken.
pub proof fn law_free_next_key_is_taken<I: ?Sized, O: ?Sized, F, X>(
    v: TableView<I, O, F, X>,
    key: u32,
)
    requires
        !v.entries.contains_key(v.next_key),
        v.is_next(key),
    ensures
        key == v.next_key,
{
    assert(key_at(v.next_key, 0) == v.next_key);
}

/// What is added is found under the key that is handed out, which was free
/// before; every other entry stays as it was.
pub proof fn law_push_then_lookup<I: ?Sized, O: ?Sized, F, X>(
    v: TableView<I, O, F, X>,
    item: Item<I, O, F, X>,
    parent: Option<u32>,
    post: TableView<I, O, F, X>,
    key: u32,
)
    requires
        v.pushes(item, parent, post, Ok(key)),
    ensures
        !v.entries.contains_key(key),
        post.lookup(key) == Ok::<_, TableError>(item),
        post.entries[key].parent == parent,
        forall|other: u32|
            other != key ==> #[trigger] post.entries.contains_key(other)
                == v.entries.contains_key(other) && post.entries[other] == v.entries[other],
{
}

/// What is removed is not found any more; every other entry stays as it was.
pub proof fn law_remove_then_lookup<I: ?Sized, O: ?Sized, F, X>(
    v: TableView<I, O, F, X>,
    key: u32,
    post: TableView<I, O, F, X>,
    item: Item<I, O, F, X>,
)
    requires
        v.removes(key, post, Ok(item)),
    ensures
        v.lookup(key) == Ok::<_, TableError>(item),
        post.lookup(key) == Err::<Item<I, O, F, X>, _>(TableError::NotPresent),
        forall|other: u32|
            other != key ==> #[trigger] post.entries.contains_key(other)
                == v.entries.contains_key(other) && post.entries[other] == v.entries[other],
{
}

/// Adding a resource leaves no orphans.
pub proof fn law_push_keeps_parents<I: ?Sized, O: ?Sized, F, X>(
    v: TableView<I, O, F, X>,
    item: Item<I, O, F, X>,
    parent: Option<u32>,
    post: TableView<I, O, F, X>,
    r: Result<u32, TableError>,
)
    requires
        v.has_no_orphans(),
        v.pushes(item, parent, post, r),
    ensures
        post.has_no_orphans(),
{
    assert forall|child: u32, key: u32| #[trigger] post.is_child(child, key) implies post.entries.contains_key(
        key,
    ) by {
        if v.entries.contains_key(child) {
            assert(v.is_child(child, key));
        }
    }
}

/// Removing a resource leaves no orphans.
pub proof fn law_remove_keeps_parents<I: ?Sized, O: ?Sized, F, X>(
    v: TableView<I, O, F, X>,
    key: u32,
    post: TableView<I, O, F, X>,
    r: Result<Item<I, O, F, X>, TableError>,
)
    requires
        v.has_no_orphans(),
        v.removes(key, post, r),
    ensures
        post.has_no_orphans(),
{
    assert forall|child: u32, parent: u32| #[trigger]
        post.is_child(child, parent) implies post.entries.contains_key(parent) by {
        assert(v.is_child(child, parent));
    }
}

/// Changing a resource in place leaves no orphans.
pub proof fn law_change_keeps_parents<I: ?Sized, O: ?Sized, F, X>(
    v: TableView<I, O, F, X>,
    key: u32,
    item: Item<I, O, F, X>,
)
    requires
        v.has_no_orphans(),
        v.entries.contains_key(key),
    ensures
        v.with(key, item).has_no_orphans(),
{
    assert forall|child: u32, parent: u32| #[trigger]
        v.with(key, item).is_child(child, parent) implies v.with(key, item).entries.contains_key(
        parent,
    ) by {
        assert(v.is_child(child, parent));
    }
}

/// A resource cannot be removed while a child of it is in the table.
pub proof fn law_parents_stay<I: ?Sized, O: ?Sized, F, X>(
    v: TableView<I, O, F, X>,
    item: Item<I, O, F, X>,
    parent: u32,
    mid: TableView<I, O, F, X>,
    child: u32,
    post: TableView<I, O, F, X>,
    r: Result<Item<I, O, F, X>, TableError>,
)
    requires
        v.pushes(item, Some(parent), mid, Ok(child)),
        mid.removes(parent, post, r),
    ensures
        r == Err::<Item<I, O, F, X>, _>(TableError::HasChildren),
        post == mid,
{
    assert(mid.is_child(child, parent));
}

/// Once its last child is removed, a resource has no children.
pub proof fn law_last_child_frees_parent<I: ?Sized, O: ?Sized, F, X>(
    v: TableView<I, O, F, X>,
    child: u32,
    parent: u32,
    post: TableView<I, O, F, X>,
    item: Item<I, O, F, X>,
)
    requires
        v.is_child(child, parent),
        forall|other: u32| other != child ==> !#[trigger] v.is_child(other, parent),
        v.removes(child, post, Ok(item)),
    ensures
        !post.has_children(parent),
{
    assert forall|other: u32| !post.is_child(other, parent) by {
        assert(other != child ==> !v.is_child(other, parent));
    }
}

/// What was just added can be removed, and that gives it back and restores the
/// entries.
pub proof fn law_push_then_remove<I: ?Sized, O: ?Sized, F, X>(
    v: TableView<I, O, F, X>,
    item: Item<I, O, F, X>,
    parent: Option<u32>,
    mid: TableView<I, O, F, X>,
    key: u32,
    post: TableView<I, O, F, X>,
    r: Result<Item<I, O, F, X>, TableError>,
)
    requires
        v.has_no_orphans(),
        v.pushes(item, parent, mid, Ok(key)),
        mid.removes(key, post, r),
    ensures
        r == Ok::<_, TableError>(item),
        post.entries == v.entries,
{
    lemma_new_entry_has_no_children(v, item, parent, mid, key);
    assert(mid.entries.remove(key) =~= v.entries);
}

/// An entry that was just added has no children.
proof fn lemma_new_entry_has_no_children<I: ?Sized, O: ?Sized, F, X>(
    v: TableView<I, O, F, X>,
    item: Item<I, O, F, X>,
    parent: Option<u32>,
    mid: TableView<I, O, F, X>,
    key: u32,
)
    requires
        v.has_no_orphans(),
        v.pushes(item, parent, mid, Ok(key)),
    ensures
        !mid.has_children(key),
{
    assert forall|child: u32| !mid.is_child(child, key) by {
        if mid.is_child(child, key) && child != key {
            assert(v.is_child(child, key));
        }
    }
}

/// An input stream that was put into a table is found through its handle, and
/// deleting it through the handle gives it back and restores the entries.
pub proof fn law_input_stream_round_trip<I: ?Sized, O: ?Sized, F, X, T: 'static>(
    v: TableView<I, O, F, X>,
    stream: Box<I>,
    parent: Option<u32>,
    mid: TableView<I, O, F, X>,
    handle: Resource<T>,
    key: u32,
    post: TableView<I, O, F, X>,
    r: Result<Box<I>, TableError>,
)
    requires
        v.has_no_orphans(),
        v.adds(Item::Input(InternalInputStream::Host(stream)), parent, mid, Ok(handle)),
        key == rep_of(handle),
        mid.deletes(key, mid.host_input(key), post, r),
    ensures
        mid.host_input(key) == Ok::<_, TableError>(stream),
        mid.output(key) == Err::<Box<O>, _>(TableError::WrongType),
        r == Ok::<_, TableError>(stream),
        post.entries == v.entries,
{
    let item = Item::Input(InternalInputStream::Host(stream));
    let found = choose|found: Result<u32, TableError>| #[trigger]
        v.pushes(item, parent, mid, found) && handle_result(
            found,
            Ok(handle),
        );
    lemma_new_entry_has_no_children(v, item, parent, mid, key);
    assert(mid.entries.remove(key) =~= v.entries);
}

/// An output stream that was put into a table is found through its handle, and
/// deleting it through the handle gives it back and restores the entries.
pub proof fn law_output_stream_round_trip<I: ?Sized, O: ?Sized, F, X, T: 'static>(
    v: TableView<I, O, F, X>,
    stream: Box<O>,
    parent: Option<u32>,
    mid: TableView<I, O, F, X>,
    handle: Resource<T>,
    key: u32,
    post: TableView<I, O, F, X>,
    r: Result<Box<O>, TableError>,
)
    requires
        v.has_no_orphans(),
        v.adds(Item::Output(stream), parent, mid, Ok(handle)),
        key == rep_of(handle),
        mid.deletes(key, mid.output(key), post, r),
    ensures
        mid.output(key) == Ok::<_, TableError>(stream),
        mid.input(key) == Err::<InternalInputStream<I, F>, _>(TableError::WrongType),
        r == Ok::<_, TableError>(stream),
        post.entries == v.entries,
{
    let item = Item::<I, O, F, X>::Output(stream);
    let found = choose|found: Result<u32, TableError>| #[trigger]
        v.pushes(item, parent, mid, found) && handle_result(
            found,
            Ok(handle),
        );
    lemma_new_entry_has_no_children(v, item, parent, mid, key);
    assert(mid.entries.remove(key) =~= v.entries);
}

/// An input stream that was changed through a reference is found as it was left;
/// every other entry stays as it was, and no entry comes or goes.
pub proof fn law_changed_input_stream_is_found<I: ?Sized, O: ?Sized, F, X>(
    v: TableView<I, O, F, X>,
    key: u32,
    stream: &I,
    post: TableView<I, O, F, X>,
)
    requires
        v.host_input(key) is Ok,
        v.replaces_host_input(key, stream, post),
    ensures
        post.host_input(key) matches Ok(boxed) && &*boxed == stream,
        post.entries[key].parent == v.entries[key].parent,
        forall|other: u32| #[trigger]
            post.entries.contains_key(other) == v.entries.contains_key(other),
        forall|other: u32| other != key ==> #[trigger] post.entries[other] == v.entries[other],
{
}

/// An output stream that was changed through a reference is found as it was
/// left; every other entry stays as it was, and no entry comes or goes.
pub proof fn law_changed_output_stream_is_found<I: ?Sized, O: ?Sized, F, X>(
    v: TableView<I, O, F, X>,
    key: u32,
    stream: &O,
    post: TableView<I, O, F, X>,
)
    requires
        v.output(key) is Ok,
        v.replaces_output(key, stream, post),
    ensures
        post.output(key) matches Ok(boxed) && &*boxed == stream,
        post.entries[key].parent == v.entries[key].parent,
        forall|other: u32| #[trigger]
            post.entries.contains_key(other) == v.entries.contains_key(other),
        forall|other: u32| other != key ==> #[trigger] post.entries[other] == v.entries[other],
{
}

/// A stream that reads a file is no input stream of the host: it is found and
/// deleted as an internal one only.
pub proof fn law_file_streams_are_internal<I: ?Sized, O: ?Sized, F, X>(
    v: TableView<I, O, F, X>,
    key: u32,
    file: F,
)
    requires
        v.input(key) == Ok::<_, TableError>(InternalInputStream::<I, F>::File(file)),
    ensures
        v.host_input(key) == Err::<Box<I>, _>(TableError::WrongType),
        forall|post: TableView<I, O, F, X>, r: Result<Box<I>, TableError>| #[trigger]
            v.deletes(key, v.host_input(key), post, r) ==> r == Err::<Box<I>, _>(
                TableError::WrongType,
            ) && post == v,
{
}

} // verus!
