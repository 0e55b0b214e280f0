//! The free-list that runs through the closed slots of the table of
//! descriptors, and what each operation does to it.

use vstd::prelude::*;

use crate::bindings::{Bindings, DescriptorType};
use crate::descriptors::{Descriptor, Preopen, Stdio, Streams, MAX_DESCRIPTORS};
use crate::model::DescriptorsView;
use crate::preview1::{Errno, Fd, ERRNO_NOMEM};

verus! {

/// What refers to the `i`th entry of a free-list: nothing, at its end.
pub open spec fn link(list: Seq<Fd>, i: int) -> Option<Fd> {
    if 0 <= i < list.len() {
        Some(list[i])
    } else {
        None
    }
}

impl<B: Bindings> DescriptorsView<B> {
    /// `list` is the free-list: the table points to its first entry, each entry
    /// refers to the next one, and it holds every closed slot, once.
    pub open spec fn has_free_list(self, list: Seq<Fd>) -> bool {
        &&& list.no_duplicates()
        &&& forall|fd: Fd| #[trigger] list.contains(fd) <==> self.is_closed(fd)
        &&& self.closed == link(list, 0)
        &&& forall|i: int| 0 <= i < list.len() ==> #[trigger] self.leads_on(list, i)
    }

    /// The `i`th entry of `list` is a closed slot that refers to the next entry.
    pub open spec fn leads_on(self, list: Seq<Fd>, i: int) -> bool {
        self.table[list[i] as int] == Descriptor::<B>::Closed(link(list, i + 1))
    }

    /// The closed slots form a free-list.
    #[verifier::opaque]
    pub open spec fn is_linked(self) -> bool {
        exists|list: Seq<Fd>| self.has_free_list(list)
    }
}

/// The closed slots that growing a table from `old_len` to `len` puts on the
/// free-list: the last one comes first.
pub open spec fn new_slots(old_len: nat, len: nat) -> Seq<Fd> {
    Seq::new((len - old_len) as nat, |i: int| (len - 1 - i) as u32)
}

/// A table has at most one free-list.
pub proof fn law_free_list_is_unique<B: Bindings>(
    v: DescriptorsView<B>,
    a: Seq<Fd>,
    b: Seq<Fd>,
)
    requires
        v.has_free_list(a),
        v.has_free_list(b),
    ensures
        a == b,
{
    lemma_prefixes_agree(v, a, b, a.len() as int);
    lemma_prefixes_agree(v, b, a, b.len() as int);
    assert(a =~= b);
}

/// Two free-lists of one table agree as far as the first one goes.
proof fn lemma_prefixes_agree<B: Bindings>(
    v: DescriptorsView<B>,
    a: Seq<Fd>,
    b: Seq<Fd>,
    n: int,
)
    requires
        v.has_free_list(a),
        v.has_free_list(b),
        0 <= n <= a.len(),
    ensures
        n <= b.len(),
        forall|i: int| 0 <= i < n ==> a[i] == b[i],
    decreases n,
{
    if n > 0 {
        lemma_prefixes_agree(v, a, b, n - 1);
        if n == 1 {
            assert(link(a, 0) == link(b, 0));
        } else {
            assert(v.leads_on(a, n - 2));
            assert(v.leads_on(b, n - 2));
        }
    }
}

/// A program starts with an empty free-list.
pub proof fn law_initial_free_list<B: Bindings>(
    stdio: Stdio<B>,
    entries: Seq<Preopen<B>>,
    types: Seq<DescriptorType>,
)
    ensures
        DescriptorsView::initial(stdio, entries, types).has_free_list(Seq::empty()),
        DescriptorsView::initial(stdio, entries, types).is_linked(),
{
    reveal(DescriptorsView::is_linked);
    let v = DescriptorsView::initial(stdio, entries, types);
    assert forall|fd: Fd| !v.is_closed(fd) by {
        if v.has(fd) && fd >= 3 {
            assert(v.table[fd as int] is Streams);
        }
    }
}

/// While the closed slots form a free-list, its head is a closed descriptor.
pub proof fn law_head_is_closed<B: Bindings>(v: DescriptorsView<B>)
    requires
        v.is_linked(),
    ensures
        v.head_is_closed(),
{
    reveal(DescriptorsView::is_linked);
    let list = choose|list: Seq<Fd>| v.has_free_list(list);
    if list.len() > 0 {
        assert(list.contains(list[0]));
    }
}

/// Opening takes the first entry off the free-list. With no entry it adds a
/// slot to the table, and fails where the table is full.
pub proof fn law_open_pops_free_list<B: Bindings>(
    v: DescriptorsView<B>,
    list: Seq<Fd>,
    d: Descriptor<B>,
    post: DescriptorsView<B>,
    r: Result<Fd, Errno>,
)
    requires
        v.has_free_list(list),
        d is Streams,
        v.opens(d, post, r),
    ensures
        list.len() > 0 ==> r == Ok::<_, Errno>(list[0]) && post.has_free_list(list.drop_first()),
        list.len() == 0 ==> post.has_free_list(list),
        list.len() == 0 && v.table.len() < MAX_DESCRIPTORS ==> r == Ok::<_, Errno>(
            v.table.len() as u32,
        ),
        list.len() == 0 && v.table.len() >= MAX_DESCRIPTORS ==> r == Err::<Fd, _>(ERRNO_NOMEM),
{
    if list.len() > 0 {
        let rest = list.drop_first();
        assert(list.contains(list[0]));
        assert(v.leads_on(list, 0));
        assert forall|fd: Fd| #[trigger] rest.contains(fd) <==> post.is_closed(fd) by {
            if rest.contains(fd) {
                let i = choose|i: int| 0 <= i < rest.len() && rest[i] == fd;
                assert(list[i + 1] == fd);
                assert(list.contains(fd));
            }
            if post.is_closed(fd) {
                assert(list.contains(fd));
                let i = choose|i: int| 0 <= i < list.len() && list[i] == fd;
                assert(rest[i - 1] == fd);
            }
        }
        assert forall|i: int| 0 <= i < rest.len() implies #[trigger] post.leads_on(rest, i) by {
            assert(v.leads_on(list, i + 1));
            assert(list[i + 1] == rest[i]);
            assert(list.contains(list[i + 1]));
        }
    } else {
        assert forall|fd: Fd| #[trigger] list.contains(fd) <==> post.is_closed(fd) by {
            assert(list.contains(fd) <==> v.is_closed(fd));
        }
    }
}

/// While the closed slots form a free-list, opening fails only where the table
/// has all its slots and each of them is open.
pub proof fn law_open_fails_only_when_full<B: Bindings>(
    v: DescriptorsView<B>,
    d: Descriptor<B>,
    post: DescriptorsView<B>,
    errno: Errno,
)
    requires
        v.is_linked(),
        v.opens(d, post, Err(errno)),
    ensures
        errno == ERRNO_NOMEM,
        v.table.len() >= MAX_DESCRIPTORS,
        forall|fd: Fd| v.has(fd) ==> #[trigger] v.is_open(fd),
        post == v,
{
    reveal(DescriptorsView::is_linked);
    let list = choose|list: Seq<Fd>| v.has_free_list(list);
    assert(list.len() == 0);
    assert forall|fd: Fd| v.has(fd) implies #[trigger] v.is_open(fd) by {
        assert(!list.contains(fd));
    }
}

/// Closing puts a descriptor at the front of the free-list.
pub proof fn law_close_pushes_free_list<B: Bindings>(
    v: DescriptorsView<B>,
    list: Seq<Fd>,
    fd: Fd,
)
    requires
        v.has_free_list(list),
        v.is_open(fd),
    ensures
        v.after_close(fd).has_free_list(seq![fd] + list),
{
    let post = v.after_close(fd);
    let more = seq![fd] + list;
    assert(!list.contains(fd));
    assert forall|g: Fd| #[trigger] more.contains(g) <==> post.is_closed(g) by {
        assert(list.contains(g) <==> v.is_closed(g));
        if more.contains(g) && g != fd {
            let i = choose|i: int| 0 <= i < more.len() && more[i] == g;
            assert(list[i - 1] == g);
        }
        if list.contains(g) {
            let i = choose|i: int| 0 <= i < list.len() && list[i] == g;
            assert(more[i + 1] == g);
        }
        assert(more[0] == fd);
    }
    assert forall|i: int| 0 <= i < more.len() implies #[trigger] post.leads_on(more, i) by {
        if i > 0 {
            assert(v.leads_on(list, i - 1));
            assert(more[i] == list[i - 1]);
            assert(list.contains(list[i - 1]));
        }
    }
}

/// Each slot that is added in closed form joins the free-list at its front.
pub proof fn law_growing_extends_free_list<B: Bindings>(
    v: DescriptorsView<B>,
    list: Seq<Fd>,
    len: nat,
)
    requires
        v.has_free_list(list),
        v.table.len() <= len <= MAX_DESCRIPTORS,
    ensures
        v.grown(len).has_free_list(new_slots(v.table.len(), len) + list),
{
    let old_len = v.table.len();
    let more = new_slots(old_len, len) + list;
    let post = v.grown(len);
    let added = len - old_len;
    assert forall|g: Fd| #[trigger] more.contains(g) <==> post.is_closed(g) by {
        assert(list.contains(g) <==> v.is_closed(g));
        if more.contains(g) {
            let i = choose|i: int| 0 <= i < more.len() && more[i] == g;
            if i >= added {
                assert(list[i - added] == g);
            }
        }
        if list.contains(g) {
            let i = choose|i: int| 0 <= i < list.len() && list[i] == g;
            assert(more[i + added] == g);
        }
        if old_len <= g < len {
            assert(more[len - 1 - g] == g);
        }
    }
    assert forall|i: int, j: int| 0 <= i < more.len() && 0 <= j < more.len() && i
        != j implies more[i] != more[j] by {
        if i >= added {
            assert(list.contains(list[i - added]));
        }
        if j >= added {
            assert(list.contains(list[j - added]));
        }
    }
    assert forall|i: int| 0 <= i < more.len() implies #[trigger] post.leads_on(more, i) by {
        if i >= added {
            assert(v.leads_on(list, i - added));
            assert(more[i] == list[i - added]);
            assert(list.contains(list[i - added]));
        }
    }
}

/// Putting streams into a slot that is taken off the free-list takes its
/// descriptor out of it, wherever it stands; the others keep their order.
pub proof fn law_unlinking_removes_from_free_list<B: Bindings>(
    v: DescriptorsView<B>,
    list: Seq<Fd>,
    fd: Fd,
    streams: Streams<B>,
)
    requires
        v.has_free_list(list),
        v.has(fd),
    ensures
        v.unlinked(fd).with(fd, Descriptor::Streams(streams)).has_free_list(list.remove_value(fd)),
{
    let post = v.unlinked(fd).with(fd, Descriptor::Streams(streams));
    list.index_of_first_ensures(fd);
    assert(list.contains(fd) <==> v.is_closed(fd));
    if v.is_closed(fd) {
        let k = list.index_of_first(fd)->0;
        let rest = list.remove_value(fd);
        assert(v.leads_on(list, k));
        assert forall|g: Fd| #[trigger] rest.contains(g) <==> post.is_closed(g) by {
            assert(list.contains(g) <==> v.is_closed(g));
            if rest.contains(g) {
                let i = choose|i: int| 0 <= i < rest.len() && rest[i] == g;
                let at = if i < k {
                    i
                } else {
                    i + 1
                };
                assert(list[at] == g);
            }
            if list.contains(g) && g != fd {
                let i = choose|i: int| 0 <= i < list.len() && list[i] == g;
                let at = if i < k {
                    i
                } else {
                    i - 1
                };
                assert(rest[at] == g);
            }
        }
        assert forall|i: int| 0 <= i < rest.len() implies #[trigger] post.leads_on(rest, i) by {
            let at = if i < k {
                i
            } else {
                i + 1
            };
            assert(list[at] == rest[i]);
            assert(list.contains(list[at]));
            assert(v.leads_on(list, at));
        }
        assert(rest.no_duplicates());
    } else {
        law_changing_streams_keeps_free_list(v, list, fd, streams);
    }
}

/// Taking a value out of a sequence leaves another value at its front there.
proof fn lemma_remove_behind_first(first: Fd, rest: Seq<Fd>, fd: Fd)
    requires
        first != fd,
    ensures
        (seq![first] + rest).remove_value(fd) == seq![first] + rest.remove_value(fd),
{
    let all = seq![first] + rest;
    all.index_of_first_ensures(fd);
    rest.index_of_first_ensures(fd);
    if rest.contains(fd) {
        let k = rest.index_of_first(fd)->0;
        assert(all[k + 1] == fd);
        let m = all.index_of_first(fd)->0;
        assert(rest[m - 1] == fd);
        assert(m == k + 1);
        assert(all.remove_value(fd) =~= seq![first] + rest.remove_value(fd));
    } else {
        assert(!all.contains(fd)) by {
            if all.contains(fd) {
                let m = all.index_of_first(fd)->0;
                assert(rest[m - 1] == fd);
            }
        }
    }
}

/// Closing `from_fd` and moving its streams to another slot leaves `from_fd` at
/// the front of the free-list, and `to_fd` not on it.
pub proof fn law_moving_keeps_free_list<B: Bindings>(
    v: DescriptorsView<B>,
    list: Seq<Fd>,
    from_fd: Fd,
    to_fd: Fd,
)
    requires
        v.has_free_list(list),
        v.is_open(from_fd),
        v.has(to_fd),
        from_fd != to_fd,
    ensures
        v.after_close(from_fd).unlinked(to_fd).with(
            to_fd,
            v.table[from_fd as int],
        ).has_free_list(seq![from_fd] + list.remove_value(to_fd)),
{
    law_close_pushes_free_list(v, list, from_fd);
    law_unlinking_removes_from_free_list(
        v.after_close(from_fd),
        seq![from_fd] + list,
        to_fd,
        v.table[from_fd as int]->Streams_0,
    );
    lemma_remove_behind_first(from_fd, list, to_fd);
}

/// Renumbering keeps the free-list, whether it succeeds or fails: the slots that
/// the table has grown by join it, then `from_fd` joins it and `to_fd` leaves
/// it. Renumbering a descriptor to itself, or one that is no slot, leaves the
/// list as it is.
pub proof fn law_renumber_keeps_free_list<B: Bindings>(
    v: DescriptorsView<B>,
    list: Seq<Fd>,
    from_fd: Fd,
    to_fd: Fd,
    post: DescriptorsView<B>,
    r: Result<(), Errno>,
)
    requires
        v.has_free_list(list),
        v.table.len() <= MAX_DESCRIPTORS,
        v.renumbers(from_fd, to_fd, post, r),
    ensures
        ({
            let grown = new_slots(v.table.len(), v.renumbered_len(to_fd)) + list;
            post.has_free_list(
                if !v.has(from_fd) || (r is Ok && from_fd == to_fd) {
                    list
                } else if r is Ok {
                    seq![from_fd] + grown.remove_value(to_fd)
                } else {
                    grown
                },
            )
        }),
        post.is_linked(),
{
    reveal(DescriptorsView::is_linked);
    if v.has(from_fd) && r is Err {
        law_growing_extends_free_list(v, list, v.renumbered_len(to_fd));
    }
}

/// Changing the streams of an open descriptor in place keeps the free-list.
pub proof fn law_changing_streams_keeps_free_list<B: Bindings>(
    v: DescriptorsView<B>,
    list: Seq<Fd>,
    fd: Fd,
    streams: Streams<B>,
)
    requires
        v.has_free_list(list),
        v.is_open(fd),
    ensures
        v.with(fd, Descriptor::Streams(streams)).has_free_list(list),
{
    let post = v.with(fd, Descriptor::Streams(streams));
    assert forall|g: Fd| #[trigger] list.contains(g) <==> post.is_closed(g) by {
        assert(list.contains(g) <==> v.is_closed(g));
    }
    assert forall|i: int| 0 <= i < list.len() implies #[trigger] post.leads_on(list, i) by {
        assert(v.leads_on(list, i));
        assert(list.contains(list[i]));
    }
}

/// Opening streams keeps the closed slots a free-list.
pub proof fn law_open_keeps_linked<B: Bindings>(
    v: DescriptorsView<B>,
    d: Descriptor<B>,
    post: DescriptorsView<B>,
    r: Result<Fd, Errno>,
)
    requires
        v.is_linked(),
        d is Streams,
        v.opens(d, post, r),
    ensures
        post.is_linked(),
{
    reveal(DescriptorsView::is_linked);
    let list = choose|list: Seq<Fd>| v.has_free_list(list);
    law_open_pops_free_list(v, list, d, post, r);
}

/// Closing keeps the closed slots a free-list, also where it is refused.
pub proof fn law_close_keeps_linked<B: Bindings>(v: DescriptorsView<B>, fd: Fd)
    requires
        v.is_linked(),
    ensures
        v.after_close(fd).is_linked(),
{
    reveal(DescriptorsView::is_linked);
    let list = choose|list: Seq<Fd>| v.has_free_list(list);
    if v.is_open(fd) {
        law_close_pushes_free_list(v, list, fd);
    }
}

/// Adding closed slots keeps the closed slots a free-list.
pub proof fn law_growing_keeps_linked<B: Bindings>(v: DescriptorsView<B>, len: nat)
    requires
        v.is_linked(),
        v.table.len() <= len <= MAX_DESCRIPTORS,
    ensures
        v.grown(len).is_linked(),
{
    reveal(DescriptorsView::is_linked);
    let list = choose|list: Seq<Fd>| v.has_free_list(list);
    law_growing_extends_free_list(v, list, len);
}

/// Changing the streams of an open descriptor keeps the closed slots a
/// free-list.
pub proof fn law_changing_streams_keeps_linked<B: Bindings>(
    v: DescriptorsView<B>,
    fd: Fd,
    streams: Streams<B>,
)
    requires
        v.is_linked(),
        v.is_open(fd),
    ensures
        v.with(fd, Descriptor::Streams(streams)).is_linked(),
{
    reveal(DescriptorsView::is_linked);
    let list = choose|list: Seq<Fd>| v.has_free_list(list);
    law_changing_streams_keeps_free_list(v, list, fd, streams);
}

/// Growing the table and moving an open descriptor to another slot is how
/// renumbering succeeds, and keeps the closed slots a free-list.
pub(crate) proof fn lemma_moved_is_renumbered<B: Bindings>(
    v: DescriptorsView<B>,
    from_fd: Fd,
    to_fd: Fd,
    post: DescriptorsView<B>,
)
    requires
        v.is_linked(),
        v.table.len() <= MAX_DESCRIPTORS,
        v.is_open(from_fd),
        to_fd < MAX_DESCRIPTORS,
        from_fd != to_fd,
        post == v.grown(v.renumbered_len(to_fd)).after_close(from_fd).unlinked(to_fd).with(
            to_fd,
            v.table[from_fd as int],
        ),
    ensures
        v.renumbers(from_fd, to_fd, post, Ok(())),
        post.is_linked(),
{
    reveal(DescriptorsView::is_linked);
    let len = v.renumbered_len(to_fd);
    let added = new_slots(v.table.len(), len);
    assert forall|list: Seq<Fd>| #[trigger] v.has_free_list(list) implies post.has_free_list(
        seq![from_fd] + (added + list).remove_value(to_fd),
    ) by {
        law_growing_extends_free_list(v, list, len);
        law_moving_keeps_free_list(v.grown(len), added + list, from_fd, to_fd);
    }
    let list = choose|list: Seq<Fd>| v.has_free_list(list);
    assert(v.has_free_list(list));
}

} // verus!
