//! What each operation on the table of descriptors answers, slot by slot.
//!
//! The laws speak of calls: of the slots, the head of the free-list and the
//! preopened directories before a call, and of those and the answer after it.

use vstd::prelude::*;

use crate::bindings::{Bindings, BlockingMode, DescriptorType, File};
use crate::descriptors::{
    Descriptor, Descriptors, IsATTY, Preopen, PreopenList, Stdio, StreamType, Streams,
    MAX_DESCRIPTORS,
};
use crate::model::DescriptorsView;
use crate::preview1::{
    Errno, Fd, Filetype, ERRNO_BADF, ERRNO_INVAL, ERRNO_NOMEM, ERRNO_NOTDIR, ERRNO_SPIPE,
    FILETYPE_CHARACTER_DEVICE, FILETYPE_UNKNOWN,
};

verus! {

/// The free-list starts at the head, runs from each closed slot to the one that
/// it refers to, and passes every closed slot once.
pub proof fn law_free_list_means<B: Bindings>(v: DescriptorsView<B>, list: Seq<Fd>)
    ensures
        v.has_free_list(list) <==> {
            &&& forall|i: int, j: int|
                0 <= i < j < list.len() ==> #[trigger] list[i] != #[trigger] list[j]
            &&& forall|fd: Fd| #[trigger]
                list.contains(fd) <==> fd < v.table.len() && v.table[fd as int] is Closed
            &&& v.closed == if list.len() > 0 {
                Some(list[0])
            } else {
                None
            }
            &&& forall|i: int|
                0 <= i < list.len() ==> #[trigger] v.table[list[i] as int] == Descriptor::<
                    B,
                >::Closed(
                    if i + 1 < list.len() {
                        Some(list[i + 1])
                    } else {
                        None
                    },
                )
        },
        v.is_linked() <==> exists|other: Seq<Fd>| v.has_free_list(other),
{
    reveal(DescriptorsView::is_linked);
    if v.has_free_list(list) {
        assert forall|i: int| 0 <= i < list.len() implies #[trigger] v.table[list[i] as int]
            == Descriptor::<B>::Closed(
            if i + 1 < list.len() {
                Some(list[i + 1])
            } else {
                None
            },
        ) by {
            assert(v.leads_on(list, i));
        }
    } else if (forall|i: int, j: int|
        0 <= i < j < list.len() ==> #[trigger] list[i] != #[trigger] list[j]) {
        assert(list.no_duplicates());
    }
}

/// A table is well-formed where it has at most its capacity of slots, and its
/// closed slots form a free-list.
pub proof fn law_well_formed_means<B: Bindings>(d: &Descriptors<B>)
    ensures
        d.wf() <==> d@.table.len() <= MAX_DESCRIPTORS && exists|list: Seq<Fd>|
            d@.has_free_list(list),
{
    law_free_list_means(d@, Seq::empty());
}

/// Terminals are character devices, and everything else on stdio is of unknown
/// type.
pub proof fn law_filetype_answers(tty: &IsATTY, r: Filetype)
    requires
        call_ensures(IsATTY::filetype, (tty,), r),
    ensures
        r == FILETYPE_CHARACTER_DEVICE <==> *tty == IsATTY::Yes,
        r == FILETYPE_UNKNOWN <==> *tty == IsATTY::No,
{
}

/// A new table has stdio at 0, 1 and 2, each stream with its own terminal, and
/// then every preopened directory with its own handle, type and path. Nothing
/// is closed.
pub proof fn law_new_table<B: Bindings>(
    stdio: Stdio<B>,
    list: PreopenList<B>,
    types: Vec<DescriptorType>,
    d: Descriptors<B>,
)
    requires
        call_ensures(Descriptors::<B>::new, (stdio, list, types), d),
    ensures
        d.wf(),
        d@.table.len() == 3 + list.entries@.len(),
        d@.closed is None,
        d@.table[0] matches Descriptor::Streams(s) && s.input == Some(stdio.stdin)
            && s.output is None && s.type_ == StreamType::<B>::Stdio(
            if stdio.stdin_is_terminal {
                IsATTY::Yes
            } else {
                IsATTY::No
            },
        ),
        d@.table[1] matches Descriptor::Streams(s) && s.input is None && s.output == Some(
            stdio.stdout,
        ) && s.type_ == StreamType::<B>::Stdio(
            if stdio.stdout_is_terminal {
                IsATTY::Yes
            } else {
                IsATTY::No
            },
        ),
        d@.table[2] matches Descriptor::Streams(s) && s.input is None && s.output == Some(
            stdio.stderr,
        ) && s.type_ == StreamType::<B>::Stdio(
            if stdio.stderr_is_terminal {
                IsATTY::Yes
            } else {
                IsATTY::No
            },
        ),
        forall|i: int|
            0 <= i < list.entries@.len() ==> (#[trigger] d@.table[i + 3] matches Descriptor::Streams(
                s,
            ) && s.input is None && s.output is None && (s.type_ matches StreamType::File(file)
                && file.fd == list.entries@[i].descriptor->0 && file.descriptor_type == types@[i]
                && file.position == 0 && !file.append && file.blocking_mode
                == BlockingMode::Blocking)),
        d@.preopens.len() == list.entries@.len(),
        forall|i: int|
            0 <= i < list.entries@.len() ==> #[trigger] d@.preopens[i].path
                == list.entries@[i].path && d@.preopens[i].descriptor is None,
{
}

/// A new table can be had of any stdio, and of any preopened directories that
/// are not too many and have their handles.
pub proof fn law_new_accepts<B: Bindings>(
    stdio: Stdio<B>,
    list: PreopenList<B>,
    types: Vec<DescriptorType>,
)
    requires
        list.entries@.len() <= MAX_DESCRIPTORS - 3,
        types@.len() == list.entries@.len(),
        forall|i: int|
            0 <= i < list.entries@.len() ==> (#[trigger] list.entries@[i]).descriptor is Some,
    ensures
        call_requires(Descriptors::<B>::new, (stdio, list, types)),
{
}

/// Opening puts the descriptor into the slot at the head of the free-list, which
/// moves on; with no closed slot it goes into a new one, up to the capacity.
/// Every other slot keeps what it held.
pub proof fn law_open_answers<B: Bindings>(desc: Descriptor<B>, r: Result<Fd, Errno>)
    ensures
        forall|d: &mut Descriptors<B>|
            d.wf() ==> #[trigger] call_requires(Descriptors::<B>::open, (d, desc)),
        forall|d: &mut Descriptors<B>| #[trigger]
            call_ensures(Descriptors::<B>::open, (d, desc), r) && d.wf() ==> {
                let len = d@.table.len();
                &&& match d@.closed {
                    Some(head) => {
                        &&& r == Ok::<_, Errno>(head)
                        &&& final(d)@.table.len() == len
                        &&& d@.table[head as int] == Descriptor::<B>::Closed(final(d)@.closed)
                    },
                    None => if len < MAX_DESCRIPTORS {
                        &&& r == Ok::<_, Errno>(len as u32)
                        &&& final(d)@.table.len() == len + 1
                        &&& final(d)@.closed is None
                    } else {
                        &&& r == Err::<Fd, _>(ERRNO_NOMEM)
                        &&& final(d)@.table.len() == len
                        &&& final(d)@.closed is None
                    },
                }
                &&& r matches Ok(fd) ==> final(d)@.table[fd as int] == desc
                &&& forall|i: int|
                    0 <= i < len && r != Ok::<_, Errno>(i as u32) ==> #[trigger] final(d)@.table[i]
                        == d@.table[i]
                &&& final(d)@.preopens == d@.preopens
                &&& desc is Streams ==> final(d).wf()
            },
{
    assert forall|d: &mut Descriptors<B>| #[trigger]
        call_ensures(Descriptors::<B>::open, (d, desc), r) && d.wf() implies d@.head_is_closed() by {
        crate::free_list::law_head_is_closed(d@);
    }
}

/// While a slot is closed or the table has room, opening succeeds.
pub proof fn law_open_succeeds<B: Bindings>(desc: Descriptor<B>, r: Result<Fd, Errno>)
    ensures
        forall|d: &mut Descriptors<B>| #[trigger]
            call_ensures(Descriptors::<B>::open, (d, desc), r) && d.wf() && (d@.table.len()
                < MAX_DESCRIPTORS || exists|i: int|
                0 <= i < d@.table.len() && #[trigger] d@.table[i] is Closed) ==> r is Ok,
{
    assert forall|d: &mut Descriptors<B>| #[trigger]
        call_ensures(Descriptors::<B>::open, (d, desc), r) && d.wf() && (d@.table.len()
            < MAX_DESCRIPTORS || exists|i: int|
            0 <= i < d@.table.len() && #[trigger] d@.table[i] is Closed) implies r is Ok by {
        if r is Err {
            crate::free_list::law_open_fails_only_when_full(d@, desc, final(d)@, r->Err_0);
            assert forall|i: int| 0 <= i < d@.table.len() implies #[trigger] d@.table[i]
                is Streams by {
                assert(d@.is_open(i as u32));
            }
        }
    }
}

/// Every slot of the table is found, and nothing else.
pub proof fn law_get_answers<B: Bindings>(
    d: &Descriptors<B>,
    fd: Fd,
    r: Result<&Descriptor<B>, Errno>,
)
    requires
        call_ensures(Descriptors::<B>::get, (d, fd), r),
    ensures
        r == if fd < d@.table.len() {
            Ok(&d@.table[fd as int])
        } else {
            Err(ERRNO_BADF)
        },
{
}

/// Every slot of the table can be changed in place, and nothing else changes.
pub proof fn law_get_mut_answers<B: Bindings>(fd: Fd, r: Result<&mut Descriptor<B>, Errno>)
    ensures
        forall|d: &mut Descriptors<B>| #[trigger]
            call_requires(Descriptors::<B>::get_mut, (d, fd)),
        forall|d: &mut Descriptors<B>| #[trigger]
            call_ensures(Descriptors::<B>::get_mut, (d, fd), r) ==> {
                &&& r is Ok <==> fd < d@.table.len()
                &&& r matches Err(e) ==> e == ERRNO_BADF && final(d)@.table == d@.table
                &&& r matches Ok(slot) ==> {
                    &&& *slot == d@.table[fd as int]
                    &&& final(d)@.table.len() == d@.table.len()
                    &&& final(d)@.table[fd as int] == *final(slot)
                    &&& forall|i: int|
                        0 <= i < d@.table.len() && i != fd ==> #[trigger] final(d)@.table[i]
                            == d@.table[i]
                    &&& d.wf() && *slot is Streams && *final(slot) is Streams ==> final(d).wf()
                }
                &&& final(d)@.closed == d@.closed
                &&& final(d)@.preopens == d@.preopens
            },
{
}

/// The preopened directories are found from 3 on, in their order, and nothing
/// is found elsewhere.
pub proof fn law_get_preopen_answers<B: Bindings>(
    d: &Descriptors<B>,
    fd: Fd,
    r: Option<&Preopen<B>>,
)
    requires
        call_ensures(Descriptors::<B>::get_preopen, (d, fd), r),
    ensures
        r == if fd >= 3 && fd - 3 < d@.preopens.len() {
            Some(&d@.preopens[fd - 3])
        } else {
            None
        },
{
}

/// Closing succeeds on every slot that holds streams, which becomes the head of
/// the free-list, and on nothing else. Every other slot keeps what it held.
pub proof fn law_close_answers<B: Bindings>(fd: Fd, r: Result<(), Errno>)
    ensures
        forall|d: &mut Descriptors<B>|
            d.wf() ==> #[trigger] call_requires(Descriptors::<B>::close, (d, fd)),
        forall|d: &mut Descriptors<B>| #[trigger]
            call_ensures(Descriptors::<B>::close, (d, fd), r) ==> {
                let open = fd < d@.table.len() && d@.table[fd as int] is Streams;
                &&& r == if open {
                    Ok(())
                } else {
                    Err(ERRNO_BADF)
                }
                &&& final(d)@.table.len() == d@.table.len()
                &&& forall|i: int|
                    0 <= i < d@.table.len() && !(open && i == fd) ==> #[trigger] final(d)@.table[i]
                        == d@.table[i]
                &&& open ==> final(d)@.table[fd as int] == Descriptor::<B>::Closed(d@.closed)
                &&& final(d)@.closed == if open {
                    Some(fd)
                } else {
                    d@.closed
                }
                &&& final(d)@.preopens == d@.preopens
                &&& d.wf() ==> final(d).wf()
            },
{
}

/// Renumbering succeeds on every slot that holds streams, whatever they are, and
/// to every slot that the table can have. It fails with `ERRNO_BADF` where
/// `from_fd` holds none, and with `ERRNO_NOMEM` where `to_fd` is out of reach.
pub proof fn law_renumber_answers<B: Bindings>(from_fd: Fd, to_fd: Fd, r: Result<(), Errno>)
    ensures
        forall|d: &mut Descriptors<B>|
            d.wf() ==> #[trigger] call_requires(
                Descriptors::<B>::renumber,
                (d, from_fd, to_fd),
            ),
        forall|d: &mut Descriptors<B>| #[trigger]
            call_ensures(Descriptors::<B>::renumber, (d, from_fd, to_fd), r) && d.wf() ==> r
                == if from_fd >= d@.table.len() {
                Err(ERRNO_BADF)
            } else if to_fd >= MAX_DESCRIPTORS {
                Err(ERRNO_NOMEM)
            } else if d@.table[from_fd as int] is Closed {
                Err(ERRNO_BADF)
            } else {
                Ok(())
            },
{
}

/// Renumbering that succeeds moves what `from_fd` holds to `to_fd` and leaves
/// `from_fd` closed, unless the two are the same. Every other slot that holds
/// streams keeps them, and every other slot is closed. The table has just the
/// slots that it had, or those up to `to_fd`.
pub proof fn law_renumber_effects<B: Bindings>(from_fd: Fd, to_fd: Fd)
    ensures
        forall|d: &mut Descriptors<B>| #[trigger]
            call_ensures(Descriptors::<B>::renumber, (d, from_fd, to_fd), Ok(())) && d.wf() ==> {
                let len = d@.table.len();
                &&& final(d).wf()
                &&& final(d)@.table.len() == if to_fd < len {
                    len as int
                } else {
                    to_fd + 1
                }
                &&& final(d)@.table[to_fd as int] == d@.table[from_fd as int]
                &&& from_fd != to_fd ==> final(d)@.table[from_fd as int] is Closed
                    && final(d)@.closed == Some(from_fd)
                &&& from_fd == to_fd ==> final(d)@.closed == d@.closed && final(d)@.table == d@.table
                &&& forall|i: int|
                    0 <= i < len && i != from_fd && i != to_fd && d@.table[i]
                        is Streams ==> #[trigger] final(d)@.table[i] == d@.table[i]
                &&& forall|i: int|
                    0 <= i < final(d)@.table.len() && i != to_fd && (i >= len || d@.table[i]
                        is Closed) ==> #[trigger] final(d)@.table[i] is Closed
                &&& final(d)@.preopens == d@.preopens
            },
{
}

/// Renumbering that fails keeps every slot. Where `from_fd` is a slot, closed
/// ones are added up to `to_fd`, or up to the capacity.
pub proof fn law_failed_renumber_effects<B: Bindings>(from_fd: Fd, to_fd: Fd, errno: Errno)
    ensures
        forall|d: &mut Descriptors<B>| #[trigger]
            call_ensures(Descriptors::<B>::renumber, (d, from_fd, to_fd), Err(errno)) && d.wf() ==> {
                let len = d@.table.len();
                &&& final(d).wf()
                &&& final(d)@.table.len() == if from_fd >= len || to_fd < len {
                    len as int
                } else if to_fd < MAX_DESCRIPTORS {
                    to_fd + 1
                } else {
                    MAX_DESCRIPTORS as int
                }
                &&& forall|i: int|
                    0 <= i < len ==> #[trigger] final(d)@.table[i] == d@.table[i]
                &&& forall|i: int|
                    len <= i < final(d)@.table.len() ==> #[trigger] final(d)@.table[i] is Closed
                &&& final(d)@.preopens == d@.preopens
            },
{
}

/// Renumbering from one slot to another leaves the closed slots on the free-list
/// in their order, the new ones before the old ones and `from_fd` before all,
/// and takes `to_fd` off it.
pub proof fn law_renumber_reorders_free_list<B: Bindings>(from_fd: Fd, to_fd: Fd, list: Seq<Fd>)
    ensures
        forall|d: &mut Descriptors<B>|
            #![trigger call_ensures(Descriptors::<B>::renumber, (d, from_fd, to_fd), Ok(()))]
            call_ensures(Descriptors::<B>::renumber, (d, from_fd, to_fd), Ok(())) && d.wf()
                && d@.has_free_list(list) && from_fd != to_fd ==> {
                let added = if to_fd < d@.table.len() {
                    Seq::<Fd>::empty()
                } else {
                    Seq::new(
                        (to_fd + 1 - d@.table.len()) as nat,
                        |i: int| (to_fd - i) as u32,
                    )
                };
                final(d)@.has_free_list(seq![from_fd] + (added + list).remove_value(to_fd))
            },
{
    assert forall|d: &mut Descriptors<B>|
        #![trigger call_ensures(Descriptors::<B>::renumber, (d, from_fd, to_fd), Ok(()))]
        call_ensures(Descriptors::<B>::renumber, (d, from_fd, to_fd), Ok(())) && d.wf()
            && d@.has_free_list(list) && from_fd != to_fd implies {
        let added = if to_fd < d@.table.len() {
            Seq::<Fd>::empty()
        } else {
            Seq::new((to_fd + 1 - d@.table.len()) as nat, |i: int| (to_fd - i) as u32)
        };
        final(d)@.has_free_list(seq![from_fd] + (added + list).remove_value(to_fd))
    } by {
        let added = if to_fd < d@.table.len() {
            Seq::<Fd>::empty()
        } else {
            Seq::new((to_fd + 1 - d@.table.len()) as nat, |i: int| (to_fd - i) as u32)
        };
        assert(added =~= crate::free_list::new_slots(
            d@.table.len(),
            d@.renumbered_len(to_fd),
        ));
    }
}

/// The streams of every slot that holds some are found, and nothing else,
/// whatever the error is that is asked for.
pub proof fn law_streams_are_found<B: Bindings>(
    d: &Descriptors<B>,
    fd: Fd,
    error: Errno,
    r: Result<&Streams<B>, Errno>,
)
    requires
        call_ensures(Descriptors::<B>::get_stream_with_error, (d, fd, error), r) || call_ensures(
            Descriptors::<B>::get_seekable_stream,
            (d, fd),
            r,
        ),
    ensures
        fd < d@.table.len() && d@.table[fd as int] is Streams ==> r == Ok::<_, Errno>(
            &d@.table[fd as int]->Streams_0,
        ),
        !(fd < d@.table.len() && d@.table[fd as int] is Streams) ==> r == Err::<&Streams<B>, _>(
            ERRNO_BADF,
        ),
{
}

/// Every file that is no directory is found, whatever its position and modes
/// are. The error that is asked for is the answer for stdio and sockets alone.
pub proof fn law_files_are_found<B: Bindings>(
    d: &Descriptors<B>,
    fd: Fd,
    error: Errno,
    r: Result<&File<B>, Errno>,
)
    requires
        call_ensures(Descriptors::<B>::get_file_with_error, (d, fd, error), r) || (call_ensures(
            Descriptors::<B>::get_file,
            (d, fd),
            r,
        ) && error == ERRNO_INVAL) || (call_ensures(
            Descriptors::<B>::get_seekable_file,
            (d, fd),
            r,
        ) && error == ERRNO_SPIPE),
    ensures
        fd >= d@.table.len() ==> r == Err::<&File<B>, _>(ERRNO_BADF),
        fd < d@.table.len() ==> match d@.table[fd as int] {
            Descriptor::Closed(_) => r == Err::<&File<B>, _>(ERRNO_BADF),
            Descriptor::Streams(s) => match s.type_ {
                StreamType::File(file) => if file.descriptor_type == DescriptorType::Directory {
                    r == Err::<&File<B>, _>(ERRNO_BADF)
                } else {
                    r == Ok::<_, Errno>(&file)
                },
                StreamType::Stdio(_) | StreamType::Socket(_) => r == Err::<&File<B>, _>(error),
            },
        },
{
}

/// Every directory is found. Another file is no directory, and whatever is no
/// file is no descriptor that will do.
pub proof fn law_directories_are_found<B: Bindings>(
    d: &Descriptors<B>,
    fd: Fd,
    r: Result<&File<B>, Errno>,
)
    requires
        call_ensures(Descriptors::<B>::get_dir, (d, fd), r),
    ensures
        fd >= d@.table.len() ==> r == Err::<&File<B>, _>(ERRNO_BADF),
        fd < d@.table.len() ==> match d@.table[fd as int] {
            Descriptor::Closed(_) => r == Err::<&File<B>, _>(ERRNO_BADF),
            Descriptor::Streams(s) => match s.type_ {
                StreamType::File(file) => if file.descriptor_type == DescriptorType::Directory {
                    r == Ok::<_, Errno>(&file)
                } else {
                    r == Err::<&File<B>, _>(ERRNO_NOTDIR)
                },
                StreamType::Stdio(_) | StreamType::Socket(_) => r == Err::<&File<B>, _>(ERRNO_BADF),
            },
        },
{
}

/// Every socket is found. Other streams are an invalid argument.
pub proof fn law_sockets_are_found<B: Bindings>(
    d: &Descriptors<B>,
    fd: Fd,
    r: Result<&B::TcpSocket, Errno>,
)
    requires
        call_ensures(Descriptors::<B>::get_socket, (d, fd), r),
    ensures
        fd >= d@.table.len() ==> r == Err::<&B::TcpSocket, _>(ERRNO_BADF),
        fd < d@.table.len() ==> match d@.table[fd as int] {
            Descriptor::Closed(_) => r == Err::<&B::TcpSocket, _>(ERRNO_BADF),
            Descriptor::Streams(s) => match s.type_ {
                StreamType::Socket(socket) => r == Ok::<_, Errno>(&socket),
                StreamType::Stdio(_) | StreamType::File(_) => r == Err::<&B::TcpSocket, _>(
                    ERRNO_INVAL,
                ),
            },
        },
{
}

/// Where no stream has to be opened, or the host accepts the file, its input
/// stream can be asked for.
pub proof fn law_read_stream_accepts<B: Bindings, R>(fd: Fd, read_via_stream: R) where
    R: FnOnce(&B::Descriptor, u64) -> Result<B::InputStream, Errno>,

    ensures
        forall|s: &mut Streams<B>|
            (s.input is None && (s.type_ matches StreamType::File(file) && file.descriptor_type
                != DescriptorType::Directory) ==> call_requires(
                read_via_stream,
                (&s.type_->File_0.fd, s.type_->File_0.position),
            )) ==> #[trigger] call_requires(
                Streams::<B>::get_read_stream::<R>,
                (s, read_via_stream),
            ),
        forall|d: &mut Descriptors<B>|
            d.wf() && (forall|file: &B::Descriptor, position: u64| #[trigger]
                call_requires(read_via_stream, (file, position))) ==> #[trigger] call_requires(
                Descriptors::<B>::get_read_stream::<R>,
                (d, fd, read_via_stream),
            ),
{
}

/// An input stream that is there is given back. A file without one that is no
/// directory is opened by the host, at every position: its answer is handed on,
/// and a stream that it opens is kept. Everything else is a bad descriptor.
pub proof fn law_read_stream_answers<B: Bindings, R>(
    read_via_stream: R,
    r: Result<&B::InputStream, Errno>,
) where R: FnOnce(&B::Descriptor, u64) -> Result<B::InputStream, Errno>
    ensures
        forall|s: &mut Streams<B>| #[trigger]
            call_ensures(Streams::<B>::get_read_stream::<R>, (s, read_via_stream), r) ==> {
                &&& match s.input {
                    Some(stream) => {
                        &&& r == Ok::<_, Errno>(&stream)
                        &&& final(s).input == s.input
                    },
                    None => match s.type_ {
                        StreamType::File(file) => if file.descriptor_type
                            == DescriptorType::Directory {
                            &&& r == Err::<&B::InputStream, _>(ERRNO_BADF)
                            &&& final(s).input is None
                        } else {
                            exists|answer: Result<B::InputStream, Errno>| #[trigger]
                                call_ensures(
                                    read_via_stream,
                                    (&file.fd, file.position),
                                    answer,
                                ) && match answer {
                                    Ok(stream) => r == Ok::<_, Errno>(&stream) && final(s).input
                                        == Some(stream),
                                    Err(e) => r == Err::<&B::InputStream, _>(e) && final(s).input
                                        is None,
                                }
                        },
                        StreamType::Stdio(_) | StreamType::Socket(_) => {
                            &&& r == Err::<&B::InputStream, _>(ERRNO_BADF)
                            &&& final(s).input is None
                        },
                    },
                }
                &&& final(s).output == s.output
                &&& final(s).type_ == s.type_
            },
{
}

/// Where no stream has to be opened, or the host accepts the file, its output
/// stream can be asked for.
pub proof fn law_write_stream_accepts<B: Bindings, A, W>(
    fd: Fd,
    append_via_stream: A,
    write_via_stream: W,
) where
    A: FnOnce(&B::Descriptor) -> Result<B::OutputStream, Errno>,
    W: FnOnce(&B::Descriptor, u64) -> Result<B::OutputStream, Errno>,

    ensures
        forall|s: &mut Streams<B>|
            (s.output is None && (s.type_ matches StreamType::File(file) && file.descriptor_type
                != DescriptorType::Directory) ==> if s.type_->File_0.append {
                call_requires(append_via_stream, (&s.type_->File_0.fd,))
            } else {
                call_requires(
                    write_via_stream,
                    (&s.type_->File_0.fd, s.type_->File_0.position),
                )
            }) ==> #[trigger] call_requires(
                Streams::<B>::get_write_stream::<A, W>,
                (s, append_via_stream, write_via_stream),
            ),
        forall|d: &mut Descriptors<B>|
            d.wf() && (forall|file: &B::Descriptor| #[trigger]
                call_requires(append_via_stream, (file,))) && (forall|
                file: &B::Descriptor,
                position: u64,
            | #[trigger]
                call_requires(write_via_stream, (file, position))) ==> #[trigger] call_requires(
                Descriptors::<B>::get_write_stream::<A, W>,
                (d, fd, append_via_stream, write_via_stream),
            ),
{
}

/// An output stream that is there is given back. A file without one that is no
/// directory is opened by the host, at its end where it is for appending and at
/// its position otherwise: the answer is handed on, and a stream that it opens
/// is kept. Everything else is a bad descriptor.
pub proof fn law_write_stream_answers<B: Bindings, A, W>(
    append_via_stream: A,
    write_via_stream: W,
    r: Result<&B::OutputStream, Errno>,
) where
    A: FnOnce(&B::Descriptor) -> Result<B::OutputStream, Errno>,
    W: FnOnce(&B::Descriptor, u64) -> Result<B::OutputStream, Errno>,

    ensures
        forall|s: &mut Streams<B>| #[trigger]
            call_ensures(
                Streams::<B>::get_write_stream::<A, W>,
                (s, append_via_stream, write_via_stream),
                r,
            ) ==> {
                &&& match s.output {
                    Some(stream) => {
                        &&& r == Ok::<_, Errno>(&stream)
                        &&& final(s).output == s.output
                    },
                    None => match s.type_ {
                        StreamType::File(file) => if file.descriptor_type
                            == DescriptorType::Directory {
                            &&& r == Err::<&B::OutputStream, _>(ERRNO_BADF)
                            &&& final(s).output is None
                        } else {
                            exists|answer: Result<B::OutputStream, Errno>|
                                #![trigger call_ensures(append_via_stream, (&file.fd,), answer)]
                                #![trigger call_ensures(write_via_stream, (&file.fd, file.position), answer)]
                                (if file.append {
                                    call_ensures(append_via_stream, (&file.fd,), answer)
                                } else {
                                    call_ensures(
                                        write_via_stream,
                                        (&file.fd, file.position),
                                        answer,
                                    )
                                }) && match answer {
                                    Ok(stream) => r == Ok::<_, Errno>(&stream) && final(s).output
                                        == Some(stream),
                                    Err(e) => r == Err::<&B::OutputStream, _>(e)
                                        && final(s).output is None,
                                }
                        },
                        StreamType::Stdio(_) | StreamType::Socket(_) => {
                            &&& r == Err::<&B::OutputStream, _>(ERRNO_BADF)
                            &&& final(s).output is None
                        },
                    },
                }
                &&& final(s).input == s.input
                &&& final(s).type_ == s.type_
            },
{
}

/// Through a descriptor the input stream is that of its slot: the one that is
/// there, or what the host answers for the file, at every position. Only the
/// input stream of that slot can change, and it does where the host opens one.
pub proof fn law_descriptor_read_stream_answers<B: Bindings, R>(
    fd: Fd,
    read_via_stream: R,
    r: Result<&B::InputStream, Errno>,
) where R: FnOnce(&B::Descriptor, u64) -> Result<B::InputStream, Errno>
    ensures
        forall|d: &mut Descriptors<B>| #[trigger]
            call_ensures(
                Descriptors::<B>::get_read_stream::<R>,
                (d, fd, read_via_stream),
                r,
            ) ==> {
                &&& final(d)@.table.len() == d@.table.len()
                &&& forall|i: int|
                    0 <= i < d@.table.len() && i != fd ==> #[trigger] final(d)@.table[i]
                        == d@.table[i]
                &&& final(d)@.closed == d@.closed
                &&& final(d)@.preopens == d@.preopens
                &&& d.wf() ==> final(d).wf()
                &&& if fd < d@.table.len() && d@.table[fd as int] is Streams {
                    let s = d@.table[fd as int]->Streams_0;
                    let after = final(d)@.table[fd as int]->Streams_0;
                    &&& final(d)@.table[fd as int] is Streams
                    &&& after.output == s.output
                    &&& after.type_ == s.type_
                    &&& match s.input {
                        Some(stream) => r == Ok::<_, Errno>(&stream) && after.input == s.input,
                        None => match s.type_ {
                            StreamType::File(file) => if file.descriptor_type
                                == DescriptorType::Directory {
                                &&& r == Err::<&B::InputStream, _>(ERRNO_BADF)
                                &&& after.input is None
                            } else {
                                exists|answer: Result<B::InputStream, Errno>| #[trigger]
                                    call_ensures(
                                        read_via_stream,
                                        (&file.fd, file.position),
                                        answer,
                                    ) && match answer {
                                        Ok(stream) => r == Ok::<_, Errno>(&stream) && after.input
                                            == Some(stream),
                                        Err(e) => r == Err::<&B::InputStream, _>(e) && after.input
                                            is None,
                                    }
                            },
                            StreamType::Stdio(_) | StreamType::Socket(_) => {
                                &&& r == Err::<&B::InputStream, _>(ERRNO_BADF)
                                &&& after.input is None
                            },
                        },
                    }
                } else {
                    &&& r == Err::<&B::InputStream, _>(ERRNO_BADF)
                    &&& final(d)@.table == d@.table
                }
            },
{
}

/// Through a descriptor the output stream is that of its slot: the one that is
/// there, or what the host answers for the file, at its end or at its position.
/// Only the output stream of that slot can change, and it does where the host
/// opens one.
pub proof fn law_descriptor_write_stream_answers<B: Bindings, A, W>(
    fd: Fd,
    append_via_stream: A,
    write_via_stream: W,
    r: Result<&B::OutputStream, Errno>,
) where
    A: FnOnce(&B::Descriptor) -> Result<B::OutputStream, Errno>,
    W: FnOnce(&B::Descriptor, u64) -> Result<B::OutputStream, Errno>,

    ensures
        forall|d: &mut Descriptors<B>| #[trigger]
            call_ensures(
                Descriptors::<B>::get_write_stream::<A, W>,
                (d, fd, append_via_stream, write_via_stream),
                r,
            ) ==> {
                &&& final(d)@.table.len() == d@.table.len()
                &&& forall|i: int|
                    0 <= i < d@.table.len() && i != fd ==> #[trigger] final(d)@.table[i]
                        == d@.table[i]
                &&& final(d)@.closed == d@.closed
                &&& final(d)@.preopens == d@.preopens
                &&& d.wf() ==> final(d).wf()
                &&& if fd < d@.table.len() && d@.table[fd as int] is Streams {
                    let s = d@.table[fd as int]->Streams_0;
                    let after = final(d)@.table[fd as int]->Streams_0;
                    &&& final(d)@.table[fd as int] is Streams
                    &&& after.input == s.input
                    &&& after.type_ == s.type_
                    &&& match s.output {
                        Some(stream) => r == Ok::<_, Errno>(&stream) && after.output == s.output,
                        None => match s.type_ {
                            StreamType::File(file) => if file.descriptor_type
                                == DescriptorType::Directory {
                                &&& r == Err::<&B::OutputStream, _>(ERRNO_BADF)
                                &&& after.output is None
                            } else {
                                exists|answer: Result<B::OutputStream, Errno>|
                                    #![trigger call_ensures(append_via_stream, (&file.fd,), answer)]
                                    #![trigger call_ensures(write_via_stream, (&file.fd, file.position), answer)]
                                    (if file.append {
                                        call_ensures(append_via_stream, (&file.fd,), answer)
                                    } else {
                                        call_ensures(
                                            write_via_stream,
                                            (&file.fd, file.position),
                                            answer,
                                        )
                                    }) && match answer {
                                        Ok(stream) => r == Ok::<_, Errno>(&stream) && after.output
                                            == Some(stream),
                                        Err(e) => r == Err::<&B::OutputStream, _>(e)
                                            && after.output is None,
                                    }
                            },
                            StreamType::Stdio(_) | StreamType::Socket(_) => {
                                &&& r == Err::<&B::OutputStream, _>(ERRNO_BADF)
                                &&& after.output is None
                            },
                        },
                    }
                } else {
                    &&& r == Err::<&B::OutputStream, _>(ERRNO_BADF)
                    &&& final(d)@.table == d@.table
                }
            },
{
}

} // verus!
