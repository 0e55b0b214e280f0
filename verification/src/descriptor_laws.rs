//! What holds across several operations on the table of descriptors.

use vstd::prelude::*;

use crate::bindings::{Bindings, DescriptorType, File};
use crate::descriptors::{Descriptor, Preopen, Stdio, Streams, MAX_DESCRIPTORS};
use crate::model::DescriptorsView;
use crate::preview1::{Errno, Fd, ERRNO_BADF, ERRNO_NOMEM};

verus! {

/// Of the stdio streams that a program starts with, standard input can be read,
/// and the other two cannot.
pub proof fn law_stdio_reads<B: Bindings, R>(
    stdio: Stdio<B>,
    entries: Seq<Preopen<B>>,
    types: Seq<DescriptorType>,
    fd: Fd,
    read_via_stream: R,
    post: DescriptorsView<B>,
    r: Result<B::InputStream, Errno>,
) where R: FnOnce(&B::Descriptor, u64) -> Result<B::InputStream, Errno>
    requires
        fd < 3,
        DescriptorsView::initial(stdio, entries, types).reads(fd, read_via_stream, post, r),
    ensures
        r == if fd == 0 {
            Ok(stdio.stdin)
        } else {
            Err(ERRNO_BADF)
        },
{
}

/// Of the stdio streams that a program starts with, standard output and
/// standard error can be written, and standard input cannot.
pub proof fn law_stdio_writes<B: Bindings, A, W>(
    stdio: Stdio<B>,
    entries: Seq<Preopen<B>>,
    types: Seq<DescriptorType>,
    fd: Fd,
    append_via_stream: A,
    write_via_stream: W,
    post: DescriptorsView<B>,
    r: Result<B::OutputStream, Errno>,
) where
    A: FnOnce(&B::Descriptor) -> Result<B::OutputStream, Errno>,
    W: FnOnce(&B::Descriptor, u64) -> Result<B::OutputStream, Errno>,

    requires
        fd < 3,
        DescriptorsView::initial(stdio, entries, types).writes(
            fd,
            append_via_stream,
            write_via_stream,
            post,
            r,
        ),
    ensures
        r == if fd == 0 {
            Err(ERRNO_BADF)
        } else if fd == 1 {
            Ok(stdio.stdout)
        } else {
            Ok(stdio.stderr)
        },
{
}

/// A program starts with the preopened directories behind stdio: the descriptor
/// of each holds its handle, and leads to its path.
pub proof fn law_preopens_follow_stdio<B: Bindings>(
    stdio: Stdio<B>,
    entries: Seq<Preopen<B>>,
    types: Seq<DescriptorType>,
    i: int,
)
    requires
        0 <= i < entries.len(),
        entries.len() + 3 <= MAX_DESCRIPTORS,
        entries[i].descriptor is Some,
    ensures
        ({
            let v = DescriptorsView::initial(stdio, entries, types);
            let fd = (i + 3) as u32;
            &&& v.streams(fd) == Ok::<_, Errno>(
                DescriptorsView::<B>::preopened(entries[i].descriptor->0, types[i]),
            )
            &&& v.preopen(fd) matches Some(preopen) && preopen.path == entries[i].path
        }),
{
}

/// What is opened is found under the descriptor that is handed out, which was
/// not open before; every other slot keeps what it held.
pub proof fn law_open_then_get<B: Bindings>(
    v: DescriptorsView<B>,
    d: Descriptor<B>,
    post: DescriptorsView<B>,
    fd: Fd,
)
    requires
        v.head_is_closed(),
        v.opens(d, post, Ok(fd)),
    ensures
        !v.is_open(fd),
        post.lookup(fd) == Ok::<_, Errno>(d),
        forall|other: Fd|
            other != fd ==> #[trigger] post.lookup(other) == v.lookup(other),
        post.preopens == v.preopens,
{
}

/// A descriptor that was closed is closed: it holds no streams, and cannot be
/// closed again. Every other slot keeps what it held.
pub proof fn law_closed_stays_closed<B: Bindings>(v: DescriptorsView<B>, fd: Fd)
    ensures
        !v.after_close(fd).is_open(fd),
        v.after_close(fd).streams(fd) == Err::<Streams<B>, _>(ERRNO_BADF),
        v.after_close(fd).after_close(fd) == v.after_close(fd),
        forall|other: Fd|
            other != fd ==> #[trigger] v.after_close(fd).lookup(other) == v.lookup(other),
        v.after_close(fd).preopens == v.preopens,
{
}

/// The descriptor that was closed last is the next one to be handed out, and
/// that leaves the table as if it had been replaced in place.
pub proof fn law_close_then_open<B: Bindings>(
    v: DescriptorsView<B>,
    fd: Fd,
    d: Descriptor<B>,
    post: DescriptorsView<B>,
    r: Result<Fd, Errno>,
)
    requires
        v.is_open(fd),
        v.after_close(fd).opens(d, post, r),
    ensures
        v.after_close(fd).head_is_closed(),
        r == Ok::<_, Errno>(fd),
        post == v.with(fd, d),
{
    assert(post.table =~= v.with(fd, d).table);
}

/// Closing the descriptor that was just opened undoes the opening. Where the
/// table had to grow for it, the new slot stays, closed.
pub proof fn law_open_then_close<B: Bindings>(
    v: DescriptorsView<B>,
    d: Descriptor<B>,
    post: DescriptorsView<B>,
    fd: Fd,
)
    requires
        v.head_is_closed(),
        d is Streams,
        v.opens(d, post, Ok(fd)),
    ensures
        v.closed is Some ==> post.after_close(fd) == v,
        v.closed is None ==> post.after_close(fd) == v.grown(v.table.len() + 1),
{
    if v.closed is Some {
        assert(post.after_close(fd).table =~= v.table);
    } else {
        assert(post.after_close(fd).table =~= v.grown(v.table.len() + 1).table);
    }
}

/// Renumbering that succeeds moves what `from_fd` held to `to_fd` and closes
/// `from_fd`. Every other open slot keeps what it held, every other closed slot
/// stays closed, and the slots that the table has grown by are closed. Where the
/// two are the same, nothing changes.
pub proof fn law_renumber_moves<B: Bindings>(
    v: DescriptorsView<B>,
    from_fd: Fd,
    to_fd: Fd,
    post: DescriptorsView<B>,
)
    requires
        v.table.len() <= MAX_DESCRIPTORS,
        v.renumbers(from_fd, to_fd, post, Ok(())),
    ensures
        v.is_open(from_fd),
        post.lookup(to_fd) == v.lookup(from_fd),
        from_fd != to_fd ==> post.is_closed(from_fd),
        from_fd == to_fd ==> post == v,
        post.table.len() == v.renumbered_len(to_fd),
        forall|fd: Fd|
            v.is_open(fd) && fd != from_fd && fd != to_fd ==> #[trigger] post.lookup(fd)
                == v.lookup(fd),
        forall|fd: Fd| v.is_closed(fd) && fd != to_fd ==> #[trigger] post.is_closed(fd),
        forall|fd: Fd|
            !v.has(fd) && post.has(fd) && fd != to_fd ==> #[trigger] post.is_closed(fd),
        post.preopens == v.preopens,
{
}

/// Renumbering that fails changes no slot; it may add closed ones. It fails
/// with `ERRNO_BADF` where `from_fd` is not open, and with `ERRNO_NOMEM` where
/// there is such a slot but the table cannot hold `to_fd`.
pub proof fn law_failed_renumber_keeps_slots<B: Bindings>(
    v: DescriptorsView<B>,
    from_fd: Fd,
    to_fd: Fd,
    post: DescriptorsView<B>,
    errno: Errno,
)
    requires
        v.table.len() <= MAX_DESCRIPTORS,
        v.renumbers(from_fd, to_fd, post, Err(errno)),
    ensures
        errno == ERRNO_NOMEM <==> v.has(from_fd) && to_fd >= MAX_DESCRIPTORS,
        errno == ERRNO_BADF <==> !v.has(from_fd) || (v.is_closed(from_fd) && to_fd
            < MAX_DESCRIPTORS),
        forall|fd: Fd| v.has(fd) ==> #[trigger] post.lookup(fd) == v.lookup(fd),
        forall|fd: Fd| !v.has(fd) && post.has(fd) ==> #[trigger] post.is_closed(fd),
        post.preopens == v.preopens,
{
}

/// A stream that was opened for reading is given back by every later request,
/// whatever the host would answer then.
pub proof fn law_read_stream_is_kept<B: Bindings, R, S>(
    v: DescriptorsView<B>,
    fd: Fd,
    first: R,
    stream: B::InputStream,
    mid: DescriptorsView<B>,
    second: S,
    post: DescriptorsView<B>,
    r: Result<B::InputStream, Errno>,
) where
    R: FnOnce(&B::Descriptor, u64) -> Result<B::InputStream, Errno>,
    S: FnOnce(&B::Descriptor, u64) -> Result<B::InputStream, Errno>,

    requires
        v.reads(fd, first, mid, Ok(stream)),
        mid.reads(fd, second, post, r),
    ensures
        r == Ok::<_, Errno>(stream),
        post == mid,
{
    assert(post.table =~= mid.table);
}

/// A stream that was opened for writing is given back by every later request,
/// whatever the host would answer then.
pub proof fn law_write_stream_is_kept<B: Bindings, A, W, C, X>(
    v: DescriptorsView<B>,
    fd: Fd,
    append: A,
    write: W,
    stream: B::OutputStream,
    mid: DescriptorsView<B>,
    append_again: C,
    write_again: X,
    post: DescriptorsView<B>,
    r: Result<B::OutputStream, Errno>,
) where
    A: FnOnce(&B::Descriptor) -> Result<B::OutputStream, Errno>,
    W: FnOnce(&B::Descriptor, u64) -> Result<B::OutputStream, Errno>,
    C: FnOnce(&B::Descriptor) -> Result<B::OutputStream, Errno>,
    X: FnOnce(&B::Descriptor, u64) -> Result<B::OutputStream, Errno>,

    requires
        v.writes(fd, append, write, mid, Ok(stream)),
        mid.writes(fd, append_again, write_again, post, r),
    ensures
        r == Ok::<_, Errno>(stream),
        post == mid,
{
    assert(post.table =~= mid.table);
}

/// Asking for the input stream changes at most that stream: the descriptor
/// stays as it is otherwise, and every other slot keeps what it held.
pub proof fn law_reading_keeps_the_rest<B: Bindings, R>(
    v: DescriptorsView<B>,
    fd: Fd,
    read_via_stream: R,
    post: DescriptorsView<B>,
    r: Result<B::InputStream, Errno>,
) where R: FnOnce(&B::Descriptor, u64) -> Result<B::InputStream, Errno>
    requires
        v.reads(fd, read_via_stream, post, r),
    ensures
        forall|other: Fd| other != fd ==> #[trigger] post.lookup(other) == v.lookup(other),
        forall|other: Fd| #[trigger] post.is_open(other) == v.is_open(other),
        v.streams(fd) matches Ok(before) ==> (post.streams(fd) matches Ok(after) && after.type_
            == before.type_ && after.output == before.output),
        r is Err ==> post == v,
        post.closed == v.closed,
        post.preopens == v.preopens,
{
    if r is Err {
        assert(post.table =~= v.table);
    }
}

/// Asking for the output stream changes at most that stream: the descriptor
/// stays as it is otherwise, and every other slot keeps what it held.
pub proof fn law_writing_keeps_the_rest<B: Bindings, A, W>(
    v: DescriptorsView<B>,
    fd: Fd,
    append_via_stream: A,
    write_via_stream: W,
    post: DescriptorsView<B>,
    r: Result<B::OutputStream, Errno>,
) where
    A: FnOnce(&B::Descriptor) -> Result<B::OutputStream, Errno>,
    W: FnOnce(&B::Descriptor, u64) -> Result<B::OutputStream, Errno>,

    requires
        v.writes(fd, append_via_stream, write_via_stream, post, r),
    ensures
        forall|other: Fd| other != fd ==> #[trigger] post.lookup(other) == v.lookup(other),
        forall|other: Fd| #[trigger] post.is_open(other) == v.is_open(other),
        v.streams(fd) matches Ok(before) ==> (post.streams(fd) matches Ok(after) && after.type_
            == before.type_ && after.input == before.input),
        r is Err ==> post == v,
        post.closed == v.closed,
        post.preopens == v.preopens,
{
    if r is Err {
        assert(post.table =~= v.table);
    }
}

/// A directory that holds no input stream cannot be read.
pub proof fn law_directories_are_not_read<B: Bindings, R>(
    v: DescriptorsView<B>,
    fd: Fd,
    read_via_stream: R,
    post: DescriptorsView<B>,
    r: Result<B::InputStream, Errno>,
) where R: FnOnce(&B::Descriptor, u64) -> Result<B::InputStream, Errno>
    requires
        v.dir(fd) is Ok,
        v.streams(fd)->Ok_0.input is None,
        v.reads(fd, read_via_stream, post, r),
    ensures
        r == Err::<B::InputStream, _>(ERRNO_BADF),
{
}

/// A directory that holds no output stream cannot be written.
pub proof fn law_directories_are_not_written<B: Bindings, A, W>(
    v: DescriptorsView<B>,
    fd: Fd,
    append_via_stream: A,
    write_via_stream: W,
    post: DescriptorsView<B>,
    r: Result<B::OutputStream, Errno>,
) where
    A: FnOnce(&B::Descriptor) -> Result<B::OutputStream, Errno>,
    W: FnOnce(&B::Descriptor, u64) -> Result<B::OutputStream, Errno>,

    requires
        v.dir(fd) is Ok,
        v.streams(fd)->Ok_0.output is None,
        v.writes(fd, append_via_stream, write_via_stream, post, r),
    ensures
        r == Err::<B::OutputStream, _>(ERRNO_BADF),
{
}

/// What one open descriptor holds is a file, a directory or a socket, or none
/// of them, and never two: at most one of the lookups succeeds.
pub proof fn law_lookups_exclude_each_other<B: Bindings>(
    v: DescriptorsView<B>,
    fd: Fd,
    error: Errno,
)
    ensures
        v.file(fd, error) is Ok ==> v.dir(fd) is Err && v.socket(fd) is Err,
        v.dir(fd) is Ok ==> v.file(fd, error) is Err && v.socket(fd) is Err,
        v.socket(fd) is Ok ==> v.file(fd, error) is Err && v.dir(fd) is Err,
        !v.is_open(fd) ==> v.file(fd, error) == Err::<File<B>, _>(ERRNO_BADF) && v.dir(fd) == Err::<
            File<B>,
            _,
        >(ERRNO_BADF) && v.socket(fd) == Err::<B::TcpSocket, _>(ERRNO_BADF) && v.streams(fd)
            == Err::<Streams<B>, _>(ERRNO_BADF),
{
}

} // verus!
