//! The table of descriptors as a mathematical value, and what each operation
//! does to it.

use vstd::prelude::*;

use crate::bindings::{Bindings, BlockingMode, DescriptorType, File};
use crate::descriptors::{
    Descriptor, IsATTY, Preopen, Stdio, StreamType, Streams, MAX_DESCRIPTORS,
};
use crate::free_list::new_slots;
use crate::preview1::{Errno, Fd, ERRNO_BADF, ERRNO_INVAL, ERRNO_NOMEM, ERRNO_NOTDIR};

verus! {

/// The state of a table of descriptors.
pub struct DescriptorsView<B: Bindings> {
    /// The slots; the descriptor `fd` is the slot at index `fd`.
    pub table: Seq<Descriptor<B>>,

    /// The descriptor that was closed last, if it has not been reused.
    pub closed: Option<Fd>,

    /// The preopened directories, in the order of their descriptors.
    pub preopens: Seq<Preopen<B>>,
}

impl<B: Bindings> DescriptorsView<B> {
    /// The table that a program starts with: stdio at 0, 1 and 2, then the
    /// preopened directories, whose handles have moved into the table.
    pub open spec fn initial(
        stdio: Stdio<B>,
        entries: Seq<Preopen<B>>,
        types: Seq<DescriptorType>,
    ) -> Self {
        let stdin = Streams {
            input: Some(stdio.stdin),
            output: None,
            type_: StreamType::Stdio(IsATTY::spec_of_terminal(stdio.stdin_is_terminal)),
        };
        let stdout = Streams {
            input: None,
            output: Some(stdio.stdout),
            type_: StreamType::Stdio(IsATTY::spec_of_terminal(stdio.stdout_is_terminal)),
        };
        let stderr = Streams {
            input: None,
            output: Some(stdio.stderr),
            type_: StreamType::Stdio(IsATTY::spec_of_terminal(stdio.stderr_is_terminal)),
        };
        let dirs = Seq::new(
            entries.len(),
            |i: int| Descriptor::Streams(Self::preopened(entries[i].descriptor->0, types[i])),
        );
        DescriptorsView {
            table: seq![
                Descriptor::Streams(stdin),
                Descriptor::Streams(stdout),
                Descriptor::Streams(stderr),
            ] + dirs,
            closed: None,
            preopens: Seq::new(
                entries.len(),
                |i: int| Preopen { descriptor: None, path: entries[i].path },
            ),
        }
    }

    /// What the table holds for a preopened file: no stream yet, at its start.
    pub open spec fn preopened(fd: B::Descriptor, descriptor_type: DescriptorType) -> Streams<B> {
        Streams {
            input: None,
            output: None,
            type_: StreamType::File(
                File {
                    fd,
                    descriptor_type,
                    position: 0,
                    append: false,
                    blocking_mode: BlockingMode::Blocking,
                },
            ),
        }
    }

    /// `fd` is a slot of the table.
    pub open spec fn has(self, fd: Fd) -> bool {
        fd < self.table.len()
    }

    /// `fd` is a slot of the table, and holds streams.
    pub open spec fn is_open(self, fd: Fd) -> bool {
        self.has(fd) && self.table[fd as int] is Streams
    }

    /// `fd` is a slot of the table, and is closed.
    pub open spec fn is_closed(self, fd: Fd) -> bool {
        self.has(fd) && self.table[fd as int] is Closed
    }

    /// What the slot `fd` holds.
    pub open spec fn lookup(self, fd: Fd) -> Result<Descriptor<B>, Errno> {
        if self.has(fd) {
            Ok(self.table[fd as int])
        } else {
            Err(ERRNO_BADF)
        }
    }

    /// The table with the slot `fd` replaced.
    pub open spec fn with(self, fd: Fd, d: Descriptor<B>) -> Self {
        DescriptorsView { table: self.table.update(fd as int, d), ..self }
    }

    /// Appending `d` gives `post` and `r`.
    pub open spec fn pushes(self, d: Descriptor<B>, post: Self, r: Result<Fd, Errno>) -> bool {
        if self.table.len() < MAX_DESCRIPTORS {
            &&& r == Ok::<_, Errno>(self.table.len() as u32)
            &&& post == DescriptorsView { table: self.table.push(d), ..self }
        } else {
            &&& r == Err::<Fd, _>(ERRNO_NOMEM)
            &&& post == self
        }
    }

    /// The free-list is empty, or its head is a closed descriptor.
    pub open spec fn head_is_closed(self) -> bool {
        self.closed matches Some(head) ==> self.is_closed(head)
    }

    /// Opening `d` gives `post` and `r`: `d` takes the slot at the head of the
    /// free-list, or, where that is empty, a new slot.
    pub open spec fn opens(self, d: Descriptor<B>, post: Self, r: Result<Fd, Errno>) -> bool {
        match self.closed {
            None => self.pushes(d, post, r),
            Some(head) => {
                &&& r == Ok::<_, Errno>(head)
                &&& post == DescriptorsView {
                    closed: self.table[head as int]->Closed_0,
                    ..self.with(head, d)
                }
            },
        }
    }

    /// The preopened directory behind `fd`: those follow the three stdio
    /// descriptors.
    pub open spec fn preopen(self, fd: Fd) -> Option<Preopen<B>> {
        if 3 <= fd < 3 + self.preopens.len() {
            Some(self.preopens[fd - 3])
        } else {
            None
        }
    }

    /// The state after `fd` is closed: the slot joins the free-list at its head.
    /// A descriptor that is not open cannot be closed.
    pub open spec fn after_close(self, fd: Fd) -> Self {
        if self.is_open(fd) {
            DescriptorsView {
                closed: Some(fd),
                ..self.with(fd, Descriptor::Closed(self.closed))
            }
        } else {
            self
        }
    }

    /// The state after closed slots are appended, one by one, until there are
    /// `len` of them: each new slot joins the free-list at its head.
    pub open spec fn grown(self, len: nat) -> Self {
        let old_len = self.table.len();
        if len <= old_len {
            self
        } else {
            DescriptorsView {
                table: Seq::new(
                    len,
                    |i: int|
                        if i < old_len {
                            self.table[i]
                        } else if i == old_len {
                            Descriptor::Closed(self.closed)
                        } else {
                            Descriptor::Closed(Some((i - 1) as u32))
                        },
                ),
                closed: Some((len - 1) as u32),
                ..self
            }
        }
    }

    /// The number of slots that renumbering to `to_fd` leaves: the table grows
    /// to hold `to_fd`, as far as its capacity allows.
    pub open spec fn renumbered_len(self, to_fd: Fd) -> nat {
        if to_fd < self.table.len() {
            self.table.len()
        } else if to_fd < MAX_DESCRIPTORS {
            to_fd as nat + 1
        } else {
            MAX_DESCRIPTORS as nat
        }
    }

    /// The state after the closed slot `fd` is taken off the free-list: what
    /// referred to `fd` refers to what `fd` refers to. A slot that is not closed
    /// is on no list.
    pub open spec fn unlinked(self, fd: Fd) -> Self {
        if self.is_closed(fd) {
            let next = self.table[fd as int]->Closed_0;
            DescriptorsView {
                table: Seq::new(
                    self.table.len(),
                    |i: int|
                        if self.table[i] == Descriptor::<B>::Closed(Some(fd)) {
                            Descriptor::Closed(next)
                        } else {
                            self.table[i]
                        },
                ),
                closed: if self.closed == Some(fd) {
                    next
                } else {
                    self.closed
                },
                ..self
            }
        } else {
            self
        }
    }

    /// Renumbering `from_fd` to `to_fd` gives `post` and `r`.
    ///
    /// The table first grows to hold `to_fd`, unless `from_fd` is no slot at
    /// all; it keeps its new size also where the rest fails. It fails where
    /// `to_fd` is beyond the capacity, and where `from_fd` is closed. A
    /// descriptor that is renumbered to itself stays as it is. Otherwise
    /// `from_fd` joins the free-list at its front, and `to_fd` leaves it, if it
    /// was on it.
    pub open spec fn renumbers(
        self,
        from_fd: Fd,
        to_fd: Fd,
        post: Self,
        r: Result<(), Errno>,
    ) -> bool {
        let len = self.renumbered_len(to_fd);
        let grown = self.grown(len);
        if !self.has(from_fd) {
            &&& r == Err::<(), _>(ERRNO_BADF)
            &&& post == self
        } else if to_fd >= MAX_DESCRIPTORS {
            &&& r == Err::<(), _>(ERRNO_NOMEM)
            &&& post == grown
        } else if self.is_closed(from_fd) {
            &&& r == Err::<(), _>(ERRNO_BADF)
            &&& post == grown
        } else if from_fd == to_fd {
            &&& r == Ok::<_, Errno>(())
            &&& post == self
        } else {
            &&& r == Ok::<_, Errno>(())
            &&& post == grown.after_close(from_fd).unlinked(to_fd).with(
                to_fd,
                self.table[from_fd as int],
            )
            &&& forall|list: Seq<Fd>| #[trigger]
                self.has_free_list(list) ==> post.has_free_list(
                    seq![from_fd] + (new_slots(self.table.len(), len) + list).remove_value(to_fd),
                )
        }
    }

    /// The streams that the descriptor `fd` holds.
    pub open spec fn streams(self, fd: Fd) -> Result<Streams<B>, Errno> {
        if self.is_open(fd) {
            Ok(self.table[fd as int]->Streams_0)
        } else {
            Err(ERRNO_BADF)
        }
    }

    /// The file that the descriptor `fd` holds, directories left out; `error` is
    /// the answer where it holds streams of another kind.
    pub open spec fn file(self, fd: Fd, error: Errno) -> Result<File<B>, Errno> {
        match self.streams(fd) {
            Ok(streams) => match streams.type_ {
                StreamType::File(file) => if file.descriptor_type is Directory {
                    Err(ERRNO_BADF)
                } else {
                    Ok(file)
                },
                _ => Err(error),
            },
            Err(e) => Err(e),
        }
    }

    /// The directory that the descriptor `fd` holds.
    pub open spec fn dir(self, fd: Fd) -> Result<File<B>, Errno> {
        match self.streams(fd) {
            Ok(streams) => match streams.type_ {
                StreamType::File(file) => if file.descriptor_type is Directory {
                    Ok(file)
                } else {
                    Err(ERRNO_NOTDIR)
                },
                _ => Err(ERRNO_BADF),
            },
            Err(e) => Err(e),
        }
    }

    /// The socket that the descriptor `fd` holds.
    pub open spec fn socket(self, fd: Fd) -> Result<B::TcpSocket, Errno> {
        match self.streams(fd) {
            Ok(streams) => match streams.type_ {
                StreamType::Socket(socket) => Ok(socket),
                _ => Err(ERRNO_INVAL),
            },
            Err(e) => Err(e),
        }
    }

    /// Whether asking for the input stream of `fd` can give `post` and `r`.
    pub open spec fn reads<R>(
        self,
        fd: Fd,
        read_via_stream: R,
        post: Self,
        r: Result<B::InputStream, Errno>,
    ) -> bool where R: FnOnce(&B::Descriptor, u64) -> Result<B::InputStream, Errno> {
        match self.streams(fd) {
            Ok(before) => exists|after: Streams<B>|
                {
                    &&& #[trigger] before.reads(read_via_stream, after, r)
                    &&& post == self.with(fd, Descriptor::Streams(after))
                },
            Err(e) => r == Err::<B::InputStream, _>(e) && post == self,
        }
    }

    /// Whether asking for the output stream of `fd` can give `post` and `r`.
    pub open spec fn writes<A, W>(
        self,
        fd: Fd,
        append_via_stream: A,
        write_via_stream: W,
        post: Self,
        r: Result<B::OutputStream, Errno>,
    ) -> bool where
        A: FnOnce(&B::Descriptor) -> Result<B::OutputStream, Errno>,
        W: FnOnce(&B::Descriptor, u64) -> Result<B::OutputStream, Errno>,
     {
        match self.streams(fd) {
            Ok(before) => exists|after: Streams<B>|
                {
                    &&& #[trigger] before.writes(append_via_stream, write_via_stream, after, r)
                    &&& post == self.with(fd, Descriptor::Streams(after))
                },
            Err(e) => r == Err::<B::OutputStream, _>(e) && post == self,
        }
    }
}

} // verus!
