//! The table that maps preview 1 file descriptors to streams, files and sockets.

use vstd::prelude::*;

use crate::bindings::{Bindings, BlockingMode, DescriptorType, File};
use crate::free_list::{
    law_changing_streams_keeps_linked, law_close_keeps_linked, law_growing_keeps_linked,
    law_head_is_closed, law_initial_free_list, law_open_keeps_linked, lemma_moved_is_renumbered,
};
use crate::model::DescriptorsView;
use crate::preview1::{
    Errno, Fd, Filetype, ERRNO_BADF, ERRNO_INVAL, ERRNO_NOMEM, ERRNO_NOTDIR, ERRNO_SPIPE,
    FILETYPE_CHARACTER_DEVICE, FILETYPE_UNKNOWN,
};

verus! {

/// The number of descriptors that the table can hold.
pub const MAX_DESCRIPTORS: usize = 128;

/// One slot of the table.
pub enum Descriptor<B: Bindings> {
    /// A closed descriptor, holding a reference to the previous closed
    /// descriptor to support reusing them.
    Closed(Option<Fd>),

    /// Input and/or output streams, along with stream metadata.
    Streams(Streams<B>),
}

/// Input and/or output streams, along with a stream type that identifies what
/// kind of stream they are.
pub struct Streams<B: Bindings> {
    /// The input stream, if present.
    pub input: Option<B::InputStream>,

    /// The output stream, if present.
    pub output: Option<B::OutputStream>,

    /// Information about the source of the stream.
    pub type_: StreamType<B>,
}

/// Where a stream comes from.
pub enum StreamType<B: Bindings> {
    /// Streams for implementing stdio.
    Stdio(IsATTY),

    /// Streaming data with a file.
    File(File<B>),

    /// Streaming data with a socket connection.
    Socket(B::TcpSocket),
}

/// Whether a stdio stream is a terminal.
#[derive(Clone, Copy, PartialEq, Eq, Debug, Structural)]
pub enum IsATTY {
    /// It is a terminal.
    Yes,
    /// It is not.
    No,
}

impl IsATTY {
    /// A stream is a terminal where the host has one for it.
    pub open spec fn spec_of_terminal(found: bool) -> IsATTY {
        if found {
            IsATTY::Yes
        } else {
            IsATTY::No
        }
    }

    /// A stream is a terminal where the host has one for it.
    fn of_terminal(found: bool) -> (r: IsATTY)
        ensures
            r == IsATTY::spec_of_terminal(found),
    {
        match found {
            true => IsATTY::Yes,
            false => IsATTY::No,
        }
    }

    /// The file type that preview 1 reports for the stream.
    pub fn filetype(&self) -> (r: Filetype)
        ensures
            *self is Yes ==> r == FILETYPE_CHARACTER_DEVICE,
            *self is No ==> r == FILETYPE_UNKNOWN,
    {
        match self {
            IsATTY::Yes => FILETYPE_CHARACTER_DEVICE,
            IsATTY::No => FILETYPE_UNKNOWN,
        }
    }
}

impl<B: Bindings> StreamType<B> {
    /// The file that a new stream can be opened on. There is none for
    /// directories, which preview 1 refuses to read or write, nor for anything
    /// that is no file.
    pub open spec fn openable(self) -> Option<File<B>> {
        match self {
            StreamType::File(file) => if file.descriptor_type is Directory {
                None
            } else {
                Some(file)
            },
            _ => None,
        }
    }
}

impl<B: Bindings> Streams<B> {
    /// Where a stream has to be opened for reading, `read_via_stream` accepts
    /// the file and its position.
    pub open spec fn can_read<R>(self, read_via_stream: R) -> bool where
        R: FnOnce(&B::Descriptor, u64) -> Result<B::InputStream, Errno>,
     {
        self.input is None ==> (self.type_.openable() matches Some(file) ==> call_requires(
            read_via_stream,
            (&file.fd, file.position),
        ))
    }

    /// Where a stream has to be opened for writing, the opener that fits the
    /// file accepts it.
    pub open spec fn can_write<A, W>(self, append_via_stream: A, write_via_stream: W) -> bool where
        A: FnOnce(&B::Descriptor) -> Result<B::OutputStream, Errno>,
        W: FnOnce(&B::Descriptor, u64) -> Result<B::OutputStream, Errno>,
     {
        self.output is None ==> (self.type_.openable() matches Some(file) ==> {
            if file.append {
                call_requires(append_via_stream, (&file.fd,))
            } else {
                call_requires(write_via_stream, (&file.fd, file.position))
            }
        })
    }

    /// Whether asking for the input stream can turn these streams into `post`
    /// and give `r`, where `read_via_stream` opens a stream on a file.
    ///
    /// A stream that is present is given back. Otherwise one is opened at the
    /// file's position and kept, and what the host answers when it cannot open
    /// one is handed on.
    pub open spec fn reads<R>(
        self,
        read_via_stream: R,
        post: Streams<B>,
        r: Result<B::InputStream, Errno>,
    ) -> bool where R: FnOnce(&B::Descriptor, u64) -> Result<B::InputStream, Errno> {
        match (self.input, self.type_.openable()) {
            (Some(stream), _) => r == Ok::<_, Errno>(stream) && post == self,
            (None, Some(file)) => {
                &&& call_ensures(read_via_stream, (&file.fd, file.position), r)
                &&& post == match r {
                    Ok(stream) => Streams { input: Some(stream), ..self },
                    Err(_) => self,
                }
            },
            (None, None) => r == Err::<B::InputStream, _>(ERRNO_BADF) && post == self,
        }
    }

    /// Whether asking for the output stream can turn these streams into `post`
    /// and give `r`, where `append_via_stream` opens a stream at the end of a
    /// file and `write_via_stream` opens one at a position.
    pub open spec fn writes<A, W>(
        self,
        append_via_stream: A,
        write_via_stream: W,
        post: Streams<B>,
        r: Result<B::OutputStream, Errno>,
    ) -> bool where
        A: FnOnce(&B::Descriptor) -> Result<B::OutputStream, Errno>,
        W: FnOnce(&B::Descriptor, u64) -> Result<B::OutputStream, Errno>,
     {
        match (self.output, self.type_.openable()) {
            (Some(stream), _) => r == Ok::<_, Errno>(stream) && post == self,
            (None, Some(file)) => {
                &&& if file.append {
                    call_ensures(append_via_stream, (&file.fd,), r)
                } else {
                    call_ensures(write_via_stream, (&file.fd, file.position), r)
                }
                &&& post == match r {
                    Ok(stream) => Streams { output: Some(stream), ..self },
                    Err(_) => self,
                }
            },
            (None, None) => r == Err::<B::OutputStream, _>(ERRNO_BADF) && post == self,
        }
    }

    /// Return the input stream, initializing it on the fly if needed.
    pub fn get_read_stream<R>(&mut self, read_via_stream: R) -> (r: Result<&B::InputStream, Errno>)
        where R: FnOnce(&B::Descriptor, u64) -> Result<B::InputStream, Errno>,
        requires
            old(self).can_read(read_via_stream),
        ensures
            old(self).reads(read_via_stream, *final(self), unborrowed(r)),
    {
        if self.input.is_none() {
            let input = match &self.type_ {
                // For directories, preview 1 behavior was to return ERRNO_BADF on attempts to
                // read or write.
                StreamType::File(File { descriptor_type: DescriptorType::Directory, .. }) => {
                    return Err(ERRNO_BADF);
                },
                // For files, we may have adjusted the position for seeking, so create a new
                // stream.
                StreamType::File(file) => read_via_stream(&file.fd, file.position)?,
                _ => return Err(ERRNO_BADF),
            };
            self.input = Some(input);
        }
        Ok(self.input.as_ref().unwrap())
    }

    /// Return the output stream, initializing it on the fly if needed.
    pub fn get_write_stream<A, W>(&mut self, append_via_stream: A, write_via_stream: W) -> (r:
        Result<&B::OutputStream, Errno>) where
        A: FnOnce(&B::Descriptor) -> Result<B::OutputStream, Errno>,
        W: FnOnce(&B::Descriptor, u64) -> Result<B::OutputStream, Errno>,

        requires
            old(self).can_write(append_via_stream, write_via_stream),
        ensures
            old(self).writes(append_via_stream, write_via_stream, *final(self), unborrowed(r)),
    {
        if self.output.is_none() {
            let output = match &self.type_ {
                // For directories, preview 1 behavior was to return ERRNO_BADF on attempts to
                // read or write.
                StreamType::File(File { descriptor_type: DescriptorType::Directory, .. }) => {
                    return Err(ERRNO_BADF);
                },
                // For files, we may have adjusted the position for seeking, so create a new
                // stream.
                StreamType::File(file) => {
                    if file.append {
                        append_via_stream(&file.fd)?
                    } else {
                        write_via_stream(&file.fd, file.position)?
                    }
                },
                _ => return Err(ERRNO_BADF),
            };
            self.output = Some(output);
        }
        Ok(self.output.as_ref().unwrap())
    }
}

/// The result that `r` gives a reference to.
pub open spec fn unborrowed<T>(r: Result<&T, Errno>) -> Result<T, Errno> {
    match r {
        Ok(value) => Ok(*value),
        Err(errno) => Err(errno),
    }
}

/// What the host hands over for stdio.
pub struct Stdio<B: Bindings> {
    /// The stream to read from standard input.
    pub stdin: B::InputStream,

    /// Whether standard input is a terminal.
    pub stdin_is_terminal: bool,

    /// The stream to write to standard output.
    pub stdout: B::OutputStream,

    /// Whether standard output is a terminal.
    pub stdout_is_terminal: bool,

    /// The stream to write to standard error.
    pub stderr: B::OutputStream,

    /// Whether standard error is a terminal.
    pub stderr_is_terminal: bool,
}

/// A directory that is open from the start.
pub struct Preopen<B: Bindings> {
    /// The handle to the directory. It is gone once the table of descriptors
    /// has taken ownership of it.
    pub descriptor: Option<B::Descriptor>,

    /// The path under which the directory is known.
    pub path: String,
}

/// The directories that are open from the start.
pub struct PreopenList<B: Bindings> {
    /// The directories, in the order of their descriptors.
    pub entries: Vec<Preopen<B>>,
}

/// The mapping from preview 1 file descriptors to streams.
pub struct Descriptors<B: Bindings> {
    /// Storage of the mapping.
    table: Vec<Descriptor<B>>,

    /// Points to the head of a free-list of closed file descriptors.
    closed: Option<Fd>,

    /// Preopened directories.
    preopens: Vec<Preopen<B>>,
}

impl<B: Bindings> View for Descriptors<B> {
    type V = DescriptorsView<B>;

    closed spec fn view(&self) -> DescriptorsView<B> {
        DescriptorsView {
            table: self.table@,
            closed: self.closed,
            preopens: self.preopens@,
        }
    }
}

impl<B: Bindings> Descriptors<B> {
    /// The table is within its capacity, and its closed slots form a free-list.
    pub open spec fn wf(&self) -> bool {
        &&& self@.table.len() <= MAX_DESCRIPTORS
        &&& self@.is_linked()
    }

    /// The table that a program starts with: stdio at 0, 1 and 2, then the
    /// preopened directories. `types` gives the type of each of those.
    pub fn new(stdio: Stdio<B>, list: PreopenList<B>, types: Vec<DescriptorType>) -> (d: Self)
        requires
            list.entries@.len() + 3 <= MAX_DESCRIPTORS,
            types@.len() == list.entries@.len(),
            forall|i: int|
                0 <= i < list.entries@.len() ==> (#[trigger] list.entries@[i]).descriptor is Some,
        ensures
            d.wf(),
            d@ == DescriptorsView::initial(stdio, list.entries@, types@),
    {
        let mut d = Descriptors { table: Vec::new(), closed: None, preopens: Vec::new() };
        let ghost start = DescriptorsView::initial(stdio, list.entries@, types@);

        let stdin_isatty = IsATTY::of_terminal(stdio.stdin_is_terminal);
        let stdout_isatty = IsATTY::of_terminal(stdio.stdout_is_terminal);
        let stderr_isatty = IsATTY::of_terminal(stdio.stderr_is_terminal);

        let _ = d.push(
            Descriptor::Streams(
                Streams {
                    input: Some(stdio.stdin),
                    output: None,
                    type_: StreamType::Stdio(stdin_isatty),
                },
            ),
        );
        let _ = d.push(
            Descriptor::Streams(
                Streams {
                    input: None,
                    output: Some(stdio.stdout),
                    type_: StreamType::Stdio(stdout_isatty),
                },
            ),
        );
        let _ = d.push(
            Descriptor::Streams(
                Streams {
                    input: None,
                    output: Some(stdio.stderr),
                    type_: StreamType::Stdio(stderr_isatty),
                },
            ),
        );

        let mut preopens: Vec<Preopen<B>> = list.entries;
        let count: usize = preopens.len();
        let mut i: usize = 0;
        while i < count
            invariant
                i <= count,
                count + 3 <= MAX_DESCRIPTORS,
                count == preopens@.len(),
                count == list.entries@.len(),
                count == types@.len(),
                start == DescriptorsView::initial(stdio, list.entries@, types@),
                d@.table =~= start.table.take(i + 3),
                d@.closed is None,
                forall|j: int|
                    0 <= j < count ==> (#[trigger] list.entries@[j]).descriptor is Some,
                forall|j: int| 0 <= j < i ==> #[trigger] preopens@[j] == start.preopens[j],
                forall|j: int| i <= j < count ==> #[trigger] preopens@[j] == list.entries@[j],
            decreases count - i,
        {
            // Acquire ownership of the descriptor, leaving the rest of the `Preopen` struct in
            // place.
            let fd = preopens[i].descriptor.take().unwrap();
            let descriptor_type = types[i];
            // Expectation is that the descriptor index is initialized with stdio (0,1,2) and no
            // others, so that preopens are 3..
            let _ = d.push(
                Descriptor::Streams(
                    Streams {
                        input: None,
                        output: None,
                        type_: StreamType::File(
                            File {
                                fd,
                                descriptor_type,
                                position: 0,
                                append: false,
                                blocking_mode: BlockingMode::Blocking,
                            },
                        ),
                    },
                ),
            );
            i = i + 1;
        }

        d.preopens = preopens;
        proof {
            assert(d@.table =~= start.table);
            assert(d@.preopens =~= start.preopens);
            law_initial_free_list(stdio, list.entries@, types@);
        }
        d
    }

    /// Append a descriptor to the table.
    fn push(&mut self, desc: Descriptor<B>) -> (r: Result<Fd, Errno>)
        ensures
            old(self)@.pushes(desc, final(self)@, r),
    {
        let len: usize = self.table.len();
        if len >= MAX_DESCRIPTORS {
            return Err(ERRNO_NOMEM);
        }
        self.table.push(desc);
        Ok(len as u32)
    }

    /// Put a descriptor into the table: into the slot that was closed last, or
    /// at the end where no slot is closed.
    pub fn open(&mut self, d: Descriptor<B>) -> (r: Result<Fd, Errno>)
        requires
            old(self).wf(),
        ensures
            old(self)@.opens(d, final(self)@, r),
            d is Streams ==> final(self).wf(),
    {
        proof {
            law_head_is_closed(self@);
        }
        let r = match self.closed {
            // No closed descriptors: expand table
            None => self.push(d),
            Some(freelist_head) => {
                // Pop an item off the freelist
                let next_closed = match &self.table[freelist_head as usize] {
                    Descriptor::Closed(next) => *next,
                    Descriptor::Streams(_) => None,
                };
                // Write descriptor to the entry at the head of the list
                self.table[freelist_head as usize] = d;
                // Point closed to the following item
                self.closed = next_closed;
                Ok(freelist_head)
            },
        };
        proof {
            if d is Streams {
                law_open_keeps_linked(old(self)@, d, self@, r);
            }
        }
        r
    }

    /// Look up a slot of the table.
    pub fn get(&self, fd: Fd) -> (r: Result<&Descriptor<B>, Errno>)
        ensures
            unborrowed(r) == self@.lookup(fd),
    {
        if (fd as usize) < self.table.len() {
            Ok(&self.table[fd as usize])
        } else {
            Err(ERRNO_BADF)
        }
    }

    /// Look up a slot of the table, to change it in place.
    ///
    /// The slot of an open descriptor is to be left open, and that of a closed
    /// one as it is: the free-list runs through the closed ones.
    pub fn get_mut(&mut self, fd: Fd) -> (r: Result<&mut Descriptor<B>, Errno>)
        ensures
            match r {
                Ok(d) => {
                    &&& old(self)@.lookup(fd) == Ok::<_, Errno>(*d)
                    &&& final(self)@ == old(self)@.with(fd, *final(d))
                    &&& old(self).wf() && (*d is Streams && *final(d) is Streams || *final(d)
                        == *d) ==> final(self).wf()
                },
                Err(e) => {
                    &&& old(self)@.lookup(fd) == Err::<Descriptor<B>, _>(e)
                    &&& final(self)@ == old(self)@
                },
            },
    {
        proof {
            if self.wf() && self@.has(fd) {
                assert(self@.with(fd, self@.table[fd as int]).table =~= self@.table);
                assert forall|d: Descriptor<B>|
                    #![trigger self@.with(fd, d)]
                    self@.is_open(fd) && d is Streams implies self@.with(fd, d).is_linked() by {
                    law_changing_streams_keeps_linked(self@, fd, d->Streams_0);
                }
            }
        }
        if (fd as usize) < self.table.len() {
            Ok(&mut self.table[fd as usize])
        } else {
            Err(ERRNO_BADF)
        }
    }

    /// The preopened directory behind a descriptor.
    pub fn get_preopen(&self, fd: Fd) -> (r: Option<&Preopen<B>>)
        ensures
            match r {
                Some(preopen) => self@.preopen(fd) == Some(*preopen),
                None => self@.preopen(fd) is None,
            },
    {
        // Subtract 3 for the stdio indices to compute the preopen index.
        if fd < 3 {
            return None;
        }
        let index: usize = (fd - 3) as usize;
        if index < self.preopens.len() {
            Some(&self.preopens[index])
        } else {
            None
        }
    }

    /// Close a descriptor, returning what it held.
    fn close_(&mut self, fd: Fd) -> (r: Result<Descriptor<B>, Errno>)
        requires
            old(self).wf(),
        ensures
            final(self).wf(),
            final(self)@ == old(self)@.after_close(fd),
            r == if old(self)@.is_open(fd) {
                Ok(old(self)@.table[fd as int])
            } else {
                Err(ERRNO_BADF)
            },
    {
        // Throw an error if closing an fd which is already closed
        match self.get(fd)? {
            Descriptor::Closed(_) => return Err(ERRNO_BADF),
            _ => {},
        }
        // Mutate the descriptor to be closed, and push the closed fd onto the head of the
        // linked list:
        let last_closed = self.closed;
        let mut prev = Descriptor::Closed(last_closed);
        core::mem::swap(self.get_mut(fd)?, &mut prev);
        self.closed = Some(fd);
        proof {
            law_close_keeps_linked(old(self)@, fd);
        }
        Ok(prev)
    }

    /// Close a descriptor, dropping what it held.
    pub fn close(&mut self, fd: Fd) -> (r: Result<(), Errno>)
        requires
            old(self).wf(),
        ensures
            final(self).wf(),
            final(self)@ == old(self)@.after_close(fd),
            r == if old(self)@.is_open(fd) {
                Ok(())
            } else {
                Err(ERRNO_BADF)
            },
    {
        let _ = self.close_(fd)?;
        Ok(())
    }

    /// Expand the table by pushing a closed descriptor to the end. Used for
    /// renumbering.
    fn push_closed(&mut self) -> (r: Result<(), Errno>)
        requires
            old(self).wf(),
        ensures
            final(self).wf(),
            if old(self)@.table.len() < MAX_DESCRIPTORS {
                &&& r == Ok::<(), Errno>(())
                &&& final(self)@ == old(self)@.grown(old(self)@.table.len() + 1)
            } else {
                &&& r == Err::<(), Errno>(ERRNO_NOMEM)
                &&& final(self)@ == old(self)@
            },
    {
        let old_closed = self.closed;
        let new_closed: Fd = self.push(Descriptor::Closed(old_closed))?;
        self.closed = Some(new_closed);
        proof {
            assert(self@.table =~= old(self)@.grown(old(self)@.table.len() + 1).table);
            law_growing_keeps_linked(old(self)@, old(self)@.table.len() + 1);
        }
        Ok(())
    }

    /// Take a closed descriptor off the free-list. Used for renumbering.
    fn unlink(&mut self, fd: Fd)
        requires
            old(self)@.has(fd),
        ensures
            final(self)@ == old(self)@.unlinked(fd),
    {
        let next = match &self.table[fd as usize] {
            Descriptor::Closed(next) => *next,
            Descriptor::Streams(_) => return,
        };
        // Whatever refers to fd now refers to what fd refers to:
        if let Some(head) = self.closed {
            if head == fd {
                self.closed = next;
            }
        }
        let len: usize = self.table.len();
        let mut i: usize = 0;
        while i < len
            invariant
                i <= len,
                len == self.table@.len(),
                len == old(self)@.table.len(),
                old(self)@.is_closed(fd),
                next == old(self)@.table[fd as int]->Closed_0,
                self@.closed == old(self)@.unlinked(fd).closed,
                self@.preopens == old(self)@.preopens,
                forall|j: int|
                    0 <= j < i ==> #[trigger] self.table@[j] == old(self)@.unlinked(fd).table[j],
                forall|j: int| i <= j < len ==> #[trigger] self.table@[j] == old(self)@.table[j],
            decreases len - i,
        {
            let refers = match &self.table[i] {
                Descriptor::Closed(Some(other)) => *other == fd,
                _ => false,
            };
            if refers {
                self.table[i] = Descriptor::Closed(next);
            }
            i = i + 1;
        }
        proof {
            assert(self@.table =~= old(self)@.unlinked(fd).table);
        }
    }

    /// Move what `from_fd` holds to `to_fd`, and close `from_fd`. What `to_fd`
    /// held is dropped. Where the two are the same, nothing changes.
    pub fn renumber(&mut self, from_fd: Fd, to_fd: Fd) -> (r: Result<(), Errno>)
        requires
            old(self).wf(),
        ensures
            final(self).wf(),
            old(self)@.renumbers(from_fd, to_fd, final(self)@, r),
    {
        // First, ensure from_fd is in bounds:
        let _ = self.get(from_fd)?;
        // Expand table until to_fd is in bounds as well:
        proof {
            assert(self@.grown(self@.table.len()).table =~= self@.table);
        }
        while self.table.len() as u32 <= to_fd
            invariant
                self.wf(),
                old(self).wf(),
                old(self)@.has(from_fd),
                old(self)@.table.len() <= self@.table.len(),
                self@ == old(self)@.grown(self@.table.len()),
                self@.table.len() <= old(self)@.table.len() || self@.table.len() <= to_fd + 1,
            decreases MAX_DESCRIPTORS - self@.table.len(),
        {
            self.push_closed()?;
            proof {
                assert(self@.table =~= old(self)@.grown(self@.table.len()).table);
            }
        }
        // An open descriptor that stays where it is needs no moving:
        if from_fd == to_fd {
            return match self.get(from_fd)? {
                Descriptor::Streams(_) => Ok(()),
                Descriptor::Closed(_) => Err(ERRNO_BADF),
            };
        }
        // Then, close from_fd and put its contents into to_fd, which is closed no more:
        let desc = self.close_(from_fd)?;
        self.unlink(to_fd);
        *self.get_mut(to_fd)? = desc;
        proof {
            lemma_moved_is_renumbered(old(self)@, from_fd, to_fd, self@);
        }
        Ok(())
    }

    /// The streams of an open descriptor. What is no open descriptor is
    /// answered with `ERRNO_BADF`, whatever `error` is.
    pub fn get_stream_with_error(&self, fd: Fd, error: Errno) -> (r: Result<&Streams<B>, Errno>)
        ensures
            unborrowed(r) == self@.streams(fd),
    {
        match self.get(fd)? {
            Descriptor::Streams(streams) => Ok(streams),
            Descriptor::Closed(_) => Err(ERRNO_BADF),
        }
    }

    /// The file behind a descriptor, if it is a file and no directory. An open
    /// descriptor that is no file is answered with `error`.
    pub fn get_file_with_error(&self, fd: Fd, error: Errno) -> (r: Result<&File<B>, Errno>)
        ensures
            unborrowed(r) == self@.file(fd, error),
    {
        match self.get(fd)? {
            Descriptor::Streams(
                Streams {
                    type_: StreamType::File(
                        File { descriptor_type: DescriptorType::Directory, .. },
                    ),
                    ..
                },
            ) => Err(ERRNO_BADF),
            Descriptor::Streams(Streams { type_: StreamType::File(file), .. }) => Ok(file),
            Descriptor::Closed(_) => Err(ERRNO_BADF),
            _ => Err(error),
        }
    }

    /// The socket behind a descriptor.
    pub fn get_socket(&self, fd: Fd) -> (r: Result<&B::TcpSocket, Errno>)
        ensures
            unborrowed(r) == self@.socket(fd),
    {
        match self.get(fd)? {
            Descriptor::Streams(Streams { type_: StreamType::Socket(socket), .. }) => Ok(socket),
            Descriptor::Closed(_) => Err(ERRNO_BADF),
            _ => Err(ERRNO_INVAL),
        }
    }

    /// The file behind a descriptor, if it is a file and no directory.
    pub fn get_file(&self, fd: Fd) -> (r: Result<&File<B>, Errno>)
        ensures
            unborrowed(r) == self@.file(fd, ERRNO_INVAL),
    {
        self.get_file_with_error(fd, ERRNO_INVAL)
    }

    /// The directory behind a descriptor.
    pub fn get_dir(&self, fd: Fd) -> (r: Result<&File<B>, Errno>)
        ensures
            unborrowed(r) == self@.dir(fd),
    {
        match self.get(fd)? {
            Descriptor::Streams(Streams { type_: StreamType::File(file), .. }) => {
                match file.descriptor_type {
                    DescriptorType::Directory => Ok(file),
                    _ => Err(ERRNO_NOTDIR),
                }
            },
            _ => Err(ERRNO_BADF),
        }
    }

    /// The file behind a descriptor, for seeking.
    pub fn get_seekable_file(&self, fd: Fd) -> (r: Result<&File<B>, Errno>)
        ensures
            unborrowed(r) == self@.file(fd, ERRNO_SPIPE),
    {
        self.get_file_with_error(fd, ERRNO_SPIPE)
    }

    /// The streams of an open descriptor, for seeking.
    pub fn get_seekable_stream(&self, fd: Fd) -> (r: Result<&Streams<B>, Errno>)
        ensures
            unborrowed(r) == self@.streams(fd),
    {
        self.get_stream_with_error(fd, ERRNO_SPIPE)
    }

    /// The input stream of a descriptor, initializing it on the fly if needed.
    pub fn get_read_stream<R>(&mut self, fd: Fd, read_via_stream: R) -> (r: Result<
        &B::InputStream,
        Errno,
    >) where R: FnOnce(&B::Descriptor, u64) -> Result<B::InputStream, Errno>
        requires
            old(self).wf(),
            old(self)@.is_open(fd) ==> old(self)@.table[fd as int]->Streams_0.can_read(
                read_via_stream,
            ),
        ensures
            final(self).wf(),
            old(self)@.reads(fd, read_via_stream, final(self)@, unborrowed(r)),
    {
        proof {
            if self@.has(fd) {
                assert(self@.with(fd, self@.table[fd as int]).table =~= self@.table);
            }
        }
        match self.get_mut(fd)? {
            Descriptor::Streams(streams) => streams.get_read_stream(read_via_stream),
            Descriptor::Closed(_) => Err(ERRNO_BADF),
        }
    }

    /// The output stream of a descriptor, initializing it on the fly if needed.
    pub fn get_write_stream<A, W>(
        &mut self,
        fd: Fd,
        append_via_stream: A,
        write_via_stream: W,
    ) -> (r: Result<&B::OutputStream, Errno>) where
        A: FnOnce(&B::Descriptor) -> Result<B::OutputStream, Errno>,
        W: FnOnce(&B::Descriptor, u64) -> Result<B::OutputStream, Errno>,

        requires
            old(self).wf(),
            old(self)@.is_open(fd) ==> old(self)@.table[fd as int]->Streams_0.can_write(
                append_via_stream,
                write_via_stream,
            ),
        ensures
            final(self).wf(),
            old(self)@.writes(
                fd,
                append_via_stream,
                write_via_stream,
                final(self)@,
                unborrowed(r),
            ),
    {
        proof {
            if self@.has(fd) {
                assert(self@.with(fd, self@.table[fd as int]).table =~= self@.table);
            }
        }
        match self.get_mut(fd)? {
            Descriptor::Streams(streams) => streams.get_write_stream(
                append_via_stream,
                write_via_stream,
            ),
            Descriptor::Closed(_) => Err(ERRNO_BADF),
        }
    }
}

} // verus!
