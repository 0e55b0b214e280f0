//! What the table of descriptors takes from the host: its handle types, and
//! the description of an open file.

use vstd::prelude::*;

verus! {

/// The handle types of one host.
///
/// The table of descriptors owns values of these types, hands them out by
/// reference, and drops them when a descriptor is closed or replaced. It never
/// looks inside them.
pub trait Bindings {
    /// A stream that bytes are read from.
    type InputStream;

    /// A stream that bytes are written to.
    type OutputStream;

    /// An open file or directory.
    type Descriptor;

    /// A TCP socket.
    type TcpSocket;
}

/// The type of the filesystem object that a file refers to.
#[derive(Clone, Copy, PartialEq, Eq, Debug, Structural)]
pub enum DescriptorType {
    /// The type is not known or is different from any of the others.
    Unknown,
    /// A block device.
    BlockDevice,
    /// A character device.
    CharacterDevice,
    /// A directory.
    Directory,
    /// A named pipe.
    Fifo,
    /// A symbolic link.
    SymbolicLink,
    /// A regular file.
    RegularFile,
    /// A socket.
    Socket,
}

/// Whether operations on a file wait until they can make progress.
#[derive(Clone, Copy, PartialEq, Eq, Debug, Structural)]
pub enum BlockingMode {
    /// Operations return at once.
    NonBlocking,
    /// Operations wait.
    Blocking,
}

/// An open file or directory, with what preview 1 keeps beside the handle.
pub struct File<B: Bindings> {
    /// The handle to the underlying file.
    pub fd: B::Descriptor,

    /// The type of the underlying object.
    pub descriptor_type: DescriptorType,

    /// The position that the next stream starts at.
    pub position: u64,

    /// Whether writes go to the end of the file.
    pub append: bool,

    /// Whether operations wait.
    pub blocking_mode: BlockingMode,
}

} // verus!
