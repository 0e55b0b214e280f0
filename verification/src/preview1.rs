//! The plain numbers of the preview 1 interface.

use vstd::prelude::*;

verus! {

/// A preview 1 file descriptor.
pub type Fd = u32;

/// A preview 1 error code.
pub type Errno = u16;

/// A preview 1 file type.
pub type Filetype = u8;

/// Bad file descriptor.
pub const ERRNO_BADF: Errno = 8;

/// Invalid argument.
pub const ERRNO_INVAL: Errno = 28;

/// Not enough space.
pub const ERRNO_NOMEM: Errno = 48;

/// Not a directory or a symbolic link to a directory.
pub const ERRNO_NOTDIR: Errno = 54;

/// Invalid seek.
pub const ERRNO_SPIPE: Errno = 70;

/// The type of the file is unknown or is different from any of the other types.
pub const FILETYPE_UNKNOWN: Filetype = 0;

/// The file is a character device.
pub const FILETYPE_CHARACTER_DEVICE: Filetype = 2;

} // verus!
