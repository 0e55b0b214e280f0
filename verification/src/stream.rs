//! Streams of bytes that the host offers.

use bytes::Bytes;

use vstd::prelude::*;
use vstd::string::*;

use crate::outside::{bytes_from_iter, bytes_view};

verus! {

/// Why an operation on a stream failed.
#[derive(Debug)]
pub enum StreamError {
    /// The stream is closed.
    Closed,

    /// The last operation failed.
    LastOperationFailed(anyhow::Error),

    /// The program has to be stopped.
    Trap(anyhow::Error),
}

impl StreamError {
    /// The error of the host, if there is one.
    pub fn error(&self) -> (r: Option<&anyhow::Error>)
        ensures
            match *self {
                StreamError::Closed => r is None,
                StreamError::LastOperationFailed(e) | StreamError::Trap(e) => r == Some(&e),
            },
    {
        match self {
            StreamError::Closed => None,
            StreamError::LastOperationFailed(e) | StreamError::Trap(e) => Some(e),
        }
    }

    /// A description of the failure.
    pub fn message(&self) -> (r: String)
        ensures
            match *self {
                StreamError::Closed => r@ == "closed"@,
                StreamError::LastOperationFailed(e) => exists|text: String| #[trigger]
                    to_string_from_display_ensures::<anyhow::Error>(&e, text) && r@ == "last operation failed: "@
                        + text@,
                StreamError::Trap(e) => exists|text: String| #[trigger]
                    to_string_from_display_ensures::<anyhow::Error>(&e, text) && r@ == "trap: "@ + text@,
            },
    {
        match self {
            StreamError::Closed => "closed".to_owned(),
            StreamError::LastOperationFailed(e) => {
                "last operation failed: ".to_owned().concat(e.to_string().as_str())
            },
            StreamError::Trap(e) => "trap: ".to_owned().concat(e.to_string().as_str()),
        }
    }
}

/// Host trait for implementing an input stream: a bytestream which can be read
/// from.
pub trait HostInputStream: Send + Sync {
    /// Read bytes. On success, returns the bytes that were read.
    /// Important: this read must be non-blocking!
    fn read(&mut self, size: usize) -> Result<Bytes, StreamError>;

    /// Read bytes from a stream and discard them, returning how many there
    /// were. Important: this method must be non-blocking!
    fn skip(&mut self, nelem: usize) -> (r: Result<usize, StreamError>)
        default_ensures
            exists|stream: &mut Self, read: Result<Bytes, StreamError>| #[trigger]
                call_ensures(Self::read, (stream, nelem), read) && &*stream == &*old(self)
                    && &*final(stream) == &*final(self) && match read {
                    Ok(bs) => r is Ok && r->Ok_0 == bytes_view(bs).len(),
                    Err(e) => r == Err::<usize, _>(e),
                },
    {
        let bs = self.read(nelem)?;
        Ok(bs.len())
    }
}

/// Host trait for implementing an output stream: a bytestream which can be
/// written to.
pub trait HostOutputStream: Send + Sync {
    /// Write bytes after obtaining a permit to write those bytes.
    ///
    /// The permit is a number: the most bytes that a single call may write.
    /// This method must never block.
    ///
    /// # Errors
    ///
    /// Returns a [`StreamError`] if:
    /// - the stream is closed
    /// - a prior operation ([`write`](Self::write) or [`flush`](Self::flush)) failed
    /// - the caller performed an illegal operation (e.g. wrote more bytes than
    ///   were permitted)
    fn write(&mut self, bytes: Bytes) -> Result<(), StreamError>;

    /// Trigger a flush of any bytes buffered in this stream implementation.
    ///
    /// This method may be called at any time and must never block. No permit to
    /// write is given until the flush is complete.
    ///
    /// # Errors
    ///
    /// Returns a [`StreamError`] in the cases in which [`write`](Self::write)
    /// does.
    fn flush(&mut self) -> Result<(), StreamError>;

    /// Write `nelem` zeroes to a stream, all at once. Important: this write must
    /// be non-blocking!
    fn write_zeroes(&mut self, nelem: usize) -> (r: Result<(), StreamError>)
        requires
            nelem <= isize::MAX,
        default_ensures
            exists|stream: &mut Self, bs: Bytes| #[trigger]
                call_ensures(Self::write, (stream, bs), r) && &*stream == &*old(self)
                    && &*final(stream) == &*final(self) && bytes_view(bs) == Seq::new(
                    nelem as nat,
                    |i: int| 0u8,
                ),
    {
        let bs = bytes_from_iter(vec![0u8; nelem]);
        self.write(bs)?;
        Ok(())
    }
}

} // verus!
