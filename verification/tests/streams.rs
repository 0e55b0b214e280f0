use bytes::Bytes;
use wasmtime::component::Resource;

use wasi_streams::stream::{HostInputStream, HostOutputStream, StreamError};
use wasi_streams::table::{InternalInputStream, Item, Table, TableError};
use wasi_streams::table_streams::{
    InputStream, InternalTableStreamExt, OutputStream, TableStreamExt,
};

/// A table whose file streams and other resources are plain numbers.
type Resources = Table<dyn HostInputStream, dyn HostOutputStream, u8, u64>;

/// An input stream that is always closed.
struct ClosedInputStream;

impl HostInputStream for ClosedInputStream {
    fn read(&mut self, _size: usize) -> Result<Bytes, StreamError> {
        Err(StreamError::Closed)
    }
}

/// An output stream that accepts everything.
struct SinkOutputStream;

impl HostOutputStream for SinkOutputStream {
    fn write(&mut self, _bytes: Bytes) -> Result<(), StreamError> {
        Ok(())
    }

    fn flush(&mut self) -> Result<(), StreamError> {
        Ok(())
    }
}

/// An input stream that hands out what it holds.
struct MemoryInputStream {
    content: Bytes,
}

impl HostInputStream for MemoryInputStream {
    fn read(&mut self, size: usize) -> Result<Bytes, StreamError> {
        let len: usize = size.min(self.content.len());
        Ok(self.content.split_to(len))
    }
}

/// An output stream that keeps what is written, up to a limit.
struct MemoryOutputStream {
    content: Vec<u8>,
    limit: usize,
}

impl HostOutputStream for MemoryOutputStream {
    fn write(&mut self, bytes: Bytes) -> Result<(), StreamError> {
        if bytes.len() > self.limit {
            return Err(StreamError::Trap(anyhow::Error::msg("wrote too much")));
        }
        self.content.extend_from_slice(&bytes);
        Ok(())
    }

    fn flush(&mut self) -> Result<(), StreamError> {
        self.content.clear();
        Ok(())
    }
}

fn memory(content: &'static [u8]) -> Box<dyn HostInputStream> {
    Box::new(MemoryInputStream { content: Bytes::from_static(content) })
}

fn error_of<T>(r: Result<T, TableError>) -> TableError {
    match r {
        Ok(_) => panic!("expected an error"),
        Err(e) => e,
    }
}

fn same_handle<T: 'static>(handle: &Resource<T>) -> Resource<T> {
    Resource::new_own(handle.rep())
}

#[test]
fn input_stream_in_table() {
    let dummy = ClosedInputStream;
    let mut table: Resources = Table::new();
    // Put it into the table:
    let ix = table.push_input_stream(Box::new(dummy)).unwrap();
    // Get a mut ref to it:
    let _ = table.get_input_stream_mut(&ix).unwrap();
    // Delete it:
    let _ = table.delete_input_stream(ix).unwrap();
}

#[test]
fn output_stream_in_table() {
    let dummy = SinkOutputStream;
    let mut table: Resources = Table::new();
    // Put it in the table:
    let ix = table.push_output_stream(Box::new(dummy)).unwrap();
    // Get a mut ref to it:
    let _ = table.get_output_stream_mut(&ix).unwrap();
    // Delete it:
    let _ = table.delete_output_stream(ix).unwrap();
}

#[test]
fn messages_name_the_failure() {
    assert_eq!(StreamError::Closed.message(), "closed");
    let failed = StreamError::LastOperationFailed(anyhow::Error::msg("no space"));
    assert_eq!(failed.message(), "last operation failed: no space");
    let trap = StreamError::Trap(anyhow::Error::msg("boom"));
    assert_eq!(trap.message(), "trap: boom");
}

#[test]
fn errors_of_the_host_are_found() {
    assert!(StreamError::Closed.error().is_none());
    let failed = StreamError::LastOperationFailed(anyhow::Error::msg("no space"));
    assert_eq!(failed.error().unwrap().to_string(), "no space");
    let trap = StreamError::Trap(anyhow::Error::msg("boom").context("outer"));
    assert_eq!(trap.error().unwrap().to_string(), "outer");
    assert_eq!(trap.error().unwrap().source().unwrap().to_string(), "boom");
}

#[test]
fn skip_counts_what_was_read() {
    let mut stream = MemoryInputStream { content: Bytes::from_static(b"hello world") };
    assert_eq!(stream.skip(6).unwrap(), 6);
    assert_eq!(stream.read(2).unwrap(), Bytes::from_static(b"wo"));
    assert_eq!(stream.skip(100).unwrap(), 3);
    assert_eq!(stream.skip(100).unwrap(), 0);
}

#[test]
fn skip_hands_errors_on() {
    assert!(matches!(ClosedInputStream.skip(1), Err(StreamError::Closed)));
}

#[test]
fn write_zeroes_writes_zeroes() {
    let mut stream = MemoryOutputStream { content: vec![7], limit: 5 };
    stream.write_zeroes(5).unwrap();
    assert_eq!(stream.content, vec![7, 0, 0, 0, 0, 0]);
    stream.write_zeroes(0).unwrap();
    assert_eq!(stream.content.len(), 6);
    stream.flush().unwrap();
    assert!(stream.content.is_empty());
}

#[test]
fn write_zeroes_hands_errors_on() {
    let mut stream = MemoryOutputStream { content: Vec::new(), limit: 5 };
    match stream.write_zeroes(6) {
        Err(e) => assert_eq!(e.message(), "trap: wrote too much"),
        Ok(()) => panic!("expected an error"),
    }
    assert!(stream.content.is_empty());
}

#[test]
fn input_stream_comes_back_as_it_was_left() {
    let mut table: Resources = Table::new();
    let ix = table.push_input_stream(memory(b"abcdef")).unwrap();
    let first = table.get_input_stream_mut(&ix).unwrap().read(2).unwrap();
    assert_eq!(first, Bytes::from_static(b"ab"));
    let second = table.get_input_stream_mut(&ix).unwrap().read(2).unwrap();
    assert_eq!(second, Bytes::from_static(b"cd"));
    let mut stream = table.delete_input_stream(ix).ok().unwrap();
    assert_eq!(stream.read(10).unwrap(), Bytes::from_static(b"ef"));
}

#[test]
fn output_stream_comes_back_as_it_was_left() {
    let mut table: Resources = Table::new();
    let stream = MemoryOutputStream { content: Vec::new(), limit: 3 };
    let ix = table.push_output_stream(Box::new(stream)).unwrap();
    table.get_output_stream_mut(&ix).unwrap().write(Bytes::from_static(b"abc")).unwrap();
    assert!(table.get_output_stream_mut(&ix).unwrap().write_zeroes(4).is_err());
    let mut stream = table.delete_output_stream(ix).ok().unwrap();
    assert!(stream.write_zeroes(4).is_err());
    assert!(stream.write_zeroes(3).is_ok());
}

/// Uses a table through the extension trait alone.
fn through_the_trait<T>(table: &mut T)
where
    T: TableStreamExt<HostInput = dyn HostInputStream, HostOutput = dyn HostOutputStream>,
{
    let input = table.push_input_stream(memory(b"abc")).unwrap();
    let child = table.push_input_stream_child(memory(b"de"), same_handle(&input)).unwrap();
    assert_eq!(table.get_input_stream_mut(&child).unwrap().skip(9).unwrap(), 2);
    assert_eq!(error_of(table.delete_input_stream(same_handle(&input))), TableError::HasChildren);
    assert!(table.delete_input_stream(child).is_ok());
    let output = table.push_output_stream(Box::new(SinkOutputStream)).unwrap();
    let child =
        table.push_output_stream_child(Box::new(SinkOutputStream), same_handle(&output)).unwrap();
    assert!(table.get_output_stream_mut(&child).unwrap().flush().is_ok());
    assert_eq!(error_of(table.delete_output_stream(same_handle(&output))), TableError::HasChildren);
    assert!(table.delete_output_stream(child).is_ok());
    assert!(table.delete_output_stream(output).is_ok());
    assert!(table.delete_input_stream(input).is_ok());
}

#[test]
fn extension_trait_gives_the_same_streams() {
    let mut table: Resources = Table::new();
    through_the_trait(&mut table);
    assert_eq!(table.push(Item::Other(1)).unwrap(), 7);
}

#[test]
fn keys_start_behind_stdio() {
    let mut table: Resources = Table::new();
    let first = table.push_input_stream(memory(b"a")).unwrap();
    let second = table.push_output_stream(Box::new(SinkOutputStream)).unwrap();
    assert_eq!(first.rep(), 3);
    assert_eq!(second.rep(), 4);
    assert_eq!(table.push(Item::Other(9)).unwrap(), 5);
}

#[test]
fn deleted_keys_are_not_reused_at_once() {
    let mut table: Resources = Table::new();
    let first = table.push_input_stream(memory(b"a")).unwrap();
    let handle = same_handle(&first);
    assert!(table.delete_input_stream(first).is_ok());
    let second = table.push_input_stream(memory(b"b")).unwrap();
    assert_eq!(second.rep(), 4);
    assert_eq!(error_of(table.get_input_stream_mut(&handle)), TableError::NotPresent);
    assert_eq!(error_of(table.delete_input_stream(handle)), TableError::NotPresent);
}

#[test]
fn handles_of_the_wrong_type_are_refused() {
    let mut table: Resources = Table::new();
    let input = table.push_input_stream(memory(b"a")).unwrap();
    let output = table.push_output_stream(Box::new(SinkOutputStream)).unwrap();
    let as_output: Resource<OutputStream> = Resource::new_own(input.rep());
    let as_input: Resource<InputStream> = Resource::new_own(output.rep());
    assert_eq!(error_of(table.get_output_stream_mut(&as_output)), TableError::WrongType);
    assert_eq!(error_of(table.get_input_stream_mut(&as_input)), TableError::WrongType);
    assert_eq!(error_of(table.get_internal_input_stream_mut(&as_input)), TableError::WrongType);
    assert_eq!(error_of(table.delete_output_stream(as_output)), TableError::WrongType);
    assert_eq!(error_of(table.delete_internal_input_stream(same_handle(&as_input))), TableError::WrongType);
    assert_eq!(error_of(table.delete_input_stream(as_input)), TableError::WrongType);
    // Both are still there.
    assert!(table.delete_input_stream(input).is_ok());
    assert!(table.delete_output_stream(output).is_ok());
}

#[test]
fn file_streams_are_internal() {
    let mut table: Resources = Table::new();
    let ix = table.push_internal_input_stream(InternalInputStream::File(17)).unwrap();
    assert_eq!(error_of(table.get_input_stream_mut(&ix)), TableError::WrongType);
    match table.get_internal_input_stream_mut(&ix) {
        Ok(InternalInputStream::File(file)) => {
            assert_eq!(*file, 17);
            *file = 18;
        }
        _ => panic!("not a file"),
    }
    assert_eq!(error_of(table.delete_input_stream(same_handle(&ix))), TableError::WrongType);
    match table.delete_internal_input_stream(ix) {
        Ok(InternalInputStream::File(file)) => assert_eq!(file, 18),
        _ => panic!("not a file"),
    }
}

#[test]
fn host_streams_are_internal_too() {
    let mut table: Resources = Table::new();
    let ix = table.push_input_stream(memory(b"abc")).unwrap();
    match table.get_internal_input_stream_mut(&ix) {
        Ok(InternalInputStream::Host(stream)) => assert_eq!(stream.skip(1).unwrap(), 1),
        _ => panic!("not a stream of the host"),
    }
    match table.delete_internal_input_stream(ix) {
        Ok(InternalInputStream::Host(mut stream)) => {
            assert_eq!(stream.read(9).unwrap(), Bytes::from_static(b"bc"));
        }
        _ => panic!("not a stream of the host"),
    }
}

#[test]
fn parents_stay_while_they_have_children() {
    let mut table: Resources = Table::new();
    let parent = table.push_input_stream(memory(b"a")).unwrap();
    let first = table.push_input_stream_child(memory(b"b"), same_handle(&parent)).unwrap();
    let second = table
        .push_output_stream_child(Box::new(SinkOutputStream), same_handle(&parent))
        .unwrap();
    let third = table
        .push_internal_input_stream_child(InternalInputStream::File(1), same_handle(&second))
        .unwrap();
    assert_eq!(error_of(table.delete_input_stream(same_handle(&parent))), TableError::HasChildren);
    assert_eq!(
        error_of(table.delete_internal_input_stream(same_handle(&parent))),
        TableError::HasChildren
    );
    assert_eq!(error_of(table.delete_output_stream(same_handle(&second))), TableError::HasChildren);
    assert!(table.get_input_stream_mut(&parent).is_ok());
    assert!(table.delete_input_stream(first).is_ok());
    assert!(table.delete_internal_input_stream(third).is_ok());
    assert_eq!(error_of(table.delete_input_stream(same_handle(&parent))), TableError::HasChildren);
    assert!(table.delete_output_stream(second).is_ok());
    assert!(table.delete_input_stream(parent).is_ok());
}

#[test]
fn children_need_their_parent() {
    let mut table: Resources = Table::new();
    let none: Resource<OutputStream> = Resource::new_own(3);
    assert_eq!(
        error_of(table.push_input_stream_child(memory(b"b"), same_handle(&none))),
        TableError::NotPresent
    );
    assert_eq!(
        error_of(table.push_output_stream_child(Box::new(SinkOutputStream), same_handle(&none))),
        TableError::NotPresent
    );
    assert_eq!(
        error_of(table.push_internal_input_stream_child(InternalInputStream::File(1), none)),
        TableError::NotPresent
    );
    assert_eq!(error_of(table.push_child(Item::Other(1), 3)), TableError::NotPresent);
    // Nothing was taken.
    assert_eq!(table.push_input_stream(memory(b"a")).unwrap().rep(), 3);
}

#[test]
fn other_resources_share_the_table() {
    let mut table: Resources = Table::new();
    let key: u32 = table.push(Item::Other(5)).unwrap();
    match table.get_mut(key) {
        Ok(Item::Other(value)) => *value = 6,
        _ => panic!("not there"),
    }
    assert!(matches!(table.get(key), Ok(Item::Other(6))));
    let handle: Resource<u64> = Resource::new_own(key);
    let stream = table.push_input_stream_child(memory(b"a"), handle).unwrap();
    assert_eq!(error_of(table.remove_entry(key)), TableError::HasChildren);
    assert!(table.delete_input_stream(stream).is_ok());
    assert!(matches!(table.remove_entry(key), Ok(Item::Other(6))));
    assert_eq!(error_of(table.remove_entry(key)), TableError::NotPresent);
    assert_eq!(error_of(table.get(key)), TableError::NotPresent);
    assert_eq!(error_of(table.get_mut(key)), TableError::NotPresent);
}
