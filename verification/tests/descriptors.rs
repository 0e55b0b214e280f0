use std::rc::Rc;

use wasi_streams::bindings::{Bindings, BlockingMode, DescriptorType, File};
use wasi_streams::descriptors::{
    Descriptor, Descriptors, IsATTY, Preopen, PreopenList, Stdio, StreamType, Streams,
    MAX_DESCRIPTORS,
};
use wasi_streams::preview1::{
    Errno, Fd, ERRNO_BADF, ERRNO_INVAL, ERRNO_NOMEM, ERRNO_NOTDIR, ERRNO_SPIPE,
    FILETYPE_CHARACTER_DEVICE, FILETYPE_UNKNOWN,
};

/// A host whose handles are plain numbers.
struct Numbers;

impl Bindings for Numbers {
    type InputStream = u32;
    type OutputStream = u32;
    type Descriptor = u32;
    type TcpSocket = u32;
}

/// A host whose sockets can be counted.
struct Counted;

impl Bindings for Counted {
    type InputStream = u32;
    type OutputStream = u32;
    type Descriptor = u32;
    type TcpSocket = Rc<()>;
}

fn table_with<B: Bindings<InputStream = u32, OutputStream = u32, Descriptor = u32>>(
    preopens: &[(u32, &str, DescriptorType)],
) -> Descriptors<B> {
    let stdio: Stdio<B> = Stdio {
        stdin: 100,
        stdin_is_terminal: true,
        stdout: 101,
        stdout_is_terminal: false,
        stderr: 102,
        stderr_is_terminal: true,
    };
    let mut entries: Vec<Preopen<B>> = Vec::new();
    let mut types: Vec<DescriptorType> = Vec::new();
    for (descriptor, path, descriptor_type) in preopens {
        entries.push(Preopen { descriptor: Some(*descriptor), path: path.to_string() });
        types.push(*descriptor_type);
    }
    Descriptors::new(stdio, PreopenList { entries }, types)
}

fn stdio_table() -> Descriptors<Numbers> {
    table_with(&[])
}

fn file_at(fd: u32, descriptor_type: DescriptorType, position: u64, append: bool) -> Streams<Numbers> {
    Streams {
        input: None,
        output: None,
        type_: StreamType::File(File {
            fd,
            descriptor_type,
            position,
            append,
            blocking_mode: BlockingMode::Blocking,
        }),
    }
}

fn socket<B: Bindings>(handle: B::TcpSocket) -> Descriptor<B> {
    Descriptor::Streams(Streams { input: None, output: None, type_: StreamType::Socket(handle) })
}

fn open_socket(d: &mut Descriptors<Numbers>, handle: u32) -> Result<Fd, Errno> {
    d.open(socket(handle))
}

/// What a slot that is closed refers to; `None` where the slot is not closed.
fn closed_link<B: Bindings>(d: &Descriptors<B>, fd: Fd) -> Option<Option<Fd>> {
    match d.get(fd) {
        Ok(Descriptor::Closed(next)) => Some(*next),
        _ => None,
    }
}

/// The number of slots.
fn slots<B: Bindings>(d: &Descriptors<B>) -> u32 {
    let mut len: u32 = 0;
    while d.get(len).is_ok() {
        len += 1;
    }
    len
}

fn errno_of<T>(r: Result<T, Errno>) -> Errno {
    match r {
        Ok(_) => panic!("expected an error"),
        Err(errno) => errno,
    }
}

fn no_read(_: &u32, _: u64) -> Result<u32, Errno> {
    panic!("no stream is to be opened for reading")
}

fn no_append(_: &u32) -> Result<u32, Errno> {
    panic!("no stream is to be opened for appending")
}

fn no_write(_: &u32, _: u64) -> Result<u32, Errno> {
    panic!("no stream is to be opened for writing")
}

#[test]
fn numbers_are_those_of_preview1() {
    assert_eq!(ERRNO_BADF, wasi::ERRNO_BADF.raw());
    assert_eq!(ERRNO_INVAL, wasi::ERRNO_INVAL.raw());
    assert_eq!(ERRNO_NOMEM, wasi::ERRNO_NOMEM.raw());
    assert_eq!(ERRNO_NOTDIR, wasi::ERRNO_NOTDIR.raw());
    assert_eq!(ERRNO_SPIPE, wasi::ERRNO_SPIPE.raw());
    assert_eq!(FILETYPE_UNKNOWN, wasi::FILETYPE_UNKNOWN.raw());
    assert_eq!(FILETYPE_CHARACTER_DEVICE, wasi::FILETYPE_CHARACTER_DEVICE.raw());
    assert_eq!(MAX_DESCRIPTORS, 128);
}

#[test]
fn filetype_tells_terminals_apart() {
    assert_eq!(IsATTY::Yes.filetype(), 2);
    assert_eq!(IsATTY::No.filetype(), 0);
}

#[test]
fn stdio_comes_first() {
    let mut d = stdio_table();
    assert_eq!(slots(&d), 3);
    let expected: [IsATTY; 3] = [IsATTY::Yes, IsATTY::No, IsATTY::Yes];
    for fd in 0..3u32 {
        match d.get(fd) {
            Ok(Descriptor::Streams(Streams { type_: StreamType::Stdio(tty), .. })) => {
                assert_eq!(*tty, expected[fd as usize]);
            }
            _ => panic!("not stdio"),
        }
    }
    assert_eq!(d.get_read_stream(0, no_read), Ok(&100));
    assert_eq!(d.get_read_stream(1, no_read), Err(ERRNO_BADF));
    assert_eq!(d.get_read_stream(2, no_read), Err(ERRNO_BADF));
    assert_eq!(d.get_write_stream(0, no_append, no_write), Err(ERRNO_BADF));
    assert_eq!(d.get_write_stream(1, no_append, no_write), Ok(&101));
    assert_eq!(d.get_write_stream(2, no_append, no_write), Ok(&102));
}

#[test]
fn preopens_follow_stdio() {
    let d: Descriptors<Numbers> = table_with(&[
        (7, "/", DescriptorType::Directory),
        (8, "/etc/passwd", DescriptorType::RegularFile),
    ]);
    assert_eq!(slots(&d), 5);
    assert!(d.get_preopen(0).is_none());
    assert!(d.get_preopen(2).is_none());
    let first = d.get_preopen(3).unwrap();
    assert_eq!(first.path, "/");
    assert!(first.descriptor.is_none());
    assert_eq!(d.get_preopen(4).unwrap().path, "/etc/passwd");
    assert!(d.get_preopen(5).is_none());
    assert!(d.get_preopen(u32::MAX).is_none());

    let dir = d.get_dir(3).ok().unwrap();
    assert_eq!(dir.fd, 7);
    assert_eq!(dir.position, 0);
    assert!(!dir.append);
    assert_eq!(dir.blocking_mode, BlockingMode::Blocking);
    assert_eq!(dir.descriptor_type, DescriptorType::Directory);
    assert_eq!(d.get_file(4).ok().unwrap().fd, 8);
}

#[test]
fn the_most_preopens_fill_the_table() {
    let many: Vec<(u32, &str, DescriptorType)> =
        (0..125u32).map(|i| (i, "/", DescriptorType::Directory)).collect();
    let mut d: Descriptors<Numbers> = table_with(&many);
    assert_eq!(slots(&d), 128);
    assert_eq!(d.get_dir(127).ok().unwrap().fd, 124);
    assert_eq!(open_socket(&mut d, 1), Err(ERRNO_NOMEM));
}

#[test]
fn opened_descriptor_is_found() {
    let mut d = stdio_table();
    assert_eq!(open_socket(&mut d, 40), Ok(3));
    assert_eq!(open_socket(&mut d, 41), Ok(4));
    assert_eq!(d.get_socket(3), Ok(&40));
    assert_eq!(d.get_socket(4), Ok(&41));
    assert_eq!(d.get_socket(5), Err(ERRNO_BADF));
}

#[test]
fn get_mut_changes_one_slot() {
    let mut d = stdio_table();
    open_socket(&mut d, 40).unwrap();
    open_socket(&mut d, 41).unwrap();
    *d.get_mut(3).ok().unwrap() = socket(50);
    assert_eq!(d.get_socket(3), Ok(&50));
    assert_eq!(d.get_socket(4), Ok(&41));
    assert_eq!(errno_of(d.get_mut(5)), ERRNO_BADF);
}

#[test]
fn closed_descriptor_stays_closed() {
    let mut d = stdio_table();
    assert_eq!(d.close(1), Ok(()));
    assert_eq!(d.close(1), Err(ERRNO_BADF));
    assert_eq!(d.close(3), Err(ERRNO_BADF));
    assert_eq!(closed_link(&d, 1), Some(None));
    assert_eq!(closed_link(&d, 0), None);
    assert_eq!(d.get_read_stream(1, no_read), Err(ERRNO_BADF));
    assert_eq!(d.get_write_stream(1, no_append, no_write), Err(ERRNO_BADF));
    assert_eq!(d.get_write_stream(2, no_append, no_write), Ok(&102));
}

#[test]
fn close_drops_what_was_held() {
    let handle: Rc<()> = Rc::new(());
    let mut d: Descriptors<Counted> = table_with(&[]);
    assert_eq!(d.open(socket(handle.clone())), Ok(3));
    assert_eq!(Rc::strong_count(&handle), 2);
    assert_eq!(d.close(3), Ok(()));
    assert_eq!(Rc::strong_count(&handle), 1);
}

#[test]
fn renumber_drops_what_was_replaced() {
    let old: Rc<()> = Rc::new(());
    let new: Rc<()> = Rc::new(());
    let mut d: Descriptors<Counted> = table_with(&[]);
    assert_eq!(d.open(socket(old.clone())), Ok(3));
    assert_eq!(d.open(socket(new.clone())), Ok(4));
    assert_eq!(d.renumber(4, 3), Ok(()));
    assert_eq!(Rc::strong_count(&old), 1);
    assert_eq!(Rc::strong_count(&new), 2);
}

#[test]
fn closed_last_is_opened_first() {
    let mut d = stdio_table();
    d.close(0).unwrap();
    d.close(2).unwrap();
    d.close(1).unwrap();
    // The free-list: 1, 2, 0.
    assert_eq!(closed_link(&d, 1), Some(Some(2)));
    assert_eq!(closed_link(&d, 2), Some(Some(0)));
    assert_eq!(closed_link(&d, 0), Some(None));
    assert_eq!(open_socket(&mut d, 10), Ok(1));
    assert_eq!(open_socket(&mut d, 11), Ok(2));
    assert_eq!(open_socket(&mut d, 12), Ok(0));
    assert_eq!(open_socket(&mut d, 13), Ok(3));
    assert_eq!(d.get_socket(1), Ok(&10));
    assert_eq!(d.get_socket(2), Ok(&11));
    assert_eq!(d.get_socket(0), Ok(&12));
}

#[test]
fn closing_undoes_opening() {
    let mut d = stdio_table();
    d.close(0).unwrap();
    d.close(1).unwrap();
    assert_eq!(open_socket(&mut d, 9), Ok(1));
    d.close(1).unwrap();
    assert_eq!(closed_link(&d, 1), Some(Some(0)));
    assert_eq!(closed_link(&d, 0), Some(None));
    assert_eq!(slots(&d), 3);

    let mut grown = stdio_table();
    assert_eq!(open_socket(&mut grown, 9), Ok(3));
    grown.close(3).unwrap();
    assert_eq!(slots(&grown), 4);
    assert_eq!(closed_link(&grown, 3), Some(None));
}

#[test]
fn open_fails_only_when_full() {
    let mut d = stdio_table();
    for fd in 3..128u32 {
        assert_eq!(open_socket(&mut d, fd), Ok(fd));
    }
    assert_eq!(open_socket(&mut d, 128), Err(ERRNO_NOMEM));
    assert_eq!(slots(&d), 128);
    d.close(77).unwrap();
    assert_eq!(open_socket(&mut d, 5), Ok(77));
    assert_eq!(open_socket(&mut d, 6), Err(ERRNO_NOMEM));
}

#[test]
fn renumber_moves_onto_open_descriptor() {
    let mut d = stdio_table();
    open_socket(&mut d, 40).unwrap();
    open_socket(&mut d, 41).unwrap();
    d.close(0).unwrap();
    assert_eq!(d.renumber(3, 4), Ok(()));
    assert_eq!(d.get_socket(4), Ok(&40));
    assert_eq!(closed_link(&d, 3), Some(Some(0)));
    assert_eq!(open_socket(&mut d, 42), Ok(3));
    assert_eq!(open_socket(&mut d, 43), Ok(0));
    assert_eq!(open_socket(&mut d, 44), Ok(5));
}

#[test]
fn renumber_grows_the_table() {
    let mut d = stdio_table();
    open_socket(&mut d, 40).unwrap();
    assert_eq!(d.renumber(3, 6), Ok(()));
    assert_eq!(slots(&d), 7);
    assert_eq!(d.get_socket(6), Ok(&40));
    // The free-list: 3, 5, 4.
    assert_eq!(closed_link(&d, 3), Some(Some(5)));
    assert_eq!(closed_link(&d, 5), Some(Some(4)));
    assert_eq!(closed_link(&d, 4), Some(None));
    assert_eq!(open_socket(&mut d, 41), Ok(3));
    assert_eq!(open_socket(&mut d, 42), Ok(5));
    assert_eq!(open_socket(&mut d, 43), Ok(4));
    assert_eq!(open_socket(&mut d, 44), Ok(7));
    assert_eq!(d.get_socket(6), Ok(&40));
}

#[test]
fn renumber_onto_new_slot_leaves_it_open() {
    let mut d = stdio_table();
    assert_eq!(d.renumber(1, 3), Ok(()));
    assert_eq!(open_socket(&mut d, 41), Ok(1));
    assert_eq!(open_socket(&mut d, 42), Ok(4));
    assert_eq!(d.get_write_stream(3, no_append, no_write), Ok(&101));
}

#[test]
fn renumber_takes_closed_slot_off_the_free_list() {
    // The slot stands in the front, in the middle and at the end of the list 5, 4, 3.
    let expected: [(Fd, [Fd; 3]); 3] = [(5, [6, 4, 3]), (4, [6, 5, 3]), (3, [6, 5, 4])];
    for (to_fd, order) in expected {
        let mut d = stdio_table();
        for handle in 40..44u32 {
            open_socket(&mut d, handle).unwrap();
        }
        for fd in 3..6u32 {
            d.close(fd).unwrap();
        }
        assert_eq!(d.renumber(6, to_fd), Ok(()));
        assert_eq!(d.get_socket(to_fd), Ok(&43));
        for fd in order {
            assert_eq!(open_socket(&mut d, 50), Ok(fd));
        }
        assert_eq!(open_socket(&mut d, 51), Ok(7));
        assert_eq!(d.get_socket(to_fd), Ok(&43));
    }
}

#[test]
fn renumber_onto_itself_changes_nothing() {
    let mut d = stdio_table();
    d.close(0).unwrap();
    assert_eq!(d.renumber(1, 1), Ok(()));
    assert_eq!(d.get_write_stream(1, no_append, no_write), Ok(&101));
    assert_eq!(slots(&d), 3);
    assert_eq!(closed_link(&d, 0), Some(None));
    assert_eq!(d.renumber(0, 0), Err(ERRNO_BADF));
    assert_eq!(open_socket(&mut d, 40), Ok(0));
    assert_eq!(d.renumber(1, 1), Ok(()));
    assert_eq!(open_socket(&mut d, 41), Ok(3));
}

#[test]
fn renumber_from_no_slot_changes_nothing() {
    let mut d = stdio_table();
    assert_eq!(d.renumber(3, 50), Err(ERRNO_BADF));
    assert_eq!(slots(&d), 3);
}

#[test]
fn renumber_from_closed_slot_still_grows() {
    let mut d = stdio_table();
    d.close(1).unwrap();
    assert_eq!(d.renumber(1, 4), Err(ERRNO_BADF));
    assert_eq!(slots(&d), 5);
    assert_eq!(closed_link(&d, 4), Some(Some(3)));
    assert_eq!(closed_link(&d, 3), Some(Some(1)));
    assert_eq!(closed_link(&d, 1), Some(None));
    assert_eq!(open_socket(&mut d, 1), Ok(4));
    assert_eq!(open_socket(&mut d, 2), Ok(3));
    assert_eq!(open_socket(&mut d, 3), Ok(1));
}

#[test]
fn renumber_beyond_capacity_fails() {
    let mut d = stdio_table();
    assert_eq!(d.renumber(0, 128), Err(ERRNO_NOMEM));
    assert_eq!(slots(&d), 128);
    assert_eq!(d.get_read_stream(0, no_read), Ok(&100));
    assert_eq!(closed_link(&d, 127), Some(Some(126)));
    assert_eq!(closed_link(&d, 3), Some(None));
    assert_eq!(open_socket(&mut d, 1), Ok(127));

    let mut edge = stdio_table();
    assert_eq!(edge.renumber(0, 127), Ok(()));
    assert_eq!(edge.get_read_stream(127, no_read), Ok(&100));
    assert_eq!(edge.renumber(1, u32::MAX), Err(ERRNO_NOMEM));
}

#[test]
fn renumber_leaves_preopens_alone() {
    let mut d: Descriptors<Numbers> = table_with(&[(7, "/tmp", DescriptorType::Directory)]);
    assert_eq!(d.renumber(0, 3), Ok(()));
    assert_eq!(d.get_preopen(3).unwrap().path, "/tmp");
    assert_eq!(errno_of(d.get_dir(3)), ERRNO_BADF);
}

#[test]
fn read_stream_is_opened_once() {
    let mut d = stdio_table();
    let file = file_at(7, DescriptorType::RegularFile, 512, false);
    assert_eq!(d.open(Descriptor::Streams(file)), Ok(3));
    let opener = |fd: &u32, position: u64| -> Result<u32, Errno> {
        assert_eq!((*fd, position), (7, 512));
        Ok(70)
    };
    assert_eq!(d.get_read_stream(3, opener), Ok(&70));
    assert_eq!(d.get_read_stream(3, no_read), Ok(&70));
    let streams = d.get_stream_with_error(3, ERRNO_INVAL).ok().unwrap();
    assert_eq!(streams.input, Some(70));
    assert_eq!(streams.output, None);
}

#[test]
fn write_stream_is_opened_once() {
    let mut d = stdio_table();
    let file = file_at(7, DescriptorType::RegularFile, 512, false);
    assert_eq!(d.open(Descriptor::Streams(file)), Ok(3));
    let opener = |fd: &u32, position: u64| -> Result<u32, Errno> {
        assert_eq!((*fd, position), (7, 512));
        Ok(71)
    };
    assert_eq!(d.get_write_stream(3, no_append, opener), Ok(&71));
    assert_eq!(d.get_write_stream(3, no_append, no_write), Ok(&71));
    let streams = d.get_seekable_stream(3).ok().unwrap();
    assert_eq!(streams.input, None);
    assert_eq!(streams.output, Some(71));
}

#[test]
fn appending_ignores_the_position() {
    let mut streams = file_at(7, DescriptorType::RegularFile, 512, true);
    let opener = |fd: &u32| -> Result<u32, Errno> { Ok(*fd + 1) };
    assert_eq!(streams.get_write_stream(opener, no_write), Ok(&8));
    assert_eq!(streams.output, Some(8));
}

#[test]
fn host_errors_are_handed_on() {
    let mut streams = file_at(7, DescriptorType::Fifo, 0, false);
    assert_eq!(streams.get_read_stream(|_: &u32, _: u64| Err(63)), Err(63));
    assert_eq!(streams.input, None);
    assert_eq!(streams.get_write_stream(no_append, |_: &u32, _: u64| Err(64)), Err(64));
    assert_eq!(streams.output, None);
    // The next request asks the host again.
    assert_eq!(streams.get_read_stream(|fd: &u32, _: u64| Ok(*fd)), Ok(&7));
}

#[test]
fn directories_are_neither_read_nor_written() {
    let mut d: Descriptors<Numbers> = table_with(&[(7, "/", DescriptorType::Directory)]);
    assert_eq!(d.get_read_stream(3, no_read), Err(ERRNO_BADF));
    assert_eq!(d.get_write_stream(3, no_append, no_write), Err(ERRNO_BADF));
    // A stream that is there already is given back.
    let mut streams = file_at(7, DescriptorType::Directory, 0, false);
    streams.input = Some(5);
    assert_eq!(streams.get_read_stream(no_read), Ok(&5));
}

#[test]
fn sockets_open_no_streams() {
    let mut d = stdio_table();
    open_socket(&mut d, 40).unwrap();
    assert_eq!(d.get_read_stream(3, no_read), Err(ERRNO_BADF));
    assert_eq!(d.get_write_stream(3, no_append, no_write), Err(ERRNO_BADF));
}

#[test]
fn lookups_tell_files_directories_and_sockets_apart() {
    let mut d: Descriptors<Numbers> = table_with(&[
        (7, "/", DescriptorType::Directory),
        (8, "/dev/null", DescriptorType::CharacterDevice),
    ]);
    assert_eq!(open_socket(&mut d, 40), Ok(5));
    assert_eq!(open_socket(&mut d, 41), Ok(6));
    d.close(6).unwrap();

    // Standard input
    assert_eq!(errno_of(d.get_file(0)), ERRNO_INVAL);
    assert_eq!(errno_of(d.get_seekable_file(0)), ERRNO_SPIPE);
    assert_eq!(errno_of(d.get_file_with_error(0, 99)), 99);
    assert_eq!(errno_of(d.get_dir(0)), ERRNO_BADF);
    assert_eq!(errno_of(d.get_socket(0)), ERRNO_INVAL);
    assert!(d.get_seekable_stream(0).is_ok());
    // A directory
    assert_eq!(errno_of(d.get_file(3)), ERRNO_BADF);
    assert_eq!(errno_of(d.get_seekable_file(3)), ERRNO_BADF);
    assert_eq!(d.get_dir(3).ok().unwrap().fd, 7);
    assert_eq!(errno_of(d.get_socket(3)), ERRNO_INVAL);
    // A file
    assert_eq!(d.get_file(4).ok().unwrap().fd, 8);
    assert_eq!(d.get_seekable_file(4).ok().unwrap().fd, 8);
    assert_eq!(errno_of(d.get_dir(4)), ERRNO_NOTDIR);
    assert_eq!(errno_of(d.get_socket(4)), ERRNO_INVAL);
    // A socket
    assert_eq!(errno_of(d.get_file(5)), ERRNO_INVAL);
    assert_eq!(errno_of(d.get_seekable_file(5)), ERRNO_SPIPE);
    assert_eq!(errno_of(d.get_dir(5)), ERRNO_BADF);
    assert_eq!(d.get_socket(5), Ok(&40));
    // A closed descriptor, and none at all
    for fd in 6..8u32 {
        assert_eq!(errno_of(d.get_file(fd)), ERRNO_BADF);
        assert_eq!(errno_of(d.get_seekable_file(fd)), ERRNO_BADF);
        assert_eq!(errno_of(d.get_dir(fd)), ERRNO_BADF);
        assert_eq!(errno_of(d.get_socket(fd)), ERRNO_BADF);
        assert_eq!(errno_of(d.get_seekable_stream(fd)), ERRNO_BADF);
        assert_eq!(errno_of(d.get_stream_with_error(fd, ERRNO_SPIPE)), ERRNO_BADF);
    }
}
