use pyxet::errors::XetError;
use pyxet::rfile::{
    find_newline, PyRFile, PyROFileIO, ReadCursor, ReadPlan, ReadRequest, MAX_READ_SIZE,
    MOUNT_MAX_READ_SIZE, NEWLINE, SEEK_CUR, SEEK_END, SEEK_SET,
};

/// A remote object held in memory.
struct Remote {
    content: Vec<u8>,
    reads: usize,
}

impl Remote {
    fn new(content: &[u8]) -> Remote {
        Remote { content: content.to_vec(), reads: 0 }
    }

    fn read(&mut self, request: ReadRequest) -> (Vec<u8>, bool) {
        self.reads += 1;
        let len = self.content.len() as u64;
        let start = request.offset.min(len);
        let end = (start + request.max_len as u64).min(len);
        (self.content[start as usize..end as usize].to_vec(), end == len)
    }
}

fn read_all<const CHUNK: u32>(file: &mut ReadCursor<CHUNK>, remote: &mut Remote) -> Vec<u8> {
    let mut out = Vec::new();
    while let Some(request) = file.readall() {
        let (reply, _) = remote.read(request);
        out.extend(file.read_impl(request.max_len, reply).unwrap());
    }
    out
}

fn read_line<const CHUNK: u32>(file: &mut ReadCursor<CHUNK>, remote: &mut Remote, size: i64) -> Vec<u8> {
    let mut line = Vec::new();
    while let Some(request) = file.readline(size, line.len()) {
        let (reply, eof) = remote.read(request);
        if file.readline_impl(&mut line, request.max_len, reply, eof).unwrap() {
            break;
        }
    }
    line
}

fn read_lines<const CHUNK: u32>(file: &mut ReadCursor<CHUNK>, remote: &mut Remote, num_lines: i64) -> Vec<Vec<u8>> {
    let mut lines = Vec::new();
    loop {
        let line = read_line(file, remote, -1);
        if !ReadCursor::<CHUNK>::readlines(num_lines, &mut lines, line) {
            break;
        }
    }
    lines
}

fn read_into<const CHUNK: u32>(file: &mut ReadCursor<CHUNK>, remote: &mut Remote, buffer: &mut [u8]) -> usize {
    let mut curoff = 0;
    while let Some(request) = file.readinto(buffer.len(), curoff) {
        let (reply, _) = remote.read(request);
        let bytes = file.read_impl(request.max_len, reply).unwrap();
        buffer[curoff..curoff + bytes.len()].copy_from_slice(&bytes);
        curoff += bytes.len();
    }
    curoff
}

#[test]
fn constants_have_their_values() {
    assert_eq!(MAX_READ_SIZE, 8 * 1024 * 1024);
    assert_eq!(MOUNT_MAX_READ_SIZE, 4 * 1024 * 1024);
    assert_eq!(NEWLINE, b'\n');
    assert_eq!((SEEK_SET, SEEK_CUR, SEEK_END), (0, 1, 2));
    assert_eq!(PyRFile::new(0).chunk_size(), 8388608);
    assert_eq!(PyROFileIO::new(0).chunk_size(), 4194304);
}

#[test]
fn new_file_starts_open_at_zero() {
    let f = PyRFile::new(100);
    assert_eq!(f.tell(), 0);
    assert_eq!(f.len(), 100);
    assert!(!f.is_closed());
    assert!(f.readable());
    assert!(f.seekable());
    assert!(!f.writable());
}

#[test]
fn close_makes_the_file_unreadable_and_keeps_the_cursor() {
    let mut f = PyRFile::new(100);
    f.seek(30, SEEK_SET).unwrap();
    f.close();
    assert!(f.is_closed());
    assert!(!f.readable());
    assert!(f.seekable());
    assert_eq!(f.tell(), 30);
    f.close();
    assert!(f.is_closed());
}

#[test]
fn write_is_refused() {
    let f = PyRFile::new(100);
    assert_eq!(f.write(b"abc"), Err(XetError::ReadOnlyFile));
    assert_eq!(f.write(b""), Err(XetError::ReadOnlyFile));
}

#[test]
fn seek_set_moves_to_the_offset() {
    let mut f = PyRFile::new(10);
    assert_eq!(f.seek(0, SEEK_SET), Ok(0));
    assert_eq!(f.seek(4, SEEK_SET), Ok(4));
    assert_eq!(f.seek(9, SEEK_SET), Ok(9));
    assert_eq!(f.tell(), 9);
}

#[test]
fn seek_past_the_end_lands_on_the_end() {
    let mut f = PyRFile::new(10);
    assert_eq!(f.seek(10, SEEK_SET), Ok(10));
    assert_eq!(f.seek(11, SEEK_SET), Ok(10));
    assert_eq!(f.seek(i64::MAX, SEEK_SET), Ok(10));
    f.seek(5, SEEK_SET).unwrap();
    assert_eq!(f.seek(i64::MAX, SEEK_CUR), Ok(10));
    assert_eq!(f.seek(1, SEEK_END), Ok(10));
    assert_eq!(f.seek(i64::MAX, SEEK_END), Ok(10));
}

#[test]
fn seek_before_the_start_lands_on_the_end() {
    let mut f = PyRFile::new(10);
    assert_eq!(f.seek(-1, SEEK_SET), Ok(10));
    f.seek(3, SEEK_SET).unwrap();
    assert_eq!(f.seek(-4, SEEK_CUR), Ok(10));
    assert_eq!(f.seek(-11, SEEK_END), Ok(10));
    assert_eq!(f.seek(i64::MIN, SEEK_SET), Ok(10));
    assert_eq!(f.seek(i64::MIN, SEEK_CUR), Ok(10));
    assert_eq!(f.seek(i64::MIN, SEEK_END), Ok(10));
}

#[test]
fn seek_cur_and_end_move_relatively() {
    let mut f = PyRFile::new(10);
    f.seek(3, SEEK_SET).unwrap();
    assert_eq!(f.seek(2, SEEK_CUR), Ok(5));
    assert_eq!(f.seek(-5, SEEK_CUR), Ok(0));
    assert_eq!(f.seek(0, SEEK_CUR), Ok(0));
    assert_eq!(f.seek(-3, SEEK_END), Ok(7));
    assert_eq!(f.seek(-10, SEEK_END), Ok(0));
    assert_eq!(f.seek(0, SEEK_END), Ok(10));
}

#[test]
fn seek_on_files_larger_than_i64() {
    let mut f = PyRFile::new(u64::MAX);
    assert_eq!(f.seek(0, SEEK_END), Ok(u64::MAX));
    assert_eq!(f.seek(-1, SEEK_END), Ok(u64::MAX - 1));
    assert_eq!(f.seek(-1, SEEK_CUR), Ok(u64::MAX - 2));
    assert_eq!(f.seek(1, SEEK_CUR), Ok(u64::MAX - 1));
    assert_eq!(f.seek(1, SEEK_CUR), Ok(u64::MAX));
}

#[test]
fn seek_in_an_empty_file_stays_at_zero() {
    let mut f = PyRFile::new(0);
    assert_eq!(f.seek(0, SEEK_SET), Ok(0));
    assert_eq!(f.seek(5, SEEK_CUR), Ok(0));
    assert_eq!(f.seek(-5, SEEK_END), Ok(0));
}

#[test]
fn seek_with_unknown_whence_is_refused_and_leaves_the_cursor() {
    let mut f = PyRFile::new(10);
    f.seek(4, SEEK_SET).unwrap();
    assert_eq!(f.seek(1, 3), Err(XetError::InvalidWhence));
    assert_eq!(f.seek(1, usize::MAX), Err(XetError::InvalidWhence));
    assert_eq!(f.tell(), 4);
}

#[test]
fn read_asks_for_one_capped_request() {
    let mut f = PyRFile::new(1 << 40);
    f.seek(100, SEEK_SET).unwrap();
    assert_eq!(f.read(1), ReadPlan::Once(ReadRequest { offset: 100, max_len: 1 }));
    assert_eq!(f.read(8388607), ReadPlan::Once(ReadRequest { offset: 100, max_len: 8388607 }));
    assert_eq!(f.read(8388608), ReadPlan::Once(ReadRequest { offset: 100, max_len: 8388608 }));
    assert_eq!(f.read(8388609), ReadPlan::Once(ReadRequest { offset: 100, max_len: 8388608 }));
    assert_eq!(f.read(i64::MAX), ReadPlan::Once(ReadRequest { offset: 100, max_len: 8388608 }));
    assert_eq!(f.read(0), ReadPlan::All);
    assert_eq!(f.read(-1), ReadPlan::All);
    assert_eq!(f.read(i64::MIN), ReadPlan::All);
}

#[test]
fn read_impl_hands_the_reply_on_and_advances() {
    let mut f = PyRFile::new(10);
    assert_eq!(f.read_impl(4, vec![1, 2, 3]), Ok(vec![1, 2, 3]));
    assert_eq!(f.tell(), 3);
    assert_eq!(f.read_impl(7, vec![4, 5, 6, 7, 8, 9, 10]), Ok(vec![4, 5, 6, 7, 8, 9, 10]));
    assert_eq!(f.tell(), 10);
    assert_eq!(f.read_impl(5, vec![]), Ok(vec![]));
    assert_eq!(f.tell(), 10);
}

#[test]
fn read_impl_refuses_replies_beyond_the_request_or_the_file() {
    let mut f = PyRFile::new(10);
    assert_eq!(f.read_impl(2, vec![1, 2, 3]), Err(XetError::RemoteFailure));
    assert_eq!(f.tell(), 0);
    f.seek(8, SEEK_SET).unwrap();
    assert_eq!(f.read_impl(5, vec![1, 2, 3]), Err(XetError::RemoteFailure));
    assert_eq!(f.tell(), 8);
    assert_eq!(f.read_impl(5, vec![1, 2]), Ok(vec![1, 2]));
    assert_eq!(f.read_impl(0, vec![1]), Err(XetError::RemoteFailure));
}

#[test]
fn read_at_end_returns_empty() {
    let content = b"hello world";
    let mut remote = Remote::new(content);
    let mut f = PyRFile::new(content.len() as u64);
    assert_eq!(f.seek(0, SEEK_END), Ok(11));
    let request = match f.read(1) {
        ReadPlan::Once(request) => request,
        ReadPlan::All => panic!("a read of one byte is a single read"),
    };
    assert_eq!(request, ReadRequest { offset: 11, max_len: 1 });
    let (reply, eof) = remote.read(request);
    assert!(eof);
    assert_eq!(f.read_impl(request.max_len, reply), Ok(vec![]));
    assert_eq!(f.tell(), 11);
    assert_eq!(f.readall(), None);
}

#[test]
fn read_all_round_trip() {
    let content: Vec<u8> = (0..=255u8).cycle().take(1000).collect();
    let mut remote = Remote::new(&content);
    let mut f: ReadCursor<64> = ReadCursor::new(content.len() as u64);
    assert_eq!(read_all(&mut f, &mut remote), content);
    assert_eq!(f.tell(), 1000);
    assert_eq!(remote.reads, 16);
    assert_eq!(read_all(&mut f, &mut remote), Vec::<u8>::new());
}

#[test]
fn read_all_from_the_middle_returns_the_rest() {
    let content = b"0123456789";
    let mut remote = Remote::new(content);
    let mut f: ReadCursor<3> = ReadCursor::new(10);
    f.seek(4, SEEK_SET).unwrap();
    assert_eq!(f.readall(), Some(ReadRequest { offset: 4, max_len: 3 }));
    assert_eq!(read_all(&mut f, &mut remote), b"456789");
    assert_eq!(f.readall(), None);
}

#[test]
fn read_all_of_an_empty_file_asks_for_nothing() {
    let mut remote = Remote::new(b"");
    let mut f = PyRFile::new(0);
    assert_eq!(f.readall(), None);
    assert_eq!(read_all(&mut f, &mut remote), Vec::<u8>::new());
    assert_eq!(remote.reads, 0);
}

#[test]
fn readall_asks_for_whole_chunks() {
    let f = PyRFile::new(10);
    assert_eq!(f.readall(), Some(ReadRequest { offset: 0, max_len: MAX_READ_SIZE }));
    let g = PyROFileIO::new(10);
    assert_eq!(g.readall(), Some(ReadRequest { offset: 0, max_len: MOUNT_MAX_READ_SIZE }));
}

#[test]
fn find_newline_finds_the_first_one() {
    assert_eq!(find_newline(&b"".to_vec()), None);
    assert_eq!(find_newline(&b"abc".to_vec()), None);
    assert_eq!(find_newline(&b"\n".to_vec()), Some(0));
    assert_eq!(find_newline(&b"ab\ncd\n".to_vec()), Some(2));
    assert_eq!(find_newline(&b"abcd\n".to_vec()), Some(4));
}

#[test]
fn readline_requests_respect_the_limit() {
    let mut f = PyRFile::new(100);
    f.seek(7, SEEK_SET).unwrap();
    assert_eq!(f.readline(-1, 0), Some(ReadRequest { offset: 7, max_len: MAX_READ_SIZE }));
    assert_eq!(f.readline(-1, 1 << 30), Some(ReadRequest { offset: 7, max_len: MAX_READ_SIZE }));
    assert_eq!(f.readline(10, 0), Some(ReadRequest { offset: 7, max_len: 10 }));
    assert_eq!(f.readline(10, 4), Some(ReadRequest { offset: 7, max_len: 6 }));
    assert_eq!(f.readline(10, 10), None);
    assert_eq!(f.readline(10, 11), None);
    assert_eq!(f.readline(0, 0), None);
    assert_eq!(f.readline(i64::MAX, 0), Some(ReadRequest { offset: 7, max_len: MAX_READ_SIZE }));
}

#[test]
fn readline_impl_stops_after_the_first_newline() {
    let mut f = PyRFile::new(20);
    let mut line = b"ab".to_vec();
    assert_eq!(f.readline_impl(&mut line, 10, b"cd\nef\ngh".to_vec(), false), Ok(true));
    assert_eq!(line, b"abcd\n");
    assert_eq!(f.tell(), 3);
}

#[test]
fn readline_impl_takes_everything_without_a_newline() {
    let mut f = PyRFile::new(20);
    let mut line = b"ab".to_vec();
    assert_eq!(f.readline_impl(&mut line, 10, b"cdef".to_vec(), false), Ok(false));
    assert_eq!(line, b"abcdef");
    assert_eq!(f.tell(), 4);
    assert_eq!(f.readline_impl(&mut line, 10, b"gh".to_vec(), true), Ok(true));
    assert_eq!(line, b"abcdefgh");
    assert_eq!(f.tell(), 6);
    assert_eq!(f.readline_impl(&mut line, 10, vec![], true), Ok(true));
    assert_eq!(f.readline_impl(&mut line, 10, vec![], false), Ok(false));
    assert_eq!(line, b"abcdefgh");
}

#[test]
fn readline_impl_refuses_a_bad_reply() {
    let mut f = PyRFile::new(3);
    let mut line = b"ab".to_vec();
    assert_eq!(f.readline_impl(&mut line, 10, b"cd\nef".to_vec(), false), Err(XetError::RemoteFailure));
    assert_eq!(f.readline_impl(&mut line, 1, b"c\n".to_vec(), false), Err(XetError::RemoteFailure));
    assert_eq!(line, b"ab");
    assert_eq!(f.tell(), 0);
}

#[test]
fn read_line_returns_lines_with_their_newline() {
    let content = b"first\nsecond line\n\nlast";
    let mut remote = Remote::new(content);
    let mut f: ReadCursor<4> = ReadCursor::new(content.len() as u64);
    assert_eq!(read_line(&mut f, &mut remote, -1), b"first\n");
    assert_eq!(f.tell(), 6);
    assert_eq!(read_line(&mut f, &mut remote, -1), b"second line\n");
    assert_eq!(f.tell(), 18);
    assert_eq!(read_line(&mut f, &mut remote, -1), b"\n");
    assert_eq!(read_line(&mut f, &mut remote, -1), b"last");
    assert_eq!(f.tell(), content.len() as u64);
    assert_eq!(read_line(&mut f, &mut remote, -1), b"");
}

#[test]
fn read_line_without_newline_returns_the_rest() {
    let content = b"no newline in here at all";
    let mut remote = Remote::new(content);
    let mut f: ReadCursor<7> = ReadCursor::new(content.len() as u64);
    f.seek(3, SEEK_SET).unwrap();
    let line = read_line(&mut f, &mut remote, -1);
    assert_eq!(line, b"newline in here at all");
    assert!(!line.contains(&b'\n'));
    assert_eq!(f.tell(), content.len() as u64);
}

#[test]
fn read_line_stops_at_the_limit() {
    let content = b"abcdefghij\nklm";
    let mut remote = Remote::new(content);
    let mut f: ReadCursor<4> = ReadCursor::new(content.len() as u64);
    assert_eq!(read_line(&mut f, &mut remote, 6), b"abcdef");
    assert_eq!(f.tell(), 6);
    assert_eq!(read_line(&mut f, &mut remote, 0), b"");
    assert_eq!(f.tell(), 6);
    assert_eq!(read_line(&mut f, &mut remote, 5), b"ghij\n");
    assert_eq!(f.tell(), 11);
    assert_eq!(read_line(&mut f, &mut remote, 100), b"klm");
}

#[test]
fn readlines_collects_until_the_count_or_the_end() {
    let content = b"a\nbb\nccc\ndddd";
    let mut remote = Remote::new(content);
    let mut f: ReadCursor<2> = ReadCursor::new(content.len() as u64);
    assert_eq!(read_lines(&mut f, &mut remote, 2), vec![b"a\n".to_vec(), b"bb\n".to_vec()]);
    assert_eq!(f.tell(), 5);
    assert_eq!(read_lines(&mut f, &mut remote, -1), vec![b"ccc\n".to_vec(), b"dddd".to_vec()]);
    assert_eq!(read_lines(&mut f, &mut remote, 0), Vec::<Vec<u8>>::new());
    f.seek(0, SEEK_SET).unwrap();
    assert_eq!(read_lines(&mut f, &mut remote, 0).len(), 4);
}

#[test]
fn readlines_step_says_when_to_stop() {
    let mut lines: Vec<Vec<u8>> = Vec::new();
    assert!(PyRFile::readlines(2, &mut lines, b"a\n".to_vec()));
    assert!(!PyRFile::readlines(2, &mut lines, b"b\n".to_vec()));
    assert_eq!(lines.len(), 2);
    assert!(!PyRFile::readlines(5, &mut lines, vec![]));
    assert_eq!(lines.len(), 2);
    assert!(PyRFile::readlines(-1, &mut lines, b"c".to_vec()));
    assert!(PyRFile::readlines(0, &mut lines, b"d".to_vec()));
    assert_eq!(lines, vec![b"a\n".to_vec(), b"b\n".to_vec(), b"c".to_vec(), b"d".to_vec()]);
}

#[test]
fn readinto1_asks_for_one_read_of_the_buffer_size() {
    let mut f = PyRFile::new(100);
    f.seek(5, SEEK_SET).unwrap();
    assert_eq!(f.readinto1(0), ReadRequest { offset: 5, max_len: 0 });
    assert_eq!(f.readinto1(16), ReadRequest { offset: 5, max_len: 16 });
    assert_eq!(f.readinto1(usize::MAX), ReadRequest { offset: 5, max_len: MAX_READ_SIZE });
}

#[test]
fn readinto_fills_the_buffer_or_reads_to_the_end() {
    let content = b"0123456789";
    let mut remote = Remote::new(content);
    let mut f: ReadCursor<3> = ReadCursor::new(10);

    let mut small = [0u8; 4];
    assert_eq!(read_into(&mut f, &mut remote, &mut small), 4);
    assert_eq!(&small, b"0123");
    assert_eq!(f.tell(), 4);

    let mut large = [0u8; 16];
    assert_eq!(read_into(&mut f, &mut remote, &mut large), 6);
    assert_eq!(&large[..6], b"456789");
    assert_eq!(f.tell(), 10);

    assert_eq!(read_into(&mut f, &mut remote, &mut large), 0);
}

#[test]
fn readinto_requests_shrink_with_the_room_left() {
    let f: ReadCursor<8> = ReadCursor::new(100);
    assert_eq!(f.readinto(20, 0), Some(ReadRequest { offset: 0, max_len: 8 }));
    assert_eq!(f.readinto(20, 15), Some(ReadRequest { offset: 0, max_len: 5 }));
    assert_eq!(f.readinto(20, 20), None);
    assert_eq!(f.readinto(20, 21), None);
    assert_eq!(f.readinto(0, 0), None);
}

#[test]
fn copies_are_independent_cursors() {
    let mut a = PyRFile::new(10);
    a.seek(4, SEEK_SET).unwrap();
    let mut b = a;
    b.seek(2, SEEK_CUR).unwrap();
    b.close();
    assert_eq!(a.tell(), 4);
    assert!(!a.is_closed());
    assert_eq!(b.tell(), 6);
    assert!(b.is_closed());
    let c = a.clone();
    assert_eq!(c.tell(), 4);
}
