use crate::errors::XetError;
use vstd::prelude::*;

verus! {

/// The largest number of bytes asked of the remote store in one read.
pub const MAX_READ_SIZE: u32 = 8 * 1024 * 1024;

/// The largest number of bytes asked of a mounted file system in one read.
pub const MOUNT_MAX_READ_SIZE: u32 = 4 * 1024 * 1024;

/// Seek origin: the start of the file.
pub const SEEK_SET: usize = 0;

/// Seek origin: the current position.
pub const SEEK_CUR: usize = 1;

/// Seek origin: the end of the file.
pub const SEEK_END: usize = 2;

/// The byte that ends a line.
pub const NEWLINE: u8 = 10;

/// Where a seek lands in a file of `len` bytes whose cursor stands at `pos`.
///
/// The offset is added to the origin that `whence` names. A result inside the file is kept; one
/// at or past the end, or before the start, lands on the end.
pub open spec fn seek_target(pos: int, len: int, offset: int, whence: int) -> int {
    let raw = if whence == SEEK_SET {
        offset
    } else if whence == SEEK_CUR {
        pos + offset
    } else {
        len + offset
    };
    if 0 <= raw < len {
        raw
    } else {
        len
    }
}

/// Whether `whence` names a seek origin.
pub open spec fn valid_whence(whence: int) -> bool {
    whence == SEEK_SET || whence == SEEK_CUR || whence == SEEK_END
}

/// The index of the first newline in `bytes`, if there is one.
pub open spec fn first_newline(bytes: Seq<u8>) -> Option<int> {
    bytes.index_of_first(NEWLINE)
}

/// How many leading bytes of `bytes` belong to its first line: those up to and including the
/// first newline, or all of them where there is no newline.
pub open spec fn line_take(bytes: Seq<u8>) -> int {
    match first_newline(bytes) {
        Some(k) => k + 1,
        None => bytes.len() as int,
    }
}

/// The smaller of two integers.
pub open spec fn min_int(a: int, b: int) -> int {
    if a <= b {
        a
    } else {
        b
    }
}

/// One read to be made on the remote object: at most `max_len` bytes, starting at `offset`.
#[derive(Clone, Copy, Debug, PartialEq, Eq, Structural)]
pub struct ReadRequest {
    pub offset: u64,
    pub max_len: u32,
}

/// What a call of `read` asks for.
#[derive(Clone, Copy, Debug, PartialEq, Eq, Structural)]
pub enum ReadPlan {
    /// Everything from the current position to the end of the file.
    All,
    /// The bytes that one remote read returns.
    Once(ReadRequest),
}

/// The state of a read-only file, as contracts speak of it.
pub ghost struct RFileView {
    /// The offset of the next byte to read.
    pub pos: nat,
    /// The length of the file, fixed when it was opened.
    pub file_len: nat,
    /// Whether the file has been closed.
    pub closed: bool,
    /// The largest number of bytes asked for in one remote read.
    pub chunk: nat,
}

impl RFileView {
    /// The cursor never stands past the end of the file.
    pub open spec fn wf(self) -> bool {
        self.pos <= self.file_len
    }

    /// The state of a file of `file_len` bytes that has just been opened.
    pub open spec fn opened(file_len: nat, chunk: nat) -> RFileView {
        RFileView { pos: 0, file_len, closed: false, chunk }
    }

    /// The same file with its cursor at `pos`.
    pub open spec fn at(self, pos: nat) -> RFileView {
        RFileView { pos, ..self }
    }

    /// The same file with its cursor `n` bytes further.
    pub open spec fn advance(self, n: nat) -> RFileView {
        self.at(self.pos + n)
    }

    /// The same file after a seek.
    pub open spec fn seek(self, offset: int, whence: int) -> RFileView {
        self.at(seek_target(self.pos as int, self.file_len as int, offset, whence) as nat)
    }

    /// A read of at most `max_len` bytes at the cursor.
    pub open spec fn request(self, max_len: int) -> ReadRequest {
        ReadRequest { offset: self.pos as u64, max_len: max_len as u32 }
    }

    /// Whether `reply` can be the answer to a read of at most `size` bytes at the cursor: it is no
    /// longer than what was asked for, and does not reach past the end of the file.
    pub open spec fn accepts(self, size: int, reply: Seq<u8>) -> bool {
        reply.len() <= size && self.pos + reply.len() <= self.file_len
    }

    /// What `read` asks for.
    pub open spec fn read_plan(self, size: int) -> ReadPlan {
        if size <= 0 {
            ReadPlan::All
        } else {
            ReadPlan::Once(self.request(min_int(size, self.chunk as int)))
        }
    }

    /// The next read of a loop that reads to the end of the file, if one is left to make.
    pub open spec fn readall_request(self) -> Option<ReadRequest> {
        if self.pos < self.file_len {
            Some(self.request(self.chunk as int))
        } else {
            None
        }
    }

    /// The next read of a loop that fills a buffer of `buflen` bytes, of which `curoff` are
    /// filled, if one is left to make.
    pub open spec fn readinto_request(self, buflen: int, curoff: int) -> Option<ReadRequest> {
        if self.pos < self.file_len && curoff < buflen {
            Some(self.request(min_int(buflen - curoff, self.chunk as int)))
        } else {
            None
        }
    }

    /// The next read of a loop that reads one line of at most `size` bytes (of any length where
    /// `size` is negative), of which `have` bytes are read, if one is left to make.
    pub open spec fn readline_request(self, size: int, have: int) -> Option<ReadRequest> {
        if size < 0 {
            Some(self.request(self.chunk as int))
        } else if have < size {
            Some(self.request(min_int(size - have, self.chunk as int)))
        } else {
            None
        }
    }
}

/// The cursor of a read-only file over a remote object: a position, the length that the object
/// had when it was opened, and whether the file has been closed.
///
/// The cursor makes no remote call. Each read is made by the caller: a method says where and how
/// much to read, and `read_impl` or `readline_impl` takes what the remote object returned.
///
/// `CHUNK` is the largest number of bytes that the cursor asks for in one remote read.
#[derive(Clone, Copy, Debug)]
pub struct ReadCursor<const CHUNK: u32> {
    pos: u64,
    file_len: u64,
    closed: bool,
}

/// The read-only file over an object of the remote store. It reads at most 8 MiB at once.
pub type PyRFile = ReadCursor<MAX_READ_SIZE>;

/// The read-only file over a file of a mounted file system. It reads at most 4 MiB at once.
pub type PyROFileIO = ReadCursor<MOUNT_MAX_READ_SIZE>;

impl<const CHUNK: u32> View for ReadCursor<CHUNK> {
    type V = RFileView;

    closed spec fn view(&self) -> RFileView {
        RFileView {
            pos: self.pos as nat,
            file_len: self.file_len as nat,
            closed: self.closed,
            chunk: CHUNK as nat,
        }
    }
}

/// The first newline of a sequence of bytes lies inside it, no newline stands before it, and the
/// first line is never longer than the sequence.
pub proof fn lemma_first_newline(bytes: Seq<u8>)
    ensures
        match first_newline(bytes) {
            Some(k) => {
                &&& 0 <= k < bytes.len()
                &&& bytes[k] == NEWLINE
                &&& forall|j: int| 0 <= j < k ==> bytes[j] != NEWLINE
            },
            None => forall|j: int| 0 <= j < bytes.len() ==> bytes[j] != NEWLINE,
        },
        0 <= line_take(bytes) <= bytes.len(),
        bytes.len() > 0 ==> line_take(bytes) > 0,
{
    bytes.index_of_first_ensures(NEWLINE);
    if first_newline(bytes) is None {
        assert forall|j: int| 0 <= j < bytes.len() implies bytes[j] != NEWLINE by {
            if bytes[j] == NEWLINE {
                assert(bytes.contains(NEWLINE));
            }
        }
    }
}

/// Looks for the first newline in `buf`.
pub fn find_newline(buf: &Vec<u8>) -> (r: Option<usize>)
    ensures
        r is Some ==> first_newline(buf@) == Some(r->Some_0 as int) && r->Some_0 < buf@.len(),
        r is None ==> first_newline(buf@) is None,
{
    let mut i: usize = 0;
    while i < buf.len()
        invariant
            i <= buf.len(),
            forall|j: int| 0 <= j < i ==> buf@[j] != NEWLINE,
        decreases buf.len() - i,
    {
        if buf[i] == NEWLINE {
            proof {
                buf@.index_of_first_ensures(NEWLINE);
                assert(buf@.contains(NEWLINE));
            }
            return Some(i);
        }
        i += 1;
    }
    proof {
        buf@.index_of_first_ensures(NEWLINE);
    }
    None
}

impl<const CHUNK: u32> ReadCursor<CHUNK> {
    #[verifier::type_invariant]
    spec fn inv(self) -> bool {
        self.pos <= self.file_len
    }

    /// Opens a file of `file_len` bytes, with the cursor at its start.
    pub fn new(file_len: u64) -> (f: Self)
        ensures
            f@ == RFileView::opened(file_len as nat, CHUNK as nat),
    {
        ReadCursor { pos: 0, file_len, closed: false }
    }

    /// Whether the file has been closed.
    pub fn is_closed(&self) -> (b: bool)
        ensures
            b == self@.closed,
    {
        self.closed
    }

    /// Closes the file. Its cursor stays where it is.
    pub fn close(&mut self)
        ensures
            final(self)@ == (RFileView { closed: true, ..old(self)@ }),
    {
        proof {
            use_type_invariant(&*self);
        }
        self.closed = true;
    }

    /// A file can be read until it is closed.
    pub fn readable(&self) -> (b: bool)
        ensures
            b == !self@.closed,
    {
        !self.closed
    }

    /// The cursor can always be moved.
    pub fn seekable(&self) -> (b: bool)
        ensures
            b,
    {
        true
    }

    /// The file can never be written.
    pub fn writable(&self) -> (b: bool)
        ensures
            !b,
    {
        false
    }

    /// The offset of the next byte to read. It never lies past the end of the file.
    pub fn tell(&self) -> (p: u64)
        ensures
            p == self@.pos,
            self@.wf(),
    {
        proof {
            use_type_invariant(self);
        }
        self.pos
    }

    /// The length of the file, as it was when the file was opened.
    pub fn len(&self) -> (n: u64)
        ensures
            n == self@.file_len,
            self@.wf(),
    {
        proof {
            use_type_invariant(self);
        }
        self.file_len
    }

    /// The largest number of bytes that this file asks for in one remote read.
    pub fn chunk_size(&self) -> (n: u32)
        ensures
            n == self@.chunk,
    {
        CHUNK
    }

    /// Moves the cursor by `offset` from the origin that `whence` names, and returns the new
    /// position. An origin that does not exist is refused, and the cursor stays.
    pub fn seek(&mut self, offset: i64, whence: usize) -> (r: Result<u64, XetError>)
        ensures
            valid_whence(whence as int) ==> final(self)@ == old(self)@.seek(
                offset as int,
                whence as int,
            ) && r == Ok::<u64, XetError>(final(self)@.pos as u64),
            !valid_whence(whence as int) ==> final(self)@ == old(self)@ && r == Err::<
                u64,
                XetError,
            >(XetError::InvalidWhence),
            final(self)@.wf(),
    {
        proof {
            use_type_invariant(&*self);
        }
        let base: i128 = if whence == SEEK_SET {
            0
        } else if whence == SEEK_CUR {
            self.pos as i128
        } else if whence == SEEK_END {
            self.file_len as i128
        } else {
            return Err(XetError::InvalidWhence);
        };
        let raw: i128 = base + offset as i128;
        if 0 <= raw && raw < self.file_len as i128 {
            self.pos = raw as u64;
        } else {
            self.pos = self.file_len;
        }
        Ok(self.pos)
    }

    /// Writing is never permitted.
    pub fn write(&self, _b: &[u8]) -> (r: Result<(), XetError>)
        ensures
            r == Err::<(), XetError>(XetError::ReadOnlyFile),
    {
        Err(XetError::ReadOnlyFile)
    }

    /// The request of at most `max_len` bytes at the cursor.
    fn request_at_cursor(&self, max_len: u32) -> (q: ReadRequest)
        ensures
            q == self@.request(max_len as int),
    {
        ReadRequest { offset: self.pos, max_len }
    }

    /// What a read of `size` bytes asks of the remote object: one read of at most `size` bytes,
    /// and of no more than one chunk, or, where `size` is not positive, the rest of the file.
    pub fn read(&self, size: i64) -> (plan: ReadPlan)
        ensures
            plan == self@.read_plan(size as int),
    {
        if size <= 0 {
            ReadPlan::All
        } else if size < CHUNK as i64 {
            ReadPlan::Once(self.request_at_cursor(size as u32))
        } else {
            ReadPlan::Once(self.request_at_cursor(CHUNK))
        }
    }

    /// Takes what the remote object returned to a read of at most `size` bytes at the cursor.
    ///
    /// A reply that is no longer than `size` and ends within the file is handed on, and the
    /// cursor moves past it. Any other reply is refused, and the cursor stays.
    pub fn read_impl(&mut self, size: u32, reply: Vec<u8>) -> (r: Result<Vec<u8>, XetError>)
        ensures
            old(self)@.accepts(size as int, reply@) ==> r == Ok::<Vec<u8>, XetError>(reply)
                && final(self)@ == old(self)@.advance(reply@.len()),
            !old(self)@.accepts(size as int, reply@) ==> r == Err::<Vec<u8>, XetError>(
                XetError::RemoteFailure,
            ) && final(self)@ == old(self)@,
            final(self)@.wf(),
    {
        proof {
            use_type_invariant(&*self);
        }
        let n: usize = reply.len();
        if n <= size as usize && n as u64 <= self.file_len - self.pos {
            self.pos = self.pos + n as u64;
            Ok(reply)
        } else {
            Err(XetError::RemoteFailure)
        }
    }

    /// The next read of a loop that reads to the end of the file: one chunk at the cursor, or
    /// nothing once the cursor has reached the end.
    pub fn readall(&self) -> (q: Option<ReadRequest>)
        ensures
            q == self@.readall_request(),
    {
        if self.pos < self.file_len {
            Some(self.request_at_cursor(CHUNK))
        } else {
            None
        }
    }

    /// The single read that fills a buffer of `buflen` bytes as far as one remote read can.
    pub fn readinto1(&self, buflen: usize) -> (q: ReadRequest)
        ensures
            q == self@.request(min_int(buflen as int, self@.chunk as int)),
    {
        if buflen < CHUNK as usize {
            self.request_at_cursor(buflen as u32)
        } else {
            self.request_at_cursor(CHUNK)
        }
    }

    /// The next read of a loop that fills a buffer of `buflen` bytes, of which `curoff` are
    /// filled: what is left of the buffer, no more than one chunk, or nothing once the buffer is
    /// full or the cursor has reached the end of the file.
    pub fn readinto(&self, buflen: usize, curoff: usize) -> (q: Option<ReadRequest>)
        ensures
            q == self@.readinto_request(buflen as int, curoff as int),
    {
        if self.pos < self.file_len && curoff < buflen {
            let room: usize = buflen - curoff;
            if room < CHUNK as usize {
                Some(self.request_at_cursor(room as u32))
            } else {
                Some(self.request_at_cursor(CHUNK))
            }
        } else {
            None
        }
    }

    /// The next read of a loop that reads one line of at most `size` bytes, of which `have` are
    /// read. A negative `size` sets no limit. Nothing is left to read once `have` has reached
    /// `size`.
    pub fn readline(&self, size: i64, have: usize) -> (q: Option<ReadRequest>)
        ensures
            q == self@.readline_request(size as int, have as int),
    {
        if size < 0 {
            Some(self.request_at_cursor(CHUNK))
        } else if (have as u64) < size as u64 {
            let room: u64 = size as u64 - have as u64;
            if room < CHUNK as u64 {
                Some(self.request_at_cursor(room as u32))
            } else {
                Some(self.request_at_cursor(CHUNK))
            }
        } else {
            None
        }
    }

    /// Takes what the remote object returned to a read of at most `size` bytes at the cursor,
    /// made for the line that is being collected in `line`.
    ///
    /// Where the reply holds a newline, its bytes up to and including the first newline are
    /// appended to `line`, the cursor moves past that newline, and the line is complete. Where it
    /// holds none, all of it is appended, the cursor moves past it, and the line is complete if
    /// `eof` says that the remote object has no more bytes. The result says whether the line is
    /// complete. A reply that is longer than `size` or reaches past the end of the file is
    /// refused, and nothing changes.
    pub fn readline_impl(&mut self, line: &mut Vec<u8>, size: u32, reply: Vec<u8>, eof: bool) -> (r:
        Result<bool, XetError>)
        ensures
            old(self)@.accepts(size as int, reply@) ==> {
                &&& final(line)@ == old(line)@ + reply@.subrange(0, line_take(reply@))
                &&& final(self)@ == old(self)@.advance(line_take(reply@) as nat)
                &&& r == Ok::<bool, XetError>(first_newline(reply@) is Some || eof)
            },
            !old(self)@.accepts(size as int, reply@) ==> {
                &&& final(line)@ == old(line)@
                &&& final(self)@ == old(self)@
                &&& r == Err::<bool, XetError>(XetError::RemoteFailure)
            },
            final(self)@.wf(),
    {
        proof {
            use_type_invariant(&*self);
        }
        let n: usize = reply.len();
        if !(n <= size as usize && n as u64 <= self.file_len - self.pos) {
            return Err(XetError::RemoteFailure);
        }
        let mut reply = reply;
        let ghost whole = reply@;
        proof {
            lemma_first_newline(whole);
        }
        match find_newline(&reply) {
            Some(k) => {
                reply.truncate(k + 1);
                self.pos = self.pos + (k as u64 + 1);
                line.append(&mut reply);
                Ok(true)
            },
            None => {
                self.pos = self.pos + n as u64;
                assert(whole.subrange(0, whole.len() as int) =~= whole);
                line.append(&mut reply);
                Ok(eof)
            },
        }
    }

    /// Adds a line that was just read to the lines collected so far, and says whether another
    /// line is to be read.
    ///
    /// An empty line marks the end of the file: it is not added, and reading stops. Any other
    /// line is added, and reading goes on until `num_lines` lines are collected; a `num_lines`
    /// that is not positive sets no limit.
    pub fn readlines(num_lines: i64, lines: &mut Vec<Vec<u8>>, line: Vec<u8>) -> (more: bool)
        ensures
            (final(lines)@.map_values(|l: Vec<u8>| l@), more) == readlines_step(
                num_lines as int,
                old(lines)@.map_values(|l: Vec<u8>| l@),
                line@,
            ),
            line@.len() == 0 ==> final(lines)@ == old(lines)@,
            line@.len() > 0 ==> final(lines)@ == old(lines)@.push(line),
    {
        if line.len() == 0 {
            false
        } else {
            lines.push(line);
            assert(lines@.map_values(|l: Vec<u8>| l@) =~= old(lines)@.map_values(
                |l: Vec<u8>| l@,
            ).push(line@));
            num_lines <= 0 || (lines.len() as u64) < num_lines as u64
        }
    }
}

impl RFileView {
    /// Whether `reply` is what a remote object that holds `content` returns to a read of at
    /// most `size` bytes at the cursor: the bytes of `content` from the cursor on, as many as the
    /// reply is long, and no more than `size` of them.
    pub open spec fn faithful(self, content: Seq<u8>, size: int, reply: Seq<u8>) -> bool {
        &&& reply.len() <= size
        &&& self.pos + reply.len() <= content.len()
        &&& reply == content.subrange(self.pos as int, self.pos as int + reply.len() as int)
    }

    /// Whether each reply of a run is faithful to `content` at the place that the cursor has
    /// reached when the reply comes, for reads of one chunk.
    pub open spec fn faithful_run(self, content: Seq<u8>, replies: Seq<Seq<u8>>) -> bool
        decreases replies.len(),
    {
        replies.len() == 0 || {
            &&& self.faithful(content, self.chunk as int, replies[0])
            &&& self.advance(replies[0].len()).faithful_run(content, replies.drop_first())
        }
    }

    /// The file after the replies of a run have been taken in by `read_impl`, and the bytes
    /// that came out, one reply after the other.
    pub open spec fn read_run(self, replies: Seq<Seq<u8>>) -> (RFileView, Seq<u8>)
        decreases replies.len(),
    {
        if replies.len() == 0 {
            (self, Seq::empty())
        } else {
            let rest = self.advance(replies[0].len()).read_run(replies.drop_first());
            (rest.0, replies[0] + rest.1)
        }
    }

    /// Whether each reply of the run that reads one line is faithful to `content` at the place
    /// that the cursor has reached when the reply comes. The run ends with the first reply that
    /// holds a newline.
    pub open spec fn faithful_line_run(self, content: Seq<u8>, replies: Seq<Seq<u8>>) -> bool
        decreases replies.len(),
    {
        replies.len() == 0 || {
            &&& self.faithful(content, self.chunk as int, replies[0])
            &&& first_newline(replies[0]) is Some || self.advance(
                replies[0].len(),
            ).faithful_line_run(content, replies.drop_first())
        }
    }

    /// The file after the replies of a run have been taken in by `readline_impl`, and the line
    /// that was collected. The run ends with the first reply that holds a newline.
    pub open spec fn readline_run(self, replies: Seq<Seq<u8>>) -> (RFileView, Seq<u8>)
        decreases replies.len(),
    {
        if replies.len() == 0 {
            (self, Seq::empty())
        } else {
            let n = line_take(replies[0]);
            let taken = replies[0].subrange(0, n);
            if first_newline(replies[0]) is Some {
                (self.advance(n as nat), taken)
            } else {
                let rest = self.advance(n as nat).readline_run(replies.drop_first());
                (rest.0, taken + rest.1)
            }
        }
    }

    /// Whether each reply of the run that reads one line of at most `size` bytes, of which
    /// `have` are read, is one that `readline_impl` accepts to the read that `readline` asked
    /// for. The run ends with the first reply that holds a newline.
    pub open spec fn accepted_line_run(self, size: int, have: int, replies: Seq<Seq<u8>>) -> bool
        decreases replies.len(),
    {
        replies.len() == 0 || {
            &&& self.readline_request(size, have) is Some
            &&& self.accepts(
                if size < 0 {
                    self.chunk as int
                } else {
                    min_int(size - have, self.chunk as int)
                },
                replies[0],
            )
            &&& first_newline(replies[0]) is Some || self.advance(
                replies[0].len(),
            ).accepted_line_run(size, have + replies[0].len(), replies.drop_first())
        }
    }

    /// Whether each reply of a run that fills a buffer is one that `read_impl` accepts to the
    /// read that `readinto` asked for.
    pub open spec fn accepted_into(self, buflen: int, curoff: int, replies: Seq<Seq<u8>>) -> bool
        decreases replies.len(),
    {
        replies.len() == 0 || {
            &&& self.readinto_request(buflen, curoff) is Some
            &&& self.accepts(min_int(buflen - curoff, self.chunk as int), replies[0])
            &&& self.advance(replies[0].len()).accepted_into(
                buflen,
                curoff + replies[0].len(),
                replies.drop_first(),
            )
        }
    }

    /// The file after the replies of a run that fills a buffer, and the number of bytes of the
    /// buffer that are filled.
    pub open spec fn readinto_run(self, curoff: int, replies: Seq<Seq<u8>>) -> (RFileView, int)
        decreases replies.len(),
    {
        if replies.len() == 0 {
            (self, curoff)
        } else {
            self.advance(replies[0].len()).readinto_run(
                curoff + replies[0].len(),
                replies.drop_first(),
            )
        }
    }
}

/// The lines collected so far after one more line was read, and whether another line is to be
/// read. An empty line is not added and ends the reading; so does the line that brings the
/// number of lines up to `num_lines`, where `num_lines` is positive.
pub open spec fn readlines_step(num_lines: int, lines: Seq<Seq<u8>>, line: Seq<u8>) -> (
    Seq<Seq<u8>>,
    bool,
) {
    if line.len() == 0 {
        (lines, false)
    } else {
        (lines.push(line), num_lines <= 0 || lines.len() + 1 < num_lines)
    }
}

/// The lines collected when the lines of `incoming` are read one after the other, for as long
/// as another line is to be read.
pub open spec fn readlines_run(num_lines: int, lines: Seq<Seq<u8>>, incoming: Seq<Seq<u8>>) -> Seq<
    Seq<u8>,
>
    decreases incoming.len(),
{
    if incoming.len() == 0 {
        lines
    } else {
        let (next, more) = readlines_step(num_lines, lines, incoming[0]);
        if more {
            readlines_run(num_lines, next, incoming.drop_first())
        } else {
            next
        }
    }
}

/// Reading a file chunk by chunk from a remote object that answers faithfully yields the bytes
/// of the object between the place where the cursor stood and the place that it has reached.
/// Every reply is one that `read_impl` accepts. So reading from the start until `readall` asks
/// for nothing more returns exactly what the object holds.
pub proof fn lemma_readall_round_trip(file: RFileView, content: Seq<u8>, replies: Seq<Seq<u8>>)
    requires
        file.wf(),
        file.file_len == content.len(),
        file.faithful_run(content, replies),
    ensures
        ({
            let (end, bytes) = file.read_run(replies);
            &&& end.wf()
            &&& end == file.at(end.pos)
            &&& file.pos <= end.pos
            &&& bytes == content.subrange(file.pos as int, end.pos as int)
            &&& end.readall_request() is None ==> bytes == content.subrange(
                file.pos as int,
                content.len() as int,
            )
            &&& end.readall_request() is None && file.pos == 0 ==> bytes == content
        }),
        replies.len() > 0 ==> file.accepts(file.chunk as int, replies[0]),
    decreases replies.len(),
{
    if replies.len() == 0 {
        assert(content.subrange(file.pos as int, file.pos as int) =~= Seq::<u8>::empty());
    } else {
        let next = file.advance(replies[0].len());
        lemma_readall_round_trip(next, content, replies.drop_first());
        let (end, rest) = next.read_run(replies.drop_first());
        assert(replies[0] + rest =~= content.subrange(file.pos as int, end.pos as int));
    }
    let (end, bytes) = file.read_run(replies);
    if end.readall_request() is None && file.pos == 0 {
        assert(content.subrange(0, content.len() as int) =~= content);
    }
}

/// At the end of a file there is nothing to read: after a seek to the end, a read of one byte
/// is asked of the remote object at the very end of the file, and the only reply that
/// `read_impl` accepts to it is the empty one.
pub proof fn lemma_read_at_end_is_empty(file: RFileView, reply: Seq<u8>)
    requires
        file.wf(),
        file.file_len <= u64::MAX,
    ensures
        ({
            let end = file.seek(0, SEEK_END as int);
            &&& end.pos == file.file_len
            &&& end.readall_request() is None
            &&& end.read_plan(1) is Once
            &&& end.read_plan(1)->Once_0.offset == file.file_len
            &&& end.accepts(1, reply) ==> reply.len() == 0
        }),
{
}

/// A byte sequence whose first newline stands at `k` has `k` as the index of its first newline.
pub proof fn lemma_first_newline_at(bytes: Seq<u8>, k: int)
    requires
        0 <= k < bytes.len(),
        bytes[k] == NEWLINE,
        forall|j: int| 0 <= j < k ==> bytes[j] != NEWLINE,
    ensures
        first_newline(bytes) == Some(k),
        line_take(bytes) == k + 1,
{
    lemma_first_newline(bytes);
    assert(bytes.contains(NEWLINE));
}

/// A byte sequence that holds no newline has no first newline.
pub proof fn lemma_no_newline(bytes: Seq<u8>)
    requires
        forall|j: int| 0 <= j < bytes.len() ==> bytes[j] != NEWLINE,
    ensures
        first_newline(bytes) is None,
        line_take(bytes) == bytes.len(),
{
    lemma_first_newline(bytes);
}

/// Reading a line from a remote object that answers faithfully yields the bytes of the object
/// from the place where the cursor stood up to and including the next newline, and the cursor
/// moves exactly that far. Where the replies bring no newline, the line is all that was read,
/// and holds none.
pub proof fn lemma_readline_reads_one_line(file: RFileView, content: Seq<u8>, replies: Seq<Seq<u8>>)
    requires
        file.wf(),
        file.file_len == content.len(),
        file.faithful_line_run(content, replies),
    ensures
        ({
            let (end, line) = file.readline_run(replies);
            let rest = content.subrange(file.pos as int, content.len() as int);
            &&& end.wf()
            &&& end == file.at(end.pos)
            &&& end.pos == file.pos + line.len()
            &&& line == content.subrange(file.pos as int, end.pos as int)
            &&& first_newline(line) is Some ==> first_newline(line) == Some(line.len() - 1)
                && line.len() == line_take(rest)
            &&& first_newline(line) is None && end.pos == end.file_len ==> line == rest
        }),
    decreases replies.len(),
{
    let rest = content.subrange(file.pos as int, content.len() as int);
    if replies.len() == 0 {
        assert(content.subrange(file.pos as int, file.pos as int) =~= Seq::<u8>::empty());
        lemma_no_newline(Seq::<u8>::empty());
    } else {
        let reply = replies[0];
        lemma_first_newline(reply);
        if first_newline(reply) is Some {
            let k = first_newline(reply)->Some_0;
            let line = reply.subrange(0, k + 1);
            assert(line =~= content.subrange(file.pos as int, file.pos + k + 1));
            lemma_first_newline_at(line, k);
            assert forall|j: int| 0 <= j < k implies rest[j] != NEWLINE by {
                assert(rest[j] == reply[j]);
            }
            assert(rest[k] == reply[k]);
            lemma_first_newline_at(rest, k);
        } else {
            assert(reply.subrange(0, reply.len() as int) =~= reply);
            let next = file.advance(reply.len());
            lemma_readline_reads_one_line(next, content, replies.drop_first());
            let (end, tail) = next.readline_run(replies.drop_first());
            let line = reply + tail;
            assert(file.readline_run(replies) == (end, line));
            assert(line =~= content.subrange(file.pos as int, end.pos as int));
            lemma_first_newline(tail);
            if first_newline(tail) is Some {
                let k = reply.len() + tail.len() - 1;
                assert forall|j: int| 0 <= j < k implies line[j] != NEWLINE by {
                    if j >= reply.len() {
                        assert(line[j] == tail[j - reply.len()]);
                    }
                }
                assert(line[k] == tail[tail.len() - 1]);
                lemma_first_newline_at(line, k);
                assert forall|j: int| 0 <= j < k implies rest[j] != NEWLINE by {
                    assert(rest[j] == line[j]);
                }
                assert(rest[k] == line[k]);
                lemma_first_newline_at(rest, k);
            } else {
                assert forall|j: int| 0 <= j < line.len() implies line[j] != NEWLINE by {
                    if j >= reply.len() {
                        assert(line[j] == tail[j - reply.len()]);
                    }
                }
                lemma_no_newline(line);
                if end.pos == end.file_len {
                    assert(line =~= rest);
                }
            }
        }
    }
}

/// Reading a line where no newline stands between the cursor and the end of the object: with
/// faithful replies, the line collected is what the object holds between the place where the
/// cursor stood and the place that it has reached, and it holds no newline. Once the cursor
/// has reached the end, the line is all that was left of the object.
pub proof fn lemma_readline_without_newline(
    file: RFileView,
    content: Seq<u8>,
    replies: Seq<Seq<u8>>,
)
    requires
        file.wf(),
        file.file_len == content.len(),
        file.faithful_line_run(content, replies),
        forall|i: int| file.pos <= i < content.len() ==> content[i] != NEWLINE,
    ensures
        ({
            let (end, line) = file.readline_run(replies);
            &&& line == content.subrange(file.pos as int, end.pos as int)
            &&& first_newline(line) is None
            &&& end.pos == end.file_len ==> line == content.subrange(
                file.pos as int,
                content.len() as int,
            )
        }),
{
    lemma_readline_reads_one_line(file, content, replies);
    let (end, line) = file.readline_run(replies);
    assert forall|j: int| 0 <= j < line.len() implies line[j] != NEWLINE by {
        assert(line[j] == content[file.pos + j]);
    }
    lemma_no_newline(line);
}

/// A line that is read under a limit never grows beyond it: as long as every reply is one that
/// `readline_impl` accepts, the bytes read before and the line collected make no more than
/// `size` bytes, and the cursor has moved as far as the line is long.
pub proof fn lemma_readline_respects_limit(
    file: RFileView,
    size: int,
    have: int,
    replies: Seq<Seq<u8>>,
)
    requires
        file.wf(),
        0 <= have <= size,
        file.accepted_line_run(size, have, replies),
    ensures
        ({
            let (end, line) = file.readline_run(replies);
            &&& end.wf()
            &&& end == file.at(end.pos)
            &&& end.pos == file.pos + line.len()
            &&& have + line.len() <= size
        }),
    decreases replies.len(),
{
    if replies.len() > 0 {
        let reply = replies[0];
        lemma_first_newline(reply);
        if first_newline(reply) is None {
            lemma_readline_respects_limit(
                file.advance(reply.len()),
                size,
                have + reply.len(),
                replies.drop_first(),
            );
        }
    }
}

/// Filling a buffer: as long as every reply is one that `read_impl` accepts, the buffer never
/// overflows, the number of bytes filled is the distance that the cursor has moved, and
/// `readinto` asks for nothing more exactly when the buffer is full or the cursor has reached
/// the end of the file.
pub proof fn lemma_readinto_fills_buffer(
    file: RFileView,
    buflen: int,
    curoff: int,
    replies: Seq<Seq<u8>>,
)
    requires
        file.wf(),
        0 <= curoff <= buflen,
        file.accepted_into(buflen, curoff, replies),
    ensures
        ({
            let (end, filled) = file.readinto_run(curoff, replies);
            &&& end.wf()
            &&& end == file.at(end.pos)
            &&& curoff <= filled <= buflen
            &&& filled - curoff == end.pos - file.pos
            &&& end.readinto_request(buflen, filled) is None <==> filled == buflen || end.pos
                == end.file_len
        }),
    decreases replies.len(),
{
    if replies.len() > 0 {
        lemma_readinto_fills_buffer(
            file.advance(replies[0].len()),
            buflen,
            curoff + replies[0].len(),
            replies.drop_first(),
        );
    }
}

/// Reading lines: the lines collected are those that were there before, followed by the first
/// lines that came in, none of them empty, in their order. Where `num_lines` is positive and
/// fewer lines than that were there before, no more than that are collected. The reading ends
/// before an empty line, or with the line that makes the number full.
pub proof fn lemma_readlines_collects(
    num_lines: int,
    lines: Seq<Seq<u8>>,
    incoming: Seq<Seq<u8>>,
)
    ensures
        ({
            let collected = readlines_run(num_lines, lines, incoming);
            let taken = collected.len() - lines.len();
            &&& 0 <= taken <= incoming.len()
            &&& collected == lines + incoming.subrange(0, taken)
            &&& forall|i: int| 0 <= i < taken ==> incoming[i].len() > 0
            &&& num_lines > 0 && lines.len() < num_lines ==> collected.len() <= num_lines
            &&& taken < incoming.len() ==> incoming[taken].len() == 0 || (num_lines > 0
                && collected.len() >= num_lines)
        }),
    decreases incoming.len(),
{
    if incoming.len() == 0 {
        assert(lines + incoming.subrange(0, 0) =~= lines);
    } else {
        let (next, more) = readlines_step(num_lines, lines, incoming[0]);
        if more {
            let tail = incoming.drop_first();
            lemma_readlines_collects(num_lines, next, tail);
            let collected = readlines_run(num_lines, next, tail);
            let taken = collected.len() - next.len();
            assert(tail.subrange(0, taken) =~= incoming.subrange(1, taken + 1));
            assert(lines.push(incoming[0]) + incoming.subrange(1, taken + 1) =~= lines
                + incoming.subrange(0, taken + 1));
            assert forall|i: int| 0 <= i < taken + 1 implies incoming[i].len() > 0 by {
                if i > 0 {
                    assert(incoming[i] == tail[i - 1]);
                }
            }
            if taken + 1 < incoming.len() {
                assert(incoming[taken + 1] == tail[taken]);
            }
        } else if incoming[0].len() == 0 {
            assert(lines + incoming.subrange(0, 0) =~= lines);
        } else {
            assert(lines.push(incoming[0]) =~= lines + incoming.subrange(0, 1));
        }
    }
}

} // verus!
