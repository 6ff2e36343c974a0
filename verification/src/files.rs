//! Streaming plaintext files in and out over the local RPC surface.

use crate::arith::{clamp_i64, i64_from_usize};
use crate::model::{ProtoTimestamp, NANOS_PER_SECOND};
use crate::status::{fails_with, invalid_argument, Status, StatusView};
use crate::text::bytes_range;
use crate::timestamps::{
    decodes_timestamp, file_timestamp, proto_timestamp_from_file_parts, proto_timestamp_from_parts,
    timestamp_parts,
};
use vstd::prelude::*;

verus! {

/// LOCAL_CLI_FILE_CHUNK_BYTES is the chunk size used for streamed local file RPCs.
pub const LOCAL_CLI_FILE_CHUNK_BYTES: usize = 256 * 1024;

/// PlainFile is one plaintext file.
#[derive(Debug, PartialEq, Eq)]
pub struct PlainFile {
    /// name is the file's name.
    pub name: String,
    /// data is the file's content.
    pub data: Vec<u8>,
    /// modified_at_secs is when the file was modified, in whole seconds.
    pub modified_at_secs: u64,
    /// modified_at_nanos counts the nanoseconds past `modified_at_secs`.
    pub modified_at_nanos: u32,
}

/// FileInfo describes one file without its content.
#[derive(Debug, PartialEq, Eq)]
pub struct FileInfo {
    /// name is the file's name.
    pub name: String,
    /// size_bytes is the length of its content.
    pub size_bytes: i64,
    /// modified_at is when the file was modified.
    pub modified_at: Option<ProtoTimestamp>,
}

/// StoredFileInfo describes one file of the active revision.
#[derive(Debug, PartialEq, Eq)]
pub struct StoredFileInfo {
    /// name is the file's name.
    pub name: String,
    /// size_bytes is the length of its content.
    pub size_bytes: i64,
    /// modified_at_secs is when the file was modified, in whole seconds.
    pub modified_at_secs: i64,
    /// modified_at_nanos counts the nanoseconds past `modified_at_secs`.
    pub modified_at_nanos: i64,
}

/// FileChunk is one message of a streamed file.
#[derive(Debug, PartialEq, Eq)]
pub enum FileChunk {
    /// File describes the file.
    File(FileInfo),
    /// Data holds the next bytes of its content.
    Data(Vec<u8>),
    /// Nothing is a message without a payload.
    Nothing,
}

/// Convert one stored file summary into the local RPC metadata shape.
pub fn rpc_file_info(file: StoredFileInfo) -> (info: FileInfo)
    requires
        0 <= file.modified_at_nanos < NANOS_PER_SECOND,
    ensures
        info.name == file.name,
        info.size_bytes == file.size_bytes,
        info.modified_at == Some(
            ProtoTimestamp {
                seconds: file.modified_at_secs,
                nanos: file.modified_at_nanos as i32,
            },
        ),
{
    let modified_at = match proto_timestamp_from_parts(
        file.modified_at_secs,
        file.modified_at_nanos,
    ) {
        Ok(timestamp) => Some(timestamp),
        Err(_) => None,
    };
    FileInfo { name: file.name, size_bytes: file.size_bytes, modified_at }
}

/// Whether `info` describes `file`.
pub open spec fn describes(info: FileInfo, file: PlainFile) -> bool {
    &&& info.name@ == file.name@
    &&& info.size_bytes == clamp_i64(file.data@.len() as int)
    &&& info.modified_at == Some(file_timestamp(file.modified_at_secs, file.modified_at_nanos))
}

/// Convert one plaintext file into the metadata-only local RPC shape.
pub fn rpc_file_info_from_plain_file(file: &PlainFile) -> (info: FileInfo)
    ensures
        describes(info, *file),
{
    FileInfo {
        name: file.name.clone(),
        size_bytes: i64_from_usize(file.data.len()),
        modified_at: Some(
            proto_timestamp_from_file_parts(file.modified_at_secs, file.modified_at_nanos),
        ),
    }
}

/// The bytes that data chunks hold, in order.
pub open spec fn payload(chunks: Seq<FileChunk>) -> Seq<u8>
    decreases chunks.len(),
{
    if chunks.len() == 0 {
        Seq::<u8>::empty()
    } else {
        payload(chunks.drop_last()) + match chunks.last() {
            FileChunk::Data(bytes) => bytes@,
            _ => Seq::<u8>::empty(),
        }
    }
}

/// Whether `chunks` stream `file`: its description, then its content in pieces
/// of the chunk size, of which only the last may be shorter and none is empty.
pub open spec fn streams(chunks: Seq<FileChunk>, file: PlainFile) -> bool {
    &&& chunks.len() > 0
    &&& chunks[0] matches FileChunk::File(info) && describes(info, file)
    &&& forall|i: int|
        1 <= i < chunks.len() ==> (#[trigger] chunks[i] matches FileChunk::Data(bytes) && bytes@
            == chunk_at(file.data@, i - 1))
    &&& chunks.len() == 1 + chunk_count(file.data@.len())
}

/// How many chunks `len` bytes make.
pub open spec fn chunk_count(len: nat) -> nat {
    (len + LOCAL_CLI_FILE_CHUNK_BYTES - 1) as nat / LOCAL_CLI_FILE_CHUNK_BYTES as nat
}

/// The bytes of chunk `i`.
pub open spec fn chunk_at(data: Seq<u8>, i: int) -> Seq<u8> {
    data.subrange(
        i * LOCAL_CLI_FILE_CHUNK_BYTES,
        if (i + 1) * LOCAL_CLI_FILE_CHUNK_BYTES <= data.len() {
            (i + 1) * LOCAL_CLI_FILE_CHUNK_BYTES
        } else {
            data.len() as int
        },
    )
}

/// Split one plaintext file into local streamed download chunks.
pub fn get_file_chunks(file: PlainFile) -> (chunks: Vec<FileChunk>)
    ensures
        streams(chunks@, file),
{
    let mut chunks: Vec<FileChunk> = Vec::new();
    chunks.push(FileChunk::File(rpc_file_info_from_plain_file(&file)));
    let data = file.data.as_slice();
    let mut start: usize = 0;
    let ghost mut done: int = 0;
    while start < data.len()
        invariant
            data@ == file.data@,
            0 <= done,
            chunks@.len() == 1 + done,
            chunks@[0] matches FileChunk::File(info) && describes(info, file),
            start < data@.len() ==> start == done * LOCAL_CLI_FILE_CHUNK_BYTES,
            start >= data@.len() ==> start == data@.len() && done == chunk_count(data@.len()),
            forall|i: int|
                1 <= i < chunks@.len() ==> (#[trigger] chunks@[i] matches FileChunk::Data(bytes)
                    && bytes@ == chunk_at(data@, i - 1)),
        decreases data@.len() - start,
    {
        let end = if data.len() - start > LOCAL_CLI_FILE_CHUNK_BYTES {
            start + LOCAL_CLI_FILE_CHUNK_BYTES
        } else {
            data.len()
        };
        let piece = bytes_range(data, start, end);
        assert(piece@ == chunk_at(data@, done));
        let ghost before = chunks@;
        chunks.push(FileChunk::Data(piece));
        proof {
            assert forall|i: int| 1 <= i < chunks@.len() implies (
            #[trigger] chunks@[i] matches FileChunk::Data(bytes) && bytes@ == chunk_at(
                data@,
                i - 1,
            )) by {
                if i < before.len() {
                    assert(chunks@[i] == before[i]);
                }
            }
            assert(chunks@[0] == before[0]);
            done = done + 1;
        }
        start = end;
    }
    chunks
}

/// FileUpload is one streamed upload in progress.
#[derive(Debug)]
pub struct FileUpload {
    name: String,
    expected_len: usize,
    modified_at_secs: u64,
    modified_at_nanos: u32,
    data: Vec<u8>,
}

/// FileUploadView is the mathematical content of a `FileUpload`.
pub struct FileUploadView {
    /// name is the announced file name.
    pub name: Seq<char>,
    /// expected_len is the announced length.
    pub expected_len: int,
    /// modified_at_secs is the announced modification time, in whole seconds.
    pub modified_at_secs: u64,
    /// modified_at_nanos counts the nanoseconds past `modified_at_secs`.
    pub modified_at_nanos: u32,
    /// data is what has been received so far.
    pub data: Seq<u8>,
}

impl View for FileUpload {
    type V = FileUploadView;

    closed spec fn view(&self) -> FileUploadView {
        FileUploadView {
            name: self.name@,
            expected_len: self.expected_len as int,
            modified_at_secs: self.modified_at_secs,
            modified_at_nanos: self.modified_at_nanos,
            data: self.data@,
        }
    }
}

/// The defect of a first upload message other than a bad modification time.
pub open spec fn opening_defect(first: Option<FileChunk>) -> Option<StatusView> {
    match first {
        None => Some(invalid_argument("file upload stream is empty"@)),
        Some(FileChunk::Data(_)) => Some(
            invalid_argument("file metadata must be the first upload chunk"@),
        ),
        Some(FileChunk::Nothing) => Some(invalid_argument("file upload chunk is empty"@)),
        Some(FileChunk::File(info)) => if info.name@.len() == 0 {
            Some(invalid_argument("file name is required"@))
        } else if info.size_bytes < 0 {
            Some(invalid_argument("file size must be non-negative"@))
        } else if info.size_bytes > usize::MAX {
            Some(invalid_argument("file size is too large"@))
        } else {
            None
        },
    }
}

/// Whether `outcome` opens an upload announced by `first`.
pub open spec fn opens_upload(
    first: Option<FileChunk>,
    outcome: Result<FileUpload, Status>,
) -> bool {
    match opening_defect(first) {
        Some(failure) => fails_with(outcome, failure),
        None => exists|parts: Result<(u64, u32), Status>| #[trigger]
            decodes_timestamp(announced(first).modified_at, parts) && match parts {
                Err(status) => fails_with(outcome, status@),
                Ok(at) => outcome matches Ok(upload) && upload@ == (FileUploadView {
                    name: announced(first).name@,
                    expected_len: announced(first).size_bytes as int,
                    modified_at_secs: at.0,
                    modified_at_nanos: at.1,
                    data: Seq::<u8>::empty(),
                }),
            },
    }
}

/// The description in a first upload message.
pub open spec fn announced(first: Option<FileChunk>) -> FileInfo {
    first->0->File_0
}

/// The defect of a later upload message.
pub open spec fn chunk_defect(chunk: FileChunk) -> Option<StatusView> {
    match chunk {
        FileChunk::Data(_) => None,
        FileChunk::File(_) => Some(
            invalid_argument("file metadata must appear only once per upload"@),
        ),
        FileChunk::Nothing => Some(invalid_argument("file upload chunk is empty"@)),
    }
}

impl FileUpload {
    /// Open an upload from the first message of its stream.
    pub fn open(first: Option<FileChunk>) -> (outcome: Result<FileUpload, Status>)
        ensures
            opens_upload(first, outcome),
    {
        let info = match first {
            None => return Err(Status::invalid_argument("file upload stream is empty")),
            Some(FileChunk::Data(_)) => return Err(
                Status::invalid_argument("file metadata must be the first upload chunk"),
            ),
            Some(FileChunk::Nothing) => return Err(
                Status::invalid_argument("file upload chunk is empty"),
            ),
            Some(FileChunk::File(info)) => info,
        };
        if info.name.as_str().is_empty() {
            return Err(Status::invalid_argument("file name is required"));
        }
        if info.size_bytes < 0 {
            return Err(Status::invalid_argument("file size must be non-negative"));
        }
        if info.size_bytes as u64 > usize::MAX as u64 {
            return Err(Status::invalid_argument("file size is too large"));
        }
        let expected_len = info.size_bytes as usize;
        let parts = timestamp_parts(info.modified_at);
        assert(decodes_timestamp(announced(first).modified_at, parts));
        match parts {
            Err(status) => Err(status),
            Ok((modified_at_secs, modified_at_nanos)) => {
                let data: Vec<u8> = Vec::new();
                let upload = FileUpload {
                    name: info.name,
                    expected_len,
                    modified_at_secs,
                    modified_at_nanos,
                    data,
                };
                assert(upload@.data =~= Seq::<u8>::empty());
                Ok(upload)
            },
        }
    }

    /// Take the next message of the stream.
    pub fn receive(&mut self, chunk: FileChunk) -> (outcome: Result<(), Status>)
        ensures
            match chunk_defect(chunk) {
                Some(failure) => fails_with(outcome, failure) && final(self)@ == old(self)@,
                None => outcome is Ok && final(self)@ == (FileUploadView {
                    data: old(self)@.data + chunk->Data_0@,
                    ..old(self)@
                }),
            },
    {
        match chunk {
            FileChunk::Data(bytes) => {
                let ghost before = self.data@;
                self.data.extend_from_slice(bytes.as_slice());
                assert(self.data@ =~= before + bytes@);
                Ok(())
            },
            FileChunk::File(_) => Err(
                Status::invalid_argument("file metadata must appear only once per upload"),
            ),
            FileChunk::Nothing => Err(Status::invalid_argument("file upload chunk is empty")),
        }
    }

    /// Close the upload once its stream has ended.
    pub fn close(self) -> (outcome: Result<PlainFile, Status>)
        ensures
            if self@.data.len() != self@.expected_len {
                fails_with(outcome, invalid_argument("file size does not match streamed payload"@))
            } else {
                outcome matches Ok(file) && file.name@ == self@.name && file.data@ == self@.data
                    && file.modified_at_secs == self@.modified_at_secs && file.modified_at_nanos
                    == self@.modified_at_nanos
            },
    {
        if self.data.len() != self.expected_len {
            return Err(Status::invalid_argument("file size does not match streamed payload"));
        }
        Ok(
            PlainFile {
                name: self.name,
                data: self.data,
                modified_at_secs: self.modified_at_secs,
                modified_at_nanos: self.modified_at_nanos,
            },
        )
    }
}

/// The first message of a stream, if it has one.
pub open spec fn opening_of(chunks: Seq<FileChunk>) -> Option<FileChunk> {
    if chunks.len() == 0 {
        None
    } else {
        Some(chunks[0])
    }
}

/// Whether `outcome` is what an upload that sends `chunks` comes to.
pub open spec fn upload_rule(chunks: Seq<FileChunk>, outcome: Result<PlainFile, Status>) -> bool {
    exists|opened: Result<FileUpload, Status>| #[trigger]
        opens_upload(opening_of(chunks), opened) && match opened {
            Err(status) => fails_with(outcome, status@),
            Ok(upload) => match first_chunk_defect(chunks.drop_first()) {
                Some(failure) => fails_with(outcome, failure),
                None => if payload(chunks.drop_first()).len() != upload@.expected_len {
                    fails_with(
                        outcome,
                        invalid_argument("file size does not match streamed payload"@),
                    )
                } else {
                    outcome matches Ok(file) && file.name@ == upload@.name && file.data@ == payload(
                        chunks.drop_first(),
                    ) && file.modified_at_secs == upload@.modified_at_secs && file.modified_at_nanos
                        == upload@.modified_at_nanos
                },
            },
        }
}

/// The defect of the first malformed later message.
pub open spec fn first_chunk_defect(chunks: Seq<FileChunk>) -> Option<StatusView>
    decreases chunks.len(),
{
    if chunks.len() == 0 {
        None
    } else {
        match first_chunk_defect(chunks.drop_last()) {
            Some(failure) => Some(failure),
            None => chunk_defect(chunks.last()),
        }
    }
}

/// A defect in a prefix of the later messages stays the first defect.
proof fn lemma_defect_persists(chunks: Seq<FileChunk>, n: int)
    requires
        0 <= n <= chunks.len(),
        first_chunk_defect(chunks.take(n)) is Some,
    ensures
        first_chunk_defect(chunks) == first_chunk_defect(chunks.take(n)),
    decreases chunks.len() - n,
{
    if n == chunks.len() {
        assert(chunks.take(n) =~= chunks);
    } else {
        assert(chunks.take(n + 1).drop_last() =~= chunks.take(n));
        lemma_defect_persists(chunks, n + 1);
    }
}

/// Read one streamed local file upload into memory.
pub fn collect_set_file_upload(chunks: Vec<FileChunk>) -> (outcome: Result<PlainFile, Status>)
    ensures
        upload_rule(chunks@, outcome),
{
    let ghost all = chunks@;
    let ghost rest = all.drop_first();
    let mut queue = chunks;
    if queue.len() == 0 {
        let opened = FileUpload::open(None);
        assert(opens_upload(opening_of(all), opened));
        return match opened {
            Err(status) => Err(status),
            Ok(upload) => {
                assert(false);
                upload.close()
            },
        };
    }
    let first = queue.remove(0);
    assert(queue@ =~= rest);
    let opened = FileUpload::open(Some(first));
    assert(opens_upload(opening_of(all), opened));
    let mut upload = match opened {
        Err(status) => return Err(status),
        Ok(upload) => upload,
    };
    let ghost start = upload@;
    assert(rest.take(0) =~= Seq::<FileChunk>::empty());
    let ghost mut done: int = 0;
    assert(start.data =~= payload(rest.take(0)));
    while queue.len() > 0
        invariant
            0 <= done <= rest.len(),
            queue@ == rest.skip(done),
            first_chunk_defect(rest.take(done)) is None,
            upload@.name == start.name,
            upload@.expected_len == start.expected_len,
            upload@.modified_at_secs == start.modified_at_secs,
            upload@.modified_at_nanos == start.modified_at_nanos,
            upload@.data == payload(rest.take(done)),
            all.len() > 0,
            all == chunks@,
            rest == all.drop_first(),
            opened matches Ok(opened_upload) && opened_upload@ == start,
            opens_upload(opening_of(all), opened),
        decreases queue.len(),
    {
        let chunk = queue.remove(0);
        proof {
            assert(chunk == rest[done]);
            assert(queue@ =~= rest.skip(done + 1));
            assert(rest.take(done + 1).drop_last() =~= rest.take(done));
        }
        match upload.receive(chunk) {
            Err(status) => {
                proof {
                    lemma_defect_persists(rest, done + 1);
                }
                return Err(status);
            },
            Ok(()) => {},
        }
        proof {
            done = done + 1;
        }
    }
    assert(rest.take(done) =~= rest);
    upload.close()
}

/// Whether `chunks` are the data chunks of `data`.
spec fn data_chunks(chunks: Seq<FileChunk>, data: Seq<u8>) -> bool {
    forall|i: int|
        0 <= i < chunks.len() ==> (#[trigger] chunks[i] matches FileChunk::Data(bytes) && bytes@
            == chunk_at(data, i))
}

/// The first `n` data chunks hold the first bytes of the file.
proof fn lemma_chunk_prefix(chunks: Seq<FileChunk>, data: Seq<u8>)
    requires
        data_chunks(chunks, data),
        chunks.len() <= chunk_count(data.len()),
    ensures
        first_chunk_defect(chunks) is None,
        payload(chunks) == data.take(
            if chunks.len() * LOCAL_CLI_FILE_CHUNK_BYTES <= data.len() {
                chunks.len() * LOCAL_CLI_FILE_CHUNK_BYTES
            } else {
                data.len() as int
            },
        ),
    decreases chunks.len(),
{
    if chunks.len() == 0 {
        assert(payload(chunks) =~= data.take(0));
    } else {
        let rest = chunks.drop_last();
        assert forall|i: int| 0 <= i < rest.len() implies (
        #[trigger] rest[i] matches FileChunk::Data(bytes) && bytes@ == chunk_at(data, i)) by {
            assert(rest[i] == chunks[i]);
        }
        lemma_chunk_prefix(rest, data);
        let n = chunks.len() as int;
        assert(chunks[n - 1] == chunks.last());
        let len = data.len() as int;
        let size = LOCAL_CLI_FILE_CHUNK_BYTES as int;
        assert((n - 1) * size < len) by (nonlinear_arith)
            requires
                n <= (len + size - 1) / size,
                size == 262144,
        ;
        let start = (n - 1) * size;
        assert(n * size == start + size) by (nonlinear_arith)
            requires
                start == (n - 1) * size,
        ;
        assert(payload(rest) == data.take(start));
        assert(chunks.last() matches FileChunk::Data(bytes) && bytes@ == chunk_at(data, n - 1));
        assert(payload(chunks) =~= data.take(
            if n * LOCAL_CLI_FILE_CHUNK_BYTES <= data.len() {
                n * LOCAL_CLI_FILE_CHUNK_BYTES
            } else {
                data.len() as int
            },
        ));
    }
}

/// A file that is streamed out and uploaded again comes back as it was.
pub proof fn law_file_stream_round_trip(
    file: PlainFile,
    chunks: Seq<FileChunk>,
    outcome: Result<PlainFile, Status>,
)
    requires
        streams(chunks, file),
        upload_rule(chunks, outcome),
        file.name@.len() > 0,
        file.data@.len() <= i64::MAX,
        file.data@.len() <= usize::MAX,
        file.modified_at_secs <= i64::MAX,
        file.modified_at_nanos < NANOS_PER_SECOND,
    ensures
        outcome matches Ok(copy) && copy.name@ == file.name@ && copy.data@ == file.data@
            && copy.modified_at_secs == file.modified_at_secs && copy.modified_at_nanos
            == file.modified_at_nanos,
{
    let rest = chunks.drop_first();
    assert forall|i: int| 0 <= i < rest.len() implies (
    #[trigger] rest[i] matches FileChunk::Data(bytes) && bytes@ == chunk_at(file.data@, i)) by {
        assert(rest[i] == chunks[i + 1]);
    }
    lemma_chunk_prefix(rest, file.data@);
    assert(file.data@.take(file.data@.len() as int) =~= file.data@);
    let n = rest.len() as int;
    let len = file.data@.len() as int;
    let size = LOCAL_CLI_FILE_CHUNK_BYTES as int;
    assert(n * size >= len) by (nonlinear_arith)
        requires
            n == (len + size - 1) / size,
            size == 262144,
    ;
    if n * size <= len {
        assert(n * size == len);
    }
    assert(payload(rest) == file.data@);
}

/// Each byte of a streamed file is in its place.
pub proof fn lemma_streamed_byte(chunks: Seq<FileChunk>, file: PlainFile, x: int)
    requires
        streams(chunks, file),
    ensures
        0 <= x < file.data@.len() ==> {
            let at = 1 + x / 262_144;
            at < chunks.len() && (chunks[at] matches FileChunk::Data(bytes) && x % 262_144
                < bytes@.len() && bytes@[x % 262_144] == file.data@[x])
        },
{
    let data = file.data@;
    let len = data.len() as int;
    let count = chunk_count(data.len()) as int;
    assert(count == (len + 262_143) / 262_144);
    assert(count * 262_144 >= len);
    if 0 <= x < len {
        let at = 1 + x / 262_144;
        let start = (at - 1) * 262_144;
        assert(start <= x < start + 262_144);
        assert(at - 1 < count);
        assert((at - 1) * LOCAL_CLI_FILE_CHUNK_BYTES == start);
        assert((at - 1 + 1) * LOCAL_CLI_FILE_CHUNK_BYTES == start + 262_144);
        assert(chunks[at] matches FileChunk::Data(bytes) && bytes@ == chunk_at(data, at - 1));
        assert(x % 262_144 == x - start);
    }
}

/// A streamed file starts with its description, and each of its bytes comes in
/// the message and at the place that its position gives: all messages but the
/// last are full and none is empty.
pub proof fn law_streamed_bytes_are_in_their_places(
    file: PlainFile,
    chunks: Vec<FileChunk>,
    x: int,
    i: int,
)
    requires
        call_ensures(get_file_chunks, (file,), chunks),
    ensures
        chunks@.len() > 0,
        chunks@[0] matches FileChunk::File(info) && info.name@ == file.name@ && (file.data@.len()
            <= i64::MAX ==> info.size_bytes == file.data@.len()) && (file.modified_at_secs <= i64::MAX
            && file.modified_at_nanos < 1_000_000_000 ==> info.modified_at == Some(
            ProtoTimestamp {
                seconds: file.modified_at_secs as i64,
                nanos: file.modified_at_nanos as i32,
            },
        )),
        1 <= i < chunks@.len() ==> (chunks@[i] matches FileChunk::Data(bytes) && 0 < bytes@.len()
            <= 262_144 && (i < chunks@.len() - 1 ==> bytes@.len() == 262_144)),
        0 <= x < file.data@.len() ==> {
            let at = 1 + x / 262_144;
            at < chunks@.len() && (chunks@[at] matches FileChunk::Data(bytes) && x % 262_144
                < bytes@.len() && bytes@[x % 262_144] == file.data@[x])
        },
{
    let data = file.data@;
    let len = data.len() as int;
    let count = chunk_count(data.len()) as int;
    assert(LOCAL_CLI_FILE_CHUNK_BYTES == 262_144);
    assert(count == (len + 262_143) / 262_144);
    assert(count * 262_144 >= len && (len > 0 ==> (count - 1) * 262_144 < len));
    if 1 <= i < chunks@.len() {
        let start = (i - 1) * 262_144;
        assert(start < len);
        assert(i < chunks@.len() - 1 ==> i * 262_144 < len);
        assert((i - 1 + 1) * LOCAL_CLI_FILE_CHUNK_BYTES == i * 262_144);
        assert((i - 1) * LOCAL_CLI_FILE_CHUNK_BYTES == start);
        assert(chunks@[i] matches FileChunk::Data(bytes) && bytes@ == chunk_at(data, i - 1));
    }
    lemma_streamed_byte(chunks@, file, x);
}

/// The bytes of a message.
pub open spec fn bytes_of(chunk: FileChunk) -> Seq<u8> {
    match chunk {
        FileChunk::Data(bytes) => bytes@,
        _ => Seq::<u8>::empty(),
    }
}

/// The payload is what the messages hold, put together.
proof fn lemma_payload_is_joined(chunks: Seq<FileChunk>)
    ensures
        payload(chunks) == chunks.map_values(|chunk: FileChunk| bytes_of(chunk)).flatten(),
    decreases chunks.len(),
{
    let pieces = chunks.map_values(|chunk: FileChunk| bytes_of(chunk));
    pieces.lemma_flatten_and_flatten_alt_are_equivalent();
    if chunks.len() > 0 {
        let rest = chunks.drop_last();
        let fewer = rest.map_values(|chunk: FileChunk| bytes_of(chunk));
        lemma_payload_is_joined(rest);
        fewer.lemma_flatten_and_flatten_alt_are_equivalent();
        assert(pieces.drop_last() =~= fewer);
        assert(pieces.last() == bytes_of(chunks.last()));
    } else {
        assert(pieces.flatten_alt() =~= Seq::<u8>::empty());
    }
}

/// Later messages are sound exactly when all of them hold data.
proof fn lemma_no_chunk_defect(chunks: Seq<FileChunk>)
    ensures
        first_chunk_defect(chunks) is None <==> forall|i: int|
            0 <= i < chunks.len() ==> #[trigger] chunks[i] is Data,
    decreases chunks.len(),
{
    if chunks.len() > 0 {
        let rest = chunks.drop_last();
        let end = chunks.len() - 1;
        lemma_no_chunk_defect(rest);
        if first_chunk_defect(chunks) is None {
            assert forall|i: int| 0 <= i < chunks.len() implies #[trigger] chunks[i] is Data by {
                if i < end {
                    assert(rest[i] == chunks[i]);
                }
            }
        } else if forall|i: int| 0 <= i < chunks.len() ==> #[trigger] chunks[i] is Data {
            assert forall|i: int| 0 <= i < rest.len() implies #[trigger] rest[i] is Data by {
                assert(rest[i] == chunks[i]);
            }
            assert(chunks[end] is Data);
        }
    }
}

/// An upload is taken exactly when it starts with the description of a named
/// file with a sound size and time, holds nothing but data from then on, and
/// the data is as long as announced. Then the file is what was announced, with
/// the data put together in order.
pub proof fn law_only_whole_uploads_are_taken(
    chunks: Vec<FileChunk>,
    outcome: Result<PlainFile, Status>,
)
    requires
        call_ensures(collect_set_file_upload, (chunks,), outcome),
    ensures
        ({
            let data = chunks@.drop_first().map_values(
                |chunk: FileChunk| bytes_of(chunk),
            ).flatten();
            &&& outcome is Ok <==> {
                &&& chunks@.len() > 0
                &&& chunks@[0] matches FileChunk::File(info)
                &&& info.name@.len() > 0
                &&& 0 <= info.size_bytes <= usize::MAX
                &&& info.modified_at matches Some(at)
                &&& at.seconds >= 0
                &&& 0 <= at.nanos < 1_000_000_000
                &&& forall|i: int| 1 <= i < chunks@.len() ==> #[trigger] chunks@[i] is Data
                &&& data.len() == info.size_bytes
            }
            &&& outcome matches Ok(file) ==> {
                &&& file.data@ == data
                &&& chunks@[0] matches FileChunk::File(info)
                &&& file.name@ == info.name@
                &&& file.modified_at_secs == info.modified_at->0.seconds
                &&& file.modified_at_nanos == info.modified_at->0.nanos
            }
        }),
{
    let rest = chunks@.drop_first();
    lemma_payload_is_joined(rest);
    lemma_no_chunk_defect(rest);
    if chunks@.len() > 0 {
        assert((forall|i: int| 1 <= i < chunks@.len() ==> #[trigger] chunks@[i] is Data) <==> (forall|
            i: int,
        |
            0 <= i < rest.len() ==> #[trigger] rest[i] is Data)) by {
            if forall|i: int| 1 <= i < chunks@.len() ==> #[trigger] chunks@[i] is Data {
                assert forall|i: int| 0 <= i < rest.len() implies #[trigger] rest[i] is Data by {
                    assert(rest[i] == chunks@[i + 1]);
                }
            }
            if forall|i: int| 0 <= i < rest.len() ==> #[trigger] rest[i] is Data {
                assert forall|i: int| 1 <= i < chunks@.len() implies #[trigger] chunks@[i] is Data by {
                    assert(rest[i - 1] == chunks@[i]);
                }
            }
        }
    }
}

/// Shown file metadata repeats what is stored.
pub proof fn law_shown_metadata_repeats_the_file(
    stored: StoredFileInfo,
    shown: FileInfo,
    file: &PlainFile,
    described: FileInfo,
)
    requires
        call_ensures(rpc_file_info, (stored,), shown),
        call_ensures(rpc_file_info_from_plain_file, (file,), described),
        0 <= stored.modified_at_nanos < 1_000_000_000,
    ensures
        shown.name@ == stored.name@,
        shown.size_bytes == stored.size_bytes,
        shown.modified_at matches Some(at) && at.seconds == stored.modified_at_secs && at.nanos
            == stored.modified_at_nanos,
        described.name@ == file.name@,
        file.data@.len() <= i64::MAX ==> described.size_bytes == file.data@.len(),
        described.modified_at matches Some(at) && (file.modified_at_secs <= i64::MAX ==> at.seconds
            == file.modified_at_secs) && (file.modified_at_nanos <= i32::MAX ==> at.nanos
            == file.modified_at_nanos),
{
}

/// Every defect of a later message is one of the request.
proof fn lemma_defects_are_of_the_request(chunks: Seq<FileChunk>)
    ensures
        first_chunk_defect(chunks) matches Some(failure) ==> failure.code is InvalidArgument,
    decreases chunks.len(),
{
    if chunks.len() > 0 {
        lemma_defects_are_of_the_request(chunks.drop_last());
    }
}

/// Whatever is wrong with an upload is the fault of the request.
pub proof fn law_bad_uploads_are_bad_requests(
    chunks: Vec<FileChunk>,
    outcome: Result<PlainFile, Status>,
)
    requires
        call_ensures(collect_set_file_upload, (chunks,), outcome),
    ensures
        outcome matches Err(status) ==> status.code is InvalidArgument,
{
    lemma_defects_are_of_the_request(chunks@.drop_first());
}

} // verus!
