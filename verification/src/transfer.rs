//! Serving, fetching and sampling encrypted revisions.

use crate::arith::{clamp_i64, i64_from_usize, min_int};
use crate::content::{bad_content_id, validate_peer_content_id, Limits};
use crate::model::{content_view, ContentInfo, ContentInfoView};
use crate::outside::{sha256, sha256_digest, SHA256_LEN};
use crate::status::{fails_with, invalid_argument, plain_status, Code, Status, StatusView};
use crate::text::{bytes_copy, bytes_eq, bytes_range};
use vstd::prelude::*;

verus! {

/// SAMPLE_LEN is the length of one verification sample in bytes.
pub const SAMPLE_LEN: usize = 16 * 1024;

/// DownloadRequest asks for one section of one revision.
#[derive(Debug, PartialEq, Eq)]
pub struct DownloadRequest {
    /// content_id names the revision.
    pub content_id: Vec<u8>,
    /// offset is where the section begins.
    pub offset: i64,
    /// length is how long the section is at most.
    pub length: i64,
    /// reference_content_id names a revision to refer to; it has to be empty.
    pub reference_content_id: Vec<u8>,
}

/// Section is the content of one served section.
#[derive(Debug, PartialEq, Eq)]
pub enum Section {
    /// RawBytes holds the bytes themselves.
    RawBytes(Vec<u8>),
    /// Reference points into another revision.
    Reference,
}

/// DownloadResponse is one served section.
#[derive(Debug, PartialEq, Eq)]
pub struct DownloadResponse {
    /// total_length is the length of the whole revision.
    pub total_length: i64,
    /// sha256 is the digest of the whole revision.
    pub sha256: Vec<u8>,
    /// section is the served part.
    pub section: Option<Section>,
}

/// Why a request for a section is malformed, if it is.
pub open spec fn request_defect(request: DownloadRequest, limits: Limits) -> Option<StatusView> {
    if request.content_id@.len() != limits.content_id_len {
        Some(bad_content_id())
    } else if request.offset < 0 {
        Some(invalid_argument("offset must be non-negative"@))
    } else if request.length < 0 {
        Some(invalid_argument("length must be non-negative"@))
    } else if request.reference_content_id@.len() > 0 {
        Some(invalid_argument("reference_content_id is not supported"@))
    } else if request.offset > usize::MAX {
        Some(invalid_argument("offset is too large"@))
    } else if request.length > usize::MAX {
        Some(invalid_argument("length is too large"@))
    } else {
        None
    }
}

/// Validate one request for a section and return its offset and length.
pub fn check_download_request(request: &DownloadRequest, limits: &Limits) -> (outcome: Result<
    (usize, usize),
    Status,
>)
    ensures
        match request_defect(*request, *limits) {
            Some(failure) => fails_with(outcome, failure),
            None => outcome matches Ok(range) && range.0 == request.offset && range.1
                == request.length,
        },
{
    match validate_peer_content_id(request.content_id.as_slice(), limits) {
        Err(status) => return Err(status),
        Ok(()) => {},
    }
    if request.offset < 0 {
        return Err(Status::invalid_argument("offset must be non-negative"));
    }
    if request.length < 0 {
        return Err(Status::invalid_argument("length must be non-negative"));
    }
    if request.reference_content_id.len() > 0 {
        return Err(Status::invalid_argument("reference_content_id is not supported"));
    }
    if request.offset as u64 > usize::MAX as u64 {
        return Err(Status::invalid_argument("offset is too large"));
    }
    if request.length as u64 > usize::MAX as u64 {
        return Err(Status::invalid_argument("length is too large"));
    }
    Ok((request.offset as usize, request.length as usize))
}

/// DownloadSource tells which blob a request is served from.
#[derive(Clone, Copy, Debug, PartialEq, Eq, Structural)]
pub enum DownloadSource {
    /// Current is our own active revision.
    Current,
    /// Mirrored is the blob that we hold for the requester.
    Mirrored,
}

/// The blob that a request for `id` is served from: our active revision, or
/// else the revision that we hold for the requester. Nothing else is served.
pub open spec fn source_of(
    id: Seq<u8>,
    current: Option<Seq<u8>>,
    held_for_requester: Option<ContentInfoView>,
) -> Option<DownloadSource> {
    if current == Some(id) {
        Some(DownloadSource::Current)
    } else if held_for_requester matches Some(content) && content.content_id == id {
        Some(DownloadSource::Mirrored)
    } else {
        None
    }
}

/// Choose the blob that a request is served from.
pub fn choose_download_source(
    content_id: &[u8],
    current_content_id: &Option<Vec<u8>>,
    requester_content: &Option<ContentInfo>,
) -> (outcome: Result<DownloadSource, Status>)
    ensures
        match source_of(
            content_id@,
            match *current_content_id {
                Some(id) => Some(id@),
                None => None,
            },
            content_view(*requester_content),
        ) {
            Some(source) => outcome matches Ok(chosen) && chosen == source,
            None => fails_with(outcome, plain_status(Code::NotFound, "content not found"@)),
        },
{
    if let Some(current) = current_content_id {
        if bytes_eq(current.as_slice(), content_id) {
            return Ok(DownloadSource::Current);
        }
    }
    if let Some(content) = requester_content {
        if bytes_eq(content.content_id.as_slice(), content_id) {
            return Ok(DownloadSource::Mirrored);
        }
    }
    Err(Status::with_text(Code::NotFound, "content not found"))
}

/// The section of `blob` from `offset` on, at most `length` bytes long.
pub open spec fn section_of(blob: Seq<u8>, offset: int, length: int) -> Seq<u8> {
    blob.subrange(offset, min_int(offset + length, blob.len() as int))
}

/// Whether `response` serves the section of `blob`.
pub open spec fn serves(
    response: DownloadResponse,
    blob: Seq<u8>,
    offset: int,
    length: int,
) -> bool {
    &&& response.total_length == clamp_i64(blob.len() as int)
    &&& response.sha256@ == sha256(blob)
    &&& response.sha256@.len() == SHA256_LEN
    &&& response.section matches Some(Section::RawBytes(bytes)) && bytes@ == section_of(
        blob,
        offset,
        length,
    )
}

/// Serve one section of a blob.
pub fn serve_download(
    blob: &[u8],
    offset: usize,
    requested_length: usize,
    limits: &Limits,
) -> (outcome: Result<DownloadResponse, Status>)
    ensures
        if offset > blob@.len() {
            fails_with(
                outcome,
                plain_status(Code::OutOfRange, "offset is past the end of the blob"@),
            )
        } else if requested_length > limits.max_peer_content_bytes {
            fails_with(outcome, invalid_argument("length is too large"@))
        } else {
            outcome matches Ok(response) && serves(
                response,
                blob@,
                offset as int,
                requested_length as int,
            )
        },
{
    if offset > blob.len() {
        return Err(Status::with_text(Code::OutOfRange, "offset is past the end of the blob"));
    }
    if requested_length > limits.max_peer_content_bytes {
        return Err(Status::invalid_argument("length is too large"));
    }
    let end = if requested_length > blob.len() - offset {
        blob.len()
    } else {
        offset + requested_length
    };
    Ok(
        DownloadResponse {
            total_length: i64_from_usize(blob.len()),
            sha256: sha256_digest(blob),
            section: Some(Section::RawBytes(bytes_range(blob, offset, end))),
        },
    )
}

/// Why a whole revision cannot be asked for, if it cannot.
pub open spec fn blob_request_defect(id: Seq<u8>, expected_length: int, limits: Limits) -> Option<
    StatusView,
> {
    if id.len() != limits.content_id_len {
        Some(bad_content_id())
    } else if expected_length <= 0 {
        Some(invalid_argument("expected content length must be positive"@))
    } else if expected_length > limits.max_content() {
        Some(invalid_argument("expected content is too large"@))
    } else {
        None
    }
}

/// Build the request for a whole revision.
pub fn peer_blob_request(content_id: &[u8], expected_length: i64, limits: &Limits) -> (outcome:
    Result<DownloadRequest, Status>)
    ensures
        match blob_request_defect(content_id@, expected_length as int, *limits) {
            Some(failure) => fails_with(outcome, failure),
            None => outcome matches Ok(request) && request.content_id@ == content_id@
                && request.offset == 0 && request.length == expected_length
                && request.reference_content_id@.len() == 0,
        },
{
    match validate_peer_content_id(content_id, limits) {
        Err(status) => return Err(status),
        Ok(()) => {},
    }
    if expected_length <= 0 {
        return Err(Status::invalid_argument("expected content length must be positive"));
    }
    if expected_length > limits.max_peer_content_bytes_i64() {
        return Err(Status::invalid_argument("expected content is too large"));
    }
    let reference_content_id: Vec<u8> = Vec::new();
    Ok(
        DownloadRequest {
            content_id: bytes_copy(content_id),
            offset: 0,
            length: expected_length,
            reference_content_id,
        },
    )
}

/// Why an answer is not the expected revision, if it is not.
pub open spec fn blob_defect(
    response: DownloadResponse,
    expected_length: int,
    limits: Limits,
) -> Option<StatusView> {
    if response.total_length < 0 {
        Some(plain_status(Code::Internal, "peer returned a negative content length"@))
    } else if response.total_length > limits.max_content() {
        Some(
            plain_status(
                Code::ResourceExhausted,
                "peer returned content larger than the transport limit"@,
            ),
        )
    } else if response.total_length != expected_length {
        Some(
            plain_status(
                Code::DataLoss,
                "peer returned a different content length than advertised"@,
            ),
        )
    } else if response.sha256@.len() != SHA256_LEN {
        Some(plain_status(Code::DataLoss, "peer returned an invalid content hash"@))
    } else {
        match response.section {
            None => Some(plain_status(Code::Internal, "peer returned no content section"@)),
            Some(Section::Reference) => Some(
                plain_status(Code::Unimplemented, "reference sections are not supported yet"@),
            ),
            Some(Section::RawBytes(bytes)) => if clamp_i64(bytes@.len() as int) != expected_length {
                Some(plain_status(Code::Internal, "peer returned a short content blob"@))
            } else if sha256(bytes@) != response.sha256@ {
                Some(plain_status(Code::DataLoss, "peer content hash mismatch"@))
            } else {
                None
            },
        }
    }
}

/// Accept a downloaded revision only if its length and hash are as advertised.
pub fn accept_peer_blob(response: DownloadResponse, expected_length: i64, limits: &Limits) -> (outcome:
    Result<Vec<u8>, Status>)
    ensures
        match blob_defect(response, expected_length as int, *limits) {
            Some(failure) => fails_with(outcome, failure),
            None => outcome matches Ok(blob) && response.section matches Some(
                Section::RawBytes(bytes),
            ) && blob == bytes,
        },
{
    if response.total_length < 0 {
        return Err(Status::with_text(Code::Internal, "peer returned a negative content length"));
    }
    if response.total_length > limits.max_peer_content_bytes_i64() {
        return Err(
            Status::with_text(
                Code::ResourceExhausted,
                "peer returned content larger than the transport limit",
            ),
        );
    }
    if response.total_length != expected_length {
        return Err(
            Status::with_text(
                Code::DataLoss,
                "peer returned a different content length than advertised",
            ),
        );
    }
    if response.sha256.len() != SHA256_LEN {
        return Err(Status::with_text(Code::DataLoss, "peer returned an invalid content hash"));
    }
    let bytes = match response.section {
        Some(Section::RawBytes(bytes)) => bytes,
        Some(Section::Reference) => return Err(
            Status::with_text(Code::Unimplemented, "reference sections are not supported yet"),
        ),
        None => return Err(
            Status::with_text(Code::Internal, "peer returned no content section"),
        ),
    };
    if i64_from_usize(bytes.len()) != expected_length {
        return Err(Status::with_text(Code::Internal, "peer returned a short content blob"));
    }
    let actual = sha256_digest(bytes.as_slice());
    if !bytes_eq(actual.as_slice(), response.sha256.as_slice()) {
        return Err(Status::with_text(Code::DataLoss, "peer content hash mismatch"));
    }
    Ok(bytes)
}

/// `x` in `n` bytes, the least significant byte first.
pub open spec fn le_bytes(x: nat, n: nat) -> Seq<u8>
    decreases n,
{
    if n == 0 {
        Seq::<u8>::empty()
    } else {
        seq![(x % 256) as u8] + le_bytes(x / 256, (n - 1) as nat)
    }
}

/// The number that `bytes` spell, the least significant byte first.
pub open spec fn le_value(bytes: Seq<u8>) -> nat
    decreases bytes.len(),
{
    if bytes.len() == 0 {
        0
    } else {
        bytes[0] as nat + 256 * le_value(bytes.drop_first())
    }
}

/// Append `x` in eight bytes, the least significant byte first.
fn push_le_bytes(out: &mut Vec<u8>, x: u64)
    ensures
        final(out)@ == old(out)@ + le_bytes(x as nat, 8),
{
    let ghost start = out@;
    let mut left: u64 = x;
    let mut n: u64 = 8;
    assert(start + le_bytes(x as nat, 8) =~= out@ + le_bytes(left as nat, n as nat));
    while n > 0
        invariant
            n <= 8,
            start + le_bytes(x as nat, 8) == out@ + le_bytes(left as nat, n as nat),
        decreases n,
    {
        let ghost before = out@;
        let ghost rest = le_bytes((left / 256) as nat, (n - 1) as nat);
        out.push((left % 256) as u8);
        assert(before + le_bytes(left as nat, n as nat) =~= out@ + rest);
        left = left / 256;
        n = n - 1;
    }
    assert(out@ + le_bytes(left as nat, 0) =~= out@);
}

/// Read the number that the first eight bytes spell.
fn read_le_value(bytes: &Vec<u8>) -> (value: u64)
    requires
        bytes@.len() >= 8,
    ensures
        value == le_value(bytes@.take(8)),
{
    let ghost head = bytes@.take(8);
    let mut value: u64 = 0;
    let mut i: usize = 8;
    let ghost mut bound: int = 1;
    assert(head.skip(8) =~= Seq::<u8>::empty());
    while i > 0
        invariant
            i <= 8,
            bytes@.len() >= 8,
            head == bytes@.take(8),
            value == le_value(head.skip(i as int)),
            value < bound,
            bound == (if i == 8 {
                1int
            } else if i == 7 {
                0x100
            } else if i == 6 {
                0x1_0000
            } else if i == 5 {
                0x100_0000
            } else if i == 4 {
                0x1_0000_0000
            } else if i == 3 {
                0x100_0000_0000
            } else if i == 2 {
                0x1_0000_0000_0000
            } else if i == 1 {
                0x100_0000_0000_0000
            } else {
                0x1_0000_0000_0000_0000
            }),
        decreases i,
    {
        i = i - 1;
        assert(head.skip(i as int).drop_first() =~= head.skip(i + 1));
        assert(head.skip(i as int)[0] == bytes@[i as int]);
        value = bytes[i] as u64 + 256 * value;
        proof {
            bound = 256 * bound;
        }
    }
    assert(head.skip(0) =~= head);
    value
}

/// What is hashed to choose the sample of a peer's copy of `id` at `now`.
pub open spec fn sample_seed(key: Seq<u8>, id: Seq<u8>, now: u64) -> Seq<u8> {
    key + id + le_bytes(now as nat, 8)
}

/// Where the sample of a blob begins, as its seed's digest tells.
pub open spec fn sample_offset(digest: Seq<u8>, blob_len: usize) -> int {
    ((le_value(digest.take(8)) as u64) as usize) as int % blob_len as int
}

/// The offset and length of a sample that begins as `digest` tells.
pub open spec fn sample_range(digest: Seq<u8>, blob_len: usize) -> (int, int) {
    if blob_len == 0 {
        (0, 0)
    } else {
        (
            sample_offset(digest, blob_len),
            min_int(SAMPLE_LEN as int, blob_len - sample_offset(digest, blob_len)),
        )
    }
}

/// Place a sample in a blob by the digest of its seed.
pub fn section_at_digest(digest: &Vec<u8>, blob_len: usize) -> (range: (usize, usize))
    requires
        digest@.len() >= 8,
    ensures
        (range.0 as int, range.1 as int) == sample_range(digest@, blob_len),
        blob_len > 0 ==> range.0 < blob_len && 0 < range.1 && range.0 + range.1 <= blob_len,
        blob_len == 0 ==> range.0 == 0 && range.1 == 0,
{
    if blob_len == 0 {
        return (0, 0);
    }
    let value = read_le_value(digest);
    let offset = (value as usize) % blob_len;
    let left = blob_len - offset;
    let length = if SAMPLE_LEN <= left {
        SAMPLE_LEN
    } else {
        left
    };
    (offset, length)
}

/// Choose a deterministic sample section inside a content blob.
///
/// The peer identity, the revision and the current time are hashed together,
/// so repeated checks move across the blob.
pub fn sample_section(peer_public_key: &[u8], content_id: &[u8], now_secs: u64, blob_len: usize) -> (range:
    (usize, usize))
    ensures
        (range.0 as int, range.1 as int) == sample_range(
            sha256(sample_seed(peer_public_key@, content_id@, now_secs)),
            blob_len,
        ),
        blob_len > 0 ==> range.0 < blob_len && 0 < range.1 && range.0 + range.1 <= blob_len,
        blob_len == 0 ==> range.0 == 0 && range.1 == 0,
{
    let mut seed = bytes_copy(peer_public_key);
    seed.extend_from_slice(content_id);
    assert(seed@ =~= peer_public_key@ + content_id@);
    push_le_bytes(&mut seed, now_secs);
    let digest = sha256_digest(seed.as_slice());
    section_at_digest(&digest, blob_len)
}

/// Whether an answer to a sample request proves that the peer holds `blob`.
pub open spec fn sample_passes(
    blob: Seq<u8>,
    offset: int,
    length: int,
    response: DownloadResponse,
) -> bool {
    &&& response.total_length == clamp_i64(blob.len() as int)
    &&& response.sha256@ == sha256(blob)
    &&& response.section matches Some(Section::RawBytes(bytes)) && bytes@ == blob.subrange(
        offset,
        offset + length,
    )
}

/// Judge a peer's answer to a sample request.
pub fn judge_sample(
    local_blob: &[u8],
    section_offset: usize,
    section_length: usize,
    response: &DownloadResponse,
) -> (passed: bool)
    requires
        section_offset + section_length <= local_blob@.len(),
    ensures
        passed == sample_passes(
            local_blob@,
            section_offset as int,
            section_length as int,
            *response,
        ),
{
    if response.total_length != i64_from_usize(local_blob.len()) {
        return false;
    }
    let expected = sha256_digest(local_blob);
    if !bytes_eq(response.sha256.as_slice(), expected.as_slice()) {
        return false;
    }
    match &response.section {
        Some(Section::RawBytes(bytes)) => {
            let sample = bytes_range(local_blob, section_offset, section_offset + section_length);
            bytes_eq(bytes.as_slice(), sample.as_slice())
        },
        _ => false,
    }
}

/// A revision that an honest peer serves whole is accepted as it is.
pub proof fn law_honest_download_is_accepted(
    blob: Seq<u8>,
    response: DownloadResponse,
    limits: Limits,
)
    requires
        serves(response, blob, 0, blob.len() as int),
        blob.len() <= limits.max_content(),
    ensures
        blob_defect(response, blob.len() as int, limits) is None,
        response.section matches Some(Section::RawBytes(bytes)) && bytes@ == blob,
{
    assert(section_of(blob, 0, blob.len() as int) =~= blob);
}

/// What is accepted is exactly as long as advertised and has the hash that
/// came with it.
pub proof fn law_accepted_download_matches_advertisement(
    response: DownloadResponse,
    expected_length: int,
    limits: Limits,
)
    requires
        blob_defect(response, expected_length, limits) is None,
    ensures
        response.section matches Some(Section::RawBytes(bytes)) && clamp_i64(bytes@.len() as int)
            == expected_length && sha256(bytes@) == response.sha256@,
        expected_length <= limits.max_content(),
{
}

/// A peer that holds our revision and serves the sampled section passes.
pub proof fn law_honest_sample_passes(
    blob: Seq<u8>,
    offset: int,
    length: int,
    response: DownloadResponse,
)
    requires
        0 <= offset,
        0 <= length,
        offset + length <= blob.len(),
        serves(response, blob, offset, length),
    ensures
        sample_passes(blob, offset, length, response),
{
}

/// A peer that serves another revision, one with another digest, never passes.
pub proof fn law_other_revision_never_passes(
    blob: Seq<u8>,
    other: Seq<u8>,
    offset: int,
    length: int,
    response: DownloadResponse,
)
    requires
        serves(response, other, offset, length),
        sha256(other) != sha256(blob),
    ensures
        !sample_passes(blob, offset, length, response),
{
}

/// Every sample lies inside the blob, and is never empty unless the blob is.
pub proof fn law_sample_lies_inside_blob(digest: Seq<u8>, blob_len: usize)
    ensures
        ({
            let range = sample_range(digest, blob_len);
            &&& 0 <= range.0
            &&& 0 <= range.1 <= SAMPLE_LEN
            &&& range.0 + range.1 <= blob_len
            &&& blob_len > 0 ==> range.1 > 0
        }),
{
}

/// A sample passes exactly when the answer carries raw bytes, exactly as many
/// as were asked for and each equal to ours, together with the length and the
/// digest of our whole revision.
pub proof fn law_sample_passes_only_with_our_bytes(
    local_blob: &[u8],
    section_offset: usize,
    section_length: usize,
    response: &DownloadResponse,
    passed: bool,
)
    requires
        section_offset + section_length <= local_blob@.len() <= i64::MAX,
        call_ensures(judge_sample, (local_blob, section_offset, section_length, response), passed),
    ensures
        passed <==> {
            &&& response.section matches Some(Section::RawBytes(bytes))
            &&& bytes@.len() == section_length
            &&& forall|i: int|
                0 <= i < section_length ==> #[trigger] bytes@[i] == local_blob@[section_offset + i]
            &&& response.total_length == local_blob@.len()
            &&& response.sha256@ == sha256(local_blob@)
        },
{
    if let Some(Section::RawBytes(bytes)) = response.section {
        let sample = local_blob@.subrange(
            section_offset as int,
            section_offset + section_length,
        );
        if bytes@.len() == section_length && (forall|i: int|
            0 <= i < section_length ==> #[trigger] bytes@[i] == local_blob@[section_offset + i]) {
            assert(bytes@ =~= sample);
        }
    }
}

/// A served section begins at the offset, is as long as was asked for or as the
/// revision allows, and comes with the length and digest of the whole revision.
/// Only an offset past the end or a length above the limit is refused.
pub proof fn law_served_section_is_exact(
    blob: &[u8],
    offset: usize,
    length: usize,
    limits: &Limits,
    outcome: Result<DownloadResponse, Status>,
)
    requires
        blob@.len() <= i64::MAX,
        call_ensures(serve_download, (blob, offset, length, limits), outcome),
    ensures
        outcome is Ok <==> offset <= blob@.len() && length <= limits.max_peer_content_bytes,
        outcome matches Ok(response) ==> {
            &&& response.total_length == blob@.len()
            &&& response.sha256@ == sha256(blob@)
            &&& response.section matches Some(Section::RawBytes(bytes))
            &&& bytes@.len() == length || (bytes@.len() < length && offset + bytes@.len()
                == blob@.len())
            &&& forall|i: int|
                0 <= i < bytes@.len() ==> #[trigger] bytes@[i] == blob@[offset + i]
        },
{
}

/// Sections that follow one another put the revision together again.
pub proof fn law_sections_put_revision_together(
    blob: &[u8],
    middle: usize,
    limits: &Limits,
    first: DownloadResponse,
    second: DownloadResponse,
)
    requires
        middle <= blob@.len() <= usize::MAX,
        call_ensures(serve_download, (blob, 0, middle, limits), Ok(first)),
        call_ensures(
            serve_download,
            (blob, middle, (blob@.len() - middle) as usize, limits),
            Ok(second),
        ),
    ensures
        first.section matches Some(Section::RawBytes(head)) && second.section matches Some(
            Section::RawBytes(tail),
        ) && head@ + tail@ == blob@,
{
    let head = first.section->0->RawBytes_0;
    let tail = second.section->0->RawBytes_0;
    assert(head@ + tail@ =~= blob@);
}

/// A request for a section is well formed exactly when it names a revision by an
/// identifier of the right length, reaches forward from within the address
/// space, and refers to no other revision; its offset and length are kept.
pub proof fn law_wellformed_requests_are_kept(
    request: &DownloadRequest,
    limits: &Limits,
    outcome: Result<(usize, usize), Status>,
)
    requires
        call_ensures(check_download_request, (request, limits), outcome),
    ensures
        outcome is Ok <==> {
            &&& request.content_id@.len() == limits.content_id_len
            &&& 0 <= request.offset <= usize::MAX
            &&& 0 <= request.length <= usize::MAX
            &&& request.reference_content_id@.len() == 0
        },
        outcome matches Ok(range) ==> range.0 == request.offset && range.1 == request.length,
{
}

/// A request is served from our active revision if it names that, from what we
/// hold for the requester if it names that, and is refused otherwise.
pub proof fn law_request_finds_its_source(
    content_id: &[u8],
    current: &Option<Vec<u8>>,
    held: &Option<ContentInfo>,
    outcome: Result<DownloadSource, Status>,
)
    requires
        call_ensures(choose_download_source, (content_id, current, held), outcome),
    ensures
        outcome matches Ok(DownloadSource::Current) <==> (*current matches Some(id) && id@
            == content_id@),
        outcome matches Ok(DownloadSource::Mirrored) <==> !(*current matches Some(id) && id@
            == content_id@) && (*held matches Some(info) && info.content_id@ == content_id@),
        outcome is Err <==> !(*current matches Some(id) && id@ == content_id@) && !(
        *held matches Some(info) && info.content_id@ == content_id@),
{
}

/// A whole revision is asked for from its first byte to its advertised length,
/// and only where that length is positive and within the limit.
pub proof fn law_whole_revision_is_asked_for(
    content_id: &[u8],
    expected_length: i64,
    limits: &Limits,
    outcome: Result<DownloadRequest, Status>,
)
    requires
        call_ensures(peer_blob_request, (content_id, expected_length, limits), outcome),
        limits.max_peer_content_bytes <= i64::MAX,
    ensures
        outcome is Ok <==> {
            &&& content_id@.len() == limits.content_id_len
            &&& 0 < expected_length <= limits.max_peer_content_bytes
        },
        outcome matches Ok(request) ==> request.content_id@ == content_id@ && request.offset == 0
            && request.length == expected_length && request.reference_content_id@.len() == 0,
{
}

/// A downloaded revision is accepted exactly when it came as raw bytes, is as
/// long as advertised and within the limit, and has the digest that came with
/// it; then all of its bytes are taken over.
pub proof fn law_only_the_advertised_revision_is_accepted(
    response: DownloadResponse,
    expected_length: i64,
    limits: &Limits,
    outcome: Result<Vec<u8>, Status>,
)
    requires
        call_ensures(accept_peer_blob, (response, expected_length, limits), outcome),
        limits.max_peer_content_bytes < i64::MAX,
    ensures
        outcome is Ok <==> {
            &&& response.section matches Some(Section::RawBytes(bytes))
            &&& bytes@.len() == expected_length
            &&& response.total_length == expected_length
            &&& expected_length <= limits.max_peer_content_bytes
            &&& response.sha256@.len() == 32
            &&& response.sha256@ == sha256(bytes@)
        },
        outcome matches Ok(blob) ==> response.section matches Some(Section::RawBytes(bytes))
            && blob@ == bytes@,
{
}

/// The number that eight bytes spell, the least significant byte first.
proof fn lemma_le_value_of_eight(b: Seq<u8>)
    requires
        b.len() == 8,
    ensures
        le_value(b) == b[0] + 0x100 * b[1] + 0x1_0000 * b[2] + 0x100_0000 * b[3] + 0x1_0000_0000
            * b[4] + 0x100_0000_0000 * b[5] + 0x1_0000_0000_0000 * b[6] + 0x100_0000_0000_0000
            * b[7],
{
    reveal_with_fuel(le_value, 9);
    assert(b.drop_first() =~= b.subrange(1, 8));
    assert(b.subrange(1, 8).drop_first() =~= b.subrange(2, 8));
    assert(b.subrange(2, 8).drop_first() =~= b.subrange(3, 8));
    assert(b.subrange(3, 8).drop_first() =~= b.subrange(4, 8));
    assert(b.subrange(4, 8).drop_first() =~= b.subrange(5, 8));
    assert(b.subrange(5, 8).drop_first() =~= b.subrange(6, 8));
    assert(b.subrange(6, 8).drop_first() =~= b.subrange(7, 8));
    assert(b.subrange(7, 8).drop_first() =~= b.subrange(8, 8));
}

/// A sample begins where the first eight bytes of the digest, read with the
/// least significant byte first, point to, counted round the blob. It is sixteen
/// kibibytes long, or reaches to the end of the blob if that is nearer.
pub proof fn law_digest_places_the_sample(digest: &Vec<u8>, blob_len: usize, range: (usize, usize))
    requires
        digest@.len() >= 8,
        0 < blob_len,
        usize::MAX == u64::MAX,
        call_ensures(section_at_digest, (digest, blob_len), range),
    ensures
        range.0 == (digest@[0] + 0x100 * digest@[1] + 0x1_0000 * digest@[2] + 0x100_0000 * digest@[3]
            + 0x1_0000_0000 * digest@[4] + 0x100_0000_0000 * digest@[5] + 0x1_0000_0000_0000
            * digest@[6] + 0x100_0000_0000_0000 * digest@[7]) % blob_len as int,
        range.1 == 16384 || (range.1 < 16384 && range.0 + range.1 == blob_len),
        range.0 + range.1 <= blob_len,
{
    let head = digest@.take(8);
    lemma_le_value_of_eight(head);
    let value = le_value(head);
    assert(value <= u64::MAX);
    assert((value as u64) as usize == value);
}

/// The seed of a sample is the peer's key, the revision's identifier and the
/// time in eight bytes; other keys, identifiers or times give other seeds.
pub proof fn law_seed_tells_peer_revision_and_time(
    key: Seq<u8>,
    id: Seq<u8>,
    now: u64,
    other_key: Seq<u8>,
    other_id: Seq<u8>,
    other_now: u64,
)
    requires
        key.len() == other_key.len(),
        id.len() == other_id.len(),
    ensures
        sample_seed(key, id, now).len() == key.len() + id.len() + 8,
        sample_seed(key, id, now).take(key.len() as int) == key,
        sample_seed(key, id, now).subrange(key.len() as int, (key.len() + id.len()) as int) == id,
        sample_seed(key, id, now) == sample_seed(other_key, other_id, other_now) ==> key == other_key
            && id == other_id && now == other_now,
{
    lemma_le_round_trip(now as nat, 8);
    lemma_le_round_trip(other_now as nat, 8);
    let k = key.len() as int;
    let n = (key.len() + id.len()) as int;
    let seed = sample_seed(key, id, now);
    let other = sample_seed(other_key, other_id, other_now);
    assert(seed.take(k) =~= key && other.take(k) =~= other_key);
    assert(seed.subrange(k, n) =~= id && other.subrange(k, n) =~= other_id);
    assert(seed.skip(n) =~= le_bytes(now as nat, 8));
    assert(other.skip(n) =~= le_bytes(other_now as nat, 8));
    assert(vstd::arithmetic::power::pow(256, 8) == 0x1_0000_0000_0000_0000) by {
        reveal_with_fuel(vstd::arithmetic::power::pow, 9);
    }
}

/// The bytes of a number spell it.
proof fn lemma_le_round_trip(x: nat, n: nat)
    ensures
        le_bytes(x, n).len() == n,
        x < vstd::arithmetic::power::pow(256, n) ==> le_value(le_bytes(x, n)) == x,
    decreases n,
{
    reveal(vstd::arithmetic::power::pow);
    if n > 0 {
        lemma_le_round_trip(x / 256, (n - 1) as nat);
        assert(le_bytes(x, n).drop_first() =~= le_bytes(x / 256, (n - 1) as nat));
    }
}

/// The sampled section is where the digest of the peer, the revision and the
/// time puts it, and it lies inside the blob and is not empty unless the blob is.
pub proof fn law_sampled_section_is_where_the_digest_puts_it(
    key: &[u8],
    id: &[u8],
    now: u64,
    blob_len: usize,
    range: (usize, usize),
    digest: &Vec<u8>,
    placed: (usize, usize),
)
    requires
        call_ensures(sample_section, (key, id, now, blob_len), range),
        digest@ == sha256(sample_seed(key@, id@, now)),
        call_ensures(section_at_digest, (digest, blob_len), placed),
    ensures
        range == placed,
        range.0 + range.1 <= blob_len,
        blob_len > 0 ==> range.1 > 0,
{
}

/// A malformed request is told from one for what is not here and from one that
/// reaches past the end.
pub proof fn law_refused_requests_tell_why(
    id: &[u8],
    request: &DownloadRequest,
    limits: &Limits,
    checked: Result<(usize, usize), Status>,
    current: &Option<Vec<u8>>,
    held: &Option<ContentInfo>,
    chosen: Result<DownloadSource, Status>,
    blob: &[u8],
    offset: usize,
    length: usize,
    served: Result<DownloadResponse, Status>,
    expected_length: i64,
    asked: Result<DownloadRequest, Status>,
)
    requires
        call_ensures(check_download_request, (request, limits), checked),
        call_ensures(choose_download_source, (id, current, held), chosen),
        call_ensures(serve_download, (blob, offset, length, limits), served),
        call_ensures(peer_blob_request, (id, expected_length, limits), asked),
    ensures
        checked matches Err(status) ==> status.code == Code::InvalidArgument,
        chosen matches Err(status) ==> status.code == Code::NotFound,
        served matches Err(status) ==> (status.code == Code::OutOfRange <==> offset > blob@.len()),
        served matches Err(status) ==> (status.code == Code::InvalidArgument <==> offset
            <= blob@.len()),
        asked matches Err(status) ==> status.code == Code::InvalidArgument,
{
}

/// What a peer sends instead of the revision that it advertised is told apart:
/// another length or another digest is lost data, more than peers exchange is
/// too much, a section by reference is not offered, and anything else is the
/// peer's own failure.
pub proof fn law_bad_downloads_are_told_apart(
    response: DownloadResponse,
    expected_length: i64,
    limits: &Limits,
    outcome: Result<Vec<u8>, Status>,
)
    requires
        call_ensures(accept_peer_blob, (response, expected_length, limits), outcome),
        limits.max_peer_content_bytes < i64::MAX,
    ensures
        ({
            let announced = response.total_length;
            let fits = 0 <= announced <= limits.max_peer_content_bytes;
            let sound = fits && announced == expected_length && response.sha256@.len() == 32;
            let code = outcome->Err_0.code;
            &&& announced > limits.max_peer_content_bytes ==> outcome is Err && code
                == Code::ResourceExhausted
            &&& announced < 0 ==> outcome is Err && code == Code::Internal
            &&& fits && !sound ==> outcome is Err && code == Code::DataLoss
            &&& sound && response.section is None ==> outcome is Err && code == Code::Internal
            &&& sound && response.section == Some(Section::Reference) ==> outcome is Err && code
                == Code::Unimplemented
            &&& sound && response.section is Some && response.section->0 is RawBytes ==> {
                let bytes = response.section->0->RawBytes_0@;
                &&& bytes.len() != expected_length ==> outcome is Err && code == Code::Internal
                &&& bytes.len() == expected_length && sha256(bytes) != response.sha256@
                    ==> outcome is Err && code == Code::DataLoss
            }
        }),
{
}

/// The time stands at the end of the seed of a sample, its least significant
/// byte first.
pub proof fn law_time_ends_the_seed(key: Seq<u8>, id: Seq<u8>, now: u64)
    ensures
        ({
            let seed = sample_seed(key, id, now);
            let n = (key.len() + id.len()) as int;
            &&& seed.len() == n + 8
            &&& seed[n] == now % 256
            &&& now == seed[n] + 0x100 * seed[n + 1] + 0x1_0000 * seed[n + 2] + 0x100_0000
                * seed[n + 3] + 0x1_0000_0000 * seed[n + 4] + 0x100_0000_0000 * seed[n + 5]
                + 0x1_0000_0000_0000 * seed[n + 6] + 0x100_0000_0000_0000 * seed[n + 7]
        }),
{
    lemma_le_round_trip(now as nat, 8);
    assert(vstd::arithmetic::power::pow(256, 8) == 0x1_0000_0000_0000_0000) by {
        reveal_with_fuel(vstd::arithmetic::power::pow, 9);
    }
    let tail = le_bytes(now as nat, 8);
    lemma_le_value_of_eight(tail);
    let seed = sample_seed(key, id, now);
    let n = (key.len() + id.len()) as int;
    assert(seed.skip(n) =~= tail);
    assert forall|i: int| 0 <= i < 8 implies #[trigger] tail[i] == seed[n + i] by {
        assert(seed.skip(n)[i] == seed[n + i]);
    }
    assert(tail[0] == (now % 256) as u8);
}

} // verus!
