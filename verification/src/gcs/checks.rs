//! Bucket names, checksums, preconditions and page tokens.

use vstd::prelude::*;
use vstd::string::*;
use vstd::utf8::{
    decode_utf8, decode_utf8_encode_utf8, encode_utf8, encode_utf8_decode_utf8,
    encode_utf8_valid_utf8,
};
use crate::azure::AzureBlobAdapter;
use crate::azure::basics::{alphanumeric, header_metadata, metadata_with_prefix, range_of};
use crate::clock::{Stamp, StampView};
use crate::codec::{
    base64_bytes, base64_decode, base64_encode, base64_is_read_back, base64_text, form_lengths,
    hex_digit, hex_encode, hex_text, sha256_compute, sha256_digest, url_base64_bytes,
    url_base64_decode, url_base64_encode, url_base64_text,
};
use crate::gcs::GcsAdapter;
use crate::gcs::basics::{
    error_response, generation, json_error, json_upload_error, metageneration, refuse, refuse_json,
    refuse_upload, reply, response, GCS_GENERATION_KEY, GCS_METAGENERATION_KEY,
};
use crate::http::{HeaderView, Request, RequestView, Response, ResponseView};
use crate::number::{read_u64, read_unsigned, read_usize, unsigned};
use crate::store::{all_view, ConditionView, Object, ObjectCondition, ObjectView};
use crate::table::{get, Table};
use crate::text::{
    after_prefix, begins, cat3, characters, contains, cut, holds, lowercase, lowered, pieces, same,
    split, split_from, split_once, starts_with, strip_prefix, text_of, trim, trimmed, utf8_text,
};
use crate::views::{each, each_empty, seen, settled, Text};

verus! {

// ---------------------------------------------------------------------------
// Bucket names

pub open spec fn bucket_char(c: char) -> bool {
    0x61 <= c as u32 <= 0x7a || 0x30 <= c as u32 <= 0x39 || c == '-' || c == '_' || c == '.'
}

/// Whether a text is a decimal number from 0 to 255 without leading zeros.
pub open spec fn is_octet(s: Text) -> bool {
    1 <= s.len() <= 3 && (s.len() == 1 || s[0] != '0') && s[0] != '+' && unsigned(s, 255) is Some
}

/// Whether a text is an IPv4 address in dotted decimal notation.
pub open spec fn is_ipv4(s: Text) -> bool {
    let parts = split(s, '.');
    parts.len() == 4 && forall|i: int| 0 <= i < parts.len() ==> is_octet(#[trigger] parts[i])
}

/// Buckets have at least 3 lower-case letters, digits, hyphens, underscores and dots: at most
/// 63, or 222 where there are dots, with 1 to 63 between dots. The first and the last are
/// letters or digits. A name is no IPv4 address and does not look like one of Google's.
pub open spec fn valid_bucket_name(name: Text) -> bool {
    &&& 3 <= name.len() <= (if contains(name, "."@) {
        222int
    } else {
        63int
    })
    &&& alphanumeric(name[0])
    &&& alphanumeric(name[name.len() - 1])
    &&& forall|i: int| 0 <= i < name.len() ==> bucket_char(#[trigger] name[i])
    &&& forall|i: int|
        0 <= i < split(name, '.').len() ==> 1 <= (#[trigger] split(name, '.')[i]).len() <= 63
    &&& !is_ipv4(name)
    &&& !starts_with(name, "goog"@)
    &&& !contains(name, "google"@)
    &&& !contains(name, "g00gle"@)
}

// ---------------------------------------------------------------------------
// Checksums

/// One step of the CRC-32C register, with its bits in reverse order.
pub open spec fn crc_step(crc: u32) -> u32 {
    if crc & 1 == 1 {
        (crc >> 1) ^ 0x82f6_3b78u32
    } else {
        crc >> 1
    }
}

pub open spec fn crc_steps(crc: u32, n: int) -> u32
    decreases n,
{
    if n <= 0 {
        crc
    } else {
        crc_step(crc_steps(crc, n - 1))
    }
}

/// The register behind the first `i` bytes.
pub open spec fn crc_upto(data: Seq<u8>, i: int) -> u32
    decreases i,
{
    if i <= 0 {
        !0u32
    } else {
        crc_steps(crc_upto(data, i - 1) ^ (data[i - 1] as u32), 8)
    }
}

/// The CRC-32C of bytes.
pub open spec fn crc32c(data: Seq<u8>) -> u32 {
    !crc_upto(data, data.len() as int)
}

/// A number as four bytes, the high one first.
pub open spec fn be_bytes(n: u32) -> Seq<u8> {
    seq![
        (n / 0x100_0000) as u8,
        (n / 0x1_0000 % 0x100) as u8,
        (n / 0x100 % 0x100) as u8,
        (n % 0x100) as u8,
    ]
}

/// The number that four bytes stand for, the high one first.
pub open spec fn from_be_bytes(b: Seq<u8>) -> u32 {
    (b[0] * 0x100_0000 + b[1] * 0x1_0000 + b[2] * 0x100 + b[3]) as u32
}

/// Reading four bytes gives back the number that was written.
pub proof fn be_bytes_read_back(n: u32)
    ensures
        be_bytes(n).len() == 4,
        from_be_bytes(be_bytes(n)) == n,
{
}

pub open spec fn encoded_crc32c(data: Seq<u8>) -> Text {
    base64_text(be_bytes(crc32c(data)))
}

/// Why an upload was refused.
pub enum UploadMetadataError {
    Invalid(String),
    ChecksumMismatch(String),
    Unsupported(String),
}

/// A refusal over characters.
pub enum UploadErrorView {
    Invalid(Text),
    ChecksumMismatch(Text),
    Unsupported(Text),
}

impl View for UploadMetadataError {
    type V = UploadErrorView;

    open spec fn view(&self) -> UploadErrorView {
        match self {
            UploadMetadataError::Invalid(message) => UploadErrorView::Invalid(message@),
            UploadMetadataError::ChecksumMismatch(message) => UploadErrorView::ChecksumMismatch(
                message@,
            ),
            UploadMetadataError::Unsupported(message) => UploadErrorView::Unsupported(message@),
        }
    }
}

pub open spec fn upload_metadata_error_response(stamp: StampView, error: UploadErrorView)
    -> ResponseView {
    match error {
        UploadErrorView::Invalid(message) => json_upload_error(stamp, 400, message),
        UploadErrorView::ChecksumMismatch(message) => json_error(stamp, 400, "invalid"@, message),
        UploadErrorView::Unsupported(message) => json_upload_error(stamp, 501, message),
    }
}

/// A checksum from the bytes that its Base64 form gives, or which of two messages says what is
/// wrong.
pub open spec fn checksum_verdict(decoded: Option<Seq<u8>>, not_base64: Text, not_four: Text)
    -> Result<u32, UploadErrorView> {
    match decoded {
        None => Err(UploadErrorView::Invalid(not_base64)),
        Some(bytes) => if bytes.len() == 4 {
            Ok(from_be_bytes(bytes))
        } else {
            Err(UploadErrorView::Invalid(not_four))
        },
    }
}

/// A checksum from its Base64 form.
pub open spec fn checksum_of(text: Text, not_base64: Text, not_four: Text) -> Result<
    u32,
    UploadErrorView,
> {
    checksum_verdict(base64_bytes(text), not_base64, not_four)
}

/// The checksum that a token `crc32c=...` of the hash header gives.
pub open spec fn hash_token(token: Text) -> Result<u32, UploadErrorView> {
    match split_once(token, "="@) {
        None => Err(
            UploadErrorView::Invalid(
                "X-Goog-Hash checksum tokens must use algorithm=value syntax"@,
            ),
        ),
        Some((algorithm, encoded)) => if lowered(algorithm) != "crc32c"@ {
            Err(
                UploadErrorView::Unsupported(
                    "X-Goog-Hash algorithm "@ + algorithm
                        + " is not supported by this emulator surface"@,
                ),
            )
        } else {
            checksum_of(
                encoded,
                "X-Goog-Hash crc32c must be base64-encoded big-endian bytes"@,
                "X-Goog-Hash crc32c must decode to exactly four bytes"@,
            )
        },
    }
}

/// The checksum that the tokens from place `i` on agree on, with one that is known already.
pub open spec fn tokens_from(expected: Option<u32>, tokens: Seq<Text>, i: int) -> Result<
    Option<u32>,
    UploadErrorView,
>
    decreases tokens.len() - i,
{
    if i >= tokens.len() {
        Ok(expected)
    } else {
        match hash_token(trim(tokens[i])) {
            Err(error) => Err(error),
            Ok(parsed) => if expected is Some && expected != Some(parsed) {
                Err(
                    UploadErrorView::Invalid(
                        "X-Goog-Hash contains conflicting CRC32C values"@,
                    ),
                )
            } else {
                tokens_from(Some(parsed), tokens, i + 1)
            },
        }
    }
}

/// The checksum that the headers from place `i` on agree on.
pub open spec fn hashes_from(
    expected: Option<u32>,
    headers: Seq<(Text, HeaderView)>,
    i: int,
) -> Result<Option<u32>, UploadErrorView>
    decreases headers.len() - i,
{
    if i >= headers.len() {
        Ok(expected)
    } else {
        match headers[i].1.text() {
            Some(value) if lowered(headers[i].0) == "x-goog-hash"@ => if trim(value).len() == 0 {
                Err(UploadErrorView::Invalid("X-Goog-Hash must contain a checksum token"@))
            } else {
                match tokens_from(expected, split(value, ','), 0) {
                    Err(error) => Err(error),
                    Ok(next) => hashes_from(next, headers, i + 1),
                }
            },
            _ => hashes_from(expected, headers, i + 1),
        }
    }
}

pub open spec fn request_crc32c(req: RequestView) -> Result<Option<u32>, UploadErrorView> {
    hashes_from(None, req.headers, 0)
}

pub open spec fn combined_crc32c(metadata: Option<u32>, header: Option<u32>) -> Result<
    Option<u32>,
    UploadErrorView,
> {
    match (metadata, header) {
        (Some(a), Some(b)) => if a != b {
            Err(
                UploadErrorView::Invalid(
                    "Object metadata and X-Goog-Hash contain conflicting CRC32C values"@,
                ),
            )
        } else {
            Ok(Some(a))
        },
        (Some(a), None) => Ok(Some(a)),
        (None, b) => Ok(b),
    }
}

/// A content matches a checksum, where one is given.
pub open spec fn validate_crc32c(expected: Option<u32>, data: Seq<u8>) -> Result<
    (),
    UploadErrorView,
> {
    match expected {
        Some(expected) => if expected == crc32c(data) {
            Ok(())
        } else {
            Err(
                UploadErrorView::ChecksumMismatch(
                    "Provided CRC32C \""@ + base64_text(be_bytes(expected))
                        + "\" does not match calculated CRC32C \""@ + encoded_crc32c(data) + "\""@,
                ),
            )
        },
        None => Ok(()),
    }
}

// ---------------------------------------------------------------------------
// Preconditions

pub open spec fn not_a_number(value: Option<Text>) -> bool {
    match value {
        Some(value) => unsigned(value, u64::MAX as int) is None,
        None => false,
    }
}

/// The refusal of preconditions that contradict each other or are no numbers.
pub open spec fn invalid_preconditions(stamp: StampView, req: RequestView) -> Option<ResponseView> {
    let a = req.param("ifGenerationMatch"@);
    let b = req.param("ifGenerationNotMatch"@);
    let c = req.param("ifMetagenerationMatch"@);
    let d = req.param("ifMetagenerationNotMatch"@);
    if a is Some && b is Some || c is Some && d is Some || not_a_number(a) || not_a_number(b)
        || not_a_number(c) || not_a_number(d) {
        Some(
            json_error(
                stamp,
                400,
                "invalidParameter"@,
                "Generation preconditions must be unsigned integers and match/not-match cannot be combined"@,
            ),
        )
    } else {
        None
    }
}

pub open spec fn invalid_upload_preconditions(stamp: StampView, req: RequestView) -> Option<
    ResponseView,
> {
    match invalid_preconditions(stamp, req) {
        Some(refusal) => Some(refusal),
        None => if req.param("ifMetagenerationMatch"@) is Some || req.param(
            "ifMetagenerationNotMatch"@,
        ) is Some {
            Some(
                json_error(
                    stamp,
                    400,
                    "invalidParameter"@,
                    "Object uploads do not support metageneration preconditions"@,
                ),
            )
        } else {
            None
        },
    }
}

/// What is reported for an object under the key of one of the two counters.
pub open spec fn counter(blob: ObjectView, key: Text) -> Text {
    if key == GCS_GENERATION_KEY@ {
        generation(blob)
    } else {
        metageneration(blob)
    }
}

/// The condition that a counter of an object has a value: by the counter where it is stored
/// with the object that was read, and by the tag of that object where it is not and the value
/// is the one that is reported.
pub open spec fn counter_condition(existing: Option<ObjectView>, key: Text, wanted: Text)
    -> ConditionView {
    match existing {
        Some(blob) => if get(blob.metadata, key) is None && wanted == counter(blob, key) {
            ConditionView::Etag(blob.etag)
        } else {
            ConditionView::Metadata(key, wanted)
        },
        None => ConditionView::Metadata(key, wanted),
    }
}

/// The condition that an object has a generation; none has generation zero.
pub open spec fn generation_condition(existing: Option<ObjectView>, value: Text) -> ConditionView {
    if value == "0"@ {
        ConditionView::Missing
    } else {
        counter_condition(existing, GCS_GENERATION_KEY@, value)
    }
}

/// The refusal of preconditions of the XML API that are no numbers or lack a part.
pub open spec fn xml_condition_refusal(stamp: StampView, req: RequestView, paired: bool) -> Option<
    ResponseView,
> {
    let generation = req.header("x-goog-if-generation-match"@);
    let metageneration = req.header("x-goog-if-metageneration-match"@);
    if paired && metageneration is Some && generation is None {
        Some(
            error_response(
                stamp,
                400,
                "InvalidArgument"@,
                "x-goog-if-metageneration-match requires x-goog-if-generation-match"@,
            ),
        )
    } else if not_a_number(generation) || not_a_number(metageneration) || (metageneration is Some
        && unsigned(metageneration->0, u64::MAX as int) == Some(0int)) {
        Some(
            error_response(
                stamp,
                400,
                "InvalidArgument"@,
                "Generation preconditions must be unsigned integers and metageneration must be positive"@,
            ),
        )
    } else {
        None
    }
}

/// The condition that the preconditions of the XML API set over the object that was read.
pub open spec fn xml_condition(req: RequestView, existing: Option<ObjectView>) -> Option<
    ConditionView,
> {
    match (
        req.header("x-goog-if-generation-match"@),
        req.header("x-goog-if-metageneration-match"@),
    ) {
        (None, None) => None,
        (Some(g), None) => Some(generation_condition(existing, g)),
        (None, Some(m)) => Some(counter_condition(existing, GCS_METAGENERATION_KEY@, m)),
        (Some(g), Some(m)) => Some(
            ConditionView::All(
                seq![
                    generation_condition(existing, g),
                    counter_condition(existing, GCS_METAGENERATION_KEY@, m),
                ],
            ),
        ),
    }
}

/// The condition under which a request of the XML API may write or delete.
pub open spec fn xml_mutation_condition(
    stamp: StampView,
    req: RequestView,
    existing: Option<ObjectView>,
    paired: bool,
) -> Result<Option<ConditionView>, ResponseView> {
    match xml_condition_refusal(stamp, req, paired) {
        Some(refusal) => Err(refusal),
        None => Ok(xml_condition(req, existing)),
    }
}

pub open spec fn generation_precondition_failed(stamp: StampView) -> ResponseView {
    json_error(
        stamp,
        412,
        "conditionNotMet"@,
        "At least one of the pre-conditions you specified did not hold."@,
    )
}

pub open spec fn xml_precondition_failed(stamp: StampView) -> ResponseView {
    error_response(
        stamp,
        412,
        "PreconditionFailed"@,
        "At least one of the preconditions you specified did not hold"@,
    )
}

/// The refusal of conditions on tags, which the JSON API does not know.
pub open spec fn invalid_json_mutation_headers(stamp: StampView, req: RequestView) -> Option<
    ResponseView,
> {
    if req.header("if-match"@) is Some || req.header("if-none-match"@) is Some {
        Some(
            json_error(
                stamp,
                400,
                "invalidParameter"@,
                "GCS JSON mutations require generation query preconditions; ETag mutation headers are unsupported"@,
            ),
        )
    } else {
        None
    }
}

/// Whether the preconditions of a request hold of an object; where not, the reply.
pub open spec fn check_gcs_preconditions(stamp: StampView, req: RequestView, blob: ObjectView)
    -> Result<(), ResponseView> {
    match invalid_preconditions(stamp, req) {
        Some(refusal) => Err(refusal),
        None => {
            let a = req.param("ifGenerationMatch"@);
            let c = req.param("ifMetagenerationMatch"@);
            if a is Some && a != Some(generation(blob)) {
                Err(
                    json_error(
                        stamp,
                        412,
                        "conditionNotMet"@,
                        "Generation precondition failed"@,
                    ),
                )
            } else if req.param("ifGenerationNotMatch"@) == Some(generation(blob)) {
                Err(response(stamp, 304))
            } else if c is Some && c != Some(metageneration(blob)) {
                Err(
                    json_error(
                        stamp,
                        412,
                        "conditionNotMet"@,
                        "Metageneration precondition failed"@,
                    ),
                )
            } else if req.param("ifMetagenerationNotMatch"@) == Some(metageneration(blob)) {
                Err(response(stamp, 304))
            } else {
                Ok(())
            }
        },
    }
}

/// The conditions that a request of the JSON API sets on one of the two counters of an object
/// that was read.
pub open spec fn counter_conditions(
    blob: ObjectView,
    wanted: Option<Text>,
    unwanted: Option<Text>,
    key: Text,
) -> Seq<ConditionView> {
    let first = match wanted {
        Some(value) => seq![counter_condition(Some(blob), key, value)],
        None => Seq::empty(),
    };
    match unwanted {
        Some(value) => first.push(ConditionView::MetadataNot(key, value)),
        None => first,
    }
}

/// The condition under which a request of the JSON API may delete: what it asks for, or else
/// that the object is still as it was read.
pub open spec fn json_mutation_condition(req: RequestView, blob: ObjectView) -> ConditionView {
    let asked = counter_conditions(
        blob,
        req.param("ifGenerationMatch"@),
        req.param("ifGenerationNotMatch"@),
        GCS_GENERATION_KEY@,
    ) + counter_conditions(
        blob,
        req.param("ifMetagenerationMatch"@),
        req.param("ifMetagenerationNotMatch"@),
        GCS_METAGENERATION_KEY@,
    );
    ConditionView::All(
        if asked.len() == 0 {
            seq![
                counter_condition(Some(blob), GCS_GENERATION_KEY@, generation(blob)),
                counter_condition(Some(blob), GCS_METAGENERATION_KEY@, metageneration(blob)),
            ]
        } else {
            asked
        },
    )
}

/// Whether a generation that a request selects is the current one; where not, the reply.
pub open spec fn check_current_generation_selector(
    stamp: StampView,
    req: RequestView,
    blob: ObjectView,
) -> Result<(), ResponseView> {
    match req.param("generation"@) {
        None => Ok(()),
        Some(selected) => if unsigned(selected, u64::MAX as int) is None {
            Err(
                json_error(
                    stamp,
                    400,
                    "invalidParameter"@,
                    "Generation selectors must be unsigned integers"@,
                ),
            )
        } else if selected != generation(blob) {
            Err(
                json_error(
                    stamp,
                    501,
                    "notImplemented"@,
                    "Historical GCS JSON object generations are not supported by this emulator surface"@,
                ),
            )
        } else {
            Ok(())
        },
    }
}

/// Whether a range is `bytes 0-(n-1)/n` for a body of `n` bytes.
pub open spec fn is_complete_resumable_range(value: Text, body_len: int) -> bool {
    match strip_prefix(value, "bytes "@) {
        Some(rest) => match split_once(rest, "/"@) {
            Some((range, total)) => match split_once(range, "-"@) {
                Some((start, end)) => unsigned(start, usize::MAX as int) == Some(0int) && unsigned(
                    total,
                    usize::MAX as int,
                ) == Some(body_len) && unsigned(end, usize::MAX as int) == Some(body_len - 1),
                None => false,
            },
            None => false,
        },
        None => false,
    }
}

// ---------------------------------------------------------------------------
// Page tokens

pub open spec fn token_digest(kind: Text, marker: Text) -> Text {
    hex_text(sha256_digest(encode_utf8("sqrzl-gcs-"@ + kind + ":"@ + marker)))
}

/// The token that stands for a place in a listing.
pub open spec fn page_token(kind: Text, marker: Text) -> Text {
    url_base64_text(
        encode_utf8(kind + "\0"@ + marker + "\0"@ + token_digest(kind, marker)),
    )
}

/// The place that the bytes of a token stand for, where they were made for listings of a kind.
pub open spec fn marker_of(kind: Text, decoded: Option<Seq<u8>>) -> Option<Text> {
    match decoded {
        None => None,
        Some(bytes) => match utf8_text(bytes) {
            None => None,
            Some(decoded) => {
                let fields = split(decoded, '\0');
                if fields.len() == 3 && fields[0] == kind && fields[2] == token_digest(
                    kind,
                    fields[1],
                ) {
                    Some(fields[1])
                } else {
                    None
                }
            },
        },
    }
}

/// The place that a token stands for, where it was made for listings of a kind.
pub open spec fn token_marker(kind: Text, token: Text) -> Option<Text> {
    marker_of(kind, url_base64_bytes(token))
}

/// Whether a text holds no `c`.
pub open spec fn free_of(s: Text, c: char) -> bool {
    forall|i: int| 0 <= i < s.len() ==> #[trigger] s[i] != c
}

/// Splitting finds a piece that holds no separator up to the separator behind it.
pub proof fn split_piece(s: Text, c: char, from: int, i: int, end: int)
    requires
        0 <= from <= i <= end <= s.len(),
        forall|k: int| i <= k < end ==> s[k] != c,
        end < s.len() ==> s[end] == c,
    ensures
        split_from(s, c, from, i) == if end < s.len() {
            seq![s.subrange(from, end)] + split_from(s, c, end + 1, end + 1)
        } else {
            seq![s.subrange(from, end)]
        },
    decreases end - i,
{
    if i < end {
        split_piece(s, c, from, i + 1, end);
    }
}

proof fn token_fields(kind: Text, marker: Text, digest: Text)
    requires
        free_of(kind, '\0'),
        free_of(marker, '\0'),
        free_of(digest, '\0'),
    ensures
        split(kind + "\0"@ + marker + "\0"@ + digest, '\0') == seq![kind, marker, digest],
{
    reveal_strlit("\0");
    let s = kind + "\0"@ + marker + "\0"@ + digest;
    let a = kind.len() as int;
    let b = a + 1 + marker.len();
    assert forall|k: int| 0 <= k < a implies s[k] != '\0' by {
        assert(s[k] == kind[k]);
    }
    assert forall|k: int| a + 1 <= k < b implies s[k] != '\0' by {
        assert(s[k] == marker[k - a - 1]);
    }
    assert forall|k: int| b + 1 <= k < s.len() implies s[k] != '\0' by {
        assert(s[k] == digest[k - b - 1]);
    }
    split_piece(s, '\0', 0, 0, a);
    split_piece(s, '\0', a + 1, a + 1, b);
    split_piece(s, '\0', b + 1, b + 1, s.len() as int);
    assert(s.subrange(0, a) =~= kind);
    assert(s.subrange(a + 1, b) =~= marker);
    assert(s.subrange(b + 1, s.len() as int) =~= digest);
    assert(split(s, '\0') =~= seq![kind, marker, digest]);
}

/// The first of the pieces that splitting finds, up to the end of the text or the separator
/// behind it, where the others start.
proof fn first_piece(s: Text, c: char, from: int, i: int) -> (end: int)
    requires
        0 <= from <= i <= s.len(),
    ensures
        i <= end <= s.len(),
        split_from(s, c, from, i).len() >= 1,
        split_from(s, c, from, i)[0] == s.subrange(from, end),
        split_from(s, c, from, i).len() == 1 ==> end == s.len(),
        split_from(s, c, from, i).len() > 1 ==> end < s.len() && s[end] == c && split_from(
            s,
            c,
            from,
            i,
        ) == seq![s.subrange(from, end)] + split_from(s, c, end + 1, end + 1),
    decreases s.len() - i,
{
    if i >= s.len() {
        i
    } else if s[i] == c {
        let rest = first_piece(s, c, i + 1, i + 1);
        i
    } else {
        first_piece(s, c, from, i + 1)
    }
}

/// Three pieces with the separator between them are the text that was split.
proof fn three_pieces_make_the_text(s: Text)
    requires
        split(s, '\0').len() == 3,
    ensures
        s == split(s, '\0')[0] + "\0"@ + split(s, '\0')[1] + "\0"@ + split(s, '\0')[2],
{
    reveal_strlit("\0");
    let a = first_piece(s, '\0', 0, 0);
    let b = first_piece(s, '\0', a + 1, a + 1);
    let e = first_piece(s, '\0', b + 1, b + 1);
    assert(s =~= s.subrange(0, a) + "\0"@ + s.subrange(a + 1, b) + "\0"@ + s.subrange(
        b + 1,
        s.len() as int,
    ));
}

proof fn hex_free_of_zero(bytes: Seq<u8>)
    ensures
        free_of(hex_text(bytes), '\0'),
{
    assert forall|i: int| 0 <= i < hex_text(bytes).len() implies #[trigger] hex_text(bytes)[i]
        != '\0' by {
        let n = if i % 2 == 0 {
            bytes[i / 2] as int / 16
        } else {
            bytes[i / 2] as int % 16
        };
        assert(hex_text(bytes)[i] == hex_digit(n));
        assert(0 <= n < 16);
    }
}

/// A token reads back as its place, unless the place or the kind of the listing holds a zero
/// character. For listings of another kind it stands for nothing.
pub proof fn tokens_are_read_back(kind: Text, marker: Text, other: Text)
    requires
        free_of(kind, '\0'),
    ensures
        free_of(marker, '\0') ==> token_marker(kind, page_token(kind, marker)) == Some(marker),
        other != kind ==> token_marker(other, page_token(kind, marker)) is None,
{
    let digest = token_digest(kind, marker);
    let text = kind + "\0"@ + marker + "\0"@ + digest;
    base64_is_read_back(encode_utf8(text), Seq::empty(), true);
    encode_utf8_valid_utf8(text);
    encode_utf8_decode_utf8(text);
    hex_free_of_zero(sha256_digest(encode_utf8("sqrzl-gcs-"@ + kind + ":"@ + marker)));
    if free_of(marker, '\0') {
        token_fields(kind, marker, digest);
    }
    reveal_strlit("\0");
    assert forall|k: int| 0 <= k < kind.len() implies text[k] != '\0' by {
        assert(text[k] == kind[k]);
    }
    assert(text[kind.len() as int] == '\0');
    split_piece(text, '\0', 0, 0, kind.len() as int);
    assert(text.subrange(0, kind.len() as int) =~= kind);
}

/// A text that is not the token of a place stands for none.
pub proof fn only_tokens_are_read(kind: Text, token: Text)
    ensures
        token_marker(kind, token) matches Some(marker) ==> token == page_token(kind, marker),
        (forall|marker: Text| token != page_token(kind, marker)) ==> token_marker(kind, token)
            is None,
{
    base64_is_read_back(Seq::empty(), token, true);
    if let Some(marker) = token_marker(kind, token) {
        let bytes = url_base64_bytes(token)->0;
        three_pieces_make_the_text(decode_utf8(bytes));
        decode_utf8_encode_utf8(bytes);
    }
}

/// A text has at least as many bytes as characters.
pub proof fn encoding_is_no_shorter(text: Text)
    ensures
        encode_utf8(text).len() >= text.len(),
    decreases text.len(),
{
    if text.len() > 0 {
        encoding_is_no_shorter(text.drop_first());
    }
}

impl GcsAdapter {
    fn is_octet(s: &str) -> (r: bool)
        ensures
            r == is_octet(s@),
    {
        let x = characters(s);
        if x.len() < 1 || x.len() > 3 {
            return false;
        }
        (x.len() == 1 || x[0] != '0') && x[0] != '+' && read_unsigned(s, 255).is_some()
    }

    fn is_ipv4(s: &str) -> (r: bool)
        ensures
            r == is_ipv4(s@),
    {
        let parts = pieces(s, '.');
        if parts.len() != 4 {
            return false;
        }
        let mut i: usize = 0;
        while i < parts.len()
            invariant
                i <= parts.len(),
                parts.len() == 4,
                each(parts@) == split(s@, '.'),
                forall|k: int| 0 <= k < i ==> is_octet(#[trigger] split(s@, '.')[k]),
            decreases parts.len() - i,
        {
            assert(split(s@, '.')[i as int] == parts@[i as int]@);
            if !Self::is_octet(parts[i]) {
                return false;
            }
            i += 1;
        }
        true
    }

    fn bucket_char(c: char) -> (r: bool)
        ensures
            r == bucket_char(c),
    {
        let n: u32 = c as u32;
        0x61 <= n && n <= 0x7a || 0x30 <= n && n <= 0x39 || c == '-' || c == '_' || c == '.'
    }

    fn alphanumeric(c: char) -> (r: bool)
        ensures
            r == alphanumeric(c),
    {
        let n: u32 = c as u32;
        0x30 <= n && n <= 0x39 || 0x41 <= n && n <= 0x5a || 0x61 <= n && n <= 0x7a
    }

    fn bucket_chars(name: &str) -> (r: bool)
        ensures
            r == forall|i: int| 0 <= i < name@.len() ==> bucket_char(#[trigger] name@[i]),
    {
        let x = characters(name);
        let mut i: usize = 0;
        while i < x.len()
            invariant
                x@ == name@,
                i <= x.len(),
                forall|k: int| 0 <= k < i ==> bucket_char(#[trigger] name@[k]),
            decreases x.len() - i,
        {
            if !Self::bucket_char(x[i]) {
                assert(!bucket_char(name@[i as int]));
                return false;
            }
            i += 1;
        }
        true
    }

    fn bucket_components(name: &str) -> (r: bool)
        ensures
            r == forall|i: int|
                0 <= i < split(name@, '.').len() ==> 1 <= (#[trigger] split(name@, '.')[i]).len()
                    <= 63,
    {
        let parts = pieces(name, '.');
        let mut i: usize = 0;
        while i < parts.len()
            invariant
                i <= parts.len(),
                each(parts@) == split(name@, '.'),
                forall|k: int|
                    0 <= k < i ==> 1 <= (#[trigger] split(name@, '.')[k]).len() <= 63,
            decreases parts.len() - i,
        {
            assert(split(name@, '.')[i as int] == parts@[i as int]@);
            let n: usize = parts[i].unicode_len();
            if n < 1 || n > 63 {
                return false;
            }
            i += 1;
        }
        true
    }

    pub fn valid_bucket_name(name: &str) -> (r: bool)
        ensures
            r == valid_bucket_name(name@),
    {
        let x = characters(name);
        let max: usize = if holds(name, ".") {
            222
        } else {
            63
        };
        if x.len() < 3 || x.len() > max {
            return false;
        }
        Self::alphanumeric(x[0]) && Self::alphanumeric(x[x.len() - 1]) && Self::bucket_chars(name)
            && Self::bucket_components(name) && !Self::is_ipv4(name) && !begins(name, "goog")
            && !holds(name, "google") && !holds(name, "g00gle")
    }

    pub fn crc32c(data: &[u8]) -> (r: u32)
        ensures
            r == crc32c(data@),
    {
        let mut crc: u32 = !0u32;
        let mut i: usize = 0;
        while i < data.len()
            invariant
                i <= data.len(),
                crc == crc_upto(data@, i as int),
            decreases data.len() - i,
        {
            crc = crc ^ (data[i] as u32);
            let ghost start = crc;
            let mut n: usize = 0;
            while n < 8
                invariant
                    n <= 8,
                    crc == crc_steps(start, n as int),
                decreases 8 - n,
            {
                crc = if crc & 1 == 1 {
                    (crc >> 1) ^ 0x82f6_3b78u32
                } else {
                    crc >> 1
                };
                n += 1;
            }
            i += 1;
        }
        !crc
    }

    fn be_bytes(n: u32) -> (r: Vec<u8>)
        ensures
            r@ == be_bytes(n),
    {
        let mut out: Vec<u8> = Vec::new();
        out.push((n / 0x100_0000) as u8);
        out.push((n / 0x1_0000 % 0x100) as u8);
        out.push((n / 0x100 % 0x100) as u8);
        out.push((n % 0x100) as u8);
        assert(out@ =~= be_bytes(n));
        out
    }

    /// The Base64 form of a checksum. It reads back as the checksum.
    pub fn encode_checksum(crc: u32) -> (r: String)
        ensures
            r@ == base64_text(be_bytes(crc)),
            forall|a: Text, b: Text| #[trigger] checksum_of(r@, a, b) == Ok::<u32, UploadErrorView>(crc),
    {
        proof {
            be_bytes_read_back(crc);
            base64_is_read_back(be_bytes(crc), Seq::empty(), false);
        }
        base64_encode(Self::be_bytes(crc).as_slice())
    }

    pub fn encoded_crc32c(data: &[u8]) -> (r: String)
        ensures
            r@ == encoded_crc32c(data@),
    {
        Self::encode_checksum(Self::crc32c(data))
    }

    pub fn upload_metadata_error_response(stamp: &Stamp, error: UploadMetadataError) -> (r: Response)
        ensures
            r@ == upload_metadata_error_response(stamp@, error@),
    {
        match error {
            UploadMetadataError::Invalid(message) => refuse_upload(stamp, 400, &message),
            UploadMetadataError::ChecksumMismatch(message) => refuse_json(
                stamp,
                400,
                "invalid",
                &message,
            ),
            UploadMetadataError::Unsupported(message) => refuse_upload(stamp, 501, &message),
        }
    }

    /// A checksum from the bytes that its Base64 form gives, or which of two messages says what
    /// is wrong.
    pub fn checksum_in(decoded: Option<Vec<u8>>, not_base64: &str, not_four: &str) -> (r: Result<
        u32,
        UploadMetadataError,
    >)
        ensures
            settled(r) == checksum_verdict(seen(decoded), not_base64@, not_four@),
    {
        match decoded {
            None => Err(UploadMetadataError::Invalid(not_base64.to_owned())),
            Some(b) => if b.len() == 4 {
                proof {
                    assert(0 <= b@[0] < 0x100 && 0 <= b@[1] < 0x100 && 0 <= b@[2] < 0x100 && 0
                        <= b@[3] < 0x100);
                }
                Ok(
                    (b[0] as u32) * 0x100_0000 + (b[1] as u32) * 0x1_0000 + (b[2] as u32) * 0x100
                        + (b[3] as u32),
                )
            } else {
                Err(UploadMetadataError::Invalid(not_four.to_owned()))
            },
        }
    }

    /// Reads a checksum from its Base64 form.
    pub fn parse_crc32c(text: &str, not_base64: &str, not_four: &str) -> (r: Result<
        u32,
        UploadMetadataError,
    >)
        ensures
            settled(r) == checksum_of(text@, not_base64@, not_four@),
    {
        Self::checksum_in(base64_decode(text), not_base64, not_four)
    }

    fn hash_token(token: &str) -> (r: Result<u32, UploadMetadataError>)
        ensures
            settled(r) == hash_token(token@),
    {
        match cut(token, "=") {
            None => Err(
                UploadMetadataError::Invalid(
                    "X-Goog-Hash checksum tokens must use algorithm=value syntax".to_owned(),
                ),
            ),
            Some((algorithm, encoded)) => if !same(&lowercase(algorithm), "crc32c") {
                Err(
                    UploadMetadataError::Unsupported(
                        cat3(
                            "X-Goog-Hash algorithm ",
                            algorithm,
                            " is not supported by this emulator surface",
                        ),
                    ),
                )
            } else {
                Self::parse_crc32c(
                    encoded,
                    "X-Goog-Hash crc32c must be base64-encoded big-endian bytes",
                    "X-Goog-Hash crc32c must decode to exactly four bytes",
                )
            },
        }
    }

    fn hash_tokens(known: Option<u32>, value: &str) -> (r: Result<Option<u32>, UploadMetadataError>)
        ensures
            match r {
                Ok(found) => tokens_from(known, split(value@, ','), 0) == Ok::<_, UploadErrorView>(
                    found,
                ),
                Err(error) => tokens_from(known, split(value@, ','), 0) == Err::<Option<u32>, _>(
                    error@,
                ),
            },
    {
        let tokens = pieces(value, ',');
        let mut expected: Option<u32> = known;
        let mut i: usize = 0;
        while i < tokens.len()
            invariant
                i <= tokens.len(),
                each(tokens@) == split(value@, ','),
                tokens_from(known, split(value@, ','), 0) == tokens_from(
                    expected,
                    split(value@, ','),
                    i as int,
                ),
            decreases tokens.len() - i,
        {
            assert(split(value@, ',')[i as int] == tokens@[i as int]@);
            let parsed: u32 = match Self::hash_token(trimmed(tokens[i])) {
                Ok(parsed) => parsed,
                Err(error) => return Err(error),
            };
            match expected {
                Some(earlier) => if earlier != parsed {
                    return Err(
                        UploadMetadataError::Invalid(
                            "X-Goog-Hash contains conflicting CRC32C values".to_owned(),
                        ),
                    );
                },
                None => {},
            }
            expected = Some(parsed);
            i += 1;
        }
        Ok(expected)
    }

    pub fn request_crc32c(req: &Request) -> (r: Result<Option<u32>, UploadMetadataError>)
        ensures
            match r {
                Ok(found) => request_crc32c(req@) == Ok::<_, UploadErrorView>(found),
                Err(error) => request_crc32c(req@) == Err::<Option<u32>, _>(error@),
            },
    {
        let mut expected: Option<u32> = None;
        let mut i: usize = 0;
        while i < req.headers.entries.len()
            invariant
                i <= req.headers.entries.len(),
                request_crc32c(req@) == hashes_from(expected, req@.headers, i as int),
            decreases req.headers.entries.len() - i,
        {
            let entry = &req.headers.entries[i];
            assert(req@.headers[i as int] == entry@);
            match entry.1.text() {
                Some(value) => {
                    if same(&lowercase(&entry.0), "x-goog-hash") {
                        if trimmed(value).unicode_len() == 0 {
                            return Err(
                                UploadMetadataError::Invalid(
                                    "X-Goog-Hash must contain a checksum token".to_owned(),
                                ),
                            );
                        }
                        match Self::hash_tokens(expected, value) {
                            Ok(next) => {
                                expected = next;
                            },
                            Err(error) => return Err(error),
                        }
                    }
                },
                None => {},
            }
            i += 1;
        }
        Ok(expected)
    }

    pub fn combined_crc32c(metadata: Option<u32>, header: Option<u32>) -> (r: Result<
        Option<u32>,
        UploadMetadataError,
    >)
        ensures
            match r {
                Ok(found) => combined_crc32c(metadata, header) == Ok::<_, UploadErrorView>(found),
                Err(error) => combined_crc32c(metadata, header) == Err::<Option<u32>, _>(error@),
            },
    {
        match (metadata, header) {
            (Some(a), Some(b)) => if a != b {
                Err(
                    UploadMetadataError::Invalid(
                        "Object metadata and X-Goog-Hash contain conflicting CRC32C values".to_owned(),
                    ),
                )
            } else {
                Ok(Some(a))
            },
            (Some(a), None) => Ok(Some(a)),
            (None, b) => Ok(b),
        }
    }

    pub fn validate_crc32c(expected: Option<u32>, data: &[u8]) -> (r: Result<
        (),
        UploadMetadataError,
    >)
        ensures
            settled(r) == validate_crc32c(expected, data@),
    {
        match expected {
            Some(expected) => {
                let calculated: u32 = Self::crc32c(data);
                if expected == calculated {
                    Ok(())
                } else {
                    let mut message = cat3(
                        "Provided CRC32C \"",
                        &Self::encode_checksum(expected),
                        "\" does not match calculated CRC32C \"",
                    );
                    message.append(&Self::encode_checksum(calculated));
                    message.append("\"");
                    Err(UploadMetadataError::ChecksumMismatch(message))
                }
            },
            None => Ok(()),
        }
    }

    fn not_a_number(value: Option<&str>) -> (r: bool)
        ensures
            r == not_a_number(seen(value)),
    {
        match value {
            Some(value) => read_u64(value).is_none(),
            None => false,
        }
    }

    pub fn invalid_preconditions(stamp: &Stamp, req: &Request) -> (r: Option<Response>)
        ensures
            seen(r) == invalid_preconditions(stamp@, req@),
    {
        let a = req.query_param("ifGenerationMatch");
        let b = req.query_param("ifGenerationNotMatch");
        let c = req.query_param("ifMetagenerationMatch");
        let d = req.query_param("ifMetagenerationNotMatch");
        if a.is_some() && b.is_some() || c.is_some() && d.is_some() || Self::not_a_number(a)
            || Self::not_a_number(b) || Self::not_a_number(c) || Self::not_a_number(d) {
            Some(
                refuse_json(
                    stamp,
                    400,
                    "invalidParameter",
                    "Generation preconditions must be unsigned integers and match/not-match cannot be combined",
                ),
            )
        } else {
            None
        }
    }

    pub fn invalid_upload_preconditions(stamp: &Stamp, req: &Request) -> (r: Option<Response>)
        ensures
            seen(r) == invalid_upload_preconditions(stamp@, req@),
    {
        match Self::invalid_preconditions(stamp, req) {
            Some(refusal) => Some(refusal),
            None => if req.has_query_param("ifMetagenerationMatch") || req.has_query_param(
                "ifMetagenerationNotMatch",
            ) {
                Some(
                    refuse_json(
                        stamp,
                        400,
                        "invalidParameter",
                        "Object uploads do not support metageneration preconditions",
                    ),
                )
            } else {
                None
            },
        }
    }

    /// The condition that a counter of an object has a value.
    pub fn counter_condition(existing: Option<&Object>, key: &str, wanted: &str) -> (r:
        ObjectCondition)
        ensures
            r@ == counter_condition(seen(existing), key@, wanted@),
    {
        match existing {
            Some(blob) => {
                let reported = if same(key, GCS_GENERATION_KEY) {
                    Self::generation(blob)
                } else {
                    Self::metageneration(blob)
                };
                if !blob.metadata.has(key) && same(wanted, &reported) {
                    return ObjectCondition::Etag(blob.etag.clone());
                }
            },
            None => {},
        }
        ObjectCondition::Metadata(key.to_owned(), wanted.to_owned())
    }

    /// The condition that an object has a generation; none has generation zero.
    pub fn generation_condition(existing: Option<&Object>, value: &str) -> (r: ObjectCondition)
        ensures
            r@ == generation_condition(seen(existing), value@),
    {
        if same(value, "0") {
            ObjectCondition::Missing
        } else {
            Self::counter_condition(existing, GCS_GENERATION_KEY, value)
        }
    }

    /// The refusal of preconditions of the XML API that are no numbers or lack a part.
    pub fn xml_condition_refusal(stamp: &Stamp, req: &Request, paired: bool) -> (r: Option<Response>)
        ensures
            seen(r) == xml_condition_refusal(stamp@, req@, paired),
    {
        let generation = req.header("x-goog-if-generation-match");
        let metageneration = req.header("x-goog-if-metageneration-match");
        if paired && metageneration.is_some() && generation.is_none() {
            return Some(
                refuse(
                    stamp,
                    400,
                    "InvalidArgument",
                    "x-goog-if-metageneration-match requires x-goog-if-generation-match",
                ),
            );
        }
        let zero = match metageneration {
            Some(value) => match read_u64(value) {
                Some(n) => n == 0,
                None => true,
            },
            None => false,
        };
        if Self::not_a_number(generation) || zero {
            return Some(
                refuse(
                    stamp,
                    400,
                    "InvalidArgument",
                    "Generation preconditions must be unsigned integers and metageneration must be positive",
                ),
            );
        }
        None
    }

    /// The condition that the preconditions of the XML API set over the object that was read.
    pub fn xml_condition(req: &Request, existing: Option<&Object>) -> (r: Option<ObjectCondition>)
        ensures
            seen(r) == xml_condition(req@, seen(existing)),
    {
        match (
            req.header("x-goog-if-generation-match"),
            req.header("x-goog-if-metageneration-match"),
        ) {
            (None, None) => None,
            (Some(g), None) => Some(Self::generation_condition(existing, g)),
            (None, Some(m)) => Some(Self::counter_condition(existing, GCS_METAGENERATION_KEY, m)),
            (Some(g), Some(m)) => {
                let mut parts: Vec<ObjectCondition> = Vec::new();
                let first = Self::generation_condition(existing, g);
                let second = Self::counter_condition(existing, GCS_METAGENERATION_KEY, m);
                parts.push(first);
                parts.push(second);
                proof {
                    all_view(parts);
                    assert(each(parts@) =~= seq![first@, second@]);
                }
                Some(ObjectCondition::All(parts))
            },
        }
    }

    pub fn xml_mutation_condition(
        stamp: &Stamp,
        req: &Request,
        existing: Option<&Object>,
        paired: bool,
    ) -> (r: Result<Option<ObjectCondition>, Response>)
        ensures
            match r {
                Ok(condition) => xml_mutation_condition(stamp@, req@, seen(existing), paired)
                    == Ok::<_, ResponseView>(seen(condition)),
                Err(refusal) => xml_mutation_condition(stamp@, req@, seen(existing), paired)
                    == Err::<Option<ConditionView>, _>(refusal@),
            },
    {
        match Self::xml_condition_refusal(stamp, req, paired) {
            Some(refusal) => Err(refusal),
            None => Ok(Self::xml_condition(req, existing)),
        }
    }

    pub fn generation_precondition_failed(stamp: &Stamp) -> (r: Response)
        ensures
            r@ == generation_precondition_failed(stamp@),
    {
        refuse_json(
            stamp,
            412,
            "conditionNotMet",
            "At least one of the pre-conditions you specified did not hold.",
        )
    }

    pub fn xml_precondition_failed_response(stamp: &Stamp) -> (r: Response)
        ensures
            r@ == xml_precondition_failed(stamp@),
    {
        refuse(
            stamp,
            412,
            "PreconditionFailed",
            "At least one of the preconditions you specified did not hold",
        )
    }

    pub fn invalid_json_mutation_headers(stamp: &Stamp, req: &Request) -> (r: Option<Response>)
        ensures
            seen(r) == invalid_json_mutation_headers(stamp@, req@),
    {
        if req.header("if-match").is_some() || req.header("if-none-match").is_some() {
            Some(
                refuse_json(
                    stamp,
                    400,
                    "invalidParameter",
                    "GCS JSON mutations require generation query preconditions; ETag mutation headers are unsupported",
                ),
            )
        } else {
            None
        }
    }

    pub fn check_gcs_preconditions(stamp: &Stamp, req: &Request, blob: &Object) -> (r: Result<
        (),
        Response,
    >)
        ensures
            settled(r) == check_gcs_preconditions(stamp@, req@, blob@),
    {
        match Self::invalid_preconditions(stamp, req) {
            Some(refusal) => return Err(refusal),
            None => {},
        }
        let generation = Self::generation(blob);
        let metageneration = Self::metageneration(blob);
        match req.query_param("ifGenerationMatch") {
            Some(value) => if !same(value, &generation) {
                return Err(
                    refuse_json(stamp, 412, "conditionNotMet", "Generation precondition failed"),
                );
            },
            None => {},
        }
        match req.query_param("ifGenerationNotMatch") {
            Some(value) => if same(value, &generation) {
                return Err(reply(stamp, 304));
            },
            None => {},
        }
        match req.query_param("ifMetagenerationMatch") {
            Some(value) => if !same(value, &metageneration) {
                return Err(
                    refuse_json(
                        stamp,
                        412,
                        "conditionNotMet",
                        "Metageneration precondition failed",
                    ),
                );
            },
            None => {},
        }
        match req.query_param("ifMetagenerationNotMatch") {
            Some(value) => if same(value, &metageneration) {
                return Err(reply(stamp, 304));
            },
            None => {},
        }
        Ok(())
    }

    fn push_conditions(
        conditions: &mut Vec<ObjectCondition>,
        blob: &Object,
        wanted: Option<&str>,
        unwanted: Option<&str>,
        key: &str,
    )
        ensures
            each(final(conditions)@) == each(old(conditions)@) + counter_conditions(
                blob@,
                seen(wanted),
                seen(unwanted),
                key@,
            ),
    {
        let ghost before = conditions@;
        match wanted {
            Some(value) => {
                conditions.push(Self::counter_condition(Some(blob), key, value));
            },
            None => {},
        }
        match unwanted {
            Some(value) => {
                conditions.push(ObjectCondition::MetadataNot(key.to_owned(), value.to_owned()));
            },
            None => {},
        }
        assert(each(conditions@) =~= each(before) + counter_conditions(
            blob@,
            seen(wanted),
            seen(unwanted),
            key@,
        ));
    }

    pub fn json_mutation_condition(req: &Request, blob: &Object) -> (r: ObjectCondition)
        ensures
            r@ == json_mutation_condition(req@, blob@),
    {
        let mut conditions: Vec<ObjectCondition> = Vec::new();
        Self::push_conditions(
            &mut conditions,
            blob,
            req.query_param("ifGenerationMatch"),
            req.query_param("ifGenerationNotMatch"),
            GCS_GENERATION_KEY,
        );
        let ghost first = each(conditions@);
        proof {
            each_empty::<ObjectCondition>();
            assert(first =~= counter_conditions(
                blob@,
                req@.param("ifGenerationMatch"@),
                req@.param("ifGenerationNotMatch"@),
                GCS_GENERATION_KEY@,
            ));
        }
        Self::push_conditions(
            &mut conditions,
            blob,
            req.query_param("ifMetagenerationMatch"),
            req.query_param("ifMetagenerationNotMatch"),
            GCS_METAGENERATION_KEY,
        );
        if conditions.len() == 0 {
            let a = Self::counter_condition(
                Some(blob),
                GCS_GENERATION_KEY,
                &Self::generation(blob),
            );
            let b = Self::counter_condition(
                Some(blob),
                GCS_METAGENERATION_KEY,
                &Self::metageneration(blob),
            );
            assert(each(conditions@).len() == 0);
            conditions.push(a);
            conditions.push(b);
            assert(each(conditions@) =~= seq![a@, b@]);
        }
        proof {
            all_view(conditions);
        }
        ObjectCondition::All(conditions)
    }

    pub fn check_current_generation_selector(stamp: &Stamp, req: &Request, blob: &Object) -> (r:
        Result<(), Response>)
        ensures
            settled(r) == check_current_generation_selector(stamp@, req@, blob@),
    {
        let selected = match req.query_param("generation") {
            Some(selected) => selected,
            None => return Ok(()),
        };
        if read_u64(selected).is_none() {
            return Err(
                refuse_json(
                    stamp,
                    400,
                    "invalidParameter",
                    "Generation selectors must be unsigned integers",
                ),
            );
        }
        if !same(selected, &Self::generation(blob)) {
            return Err(
                refuse_json(
                    stamp,
                    501,
                    "notImplemented",
                    "Historical GCS JSON object generations are not supported by this emulator surface",
                ),
            );
        }
        Ok(())
    }

    pub fn parse_range_header(value: &str, size: u64) -> (r: Option<(usize, usize)>)
        ensures
            match range_of(value@, size as int) {
                Some(span) if span.1 <= usize::MAX => r matches Some(found) && found.0 == span.0
                    && found.1 == span.1,
                _ => r is None,
            },
            r matches Some(span) ==> span.0 <= span.1 < size,
    {
        AzureBlobAdapter::parse_range_header(value, size)
    }

    pub fn metadata_from_headers(req: &Request) -> (r: Table<String>)
        ensures
            r@ == header_metadata(req@, "x-goog-meta-"@),
    {
        metadata_with_prefix(req, "x-goog-meta-")
    }

    pub fn is_complete_resumable_range(value: &str, body_len: usize) -> (r: bool)
        ensures
            r == is_complete_resumable_range(value@, body_len as int),
    {
        let rest = match after_prefix(value, "bytes ") {
            Some(rest) => rest,
            None => return false,
        };
        let (range, total) = match cut(rest, "/") {
            Some(parts) => parts,
            None => return false,
        };
        let (start, end) = match cut(range, "-") {
            Some(parts) => parts,
            None => return false,
        };
        match (read_usize(start), read_usize(end), read_usize(total)) {
            (Some(start), Some(end), Some(total)) => start == 0 && total == body_len && body_len > 0
                && end == body_len - 1,
            _ => false,
        }
    }

    fn token_digest(kind: &str, marker: &str) -> (r: String)
        ensures
            r@ == token_digest(kind@, marker@),
            r@.len() == 64,
    {
        let mut text = cat3("sqrzl-gcs-", kind, ":");
        text.append(marker);
        hex_encode(sha256_compute(text.as_str().as_bytes()).as_slice())
    }

    /// The token that stands for a place in a listing.
    pub fn encode_page_token(kind: &str, marker: &str) -> (r: String)
        ensures
            r@ == page_token(kind@, marker@),
            free_of(kind@, '\0') && free_of(marker@, '\0') ==> token_marker(kind@, r@) == Some(
                marker@,
            ),
            free_of(kind@, '\0') ==> forall|other: Text|
                other != kind@ ==> (#[trigger] token_marker(other, r@)) is None,
    {
        let mut text = cat3(kind, "\0", marker);
        text.append("\0");
        text.append(&Self::token_digest(kind, marker));
        proof {
            if free_of(kind@, '\0') {
                assert forall|other: Text| other != kind@ implies (#[trigger] token_marker(
                    other,
                    page_token(kind@, marker@),
                )) is None by {
                    tokens_are_read_back(kind@, marker@, other);
                }
                tokens_are_read_back(kind@, marker@, kind@);
            }
        }
        url_base64_encode(text.as_str().as_bytes())
    }

    /// The place that the bytes of a token stand for. There are more of them than the digest
    /// and the separators take.
    pub fn marker_in(kind: &str, decoded: Option<Vec<u8>>) -> (r: Option<String>)
        ensures
            seen(r) == marker_of(kind@, seen(decoded)),
            r is Some ==> decoded is Some && decoded->0@.len() >= 66,
    {
        let bytes = match decoded {
            Some(bytes) => bytes,
            None => return None,
        };
        let text = match text_of(bytes.as_slice()) {
            Some(text) => text,
            None => return None,
        };
        let fields = pieces(&text, '\0');
        if fields.len() != 3 {
            return None;
        }
        proof {
            assert(split(text@, '\0')[0] == fields@[0]@);
            assert(split(text@, '\0')[1] == fields@[1]@);
            assert(split(text@, '\0')[2] == fields@[2]@);
            three_pieces_make_the_text(text@);
            decode_utf8_encode_utf8(bytes@);
            encoding_is_no_shorter(text@);
            reveal_strlit("\0");
        }
        if same(fields[0], kind) && same(fields[2], &Self::token_digest(kind, fields[1])) {
            Some(fields[1].to_owned())
        } else {
            None
        }
    }

    /// The place that a token stands for. A token stands for a place only where it is the one
    /// that is made for the place, and it is never shorter than what its digest takes.
    pub fn decode_page_token(kind: &str, token: &str) -> (r: Option<String>)
        ensures
            seen(r) == token_marker(kind@, token@),
            r matches Some(marker) ==> token@ == page_token(kind@, marker@),
            token@.len() < 88 ==> r is None,
    {
        let decoded = url_base64_decode(token);
        proof {
            only_tokens_are_read(kind@, token@);
            base64_is_read_back(Seq::empty(), token@, true);
            if let Some(bytes) = seen(decoded) {
                form_lengths(bytes, true);
            }
        }
        Self::marker_in(kind, decoded)
    }
}

} // verus!
