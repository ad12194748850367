//! Uploads of one part metadata and one part content, and the metadata of uploads.

use vstd::prelude::*;
use vstd::string::*;
use vstd::utf8::{encode_utf8, is_ascii_chars_encode_utf8};
use crate::gcs::GcsAdapter;
use crate::gcs::checks::{checksum_of, UploadErrorView, UploadMetadataError};
use crate::json::{
    field, find_field, json_parsed, object_view, parse_json, text_value, FieldsView, Json, JsonView,
};
use crate::table::{get, with, Table};
use crate::text::{
    after_prefix, cat, cat3, contains, copy_bytes, cut, holds, lowercase, lowered, or_text, pieces,
    same, split, split_once, strip_prefix, text_of, trim, trim_char, trimmed, trimmed_of, utf8_text,
};
use crate::views::{each, seen, settled, Pairs, Text};

verus! {

/// The metadata that an upload comes with.
pub struct ParsedUploadMetadata {
    pub name: Option<String>,
    pub content_type: Option<String>,
    pub metadata: Table<String>,
    pub crc32c: Option<u32>,
}

/// Upload metadata over characters.
pub struct UploadMetadataView {
    pub name: Option<Text>,
    pub content_type: Option<Text>,
    pub metadata: Pairs,
    pub crc32c: Option<u32>,
}

impl View for ParsedUploadMetadata {
    type V = UploadMetadataView;

    open spec fn view(&self) -> UploadMetadataView {
        UploadMetadataView {
            name: seen(self.name),
            content_type: seen(self.content_type),
            metadata: self.metadata@,
            crc32c: self.crc32c,
        }
    }
}

pub open spec fn known_field(name: Text) -> bool {
    name == "name"@ || name == "bucket"@ || name == "contentType"@ || name == "metadata"@ || name
        == "crc32c"@
}

/// The first field, at or after place `i`, that uploads do not know.
pub open spec fn unknown_from(fields: FieldsView, i: int) -> Option<Text>
    decreases fields.len() - i,
{
    if i >= fields.len() {
        None
    } else if known_field(fields[i].0) {
        unknown_from(fields, i + 1)
    } else {
        Some(fields[i].0)
    }
}

/// A table with the texts of the fields from place `i` on, or the message about one that is
/// no text.
pub open spec fn texts_from(table: Pairs, fields: FieldsView, i: int) -> Result<
    Pairs,
    UploadErrorView,
>
    decreases fields.len() - i,
{
    if i >= fields.len() {
        Ok(table)
    } else {
        match text_value(fields[i].1) {
            Some(text) => texts_from(with(table, fields[i].0, text), fields, i + 1),
            None => Err(
                UploadErrorView::Invalid(
                    "Object metadata value "@ + fields[i].0 + " must be a string"@,
                ),
            ),
        }
    }
}

pub open spec fn metadata_value(fields: FieldsView) -> Result<Pairs, UploadErrorView> {
    match get(fields, "metadata"@) {
        None => Ok(Seq::empty()),
        Some(JsonView::Object(values)) => texts_from(Seq::empty(), values, 0),
        Some(_) => Err(
            UploadErrorView::Invalid("Object metadata metadata must be a JSON object"@),
        ),
    }
}

pub open spec fn crc32c_value(fields: FieldsView) -> Result<Option<u32>, UploadErrorView> {
    match get(fields, "crc32c"@) {
        None => Ok(None),
        Some(value) => match text_value(value) {
            None => Err(
                UploadErrorView::Invalid(
                    "Object metadata crc32c must be a base64-encoded string"@,
                ),
            ),
            Some(text) => match checksum_of(
                text,
                "Object metadata crc32c must be base64-encoded big-endian bytes"@,
                "Object metadata crc32c must decode to exactly four bytes"@,
            ) {
                Ok(crc) => Ok(Some(crc)),
                Err(error) => Err(error),
            },
        },
    }
}

/// The metadata in the fields of a document.
pub open spec fn upload_metadata(fields: FieldsView) -> Result<
    UploadMetadataView,
    UploadErrorView,
> {
    let bucket = get(fields, "bucket"@);
    let name = get(fields, "name"@);
    let content_type = get(fields, "contentType"@);
    match unknown_from(fields, 0) {
        Some(unknown) => Err(
            UploadErrorView::Unsupported(
                "Object metadata field "@ + unknown
                    + " is not supported by this emulator surface"@,
            ),
        ),
        None => if bucket is Some && text_value(bucket->0) is None {
            Err(UploadErrorView::Invalid("Object metadata bucket must be a string"@))
        } else if name is Some && text_value(name->0) is None {
            Err(UploadErrorView::Invalid("Object metadata name must be a string"@))
        } else if content_type is Some && (text_value(content_type->0) is None || text_value(
            content_type->0,
        )->0.len() == 0) {
            Err(
                UploadErrorView::Invalid(
                    "Object metadata contentType must be a non-empty string"@,
                ),
            )
        } else {
            match (metadata_value(fields), crc32c_value(fields)) {
                (Err(error), _) => Err(error),
                (Ok(_), Err(error)) => Err(error),
                (Ok(metadata), Ok(crc32c)) => Ok(
                    UploadMetadataView {
                        name: match name {
                            Some(value) => text_value(value),
                            None => None,
                        },
                        content_type: match content_type {
                            Some(value) => text_value(value),
                            None => None,
                        },
                        metadata,
                        crc32c,
                    },
                ),
            }
        },
    }
}

/// The metadata in a document that was read, or why it is refused.
pub open spec fn document_metadata(parsed: Result<JsonView, Text>) -> Result<
    UploadMetadataView,
    UploadErrorView,
> {
    match parsed {
        Err(error) => Err(
            UploadErrorView::Invalid("Invalid object metadata JSON: "@ + error),
        ),
        Ok(JsonView::Object(fields)) => upload_metadata(fields),
        Ok(_) => Err(UploadErrorView::Invalid("Object metadata must be a JSON object"@)),
    }
}

/// The metadata in a body; an empty body has none.
pub open spec fn parse_json_upload_metadata(body: Seq<u8>) -> Result<
    UploadMetadataView,
    UploadErrorView,
> {
    if body.len() == 0 {
        Ok(
            UploadMetadataView {
                name: None,
                content_type: None,
                metadata: Seq::empty(),
                crc32c: None,
            },
        )
    } else {
        document_metadata(json_parsed(body))
    }
}

// ---------------------------------------------------------------------------
// Parts

/// The first place, at or after `i`, at which bytes occur.
pub open spec fn bytes_from(haystack: Seq<u8>, needle: Seq<u8>, i: int) -> Option<int>
    decreases haystack.len() + 1 - i,
{
    if needle.len() == 0 || i + needle.len() > haystack.len() {
        None
    } else if haystack.subrange(i, i + needle.len()) == needle {
        Some(i)
    } else {
        bytes_from(haystack, needle, i + 1)
    }
}

/// Whether bytes occur at a place.
pub open spec fn bytes_at(body: Seq<u8>, i: int, part: Seq<u8>) -> bool {
    i + part.len() <= body.len() && body.subrange(i, i + part.len()) == part
}

/// The boundary that a content type names, in its parts from place `i` on.
pub open spec fn boundary_from(parts: Seq<Text>, i: int) -> Option<Text>
    decreases parts.len() - i,
{
    if i >= parts.len() {
        None
    } else {
        match strip_prefix(trim(parts[i]), "boundary="@) {
            Some(value) => Some(trim_char(value, '"')),
            None => boundary_from(parts, i + 1),
        }
    }
}

pub open spec fn multipart_boundary(content_type: Text) -> Option<Text> {
    boundary_from(split(content_type, ';'), 0)
}

/// The content type that the lines from place `i` on give.
pub open spec fn part_type_from(lines: Seq<Text>, i: int) -> Option<Text>
    decreases lines.len() - i,
{
    if i >= lines.len() {
        None
    } else {
        match split_once(lines[i], ":"@) {
            Some((name, value)) => if lowered(trim(name)) == "content-type"@ {
                Some(trim(value))
            } else {
                part_type_from(lines, i + 1)
            },
            None => part_type_from(lines, i + 1),
        }
    }
}

pub open spec fn part_type(headers: Text) -> Option<Text> {
    part_type_from(split(headers, '\n'), 0)
}

/// What the parts so far have given.
pub struct PartsView {
    pub metadata: Option<UploadMetadataView>,
    pub media_type: Option<Text>,
    pub data: Option<Seq<u8>>,
}

/// Metadata, type and content of an upload.
pub type UploadView = (UploadMetadataView, Text, Seq<u8>);

/// The parts so far with one more: metadata where it is JSON, else the content.
pub open spec fn with_part(parts: PartsView, part_type: Option<Text>, body: Seq<u8>) -> Result<
    PartsView,
    UploadErrorView,
> {
    if part_type is Some && contains(lowered(part_type->0), "application/json"@) {
        if parts.metadata is Some {
            Err(
                UploadErrorView::Invalid("Multipart upload contains multiple metadata parts"@),
            )
        } else {
            match parse_json_upload_metadata(body) {
                Ok(metadata) => Ok(PartsView { metadata: Some(metadata), ..parts }),
                Err(error) => Err(error),
            }
        }
    } else if parts.data is Some {
        Err(UploadErrorView::Invalid("Multipart upload contains multiple media parts"@))
    } else {
        Ok(PartsView { media_type: part_type, data: Some(body), ..parts })
    }
}

/// The upload that the parts make up.
pub open spec fn assembled(parts: PartsView) -> Result<UploadView, UploadErrorView> {
    match (parts.metadata, parts.data) {
        (None, _) => Err(UploadErrorView::Invalid("Missing multipart object metadata"@)),
        (Some(_), None) => Err(UploadErrorView::Invalid("Missing multipart object data"@)),
        (Some(metadata), Some(data)) => Ok(
            (
                metadata,
                match parts.media_type {
                    Some(media_type) => media_type,
                    None => or_text(metadata.content_type, "application/octet-stream"@),
                },
                data,
            ),
        ),
    }
}

/// Bytes that are found lie inside the others, behind the place of the search.
pub proof fn bytes_from_is_place(haystack: Seq<u8>, needle: Seq<u8>, i: int)
    requires
        0 <= i,
    ensures
        bytes_from(haystack, needle, i) matches Some(k) ==> i <= k && k + needle.len()
            <= haystack.len() && haystack.subrange(k, k + needle.len()) == needle,
    decreases haystack.len() + 1 - i,
{
    if needle.len() == 0 || i + needle.len() > haystack.len() {
    } else if haystack.subrange(i, i + needle.len()) == needle {
    } else {
        bytes_from_is_place(haystack, needle, i + 1);
    }
}

/// Each part ends behind the boundary that it starts with.
#[via_fn]
proof fn parts_come_to_an_end(parts: PartsView, body: Seq<u8>, marker: Seq<u8>, cursor: int) {
    let start = cursor + marker.len() + 2;
    if cursor >= 0 {
        bytes_from_is_place(body, encode_utf8("\r\n\r\n"@), start);
        if let Some(headers_end) = bytes_from(body, encode_utf8("\r\n\r\n"@), start) {
            let delimiter = encode_utf8("\r\n"@) + marker;
            bytes_from_is_place(body, delimiter, headers_end + 4);
            reveal_strlit("\r\n");
            is_ascii_chars_encode_utf8("\r\n"@);
        }
    }
}

/// The upload in the parts from a boundary at `cursor` on, with those before it.
pub open spec fn parts_from(parts: PartsView, body: Seq<u8>, marker: Seq<u8>, cursor: int) -> Result<
    UploadView,
    UploadErrorView,
>
    decreases body.len() - cursor via parts_come_to_an_end
{
    let opened = cursor + marker.len();
    let start = opened + 2;
    if cursor < 0 || !bytes_at(body, cursor, marker) {
        Err(UploadErrorView::Invalid("Malformed multipart boundary"@))
    } else if bytes_at(body, opened, encode_utf8("--"@)) {
        assembled(parts)
    } else if !bytes_at(body, opened, encode_utf8("\r\n"@)) {
        Err(UploadErrorView::Invalid("Multipart boundary must be followed by CRLF"@))
    } else {
        match bytes_from(body, encode_utf8("\r\n\r\n"@), start) {
            None => Err(UploadErrorView::Invalid("Missing multipart part headers"@)),
            Some(headers_end) => match utf8_text(body.subrange(start, headers_end)) {
                None => Err(
                    UploadErrorView::Invalid("Multipart part headers must be UTF-8"@),
                ),
                Some(headers) => match bytes_from(
                    body,
                    encode_utf8("\r\n"@) + marker,
                    headers_end + 4,
                ) {
                    None => Err(
                        UploadErrorView::Invalid("Missing closing multipart boundary"@),
                    ),
                    Some(next) => match with_part(
                        parts,
                        part_type(headers),
                        body.subrange(headers_end + 4, next),
                    ) {
                        Err(error) => Err(error),
                        Ok(parts) => parts_from(parts, body, marker, next + 2),
                    },
                },
            },
        }
    }
}

/// The upload in a body of several parts.
pub open spec fn parse_multipart_upload(content_type: Text, body: Seq<u8>) -> Result<
    UploadView,
    UploadErrorView,
> {
    match multipart_boundary(content_type) {
        None => Err(UploadErrorView::Invalid("Missing multipart boundary"@)),
        Some(boundary) => {
            let marker = encode_utf8("--"@) + encode_utf8(boundary);
            if !bytes_at(body, 0, marker) {
                Err(
                    UploadErrorView::Invalid("Multipart body does not start with its boundary"@),
                )
            } else {
                parts_from(
                    (PartsView { metadata: None, media_type: None, data: None }),
                    body,
                    marker,
                    0,
                )
            }
        },
    }
}

/// What the parts so far have given.
pub struct Parts {
    pub metadata: Option<ParsedUploadMetadata>,
    pub media_type: Option<String>,
    pub data: Option<Vec<u8>>,
}

impl View for Parts {
    type V = PartsView;

    open spec fn view(&self) -> PartsView {
        PartsView {
            metadata: seen(self.metadata),
            media_type: seen(self.media_type),
            data: seen(self.data),
        }
    }
}

impl GcsAdapter {
    fn unknown_field(fields: &Vec<(String, Json)>) -> (r: Option<String>)
        ensures
            seen(r) == unknown_from(each(fields@), 0),
    {
        let mut i: usize = 0;
        while i < fields.len()
            invariant
                i <= fields.len(),
                unknown_from(each(fields@), 0) == unknown_from(each(fields@), i as int),
            decreases fields.len() - i,
        {
            let name = &fields[i].0;
            assert(each(fields@)[i as int] == fields@[i as int]@);
            if !(same(name, "name") || same(name, "bucket") || same(name, "contentType") || same(
                name,
                "metadata",
            ) || same(name, "crc32c")) {
                return Some(name.clone());
            }
            i += 1;
        }
        None
    }

    fn texts(fields: &Vec<(String, Json)>) -> (r: Result<Table<String>, UploadMetadataError>)
        ensures
            settled(r) == texts_from(Seq::empty(), each(fields@), 0),
    {
        let mut out: Table<String> = Table::new();
        let mut i: usize = 0;
        while i < fields.len()
            invariant
                i <= fields.len(),
                texts_from(Seq::empty(), each(fields@), 0) == texts_from(
                    out@,
                    each(fields@),
                    i as int,
                ),
            decreases fields.len() - i,
        {
            assert(each(fields@)[i as int] == fields@[i as int]@);
            match fields[i].1.as_text() {
                Some(text) => out.insert(&fields[i].0, text.to_owned()),
                None => return Err(
                    UploadMetadataError::Invalid(
                        cat3("Object metadata value ", &fields[i].0, " must be a string"),
                    ),
                ),
            }
            i += 1;
        }
        Ok(out)
    }

    fn metadata_value(fields: &Vec<(String, Json)>) -> (r: Result<
        Table<String>,
        UploadMetadataError,
    >)
        ensures
            settled(r) == metadata_value(each(fields@)),
    {
        match find_field(fields, "metadata") {
            None => Ok(Table::new()),
            Some(Json::Object(values)) => {
                proof {
                    object_view(*values);
                }
                Self::texts(values)
            },
            Some(_) => Err(
                UploadMetadataError::Invalid(
                    "Object metadata metadata must be a JSON object".to_owned(),
                ),
            ),
        }
    }

    fn crc32c_value(fields: &Vec<(String, Json)>) -> (r: Result<Option<u32>, UploadMetadataError>)
        ensures
            match r {
                Ok(found) => crc32c_value(each(fields@)) == Ok::<_, UploadErrorView>(found),
                Err(error) => crc32c_value(each(fields@)) == Err::<Option<u32>, _>(error@),
            },
    {
        let value = match find_field(fields, "crc32c") {
            Some(value) => value,
            None => return Ok(None),
        };
        match value.as_text() {
            None => Err(
                UploadMetadataError::Invalid(
                    "Object metadata crc32c must be a base64-encoded string".to_owned(),
                ),
            ),
            Some(text) => match Self::parse_crc32c(
                text,
                "Object metadata crc32c must be base64-encoded big-endian bytes",
                "Object metadata crc32c must decode to exactly four bytes",
            ) {
                Ok(crc) => Ok(Some(crc)),
                Err(error) => Err(error),
            },
        }
    }

    /// The metadata in the fields of a document.
    pub fn upload_metadata(fields: &Vec<(String, Json)>) -> (r: Result<
        ParsedUploadMetadata,
        UploadMetadataError,
    >)
        ensures
            settled(r) == upload_metadata(each(fields@)),
    {
        match Self::unknown_field(fields) {
            Some(unknown) => return Err(
                UploadMetadataError::Unsupported(
                    cat3(
                        "Object metadata field ",
                        &unknown,
                        " is not supported by this emulator surface",
                    ),
                ),
            ),
            None => {},
        }
        match find_field(fields, "bucket") {
            Some(value) => if value.as_text().is_none() {
                return Err(
                    UploadMetadataError::Invalid(
                        "Object metadata bucket must be a string".to_owned(),
                    ),
                );
            },
            None => {},
        }
        let name = match find_field(fields, "name") {
            Some(value) => match value.as_text() {
                Some(text) => Some(text.to_owned()),
                None => return Err(
                    UploadMetadataError::Invalid(
                        "Object metadata name must be a string".to_owned(),
                    ),
                ),
            },
            None => None,
        };
        let content_type = match find_field(fields, "contentType") {
            Some(value) => match value.as_text() {
                Some(text) if text.unicode_len() > 0 => Some(text.to_owned()),
                _ => return Err(
                    UploadMetadataError::Invalid(
                        "Object metadata contentType must be a non-empty string".to_owned(),
                    ),
                ),
            },
            None => None,
        };
        let metadata = match Self::metadata_value(fields) {
            Ok(metadata) => metadata,
            Err(error) => return Err(error),
        };
        let crc32c = match Self::crc32c_value(fields) {
            Ok(crc32c) => crc32c,
            Err(error) => return Err(error),
        };
        Ok(ParsedUploadMetadata { name, content_type, metadata, crc32c })
    }

    /// The metadata in a document that was read.
    pub fn document_metadata(parsed: &Result<Json, String>) -> (r: Result<
        ParsedUploadMetadata,
        UploadMetadataError,
    >)
        ensures
            settled(r) == document_metadata(settled(*parsed)),
    {
        match parsed {
            Err(error) => Err(
                UploadMetadataError::Invalid(cat("Invalid object metadata JSON: ", error)),
            ),
            Ok(Json::Object(fields)) => {
                proof {
                    object_view(*fields);
                }
                Self::upload_metadata(fields)
            },
            Ok(_) => Err(
                UploadMetadataError::Invalid("Object metadata must be a JSON object".to_owned()),
            ),
        }
    }

    pub fn parse_json_upload_metadata(body: &[u8]) -> (r: Result<
        ParsedUploadMetadata,
        UploadMetadataError,
    >)
        ensures
            settled(r) == parse_json_upload_metadata(body@),
    {
        if body.len() == 0 {
            return Ok(
                ParsedUploadMetadata {
                    name: None,
                    content_type: None,
                    metadata: Table::new(),
                    crc32c: None,
                },
            );
        }
        Self::document_metadata(&parse_json(body))
    }

    fn bytes_at(body: &[u8], i: usize, part: &[u8]) -> (r: bool)
        requires
            i <= body@.len(),
        ensures
            r == bytes_at(body@, i as int, part@),
    {
        if part.len() > body.len() - i {
            return false;
        }
        let mut k: usize = 0;
        while k < part.len()
            invariant
                i + part.len() <= body.len(),
                k <= part.len(),
                forall|j: int| 0 <= j < k ==> body@[i + j] == part@[j],
            decreases part.len() - k,
        {
            if body[i + k] != part[k] {
                assert(body@.subrange(i as int, i + part@.len())[k as int] != part@[k as int]);
                return false;
            }
            k += 1;
        }
        assert(body@.subrange(i as int, i + part@.len()) =~= part@);
        true
    }

    pub fn find_bytes(haystack: &[u8], needle: &[u8], start: usize) -> (r: Option<usize>)
        ensures
            match r {
                Some(i) => bytes_from(haystack@, needle@, start as int) == Some(i as int) && start
                    <= i && i + needle@.len() <= haystack@.len(),
                None => bytes_from(haystack@, needle@, start as int) is None,
            },
    {
        if needle.len() == 0 || start > haystack.len() {
            return None;
        }
        let mut i: usize = start;
        while needle.len() <= haystack.len() - i
            invariant
                needle.len() > 0,
                start <= i <= haystack.len(),
                bytes_from(haystack@, needle@, start as int) == bytes_from(
                    haystack@,
                    needle@,
                    i as int,
                ),
            decreases haystack.len() - i,
        {
            if Self::bytes_at(haystack, i, needle) {
                return Some(i);
            }
            i += 1;
        }
        None
    }

    pub fn multipart_boundary(content_type: &str) -> (r: Option<String>)
        ensures
            seen(r) == multipart_boundary(content_type@),
    {
        let parts = pieces(content_type, ';');
        let mut i: usize = 0;
        while i < parts.len()
            invariant
                i <= parts.len(),
                each(parts@) == split(content_type@, ';'),
                multipart_boundary(content_type@) == boundary_from(
                    split(content_type@, ';'),
                    i as int,
                ),
            decreases parts.len() - i,
        {
            assert(split(content_type@, ';')[i as int] == parts@[i as int]@);
            match after_prefix(trimmed(parts[i]), "boundary=") {
                Some(value) => return Some(trimmed_of(value, '"').to_owned()),
                None => {},
            }
            i += 1;
        }
        None
    }

    fn part_type(headers: &str) -> (r: Option<String>)
        ensures
            seen(r) == part_type(headers@),
    {
        let lines = pieces(headers, '\n');
        let mut i: usize = 0;
        while i < lines.len()
            invariant
                i <= lines.len(),
                each(lines@) == split(headers@, '\n'),
                part_type(headers@) == part_type_from(split(headers@, '\n'), i as int),
            decreases lines.len() - i,
        {
            assert(split(headers@, '\n')[i as int] == lines@[i as int]@);
            match cut(lines[i], ":") {
                Some((name, value)) => if same(&lowercase(trimmed(name)), "content-type") {
                    return Some(trimmed(value).to_owned());
                },
                None => {},
            }
            i += 1;
        }
        None
    }

    fn with_part(parts: Parts, part_type: Option<String>, body: &[u8]) -> (r: Result<
        Parts,
        UploadMetadataError,
    >)
        ensures
            settled(r) == with_part(parts@, seen(part_type), body@),
    {
        let json = match &part_type {
            Some(text) => holds(&lowercase(text), "application/json"),
            None => false,
        };
        let mut parts = parts;
        if json {
            if parts.metadata.is_some() {
                return Err(
                    UploadMetadataError::Invalid(
                        "Multipart upload contains multiple metadata parts".to_owned(),
                    ),
                );
            }
            match Self::parse_json_upload_metadata(body) {
                Ok(metadata) => {
                    parts.metadata = Some(metadata);
                },
                Err(error) => return Err(error),
            }
        } else {
            if parts.data.is_some() {
                return Err(
                    UploadMetadataError::Invalid(
                        "Multipart upload contains multiple media parts".to_owned(),
                    ),
                );
            }
            parts.media_type = part_type;
            parts.data = Some(copy_bytes(body));
        }
        Ok(parts)
    }

    fn assembled(parts: Parts) -> (r: Result<
        (ParsedUploadMetadata, String, Vec<u8>),
        UploadMetadataError,
    >)
        ensures
            settled(r) == assembled(parts@),
    {
        let metadata = match parts.metadata {
            Some(metadata) => metadata,
            None => return Err(
                UploadMetadataError::Invalid("Missing multipart object metadata".to_owned()),
            ),
        };
        let data = match parts.data {
            Some(data) => data,
            None => return Err(
                UploadMetadataError::Invalid("Missing multipart object data".to_owned()),
            ),
        };
        let content_type = match parts.media_type {
            Some(media_type) => media_type,
            None => match &metadata.content_type {
                Some(content_type) => content_type.clone(),
                None => "application/octet-stream".to_owned(),
            },
        };
        Ok((metadata, content_type, data))
    }

    pub fn parse_multipart_upload(content_type: &str, body: &[u8]) -> (r: Result<
        (ParsedUploadMetadata, String, Vec<u8>),
        UploadMetadataError,
    >)
        ensures
            settled(r) == parse_multipart_upload(content_type@, body@),
    {
        let boundary = match Self::multipart_boundary(content_type) {
            Some(boundary) => boundary,
            None => return Err(
                UploadMetadataError::Invalid("Missing multipart boundary".to_owned()),
            ),
        };
        let mut marker = copy_bytes("--".as_bytes());
        let mut rest = copy_bytes(boundary.as_str().as_bytes());
        marker.append(&mut rest);
        let mut delimiter = copy_bytes("\r\n".as_bytes());
        let mut copy = copy_bytes(marker.as_slice());
        delimiter.append(&mut copy);
        if !Self::bytes_at(body, 0, marker.as_slice()) {
            return Err(
                UploadMetadataError::Invalid(
                    "Multipart body does not start with its boundary".to_owned(),
                ),
            );
        }
        let mut parts = Parts { metadata: None, media_type: None, data: None };
        let mut cursor: usize = 0;
        let size: usize = body.len();
        proof {
            reveal_strlit("--");
            reveal_strlit("\r\n");
            reveal_strlit("\r\n\r\n");
            is_ascii_chars_encode_utf8("--"@);
            is_ascii_chars_encode_utf8("\r\n"@);
            is_ascii_chars_encode_utf8("\r\n\r\n"@);
        }
        loop
            invariant
                size == body@.len(),
                cursor <= size,
                encode_utf8("--"@).len() == 2,
                encode_utf8("\r\n"@).len() == 2,
                encode_utf8("\r\n\r\n"@).len() == 4,
                multipart_boundary(content_type@) == Some(boundary@),
                marker@ == encode_utf8("--"@) + encode_utf8(boundary@),
                delimiter@ == encode_utf8("\r\n"@) + marker@,
                bytes_at(body@, 0, marker@),
                parse_multipart_upload(content_type@, body@) == parts_from(
                    parts@,
                    body@,
                    marker@,
                    cursor as int,
                ),
            decreases body@.len() - cursor,
        {
            if !Self::bytes_at(body, cursor, marker.as_slice()) {
                return Err(
                    UploadMetadataError::Invalid("Malformed multipart boundary".to_owned()),
                );
            }
            let opened: usize = cursor + marker.len();
            if Self::bytes_at(body, opened, "--".as_bytes()) {
                return Self::assembled(parts);
            }
            if !Self::bytes_at(body, opened, "\r\n".as_bytes()) {
                return Err(
                    UploadMetadataError::Invalid(
                        "Multipart boundary must be followed by CRLF".to_owned(),
                    ),
                );
            }
            let start: usize = opened + 2;
            let headers_end: usize = match Self::find_bytes(body, "\r\n\r\n".as_bytes(), start) {
                Some(i) => i,
                None => return Err(
                    UploadMetadataError::Invalid("Missing multipart part headers".to_owned()),
                ),
            };
            let headers = match text_of(
                vstd::slice::slice_subrange(body, start, headers_end),
            ) {
                Some(headers) => headers,
                None => return Err(
                    UploadMetadataError::Invalid(
                        "Multipart part headers must be UTF-8".to_owned(),
                    ),
                ),
            };
            let payload: usize = headers_end + 4;
            let next: usize = match Self::find_bytes(body, delimiter.as_slice(), payload) {
                Some(i) => i,
                None => return Err(
                    UploadMetadataError::Invalid("Missing closing multipart boundary".to_owned()),
                ),
            };
            let part_type = Self::part_type(&headers);
            match Self::with_part(
                parts,
                part_type,
                vstd::slice::slice_subrange(body, payload, next),
            ) {
                Ok(more) => {
                    parts = more;
                },
                Err(error) => return Err(error),
            }
            cursor = next + 2;
        }
    }
}

} // verus!
