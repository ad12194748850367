//! Requests and responses as plain values.

use vstd::prelude::*;
use vstd::string::*;
use vstd::utf8::encode_utf8;
use crate::clock::{Stamp, StampView};
use crate::number::{read_usize, unsigned};
use crate::table::{get, get_text, with, Copied, Table};
use crate::text::{bytes_of, copy_bytes, text_of, utf8_text};
use crate::views::{seen, Pairs, Text};

verus! {

/// What a request asks for. Its exact word is the request's `verb`.
#[derive(Clone, Copy, PartialEq, Eq, Structural, Debug)]
pub enum Method {
    Get,
    Head,
    Put,
    Post,
    Delete,
    Patch,
    Other,
}

/// The value of a header: text of visible ASCII characters, or bytes that are more than that.
pub enum HeaderText {
    Text(String),
    Raw(Vec<u8>),
}

/// The value of a header over characters and bytes.
pub enum HeaderView {
    Text(Text),
    Raw(Seq<u8>),
}

impl View for HeaderText {
    type V = HeaderView;

    open spec fn view(&self) -> HeaderView {
        match self {
            HeaderText::Text(text) => HeaderView::Text(text@),
            HeaderText::Raw(bytes) => HeaderView::Raw(bytes@),
        }
    }
}

impl HeaderView {
    /// The text of a value that is one.
    pub open spec fn text(self) -> Option<Text> {
        match self {
            HeaderView::Text(text) => Some(text),
            HeaderView::Raw(_) => None,
        }
    }
}

impl HeaderText {
    pub fn text(&self) -> (r: Option<&str>)
        ensures
            seen(r) == self@.text(),
    {
        match self {
            HeaderText::Text(text) => Some(text.as_str()),
            HeaderText::Raw(_) => None,
        }
    }
}

impl Copied for HeaderText {
    fn copied(&self) -> (r: Self) {
        match self {
            HeaderText::Text(text) => HeaderText::Text(text.clone()),
            HeaderText::Raw(bytes) => HeaderText::Raw(copy_bytes(bytes.as_slice())),
        }
    }
}

/// A request, with header names in lower case and the query decoded.
pub struct Request {
    pub method: Method,
    pub verb: String,
    pub path: String,
    pub raw_query: Option<String>,
    pub query: Table<String>,
    pub headers: Table<HeaderText>,
    pub scheme: Option<String>,
    pub origin: String,
    pub body: Vec<u8>,
}

/// A request over characters and bytes.
pub struct RequestView {
    pub method: Method,
    pub verb: Text,
    pub path: Text,
    pub raw_query: Option<Text>,
    pub query: Pairs,
    pub headers: Seq<(Text, HeaderView)>,
    pub scheme: Option<Text>,
    pub origin: Text,
    pub body: Seq<u8>,
}

impl View for Request {
    type V = RequestView;

    open spec fn view(&self) -> RequestView {
        RequestView {
            method: self.method,
            verb: self.verb@,
            path: self.path@,
            raw_query: seen(self.raw_query),
            query: self.query@,
            headers: self.headers@,
            scheme: seen(self.scheme),
            origin: self.origin@,
            body: self.body@,
        }
    }
}

impl RequestView {
    /// The text of a header.
    pub open spec fn header(self, name: Text) -> Option<Text> {
        match get(self.headers, name) {
            Some(value) => value.text(),
            None => None,
        }
    }

    /// The value of a query parameter.
    pub open spec fn param(self, name: Text) -> Option<Text> {
        get(self.query, name)
    }

    pub open spec fn has_header(self, name: Text) -> bool {
        get(self.headers, name) is Some
    }
}

impl Request {
    pub fn header(&self, name: &str) -> (r: Option<&str>)
        ensures
            seen(r) == self@.header(name@),
    {
        match self.headers.get(name) {
            Some(value) => value.text(),
            None => None,
        }
    }

    pub fn has_header(&self, name: &str) -> (r: bool)
        ensures
            r == self@.has_header(name@),
    {
        self.headers.has(name)
    }

    pub fn query_param(&self, name: &str) -> (r: Option<&str>)
        ensures
            seen(r) == self@.param(name@),
    {
        get_text(&self.query, name)
    }

    pub fn has_query_param(&self, name: &str) -> (r: bool)
        ensures
            r == (self@.param(name@) is Some),
    {
        self.query_param(name).is_some()
    }

    pub fn is(&self, method: Method) -> (r: bool)
        ensures
            r == (self@.method == method),
    {
        self.method == method
    }
}

/// A response: a status, headers in the order they were set, and a body. Headers whose value is
/// more than visible ASCII text are kept apart.
pub struct Response {
    pub status: u16,
    pub headers: Table<String>,
    pub raw_headers: Table<Vec<u8>>,
    pub body: Vec<u8>,
}

/// A response over characters and bytes.
pub struct ResponseView {
    pub status: u16,
    pub headers: Pairs,
    pub raw_headers: Seq<(Text, Seq<u8>)>,
    pub body: Seq<u8>,
}

impl View for Response {
    type V = ResponseView;

    open spec fn view(&self) -> ResponseView {
        ResponseView {
            status: self.status,
            headers: self.headers@,
            raw_headers: self.raw_headers@,
            body: self.body@,
        }
    }
}

/// A response with nothing but a status.
pub open spec fn status(code: u16) -> ResponseView {
    ResponseView {
        status: code,
        headers: Seq::empty(),
        raw_headers: Seq::empty(),
        body: Seq::empty(),
    }
}

impl ResponseView {
    /// The response with a header in place of any of that name.
    pub open spec fn header(self, name: Text, value: Text) -> ResponseView {
        ResponseView { headers: with(self.headers, name, value), ..self }
    }

    pub open spec fn maybe_header(self, name: Text, value: Option<Text>) -> ResponseView {
        match value {
            Some(value) => self.header(name, value),
            None => self,
        }
    }

    /// The response with a header as it came with the request, whatever it holds.
    pub open spec fn echo(self, req: RequestView, name: Text) -> ResponseView {
        match get(req.headers, name) {
            Some(HeaderView::Text(text)) => self.header(name, text),
            Some(HeaderView::Raw(bytes)) => ResponseView {
                raw_headers: with(self.raw_headers, name, bytes),
                ..self
            },
            None => self,
        }
    }

    pub open spec fn content_type(self, value: Text) -> ResponseView {
        self.header("content-type"@, value)
    }

    pub open spec fn bytes(self, body: Seq<u8>) -> ResponseView {
        ResponseView { body, ..self }
    }

    pub open spec fn text(self, body: Text) -> ResponseView {
        self.bytes(encode_utf8(body))
    }

    pub open spec fn is_success(self) -> bool {
        200 <= self.status < 300
    }
}

impl Response {
    pub fn new(code: u16) -> (r: Response)
        ensures
            r@ == status(code),
    {
        Response {
            status: code,
            headers: Table::new(),
            raw_headers: Table::new(),
            body: Vec::new(),
        }
    }

    pub fn header(self, name: &str, value: &str) -> (r: Response)
        ensures
            r@ == self@.header(name@, value@),
    {
        let mut r = self;
        r.headers.insert(name, value.to_owned());
        r
    }

    pub fn maybe_header(self, name: &str, value: Option<&str>) -> (r: Response)
        ensures
            r@ == self@.maybe_header(name@, seen(value)),
    {
        match value {
            Some(value) => self.header(name, value),
            None => self,
        }
    }

    pub fn echo(self, req: &Request, name: &str) -> (r: Response)
        ensures
            r@ == self@.echo(req@, name@),
    {
        match req.headers.get(name) {
            Some(HeaderText::Text(text)) => self.header(name, text),
            Some(HeaderText::Raw(bytes)) => {
                let mut r = self;
                r.raw_headers.insert(name, copy_bytes(bytes.as_slice()));
                r
            },
            None => self,
        }
    }

    pub fn content_type(self, value: &str) -> (r: Response)
        ensures
            r@ == self@.content_type(value@),
    {
        self.header("content-type", value)
    }

    pub fn bytes(self, body: Vec<u8>) -> (r: Response)
        ensures
            r@ == self@.bytes(body@),
    {
        Response { body, ..self }
    }

    pub fn text(self, body: &str) -> (r: Response)
        ensures
            r@ == self@.text(body@),
    {
        let body = bytes_of(body);
        self.bytes(body)
    }

    pub fn is_success(&self) -> (r: bool)
        ensures
            r == self@.is_success(),
    {
        200 <= self.status && self.status < 300
    }
}

/// Which keys requests are signed with, and whether signatures are asked for.
pub struct AuthConfig {
    pub access_key_id: Option<String>,
    pub secret_access_key: Option<String>,
    pub enforce_auth: bool,
}

/// The keys over characters.
pub struct AuthView {
    pub access_key_id: Option<Text>,
    pub secret_access_key: Option<Text>,
    pub enforce_auth: bool,
}

impl View for AuthConfig {
    type V = AuthView;

    open spec fn view(&self) -> AuthView {
        AuthView {
            access_key_id: seen(self.access_key_id),
            secret_access_key: seen(self.secret_access_key),
            enforce_auth: self.enforce_auth,
        }
    }
}

/// A request together with what it is served under.
pub struct Context {
    pub stamp: Stamp,
    pub auth: AuthConfig,
    pub req: Request,
}

/// A context over characters and bytes.
pub struct ContextView {
    pub stamp: StampView,
    pub auth: AuthView,
    pub req: RequestView,
}

impl View for Context {
    type V = ContextView;

    open spec fn view(&self) -> ContextView {
        ContextView { stamp: self.stamp@, auth: self.auth@, req: self.req@ }
    }
}

/// Whether the declared length of the body is a number other than its length.
pub open spec fn length_mismatch(req: RequestView) -> bool {
    match req.header("content-length"@) {
        Some(value) => match unsigned(value, usize::MAX as int) {
            Some(declared) => declared != req.body.len(),
            None => false,
        },
        None => false,
    }
}

/// Whether a body is not as long as its request declares.
pub fn content_length_mismatch(req: &Request) -> (r: bool)
    ensures
        r == length_mismatch(req@),
{
    match req.header("content-length") {
        Some(value) => match read_usize(value) {
            Some(declared) => declared != req.body.len(),
            None => false,
        },
        None => false,
    }
}

pub open spec fn is_hex(b: u8) -> bool {
    0x30 <= b <= 0x39 || 0x41 <= b <= 0x46 || 0x61 <= b <= 0x66
}

pub open spec fn hex_value(b: u8) -> int {
    if b <= 0x39 {
        b - 0x30
    } else if b <= 0x46 {
        b - 0x37
    } else {
        b - 0x57
    }
}

/// The bytes from place `i` on, with each `%` and its two hexadecimal digits read as one
/// byte; none where a `%` lacks them.
pub open spec fn unescaped_from(bytes: Seq<u8>, i: int) -> Option<Seq<u8>>
    decreases bytes.len() - i,
{
    if i >= bytes.len() {
        Some(Seq::empty())
    } else if bytes[i] != 0x25 {
        match unescaped_from(bytes, i + 1) {
            Some(rest) => Some(seq![bytes[i]] + rest),
            None => None,
        }
    } else if i + 2 < bytes.len() && is_hex(bytes[i + 1]) && is_hex(bytes[i + 2]) {
        match unescaped_from(bytes, i + 3) {
            Some(rest) => Some(
                seq![(hex_value(bytes[i + 1]) * 16 + hex_value(bytes[i + 2])) as u8] + rest,
            ),
            None => None,
        }
    } else {
        None
    }
}

/// The text of a path once its escapes are decoded.
pub open spec fn path_text(path: Text) -> Option<Text> {
    match unescaped_from(encode_utf8(path), 0) {
        Some(bytes) => utf8_text(bytes),
        None => None,
    }
}

fn hex(b: u8) -> (r: Option<u8>)
    ensures
        r is Some <==> is_hex(b),
        r matches Some(n) ==> n == hex_value(b) && n < 16,
{
    if 0x30 <= b && b <= 0x39 {
        Some(b - 0x30)
    } else if 0x41 <= b && b <= 0x46 {
        Some(b - 0x37)
    } else if 0x61 <= b && b <= 0x66 {
        Some(b - 0x57)
    } else {
        None
    }
}

/// Decodes the escapes of a path once. None where an escape is malformed or the bytes
/// are no UTF-8.
pub fn decode_uri_path(path: &str) -> (r: Option<String>)
    ensures
        seen(r) == path_text(path@),
{
    let bytes = path.as_bytes();
    let mut out: Vec<u8> = Vec::new();
    let mut i: usize = 0;
    let ghost whole = unescaped_from(bytes@, 0);
    proof {
        if whole is Some {
            assert(out@ + whole->0 =~= whole->0);
        }
    }
    while i < bytes.len()
        invariant
            i <= bytes.len(),
            bytes@ == encode_utf8(path@),
            whole == unescaped_from(bytes@, 0),
            whole is Some <==> unescaped_from(bytes@, i as int) is Some,
            whole is Some ==> out@ + unescaped_from(bytes@, i as int)->0 == whole->0,
        decreases bytes.len() - i,
    {
        let b: u8 = bytes[i];
        let ghost before = out@;
        let ghost rest = unescaped_from(bytes@, i as int);
        if b != 0x25 {
            out.push(b);
            i += 1;
        } else {
            if bytes.len() - i <= 2 {
                return None;
            }
            match (hex(bytes[i + 1]), hex(bytes[i + 2])) {
                (Some(high), Some(low)) => {
                    out.push(high * 16 + low);
                    i += 3;
                },
                _ => {
                    return None;
                },
            }
        }
        proof {
            let tail = unescaped_from(bytes@, i as int);
            if tail is Some {
                assert(rest->0 =~= seq![out@.last()] + tail->0);
                assert(before + (seq![out@.last()] + tail->0) =~= out@ + tail->0);
            }
        }
    }
    proof {
        assert(out@ + Seq::<u8>::empty() =~= out@);
    }
    text_of(out.as_slice())
}

} // verus!
