//! Request headers and the replies that the services send.

use crate::json::{empty_object, Json, JsonView};
use crate::text::{lowered, str_eq};
use vstd::prelude::*;
use vstd::string::*;

verus! {

pub const OK: u16 = 200;

pub const BAD_REQUEST: u16 = 400;

pub const UNAUTHORIZED: u16 = 401;

pub const FORBIDDEN: u16 = 403;

pub const NOT_FOUND: u16 = 404;

pub const CONFLICT: u16 = 409;

pub const PAYLOAD_TOO_LARGE: u16 = 413;

pub const UNSUPPORTED_MEDIA_TYPE: u16 = 415;

pub const TOO_MANY_REQUESTS: u16 = 429;

pub const INTERNAL_SERVER_ERROR: u16 = 500;

pub const NOT_IMPLEMENTED: u16 = 501;

pub const BAD_GATEWAY: u16 = 502;

pub const SERVICE_UNAVAILABLE: u16 = 503;

/// The headers of a message, in the order in which they are listed. Names are in
/// lower case.
pub struct Headers {
    pub entries: Vec<(String, Vec<u8>)>,
}

/// What a lookup of a header finds: nothing, a value that is no visible ASCII, or
/// the value's text.
pub enum HeaderText {
    Absent,
    Opaque,
    Text(String),
}

/// The model of a lookup.
pub ghost enum HeaderView {
    Absent,
    Opaque,
    Text(Seq<char>),
}

impl View for Headers {
    type V = Seq<(Seq<char>, Seq<u8>)>;

    open spec fn view(&self) -> Seq<(Seq<char>, Seq<u8>)> {
        header_views(self.entries@)
    }
}

impl View for HeaderText {
    type V = HeaderView;

    open spec fn view(&self) -> HeaderView {
        match *self {
            HeaderText::Absent => HeaderView::Absent,
            HeaderText::Opaque => HeaderView::Opaque,
            HeaderText::Text(s) => HeaderView::Text(s@),
        }
    }
}

/// The models of listed headers.
pub open spec fn header_views(entries: Seq<(String, Vec<u8>)>) -> Seq<(Seq<char>, Seq<u8>)> {
    entries.map_values(|e: (String, Vec<u8>)| (e.0@, e.1@))
}

/// The value of the first header of a name.
pub open spec fn first_value(headers: Seq<(Seq<char>, Seq<u8>)>, name: Seq<char>) -> Option<Seq<u8>>
    decreases headers.len(),
{
    if headers.len() == 0 {
        None
    } else if headers[0].0 == name {
        Some(headers[0].1)
    } else {
        first_value(headers.drop_first(), name)
    }
}

/// Whether a byte is visible ASCII, a space or a tab.
pub open spec fn visible(b: u8) -> bool {
    32 <= b < 127 || b == 9
}

/// Whether every byte of a value is visible ASCII, a space or a tab.
pub open spec fn all_visible(value: Seq<u8>) -> bool {
    forall|i: int| 0 <= i < value.len() ==> visible(#[trigger] value[i])
}

/// The bytes read as characters, one for one.
pub open spec fn byte_chars(value: Seq<u8>) -> Seq<char> {
    value.map_values(|b: u8| b as char)
}

/// What a lookup by name finds.
pub open spec fn lookup(headers: Seq<(Seq<char>, Seq<u8>)>, name: Seq<char>) -> HeaderView {
    match first_value(headers, name) {
        None => HeaderView::Absent,
        Some(value) => if all_visible(value) {
            HeaderView::Text(byte_chars(value))
        } else {
            HeaderView::Opaque
        },
    }
}

/// The text of the first header of a name, where it is visible ASCII.
pub open spec fn lookup_text(headers: Seq<(Seq<char>, Seq<u8>)>, name: Seq<char>) -> Option<
    Seq<char>,
> {
    match lookup(headers, name) {
        HeaderView::Text(s) => Some(s),
        _ => None,
    }
}

proof fn first_value_skip(headers: Seq<(Seq<char>, Seq<u8>)>, name: Seq<char>, n: int)
    requires
        0 <= n <= headers.len(),
        forall|i: int| 0 <= i < n ==> (#[trigger] headers[i]).0 != name,
    ensures
        first_value(headers, name) == first_value(headers.skip(n), name),
    decreases n,
{
    if n > 0 {
        first_value_skip(headers.drop_first(), name, n - 1);
        assert(headers.drop_first().skip(n - 1) =~= headers.skip(n));
    } else {
        assert(headers.skip(0) =~= headers);
    }
}

/// The text of a header value.
pub fn value_text(value: &Vec<u8>) -> (r: HeaderText)
    ensures
        r@ == (if all_visible(value@) {
            HeaderView::Text(byte_chars(value@))
        } else {
            HeaderView::Opaque
        }),
{
    let mut out = String::new();
    let mut i: usize = 0;
    while i < value.len()
        invariant
            i <= value@.len(),
            forall|j: int| 0 <= j < i ==> visible(#[trigger] value@[j]),
            out@ == byte_chars(value@).take(i as int),
        decreases value@.len() - i,
    {
        let b = value[i];
        if !((32 <= b && b < 127) || b == 9) {
            assert(!visible(value@[i as int]));
            return HeaderText::Opaque;
        }
        out.push(b as char);
        assert(byte_chars(value@).take(i as int).push(b as char) =~= byte_chars(value@).take(i + 1));
        i = i + 1;
    }
    assert(byte_chars(value@).take(i as int) =~= byte_chars(value@));
    HeaderText::Text(out)
}

impl Headers {
    /// The value of the first header of a name.
    pub fn first(&self, name: &str) -> (r: Option<&Vec<u8>>)
        ensures
            first_value(self@, name@) == (match r {
                Some(v) => Some(v@),
                None => None,
            }),
    {
        let mut i: usize = 0;
        while i < self.entries.len()
            invariant
                i <= self.entries@.len(),
                forall|j: int| 0 <= j < i ==> (#[trigger] self@[j]).0 != name@,
            decreases self.entries@.len() - i,
        {
            if str_eq(&self.entries[i].0, name) {
                proof {
                    first_value_skip(self@, name@, i as int);
                    assert(self@.skip(i as int)[0] == self@[i as int]);
                }
                return Some(&self.entries[i].1);
            }
            i = i + 1;
        }
        proof {
            first_value_skip(self@, name@, i as int);
        }
        None
    }

    /// What a lookup by name finds.
    pub fn get(&self, name: &str) -> (r: HeaderText)
        ensures
            r@ == lookup(self@, name@),
    {
        match self.first(name) {
            Some(value) => value_text(value),
            None => HeaderText::Absent,
        }
    }

    /// The text of the first header of a name, where it is visible ASCII.
    pub fn text(&self, name: &str) -> (r: Option<String>)
        ensures
            crate::text::opt_view(r) == lookup_text(self@, name@),
    {
        match self.get(name) {
            HeaderText::Text(s) => Some(s),
            _ => None,
        }
    }
}

/// The characters that a header name may hold.
pub open spec fn name_char(c: char) -> bool {
    ||| 'a' <= c <= 'z'
    ||| 'A' <= c <= 'Z'
    ||| '0' <= c <= '9'
    ||| c == '!'
    ||| '#' <= c <= '\''
    ||| c == '*'
    ||| c == '+'
    ||| c == '-'
    ||| c == '.'
    ||| '^' <= c <= '`'
    ||| c == '|'
    ||| c == '~'
}

/// Whether a text is a header name.
pub open spec fn header_name_ok(s: Seq<char>) -> bool {
    &&& 1 <= s.len() <= 65535
    &&& forall|i: int| 0 <= i < s.len() ==> name_char(#[trigger] s[i])
}

/// Whether a text is a header value.
pub open spec fn header_value_ok(s: Seq<char>) -> bool {
    forall|i: int|
        0 <= i < s.len() ==> {
            let c = #[trigger] s[i];
            c == '\t' || (c >= ' ' && c != '\u{7f}')
        }
}

/// `http::header::HeaderName::from_bytes` accepts the tokens of 1 to 65535
/// characters and makes their letters small.
#[verifier::external_body]
pub(crate) fn header_name(name: &str) -> (r: Option<String>)
    ensures
        r is Some <==> header_name_ok(name@),
        r is Some ==> r->0@ == lowered(name@),
{
    match http::header::HeaderName::from_bytes(name.as_bytes()) {
        Ok(name) => Some(name.as_str().to_owned()),
        Err(_) => None,
    }
}

/// `http::header::HeaderValue::from_str` accepts text without control characters
/// other than the tab, and keeps its bytes.
#[verifier::external_body]
pub(crate) fn header_value(value: &str) -> (r: Option<Vec<u8>>)
    ensures
        r is Some <==> header_value_ok(value@),
        r is Some ==> r->0@ == value.spec_bytes(),
{
    match http::header::HeaderValue::from_str(value) {
        Ok(value) => Some(value.as_bytes().to_vec()),
        Err(_) => None,
    }
}

/// A reply: its status and its JSON body.
#[derive(Debug)]
pub struct Reply {
    pub status: u16,
    pub body: Json,
}

/// The model of a reply.
pub ghost struct ReplyView {
    pub status: u16,
    pub body: JsonView,
}

impl View for Reply {
    type V = ReplyView;

    open spec fn view(&self) -> ReplyView {
        ReplyView { status: self.status, body: self.body@ }
    }
}

/// The body of an error reply of the router.
pub open spec fn router_error_body(message: Seq<char>) -> JsonView {
    empty_object().with(
        "error"@,
        empty_object().with("type"@, JsonView::Str("codex_multiprovider_error"@)).with(
            "message"@,
            JsonView::Str(message),
        ),
    )
}

/// The error reply of the router.
pub open spec fn error_reply(status: u16, message: Seq<char>) -> ReplyView {
    ReplyView { status, body: router_error_body(message) }
}

/// The error reply of the router.
pub fn error_response(status: u16, message: &str) -> (r: Reply)
    ensures
        r@ == error_reply(status, message@),
{
    let error = Json::object().with("type", Json::string("codex_multiprovider_error")).with(
        "message",
        Json::string(message),
    );
    Reply { status, body: Json::object().with("error", error) }
}

/// Of several headers of one name the first counts, whatever stands round it; without one
/// there is no value.
pub proof fn the_first_header_counts(
    headers: Seq<(Seq<char>, Seq<u8>)>,
    name: Seq<char>,
    i: int,
)
    requires
        0 <= i <= headers.len(),
        i < headers.len() ==> headers[i].0 == name,
        forall|j: int| 0 <= j < i ==> (#[trigger] headers[j]).0 != name,
    ensures
        i < headers.len() ==> first_value(headers, name) == Some(headers[i].1),
        i == headers.len() ==> first_value(headers, name) is None && lookup(headers, name) is Absent,
{
    first_value_skip(headers, name, i);
    if i < headers.len() {
        assert(headers.skip(i)[0] == headers[i]);
    } else {
        assert(headers.skip(i).len() == 0);
    }
}

/// The text of a header has a character for each byte of the value; a value with a byte
/// that is neither visible ASCII nor a space nor a tab has no text.
pub proof fn header_texts_are_their_bytes(headers: Seq<(Seq<char>, Seq<u8>)>, name: Seq<char>)
    requires
        first_value(headers, name) is Some,
    ensures
        ({
            let value = first_value(headers, name)->0;
            match lookup(headers, name) {
                HeaderView::Absent => false,
                HeaderView::Opaque => exists|i: int|
                    0 <= i < value.len() && !(#[trigger] value[i] == 9 || 32 <= value[i] <= 126),
                HeaderView::Text(text) => {
                    &&& text.len() == value.len()
                    &&& forall|i: int|
                        0 <= i < value.len() ==> (#[trigger] text[i]) == value[i] as char && (value[i]
                            == 9 || 32 <= value[i] <= 126)
                },
            }
        }),
{
}

/// An error that the router reports has the given status, and a body with nothing in it but
/// the message and the router's error type.
pub proof fn errors_carry_their_message(status: u16, message: Seq<char>, key: Seq<char>)
    ensures
        ({
            let r = error_reply(status, message);
            let error = r.body.field("error"@)->0;
            &&& r.status == status
            &&& r.body.field("error"@) is Some
            &&& key != "error"@ ==> r.body.field(key) is None
            &&& error.field("message"@) == Some(JsonView::Str(message))
            &&& error.field("type"@) == Some(JsonView::Str("codex_multiprovider_error"@))
            &&& key != "message"@ && key != "type"@ ==> error.field(key) is None
        }),
{
    reveal_strlit("message");
    reveal_strlit("type");
    assert("message"@.len() == 7);
    assert("type"@.len() == 4);
}

} // verus!
