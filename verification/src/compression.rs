//! Request bodies and their content encodings.

use crate::http::{lookup_text, Headers};
use crate::router_error::{RouterError, RouterErrorView};
use crate::text::{blank, lowered, str_eq, to_lower, trim, trimmed};
use std::io::Read;
use vstd::prelude::*;

verus! {

/// The largest request body, as it arrives and after decoding.
pub const MAX_REQUEST_BODY_BYTES: usize = 16_777_216;

/// The first `limit` bytes that a gzip stream holds, or the reason why it holds none.
pub uninterp spec fn gunzipped(bytes: Seq<u8>, limit: u64) -> Result<Seq<u8>, Seq<char>>;

/// The first `limit` bytes that a raw deflate stream holds, or the reason why it
/// holds none.
pub uninterp spec fn inflated(bytes: Seq<u8>, limit: u64) -> Result<Seq<u8>, Seq<char>>;

/// The first `limit` bytes that a Brotli stream holds, or the reason why it holds
/// none.
pub uninterp spec fn unbrotlied(bytes: Seq<u8>, limit: u64) -> Result<Seq<u8>, Seq<char>>;

/// The first `limit` bytes that a Zstandard stream holds, or the reason why it holds
/// none.
pub uninterp spec fn unzstded(bytes: Seq<u8>, limit: u64) -> Result<Seq<u8>, Seq<char>>;

/// The view of a decoding.
pub open spec fn decode_view(r: Result<Vec<u8>, String>) -> Result<Seq<u8>, Seq<char>> {
    match r {
        Ok(bytes) => Ok(bytes@),
        Err(e) => Err(e@),
    }
}

/// `flate2::read::GzDecoder` decodes a gzip stream; no more than `limit` bytes of it
/// are read.
#[verifier::external_body]
fn gunzip(bytes: &[u8], limit: u64) -> (r: Result<Vec<u8>, String>)
    ensures
        decode_view(r) == gunzipped(bytes@, limit),
        r is Ok ==> r->Ok_0@.len() <= limit,
{
    let mut out = Vec::new();
    match flate2::read::GzDecoder::new(bytes).take(limit).read_to_end(&mut out) {
        Ok(_) => Ok(out),
        Err(error) => Err(error.to_string()),
    }
}

/// `flate2::read::DeflateDecoder` decodes a raw deflate stream; no more than `limit`
/// bytes of it are read.
#[verifier::external_body]
fn inflate(bytes: &[u8], limit: u64) -> (r: Result<Vec<u8>, String>)
    ensures
        decode_view(r) == inflated(bytes@, limit),
        r is Ok ==> r->Ok_0@.len() <= limit,
{
    let mut out = Vec::new();
    match flate2::read::DeflateDecoder::new(bytes).take(limit).read_to_end(&mut out) {
        Ok(_) => Ok(out),
        Err(error) => Err(error.to_string()),
    }
}

/// `brotli::Decompressor` decodes a Brotli stream through a buffer of 4096 bytes; no
/// more than `limit` bytes of it are read.
#[verifier::external_body]
fn unbrotli(bytes: &[u8], limit: u64) -> (r: Result<Vec<u8>, String>)
    ensures
        decode_view(r) == unbrotlied(bytes@, limit),
        r is Ok ==> r->Ok_0@.len() <= limit,
{
    let mut out = Vec::new();
    match brotli::Decompressor::new(bytes, 4096).take(limit).read_to_end(&mut out) {
        Ok(_) => Ok(out),
        Err(error) => Err(error.to_string()),
    }
}

/// `zstd::stream::read::Decoder` decodes a Zstandard stream; no more than `limit`
/// bytes of it are read.
#[verifier::external_body]
fn unzstd(bytes: &[u8], limit: u64) -> (r: Result<Vec<u8>, String>)
    ensures
        decode_view(r) == unzstded(bytes@, limit),
        r is Ok ==> r->Ok_0@.len() <= limit,
{
    let mut out = Vec::new();
    match zstd::stream::read::Decoder::new(bytes).and_then(
        |decoder| decoder.take(limit).read_to_end(&mut out),
    ) {
        Ok(_) => Ok(out),
        Err(error) => Err(error.to_string()),
    }
}

/// What becomes of a decoded body: one that is over the limit counts as not decodable.
pub open spec fn bounded(decoded: Result<Seq<u8>, Seq<char>>) -> Result<Seq<u8>, RouterErrorView> {
    match decoded {
        Ok(bytes) => if bytes.len() > MAX_REQUEST_BODY_BYTES {
            Err(
                RouterErrorView::InvalidCompressedBody(
                    RouterErrorView::RequestBodyTooLarge(MAX_REQUEST_BODY_BYTES).message(),
                ),
            )
        } else {
            Ok(bytes)
        },
        Err(e) => Err(RouterErrorView::InvalidCompressedBody(e)),
    }
}

/// Refuses a decoded body that is over the limit.
pub fn decode_compressed(decoded: Result<Vec<u8>, String>) -> (r: Result<Vec<u8>, RouterError>)
    ensures
        bounded(decode_view(decoded)) == body_view(r),
{
    match decoded {
        Ok(bytes) => if bytes.len() > MAX_REQUEST_BODY_BYTES {
            Err(
                RouterError::InvalidCompressedBody(
                    RouterError::RequestBodyTooLarge(MAX_REQUEST_BODY_BYTES).message(),
                ),
            )
        } else {
            Ok(bytes)
        },
        Err(e) => Err(RouterError::InvalidCompressedBody(e)),
    }
}

/// The view of a body or an error.
pub open spec fn body_view(r: Result<Vec<u8>, RouterError>) -> Result<Seq<u8>, RouterErrorView> {
    match r {
        Ok(bytes) => Ok(bytes@),
        Err(e) => Err(e@),
    }
}

/// The content encoding that a request names, in lower case; `identity` where it
/// names none.
pub open spec fn content_encoding(headers: Seq<(Seq<char>, Seq<u8>)>) -> Seq<char> {
    match lookup_text(headers, "content-encoding"@) {
        Some(value) => if blank(value) {
            "identity"@
        } else {
            lowered(trimmed(value))
        },
        None => "identity"@,
    }
}

/// What a body of the given encoding decodes to.
pub open spec fn decoded_body(encoding: Seq<char>, bytes: Seq<u8>) -> Result<
    Seq<u8>,
    RouterErrorView,
> {
    let limit = (MAX_REQUEST_BODY_BYTES + 1) as u64;
    if encoding == "identity"@ {
        Ok(bytes)
    } else if encoding == "gzip"@ {
        bounded(gunzipped(bytes, limit))
    } else if encoding == "deflate"@ {
        bounded(inflated(bytes, limit))
    } else if encoding == "br"@ {
        bounded(unbrotlied(bytes, limit))
    } else if encoding == "zstd"@ {
        bounded(unzstded(bytes, limit))
    } else {
        Err(RouterErrorView::UnsupportedContentEncoding(encoding))
    }
}

/// The content encoding that a request names.
pub fn request_encoding(headers: &Headers) -> (r: String)
    ensures
        r@ == content_encoding(headers@),
{
    proof {
        reveal_strlit("identity");
    }
    match headers.text("content-encoding") {
        Some(value) => {
            let value = trim(&value);
            if value.as_str().is_empty() {
                "identity".to_owned()
            } else {
                to_lower(&value)
            }
        },
        None => "identity".to_owned(),
    }
}

/// Decodes a request body as its headers say.
pub fn decode_request_body(headers: &Headers, bytes: &Vec<u8>) -> (r: Result<Vec<u8>, RouterError>)
    ensures
        body_view(r) == decoded_body(content_encoding(headers@), bytes@),
{
    let encoding = request_encoding(headers);
    let limit: u64 = MAX_REQUEST_BODY_BYTES as u64 + 1;
    if str_eq(&encoding, "identity") {
        let copy = bytes.clone();
        assert(copy@ =~= bytes@);
        Ok(copy)
    } else if str_eq(&encoding, "gzip") {
        decode_compressed(gunzip(bytes, limit))
    } else if str_eq(&encoding, "deflate") {
        decode_compressed(inflate(bytes, limit))
    } else if str_eq(&encoding, "br") {
        decode_compressed(unbrotli(bytes, limit))
    } else if str_eq(&encoding, "zstd") {
        decode_compressed(unzstd(bytes, limit))
    } else {
        Err(RouterError::UnsupportedContentEncoding(encoding))
    }
}

/// A decoded body is never over the limit, however small the encoded one is.
pub proof fn decoded_body_is_bounded(encoding: Seq<char>, bytes: Seq<u8>)
    requires
        bytes.len() <= MAX_REQUEST_BODY_BYTES,
    ensures
        decoded_body(encoding, bytes) is Ok ==> decoded_body(encoding, bytes)->Ok_0.len()
            <= MAX_REQUEST_BODY_BYTES,
{
}

/// A body without an encoding is taken as it stands; each of the four encodings is decoded as
/// itself; any other is refused by its name. A body that decodes to more than the limit, and
/// one that cannot be decoded, are refused as such.
pub proof fn bodies_are_decoded_by_their_encoding(encoding: Seq<char>, bytes: Seq<u8>)
    ensures
        ({
            let out = decoded_body(encoding, bytes);
            let limit = 16 * 1024 * 1024 + 1;
            let decoded = if encoding == "gzip"@ {
                Some(gunzipped(bytes, limit as u64))
            } else if encoding == "deflate"@ {
                Some(inflated(bytes, limit as u64))
            } else if encoding == "br"@ {
                Some(unbrotlied(bytes, limit as u64))
            } else if encoding == "zstd"@ {
                Some(unzstded(bytes, limit as u64))
            } else {
                None
            };
            &&& encoding == "identity"@ ==> out == Ok::<Seq<u8>, RouterErrorView>(bytes)
            &&& encoding != "identity"@ && decoded is None ==> out == Err::<
                Seq<u8>,
                RouterErrorView,
            >(RouterErrorView::UnsupportedContentEncoding(encoding))
            &&& decoded is Some && out is Ok ==> decoded->0 == Ok::<Seq<u8>, Seq<char>>(out->Ok_0)
            &&& decoded is Some && out is Err ==> out->Err_0 is InvalidCompressedBody
            &&& decoded is Some ==> (out is Ok <==> decoded->0 is Ok && decoded->0->Ok_0.len() < limit)
        }),
{
    reveal_strlit("identity");
    reveal_strlit("gzip");
    reveal_strlit("deflate");
    reveal_strlit("br");
    reveal_strlit("zstd");
    assert("identity"@.len() == 8);
    assert("gzip"@.len() == 4 && "gzip"@[0] == 'g');
    assert("deflate"@.len() == 7);
    assert("br"@.len() == 2);
    assert("zstd"@.len() == 4 && "zstd"@[0] == 'z');
}

/// The encoding is the one that the header names, in small letters and without blanks round
/// it; a request that names none, or a blank one, is not encoded.
pub proof fn encodings_are_named_by_the_header(headers: Seq<(Seq<char>, Seq<u8>)>)
    ensures
        ({
            let named = lookup_text(headers, "content-encoding"@);
            &&& named is None || blank(named->0) ==> content_encoding(headers) == "identity"@
            &&& named is Some && !blank(named->0) ==> content_encoding(headers) == lowered(
                trimmed(named->0),
            )
        }),
{
}

} // verus!
