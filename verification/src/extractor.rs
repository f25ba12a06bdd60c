//! Telling a multipart upload apart from a plain request body.

use vstd::prelude::*;
use vstd::utf8::*;

verus! {

/// A byte that a header value may hold and still read as text: a visible
/// ASCII character, a space, or a tab.
pub open spec fn is_visible_ascii(b: u8) -> bool {
    (32 <= b && b < 127) || b == 9
}

/// A header value that reads as text.
pub open spec fn all_visible_ascii(bytes: Seq<u8>) -> bool {
    forall|i: int| 0 <= i < bytes.len() ==> is_visible_ascii(#[trigger] bytes[i])
}

/// The text of ASCII bytes, one character per byte.
pub open spec fn ascii_text(bytes: Seq<u8>) -> Seq<char> {
    Seq::new(bytes.len(), |i: int| bytes[i] as char)
}

/// The boundary that a `Content-Type` value names, when the value is that
/// of a `multipart/form-data` body with a `boundary` parameter.
pub uninterp spec fn multipart_boundary_of(content_type: Seq<char>) -> Option<Seq<char>>;

/// `multer::parse_boundary`: the boundary named by a `Content-Type` value;
/// `None` where multer answers with an error (the value is no media type,
/// not `multipart/form-data`, or has no boundary).
#[verifier::external_body]
fn parse_boundary(content_type: &str) -> (r: Option<String>)
    ensures
        match r {
            Some(b) => multipart_boundary_of(content_type@) == Some(b@),
            None => multipart_boundary_of(content_type@) is None,
        },
{
    match multer::parse_boundary(content_type) {
        Ok(boundary) => Some(boundary),
        Err(_) => None,
    }
}

/// `std::str::from_utf8`: the text that `bytes` encode, when they are
/// valid UTF-8.
#[verifier::external_body]
fn str_from_utf8(bytes: &[u8]) -> (r: Option<&str>)
    ensures
        r is Some <==> valid_utf8(bytes@),
        r matches Some(s) ==> encode_utf8(s@) == bytes@,
{
    std::str::from_utf8(bytes).ok()
}

proof fn lemma_ascii_decodes(bytes: Seq<u8>)
    requires
        forall|i: int| 0 <= i < bytes.len() ==> #[trigger] bytes[i] < 128,
    ensures
        valid_utf8(bytes),
        decode_utf8(bytes) == ascii_text(bytes),
    decreases bytes.len(),
{
    if bytes.len() > 0 {
        let b = bytes[0];
        assert(b < 128);
        assert(b & 0x7f == b) by (bit_vector)
            requires
                b < 128,
        ;
        assert(pop_first_scalar(bytes) =~= bytes.drop_first());
        assert forall|i: int| 0 <= i < bytes.drop_first().len() implies #[trigger] bytes.drop_first()[i]
            < 128 by {
            assert(bytes[i + 1] < 128);
        }
        lemma_ascii_decodes(bytes.drop_first());
        assert(decode_utf8(bytes) =~= ascii_text(bytes));
    }
}

/// Header text is every visible ASCII character (`!` through `~`, digits
/// and letters among them), the space and the tab, and nothing else: no
/// control character, no DEL, and no byte above ASCII.
pub proof fn lemma_visible_ascii_is_header_text(b: u8)
    ensures
        0x20 <= b <= 0x7e ==> is_visible_ascii(b),
        b == 0x09 ==> is_visible_ascii(b),
        (b < 0x20 && b != 0x09) || b >= 0x7f ==> !is_visible_ascii(b),
        0x30 <= b <= 0x39 ==> is_visible_ascii(b),
{
}

/// Whether a request whose `Content-Type` header holds `content_type` (if
/// it has one) carries a multipart body: the value must read as text, and
/// multer must find a multipart boundary in that text.
pub fn is_multipart(content_type: Option<&[u8]>) -> (r: bool)
    ensures
        r == match content_type {
            Some(bytes) => all_visible_ascii(bytes@) && multipart_boundary_of(
                ascii_text(bytes@),
            ) is Some,
            None => false,
        },
        r ==> content_type is Some,
        content_type matches Some(bytes) ==> (r <==> (forall|i: int|
            0 <= i < bytes@.len() ==> (0x20 <= #[trigger] bytes@[i] <= 0x7e || bytes@[i] == 0x09))
            && multipart_boundary_of(ascii_text(bytes@)) is Some),
{
    if let Some(bytes) = content_type {
        let mut i: usize = 0;
        while i < bytes.len()
            invariant
                content_type == Some(bytes),
                i <= bytes@.len(),
                forall|j: int| 0 <= j < i ==> is_visible_ascii(#[trigger] bytes@[j]),
            decreases bytes@.len() - i,
        {
            let b = bytes[i];
            if !((b >= 32 && b < 127) || b == 9) {
                assert(!is_visible_ascii(bytes@[i as int]));
                return false;
            }
            i = i + 1;
        }
        proof {
            lemma_ascii_decodes(bytes@);
            vstd::utf8::decode_utf8_encode_utf8(bytes@);
        }
        match str_from_utf8(bytes) {
            Some(text) => {
                proof {
                    vstd::utf8::encode_utf8_decode_utf8(text@);
                }
                return parse_boundary(text).is_some();
            },
            None => {
                return false;
            },
        }
    }
    false
}

} // verus!
