//! The content negotiation guard: every request is gated on its declared
//! content type before any body byte is read.

use vstd::prelude::*;

use crate::errors::ClassifiedError;
use crate::errors::error_message;

verus! {

broadcast use vstd::std_specs::vec::group_vec_axioms;

/// The single recognized media type, matched case-sensitively, with no
/// parameter parsing.
pub open spec fn accepted_media_type() -> Seq<char> {
    "application/ejson"@
}

pub open spec fn msg_not_found() -> Seq<char> {
    "Content Type not found"@
}

pub open spec fn msg_not_text() -> Seq<char> {
    "failed to convert header to a str"@
}

/// True of bytes that are valid header text: visible ASCII, space or
/// horizontal tab.
pub open spec fn header_text_ok(b: Seq<u8>) -> bool {
    forall|i: int| 0 <= i < b.len() ==> (32 <= #[trigger] b[i] <= 126 || b[i] == 9)
}

/// What the guard decides, for every possible header.
pub enum ContentTypeVerdict {
    /// The one recognized media type.
    Accepted,
    /// No content-type header at all.
    Missing,
    /// A header that is not header text.
    NotText,
    /// Header text, but some other media type.
    NotAccepted,
}

/// The guard's decision table over the header bytes.
pub open spec fn check_spec(h: Option<Seq<u8>>) -> ContentTypeVerdict {
    match h {
        Option::None => ContentTypeVerdict::Missing,
        Option::Some(b) => {
            if !header_text_ok(b) {
                ContentTypeVerdict::NotText
            } else if b == vstd::utf8::encode_utf8(accepted_media_type()) {
                ContentTypeVerdict::Accepted
            } else {
                ContentTypeVerdict::NotAccepted
            }
        },
    }
}

/// The header bytes an optional header holds, in the model.
pub open spec fn header_view(h: Option<&Vec<u8>>) -> Option<Seq<u8>> {
    match h {
        Option::None => Option::None,
        Option::Some(b) => Option::Some(b@),
    }
}

/// Compares a byte vector with the UTF-8 bytes of a string slice.
fn bytes_eq_str(b: &Vec<u8>, s: &str) -> (r: bool)
    ensures
        r == (b@ == vstd::utf8::encode_utf8(s@)),
{
    let sb = s.as_bytes();
    if b.len() != sb.len() {
        return false;
    }
    let n = b.len();
    let mut i: usize = 0;
    while i < n
        invariant
            0 <= i <= n,
            n == b@.len(),
            sb@ == vstd::utf8::encode_utf8(s@),
            n == sb@.len(),
            forall|k: int| 0 <= k < i ==> #[trigger] b@[k] == sb@[k],
        decreases n - i,
    {
        if b[i] != sb[i] {
            return false;
        }
        i = i + 1;
    }
    proof {
        assert(b@ =~= sb@);
    }
    true
}

/// Checks the declared content type: absent headers and non-text headers
/// are malformed, any media type other than the recognized one is
/// unsupported, each with its exact wire message. Runs strictly before
/// any body byte is read.
#[verifier::loop_isolation(false)]
pub fn check_content_type(h: Option<&Vec<u8>>) -> (r: Result<(), ClassifiedError>)
    ensures
        r is Ok <==> check_spec(header_view(h)) is Accepted,
        check_spec(header_view(h)) is Missing ==> (r matches Err(e)
            && e is MalformedContentType && error_message(e) == msg_not_found()),
        check_spec(header_view(h)) is NotText ==> (r matches Err(e)
            && e is MalformedContentType && error_message(e) == msg_not_text()),
        check_spec(header_view(h)) is NotAccepted ==> (r matches Err(e)
            && e is UnsupportedContentType),
{
    match h {
        Option::None => Err(
            ClassifiedError::MalformedContentType(String::from_str("Content Type not found")),
        ),
        Option::Some(b) => {
            let n = b.len();
            let mut i: usize = 0;
            while i < n
                invariant
                    0 <= i <= n,
                    n == b@.len(),
                    forall|k: int|
                        0 <= k < i ==> (32 <= #[trigger] b@[k] <= 126 || b@[k] == 9),
                decreases n - i,
            {
                let x = b[i];
                if !(x == 9 || (32 <= x && x <= 126)) {
                    proof {
                        assert(!header_text_ok(b@));
                    }
                    return Err(
                        ClassifiedError::MalformedContentType(
                            String::from_str("failed to convert header to a str"),
                        ),
                    );
                }
                i = i + 1;
            }
            if bytes_eq_str(b, "application/ejson") {
                Ok(())
            } else {
                Err(ClassifiedError::UnsupportedContentType)
            }
        },
    }
}

} // verus!
