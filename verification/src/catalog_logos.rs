//! Administrator logo uploads: the encoded text and the decoded bytes are
//! bounded before any image decoder sees them, and the bytes are kept as sent.
use crate::catalog_editing::Error;
use crate::catalog_moderation::{LOGO_MAX_BYTES, LOGO_MAX_ENCODED};
use base64::engine::general_purpose::STANDARD;
use base64::Engine;
use vstd::prelude::*;
use vstd::string::StringSliceAdditionalSpecFns;

verus! {

/// The bytes that standard, padded base64 decodes a text to, if it is valid.
pub uninterp spec fn base64_decoded(text: Seq<u8>) -> Option<Seq<u8>>;

/// `base64::engine::general_purpose::STANDARD.decode` of the text's bytes;
/// `None` where it reports a decoding error.
#[verifier::external_body]
fn decode_base64(text: &str) -> (r: Option<Vec<u8>>)
    ensures
        match r {
            Some(b) => base64_decoded(text.spec_bytes()) == Some(b@),
            None => base64_decoded(text.spec_bytes()) is None,
        },
{
    STANDARD.decode(text).ok()
}

/// The logo a decoded upload gives: non-empty and at most `LOGO_MAX_BYTES`.
pub open spec fn logo_of(decoded: Option<Seq<u8>>) -> Option<Seq<u8>> {
    match decoded {
        Some(b) => if b.len() == 0 || b.len() > LOGO_MAX_BYTES {
            None
        } else {
            Some(b)
        },
        None => None,
    }
}

/// Checks the bytes an upload decoded to.
pub fn decoded_logo(decoded: Option<Vec<u8>>) -> (r: Result<Vec<u8>, Error>)
    ensures
        match logo_of(
            match decoded {
                Some(b) => Some(b@),
                None => None,
            },
        ) {
            Some(b) => r matches Ok(x) && x@ == b,
            None => r == Err::<Vec<u8>, Error>(Error::Invalid),
        },
{
    match decoded {
        Some(b) => if b.len() == 0 || b.len() > LOGO_MAX_BYTES {
            Err(Error::Invalid)
        } else {
            Ok(b)
        },
        None => Err(Error::Invalid),
    }
}

/// The bytes of an uploaded logo: a text longer than the encoding of the
/// largest logo is refused before decoding; the decoded bytes must be a
/// non-empty logo of at most `LOGO_MAX_BYTES`. Whether they are an image is
/// the image validator's decision.
pub fn logo_bytes(encoded: &str) -> (r: Result<Vec<u8>, Error>)
    ensures
        encoded.len() > LOGO_MAX_ENCODED ==> r == Err::<Vec<u8>, Error>(
            Error::Invalid,
        ),
        encoded.len() <= LOGO_MAX_ENCODED ==> match logo_of(
            base64_decoded(encoded.spec_bytes()),
        ) {
            Some(b) => r matches Ok(x) && x@ == b,
            None => r == Err::<Vec<u8>, Error>(Error::Invalid),
        },
{
    if encoded.len() > LOGO_MAX_ENCODED {
        return Err(Error::Invalid);
    }
    decoded_logo(decode_base64(encoded))
}

} // verus!
