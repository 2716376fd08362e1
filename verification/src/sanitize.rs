//! Sanitising free text before it is judged or stored.

use vstd::prelude::*;

use crate::error::ApiError;
use crate::text::{blank, is_blank};

verus! {

/// What sanitising makes of a text: the HTML fragment with everything outside
/// the sanitiser's default policy stripped.
pub uninterp spec fn sanitized(raw: Seq<char>) -> Seq<char>;

/// `ammonia::clean`: parses the text as an HTML fragment and writes it out
/// again under ammonia's default policy. The policy is fixed, so the output is a
/// function of the input alone; nothing more is claimed of it.
#[verifier::external_body]
fn clean(raw: &str) -> (out: String)
    ensures
        out@ == sanitized(raw@),
{
    ammonia::clean(raw)
}

/// What a sanitised text is accepted as: itself, unless it is blank.
pub open spec fn content_spec(cleaned: Seq<char>) -> Result<Seq<char>, ApiError> {
    if blank(cleaned) {
        Err(ApiError::BadRequest)
    } else {
        Ok(cleaned)
    }
}

/// The views of an accepted or refused text.
pub open spec fn text_result_view(r: Result<String, ApiError>) -> Result<Seq<char>, ApiError> {
    match r {
        Ok(s) => Ok(s@),
        Err(e) => Err(e),
    }
}

/// Accepts a sanitised text unless nothing but whitespace is left of it.
pub fn require_content(cleaned: String) -> (r: Result<String, ApiError>)
    ensures
        text_result_view(r) == content_spec(cleaned@),
{
    if is_blank(cleaned.as_str()) {
        Err(ApiError::BadRequest)
    } else {
        Ok(cleaned)
    }
}

/// Sanitises a free-text field and refuses it where nothing is left: emptiness
/// is judged on the sanitised text, not on what was sent.
pub fn sanitize_field(raw: &str) -> (r: Result<String, ApiError>)
    ensures
        text_result_view(r) == content_spec(sanitized(raw@)),
{
    require_content(clean(raw))
}

} // verus!
