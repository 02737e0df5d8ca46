//! Recast URLs: where the server offers a stream again.

use crate::model::text_of;
use crate::text::{decimal, decimal_text};
use url::Url;
use vstd::prelude::*;
use vstd::string::StringExecFns;

verus! {

/// The text from which the recast URL of a stream is parsed:
/// `{base_url}/v0/cameras/{camera_id}/streams/{stream_id}/sdp`, the stream id
/// in decimal.
pub open spec fn recast_url_text(base_url: Seq<char>, camera_id: Seq<char>, stream_id: u64) -> Seq<
    char,
> {
    base_url + "/v0/cameras/"@ + camera_id + "/streams/"@ + decimal_text(stream_id as nat)
        + "/sdp"@
}

/// What `url::Url::parse` makes of `input`: the serialization of the URL that
/// it parsed, or `None` where it rejects the input.
pub uninterp spec fn parsed_url(input: Seq<char>) -> Option<Seq<char>>;

/// The recast URL that a stream gets where it names none of its own.
pub open spec fn derived_recast_url(
    base_url: Seq<char>,
    camera_id: Seq<char>,
    stream_id: u64,
) -> Option<Seq<char>> {
    parsed_url(recast_url_text(base_url, camera_id, stream_id))
}

/// Calls `url::Url::parse` and takes the serialization of the URL that it
/// returns. Not proved: that the result is `parsed_url` of the input, which
/// says no more than that parsing the same text gives the same URL.
#[verifier::external_body]
fn parse_url(input: &str) -> (r: Option<String>)
    ensures
        text_of(r) == parsed_url(input@),
{
    match Url::parse(input) {
        Ok(url) => Some(String::from(url)),
        Err(_) => None,
    }
}

/// Writes out the text from which a recast URL is parsed.
pub fn recast_url_string(base_url: &str, camera_id: &str, stream_id: u64) -> (r: String)
    ensures
        r@ == recast_url_text(base_url@, camera_id@, stream_id),
{
    let mut s = String::from_str(base_url);
    s.append("/v0/cameras/");
    s.append(camera_id);
    s.append("/streams/");
    let number = decimal(stream_id);
    s.append(number.as_str());
    s.append("/sdp");
    s
}

/// The recast URL of stream `stream_id` of camera `camera_id` on the server at
/// `base_url`, or `None` where these do not make a URL (a malformed base).
pub fn derive_recast_url(base_url: &str, camera_id: &str, stream_id: u64) -> (r: Option<String>)
    ensures
        text_of(r) == derived_recast_url(base_url@, camera_id@, stream_id),
{
    let text = recast_url_string(base_url, camera_id, stream_id);
    parse_url(text.as_str())
}

} // verus!
