//! Capability probing: reading the answer to a header-only request.

use vstd::prelude::*;
use crate::decimal::{parse_u64_chars, u64_of_text};
use crate::text::text_of;

verus! {

/// The headers of the answer to a `HEAD` request that the prober reads,
/// each as the raw bytes of its value, or `None` where the header is absent.
#[derive(Debug, PartialEq, Eq)]
pub struct HeadResponse {
    /// `Accept-Ranges`
    pub accept_ranges: Option<Vec<u8>>,
    /// `Content-Length`
    pub content_length: Option<Vec<u8>>,
    /// `Location`
    pub location: Option<Vec<u8>>,
}

/// What probing found out about the resource.
#[derive(Debug, PartialEq, Eq)]
pub struct ProbeResult {
    /// The URI that answered without redirecting.
    pub final_uri: String,
    /// Total length of the resource, where the server told it.
    pub content_length: Option<u64>,
    /// Whether the resource can be fetched in byte ranges.
    pub supports_ranges: bool,
}

/// Why probing failed.
#[derive(Clone, Copy, Debug, PartialEq, Eq, Structural)]
pub enum ProbeError {
    /// The URI to request is not one the HTTP client accepts.
    InvalidUri,
    /// The request got no answer.
    Network,
    /// The `Location` header is not text.
    MalformedLocation,
    /// The `Accept-Ranges` header is not text.
    MalformedAcceptRanges,
    /// The `Content-Length` header is not an unsigned number that fits 64 bits.
    MalformedContentLength,
    /// The answer redirects, and the limit of redirects is used up.
    TooManyRedirects,
}

/// What one answer means for the probe.
#[derive(Clone, Copy, Debug, PartialEq, Eq)]
pub enum HeadOutcome {
    /// The answer names another location: probe there.
    Redirect,
    /// The answer describes the resource itself.
    Terminal { content_length: Option<u64>, supports_ranges: bool },
}

/// `b` may stand in a header value that is read as text: a printable ASCII
/// character, a space or a tab.
pub open spec fn is_visible(b: u8) -> bool {
    32 <= b < 127 || b == 9
}

/// All of `value` can be read as text.
pub open spec fn is_header_text(value: Seq<u8>) -> bool {
    forall|i: int| 0 <= i < value.len() ==> is_visible(#[trigger] value[i])
}

/// The characters that the bytes of a header value stand for.
pub open spec fn header_chars(value: Seq<u8>) -> Seq<char> {
    Seq::new(value.len(), |i: int| value[i] as char)
}

/// The range unit `bytes`.
pub open spec fn bytes_unit() -> Seq<char> {
    seq!['b', 'y', 't', 'e', 's']
}

/// The header is present and reads `bytes`.
pub open spec fn accepts_bytes(accept_ranges: Option<Vec<u8>>) -> bool {
    accept_ranges matches Some(v) && header_chars(v@) == bytes_unit()
}

/// The length that the header declares, if it is present.
pub open spec fn declared_length(content_length: Option<Vec<u8>>) -> Option<u64> {
    match content_length {
        Some(v) => u64_of_text(header_chars(v@)),
        None => None,
    }
}

/// The location that the answer redirects to, if it names one as text.
pub open spec fn redirect_target(response: HeadResponse) -> Option<Seq<char>> {
    match response.location {
        Some(v) => if is_header_text(v@) {
            Some(header_chars(v@))
        } else {
            None
        },
        None => None,
    }
}

/// What an answer means: with a `Location` header it is a redirect, and no
/// other header is looked at. Without one it describes the resource: ranges
/// are supported when `Accept-Ranges` reads `bytes` and `Content-Length` is
/// present. A header that is looked at and cannot be read is an error.
pub open spec fn head_outcome(response: HeadResponse) -> Result<HeadOutcome, ProbeError> {
    match response.location {
        Some(v) => if is_header_text(v@) {
            Ok(HeadOutcome::Redirect)
        } else {
            Err(ProbeError::MalformedLocation)
        },
        None => if response.accept_ranges matches Some(v) && !is_header_text(v@) {
            Err(ProbeError::MalformedAcceptRanges)
        } else if response.content_length matches Some(v) && !(is_header_text(v@)
            && declared_length(response.content_length) is Some) {
            Err(ProbeError::MalformedContentLength)
        } else {
            Ok(
                HeadOutcome::Terminal {
                    content_length: declared_length(response.content_length),
                    supports_ranges: accepts_bytes(response.accept_ranges)
                        && response.content_length is Some,
                },
            )
        },
    }
}

/// Reads a header value as text: every byte must be a printable ASCII
/// character, a space or a tab.
pub fn header_text(value: &Vec<u8>) -> (text: Option<Vec<char>>)
    ensures
        match text {
            Some(chars) => is_header_text(value@) && chars@ == header_chars(value@),
            None => !is_header_text(value@),
        },
{
    let mut chars: Vec<char> = Vec::new();
    let mut i: usize = 0;
    while i < value.len()
        invariant
            i <= value.len(),
            chars@ == header_chars(value@.take(i as int)),
            is_header_text(value@.take(i as int)),
        decreases value.len() - i,
    {
        let b = value[i];
        if !(b >= 32 && b < 127 || b == 9) {
            return None;
        }
        chars.push(b as char);
        proof {
            assert(value@.take(i + 1) =~= value@.take(i as int).push(b));
            assert(header_chars(value@.take(i + 1)) =~= header_chars(value@.take(i as int)).push(
                b as char,
            ));
        }
        i += 1;
    }
    proof {
        assert(value@.take(i as int) =~= value@);
    }
    Some(chars)
}

/// Tells whether `chars` reads `bytes`.
fn is_bytes_unit(chars: &Vec<char>) -> (yes: bool)
    ensures
        yes == (chars@ == bytes_unit()),
{
    let yes = chars.len() == 5 && chars[0] == 'b' && chars[1] == 'y' && chars[2] == 't'
        && chars[3] == 'e' && chars[4] == 's';
    proof {
        if yes {
            assert(chars@ =~= bytes_unit());
        }
    }
    yes
}

/// The location that the answer redirects to, if it names one as text.
pub fn location_of(response: &HeadResponse) -> (target: Option<String>)
    ensures
        match target {
            Some(uri) => redirect_target(*response) == Some(uri@),
            None => redirect_target(*response) is None,
        },
{
    match &response.location {
        Some(v) => match header_text(v) {
            Some(chars) => Some(text_of(&chars)),
            None => None,
        },
        None => None,
    }
}

/// Reads the answer to a `HEAD` request.
pub fn read_head(response: &HeadResponse) -> (outcome: Result<HeadOutcome, ProbeError>)
    ensures
        outcome == head_outcome(*response),
{
    if let Some(v) = &response.location {
        return match header_text(v) {
            Some(_) => Ok(HeadOutcome::Redirect),
            None => Err(ProbeError::MalformedLocation),
        };
    }
    let accepts: bool = match &response.accept_ranges {
        Some(v) => match header_text(v) {
            Some(chars) => is_bytes_unit(&chars),
            None => {
                return Err(ProbeError::MalformedAcceptRanges);
            },
        },
        None => false,
    };
    let content_length: Option<u64> = match &response.content_length {
        Some(v) => match header_text(v) {
            Some(chars) => match parse_u64_chars(&chars) {
                Some(n) => Some(n),
                None => {
                    return Err(ProbeError::MalformedContentLength);
                },
            },
            None => {
                return Err(ProbeError::MalformedContentLength);
            },
        },
        None => None,
    };
    Ok(
        HeadOutcome::Terminal {
            content_length,
            supports_ranges: accepts && content_length.is_some(),
        },
    )
}

} // verus!
