//! What the audio stream records of a listener's browser.

use crate::controllers::auth_context::RequestHeaders;
use crate::util::text::{chars_of, slice_chars, string_from_chars, trim_bounds, trim_spec};
use vstd::prelude::*;

verus! {

/// Longer than any real browser sends, short enough that a hostile client cannot park a large string in
/// every admin's listener list.
pub const USER_AGENT_LIMIT: usize = 512;

/// The browser's description of itself as the listener list keeps it: trimmed, at most
/// [`USER_AGENT_LIMIT`] characters, and absent when nothing is left.
pub open spec fn user_agent_spec(sent: Option<String>) -> Option<Seq<char>> {
    match sent {
        Some(text) => if trim_spec(text@).len() == 0 {
            None
        } else if trim_spec(text@).len() > USER_AGENT_LIMIT {
            Some(trim_spec(text@).take(USER_AGENT_LIMIT as int))
        } else {
            Some(trim_spec(text@))
        },
        None => None,
    }
}

/// The `User-Agent` of a request, trimmed and bounded.
pub fn user_agent(headers: &RequestHeaders) -> (agent: Option<String>)
    ensures
        match user_agent_spec(headers.user_agent) {
            Some(expected) => agent matches Some(found) && found@ == expected,
            None => agent is None,
        },
{
    let sent = match &headers.user_agent {
        Some(sent) => sent,
        None => return None,
    };
    let chars = chars_of(sent.as_str());
    let (start, end) = trim_bounds(&chars);
    if end == start {
        return None;
    }
    let kept_end = if end - start > USER_AGENT_LIMIT {
        start + USER_AGENT_LIMIT
    } else {
        end
    };
    let kept = slice_chars(chars.as_slice(), start, kept_end);
    assert(kept@ =~= user_agent_spec(headers.user_agent).unwrap());
    Some(string_from_chars(kept.as_slice()))
}

} // verus!
