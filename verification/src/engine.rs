//! The post engine's local logic: input validation, media file checks,
//! response classification and result construction. Everything here is a
//! pure function from plain values; transport happens elsewhere.

use vstd::prelude::*;
use crate::config::spec_blank;
use crate::numbers::dec_of;

verus! {

/// A closed error taxonomy with structured fields; `message` always holds
/// the rendered text, stated exactly by each constructor.
#[derive(Debug)]
pub enum XError {
    /// A locally rejected input; no network call was made.
    Validation { message: String },
    /// The transport failed underneath the request.
    Transport { message: String },
    /// The service answered 401: credentials are likely invalid.
    Auth { status: u16, message: String },
    /// The service answered 429, with its reset time when it sent one.
    RateLimit { reset: Option<String>, message: String },
    /// Any other non-success answer, with its status code.
    Service { status: u16, message: String },
    /// A malformed input or response shape.
    Format { message: String },
}

impl XError {
    /// The rendered text of the error.
    pub open spec fn spec_message(&self) -> Seq<char> {
        match self {
            XError::Validation { message } => message@,
            XError::Transport { message } => message@,
            XError::Auth { message, .. } => message@,
            XError::RateLimit { message, .. } => message@,
            XError::Service { message, .. } => message@,
            XError::Format { message } => message@,
        }
    }

    /// Render the error as text.
    pub fn render(&self) -> (r: String)
        ensures
            r@ == self.spec_message(),
    {
        match self {
            XError::Validation { message } => message.clone(),
            XError::Transport { message } => message.clone(),
            XError::Auth { message, .. } => message.clone(),
            XError::RateLimit { message, .. } => message.clone(),
            XError::Service { message, .. } => message.clone(),
            XError::Format { message } => message.clone(),
        }
    }
}

/// A transport failure under a request, with the underlying cause.
pub fn transport_error(prefix: &str, detail: &str) -> (r: XError)
    ensures
        r matches XError::Transport { message } && message@ == prefix@ + detail@,
{
    let mut m = prefix.to_owned();
    m.push_str(detail);
    XError::Transport { message: m }
}

/// A malformed response body, with the underlying cause.
pub fn format_error(prefix: &str, detail: &str) -> (r: XError)
    ensures
        r matches XError::Format { message } && message@ == prefix@ + detail@,
{
    let mut m = prefix.to_owned();
    m.push_str(detail);
    XError::Format { message: m }
}

/// A successfully created post: its identifier and its shareable URL.
#[derive(Debug)]
pub struct PostResult {
    /// The server-issued identifier of the created post.
    pub tweet_id: String,
    /// The shareable URL derived from username and identifier.
    pub url: String,
}

/// Build the result of a successful post: the URL embeds the resolved
/// username and the returned identifier.
pub fn make_post_result(id: String, username: &str) -> (r: PostResult)
    ensures
        r.tweet_id@ == id@,
        r.url@ == "https://x.com/"@ + username@ + "/status/"@ + id@,
{
    let mut url = "https://x.com/".to_owned();
    url.push_str(username);
    url.push_str("/status/");
    url.push_str(id.as_str());
    PostResult { tweet_id: id, url }
}

/// Validate message text: non-empty after trimming, and at most 280
/// characters (Unicode scalar values, not bytes).
pub fn validate_tweet_text(text: &str) -> (r: Result<(), XError>)
    ensures
        ({
            if spec_blank(text@) {
                r matches Err(e) && e matches XError::Validation { message } && message@
                    == "Tweet text cannot be empty"@
            } else if text@.len() > 280 {
                r matches Err(e) && e matches XError::Validation { message } && message@
                    == "Tweet text is "@ + dec_of(text@.len()) + " characters (max 280)"@
            } else {
                r is Ok
            }
        }),
{
    if crate::config::is_blank(text) {
        return Err(XError::Validation { message: "Tweet text cannot be empty".to_owned() });
    }
    let cs = crate::strutil::chars_vec(text);
    if cs.len() > 280 {
        let mut m = "Tweet text is ".to_owned();
        m.push_str(crate::numbers::usize_to_string(cs.len()).as_str());
        m.push_str(" characters (max 280)");
        return Err(XError::Validation { message: m });
    }
    Ok(())
}

/// The guidance fragment naming the server-supplied rate-limit reset time,
/// empty when the server sent none.
pub open spec fn rate_note(reset: Option<Seq<char>>) -> Seq<char> {
    match reset {
        Some(v) => "Rate limit resets at timestamp "@ + v + ". "@,
        None => Seq::empty(),
    }
}

/// Render the reset-time fragment of a throttling message.
pub fn rate_note_exec(reset: &Option<String>) -> (r: String)
    ensures
        r@ == rate_note(match reset {
            Some(v) => Some(v@),
            None => None,
        }),
{
    match reset {
        Some(v) => {
            let mut m = "Rate limit resets at timestamp ".to_owned();
            m.push_str(v.as_str());
            m.push_str(". ");
            m
        },
        None => String::new(),
    }
}

/// The ghost view of an optional reset header value.
pub open spec fn reset_view(reset: &Option<String>) -> Option<Seq<char>> {
    match reset {
        Some(v) => Some(v@),
        None => None,
    }
}

/// A status in the success range.
pub open spec fn is_success_status(status: u16) -> bool {
    200 <= status < 300
}

/// Classify the answer to a create-post request: success, throttled (with
/// any reset time and the posting budget guidance), auth failure, or a
/// generic service error embedding status and body.
pub fn classify_post_response(status: u16, reset: &Option<String>, body: &str) -> (r: Result<
    (),
    XError,
>)
    ensures
        ({
            if status == 429 {
                r matches Err(e) && e matches XError::RateLimit { reset: rs, message } && reset_view(
                    &rs,
                ) == reset_view(reset) && message@ == "Rate limited (429). "@ + rate_note(
                    reset_view(reset),
                ) + "Try again later. Free tier allows ~17 tweets/24h."@
            } else if is_success_status(status) {
                r is Ok
            } else if status == 401 {
                r matches Err(e) && e matches XError::Auth { status: st, message } && st == 401
                    && message@ == "X API error (401): "@ + body@
            } else {
                r matches Err(e) && e matches XError::Service { status: st, message } && st
                    == status && message@ == "X API error ("@ + dec_of(status as nat) + "): "@
                    + body@
            }
        }),
{
    if status == 429 {
        let mut m = "Rate limited (429). ".to_owned();
        m.push_str(rate_note_exec(reset).as_str());
        m.push_str("Try again later. Free tier allows ~17 tweets/24h.");
        return Err(XError::RateLimit { reset: clone_reset(reset), message: m });
    }
    if 200 <= status && status < 300 {
        return Ok(());
    }
    Err(api_error(status, body))
}

/// Classify the answer to a media-upload request; the throttling guidance
/// differs (uploads may be budgeted separately).
pub fn classify_media_response(status: u16, reset: &Option<String>, body: &str) -> (r: Result<
    (),
    XError,
>)
    ensures
        ({
            if status == 429 {
                r matches Err(e) && e matches XError::RateLimit { reset: rs, message } && reset_view(
                    &rs,
                ) == reset_view(reset) && message@ == "Media upload rate limited (429). "@
                    + rate_note(reset_view(reset))
                    + "Media uploads may have separate rate limits."@
            } else if is_success_status(status) {
                r is Ok
            } else if status == 401 {
                r matches Err(e) && e matches XError::Auth { status: st, message } && st == 401
                    && message@ == "Media upload error (401): "@ + body@
            } else {
                r matches Err(e) && e matches XError::Service { status: st, message } && st
                    == status && message@ == "Media upload error ("@ + dec_of(status as nat) + "): "@
                    + body@
            }
        }),
{
    if status == 429 {
        let mut m = "Media upload rate limited (429). ".to_owned();
        m.push_str(rate_note_exec(reset).as_str());
        m.push_str("Media uploads may have separate rate limits.");
        return Err(XError::RateLimit { reset: clone_reset(reset), message: m });
    }
    if 200 <= status && status < 300 {
        return Ok(());
    }
    if status == 401 {
        let mut m = "Media upload error (401): ".to_owned();
        m.push_str(body);
        return Err(XError::Auth { status: 401, message: m });
    }
    let mut m = "Media upload error (".to_owned();
    m.push_str(crate::numbers::u64_to_string(status as u64).as_str());
    m.push_str("): ");
    m.push_str(body);
    Err(XError::Service { status, message: m })
}

/// Classify the answer to an identity-fetch request: success or an error
/// embedding status and body.
pub fn classify_identity_response(status: u16, body: &str) -> (r: Result<(), XError>)
    ensures
        ({
            if is_success_status(status) {
                r is Ok
            } else if status == 401 {
                r matches Err(e) && e matches XError::Auth { status: st, message } && st == 401
                    && message@ == "X API error (401): "@ + body@
            } else {
                r matches Err(e) && e matches XError::Service { status: st, message } && st
                    == status && message@ == "X API error ("@ + dec_of(status as nat) + "): "@
                    + body@
            }
        }),
{
    if 200 <= status && status < 300 {
        return Ok(());
    }
    Err(api_error(status, body))
}

/// The server answered 401: the caller should emit a credentials
/// diagnostic beside the returned error.
pub fn needs_auth_diagnostic(status: u16) -> (r: bool)
    ensures
        r == (status == 401),
{
    status == 401
}

/// The generic service-error shape shared by the endpoints.
fn api_error(status: u16, body: &str) -> (r: XError)
    requires
        !(200 <= status < 300),
    ensures
        ({
            if status == 401 {
                r matches XError::Auth { status: st, message } && st == 401 && message@
                    == "X API error (401): "@ + body@
            } else {
                r matches XError::Service { status: st, message } && st == status && message@
                    == "X API error ("@ + dec_of(status as nat) + "): "@ + body@
            }
        }),
{
    if status == 401 {
        let mut m = "X API error (401): ".to_owned();
        m.push_str(body);
        XError::Auth { status: 401, message: m }
    } else {
        let mut m = "X API error (".to_owned();
        m.push_str(crate::numbers::u64_to_string(status as u64).as_str());
        m.push_str("): ");
        m.push_str(body);
        XError::Service { status, message: m }
    }
}

/// Clone an optional header value.
fn clone_reset(reset: &Option<String>) -> (r: Option<String>)
    ensures
        reset_view(&r) == reset_view(reset),
{
    match reset {
        Some(v) => Some(v.clone()),
        None => None,
    }
}

} // verus!
