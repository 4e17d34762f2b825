//! HTTP status codes and the replies that the proxy sends to its clients.
use crate::text::{decimal, join2};
use vstd::prelude::*;

verus! {

/// A status code and its reason phrase, as `Display` of `http::StatusCode` prints them.
pub uninterp spec fn status_text(code: u16) -> Seq<char>;

/// Calls `axum::http::StatusCode::from_u16` (of the `http` crate, which axum re-exports): it takes
/// the codes from 100 to 999 and no others, and keeps their number.
#[verifier::external_body]
fn checked_code(code: u16) -> (checked: Option<u16>)
    ensures
        checked == (if 100 <= code <= 999 {
            Some(code)
        } else {
            None
        }),
{
    axum::http::StatusCode::from_u16(code).ok().map(|status| status.as_u16())
}

/// Calls `to_string` on `axum::http::StatusCode` (of the `http` crate, which axum re-exports): the
/// text depends on the code alone and begins with the code in decimal and a space. The reason
/// phrase behind them comes from a table in that crate.
#[verifier::external_body]
fn printed_code(code: u16) -> (text: String)
    requires
        100 <= code <= 999,
    ensures
        text@ == status_text(code),
        decimal(code as nat).push(' ').is_prefix_of(text@),
{
    axum::http::StatusCode::from_u16(code).unwrap().to_string()
}

/// An HTTP status code: a number from 100 to 999.
#[derive(Clone, Copy, PartialEq, Eq, Structural, Debug)]
pub struct HttpStatus {
    code: u16,
}

impl View for HttpStatus {
    type V = u16;

    closed spec fn view(&self) -> u16 {
        self.code
    }
}

/// Whether the code reports success.
pub open spec fn success_code(code: u16) -> bool {
    200 <= code <= 299
}

impl HttpStatus {
    #[verifier::type_invariant]
    spec fn in_range(&self) -> bool {
        100 <= self.code <= 999
    }

    /// The status with this code, if the code is one.
    pub fn from_u16(code: u16) -> (status: Option<HttpStatus>)
        ensures
            match status {
                Some(s) => 100 <= code <= 999 && s@ == code,
                None => !(100 <= code <= 999),
            },
    {
        match checked_code(code) {
            Some(code) => Some(HttpStatus { code }),
            None => None,
        }
    }

    /// The code.
    pub fn as_u16(&self) -> (code: u16)
        ensures
            code == self@,
            100 <= code <= 999,
    {
        proof {
            use_type_invariant(self);
        }
        self.code
    }

    /// Whether the status reports success.
    pub fn is_success(&self) -> (yes: bool)
        ensures
            yes == success_code(self@),
    {
        200 <= self.code && self.code <= 299
    }

    /// The code with its reason phrase.
    pub fn text(&self) -> (text: String)
        ensures
            text@ == status_text(self@),
            decimal(self@ as nat).push(' ').is_prefix_of(text@),
    {
        proof {
            use_type_invariant(self);
        }
        printed_code(self.code)
    }

    /// 200
    pub fn ok() -> (status: HttpStatus)
        ensures
            status@ == 200,
    {
        HttpStatus { code: 200 }
    }

    /// 400
    pub fn bad_request() -> (status: HttpStatus)
        ensures
            status@ == 400,
    {
        HttpStatus { code: 400 }
    }

    /// 403
    pub fn forbidden() -> (status: HttpStatus)
        ensures
            status@ == 403,
    {
        HttpStatus { code: 403 }
    }

    /// 500
    pub fn internal_server_error() -> (status: HttpStatus)
        ensures
            status@ == 500,
    {
        HttpStatus { code: 500 }
    }

    /// 502
    pub fn bad_gateway() -> (status: HttpStatus)
        ensures
            status@ == 502,
    {
        HttpStatus { code: 502 }
    }
}

/// What the proxy answers: a status and a body.
#[derive(Debug)]
pub struct Reply {
    pub status: HttpStatus,
    pub body: String,
}

/// The code and the text of a reply.
#[verifier::ext_equal]
pub struct ReplyView {
    pub status: u16,
    pub body: Seq<char>,
}

impl View for Reply {
    type V = ReplyView;

    open spec fn view(&self) -> ReplyView {
        ReplyView { status: self.status@, body: self.body@ }
    }
}

/// The reply with this code and text.
pub open spec fn reply(status: u16, body: Seq<char>) -> ReplyView {
    ReplyView { status, body }
}

impl Reply {
    /// A reply.
    pub fn new(status: HttpStatus, body: String) -> (r: Reply)
        ensures
            r@ == reply(status@, body@),
    {
        Reply { status, body }
    }

    /// A reply with a fixed text.
    pub fn fixed(status: HttpStatus, body: &str) -> (r: Reply)
        ensures
            r@ == reply(status@, body@),
    {
        Reply { status, body: body.to_owned() }
    }

    /// A reply whose text is `label` followed by `detail`.
    pub fn labelled(status: HttpStatus, label: &str, detail: &str) -> (r: Reply)
        ensures
            r@ == reply(status@, label@ + detail@),
    {
        Reply { status, body: join2(label, detail) }
    }
}

/// The codes that report success are those with a two in the first of their three places.
pub proof fn law_success_codes_begin_with_two(code: u16)
    ensures
        success_code(code) <==> code / 100 == 2,
{
}

/// A reply has the code and the whole text that it was made of.
pub proof fn law_replies_keep_their_parts(status: u16, body: Seq<char>)
    ensures
        reply(status, body).status == status,
        reply(status, body).body == body,
{
}

/// What is said of a reply is said of the code and the text that are sent.
pub proof fn law_replies_are_seen_whole(r: Reply)
    ensures
        r@.status == r.status@,
        r@.body == r.body@,
{
}

} // verus!
