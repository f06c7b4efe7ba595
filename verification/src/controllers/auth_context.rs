//! The HTTP side of being signed in: the session cookie, who is calling, and where from.
//!
//! The application reads the request's headers into [`RequestHeaders`]; everything decided from them
//! is decided here.

use crate::error::{AppError, AppResult};
use crate::models::user::User;
use crate::util::text::{
    ascii_lower, ascii_lower_spec, chars_of, chars_equal, extend_chars, find_char, first_index_of,
    lemma_first_index_of, slice_chars, string_from_chars, to_ascii_lowercase, trim_bounds,
    trim_spec, u64_to_decimal, decimal,
};
use vstd::prelude::*;

verus! {

pub const SESSION_COOKIE: &'static str = "oar_session";

/// How long a login session lasts.
pub const SESSION_TTL_MS: i64 = 30 * 24 * 3_600_000;

/// The headers of a request that the sign in rules read, each as the text it was sent as. A header
/// whose value is not visible text is left out, as if it had not been sent.
#[derive(Debug, Clone)]
pub struct RequestHeaders {
    /// Every `Cookie` header, in the order sent.
    pub cookies: Vec<String>,
    /// `Origin`
    pub origin: Option<String>,
    /// `Host`
    pub host: Option<String>,
    /// `X-Forwarded-Proto`, set by a TLS proxy in front of the service.
    pub forwarded_proto: Option<String>,
    /// `User-Agent`
    pub user_agent: Option<String>,
}

/// Who is calling, attached by the guard to every request it lets through.
#[derive(Debug, Clone)]
pub struct Caller {
    /// `None` without accounts, where nobody signs in.
    pub user: Option<User>,
    /// The raw session cookie, needed to sign out or to keep this session when changing a password.
    pub token: Option<String>,
}

pub const NO_ACCOUNTS: &'static str = "this install has no accounts, so there is no password to change";

impl Caller {
    /// The signed in account, for routes that only make sense with one.
    pub fn signed_in(&self) -> (outcome: AppResult<(&User, &str)>)
        ensures
            match (self.user, self.token) {
                (Some(user), Some(token)) => outcome matches Ok((u, t)) && *u == user && t@ == token@,
                _ => outcome matches Err(AppError::Conflict(m)) && m@ == NO_ACCOUNTS@,
            },
    {
        match (&self.user, &self.token) {
            (Some(user), Some(token)) => Ok((user, token.as_str())),
            _ => Err(AppError::conflict(NO_ACCOUNTS)),
        }
    }
}

/// The pieces of `s` between the separators, as `str::split` gives them.
pub open spec fn split_on(s: Seq<char>, separator: char) -> Seq<Seq<char>>
    decreases s.len(),
{
    let i = first_index_of(s, separator);
    if i >= s.len() || i < 0 {
        seq![s]
    } else {
        seq![s.take(i)] + split_on(s.skip(i + 1), separator)
    }
}

/// A cookie as `name=value`, surrounding whitespace trimmed first; `None` without an `=`.
pub open spec fn cookie_pair(piece: Seq<char>) -> Option<(Seq<char>, Seq<char>)> {
    let pair = trim_spec(piece);
    let i = first_index_of(pair, '=');
    if 0 <= i < pair.len() {
        Some((pair.take(i), pair.skip(i + 1)))
    } else {
        None
    }
}

/// The value of the first session cookie among the pieces.
pub open spec fn first_session_value(pieces: Seq<Seq<char>>) -> Option<Seq<char>>
    decreases pieces.len(),
{
    if pieces.len() == 0 {
        None
    } else {
        match cookie_pair(pieces[0]) {
            Some((name, value)) => if name == SESSION_COOKIE@ {
                Some(value)
            } else {
                first_session_value(pieces.drop_first())
            },
            None => first_session_value(pieces.drop_first()),
        }
    }
}

/// The cookie pieces of every `Cookie` header, in order.
pub open spec fn cookie_pieces(headers: Seq<Seq<char>>) -> Seq<Seq<char>>
    decreases headers.len(),
{
    if headers.len() == 0 {
        Seq::empty()
    } else {
        split_on(headers[0], ';') + cookie_pieces(headers.drop_first())
    }
}

/// The session token a request carries: the trimmed value of the first session cookie, unless that is
/// empty.
pub open spec fn session_token_spec(headers: Seq<Seq<char>>) -> Option<Seq<char>> {
    match first_session_value(cookie_pieces(headers)) {
        Some(value) => if trim_spec(value).len() > 0 {
            Some(trim_spec(value))
        } else {
            None
        },
        None => None,
    }
}

/// The texts of the `Cookie` headers.
pub open spec fn cookie_texts(headers: RequestHeaders) -> Seq<Seq<char>> {
    headers.cookies@.map_values(|value: String| value@)
}

proof fn lemma_first_session_value_concat(a: Seq<Seq<char>>, b: Seq<Seq<char>>)
    ensures
        first_session_value(a + b) == match first_session_value(a) {
            Some(value) => Some(value),
            None => first_session_value(b),
        },
    decreases a.len(),
{
    if a.len() == 0 {
        assert(a + b =~= b);
    } else {
        assert((a + b).drop_first() =~= a.drop_first() + b);
        assert((a + b)[0] == a[0]);
        lemma_first_session_value_concat(a.drop_first(), b);
    }
}

proof fn lemma_split_step(s: Seq<char>, start: int, end: int)
    requires
        0 <= start <= end <= s.len(),
        end == start + first_index_of(s.subrange(start, s.len() as int), ';'),
    ensures
        end < s.len() ==> split_on(s.skip(start), ';') == seq![s.subrange(start, end)] + split_on(
            s.skip(end + 1),
            ';',
        ),
        end == s.len() ==> split_on(s.skip(start), ';') == seq![s.subrange(start, end)],
{
    let rest = s.skip(start);
    assert(rest =~= s.subrange(start, s.len() as int));
    lemma_first_index_of(rest, ';');
    assert(rest.take(end - start) =~= s.subrange(start, end));
    if end < s.len() {
        assert(rest.skip(end - start + 1) =~= s.skip(end + 1));
    } else {
        assert(rest =~= s.subrange(start, end));
    }
}

/// The name and value of one cookie piece, as `cookie_pair` describes.
fn cookie_pair_of(piece: &Vec<char>) -> (pair: Option<(Vec<char>, Vec<char>)>)
    ensures
        match cookie_pair(piece@) {
            Some((name, value)) => pair matches Some((n, v)) && n@ == name && v@ == value,
            None => pair is None,
        },
{
    let (start, end) = trim_bounds(piece);
    let trimmed = slice_chars(piece.as_slice(), start, end);
    let equals = find_char(trimmed.as_slice(), 0, '=');
    proof {
        assert(trimmed@.subrange(0, trimmed@.len() as int) =~= trimmed@);
        lemma_first_index_of(trimmed@, '=');
    }
    if equals < trimmed.len() {
        let name = slice_chars(trimmed.as_slice(), 0, equals);
        let value = slice_chars(trimmed.as_slice(), equals + 1, trimmed.len());
        assert(name@ =~= trimmed@.take(equals as int));
        assert(value@ =~= trimmed@.skip(equals + 1));
        Some((name, value))
    } else {
        None
    }
}

/// The value of the first session cookie in one `Cookie` header.
fn session_value_in(header: &str) -> (value: Option<Vec<char>>)
    ensures
        match first_session_value(split_on(header@, ';')) {
            Some(expected) => value matches Some(found) && found@ == expected,
            None => value is None,
        },
{
    let chars = chars_of(header);
    let wanted = chars_of(SESSION_COOKIE);
    let mut start: usize = 0;
    assert(chars@.skip(0) =~= chars@);
    loop
        invariant
            start <= chars@.len(),
            chars@ == header@,
            wanted@ == SESSION_COOKIE@,
            first_session_value(split_on(header@, ';')) == first_session_value(
                split_on(chars@.skip(start as int), ';'),
            ),
        decreases chars@.len() - start,
    {
        let end = find_char(chars.as_slice(), start, ';');
        let piece = slice_chars(chars.as_slice(), start, end);
        proof {
            lemma_split_step(chars@, start as int, end as int);
            if end < chars@.len() {
                lemma_first_session_value_concat(
                    seq![piece@],
                    split_on(chars@.skip(end + 1), ';'),
                );
            }
            assert(seq![piece@].drop_first() =~= Seq::<Seq<char>>::empty());
            assert(first_session_value(Seq::<Seq<char>>::empty()) is None);
            assert(seq![piece@][0] == piece@);
        }
        match cookie_pair_of(&piece) {
            Some((name, value)) => {
                if chars_equal(name.as_slice(), wanted.as_slice()) {
                    return Some(value);
                }
            },
            None => {},
        }
        if end == chars.len() {
            return None;
        }
        start = end + 1;
    }
}

/// Read our session cookie out of the `Cookie` headers.
pub fn session_token(headers: &RequestHeaders) -> (token: Option<String>)
    ensures
        match session_token_spec(cookie_texts(*headers)) {
            Some(expected) => token matches Some(found) && found@ == expected,
            None => token is None,
        },
{
    let ghost texts = cookie_texts(*headers);
    let mut i: usize = 0;
    assert(texts.skip(0) =~= texts);
    while i < headers.cookies.len()
        invariant
            i <= headers.cookies@.len(),
            texts == cookie_texts(*headers),
            texts.len() == headers.cookies@.len(),
            first_session_value(cookie_pieces(texts)) == first_session_value(
                cookie_pieces(texts.skip(i as int)),
            ),
        decreases headers.cookies@.len() - i,
    {
        let value = session_value_in(headers.cookies[i].as_str());
        proof {
            let rest = texts.skip(i as int);
            assert(rest[0] == headers.cookies@[i as int]@);
            assert(rest.drop_first() =~= texts.skip(i + 1));
            lemma_first_session_value_concat(split_on(rest[0], ';'), cookie_pieces(rest.drop_first()));
        }
        match value {
            Some(v) => {
                return trimmed_token(&v);
            },
            None => {},
        }
        i = i + 1;
    }
    assert(texts.skip(i as int) =~= Seq::<Seq<char>>::empty());
    None
}

fn trimmed_token(value: &Vec<char>) -> (token: Option<String>)
    ensures
        trim_spec(value@).len() > 0 ==> (token matches Some(found) && found@ == trim_spec(value@)),
        trim_spec(value@).len() == 0 ==> token is None,
{
    let (start, end) = trim_bounds(value);
    if end > start {
        let trimmed = slice_chars(value.as_slice(), start, end);
        Some(string_from_chars(trimmed.as_slice()))
    } else {
        None
    }
}

/// A TLS proxy in front of the service says the browser is on HTTPS.
pub open spec fn behind_https_spec(headers: RequestHeaders) -> bool {
    match headers.forwarded_proto {
        Some(proto) => ascii_lower_spec(proto@) == "https"@,
        None => false,
    }
}

fn behind_https(headers: &RequestHeaders) -> (https: bool)
    ensures
        https == behind_https_spec(*headers),
{
    match &headers.forwarded_proto {
        Some(proto) => {
            let chars = chars_of(proto.as_str());
            let lower = to_ascii_lowercase(chars.as_slice());
            let https = chars_of("https");
            chars_equal(lower.as_slice(), https.as_slice())
        },
        None => false,
    }
}

/// The `Set-Cookie` text that signs a browser in.
pub open spec fn session_cookie_spec(token: Seq<char>, secure: bool) -> Seq<char> {
    SESSION_COOKIE@ + "="@ + token + "; Path=/; HttpOnly; SameSite=Strict; Max-Age="@ + decimal(
        (SESSION_TTL_MS / 1000) as nat,
    ) + if secure {
        "; Secure"@
    } else {
        ""@
    }
}

/// The `Set-Cookie` text that signs a browser in.
///
/// `HttpOnly` keeps the page's own scripts from reading it, and `SameSite=Strict` keeps other sites from
/// sending it, which is what stops a page elsewhere from acting as a signed in user, WebSocket included.
/// `Secure` is added only when a TLS proxy says the browser is on HTTPS, because on plain HTTP the
/// browser would silently drop the cookie and nobody could sign in.
pub fn session_cookie(token: &str, headers: &RequestHeaders) -> (cookie: String)
    ensures
        cookie@ == session_cookie_spec(token@, behind_https_spec(*headers)),
{
    let mut text: Vec<char> = Vec::new();
    let name = chars_of(SESSION_COOKIE);
    extend_chars(&mut text, name.as_slice());
    let equals = chars_of("=");
    extend_chars(&mut text, equals.as_slice());
    let token_chars = chars_of(token);
    extend_chars(&mut text, token_chars.as_slice());
    let attributes = chars_of("; Path=/; HttpOnly; SameSite=Strict; Max-Age=");
    extend_chars(&mut text, attributes.as_slice());
    let max_age = u64_to_decimal((SESSION_TTL_MS / 1000) as u64);
    let max_age_chars = chars_of(max_age.as_str());
    extend_chars(&mut text, max_age_chars.as_slice());
    let secure = if behind_https(headers) {
        "; Secure"
    } else {
        ""
    };
    let secure_chars = chars_of(secure);
    extend_chars(&mut text, secure_chars.as_slice());
    assert(text@ =~= session_cookie_spec(token@, behind_https_spec(*headers)));
    string_from_chars(text.as_slice())
}

pub const CLEARED_SESSION_COOKIE: &'static str =
    "oar_session=; Path=/; HttpOnly; SameSite=Strict; Max-Age=0";

/// The `Set-Cookie` text that signs a browser out.
pub fn clear_session_cookie() -> (cookie: &'static str)
    ensures
        cookie@ == CLEARED_SESSION_COOKIE@,
{
    CLEARED_SESSION_COOKIE
}

/// Where the scheme of an origin ends: the first `://`, or the length when there is none.
pub open spec fn scheme_separator(s: Seq<char>) -> int
    decreases s.len(),
{
    if s.len() < 3 {
        s.len() as int
    } else if s[0] == ':' && s[1] == '/' && s[2] == '/' {
        0
    } else {
        1 + scheme_separator(s.drop_first())
    }
}

/// The host part of an origin: what follows the scheme, without trailing slashes.
pub open spec fn origin_host(origin: Seq<char>) -> Seq<char> {
    let i = scheme_separator(origin);
    trim_end_slashes(
        if i < origin.len() {
            origin.skip(i + 3)
        } else {
            origin
        },
    )
}

pub open spec fn trim_end_slashes(s: Seq<char>) -> Seq<char>
    decreases s.len(),
{
    if s.len() > 0 && s.last() == '/' {
        trim_end_slashes(s.drop_last())
    } else {
        s
    }
}

/// Whether a browser request comes from a page this service served.
pub open spec fn same_origin_spec(headers: RequestHeaders) -> bool {
    match headers.origin {
        None => true,
        Some(origin) => match headers.host {
            None => false,
            Some(host) => ascii_lower_spec(origin_host(origin@)) == ascii_lower_spec(host@),
        },
    }
}

proof fn lemma_scheme_separator_bounds(s: Seq<char>)
    ensures
        0 <= scheme_separator(s) <= s.len(),
        scheme_separator(s) < s.len() ==> scheme_separator(s) + 3 <= s.len(),
    decreases s.len(),
{
    if s.len() >= 3 && !(s[0] == ':' && s[1] == '/' && s[2] == '/') {
        lemma_scheme_separator_bounds(s.drop_first());
    }
}

fn origin_host_of(origin: &str) -> (host: Vec<char>)
    ensures
        host@ == origin_host(origin@),
{
    let chars = chars_of(origin);
    let n = chars.len();
    let mut i: usize = 0;
    proof {
        lemma_scheme_separator_bounds(chars@);
        assert(chars@.skip(0) =~= chars@);
    }
    while n - i >= 3 && !(chars[i] == ':' && chars[i + 1] == '/' && chars[i + 2] == '/')
        invariant
            n == chars@.len(),
            i <= n,
            scheme_separator(chars@) == i + scheme_separator(chars@.skip(i as int)),
        decreases n - i,
    {
        assert(chars@.skip(i as int).drop_first() =~= chars@.skip(i + 1));
        i = i + 1;
    }
    proof {
        let rest = chars@.skip(i as int);
        if n - i < 3 {
            assert(scheme_separator(rest) == rest.len());
        } else {
            assert(rest[0] == chars@[i as int] && rest[1] == chars@[i + 1] && rest[2] == chars@[i + 2]);
        }
    }
    let start = if n - i >= 3 {
        i + 3
    } else {
        0
    };
    let mut end = n;
    proof {
        if n - i >= 3 {
            assert(chars@.skip(i + 3) =~= chars@.subrange(start as int, n as int));
        } else {
            assert(chars@ =~= chars@.subrange(0, n as int));
        }
    }
    while end > start && chars[end - 1] == '/'
        invariant
            start <= end <= n == chars@.len(),
            origin_host(chars@) == trim_end_slashes(chars@.subrange(start as int, end as int)),
        decreases end - start,
    {
        assert(chars@.subrange(start as int, end as int).drop_last() =~= chars@.subrange(
            start as int,
            end - 1,
        ));
        end = end - 1;
    }
    slice_chars(chars.as_slice(), start, end)
}

/// True when a browser request comes from a page this service served.
///
/// Browsers apply no CORS rules to WebSockets, so without this check any website a listener happens to
/// open could connect to the stream from their browser and hear the microphone, with or without
/// accounts. A request with no `Origin` header at all is not from a browser page, so it is allowed; with
/// accounts on it still needs a session like anything else.
pub fn same_origin(headers: &RequestHeaders) -> (same: bool)
    ensures
        same == same_origin_spec(*headers),
{
    let origin = match &headers.origin {
        Some(origin) => origin,
        None => return true,
    };
    let host = match &headers.host {
        Some(host) => host,
        None => return false,
    };
    let origin_host = origin_host_of(origin.as_str());
    let host_chars = chars_of(host.as_str());
    let left = to_ascii_lowercase(origin_host.as_slice());
    let right = to_ascii_lowercase(host_chars.as_slice());
    chars_equal(left.as_slice(), right.as_slice())
}

} // verus!
