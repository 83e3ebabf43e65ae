//! Signing in with a Microsoft account: where the sign-in happens, what
//! the browser's redirect back to the launcher carries, the answer the
//! browser gets, and the session kept afterwards.
use vstd::prelude::*;
use vstd::string::StringSliceAdditionalSpecFns;
use crate::deeplink::{parse_url, url_parse_result, url_parts_view, UrlParts};
use crate::text::{chars_of, decimal, decimal_string, push_str_chars, split_words, str_eq, string_of, views, words};

verus! {

/// The launcher's application id at Microsoft.
pub const CLIENT_ID: &'static str = "ebd68e7a-2003-487d-bfa6-14807af049c9";

/// Where the user signs in.
pub const AUTHORIZE_URL: &'static str = "https://login.microsoftonline.com/consumers/oauth2/v2.0/authorize";

/// Where codes and refresh tokens are exchanged for tokens.
pub const TOKEN_URL: &'static str = "https://login.microsoftonline.com/consumers/oauth2/v2.0/token";

/// Where the browser is sent back after signing in.
pub const REDIRECT_URL: &'static str = "http://127.0.0.1:8114/redirect";

/// The address the launcher listens on for that redirect.
pub const REDIRECT_ADDR: &'static str = "127.0.0.1:8114";

/// The permissions asked for.
pub const SCOPE: &'static str = "XboxLive.signin offline_access";

/// Why the redirect could not be read.
#[derive(Debug, Clone, Copy, PartialEq, Eq, Structural)]
pub enum RedirectError {
    /// The request line names no target.
    InvalidRequestLine,
    /// The target does not make a URL.
    InvalidUrl,
    /// No `code` in the query.
    MissingCode,
    /// No `state` in the query.
    MissingState,
}

impl RedirectError {
    /// The message shown for the error.
    pub fn message(&self) -> (r: &'static str)
        ensures
            r@ == match *self {
                RedirectError::InvalidRequestLine => "Invalid HTTP request line"@,
                RedirectError::InvalidUrl => "Invalid redirect URL"@,
                RedirectError::MissingCode => "Missing code parameter"@,
                RedirectError::MissingState => "Missing state parameter"@,
            },
    {
        match self {
            RedirectError::InvalidRequestLine => "Invalid HTTP request line",
            RedirectError::InvalidUrl => "Invalid redirect URL",
            RedirectError::MissingCode => "Missing code parameter",
            RedirectError::MissingState => "Missing state parameter",
        }
    }
}

/// The value of the first query pair named `key`.
pub open spec fn first_value(q: Seq<(Seq<char>, Seq<char>)>, key: Seq<char>) -> Option<Seq<char>>
    decreases q.len(),
{
    if q.len() == 0 {
        None
    } else if q[0].0 == key {
        Some(q[0].1)
    } else {
        first_value(q.drop_first(), key)
    }
}

/// The sign-in's code and state from the parsed redirect address (none
/// when it did not parse): its first `code` and first `state`.
pub open spec fn redirect_from_parts(
    parts: Option<(Seq<char>, Option<Seq<char>>, Seq<(Seq<char>, Seq<char>)>)>,
) -> Result<(Seq<char>, Seq<char>), RedirectError> {
    match parts {
        None => Err(RedirectError::InvalidUrl),
        Some((_, _, q)) => match first_value(q, "code"@) {
            None => Err(RedirectError::MissingCode),
            Some(c) => match first_value(q, "state"@) {
                None => Err(RedirectError::MissingState),
                Some(s) => Ok((c, s)),
            },
        },
    }
}

/// What the first line of the browser's request carries: its target (the
/// second word) read as a path of `http://localhost`, whose first `code`
/// and first `state` are the sign-in's code and state.
pub open spec fn redirect_spec(line: Seq<char>) -> Result<(Seq<char>, Seq<char>), RedirectError> {
    if words(line).len() < 2 {
        Err(RedirectError::InvalidRequestLine)
    } else {
        redirect_from_parts(url_parse_result("http://localhost"@ + words(line)[1]))
    }
}

/// The plain values of optional URL parts.
pub open spec fn opt_url_parts(p: Option<UrlParts>) -> Option<(Seq<char>, Option<Seq<char>>, Seq<(Seq<char>, Seq<char>)>)> {
    match p {
        Some(u) => Some(url_parts_view(u)),
        None => None,
    }
}

/// The value of the first pair named `key`.
fn first_pair_value(q: &Vec<(String, String)>, key: &str) -> (r: Option<String>)
    ensures
        match r {
            Some(v) => first_value(q@.map_values(|p: (String, String)| (p.0@, p.1@)), key@) == Some(v@),
            None => first_value(q@.map_values(|p: (String, String)| (p.0@, p.1@)), key@) is None,
        },
{
    let ghost m = q@.map_values(|p: (String, String)| (p.0@, p.1@));
    let mut i: usize = 0;
    assert(m.skip(0) =~= m);
    while i < q.len()
        invariant
            i <= q@.len(),
            m == q@.map_values(|p: (String, String)| (p.0@, p.1@)),
            first_value(m, key@) == first_value(m.skip(i as int), key@),
        decreases q.len() - i,
    {
        assert(m.skip(i as int)[0] == (q@[i as int].0@, q@[i as int].1@));
        if str_eq(q[i].0.as_str(), key) {
            return Some(q[i].1.clone());
        }
        assert(m.skip(i as int).drop_first() =~= m.skip(i + 1));
        i = i + 1;
    }
    assert(m.skip(i as int).len() == 0);
    None
}

/// The sign-in's code and state from the first line of the browser's
/// request to the redirect address.
pub fn redirect_params(request_line: &str) -> (r: Result<(String, String), RedirectError>)
    ensures
        match r {
            Ok((c, s)) => redirect_spec(request_line@) == Ok::<(Seq<char>, Seq<char>), RedirectError>((c@, s@)),
            Err(e) => redirect_spec(request_line@) == Err::<(Seq<char>, Seq<char>), RedirectError>(e),
        },
{
    proof {
        reveal_strlit("http://localhost");
    }
    let line = chars_of(request_line);
    let ws = split_words(line.as_slice());
    if ws.len() < 2 {
        return Err(RedirectError::InvalidRequestLine);
    }
    assert(views(ws@)[1] == ws@[1]@);
    let mut full = chars_of("http://localhost");
    crate::text::extend_chars(&mut full, ws[1].as_slice());
    let url = string_of(full.as_slice());
    redirect_from_url(parse_url(url.as_str()))
}

/// The sign-in's code and state from the parsed redirect address.
pub fn redirect_from_url(parts: Option<UrlParts>) -> (r: Result<(String, String), RedirectError>)
    ensures
        match r {
            Ok((c, s)) => redirect_from_parts(opt_url_parts(parts)) == Ok::<(Seq<char>, Seq<char>), RedirectError>(
                (c@, s@),
            ),
            Err(e) => redirect_from_parts(opt_url_parts(parts)) == Err::<(Seq<char>, Seq<char>), RedirectError>(e),
        },
{
    proof {
        reveal_strlit("code");
        reveal_strlit("state");
    }
    let parts = match parts {
        Some(p) => p,
        None => return Err(RedirectError::InvalidUrl),
    };
    let code = match first_pair_value(&parts.query, "code") {
        Some(c) => c,
        None => return Err(RedirectError::MissingCode),
    };
    let state = match first_pair_value(&parts.query, "state") {
        Some(s) => s,
        None => return Err(RedirectError::MissingState),
    };
    Ok((code, state))
}

/// Whether the state the browser brought back is the one sent out.
pub fn csrf_matches(received: &str, expected: &str) -> (b: bool)
    ensures
        b == (received@ == expected@),
{
    str_eq(received, expected)
}

/// The answer sent to the browser: a `200 OK` HTML page of the given text,
/// with its length in bytes.
pub fn redirect_response(html: &str) -> (r: String)
    ensures
        r@ == "HTTP/1.1 200 OK\r\nContent-Type: text/html; charset=utf-8\r\nContent-Length: "@ + decimal(
            html.spec_bytes().len(),
        ) + "\r\n\r\n"@ + html@,
{
    let n = html.as_bytes().len();
    let len = decimal_string(n as u64);
    let mut v = chars_of("HTTP/1.1 200 OK\r\nContent-Type: text/html; charset=utf-8\r\nContent-Length: ");
    push_str_chars(&mut v, len.as_str());
    push_str_chars(&mut v, "\r\n\r\n");
    push_str_chars(&mut v, html);
    assert(v@ =~= "HTTP/1.1 200 OK\r\nContent-Type: text/html; charset=utf-8\r\nContent-Length: "@ + decimal(
        html.spec_bytes().len(),
    ) + "\r\n\r\n"@ + html@);
    string_of(v.as_slice())
}

/// When a game token given for `expires_in` seconds at `now` (seconds since
/// the epoch) expires; the seconds are read as a signed number.
pub fn token_expires_at(expires_in: u64, now: i64) -> (r: i64)
    requires
        i64::MIN <= (expires_in as i64) + now <= i64::MAX,
    ensures
        r == (expires_in as i64) + now,
{
    let e = expires_in as i64;
    e + now
}

/// The refresh token kept after a refresh: the new one when Microsoft sent
/// one, else the one used.
pub fn refreshed_token(returned: Option<String>, saved: &str) -> (r: String)
    ensures
        match returned {
            Some(t) => r@ == t@,
            None => r@ == saved@,
        },
{
    match returned {
        Some(t) => t,
        None => String::from_str(saved),
    }
}

} // verus!
