//! Deep links of the form `voxelruler://auth?code=...&state=...`, as the
//! system hands them to the launcher.
use vstd::prelude::*;
use crate::text::str_eq;

verus! {

/// The parts of a URL the launcher reads: scheme, host, and query pairs
/// (decoded), in order.
pub struct UrlParts {
    pub scheme: String,
    pub host: Option<String>,
    pub query: Vec<(String, String)>,
}

/// The plain values of URL parts.
pub open spec fn url_parts_view(p: UrlParts) -> (Seq<char>, Option<Seq<char>>, Seq<(Seq<char>, Seq<char>)>) {
    (
        p.scheme@,
        match p.host {
            Some(h) => Some(h@),
            None => None,
        },
        p.query@.map_values(|q: (String, String)| (q.0@, q.1@)),
    )
}

/// Name for what the url crate makes of a text (`Url::parse`, then
/// `scheme`, `host_str` and `query_pairs`); `None` when it is no URL.
pub uninterp spec fn url_parse_result(s: Seq<char>) -> Option<(Seq<char>, Option<Seq<char>>, Seq<(Seq<char>, Seq<char>)>)>;

/// url's `Url::parse`, then its scheme, host and decoded query pairs.
#[verifier::external_body]
pub(crate) fn parse_url(s: &str) -> (r: Option<UrlParts>)
    ensures
        match r {
            Some(p) => url_parse_result(s@) == Some(url_parts_view(p)),
            None => url_parse_result(s@) is None,
        },
{
    match url::Url::parse(s) {
        Ok(u) => Some(
            UrlParts {
                scheme: u.scheme().to_string(),
                host: u.host_str().map(|h| h.to_string()),
                query: u.query_pairs().map(|(k, v)| (k.into_owned(), v.into_owned())).collect(),
            },
        ),
        Err(_) => None,
    }
}

/// The arguments of a sign-in deep link.
#[derive(Debug)]
pub struct AuthArgs {
    pub code: String,
    pub state: Option<String>,
}

/// What a deep link asks for.
#[derive(Debug)]
pub enum DeepLinkAction {
    MicrosoftAuth(AuthArgs),
    Unknown,
}

/// The value of the last query pair named `key`.
pub open spec fn last_value(q: Seq<(Seq<char>, Seq<char>)>, key: Seq<char>) -> Option<Seq<char>>
    decreases q.len(),
{
    if q.len() == 0 {
        None
    } else if q.last().0 == key {
        Some(q.last().1)
    } else {
        last_value(q.drop_last(), key)
    }
}

/// The sign-in code and state a URL carries: the scheme must be
/// `voxelruler`, the host `auth`, and a `code` must be given (the last one
/// given counts, as does the last `state`); otherwise none.
pub open spec fn auth_of(parts: Option<(Seq<char>, Option<Seq<char>>, Seq<(Seq<char>, Seq<char>)>)>) -> Option<(Seq<char>, Option<Seq<char>>)> {
    match parts {
        Some((scheme, host, q)) => if scheme == "voxelruler"@ && host == Some("auth"@) {
            match last_value(q, "code"@) {
                Some(c) => Some((c, last_value(q, "state"@))),
                None => None,
            }
        } else {
            None
        },
        None => None,
    }
}

/// The plain value of an action: the code and state of a sign-in.
pub open spec fn action_view(a: DeepLinkAction) -> Option<(Seq<char>, Option<Seq<char>>)> {
    match a {
        DeepLinkAction::MicrosoftAuth(args) => Some(
            (
                args.code@,
                match args.state {
                    Some(s) => Some(s@),
                    None => None,
                },
            ),
        ),
        DeepLinkAction::Unknown => None,
    }
}

impl DeepLinkAction {
    /// The action of the parts of a URL (none when the text was no URL).
    pub fn from_url_parts(parts: Option<UrlParts>) -> (r: DeepLinkAction)
        ensures
            action_view(r) == auth_of(
                match parts {
                    Some(p) => Some(url_parts_view(p)),
                    None => None,
                },
            ),
    {
        let p = match parts {
            Some(p) => p,
            None => return DeepLinkAction::Unknown,
        };
        let ghost pv = url_parts_view(p);
        if !str_eq(p.scheme.as_str(), "voxelruler") {
            return DeepLinkAction::Unknown;
        }
        let is_auth = match &p.host {
            Some(h) => str_eq(h.as_str(), "auth"),
            None => false,
        };
        if !is_auth {
            return DeepLinkAction::Unknown;
        }
        let ghost q = pv.2;
        let mut code: Option<String> = None;
        let mut state: Option<String> = None;
        let mut i: usize = 0;
        assert(q.take(0) =~= Seq::<(Seq<char>, Seq<char>)>::empty());
        while i < p.query.len()
            invariant
                i <= p.query@.len(),
                q == p.query@.map_values(|x: (String, String)| (x.0@, x.1@)),
                match code {
                    Some(c) => last_value(q.take(i as int), "code"@) == Some(c@),
                    None => last_value(q.take(i as int), "code"@) is None,
                },
                match state {
                    Some(s) => last_value(q.take(i as int), "state"@) == Some(s@),
                    None => last_value(q.take(i as int), "state"@) is None,
                },
            decreases p.query.len() - i,
        {
            proof {
                reveal_strlit("code");
                reveal_strlit("state");
            }
            let ghost t = q.take(i + 1);
            assert(t.drop_last() =~= q.take(i as int));
            assert(t.last() == (p.query@[i as int].0@, p.query@[i as int].1@));
            let (k, v) = (&p.query[i].0, &p.query[i].1);
            if str_eq(k.as_str(), "code") {
                assert("code"@ != "state"@) by {
                    assert("code"@.len() != "state"@.len());
                }
                assert(last_value(t, "state"@) == last_value(q.take(i as int), "state"@));
                code = Some(v.clone());
            } else if str_eq(k.as_str(), "state") {
                state = Some(v.clone());
            }
            i = i + 1;
        }
        assert(q.take(i as int) =~= q);
        match code {
            Some(c) => DeepLinkAction::MicrosoftAuth(AuthArgs { code: c, state }),
            None => DeepLinkAction::Unknown,
        }
    }

    /// What a deep link asks for: a sign-in for `voxelruler://auth?code=...`
    /// (with an optional `state`), anything else unknown.
    pub fn parse_string(url_str: &str) -> (r: DeepLinkAction)
        ensures
            action_view(r) == auth_of(url_parse_result(url_str@)),
    {
        Self::from_url_parts(parse_url(url_str))
    }
}

} // verus!
