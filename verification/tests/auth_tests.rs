use voxelruler::deeplink::UrlParts;
use voxelruler::auth::{
    redirect_from_url, csrf_matches, redirect_params, redirect_response, refreshed_token, token_expires_at,
    RedirectError,
};

#[test]
fn redirect_line_gives_code_and_state() {
    let r = redirect_params("GET /redirect?code=M.C5_abc&state=xyz HTTP/1.1\r\n");
    assert_eq!(r, Ok(("M.C5_abc".to_string(), "xyz".to_string())));
    let r = redirect_params("GET /redirect?state=s1&code=c1&code=c2&state=s2 HTTP/1.1");
    assert_eq!(r, Ok(("c1".to_string(), "s1".to_string())));
}

#[test]
fn redirect_errors() {
    assert_eq!(redirect_params("GET"), Err(RedirectError::InvalidRequestLine));
    assert_eq!(redirect_params("GET /redirect?state=s HTTP/1.1"), Err(RedirectError::MissingCode));
    assert_eq!(redirect_params("GET /redirect?code=c HTTP/1.1"), Err(RedirectError::MissingState));
    assert_eq!(RedirectError::MissingCode.message(), "Missing code parameter");
    assert_eq!(RedirectError::InvalidRequestLine.message(), "Invalid HTTP request line");
}

#[test]
fn csrf_and_tokens() {
    assert!(csrf_matches("abc", "abc"));
    assert!(!csrf_matches("abc", "abd"));
    assert_eq!(token_expires_at(86400, 1_700_000_000), 1_700_086_400);
    assert_eq!(refreshed_token(Some("new".into()), "old"), "new");
    assert_eq!(refreshed_token(None, "old"), "old");
}

#[test]
fn redirect_response_counts_bytes() {
    let r = redirect_response("é!");
    assert_eq!(
        r,
        "HTTP/1.1 200 OK\r\nContent-Type: text/html; charset=utf-8\r\nContent-Length: 3\r\n\r\né!"
    );
}

fn parts(query: &[(&str, &str)]) -> UrlParts {
    UrlParts {
        scheme: "http".to_string(),
        host: Some("localhost".to_string()),
        query: query.iter().map(|(k, v)| (k.to_string(), v.to_string())).collect(),
    }
}

#[test]
fn redirect_from_parsed_url() {
    assert_eq!(
        redirect_from_url(Some(parts(&[("state", "s1"), ("code", "c1"), ("code", "c2")]))),
        Ok(("c1".to_string(), "s1".to_string()))
    );
    assert_eq!(redirect_from_url(None), Err(RedirectError::InvalidUrl));
    assert_eq!(redirect_from_url(Some(parts(&[("state", "s")]))), Err(RedirectError::MissingCode));
    assert_eq!(redirect_from_url(Some(parts(&[("code", "c")]))), Err(RedirectError::MissingState));
}
