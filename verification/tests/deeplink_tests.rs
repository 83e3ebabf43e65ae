use voxelruler::deeplink::DeepLinkAction;

#[test]
fn test_parse_valid_microsoft_auth() {
    let test_url = "voxelruler://auth?code=M.R3_aaa.123&state=xyz987";
    let action = DeepLinkAction::parse_string(test_url);
    if let DeepLinkAction::MicrosoftAuth(auth_args) = action {
        assert_eq!(auth_args.code, "M.R3_aaa.123");
        assert_eq!(auth_args.state, Some("xyz987".to_string()));
    } else {
        panic!("expected a sign-in action");
    }
}

#[test]
fn test_parse_with_trailing_slash() {
    let test_url = "voxelruler://auth/?code=secret_code";
    let action = DeepLinkAction::parse_string(test_url);
    if let DeepLinkAction::MicrosoftAuth(auth_args) = action {
        assert_eq!(auth_args.code, "secret_code");
    } else {
        panic!("a trailing slash must still parse");
    }
}

#[test]
fn test_invalid_scheme() {
    let test_url = "http://auth?code=123";
    let action = DeepLinkAction::parse_string(test_url);
    assert!(matches!(action, DeepLinkAction::Unknown));
}

#[test]
fn auth_link_without_code_is_unknown() {
    let action = DeepLinkAction::parse_string("voxelruler://auth?state=abc");
    assert!(matches!(action, DeepLinkAction::Unknown));
}

#[test]
fn other_host_is_unknown() {
    let action = DeepLinkAction::parse_string("voxelruler://play?code=abc");
    assert!(matches!(action, DeepLinkAction::Unknown));
}

#[test]
fn not_a_url_is_unknown() {
    let action = DeepLinkAction::parse_string("not a url");
    assert!(matches!(action, DeepLinkAction::Unknown));
}

#[test]
fn query_is_percent_decoded() {
    let action = DeepLinkAction::parse_string("voxelruler://auth?code=a%2Bb");
    if let DeepLinkAction::MicrosoftAuth(auth_args) = action {
        assert_eq!(auth_args.code, "a+b");
        assert_eq!(auth_args.state, None);
    } else {
        panic!("expected a sign-in action");
    }
}
