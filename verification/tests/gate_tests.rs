use jwt_redirect_filter::gate::{evaluate, Config, Verdict};

fn req(headers: &[(&str, &str)]) -> Vec<(Vec<u8>, Vec<u8>)> {
    headers
        .iter()
        .map(|(n, v)| (n.as_bytes().to_vec(), v.as_bytes().to_vec()))
        .collect()
}

fn expect_redirect(headers: &[(&str, &str)]) -> String {
    let cfg = Config::standard();
    match evaluate(&cfg, &req(headers)) {
        Verdict::Continue => panic!("expected a short-circuit verdict"),
        Verdict::ShortCircuit { status, location, body } => {
            assert_eq!(status, 302);
            assert_eq!(body, b"Redirecting...".to_vec());
            String::from_utf8(location).unwrap()
        }
    }
}

const IDP_PREFIX: &str = "http://keycloak:8080/realms/myrealm/protocol/openid-connect/auth?client_id=echo-client&response_type=code&scope=openid&redirect_uri=";

#[test]
fn bearer_token_continues() {
    let cfg = Config::standard();
    let headers = req(&[("authorization", "Bearer abc123"), (":path", "/orders")]);
    assert!(matches!(evaluate(&cfg, &headers), Verdict::Continue));
}

#[test]
fn bearer_with_empty_suffix_continues() {
    let cfg = Config::standard();
    let headers = req(&[("authorization", "Bearer "), (":path", "/orders")]);
    assert!(matches!(evaluate(&cfg, &headers), Verdict::Continue));
}

#[test]
fn header_name_case_is_ignored() {
    let cfg = Config::standard();
    let headers = req(&[("AUTHORIZATION", "Bearer abc123"), (":path", "/")]);
    assert!(matches!(evaluate(&cfg, &headers), Verdict::Continue));
}

#[test]
fn missing_authorization_redirects() {
    let location = expect_redirect(&[(":path", "/dashboard?tab=2")]);
    assert_eq!(
        location,
        format!("{}{}", IDP_PREFIX, "http%3A%2F%2Flocalhost%3A8081%2Fdashboard%3Ftab%3D2")
    );
}

#[test]
fn basic_auth_redirects() {
    let location = expect_redirect(&[("authorization", "Basic dXNlcjpwYXNz"), (":path", "/")]);
    assert_eq!(location, format!("{}{}", IDP_PREFIX, "http%3A%2F%2Flocalhost%3A8081%2F"));
}

#[test]
fn lowercase_bearer_redirects() {
    let location = expect_redirect(&[("authorization", "bearer token"), (":path", "/x")]);
    assert_eq!(location, format!("{}{}", IDP_PREFIX, "http%3A%2F%2Flocalhost%3A8081%2Fx"));
}

#[test]
fn empty_authorization_redirects() {
    expect_redirect(&[("authorization", ""), (":path", "/x")]);
}

#[test]
fn missing_path_falls_back_to_root() {
    let location = expect_redirect(&[]);
    assert_eq!(location, format!("{}{}", IDP_PREFIX, "http%3A%2F%2Flocalhost%3A8081%2F"));
}

#[test]
fn empty_path_falls_back_to_root() {
    let location = expect_redirect(&[(":path", "")]);
    assert_eq!(location, format!("{}{}", IDP_PREFIX, "http%3A%2F%2Flocalhost%3A8081%2F"));
}

#[test]
fn first_matching_header_decides() {
    let location = expect_redirect(&[
        ("authorization", "Basic dXNlcjpwYXNz"),
        ("authorization", "Bearer abc123"),
        (":path", "/"),
    ]);
    assert_eq!(location, format!("{}{}", IDP_PREFIX, "http%3A%2F%2Flocalhost%3A8081%2F"));
}

#[test]
fn redirect_uri_decodes_to_callback_and_reencodes_identically() {
    let location = expect_redirect(&[(":path", "/a b&c?d=/e")]);
    let param = location
        .split("redirect_uri=")
        .nth(1)
        .expect("location holds a redirect_uri parameter");
    assert!(!param.contains('&'));
    let decoded = urlencoding::decode(param).unwrap().into_owned();
    assert_eq!(decoded, "http://localhost:8081/a b&c?d=/e");
    let reencoded = urlencoding::encode(&decoded).into_owned();
    assert_eq!(reencoded, param);
}

#[test]
fn exactly_one_redirect_uri_parameter() {
    let location = expect_redirect(&[(":path", "/p")]);
    let query = location.split('?').nth(1).unwrap();
    let matching: Vec<&str> = query
        .split('&')
        .filter(|p| p.starts_with("redirect_uri="))
        .collect();
    assert_eq!(matching.len(), 1);
    assert_eq!(matching[0], "redirect_uri=http%3A%2F%2Flocalhost%3A8081%2Fp");
}

#[test]
fn non_ascii_path_bytes_are_encoded() {
    let cfg = Config::standard();
    let mut headers = req(&[]);
    headers.push((b":path".to_vec(), vec![47, 0xC3, 0xA9]));
    match evaluate(&cfg, &headers) {
        Verdict::Continue => panic!("expected a short-circuit verdict"),
        Verdict::ShortCircuit { location, .. } => {
            let location = String::from_utf8(location).unwrap();
            assert_eq!(
                location,
                format!("{}{}", IDP_PREFIX, "http%3A%2F%2Flocalhost%3A8081%2F%C3%A9")
            );
        }
    }
}
