use idx_mcp::json::Json;
use idx_mcp::keys::AuthCode;
use idx_mcp::oauth::as_metadata;
use idx_mcp::oauth::authorize;
use idx_mcp::oauth::authorized;
use idx_mcp::oauth::grant;
use idx_mcp::oauth::issued;
use idx_mcp::oauth::pkce_s256;
use idx_mcp::oauth::protected_resource;
use idx_mcp::oauth::redeem;
use idx_mcp::oauth::register;
use idx_mcp::oauth::registered;
use idx_mcp::oauth::sep;
use idx_mcp::oauth::token;
use idx_mcp::oauth::urlenc;
use idx_mcp::oauth::valid_redirect;
use idx_mcp::oauth::AuthorizeReq;
use idx_mcp::oauth::Claimed;
use idx_mcp::oauth::Lookup;
use idx_mcp::oauth::OAuthState;
use idx_mcp::oauth::RegisterReq;
use idx_mcp::oauth::Reply;
use idx_mcp::oauth::TokenReq;

const VERIFIER: &str = "dBjftJeZ4CVP-mB92K27uhbUJU1p1r_wW1gFWFOEjXk";
const CHALLENGE: &str = "E9Melhoa2OwvFrEMTJguCHaoeK1t8URWbuGJSstw-cM";

fn some(s: &str) -> Option<String> {
    Some(s.to_string())
}

fn state() -> OAuthState {
    OAuthState { public_url: "https://idx.example".to_string() }
}

/// A JSON value written out, with the members of an object in their order.
fn shown(j: &Json) -> String {
    match j {
        Json::Null => "null".to_string(),
        Json::Bool(b) => b.to_string(),
        Json::Number(n) => n.clone(),
        Json::Text(s) => format!("{s:?}"),
        Json::Array(v) => {
            let items: Vec<String> = v.iter().map(shown).collect();
            format!("[{}]", items.join(","))
        }
        Json::Object(m) => {
            let items: Vec<String> = m.iter().map(|(k, v)| format!("{k:?}:{}", shown(v))).collect();
            format!("{{{}}}", items.join(","))
        }
    }
}

fn body(r: &Reply) -> (u16, String) {
    match r {
        Reply::Json(status, j) => (*status, shown(j)),
        Reply::Text(status, s) => (*status, s.clone()),
        Reply::Redirect(to) => (303, to.clone()),
    }
}

fn request() -> AuthorizeReq {
    AuthorizeReq {
        response_type: "code".to_string(),
        client_id: "idxc_1".to_string(),
        redirect_uri: "https://client/cb".to_string(),
        state: some("a b&c=\u{e9}"),
        code_challenge: some(CHALLENGE),
        code_challenge_method: some("S256"),
        resource: None,
    }
}

fn known() -> Lookup {
    Lookup::Found(vec!["https://other/cb".to_string(), "https://client/cb".to_string()])
}

#[test]
fn discovery_documents() {
    assert_eq!(
        shown(&protected_resource(&state())),
        "{\"resource\":\"https://idx.example/mcp\",\
         \"authorization_servers\":[\"https://idx.example\"],\
         \"scopes_supported\":[\"mcp\"],\"bearer_methods_supported\":[\"header\"]}"
    );
    assert_eq!(
        shown(&as_metadata(&state())),
        "{\"issuer\":\"https://idx.example\",\
         \"authorization_endpoint\":\"https://idx.example/oauth/authorize\",\
         \"token_endpoint\":\"https://idx.example/oauth/token\",\
         \"registration_endpoint\":\"https://idx.example/oauth/register\",\
         \"response_types_supported\":[\"code\"],\
         \"grant_types_supported\":[\"authorization_code\"],\
         \"code_challenge_methods_supported\":[\"S256\"],\
         \"token_endpoint_auth_methods_supported\":[\"none\"],\
         \"scopes_supported\":[\"mcp\"]}"
    );
}

#[test]
fn redirect_uris_are_https_or_local() {
    for good in ["https://x", "https://", "http://localhost:3000/cb", "http://127.0.0.1/"] {
        assert!(valid_redirect(good), "{good}");
    }
    for bad in ["http://x", "HTTPS://x", "", "ftp://localhost", " https://x"] {
        assert!(!valid_redirect(bad), "{bad}");
    }
}

#[test]
fn registration_needs_acceptable_uris() {
    let good = RegisterReq { redirect_uris: vec!["https://a".to_string(), "http://localhost".to_string()] };
    assert!(register(&good).is_none());
    for uris in [vec![], vec!["https://a".to_string(), "http://evil".to_string()]] {
        let refusal = register(&RegisterReq { redirect_uris: uris }).unwrap();
        assert_eq!(
            body(&refusal),
            (
                400,
                "{\"error\":\"invalid_redirect_uri\",\
                 \"error_description\":\"redirect_uris must be https or localhost\"}"
                    .to_string()
            )
        );
    }
    assert_eq!(
        body(&registered(&good, some("idxc_9"))),
        (
            201,
            "{\"client_id\":\"idxc_9\",\"redirect_uris\":[\"https://a\",\"http://localhost\"],\
             \"token_endpoint_auth_method\":\"none\",\"grant_types\":[\"authorization_code\"],\
             \"response_types\":[\"code\"]}"
                .to_string()
        )
    );
    assert_eq!(
        body(&registered(&good, None)),
        (
            500,
            "{\"error\":\"server_error\",\"error_description\":\"could not register client\"}".to_string()
        )
    );
}

#[test]
fn the_client_is_checked_before_its_address_is_trusted() {
    assert_eq!(
        body(&authorize(&request(), &Lookup::Unknown).unwrap_err()),
        (400, "unknown client_id".to_string())
    );
    assert_eq!(
        body(&authorize(&request(), &Lookup::Failed).unwrap_err()),
        (500, "server error".to_string())
    );
    let elsewhere = Lookup::Found(vec!["https://other/cb".to_string()]);
    assert_eq!(
        body(&authorize(&request(), &elsewhere).unwrap_err()),
        (400, "redirect_uri not registered".to_string())
    );
}

#[test]
fn later_errors_go_back_to_the_client() {
    let mut req = request();
    req.response_type = "token".to_string();
    assert_eq!(
        body(&authorize(&req, &known()).unwrap_err()).1,
        "https://client/cb?error=unsupported_response_type&state=a%20b%26c%3D%C3%A9"
    );
    let mut req = request();
    req.code_challenge = None;
    req.state = None;
    assert_eq!(
        body(&authorize(&req, &known()).unwrap_err()).1,
        "https://client/cb?error=invalid_request"
    );
    for method in [None, some("plain"), some("s256")] {
        let mut req = request();
        req.code_challenge_method = method;
        req.redirect_uri = "https://client/cb?x=1".to_string();
        req.state = some("");
        let found = Lookup::Found(vec![req.redirect_uri.clone()]);
        assert_eq!(
            body(&authorize(&req, &found).unwrap_err()).1,
            "https://client/cb?x=1&error=invalid_request&state="
        );
    }
}

#[test]
fn an_accepted_request_gets_its_code() {
    let mut req = request();
    req.resource = some("https://aud");
    let wanted = authorize(&req, &known()).unwrap();
    assert_eq!(wanted.client_id, "idxc_1");
    assert_eq!(wanted.code_challenge, CHALLENGE);
    assert_eq!(wanted.redirect_uri, "https://client/cb");
    assert_eq!(wanted.resource.as_deref(), Some("https://aud"));
    assert_eq!(
        body(&authorized(&req, some("c0de"))).1,
        "https://client/cb?code=c0de&state=a%20b%26c%3D%C3%A9"
    );
    assert_eq!(
        body(&authorized(&req, None)).1,
        "https://client/cb?error=server_error&state=a%20b%26c%3D%C3%A9"
    );
}

fn token_request() -> TokenReq {
    TokenReq {
        grant_type: "authorization_code".to_string(),
        code: some("c0de"),
        redirect_uri: some("https://client/cb"),
        code_verifier: some(VERIFIER),
    }
}

#[test]
fn a_token_request_must_be_complete() {
    let claim = token(token_request()).unwrap();
    assert_eq!(claim.code, "c0de");
    assert_eq!(claim.redirect_uri, "https://client/cb");
    assert_eq!(claim.code_verifier, VERIFIER);
    let mut req = token_request();
    req.grant_type = "refresh_token".to_string();
    req.code = None;
    assert_eq!(
        body(&token(req).unwrap_err()),
        (
            400,
            "{\"error\":\"unsupported_grant_type\",\
             \"error_description\":\"only authorization_code is supported\"}"
                .to_string()
        )
    );
    for missing in 0..3 {
        let mut req = token_request();
        match missing {
            0 => req.code = None,
            1 => req.redirect_uri = None,
            _ => req.code_verifier = None,
        }
        assert_eq!(
            body(&token(req).unwrap_err()),
            (
                400,
                "{\"error\":\"invalid_request\",\
                 \"error_description\":\"missing code / redirect_uri / code_verifier\"}"
                    .to_string()
            )
        );
    }
}

fn code(resource: Option<String>) -> Claimed {
    Claimed::Code(AuthCode {
        client_id: "idxc_1".to_string(),
        code_challenge: CHALLENGE.to_string(),
        resource,
    })
}

#[test]
fn the_verifier_must_answer_the_challenge() {
    assert_eq!(pkce_s256(VERIFIER), CHALLENGE);
    let g = redeem(&state(), VERIFIER, code(None)).unwrap();
    assert_eq!(g.client_id, "idxc_1");
    assert_eq!(g.audience, "https://idx.example/mcp");
    assert_eq!(g.scope, "mcp");
    assert_eq!(g.ttl_secs, 2_592_000);
    let bound = redeem(&state(), VERIFIER, code(some("https://aud"))).unwrap();
    assert_eq!(bound.audience, "https://aud");
    assert_eq!(
        body(&redeem(&state(), "guess", code(None)).unwrap_err()),
        (
            400,
            "{\"error\":\"invalid_grant\",\"error_description\":\"PKCE verification failed\"}".to_string()
        )
    );
    assert!(grant(&state(), CHALLENGE, code(None)).is_ok());
    assert!(grant(&state(), VERIFIER, code(None)).is_err());
}

#[test]
fn a_bad_code_gets_no_token() {
    assert_eq!(
        body(&redeem(&state(), VERIFIER, Claimed::Invalid).unwrap_err()),
        (
            400,
            "{\"error\":\"invalid_grant\",\
             \"error_description\":\"code invalid, expired, or already used\"}"
                .to_string()
        )
    );
    let failed = (
        500,
        "{\"error\":\"server_error\",\"error_description\":\"token failed\"}".to_string(),
    );
    assert_eq!(body(&redeem(&state(), VERIFIER, Claimed::Failed).unwrap_err()), failed);
    assert_eq!(body(&issued(None)), failed);
    assert_eq!(
        body(&issued(some("idxoat_1"))),
        (
            200,
            "{\"access_token\":\"idxoat_1\",\"token_type\":\"Bearer\",\"expires_in\":2592000,\
             \"scope\":\"mcp\"}"
                .to_string()
        )
    );
}

#[test]
fn query_values_are_percent_encoded() {
    assert_eq!(urlenc("AZaz09-_.~"), "AZaz09-_.~");
    assert_eq!(urlenc(""), "");
    assert_eq!(urlenc("a+b/c?d#e"), "a%2Bb%2Fc%3Fd%23e");
    assert_eq!(urlenc("\u{0}\u{7f}\u{20ac}"), "%00%7F%E2%82%AC");
    assert_eq!(sep("https://x"), '?');
    assert_eq!(sep("https://x?y"), '&');
}
