use idx_mcp::auth::bearer_token;
use idx_mcp::auth::label_of;
use idx_mcp::auth::latency_ms;
use idx_mcp::auth::read_body;
use idx_mcp::auth::tool_label;
use idx_mcp::auth::unauthorized;
use idx_mcp::auth::usage_event;
use idx_mcp::auth::AuthState;
use idx_mcp::auth::Checked;
use idx_mcp::auth::Principal;
use idx_mcp::auth::Refusal;
use idx_mcp::auth::Step;
use idx_mcp::auth::MAX_BODY;
use idx_mcp::json::Json;
use idx_mcp::oauth::OAuthState;

const CHALLENGE: &str =
    "Bearer resource_metadata=\"https://x/.well-known/oauth-protected-resource\"";

fn guard() -> AuthState {
    AuthState { public_url: "https://x".to_string() }
}

fn refused(s: Step) -> (u16, Option<String>) {
    match s {
        Step::Refuse(r) => {
            let status = r.status();
            match r {
                Refusal::Unauthorized(c) => (status, Some(c)),
                _ => (status, None),
            }
        }
        _ => panic!("expected a refusal"),
    }
}

#[test]
fn bearer_tokens_are_read_from_the_header() {
    assert_eq!(bearer_token("Bearer abc").as_deref(), Some("abc"));
    assert_eq!(bearer_token("bEARER  \tabc \n").as_deref(), Some("abc"));
    assert_eq!(bearer_token("Bearer ").as_deref(), Some(""));
    assert_eq!(bearer_token("Bearer a b").as_deref(), Some("a b"));
    assert_eq!(bearer_token("Bearer"), None);
    assert_eq!(bearer_token("Basic abc"), None);
    assert_eq!(bearer_token(" Bearer abc"), None);
    assert_eq!(bearer_token("Bearer\tabc"), None);
    assert_eq!(bearer_token(""), None);
}

#[test]
fn a_request_without_a_token_is_told_where_to_get_one() {
    assert_eq!(refused(guard().begin(None)), (401, Some(CHALLENGE.to_string())));
    assert_eq!(refused(guard().begin(Some("Basic abc"))), (401, Some(CHALLENGE.to_string())));
    match unauthorized("https://x") {
        Refusal::Unauthorized(c) => assert_eq!(c, CHALLENGE),
        _ => panic!("wrong refusal"),
    }
}

#[test]
fn the_key_is_asked_for_first() {
    match guard().begin(Some("Bearer idx_1")) {
        Step::CheckKey(t) => assert_eq!(t, "idx_1"),
        _ => panic!("wrong step"),
    }
    assert!(matches!(
        guard().key_checked("idx_1", Checked::Answer(Some(7))),
        Step::Pass(Principal::ApiKey(7))
    ));
    match guard().key_checked("idx_1", Checked::Answer(None)) {
        Step::CheckToken(t, audience) => {
            assert_eq!(t, "idx_1");
            assert_eq!(audience, "https://x/mcp");
        }
        _ => panic!("wrong step"),
    }
    assert_eq!(refused(guard().key_checked("idx_1", Checked::Failed)), (500, None));
}

#[test]
fn then_the_token() {
    assert!(matches!(
        guard().token_checked(Checked::Answer(true)),
        Step::Pass(Principal::OAuth)
    ));
    assert_eq!(
        refused(guard().token_checked(Checked::Answer(false))),
        (401, Some(CHALLENGE.to_string()))
    );
    assert_eq!(refused(guard().token_checked(Checked::Failed)), (500, None));
    assert_eq!(Refusal::TooLarge.status(), 413);
    assert_eq!(MAX_BODY, 1 << 20);
}

#[test]
fn requests_are_labelled_by_tool_or_method() {
    for (body, label) in [
        ("{\"method\":\"tools/call\",\"params\":{\"name\":\"get_prices\"}}", "get_prices"),
        ("{\"method\":\"tools/call\",\"params\":{\"name\":1}}", "tools/call"),
        ("{\"method\":\"tools/call\",\"params\":[]}", "tools/call"),
        ("{\"method\":\"tools/call\"}", "tools/call"),
        ("{\"method\":\"initialize\",\"params\":{\"name\":\"x\"}}", "initialize"),
        ("{\"method\":5}", "mcp"),
        ("[]", "mcp"),
        ("", "mcp"),
        ("no json", "mcp"),
        ("{\"method\":\"a\",\"method\":\"b\"}", "b"),
    ] {
        assert_eq!(tool_label(body.as_bytes()), label, "{body}");
    }
    assert_eq!(tool_label(&[0xff, 0xfe]), "mcp");
    let call = Json::Object(vec![("method".to_string(), Json::Text("ping".to_string()))]);
    assert_eq!(label_of(&call), "ping");
    assert_eq!(label_of(&Json::Null), "mcp");
}

#[test]
fn only_keys_leave_a_usage_event() {
    let event = usage_event(Principal::ApiKey(3), "t".to_string(), 12).unwrap();
    assert_eq!(event.key_id, 3);
    assert_eq!(event.tool, "t");
    assert_eq!(event.latency_ms, 12);
    assert!(usage_event(Principal::OAuth, "t".to_string(), 12).is_none());
    assert_eq!(latency_ms(0), 0);
    assert_eq!(latency_ms(i64::MAX as u128), i64::MAX);
    assert_eq!(latency_ms(u128::MAX), i64::MAX);
}

#[test]
fn a_body_that_cannot_be_buffered_is_too_large() {
    assert_eq!(read_body(Some(b"{\"method\":\"ping\"}")).unwrap(), "ping");
    assert_eq!(read_body(Some(b"")).unwrap(), "mcp");
    assert_eq!(read_body(None).unwrap_err().status(), 413);
}

#[test]
fn the_default_audience_is_the_one_asked_for() {
    let issued = OAuthState { public_url: "https://x".to_string() }.resource();
    match guard().key_checked("t", Checked::Answer(None)) {
        Step::CheckToken(_, audience) => assert_eq!(audience, issued),
        _ => panic!("wrong step"),
    }
}
