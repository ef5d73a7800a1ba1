use idx_mcp::auth::read_key;
use idx_mcp::auth::read_token;
use idx_mcp::auth::AuthState;
use idx_mcp::auth::Checked;
use idx_mcp::auth::Principal;
use idx_mcp::auth::Step;
use idx_mcp::keys::Fetched;
use idx_mcp::keys::KeyStore;
use idx_mcp::keys::SqlValue;
use idx_mcp::keys::Statement;
use idx_mcp::keys::SCHEMA;
use idx_mcp::oauth::authorize;
use idx_mcp::oauth::authorized;
use idx_mcp::oauth::pkce_s256;
use idx_mcp::oauth::read_claim;
use idx_mcp::oauth::read_lookup;
use idx_mcp::oauth::redeem;
use idx_mcp::oauth::register;
use idx_mcp::oauth::token;
use idx_mcp::oauth::AuthorizeReq;
use idx_mcp::oauth::Claimed;
use idx_mcp::oauth::Lookup;
use idx_mcp::oauth::OAuthState;
use idx_mcp::oauth::RegisterReq;
use idx_mcp::oauth::Reply;
use idx_mcp::oauth::TokenReq;

fn bound(s: &Statement) -> Vec<rusqlite::types::Value> {
    s.params
        .iter()
        .map(|v| match v {
            SqlValue::Null => rusqlite::types::Value::Null,
            SqlValue::Integer(n) => rusqlite::types::Value::Integer(*n),
            SqlValue::Text(t) => rusqlite::types::Value::Text(t.clone()),
        })
        .collect()
}

fn execute(conn: &rusqlite::Connection, s: &Statement) {
    conn.execute(s.sql, rusqlite::params_from_iter(bound(s))).unwrap();
}

fn fetch(conn: &rusqlite::Connection, s: &Statement) -> Fetched {
    let mut stmt = conn.prepare(s.sql).unwrap();
    let columns = stmt.column_count();
    let mut rows = stmt.query(rusqlite::params_from_iter(bound(s))).unwrap();
    match rows.next().unwrap() {
        None => Fetched::NoRow,
        Some(row) => Fetched::Row(
            (0..columns)
                .map(|i| match row.get(i).unwrap() {
                    rusqlite::types::Value::Null => SqlValue::Null,
                    rusqlite::types::Value::Integer(n) => SqlValue::Integer(n),
                    rusqlite::types::Value::Text(t) => SqlValue::Text(t),
                    _ => panic!("no such column"),
                })
                .collect(),
        ),
    }
}

fn consume(conn: &rusqlite::Connection, code: &str, uri: &str) -> Claimed {
    read_claim(&fetch(conn, &KeyStore.consume_auth_code(code, uri)))
}

/// A client registers, gets a code, redeems it once, and passes the guard with the
/// token.
#[test]
fn a_client_goes_all_the_way() {
    let conn = rusqlite::Connection::open_in_memory().unwrap();
    conn.execute_batch(SCHEMA).unwrap();
    let server = OAuthState { public_url: "https://idx.example".to_string() };
    let guard = AuthState { public_url: "https://idx.example".to_string() };
    let uri = "https://client/cb".to_string();
    let verifier = "a-verifier-of-the-client";

    let wish = RegisterReq { redirect_uris: vec![uri.clone()] };
    assert!(register(&wish).is_none());
    let client = KeyStore.register_client(&wish.redirect_uris);
    execute(&conn, &client.statement);

    let known = read_lookup(&fetch(&conn, &KeyStore.client_redirect_uris(&client.plaintext)));
    let stranger = read_lookup(&fetch(&conn, &KeyStore.client_redirect_uris("idxc_none")));
    assert!(matches!(stranger, Lookup::Unknown));
    let req = AuthorizeReq {
        response_type: "code".to_string(),
        client_id: client.plaintext.clone(),
        redirect_uri: uri.clone(),
        state: None,
        code_challenge: Some(pkce_s256(verifier)),
        code_challenge_method: Some("S256".to_string()),
        resource: None,
    };
    let wanted = authorize(&req, &known).unwrap();
    let code = KeyStore.create_auth_code(
        &wanted.client_id,
        &wanted.code_challenge,
        &wanted.redirect_uri,
        wanted.resource,
    );
    execute(&conn, &code.statement);
    match authorized(&req, Some(code.plaintext.clone())) {
        Reply::Redirect(to) => assert_eq!(to, format!("{uri}?code={}", code.plaintext)),
        _ => panic!("no redirect"),
    }

    let claim = token(TokenReq {
        grant_type: "authorization_code".to_string(),
        code: Some(code.plaintext.clone()),
        redirect_uri: Some(uri),
        code_verifier: Some(verifier.to_string()),
    })
    .unwrap();
    let claimed = consume(&conn, &claim.code, &claim.redirect_uri);
    let grant = redeem(&server, &claim.code_verifier, claimed).unwrap();
    assert_eq!(grant.client_id, client.plaintext);
    let access =
        KeyStore.issue_token(&grant.client_id, &grant.audience, &grant.scope, grant.ttl_secs);
    execute(&conn, &access.statement);

    // The code is spent.
    let again = consume(&conn, &claim.code, &claim.redirect_uri);
    assert!(redeem(&server, &claim.code_verifier, again).is_err());

    // The token passes the guard, as a token and not as a key.
    let header = format!("Bearer {}", access.plaintext);
    let step = match guard.begin(Some(&header)) {
        Step::CheckKey(t) => {
            guard.key_checked(&t, read_key(&fetch(&conn, &KeyStore.verify(&t))))
        }
        _ => panic!("wrong step"),
    };
    let step = match step {
        Step::CheckToken(t, audience) => {
            guard.token_checked(read_token(&fetch(&conn, &KeyStore.verify_oauth(&t, &audience))))
        }
        _ => panic!("wrong step"),
    };
    assert!(matches!(step, Step::Pass(Principal::OAuth)));
}

/// A wrong verifier spends the code: the right one comes too late.
#[test]
fn a_failed_check_spends_the_code() {
    let conn = rusqlite::Connection::open_in_memory().unwrap();
    conn.execute_batch(SCHEMA).unwrap();
    let server = OAuthState { public_url: "https://idx.example".to_string() };
    let uri = "https://client/cb";
    let code = KeyStore.create_auth_code("idxc_1", &pkce_s256("right"), uri, None);
    execute(&conn, &code.statement);

    let elsewhere = consume(&conn, &code.plaintext, "https://other/cb");
    assert!(redeem(&server, "right", elsewhere).is_err());
    let first = consume(&conn, &code.plaintext, uri);
    match redeem(&server, "wrong", first) {
        Err(Reply::Json(400, body)) => {
            assert_eq!(
                body.get("error_description").and_then(|d| d.text()).map(|d| d.as_str()),
                Some("PKCE verification failed")
            );
        }
        _ => panic!("expected a refusal"),
    }
    let second = consume(&conn, &code.plaintext, uri);
    assert!(redeem(&server, "right", second).is_err());
}

#[test]
fn every_key_has_an_id_of_its_own_while_it_is_on() {
    let conn = rusqlite::Connection::open_in_memory().unwrap();
    conn.execute_batch(SCHEMA).unwrap();
    let a = KeyStore.add_key("a");
    let b = KeyStore.add_key("b");
    execute(&conn, &a.statement);
    execute(&conn, &b.statement);
    let id = |key: &str| match read_key(&fetch(&conn, &KeyStore.verify(key))) {
        Checked::Answer(id) => id,
        Checked::Failed => panic!("the store failed"),
    };
    let first = id(&a.plaintext).unwrap();
    assert_ne!(Some(first), id(&b.plaintext));
    assert_eq!(id(&a.plaintext), Some(first));
    assert_eq!(id("idx_none"), None);
    conn.execute("UPDATE api_keys SET active = 0 WHERE id = ?1", [first]).unwrap();
    assert_eq!(id(&a.plaintext), None);
    assert!(id(&b.plaintext).is_some());
    conn.execute("UPDATE api_keys SET active = 1 WHERE id = ?1", [first]).unwrap();
    assert_eq!(id(&a.plaintext), Some(first));
}

#[test]
fn a_record_is_stored_once() {
    let conn = rusqlite::Connection::open_in_memory().unwrap();
    conn.execute_batch(SCHEMA).unwrap();
    for issued in [
        KeyStore.add_key("a"),
        KeyStore.register_client(&vec!["https://a/cb".to_string()]),
        KeyStore.create_auth_code("c", "h", "u", None),
        KeyStore.issue_token("c", "a", "mcp", 60),
    ] {
        let s = &issued.statement;
        execute(&conn, s);
        assert!(conn.execute(s.sql, rusqlite::params_from_iter(bound(s))).is_err());
    }
    for ttl in [-5, 400000000000, i64::MAX] {
        let s = KeyStore.issue_token("c", "a", "mcp", ttl).statement;
        assert!(conn.execute(s.sql, rusqlite::params_from_iter(bound(&s))).is_err(), "{ttl}");
    }
}

#[test]
fn answers_of_another_shape_are_failures() {
    let shapes = || {
        vec![
            Fetched::Failed,
            Fetched::Row(Vec::new()),
            Fetched::Row(vec![SqlValue::Null, SqlValue::Null, SqlValue::Null]),
        ]
    };
    for f in shapes() {
        assert!(matches!(read_key(&f), Checked::Failed));
        assert!(matches!(read_token(&f), Checked::Failed));
        assert!(matches!(read_lookup(&f), Lookup::Failed));
        assert!(matches!(read_claim(&f), Claimed::Failed));
    }
    let text = |s: &str| SqlValue::Text(s.to_string());
    let odd = Fetched::Row(vec![text("c"), text("h"), SqlValue::Integer(1)]);
    assert!(matches!(read_claim(&odd), Claimed::Failed));
    assert!(matches!(read_lookup(&Fetched::Row(vec![text("{}")])), Lookup::Failed));
    assert!(matches!(read_key(&Fetched::NoRow), Checked::Answer(None)));
    assert!(matches!(read_token(&Fetched::NoRow), Checked::Answer(false)));
    assert!(matches!(read_claim(&Fetched::NoRow), Claimed::Invalid));
    assert!(matches!(read_token(&Fetched::Row(vec![SqlValue::Integer(1)])), Checked::Answer(true)));
    assert!(matches!(read_key(&Fetched::Row(vec![SqlValue::Integer(7)])), Checked::Answer(Some(7))));
}
