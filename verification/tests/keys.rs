use idx_mcp::keys::generate_key;
use idx_mcp::keys::hash_key;
use idx_mcp::keys::random_hex;
use idx_mcp::keys::tag_hex;
use idx_mcp::keys::KeyStore;
use idx_mcp::keys::SqlValue;
use idx_mcp::keys::Statement;
use idx_mcp::keys::SCHEMA;

fn database() -> rusqlite::Connection {
    let conn = rusqlite::Connection::open_in_memory().unwrap();
    conn.execute_batch(SCHEMA).unwrap();
    conn
}

fn bound(s: &Statement) -> Vec<rusqlite::types::Value> {
    s.params
        .iter()
        .map(|v| match v {
            SqlValue::Null => rusqlite::types::Value::Null,
            SqlValue::Integer(n) => rusqlite::types::Value::Integer(*n),
            SqlValue::Text(t) => rusqlite::types::Value::Text(t.clone()),
        })
        .collect()
}

fn execute(conn: &rusqlite::Connection, s: &Statement) -> usize {
    conn.execute(s.sql, rusqlite::params_from_iter(bound(s))).unwrap()
}

fn first_text(conn: &rusqlite::Connection, s: &Statement) -> Option<String> {
    let mut stmt = conn.prepare(s.sql).unwrap();
    let mut rows = stmt.query(rusqlite::params_from_iter(bound(s))).unwrap();
    rows.next().unwrap().map(|r| r.get(0).unwrap())
}

fn first_integer(conn: &rusqlite::Connection, s: &Statement) -> Option<i64> {
    let mut stmt = conn.prepare(s.sql).unwrap();
    let mut rows = stmt.query(rusqlite::params_from_iter(bound(s))).unwrap();
    rows.next().unwrap().map(|r| r.get(0).unwrap())
}

fn is_lower_hex(s: &str) -> bool {
    s.chars().all(|c| c.is_ascii_digit() || ('a'..='f').contains(&c))
}

#[test]
fn secrets_are_hashed_with_sha256() {
    assert_eq!(
        hash_key("abc"),
        "ba7816bf8f01cfea414140de5dae2223b00361a396177a9cb410ff61f20015ad"
    );
    assert_eq!(
        hash_key(""),
        "e3b0c44298fc1c149afbf4c8996fb92427ae41e4649b934ca495991b7852b855"
    );
}

#[test]
fn keys_and_codes_are_random_hex() {
    let key = generate_key();
    assert!(key.starts_with("idx_"));
    assert_eq!(key.len(), 52);
    assert!(is_lower_hex(&key[4..]));
    assert_ne!(key, generate_key());
    assert_eq!(random_hex(0), "");
    let code = random_hex(32);
    assert_eq!(code.len(), 64);
    assert!(is_lower_hex(&code));
    assert_ne!(code, random_hex(32));
    assert_eq!(tag_hex("idxc_", &[0, 10, 255]), "idxc_000aff");
}

#[test]
fn an_added_key_verifies_and_only_its_hash_is_stored() {
    let conn = database();
    let issued = KeyStore.add_key("my-agent");
    assert_eq!(execute(&conn, &issued.statement), 1);
    assert_eq!(first_integer(&conn, &KeyStore.verify(&issued.plaintext)), Some(1));
    assert_eq!(first_integer(&conn, &KeyStore.verify("idx_unknown")), None);
    let stored: String = conn
        .query_row("SELECT key_hash || label || plan FROM api_keys", [], |r| r.get(0))
        .unwrap();
    assert_eq!(stored, format!("{}my-agentfree", hash_key(&issued.plaintext)));
    conn.execute("UPDATE api_keys SET active = 0", []).unwrap();
    assert_eq!(first_integer(&conn, &KeyStore.verify(&issued.plaintext)), None);
}

#[test]
fn usage_is_recorded() {
    let conn = database();
    let issued = KeyStore.add_key("x");
    execute(&conn, &issued.statement);
    assert_eq!(execute(&conn, &KeyStore.log_usage(1, "get_prices", 42, -1)), 1);
    let row: (i64, String, i64, i64) = conn
        .query_row("SELECT key_id, tool, latency_ms, rows FROM usage", [], |r| {
            Ok((r.get(0)?, r.get(1)?, r.get(2)?, r.get(3)?))
        })
        .unwrap();
    assert_eq!(row, (1, "get_prices".to_string(), 42, -1));
}

#[test]
fn registered_redirect_uris_read_back() {
    let conn = database();
    let uris = vec!["https://a.example/cb?x=\"1\"".to_string(), "http://localhost:1/\n".to_string()];
    let issued = KeyStore.register_client(&uris);
    assert!(issued.plaintext.starts_with("idxc_"));
    assert_eq!(issued.plaintext.len(), 29);
    execute(&conn, &issued.statement);
    let row = first_text(&conn, &KeyStore.client_redirect_uris(&issued.plaintext));
    assert_eq!(
        row.as_deref(),
        Some("[\"https://a.example/cb?x=\\\"1\\\"\",\"http://localhost:1/\\n\"]")
    );
    assert_eq!(KeyStore.read_redirect_uris(row.as_deref()).unwrap(), Some(uris));
    let missing = first_text(&conn, &KeyStore.client_redirect_uris("idxc_none"));
    assert_eq!(missing, None);
    assert_eq!(KeyStore.read_redirect_uris(None).unwrap(), None);
    assert!(KeyStore.read_redirect_uris(Some("{}")).is_err());
    assert!(KeyStore.read_redirect_uris(Some("[1]")).is_err());
}

fn consume(conn: &rusqlite::Connection, code: &str, uri: &str) -> Option<(String, String, Option<String>)> {
    let s = KeyStore.consume_auth_code(code, uri);
    let mut stmt = conn.prepare(s.sql).unwrap();
    let mut rows = stmt.query(rusqlite::params_from_iter(bound(&s))).unwrap();
    rows.next()
        .unwrap()
        .map(|r| (r.get(0).unwrap(), r.get(1).unwrap(), r.get(2).unwrap()))
}

#[test]
fn an_authorization_code_works_once() {
    let conn = database();
    let issued = KeyStore.create_auth_code("idxc_1", "chal", "https://a/cb", Some("https://r".to_string()));
    execute(&conn, &issued.statement);
    assert_eq!(consume(&conn, &issued.plaintext, "https://other/cb"), None);
    assert_eq!(consume(&conn, "wrong", "https://a/cb"), None);
    assert_eq!(
        consume(&conn, &issued.plaintext, "https://a/cb"),
        Some(("idxc_1".to_string(), "chal".to_string(), Some("https://r".to_string())))
    );
    assert_eq!(consume(&conn, &issued.plaintext, "https://a/cb"), None);
    let plain = KeyStore.create_auth_code("idxc_1", "chal", "https://a/cb", None);
    execute(&conn, &plain.statement);
    assert_eq!(
        consume(&conn, &plain.plaintext, "https://a/cb"),
        Some(("idxc_1".to_string(), "chal".to_string(), None))
    );
}

#[test]
fn an_expired_authorization_code_is_refused() {
    let conn = database();
    let issued = KeyStore.create_auth_code("idxc_1", "chal", "https://a/cb", None);
    execute(&conn, &issued.statement);
    let left: f64 = conn
        .query_row(
            "SELECT (julianday(expires_at) - julianday('now')) * 86400.0 FROM oauth_codes",
            [],
            |r| r.get(0),
        )
        .unwrap();
    assert!(left > 50.0 && left <= 60.0);
    conn.execute("UPDATE oauth_codes SET expires_at = datetime('now', '-1 seconds')", []).unwrap();
    assert_eq!(consume(&conn, &issued.plaintext, "https://a/cb"), None);
}

#[test]
fn a_token_is_good_for_its_audience_until_it_expires() {
    let conn = database();
    let issued = KeyStore.issue_token("idxc_1", "https://x/mcp", "mcp", 60);
    assert!(issued.plaintext.starts_with("idxoat_"));
    assert_eq!(issued.plaintext.len(), 71);
    execute(&conn, &issued.statement);
    assert_eq!(first_integer(&conn, &KeyStore.verify_oauth(&issued.plaintext, "https://x/mcp")), Some(1));
    assert_eq!(first_integer(&conn, &KeyStore.verify_oauth(&issued.plaintext, "https://y/mcp")), None);
    assert_eq!(first_integer(&conn, &KeyStore.verify_oauth("idxoat_x", "https://x/mcp")), None);
    let spent = KeyStore.issue_token("idxc_1", "https://x/mcp", "mcp", 0);
    execute(&conn, &spent.statement);
    assert_eq!(first_integer(&conn, &KeyStore.verify_oauth(&spent.plaintext, "https://x/mcp")), None);
}

#[test]
fn a_token_lifetime_is_written_with_its_sign() {
    for (ttl, text) in [
        (2592000, "+2592000 seconds"),
        (0, "+0 seconds"),
        (-5, "+-5 seconds"),
        (i64::MIN, "+-9223372036854775808 seconds"),
        (i64::MAX, "+9223372036854775807 seconds"),
    ] {
        let issued = KeyStore.issue_token("c", "a", "s", ttl);
        match &issued.statement.params[4] {
            SqlValue::Text(t) => assert_eq!(t, text),
            _ => panic!("no text"),
        }
    }
}

#[test]
fn plaintexts_are_never_bound() {
    let issued = vec![
        KeyStore.add_key("l"),
        KeyStore.create_auth_code("c", "h", "u", None),
        KeyStore.issue_token("c", "a", "s", 1),
    ];
    for i in &issued {
        for v in &i.statement.params {
            if let SqlValue::Text(t) = v {
                assert!(!t.contains(&i.plaintext));
            }
        }
    }
}
