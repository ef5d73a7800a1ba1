//! The key store: which statements keep API keys, usage and the authorization
//! server's records, and what is bound to them.
//!
//! Keys, codes and tokens are stored only as SHA-256 hashes. The plaintext is
//! shown once, when it is issued, and never bound to a statement.

use vstd::prelude::*;
use vstd::string::*;
use vstd::utf8::*;

use crate::text::decimal;
use crate::text::hex;
use crate::text::hex_text;
use crate::text::lemma_hex_injective;
use crate::text::opt_text;
use crate::text::push_signed;
use crate::text::signed_decimal;
use crate::text::starts;
use crate::text::texts;

verus! {

/// The tables of the store.
pub const SCHEMA: &'static str = "
CREATE TABLE IF NOT EXISTS api_keys (
  id         INTEGER PRIMARY KEY,
  key_hash   TEXT UNIQUE NOT NULL,
  label      TEXT,
  plan       TEXT NOT NULL DEFAULT 'free',
  active     INTEGER NOT NULL DEFAULT 1,
  created_at TEXT NOT NULL
);
CREATE TABLE IF NOT EXISTS usage (
  id         INTEGER PRIMARY KEY,
  key_id     INTEGER NOT NULL REFERENCES api_keys(id),
  tool       TEXT NOT NULL,
  ts         TEXT NOT NULL,
  latency_ms INTEGER,
  rows       INTEGER
);
CREATE TABLE IF NOT EXISTS oauth_clients (
  client_id     TEXT PRIMARY KEY,
  redirect_uris TEXT NOT NULL,   -- JSON array
  created_at    TEXT NOT NULL
);
CREATE TABLE IF NOT EXISTS oauth_codes (
  code_hash      TEXT PRIMARY KEY,
  client_id      TEXT NOT NULL,
  code_challenge TEXT NOT NULL,  -- PKCE S256, base64url-nopad
  redirect_uri   TEXT NOT NULL,
  resource       TEXT,           -- requested audience (RFC 8707)
  expires_at     TEXT NOT NULL,
  used           INTEGER NOT NULL DEFAULT 0
);
CREATE TABLE IF NOT EXISTS oauth_tokens (
  token_hash TEXT PRIMARY KEY,
  client_id  TEXT,
  audience   TEXT NOT NULL,
  scope      TEXT,
  expires_at TEXT NOT NULL
);
";

/// Stores a key.
pub const ADD_KEY_SQL: &'static str =
    "INSERT INTO api_keys (key_hash, label, created_at) VALUES (?1, ?2, datetime('now'))";

/// Looks up an active key.
pub const VERIFY_SQL: &'static str = "SELECT id FROM api_keys WHERE key_hash = ?1 AND active = 1";

/// Records one use of a key.
pub const LOG_USAGE_SQL: &'static str =
    "INSERT INTO usage (key_id, tool, ts, latency_ms, rows) VALUES (?1, ?2, datetime('now'), ?3, ?4)";

/// Stores a client.
pub const REGISTER_CLIENT_SQL: &'static str =
    "INSERT INTO oauth_clients (client_id, redirect_uris, created_at) VALUES (?1, ?2, datetime('now'))";

/// Looks up the redirect URIs of a client.
pub const CLIENT_URIS_SQL: &'static str =
    "SELECT redirect_uris FROM oauth_clients WHERE client_id = ?1";

/// Stores an authorization code with a minute to live.
pub const CREATE_CODE_SQL: &'static str =
    "INSERT INTO oauth_codes (code_hash, client_id, code_challenge, redirect_uri, resource, expires_at, used)
             VALUES (?1, ?2, ?3, ?4, ?5, datetime('now', '+60 seconds'), 0)";

/// Consumes an unused, unexpired authorization code and marks it used in the
/// same statement.
pub const CONSUME_CODE_SQL: &'static str =
    "UPDATE oauth_codes SET used = 1
             WHERE code_hash = ?1 AND used = 0 AND redirect_uri = ?2 AND expires_at > datetime('now')
             RETURNING client_id, code_challenge, resource";

/// Stores an access token.
pub const ISSUE_TOKEN_SQL: &'static str =
    "INSERT INTO oauth_tokens (token_hash, client_id, audience, scope, expires_at)
             VALUES (?1, ?2, ?3, ?4, datetime('now', ?5))";

/// Looks up an unexpired access token for one audience.
pub const VERIFY_OAUTH_SQL: &'static str =
    "SELECT 1 FROM oauth_tokens WHERE token_hash = ?1 AND audience = ?2 AND expires_at > datetime('now')";

/// A value to bind.
#[derive(Debug)]
pub enum SqlValue {
    Null,
    Integer(i64),
    Text(String),
}

/// The mathematical value of a [`SqlValue`].
pub enum SqlValueView {
    Null,
    Integer(int),
    Text(Seq<char>),
}

impl SqlValue {
    /// The mathematical value.
    pub open spec fn view(&self) -> SqlValueView {
        match self {
            SqlValue::Null => SqlValueView::Null,
            SqlValue::Integer(n) => SqlValueView::Integer(*n as int),
            SqlValue::Text(s) => SqlValueView::Text(s@),
        }
    }
}

/// A statement with the values to bind to `?1`, `?2` and so on.
#[derive(Debug)]
pub struct Statement {
    pub sql: &'static str,
    pub params: Vec<SqlValue>,
}

/// The mathematical value of a [`Statement`].
pub struct StatementView {
    pub sql: Seq<char>,
    pub params: Seq<SqlValueView>,
}

impl Statement {
    /// The mathematical value.
    pub open spec fn view(&self) -> StatementView {
        StatementView { sql: self.sql@, params: self.params@.map_values(|v: SqlValue| v@) }
    }
}

/// What the store answered to a statement: its first row, if it gave one.
#[derive(Debug)]
pub enum Fetched {
    Row(Vec<SqlValue>),
    NoRow,
    Failed,
}

/// The mathematical value of a [`Fetched`].
pub enum Answer {
    Row(Seq<SqlValueView>),
    NoRow,
    Failed,
}

impl Fetched {
    /// The mathematical value.
    pub open spec fn view(&self) -> Answer {
        match self {
            Fetched::Row(values) => Answer::Row(values@.map_values(|v: SqlValue| v@)),
            Fetched::NoRow => Answer::NoRow,
            Fetched::Failed => Answer::Failed,
        }
    }
}

/// Something issued: the plaintext to hand out, and the statement that stores
/// its record.
pub struct Issued {
    pub plaintext: String,
    pub statement: Statement,
}

/// A consumed authorization code's bound data.
#[derive(Debug)]
pub struct AuthCode {
    pub client_id: String,
    pub code_challenge: String,
    pub resource: Option<String>,
}

// ---- hashes and random texts ----

/// The SHA-256 digest of some bytes.
pub uninterp spec fn sha256_digest(data: Seq<u8>) -> Seq<u8>;

/// `sha2::Sha256::digest`: the SHA-256 digest of `data`, 32 bytes long.
#[verifier::external_body]
pub(crate) fn sha256(data: &[u8]) -> (r: Vec<u8>)
    ensures
        r@ == sha256_digest(data@),
        r@.len() == 32,
{
    <sha2::Sha256 as sha2::Digest>::digest(data).to_vec()
}

/// The hash under which a secret is stored: its digest in lower-case hex.
pub open spec fn hash_of(secret: Seq<char>) -> Seq<char> {
    hex(sha256_digest(encode_utf8(secret)))
}

/// The hash under which a secret is stored.
pub fn hash_key(key: &str) -> (r: String)
    ensures
        r@ == hash_of(key@),
        r@.len() == 64,
{
    let digest = sha256(key.as_bytes());
    hex_text(digest.as_slice())
}

/// `rand::random`: one byte from the thread's random generator, which may be any.
#[verifier::external_body]
fn random_byte() -> (r: u8) {
    rand::random::<u8>()
}

fn random_bytes(n: usize) -> (r: Vec<u8>)
    ensures
        r@.len() == n,
{
    let mut r: Vec<u8> = Vec::new();
    let mut i: usize = 0;
    while i < n
        invariant
            i <= n,
            r@.len() == i,
        decreases n - i,
    {
        r.push(random_byte());
        i = i + 1;
    }
    r
}

/// True if `s` is `prefix` followed by `n` bytes in lower-case hex.
pub open spec fn tagged_hex(s: Seq<char>, prefix: Seq<char>, n: nat) -> bool {
    exists|bytes: Seq<u8>| bytes.len() == n && s == prefix + #[trigger] hex(bytes)
}

/// True if `s` can be an API key.
pub open spec fn is_key(s: Seq<char>) -> bool {
    tagged_hex(s, "idx_"@, 24)
}

/// True if `s` can be the id of a client.
pub open spec fn is_client_id(s: Seq<char>) -> bool {
    tagged_hex(s, "idxc_"@, 12)
}

/// True if `s` can be an authorization code.
pub open spec fn is_code(s: Seq<char>) -> bool {
    tagged_hex(s, Seq::empty(), 32)
}

/// True if `s` can be an access token.
pub open spec fn is_token(s: Seq<char>) -> bool {
    tagged_hex(s, "idxoat_"@, 32)
}

/// `prefix` followed by some bytes in lower-case hex.
pub fn tag_hex(prefix: &str, bytes: &[u8]) -> (r: String)
    ensures
        r@ == prefix@ + hex(bytes@),
        r@.len() == prefix@.len() + 2 * bytes@.len(),
{
    let mut s = prefix.to_string();
    s.append(hex_text(bytes).as_str());
    s
}

/// A new API key: `idx_` and 24 random bytes.
pub fn generate_key() -> (r: String)
    ensures
        is_key(r@),
{
    let bytes = random_bytes(24);
    tag_hex("idx_", bytes.as_slice())
}

/// `n` random bytes as lowercase hex (for opaque client ids, codes, tokens).
pub fn random_hex(n: usize) -> (r: String)
    ensures
        tagged_hex(r@, Seq::empty(), n as nat),
{
    let bytes = random_bytes(n);
    let r = hex_text(bytes.as_slice());
    assert(r@ =~= Seq::empty() + hex(bytes@));
    r
}

/// Only the digest decides whether two secrets share a record: equal hashes mean
/// equal digests.
pub proof fn law_hash_shows_the_whole_digest(a: Seq<char>, b: Seq<char>)
    requires
        hash_of(a) == hash_of(b),
    ensures
        sha256_digest(encode_utf8(a)) == sha256_digest(encode_utf8(b)),
{
    lemma_hex_injective(sha256_digest(encode_utf8(a)), sha256_digest(encode_utf8(b)));
}

// ---- lists of redirect URIs ----

/// The JSON array that lists some texts.
pub uninterp spec fn json_list(items: Seq<Seq<char>>) -> Seq<char>;

/// The texts that a JSON array of strings lists; `None` if it is not one.
pub uninterp spec fn listed_texts(json: Seq<char>) -> Option<Seq<Seq<char>>>;

/// `serde_json::to_string` on a list of strings. It does not fail, and the array
/// that it writes reads back as the same list.
#[verifier::external_body]
fn encode_list(items: &Vec<String>) -> (r: Result<String, serde_json::Error>)
    ensures
        r is Ok,
        r->Ok_0@ == json_list(texts(items@)),
        listed_texts(r->Ok_0@) == Some(texts(items@)),
{
    serde_json::to_string(items)
}

/// `serde_json::from_str` into a list of strings.
#[verifier::external_body]
fn decode_list(json: &str) -> (r: Result<Vec<String>, serde_json::Error>)
    ensures
        match r {
            Ok(v) => listed_texts(json@) == Some(texts(v@)),
            Err(_) => listed_texts(json@) is None,
        },
{
    serde_json::from_str(json)
}

/// Why a stored list of redirect URIs cannot be used.
#[derive(Debug)]
pub struct BadUris;

// ---- what the statements bind ----

/// Stores a key under its hash.
pub open spec fn key_record(secret: Seq<char>, label: Seq<char>) -> StatementView {
    StatementView {
        sql: ADD_KEY_SQL@,
        params: seq![SqlValueView::Text(hash_of(secret)), SqlValueView::Text(label)],
    }
}

/// Looks a key up by its hash.
pub open spec fn key_query(secret: Seq<char>) -> StatementView {
    StatementView { sql: VERIFY_SQL@, params: seq![SqlValueView::Text(hash_of(secret))] }
}

/// Records one use of a key.
pub open spec fn usage_record(
    key_id: int,
    tool: Seq<char>,
    latency_ms: int,
    rows: int,
) -> StatementView {
    StatementView {
        sql: LOG_USAGE_SQL@,
        params: seq![
            SqlValueView::Integer(key_id),
            SqlValueView::Text(tool),
            SqlValueView::Integer(latency_ms),
            SqlValueView::Integer(rows),
        ],
    }
}

/// Stores a client with its redirect URIs.
pub open spec fn client_record(client_id: Seq<char>, uris: Seq<Seq<char>>) -> StatementView {
    StatementView {
        sql: REGISTER_CLIENT_SQL@,
        params: seq![SqlValueView::Text(client_id), SqlValueView::Text(json_list(uris))],
    }
}

/// Looks a client up.
pub open spec fn client_query(client_id: Seq<char>) -> StatementView {
    StatementView { sql: CLIENT_URIS_SQL@, params: seq![SqlValueView::Text(client_id)] }
}

/// Stores an authorization code under its hash, with what it is bound to.
pub open spec fn code_record(
    secret: Seq<char>,
    client_id: Seq<char>,
    challenge: Seq<char>,
    redirect_uri: Seq<char>,
    resource: Option<Seq<char>>,
) -> StatementView {
    StatementView {
        sql: CREATE_CODE_SQL@,
        params: seq![
            SqlValueView::Text(hash_of(secret)),
            SqlValueView::Text(client_id),
            SqlValueView::Text(challenge),
            SqlValueView::Text(redirect_uri),
            opt_value(resource),
        ],
    }
}

/// Consumes an authorization code by its hash and its redirect URI.
pub open spec fn code_claim(secret: Seq<char>, redirect_uri: Seq<char>) -> StatementView {
    StatementView {
        sql: CONSUME_CODE_SQL@,
        params: seq![SqlValueView::Text(hash_of(secret)), SqlValueView::Text(redirect_uri)],
    }
}

/// Stores an access token under its hash, with its audience and lifetime.
pub open spec fn token_record(
    secret: Seq<char>,
    client_id: Seq<char>,
    audience: Seq<char>,
    scope: Seq<char>,
    ttl_secs: int,
) -> StatementView {
    StatementView {
        sql: ISSUE_TOKEN_SQL@,
        params: seq![
            SqlValueView::Text(hash_of(secret)),
            SqlValueView::Text(client_id),
            SqlValueView::Text(audience),
            SqlValueView::Text(scope),
            SqlValueView::Text("+"@ + signed_decimal(ttl_secs) + " seconds"@),
        ],
    }
}

/// Looks an access token up by its hash and its audience.
pub open spec fn token_query(secret: Seq<char>, audience: Seq<char>) -> StatementView {
    StatementView {
        sql: VERIFY_OAUTH_SQL@,
        params: seq![SqlValueView::Text(hash_of(secret)), SqlValueView::Text(audience)],
    }
}

/// What is issued is looked up by the values that it was stored under: a key and a
/// client by the first, a code by its hash and redirect URI, a token by its hash and
/// audience.
pub proof fn law_records_are_looked_up_as_they_were_stored(
    secret: Seq<char>,
    client_id: Seq<char>,
    text: Seq<char>,
    uris: Seq<Seq<char>>,
    bound_to: Seq<char>,
    resource: Option<Seq<char>>,
    ttl_secs: int,
)
    ensures
        key_record(secret, text).params[0] == key_query(secret).params[0],
        client_record(client_id, uris).params[0] == client_query(client_id).params[0],
        ({
            let stored = code_record(secret, client_id, text, bound_to, resource).params;
            let asked = code_claim(secret, bound_to).params;
            stored[0] == asked[0] && stored[3] == asked[1]
        }),
        ({
            let stored = token_record(secret, client_id, bound_to, text, ttl_secs).params;
            let asked = token_query(secret, bound_to).params;
            stored[0] == asked[0] && stored[2] == asked[1]
        }),
{
}

// ---- statements ----

/// The API-key, usage and authorization records. A method gives the statement
/// to run, with the values to bind.
#[derive(Debug)]
pub struct KeyStore;

fn bind_text(s: &str) -> (r: SqlValue)
    ensures
        r@ == SqlValueView::Text(s@),
{
    SqlValue::Text(s.to_string())
}

/// The view of an optional text as a bound value.
pub open spec fn opt_value(o: Option<Seq<char>>) -> SqlValueView {
    match o {
        Some(s) => SqlValueView::Text(s),
        None => SqlValueView::Null,
    }
}

fn statement(sql: &'static str, params: Vec<SqlValue>) -> (r: Statement)
    ensures
        r@ == (StatementView { sql: sql@, params: params@.map_values(|v: SqlValue| v@) }),
{
    Statement { sql, params }
}

impl KeyStore {
    /// Generates a new key and the statement that stores its hash; the plaintext
    /// is shown once.
    pub fn add_key(&self, label: &str) -> (r: Issued)
        ensures
            is_key(r.plaintext@),
            r.statement@ == key_record(r.plaintext@, label@),
    {
        let plaintext = generate_key();
        let mut params: Vec<SqlValue> = Vec::new();
        params.push(SqlValue::Text(hash_key(plaintext.as_str())));
        params.push(bind_text(label));
        assert(params@.map_values(|v: SqlValue| v@) =~= seq![
            SqlValueView::Text(hash_of(plaintext@)),
            SqlValueView::Text(label@),
        ]);
        Issued { plaintext, statement: statement(ADD_KEY_SQL, params) }
    }

    /// Finds the id of the active key with this plaintext.
    pub fn verify(&self, plaintext: &str) -> (r: Statement)
        ensures
            r@ == key_query(plaintext@),
    {
        let mut params: Vec<SqlValue> = Vec::new();
        params.push(SqlValue::Text(hash_key(plaintext)));
        assert(params@.map_values(|v: SqlValue| v@) =~= seq![
            SqlValueView::Text(hash_of(plaintext@)),
        ]);
        statement(VERIFY_SQL, params)
    }

    /// Records one use of a key.
    pub fn log_usage(&self, key_id: i64, tool: &str, latency_ms: i64, rows: i64) -> (r: Statement)
        ensures
            r@ == usage_record(key_id as int, tool@, latency_ms as int, rows as int),
    {
        let mut params: Vec<SqlValue> = Vec::new();
        params.push(SqlValue::Integer(key_id));
        params.push(bind_text(tool));
        params.push(SqlValue::Integer(latency_ms));
        params.push(SqlValue::Integer(rows));
        assert(params@.map_values(|v: SqlValue| v@) =~= seq![
            SqlValueView::Integer(key_id as int),
            SqlValueView::Text(tool@),
            SqlValueView::Integer(latency_ms as int),
            SqlValueView::Integer(rows as int),
        ]);
        statement(LOG_USAGE_SQL, params)
    }

    // ---- OAuth authorization-server store (opaque, SHA-256-hashed) ----

    /// Registers a public OAuth client; the plaintext is the new `client_id`. The
    /// stored array reads back as the list that was registered.
    pub fn register_client(&self, redirect_uris: &Vec<String>) -> (r: Issued)
        ensures
            is_client_id(r.plaintext@),
            r.statement@ == client_record(r.plaintext@, texts(redirect_uris@)),
            listed_texts(json_list(texts(redirect_uris@))) == Some(texts(redirect_uris@)),
    {
        let bytes = random_bytes(12);
        let client_id = tag_hex("idxc_", bytes.as_slice());
        let mut params: Vec<SqlValue> = Vec::new();
        params.push(bind_text(client_id.as_str()));
        match encode_list(redirect_uris) {
            Ok(json) => {
                params.push(SqlValue::Text(json));
            },
            Err(_) => {},
        }
        assert(params@.map_values(|v: SqlValue| v@) =~= seq![
            SqlValueView::Text(client_id@),
            SqlValueView::Text(json_list(texts(redirect_uris@))),
        ]);
        Issued { plaintext: client_id, statement: statement(REGISTER_CLIENT_SQL, params) }
    }

    /// Finds the registered redirect URIs of a client.
    pub fn client_redirect_uris(&self, client_id: &str) -> (r: Statement)
        ensures
            r@ == client_query(client_id@),
    {
        let mut params: Vec<SqlValue> = Vec::new();
        params.push(bind_text(client_id));
        assert(params@.map_values(|v: SqlValue| v@) =~= seq![SqlValueView::Text(client_id@)]);
        statement(CLIENT_URIS_SQL, params)
    }

    /// Reads the redirect URIs out of the row that was found, if there is one.
    pub fn read_redirect_uris(&self, row: Option<&str>) -> (r: Result<Option<Vec<String>>, BadUris>)
        ensures
            match row {
                None => r == Ok::<Option<Vec<String>>, BadUris>(None),
                Some(s) => match r {
                    Ok(Some(v)) => listed_texts(s@) == Some(texts(v@)),
                    Ok(None) => false,
                    Err(_) => listed_texts(s@) is None,
                },
            },
    {
        match row {
            None => Ok(None),
            Some(s) => match decode_list(s) {
                Ok(v) => Ok(Some(v)),
                Err(_) => Err(BadUris),
            },
        }
    }

    /// Issues a single-use authorization code (60s TTL).
    pub fn create_auth_code(
        &self,
        client_id: &str,
        code_challenge: &str,
        redirect_uri: &str,
        resource: Option<String>,
    ) -> (r: Issued)
        ensures
            is_code(r.plaintext@),
            r.statement@ == code_record(
                r.plaintext@,
                client_id@,
                code_challenge@,
                redirect_uri@,
                opt_text(resource),
            ),
    {
        let ghost wanted = opt_text(resource);
        let code = random_hex(32);
        let mut params: Vec<SqlValue> = Vec::new();
        params.push(SqlValue::Text(hash_key(code.as_str())));
        params.push(bind_text(client_id));
        params.push(bind_text(code_challenge));
        params.push(bind_text(redirect_uri));
        params.push(
            match resource {
                Some(s) => SqlValue::Text(s),
                None => SqlValue::Null,
            },
        );
        assert(params@.map_values(|v: SqlValue| v@) =~= seq![
            SqlValueView::Text(hash_of(code@)),
            SqlValueView::Text(client_id@),
            SqlValueView::Text(code_challenge@),
            SqlValueView::Text(redirect_uri@),
            opt_value(wanted),
        ]);
        Issued { plaintext: code, statement: statement(CREATE_CODE_SQL, params) }
    }

    /// Consumes a valid, unused, unexpired code matching `redirect_uri`.
    pub fn consume_auth_code(&self, code: &str, redirect_uri: &str) -> (r: Statement)
        ensures
            r@ == code_claim(code@, redirect_uri@),
    {
        let mut params: Vec<SqlValue> = Vec::new();
        params.push(SqlValue::Text(hash_key(code)));
        params.push(bind_text(redirect_uri));
        assert(params@.map_values(|v: SqlValue| v@) =~= seq![
            SqlValueView::Text(hash_of(code@)),
            SqlValueView::Text(redirect_uri@),
        ]);
        statement(CONSUME_CODE_SQL, params)
    }

    /// Issues an opaque access token bound to `audience`.
    pub fn issue_token(&self, client_id: &str, audience: &str, scope: &str, ttl_secs: i64) -> (r:
        Issued)
        ensures
            is_token(r.plaintext@),
            r.statement@ == token_record(
                r.plaintext@,
                client_id@,
                audience@,
                scope@,
                ttl_secs as int,
            ),
    {
        let bytes = random_bytes(32);
        let token = tag_hex("idxoat_", bytes.as_slice());
        let mut lifetime = "+".to_string();
        push_signed(&mut lifetime, ttl_secs);
        lifetime.append(" seconds");
        let ghost life = lifetime@;
        let mut params: Vec<SqlValue> = Vec::new();
        params.push(SqlValue::Text(hash_key(token.as_str())));
        params.push(bind_text(client_id));
        params.push(bind_text(audience));
        params.push(bind_text(scope));
        params.push(SqlValue::Text(lifetime));
        assert(params@.map_values(|v: SqlValue| v@) =~= seq![
            SqlValueView::Text(hash_of(token@)),
            SqlValueView::Text(client_id@),
            SqlValueView::Text(audience@),
            SqlValueView::Text(scope@),
            SqlValueView::Text(life),
        ]);
        Issued { plaintext: token, statement: statement(ISSUE_TOKEN_SQL, params) }
    }

    /// Finds the unexpired access token with this plaintext and audience.
    pub fn verify_oauth(&self, token: &str, expected_audience: &str) -> (r: Statement)
        ensures
            r@ == token_query(token@, expected_audience@),
    {
        let mut params: Vec<SqlValue> = Vec::new();
        params.push(SqlValue::Text(hash_key(token)));
        params.push(bind_text(expected_audience));
        assert(params@.map_values(|v: SqlValue| v@) =~= seq![
            SqlValueView::Text(hash_of(token@)),
            SqlValueView::Text(expected_audience@),
        ]);
        statement(VERIFY_OAUTH_SQL, params)
    }
}

// ---- laws of the statements ----

/// The statements of the store. Each binds its values by position: a key is active and a
/// code unused when it is stored, a code lives for sixty seconds, and only what is active,
/// unused and unexpired is found.
pub proof fn law_the_statements_of_the_store()
    ensures
        ADD_KEY_SQL@ == "INSERT INTO api_keys (key_hash, label, created_at) VALUES (?1, ?2, datetime('now'))"@,
        VERIFY_SQL@ == "SELECT id FROM api_keys WHERE key_hash = ?1 AND active = 1"@,
        LOG_USAGE_SQL@ == "INSERT INTO usage (key_id, tool, ts, latency_ms, rows) VALUES (?1, ?2, datetime('now'), ?3, ?4)"@,
        REGISTER_CLIENT_SQL@ == "INSERT INTO oauth_clients (client_id, redirect_uris, created_at) VALUES (?1, ?2, datetime('now'))"@,
        CLIENT_URIS_SQL@ == "SELECT redirect_uris FROM oauth_clients WHERE client_id = ?1"@,
        CREATE_CODE_SQL@ == "INSERT INTO oauth_codes (code_hash, client_id, code_challenge, redirect_uri, resource, expires_at, used)
             VALUES (?1, ?2, ?3, ?4, ?5, datetime('now', '+60 seconds'), 0)"@,
        CONSUME_CODE_SQL@ == "UPDATE oauth_codes SET used = 1
             WHERE code_hash = ?1 AND used = 0 AND redirect_uri = ?2 AND expires_at > datetime('now')
             RETURNING client_id, code_challenge, resource"@,
        ISSUE_TOKEN_SQL@ == "INSERT INTO oauth_tokens (token_hash, client_id, audience, scope, expires_at)
             VALUES (?1, ?2, ?3, ?4, datetime('now', ?5))"@,
        VERIFY_OAUTH_SQL@ == "SELECT 1 FROM oauth_tokens WHERE token_hash = ?1 AND audience = ?2 AND expires_at > datetime('now')"@,
        SCHEMA@ == "
CREATE TABLE IF NOT EXISTS api_keys (
  id         INTEGER PRIMARY KEY,
  key_hash   TEXT UNIQUE NOT NULL,
  label      TEXT,
  plan       TEXT NOT NULL DEFAULT 'free',
  active     INTEGER NOT NULL DEFAULT 1,
  created_at TEXT NOT NULL
);
CREATE TABLE IF NOT EXISTS usage (
  id         INTEGER PRIMARY KEY,
  key_id     INTEGER NOT NULL REFERENCES api_keys(id),
  tool       TEXT NOT NULL,
  ts         TEXT NOT NULL,
  latency_ms INTEGER,
  rows       INTEGER
);
CREATE TABLE IF NOT EXISTS oauth_clients (
  client_id     TEXT PRIMARY KEY,
  redirect_uris TEXT NOT NULL,   -- JSON array
  created_at    TEXT NOT NULL
);
CREATE TABLE IF NOT EXISTS oauth_codes (
  code_hash      TEXT PRIMARY KEY,
  client_id      TEXT NOT NULL,
  code_challenge TEXT NOT NULL,  -- PKCE S256, base64url-nopad
  redirect_uri   TEXT NOT NULL,
  resource       TEXT,           -- requested audience (RFC 8707)
  expires_at     TEXT NOT NULL,
  used           INTEGER NOT NULL DEFAULT 0
);
CREATE TABLE IF NOT EXISTS oauth_tokens (
  token_hash TEXT PRIMARY KEY,
  client_id  TEXT,
  audience   TEXT NOT NULL,
  scope      TEXT,
  expires_at TEXT NOT NULL
);
"@,
{
}

/// What is bound to a statement that stores or finds a key: the digest of the secret in
/// hexadecimal, never the secret, and the label.
pub proof fn law_keys_are_bound_by_their_digest(secret: Seq<char>, label: Seq<char>)
    ensures
        key_record(secret, label).sql == ADD_KEY_SQL@,
        key_record(secret, label).params == seq![
            SqlValueView::Text(hex(sha256_digest(encode_utf8(secret)))),
            SqlValueView::Text(label),
        ],
        key_query(secret).sql == VERIFY_SQL@,
        key_query(secret).params == seq![
            SqlValueView::Text(hex(sha256_digest(encode_utf8(secret)))),
        ],
{
}

/// What is bound to a statement that stores or finds a client: its id, and the list of
/// its redirect URIs.
pub proof fn law_clients_are_bound_by_their_id(client_id: Seq<char>, uris: Seq<Seq<char>>)
    ensures
        client_record(client_id, uris).sql == REGISTER_CLIENT_SQL@,
        client_record(client_id, uris).params == seq![
            SqlValueView::Text(client_id),
            SqlValueView::Text(json_list(uris)),
        ],
        client_query(client_id).sql == CLIENT_URIS_SQL@,
        client_query(client_id).params == seq![SqlValueView::Text(client_id)],
{
}

/// What is bound to a statement that stores or claims a code, position by position: the
/// digest of the code, the client, the challenge, the redirect URI and the audience, or
/// nothing where none was asked for.
pub proof fn law_codes_are_bound_position_by_position(
    secret: Seq<char>,
    client_id: Seq<char>,
    challenge: Seq<char>,
    redirect_uri: Seq<char>,
    resource: Seq<char>,
)
    ensures
        ({
            let digest = SqlValueView::Text(hex(sha256_digest(encode_utf8(secret))));
            let with = code_record(secret, client_id, challenge, redirect_uri, Some(resource));
            let without = code_record(secret, client_id, challenge, redirect_uri, None);
            let claim = code_claim(secret, redirect_uri);
            &&& with.sql == CREATE_CODE_SQL@ && without.sql == CREATE_CODE_SQL@
            &&& with.params.len() == 5 && without.params.len() == 5
            &&& with.params[0] == digest
            &&& with.params[1] == SqlValueView::Text(client_id)
            &&& with.params[2] == SqlValueView::Text(challenge)
            &&& with.params[3] == SqlValueView::Text(redirect_uri)
            &&& with.params[4] == SqlValueView::Text(resource)
            &&& without.params == with.params.update(4, SqlValueView::Null)
            &&& claim.sql == CONSUME_CODE_SQL@
            &&& claim.params == seq![digest, SqlValueView::Text(redirect_uri)]
        }),
{
    let with = code_record(secret, client_id, challenge, redirect_uri, Some(resource));
    let without = code_record(secret, client_id, challenge, redirect_uri, None);
    assert(without.params =~= with.params.update(4, SqlValueView::Null));
}

/// What is bound to a statement that stores or finds a token, position by position: the
/// digest of the token, the client, the audience, the scope, and its lifetime in seconds
/// as the store adds it to the time.
pub proof fn law_tokens_are_bound_position_by_position(
    secret: Seq<char>,
    client_id: Seq<char>,
    audience: Seq<char>,
    scope: Seq<char>,
    ttl_secs: nat,
)
    ensures
        ({
            let digest = SqlValueView::Text(hex(sha256_digest(encode_utf8(secret))));
            let stored = token_record(secret, client_id, audience, scope, ttl_secs as int);
            let query = token_query(secret, audience);
            &&& stored.sql == ISSUE_TOKEN_SQL@
            &&& stored.params.len() == 5
            &&& stored.params[0] == digest
            &&& stored.params[1] == SqlValueView::Text(client_id)
            &&& stored.params[2] == SqlValueView::Text(audience)
            &&& stored.params[3] == SqlValueView::Text(scope)
            &&& stored.params[4] == SqlValueView::Text("+"@ + decimal(ttl_secs) + " seconds"@)
            &&& query.sql == VERIFY_OAUTH_SQL@
            &&& query.params == seq![digest, SqlValueView::Text(audience)]
        }),
{
}

/// What is bound to the statement that records a use: the key, the tool, the duration
/// and the number of rows, in this order.
pub proof fn law_uses_are_bound_position_by_position(
    key_id: int,
    tool: Seq<char>,
    latency_ms: int,
    rows: int,
)
    ensures
        ({
            let s = usage_record(key_id, tool, latency_ms, rows);
            &&& s.sql == LOG_USAGE_SQL@
            &&& s.params.len() == 4
            &&& s.params[0] == SqlValueView::Integer(key_id)
            &&& s.params[1] == SqlValueView::Text(tool)
            &&& s.params[2] == SqlValueView::Integer(latency_ms)
            &&& s.params[3] == SqlValueView::Integer(rows)
        }),
{
}

/// What is issued shows what it is: a key is `idx_` and forty-eight hexadecimal digits, a
/// client `idxc_` and twenty-four, a token `idxoat_` and sixty-four, and a code sixty-four
/// alone.
pub proof fn law_what_is_issued_shows_what_it_is(s: Seq<char>, i: int)
    ensures
        is_key(s) ==> s.len() == 52 && starts(s, "idx_"@) && (4 <= i < 52 ==> is_hex_char(s[i])),
        is_client_id(s) ==> s.len() == 29 && starts(s, "idxc_"@) && (5 <= i < 29 ==> is_hex_char(
            s[i],
        )),
        is_token(s) ==> s.len() == 71 && starts(s, "idxoat_"@) && (7 <= i < 71 ==> is_hex_char(
            s[i],
        )),
        is_code(s) ==> s.len() == 64 && (0 <= i < 64 ==> is_hex_char(s[i])),
{
    reveal_strlit("idx_");
    reveal_strlit("idxc_");
    reveal_strlit("idxoat_");
    if is_key(s) {
        lemma_tagged(s, "idx_"@, 24, i);
    }
    if is_client_id(s) {
        lemma_tagged(s, "idxc_"@, 12, i);
    }
    if is_token(s) {
        lemma_tagged(s, "idxoat_"@, 32, i);
    }
    if is_code(s) {
        lemma_tagged(s, Seq::empty(), 32, i);
    }
}

/// True for the hexadecimal digits in lower case.
pub open spec fn is_hex_char(c: char) -> bool {
    '0' <= c && c <= '9' || 'a' <= c && c <= 'f'
}

proof fn lemma_tagged(s: Seq<char>, prefix: Seq<char>, n: nat, i: int)
    requires
        tagged_hex(s, prefix, n),
    ensures
        s.len() == prefix.len() + 2 * n,
        starts(s, prefix),
        prefix.len() <= i < s.len() ==> is_hex_char(s[i]),
{
    let bytes = choose|bytes: Seq<u8>| bytes.len() == n && s == prefix + #[trigger] hex(bytes);
    lemma_hex_chars(bytes);
    assert(s.subrange(0, prefix.len() as int) =~= prefix);
    if prefix.len() <= i < s.len() {
        assert(s[i] == hex(bytes)[i - prefix.len()]);
    }
}

proof fn lemma_hex_chars(bytes: Seq<u8>)
    ensures
        hex(bytes).len() == 2 * bytes.len(),
        forall|i: int| 0 <= i < hex(bytes).len() ==> is_hex_char(#[trigger] hex(bytes)[i]),
{
}

/// A statement is its text and the values bound to it in their order; a value and an
/// answer are what they hold.
pub proof fn law_statements_are_their_fields(
    s: Statement,
    i: int,
    n: i64,
    t: String,
    row: Vec<SqlValue>,
)
    ensures
        s@.sql == s.sql@ && s@.params.len() == s.params@.len(),
        0 <= i < s.params@.len() ==> s@.params[i] == s.params@[i]@,
        SqlValue::Null@ == SqlValueView::Null,
        SqlValue::Integer(n)@ == SqlValueView::Integer(n as int),
        SqlValue::Text(t)@ == SqlValueView::Text(t@),
        Fetched::NoRow@ == Answer::NoRow,
        Fetched::Failed@ == Answer::Failed,
        Fetched::Row(row)@ is Row && Fetched::Row(row)@->Row_0.len() == row@.len(),
        0 <= i < row@.len() ==> Fetched::Row(row)@->Row_0[i] == row@[i]@,
{
}

} // verus!
