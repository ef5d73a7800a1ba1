//! Minimal OAuth 2.1 authorization server for MCP clients.
//!
//! Self-hosted, opaque tokens. It implements just enough of RFC 9728 / 8414 /
//! 7591 plus the authorization-code and PKCE flow for the MCP connector
//! discovery dance. Each endpoint is split where it asks the key store: the
//! functions here decide what to ask and what to answer.
//!
//! `/authorize` auto-consents: there is no login, so anyone who can reach the
//! server can obtain a token. Tokens are audience-bound.

use vstd::prelude::*;
use vstd::string::*;
use vstd::utf8::*;

use crate::json::law_the_first_member_of_a_name_is_found;
use crate::json::member_views;
use crate::json::one_text;
use crate::json::push_member;
use crate::json::text_array;
use crate::json::Json;
use crate::json::JsonView;
use crate::keys::listed_texts;
use crate::keys::opt_value;
use crate::keys::sha256;
use crate::keys::sha256_digest;
use crate::keys::Answer;
use crate::keys::AuthCode;
use crate::keys::Fetched;
use crate::keys::KeyStore;
use crate::keys::SqlValue;
use crate::keys::SqlValueView;
use crate::text::decimal;
use crate::text::has_char;
use crate::text::is_one_of;
use crate::text::law_parts_of_texts;
use crate::text::opt_text;
use crate::text::same_text;
use crate::text::starts;
use crate::text::starts_with;
use crate::text::texts;

verus! {

/// Access-token lifetime. Long-lived because there are no refresh tokens; the
/// client re-runs the flow when it expires.
pub const TOKEN_TTL_SECS: i64 = 2592000;

/// What the authorization server knows of itself.
#[derive(Debug)]
pub struct OAuthState {
    /// Canonical externally-visible base URL, no trailing slash.
    pub public_url: String,
}

/// A dynamic client registration.
#[derive(Debug)]
pub struct RegisterReq {
    pub redirect_uris: Vec<String>,
}

/// A request for an authorization code.
#[derive(Debug)]
pub struct AuthorizeReq {
    pub response_type: String,
    pub client_id: String,
    pub redirect_uri: String,
    pub state: Option<String>,
    pub code_challenge: Option<String>,
    pub code_challenge_method: Option<String>,
    pub resource: Option<String>,
}

/// A request for an access token.
#[derive(Debug)]
pub struct TokenReq {
    pub grant_type: String,
    pub code: Option<String>,
    pub redirect_uri: Option<String>,
    pub code_verifier: Option<String>,
}

/// What an endpoint answers.
#[derive(Debug)]
pub enum Reply {
    /// A JSON body with a status.
    Json(u16, Json),
    /// A plain text with a status.
    Text(u16, String),
    /// A redirect to an address.
    Redirect(String),
}

/// The mathematical value of a [`Reply`].
pub enum ReplyView {
    Json(int, JsonView),
    Text(int, Seq<char>),
    Redirect(Seq<char>),
}

impl Reply {
    /// The mathematical value.
    pub open spec fn view(&self) -> ReplyView {
        match self {
            Reply::Json(status, body) => ReplyView::Json(*status as int, body@),
            Reply::Text(status, body) => ReplyView::Text(*status as int, body@),
            Reply::Redirect(to) => ReplyView::Redirect(to@),
        }
    }
}

/// An error body with its status.
pub open spec fn error_reply(status: int, err: Seq<char>, desc: Seq<char>) -> ReplyView {
    ReplyView::Json(
        status,
        JsonView::Object(
            seq![("error"@, JsonView::Text(err)), ("error_description"@, JsonView::Text(desc))],
        ),
    )
}

fn oauth_error(status: u16, err: &str, desc: &str) -> (r: Reply)
    ensures
        r@ == error_reply(status as int, err@, desc@),
{
    let mut m: Vec<(String, Json)> = Vec::new();
    push_member(&mut m, "error", Json::of_text(err));
    push_member(&mut m, "error_description", Json::of_text(desc));
    assert(member_views(m@) =~= seq![
        ("error"@, JsonView::Text(err@)),
        ("error_description"@, JsonView::Text(desc@)),
    ]);
    Reply::Json(status, Json::of_members(m))
}

// ---- discovery ----

impl OAuthState {
    /// The resource that tokens are issued for by default.
    pub open spec fn resource_spec(&self) -> Seq<char> {
        self.public_url@ + "/mcp"@
    }

    /// The resource that tokens are issued for by default.
    pub fn resource(&self) -> (r: String)
        ensures
            r@ == self.resource_spec(),
    {
        self.public_url.clone().concat("/mcp")
    }
}

/// The protected-resource metadata of a base URL.
pub open spec fn resource_metadata(public_url: Seq<char>) -> JsonView {
    JsonView::Object(
        seq![
            ("resource"@, JsonView::Text(public_url + "/mcp"@)),
            ("authorization_servers"@, one_text(public_url)),
            ("scopes_supported"@, one_text("mcp"@)),
            ("bearer_methods_supported"@, one_text("header"@)),
        ],
    )
}

/// RFC 9728: protected-resource metadata. The `WWW-Authenticate` 401 points here.
pub fn protected_resource(st: &OAuthState) -> (r: Json)
    ensures
        r@ == resource_metadata(st.public_url@),
{
    let mut m: Vec<(String, Json)> = Vec::new();
    push_member(&mut m, "resource", Json::of_text(st.resource().as_str()));
    push_member(&mut m, "authorization_servers", Json::of_one_text(st.public_url.as_str()));
    push_member(&mut m, "scopes_supported", Json::of_one_text("mcp"));
    push_member(&mut m, "bearer_methods_supported", Json::of_one_text("header"));
    assert(member_views(m@) =~= resource_metadata(st.public_url@)->Object_0);
    Json::of_members(m)
}

fn endpoint(st: &OAuthState, path: &str) -> (r: Json)
    ensures
        r@ == JsonView::Text(st.public_url@ + path@),
{
    Json::of_text(st.public_url.clone().concat(path).as_str())
}

/// The authorization-server metadata of a base URL.
pub open spec fn metadata(public_url: Seq<char>) -> JsonView {
    JsonView::Object(
        seq![
            ("issuer"@, JsonView::Text(public_url)),
            ("authorization_endpoint"@, JsonView::Text(public_url + "/oauth/authorize"@)),
            ("token_endpoint"@, JsonView::Text(public_url + "/oauth/token"@)),
            ("registration_endpoint"@, JsonView::Text(public_url + "/oauth/register"@)),
            ("response_types_supported"@, one_text("code"@)),
            ("grant_types_supported"@, one_text("authorization_code"@)),
            ("code_challenge_methods_supported"@, one_text("S256"@)),
            ("token_endpoint_auth_methods_supported"@, one_text("none"@)),
            ("scopes_supported"@, one_text("mcp"@)),
        ],
    )
}

/// RFC 8414: authorization-server metadata.
pub fn as_metadata(st: &OAuthState) -> (r: Json)
    ensures
        r@ == metadata(st.public_url@),
{
    let mut m: Vec<(String, Json)> = Vec::new();
    push_member(&mut m, "issuer", Json::of_text(st.public_url.as_str()));
    push_member(&mut m, "authorization_endpoint", endpoint(st, "/oauth/authorize"));
    push_member(&mut m, "token_endpoint", endpoint(st, "/oauth/token"));
    push_member(&mut m, "registration_endpoint", endpoint(st, "/oauth/register"));
    push_member(&mut m, "response_types_supported", Json::of_one_text("code"));
    push_member(&mut m, "grant_types_supported", Json::of_one_text("authorization_code"));
    push_member(&mut m, "code_challenge_methods_supported", Json::of_one_text("S256"));
    push_member(&mut m, "token_endpoint_auth_methods_supported", Json::of_one_text("none"));
    push_member(&mut m, "scopes_supported", Json::of_one_text("mcp"));
    assert(member_views(m@) =~= metadata(st.public_url@)->Object_0);
    Json::of_members(m)
}

// ---- registration ----

/// True if a client may be sent back to `u`: https, or this machine.
pub open spec fn returnable(u: Seq<char>) -> bool {
    starts(u, "https://"@) || starts(u, "http://localhost"@) || starts(u, "http://127.0.0.1"@)
}

/// True if a client may be sent back to `u`: https, or this machine.
pub fn valid_redirect(u: &str) -> (r: bool)
    ensures
        r == returnable(u@),
{
    starts_with(u, "https://") || starts_with(u, "http://localhost") || starts_with(
        u,
        "http://127.0.0.1",
    )
}

/// True if a client may register these redirect URIs.
pub open spec fn registrable(uris: Seq<Seq<char>>) -> bool {
    uris.len() > 0 && forall|i: int| 0 <= i < uris.len() ==> returnable(#[trigger] uris[i])
}

/// The answer that refuses a registration, if it is refused.
pub open spec fn registration_refusal(uris: Seq<Seq<char>>) -> Option<ReplyView> {
    if registrable(uris) {
        None
    } else {
        Some(
            error_reply(
                400,
                "invalid_redirect_uri"@,
                "redirect_uris must be https or localhost"@,
            ),
        )
    }
}

/// RFC 7591: dynamic client registration. `None` lets the client be registered;
/// otherwise the answer that refuses it.
pub fn register(req: &RegisterReq) -> (r: Option<Reply>)
    ensures
        registration_refusal(texts(req.redirect_uris@)) == (match r {
            None => None,
            Some(reply) => Some(reply@),
        }),
{
    let ghost t = texts(req.redirect_uris@);
    let mut ok = req.redirect_uris.len() > 0;
    let mut i: usize = 0;
    while i < req.redirect_uris.len()
        invariant
            i <= req.redirect_uris@.len(),
            t == texts(req.redirect_uris@),
            ok == (t.len() > 0 && forall|j: int| 0 <= j < i ==> returnable(#[trigger] t[j])),
        decreases req.redirect_uris@.len() - i,
    {
        assert(t[i as int] == req.redirect_uris@[i as int]@);
        if !valid_redirect(req.redirect_uris[i].as_str()) {
            ok = false;
        }
        i = i + 1;
    }
    if ok {
        None
    } else {
        Some(
            oauth_error(
                400,
                "invalid_redirect_uri",
                "redirect_uris must be https or localhost",
            ),
        )
    }
}

/// The answer to a registration, once the client was stored under `client_id`
/// (`None` if that failed).
pub open spec fn registered_reply(uris: Seq<Seq<char>>, client_id: Option<Seq<char>>) -> ReplyView {
    match client_id {
        None => error_reply(500, "server_error"@, "could not register client"@),
        Some(id) => ReplyView::Json(
            201,
            JsonView::Object(
                seq![
                    ("client_id"@, JsonView::Text(id)),
                    ("redirect_uris"@, text_array(uris)),
                    ("token_endpoint_auth_method"@, JsonView::Text("none"@)),
                    ("grant_types"@, one_text("authorization_code"@)),
                    ("response_types"@, one_text("code"@)),
                ],
            ),
        ),
    }
}

/// The answer to a registration, once the client was stored under `client_id`
/// (`None` if that failed).
pub fn registered(req: &RegisterReq, client_id: Option<String>) -> (r: Reply)
    ensures
        r@ == registered_reply(texts(req.redirect_uris@), opt_text(client_id)),
{
    match client_id {
        None => oauth_error(500, "server_error", "could not register client"),
        Some(id) => {
            let mut m: Vec<(String, Json)> = Vec::new();
            push_member(&mut m, "client_id", Json::of_text(id.as_str()));
            push_member(&mut m, "redirect_uris", Json::of_texts(&req.redirect_uris));
            push_member(&mut m, "token_endpoint_auth_method", Json::of_text("none"));
            push_member(&mut m, "grant_types", Json::of_one_text("authorization_code"));
            push_member(&mut m, "response_types", Json::of_one_text("code"));
            proof {
                let w = registered_reply(texts(req.redirect_uris@), Some(id@));
                assert(member_views(m@) =~= w->Json_1->Object_0);
            }
            Reply::Json(201, Json::of_members(m))
        },
    }
}

// ---- redirects ----

/// The character that starts another parameter after `url`.
pub open spec fn separator(url: Seq<char>) -> char {
    if url.contains('?') {
        '&'
    } else {
        '?'
    }
}

/// The character that starts another parameter after `url`.
pub fn sep(url: &str) -> (r: char)
    ensures
        r == separator(url@),
{
    if has_char(url, '?') {
        '&'
    } else {
        '?'
    }
}

/// The bytes that stand for themselves in a query value.
pub open spec fn unreserved(b: u8) -> bool {
    ||| 65 <= b && b <= 90
    ||| 97 <= b && b <= 122
    ||| 48 <= b && b <= 57
    ||| b == 45
    ||| b == 95
    ||| b == 46
    ||| b == 126
}

/// The upper-case hexadecimal digit of a value below sixteen.
pub open spec fn upper_hex(d: nat) -> char {
    if d < 10 {
        ((48 + d) as u32) as char
    } else {
        ((55 + d) as u32) as char
    }
}

/// One byte of a query value.
pub open spec fn byte_enc(b: u8) -> Seq<char> {
    if unreserved(b) {
        seq![b as char]
    } else {
        seq!['%', upper_hex((b / 16) as nat), upper_hex((b % 16) as nat)]
    }
}

/// Some bytes as a query value.
pub open spec fn bytes_enc(bytes: Seq<u8>) -> Seq<char>
    decreases bytes.len(),
{
    if bytes.len() == 0 {
        Seq::empty()
    } else {
        bytes_enc(bytes.drop_last()) + byte_enc(bytes.last())
    }
}

/// A text as a query value.
pub open spec fn query_value(s: Seq<char>) -> Seq<char> {
    bytes_enc(encode_utf8(s))
}

fn upper_hex_of(d: u8) -> (r: char)
    requires
        d < 16,
    ensures
        r == upper_hex(d as nat),
{
    if d < 10 {
        (48 + d) as char
    } else {
        (55 + d) as char
    }
}

/// Percent-encodes a query value (`state` is opaque client data).
pub fn urlenc(s: &str) -> (r: String)
    ensures
        r@ == query_value(s@),
{
    let bytes = s.as_bytes();
    let mut out = String::new();
    let mut i: usize = 0;
    assert(bytes@.take(0) =~= Seq::empty());
    assert(out@ =~= bytes_enc(bytes@.take(0)));
    while i < bytes.len()
        invariant
            i <= bytes@.len(),
            out@ == bytes_enc(bytes@.take(i as int)),
        decreases bytes@.len() - i,
    {
        let b: u8 = bytes[i];
        let ghost before = out@;
        if (65 <= b && b <= 90) || (97 <= b && b <= 122) || (48 <= b && b <= 57) || b == 45 || b
            == 95 || b == 46 || b == 126 {
            out.push(b as char);
        } else {
            out.push('%');
            out.push(upper_hex_of(b / 16));
            out.push(upper_hex_of(b % 16));
        }
        proof {
            assert(bytes@.take(i + 1).drop_last() =~= bytes@.take(i as int));
            assert(out@ =~= before + byte_enc(b));
        }
        i = i + 1;
    }
    assert(bytes@.take(i as int) =~= bytes@);
    out
}

/// The parameter that gives the client its state back.
pub open spec fn state_param(state: Option<Seq<char>>) -> Seq<char> {
    match state {
        Some(s) => "&state="@ + query_value(s),
        None => Seq::empty(),
    }
}

/// The address that sends the client back with one parameter and its state.
pub open spec fn return_url(
    redirect_uri: Seq<char>,
    name: Seq<char>,
    value: Seq<char>,
    state: Option<Seq<char>>,
) -> Seq<char> {
    redirect_uri.push(separator(redirect_uri)) + name + value + state_param(state)
}

fn return_to(redirect_uri: &str, name: &str, value: &str, state: &Option<String>) -> (r: Reply)
    ensures
        r@ == ReplyView::Redirect(return_url(redirect_uri@, name@, value@, opt_text(*state))),
{
    let mut url = redirect_uri.to_string();
    url.push(sep(redirect_uri));
    url.append(name);
    url.append(value);
    let ghost head = url@;
    match state {
        Some(s) => {
            url.append("&state=");
            url.append(urlenc(s.as_str()).as_str());
            assert(url@ =~= head + state_param(opt_text(*state)));
        },
        None => {
            assert(url@ =~= head + state_param(opt_text(*state)));
        },
    }
    Reply::Redirect(url)
}

fn redirect_err(redirect_uri: &str, err: &str, state: &Option<String>) -> (r: Reply)
    ensures
        r@ == ReplyView::Redirect(return_url(redirect_uri@, "error="@, err@, opt_text(*state))),
{
    return_to(redirect_uri, "error=", err, state)
}

// ---- authorization ----

/// What the key store knows of a client.
#[derive(Debug)]
pub enum Lookup {
    /// The client's registered redirect URIs.
    Found(Vec<String>),
    /// There is no such client.
    Unknown,
    /// The store failed.
    Failed,
}

/// True if `found` is what an answer to the query for a client says: the redirect URIs
/// that its row lists.
pub open spec fn lookup_reads(found: Lookup, a: Answer) -> bool {
    match a {
        Answer::NoRow => found is Unknown,
        Answer::Failed => found is Failed,
        Answer::Row(row) => if row.len() > 0 && row[0] is Text && listed_texts(
            row[0]->Text_0,
        ) is Some {
            found is Found && texts(found->Found_0@) == listed_texts(row[0]->Text_0)->0
        } else {
            found is Failed
        },
    }
}

/// Reads the answer to the query for a client.
pub fn read_lookup(fetched: &Fetched) -> (r: Lookup)
    ensures
        lookup_reads(r, fetched@),
{
    match fetched {
        Fetched::NoRow => Lookup::Unknown,
        Fetched::Failed => Lookup::Failed,
        Fetched::Row(row) => {
            if row.len() == 0 {
                return Lookup::Failed;
            }
            assert(fetched@->Row_0[0] == row@[0]@);
            match &row[0] {
                SqlValue::Text(json) => match KeyStore.read_redirect_uris(Some(json.as_str())) {
                    Ok(Some(uris)) => Lookup::Found(uris),
                    _ => Lookup::Failed,
                },
                _ => Lookup::Failed,
            }
        },
    }
}

/// An authorization code to be issued.
#[derive(Debug)]
pub struct CodeRequest {
    pub client_id: String,
    pub code_challenge: String,
    pub redirect_uri: String,
    pub resource: Option<String>,
}

/// The mathematical value of a [`CodeRequest`].
pub struct CodeRequestView {
    pub client_id: Seq<char>,
    pub code_challenge: Seq<char>,
    pub redirect_uri: Seq<char>,
    pub resource: Option<Seq<char>>,
}

impl CodeRequest {
    /// The mathematical value.
    pub open spec fn view(&self) -> CodeRequestView {
        CodeRequestView {
            client_id: self.client_id@,
            code_challenge: self.code_challenge@,
            redirect_uri: self.redirect_uri@,
            resource: opt_text(self.resource),
        }
    }
}

/// The answer that sends the client back with an error.
pub open spec fn returned_error(req: AuthorizeReq, err: Seq<char>) -> ReplyView {
    ReplyView::Redirect(return_url(req.redirect_uri@, "error="@, err, opt_text(req.state)))
}

/// What becomes of an authorization request: a code to be issued, or an answer.
/// The client and its redirect URI are checked before the redirect target is
/// trusted; from there on errors go back to the client.
pub open spec fn authorization(req: AuthorizeReq, found: Lookup) -> Result<
    CodeRequestView,
    ReplyView,
> {
    match found {
        Lookup::Unknown => Err(ReplyView::Text(400, "unknown client_id"@)),
        Lookup::Failed => Err(ReplyView::Text(500, "server error"@)),
        Lookup::Found(uris) => if !texts(uris@).contains(req.redirect_uri@) {
            Err(ReplyView::Text(400, "redirect_uri not registered"@))
        } else if req.response_type@ != "code"@ {
            Err(returned_error(req, "unsupported_response_type"@))
        } else {
            match opt_text(req.code_challenge) {
                None => Err(returned_error(req, "invalid_request"@)),
                Some(challenge) => if opt_text(req.code_challenge_method) != Some("S256"@) {
                    Err(returned_error(req, "invalid_request"@))
                } else {
                    Ok(
                        CodeRequestView {
                            client_id: req.client_id@,
                            code_challenge: challenge,
                            redirect_uri: req.redirect_uri@,
                            resource: opt_text(req.resource),
                        },
                    )
                },
            }
        },
    }
}

/// An outcome of [`authorize`].
pub open spec fn authorize_outcome(r: Result<CodeRequest, Reply>) -> Result<
    CodeRequestView,
    ReplyView,
> {
    match r {
        Ok(c) => Ok(c@),
        Err(e) => Err(e@),
    }
}

/// Authorization endpoint, once the client was looked up. Validates the client
/// and PKCE, then auto-consents: `Ok` asks for a single-use code.
pub fn authorize(req: &AuthorizeReq, found: &Lookup) -> (r: Result<CodeRequest, Reply>)
    ensures
        authorize_outcome(r) == authorization(*req, *found),
{
    let uris = match found {
        Lookup::Found(uris) => uris,
        Lookup::Unknown => {
            return Err(Reply::Text(400, "unknown client_id".to_string()));
        },
        Lookup::Failed => {
            return Err(Reply::Text(500, "server error".to_string()));
        },
    };
    if !is_one_of(req.redirect_uri.as_str(), uris) {
        return Err(Reply::Text(400, "redirect_uri not registered".to_string()));
    }
    if !same_text(req.response_type.as_str(), "code") {
        return Err(
            redirect_err(req.redirect_uri.as_str(), "unsupported_response_type", &req.state),
        );
    }
    let challenge = match &req.code_challenge {
        Some(c) => c,
        None => {
            return Err(redirect_err(req.redirect_uri.as_str(), "invalid_request", &req.state));
        },
    };
    let hashed = match &req.code_challenge_method {
        Some(m) => same_text(m.as_str(), "S256"),
        None => false,
    };
    if !hashed {
        return Err(redirect_err(req.redirect_uri.as_str(), "invalid_request", &req.state));
    }
    let resource = match &req.resource {
        Some(s) => Some(s.clone()),
        None => None,
    };
    Ok(
        CodeRequest {
            client_id: req.client_id.clone(),
            code_challenge: challenge.clone(),
            redirect_uri: req.redirect_uri.clone(),
            resource,
        },
    )
}

/// The answer to an accepted authorization request, once the code was stored
/// (`None` if that failed).
pub open spec fn authorized_reply(req: AuthorizeReq, code: Option<Seq<char>>) -> ReplyView {
    match code {
        None => returned_error(req, "server_error"@),
        Some(c) => ReplyView::Redirect(
            return_url(req.redirect_uri@, "code="@, c, opt_text(req.state)),
        ),
    }
}

/// The answer to an accepted authorization request, once the code was stored
/// (`None` if that failed).
pub fn authorized(req: &AuthorizeReq, code: Option<String>) -> (r: Reply)
    ensures
        r@ == authorized_reply(*req, opt_text(code)),
{
    match code {
        None => redirect_err(req.redirect_uri.as_str(), "server_error", &req.state),
        Some(c) => return_to(req.redirect_uri.as_str(), "code=", c.as_str(), &req.state),
    }
}

// ---- tokens ----

/// An authorization code to be consumed, and what proves the right to it.
#[derive(Debug)]
pub struct CodeClaim {
    pub code: String,
    pub redirect_uri: String,
    pub code_verifier: String,
}

/// What became of consuming a code.
#[derive(Debug)]
pub enum Claimed {
    /// The code was valid; it is consumed now.
    Code(AuthCode),
    /// The code is invalid, expired, or already used.
    Invalid,
    /// The store failed.
    Failed,
}

/// True if a row holds what a consumed code is bound to.
pub open spec fn is_code_row(row: Seq<SqlValueView>) -> bool {
    row.len() > 2 && row[0] is Text && row[1] is Text && (row[2] is Text || row[2] is Null)
}

/// True if `claimed` is what an answer to the claim of a code says.
pub open spec fn claim_reads(claimed: Claimed, a: Answer) -> bool {
    match a {
        Answer::NoRow => claimed is Invalid,
        Answer::Failed => claimed is Failed,
        Answer::Row(row) => if is_code_row(row) {
            &&& claimed is Code
            &&& row[0] == SqlValueView::Text(claimed->Code_0.client_id@)
            &&& row[1] == SqlValueView::Text(claimed->Code_0.code_challenge@)
            &&& row[2] == opt_value(opt_text(claimed->Code_0.resource))
        } else {
            claimed is Failed
        },
    }
}

/// Reads the answer to the claim of a code.
pub fn read_claim(fetched: &Fetched) -> (r: Claimed)
    ensures
        claim_reads(r, fetched@),
{
    match fetched {
        Fetched::NoRow => Claimed::Invalid,
        Fetched::Failed => Claimed::Failed,
        Fetched::Row(row) => {
            if row.len() < 3 {
                return Claimed::Failed;
            }
            proof {
                let v = fetched@->Row_0;
                assert(v[0] == row@[0]@ && v[1] == row@[1]@ && v[2] == row@[2]@);
            }
            let resource = match &row[2] {
                SqlValue::Text(s) => Some(s.clone()),
                SqlValue::Null => None,
                SqlValue::Integer(_) => {
                    return Claimed::Failed;
                },
            };
            match (&row[0], &row[1]) {
                (SqlValue::Text(client_id), SqlValue::Text(code_challenge)) => Claimed::Code(
                    AuthCode {
                        client_id: client_id.clone(),
                        code_challenge: code_challenge.clone(),
                        resource,
                    },
                ),
                _ => Claimed::Failed,
            }
        },
    }
}

/// An access token to be issued.
#[derive(Debug)]
pub struct TokenGrant {
    pub client_id: String,
    pub audience: String,
    pub scope: String,
    pub ttl_secs: i64,
}

/// True if a token request names a code, a redirect URI and a verifier.
pub open spec fn complete(req: TokenReq) -> bool {
    req.code is Some && req.redirect_uri is Some && req.code_verifier is Some
}

/// The answer that refuses a token request before the store is asked, if it is refused.
pub open spec fn token_refusal(req: TokenReq) -> Option<ReplyView> {
    if req.grant_type@ != "authorization_code"@ {
        Some(
            error_reply(
                400,
                "unsupported_grant_type"@,
                "only authorization_code is supported"@,
            ),
        )
    } else if !complete(req) {
        Some(
            error_reply(
                400,
                "invalid_request"@,
                "missing code / redirect_uri / code_verifier"@,
            ),
        )
    } else {
        None
    }
}

/// Token endpoint: `authorization_code` grant with PKCE S256. `Ok` asks for the
/// code to be consumed.
pub fn token(req: TokenReq) -> (r: Result<CodeClaim, Reply>)
    ensures
        match r {
            Ok(c) => token_refusal(req) is None && complete(req) && c.code@
                == req.code->Some_0@ && c.redirect_uri@ == req.redirect_uri->Some_0@
                && c.code_verifier@ == req.code_verifier->Some_0@,
            Err(e) => token_refusal(req) == Some(e@),
        },
{
    if !same_text(req.grant_type.as_str(), "authorization_code") {
        return Err(
            oauth_error(
                400,
                "unsupported_grant_type",
                "only authorization_code is supported",
            ),
        );
    }
    match (req.code, req.redirect_uri, req.code_verifier) {
        (Some(code), Some(redirect_uri), Some(code_verifier)) => Ok(
            CodeClaim { code, redirect_uri, code_verifier },
        ),
        _ => Err(
            oauth_error(400, "invalid_request", "missing code / redirect_uri / code_verifier"),
        ),
    }
}

/// Some bytes in the URL-safe Base64 alphabet, without padding.
pub uninterp spec fn base64_url(data: Seq<u8>) -> Seq<char>;

/// `base64::Engine::encode` of the URL-safe engine without padding.
#[verifier::external_body]
fn encode_base64_url(data: &[u8]) -> (r: String)
    requires
        data@.len() <= usize::MAX / 4,
    ensures
        r@ == base64_url(data@),
{
    base64::Engine::encode(&base64::engine::general_purpose::URL_SAFE_NO_PAD, data)
}

/// The challenge that a PKCE verifier answers: the URL-safe Base64 of its SHA-256
/// digest.
pub open spec fn challenge_of(verifier: Seq<char>) -> Seq<char> {
    base64_url(sha256_digest(encode_utf8(verifier)))
}

/// The challenge that a PKCE verifier answers.
pub fn pkce_s256(verifier: &str) -> (r: String)
    ensures
        r@ == challenge_of(verifier@),
{
    let digest = sha256(verifier.as_bytes());
    encode_base64_url(digest.as_slice())
}

/// The mathematical value of a [`TokenGrant`].
pub struct TokenGrantView {
    pub client_id: Seq<char>,
    pub audience: Seq<char>,
    pub scope: Seq<char>,
    pub ttl_secs: int,
}

impl TokenGrant {
    /// The mathematical value.
    pub open spec fn view(&self) -> TokenGrantView {
        TokenGrantView {
            client_id: self.client_id@,
            audience: self.audience@,
            scope: self.scope@,
            ttl_secs: self.ttl_secs as int,
        }
    }
}

/// The audience of a token: the one that was asked for, or this server's own
/// resource.
pub open spec fn audience_for(st: OAuthState, resource: Option<Seq<char>>) -> Seq<char> {
    match resource {
        Some(a) => a,
        None => st.resource_spec(),
    }
}

/// What becomes of a token request, given the challenge that the caller's verifier
/// answers: a token to be issued, or an answer.
pub open spec fn redemption(st: OAuthState, challenge: Seq<char>, claimed: Claimed) -> Result<
    TokenGrantView,
    ReplyView,
> {
    match claimed {
        Claimed::Failed => Err(error_reply(500, "server_error"@, "token failed"@)),
        Claimed::Invalid => Err(
            error_reply(400, "invalid_grant"@, "code invalid, expired, or already used"@),
        ),
        Claimed::Code(code) => if challenge != code.code_challenge@ {
            Err(error_reply(400, "invalid_grant"@, "PKCE verification failed"@))
        } else {
            Ok(
                TokenGrantView {
                    client_id: code.client_id@,
                    audience: audience_for(st, opt_text(code.resource)),
                    scope: "mcp"@,
                    ttl_secs: TOKEN_TTL_SECS as int,
                },
            )
        },
    }
}

/// An outcome of [`grant`] or [`redeem`].
pub open spec fn grant_outcome(r: Result<TokenGrant, Reply>) -> Result<TokenGrantView, ReplyView> {
    match r {
        Ok(g) => Ok(g@),
        Err(e) => Err(e@),
    }
}

/// Decides on a token, given the challenge that the caller's verifier answers.
/// `Ok` asks for the token to be issued.
pub fn grant(st: &OAuthState, challenge: &str, claimed: Claimed) -> (r: Result<TokenGrant, Reply>)
    ensures
        grant_outcome(r) == redemption(*st, challenge@, claimed),
{
    match claimed {
        Claimed::Failed => Err(oauth_error(500, "server_error", "token failed")),
        Claimed::Invalid => Err(
            oauth_error(400, "invalid_grant", "code invalid, expired, or already used"),
        ),
        Claimed::Code(code) => {
            if !same_text(challenge, code.code_challenge.as_str()) {
                return Err(oauth_error(400, "invalid_grant", "PKCE verification failed"));
            }
            let audience = match code.resource {
                Some(a) => a,
                None => st.resource(),
            };
            Ok(
                TokenGrant {
                    client_id: code.client_id,
                    audience,
                    scope: "mcp".to_string(),
                    ttl_secs: TOKEN_TTL_SECS,
                },
            )
        },
    }
}

/// Decides on a token, once the code was consumed: the verifier must answer the
/// challenge that the code is bound to. `Ok` asks for the token to be issued.
pub fn redeem(st: &OAuthState, verifier: &str, claimed: Claimed) -> (r: Result<TokenGrant, Reply>)
    ensures
        grant_outcome(r) == redemption(*st, challenge_of(verifier@), claimed),
{
    let challenge = pkce_s256(verifier);
    grant(st, challenge.as_str(), claimed)
}

/// The answer to a granted token request, once the token was stored (`None` if
/// that failed).
pub open spec fn issued_reply(token: Option<Seq<char>>) -> ReplyView {
    match token {
        None => error_reply(500, "server_error"@, "token failed"@),
        Some(t) => ReplyView::Json(
            200,
            JsonView::Object(
                seq![
                    ("access_token"@, JsonView::Text(t)),
                    ("token_type"@, JsonView::Text("Bearer"@)),
                    ("expires_in"@, JsonView::Number(decimal(TOKEN_TTL_SECS as nat))),
                    ("scope"@, JsonView::Text("mcp"@)),
                ],
            ),
        ),
    }
}

/// The answer to a granted token request, once the token was stored (`None` if
/// that failed).
pub fn issued(token: Option<String>) -> (r: Reply)
    ensures
        r@ == issued_reply(opt_text(token)),
{
    match token {
        None => oauth_error(500, "server_error", "token failed"),
        Some(t) => {
            let mut m: Vec<(String, Json)> = Vec::new();
            push_member(&mut m, "access_token", Json::of_text(t.as_str()));
            push_member(&mut m, "token_type", Json::of_text("Bearer"));
            push_member(&mut m, "expires_in", Json::of_number(TOKEN_TTL_SECS as u64));
            push_member(&mut m, "scope", Json::of_text("mcp"));
            assert(member_views(m@) =~= issued_reply(Some(t@))->Json_1->Object_0);
            Reply::Json(200, Json::of_members(m))
        },
    }
}

// ---- what holds of every exchange ----

/// The client is sent to no address but its own: where the authorization endpoint
/// redirects or asks for a code, the redirect URI is registered, and every
/// redirect starts with it.
pub proof fn law_redirects_stay_with_the_client(
    req: AuthorizeReq,
    found: Lookup,
    code: Option<Seq<char>>,
)
    ensures
        match authorization(req, found) {
            Ok(c) => found is Found && texts(found->Found_0@).contains(req.redirect_uri@)
                && c.redirect_uri == req.redirect_uri@ && authorized_reply(req, code) is Redirect
                && starts(authorized_reply(req, code)->Redirect_0, req.redirect_uri@),
            Err(ReplyView::Redirect(to)) => found is Found && texts(found->Found_0@).contains(
                req.redirect_uri@,
            ) && starts(to, req.redirect_uri@),
            Err(ReplyView::Text(status, _)) => status == 400 || status == 500,
            Err(_) => false,
        },
{
    let u = req.redirect_uri@;
    let state = opt_text(req.state);
    lemma_return_url_starts(u, "error="@, "unsupported_response_type"@, state);
    lemma_return_url_starts(u, "error="@, "invalid_request"@, state);
    lemma_return_url_starts(u, "error="@, "server_error"@, state);
    if code is Some {
        lemma_return_url_starts(u, "code="@, code->Some_0, state);
    }
}

proof fn lemma_return_url_starts(
    u: Seq<char>,
    name: Seq<char>,
    value: Seq<char>,
    state: Option<Seq<char>>,
)
    ensures
        starts(return_url(u, name, value, state), u),
{
    assert(return_url(u, name, value, state).subrange(0, u.len() as int) =~= u);
}

/// No code is asked for without a PKCE S256 challenge to bind it to.
pub proof fn law_codes_are_bound_to_a_challenge(req: AuthorizeReq, found: Lookup)
    requires
        authorization(req, found) is Ok,
    ensures
        req.response_type@ == "code"@,
        opt_text(req.code_challenge_method) == Some("S256"@),
        opt_text(req.code_challenge) == Some(authorization(req, found)->Ok_0.code_challenge),
{
}

/// The flow ends in a token for whoever began it: where a code was asked for with the
/// challenge of a verifier, and is claimed as it was stored, that verifier gets a
/// token for the client and the audience of the request.
pub proof fn law_the_flow_ends_in_a_token(
    req: AuthorizeReq,
    found: Lookup,
    st: OAuthState,
    verifier: Seq<char>,
    code: AuthCode,
)
    requires
        authorization(req, found) is Ok,
        opt_text(req.code_challenge) == Some(challenge_of(verifier)),
        code.client_id@ == authorization(req, found)->Ok_0.client_id,
        code.code_challenge@ == authorization(req, found)->Ok_0.code_challenge,
        opt_text(code.resource) == authorization(req, found)->Ok_0.resource,
    ensures
        redemption(st, challenge_of(verifier), Claimed::Code(code)) == Ok::<_, ReplyView>(
            TokenGrantView {
                client_id: req.client_id@,
                audience: audience_for(st, opt_text(req.resource)),
                scope: "mcp"@,
                ttl_secs: TOKEN_TTL_SECS as int,
            },
        ),
{
}

/// No token without a code that the store gave up and a verifier that answers its
/// challenge.
pub proof fn law_tokens_need_a_code_and_its_verifier(
    st: OAuthState,
    challenge: Seq<char>,
    claimed: Claimed,
)
    ensures
        redemption(st, challenge, claimed) is Ok <==> claimed is Code && challenge
            == claimed->Code_0.code_challenge@,
{
}

/// Every character of a query value is unreserved or part of an escape, so the
/// client's state cannot add a parameter or end the query.
pub proof fn law_state_adds_no_parameter(s: Seq<char>, i: int)
    requires
        0 <= i < query_value(s).len(),
    ensures
        query_value(s)[i] == '%' || unreserved(query_value(s)[i] as u8) && (query_value(s)[i] as u32)
            < 128,
        query_value(s)[i] != '&',
        query_value(s)[i] != '=',
        query_value(s)[i] != '#',
{
    lemma_encoded_chars(encode_utf8(s), i);
}

proof fn lemma_encoded_chars(bytes: Seq<u8>, i: int)
    requires
        0 <= i < bytes_enc(bytes).len(),
    ensures
        bytes_enc(bytes)[i] == '%' || unreserved(bytes_enc(bytes)[i] as u8) && (bytes_enc(
            bytes,
        )[i] as u32) < 128,
    decreases bytes.len(),
{
    let head = bytes_enc(bytes.drop_last());
    if i < head.len() {
        lemma_encoded_chars(bytes.drop_last(), i);
    }
}

/// The value of a hexadecimal digit.
pub open spec fn hex_value(c: char) -> Option<nat> {
    if '0' <= c && c <= '9' {
        Some((c as u32 - 48) as nat)
    } else if 'A' <= c && c <= 'F' {
        Some((c as u32 - 55) as nat)
    } else if 'a' <= c && c <= 'f' {
        Some((c as u32 - 87) as nat)
    } else {
        None
    }
}

/// The bytes that a query value stands for, as a form decoder reads them.
pub open spec fn query_bytes(t: Seq<char>) -> Option<Seq<u8>>
    decreases t.len(),
{
    if t.len() == 0 {
        Some(Seq::empty())
    } else if t[0] == '%' {
        if t.len() < 3 {
            None
        } else {
            match (hex_value(t[1]), hex_value(t[2]), query_bytes(t.skip(3))) {
                (Some(h), Some(l), Some(rest)) => Some(seq![(16 * h + l) as u8] + rest),
                _ => None,
            }
        }
    } else if (t[0] as u32) < 128 {
        match query_bytes(t.skip(1)) {
            Some(rest) => Some(
                seq![if t[0] == '+' {
                    32u8
                } else {
                    t[0] as u8
                }] + rest,
            ),
            None => None,
        }
    } else {
        None
    }
}

proof fn lemma_bytes_enc_front(bytes: Seq<u8>)
    requires
        bytes.len() > 0,
    ensures
        bytes_enc(bytes) == byte_enc(bytes[0]) + bytes_enc(bytes.skip(1)),
    decreases bytes.len(),
{
    if bytes.len() == 1 {
        assert(bytes.drop_last() =~= Seq::empty());
        assert(bytes.skip(1) =~= Seq::empty());
        assert(bytes_enc(bytes) =~= byte_enc(bytes[0]) + bytes_enc(bytes.skip(1)));
    } else {
        lemma_bytes_enc_front(bytes.drop_last());
        assert(bytes.drop_last().skip(1) =~= bytes.skip(1).drop_last());
        assert(bytes_enc(bytes) =~= byte_enc(bytes[0]) + bytes_enc(bytes.skip(1)));
    }
}

proof fn lemma_encoded_reads_back(bytes: Seq<u8>)
    ensures
        query_bytes(bytes_enc(bytes)) == Some(bytes),
    decreases bytes.len(),
{
    let t = bytes_enc(bytes);
    if bytes.len() == 0 {
        assert(bytes =~= Seq::empty());
    } else {
        let b = bytes[0];
        lemma_bytes_enc_front(bytes);
        lemma_encoded_reads_back(bytes.skip(1));
        assert(bytes =~= seq![b] + bytes.skip(1));
        if unreserved(b) {
            assert(t.skip(1) =~= bytes_enc(bytes.skip(1)));
            assert(t[0] == b as char);
        } else {
            assert(t.skip(3) =~= bytes_enc(bytes.skip(1)));
            assert(t[0] == '%');
            assert(t[1] == upper_hex((b / 16) as nat) && t[2] == upper_hex((b % 16) as nat));
            assert(hex_value(t[1]) == Some((b / 16) as nat));
            assert(hex_value(t[2]) == Some((b % 16) as nat));
        }
    }
}

/// The client gets its state back unchanged: decoding the query value gives the
/// bytes of the state that was sent.
pub proof fn law_state_comes_back_unchanged(s: Seq<char>)
    ensures
        query_bytes(query_value(s)) == Some(encode_utf8(s)),
{
    lemma_encoded_reads_back(encode_utf8(s));
}

// ---- laws of the answers ----

/// An error names itself and says more, under the status it is answered with.
pub proof fn law_errors_name_themselves(status: int, err: Seq<char>, desc: Seq<char>)
    ensures
        error_reply(status, err, desc) is Json,
        error_reply(status, err, desc)->Json_0 == status,
        error_reply(status, err, desc)->Json_1.get("error"@) == Some(JsonView::Text(err)),
        error_reply(status, err, desc)->Json_1.get("error_description"@) == Some(
            JsonView::Text(desc),
        ),
{
    let m = error_reply(status, err, desc)->Json_1->Object_0;
    reveal_strlit("error");
    reveal_strlit("error_description");
    assert("error"@.len() == 5
        && "error_description"@.len() == 17);
    law_the_first_member_of_a_name_is_found(m, 0, "error"@);
    law_the_first_member_of_a_name_is_found(m, 1, "error_description"@);
}

/// The metadata of the server: each endpoint under its own name at the server's address,
/// and the one method of each kind that it takes.
pub proof fn law_metadata_names_the_endpoints(public_url: Seq<char>)
    ensures
        metadata(public_url).get("issuer"@) == Some(JsonView::Text(public_url)),
        metadata(public_url).get("authorization_endpoint"@) == Some(JsonView::Text(public_url + "/oauth/authorize"@)),
        metadata(public_url).get("token_endpoint"@) == Some(JsonView::Text(public_url + "/oauth/token"@)),
        metadata(public_url).get("registration_endpoint"@) == Some(JsonView::Text(public_url + "/oauth/register"@)),
        metadata(public_url).get("response_types_supported"@) == Some(JsonView::Array(seq![JsonView::Text("code"@)])),
        metadata(public_url).get("grant_types_supported"@) == Some(JsonView::Array(seq![JsonView::Text("authorization_code"@)])),
        metadata(public_url).get("code_challenge_methods_supported"@) == Some(JsonView::Array(seq![JsonView::Text("S256"@)])),
        metadata(public_url).get("token_endpoint_auth_methods_supported"@) == Some(JsonView::Array(seq![JsonView::Text("none"@)])),
        metadata(public_url).get("scopes_supported"@) == Some(JsonView::Array(seq![JsonView::Text("mcp"@)])),
{
    let m = metadata(public_url)->Object_0;
    reveal_strlit("issuer");
    reveal_strlit("authorization_endpoint");
    reveal_strlit("token_endpoint");
    reveal_strlit("registration_endpoint");
    reveal_strlit("response_types_supported");
    reveal_strlit("grant_types_supported");
    reveal_strlit("code_challenge_methods_supported");
    reveal_strlit("token_endpoint_auth_methods_supported");
    reveal_strlit("scopes_supported");
    assert("issuer"@.len() == 6
        && "authorization_endpoint"@.len() == 22
        && "token_endpoint"@.len() == 14
        && "registration_endpoint"@.len() == 21
        && "response_types_supported"@.len() == 24
        && "grant_types_supported"@.len() == 21
        && "code_challenge_methods_supported"@.len() == 32
        && "token_endpoint_auth_methods_supported"@.len() == 37
        && "scopes_supported"@.len() == 16);
    assert("registration_endpoint"@[0] != "grant_types_supported"@[0]);
    law_the_first_member_of_a_name_is_found(m, 0, "issuer"@);
    law_the_first_member_of_a_name_is_found(m, 1, "authorization_endpoint"@);
    law_the_first_member_of_a_name_is_found(m, 2, "token_endpoint"@);
    law_the_first_member_of_a_name_is_found(m, 3, "registration_endpoint"@);
    law_the_first_member_of_a_name_is_found(m, 4, "response_types_supported"@);
    law_the_first_member_of_a_name_is_found(m, 5, "grant_types_supported"@);
    law_the_first_member_of_a_name_is_found(m, 6, "code_challenge_methods_supported"@);
    law_the_first_member_of_a_name_is_found(m, 7, "token_endpoint_auth_methods_supported"@);
    law_the_first_member_of_a_name_is_found(m, 8, "scopes_supported"@);
}

/// The metadata of the resource: what tokens are for, who issues them, their scope, and
/// that they come in the header.
pub proof fn law_the_resource_names_its_server(public_url: Seq<char>)
    ensures
        resource_metadata(public_url).get("resource"@) == Some(
            JsonView::Text(public_url + "/mcp"@),
        ),
        resource_metadata(public_url).get("authorization_servers"@) == Some(
            JsonView::Array(seq![JsonView::Text(public_url)]),
        ),
        resource_metadata(public_url).get("scopes_supported"@) == Some(
            JsonView::Array(seq![JsonView::Text("mcp"@)]),
        ),
        resource_metadata(public_url).get("bearer_methods_supported"@) == Some(
            JsonView::Array(seq![JsonView::Text("header"@)]),
        ),
{
    let m = resource_metadata(public_url)->Object_0;
    reveal_strlit("resource");
    reveal_strlit("authorization_servers");
    reveal_strlit("scopes_supported");
    reveal_strlit("bearer_methods_supported");
    assert("resource"@.len() == 8
        && "authorization_servers"@.len() == 21
        && "scopes_supported"@.len() == 16
        && "bearer_methods_supported"@.len() == 24);
    law_the_first_member_of_a_name_is_found(m, 0, "resource"@);
    law_the_first_member_of_a_name_is_found(m, 1, "authorization_servers"@);
    law_the_first_member_of_a_name_is_found(m, 2, "scopes_supported"@);
    law_the_first_member_of_a_name_is_found(m, 3, "bearer_methods_supported"@);
}

/// A client may be sent back over https, or to this machine over http, and nowhere else.
pub proof fn law_clients_are_sent_back_safely(rest: Seq<char>, u: Seq<char>)
    ensures
        returnable("https://"@ + rest),
        returnable("http://localhost"@ + rest),
        returnable("http://127.0.0.1"@ + rest),
        !starts(u, "https://"@) && !starts(u, "http://"@) ==> !returnable(u),
        u == "http://"@ + rest && !starts(rest, "localhost"@) && !starts(rest, "127.0.0.1"@)
            ==> !returnable(u),
{
    let none = Seq::<char>::empty();
    law_parts_of_texts(none, "https://"@, rest, u);
    law_parts_of_texts(none, "http://localhost"@, rest, u);
    law_parts_of_texts(none, "http://127.0.0.1"@, rest, u);
    reveal_strlit("https://");
    reveal_strlit("http://");
    reveal_strlit("http://localhost");
    reveal_strlit("http://127.0.0.1");
    reveal_strlit("localhost");
    reveal_strlit("127.0.0.1");
    assert("http://localhost"@ =~= "http://"@ + "localhost"@);
    assert("http://127.0.0.1"@ =~= "http://"@ + "127.0.0.1"@);
    lemma_starts_through(u, "http://"@, "localhost"@);
    lemma_starts_through(u, "http://"@, "127.0.0.1"@);
    if u == "http://"@ + rest {
        assert(u.skip(7) =~= rest);
        if starts(u, "https://"@) {
            assert(u.subrange(0, 8)[4] == u[4]);
            assert("https://"@[4] == 's');
            assert(u[4] == "http://"@[4]);
        }
    }
}

proof fn lemma_starts_through(u: Seq<char>, p: Seq<char>, q: Seq<char>)
    ensures
        starts(u, p + q) ==> starts(u, p) && starts(u.skip(p.len() as int), q),
{
    if starts(u, p + q) {
        let n = p.len() as int;
        assert(u.subrange(0, n) =~= u.subrange(0, (p + q).len() as int).subrange(0, n));
        assert((p + q).subrange(0, n) =~= p);
        let v = u.skip(n);
        assert(v.subrange(0, q.len() as int) =~= u.subrange(0, (p + q).len() as int).skip(n));
        assert((p + q).skip(n) =~= q);
    }
}

/// A client registers with at least one redirect URI, all of which it may be sent back
/// to; any other is refused with what is wrong.
pub proof fn law_registration_needs_good_uris(uris: Seq<Seq<char>>, i: int)
    ensures
        uris.len() == 0 ==> !registrable(uris),
        0 <= i < uris.len() && !returnable(uris[i]) ==> !registrable(uris),
        uris.len() > 0 && (forall|j: int| 0 <= j < uris.len() ==> returnable(#[trigger] uris[j]))
            ==> registrable(uris),
        registrable(uris) ==> registration_refusal(uris) is None,
        !registrable(uris) ==> registration_refusal(uris) == Some(
            error_reply(
                400,
                "invalid_redirect_uri"@,
                "redirect_uris must be https or localhost"@,
            ),
        ),
{
}

/// A registered client is told its id and its redirect URIs, that it needs no secret, and
/// the one flow that it may use; where it could not be stored the server failed.
pub proof fn law_registered_clients_are_told_their_id(uris: Seq<Seq<char>>, id: Seq<char>)
    ensures
        registered_reply(uris, None) == error_reply(
            500,
            "server_error"@,
            "could not register client"@,
        ),
        registered_reply(uris, Some(id)) is Json,
        registered_reply(uris, Some(id))->Json_0 == 201,
        ({
            let body = registered_reply(uris, Some(id))->Json_1;
            &&& body.get("client_id"@) == Some(JsonView::Text(id))
            &&& body.get("redirect_uris"@) == Some(text_array(uris))
            &&& body.get("token_endpoint_auth_method"@) == Some(JsonView::Text("none"@))
            &&& body.get("grant_types"@) == Some(
                JsonView::Array(seq![JsonView::Text("authorization_code"@)]),
            )
            &&& body.get("response_types"@) == Some(JsonView::Array(seq![JsonView::Text("code"@)]))
        }),
{
    let m = registered_reply(uris, Some(id))->Json_1->Object_0;
    reveal_strlit("client_id");
    reveal_strlit("redirect_uris");
    reveal_strlit("token_endpoint_auth_method");
    reveal_strlit("grant_types");
    reveal_strlit("response_types");
    assert("client_id"@.len() == 9
        && "redirect_uris"@.len() == 13
        && "token_endpoint_auth_method"@.len() == 26
        && "grant_types"@.len() == 11
        && "response_types"@.len() == 14);
    law_the_first_member_of_a_name_is_found(m, 0, "client_id"@);
    law_the_first_member_of_a_name_is_found(m, 1, "redirect_uris"@);
    law_the_first_member_of_a_name_is_found(m, 2, "token_endpoint_auth_method"@);
    law_the_first_member_of_a_name_is_found(m, 3, "grant_types"@);
    law_the_first_member_of_a_name_is_found(m, 4, "response_types"@);
}

/// A parameter is added behind a question mark, or behind an ampersand where the address
/// has one already; the client's state follows, if it sent one.
pub proof fn law_addresses_take_another_parameter(
    url: Seq<char>,
    name: Seq<char>,
    value: Seq<char>,
    state: Seq<char>,
)
    ensures
        !url.contains('?') ==> return_url(url, name, value, None) == url + "?"@ + name + value,
        url.contains('?') ==> return_url(url, name, value, None) == url + "&"@ + name + value,
        return_url(url, name, value, Some(state)) == return_url(url, name, value, None)
            + "&state="@ + query_value(state),
{
    reveal_strlit("?");
    reveal_strlit("&");
    let none = return_url(url, name, value, None);
    if url.contains('?') {
        assert(none =~= url + "&"@ + name + value);
    } else {
        assert(none =~= url + "?"@ + name + value);
    }
    assert(return_url(url, name, value, Some(state)) =~= none + "&state="@ + query_value(state));
}

/// Letters, digits and `-`, `_`, `.`, `~` stand for themselves in a query value; every
/// other byte is a percent sign and its two digits.
pub proof fn law_bytes_are_escaped_unless_unreserved(b: u8)
    ensures
        ({
            let c = b as char;
            let plain = 'A' <= c && c <= 'Z' || 'a' <= c && c <= 'z' || '0' <= c && c <= '9' || c
                == '-' || c == '_' || c == '.' || c == '~';
            &&& plain ==> byte_enc(b) == seq![c]
            &&& !plain ==> byte_enc(b).len() == 3 && byte_enc(b)[0] == '%' && hex_value(
                byte_enc(b)[1],
            ) == Some((b / 16) as nat) && hex_value(byte_enc(b)[2]) == Some((b % 16) as nat)
                && !('a' <= byte_enc(b)[1] && byte_enc(b)[1] <= 'f') && !('a' <= byte_enc(b)[2]
                && byte_enc(b)[2] <= 'f')
        }),
        bytes_enc(seq![b]) == byte_enc(b),
{
    reveal_with_fuel(bytes_enc, 2);
    assert(seq![b].drop_last() =~= Seq::empty());
    assert(bytes_enc(seq![b]) =~= byte_enc(b));
}

/// What an authorization request is answered, check by check: the client and its redirect
/// URI first, by plain text; what is wrong after that goes back to the client, with its
/// state.
pub proof fn law_authorization_checks_in_order(req: AuthorizeReq, uris: Vec<String>)
    ensures
        authorization(req, Lookup::Unknown) == Err::<CodeRequestView, _>(
            ReplyView::Text(400, "unknown client_id"@),
        ),
        authorization(req, Lookup::Failed) == Err::<CodeRequestView, _>(
            ReplyView::Text(500, "server error"@),
        ),
        ({
            let answer = authorization(req, Lookup::Found(uris));
            let known = texts(uris@).contains(req.redirect_uri@);
            let back = |err: Seq<char>|
                ReplyView::Redirect(
                    return_url(req.redirect_uri@, "error="@, err, opt_text(req.state)),
                );
            let hashed = req.code_challenge_method is Some && req.code_challenge_method->0@
                == "S256"@;
            &&& !known ==> answer == Err::<CodeRequestView, _>(
                ReplyView::Text(400, "redirect_uri not registered"@),
            )
            &&& known && req.response_type@ != "code"@ ==> answer == Err::<CodeRequestView, _>(
                back("unsupported_response_type"@),
            )
            &&& known && req.response_type@ == "code"@ && (req.code_challenge is None || !hashed)
                ==> answer == Err::<CodeRequestView, _>(back("invalid_request"@))
            &&& known && req.response_type@ == "code"@ && req.code_challenge is Some && hashed
                ==> answer == Ok::<_, ReplyView>(
                CodeRequestView {
                    client_id: req.client_id@,
                    code_challenge: req.code_challenge->0@,
                    redirect_uri: req.redirect_uri@,
                    resource: opt_text(req.resource),
                },
            )
        }),
{
}

/// An issued code goes back to the client under `code`, a failure to store it as an
/// error of the server, either with its state.
pub proof fn law_codes_go_back_to_the_client(req: AuthorizeReq, code: Seq<char>)
    ensures
        authorized_reply(req, Some(code)) == ReplyView::Redirect(
            return_url(req.redirect_uri@, "code="@, code, opt_text(req.state)),
        ),
        authorized_reply(req, None) == ReplyView::Redirect(
            return_url(req.redirect_uri@, "error="@, "server_error"@, opt_text(req.state)),
        ),
{
}

/// What the store answers about a client: its redirect URIs, that there is none, or a
/// failure, also where the row does not list any.
pub proof fn law_clients_are_known_by_their_row(
    found: Lookup,
    json: Seq<char>,
    rest: Seq<SqlValueView>,
)
    ensures
        lookup_reads(found, Answer::NoRow) <==> found is Unknown,
        lookup_reads(found, Answer::Failed) <==> found is Failed,
        lookup_reads(found, Answer::Row(Seq::empty())) <==> found is Failed,
        ({
            let row = Answer::Row(seq![SqlValueView::Text(json)] + rest);
            &&& listed_texts(json) is None ==> (lookup_reads(found, row) <==> found is Failed)
            &&& listed_texts(json) is Some ==> (lookup_reads(found, row) <==> found is Found
                && texts(found->Found_0@) == listed_texts(json)->0)
        }),
{
    assert((seq![SqlValueView::Text(json)] + rest)[0] == SqlValueView::Text(json));
}

/// What the store answers to the claim of a code: what it is bound to, column by column,
/// that it is not good, or a failure.
pub proof fn law_claims_are_known_by_their_row(
    claimed: Claimed,
    client_id: Seq<char>,
    challenge: Seq<char>,
    resource: Seq<char>,
)
    ensures
        claim_reads(claimed, Answer::NoRow) <==> claimed is Invalid,
        claim_reads(claimed, Answer::Failed) <==> claimed is Failed,
        claim_reads(claimed, Answer::Row(Seq::empty())) <==> claimed is Failed,
        ({
            let a = SqlValueView::Text(client_id);
            let b = SqlValueView::Text(challenge);
            let bound = claimed is Code && claimed->Code_0.client_id@ == client_id
                && claimed->Code_0.code_challenge@ == challenge;
            &&& claim_reads(claimed, Answer::Row(seq![a, b, SqlValueView::Null])) <==> bound
                && claimed->Code_0.resource is None
            &&& claim_reads(claimed, Answer::Row(seq![a, b, SqlValueView::Text(resource)])) <==> bound
                && opt_text(claimed->Code_0.resource) == Some(resource)
        }),
{
}

/// A token request is taken if it asks for the one flow and names a code, a redirect URI
/// and a verifier; the flow is checked first.
pub proof fn law_token_requests_name_what_they_need(req: TokenReq)
    ensures
        req.grant_type@ != "authorization_code"@ ==> token_refusal(req) == Some(
            error_reply(
                400,
                "unsupported_grant_type"@,
                "only authorization_code is supported"@,
            ),
        ),
        req.grant_type@ == "authorization_code"@ && (req.code is None || req.redirect_uri is None
            || req.code_verifier is None) ==> token_refusal(req) == Some(
            error_reply(
                400,
                "invalid_request"@,
                "missing code / redirect_uri / code_verifier"@,
            ),
        ),
        req.grant_type@ == "authorization_code"@ && req.code is Some && req.redirect_uri is Some
            && req.code_verifier is Some ==> token_refusal(req) is None,
{
}

/// A token is granted for thirty days to the client of the code, for the audience that
/// was asked for with it or else for this server; what is not granted is told apart.
pub proof fn law_tokens_are_granted_for_thirty_days(
    st: OAuthState,
    challenge: Seq<char>,
    code: AuthCode,
)
    ensures
        redemption(st, challenge, Claimed::Failed) == Err::<TokenGrantView, _>(
            error_reply(500, "server_error"@, "token failed"@),
        ),
        redemption(st, challenge, Claimed::Invalid) == Err::<TokenGrantView, _>(
            error_reply(400, "invalid_grant"@, "code invalid, expired, or already used"@),
        ),
        challenge != code.code_challenge@ ==> redemption(st, challenge, Claimed::Code(code))
            == Err::<TokenGrantView, _>(
            error_reply(400, "invalid_grant"@, "PKCE verification failed"@),
        ),
        challenge == code.code_challenge@ ==> redemption(st, challenge, Claimed::Code(code))
            == Ok::<_, ReplyView>(
            TokenGrantView {
                client_id: code.client_id@,
                audience: match code.resource {
                    Some(a) => a@,
                    None => st.public_url@ + "/mcp"@,
                },
                scope: "mcp"@,
                ttl_secs: 30 * 24 * 60 * 60int,
            },
        ),
{
}

proof fn lemma_thirty_days()
    ensures
        decimal(2592000) == "2592000"@,
{
    reveal_with_fuel(decimal, 8);
    reveal_strlit("2592000");
    assert(decimal(2592000) =~= "2592000"@);
}

/// An issued token is told with its type, its lifetime in seconds and its scope; where it
/// could not be stored the server failed.
pub proof fn law_tokens_are_told_with_their_lifetime(token: Seq<char>)
    ensures
        issued_reply(None) == error_reply(500, "server_error"@, "token failed"@),
        issued_reply(Some(token)) is Json,
        issued_reply(Some(token))->Json_0 == 200,
        ({
            let body = issued_reply(Some(token))->Json_1;
            &&& body.get("access_token"@) == Some(JsonView::Text(token))
            &&& body.get("token_type"@) == Some(JsonView::Text("Bearer"@))
            &&& body.get("expires_in"@) == Some(JsonView::Number("2592000"@))
            &&& body.get("scope"@) == Some(JsonView::Text("mcp"@))
        }),
{
    lemma_thirty_days();
    let m = issued_reply(Some(token))->Json_1->Object_0;
    reveal_strlit("access_token");
    reveal_strlit("token_type");
    reveal_strlit("expires_in");
    reveal_strlit("scope");
    assert("access_token"@.len() == 12
        && "token_type"@.len() == 10
        && "expires_in"@.len() == 10
        && "scope"@.len() == 5);
    assert("token_type"@[0] != "expires_in"@[0]);
    law_the_first_member_of_a_name_is_found(m, 0, "access_token"@);
    law_the_first_member_of_a_name_is_found(m, 1, "token_type"@);
    law_the_first_member_of_a_name_is_found(m, 2, "expires_in"@);
    law_the_first_member_of_a_name_is_found(m, 3, "scope"@);
}

/// A verifier answers the challenge that is the Base64 of its own digest.
pub proof fn law_verifiers_answer_their_digest(verifier: Seq<char>)
    ensures
        challenge_of(verifier) == base64_url(sha256_digest(encode_utf8(verifier))),
{
}

/// A reply, a code to be issued and a token to be issued are what their fields hold, each
/// under its own name.
pub proof fn law_values_are_their_fields(
    c: CodeRequest,
    g: TokenGrant,
    status: u16,
    body: Json,
    t: String,
)
    ensures
        c@.client_id == c.client_id@ && c@.code_challenge == c.code_challenge@,
        c@.redirect_uri == c.redirect_uri@ && c@.resource == opt_text(c.resource),
        g@.client_id == g.client_id@ && g@.audience == g.audience@,
        g@.scope == g.scope@ && g@.ttl_secs == g.ttl_secs,
        Reply::Json(status, body)@ == ReplyView::Json(status as int, body@),
        Reply::Text(status, t)@ == ReplyView::Text(status as int, t@),
        Reply::Redirect(t)@ == ReplyView::Redirect(t@),
{
}

} // verus!
