//! The bearer guard on `/mcp`: whose requests pass, what the others are answered,
//! and what is recorded of a request that passed.
//!
//! The guard asks the key store at most twice, first for an API key, then for an
//! OAuth token; the functions here decide after each answer.

use vstd::prelude::*;
use vstd::string::*;

use crate::json::json_document;
use crate::json::parse_json;
use crate::json::Json;
use crate::json::JsonView;
use crate::keys::Answer;
use crate::keys::Fetched;
use crate::keys::SqlValue;
use crate::keys::SqlValueView;
use crate::oauth::OAuthState;
use crate::text::all_white;
use crate::text::find_char;
use crate::text::first_index;
use crate::text::is_trim;
use crate::text::law_trimming_takes_the_white_space_around;
use crate::text::lemma_first_index;
use crate::text::lower;
use crate::text::opt_text;
use crate::text::same_ignoring_case;
use crate::text::same_text;
use crate::text::str_text;
use crate::text::trim;
use crate::text::trimmed;

verus! {

/// JSON-RPC request bodies are small; this caps what is buffered for the tool
/// name, so a large body cannot exhaust memory.
pub const MAX_BODY: usize = 1048576;

/// What the guard knows of the server.
#[derive(Debug)]
pub struct AuthState {
    /// Canonical base URL, for the `WWW-Authenticate` discovery hint and audience.
    pub public_url: String,
}

/// Who authenticated. API-key requests carry a key id for usage logging; OAuth
/// tokens do not map to a key, so they skip usage logging.
#[derive(Debug, Clone, Copy)]
pub enum Principal {
    ApiKey(i64),
    OAuth,
}

/// How the guard turns a request away.
#[derive(Debug)]
pub enum Refusal {
    /// 401, with the challenge that tells the client where to get a token.
    Unauthorized(String),
    /// 500: the credential could not be checked.
    Internal,
    /// 413: the body is too large.
    TooLarge,
}

/// The mathematical value of a [`Refusal`].
pub enum RefusalView {
    Unauthorized(Seq<char>),
    Internal,
    TooLarge,
}

/// The status code of a refusal.
pub open spec fn status_of(r: RefusalView) -> int {
    match r {
        RefusalView::Unauthorized(_) => 401,
        RefusalView::Internal => 500,
        RefusalView::TooLarge => 413,
    }
}

impl Refusal {
    /// The mathematical value.
    pub open spec fn view(&self) -> RefusalView {
        match self {
            Refusal::Unauthorized(c) => RefusalView::Unauthorized(c@),
            Refusal::Internal => RefusalView::Internal,
            Refusal::TooLarge => RefusalView::TooLarge,
        }
    }

    /// The status code.
    pub fn status(&self) -> (r: u16)
        ensures
            r == status_of(self@),
    {
        match self {
            Refusal::Unauthorized(_) => 401,
            Refusal::Internal => 500,
            Refusal::TooLarge => 413,
        }
    }
}

// ---- credentials ----

/// The bearer token of an `Authorization` header. The scheme is case-insensitive
/// (RFC 7235).
pub open spec fn bearer(header: Seq<char>) -> Option<Seq<char>> {
    match first_index(header, ' ') {
        None => None,
        Some(i) => if lower(header.take(i)) == lower("bearer"@) {
            Some(trimmed(header.skip(i + 1)))
        } else {
            None
        },
    }
}

/// The bearer token of an `Authorization` header.
pub fn bearer_token(header: &str) -> (r: Option<String>)
    ensures
        opt_text(r) == bearer(header@),
{
    match find_char(header, ' ') {
        None => None,
        Some(i) => {
            let n: usize = header.unicode_len();
            let scheme = header.substring_char(0, i);
            assert(scheme@ =~= header@.take(i as int));
            if same_ignoring_case(scheme, "bearer") {
                let rest = header.substring_char(i + 1, n);
                assert(rest@ =~= header@.skip(i + 1));
                Some(trim(rest))
            } else {
                None
            }
        },
    }
}

/// The challenge of a 401: the RFC 9728 discovery hint, without which a client
/// cannot begin the OAuth dance.
pub open spec fn challenge(public_url: Seq<char>) -> Seq<char> {
    "Bearer resource_metadata=\""@ + public_url + "/.well-known/oauth-protected-resource\""@
}

/// A 401 with the discovery hint.
pub fn unauthorized(public_url: &str) -> (r: Refusal)
    ensures
        r@ == RefusalView::Unauthorized(challenge(public_url@)),
{
    let mut s = "Bearer resource_metadata=\"".to_string();
    s.append(public_url);
    s.append("/.well-known/oauth-protected-resource\"");
    Refusal::Unauthorized(s)
}

/// The audience that an OAuth token must be bound to.
pub open spec fn audience_of(public_url: Seq<char>) -> Seq<char> {
    public_url + "/mcp"@
}

// ---- the guard ----

/// What the guard does next.
#[derive(Debug)]
pub enum Step {
    /// Look the token up as an API key.
    CheckKey(String),
    /// Look the token up as an OAuth token for an audience.
    CheckToken(String, String),
    /// Let the request pass.
    Pass(Principal),
    /// Turn the request away.
    Refuse(Refusal),
}

/// The mathematical value of a [`Step`].
pub enum StepView {
    CheckKey(Seq<char>),
    CheckToken(Seq<char>, Seq<char>),
    Pass(Principal),
    Refuse(RefusalView),
}

impl Step {
    /// The mathematical value.
    pub open spec fn view(&self) -> StepView {
        match self {
            Step::CheckKey(t) => StepView::CheckKey(t@),
            Step::CheckToken(t, a) => StepView::CheckToken(t@, a@),
            Step::Pass(p) => StepView::Pass(*p),
            Step::Refuse(r) => StepView::Refuse(r@),
        }
    }
}

/// An answer of the key store, or its failure.
#[derive(Debug)]
pub enum Checked<T> {
    Answer(T),
    Failed,
}

/// What an answer to the query for a key says: the id of the active key, if there is
/// one.
pub open spec fn key_answer(a: Answer) -> Checked<Option<i64>> {
    match a {
        Answer::Row(row) => if row.len() > 0 && row[0] is Integer {
            Checked::Answer(Some(row[0]->Integer_0 as i64))
        } else {
            Checked::Failed
        },
        Answer::NoRow => Checked::Answer(None),
        Answer::Failed => Checked::Failed,
    }
}

/// What an answer to the query for a token says: whether there is one.
pub open spec fn token_answer(a: Answer) -> Checked<bool> {
    match a {
        Answer::Row(row) => if row.len() > 0 && row[0] is Integer {
            Checked::Answer(true)
        } else {
            Checked::Failed
        },
        Answer::NoRow => Checked::Answer(false),
        Answer::Failed => Checked::Failed,
    }
}

/// Reads the answer to the query for a key.
pub fn read_key(fetched: &Fetched) -> (r: Checked<Option<i64>>)
    ensures
        r == key_answer(fetched@),
{
    match fetched {
        Fetched::Row(row) => {
            if row.len() > 0 {
                assert(fetched@->Row_0[0] == row@[0]@);
                match &row[0] {
                    SqlValue::Integer(n) => Checked::Answer(Some(*n)),
                    _ => Checked::Failed,
                }
            } else {
                Checked::Failed
            }
        },
        Fetched::NoRow => Checked::Answer(None),
        Fetched::Failed => Checked::Failed,
    }
}

/// Reads the answer to the query for a token.
pub fn read_token(fetched: &Fetched) -> (r: Checked<bool>)
    ensures
        r == token_answer(fetched@),
{
    match read_key(fetched) {
        Checked::Answer(found) => Checked::Answer(found.is_some()),
        Checked::Failed => Checked::Failed,
    }
}

/// What the guard does with a request: ask for the key first.
pub open spec fn on_header(public_url: Seq<char>, header: Option<Seq<char>>) -> StepView {
    let token = match header {
        Some(h) => bearer(h),
        None => None,
    };
    match token {
        Some(t) => StepView::CheckKey(t),
        None => StepView::Refuse(RefusalView::Unauthorized(challenge(public_url))),
    }
}

/// What the guard does once the token was looked up as an API key.
pub open spec fn on_key(public_url: Seq<char>, token: Seq<char>, found: Checked<Option<i64>>) -> StepView {
    match found {
        Checked::Answer(Some(id)) => StepView::Pass(Principal::ApiKey(id)),
        Checked::Answer(None) => StepView::CheckToken(token, audience_of(public_url)),
        Checked::Failed => StepView::Refuse(RefusalView::Internal),
    }
}

/// What the guard does once the token was looked up as an OAuth token.
pub open spec fn on_token(public_url: Seq<char>, found: Checked<bool>) -> StepView {
    match found {
        Checked::Answer(true) => StepView::Pass(Principal::OAuth),
        Checked::Answer(false) => StepView::Refuse(
            RefusalView::Unauthorized(challenge(public_url)),
        ),
        Checked::Failed => StepView::Refuse(RefusalView::Internal),
    }
}

impl AuthState {
    /// Begins with the `Authorization` header of a request.
    pub fn begin(&self, header: Option<&str>) -> (r: Step)
        ensures
            r@ == on_header(
                self.public_url@,
                str_text(header),
            ),
    {
        let token = match header {
            Some(h) => bearer_token(h),
            None => None,
        };
        match token {
            Some(t) => Step::CheckKey(t),
            None => Step::Refuse(unauthorized(self.public_url.as_str())),
        }
    }

    /// Goes on once `token` was looked up as an API key.
    pub fn key_checked(&self, token: &str, found: Checked<Option<i64>>) -> (r: Step)
        ensures
            r@ == on_key(self.public_url@, token@, found),
    {
        match found {
            Checked::Answer(Some(id)) => Step::Pass(Principal::ApiKey(id)),
            Checked::Answer(None) => Step::CheckToken(
                token.to_string(),
                self.public_url.clone().concat("/mcp"),
            ),
            Checked::Failed => Step::Refuse(Refusal::Internal),
        }
    }

    /// Goes on once the token was looked up as an OAuth token.
    pub fn token_checked(&self, found: Checked<bool>) -> (r: Step)
        ensures
            r@ == on_token(self.public_url@, found),
    {
        match found {
            Checked::Answer(true) => Step::Pass(Principal::OAuth),
            Checked::Answer(false) => Step::Refuse(unauthorized(self.public_url.as_str())),
            Checked::Failed => Step::Refuse(Refusal::Internal),
        }
    }
}

/// How the guard ends, given what the store would answer to each question.
pub open spec fn verdict(
    public_url: Seq<char>,
    header: Option<Seq<char>>,
    key: Checked<Option<i64>>,
    token: Checked<bool>,
) -> StepView {
    match on_header(public_url, header) {
        StepView::CheckKey(t) => match on_key(public_url, t, key) {
            StepView::CheckToken(_, _) => on_token(public_url, token),
            other => other,
        },
        other => other,
    }
}

/// A request passes only with a bearer token that the store confirmed, as an
/// active key or as an unexpired token for this server; the key is asked for
/// first. Everything else is refused.
pub proof fn law_only_confirmed_credentials_pass(
    public_url: Seq<char>,
    header: Option<Seq<char>>,
    key: Checked<Option<i64>>,
    token: Checked<bool>,
)
    ensures
        match verdict(public_url, header, key, token) {
            StepView::Pass(Principal::ApiKey(id)) => header is Some && bearer(header->Some_0) is Some
                && key == Checked::Answer(Some(id)),
            StepView::Pass(Principal::OAuth) => header is Some && bearer(header->Some_0) is Some
                && key == Checked::Answer::<Option<i64>>(None) && token == Checked::Answer(true),
            StepView::Refuse(_) => true,
            _ => false,
        },
{
}

/// Every 401 carries the discovery hint, and a failure of the store is never
/// taken for a bad credential.
pub proof fn law_refusals_tell_where_to_go(
    public_url: Seq<char>,
    header: Option<Seq<char>>,
    key: Checked<Option<i64>>,
    token: Checked<bool>,
)
    ensures
        match verdict(public_url, header, key, token) {
            StepView::Refuse(RefusalView::Unauthorized(c)) => c == challenge(public_url),
            StepView::Refuse(RefusalView::Internal) => key is Failed || token is Failed,
            _ => true,
        },
{
}

/// A token that was asked for without naming an audience is good here: the audience
/// that it is issued for is the one that the guard asks for, and the resource that
/// the discovery document names.
pub proof fn law_tokens_issued_here_are_good_here(st: OAuthState, state: AuthState)
    requires
        st.public_url@ == state.public_url@,
    ensures
        st.resource_spec() == audience_of(state.public_url@),
{
}

// ---- usage ----

/// One use of an API key, for the usage log.
#[derive(Debug)]
pub struct UsageEvent {
    pub key_id: i64,
    pub tool: String,
    pub latency_ms: i64,
}

/// The label of a JSON-RPC request: the tool name for a `tools/call`, else the
/// method, else `mcp`.
pub open spec fn request_label(v: JsonView) -> Seq<char> {
    match v.text_at("method"@) {
        None => "mcp"@,
        Some(method) => if method == "tools/call"@ {
            let name = match v.get("params"@) {
                Some(p) => p.text_at("name"@),
                None => None,
            };
            match name {
                Some(n) => n,
                None => "tools/call"@,
            }
        } else {
            method
        },
    }
}

/// The label of a JSON-RPC request.
pub fn label_of(v: &Json) -> (r: String)
    ensures
        r@ == request_label(v@),
{
    match v.text_at("method") {
        None => "mcp".to_string(),
        Some(method) => {
            if same_text(method.as_str(), "tools/call") {
                let name = match v.get("params") {
                    Some(p) => p.text_at("name"),
                    None => None,
                };
                match name {
                    Some(n) => n.clone(),
                    None => "tools/call".to_string(),
                }
            } else {
                method.clone()
            }
        },
    }
}

/// The label of a request body.
pub open spec fn label_for(body: Seq<u8>) -> Seq<char> {
    match json_document(body) {
        Some(v) => request_label(v),
        None => "mcp"@,
    }
}

/// The label of a request body; `mcp` for non-JSON or bodyless requests (e.g. the
/// SSE GET stream).
pub fn tool_label(bytes: &[u8]) -> (r: String)
    ensures
        r@ == label_for(bytes@),
{
    match parse_json(bytes) {
        Some(v) => label_of(&v),
        None => "mcp".to_string(),
    }
}

/// Reads the body of a request that passed, for its label; `None` stands for a body
/// that could not be buffered within [`MAX_BODY`].
pub fn read_body(body: Option<&[u8]>) -> (r: Result<String, Refusal>)
    ensures
        match body {
            None => r is Err && r->Err_0@ == RefusalView::TooLarge,
            Some(bytes) => r is Ok && r->Ok_0@ == label_for(bytes@),
        },
{
    match body {
        None => Err(Refusal::TooLarge),
        Some(bytes) => Ok(tool_label(bytes)),
    }
}

/// A duration in milliseconds as the usage log keeps it.
pub open spec fn logged_latency(elapsed: u128) -> int {
    if elapsed <= i64::MAX {
        elapsed as int
    } else {
        i64::MAX as int
    }
}

/// A duration in milliseconds as the usage log keeps it.
pub fn latency_ms(elapsed: u128) -> (r: i64)
    ensures
        r == logged_latency(elapsed),
{
    if elapsed <= i64::MAX as u128 {
        elapsed as i64
    } else {
        i64::MAX
    }
}

/// `r` is what is recorded of a request that passed.
pub open spec fn records_use(
    principal: Principal,
    tool: Seq<char>,
    elapsed: u128,
    r: Option<UsageEvent>,
) -> bool {
    match principal {
        Principal::ApiKey(id) => r is Some && r->Some_0.key_id == id && r->Some_0.tool@ == tool
            && r->Some_0.latency_ms == logged_latency(elapsed),
        Principal::OAuth => r is None,
    }
}

/// What is recorded of a request that passed: only API-key requests carry a key
/// id.
pub fn usage_event(principal: Principal, tool: String, elapsed: u128) -> (r: Option<UsageEvent>)
    ensures
        records_use(principal, tool@, elapsed, r),
{
    match principal {
        Principal::ApiKey(key_id) => Some(
            UsageEvent { key_id, tool, latency_ms: latency_ms(elapsed) },
        ),
        Principal::OAuth => None,
    }
}

// ---- laws of the parts ----

/// The status of each refusal.
pub proof fn law_refusals_have_their_status(challenge: Seq<char>)
    ensures
        status_of(RefusalView::Unauthorized(challenge)) == 401,
        status_of(RefusalView::Internal) == 500,
        status_of(RefusalView::TooLarge) == 413,
        MAX_BODY == 1024 * 1024,
{
}

/// A bearer token is what follows the scheme and a space, without the white space around
/// it; the scheme is `bearer` in any case of its letters.
pub proof fn law_bearer_tokens_follow_their_scheme(
    scheme: Seq<char>,
    a: Seq<char>,
    token: Seq<char>,
    b: Seq<char>,
)
    requires
        all_white(a),
        all_white(b),
        is_trim(token),
        !scheme.contains(' '),
    ensures
        lower(scheme) == "bearer"@ ==> bearer(scheme + " "@ + (a + token + b)) == Some(token),
        lower(scheme) != "bearer"@ ==> bearer(scheme + " "@ + (a + token + b)) is None,
        bearer(scheme) is None,
{
    reveal_strlit(" ");
    reveal_strlit("bearer");
    assert(lower("bearer"@) =~= "bearer"@);
    let rest = a + token + b;
    let h = scheme + " "@ + rest;
    let n = scheme.len() as int;
    lemma_first_index(h, ' ');
    assert(h[n] == ' ');
    assert(h.contains(h[n]));
    let k = first_index(h, ' ')->0;
    if k < n {
        assert(h[k] == scheme[k]);
        assert(scheme.contains(scheme[k]));
    }
    assert(k == n);
    assert(h.take(n) =~= scheme);
    assert(h.skip(n + 1) =~= rest);
    law_trimming_takes_the_white_space_around(a, token, b);
    lemma_first_index(scheme, ' ');
    if first_index(scheme, ' ') is Some {
        assert(scheme.contains(scheme[first_index(scheme, ' ')->0]));
    }
}

/// A client that is turned away is told where the server describes itself, and a token
/// has to be for the `/mcp` of this server.
pub proof fn law_the_challenge_names_the_server(public_url: Seq<char>)
    ensures
        challenge(public_url) == "Bearer resource_metadata=\""@ + public_url
            + "/.well-known/oauth-protected-resource\""@,
        audience_of(public_url) == public_url + "/mcp"@,
{
}

/// The answers of the key store: the id of the row that was found, none where there is no
/// row, and a failure where it failed or gave no number.
pub proof fn law_found_rows_are_confirmed(id: i64, rest: Seq<SqlValueView>, text: Seq<char>)
    ensures
        key_answer(Answer::Row(seq![SqlValueView::Integer(id as int)] + rest)) == Checked::Answer(
            Some(id),
        ),
        key_answer(Answer::NoRow) == Checked::Answer::<Option<i64>>(None),
        key_answer(Answer::Failed) == Checked::<Option<i64>>::Failed,
        key_answer(Answer::Row(Seq::empty())) == Checked::<Option<i64>>::Failed,
        key_answer(Answer::Row(seq![SqlValueView::Text(text)] + rest)) == Checked::<
            Option<i64>,
        >::Failed,
        token_answer(Answer::Row(seq![SqlValueView::Integer(id as int)] + rest))
            == Checked::Answer(true),
        token_answer(Answer::NoRow) == Checked::Answer(false),
        token_answer(Answer::Failed) == Checked::<bool>::Failed,
        token_answer(Answer::Row(Seq::empty())) == Checked::<bool>::Failed,
        token_answer(Answer::Row(seq![SqlValueView::Text(text)] + rest)) == Checked::<
            bool,
        >::Failed,
{
    assert((seq![SqlValueView::Integer(id as int)] + rest)[0] == SqlValueView::Integer(id as int));
    assert((seq![SqlValueView::Text(text)] + rest)[0] == SqlValueView::Text(text));
}

/// The token of a request is looked up as it was sent, first as a key and only where
/// there is no such key as a token for this server; what the store confirms passes.
pub proof fn law_confirmed_credentials_pass(
    public_url: Seq<char>,
    header: Seq<char>,
    id: i64,
    key: Checked<Option<i64>>,
    token: Checked<bool>,
)
    requires
        bearer(header) is Some,
    ensures
        on_header(public_url, Some(header)) == StepView::CheckKey(bearer(header)->0),
        on_key(public_url, bearer(header)->0, Checked::Answer(None)) == StepView::CheckToken(
            bearer(header)->0,
            public_url + "/mcp"@,
        ),
        verdict(public_url, Some(header), Checked::Answer(Some(id)), token) == StepView::Pass(
            Principal::ApiKey(id),
        ),
        verdict(public_url, Some(header), Checked::Answer(None), Checked::Answer(true))
            == StepView::Pass(Principal::OAuth),
        verdict(public_url, Some(header), Checked::Answer(None), Checked::Answer(false))
            == StepView::Refuse(RefusalView::Unauthorized(challenge(public_url))),
        verdict(public_url, Some(header), Checked::Failed, token) == StepView::Refuse(
            RefusalView::Internal,
        ),
        verdict(public_url, Some(header), Checked::Answer(None), Checked::Failed)
            == StepView::Refuse(RefusalView::Internal),
        verdict(public_url, None, key, token) == StepView::Refuse(
            RefusalView::Unauthorized(challenge(public_url)),
        ),
{
}

/// A request without a bearer token is challenged.
pub proof fn law_requests_without_a_token_are_challenged(
    public_url: Seq<char>,
    header: Option<Seq<char>>,
    key: Checked<Option<i64>>,
    token: Checked<bool>,
)
    requires
        header is Some ==> bearer(header->0) is None,
    ensures
        verdict(public_url, header, key, token) == StepView::Refuse(
            RefusalView::Unauthorized(challenge(public_url)),
        ),
{
}

/// A request is labelled by the tool that it calls, any other by its method, and what
/// has none as `mcp`.
pub proof fn law_requests_are_labelled(v: JsonView, body: Seq<u8>)
    ensures
        v.text_at("method"@) is None ==> request_label(v) == "mcp"@,
        v.text_at("method"@) is Some && v.text_at("method"@)->0 != "tools/call"@ ==> request_label(
            v,
        ) == v.text_at("method"@)->0,
        v.text_at("method"@) == Some("tools/call"@) && v.get("params"@) is Some && v.get(
            "params"@,
        )->0.text_at("name"@) is Some ==> request_label(v) == v.get("params"@)->0.text_at(
            "name"@,
        )->0,
        v.text_at("method"@) == Some("tools/call"@) && (v.get("params"@) is None || v.get(
            "params"@,
        )->0.text_at("name"@) is None) ==> request_label(v) == "tools/call"@,
        json_document(body) is None ==> label_for(body) == "mcp"@,
        json_document(body) is Some ==> label_for(body) == request_label(json_document(body)->0),
{
}

/// A duration is logged as it is, as long as the log can hold it.
pub proof fn law_durations_are_kept(elapsed: u128)
    ensures
        elapsed <= 9223372036854775807 ==> logged_latency(elapsed) == elapsed,
        elapsed > 9223372036854775807 ==> logged_latency(elapsed) == 9223372036854775807,
{
}

/// Every use of a key is recorded with the key, the tool and the duration; a use of a
/// token is not.
pub proof fn law_uses_of_keys_are_recorded(
    id: i64,
    tool: Seq<char>,
    elapsed: u128,
    r: Option<UsageEvent>,
)
    ensures
        records_use(Principal::ApiKey(id), tool, elapsed, r) ==> r is Some && r->0.key_id == id
            && r->0.tool@ == tool && (elapsed <= 9223372036854775807 ==> r->0.latency_ms
            == elapsed),
        records_use(Principal::OAuth, tool, elapsed, r) <==> r is None,
{
}

/// A step and a refusal are what they hold.
pub proof fn law_steps_are_what_they_hold(t: String, a: String, p: Principal, r: Refusal)
    ensures
        Step::CheckKey(t)@ == StepView::CheckKey(t@),
        Step::CheckToken(t, a)@ == StepView::CheckToken(t@, a@),
        Step::Pass(p)@ == StepView::Pass(p),
        Step::Refuse(r)@ == StepView::Refuse(r@),
        Refusal::Unauthorized(t)@ == RefusalView::Unauthorized(t@),
        Refusal::Internal@ == RefusalView::Internal,
        Refusal::TooLarge@ == RefusalView::TooLarge,
{
}

} // verus!
