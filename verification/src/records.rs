//! What the key store's statements do to its records, and what follows for calls that
//! come one after the other.
//!
//! `SQLite` runs the statements. Here each of them is read as it is written in
//! [`crate::keys`], over maps of the stored rows: its table's keys are unique, what is
//! declared `NOT NULL` is not null, and a time is a text to the second. The laws below
//! hold of every store that runs the statements in this way, whatever else was run in
//! between.

use vstd::prelude::*;
use vstd::string::*;

use crate::auth::key_answer;
use crate::auth::token_answer;
use crate::auth::Checked;
use crate::keys::client_query;
use crate::keys::client_record;
use crate::keys::code_claim;
use crate::keys::code_record;
use crate::keys::hash_of;
use crate::keys::json_list;
use crate::keys::key_query;
use crate::keys::key_record;
use crate::keys::listed_texts;
use crate::keys::opt_value;
use crate::keys::token_query;
use crate::keys::token_record;
use crate::keys::Answer;
use crate::keys::SqlValueView;
use crate::keys::StatementView;
use crate::keys::ADD_KEY_SQL;
use crate::keys::CLIENT_URIS_SQL;
use crate::keys::CONSUME_CODE_SQL;
use crate::keys::CREATE_CODE_SQL;
use crate::keys::ISSUE_TOKEN_SQL;
use crate::keys::LOG_USAGE_SQL;
use crate::keys::REGISTER_CLIENT_SQL;
use crate::keys::VERIFY_OAUTH_SQL;
use crate::keys::VERIFY_SQL;
use crate::oauth::challenge_of;
use crate::oauth::claim_reads;
use crate::oauth::error_reply;
use crate::oauth::lookup_reads;
use crate::oauth::redemption;
use crate::oauth::Claimed;
use crate::oauth::Lookup;
use crate::oauth::OAuthState;
use crate::oauth::ReplyView;
use crate::oauth::TokenGrantView;
use crate::text::decimal;
use crate::text::lemma_decimal_value;
use crate::text::texts;

verus! {

// ---- the records ----

/// A stored key.
pub struct KeyRow {
    pub id: int,
    pub active: bool,
}

/// A stored authorization code.
pub struct CodeRow {
    pub client_id: SqlValueView,
    pub code_challenge: SqlValueView,
    pub redirect_uri: SqlValueView,
    pub resource: SqlValueView,
    pub expires_at: nat,
    pub used: bool,
}

/// A stored access token.
pub struct TokenRow {
    pub audience: SqlValueView,
    pub expires_at: nat,
}

/// What is stored: keys, codes and tokens by their hashes, and the lists of redirect
/// URIs by their clients.
#[verifier::ext_equal]
pub struct Records {
    pub keys: Map<SqlValueView, KeyRow>,
    pub clients: Map<SqlValueView, SqlValueView>,
    pub codes: Map<SqlValueView, CodeRow>,
    pub tokens: Map<SqlValueView, TokenRow>,
}

impl Records {
    /// A new store.
    pub open spec fn empty() -> Records {
        Records {
            keys: Map::empty(),
            clients: Map::empty(),
            codes: Map::empty(),
            tokens: Map::empty(),
        }
    }
}

// ---- the statements ----

/// What a statement is for.
pub enum Kind {
    AddKey,
    FindKey,
    LogUsage,
    AddClient,
    FindClient,
    AddCode,
    ClaimCode,
    AddToken,
    FindToken,
    Other,
}

/// What a statement with this text is for.
pub open spec fn kind_of(sql: Seq<char>) -> Kind {
    if sql == ADD_KEY_SQL@ {
        Kind::AddKey
    } else if sql == VERIFY_SQL@ {
        Kind::FindKey
    } else if sql == LOG_USAGE_SQL@ {
        Kind::LogUsage
    } else if sql == REGISTER_CLIENT_SQL@ {
        Kind::AddClient
    } else if sql == CLIENT_URIS_SQL@ {
        Kind::FindClient
    } else if sql == CREATE_CODE_SQL@ {
        Kind::AddCode
    } else if sql == CONSUME_CODE_SQL@ {
        Kind::ClaimCode
    } else if sql == ISSUE_TOKEN_SQL@ {
        Kind::AddToken
    } else if sql == VERIFY_OAUTH_SQL@ {
        Kind::FindToken
    } else {
        Kind::Other
    }
}

proof fn lemma_kinds()
    ensures
        kind_of(ADD_KEY_SQL@) == Kind::AddKey,
        kind_of(VERIFY_SQL@) == Kind::FindKey,
        kind_of(REGISTER_CLIENT_SQL@) == Kind::AddClient,
        kind_of(CLIENT_URIS_SQL@) == Kind::FindClient,
        kind_of(CREATE_CODE_SQL@) == Kind::AddCode,
        kind_of(CONSUME_CODE_SQL@) == Kind::ClaimCode,
        kind_of(ISSUE_TOKEN_SQL@) == Kind::AddToken,
        kind_of(VERIFY_OAUTH_SQL@) == Kind::FindToken,
{
    // The texts differ in length.
    reveal_strlit(
        "INSERT INTO api_keys (key_hash, label, created_at) VALUES (?1, ?2, datetime('now'))",
    );
    reveal_strlit("SELECT id FROM api_keys WHERE key_hash = ?1 AND active = 1");
    reveal_strlit(
        "INSERT INTO usage (key_id, tool, ts, latency_ms, rows) VALUES (?1, ?2, datetime('now'), ?3, ?4)",
    );
    reveal_strlit(
        "INSERT INTO oauth_clients (client_id, redirect_uris, created_at) VALUES (?1, ?2, datetime('now'))",
    );
    reveal_strlit("SELECT redirect_uris FROM oauth_clients WHERE client_id = ?1");
    reveal_strlit(
        "INSERT INTO oauth_codes (code_hash, client_id, code_challenge, redirect_uri, resource, expires_at, used)
             VALUES (?1, ?2, ?3, ?4, ?5, datetime('now', '+60 seconds'), 0)",
    );
    reveal_strlit(
        "UPDATE oauth_codes SET used = 1
             WHERE code_hash = ?1 AND used = 0 AND redirect_uri = ?2 AND expires_at > datetime('now')
             RETURNING client_id, code_challenge, resource",
    );
    reveal_strlit(
        "INSERT INTO oauth_tokens (token_hash, client_id, audience, scope, expires_at)
             VALUES (?1, ?2, ?3, ?4, datetime('now', ?5))",
    );
    reveal_strlit(
        "SELECT 1 FROM oauth_tokens WHERE token_hash = ?1 AND audience = ?2 AND expires_at > datetime('now')",
    );
    assert(ADD_KEY_SQL@.len() == 83 && VERIFY_SQL@.len() == 58 && LOG_USAGE_SQL@.len() == 95);
    assert(REGISTER_CLIENT_SQL@.len() == 97 && CLIENT_URIS_SQL@.len() == 60);
    assert(CREATE_CODE_SQL@.len() == 180 && CONSUME_CODE_SQL@.len() == 192);
    assert(ISSUE_TOKEN_SQL@.len() == 135 && VERIFY_OAUTH_SQL@.len() == 99);
}

/// The last second of the year 9999, counted from the start of the year 0. The store
/// knows no later time.
pub const LAST_SECOND: u64 = 315569519999;

/// The lifetime that a text asks for, if it is one as tokens are stored with.
pub open spec fn lifetime_of(v: SqlValueView) -> Option<nat> {
    if exists|n: nat| v == lifetime(n) {
        Some(choose|n: nat| v == lifetime(n))
    } else {
        None
    }
}

/// The text that asks for a lifetime of `n` seconds.
pub open spec fn lifetime(n: nat) -> SqlValueView {
    SqlValueView::Text("+"@ + decimal(n) + " seconds"@)
}

proof fn lemma_lifetime(n: nat)
    ensures
        lifetime_of(lifetime(n)) == Some(n),
{
    let v = lifetime(n);
    let m = choose|m: nat| v == lifetime(m);
    assert(v == lifetime(m));
    let p = "+"@.len() as int;
    let q = " seconds"@.len() as int;
    let a = "+"@ + decimal(n) + " seconds"@;
    let b = "+"@ + decimal(m) + " seconds"@;
    assert(a == b);
    assert(a.subrange(p, a.len() - q) =~= decimal(n));
    assert(b.subrange(p, b.len() - q) =~= decimal(m));
    lemma_decimal_value(n);
    lemma_decimal_value(m);
}

/// True if no key has this id.
pub open spec fn is_free(r: Records, id: int) -> bool {
    forall|h: SqlValueView| #[trigger] r.keys.contains_key(h) ==> r.keys[h].id != id
}

/// What a statement does and answers at the time `now`, in seconds. `id` is the row
/// number that the store picks if it adds a key, which no other key has.
pub open spec fn run(r: Records, s: StatementView, now: nat, id: int) -> (Records, Answer) {
    let p = s.params;
    match kind_of(s.sql) {
        Kind::AddKey => if p.len() == 2 && p[0] is Text && !r.keys.contains_key(p[0]) && is_free(
            r,
            id,
        ) {
            (
                Records { keys: r.keys.insert(p[0], KeyRow { id, active: true }), ..r },
                Answer::NoRow,
            )
        } else {
            (r, Answer::Failed)
        },
        Kind::FindKey => if p.len() != 1 {
            (r, Answer::Failed)
        } else if r.keys.contains_key(p[0]) && r.keys[p[0]].active {
            (r, Answer::Row(seq![SqlValueView::Integer(r.keys[p[0]].id)]))
        } else {
            (r, Answer::NoRow)
        },
        Kind::LogUsage => (r, Answer::NoRow),
        Kind::AddClient => if p.len() == 2 && p[0] is Text && p[1] is Text
            && !r.clients.contains_key(p[0]) {
            (Records { clients: r.clients.insert(p[0], p[1]), ..r }, Answer::NoRow)
        } else {
            (r, Answer::Failed)
        },
        Kind::FindClient => if p.len() != 1 {
            (r, Answer::Failed)
        } else if r.clients.contains_key(p[0]) {
            (r, Answer::Row(seq![r.clients[p[0]]]))
        } else {
            (r, Answer::NoRow)
        },
        Kind::AddCode => if p.len() == 5 && p[0] is Text && p[1] is Text && p[2] is Text
            && p[3] is Text && !r.codes.contains_key(p[0]) && now + 60 <= LAST_SECOND {
            let row = CodeRow {
                client_id: p[1],
                code_challenge: p[2],
                redirect_uri: p[3],
                resource: p[4],
                expires_at: now + 60,
                used: false,
            };
            (Records { codes: r.codes.insert(p[0], row), ..r }, Answer::NoRow)
        } else {
            (r, Answer::Failed)
        },
        Kind::ClaimCode => if p.len() != 2 {
            (r, Answer::Failed)
        } else if r.codes.contains_key(p[0]) && !r.codes[p[0]].used
            && r.codes[p[0]].redirect_uri == p[1] && r.codes[p[0]].expires_at > now {
            let row = r.codes[p[0]];
            (
                Records { codes: r.codes.insert(p[0], CodeRow { used: true, ..row }), ..r },
                Answer::Row(seq![row.client_id, row.code_challenge, row.resource]),
            )
        } else {
            (r, Answer::NoRow)
        },
        Kind::AddToken => if p.len() == 5 && p[0] is Text && p[2] is Text
            && !r.tokens.contains_key(p[0]) && lifetime_of(p[4]) is Some && now + lifetime_of(
            p[4],
        )->0 <= LAST_SECOND {
            let row = TokenRow { audience: p[2], expires_at: now + lifetime_of(p[4])->0 };
            (Records { tokens: r.tokens.insert(p[0], row), ..r }, Answer::NoRow)
        } else {
            (r, Answer::Failed)
        },
        Kind::FindToken => if p.len() != 2 {
            (r, Answer::Failed)
        } else if r.tokens.contains_key(p[0]) && r.tokens[p[0]].audience == p[1]
            && r.tokens[p[0]].expires_at > now {
            (r, Answer::Row(seq![SqlValueView::Integer(1)]))
        } else {
            (r, Answer::NoRow)
        },
        Kind::Other => (r, Answer::Failed),
    }
}

// ---- histories ----

/// Something that happens to a store.
pub enum Event {
    /// A statement is handed to it at a time; `works` tells whether it could run it at
    /// all, and `id` the row number that it picks.
    Run { statement: StatementView, now: nat, id: int, works: bool },
    /// An operator switches a key on or off.
    Switch { id: int, active: bool },
}

/// What an event does, and what the store answers.
pub open spec fn step(r: Records, e: Event) -> (Records, Answer) {
    match e {
        Event::Run { statement, now, id, works } => if works {
            run(r, statement, now, id)
        } else {
            (r, Answer::Failed)
        },
        Event::Switch { id, active } => (
            Records {
                keys: r.keys.map_values(
                    |row: KeyRow|
                        if row.id == id {
                            KeyRow { id, active }
                        } else {
                            row
                        },
                ),
                ..r
            },
            Answer::NoRow,
        ),
    }
}

/// What is stored after some events.
pub open spec fn after(r: Records, history: Seq<Event>) -> Records
    decreases history.len(),
{
    if history.len() == 0 {
        r
    } else {
        step(after(r, history.drop_last()), history.last()).0
    }
}

/// What the store answers to one of some events.
pub open spec fn answer_at(r: Records, history: Seq<Event>, i: int) -> Answer {
    step(after(r, history.take(i)), history[i]).1
}

/// True if an event is a statement of this kind about the record `key`.
pub open spec fn about(e: Event, kind: Kind, key: SqlValueView) -> bool {
    match e {
        Event::Run { statement, .. } => {
            &&& kind_of(statement.sql) == kind
            &&& statement.params.len() > 0
            &&& statement.params[0] == key
        },
        Event::Switch { .. } => false,
    }
}

/// True if the code with this hash was given up to one of some claims.
pub open spec fn given_up(r: Records, history: Seq<Event>, hash: SqlValueView) -> bool {
    exists|i: int|
        0 <= i < history.len() && #[trigger] about(history[i], Kind::ClaimCode, hash)
            && answer_at(r, history, i) is Row
}

/// True if none of some events stores the record `key`.
pub open spec fn never(history: Seq<Event>, kind: Kind, key: SqlValueView) -> bool {
    forall|i: int| 0 <= i < history.len() ==> !(#[trigger] about(history[i], kind, key))
}

/// True if the key with this id is on after some events, where it was on before.
pub open spec fn left_on(history: Seq<Event>, id: int) -> bool
    decreases history.len(),
{
    if history.len() == 0 {
        true
    } else {
        match history.last() {
            Event::Switch { id: other, active } => if other == id {
                active
            } else {
                left_on(history.drop_last(), id)
            },
            _ => left_on(history.drop_last(), id),
        }
    }
}

// ---- what histories keep ----

proof fn lemma_given_up_step(r: Records, history: Seq<Event>, hash: SqlValueView)
    requires
        history.len() > 0,
    ensures
        given_up(r, history, hash) == (given_up(r, history.drop_last(), hash) || (about(
            history.last(),
            Kind::ClaimCode,
            hash,
        ) && step(after(r, history.drop_last()), history.last()).1 is Row)),
{
    let h = history.drop_last();
    let n = h.len() as int;
    assert(history.take(n) =~= h);
    assert forall|i: int| 0 <= i < n implies #[trigger] answer_at(r, history, i) == answer_at(
        r,
        h,
        i,
    ) by {
        assert(history.take(i) =~= h.take(i));
    }
    if given_up(r, h, hash) {
        let i = choose|i: int|
            0 <= i < h.len() && #[trigger] about(h[i], Kind::ClaimCode, hash) && answer_at(
                r,
                h,
                i,
            ) is Row;
        assert(about(history[i], Kind::ClaimCode, hash));
        assert(answer_at(r, history, i) is Row);
    }
    if about(history.last(), Kind::ClaimCode, hash) && step(after(r, h), history.last()).1 is Row {
        assert(about(history[n], Kind::ClaimCode, hash));
        assert(answer_at(r, history, n) is Row);
    }
    if given_up(r, history, hash) {
        let i = choose|i: int|
            0 <= i < history.len() && #[trigger] about(history[i], Kind::ClaimCode, hash)
                && answer_at(r, history, i) is Row;
        if i < n {
            assert(about(h[i], Kind::ClaimCode, hash));
            assert(answer_at(r, h, i) is Row);
        }
    }
}

/// A stored code stays, bound as it was; it is used once it was given up.
proof fn lemma_codes_stay(r: Records, history: Seq<Event>, hash: SqlValueView)
    requires
        r.codes.contains_key(hash),
    ensures
        after(r, history).codes.contains_key(hash),
        after(r, history).codes[hash] == (CodeRow {
            used: r.codes[hash].used || given_up(r, history, hash),
            ..r.codes[hash]
        }),
    decreases history.len(),
{
    if history.len() > 0 {
        lemma_codes_stay(r, history.drop_last(), hash);
        lemma_given_up_step(r, history, hash);
    }
}

/// A stored token stays as it was.
proof fn lemma_tokens_stay(r: Records, history: Seq<Event>, hash: SqlValueView)
    requires
        r.tokens.contains_key(hash),
    ensures
        after(r, history).tokens.contains_key(hash),
        after(r, history).tokens[hash] == r.tokens[hash],
    decreases history.len(),
{
    if history.len() > 0 {
        lemma_tokens_stay(r, history.drop_last(), hash);
    }
}

/// A stored client stays as it was.
proof fn lemma_clients_stay(r: Records, history: Seq<Event>, id: SqlValueView)
    requires
        r.clients.contains_key(id),
    ensures
        after(r, history).clients.contains_key(id),
        after(r, history).clients[id] == r.clients[id],
    decreases history.len(),
{
    if history.len() > 0 {
        lemma_clients_stay(r, history.drop_last(), id);
    }
}

/// A stored key stays, under its id; only switching it changes whether it is on.
proof fn lemma_keys_stay(r: Records, history: Seq<Event>, hash: SqlValueView)
    requires
        r.keys.contains_key(hash),
        r.keys[hash].active,
    ensures
        after(r, history).keys.contains_key(hash),
        after(r, history).keys[hash] == (KeyRow {
            id: r.keys[hash].id,
            active: left_on(history, r.keys[hash].id),
        }),
    decreases history.len(),
{
    if history.len() > 0 {
        lemma_keys_stay(r, history.drop_last(), hash);
    }
}

/// No two keys have the same id.
spec fn ids_differ(r: Records) -> bool {
    forall|a: SqlValueView, b: SqlValueView|
        #![trigger r.keys[a], r.keys[b]]
        r.keys.contains_key(a) && r.keys.contains_key(b) && r.keys[a].id == r.keys[b].id ==> a == b
}

proof fn lemma_ids_differ(history: Seq<Event>)
    ensures
        ids_differ(after(Records::empty(), history)),
    decreases history.len(),
{
    if history.len() > 0 {
        lemma_ids_differ(history.drop_last());
    }
}

/// Every record was stored by an event.
proof fn lemma_only_stored(history: Seq<Event>, key: SqlValueView)
    ensures
        never(history, Kind::AddKey, key) ==> !after(Records::empty(), history).keys.contains_key(
            key,
        ),
        never(history, Kind::AddClient, key) ==> !after(
            Records::empty(),
            history,
        ).clients.contains_key(key),
        never(history, Kind::AddCode, key) ==> !after(Records::empty(), history).codes.contains_key(
            key,
        ),
        never(history, Kind::AddToken, key) ==> !after(
            Records::empty(),
            history,
        ).tokens.contains_key(key),
    decreases history.len(),
{
    if history.len() > 0 {
        let h = history.drop_last();
        lemma_only_stored(h, key);
        assert forall|kind: Kind| #[trigger] never(history, kind, key) implies never(h, kind, key)
            && !about(history.last(), kind, key) by {
            assert forall|i: int| 0 <= i < h.len() implies !(#[trigger] about(h[i], kind, key)) by {
                assert(!about(history[i], kind, key));
            }
            assert(!about(history[h.len() as int], kind, key));
        }
    }
}

// ---- laws of the store ----

/// An authorization code is given up to the first claim that names its redirect URI
/// within a minute, with the client, the challenge and the resource that it was made
/// for, and to no other. Any other claim finds nothing and leaves the store as it was,
/// so a wrong URI does not use the code up.
pub proof fn law_a_code_is_given_up_once_to_its_address_within_a_minute(
    r: Records,
    secret: Seq<char>,
    client_id: Seq<char>,
    challenge: Seq<char>,
    uri: Seq<char>,
    resource: Option<Seq<char>>,
    made: nat,
    history: Seq<Event>,
    asked: Seq<char>,
    now: nat,
    id: int,
)
    requires
        run(r, code_record(secret, client_id, challenge, uri, resource), made, id).1 !is Failed,
    ensures
        ({
            let stored = run(
                r,
                code_record(secret, client_id, challenge, uri, resource),
                made,
                id,
            ).0;
            let later = after(stored, history);
            let (end, answer) = run(later, code_claim(secret, asked), now, id);
            if asked == uri && now < made + 60 && !given_up(
                stored,
                history,
                SqlValueView::Text(hash_of(secret)),
            ) {
                answer == Answer::Row(
                    seq![
                        SqlValueView::Text(client_id),
                        SqlValueView::Text(challenge),
                        opt_value(resource),
                    ],
                )
            } else {
                answer == Answer::NoRow && end == later
            }
        }),
{
    lemma_kinds();
    let stored = run(r, code_record(secret, client_id, challenge, uri, resource), made, id).0;
    lemma_codes_stay(stored, history, SqlValueView::Text(hash_of(secret)));
}

/// A code that was given up is never given up again, whoever asks and whenever.
pub proof fn law_a_code_is_claimed_at_most_once(
    r: Records,
    secret: Seq<char>,
    uri: Seq<char>,
    first: nat,
    history: Seq<Event>,
    asked: Seq<char>,
    now: nat,
    id: int,
)
    requires
        run(r, code_claim(secret, uri), first, id).1 is Row,
    ensures
        run(
            after(run(r, code_claim(secret, uri), first, id).0, history),
            code_claim(secret, asked),
            now,
            id,
        ).1 == Answer::NoRow,
{
    lemma_kinds();
    let used = run(r, code_claim(secret, uri), first, id).0;
    lemma_codes_stay(used, history, SqlValueView::Text(hash_of(secret)));
}

/// A failed check uses the code up: where a claimed code is refused for its verifier,
/// every later request with that code is refused as well, also with the right
/// verifier.
pub proof fn law_a_failed_check_uses_the_code_up(
    st: OAuthState,
    r: Records,
    secret: Seq<char>,
    uri: Seq<char>,
    first: nat,
    wrong: Seq<char>,
    claimed: Claimed,
    history: Seq<Event>,
    asked: Seq<char>,
    now: nat,
    verifier: Seq<char>,
    again: Claimed,
    id: int,
)
    requires
        run(r, code_claim(secret, uri), first, id).1 is Row,
        claim_reads(claimed, run(r, code_claim(secret, uri), first, id).1),
        claimed is Code,
        challenge_of(wrong) != claimed->Code_0.code_challenge@,
        claim_reads(
            again,
            run(
                after(run(r, code_claim(secret, uri), first, id).0, history),
                code_claim(secret, asked),
                now,
                id,
            ).1,
        ),
    ensures
        redemption(st, challenge_of(wrong), claimed) == Err::<TokenGrantView, ReplyView>(
            error_reply(400, "invalid_grant"@, "PKCE verification failed"@),
        ),
        redemption(st, challenge_of(verifier), again) == Err::<TokenGrantView, ReplyView>(
            error_reply(400, "invalid_grant"@, "code invalid, expired, or already used"@),
        ),
{
    law_a_code_is_claimed_at_most_once(r, secret, uri, first, history, asked, now, id);
}

/// A registered client is found with the redirect URIs that it registered, in their
/// order. That the stored array reads back as the list is what registering it assures.
pub proof fn law_registered_uris_are_found(
    r: Records,
    client_id: Seq<char>,
    uris: Seq<Seq<char>>,
    made: nat,
    history: Seq<Event>,
    now: nat,
    id: int,
    found: Lookup,
)
    requires
        run(r, client_record(client_id, uris), made, id).1 !is Failed,
        listed_texts(json_list(uris)) == Some(uris),
        lookup_reads(
            found,
            run(
                after(run(r, client_record(client_id, uris), made, id).0, history),
                client_query(client_id),
                now,
                id,
            ).1,
        ),
    ensures
        found is Found,
        texts(found->Found_0@) == uris,
{
    lemma_kinds();
    let stored = run(r, client_record(client_id, uris), made, id).0;
    lemma_clients_stay(stored, history, SqlValueView::Text(client_id));
}

/// An issued token is good for its audience, for as long as it was issued for, and for
/// nothing else.
pub proof fn law_a_token_is_good_for_its_audience_while_it_lives(
    r: Records,
    secret: Seq<char>,
    client_id: Seq<char>,
    audience: Seq<char>,
    scope: Seq<char>,
    ttl_secs: int,
    made: nat,
    history: Seq<Event>,
    asked: Seq<char>,
    now: nat,
    id: int,
)
    requires
        ttl_secs >= 0,
        run(r, token_record(secret, client_id, audience, scope, ttl_secs), made, id).1 !is Failed,
    ensures
        ({
            let stored = run(
                r,
                token_record(secret, client_id, audience, scope, ttl_secs),
                made,
                id,
            ).0;
            let answer = run(after(stored, history), token_query(secret, asked), now, id).1;
            token_answer(answer) == Checked::Answer(asked == audience && now < made + ttl_secs)
        }),
{
    lemma_kinds();
    lemma_lifetime(ttl_secs as nat);
    let stored = run(
        r,
        token_record(secret, client_id, audience, scope, ttl_secs),
        made,
        id,
    ).0;
    lemma_tokens_stay(stored, history, SqlValueView::Text(hash_of(secret)));
}

/// An added key is found under the id that it was given, on every call, for as long as
/// it is on.
pub proof fn law_a_key_is_found_while_it_is_on(
    r: Records,
    secret: Seq<char>,
    label: Seq<char>,
    made: nat,
    id: i64,
    history: Seq<Event>,
    now: nat,
    other: int,
)
    requires
        run(r, key_record(secret, label), made, id as int).1 !is Failed,
    ensures
        ({
            let stored = run(r, key_record(secret, label), made, id as int).0;
            let answer = run(after(stored, history), key_query(secret), now, other).1;
            key_answer(answer) == Checked::Answer(
                if left_on(history, id as int) {
                    Some(id)
                } else {
                    None
                },
            )
        }),
{
    lemma_kinds();
    let stored = run(r, key_record(secret, label), made, id as int).0;
    lemma_keys_stay(stored, history, SqlValueView::Text(hash_of(secret)));
}

/// Keys that are found under one id share a hash: every key has an id of its own.
pub proof fn law_keys_have_ids_of_their_own(
    history: Seq<Event>,
    a: Seq<char>,
    b: Seq<char>,
    now: nat,
    id: int,
)
    requires
        ({
            let r = after(Records::empty(), history);
            &&& run(r, key_query(a), now, id).1 is Row
            &&& run(r, key_query(a), now, id).1 == run(r, key_query(b), now, id).1
        }),
    ensures
        hash_of(a) == hash_of(b),
{
    lemma_kinds();
    lemma_ids_differ(history);
    let r = after(Records::empty(), history);
    let x = SqlValueView::Text(hash_of(a));
    let y = SqlValueView::Text(hash_of(b));
    assert(run(r, key_query(a), now, id).1->Row_0[0] == SqlValueView::Integer(r.keys[x].id));
    assert(run(r, key_query(b), now, id).1->Row_0[0] == SqlValueView::Integer(r.keys[y].id));
}

/// Nothing is found that was never stored: no key, code or token whose hash no event
/// stored, and no client that none registered.
pub proof fn law_what_was_never_stored_is_not_found(
    history: Seq<Event>,
    secret: Seq<char>,
    text: Seq<char>,
    now: nat,
    id: int,
)
    ensures
        ({
            let r = after(Records::empty(), history);
            let hash = SqlValueView::Text(hash_of(secret));
            &&& never(history, Kind::AddKey, hash) ==> key_answer(
                run(r, key_query(secret), now, id).1,
            ) == Checked::Answer::<Option<i64>>(None)
            &&& never(history, Kind::AddCode, hash) ==> run(
                r,
                code_claim(secret, text),
                now,
                id,
            ).1 == Answer::NoRow
            &&& never(history, Kind::AddToken, hash) ==> token_answer(
                run(r, token_query(secret, text), now, id).1,
            ) == Checked::Answer(false)
            &&& never(history, Kind::AddClient, SqlValueView::Text(text)) ==> run(
                r,
                client_query(text),
                now,
                id,
            ).1 == Answer::NoRow
        }),
{
    lemma_kinds();
    lemma_only_stored(history, SqlValueView::Text(hash_of(secret)));
    lemma_only_stored(history, SqlValueView::Text(text));
}

} // verus!
