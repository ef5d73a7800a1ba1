//! On-demand IDX filing (announcement PDF) fetch and text extraction.
//!
//! The exchange serves announcement PDFs behind a guard that refuses a standard
//! TLS stack. There are two ways past it, primary then fallback: a client with a
//! browser's TLS fingerprint, and a headless browser that fetches the PDF from a
//! cleared page. The functions here decide which addresses may be fetched, what
//! to do after each attempt, and what a fetched body becomes.
//!
//! Extracted text is kept in memory, so a repeat read never fetches again. Only
//! this tool reaches out, to one permitted host.

use std::sync::Arc;

use vstd::hash_map::StringHashMap;
use vstd::prelude::*;
use vstd::string::*;

use crate::serving::instance_dir_name;
use crate::serving::instance_name;
use crate::serving::law_instances_never_share_a_directory;
use crate::text::chars_of;
use crate::text::debug_quoted;
use crate::text::decimal;
use crate::text::ends;
use crate::text::ends_with;
use crate::text::law_parts_of_texts;
use crate::text::opt_text;
use crate::text::push_decimal;
use crate::text::quote;
use crate::text::same_text;
use crate::text::starts;
use crate::text::strip_prefix;

verus! {

/// Caps extracted text, so a huge filing cannot blow up a tool response.
pub const MAX_TEXT_CHARS: usize = 200000;

/// How long one direct fetch may take, in seconds.
pub const FETCH_TIMEOUT_SECS: u64 = 30;

/// The page that a browser opens once to be cleared for the origin.
pub const CLEARANCE_URL: &'static str = "https://www.idx.co.id/en/";

/// How long the extraction of one text may take, in seconds.
pub const EXTRACT_TIMEOUT_SECS: u64 = 120;

/// How long the clearance is waited for, in seconds.
pub const CLEARANCE_WAIT_SECS: u64 = 6;

/// How long a failed page fetch is waited out, in seconds.
pub const RETRY_WAIT_SECS: u64 = 3;

/// One fetched and extracted filing.
#[derive(Debug)]
pub struct Filing {
    pub url: String,
    pub bytes: usize,
    pub chars: usize,
    pub truncated: bool,
    pub text: String,
}

/// Why a filing cannot be had.
#[derive(Debug)]
pub enum FilingError {
    /// The address is not https.
    NotHttps,
    /// The address names this host, which is not permitted.
    Host(String),
    /// The direct fetch was answered with this status.
    Status(u16),
    /// The page fetch was answered with this status.
    Blocked(String),
    /// The page answered something else.
    BadPayload,
    /// The page's answer is not Base64.
    BadBase64,
    /// The browser could not fetch either.
    Browser,
    /// The body, of this many bytes, is not a PDF.
    NotPdf(usize),
    /// The extraction ended abnormally.
    ExtractTask,
    /// The body cannot be read as a PDF.
    Extract,
}

/// The mathematical value of a [`FilingError`].
pub enum FilingErrorView {
    NotHttps,
    Host(Seq<char>),
    Status(nat),
    Blocked(Seq<char>),
    BadPayload,
    BadBase64,
    Browser,
    NotPdf(nat),
    ExtractTask,
    Extract,
}

impl FilingErrorView {
    /// The text shown to the caller.
    pub open spec fn message(self) -> Seq<char> {
        match self {
            FilingErrorView::NotHttps => "url must be https"@,
            FilingErrorView::Host(h) => "url host not allowed (must be idx.co.id): "@ + h,
            FilingErrorView::Status(n) => "HTTP "@ + decimal(n),
            FilingErrorView::Blocked(c) => "browser fetch blocked: HTTP "@ + c,
            FilingErrorView::BadPayload => "bad browser fetch payload"@,
            FilingErrorView::BadBase64 => "decode pdf base64"@,
            FilingErrorView::Browser => "browser fallback fetch"@,
            FilingErrorView::NotPdf(n) => "fetched body is not a PDF ("@ + decimal(n) + " bytes)"@,
            FilingErrorView::ExtractTask => "pdf-extract task"@,
            FilingErrorView::Extract => "extract pdf text"@,
        }
    }
}

impl FilingError {
    /// The mathematical value.
    pub open spec fn view(&self) -> FilingErrorView {
        match self {
            FilingError::NotHttps => FilingErrorView::NotHttps,
            FilingError::Host(h) => FilingErrorView::Host(h@),
            FilingError::Status(n) => FilingErrorView::Status(*n as nat),
            FilingError::Blocked(c) => FilingErrorView::Blocked(c@),
            FilingError::BadPayload => FilingErrorView::BadPayload,
            FilingError::BadBase64 => FilingErrorView::BadBase64,
            FilingError::Browser => FilingErrorView::Browser,
            FilingError::NotPdf(n) => FilingErrorView::NotPdf(*n as nat),
            FilingError::ExtractTask => FilingErrorView::ExtractTask,
            FilingError::Extract => FilingErrorView::Extract,
        }
    }

    /// The text shown to the caller.
    pub fn message(&self) -> (r: String)
        ensures
            r@ == self@.message(),
    {
        match self {
            FilingError::NotHttps => "url must be https".to_string(),
            FilingError::Host(h) => "url host not allowed (must be idx.co.id): ".to_string().concat(
                h.as_str(),
            ),
            FilingError::Status(n) => {
                let mut s = "HTTP ".to_string();
                push_decimal(&mut s, *n as u64);
                s
            },
            FilingError::Blocked(c) => "browser fetch blocked: HTTP ".to_string().concat(
                c.as_str(),
            ),
            FilingError::BadPayload => "bad browser fetch payload".to_string(),
            FilingError::BadBase64 => "decode pdf base64".to_string(),
            FilingError::Browser => "browser fallback fetch".to_string(),
            FilingError::NotPdf(n) => {
                let mut s = "fetched body is not a PDF (".to_string();
                push_decimal(&mut s, *n as u64);
                s.append(" bytes)");
                s
            },
            FilingError::ExtractTask => "pdf-extract task".to_string(),
            FilingError::Extract => "extract pdf text".to_string(),
        }
    }
}

// ---- addresses ----

/// The characters that end the authority of an address: its user information and
/// host.
pub open spec fn ends_authority(c: char) -> bool {
    c == '/' || c == '?' || c == '#' || c == '\\'
}

/// The length of the authority of an address, given what follows the scheme.
pub open spec fn authority_len(rest: Seq<char>) -> int
    decreases rest.len(),
{
    if rest.len() == 0 || ends_authority(rest[0]) {
        0
    } else {
        1 + authority_len(rest.drop_first())
    }
}

/// The authority of an address, given what follows the scheme: the text up to the
/// path, the query or the fragment.
pub open spec fn authority_of(rest: Seq<char>) -> Seq<char> {
    rest.take(authority_len(rest))
}

/// The length of the host at the end of an authority.
pub open spec fn host_len(authority: Seq<char>) -> int
    decreases authority.len(),
{
    if authority.len() == 0 || authority.last() == '@' {
        0
    } else {
        1 + host_len(authority.drop_last())
    }
}

/// The host of an authority: what stands behind the last `@`, which ends the user
/// information; all of it if there is none.
pub open spec fn host_of(authority: Seq<char>) -> Seq<char> {
    authority.skip(authority.len() - host_len(authority))
}

/// True if `host` is the exchange's domain or lies below it.
pub open spec fn host_allowed(host: Seq<char>) -> bool {
    host == "idx.co.id"@ || ends(host, ".idx.co.id"@)
}

proof fn lemma_authority_len(rest: Seq<char>)
    ensures
        0 <= authority_len(rest) <= rest.len(),
        forall|j: int| 0 <= j < authority_len(rest) ==> !ends_authority(#[trigger] rest[j]),
        authority_len(rest) < rest.len() ==> ends_authority(rest[authority_len(rest)]),
    decreases rest.len(),
{
    if rest.len() > 0 && !ends_authority(rest[0]) {
        let t = rest.drop_first();
        lemma_authority_len(t);
        assert forall|j: int| 0 <= j < authority_len(rest) implies !ends_authority(
            #[trigger] rest[j],
        ) by {
            if j > 0 {
                assert(rest[j] == t[j - 1]);
            }
        }
    }
}

proof fn lemma_host_len(a: Seq<char>)
    ensures
        0 <= host_len(a) <= a.len(),
        forall|j: int| a.len() - host_len(a) <= j < a.len() ==> #[trigger] a[j] != '@',
        host_len(a) < a.len() ==> a[a.len() - host_len(a) - 1] == '@',
    decreases a.len(),
{
    if a.len() > 0 && a.last() != '@' {
        let t = a.drop_last();
        lemma_host_len(t);
        assert forall|j: int| a.len() - host_len(a) <= j < a.len() implies #[trigger] a[j]
            != '@' by {
            if j < t.len() {
                assert(a[j] == t[j]);
            }
        }
    }
}

/// The authority of an address, given what follows the scheme.
fn authority_text(rest: &str) -> (r: String)
    ensures
        r@ == authority_of(rest@),
{
    let x = chars_of(rest);
    let mut i: usize = 0;
    assert(rest@.skip(0) =~= rest@);
    while i < x.len() && !(x[i] == '/' || x[i] == '?' || x[i] == '#' || x[i] == '\\')
        invariant
            x@ == rest@,
            i <= x@.len(),
            authority_len(rest@) == i + authority_len(rest@.skip(i as int)),
        decreases x@.len() - i,
    {
        assert(rest@.skip(i as int).drop_first() =~= rest@.skip(i + 1));
        assert(rest@.skip(i as int)[0] == x@[i as int]);
        i = i + 1;
    }
    proof {
        if i < x@.len() {
            assert(rest@.skip(i as int)[0] == x@[i as int]);
        }
        assert(authority_len(rest@) == i);
    }
    let authority = rest.substring_char(0, i);
    assert(authority@ =~= authority_of(rest@));
    authority.to_string()
}

/// The host of an authority.
fn host_text(authority: &str) -> (r: String)
    ensures
        r@ == host_of(authority@),
{
    let x = chars_of(authority);
    let n: usize = authority.unicode_len();
    let mut i: usize = n;
    assert(authority@.take(n as int) =~= authority@);
    while i > 0 && x[i - 1] != '@'
        invariant
            x@ == authority@,
            n == x@.len(),
            i <= n,
            host_len(authority@) == (n - i) + host_len(authority@.take(i as int)),
        decreases i,
    {
        assert(authority@.take(i as int).drop_last() =~= authority@.take(i - 1));
        assert(authority@.take(i as int).last() == x@[i - 1]);
        i = i - 1;
    }
    proof {
        if i > 0 {
            assert(authority@.take(i as int).last() == x@[i - 1]);
        }
        assert(host_len(authority@) == n - i);
    }
    let host = authority.substring_char(i, n);
    assert(host@ =~= host_of(authority@));
    host.to_string()
}

/// Why an address may not be fetched, if it may not.
pub open spec fn url_refusal(url: Seq<char>) -> Option<FilingErrorView> {
    if !starts(url, "https://"@) {
        Some(FilingErrorView::NotHttps)
    } else {
        let authority = authority_of(url.skip("https://"@.len() as int));
        if host_allowed(host_of(authority)) {
            None
        } else {
            Some(FilingErrorView::Host(authority))
        }
    }
}

/// Permits only `idx.co.id` hosts over https.
pub fn validate_url(url: &str) -> (r: Result<(), FilingError>)
    ensures
        match r {
            Ok(_) => url_refusal(url@) is None,
            Err(e) => url_refusal(url@) == Some(e@),
        },
{
    let rest = match strip_prefix(url, "https://") {
        None => {
            return Err(FilingError::NotHttps);
        },
        Some(rest) => rest,
    };
    let authority = authority_text(rest.as_str());
    let host = host_text(authority.as_str());
    if same_text(host.as_str(), "idx.co.id") || ends_with(host.as_str(), ".idx.co.id") {
        Ok(())
    } else {
        Err(FilingError::Host(authority))
    }
}

/// A permitted address is `https://`, then user information up to an `@` or none,
/// then a host that is the exchange's domain or lies below it, then nothing or a path,
/// a query or a fragment. The host holds no character that could end it earlier or
/// begin it later.
pub proof fn law_permitted_addresses_name_the_exchange(url: Seq<char>)
    requires
        url_refusal(url) is None,
    ensures
        ({
            let rest = url.skip("https://"@.len() as int);
            let authority = authority_of(rest);
            let host = host_of(authority);
            let user = authority.take(authority.len() - host.len());
            let tail = rest.skip(authority.len() as int);
            &&& url == "https://"@ + user + host + tail
            &&& host == "idx.co.id"@ || ends(host, ".idx.co.id"@)
            &&& !host.contains('/') && !host.contains('?') && !host.contains('#')
            &&& !host.contains('\\') && !host.contains('@')
            &&& !user.contains('/') && !user.contains('?') && !user.contains('#')
            &&& !user.contains('\\')
            &&& user.len() > 0 ==> user.last() == '@'
            &&& tail.len() > 0 ==> ends_authority(tail[0])
        }),
{
    let rest = url.skip("https://"@.len() as int);
    lemma_authority_len(rest);
    let authority = authority_of(rest);
    lemma_host_len(authority);
    let host = host_of(authority);
    let k = authority.len() - host.len();
    let user = authority.take(k);
    let tail = rest.skip(authority.len() as int);
    assert(url =~= "https://"@ + user + host + tail);
    assert forall|j: int| 0 <= j < authority.len() implies !ends_authority(
        #[trigger] authority[j],
    ) by {
        assert(authority[j] == rest[j]);
    }
    assert forall|j: int| 0 <= j < host.len() implies !ends_authority(#[trigger] host[j])
        && host[j] != '@' by {
        assert(host[j] == authority[k + j]);
    }
    assert forall|j: int| 0 <= j < user.len() implies !ends_authority(#[trigger] user[j]) by {
        assert(user[j] == authority[j]);
    }
}

// ---- direct fetch ----

/// Why a direct answer is not read, if it is not.
pub open spec fn status_refusal(status: u16) -> Option<FilingErrorView> {
    if 200 <= status < 300 {
        None
    } else {
        Some(FilingErrorView::Status(status as nat))
    }
}

/// Refuses a direct answer whose status is not a success.
pub fn check_status(status: u16) -> (r: Result<(), FilingError>)
    ensures
        match r {
            Ok(_) => status_refusal(status) is None,
            Err(e) => status_refusal(status) == Some(e@),
        },
{
    if 200 <= status && status < 300 {
        Ok(())
    } else {
        Err(FilingError::Status(status))
    }
}

/// What follows the direct fetch.
#[derive(Debug)]
pub enum AfterDirect {
    /// Read this body.
    Read(Vec<u8>),
    /// Fetch through the browser.
    Browser,
}

/// Decides after the direct fetch, which may have failed: the browser is only
/// asked where it has.
pub fn after_direct(fetched: Result<Vec<u8>, FilingError>) -> (r: AfterDirect)
    ensures
        match fetched {
            Ok(body) => r is Read && r->Read_0@ == body@,
            Err(_) => r is Browser,
        },
{
    match fetched {
        Ok(body) => AfterDirect::Read(body),
        Err(_) => AfterDirect::Browser,
    }
}

// ---- browser fetch ----

/// What comes before the address in the script that a page runs.
pub const SCRIPT_HEAD: &'static str = "(async () => {
            const r = await fetch(";

/// What comes after the address in the script that a page runs.
pub const SCRIPT_TAIL: &'static str =
    ", {credentials:\"include\"});
            if (!r.ok) return \"ERR:\" + r.status;
            const a = await r.arrayBuffer();
            const u = new Uint8Array(a); let s = \"\"; const C = 8192;
            for (let i = 0; i < u.length; i += C) s += String.fromCharCode.apply(null, u.subarray(i, i + C));
            return \"OK:\" + btoa(s);
        })()";

/// The script that fetches an address from a cleared page.
pub open spec fn script_of(url: Seq<char>) -> Seq<char> {
    SCRIPT_HEAD@ + debug_quoted(url) + SCRIPT_TAIL@
}

/// The script that fetches an address from a cleared page.
pub fn browser_script(url: &str) -> (r: String)
    ensures
        r@ == script_of(url@),
{
    let mut s = SCRIPT_HEAD.to_string();
    s.append(quote(url).as_str());
    s.append(SCRIPT_TAIL);
    s
}

/// What the Base64 reader answers to a text that is not Base64.
#[verifier::external_type_specification]
#[verifier::external_body]
pub struct ExDecodeError(base64::DecodeError);

/// The bytes that a padded standard Base64 text stands for, if it is one.
pub uninterp spec fn base64_bytes(text: Seq<char>) -> Option<Seq<u8>>;

/// `base64::Engine::decode` of the standard engine: the bytes depend on the text
/// alone.
#[verifier::external_body]
fn decode_base64(text: &str) -> (r: Result<Vec<u8>, base64::DecodeError>)
    ensures
        match r {
            Ok(v) => base64_bytes(text@) == Some(v@),
            Err(_) => base64_bytes(text@) is None,
        },
{
    base64::Engine::decode(&base64::engine::general_purpose::STANDARD, text)
}

/// What the script answered: an error with a status, or a Base64 text.
pub open spec fn payload_text(payload: Seq<char>) -> Result<Seq<char>, FilingErrorView> {
    if starts(payload, "ERR:"@) {
        Err(FilingErrorView::Blocked(payload.skip("ERR:"@.len() as int)))
    } else if starts(payload, "OK:"@) {
        Ok(payload.skip("OK:"@.len() as int))
    } else {
        Err(FilingErrorView::BadPayload)
    }
}

/// The Base64 text in what the script answered.
pub fn payload_base64(payload: &str) -> (r: Result<String, FilingError>)
    ensures
        match r {
            Ok(t) => payload_text(payload@) == Ok::<_, FilingErrorView>(t@),
            Err(e) => payload_text(payload@) == Err::<Seq<char>, _>(e@),
        },
{
    match strip_prefix(payload, "ERR:") {
        Some(code) => Err(FilingError::Blocked(code)),
        None => match strip_prefix(payload, "OK:") {
            Some(text) => Ok(text),
            None => Err(FilingError::BadPayload),
        },
    }
}

/// The body in what the script answered.
pub fn read_payload(payload: &str) -> (r: Result<Vec<u8>, FilingError>)
    ensures
        match payload_text(payload@) {
            Err(e) => r is Err && r->Err_0@ == e,
            Ok(t) => match r {
                Ok(body) => base64_bytes(t) == Some(body@),
                Err(e) => base64_bytes(t) is None && e@ == FilingErrorView::BadBase64,
            },
        },
{
    match payload_base64(payload) {
        Err(e) => Err(e),
        Ok(text) => match decode_base64(text.as_str()) {
            Ok(body) => Ok(body),
            Err(_) => Err(FilingError::BadBase64),
        },
    }
}

/// What to do after a failed page fetch.
#[derive(Debug)]
pub enum AfterFailure {
    /// Wait, then fetch again on the same session: clearance can take a few
    /// seconds to settle.
    Retry,
    /// Wait, launch a new session, then fetch once more.
    Relaunch,
    /// Give up, with this message.
    GiveUp(String),
}

/// The mathematical value of an [`AfterFailure`].
pub enum AfterFailureView {
    Retry,
    Relaunch,
    GiveUp(Seq<char>),
}

impl AfterFailure {
    /// The mathematical value.
    pub open spec fn view(&self) -> AfterFailureView {
        match self {
            AfterFailure::Retry => AfterFailureView::Retry,
            AfterFailure::Relaunch => AfterFailureView::Relaunch,
            AfterFailure::GiveUp(m) => AfterFailureView::GiveUp(m@),
        }
    }
}

/// One fetch through the browser: four tries on one session, then one on a new
/// session.
#[derive(Debug)]
pub struct BrowserRun {
    failures: u32,
    last: String,
}

/// What is said when the try after the relaunch fails too.
pub open spec fn gave_up(error: Seq<char>, prior: Seq<char>) -> Seq<char> {
    error + " (after relaunch; prior: "@ + prior + ")"@
}

/// What to do after the failure number `n`, counted from one.
pub open spec fn after_failure(n: nat, error: Seq<char>, prior: Seq<char>) -> AfterFailureView {
    if n < 4 {
        AfterFailureView::Retry
    } else if n == 4 {
        AfterFailureView::Relaunch
    } else {
        AfterFailureView::GiveUp(gave_up(error, prior))
    }
}

/// The count of failures once one more came, after `n`.
pub open spec fn tries_after(n: nat) -> nat {
    if n < 5 {
        n + 1
    } else {
        n
    }
}

/// The error that is remembered once the failure number `n` came.
pub open spec fn prior_after(n: nat, error: Seq<char>, prior: Seq<char>) -> Seq<char> {
    if n <= 4 {
        error
    } else {
        prior
    }
}

impl BrowserRun {
    /// The failures so far.
    pub closed spec fn failed_tries(&self) -> nat {
        self.failures as nat
    }

    /// The error of the last failure on the first session.
    pub closed spec fn prior(&self) -> Seq<char> {
        self.last@
    }

    /// A run without a failure.
    pub fn new() -> (r: Self)
        ensures
            r.failed_tries() == 0,
            r.prior() == "browser fetch not attempted"@,
    {
        BrowserRun { failures: 0, last: "browser fetch not attempted".to_string() }
    }

    /// Decides after a page fetch failed with `error`. A run that has given up gives
    /// up again.
    pub fn failed(&mut self, error: String) -> (r: AfterFailure)
        ensures
            final(self).failed_tries() == tries_after(old(self).failed_tries()),
            r@ == after_failure(final(self).failed_tries(), error@, old(self).prior()),
            final(self).prior() == prior_after(
                final(self).failed_tries(),
                error@,
                old(self).prior(),
            ),
    {
        if self.failures < 5 {
            self.failures = self.failures + 1;
        }
        if self.failures < 4 {
            self.last = error;
            AfterFailure::Retry
        } else if self.failures == 4 {
            self.last = error;
            AfterFailure::Relaunch
        } else {
            let mut m = error;
            m.append(" (after relaunch; prior: ");
            m.append(self.last.as_str());
            m.append(")");
            AfterFailure::GiveUp(m)
        }
    }
}

/// A run gives up after exactly five failed fetches, with exactly one relaunch,
/// before the fifth; what it says names the fifth error and the fourth.
pub proof fn law_browser_relaunches_once(n: nat, error: Seq<char>, prior: Seq<char>)
    ensures
        after_failure(n, error, prior) is Relaunch <==> n == 4,
        after_failure(n, error, prior) is GiveUp <==> n > 4,
        n > 4 ==> after_failure(n, error, prior)->GiveUp_0 == gave_up(error, prior),
{
}

/// The browser to launch: the configured one, or the usual one if it is there.
pub open spec fn chrome_of(configured: Option<Seq<char>>, usual_exists: bool) -> Option<Seq<char>> {
    match configured {
        Some(p) => Some(p),
        None => if usual_exists {
            Some(USUAL_CHROME@)
        } else {
            None
        },
    }
}

/// The browser to launch: the configured one, or the usual one if it is there.
pub fn chrome_path(configured: Option<String>, usual_exists: bool) -> (r: Option<String>)
    ensures
        opt_text(r) == chrome_of(opt_text(configured), usual_exists),
{
    match configured {
        Some(p) => Some(p),
        None => if usual_exists {
            Some(USUAL_CHROME.to_string())
        } else {
            None
        },
    }
}

/// Where the browser usually is.
pub const USUAL_CHROME: &'static str = "/usr/bin/google-chrome";

/// The profile directory of one browser launch.
pub open spec fn profile_of(pid: nat, launch: nat) -> Seq<char> {
    "idx-mcp-chrome-"@ + instance_name(pid, launch)
}

/// The profile directory of one browser launch, so that launches never share one.
pub fn profile_name(pid: u32, launch: u64) -> (r: String)
    ensures
        r@ == profile_of(pid as nat, launch as nat),
{
    "idx-mcp-chrome-".to_string().concat(instance_dir_name(pid, launch).as_str())
}

/// Browser launches never share a profile directory.
pub proof fn law_launches_never_share_a_profile(p: nat, i: nat, q: nat, j: nat)
    requires
        profile_of(p, i) == profile_of(q, j),
    ensures
        p == q,
        i == j,
{
    let head = "idx-mcp-chrome-"@;
    let n = head.len() as int;
    assert((head + instance_name(p, i)).skip(n) =~= instance_name(p, i));
    assert((head + instance_name(q, j)).skip(n) =~= instance_name(q, j));
    law_instances_never_share_a_directory(p, i, q, j);
}

// ---- reading a body ----

/// True if a body starts like a PDF.
pub open spec fn is_pdf(body: Seq<u8>) -> bool {
    body.len() >= 4 && body[0] == 37 && body[1] == 80 && body[2] == 68 && body[3] == 70
}

/// True if a body starts like a PDF.
pub fn starts_like_pdf(body: &Vec<u8>) -> (r: bool)
    ensures
        r == is_pdf(body@),
{
    body.len() >= 4 && body[0] == 37 && body[1] == 80 && body[2] == 68 && body[3] == 70
}

/// Why a text could not be extracted.
#[derive(Debug)]
pub enum ExtractError {
    /// The body cannot be read as a PDF.
    Unreadable,
    /// The extraction ended abnormally, or not in time.
    Task,
}

/// The part of a text that is kept.
pub open spec fn kept_text(full: Seq<char>) -> Seq<char> {
    if full.len() > MAX_TEXT_CHARS {
        full.take(MAX_TEXT_CHARS as int)
    } else {
        full
    }
}

/// True if `f` is what the text `full`, extracted from a body of `n` bytes at
/// `url`, becomes.
pub open spec fn files(f: Filing, url: Seq<char>, n: nat, full: Seq<char>) -> bool {
    &&& f.url@ == url
    &&& f.bytes == n
    &&& f.text@ == kept_text(full)
    &&& f.chars == kept_text(full).len()
    &&& f.truncated == (full.len() > MAX_TEXT_CHARS)
}

/// What an extracted text becomes.
pub fn filing_of(url: &str, bytes: usize, full: String) -> (r: Filing)
    ensures
        files(r, url@, bytes as nat, full@),
{
    let count: usize = full.as_str().unicode_len();
    if count > MAX_TEXT_CHARS {
        let text = full.as_str().substring_char(0, MAX_TEXT_CHARS).to_string();
        assert(text@ =~= kept_text(full@));
        Filing { url: url.to_string(), bytes, chars: MAX_TEXT_CHARS, truncated: true, text }
    } else {
        Filing { url: url.to_string(), bytes, chars: count, truncated: false, text: full }
    }
}

/// Refuses a body that does not start like a PDF.
pub fn require_pdf(body: &Vec<u8>) -> (r: Result<(), FilingError>)
    ensures
        match r {
            Ok(_) => is_pdf(body@),
            Err(e) => !is_pdf(body@) && e@ == FilingErrorView::NotPdf(body@.len()),
        },
{
    if starts_like_pdf(body) {
        Ok(())
    } else {
        Err(FilingError::NotPdf(body.len()))
    }
}

/// What the extraction from a body of `bytes` bytes at `url` becomes. The extractor
/// can exhaust its stack or run for ever, so it runs in a process of its own: `Task`
/// tells that the process ended abnormally or was ended.
pub fn read_extracted(url: &str, bytes: usize, outcome: Result<String, ExtractError>) -> (r: Result<
    Filing,
    FilingError,
>)
    ensures
        match outcome {
            Ok(full) => r is Ok && files(r->Ok_0, url@, bytes as nat, full@),
            Err(ExtractError::Unreadable) => r is Err && r->Err_0@ == FilingErrorView::Extract,
            Err(ExtractError::Task) => r is Err && r->Err_0@ == FilingErrorView::ExtractTask,
        },
{
    match outcome {
        Ok(full) => Ok(filing_of(url, bytes, full)),
        Err(ExtractError::Unreadable) => Err(FilingError::Extract),
        Err(ExtractError::Task) => Err(FilingError::ExtractTask),
    }
}

/// However long the text, a filing holds a bounded beginning of it, and tells
/// whether something was cut.
pub proof fn law_filings_are_bounded(f: Filing, url: Seq<char>, n: nat, full: Seq<char>)
    requires
        files(f, url, n, full),
    ensures
        f.text@.len() <= MAX_TEXT_CHARS,
        f.chars == f.text@.len(),
        starts(full, f.text@),
        !f.truncated <==> f.text@ == full,
{
    assert(full.subrange(0, f.text@.len() as int) =~= f.text@);
}

// ---- the cache ----

/// What a fetch begins with, given the filings read so far.
pub open spec fn hit(known: Map<Seq<char>, Arc<Filing>>, url: Seq<char>) -> Option<Arc<Filing>> {
    if url_refusal(url) is None && known.contains_key(url) {
        Some(known[url])
    } else {
        None
    }
}

/// The filings read so far, by their address.
pub struct Filings {
    cache: StringHashMap<Arc<Filing>>,
}

impl Filings {
    /// The filings, by their address.
    pub closed spec fn view(&self) -> Map<Seq<char>, Arc<Filing>> {
        self.cache@
    }

    /// No filing yet.
    pub fn new() -> (r: Self)
        ensures
            r@ == Map::<Seq<char>, Arc<Filing>>::empty(),
    {
        Filings { cache: StringHashMap::new() }
    }

    /// Begins a fetch: refuses an address that is not permitted, else gives the
    /// filing that was read before, if there is one.
    pub fn begin(&self, url: &str) -> (r: Result<Option<&Arc<Filing>>, FilingError>)
        ensures
            match r {
                Err(e) => url_refusal(url@) == Some(e@),
                Ok(None) => url_refusal(url@) is None && hit(self@, url@) is None,
                Ok(Some(f)) => hit(self@, url@) == Some(*f),
            },
    {
        match validate_url(url) {
            Err(e) => Err(e),
            Ok(_) => Ok(self.cache.get(url)),
        }
    }

    /// Keeps a filing under the address it was asked for.
    pub fn keep(&mut self, url: &str, filing: Arc<Filing>)
        ensures
            final(self)@ == old(self)@.insert(url@, filing),
    {
        self.cache.insert(url.to_string(), filing);
    }
}

/// A repeat read never fetches again: once a filing is kept, every later fetch of
/// the same permitted address begins with it, and no other address is affected.
pub proof fn law_repeat_reads_hit_the_cache(
    known: Map<Seq<char>, Arc<Filing>>,
    url: Seq<char>,
    filing: Arc<Filing>,
    other: Seq<char>,
)
    requires
        url_refusal(url) is None,
    ensures
        hit(known.insert(url, filing), url) == Some(filing),
        other != url ==> hit(known.insert(url, filing), other) == hit(known, other),
{
}

// ---- laws of the parts ----

/// What the caller is told of each failure: fixed words, or fixed words with the one
/// thing that the failure is about.
pub proof fn law_failures_are_told_in_fixed_words(t: String, status: u16, n: usize)
    ensures
        FilingError::NotHttps@.message() == "url must be https"@,
        FilingError::Host(t)@.message() == "url host not allowed (must be idx.co.id): "@ + t@,
        FilingError::Status(status)@.message() == "HTTP "@ + decimal(status as nat),
        FilingError::Blocked(t)@.message() == "browser fetch blocked: HTTP "@ + t@,
        FilingError::BadPayload@.message() == "bad browser fetch payload"@,
        FilingError::BadBase64@.message() == "decode pdf base64"@,
        FilingError::Browser@.message() == "browser fallback fetch"@,
        FilingError::NotPdf(n)@.message() == "fetched body is not a PDF ("@ + decimal(n as nat)
            + " bytes)"@,
        FilingError::ExtractTask@.message() == "pdf-extract task"@,
        FilingError::Extract@.message() == "extract pdf text"@,
{
}

proof fn lemma_authority_len_is(rest: Seq<char>, k: int)
    requires
        0 <= k <= rest.len(),
        forall|j: int| 0 <= j < k ==> !ends_authority(#[trigger] rest[j]),
        k < rest.len() ==> ends_authority(rest[k]),
    ensures
        authority_len(rest) == k,
{
    lemma_authority_len(rest);
    let n = authority_len(rest);
    if n < k {
        assert(!ends_authority(rest[n]));
    }
    if k < n {
        assert(!ends_authority(rest[k]));
    }
}

proof fn lemma_host_len_is(a: Seq<char>, k: int)
    requires
        0 <= k <= a.len(),
        forall|j: int| k <= j < a.len() ==> #[trigger] a[j] != '@',
        k > 0 ==> a[k - 1] == '@',
    ensures
        host_len(a) == a.len() - k,
{
    lemma_host_len(a);
    let n = a.len() - host_len(a);
    if n < k {
        assert(a[k - 1] != '@');
    }
    if k < n {
        assert(a[n - 1] != '@');
    }
}

/// An address over https is permitted exactly if its host, behind the user information
/// and before the path, the query or the fragment, is the exchange's domain or lies below
/// it; otherwise the refusal shows the authority. Nothing else is permitted.
#[verifier::rlimit(40)]
pub proof fn law_the_host_decides(
    user: Seq<char>,
    host: Seq<char>,
    tail: Seq<char>,
    url: Seq<char>,
)
    requires
        user.len() > 0 ==> user.last() == '@',
        forall|j: int| 0 <= j < user.len() ==> !ends_authority(#[trigger] user[j]),
        forall|j: int| 0 <= j < host.len() ==> !ends_authority(#[trigger] host[j]),
        !host.contains('@'),
        tail.len() > 0 ==> tail[0] == '/' || tail[0] == '?' || tail[0] == '#' || tail[0] == '\\',
    ensures
        ({
            let full = "https://"@ + user + host + tail;
            let good = host == "idx.co.id"@ || exists|sub: Seq<char>|
                host == #[trigger] (sub + ".idx.co.id"@);
            &&& good ==> url_refusal(full) is None
            &&& !good ==> url_refusal(full) == Some(FilingErrorView::Host(user + host))
        }),
        !starts(url, "https://"@) ==> url_refusal(url) == Some(FilingErrorView::NotHttps),
{
    let full = "https://"@ + user + host + tail;
    let none = Seq::<char>::empty();
    let rest = user + host + tail;
    assert(full =~= "https://"@ + rest);
    law_parts_of_texts(none, "https://"@, rest, full);
    assert(full.skip("https://"@.len() as int) =~= rest);
    let a = user + host;
    assert forall|j: int| 0 <= j < a.len() implies !ends_authority(#[trigger] rest[j]) by {
        if j < user.len() {
            assert(rest[j] == user[j]);
        } else {
            assert(rest[j] == host[j - user.len()]);
        }
    }
    if tail.len() > 0 {
        assert(rest[a.len() as int] == tail[0]);
    }
    lemma_authority_len_is(rest, a.len() as int);
    assert(authority_of(rest) =~= a);
    assert forall|j: int| user.len() <= j < a.len() implies #[trigger] a[j] != '@' by {
        assert(a[j] == host[j - user.len()]);
        assert(host.contains(host[j - user.len()]));
    }
    if user.len() > 0 {
        assert(a[user.len() - 1] == user.last());
    }
    lemma_host_len_is(a, user.len() as int);
    assert(host_of(a) =~= host);
    let d = ".idx.co.id"@;
    if exists|sub: Seq<char>| host == #[trigger] (sub + d) {
        let sub = choose|sub: Seq<char>| host == #[trigger] (sub + d);
        law_parts_of_texts(sub, d, none, host);
    }
    if ends(host, d) {
        law_parts_of_texts(none, d, none, host);
        assert(host == host.take(host.len() - d.len()) + d);
    }
}

/// The characters that end an authority.
pub proof fn law_paths_queries_and_fragments_end_the_authority(c: char)
    ensures
        ends_authority(c) <==> c == '/' || c == '?' || c == '#' || c == '\\',
{
}

/// A direct answer counts if its status is a success.
pub proof fn law_only_successes_are_read(status: u16)
    ensures
        200 <= status <= 299 ==> status_refusal(status) is None,
        status < 200 || status > 299 ==> status_refusal(status) == Some(
            FilingErrorView::Status(status as nat),
        ),
{
}

/// What a page answers: `OK:` and the text, `ERR:` and the status, or something else.
pub proof fn law_pages_answer_with_a_mark(t: Seq<char>, payload: Seq<char>)
    ensures
        payload_text("OK:"@ + t) == Ok::<_, FilingErrorView>(t),
        payload_text("ERR:"@ + t) == Err::<Seq<char>, _>(FilingErrorView::Blocked(t)),
        !starts(payload, "OK:"@) && !starts(payload, "ERR:"@) ==> payload_text(payload) == Err::<
            Seq<char>,
            _,
        >(FilingErrorView::BadPayload),
{
    let none = Seq::<char>::empty();
    reveal_strlit("OK:");
    reveal_strlit("ERR:");
    let ok = "OK:"@ + t;
    let err = "ERR:"@ + t;
    law_parts_of_texts(none, "OK:"@, t, ok);
    law_parts_of_texts(none, "ERR:"@, t, err);
    assert(ok.skip(3) =~= t);
    assert(err.skip(4) =~= t);
    if starts(ok, "ERR:"@) {
        assert(ok.subrange(0, 4)[0] == ok[0]);
        assert("ERR:"@[0] == 'E' && ok[0] == 'O');
    }
}

/// The script that a page runs fetches the quoted address with the page's credentials,
/// and marks what it answers.
pub proof fn law_pages_fetch_the_address(url: Seq<char>)
    ensures
        script_of(url) == "(async () => {
            const r = await fetch("@ + debug_quoted(url)
            + ", {credentials:\"include\"});
            if (!r.ok) return \"ERR:\" + r.status;
            const a = await r.arrayBuffer();
            const u = new Uint8Array(a); let s = \"\"; const C = 8192;
            for (let i = 0; i < u.length; i += C) s += String.fromCharCode.apply(null, u.subarray(i, i + C));
            return \"OK:\" + btoa(s);
        })()"@,
{
}

/// What is said at last names the last error and the one before the relaunch; before the
/// fourth failure the fetch is tried again.
pub proof fn law_the_last_word_names_both_errors(n: nat, error: Seq<char>, prior: Seq<char>)
    ensures
        gave_up(error, prior) == error + " (after relaunch; prior: "@ + prior + ")"@,
        n <= 3 ==> after_failure(n, error, prior) is Retry,
        after_failure(4, error, prior) is Relaunch,
        n >= 5 ==> after_failure(n, error, prior) == AfterFailureView::GiveUp(
            gave_up(error, prior),
        ),
{
}

/// The browser is the configured one wherever one is configured, or else the usual one
/// if it is there; each launch has a profile of its own.
pub proof fn law_the_configured_browser_is_launched(path: Seq<char>, exists_there: bool)
    ensures
        chrome_of(Some(path), exists_there) == Some(path),
        chrome_of(None, true) == Some("/usr/bin/google-chrome"@),
        chrome_of(None, false) is None,
        forall|pid: nat, launch: nat| #[trigger]
            profile_of(pid, launch) == "idx-mcp-chrome-"@ + decimal(pid) + "-"@ + decimal(launch),
{
    assert forall|pid: nat, launch: nat| #[trigger]
        profile_of(pid, launch) == "idx-mcp-chrome-"@ + decimal(pid) + "-"@ + decimal(launch) by {
        assert(profile_of(pid, launch) =~= "idx-mcp-chrome-"@ + decimal(pid) + "-"@ + decimal(
            launch,
        ));
    }
}

/// A PDF begins with the bytes of `%PDF`.
pub proof fn law_a_pdf_begins_with_its_mark(body: Seq<u8>)
    ensures
        is_pdf(body) <==> body.len() >= 4 && body.take(4) == seq!['%' as u8, 'P' as u8, 'D' as u8, 'F' as u8],
{
    let mark = seq!['%' as u8, 'P' as u8, 'D' as u8, 'F' as u8];
    if is_pdf(body) {
        assert(body.take(4) =~= mark);
    }
    if body.len() >= 4 && body.take(4) == mark {
        assert(body[0] == mark[0] && body[1] == mark[1] && body[2] == mark[2] && body[3]
            == mark[3]);
    }
}

/// A text of up to two hundred thousand characters is kept whole, a longer one up to
/// there; the filing shows the address and the size of the body.
pub proof fn law_long_texts_are_cut(f: Filing, url: Seq<char>, n: nat, full: Seq<char>)
    requires
        files(f, url, n, full),
    ensures
        f.url@ == url && f.bytes == n,
        full.len() <= 200000 ==> f.text@ == full && !f.truncated,
        full.len() > 200000 ==> f.text@ == full.take(200000) && f.chars == 200000 && f.truncated,
{
}

/// The limits of a fetch: thirty seconds for a direct one, six for the clearance and
/// three between tries, and two minutes for an extraction; the clearance is got from the
/// exchange's front page.
pub proof fn law_fetches_are_limited()
    ensures
        FETCH_TIMEOUT_SECS == 30,
        CLEARANCE_WAIT_SECS == 6,
        RETRY_WAIT_SECS == 3,
        EXTRACT_TIMEOUT_SECS == 120,
        CLEARANCE_URL@ == "https://www.idx.co.id/en/"@,
{
}

/// An address that is not permitted is never answered from what was read before.
pub proof fn law_refused_addresses_hit_nothing(
    known: Map<Seq<char>, Arc<Filing>>,
    url: Seq<char>,
)
    ensures
        url_refusal(url) is Some ==> hit(known, url) is None,
        !known.contains_key(url) ==> hit(known, url) is None,
{
}

/// A run counts its failures to the fifth, and keeps the error of the last one on the
/// first session: what is said at the fifth names the fourth.
pub proof fn law_failures_are_counted(n: nat, e: Seq<char>, prior: Seq<char>)
    ensures
        n < 5 ==> tries_after(n) == n + 1,
        n >= 5 ==> tries_after(n) == n,
        1 <= n <= 4 ==> prior_after(n, e, prior) == e,
        n >= 5 ==> prior_after(n, e, prior) == prior,
{
}

} // verus!
