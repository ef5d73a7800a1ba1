use std::sync::Arc;

use idx_mcp::filings::after_direct;
use idx_mcp::filings::browser_script;
use idx_mcp::filings::check_status;
use idx_mcp::filings::chrome_path;
use idx_mcp::filings::filing_of;
use idx_mcp::filings::payload_base64;
use idx_mcp::filings::profile_name;
use idx_mcp::filings::read_extracted;
use idx_mcp::filings::read_payload;
use idx_mcp::filings::require_pdf;
use idx_mcp::filings::starts_like_pdf;
use idx_mcp::filings::validate_url;
use idx_mcp::filings::AfterDirect;
use idx_mcp::filings::AfterFailure;
use idx_mcp::filings::BrowserRun;
use idx_mcp::filings::ExtractError;
use idx_mcp::filings::Filing;
use idx_mcp::filings::FilingError;
use idx_mcp::filings::Filings;
use idx_mcp::filings::MAX_TEXT_CHARS;

const URL: &str = "https://www.idx.co.id/StaticData/x.pdf";

fn message<T>(r: Result<T, FilingError>) -> String {
    match r {
        Ok(_) => panic!("expected a refusal"),
        Err(e) => e.message(),
    }
}

/// A one-page PDF with a page that shows `text`.
fn pdf(text: &str) -> Vec<u8> {
    let content = format!("BT /F1 24 Tf 72 720 Td ({text}) Tj ET");
    let objects = [
        "<< /Type /Catalog /Pages 2 0 R >>".to_string(),
        "<< /Type /Pages /Kids [3 0 R] /Count 1 >>".to_string(),
        "<< /Type /Page /Parent 2 0 R /MediaBox [0 0 612 792] \
         /Resources << /Font << /F1 4 0 R >> >> /Contents 5 0 R >>"
            .to_string(),
        "<< /Type /Font /Subtype /Type1 /BaseFont /Helvetica >>".to_string(),
        format!("<< /Length {} >>\nstream\n{content}\nendstream", content.len()),
    ];
    let mut out = "%PDF-1.4\n".to_string();
    let mut offsets = Vec::new();
    for (i, object) in objects.iter().enumerate() {
        offsets.push(out.len());
        out.push_str(&format!("{} 0 obj\n{object}\nendobj\n", i + 1));
    }
    let start = out.len();
    out.push_str(&format!("xref\n0 {}\n0000000000 65535 f \n", objects.len() + 1));
    for offset in offsets {
        out.push_str(&format!("{offset:010} 00000 n \n"));
    }
    out.push_str(&format!(
        "trailer\n<< /Size {} /Root 1 0 R >>\nstartxref\n{start}\n%%EOF\n",
        objects.len() + 1
    ));
    out.into_bytes()
}

#[test]
fn validate_rejects_off_host() {
    assert!(validate_url("https://evil.com/x.pdf").is_err());
    assert!(validate_url("http://www.idx.co.id/x.pdf").is_err()); // not https
    assert!(validate_url("https://www.idx.co.id/StaticData/x.pdf").is_ok());
}

#[test]
fn refused_addresses_are_told_why() {
    assert_eq!(message(validate_url("http://www.idx.co.id/x.pdf")), "url must be https");
    assert_eq!(message(validate_url("")), "url must be https");
    assert_eq!(
        message(validate_url("https://evil.com/idx.co.id")),
        "url host not allowed (must be idx.co.id): evil.com"
    );
    assert_eq!(
        message(validate_url("https://xidx.co.id")),
        "url host not allowed (must be idx.co.id): xidx.co.id"
    );
    assert_eq!(
        message(validate_url("https://")),
        "url host not allowed (must be idx.co.id): "
    );
    assert!(validate_url("https://idx.co.id").is_ok());
    assert!(validate_url("https://a.b.idx.co.id/").is_ok());
    assert!(validate_url("https://WWW.IDX.CO.ID/").is_err());
}

#[test]
fn the_host_ends_where_the_path_the_query_or_the_fragment_begins() {
    for (url, host) in [
        ("https://evil.com?.idx.co.id", "evil.com"),
        ("https://evil.com#.idx.co.id", "evil.com"),
        ("https://evil.com\\.idx.co.id", "evil.com"),
        ("https://evil.com/?.idx.co.id", "evil.com"),
        ("https://www.idx.co.id@evil.com?@www.idx.co.id", "www.idx.co.id@evil.com"),
        ("https://a@www.idx.co.id@evil.com", "a@www.idx.co.id@evil.com"),
        ("https://www.idx.co.id@", "www.idx.co.id@"),
        ("https://www.idx.co.id@evil.com/", "www.idx.co.id@evil.com"),
    ] {
        assert_eq!(
            message(validate_url(url)),
            format!("url host not allowed (must be idx.co.id): {host}")
        );
    }
    for url in [
        "https://www.idx.co.id?x=evil.com",
        "https://www.idx.co.id#evil.com",
        "https://www.idx.co.id/a@b.pdf",
        "https://u@www.idx.co.id",
        "https://u:p@idx.co.id/x.pdf",
        "https://evil.com@www.idx.co.id/x.pdf",
        "https://a@evil.com@www.idx.co.id",
    ] {
        assert!(validate_url(url).is_ok(), "{url}");
    }
}

#[test]
fn only_a_success_is_read_directly() {
    for status in [200, 204, 299] {
        assert!(check_status(status).is_ok());
    }
    for status in [100, 199, 300, 403, 500] {
        assert_eq!(message(check_status(status)), format!("HTTP {status}"));
    }
    assert!(matches!(after_direct(Ok(vec![1, 2])), AfterDirect::Read(b) if b == vec![1, 2]));
    assert!(matches!(after_direct(Err(FilingError::Status(403))), AfterDirect::Browser));
}

#[test]
fn the_page_script_quotes_the_address() {
    assert_eq!(
        browser_script("https://idx.co.id/a\"b"),
        "(async () => {
            const r = await fetch(\"https://idx.co.id/a\\\"b\", {credentials:\"include\"});
            if (!r.ok) return \"ERR:\" + r.status;
            const a = await r.arrayBuffer();
            const u = new Uint8Array(a); let s = \"\"; const C = 8192;
            for (let i = 0; i < u.length; i += C) s += String.fromCharCode.apply(null, u.subarray(i, i + C));
            return \"OK:\" + btoa(s);
        })()"
    );
}

#[test]
fn the_page_answers_base64_or_an_error() {
    assert_eq!(read_payload("OK:JVBERg==").unwrap(), b"%PDF".to_vec());
    assert_eq!(read_payload("OK:").unwrap(), Vec::<u8>::new());
    assert_eq!(message(read_payload("ERR:403")), "browser fetch blocked: HTTP 403");
    assert_eq!(message(read_payload("ERR:OK:")), "browser fetch blocked: HTTP OK:");
    assert_eq!(message(read_payload("JVBERg==")), "bad browser fetch payload");
    assert_eq!(message(read_payload("")), "bad browser fetch payload");
    assert_eq!(message(read_payload("OK:JVBERg")), "decode pdf base64");
    assert_eq!(message(read_payload("OK:!!!!")), "decode pdf base64");
    assert_eq!(payload_base64("OK:abc").unwrap(), "abc");
}

#[test]
fn the_browser_is_relaunched_once() {
    let mut run = BrowserRun::new();
    for n in 1..4 {
        assert!(matches!(run.failed(format!("e{n}")), AfterFailure::Retry));
    }
    assert!(matches!(run.failed("e4".to_string()), AfterFailure::Relaunch));
    match run.failed("e5".to_string()) {
        AfterFailure::GiveUp(m) => assert_eq!(m, "e5 (after relaunch; prior: e4)"),
        _ => panic!("should give up"),
    }
}

#[test]
fn browser_settings() {
    assert_eq!(chrome_path(Some("/opt/c".to_string()), true).as_deref(), Some("/opt/c"));
    assert_eq!(chrome_path(None, true).as_deref(), Some("/usr/bin/google-chrome"));
    assert_eq!(chrome_path(None, false), None);
    assert_eq!(profile_name(42, 7), "idx-mcp-chrome-42-7");
    assert_ne!(profile_name(4, 27), profile_name(42, 7));
}

/// What a fetched body becomes.
fn read(body: Vec<u8>) -> Result<Filing, FilingError> {
    require_pdf(&body)?;
    let outcome =
        pdf_extract::extract_text_from_mem(&body).map_err(|_| ExtractError::Unreadable);
    read_extracted(URL, body.len(), outcome)
}

#[test]
fn a_pdf_becomes_its_text() {
    let body = pdf("Hello IDX");
    let n = body.len();
    assert!(starts_like_pdf(&body));
    let filing = read(body).unwrap();
    assert_eq!(filing.url, URL);
    assert_eq!(filing.bytes, n);
    assert_eq!(filing.text.trim(), "Hello IDX");
    assert_eq!(filing.chars, filing.text.chars().count());
    assert!(!filing.truncated);
}

#[test]
fn other_bodies_are_refused() {
    assert_eq!(message(read(b"<html>".to_vec())), "fetched body is not a PDF (6 bytes)");
    assert_eq!(message(read(Vec::new())), "fetched body is not a PDF (0 bytes)");
    assert_eq!(message(read(b"%PD".to_vec())), "fetched body is not a PDF (3 bytes)");
    assert_eq!(message(read(b"%PDF-1.4 nothing".to_vec())), "extract pdf text");
}

#[test]
fn every_outcome_of_the_extractor_is_read() {
    let filing = read_extracted(URL, 7, Ok("text".to_string())).unwrap();
    assert_eq!(filing.url, URL);
    assert_eq!(filing.bytes, 7);
    assert_eq!(filing.text, "text");
    assert_eq!(filing.chars, 4);
    assert!(!filing.truncated);
    assert_eq!(message(read_extracted(URL, 7, Err(ExtractError::Unreadable))), "extract pdf text");
    assert_eq!(message(read_extracted(URL, 7, Err(ExtractError::Task))), "pdf-extract task");
    assert!(require_pdf(&b"%PDF".to_vec()).is_ok());
    assert_eq!(message(require_pdf(&b"PDF%".to_vec())), "fetched body is not a PDF (4 bytes)");
}

#[test]
fn long_texts_are_cut_and_told() {
    let long: String = "\u{e9}".repeat(MAX_TEXT_CHARS + 1);
    let cut = filing_of(URL, 9, long.clone());
    assert_eq!(cut.chars, MAX_TEXT_CHARS);
    assert_eq!(cut.text.chars().count(), MAX_TEXT_CHARS);
    assert!(cut.truncated);
    assert!(long.starts_with(&cut.text));
    let exact = filing_of(URL, 9, "a".repeat(MAX_TEXT_CHARS));
    assert_eq!(exact.chars, MAX_TEXT_CHARS);
    assert!(!exact.truncated);
    assert_eq!(filing_of(URL, 0, String::new()).chars, 0);
}

#[test]
fn a_repeat_read_hits_the_cache() {
    let mut known = Filings::new();
    assert!(known.begin(URL).unwrap().is_none());
    let filing = Arc::new(filing_of(URL, 3, "text".to_string()));
    known.keep(URL, filing.clone());
    assert!(Arc::ptr_eq(known.begin(URL).unwrap().unwrap(), &filing));
    assert!(known.begin("https://www.idx.co.id/other.pdf").unwrap().is_none());
    known.keep("https://evil.com/x.pdf", filing);
    assert!(known.begin("https://evil.com/x.pdf").is_err());
}

#[test]
fn every_failure_has_its_text() {
    assert_eq!(FilingError::Browser.message(), "browser fallback fetch");
    assert_eq!(FilingError::ExtractTask.message(), "pdf-extract task");
}
