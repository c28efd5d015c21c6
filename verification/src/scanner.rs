//! The per-target scan protocol.
//!
//! A [`Scanner`] drives the probe of exactly one target through at most two
//! attempts. The surrounding program performs the HTTP traffic; after every
//! attempt it hands the outcome to [`Scanner::record_event`], which decides —
//! retry through a fresh proxy, or finish with a result — and performs the
//! proxy failover itself. Only a timeout triggers the retry/failover cycle;
//! every other transport error fails fast on the spot. A response, whatever
//! its status, ends the scan: its body is searched for a `<title>` element,
//! whose absence is not an error.

use vstd::prelude::*;
use vstd::string::StringExecFns;
use std::sync::Arc;
use crate::errors::AppError;
use crate::proxy::ProxyManager;

verus! {

/// The character for one decimal digit.
pub open spec fn digit_char(d: int) -> char {
    if d == 0 {
        '0'
    } else if d == 1 {
        '1'
    } else if d == 2 {
        '2'
    } else if d == 3 {
        '3'
    } else if d == 4 {
        '4'
    } else if d == 5 {
        '5'
    } else if d == 6 {
        '6'
    } else if d == 7 {
        '7'
    } else if d == 8 {
        '8'
    } else {
        '9'
    }
}

/// The decimal rendering of a non-negative number, most significant digit
/// first, without leading zeroes (a lone zero for zero itself).
pub open spec fn dec_rep(n: int) -> Seq<char>
    decreases n,
{
    if n < 10 {
        seq![digit_char(n)]
    } else {
        dec_rep(n / 10).push(digit_char(n % 10))
    }
}

/// The one-character string for a decimal digit.
fn digit_str(d: u16) -> (r: &'static str)
    requires
        d < 10,
    ensures
        r@ == seq![digit_char(d as int)],
{
    let r: &'static str = if d == 0 {
        "0"
    } else if d == 1 {
        "1"
    } else if d == 2 {
        "2"
    } else if d == 3 {
        "3"
    } else if d == 4 {
        "4"
    } else if d == 5 {
        "5"
    } else if d == 6 {
        "6"
    } else if d == 7 {
        "7"
    } else if d == 8 {
        "8"
    } else {
        "9"
    };
    proof {
        reveal_strlit("0");
        reveal_strlit("1");
        reveal_strlit("2");
        reveal_strlit("3");
        reveal_strlit("4");
        reveal_strlit("5");
        reveal_strlit("6");
        reveal_strlit("7");
        reveal_strlit("8");
        reveal_strlit("9");
    }
    assert(r@ =~= seq![digit_char(d as int)]);
    r
}

/// Renders a port number in decimal.
pub fn u16_to_decimal(n: u16) -> (r: String)
    ensures
        r@ == dec_rep(n as int),
    decreases n,
{
    if n < 10 {
        let r = digit_str(n).to_owned();
        assert(r@ =~= dec_rep(n as int));
        r
    } else {
        let mut s = u16_to_decimal(n / 10);
        s.append(digit_str(n % 10));
        assert(s@ =~= dec_rep(n as int));
        s
    }
}

/// The address a target is probed at: plain HTTP against its host, port and
/// request path.
pub open spec fn url_view(address: Seq<char>, port: u16, uri: Seq<char>) -> Seq<char> {
    "http://"@ + address + ":"@ + dec_rep(port as int) + uri
}

/// The proxy address a client routes through, as the SOCKS5 transport
/// expects it: the resolved `host:port` of the pool's current proxy behind
/// the scheme.
pub fn socks5_url(address: &str) -> (r: String)
    ensures
        r@ == "socks5://"@ + address@,
{
    let mut s = "socks5://".to_owned();
    s.append(address);
    s
}

/// What the HTML-title-extraction primitive reports for a document: the
/// inner HTML of its first `title` element, or none — a function of the
/// document text alone.
pub uninterp spec fn title_of(document: Seq<char>) -> Option<Seq<char>>;

/// The mathematical value of an optional string.
pub open spec fn opt_string_view(t: Option<String>) -> Option<Seq<char>> {
    match t {
        Some(s) => Some(s@),
        None => None,
    }
}

/// Relies on scraper's `Html::parse_document`, `Selector::parse` and
/// `ElementRef::inner_html`: parsing a document and taking the first
/// `title` element's inner HTML is a function of the document text alone.
/// `Err` could only come from `Selector::parse` on the constant `"title"`,
/// a valid selector that always parses, so the call always returns `Ok`.
#[verifier::external_body]
fn scrape_title(document: &str) -> (r: Result<Option<String>, ()>)
    ensures
        r is Ok,
        r matches Ok(t) ==> opt_string_view(t) == title_of(document@),
{
    let fragment = scraper::Html::parse_document(document);
    let selector = match scraper::Selector::parse("title") {
        Ok(s) => s,
        Err(_) => return Err(()),
    };
    Ok(fragment.select(&selector).next().map(|e| e.inner_html()))
}

/// Extracts the first `<title>` element's inner content from a response
/// body. Absence of a title is not an error. The `Err` arm is defensive
/// only — it would report a failure of the constant selector as
/// `HtmlParsingError`, but that selector always parses, so the result is
/// always `Ok`.
pub fn extract_title(html_content: &str) -> (r: Result<Option<String>, AppError>)
    ensures
        r is Ok,
        r matches Ok(t) ==> opt_string_view(t) == title_of(html_content@),
{
    match scrape_title(html_content) {
        Ok(t) => Ok(t),
        Err(_) => Err(AppError::HtmlParsingError),
    }
}

/// What one attempt against the target came to, as the transport reports
/// it: a response with its status and its body text (none when reading the
/// body failed), or a transport failure, classified as timeout or not.
#[derive(Debug, PartialEq)]
pub enum ScanEvent {
    Response { status: u16, body: Option<String> },
    Failed { timeout: bool },
}

/// What the scanner tells its worker after an attempt: issue the next
/// attempt (rebuilding the client from the manager's new current proxy when
/// `failover` is set), or report this result and stop.
#[derive(Debug, PartialEq)]
pub enum ScanStep {
    Retry { failover: bool },
    Done { result: Result<(u16, Option<String>), AppError> },
}

/// The step a response ends the scan with: a success, always, carrying the
/// status together with the body's title — whatever the title-extraction
/// primitive yields for that body. A received response is never a failure,
/// and a missing title is a success without one.
pub open spec fn reports_response(r: ScanStep, status: u16, body: Seq<char>) -> bool {
    match r {
        ScanStep::Done { result } => match result {
            Ok((s, t)) => s == status && opt_string_view(t) == title_of(body),
            Err(_) => false,
        },
        _ => false,
    }
}

/// The scan protocol for one target: its address, the shared proxy manager
/// (if the run uses proxies at all), and the progress of the two-attempt
/// cycle.
pub struct Scanner {
    pub address: String,
    pub port: u16,
    pub uri: String,
    pub manager: Option<Arc<ProxyManager>>,
    /// Requests issued so far for this target.
    pub attempts: u8,
    /// Whether the scan has reported its result.
    pub finished: bool,
}

impl Scanner {
    /// Whether a proxy manager is attached to this scan.
    pub open spec fn has_manager(self) -> bool {
        self.manager is Some
    }

    /// A scanner never oversteps the two-attempt bound, and can only go on
    /// while it is under it.
    pub open spec fn wf(self) -> bool {
        self.attempts <= 2 && (!self.finished ==> self.attempts < 2)
    }

    /// Sets up the scan of one target. `manager` is the pool shared with
    /// every other worker of the run, or none when the run scans directly.
    pub fn new(address: String, port: u16, uri: String, manager: Option<Arc<ProxyManager>>) -> (r:
        Scanner)
        ensures
            r.address == address,
            r.port == port,
            r.uri == uri,
            r.manager == manager,
            r.attempts == 0,
            !r.finished,
            r.wf(),
    {
        Scanner { address, port, uri, manager, attempts: 0, finished: false }
    }

    /// The address this scanner probes.
    pub fn url(&self) -> (r: String)
        ensures
            r@ == url_view(self.address@, self.port, self.uri@),
    {
        let mut s = "http://".to_owned();
        s.append(self.address.as_str());
        s.append(":");
        let p = u16_to_decimal(self.port);
        s.append(p.as_str());
        s.append(self.uri.as_str());
        assert(s@ =~= url_view(self.address@, self.port, self.uri@));
        s
    }

    /// Decides the scan's course after one attempt.
    ///
    /// A response ends the scan: with the status and the body's title on
    /// success, with `ResponseBodyError` when the body could not be read. A
    /// non-timeout transport failure fails fast: it ends the scan with
    /// `RequestError` without touching the pool. A timeout consumes the
    /// attempt; while an attempt remains, the current proxy — presumed
    /// untrustworthy — is discarded once (when a manager is attached) and
    /// the worker is told to retry against the pool's new current proxy;
    /// with both attempts spent the scan ends with `RequestError`.
    pub fn record_event(&mut self, event: ScanEvent) -> (r: ScanStep)
        requires
            !old(self).finished,
            old(self).attempts < 2,
        ensures
            final(self).attempts == old(self).attempts + 1,
            final(self).address == old(self).address,
            final(self).port == old(self).port,
            final(self).uri == old(self).uri,
            final(self).manager == old(self).manager,
            final(self).wf(),
            final(self).finished == !(r matches ScanStep::Retry { .. }),
            event matches (ScanEvent::Response { status, body: Some(b) }) ==> reports_response(
                r,
                status,
                b@,
            ),
            event matches (ScanEvent::Response { status: _, body: None }) ==> r == (ScanStep::Done {
                result: Err::<(u16, Option<String>), AppError>(AppError::ResponseBodyError),
            }),
            event == (ScanEvent::Failed { timeout: false }) ==> r == (ScanStep::Done {
                result: Err::<(u16, Option<String>), AppError>(AppError::RequestError),
            }),
            (event == (ScanEvent::Failed { timeout: true }) && old(self).attempts + 1 < 2) ==> r
                == (ScanStep::Retry { failover: old(self).has_manager() }),
            (event == (ScanEvent::Failed { timeout: true }) && old(self).attempts + 1 >= 2) ==> r
                == (ScanStep::Done {
                result: Err::<(u16, Option<String>), AppError>(AppError::RequestError),
            }),
    {
        self.attempts = self.attempts + 1;
        match event {
            ScanEvent::Response { status, body } => {
                self.finished = true;
                match body {
                    Some(b) => match extract_title(b.as_str()) {
                        Ok(title) => ScanStep::Done { result: Ok((status, title)) },
                        Err(e) => ScanStep::Done { result: Err(e) },
                    },
                    None => ScanStep::Done { result: Err(AppError::ResponseBodyError) },
                }
            },
            ScanEvent::Failed { timeout } => {
                if !timeout || self.attempts >= 2 {
                    self.finished = true;
                    ScanStep::Done { result: Err(AppError::RequestError) }
                } else {
                    // Failover: retire the proxy this attempt went through
                    // and let the pool reselect, exactly once per retry.
                    match &self.manager {
                        Some(pm) => {
                            pm.discard_current_proxy();
                            ScanStep::Retry { failover: true }
                        },
                        None => ScanStep::Retry { failover: false },
                    }
                }
            },
        }
    }
}

/// *Retry bound.* A scanner never issues more than two requests for its one
/// target: every scanner state satisfying [`Scanner::wf`] — established by
/// [`Scanner::new`] and preserved by [`Scanner::record_event`], whose
/// precondition alone permits another attempt — keeps the attempt counter
/// within the two-attempt bound.
pub proof fn lemma_retry_bound(s: Scanner)
    requires
        s.wf(),
    ensures
        s.attempts <= 2,
{
}

} // verus!
