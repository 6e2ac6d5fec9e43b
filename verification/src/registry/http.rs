//! What the HTTP transport makes of a response, and when it tries again.

use vstd::prelude::*;

use crate::registry::{FetchError, FetchErrorView};
use crate::text;

verus! {

/// How long a single request may take, in seconds.
pub const TIMEOUT_SECS: u64 = 8;

/// A cap on the response body clove will read.
pub const MAX_BODY: u64 = 8388608;

/// How many times a retryable failure is re-attempted before giving up.
pub const MAX_RETRIES: u32 = 2;

/// The longest wait that is slept through, in seconds. A server that asks for a
/// longer one is reported instead.
pub const MAX_BACKOFF_SECS: u64 = 5;

/// What identifies clove to crates.io, which refuses anonymous requests.
pub fn user_agent(version: &str) -> (r: String)
    ensures
        r@ == "clove/"@ + version@ + " (+https://github.com/egeapak/clove)"@,
{
    text::cat3("clove/", version, " (+https://github.com/egeapak/clove)")
}

/// The wait that a `Retry-After` header asks for, in seconds, if it states one.
pub open spec fn header_wait(header: Option<Seq<char>>) -> Option<u64> {
    match header {
        Some(h) => {
            let digits = text::unsigned_text(text::trimmed(h));
            if text::all_digits(digits) && text::digits_value(digits) <= u64::MAX {
                Some(text::digits_value(digits) as u64)
            } else {
                None
            }
        },
        None => None,
    }
}

/// Reads a `Retry-After` header.
pub fn parse_retry_after(header: Option<&str>) -> (r: Option<u64>)
    ensures
        r == header_wait(text::opt_view(header)),
{
    match header {
        Some(h) => text::parse_unsigned(text::trim(h), u64::MAX),
        None => None,
    }
}

/// What a response means: 404 is an answer, a body that could not be read is a
/// decoding failure, and any other status outside 2xx is a failure that carries the
/// body and the wait that was asked for.
pub open spec fn meaning(
    status: u16,
    retry_after: Option<Seq<char>>,
    body: Result<Seq<char>, Seq<char>>,
) -> Result<Option<Seq<char>>, FetchErrorView> {
    if status == 404 {
        Ok(None)
    } else {
        match body {
            Err(e) => Err(FetchErrorView::Decode(e)),
            Ok(text) => if 200 <= status < 300 {
                Ok(Some(text))
            } else {
                Err(
                    FetchErrorView::Status {
                        code: status,
                        retry_after: header_wait(retry_after),
                        body: Some(text),
                    },
                )
            },
        }
    }
}

/// What a response means to the registry client. `body` is the text that was read,
/// or why it could not be.
pub fn interpret(status: u16, retry_after: Option<&str>, body: Result<String, String>) -> (r:
    Result<Option<String>, FetchError>)
    ensures
        match r {
            Ok(Some(s)) => meaning(
                status,
                text::opt_view(retry_after),
                body_view(body),
            ) == Ok::<Option<Seq<char>>, FetchErrorView>(Some(s@)),
            Ok(None) => meaning(status, text::opt_view(retry_after), body_view(body)) == Ok::<
                Option<Seq<char>>,
                FetchErrorView,
            >(None),
            Err(e) => meaning(status, text::opt_view(retry_after), body_view(body)) == Err::<
                Option<Seq<char>>,
                FetchErrorView,
            >(e.deep_view()),
        },
{
    if status == 404 {
        return Ok(None);
    }
    match body {
        Err(e) => Err(FetchError::Decode(e)),
        Ok(text) => if 200 <= status && status < 300 {
            Ok(Some(text))
        } else {
            Err(
                FetchError::Status {
                    code: status,
                    retry_after: parse_retry_after(retry_after),
                    body: Some(text),
                },
            )
        },
    }
}

/// The model of a body.
pub open spec fn body_view(body: Result<String, String>) -> Result<Seq<char>, Seq<char>> {
    match body {
        Ok(s) => Ok(s@),
        Err(e) => Err(e@),
    }
}

/// What to do after a failed attempt.
#[derive(Debug, Clone, Copy, PartialEq, Eq, Structural)]
pub enum Retry {
    /// Wait this many milliseconds, and try again.
    After(u64),
    /// Report the failure.
    GiveUp,
}

/// The milliseconds to wait when the server did not ask for any: a quarter of a
/// second, doubled with every attempt.
pub open spec fn own_wait(attempt: u32) -> u64 {
    if attempt == 0 {
        250
    } else {
        500
    }
}

/// What to do after attempt number `attempt`, counted from zero, has failed.
pub open spec fn retried(e: FetchErrorView, attempt: u32) -> Retry {
    if e.is_retryable() && attempt < MAX_RETRIES {
        match e.wait() {
            Some(secs) => if secs > MAX_BACKOFF_SECS {
                Retry::GiveUp
            } else {
                Retry::After((secs * 1000) as u64)
            },
            None => Retry::After(own_wait(attempt)),
        }
    } else {
        Retry::GiveUp
    }
}

/// Decides whether a failed attempt is repeated, with the server's own backoff where
/// it supplied one. Only a server that answered and asked us to come back is tried
/// again; a transport failure has already spent the request's time.
pub fn after_failure(error: &FetchError, attempt: u32) -> (r: Retry)
    ensures
        r == retried(error.deep_view(), attempt),
{
    if !error.is_retryable_status() || attempt >= MAX_RETRIES {
        return Retry::GiveUp;
    }
    match error.retry_after() {
        Some(secs) => if secs > MAX_BACKOFF_SECS {
            Retry::GiveUp
        } else {
            Retry::After(secs * 1000)
        },
        None => Retry::After(
            if attempt == 0 {
                250
            } else {
                500
            },
        ),
    }
}

/// A request is repeated at most twice, never for more than five seconds at a time,
/// and never for a failure that the server did not report.
pub proof fn law_retries_are_bounded(e: FetchErrorView, attempt: u32)
    ensures
        retried(e, attempt) matches Retry::After(ms) ==> attempt < 2 && ms <= 5000
            && e.is_retryable(),
        !(e is Status) ==> retried(e, attempt) == Retry::GiveUp,
{
}

/// Does a transport error look like a TLS failure?
pub open spec fn looks_like_tls(message: Seq<char>) -> bool {
    let m = text::lowered(message);
    ||| text::occurs(m, "certificate"@)
    ||| text::occurs(m, "tls"@)
    ||| text::occurs(m, "handshake"@)
    ||| text::occurs(m, "self-signed"@)
    ||| text::occurs(m, "unknown ca"@)
}

/// A transport error, with a hint behind it if it looks like a TLS failure.
pub open spec fn hinted(message: Seq<char>) -> Seq<char> {
    if looks_like_tls(message) {
        message
            + " (clove verifies crates.io against bundled Mozilla roots, so a TLS-intercepting proxy's CA is not trusted even when $SSL_CERT_FILE or the system store contains it)"@
    } else {
        message
    }
}

/// Adds an actionable hint to a transport error that looks like a TLS failure.
pub fn tls_hint(message: &str) -> (r: String)
    ensures
        r@ == hinted(message@),
{
    let m = text::to_ascii_lowercase(message);
    let m: &str = m.as_str();
    if text::contains(m, "certificate") || text::contains(m, "tls") || text::contains(
        m,
        "handshake",
    ) || text::contains(m, "self-signed") || text::contains(m, "unknown ca") {
        text::cat2(
            message,
            " (clove verifies crates.io against bundled Mozilla roots, so a TLS-intercepting proxy's CA is not trusted even when $SSL_CERT_FILE or the system store contains it)",
        )
    } else {
        message.to_owned()
    }
}

// ---- The trusted roots --------------------------------------------------------

/// What `ureq::tls::parse_pem` finds in a PEM text, section by section: the DER form of a
/// certificate, or nothing for a key and for a section that it cannot read.
pub uninterp spec fn pem_sections(pem: Seq<u8>) -> Seq<Option<Seq<u8>>>;

/// `ureq::tls::parse_pem`. The sections that it hands out are a function of the bytes; a
/// section of a kind that it does not know is not among them.
#[verifier::external_body]
fn parse_pem(pem: &[u8]) -> (r: Vec<Option<Vec<u8>>>)
    ensures
        r.deep_view() == pem_sections(pem@),
{
    ureq::tls::parse_pem(pem)
        .map(
            |item| match item {
                Ok(ureq::tls::PemItem::Certificate(cert)) => Some(cert.der().to_vec()),
                _ => None,
            },
        )
        .collect()
}

/// The certificates among the sections, in their order.
pub open spec fn certificates(sections: Seq<Option<Seq<u8>>>) -> Seq<Seq<u8>>
    decreases sections.len(),
{
    if sections.len() == 0 {
        Seq::empty()
    } else {
        match sections.last() {
            Some(der) => certificates(sections.drop_last()).push(der),
            None => certificates(sections.drop_last()),
        }
    }
}

/// The roots to verify against: the bundled ones, and behind them the certificates of a
/// bundle, if there is one.
pub open spec fn trusted(bundled: Seq<Seq<u8>>, bundle: Option<Seq<u8>>) -> Seq<Seq<u8>> {
    match bundle {
        Some(pem) => bundled + certificates(pem_sections(pem)),
        None => bundled,
    }
}

/// Appends the certificates among the sections of a bundle to the bundled roots.
pub fn extend_roots(bundled: Vec<Vec<u8>>, sections: Vec<Option<Vec<u8>>>) -> (r: Vec<Vec<u8>>)
    ensures
        r.deep_view() == bundled.deep_view() + certificates(sections.deep_view()),
{
    let ghost start = bundled.deep_view();
    let ghost all = sections.deep_view();
    let mut roots: Vec<Vec<u8>> = bundled;
    let mut rest: Vec<Option<Vec<u8>>> = sections;
    let ghost mut done: int = 0;
    assert(all.skip(0) =~= all);
    assert(start + certificates(all.take(0)) =~= start);
    while rest.len() > 0
        invariant
            0 <= done <= all.len(),
            rest.deep_view() == all.skip(done),
            roots.deep_view() == start + certificates(all.take(done)),
        decreases rest.len(),
    {
        let ghost prev = rest.deep_view();
        let ghost before = roots.deep_view();
        assert(prev.len() == rest.len());
        assert(prev[0] == all[done]);
        let first = rest.remove(0);
        assert(first.deep_view() == prev[0]);
        assert(rest.deep_view() =~= prev.drop_first());
        assert(prev.drop_first() =~= all.skip(done + 1));
        assert(all.take(done + 1).drop_last() =~= all.take(done));
        if let Some(der) = first {
            let ghost view = der.deep_view();
            roots.push(der);
            assert(roots.deep_view() =~= before.push(view));
            assert(roots.deep_view() =~= start + certificates(all.take(done)).push(view));
        }
        proof {
            done = done + 1;
        }
    }
    proof {
        assert(rest.deep_view().len() == 0);
        assert(all.take(done) =~= all);
    }
    roots
}

/// The roots to verify against. `bundle` holds the bytes of the CA bundle that the
/// environment names, if it could be read. A bundle only ever adds: one that cannot be parsed
/// must not narrow what is trusted.
pub fn root_certificates(bundled: Vec<Vec<u8>>, bundle: Option<&Vec<u8>>) -> (r: Vec<Vec<u8>>)
    ensures
        r.deep_view() == trusted(
            bundled.deep_view(),
            match bundle {
                Some(pem) => Some(pem@),
                None => None,
            },
        ),
        bundled.deep_view().is_prefix_of(r.deep_view()),
{
    match bundle {
        Some(pem) => extend_roots(bundled, parse_pem(pem.as_slice())),
        None => bundled,
    }
}

/// Whatever is in a bundle, no bundled root is lost.
pub proof fn law_a_bundle_never_narrows_the_roots(
    bundled: Seq<Seq<u8>>,
    bundle: Option<Seq<u8>>,
    i: int,
)
    requires
        0 <= i < bundled.len(),
    ensures
        trusted(bundled, bundle).len() >= bundled.len(),
        trusted(bundled, bundle)[i] == bundled[i],
{
}

/// A missing page is no failure, a page that came is its text, and any other status is an
/// error with that status and the wait that was asked for.
pub proof fn law_a_status_means_what_it_says(status: u16, h: Option<Seq<char>>, t: Seq<char>)
    ensures
        meaning(404, h, Ok(t)) == Ok::<Option<Seq<char>>, FetchErrorView>(None),
        200 <= status < 300 ==> meaning(status, h, Ok(t)) == Ok::<
            Option<Seq<char>>,
            FetchErrorView,
        >(Some(t)),
        meaning(status, h, Ok(t)) is Ok ==> status == 404 || (200 <= status && status < 300),
        meaning(status, h, Ok(t)) matches Err(e) ==> (e matches FetchErrorView::Status {
            code,
            retry_after,
            body,
        } && code == status && retry_after == header_wait(h) && body == Some(t)),
        status != 404 ==> meaning(status, h, Err(t)) == Err::<Option<Seq<char>>, FetchErrorView>(
            FetchErrorView::Decode(t),
        ),
{
}

/// A wait that a server asks for in seconds is read back; no header asks for none.
pub proof fn law_a_wait_is_read_back(n: u64)
    ensures
        header_wait(Some(text::decimal(n as nat))) == Some(n),
        header_wait(None) is None,
{
    let s = text::decimal(n as nat);
    text::law_decimal_reads_back(n as nat);
    assert(s.len() > 0);
    text::law_trimming_takes_white_space(s, 0, s.len() as int);
    assert(s.subrange(0, s.len() as int) =~= s);
}

/// A request that may be tried again is, after what the server asked for, or after clove's own
/// wait, which grows; it is given up where that would take too long or was tried enough.
pub proof fn law_a_retry_waits_as_asked(e: FetchErrorView, attempt: u32)
    ensures
        e.is_retryable() && attempt < MAX_RETRIES ==> (e.wait() matches Some(secs) ==> (secs
            <= MAX_BACKOFF_SECS ==> (retried(e, attempt) matches Retry::After(ms) && ms == secs
            * 1000))),
        e.is_retryable() && attempt < MAX_RETRIES && e.wait() is None ==> retried(e, attempt)
            is After,
        e.wait() matches Some(secs) ==> (secs > MAX_BACKOFF_SECS ==> retried(e, attempt) is GiveUp),
        attempt >= MAX_RETRIES || !e.is_retryable() ==> retried(e, attempt) is GiveUp,
        own_wait(0) < own_wait(1),
{
}

/// A message that speaks of certificates gets the hint behind it; any other stays as it is.
pub proof fn law_a_hint_only_adds(message: Seq<char>)
    ensures
        text::begins(hinted(message), message),
        looks_like_tls(message) <==> hinted(message) != message,
        text::occurs(text::lowered(message), "certificate"@) ==> looks_like_tls(message),
        text::occurs(text::lowered(message), "tls"@) ==> looks_like_tls(message),
        text::occurs(text::lowered(message), "handshake"@) ==> looks_like_tls(message),
        text::occurs(text::lowered(message), "self-signed"@) ==> looks_like_tls(message),
        text::occurs(text::lowered(message), "unknown ca"@) ==> looks_like_tls(message),
{
    assert(hinted(message).take(message.len() as int) =~= message);
    reveal_strlit(
        " (clove verifies crates.io against bundled Mozilla roots, so a TLS-intercepting proxy's CA is not trusted even when $SSL_CERT_FILE or the system store contains it)",
    );
    if looks_like_tls(message) {
        assert(hinted(message).len() > message.len());
    }
}

/// Every certificate of a bundle is trusted, in order; what could not be read is passed by.
pub proof fn law_every_readable_certificate_is_trusted(
    sections: Seq<Option<Seq<u8>>>,
    der: Seq<u8>,
)
    ensures
        certificates(Seq::empty()).len() == 0,
        certificates(sections.push(Some(der))) == certificates(sections).push(der),
        certificates(sections.push(None)) == certificates(sections),
{
    assert(sections.push(Some(der)).drop_last() =~= sections);
    assert(sections.push(None).drop_last() =~= sections);
}

} // verus!
