//! The navigation policy: the web view stays on the origin of the URL that the
//! operator gave it.
//!
//! `about:blank` is the one address outside that origin that passes, because
//! the engine reports it while it shows internally generated pages. No other
//! `about:` form and no `data:` address does.

use crate::text::{decimal_string, same_text, starts_with_text};
use vstd::prelude::*;

verus! {

use crate::text::{
    decimal,
    has_prefix,
    is_digit,
    law_decimal_is_unambiguous,
    lemma_decimal_writes,
};

/// The parts of a URL that the policy looks at.
#[derive(Debug)]
pub struct UrlParts {
    pub scheme: String,
    pub host: Option<String>,
    /// The port, where the URL names one that is not its scheme's own.
    pub port: Option<u16>,
}

/// Scheme, host and port.
pub type UrlModel = (Seq<char>, Option<Seq<char>>, Option<u16>);

impl View for UrlParts {
    type V = UrlModel;

    open spec fn view(&self) -> UrlModel {
        (
            self.scheme@,
            match self.host {
                Some(host) => Some(host@),
                None => None,
            },
            self.port,
        )
    }
}

/// Whether `c` can stand in a scheme.
pub open spec fn is_scheme_char(c: char) -> bool {
    ('a' <= c && c <= 'z') || ('0' <= c && c <= '9') || c == '+' || c == '-' || c == '.'
}

/// Whether a scheme is one of the web's.
pub open spec fn is_web_scheme(scheme: Seq<char>) -> bool {
    scheme == "http"@ || scheme == "https"@
}

/// The port that a URL means: the one that it names, or 443 for `https` and 80
/// for anything else.
pub open spec fn effective_port(url: UrlModel) -> u16 {
    match url.2 {
        Some(port) => port,
        None => if url.0 == "https"@ {
            443
        } else {
            80
        },
    }
}

/// Whether two URLs have the same scheme, host and effective port.
pub open spec fn same_origin(a: UrlModel, b: UrlModel) -> bool {
    a.0 == b.0 && a.1 == b.1 && effective_port(a) == effective_port(b)
}

/// The origin of a URL with a host, with its port always written out.
pub open spec fn origin_text(url: UrlModel) -> Seq<char>
    recommends
        url.1 is Some,
{
    url.0 + "://"@ + url.1->0 + ":"@ + decimal(effective_port(url) as nat)
}

/// Whether `scheme` is written in lower-case letters, digits, `+`, `-` and `.`.
pub open spec fn is_scheme_text(scheme: Seq<char>) -> bool {
    forall|i: int| 0 <= i < scheme.len() ==> is_scheme_char(#[trigger] scheme[i])
}

/// Whether `c` can stand in the host of a web URL: it ends neither a host nor
/// what stands before one.
pub open spec fn is_host_char(c: char) -> bool {
    c != '/' && c != '\\' && c != '?' && c != '#' && c != '@'
}

/// What holds of the parts of every URL: its scheme is written in lower-case
/// letters, digits, `+`, `-` and `.`, and a web URL has a host without a
/// character that would end it.
pub open spec fn is_url(url: UrlModel) -> bool {
    &&& is_scheme_text(url.0)
    &&& is_web_scheme(url.0) ==> (url.1 matches Some(host) && forall|i: int|
        0 <= i < host.len() ==> is_host_char(#[trigger] host[i]))
}

/// Whether a `data:` or `about:` address has parsed to a URL of that scheme.
pub open spec fn keeps_internal_scheme(text: Seq<char>, url: UrlModel) -> bool {
    &&& has_prefix(text, "data:"@) ==> url.0 == "data"@
    &&& has_prefix(text, "about:"@) ==> url.0 == "about"@
}

/// Whether a host has a label that stands for one outside ASCII: one that
/// begins with `xn--`.
pub open spec fn holds_punycode(host: Seq<char>) -> bool {
    exists|i: int|
        0 <= i <= host.len() - 4 && (i == 0 || host[i - 1] == '.') && #[trigger] host.subrange(
            i,
            i + 4,
        ) == "xn--"@
}

/// Whether the origin of a URL parses to a URL of the same origin.
pub open spec fn origin_reads_back(url: UrlModel) -> bool {
    parsed_url(origin_text(url)) matches Some(again) && same_origin(again, url)
}

/// What `url::Url::parse` makes of a text: scheme, host and port of the URL
/// that it writes, where it writes one.
pub uninterp spec fn parsed_url(text: Seq<char>) -> Option<
    (Seq<char>, Option<Seq<char>>, Option<u16>),
>;

/// `url::Url::parse`, with the parsed URL's `scheme`, `host_str` and `port`.
/// What is claimed is
/// - that they depend on the text alone;
/// - that a scheme holds nothing but lower-case ASCII letters, digits, `+`, `-`
///   and `.`, and is `data` or `about` where the text begins so, with a colon;
/// - that an `http` or `https` URL has a host, without `/`, `\`, `?`, `#`, `@`;
/// - that such a URL's origin, with the port written out, parses to the same
///   scheme, host and port again, unless a label of the host begins with
///   `xn--`.
///
/// Nothing is said of reading back a host with such a label: one that was
/// encoded to more than 2000 characters is refused when it is to be decoded.
#[verifier::external_body]
fn parse_url(text: &str) -> (r: Option<UrlParts>)
    ensures
        match r {
            Some(url) => {
                &&& parsed_url(text@) == Some(url@)
                &&& is_url(url@)
                &&& keeps_internal_scheme(text@, url@)
                &&& is_web_scheme(url@.0) && !holds_punycode(url@.1->0) ==> origin_reads_back(url@)
            },
            None => parsed_url(text@) is None,
        },
{
    let url = url::Url::parse(text).ok()?;
    Some(
        UrlParts {
            scheme: url.scheme().to_string(),
            host: url.host_str().map(str::to_string),
            port: url.port(),
        },
    )
}

/// The origin of a URL, where it has a host.
pub fn origin_of(url: &UrlParts) -> (r: Option<String>)
    ensures
        match r {
            Some(text) => url@.1 is Some && text@ == origin_text(url@),
            None => url@.1 is None,
        },
{
    match &url.host {
        Some(host) => {
            let default_port: u16 = if same_text(url.scheme.as_str(), "https") {
                443
            } else {
                80
            };
            let port: u16 = match url.port {
                Some(port) => port,
                None => default_port,
            };
            let mut text = url.scheme.clone();
            text.append("://");
            text.append(host.as_str());
            text.append(":");
            text.append(decimal_string(port as u64).as_str());
            Some(text)
        },
        None => None,
    }
}

/// The origin that a kiosk with this URL may navigate within.
pub open spec fn origin_allowed_by(url: UrlModel) -> Option<Seq<char>> {
    if is_web_scheme(url.0) && url.1 is Some {
        Some(origin_text(url))
    } else {
        None
    }
}

/// The origin that a kiosk with this URL may navigate within. There is one
/// only for a web URL.
pub fn allowed_origin_of(url: &UrlParts) -> (r: Option<String>)
    ensures
        match r {
            Some(text) => origin_allowed_by(url@) == Some(text@),
            None => origin_allowed_by(url@) is None,
        },
{
    if same_text(url.scheme.as_str(), "http") || same_text(url.scheme.as_str(), "https") {
        origin_of(url)
    } else {
        None
    }
}

/// The origin that a kiosk whose URL parses to `url` may navigate within, where
/// there is one.
pub open spec fn allowed_by(url: Option<UrlModel>) -> Option<Seq<char>> {
    match url {
        Some(url) => origin_allowed_by(url),
        None => None,
    }
}

/// The origin that a kiosk with this URL text may navigate within, where there
/// is one.
pub open spec fn origin_in(text: Seq<char>) -> Option<Seq<char>> {
    allowed_by(parsed_url(text))
}

/// The origin (`scheme://host:port`, the port always written out) that a kiosk
/// may navigate within, where its URL is a web URL. An origin is its own
/// origin, wherever the parser reads it back, and it does unless the host
/// holds an encoded label.
pub fn parse_allowed_origin(initial_url: &str) -> (r: Option<String>)
    ensures
        match r {
            Some(text) => {
                &&& origin_in(initial_url@) == Some(text@)
                &&& parsed_url(initial_url@) matches Some(url) && is_url(url) && is_web_scheme(url.0)
                    && text@ == origin_text(url) && (origin_reads_back(url) || !holds_punycode(
                    url.1->0,
                ) ==> origin_in(text@) == Some(text@))
            },
            None => origin_in(initial_url@) is None,
        },
        r is Some <==> (parsed_url(initial_url@) matches Some(url) && is_web_scheme(url.0)),
        has_prefix(initial_url@, "data:"@) || has_prefix(initial_url@, "about:"@) ==> r is None,
{
    match parse_url(initial_url) {
        Some(url) => {
            proof {
                lemma_internal_schemes();
                if is_web_scheme(url@.0) && origin_reads_back(url@) {
                    law_origin_is_its_own(url@, parsed_url(origin_text(url@))->0);
                }
            }
            allowed_origin_of(&url)
        },
        None => None,
    }
}

proof fn lemma_internal_schemes()
    ensures
        !is_web_scheme("data"@),
        !is_web_scheme("about"@),
{
    reveal_strlit("data");
    reveal_strlit("about");
    reveal_strlit("http");
    reveal_strlit("https");
    assert("data"@[0] == 'd' && "about"@[0] == 'a' && "http"@[0] == 'h' && "https"@[0] == 'h');
}

/// Whether a target may be navigated to. `url` is what it parses to, where it
/// does; `allowed` is the origin that the kiosk may navigate within, where it
/// has one.
pub open spec fn may_navigate(
    target: Seq<char>,
    url: Option<UrlModel>,
    allowed: Option<Seq<char>>,
) -> bool {
    if target == "about:blank"@ {
        true
    } else if has_prefix(target, "data:"@) || has_prefix(target, "about:"@) {
        false
    } else {
        match (url, allowed) {
            (Some(url), Some(allowed)) => url.1 is Some && origin_text(url) == allowed,
            _ => false,
        }
    }
}

/// The text that an optional string holds.
pub open spec fn text_of(s: Option<&str>) -> Option<Seq<char>> {
    match s {
        Some(s) => Some(s@),
        None => None,
    }
}

/// The parts that an optional URL has.
pub open spec fn parts_of(url: Option<&UrlParts>) -> Option<UrlModel> {
    match url {
        Some(url) => Some(url@),
        None => None,
    }
}

/// Decides whether a target may be navigated to, given what it parses to.
pub fn decide_navigation(target: &str, url: Option<&UrlParts>, allowed_origin: Option<&str>) -> (r:
    bool)
    ensures
        r == may_navigate(target@, parts_of(url), text_of(allowed_origin)),
{
    if same_text(target, "about:blank") {
        return true;
    }
    if starts_with_text(target, "data:") || starts_with_text(target, "about:") {
        return false;
    }
    match allowed_origin {
        Some(allowed) => match url {
            Some(url) => match origin_of(url) {
                Some(candidate) => same_text(candidate.as_str(), allowed),
                None => false,
            },
            None => false,
        },
        None => false,
    }
}

/// Whether a target may be navigated to under the allowed origin. Where that
/// comes of an initial URL, exactly `about:blank` and the targets with the same
/// allowed origin pass.
pub fn navigation_allowed(target: &str, allowed_origin: Option<&str>) -> (r: bool)
    ensures
        r == may_navigate(target@, parsed_url(target@), text_of(allowed_origin)),
        forall|initial: Seq<char>|
            text_of(allowed_origin) == #[trigger] origin_in(initial) ==> (r <==> target@
                == "about:blank"@ || (origin_in(initial) is Some && origin_in(target@) == origin_in(
                initial,
            ))),
        forall|initial: UrlModel|
            target@ != "about:blank"@ && is_web_scheme(initial.0) && text_of(allowed_origin)
                == #[trigger] origin_allowed_by(initial) ==> (r <==> initial.1 is Some && (
            parsed_url(target@) matches Some(url) && same_origin(url, initial))),
{
    let url = parse_url(target);
    proof {
        assert forall|initial: Option<UrlModel>|
            text_of(allowed_origin) == #[trigger] allowed_by(initial) implies may_navigate(
            target@,
            parsed_url(target@),
            text_of(allowed_origin),
        ) == (target@ == "about:blank"@ || (allowed_by(initial) is Some && allowed_by(
            parsed_url(target@),
        ) == allowed_by(initial))) by {
            law_same_allowed_origin_passes(target@, parsed_url(target@), initial);
        }
        assert forall|initial: UrlModel|
            target@ != "about:blank"@ && is_web_scheme(initial.0) && text_of(allowed_origin)
                == #[trigger] origin_allowed_by(initial) implies (may_navigate(
            target@,
            parsed_url(target@),
            text_of(allowed_origin),
        ) <==> initial.1 is Some && (parsed_url(target@) matches Some(url) && same_origin(
            url,
            initial,
        ))) by {
            if initial.1 is Some && parsed_url(target@) is Some {
                law_navigation_stays_on_the_origin(target@, parsed_url(target@)->0, initial);
            }
        }
    }
    decide_navigation(target, url.as_ref(), allowed_origin)
}

/// What the engine asks about.
#[derive(Debug)]
pub enum PolicyRequest {
    /// A new window: a popup, a link with a target, a call of `window.open`.
    NewWindow,
    /// A navigation, with its target where the request has one.
    Navigation { target: Option<String> },
    /// Anything else.
    Other,
}

/// Whether a request is blocked under an allowed origin.
pub open spec fn blocked(request: PolicyRequest, allowed: Option<Seq<char>>) -> bool {
    match request {
        PolicyRequest::NewWindow => true,
        PolicyRequest::Navigation { target: Some(target) } => !may_navigate(
            target@,
            parsed_url(target@),
            allowed,
        ),
        PolicyRequest::Navigation { target: None } => !may_navigate(""@, parsed_url(""@), allowed),
        PolicyRequest::Other => false,
    }
}

/// Whether a request is blocked. New windows always are; a navigation is where
/// the policy refuses its target; everything else is left to the engine.
pub fn is_blocked(request: &PolicyRequest, allowed_origin: Option<&str>) -> (r: bool)
    ensures
        r == blocked(*request, text_of(allowed_origin)),
{
    match request {
        PolicyRequest::NewWindow => true,
        PolicyRequest::Navigation { target } => match target {
            Some(target) => !navigation_allowed(target.as_str(), allowed_origin),
            None => !navigation_allowed("", allowed_origin),
        },
        PolicyRequest::Other => false,
    }
}

/// `about:blank` passes, whatever it parses to and whatever origin is allowed.
pub proof fn law_about_blank_passes(url: Option<UrlModel>, allowed: Option<Seq<char>>)
    ensures
        may_navigate("about:blank"@, url, allowed),
{
}

/// No `data:` address passes, and no `about:` address but `about:blank`.
pub proof fn law_internal_addresses_are_refused(
    target: Seq<char>,
    url: Option<UrlModel>,
    allowed: Option<Seq<char>>,
)
    ensures
        has_prefix(target, "data:"@) ==> !may_navigate(target, url, allowed),
        has_prefix(target, "about:"@) && target != "about:blank"@ ==> !may_navigate(
            target,
            url,
            allowed,
        ),
{
    reveal_strlit("data:");
    reveal_strlit("about:blank");
    if has_prefix(target, "data:"@) {
        assert(target.take(5)[0] == 'd');
    }
}

/// Without an allowed origin, nothing but `about:blank` passes; and whatever
/// does not parse never passes but for it.
pub proof fn law_nothing_passes_unconfigured(
    target: Seq<char>,
    url: Option<UrlModel>,
    allowed: Option<Seq<char>>,
)
    ensures
        may_navigate(target, url, None) <==> target == "about:blank"@,
        may_navigate(target, None, allowed) <==> target == "about:blank"@,
{
}

/// Two origins are the same text exactly where scheme, host and effective port
/// are the same.
pub proof fn law_origins_are_exact(a: UrlModel, b: UrlModel)
    requires
        is_scheme_text(a.0),
        is_scheme_text(b.0),
        a.1 is Some,
        b.1 is Some,
    ensures
        origin_text(a) == origin_text(b) <==> same_origin(a, b),
{
    if origin_text(a) == origin_text(b) {
        reveal_strlit("://");
        reveal_strlit(":");
        let pa = decimal(effective_port(a) as nat);
        let pb = decimal(effective_port(b) as nat);
        lemma_decimal_writes(effective_port(a) as nat);
        lemma_decimal_writes(effective_port(b) as nat);
        lemma_first_colon(a, b);
        lemma_first_colon(b, a);
        assert(a.0 =~= origin_text(a).take(a.0.len() as int));
        assert(b.0 =~= origin_text(b).take(b.0.len() as int));
        lemma_last_colon(a, b);
        lemma_last_colon(b, a);
        let n = origin_text(a).len() as int;
        assert(pa =~= origin_text(a).skip(n - pa.len()));
        assert(pb =~= origin_text(b).skip(n - pb.len()));
        assert(a.1->0 =~= origin_text(a).subrange(a.0.len() as int + 3, n - pa.len() - 1));
        assert(b.1->0 =~= origin_text(b).subrange(b.0.len() as int + 3, n - pb.len() - 1));
    }
}

proof fn lemma_first_colon(a: UrlModel, b: UrlModel)
    requires
        is_scheme_text(b.0),
        origin_text(a) == origin_text(b),
    ensures
        a.0.len() >= b.0.len(),
{
    reveal_strlit("://");
    if a.0.len() < b.0.len() {
        assert(origin_text(a)[a.0.len() as int] == ':');
        assert(origin_text(b)[a.0.len() as int] == b.0[a.0.len() as int]);
        assert(is_scheme_char(b.0[a.0.len() as int]));
    }
}

proof fn lemma_last_colon(a: UrlModel, b: UrlModel)
    requires
        origin_text(a) == origin_text(b),
    ensures
        decimal(effective_port(a) as nat).len() >= decimal(effective_port(b) as nat).len(),
{
    reveal_strlit(":");
    let pa = decimal(effective_port(a) as nat);
    let pb = decimal(effective_port(b) as nat);
    lemma_decimal_writes(effective_port(b) as nat);
    if pa.len() < pb.len() {
        let n = origin_text(a).len() as int;
        let i = n - pa.len() - 1;
        assert(origin_text(a)[i] == ':');
        let k = i - (n - pb.len());
        assert(origin_text(b)[i] == pb[k]);
        assert(is_digit(pb[k]));
    }
}

/// The scheme of a web URL is a scheme.
proof fn lemma_web_schemes(scheme: Seq<char>)
    requires
        is_web_scheme(scheme),
    ensures
        is_scheme_text(scheme),
{
    reveal_strlit("http");
    reveal_strlit("https");
}

/// The policy pins the web view to the origin of the initial URL: a target
/// other than `about:blank` passes exactly where it has the initial URL's
/// scheme, host and effective port. In particular nothing but a web URL passes.
pub proof fn law_navigation_stays_on_the_origin(
    target: Seq<char>,
    url: UrlModel,
    initial: UrlModel,
)
    requires
        is_url(url),
        keeps_internal_scheme(target, url),
        is_web_scheme(initial.0),
        initial.1 is Some,
        target != "about:blank"@,
    ensures
        may_navigate(target, Some(url), origin_allowed_by(initial)) <==> same_origin(url, initial),
        !is_web_scheme(url.0) ==> !may_navigate(target, Some(url), origin_allowed_by(initial)),
{
    lemma_web_schemes(initial.0);
    lemma_internal_schemes();
    if url.1 is Some {
        law_origins_are_exact(url, initial);
    }
}

/// Under the origin that comes of an initial URL, exactly `about:blank` and the
/// targets with the same allowed origin pass. `url` and `initial` are what the
/// target and the initial URL parse to.
pub proof fn law_same_allowed_origin_passes(
    target: Seq<char>,
    url: Option<UrlModel>,
    initial: Option<UrlModel>,
)
    requires
        url matches Some(u) ==> is_url(u) && keeps_internal_scheme(target, u),
    ensures
        may_navigate(target, url, allowed_by(initial)) <==> target == "about:blank"@ || (allowed_by(
            initial,
        ) is Some && allowed_by(url) == allowed_by(initial)),
{
    if target != "about:blank"@ && allowed_by(initial) is Some {
        if let (Some(url), Some(initial)) = (url, initial) {
            law_navigation_stays_on_the_origin(target, url, initial);
            if origin_allowed_by(url) is Some {
                lemma_web_schemes(initial.0);
                law_origins_are_exact(url, initial);
            }
        }
    }
}

/// An origin is its own origin: what has the same scheme, host and effective
/// port as a web URL has that URL's origin as its own.
pub proof fn law_origin_is_its_own(url: UrlModel, again: UrlModel)
    requires
        is_web_scheme(url.0),
        url.1 is Some,
        same_origin(again, url),
    ensures
        origin_allowed_by(again) == Some(origin_text(url)),
{
}

/// Nothing of a path, a query, a fragment or a user is left in an origin: it
/// holds no `?`, `#`, `@` or backslash, and no slashes but the two behind its
/// scheme.
pub proof fn law_origin_holds_no_other_part(url: UrlModel, i: int)
    requires
        is_url(url),
        is_web_scheme(url.0),
        0 <= i < origin_text(url).len(),
    ensures
        origin_text(url)[i] != '?' && origin_text(url)[i] != '#' && origin_text(url)[i] != '@'
            && origin_text(url)[i] != '\\',
        origin_text(url)[i] == '/' <==> url.0.len() < i <= url.0.len() + 2,
{
    reveal_strlit("://");
    reveal_strlit(":");
    let host = url.1->0;
    let port = decimal(effective_port(url) as nat);
    lemma_decimal_writes(effective_port(url) as nat);
    let n = url.0.len();
    if i < n {
        assert(origin_text(url)[i] == url.0[i]);
    } else if i < n + 3 {
        assert(origin_text(url)[i] == "://"@[i - n]);
    } else if i < n + 3 + host.len() {
        assert(origin_text(url)[i] == host[i - n - 3]);
    } else if i > n + 3 + host.len() {
        let k = i - n - 4 - host.len();
        assert(origin_text(url)[i] == port[k]);
        assert(is_digit(port[k]));
    }
}

/// A web URL that leaves its port out has the same origin as one that writes
/// its scheme's own port out.
pub proof fn law_default_ports_are_materialised(host: Option<Seq<char>>)
    ensures
        origin_text(("http"@, host, None)) == origin_text(("http"@, host, Some(80u16))),
        origin_text(("https"@, host, None)) == origin_text(("https"@, host, Some(443u16))),
{
    reveal_strlit("http");
    reveal_strlit("https");
    assert("http"@.len() != "https"@.len());
}

/// The port of a URL stands in its origin: the one that it names, digit for
/// digit, or 443 for `https` and 80 for anything else where it names none.
/// Before it stand scheme and host, whole.
pub proof fn law_origin_ends_in_the_port(scheme: Seq<char>, host: Seq<char>, port: u16)
    ensures
        origin_text((scheme, Some(host), Some(port))) == scheme + "://"@ + host + ":"@ + decimal(
            port as nat,
        ),
        origin_text((scheme, Some(host), None)) == scheme + "://"@ + host + ":"@ + decimal(
            if scheme == "https"@ {
                443
            } else {
                80
            },
        ),
{
}

/// Ports tell origins apart: two URLs of the same scheme and host that name
/// different ports have different origins, and so have one that names a port
/// other than its scheme's own and one that names none.
pub proof fn law_ports_tell_origins_apart(scheme: Seq<char>, host: Seq<char>, p: u16, q: u16)
    requires
        p != q,
    ensures
        origin_text((scheme, Some(host), Some(p))) != origin_text((scheme, Some(host), Some(q))),
        !same_origin((scheme, Some(host), Some(p)), (scheme, Some(host), Some(q))),
        p != (if scheme == "https"@ {
            443u16
        } else {
            80u16
        }) ==> origin_text((scheme, Some(host), Some(p))) != origin_text(
            (scheme, Some(host), None),
        ) && !same_origin((scheme, Some(host), Some(p)), (scheme, Some(host), None)),
{
    lemma_ports_differ(scheme, host, p as nat, q as nat);
    lemma_ports_differ(
        scheme,
        host,
        p as nat,
        if scheme == "https"@ {
            443
        } else {
            80
        },
    );
}

proof fn lemma_ports_differ(scheme: Seq<char>, host: Seq<char>, p: nat, q: nat)
    ensures
        p != q ==> scheme + "://"@ + host + ":"@ + decimal(p) != scheme + "://"@ + host + ":"@
            + decimal(q),
{
    let head = scheme + "://"@ + host + ":"@;
    if head + decimal(p) == head + decimal(q) {
        assert((head + decimal(p)).skip(head.len() as int) =~= decimal(p));
        assert((head + decimal(q)).skip(head.len() as int) =~= decimal(q));
        law_decimal_is_unambiguous(p, q);
    }
}

/// A kiosk may navigate within an origin exactly where its URL has a host and
/// the scheme `http` or `https`; and that origin is scheme, host and port.
pub proof fn law_web_urls_have_an_allowed_origin(url: UrlModel)
    ensures
        origin_allowed_by(url) is Some <==> url.1 is Some && (url.0 == "http"@ || url.0
            == "https"@),
        origin_allowed_by(url) matches Some(text) ==> text == url.0 + "://"@ + url.1->0 + ":"@
            + decimal(
            match url.2 {
                Some(port) => port as nat,
                None => if url.0 == "https"@ {
                    443
                } else {
                    80
                },
            },
        ),
{
}

/// A target other than `about:blank` that passes has the scheme and the host of
/// the initial URL, and its port: the same one where both name one, and where
/// one names none, that of the scheme.
pub proof fn law_targets_that_pass_have_the_same_port(
    target: Seq<char>,
    url: UrlModel,
    initial: UrlModel,
)
    requires
        is_url(url),
        keeps_internal_scheme(target, url),
        target != "about:blank"@,
        initial.1 is Some,
        initial.0 == "http"@ || initial.0 == "https"@,
    ensures
        may_navigate(target, Some(url), origin_allowed_by(initial)) <==> {
            &&& url.0 == initial.0
            &&& url.1 == initial.1
            &&& match (url.2, initial.2) {
                (Some(p), Some(q)) => p == q,
                (Some(p), None) => p == if initial.0 == "https"@ {
                    443u16
                } else {
                    80u16
                },
                (None, Some(q)) => q == if initial.0 == "https"@ {
                    443u16
                } else {
                    80u16
                },
                (None, None) => true,
            }
        },
{
    law_navigation_stays_on_the_origin(target, url, initial);
}

/// A new window is always blocked, a request of another sort never is, and a
/// navigation is exactly where its target does not pass; one without a target
/// counts as one to nowhere.
pub proof fn law_navigations_are_blocked_by_their_target(
    target: String,
    allowed: Option<Seq<char>>,
)
    ensures
        blocked(PolicyRequest::NewWindow, allowed),
        !blocked(PolicyRequest::Other, allowed),
        blocked(PolicyRequest::Navigation { target: Some(target) }, allowed) <==> !may_navigate(
            target@,
            parsed_url(target@),
            allowed,
        ),
        target@ == ""@ ==> blocked(PolicyRequest::Navigation { target: None }, allowed) == blocked(
            PolicyRequest::Navigation { target: Some(target) },
            allowed,
        ),
{
}

/// Nothing of a URL's parts or of an allowed origin is lost on the way to the
/// decision.
pub proof fn law_parts_are_taken_whole(url: &UrlParts, allowed: &str)
    ensures
        parts_of(Some(url)) matches Some(parts) && parts.0 == url.scheme@ && parts.2 == url.port && (
        url.host matches Some(host) ==> parts.1 == Some(host@)) && (url.host is None ==> parts.1
            is None),
        parts_of(None) is None,
        text_of(Some(allowed)) == Some(allowed@),
        text_of(None) is None,
{
}

/// A text has an allowed origin exactly where it parses to a web URL with a
/// host, and then it is that URL's.
pub proof fn law_texts_have_the_origin_of_their_url(text: Seq<char>)
    ensures
        match parsed_url(text) {
            Some(url) => if url.1 is Some && (url.0 == "http"@ || url.0 == "https"@) {
                origin_in(text) == Some(origin_text(url))
            } else {
                origin_in(text) is None
            },
            None => origin_in(text) is None,
        },
{
}

} // verus!
