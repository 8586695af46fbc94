//! Which URLs the reader fetches: only `http` and `https` URLs with a host,
//! and, unless private feeds are allowed, none that name `localhost` or
//! resolve to a private, local, link-local or otherwise reserved address.
use crate::error::AppError;
use crate::text::{
    chars_eq, chars_of, ends_with, ends_with_chars, nat_decimal, nat_hex, owned, push_hex,
    push_str, push_u64_decimal, string_of, to_ascii_lowercase, to_ascii_lowercase_chars, trim,
    trim_str,
};
use vstd::prelude::*;

verus! {

/// What the reader keeps of a parsed URL: its serialization, scheme, host
/// and port (the scheme's default port where none is given).
#[derive(Debug, Clone, PartialEq, Eq)]
pub struct ParsedUrl {
    pub href: String,
    pub scheme: String,
    pub host: Option<String>,
    pub port: Option<u16>,
}

/// The plain facts of a parsed URL: serialization, scheme, host, port.
pub type UrlFacts = (Seq<char>, Seq<char>, Option<Seq<char>>, Option<u16>);

pub open spec fn host_view(h: Option<String>) -> Option<Seq<char>> {
    match h {
        Some(s) => Some(s@),
        None => None,
    }
}

pub open spec fn url_facts(u: ParsedUrl) -> UrlFacts {
    (u.href@, u.scheme@, host_view(u.host), u.port)
}

pub open spec fn parse_result_view(r: Result<ParsedUrl, String>) -> Result<UrlFacts, Seq<char>> {
    match r {
        Ok(u) => Ok(url_facts(u)),
        Err(e) => Err(e@),
    }
}

/// What `url::Url::parse` makes of `input`: the URL's facts, or the text of
/// the parse error.
pub uninterp spec fn url_parse(input: Seq<char>) -> Result<UrlFacts, Seq<char>>;

/// What `url::Url::join` makes of `reference` against the URL `base`
/// parses to: the URL's facts, or the text of the error.
pub uninterp spec fn url_join(base: Seq<char>, reference: Seq<char>) -> Result<UrlFacts, Seq<char>>;

/// Calls `url::Url::parse` and reads the result's `as_str`, `scheme`,
/// `host_str` and `port_or_known_default`; on failure, the error's text.
/// Claims only that the outcome is the one `url_parse` names for the input.
#[verifier::external_body]
pub(crate) fn parse_url(input: &str) -> (r: Result<ParsedUrl, String>)
    ensures
        parse_result_view(r) == url_parse(input@),
{
    match url::Url::parse(input) {
        Ok(u) => Ok(ParsedUrl {
            href: u.as_str().to_string(),
            scheme: u.scheme().to_string(),
            host: u.host_str().map(|h| h.to_string()),
            port: u.port_or_known_default(),
        }),
        Err(e) => Err(e.to_string()),
    }
}

/// Calls `url::Url::parse` on `base` and `url::Url::join` with `reference`,
/// reading the result as `parse_url` does. Claims only that the outcome is
/// the one `url_join` names for the two arguments.
#[verifier::external_body]
pub(crate) fn join_url(base: &str, reference: &str) -> (r: Result<ParsedUrl, String>)
    ensures
        parse_result_view(r) == url_join(base@, reference@),
{
    match url::Url::parse(base).and_then(|b| b.join(reference)) {
        Ok(u) => Ok(ParsedUrl {
            href: u.as_str().to_string(),
            scheme: u.scheme().to_string(),
            host: u.host_str().map(|h| h.to_string()),
            port: u.port_or_known_default(),
        }),
        Err(e) => Err(e.to_string()),
    }
}

/// The text of a `BadRequest`, empty for other errors.
pub open spec fn bad_request_text(e: AppError) -> Option<Seq<char>> {
    match e {
        AppError::BadRequest(m) => Some(m@),
        _ => None,
    }
}

/// The outcome of checking the syntax of an already trimmed URL text:
/// the URL's facts, or the text of the `BadRequest` it is refused with.
pub open spec fn syntax_outcome(trimmed: Seq<char>) -> Result<UrlFacts, Seq<char>> {
    checks_after_parse(url_parse(trimmed))
}

/// The checks on what parsing gave: a parse error, a scheme other than
/// `http` or `https`, or a missing host is refused with its message.
pub open spec fn checks_after_parse(parsed: Result<UrlFacts, Seq<char>>) -> Result<UrlFacts, Seq<char>> {
    match parsed {
        Err(e) => Err("invalid URL: "@ + e),
        Ok(f) => if f.1 != "http"@ && f.1 != "https"@ {
            Err("unsupported URL scheme: "@ + f.1)
        } else if f.2 is None {
            Err("URL host is required"@)
        } else {
            Ok(f)
        },
    }
}

/// The outcome of checking the syntax of a raw URL text.
pub open spec fn url_syntax_outcome(raw: Seq<char>) -> Result<UrlFacts, Seq<char>> {
    syntax_outcome(trim(raw))
}

/// Whether the result of a check is the given outcome, errors being `BadRequest`s.
pub open spec fn is_outcome(r: Result<ParsedUrl, AppError>, o: Result<UrlFacts, Seq<char>>) -> bool {
    match r {
        Ok(u) => o == Ok::<UrlFacts, Seq<char>>(url_facts(u)),
        Err(e) => match o {
            Err(m) => bad_request_text(e) == Some(m),
            Ok(_) => false,
        },
    }
}

/// An IP address: four octets or eight 16-bit segments.
#[derive(Debug, Clone, Copy, PartialEq, Eq)]
pub enum IpAddress {
    V4([u8; 4]),
    V6([u16; 8]),
}

/// Private (10/8, 172.16/12, 192.168/16), loopback (127/8), link-local
/// (169.254/16), broadcast, documentation (192.0.2/24, 198.51.100/24,
/// 203.0.113/24), "this network" (0/8) or multicast and reserved (224/3).
pub open spec fn is_disallowed_v4(o: [u8; 4]) -> bool {
    v4_octets_disallowed(o@[0] as int, o@[1] as int, o@[2] as int, o@[3] as int)
}

/// [`is_disallowed_v4`] on the octets `a.b.c.d`.
pub open spec fn v4_octets_disallowed(a: int, b: int, c: int, d: int) -> bool {
    ||| a == 10
    ||| (a == 172 && 16 <= b <= 31)
    ||| (a == 192 && b == 168)
    ||| a == 127
    ||| (a == 169 && b == 254)
    ||| (a == 255 && b == 255 && c == 255 && d == 255)
    ||| (a == 192 && b == 0 && c == 2)
    ||| (a == 198 && b == 51 && c == 100)
    ||| (a == 203 && b == 0 && c == 113)
    ||| a == 0
    ||| a >= 224
}

/// The IPv4 address an IPv4-mapped address carries in its last 32 bits.
pub open spec fn mapped_octets(s: [u16; 8]) -> (int, int, int, int) {
    let seg = s@;
    ((seg[6] / 256) as int, (seg[6] % 256) as int, (seg[7] / 256) as int, (seg[7] % 256) as int)
}

/// Loopback (::1), unspecified (::), unique local (fc00::/7), unicast
/// link-local (fe80::/10), in ff80::/10, or IPv4-mapped (`::ffff:a.b.c.d`)
/// where the IPv4 address it carries is refused.
pub open spec fn is_disallowed_v6(s: [u16; 8]) -> bool {
    let seg = s@;
    let first = seg[0];
    let zero_head = seg[0] == 0 && seg[1] == 0 && seg[2] == 0 && seg[3] == 0 && seg[4] == 0
        && seg[5] == 0 && seg[6] == 0;
    let m = mapped_octets(s);
    ||| (zero_head && seg[7] == 1)
    ||| (zero_head && seg[7] == 0)
    ||| (first & 0xfe00) == 0xfc00
    ||| (first & 0xffc0) == 0xfe80
    ||| (first & 0xffc0) == 0xff80
    ||| (is_v4_mapped(seg) && v4_octets_disallowed(m.0, m.1, m.2, m.3))
}

pub open spec fn is_disallowed(ip: IpAddress) -> bool {
    match ip {
        IpAddress::V4(o) => is_disallowed_v4(o),
        IpAddress::V6(s) => is_disallowed_v6(s),
    }
}

fn is_disallowed_v4_exec(o: [u8; 4]) -> (r: bool)
    ensures
        r == is_disallowed_v4(o),
{
    let a = o[0];
    let b = o[1];
    let c = o[2];
    let d = o[3];
    a == 10 || (a == 172 && 16 <= b && b <= 31) || (a == 192 && b == 168) || a == 127 || (a == 169
        && b == 254) || (a == 255 && b == 255 && c == 255 && d == 255) || (a == 192 && b == 0 && c
        == 2) || (a == 198 && b == 51 && c == 100) || (a == 203 && b == 0 && c == 113) || a == 0
        || a >= 224
}

fn is_disallowed_v6_exec(s: [u16; 8]) -> (r: bool)
    ensures
        r == is_disallowed_v6(s),
{
    let first = s[0];
    let zero_head = s[0] == 0 && s[1] == 0 && s[2] == 0 && s[3] == 0 && s[4] == 0 && s[5] == 0
        && s[6] == 0;
    let mapped = s[0] == 0 && s[1] == 0 && s[2] == 0 && s[3] == 0 && s[4] == 0 && s[5] == 0xffff;
    let carried: [u8; 4] = [
        (s[6] / 256) as u8,
        (s[6] % 256) as u8,
        (s[7] / 256) as u8,
        (s[7] % 256) as u8,
    ];
    (zero_head && s[7] == 1) || (zero_head && s[7] == 0) || (first & 0xfe00) == 0xfc00 || (first
        & 0xffc0) == 0xfe80 || (first & 0xffc0) == 0xff80 || (mapped && is_disallowed_v4_exec(
        carried,
    ))
}

/// Whether the reader refuses to fetch from `ip`.
pub fn is_disallowed_ip(ip: IpAddress) -> (r: bool)
    ensures
        r == is_disallowed(ip),
{
    match ip {
        IpAddress::V4(o) => is_disallowed_v4_exec(o),
        IpAddress::V6(s) => is_disallowed_v6_exec(s),
    }
}

// ---------------------------------------------------------------------------
// Address text (as `Display` for `IpAddr` writes it)
// ---------------------------------------------------------------------------

pub open spec fn v4_text(a: int, b: int, c: int, d: int) -> Seq<char> {
    nat_decimal(a as nat) + "."@ + nat_decimal(b as nat) + "."@ + nat_decimal(c as nat) + "."@
        + nat_decimal(d as nat)
}

/// Segments in lowercase hex, separated by `:`.
pub open spec fn hex_groups(s: Seq<u16>) -> Seq<char>
    decreases s.len(),
{
    if s.len() == 0 {
        Seq::empty()
    } else if s.len() == 1 {
        nat_hex(s[0] as nat)
    } else {
        hex_groups(s.drop_last()) + ":"@ + nat_hex(s.last() as nat)
    }
}

/// The first longest run of zero segments from `i` on, given the current
/// run (`cs`, `cl`) and the best so far (`bs`, `bl`): (start, length).
pub open spec fn zero_run_from(s: Seq<u16>, i: int, cs: int, cl: int, bs: int, bl: int) -> (
    int,
    int,
)
    decreases s.len() - i,
{
    if i >= s.len() || i < 0 {
        (bs, bl)
    } else if s[i] == 0 {
        let ns = if cl == 0 {
            i
        } else {
            cs
        };
        let nl = cl + 1;
        if nl > bl {
            zero_run_from(s, i + 1, ns, nl, ns, nl)
        } else {
            zero_run_from(s, i + 1, ns, nl, bs, bl)
        }
    } else {
        zero_run_from(s, i + 1, 0, 0, bs, bl)
    }
}

/// Whether the segments are an IPv4-mapped address (::ffff:a.b.c.d).
pub open spec fn is_v4_mapped(s: Seq<u16>) -> bool {
    s[0] == 0 && s[1] == 0 && s[2] == 0 && s[3] == 0 && s[4] == 0 && s[5] == 0xffff
}

/// The text of an IPv6 address: `::ffff:` and dotted quad for mapped
/// addresses, else hex groups with the first longest run of two or more
/// zero segments written `::`.
pub open spec fn v6_text(s: Seq<u16>) -> Seq<char> {
    if is_v4_mapped(s) {
        "::ffff:"@ + v4_text((s[6] / 256) as int, (s[6] % 256) as int, (s[7] / 256) as int, (s[7] % 256) as int)
    } else {
        let (start, len) = zero_run_from(s, 0, 0, 0, 0, 0);
        if len > 1 {
            hex_groups(s.take(start)) + "::"@ + hex_groups(s.skip(start + len))
        } else {
            hex_groups(s)
        }
    }
}

pub open spec fn ip_text(ip: IpAddress) -> Seq<char> {
    match ip {
        IpAddress::V4(o) => v4_text(o@[0] as int, o@[1] as int, o@[2] as int, o@[3] as int),
        IpAddress::V6(s) => v6_text(s@),
    }
}

fn push_v4(out: &mut Vec<char>, a: u8, b: u8, c: u8, d: u8)
    ensures
        final(out)@ == old(out)@ + v4_text(a as int, b as int, c as int, d as int),
{
    let ghost start = out@;
    push_u64_decimal(out, a as u64);
    push_str(out, ".");
    push_u64_decimal(out, b as u64);
    push_str(out, ".");
    push_u64_decimal(out, c as u64);
    push_str(out, ".");
    push_u64_decimal(out, d as u64);
    assert(out@ =~= start + v4_text(a as int, b as int, c as int, d as int));
}

fn push_hex_groups(out: &mut Vec<char>, s: &[u16], from: usize, to: usize)
    requires
        from <= to <= s@.len(),
    ensures
        final(out)@ == old(out)@ + hex_groups(s@.subrange(from as int, to as int)),
{
    let ghost start = out@;
    let mut i: usize = from;
    assert(s@.subrange(from as int, from as int) =~= Seq::<u16>::empty());
    while i < to
        invariant
            from <= i <= to <= s@.len(),
            out@ == start + hex_groups(s@.subrange(from as int, i as int)),
        decreases to - i,
    {
        let ghost before = out@;
        if i > from {
            push_str(out, ":");
        }
        push_hex(out, s[i] as u64);
        let ghost g = s@.subrange(from as int, i + 1);
        assert(g.drop_last() =~= s@.subrange(from as int, i as int));
        assert(g.last() == s@[i as int]);
        i = i + 1;
        assert(out@ =~= start + hex_groups(s@.subrange(from as int, i as int)));
    }
}

/// The text of `ip`, as `Display` for `std::net::IpAddr` writes it.
pub fn ip_to_text(ip: IpAddress) -> (r: String)
    ensures
        r@ == ip_text(ip),
{
    let mut out: Vec<char> = Vec::new();
    match ip {
        IpAddress::V4(o) => {
            push_v4(&mut out, o[0], o[1], o[2], o[3]);
        },
        IpAddress::V6(s) => {
            if s[0] == 0 && s[1] == 0 && s[2] == 0 && s[3] == 0 && s[4] == 0 && s[5] == 0xffff {
                push_str(&mut out, "::ffff:");
                push_v4(
                    &mut out,
                    (s[6] / 256) as u8,
                    (s[6] % 256) as u8,
                    (s[7] / 256) as u8,
                    (s[7] % 256) as u8,
                );
            } else {
                let mut cs: usize = 0;
                let mut cl: usize = 0;
                let mut bs: usize = 0;
                let mut bl: usize = 0;
                let mut i: usize = 0;
                while i < 8
                    invariant
                        i <= 8,
                        cs <= i,
                        cl <= i,
                        bs <= 8,
                        bl <= i,
                        bs + bl <= i,
                        cs + cl <= i,
                        cl > 0 ==> cs + cl == i,
                        s@.len() == 8,
                        zero_run_from(s@, 0, 0, 0, 0, 0) == zero_run_from(
                            s@,
                            i as int,
                            cs as int,
                            cl as int,
                            bs as int,
                            bl as int,
                        ),
                    decreases 8 - i,
                {
                    if s[i] == 0 {
                        if cl == 0 {
                            cs = i;
                        }
                        cl = cl + 1;
                        if cl > bl {
                            bs = cs;
                            bl = cl;
                        }
                    } else {
                        cs = 0;
                        cl = 0;
                    }
                    i = i + 1;
                }
                let arr = s;
                let sl: &[u16] = &arr;
                assert(sl@ == s@);
                if bl > 1 {
                    push_hex_groups(&mut out, sl, 0, bs);
                    push_str(&mut out, "::");
                    push_hex_groups(&mut out, sl, bs + bl, 8);
                    assert(s@.subrange(0, bs as int) =~= s@.take(bs as int));
                    assert(s@.subrange((bs + bl) as int, 8) =~= s@.skip((bs + bl) as int));
                } else {
                    push_hex_groups(&mut out, sl, 0, 8);
                    assert(s@.subrange(0, 8) =~= s@);
                }
            }
        },
    }
    string_of(&out)
}

/// The text of the `BadRequest` for a refused address.
pub open spec fn refused_ip_text(ip: IpAddress) -> Seq<char> {
    "private or local address is disabled: "@ + ip_text(ip)
}

/// Refuses private and local addresses.
pub fn reject_private_ip(ip: IpAddress) -> (r: Result<(), AppError>)
    ensures
        match r {
            Ok(()) => !is_disallowed(ip),
            Err(e) => is_disallowed(ip) && bad_request_text(e) == Some(refused_ip_text(ip)),
        },
{
    if is_disallowed_ip(ip) {
        let mut out: Vec<char> = Vec::new();
        push_str(&mut out, "private or local address is disabled: ");
        let t = ip_to_text(ip);
        push_str(&mut out, t.as_str());
        Err(AppError::BadRequest(string_of(&out)))
    } else {
        Ok(())
    }
}

/// Refuses the addresses a host name resolved to if any of them is refused.
pub fn reject_private_addresses(addrs: &[IpAddress]) -> (r: Result<(), AppError>)
    ensures
        match r {
            Ok(()) => forall|i: int| 0 <= i < addrs@.len() ==> !is_disallowed(#[trigger] addrs@[i]),
            Err(e) => exists|i: int|
                0 <= i < addrs@.len() && (forall|j: int|
                    0 <= j < i ==> !is_disallowed(#[trigger] addrs@[j])) && is_disallowed(
                    addrs@[i],
                ) && bad_request_text(e) == Some(refused_ip_text(addrs@[i])),
        },
{
    let mut i: usize = 0;
    while i < addrs.len()
        invariant
            i <= addrs@.len(),
            forall|j: int| 0 <= j < i ==> !is_disallowed(#[trigger] addrs@[j]),
        decreases addrs@.len() - i,
    {
        match reject_private_ip(addrs[i]) {
            Ok(()) => {},
            Err(e) => {
                return Err(e);
            },
        }
        i = i + 1;
    }
    Ok(())
}

// ---------------------------------------------------------------------------
// The guard
// ---------------------------------------------------------------------------

/// What remains to be checked of a URL's host once its text has been looked at.
#[derive(Debug, Clone, PartialEq, Eq)]
pub enum HostCheck {
    /// Nothing: the URL may be fetched.
    Done,
    /// The host, unless it is an IP address literal that `reject_private_ip`
    /// accepts, must resolve (at this port) only to addresses that
    /// `reject_private_addresses` accepts.
    Inspect { host: String, port: u16 },
}

/// A URL that passed the checks that need no lookup, and what remains.
#[derive(Debug, Clone, PartialEq, Eq)]
pub struct FetchCheck {
    pub url: ParsedUrl,
    pub remaining: HostCheck,
}

/// Whether a host names the local machine: `localhost` in any ASCII case,
/// or a name ending in `.localhost`.
pub open spec fn is_localhost(host: Seq<char>) -> bool {
    to_ascii_lowercase(host) == "localhost"@ || ends_with(host, ".localhost"@)
}

/// Checks what parsing a URL gave: refuses a parse error, a scheme other
/// than `http` or `https`, and a missing host.
pub fn check_parsed_url(parsed: Result<ParsedUrl, String>) -> (r: Result<ParsedUrl, AppError>)
    ensures
        is_outcome(r, checks_after_parse(parse_result_view(parsed))),
{
    let url = match parsed {
        Ok(u) => u,
        Err(e) => {
            let mut out: Vec<char> = Vec::new();
            push_str(&mut out, "invalid URL: ");
            push_str(&mut out, e.as_str());
            return Err(AppError::BadRequest(string_of(&out)));
        },
    };
    let scheme = chars_of(url.scheme.as_str());
    let http = chars_of("http");
    let https = chars_of("https");
    if !chars_eq(&scheme, &http) && !chars_eq(&scheme, &https) {
        let mut out: Vec<char> = Vec::new();
        push_str(&mut out, "unsupported URL scheme: ");
        push_str(&mut out, url.scheme.as_str());
        return Err(AppError::BadRequest(string_of(&out)));
    }
    if url.host.is_none() {
        return Err(AppError::BadRequest(owned("URL host is required")));
    }
    Ok(url)
}

/// The port a host check uses: the URL's, else 80.
pub open spec fn port_or_80(p: Option<u16>) -> u16 {
    match p {
        Some(x) => x,
        None => 80,
    }
}

/// Whether what remains is to inspect the addresses of `host` at `port`.
pub open spec fn inspects(c: HostCheck, host: Seq<char>, port: u16) -> bool {
    match c {
        HostCheck::Inspect { host: h, port: p } => h@ == host && p == port,
        HostCheck::Done => false,
    }
}

/// The URL guard: refuses private hosts unless `allow_private` is set.
#[derive(Debug, Clone, Copy)]
pub struct UrlGuard {
    pub allow_private: bool,
}

impl UrlGuard {
    pub fn new(allow_private: bool) -> (g: Self)
        ensures
            g.allow_private == allow_private,
    {
        Self { allow_private }
    }

    /// Checks that `raw`, trimmed, is an `http` or `https` URL with a host.
    pub fn validate_url_syntax(&self, raw: &str) -> (r: Result<ParsedUrl, AppError>)
        ensures
            is_outcome(r, url_syntax_outcome(raw@)),
    {
        let trimmed = trim_str(raw);
        check_parsed_url(parse_url(trimmed.as_str()))
    }

    /// Checks the target of a redirect: the same syntax checks.
    pub fn validate_redirect_url(&self, raw: &str) -> (r: Result<ParsedUrl, AppError>)
        ensures
            is_outcome(r, url_syntax_outcome(raw@)),
    {
        self.validate_url_syntax(raw)
    }

    /// Looks at a URL's host: refuses a missing host and `localhost` names,
    /// and leaves the address checks to [`HostCheck::Inspect`].
    pub fn reject_private_host(&self, url: &ParsedUrl) -> (r: Result<HostCheck, AppError>)
        ensures
            match url.host {
                None => r matches Err(e) && bad_request_text(e) == Some("URL host is required"@),
                Some(h) => if is_localhost(h@) {
                    r matches Err(e) && bad_request_text(e) == Some(
                        "localhost feeds are disabled"@,
                    )
                } else {
                    r matches Ok(HostCheck::Inspect { host, port }) && host@ == h@ && port == (
                    match url.port {
                        Some(p) => p,
                        None => 80u16,
                    })
                },
            },
    {
        let host = match &url.host {
            Some(h) => h,
            None => return Err(AppError::BadRequest(owned("URL host is required"))),
        };
        let hc = chars_of(host.as_str());
        let lower = to_ascii_lowercase_chars(&hc);
        let localhost = chars_of("localhost");
        let suffix = chars_of(".localhost");
        if chars_eq(&lower, &localhost) || ends_with_chars(&hc, &suffix) {
            return Err(AppError::BadRequest(owned("localhost feeds are disabled")));
        }
        let port = match url.port {
            Some(p) => p,
            None => 80,
        };
        Ok(HostCheck::Inspect { host: host.clone(), port })
    }

    /// The checks on a URL to fetch that need no lookup: its syntax, and
    /// unless private feeds are allowed, its host name.
    pub fn validate_fetch_url(&self, raw: &str) -> (r: Result<FetchCheck, AppError>)
        ensures
            match url_syntax_outcome(raw@) {
                Err(m) => r matches Err(e) && bad_request_text(e) == Some(m),
                Ok(f) => match r {
                    Ok(c) => url_facts(c.url) == f && (self.allow_private ==> c.remaining
                        == HostCheck::Done) && (!self.allow_private ==> !is_localhost(f.2.unwrap())
                        && inspects(c.remaining, f.2.unwrap(), port_or_80(f.3))),
                    Err(e) => !self.allow_private && is_localhost(f.2.unwrap()) && bad_request_text(e)
                        == Some("localhost feeds are disabled"@),
                },
            },
    {
        let url = self.validate_url_syntax(raw)?;
        if self.allow_private {
            return Ok(FetchCheck { url, remaining: HostCheck::Done });
        }
        let remaining = self.reject_private_host(&url)?;
        Ok(FetchCheck { url, remaining })
    }
}

/// Every URL text the guard lets through is an `http` or `https` URL with a host.
pub proof fn law_accepted_urls_are_http(raw: Seq<char>)
    requires
        url_syntax_outcome(raw) is Ok,
    ensures
        ({
            let f = url_syntax_outcome(raw)->Ok_0;
            (f.1 == "http"@ || f.1 == "https"@) && f.2 is Some
        }),
{
}

/// Whatever a name resolves to, one refused address refuses it.
pub proof fn law_one_private_address_refuses(addrs: Seq<IpAddress>, i: int)
    requires
        0 <= i < addrs.len(),
        is_disallowed(addrs[i]),
    ensures
        !(forall|j: int| 0 <= j < addrs.len() ==> !is_disallowed(#[trigger] addrs[j])),
{
}

/// The IPv4 addresses refused: private (10/8, 172.16/12, 192.168/16),
/// loopback (127/8), link-local (169.254/16), broadcast, documentation
/// (192.0.2/24, 198.51.100/24, 203.0.113/24), "this network" (0/8) and
/// multicast or reserved (224.0.0.0 and up); every other address is allowed.
pub proof fn law_refused_ipv4(a: u8, b: u8, c: u8, d: u8)
    ensures
        a == 10 ==> is_disallowed(IpAddress::V4([a, b, c, d])),
        a == 172 && 16 <= b <= 31 ==> is_disallowed(IpAddress::V4([a, b, c, d])),
        a == 192 && b == 168 ==> is_disallowed(IpAddress::V4([a, b, c, d])),
        a == 127 ==> is_disallowed(IpAddress::V4([a, b, c, d])),
        a == 169 && b == 254 ==> is_disallowed(IpAddress::V4([a, b, c, d])),
        a == 255 && b == 255 && c == 255 && d == 255 ==> is_disallowed(IpAddress::V4([a, b, c, d])),
        a == 192 && b == 0 && c == 2 ==> is_disallowed(IpAddress::V4([a, b, c, d])),
        a == 198 && b == 51 && c == 100 ==> is_disallowed(IpAddress::V4([a, b, c, d])),
        a == 203 && b == 0 && c == 113 ==> is_disallowed(IpAddress::V4([a, b, c, d])),
        a == 0 ==> is_disallowed(IpAddress::V4([a, b, c, d])),
        a >= 224 ==> is_disallowed(IpAddress::V4([a, b, c, d])),
        is_disallowed(IpAddress::V4([a, b, c, d])) ==> a == 10 || (a == 172 && 16 <= b <= 31) || (
        a == 192 && b == 168) || a == 127 || (a == 169 && b == 254) || (a == 255 && b == 255 && c
            == 255 && d == 255) || (a == 192 && b == 0 && c == 2) || (a == 198 && b == 51 && c
            == 100) || (a == 203 && b == 0 && c == 113) || a == 0 || a >= 224,
{
    let o: [u8; 4] = [a, b, c, d];
    assert(o@[0] == a && o@[1] == b && o@[2] == c && o@[3] == d);
}

/// The IPv6 addresses refused: loopback (`::1`), unspecified (`::`), unique
/// local (fc00::/7, first segment fc00 to fdff), unicast link-local
/// (fe80::/10, first segment fe80 to febf), ff80::/10 (first segment ff80
/// to ffbf), and IPv4-mapped addresses (`::ffff:a.b.c.d`) whose IPv4
/// address is refused.
pub proof fn law_refused_ipv6(s: [u16; 8])
    ensures
        s@ == seq![0u16, 0, 0, 0, 0, 0, 0, 1] ==> is_disallowed(IpAddress::V6(s)),
        s@ == seq![0u16, 0, 0, 0, 0, 0, 0, 0] ==> is_disallowed(IpAddress::V6(s)),
        0xfc00 <= s@[0] <= 0xfdff ==> is_disallowed(IpAddress::V6(s)),
        0xfe80 <= s@[0] <= 0xfebf ==> is_disallowed(IpAddress::V6(s)),
        0xff80 <= s@[0] <= 0xffbf ==> is_disallowed(IpAddress::V6(s)),
        s@[0] == 0 && s@[1] == 0 && s@[2] == 0 && s@[3] == 0 && s@[4] == 0 && s@[5] == 0xffff
            ==> (is_disallowed(IpAddress::V6(s)) <== is_disallowed(
            IpAddress::V4(
                [
                    (s@[6] / 256) as u8,
                    (s@[6] % 256) as u8,
                    (s@[7] / 256) as u8,
                    (s@[7] % 256) as u8,
                ],
            ),
        )),
        is_disallowed(IpAddress::V6(s)) ==> (0xfc00 <= s@[0] <= 0xfdff) || (0xfe80 <= s@[0]
            <= 0xfebf) || (0xff80 <= s@[0] <= 0xffbf) || (s@[0] == 0 && s@[1] == 0 && s@[2] == 0
            && s@[3] == 0 && s@[4] == 0 && (s@[5] == 0xffff || (s@[5] == 0 && s@[6] == 0 && s@[7]
            <= 1))),
{
    let x = s@[0];
    assert((x & 0xfe00) == 0xfc00 <==> 0xfc00 <= x <= 0xfdff) by (bit_vector);
    assert((x & 0xffc0) == 0xfe80 <==> 0xfe80 <= x <= 0xfebf) by (bit_vector);
    assert((x & 0xffc0) == 0xff80 <==> 0xff80 <= x <= 0xffbf) by (bit_vector);
    let y = s@[6];
    let z = s@[7];
    let m: [u8; 4] = [(y / 256) as u8, (y % 256) as u8, (z / 256) as u8, (z % 256) as u8];
    assert(m@[0] == y / 256 && m@[1] == y % 256 && m@[2] == z / 256 && m@[3] == z % 256);
}

} // verus!
