//! Outbound requests of guest code: the quota on them, the filter that
//! keeps them off the host's own network, and what a guest may put into
//! one.

use crate::modules::lua::state::SandboxLimits;
use crate::text::{
    decimal, extend_chars, format_hex, format_u64, hex, joined, str_eq, string_of, to_chars,
};
use vstd::prelude::*;

verus! {

/// An address of the internet protocol, version 4 by its four bytes or
/// version 6 by its eight groups.
#[derive(Copy, Clone, Debug, PartialEq, Eq)]
pub enum IpAddress {
    V4([u8; 4]),
    V6([u16; 8]),
}

impl IpAddress {
    /// An address of the machine itself: `127.0.0.0/8`, or `::1`.
    pub open spec fn loopback(self) -> bool {
        match self {
            IpAddress::V4(o) => o[0] == 127,
            IpAddress::V6(g) => g[0] == 0 && g[1] == 0 && g[2] == 0 && g[3] == 0 && g[4] == 0
                && g[5] == 0 && g[6] == 0 && g[7] == 1,
        }
    }

    /// An address of a group of machines: `224.0.0.0/4`, or `ff00::/8`.
    pub open spec fn multicast(self) -> bool {
        match self {
            IpAddress::V4(o) => 224 <= o[0] <= 239,
            IpAddress::V6(g) => g[0] >= 0xff00,
        }
    }

    /// The address that names no machine: `0.0.0.0`, or `::`.
    pub open spec fn unspecified(self) -> bool {
        match self {
            IpAddress::V4(o) => o[0] == 0 && o[1] == 0 && o[2] == 0 && o[3] == 0,
            IpAddress::V6(g) => g[0] == 0 && g[1] == 0 && g[2] == 0 && g[3] == 0 && g[4] == 0
                && g[5] == 0 && g[6] == 0 && g[7] == 0,
        }
    }

    /// An address of a private network: `10.0.0.0/8`, `172.16.0.0/12` or
    /// `192.168.0.0/16`.
    pub open spec fn private(self) -> bool {
        match self {
            IpAddress::V4(o) => o[0] == 10 || (o[0] == 172 && 16 <= o[1] <= 31) || (o[0] == 192
                && o[1] == 168),
            IpAddress::V6(_) => false,
        }
    }

    /// An address that no guest request may go to: every address of
    /// version 6, and of version 4 the host itself, groups, the address
    /// that names nobody and the private networks.
    pub open spec fn disallowed(self) -> bool {
        self is V6 || self.loopback() || self.multicast() || self.unspecified() || self.private()
    }

    pub fn is_loopback(&self) -> (r: bool)
        ensures
            r == self.loopback(),
    {
        match self {
            IpAddress::V4(o) => o[0] == 127,
            IpAddress::V6(g) => g[0] == 0 && g[1] == 0 && g[2] == 0 && g[3] == 0 && g[4] == 0
                && g[5] == 0 && g[6] == 0 && g[7] == 1,
        }
    }

    pub fn is_multicast(&self) -> (r: bool)
        ensures
            r == self.multicast(),
    {
        match self {
            IpAddress::V4(o) => 224 <= o[0] && o[0] <= 239,
            IpAddress::V6(g) => g[0] >= 0xff00,
        }
    }

    pub fn is_unspecified(&self) -> (r: bool)
        ensures
            r == self.unspecified(),
    {
        match self {
            IpAddress::V4(o) => o[0] == 0 && o[1] == 0 && o[2] == 0 && o[3] == 0,
            IpAddress::V6(g) => g[0] == 0 && g[1] == 0 && g[2] == 0 && g[3] == 0 && g[4] == 0
                && g[5] == 0 && g[6] == 0 && g[7] == 0,
        }
    }

    pub fn is_private(&self) -> (r: bool)
        ensures
            r == self.private(),
    {
        match self {
            IpAddress::V4(o) => o[0] == 10 || (o[0] == 172 && 16 <= o[1] && o[1] <= 31) || (o[0]
                == 192 && o[1] == 168),
            IpAddress::V6(_) => false,
        }
    }

    /// Whether no guest request may go to this address.
    pub fn is_disallowed(&self) -> (r: bool)
        ensures
            r == self.disallowed(),
    {
        match self {
            IpAddress::V6(_) => true,
            IpAddress::V4(_) => self.is_loopback() || self.is_multicast()
                || self.is_unspecified() || self.is_private(),
        }
    }
}

/// An address and a port.
#[derive(Copy, Clone, Debug, PartialEq, Eq)]
pub struct SocketAddress {
    pub ip: IpAddress,
    pub port: u16,
}

/// Numbers in decimal with dots between them.
pub open spec fn dotted(bytes: Seq<u8>) -> Seq<char> {
    joined(Seq::new(bytes.len(), |i: int| decimal(bytes[i] as nat)), seq!['.'])
}

/// The groups `groups[from..to]` in hexadecimal, with colons between
/// them.
pub open spec fn coloned(groups: Seq<u16>, from: int, to: int) -> Seq<char> {
    joined(Seq::new((to - from) as nat, |i: int| hex(groups[from + i] as nat)), seq![':'])
}

/// How many groups from `i` on are zero, one behind the other.
pub open spec fn zero_run(groups: Seq<u16>, i: int) -> int
    decreases groups.len() - i,
{
    if 0 <= i < groups.len() && groups[i] == 0 {
        1 + zero_run(groups, i + 1)
    } else {
        0
    }
}

/// Where the longest row of zero groups begins among the first `n`
/// places, and how long it is; of two rows of one length, the first.
pub open spec fn longest_zero_run(groups: Seq<u16>, n: int) -> (int, int)
    decreases n,
{
    if n <= 0 {
        (0, 0)
    } else {
        let before = longest_zero_run(groups, n - 1);
        if zero_run(groups, n - 1) > before.1 {
            (n - 1, zero_run(groups, n - 1))
        } else {
            before
        }
    }
}

/// Whether an address of version 6 stands for one of version 4: five
/// groups of zero and one of `ffff` in front of it.
pub open spec fn maps_v4(groups: Seq<u16>) -> bool {
    groups[0] == 0 && groups[1] == 0 && groups[2] == 0 && groups[3] == 0 && groups[4] == 0
        && groups[5] == 0xffff
}

/// The four bytes of the last two groups.
pub open spec fn mapped_bytes(groups: Seq<u16>) -> Seq<u8> {
    seq![
        (groups[6] / 256) as u8,
        (groups[6] % 256) as u8,
        (groups[7] / 256) as u8,
        (groups[7] % 256) as u8,
    ]
}

/// An address of version 6 as text. One that stands for an address of
/// version 4 is written as `::ffff:` and that address. In any other, the
/// longest row of two or more zero groups (the first of them, where two
/// are as long) gives way to `::`; the other groups are written in
/// hexadecimal with colons between them.
pub open spec fn v6_text(groups: Seq<u16>) -> Seq<char> {
    if maps_v4(groups) {
        "::ffff:"@ + dotted(mapped_bytes(groups))
    } else {
        let (start, len) = longest_zero_run(groups, 8);
        if len > 1 {
            coloned(groups, 0, start) + seq![':', ':'] + coloned(groups, start + len, 8)
        } else {
            coloned(groups, 0, 8)
        }
    }
}

/// An address as text. Version 4: the four bytes in decimal with dots
/// between them. Version 6: the groups in hexadecimal with colons between
/// them, the longest row of zero groups left out.
pub open spec fn ip_text(ip: IpAddress) -> Seq<char> {
    match ip {
        IpAddress::V4(o) => dotted(o@),
        IpAddress::V6(g) => v6_text(g@),
    }
}

/// An address with its port as text: the address, in square brackets if
/// it is of version 6, a colon, the port in decimal.
pub open spec fn socket_text(addr: SocketAddress) -> Seq<char> {
    match addr.ip {
        IpAddress::V4(_) => ip_text(addr.ip) + seq![':'] + decimal(addr.port as nat),
        IpAddress::V6(_) => seq!['['] + ip_text(addr.ip) + seq![']', ':'] + decimal(
            addr.port as nat,
        ),
    }
}

/// Numbers in decimal with dots between them.
pub fn dotted_chars(bytes: &Vec<u8>) -> (out: Vec<char>)
    ensures
        out@ == dotted(bytes@),
{
    let ghost parts = Seq::new(bytes@.len(), |i: int| decimal(bytes@[i] as nat));
    let mut out: Vec<char> = Vec::new();
    let mut i: usize = 0;
    assert(parts.take(0) =~= Seq::<Seq<char>>::empty());
    while i < bytes.len()
        invariant
            i <= bytes.len(),
            parts == Seq::new(bytes@.len(), |i: int| decimal(bytes@[i] as nat)),
            out@ == joined(parts.take(i as int), seq!['.']),
        decreases bytes.len() - i,
    {
        let ghost before = out@;
        if i > 0 {
            out.push('.');
        }
        let piece = format_u64(bytes[i] as u64);
        extend_chars(&mut out, &piece);
        proof {
            let next = parts.take(i + 1);
            assert(next.drop_last() =~= parts.take(i as int));
            assert(next.last() == piece@);
            if i == 0 {
                assert(out@ =~= piece@);
            } else {
                assert(out@ =~= before + seq!['.'] + piece@);
            }
        }
        i += 1;
    }
    assert(parts.take(parts.len() as int) =~= parts);
    out
}

/// The groups `groups[from..to]` in hexadecimal, with colons between
/// them.
pub fn coloned_chars(groups: &Vec<u16>, from: usize, to: usize) -> (out: Vec<char>)
    requires
        from <= to <= groups.len(),
    ensures
        out@ == coloned(groups@, from as int, to as int),
{
    let ghost parts = Seq::new((to - from) as nat, |i: int| hex(groups@[from + i] as nat));
    let mut out: Vec<char> = Vec::new();
    let mut i: usize = from;
    assert(parts.take(0) =~= Seq::<Seq<char>>::empty());
    while i < to
        invariant
            from <= i <= to <= groups.len(),
            parts == Seq::new((to - from) as nat, |i: int| hex(groups@[from + i] as nat)),
            out@ == joined(parts.take(i - from), seq![':']),
        decreases to - i,
    {
        let ghost before = out@;
        if i > from {
            out.push(':');
        }
        let piece = format_hex(groups[i] as u64);
        extend_chars(&mut out, &piece);
        proof {
            let next = parts.take(i - from + 1);
            assert(next.drop_last() =~= parts.take(i - from));
            assert(next.last() == piece@);
            if i == from {
                assert(out@ =~= piece@);
            } else {
                assert(out@ =~= before + seq![':'] + piece@);
            }
        }
        i += 1;
    }
    assert(parts.take(parts.len() as int) =~= parts);
    out
}

/// How many groups from `i` on are zero, one behind the other.
pub fn count_zero_run(groups: &Vec<u16>, i: usize) -> (n: usize)
    requires
        i <= groups.len(),
    ensures
        n == zero_run(groups@, i as int),
        i + n <= groups.len(),
{
    let mut j: usize = i;
    while j < groups.len() && groups[j] == 0
        invariant
            i <= j <= groups.len(),
            zero_run(groups@, i as int) == (j - i) + zero_run(groups@, j as int),
        decreases groups.len() - j,
    {
        j += 1;
    }
    j - i
}

/// Where the longest row of zero groups begins and how long it is.
pub fn find_longest_zero_run(groups: &Vec<u16>) -> (r: (usize, usize))
    ensures
        (r.0 as int, r.1 as int) == longest_zero_run(groups@, groups@.len() as int),
        r.0 + r.1 <= groups.len(),
{
    let mut start: usize = 0;
    let mut len: usize = 0;
    let mut n: usize = 0;
    while n < groups.len()
        invariant
            n <= groups.len(),
            start + len <= groups.len(),
            (start as int, len as int) == longest_zero_run(groups@, n as int),
        decreases groups.len() - n,
    {
        let run = count_zero_run(groups, n);
        if run > len {
            start = n;
            len = run;
        }
        n += 1;
    }
    (start, len)
}

impl IpAddress {
    /// The address as text.
    pub fn to_text(&self) -> (r: String)
        ensures
            r@ == ip_text(*self),
    {
        match self {
            IpAddress::V4(o) => {
                let mut bytes: Vec<u8> = Vec::new();
                bytes.push(o[0]);
                bytes.push(o[1]);
                bytes.push(o[2]);
                bytes.push(o[3]);
                assert(bytes@ =~= o@);
                string_of(&dotted_chars(&bytes))
            },
            IpAddress::V6(g) => {
                let mut groups: Vec<u16> = Vec::new();
                groups.push(g[0]);
                groups.push(g[1]);
                groups.push(g[2]);
                groups.push(g[3]);
                groups.push(g[4]);
                groups.push(g[5]);
                groups.push(g[6]);
                groups.push(g[7]);
                assert(groups@ =~= g@);
                if g[0] == 0 && g[1] == 0 && g[2] == 0 && g[3] == 0 && g[4] == 0 && g[5]
                    == 0xffff {
                    let mut bytes: Vec<u8> = Vec::new();
                    bytes.push((g[6] / 256) as u8);
                    bytes.push((g[6] % 256) as u8);
                    bytes.push((g[7] / 256) as u8);
                    bytes.push((g[7] % 256) as u8);
                    assert(bytes@ =~= mapped_bytes(g@));
                    let mut out = to_chars("::ffff:");
                    extend_chars(&mut out, &dotted_chars(&bytes));
                    string_of(&out)
                } else {
                    let (start, len) = find_longest_zero_run(&groups);
                    if len > 1 {
                        let mut out = coloned_chars(&groups, 0, start);
                        out.push(':');
                        out.push(':');
                        extend_chars(&mut out, &coloned_chars(&groups, start + len, 8));
                        assert(out@ =~= v6_text(g@));
                        string_of(&out)
                    } else {
                        string_of(&coloned_chars(&groups, 0, 8))
                    }
                }
            },
        }
    }
}

impl SocketAddress {
    /// The address with its port as text.
    pub fn to_text(&self) -> (r: String)
        ensures
            r@ == socket_text(*self),
    {
        let ip = to_chars(self.ip.to_text().as_str());
        let port = format_u64(self.port as u64);
        let mut out: Vec<char> = Vec::new();
        match self.ip {
            IpAddress::V4(_) => {
                extend_chars(&mut out, &ip);
                out.push(':');
                extend_chars(&mut out, &port);
                assert(out@ =~= socket_text(*self));
            },
            IpAddress::V6(_) => {
                out.push('[');
                extend_chars(&mut out, &ip);
                out.push(']');
                out.push(':');
                extend_chars(&mut out, &port);
                assert(out@ =~= socket_text(*self));
            },
        }
        string_of(&out)
    }
}

/// Why a request was not sent.
#[derive(Clone, Debug)]
pub enum HttpError {
    /// The session has used up its requests.
    HttpCallLimitReached,
    /// The text is no URL; with the parser's words.
    ErrorParsingUrl(String),
    /// The URL is neither `http` nor `https`; with its scheme.
    UnknownScheme(String),
    /// The host's addresses could not be found; with the reason.
    ErrorResolvingHosts(String),
    /// The host has an address that requests may not go to; with the
    /// first such address.
    DisallowedAddress(SocketAddress),
    /// The request could not be put together; with the reason.
    ErrorBuildingRequest(String),
}

/// An error with its texts as sequences of characters.
pub enum HttpErrorView {
    HttpCallLimitReached,
    ErrorParsingUrl(Seq<char>),
    UnknownScheme(Seq<char>),
    ErrorResolvingHosts(Seq<char>),
    DisallowedAddress(SocketAddress),
    ErrorBuildingRequest(Seq<char>),
}

impl View for HttpError {
    type V = HttpErrorView;

    open spec fn view(&self) -> HttpErrorView {
        match self {
            HttpError::HttpCallLimitReached => HttpErrorView::HttpCallLimitReached,
            HttpError::ErrorParsingUrl(s) => HttpErrorView::ErrorParsingUrl(s@),
            HttpError::UnknownScheme(s) => HttpErrorView::UnknownScheme(s@),
            HttpError::ErrorResolvingHosts(s) => HttpErrorView::ErrorResolvingHosts(s@),
            HttpError::DisallowedAddress(a) => HttpErrorView::DisallowedAddress(*a),
            HttpError::ErrorBuildingRequest(s) => HttpErrorView::ErrorBuildingRequest(s@),
        }
    }
}

/// The one line in which the filter refuses a URL where it is asked on
/// its own, as it is for pictures: the scheme, the reason why no address
/// was found, or the first address that no request may go to. A text
/// that is no URL, and what has nothing to do with the filter, is worded
/// as for a guest's request.
pub open spec fn filter_error_message(e: HttpErrorView) -> Seq<char> {
    match e {
        HttpErrorView::UnknownScheme(s) => "unknown scheme: "@ + s,
        HttpErrorView::ErrorResolvingHosts(s) => "error resolving hosts: "@ + s,
        HttpErrorView::DisallowedAddress(a) => "disallowed ip address found: "@ + socket_text(a),
        other => http_error_message(other),
    }
}

/// The one line that tells a guest why its request was not sent.
pub open spec fn http_error_message(e: HttpErrorView) -> Seq<char> {
    match e {
        HttpErrorView::HttpCallLimitReached => "http call limit reached"@,
        HttpErrorView::ErrorParsingUrl(s) => ("error parsing url: \""@ + s).push('"'),
        HttpErrorView::UnknownScheme(s) => ("unknown url scheme: \""@ + s).push('"'),
        HttpErrorView::ErrorResolvingHosts(s) => "error resolving hosts: "@ + s,
        HttpErrorView::DisallowedAddress(a) => ("local or ipv6 addresses are not allowed: \""@
            + socket_text(a)).push('"'),
        HttpErrorView::ErrorBuildingRequest(s) => "error building request: "@ + s,
    }
}

fn worded(head: &str, body: &str, quoted: bool) -> (r: String)
    ensures
        r@ == if quoted {
            (head@ + body@).push('"')
        } else {
            head@ + body@
        },
{
    let mut out = to_chars(head);
    let tail = to_chars(body);
    extend_chars(&mut out, &tail);
    if quoted {
        out.push('"');
    }
    string_of(&out)
}

impl HttpError {
    /// The error in the words of the filter asked on its own, as
    /// `check_url` is for pictures.
    pub fn filter_message(&self) -> (r: String)
        ensures
            r@ == filter_error_message(self@),
    {
        match self {
            HttpError::UnknownScheme(s) => worded("unknown scheme: ", s.as_str(), false),
            HttpError::ErrorResolvingHosts(s) => worded(
                "error resolving hosts: ",
                s.as_str(),
                false,
            ),
            HttpError::DisallowedAddress(a) => {
                let text = a.to_text();
                worded("disallowed ip address found: ", text.as_str(), false)
            },
            other => other.message(),
        }
    }

    /// The error in the words of a guest's request.
    pub fn message(&self) -> (r: String)
        ensures
            r@ == http_error_message(self@),
    {
        match self {
            HttpError::HttpCallLimitReached => string_of(&to_chars("http call limit reached")),
            HttpError::ErrorParsingUrl(s) => worded("error parsing url: \"", s.as_str(), true),
            HttpError::UnknownScheme(s) => worded("unknown url scheme: \"", s.as_str(), true),
            HttpError::ErrorResolvingHosts(s) => worded(
                "error resolving hosts: ",
                s.as_str(),
                false,
            ),
            HttpError::DisallowedAddress(a) => {
                let text = a.to_text();
                worded("local or ipv6 addresses are not allowed: \"", text.as_str(), true)
            },
            HttpError::ErrorBuildingRequest(s) => worded(
                "error building request: ",
                s.as_str(),
                false,
            ),
        }
    }
}

/// Whether the session may send one more request.
pub open spec fn http_call_allowed(limits: SandboxLimits) -> bool {
    limits.http_calls_left > 0
}

/// The quotas once a request was asked for: one request less, or the
/// same where none was left.
pub open spec fn after_http_call(limits: SandboxLimits) -> SandboxLimits {
    if http_call_allowed(limits) {
        SandboxLimits { http_calls_left: (limits.http_calls_left - 1) as u64, ..limits }
    } else {
        limits
    }
}

/// Counts one request against the session's quota. The count is taken
/// when the request is asked for, whatever becomes of it; with none left
/// the request is refused and nothing changes.
pub fn take_http_call(limits: &mut SandboxLimits) -> (r: Result<(), HttpError>)
    ensures
        r is Ok == http_call_allowed(*old(limits)),
        r matches Err(e) ==> e@ == HttpErrorView::HttpCallLimitReached,
        *final(limits) == after_http_call(*old(limits)),
        final(limits).within(*old(limits)),
{
    if limits.http_calls_left == 0 {
        Err(HttpError::HttpCallLimitReached)
    } else {
        limits.http_calls_left = limits.http_calls_left - 1;
        Ok(())
    }
}

/// How many of `calls` requests asked for in a row are let through.
pub open spec fn calls_admitted(limits: SandboxLimits, calls: nat) -> nat
    decreases calls,
{
    if calls == 0 {
        0
    } else {
        let first: nat = if http_call_allowed(limits) {
            1
        } else {
            0
        };
        first + calls_admitted(after_http_call(limits), (calls - 1) as nat)
    }
}

/// Of any number of requests asked for in a row, as many are let through
/// as the quota had left, and no more: with `n` left, the first `n` go
/// out and every later one is refused.
pub proof fn law_http_quota(limits: SandboxLimits, calls: nat)
    ensures
        calls_admitted(limits, calls) == if calls <= limits.http_calls_left {
            calls
        } else {
            limits.http_calls_left as nat
        },
    decreases calls,
{
    if calls > 0 {
        law_http_quota(after_http_call(limits), (calls - 1) as nat);
    }
}

/// The host of a URL.
#[derive(Clone, Debug)]
pub enum UrlHost {
    /// The URL names no host.
    Missing,
    /// A name that has to be looked up.
    Domain(String),
    /// An address, written out in the URL.
    Address(IpAddress),
}

/// A host with its name as a sequence of characters.
pub enum UrlHostView {
    Missing,
    Domain(Seq<char>),
    Address(IpAddress),
}

impl View for UrlHost {
    type V = UrlHostView;

    open spec fn view(&self) -> UrlHostView {
        match self {
            UrlHost::Missing => UrlHostView::Missing,
            UrlHost::Domain(d) => UrlHostView::Domain(d@),
            UrlHost::Address(ip) => UrlHostView::Address(*ip),
        }
    }
}

/// What the filter reads of a URL: its scheme, its host, the port if one
/// is written in it, and the URL as the parser writes it back.
#[derive(Clone, Debug)]
pub struct UrlParts {
    pub scheme: String,
    pub host: UrlHost,
    pub port: Option<u16>,
    pub text: String,
}

/// The parts of a URL with their texts as sequences of characters.
pub struct UrlPartsView {
    pub scheme: Seq<char>,
    pub host: UrlHostView,
    pub port: Option<u16>,
    pub text: Seq<char>,
}

impl View for UrlParts {
    type V = UrlPartsView;

    open spec fn view(&self) -> UrlPartsView {
        UrlPartsView { scheme: self.scheme@, host: self.host@, port: self.port, text: self.text@ }
    }
}

/// What the `url` crate makes of a text: the parts of the URL, or the
/// words in which it refuses the text.
pub uninterp spec fn parsed_url(text: Seq<char>) -> Result<UrlPartsView, Seq<char>>;

/// A parse as the contracts see it.
pub open spec fn parse_outcome(r: Result<UrlParts, String>) -> Result<UrlPartsView, Seq<char>> {
    match r {
        Ok(parts) => Ok(parts@),
        Err(e) => Err(e@),
    }
}

/// `url::Url::parse`, with what `scheme`, `host`, `port` and the URL's
/// own text give of the result, or the error in its own words. Nothing is
/// claimed of the parts but that the same text always gives the same.
#[verifier::external_body]
fn parse_url(text: &str) -> (r: Result<UrlParts, String>)
    ensures
        parse_outcome(r) == parsed_url(text@),
{
    let url = url::Url::parse(text).map_err(|e| e.to_string())?;
    let host = match url.host() {
        None => UrlHost::Missing,
        Some(url::Host::Domain(d)) => UrlHost::Domain(d.to_string()),
        Some(url::Host::Ipv4(ip)) => UrlHost::Address(IpAddress::V4(ip.octets())),
        Some(url::Host::Ipv6(ip)) => UrlHost::Address(IpAddress::V6(ip.segments())),
    };
    Ok(UrlParts { scheme: url.scheme().to_string(), host, port: url.port(), text: url.to_string() })
}

/// Where a request is to go.
#[derive(Clone, Debug)]
pub enum Lookup {
    /// To this address, which the URL wrote out and the filter let pass.
    Known(SocketAddress),
    /// To the addresses of this host at this port, which have yet to be
    /// looked up and shown to the filter.
    Resolve(String, u16),
}

/// A destination with its host as a sequence of characters.
pub enum LookupView {
    Known(SocketAddress),
    Resolve(Seq<char>, u16),
}

impl View for Lookup {
    type V = LookupView;

    open spec fn view(&self) -> LookupView {
        match self {
            Lookup::Known(a) => LookupView::Known(*a),
            Lookup::Resolve(host, port) => LookupView::Resolve(host@, *port),
        }
    }
}

/// A URL that passed the filter as far as its text goes.
#[derive(Clone, Debug)]
pub struct FetchPlan {
    /// The URL to ask for.
    pub url: String,
    /// Where the request is to go.
    pub lookup: Lookup,
}

/// A plan with its texts as sequences of characters.
pub struct FetchPlanView {
    pub url: Seq<char>,
    pub lookup: LookupView,
}

impl View for FetchPlan {
    type V = FetchPlanView;

    open spec fn view(&self) -> FetchPlanView {
        FetchPlanView { url: self.url@, lookup: self.lookup@ }
    }
}

/// A filter's answer as the contracts see it.
pub open spec fn plan_outcome(r: Result<FetchPlan, HttpError>) -> Result<
    FetchPlanView,
    HttpErrorView,
> {
    match r {
        Ok(plan) => Ok(plan@),
        Err(e) => Err(e@),
    }
}

/// The port that a request goes to: the one in the URL, or else 443 for
/// `https` and 80 for `http`.
pub open spec fn port_of(parts: UrlPartsView) -> u16 {
    match parts.port {
        Some(port) => port,
        None => if parts.scheme == "https"@ {
            443
        } else {
            80
        },
    }
}

/// What the filter says of a parsed URL. A text that is no URL, a scheme
/// other than `http` and `https` and a URL without a host are refused. An
/// address written out in the URL is refused if no request may go to it.
/// A host name is still to be looked up.
pub open spec fn planned(parsed: Result<UrlPartsView, Seq<char>>) -> Result<
    FetchPlanView,
    HttpErrorView,
> {
    match parsed {
        Err(e) => Err(HttpErrorView::ErrorParsingUrl(e)),
        Ok(parts) => {
            if parts.scheme != "http"@ && parts.scheme != "https"@ {
                Err(HttpErrorView::UnknownScheme(parts.scheme))
            } else {
                match parts.host {
                    UrlHostView::Missing => Err(
                        HttpErrorView::ErrorResolvingHosts("No host name in the URL"@),
                    ),
                    UrlHostView::Domain(name) => Ok(
                        FetchPlanView {
                            url: parts.text,
                            lookup: LookupView::Resolve(name, port_of(parts)),
                        },
                    ),
                    UrlHostView::Address(ip) => {
                        let addr = SocketAddress { ip, port: port_of(parts) };
                        if ip.disallowed() {
                            Err(HttpErrorView::DisallowedAddress(addr))
                        } else {
                            Ok(FetchPlanView { url: parts.text, lookup: LookupView::Known(addr) })
                        }
                    },
                }
            }
        },
    }
}

/// Holds a parsed URL against the filter.
pub fn plan_fetch(parsed: Result<UrlParts, String>) -> (r: Result<FetchPlan, HttpError>)
    ensures
        plan_outcome(r) == planned(parse_outcome(parsed)),
{
    match parsed {
        Err(e) => Err(HttpError::ErrorParsingUrl(e)),
        Ok(parts) => {
            let https = str_eq(parts.scheme.as_str(), "https");
            if !https && !str_eq(parts.scheme.as_str(), "http") {
                return Err(HttpError::UnknownScheme(parts.scheme));
            }
            let port: u16 = match parts.port {
                Some(port) => port,
                None => if https {
                    443
                } else {
                    80
                },
            };
            match parts.host {
                UrlHost::Missing => Err(
                    HttpError::ErrorResolvingHosts(string_of(&to_chars("No host name in the URL"))),
                ),
                UrlHost::Domain(name) => Ok(
                    FetchPlan { url: parts.text, lookup: Lookup::Resolve(name, port) },
                ),
                UrlHost::Address(ip) => {
                    let addr = SocketAddress { ip, port };
                    if ip.is_disallowed() {
                        Err(HttpError::DisallowedAddress(addr))
                    } else {
                        Ok(FetchPlan { url: parts.text, lookup: Lookup::Known(addr) })
                    }
                },
            }
        },
    }
}

/// Holds a URL against the filter, as far as that goes without looking
/// up a host name. Where the filter is asked on its own, its refusal is
/// put into words by `filter_message`; where a guest asked for the URL,
/// by `message`.
pub fn check_url(url: &str) -> (r: Result<FetchPlan, HttpError>)
    ensures
        plan_outcome(r) == planned(parsed_url(url@)),
{
    plan_fetch(parse_url(url))
}

/// A guest asks for a URL. The request counts against the session's
/// quota before anything else is looked at; with none left it is refused
/// and the URL is not even read.
pub fn http_fetch(limits: &mut SandboxLimits, url: &str) -> (r: Result<FetchPlan, HttpError>)
    ensures
        *final(limits) == after_http_call(*old(limits)),
        final(limits).within(*old(limits)),
        !http_call_allowed(*old(limits)) ==> plan_outcome(r) == Err::<
            FetchPlanView,
            HttpErrorView,
        >(HttpErrorView::HttpCallLimitReached),
        http_call_allowed(*old(limits)) ==> plan_outcome(r) == planned(parsed_url(url@)),
{
    match take_http_call(limits) {
        Err(e) => Err(e),
        Ok(()) => check_url(url),
    }
}

/// The first address of `addrs` that no request may go to.
pub open spec fn first_disallowed(addrs: Seq<SocketAddress>) -> Option<SocketAddress>
    decreases addrs.len(),
{
    if addrs.len() == 0 {
        None
    } else if addrs[0].ip.disallowed() {
        Some(addrs[0])
    } else {
        first_disallowed(addrs.drop_first())
    }
}

/// No address is found exactly when every address may be gone to.
pub proof fn law_first_disallowed(addrs: Seq<SocketAddress>)
    ensures
        first_disallowed(addrs) is None <==> forall|i: int|
            0 <= i < addrs.len() ==> !(#[trigger] addrs[i]).ip.disallowed(),
        first_disallowed(addrs) matches Some(a) ==> a.ip.disallowed() && addrs.contains(a),
    decreases addrs.len(),
{
    if addrs.len() == 0 {
    } else if addrs[0].ip.disallowed() {
        assert(addrs.contains(addrs[0]));
    } else {
        let rest = addrs.drop_first();
        law_first_disallowed(rest);
        assert forall|i: int| 0 <= i < rest.len() implies rest[i] == addrs[i + 1] by {}
        if first_disallowed(rest) is None {
            assert forall|i: int| 0 <= i < addrs.len() implies !(#[trigger] addrs[i]).ip.disallowed() by {
                if i > 0 {
                    assert(rest[i - 1] == addrs[i]);
                }
            }
        } else {
            let a = first_disallowed(rest).unwrap();
            let j = choose|j: int| 0 <= j < rest.len() && rest[j] == a;
            assert(addrs[j + 1] == a);
        }
    }
}

/// Holds the addresses that a host name stands for against the filter:
/// one address that no request may go to refuses the host.
pub fn admit_addresses(addrs: &Vec<SocketAddress>) -> (r: Result<(), HttpError>)
    ensures
        r is Ok <==> first_disallowed(addrs@) is None,
        r matches Err(e) ==> first_disallowed(addrs@) matches Some(a) && e@
            == HttpErrorView::DisallowedAddress(a),
{
    let mut i: usize = 0;
    assert(addrs@.skip(0) =~= addrs@);
    while i < addrs.len()
        invariant
            i <= addrs.len(),
            first_disallowed(addrs@) == first_disallowed(addrs@.skip(i as int)),
        decreases addrs.len() - i,
    {
        let addr = addrs[i];
        assert(addrs@.skip(i as int)[0] == addr);
        assert(addrs@.skip(i as int).drop_first() =~= addrs@.skip(i + 1));
        if addr.ip.is_disallowed() {
            return Err(HttpError::DisallowedAddress(addr));
        }
        i += 1;
    }
    Ok(())
}

/// What a caller wishes to put into a request.
#[derive(Clone, Debug)]
pub struct FetchOptions {
    /// The method, where the caller named one that exists.
    pub method: Option<String>,
    /// Header names with their values.
    pub headers: Vec<(Vec<u8>, Vec<u8>)>,
    /// The body, where the caller gave one.
    pub body: Option<Vec<u8>>,
}

/// A request as it is sent.
#[derive(Clone, Debug)]
pub struct FetchRequest {
    pub url: String,
    pub method: String,
    pub headers: Vec<(Vec<u8>, Vec<u8>)>,
    pub body: Vec<u8>,
}

/// Puts a guest's request together. In a trusted context the caller's
/// method, headers and body go into it, with `GET` where no method was
/// named and an empty body where none was given. Anybody else gets a
/// `GET` without headers or body, whatever was wished for.
pub fn shape_request(url: String, trusted: bool, options: FetchOptions) -> (r: FetchRequest)
    ensures
        r.url == url,
        trusted ==> r.headers == options.headers,
        trusted ==> r.method@ == match options.method {
            Some(m) => m@,
            None => "GET"@,
        },
        trusted ==> r.body@ == match options.body {
            Some(b) => b@,
            None => Seq::<u8>::empty(),
        },
        !trusted ==> r.method@ == "GET"@ && r.headers@.len() == 0 && r.body@.len() == 0,
{
    if trusted {
        let method = match options.method {
            Some(m) => m,
            None => string_of(&to_chars("GET")),
        };
        let body = match options.body {
            Some(b) => b,
            None => Vec::new(),
        };
        FetchRequest { url, method, headers: options.headers, body }
    } else {
        FetchRequest {
            url,
            method: string_of(&to_chars("GET")),
            headers: Vec::new(),
            body: Vec::new(),
        }
    }
}

/// Puts a request of the bot's own scripts together: always a `GET`
/// without headers, with the body that the caller gave or none.
pub fn shape_host_request(url: String, body: Option<Vec<u8>>) -> (r: FetchRequest)
    ensures
        r.url == url,
        r.method@ == "GET"@,
        r.headers@.len() == 0,
        r.body@ == match body {
            Some(b) => b@,
            None => Seq::<u8>::empty(),
        },
{
    let body = match body {
        Some(b) => b,
        None => Vec::new(),
    };
    FetchRequest { url, method: string_of(&to_chars("GET")), headers: Vec::new(), body }
}

/// The most bytes that are read of a response: four mebibytes.
pub const MAX_BODY_SIZE: usize = 4194304;

/// A response's body was longer than is read.
#[derive(Copy, Clone, Debug, PartialEq, Eq, Structural)]
pub struct BodyTooLarge;

impl BodyTooLarge {
    /// The error in words.
    pub fn message(&self) -> (r: String)
        ensures
            r@ == "max body size limit reached"@,
    {
        string_of(&to_chars("max body size limit reached"))
    }
}

/// The body of a response while it comes in, piece by piece.
pub struct BodyBuffer {
    data: Vec<u8>,
    overflowed: bool,
}

impl BodyBuffer {
    /// The bytes read so far.
    pub closed spec fn bytes(&self) -> Seq<u8> {
        self.data@
    }

    /// Whether more came in than is read.
    pub closed spec fn too_large(&self) -> bool {
        self.overflowed
    }

    /// A body of which nothing has come in.
    pub fn new() -> (r: BodyBuffer)
        ensures
            r.bytes() == Seq::<u8>::empty(),
            !r.too_large(),
    {
        BodyBuffer { data: Vec::new(), overflowed: false }
    }

    /// Takes the next piece. A piece that brings the body over the limit
    /// is not kept, and from then on the body counts as too large.
    pub fn push(&mut self, chunk: &[u8]) -> (r: Result<(), BodyTooLarge>)
        ensures
            final(self).too_large() == (old(self).too_large() || old(self).bytes().len()
                + chunk@.len() > MAX_BODY_SIZE),
            r is Err == final(self).too_large(),
            final(self).bytes() == if final(self).too_large() {
                old(self).bytes()
            } else {
                old(self).bytes() + chunk@
            },
    {
        if self.overflowed || self.data.len() > MAX_BODY_SIZE || chunk.len() > MAX_BODY_SIZE
            - self.data.len() {
            self.overflowed = true;
            Err(BodyTooLarge)
        } else {
            self.data.extend_from_slice(chunk);
            Ok(())
        }
    }

    /// The whole body, or the error if more came in than is read.
    pub fn finish(self) -> (r: Result<Vec<u8>, BodyTooLarge>)
        ensures
            r is Err == self.too_large(),
            r matches Ok(data) ==> data@ == self.bytes(),
    {
        if self.overflowed {
            Err(BodyTooLarge)
        } else {
            Ok(self.data)
        }
    }

    /// The whole body, or an empty one if more came in than is read: what
    /// a guest gets to see.
    pub fn finish_or_empty(self) -> (r: Vec<u8>)
        ensures
            r@ == if self.too_large() {
                Seq::<u8>::empty()
            } else {
                self.bytes()
            },
    {
        if self.overflowed {
            Vec::new()
        } else {
            self.data
        }
    }
}

} // verus!
