//! The three shapes a host may have (IPv4 literal, IPv6 literal, domain
//! name), recognised by compiled regular expressions.

use vstd::prelude::*;
use crate::text::{all_digits, chars_of, digits_value, split};

verus! {

#[verifier::external_type_specification]
#[verifier::external_body]
pub struct ExRegex(regex::Regex);

#[verifier::external_type_specification]
#[verifier::external_body]
pub struct ExRegexError(regex::Error);

#[derive(Clone, Copy, Debug, PartialEq, Eq, Structural)]
pub enum HostKind {
    IPv4,
    IPv6,
    Domain,
}

/// One to three ASCII digits worth at most 255.
pub open spec fn is_octet(p: Seq<char>) -> bool {
    1 <= p.len() <= 3 && all_digits(p) && digits_value(p) <= 255
}

/// Four octets separated by dots.
pub open spec fn ipv4_shape(h: Seq<char>) -> bool {
    let parts = split(h, '.');
    parts.len() == 4 && forall|k: int| 0 <= k < 4 ==> is_octet(#[trigger] parts[k])
}

pub open spec fn is_hex(c: char) -> bool {
    ('0' <= c && c <= '9') || ('a' <= c && c <= 'f') || ('A' <= c && c <= 'F')
}

/// One to four hexadecimal digits.
pub open spec fn hex_group(p: Seq<char>) -> bool {
    1 <= p.len() <= 4 && forall|i: int| 0 <= i < p.len() ==> is_hex(#[trigger] p[i])
}

/// Eight colon-separated groups; or one `::` with at most seven groups
/// around it in all.
pub open spec fn ipv6_shape(h: Seq<char>) -> bool {
    let p = split(h, ':');
    let n = p.len();
    ||| n == 8 && forall|i: int| 0 <= i < n ==> hex_group(#[trigger] p[i])
    ||| n == 3 && p[0].len() == 0 && p[1].len() == 0 && p[2].len() == 0
    ||| 3 <= n <= 9 && p[0].len() == 0 && p[1].len() == 0 && forall|i: int|
        2 <= i < n ==> hex_group(#[trigger] p[i])
    ||| 3 <= n <= 9 && p[n - 1].len() == 0 && p[n - 2].len() == 0 && forall|i: int|
        0 <= i < n - 2 ==> hex_group(#[trigger] p[i])
    ||| 3 <= n <= 8 && exists|m: int|
        0 < m < n - 1 && (#[trigger] p[m]).len() == 0 && forall|i: int|
            0 <= i < n && i != m ==> hex_group(#[trigger] p[i])
}

pub open spec fn is_label_char(c: char) -> bool {
    ('0' <= c && c <= '9') || ('a' <= c && c <= 'z') || ('A' <= c && c <= 'Z') || c == '-'
}

/// Two or more non-empty labels of ASCII letters, digits and `-`, separated
/// by dots.
pub open spec fn domain_shape(h: Seq<char>) -> bool {
    let parts = split(h, '.');
    parts.len() >= 2 && forall|k: int|
        0 <= k < parts.len() ==> (#[trigger] parts[k]).len() >= 1 && forall|i: int|
            0 <= i < parts[k].len() ==> is_label_char(#[trigger] parts[k][i])
}

pub open spec fn has_shape(kind: HostKind, h: Seq<char>) -> bool {
    match kind {
        HostKind::IPv4 => ipv4_shape(h),
        HostKind::IPv6 => ipv6_shape(h),
        HostKind::Domain => domain_shape(h),
    }
}

/// No octet has a leading zero. Of the strings with the IPv4 shape, these
/// are the ones that `Ipv4Addr` parses; every string with the IPv6 shape
/// parses as an `Ipv6Addr`.
pub open spec fn ipv4_canonical(h: Seq<char>) -> bool {
    forall|i: int|
        0 <= i < h.len() && #[trigger] h[i] == '0' && (i == 0 || h[i - 1] == '.') ==> (i + 1
            == h.len() || h[i + 1] == '.')
}

/// The kind of host that `h` is, where it is one.
pub open spec fn classify_spec(h: Seq<char>) -> Option<HostKind> {
    if ipv4_shape(h) {
        if ipv4_canonical(h) {
            Some(HostKind::IPv4)
        } else {
            None
        }
    } else if ipv6_shape(h) {
        Some(HostKind::IPv6)
    } else if domain_shape(h) {
        Some(HostKind::Domain)
    } else {
        None
    }
}

fn pattern(kind: HostKind) -> &'static str {
    match kind {
        HostKind::IPv4 => r"^(?:(?:25[0-5]|2[0-4][0-9]|[01]?[0-9][0-9]?)\.){3}(?:25[0-5]|2[0-4][0-9]|[01]?[0-9][0-9]?)$",
        HostKind::IPv6 => r"^(?:(?:[0-9a-fA-F]{1,4}:){7}[0-9a-fA-F]{1,4}|(?:[0-9a-fA-F]{1,4}:){1,7}:|(?:[0-9a-fA-F]{1,4}:){1,6}:[0-9a-fA-F]{1,4}|(?:[0-9a-fA-F]{1,4}:){1,5}(?::[0-9a-fA-F]{1,4}){1,2}|(?:[0-9a-fA-F]{1,4}:){1,4}(?::[0-9a-fA-F]{1,4}){1,3}|(?:[0-9a-fA-F]{1,4}:){1,3}(?::[0-9a-fA-F]{1,4}){1,4}|(?:[0-9a-fA-F]{1,4}:){1,2}(?::[0-9a-fA-F]{1,4}){1,5}|[0-9a-fA-F]{1,4}:(?:(?::[0-9a-fA-F]{1,4}){1,6})|:(?:(?::[0-9a-fA-F]{1,4}){1,7}|:))$",
        HostKind::Domain => r"^[a-zA-Z0-9-]+(\.[a-zA-Z0-9-]+)+$",
    }
}

/// Relies on `regex::Regex::new`: compiles `pattern`, or returns why it cannot.
#[verifier::external_body]
fn compile(pattern: &str) -> (r: Result<regex::Regex, regex::Error>) {
    regex::Regex::new(pattern)
}

/// A compiled expression for the shape of one kind of host. Its fields are
/// private: `new` alone fills them, compiling `pattern(kind)`.
pub struct ShapeMatcher {
    kind: HostKind,
    re: regex::Regex,
}

impl ShapeMatcher {
    pub closed spec fn kind(&self) -> HostKind {
        self.kind
    }

    pub fn new(kind: HostKind) -> (r: Result<ShapeMatcher, regex::Error>)
        ensures
            r matches Ok(m) ==> m.kind() == kind,
    {
        match compile(pattern(kind)) {
            Ok(re) => Ok(ShapeMatcher { kind, re }),
            Err(e) => Err(e),
        }
    }

    /// Relies on `regex::Regex::is_match`: whether the expression matches in
    /// `s`. Each pattern is anchored at both ends and uses ASCII classes only,
    /// so this is whether all of `s` has the shape that `has_shape` states.
    #[verifier::external_body]
    fn is_match(&self, s: &str) -> (r: bool)
        ensures
            r == has_shape(self.kind(), s@),
    {
        self.re.is_match(s)
    }
}

/// The three matchers, built once and shared by every parse.
pub struct HostMatchers {
    ipv4: ShapeMatcher,
    ipv6: ShapeMatcher,
    domain: ShapeMatcher,
}

/// Whether no octet of `h` has a leading zero.
fn octets_canonical(h: &Vec<char>) -> (r: bool)
    ensures
        r == ipv4_canonical(h@),
{
    let n = h.len();
    let mut i: usize = 0;
    while i < n
        invariant
            n == h@.len(),
            i <= n,
            forall|j: int|
                0 <= j < i && #[trigger] h@[j] == '0' && (j == 0 || h@[j - 1] == '.') ==> (j + 1
                    == n || h@[j + 1] == '.'),
        decreases n - i,
    {
        if h[i] == '0' && (i == 0 || h[i - 1] == '.') && !(i + 1 == n || h[i + 1] == '.') {
            return false;
        }
        i = i + 1;
    }
    true
}

impl HostMatchers {
    pub closed spec fn wf(&self) -> bool {
        &&& self.ipv4.kind() == HostKind::IPv4
        &&& self.ipv6.kind() == HostKind::IPv6
        &&& self.domain.kind() == HostKind::Domain
    }

    pub fn new() -> (r: Result<HostMatchers, regex::Error>)
        ensures
            r matches Ok(m) ==> m.wf(),
    {
        let ipv4 = match ShapeMatcher::new(HostKind::IPv4) {
            Ok(m) => m,
            Err(e) => {
                return Err(e);
            },
        };
        let ipv6 = match ShapeMatcher::new(HostKind::IPv6) {
            Ok(m) => m,
            Err(e) => {
                return Err(e);
            },
        };
        let domain = match ShapeMatcher::new(HostKind::Domain) {
            Ok(m) => m,
            Err(e) => {
                return Err(e);
            },
        };
        Ok(HostMatchers { ipv4, ipv6, domain })
    }

    /// The kind of `host`, tried in the order IPv4, IPv6, domain. A host with
    /// the IPv4 shape that is no valid IPv4 address is refused, not read as a
    /// domain.
    pub fn classify(&self, host: &str) -> (r: Option<HostKind>)
        requires
            self.wf(),
        ensures
            r == classify_spec(host@),
    {
        if self.ipv4.is_match(host) {
            let chars = chars_of(host);
            if octets_canonical(&chars) {
                Some(HostKind::IPv4)
            } else {
                None
            }
        } else if self.ipv6.is_match(host) {
            Some(HostKind::IPv6)
        } else if self.domain.is_match(host) {
            Some(HostKind::Domain)
        } else {
            None
        }
    }
}

} // verus!
