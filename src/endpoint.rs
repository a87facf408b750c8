//! Reading one endpoint token (`host:port`, `[ipv6]:port` or `host port`)
//! into a checked host and port.

use vstd::prelude::*;
use crate::host::{classify_spec, has_shape, HostKind, HostMatchers};
use crate::text::{
    chars_of, find_char, find_ws, index_of, parse_u16, slice, to_string, trim, trim_chars,
    trim_start, trim_start_chars, u16_value, ws_index,
};

verus! {

#[derive(Clone, Copy, Debug, PartialEq, Eq, Structural)]
pub enum RejectReason {
    /// The token has none of the accepted forms.
    UnrecognizedFormat,
    /// The host is no IPv4 address, IPv6 address or domain name.
    InvalidHost,
    /// The port is no number from 0 to 65535.
    InvalidPort,
}

/// A host and port that passed every check.
pub struct ParsedEndpoint {
    pub host: String,
    pub kind: HostKind,
    pub port: u16,
}

/// The host and port texts of a token, before any check of their contents.
pub open spec fn split_token(token: Seq<char>) -> Option<(Seq<char>, Seq<char>)> {
    let s = trim(token);
    if s.len() > 0 && s[0] == '[' {
        let j = index_of(s, ']');
        if j < 0 {
            None
        } else {
            let rest = s.subrange(j + 1, s.len() as int);
            let k = index_of(rest, ':');
            if k < 0 {
                None
            } else {
                Some((s.subrange(1, j), rest.subrange(k + 1, rest.len() as int)))
            }
        }
    } else if index_of(s, ':') >= 0 {
        let i = index_of(s, ':');
        Some((s.subrange(0, i), s.subrange(i + 1, s.len() as int)))
    } else if ws_index(s) >= 0 {
        let i = ws_index(s);
        let rest = trim_start(s.subrange(i, s.len() as int));
        if ws_index(rest) >= 0 {
            None
        } else {
            Some((s.subrange(0, i), rest))
        }
    } else {
        None
    }
}

/// What parsing `token` gives: host, kind and port, or the first check that
/// fails, in the order format, host, port.
pub open spec fn parse_spec(token: Seq<char>) -> Result<(Seq<char>, HostKind, u16), RejectReason> {
    match split_token(token) {
        None => Err(RejectReason::UnrecognizedFormat),
        Some((h, p)) => match classify_spec(h) {
            None => Err(RejectReason::InvalidHost),
            Some(k) => match u16_value(p) {
                None => Err(RejectReason::InvalidPort),
                Some(v) => Ok((h, k, v)),
            },
        },
    }
}

impl ParsedEndpoint {
    pub open spec fn view(&self) -> (Seq<char>, HostKind, u16) {
        (self.host@, self.kind, self.port)
    }
}

/// The host and port texts of `token`.
fn split_endpoint(token: &str) -> (r: Option<(Vec<char>, Vec<char>)>)
    ensures
        match r {
            Some((h, p)) => split_token(token@) == Some((h@, p@)),
            None => split_token(token@) is None,
        },
{
    let raw = chars_of(token);
    let s = trim_chars(&raw);
    let n = s.len();
    if n > 0 && s[0] == '[' {
        match find_char(&s, ']') {
            None => None,
            Some(j) => {
                let rest = slice(&s, j + 1, n);
                match find_char(&rest, ':') {
                    None => None,
                    Some(k) => Some((slice(&s, 1, j), slice(&rest, k + 1, rest.len()))),
                }
            },
        }
    } else {
        match find_char(&s, ':') {
            Some(i) => Some((slice(&s, 0, i), slice(&s, i + 1, n))),
            None => match find_ws(&s) {
                Some(i) => {
                    let tail = slice(&s, i, n);
                    let rest = trim_start_chars(&tail);
                    match find_ws(&rest) {
                        Some(_) => None,
                        None => Some((slice(&s, 0, i), rest)),
                    }
                },
                None => None,
            },
        }
    }
}

/// Parses one endpoint token, checking the host's shape and the port's range.
pub fn parse_endpoint(token: &str, matchers: &HostMatchers) -> (r: Result<
    ParsedEndpoint,
    RejectReason,
>)
    requires
        matchers.wf(),
    ensures
        match r {
            Ok(e) => parse_spec(token@) == Ok::<(Seq<char>, HostKind, u16), RejectReason>(e.view()),
            Err(e) => parse_spec(token@) == Err::<(Seq<char>, HostKind, u16), RejectReason>(e),
        },
        r matches Ok(e) ==> has_shape(e.kind, e.host@),
{
    match split_endpoint(token) {
        None => Err(RejectReason::UnrecognizedFormat),
        Some((h, p)) => {
            let host = to_string(&h);
            match matchers.classify(host.as_str()) {
                None => Err(RejectReason::InvalidHost),
                Some(kind) => match parse_u16(&p) {
                    None => Err(RejectReason::InvalidPort),
                    Some(port) => Ok(ParsedEndpoint { host, kind, port }),
                },
            }
        },
    }
}

} // verus!
