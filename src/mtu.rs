//! Choosing the tunnel MTU: a value the user gave, else the configuration's,
//! else a default.

use vstd::prelude::*;
use crate::text::{chars_of, u16_value};

verus! {

pub const MTU_MIN: u16 = 1280;

pub const MTU_MAX: u16 = 1500;

pub const DEFAULT_MTU: u16 = 1408;

/// The MTU that `s` gives: a decimal number in `[MTU_MIN, MTU_MAX]`.
pub open spec fn mtu_of(s: Seq<char>) -> Option<u16> {
    if u16_value(s) is Some && MTU_MIN <= u16_value(s)->0 <= MTU_MAX {
        u16_value(s)
    } else {
        None
    }
}

pub open spec fn str_view(s: Option<&str>) -> Option<Seq<char>> {
    match s {
        Some(x) => Some(x@),
        None => None,
    }
}

/// The user's value where it is a valid MTU, else the configuration's where
/// that one is, else `DEFAULT_MTU`.
pub open spec fn resolve_spec(user: Option<Seq<char>>, config: Option<Seq<char>>) -> u16 {
    if user is Some && mtu_of(user->0) is Some {
        mtu_of(user->0)->0
    } else if config is Some && mtu_of(config->0) is Some {
        mtu_of(config->0)->0
    } else {
        DEFAULT_MTU
    }
}

/// Reads `s` as an MTU; `None` where it is no number or lies outside the
/// allowed range. A leading `-` is refused: no negative number is in range.
pub fn parse_mtu(s: &str) -> (r: Option<u16>)
    ensures
        r == mtu_of(s@),
        r matches Some(v) ==> MTU_MIN <= v <= MTU_MAX,
{
    let chars = chars_of(s);
    match crate::text::parse_u16(&chars) {
        Some(v) => {
            if MTU_MIN <= v && v <= MTU_MAX {
                Some(v)
            } else {
                None
            }
        },
        None => None,
    }
}

/// The MTU of a run: an invalid user value counts as none given.
pub fn resolve_mtu(user: Option<&str>, config_mtu: Option<&str>) -> (r: u16)
    ensures
        r == resolve_spec(str_view(user), str_view(config_mtu)),
        MTU_MIN <= r <= MTU_MAX,
{
    if let Some(u) = user {
        if let Some(v) = parse_mtu(u) {
            return v;
        }
    }
    if let Some(c) = config_mtu {
        if let Some(v) = parse_mtu(c) {
            return v;
        }
    }
    DEFAULT_MTU
}

} // verus!
