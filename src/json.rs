//! A small model of the JSON that a node link carries: objects whose members
//! are numbers, booleans, strings or arrays of strings, and their compact and
//! pretty-printed texts.

use vstd::prelude::*;
use crate::text::{decimal, quoted};

verus! {

/// A member's value.
pub enum JsonLeaf {
    Number(nat),
    Boolean(bool),
    Text(Seq<char>),
    TextList(Seq<Seq<char>>),
}

/// The strings of a list, each a JSON string, separated by commas.
pub open spec fn compact_texts(l: Seq<Seq<char>>) -> Seq<char>
    decreases l.len(),
{
    if l.len() == 0 {
        Seq::empty()
    } else if l.len() == 1 {
        quoted(l[0])
    } else {
        compact_texts(l.drop_last()) + ","@ + quoted(l.last())
    }
}

pub open spec fn literal_bool(b: bool) -> Seq<char> {
    if b {
        "true"@
    } else {
        "false"@
    }
}

/// A value on one line, without spaces.
pub open spec fn compact_leaf(v: JsonLeaf) -> Seq<char> {
    match v {
        JsonLeaf::Number(n) => decimal(n),
        JsonLeaf::Boolean(b) => literal_bool(b),
        JsonLeaf::Text(s) => quoted(s),
        JsonLeaf::TextList(l) => "["@ + compact_texts(l) + "]"@,
    }
}

pub open spec fn compact_member(m: (Seq<char>, JsonLeaf)) -> Seq<char> {
    quoted(m.0) + ":"@ + compact_leaf(m.1)
}

pub open spec fn compact_members(f: Seq<(Seq<char>, JsonLeaf)>) -> Seq<char>
    decreases f.len(),
{
    if f.len() == 0 {
        Seq::empty()
    } else if f.len() == 1 {
        compact_member(f[0])
    } else {
        compact_members(f.drop_last()) + ","@ + compact_member(f.last())
    }
}

/// An object on one line, without spaces.
pub open spec fn compact_object(f: Seq<(Seq<char>, JsonLeaf)>) -> Seq<char> {
    "{"@ + compact_members(f) + "}"@
}

/// The strings of a list inside a pretty-printed member: each on its own
/// line, indented by four spaces.
pub open spec fn pretty_texts(l: Seq<Seq<char>>) -> Seq<char>
    decreases l.len(),
{
    if l.len() == 0 {
        Seq::empty()
    } else if l.len() == 1 {
        "\n    "@ + quoted(l[0])
    } else {
        pretty_texts(l.drop_last()) + ","@ + "\n    "@ + quoted(l.last())
    }
}

/// A value of a member of a pretty-printed object.
pub open spec fn pretty_leaf(v: JsonLeaf) -> Seq<char> {
    match v {
        JsonLeaf::Number(n) => decimal(n),
        JsonLeaf::Boolean(b) => literal_bool(b),
        JsonLeaf::Text(s) => quoted(s),
        JsonLeaf::TextList(l) => if l.len() == 0 {
            "[]"@
        } else {
            "["@ + pretty_texts(l) + "\n  ]"@
        },
    }
}

pub open spec fn pretty_member(m: (Seq<char>, JsonLeaf)) -> Seq<char> {
    "\n  "@ + quoted(m.0) + ": "@ + pretty_leaf(m.1)
}

pub open spec fn pretty_members(f: Seq<(Seq<char>, JsonLeaf)>) -> Seq<char>
    decreases f.len(),
{
    if f.len() == 0 {
        Seq::empty()
    } else if f.len() == 1 {
        pretty_member(f[0])
    } else {
        pretty_members(f.drop_last()) + ","@ + pretty_member(f.last())
    }
}

/// An object with one member per line, indented by two spaces.
pub open spec fn pretty_object(f: Seq<(Seq<char>, JsonLeaf)>) -> Seq<char> {
    if f.len() == 0 {
        "{}"@
    } else {
        "{"@ + pretty_members(f) + "\n}"@
    }
}

/// Adding the next member to a compact object's text.
pub proof fn lemma_compact_step(f: Seq<(Seq<char>, JsonLeaf)>, k: int)
    requires
        1 <= k < f.len(),
    ensures
        compact_members(f.subrange(0, k + 1)) == compact_members(f.subrange(0, k)) + ","@
            + compact_member(f[k]),
{
    assert(f.subrange(0, k + 1).drop_last() =~= f.subrange(0, k));
}

/// Adding the next member to a pretty object's text.
pub proof fn lemma_pretty_step(f: Seq<(Seq<char>, JsonLeaf)>, k: int)
    requires
        1 <= k < f.len(),
    ensures
        pretty_members(f.subrange(0, k + 1)) == pretty_members(f.subrange(0, k)) + ","@
            + pretty_member(f[k]),
{
    assert(f.subrange(0, k + 1).drop_last() =~= f.subrange(0, k));
}

} // verus!
