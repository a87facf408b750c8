//! Reading the parameters of a WireGuard configuration: the two keys, the
//! interface addresses and the MTU.

use vstd::prelude::*;
use crate::text::{
    chars_of, is_prefix, remove_ws, slice, split, split_chars, starts_with, strip_ws, to_string,
    views,
};

verus! {

/// The parameters taken from a configuration.
pub struct WgConfig {
    pub private_key: String,
    pub public_key: String,
    /// Interface addresses, in the order in which they were found.
    pub addresses: Vec<String>,
    /// The `MTU` line's value as written, not yet checked.
    pub mtu: Option<String>,
}

pub struct ConfigView {
    pub private_key: Seq<char>,
    pub public_key: Seq<char>,
    pub addresses: Seq<Seq<char>>,
    pub mtu: Option<Seq<char>>,
}

impl View for WgConfig {
    type V = ConfigView;

    open spec fn view(&self) -> ConfigView {
        ConfigView {
            private_key: self.private_key@,
            public_key: self.public_key@,
            addresses: views(self.addresses@),
            mtu: match self.mtu {
                Some(m) => Some(m@),
                None => None,
            },
        }
    }
}

#[derive(Clone, Copy, Debug, PartialEq, Eq, Structural)]
pub enum RequiredField {
    PrivateKey,
    PublicKey,
    Address,
}

#[derive(Clone, Copy, Debug, PartialEq, Eq, Structural)]
pub enum ConfigError {
    MissingRequiredField(RequiredField),
}

/// What the lines read so far have set.
pub struct Collected {
    pub private_key: Option<Seq<char>>,
    pub public_key: Option<Seq<char>>,
    pub addresses: Seq<Seq<char>>,
    pub mtu: Option<Seq<char>>,
}

pub open spec fn nothing_collected() -> Collected {
    Collected { private_key: None, public_key: None, addresses: Seq::empty(), mtu: None }
}

/// The text after `tag` where `s` starts with it; else `s` itself.
pub open spec fn value_after(s: Seq<char>, tag: Seq<char>) -> Seq<char> {
    if is_prefix(tag, s) {
        s.subrange(tag.len() as int, s.len() as int)
    } else {
        s
    }
}

/// One line's effect. The key is matched at the very start of the line; the
/// value is what follows `Key=` once all whitespace is gone. A key seen again
/// replaces the earlier value, but addresses accumulate.
pub open spec fn apply_line(c: Collected, line: Seq<char>) -> Collected {
    let t = strip_ws(line);
    if is_prefix("PrivateKey"@, line) {
        Collected { private_key: Some(value_after(t, "PrivateKey="@)), ..c }
    } else if is_prefix("PublicKey"@, line) {
        Collected { public_key: Some(value_after(t, "PublicKey="@)), ..c }
    } else if is_prefix("Address"@, line) {
        Collected { addresses: c.addresses + split(value_after(t, "Address="@), ','), ..c }
    } else if is_prefix("MTU"@, line) {
        Collected { mtu: Some(value_after(t, "MTU="@)), ..c }
    } else {
        c
    }
}

/// The effect of the complete lines of `text`, and the unfinished last line.
pub open spec fn scan(text: Seq<char>) -> (Collected, Seq<char>)
    decreases text.len(),
{
    if text.len() == 0 {
        (nothing_collected(), Seq::empty())
    } else {
        let (c, cur) = scan(text.drop_last());
        if text.last() == '\n' {
            (apply_line(c, cur), Seq::empty())
        } else {
            (c, cur.push(text.last()))
        }
    }
}

/// The effect of every line of `text`, in order.
pub open spec fn collect(text: Seq<char>) -> Collected {
    apply_line(scan(text).0, scan(text).1)
}

pub open spec fn present(v: Option<Seq<char>>) -> bool {
    v is Some && v->0.len() > 0
}

/// The configuration that `text` describes, or the first required field that
/// it lacks.
pub open spec fn extract_spec(text: Seq<char>) -> Result<ConfigView, ConfigError> {
    let c = collect(text);
    if !present(c.private_key) {
        Err(ConfigError::MissingRequiredField(RequiredField::PrivateKey))
    } else if !present(c.public_key) {
        Err(ConfigError::MissingRequiredField(RequiredField::PublicKey))
    } else if c.addresses.len() == 0 {
        Err(ConfigError::MissingRequiredField(RequiredField::Address))
    } else {
        Ok(
            ConfigView {
                private_key: c.private_key->0,
                public_key: c.public_key->0,
                addresses: c.addresses,
                mtu: c.mtu,
            },
        )
    }
}

struct Partial {
    private_key: Option<Vec<char>>,
    public_key: Option<Vec<char>>,
    addresses: Vec<String>,
    mtu: Option<Vec<char>>,
}

spec fn opt_view(v: Option<Vec<char>>) -> Option<Seq<char>> {
    match v {
        Some(x) => Some(x@),
        None => None,
    }
}

impl View for Partial {
    type V = Collected;

    closed spec fn view(&self) -> Collected {
        Collected {
            private_key: opt_view(self.private_key),
            public_key: opt_view(self.public_key),
            addresses: views(self.addresses@),
            mtu: opt_view(self.mtu),
        }
    }
}

fn value_of(t: &Vec<char>, tag: &str) -> (r: Vec<char>)
    ensures
        r@ == value_after(t@, tag@),
{
    if starts_with(t, tag) {
        slice(t, tag.unicode_len(), t.len())
    } else {
        slice(t, 0, t.len())
    }
}

fn read_line(st: &mut Partial, line: &Vec<char>)
    ensures
        final(st)@ == apply_line(old(st)@, line@),
{
    let t = remove_ws(line);
    if starts_with(line, "PrivateKey") {
        st.private_key = Some(value_of(&t, "PrivateKey="));
    } else if starts_with(line, "PublicKey") {
        st.public_key = Some(value_of(&t, "PublicKey="));
    } else if starts_with(line, "Address") {
        let v = value_of(&t, "Address=");
        let mut more = split_chars(&v, ',');
        let ghost before = st.addresses@;
        let ghost added = more@;
        st.addresses.append(&mut more);
        assert(views(st.addresses@) =~= views(before) + views(added));
    } else if starts_with(line, "MTU") {
        st.mtu = Some(value_of(&t, "MTU="));
    }
}

/// Reads the parameters from the text of a configuration, line by line.
pub fn read_wireguard_key_parameters(text: &str) -> (r: Result<WgConfig, ConfigError>)
    ensures
        match r {
            Ok(c) => extract_spec(text@) == Ok::<ConfigView, ConfigError>(c@),
            Err(e) => extract_spec(text@) == Err::<ConfigView, ConfigError>(e),
        },
{
    let chars = chars_of(text);
    let mut st = Partial {
        private_key: None,
        public_key: None,
        addresses: Vec::new(),
        mtu: None,
    };
    let mut cur: Vec<char> = Vec::new();
    let mut i: usize = 0;
    assert(chars@.subrange(0, 0) =~= Seq::<char>::empty());
    assert(views(st.addresses@) =~= Seq::<Seq<char>>::empty());
    assert(st@ == nothing_collected());
    while i < chars.len()
        invariant
            i <= chars@.len(),
            scan(chars@.subrange(0, i as int)) == (st@, cur@),
        decreases chars@.len() - i,
    {
        assert(chars@.subrange(0, i as int + 1).drop_last() =~= chars@.subrange(0, i as int));
        if chars[i] == '\n' {
            read_line(&mut st, &cur);
            cur = Vec::new();
        } else {
            cur.push(chars[i]);
        }
        i = i + 1;
        assert(scan(chars@.subrange(0, i as int)).1 =~= cur@);
    }
    assert(chars@.subrange(0, i as int) =~= chars@);
    read_line(&mut st, &cur);
    let private_key = match st.private_key {
        Some(k) if k.len() > 0 => k,
        _ => {
            return Err(ConfigError::MissingRequiredField(RequiredField::PrivateKey));
        },
    };
    let public_key = match st.public_key {
        Some(k) if k.len() > 0 => k,
        _ => {
            return Err(ConfigError::MissingRequiredField(RequiredField::PublicKey));
        },
    };
    if st.addresses.len() == 0 {
        return Err(ConfigError::MissingRequiredField(RequiredField::Address));
    }
    let mtu = match st.mtu {
        Some(m) => Some(to_string(&m)),
        None => None,
    };
    let c = WgConfig {
        private_key: to_string(&private_key),
        public_key: to_string(&public_key),
        addresses: st.addresses,
        mtu,
    };
    assert(c@.mtu == collect(text@).mtu);
    Ok(c)
}

/// Every `Address` line adds all of its comma-separated values after those
/// already found, and keeps every other field as it was.
pub proof fn lemma_address_line_appends(c: Collected, line: Seq<char>)
    requires
        is_prefix("Address"@, line),
    ensures
        apply_line(c, line).addresses == c.addresses + split(
            value_after(strip_ws(line), "Address="@),
            ',',
        ),
        apply_line(c, line).addresses.len() > c.addresses.len(),
        apply_line(c, line).private_key == c.private_key,
        apply_line(c, line).public_key == c.public_key,
        apply_line(c, line).mtu == c.mtu,
{
    reveal_strlit("Address");
    reveal_strlit("PrivateKey");
    reveal_strlit("PublicKey");
    assert(line.subrange(0, 7)[0] == line[0]);
    assert(!is_prefix("PrivateKey"@, line)) by {
        if is_prefix("PrivateKey"@, line) {
            assert(line.subrange(0, 10)[0] == line[0]);
        }
    }
    assert(!is_prefix("PublicKey"@, line)) by {
        if is_prefix("PublicKey"@, line) {
            assert(line.subrange(0, 9)[0] == line[0]);
        }
    }
    crate::text::lemma_split_not_empty(value_after(strip_ws(line), "Address="@), ',');
}

} // verus!
