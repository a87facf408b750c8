//! Rendering a node link: the JSON payload that NekoRay reads, its display
//! name, and the `nekoray://custom#` URI that carries it in base64.

use vstd::prelude::*;
use crate::config::{extract_spec, read_wireguard_key_parameters, ConfigError, ConfigView, WgConfig};
use crate::mtu::{resolve_mtu, resolve_spec, str_view, MTU_MAX, MTU_MIN};
use crate::endpoint::ParsedEndpoint;
use crate::host::HostKind;
use crate::json::{
    compact_leaf, compact_members, compact_object, lemma_compact_step, lemma_pretty_step,
    pretty_leaf, pretty_members, pretty_object, pretty_texts, JsonLeaf,
};
use crate::text::{
    chars_of, decimal, escape, lemma_escape_round_trip, push_chars, push_decimal, push_quoted,
    push_str, quoted, to_string, unescape, views,
};

verus! {

/// A finished node: the name it shows and the link that carries it.
pub struct LinkRecord {
    pub display_name: String,
    pub uri: String,
}

/// What every node of a run shares: the configuration's parameters and the
/// MTU chosen for the run.
pub struct BaseInfo {
    pub config: WgConfig,
    pub mtu: u16,
}

/// Reads the configuration text and settles the MTU: `mtu` where it is a
/// valid one, else the configuration's, else the default.
pub fn update_base_info(config_text: &str, mtu: Option<&str>) -> (r: Result<BaseInfo, ConfigError>)
    ensures
        match r {
            Ok(b) => {
                &&& extract_spec(config_text@) == Ok::<ConfigView, ConfigError>(b.config@)
                &&& b.mtu == resolve_spec(str_view(mtu), b.config@.mtu)
                &&& MTU_MIN <= b.mtu <= MTU_MAX
            },
            Err(e) => extract_spec(config_text@) == Err::<ConfigView, ConfigError>(e),
        },
{
    match read_wireguard_key_parameters(config_text) {
        Ok(config) => {
            let resolved = match &config.mtu {
                Some(m) => resolve_mtu(mtu, Some(m.as_str())),
                None => resolve_mtu(mtu, None),
            };
            Ok(BaseInfo { config, mtu: resolved })
        },
        Err(e) => Err(e),
    }
}

/// What the `base64` crate's standard engine makes of the UTF-8 bytes of `text`.
pub uninterp spec fn base64_of(text: Seq<char>) -> Seq<char>;

/// Relies on `base64::encode`: the UTF-8 bytes of `text` in standard base64,
/// padded and without line breaks; the result depends on `text` alone.
#[verifier::external_body]
#[allow(deprecated)]
fn encode_base64(text: &str) -> (r: String)
    ensures
        r@ == base64_of(text@),
{
    base64::encode(text)
}

/// The `local_address` member's value: a single address as a string,
/// several as an array of strings.
pub open spec fn local_leaf(addrs: Seq<Seq<char>>) -> JsonLeaf {
    if addrs.len() == 1 {
        JsonLeaf::Text(addrs[0])
    } else {
        JsonLeaf::TextList(addrs)
    }
}

pub open spec fn local_address(addrs: Seq<Seq<char>>) -> Seq<char> {
    pretty_leaf(local_leaf(addrs))
}

/// The members of the WireGuard outbound, in order.
pub open spec fn cs_fields(config: ConfigView, mtu: u16, host: Seq<char>, port: u16) -> Seq<
    (Seq<char>, JsonLeaf),
> {
    seq![
        ("interface_name"@, JsonLeaf::Text("WARP"@)),
        ("local_address"@, local_leaf(config.addresses)),
        ("mtu"@, JsonLeaf::Number(mtu as nat)),
        ("peer_public_key"@, JsonLeaf::Text(config.public_key)),
        ("private_key"@, JsonLeaf::Text(config.private_key)),
        ("server"@, JsonLeaf::Text(host)),
        ("server_port"@, JsonLeaf::Number(port as nat)),
        ("system_interface"@, JsonLeaf::Boolean(false)),
        ("tag"@, JsonLeaf::Text("proxy"@)),
        ("type"@, JsonLeaf::Text("wireguard"@)),
    ]
}

/// The WireGuard outbound as the pretty-printed JSON document that the
/// payload's `cs` member holds.
pub open spec fn cs_document(config: ConfigView, mtu: u16, host: Seq<char>, port: u16) -> Seq<
    char,
> {
    pretty_object(cs_fields(config, mtu, host, port))
}

/// The host as it is shown: an IPv6 address in brackets.
pub open spec fn display_host(host: Seq<char>, kind: HostKind) -> Seq<char> {
    if kind == HostKind::IPv6 {
        "["@ + host + "]"@
    } else {
        host
    }
}

/// `prefix_` where a prefix is given, else nothing.
pub open spec fn name_prefix(prefix: Seq<char>) -> Seq<char> {
    if prefix.len() == 0 {
        Seq::empty()
    } else {
        prefix + "_"@
    }
}

pub open spec fn display_name_spec(
    prefix: Seq<char>,
    host: Seq<char>,
    kind: HostKind,
    port: u16,
) -> Seq<char> {
    name_prefix(prefix) + display_host(host, kind) + ":"@ + decimal(port as nat)
}

/// The members of the object that a link carries, in order.
pub open spec fn payload_fields(
    config: ConfigView,
    mtu: u16,
    endpoint: (Seq<char>, HostKind, u16),
    prefix: Seq<char>,
) -> Seq<(Seq<char>, JsonLeaf)> {
    seq![
        ("_v"@, JsonLeaf::Number(0)),
        ("addr"@, JsonLeaf::Text("127.0.0.1"@)),
        ("cmd"@, JsonLeaf::TextList(seq![Seq::empty()])),
        ("core"@, JsonLeaf::Text("internal"@)),
        ("cs"@, JsonLeaf::Text(cs_document(config, mtu, endpoint.0, endpoint.2))),
        ("mapping_port"@, JsonLeaf::Number(0)),
        ("name"@, JsonLeaf::Text(display_name_spec(prefix, endpoint.0, endpoint.1, endpoint.2))),
        ("port"@, JsonLeaf::Number(1080)),
        ("socks_port"@, JsonLeaf::Number(0)),
    ]
}

/// The compact JSON object that a link carries.
pub open spec fn payload_spec(
    config: ConfigView,
    mtu: u16,
    endpoint: (Seq<char>, HostKind, u16),
    prefix: Seq<char>,
) -> Seq<char> {
    compact_object(payload_fields(config, mtu, endpoint, prefix))
}

pub open spec fn uri_spec(payload: Seq<char>) -> Seq<char> {
    "nekoray://custom#"@ + base64_of(payload)
}

fn push_local_address(out: &mut Vec<char>, addrs: &Vec<String>)
    ensures
        final(out)@ == old(out)@ + local_address(views(addrs@)),
{
    let ghost a = views(addrs@);
    if addrs.len() == 1 {
        let c = chars_of(addrs[0].as_str());
        push_quoted(out, &c);
        return;
    }
    if addrs.len() == 0 {
        push_str(out, "[]");
        return;
    }
    push_str(out, "[");
    let ghost start = out@;
    push_str(out, "\n    ");
    let c = chars_of(addrs[0].as_str());
    push_quoted(out, &c);
    assert(a.subrange(0, 1).len() == 1);
    assert(out@ =~= start + pretty_texts(a.subrange(0, 1)));
    let mut i: usize = 1;
    while i < addrs.len()
        invariant
            1 <= i <= addrs@.len(),
            a == views(addrs@),
            out@ == start + pretty_texts(a.subrange(0, i as int)),
        decreases addrs@.len() - i,
    {
        assert(a.subrange(0, i as int + 1).drop_last() =~= a.subrange(0, i as int));
        push_str(out, ",");
        push_str(out, "\n    ");
        let c = chars_of(addrs[i].as_str());
        push_quoted(out, &c);
        i = i + 1;
        assert(out@ =~= start + pretty_texts(a.subrange(0, i as int)));
    }
    assert(a.subrange(0, i as int) =~= a);
    push_str(out, "\n  ]");
    assert(out@ =~= old(out)@ + local_address(a));
}

/// `s` as a JSON string literal.
fn quoted_chars(s: &Vec<char>) -> (r: Vec<char>)
    ensures
        r@ == quoted(s@),
{
    let mut r: Vec<char> = Vec::new();
    push_quoted(&mut r, s);
    assert(r@ =~= quoted(s@));
    r
}

/// The decimal text of `n`.
fn decimal_chars(n: u64) -> (r: Vec<char>)
    ensures
        r@ == decimal(n as nat),
{
    let mut r: Vec<char> = Vec::new();
    push_decimal(&mut r, n);
    assert(r@ =~= decimal(n as nat));
    r
}

/// Appends the first member of a pretty-printed object, whose value's text
/// the caller renders.
fn push_pretty_first(
    out: &mut Vec<char>,
    Ghost(f): Ghost<Seq<(Seq<char>, JsonLeaf)>>,
    key: &str,
    value: &Vec<char>,
)
    requires
        1 <= f.len(),
        f[0].0 == key@,
        pretty_leaf(f[0].1) == value@,
    ensures
        final(out)@ == old(out)@ + pretty_members(f.subrange(0, 1)),
{
    push_str(out, "\n  ");
    push_quoted(out, &chars_of(key));
    push_str(out, ": ");
    push_chars(out, value);
    assert(f.subrange(0, 1).len() == 1 && f.subrange(0, 1)[0] == f[0]);
    assert(out@ =~= old(out)@ + pretty_members(f.subrange(0, 1)));
}

/// Appends the member `k` of a pretty-printed object after the `k` before it.
fn push_pretty_next(
    out: &mut Vec<char>,
    Ghost(f): Ghost<Seq<(Seq<char>, JsonLeaf)>>,
    Ghost(k): Ghost<int>,
    Ghost(start): Ghost<Seq<char>>,
    key: &str,
    value: &Vec<char>,
)
    requires
        1 <= k < f.len(),
        f[k].0 == key@,
        pretty_leaf(f[k].1) == value@,
        old(out)@ == start + pretty_members(f.subrange(0, k)),
    ensures
        final(out)@ == start + pretty_members(f.subrange(0, k + 1)),
{
    push_str(out, ",");
    push_str(out, "\n  ");
    push_quoted(out, &chars_of(key));
    push_str(out, ": ");
    push_chars(out, value);
    proof {
        lemma_pretty_step(f, k);
    }
    assert(out@ =~= start + pretty_members(f.subrange(0, k + 1)));
}

/// Appends the first member of a compact object.
fn push_compact_first(
    out: &mut Vec<char>,
    Ghost(f): Ghost<Seq<(Seq<char>, JsonLeaf)>>,
    key: &str,
    value: &Vec<char>,
)
    requires
        1 <= f.len(),
        f[0].0 == key@,
        compact_leaf(f[0].1) == value@,
    ensures
        final(out)@ == old(out)@ + compact_members(f.subrange(0, 1)),
{
    push_quoted(out, &chars_of(key));
    push_str(out, ":");
    push_chars(out, value);
    assert(f.subrange(0, 1).len() == 1 && f.subrange(0, 1)[0] == f[0]);
    assert(out@ =~= old(out)@ + compact_members(f.subrange(0, 1)));
}

/// Appends the member `k` of a compact object after the `k` before it.
fn push_compact_next(
    out: &mut Vec<char>,
    Ghost(f): Ghost<Seq<(Seq<char>, JsonLeaf)>>,
    Ghost(k): Ghost<int>,
    Ghost(start): Ghost<Seq<char>>,
    key: &str,
    value: &Vec<char>,
)
    requires
        1 <= k < f.len(),
        f[k].0 == key@,
        compact_leaf(f[k].1) == value@,
        old(out)@ == start + compact_members(f.subrange(0, k)),
    ensures
        final(out)@ == start + compact_members(f.subrange(0, k + 1)),
{
    push_str(out, ",");
    push_quoted(out, &chars_of(key));
    push_str(out, ":");
    push_chars(out, value);
    proof {
        lemma_compact_step(f, k);
    }
    assert(out@ =~= start + compact_members(f.subrange(0, k + 1)));
}

fn cs_document_chars(config: &WgConfig, mtu: u16, endpoint: &ParsedEndpoint) -> (r: Vec<char>)
    ensures
        r@ == cs_document(config@, mtu, endpoint.host@, endpoint.port),
{
    let ghost f = cs_fields(config@, mtu, endpoint.host@, endpoint.port);
    let mut local: Vec<char> = Vec::new();
    push_local_address(&mut local, &config.addresses);
    let mut out: Vec<char> = Vec::new();
    push_str(&mut out, "{");
    let ghost start = out@;
    push_pretty_first(&mut out, Ghost(f), "interface_name", &quoted_chars(&chars_of("WARP")));
    push_pretty_next(&mut out, Ghost(f), Ghost(1), Ghost(start), "local_address", &local);
    push_pretty_next(&mut out, Ghost(f), Ghost(2), Ghost(start), "mtu", &decimal_chars(mtu as u64));
    let public_key = quoted_chars(&chars_of(config.public_key.as_str()));
    push_pretty_next(&mut out, Ghost(f), Ghost(3), Ghost(start), "peer_public_key", &public_key);
    let private_key = quoted_chars(&chars_of(config.private_key.as_str()));
    push_pretty_next(&mut out, Ghost(f), Ghost(4), Ghost(start), "private_key", &private_key);
    let server = quoted_chars(&chars_of(endpoint.host.as_str()));
    push_pretty_next(&mut out, Ghost(f), Ghost(5), Ghost(start), "server", &server);
    let port = decimal_chars(endpoint.port as u64);
    push_pretty_next(&mut out, Ghost(f), Ghost(6), Ghost(start), "server_port", &port);
    let no = chars_of("false");
    push_pretty_next(&mut out, Ghost(f), Ghost(7), Ghost(start), "system_interface", &no);
    let tag = quoted_chars(&chars_of("proxy"));
    push_pretty_next(&mut out, Ghost(f), Ghost(8), Ghost(start), "tag", &tag);
    let kind = quoted_chars(&chars_of("wireguard"));
    push_pretty_next(&mut out, Ghost(f), Ghost(9), Ghost(start), "type", &kind);
    assert(f.subrange(0, 10) =~= f);
    push_str(&mut out, "\n}");
    assert(out@ =~= cs_document(config@, mtu, endpoint.host@, endpoint.port));
    out
}

fn display_name_chars(endpoint: &ParsedEndpoint, prefix: &str) -> (r: Vec<char>)
    ensures
        r@ == display_name_spec(prefix@, endpoint.host@, endpoint.kind, endpoint.port),
{
    let mut out: Vec<char> = Vec::new();
    if prefix.unicode_len() > 0 {
        push_str(&mut out, prefix);
        push_str(&mut out, "_");
    }
    let ghost after_prefix = out@;
    assert(after_prefix =~= name_prefix(prefix@));
    if endpoint.kind == HostKind::IPv6 {
        push_str(&mut out, "[");
        push_str(&mut out, endpoint.host.as_str());
        push_str(&mut out, "]");
    } else {
        push_str(&mut out, endpoint.host.as_str());
    }
    assert(out@ =~= after_prefix + display_host(endpoint.host@, endpoint.kind));
    push_str(&mut out, ":");
    push_decimal(&mut out, endpoint.port as u64);
    assert(out@ =~= display_name_spec(prefix@, endpoint.host@, endpoint.kind, endpoint.port));
    out
}

/// The name a node shows: the prefix and `_` where a prefix is given, then
/// the host (an IPv6 one in brackets), `:` and the port.
pub fn display_name(endpoint: &ParsedEndpoint, prefix: &str) -> (r: String)
    ensures
        r@ == display_name_spec(prefix@, endpoint.host@, endpoint.kind, endpoint.port),
{
    to_string(&display_name_chars(endpoint, prefix))
}

/// The JSON payload of the node for `endpoint`.
pub fn payload(config: &WgConfig, mtu: u16, endpoint: &ParsedEndpoint, prefix: &str) -> (r: String)
    ensures
        r@ == payload_spec(config@, mtu, endpoint.view(), prefix@),
{
    let ghost f = payload_fields(config@, mtu, endpoint.view(), prefix@);
    let cs = quoted_chars(&cs_document_chars(config, mtu, endpoint));
    let name = quoted_chars(&display_name_chars(endpoint, prefix));
    let mut cmd: Vec<char> = Vec::new();
    push_str(&mut cmd, "[");
    push_quoted(&mut cmd, &Vec::new());
    push_str(&mut cmd, "]");
    assert(seq![Seq::<char>::empty()].len() == 1);
    assert(cmd@ =~= compact_leaf(JsonLeaf::TextList(seq![Seq::<char>::empty()])));
    let zero = decimal_chars(0);
    let mut out: Vec<char> = Vec::new();
    push_str(&mut out, "{");
    let ghost start = out@;
    push_compact_first(&mut out, Ghost(f), "_v", &zero);
    let addr = quoted_chars(&chars_of("127.0.0.1"));
    push_compact_next(&mut out, Ghost(f), Ghost(1), Ghost(start), "addr", &addr);
    push_compact_next(&mut out, Ghost(f), Ghost(2), Ghost(start), "cmd", &cmd);
    let core = quoted_chars(&chars_of("internal"));
    push_compact_next(&mut out, Ghost(f), Ghost(3), Ghost(start), "core", &core);
    push_compact_next(&mut out, Ghost(f), Ghost(4), Ghost(start), "cs", &cs);
    push_compact_next(&mut out, Ghost(f), Ghost(5), Ghost(start), "mapping_port", &zero);
    push_compact_next(&mut out, Ghost(f), Ghost(6), Ghost(start), "name", &name);
    let port = decimal_chars(1080);
    push_compact_next(&mut out, Ghost(f), Ghost(7), Ghost(start), "port", &port);
    push_compact_next(&mut out, Ghost(f), Ghost(8), Ghost(start), "socks_port", &zero);
    assert(f.subrange(0, 9) =~= f);
    push_str(&mut out, "}");
    assert(out@ =~= payload_spec(config@, mtu, endpoint.view(), prefix@));
    to_string(&out)
}

/// The finished node for `endpoint`: its name, and the payload in base64
/// behind the `nekoray://custom#` scheme.
pub fn render_link(
    config: &WgConfig,
    mtu: u16,
    endpoint: &ParsedEndpoint,
    prefix: &str,
) -> (r: LinkRecord)
    ensures
        r.display_name@ == display_name_spec(prefix@, endpoint.host@, endpoint.kind, endpoint.port),
        r.uri@ == uri_spec(payload_spec(config@, mtu, endpoint.view(), prefix@)),
{
    let body = payload(config, mtu, endpoint, prefix);
    let encoded = encode_base64(body.as_str());
    let mut uri: Vec<char> = Vec::new();
    push_str(&mut uri, "nekoray://custom#");
    push_str(&mut uri, encoded.as_str());
    LinkRecord { display_name: display_name(endpoint, prefix), uri: to_string(&uri) }
}

/// With exactly one address, `local_address` is that address as a single
/// JSON string, not an array.
pub proof fn lemma_one_address_is_scalar(addrs: Seq<Seq<char>>)
    requires
        addrs.len() == 1,
    ensures
        local_address(addrs) == quoted(addrs[0]),
        local_address(addrs)[0] == '"',
{
}

proof fn lemma_pretty_texts_concat(x: Seq<Seq<char>>, y: Seq<Seq<char>>)
    requires
        x.len() >= 1,
        y.len() >= 1,
    ensures
        pretty_texts(x + y) == pretty_texts(x) + ","@ + pretty_texts(y),
    decreases y.len(),
{
    let z = x + y;
    assert(z.drop_last() =~= x + y.drop_last());
    assert(z.last() == y.last());
    if y.len() == 1 {
        assert(x + y.drop_last() =~= x);
        assert(y[0] == y.last());
        assert(pretty_texts(z) =~= pretty_texts(x) + ","@ + pretty_texts(y));
    } else {
        lemma_pretty_texts_concat(x, y.drop_last());
        assert(pretty_texts(z) =~= pretty_texts(x) + ","@ + pretty_texts(y));
    }
}

/// With two or more addresses, `local_address` is a JSON array of them, each
/// on its own line: cut at any position, it holds the addresses before it,
/// a comma, then those after it, in the order they were found.
pub proof fn lemma_several_addresses_form_array(addrs: Seq<Seq<char>>, k: int)
    requires
        addrs.len() >= 2,
        1 <= k < addrs.len(),
    ensures
        local_address(addrs) == "["@ + pretty_texts(addrs) + "\n  ]"@,
        pretty_texts(addrs) == pretty_texts(addrs.subrange(0, k)) + ","@ + pretty_texts(
            addrs.subrange(k, addrs.len() as int),
        ),
{
    assert(addrs =~= addrs.subrange(0, k) + addrs.subrange(k, addrs.len() as int));
    lemma_pretty_texts_concat(addrs.subrange(0, k), addrs.subrange(k, addrs.len() as int));
}

/// A link's payload is a JSON object: the compact text of its members. Its
/// `cs` member is a JSON string whose content, once decoded, is exactly the
/// WireGuard outbound as a pretty-printed JSON object; its `name` member
/// decodes to the display name.
pub proof fn lemma_payload_is_json(
    config: ConfigView,
    mtu: u16,
    endpoint: (Seq<char>, HostKind, u16),
    prefix: Seq<char>,
)
    ensures
        payload_spec(config, mtu, endpoint, prefix) == compact_object(
            payload_fields(config, mtu, endpoint, prefix),
        ),
        payload_fields(config, mtu, endpoint, prefix)[4] == ("cs"@, JsonLeaf::Text(
            pretty_object(cs_fields(config, mtu, endpoint.0, endpoint.2)),
        )),
        unescape(escape(cs_document(config, mtu, endpoint.0, endpoint.2))) == Some(
            pretty_object(cs_fields(config, mtu, endpoint.0, endpoint.2)),
        ),
        unescape(escape(display_name_spec(prefix, endpoint.0, endpoint.1, endpoint.2))) == Some(
            display_name_spec(prefix, endpoint.0, endpoint.1, endpoint.2),
        ),
{
    lemma_escape_round_trip(cs_document(config, mtu, endpoint.0, endpoint.2));
    lemma_escape_round_trip(display_name_spec(prefix, endpoint.0, endpoint.1, endpoint.2));
}

} // verus!
