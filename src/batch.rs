//! Turning a list of endpoint tokens into links: tokens that do not parse are
//! skipped and reported, never fatal.

use vstd::prelude::*;
use crate::config::ConfigView;
use crate::endpoint::{parse_endpoint, parse_spec, RejectReason};
use crate::host::HostMatchers;
use crate::link::{BaseInfo, display_name_spec, payload_spec, render_link, uri_spec, LinkRecord};
use crate::text::views;

verus! {

/// What became of one token.
pub enum ItemOutcome {
    /// A link was made; the node's display name.
    Generated(String),
    /// The token was skipped, for this reason.
    Skipped(RejectReason),
}

impl ItemOutcome {
    pub open spec fn view(&self) -> Result<Seq<char>, RejectReason> {
        match self {
            ItemOutcome::Generated(n) => Ok(n@),
            ItemOutcome::Skipped(e) => Err(*e),
        }
    }
}

impl LinkRecord {
    pub open spec fn view(&self) -> (Seq<char>, Seq<char>) {
        (self.display_name@, self.uri@)
    }
}

/// The links of a batch and the outcome of each token, in input order.
pub struct BatchReport {
    pub links: Vec<LinkRecord>,
    pub outcomes: Vec<ItemOutcome>,
}

pub open spec fn record_views(v: Seq<LinkRecord>) -> Seq<(Seq<char>, Seq<char>)> {
    v.map_values(|l: LinkRecord| l.view())
}

/// The record for one parsed endpoint.
pub open spec fn record_spec(
    config: ConfigView,
    mtu: u16,
    e: (Seq<char>, crate::host::HostKind, u16),
    prefix: Seq<char>,
) -> (Seq<char>, Seq<char>) {
    (display_name_spec(prefix, e.0, e.1, e.2), uri_spec(payload_spec(config, mtu, e, prefix)))
}

/// The records of the tokens that parse, in their order.
pub open spec fn links_spec(
    tokens: Seq<Seq<char>>,
    prefix: Seq<char>,
    config: ConfigView,
    mtu: u16,
) -> Seq<(Seq<char>, Seq<char>)>
    decreases tokens.len(),
{
    if tokens.len() == 0 {
        Seq::empty()
    } else {
        let before = links_spec(tokens.drop_last(), prefix, config, mtu);
        match parse_spec(tokens.last()) {
            Ok(e) => before.push(record_spec(config, mtu, e, prefix)),
            Err(_) => before,
        }
    }
}

/// What is reported for one token: the display name, or why it was skipped.
pub open spec fn outcome_spec(token: Seq<char>, prefix: Seq<char>) -> Result<
    Seq<char>,
    RejectReason,
> {
    match parse_spec(token) {
        Ok(e) => Ok(display_name_spec(prefix, e.0, e.1, e.2)),
        Err(r) => Err(r),
    }
}

/// Parses and renders each token in turn.
pub fn generate_nekoray_node(
    tokens: &Vec<String>,
    prefix: &str,
    base: &BaseInfo,
    matchers: &HostMatchers,
) -> (r: BatchReport)
    requires
        matchers.wf(),
    ensures
        record_views(r.links@) == links_spec(views(tokens@), prefix@, base.config@, base.mtu),
        r.outcomes@.len() == tokens@.len(),
        forall|i: int|
            0 <= i < tokens@.len() ==> (#[trigger] r.outcomes@[i]).view() == outcome_spec(
                tokens@[i]@,
                prefix@,
            ),
{
    let config = &base.config;
    let mtu = base.mtu;
    let mut links: Vec<LinkRecord> = Vec::new();
    let mut outcomes: Vec<ItemOutcome> = Vec::new();
    let ghost t = views(tokens@);
    let mut i: usize = 0;
    assert(t.subrange(0, 0) =~= Seq::<Seq<char>>::empty());
    assert(record_views(links@) =~= Seq::<(Seq<char>, Seq<char>)>::empty());
    while i < tokens.len()
        invariant
            i <= tokens@.len(),
            matchers.wf(),
            t == views(tokens@),
            record_views(links@) == links_spec(t.subrange(0, i as int), prefix@, config@, mtu),
            outcomes@.len() == i,
            forall|j: int|
                0 <= j < i ==> (#[trigger] outcomes@[j]).view() == outcome_spec(
                    tokens@[j]@,
                    prefix@,
                ),
        decreases tokens@.len() - i,
    {
        assert(t.subrange(0, i as int + 1).drop_last() =~= t.subrange(0, i as int));
        assert(t.subrange(0, i as int + 1).last() == tokens@[i as int]@);
        let ghost before = record_views(links@);
        match parse_endpoint(tokens[i].as_str(), matchers) {
            Ok(e) => {
                let rec = render_link(config, mtu, &e, prefix);
                let name = rec.display_name.clone();
                links.push(rec);
                assert(record_views(links@) =~= before.push(record_spec(config@, mtu, e.view(), prefix@)));
                outcomes.push(ItemOutcome::Generated(name));
            },
            Err(reason) => {
                outcomes.push(ItemOutcome::Skipped(reason));
            },
        }
        i = i + 1;
    }
    assert(t.subrange(0, i as int) =~= t);
    BatchReport { links, outcomes }
}

} // verus!
