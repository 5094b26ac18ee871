use vstd::prelude::*;
use crate::json::{decimal_text, json_quote, number_json, quote_json};
use crate::query::{error_response, error_text, lemma_quote_prefix};
use crate::json::decimal_digit;

verus! {

/// Process-wide settings of the light client.
#[derive(Clone, Debug)]
pub struct Config {
    /// Where the local store lives.
    pub avail_path: String,
    /// Address of the full node.
    pub full_node_ws: String,
    /// The application the client follows, if any.
    pub app_id: Option<u32>,
}

/// Identity of the full node the client is connected to.
#[derive(Clone, Debug)]
pub struct ConnectedNode {
    pub host: String,
    pub system_version: String,
    pub spec_version: u32,
    pub genesis_hash: String,
}

/// Counters read from the store: the latest block seen and the range of
/// blocks whose data was verified, first and last.
#[derive(Clone, Debug)]
pub struct BlockCounters {
    pub latest: u32,
    pub available: Option<(u32, u32)>,
}

/// A number, or `null` where there is none.
pub open spec fn optional_number_text(n: Option<u32>) -> Seq<char> {
    match n {
        Some(v) => decimal_text(v as nat),
        None => "null"@,
    }
}

/// A block range as `{"first":a,"last":b}`, or `null` where there is none.
pub open spec fn range_text(range: Option<(u32, u32)>) -> Seq<char> {
    match range {
        Some((first, last)) => "{\"first\":"@ + decimal_text(first as nat) + ",\"last\":"@
            + decimal_text(last as nat) + "}"@,
        None => "null"@,
    }
}

/// How the connected network is named: host, system version and runtime
/// version, joined by `/`.
pub open spec fn network_text(node: ConnectedNode) -> Seq<char> {
    node.host@ + "/"@ + node.system_version@ + "/"@ + decimal_text(node.spec_version as nat)
}

/// The JSON text of the status built from the settings, the node and the
/// store's counters.
pub open spec fn status_text(cfg: Config, node: ConnectedNode, blocks: BlockCounters) -> Seq<char> {
    "{\"app_id\":"@ + optional_number_text(cfg.app_id) + ",\"genesis_hash\":"@ + json_quote(
        node.genesis_hash@,
    ) + ",\"network\":"@ + json_quote(network_text(node)) + ",\"blocks\":{\"latest\":"@
        + decimal_text(blocks.latest as nat) + ",\"available\":"@ + range_text(blocks.available)
        + "}}"@
}

fn optional_number_response(n: Option<u32>) -> (r: String)
    ensures
        r@ == optional_number_text(n),
{
    match n {
        Some(v) => number_json(v),
        None => String::from_str("null"),
    }
}

fn range_response(range: Option<(u32, u32)>) -> (r: String)
    ensures
        r@ == range_text(range),
{
    match range {
        Some((first, last)) => {
            let mut r = String::from_str("{\"first\":");
            r.append(number_json(first).as_str());
            r.append(",\"last\":");
            r.append(number_json(last).as_str());
            r.append("}");
            r
        },
        None => String::from_str("null"),
    }
}

fn network_response(node: &ConnectedNode) -> (r: String)
    ensures
        r@ == network_text(*node),
{
    let mut r = node.host.clone();
    r.append("/");
    r.append(node.system_version.as_str());
    r.append("/");
    r.append(number_json(node.spec_version).as_str());
    r
}

/// The status snapshot as JSON, built fresh from the settings, the connected
/// node and the store's counters.
pub fn get_startus_v2(cfg: &Config, node: &ConnectedNode, blocks: &BlockCounters) -> (r: String)
    ensures
        r@ == status_text(*cfg, *node, *blocks),
{
    let mut r = String::from_str("{\"app_id\":");
    r.append(optional_number_response(cfg.app_id).as_str());
    r.append(",\"genesis_hash\":");
    r.append(quote_json(node.genesis_hash.as_str()).as_str());
    r.append(",\"network\":");
    let network = network_response(node);
    r.append(quote_json(network.as_str()).as_str());
    r.append(",\"blocks\":{\"latest\":");
    r.append(number_json(blocks.latest).as_str());
    r.append(",\"available\":");
    r.append(range_response(blocks.available).as_str());
    r.append("}}");
    r
}

/// Answer of a status query, given what was read of the store and the full
/// node: the status text, or the envelope of the failure's cause where the
/// store could not be opened or the node could not be reached.
pub fn status_response(cfg: &Config, read: Result<(ConnectedNode, BlockCounters), String>) -> (r: String)
    ensures
        match read {
            Ok((node, blocks)) => r@ == status_text(*cfg, node, blocks),
            Err(cause) => r@ == error_text(cause@),
        },
        r@.len() > 0,
{
    proof {
        reveal_strlit("{\"app_id\":");
        reveal_strlit("{\"message\":");
    }
    match read {
        Ok((node, blocks)) => get_startus_v2(cfg, &node, &blocks),
        Err(cause) => error_response(cause.as_str()),
    }
}

spec fn is_digit(c: char) -> bool {
    '0' <= c && c <= '9'
}

proof fn lemma_decimal_shape(n: nat)
    ensures
        decimal_text(n).len() >= 1,
        n < 10 <==> decimal_text(n).len() == 1,
        forall|i: int| 0 <= i < decimal_text(n).len() ==> is_digit(#[trigger] decimal_text(n)[i]),
    decreases n,
{
    if n >= 10 {
        lemma_decimal_shape(n / 10);
    }
}

proof fn lemma_decimal_digit_injective(x: nat, y: nat)
    requires
        x < 10,
        y < 10,
        decimal_digit(x) == decimal_digit(y),
    ensures
        x == y,
{
}

proof fn lemma_decimal_injective(x: nat, y: nat)
    requires
        decimal_text(x) == decimal_text(y),
    ensures
        x == y,
    decreases x,
{
    lemma_decimal_shape(x);
    lemma_decimal_shape(y);
    let t = decimal_text(x);
    if x >= 10 {
        assert(y >= 10);
        assert(decimal_text(x / 10) =~= t.drop_last());
        assert(decimal_text(y / 10) =~= t.drop_last());
        assert(t.last() == decimal_digit(x % 10));
        assert(t.last() == decimal_digit(y % 10));
        lemma_decimal_digit_injective(x % 10, y % 10);
        lemma_decimal_injective(x / 10, y / 10);
    } else {
        assert(y < 10);
        assert(t[0] == decimal_digit(x) && t[0] == decimal_digit(y));
        lemma_decimal_digit_injective(x, y);
    }
}

/// A number ends where its digits end: a text that starts with one and goes
/// on with something else reads back as that number and the same rest.
proof fn lemma_decimal_prefix(a: nat, b: nat, x: Seq<char>, y: Seq<char>)
    requires
        decimal_text(a) + x == decimal_text(b) + y,
        x.len() > 0 && !is_digit(x[0]),
        y.len() > 0 && !is_digit(y[0]),
    ensures
        a == b,
        x == y,
{
    lemma_decimal_shape(a);
    lemma_decimal_shape(b);
    let da = decimal_text(a);
    let db = decimal_text(b);
    let t = da + x;
    if da.len() < db.len() {
        assert(t[da.len() as int] == x[0]);
        assert(t[da.len() as int] == db[da.len() as int]);
    } else if db.len() < da.len() {
        assert(t[db.len() as int] == y[0]);
        assert(t[db.len() as int] == da[db.len() as int]);
    } else {
        assert(da =~= t.subrange(0, da.len() as int));
        assert(db =~= t.subrange(0, da.len() as int));
        lemma_decimal_injective(a, b);
        assert(x =~= t.subrange(da.len() as int, t.len() as int));
        assert(y =~= t.subrange(da.len() as int, t.len() as int));
    }
}

/// Reads an optional number off the front of a text that goes on with a
/// character that is neither a digit nor `n`.
proof fn lemma_optional_number_prefix(a: Option<u32>, b: Option<u32>, x: Seq<char>, y: Seq<char>)
    requires
        optional_number_text(a) + x == optional_number_text(b) + y,
        x.len() > 0 && !is_digit(x[0]),
        y.len() > 0 && !is_digit(y[0]),
    ensures
        a == b,
        x == y,
{
    reveal_strlit("null");
    let t = optional_number_text(a) + x;
    match (a, b) {
        (Some(v), Some(w)) => {
            lemma_decimal_prefix(v as nat, w as nat, x, y);
        },
        (Some(v), None) => {
            lemma_decimal_shape(v as nat);
            assert(t[0] == decimal_text(v as nat)[0]);
            assert(t[0] == 'n');
        },
        (None, Some(w)) => {
            lemma_decimal_shape(w as nat);
            assert(t[0] == 'n');
            assert((optional_number_text(b) + y)[0] == decimal_text(w as nat)[0]);
        },
        (None, None) => {
            assert(x =~= t.subrange(4, t.len() as int));
            assert(y =~= t.subrange(4, t.len() as int));
        },
    }
}

/// A literal at the front of two equal texts leaves equal rests.
proof fn lemma_literal_prefix(l: Seq<char>, x: Seq<char>, y: Seq<char>)
    requires
        l + x == l + y,
    ensures
        x == y,
{
    assert(x =~= (l + x).subrange(l.len() as int, (l + x).len() as int));
    assert(y =~= (l + y).subrange(l.len() as int, (l + y).len() as int));
}

proof fn lemma_status_shape(cfg: Config, node: ConnectedNode, blocks: BlockCounters)
    ensures
        status_text(cfg, node, blocks) == "{\"app_id\":"@ + (optional_number_text(cfg.app_id) + (
        ",\"genesis_hash\":"@ + (json_quote(node.genesis_hash@) + (",\"network\":"@ + (json_quote(
        network_text(node)) + (",\"blocks\":{\"latest\":"@ + (decimal_text(blocks.latest as nat) + (
        ",\"available\":"@ + (range_text(blocks.available) + "}}"@))))))))),
{
    assert(status_text(cfg, node, blocks) =~= "{\"app_id\":"@ + (optional_number_text(cfg.app_id) + (
        ",\"genesis_hash\":"@ + (json_quote(node.genesis_hash@) + (",\"network\":"@ + (json_quote(
        network_text(node)) + (",\"blocks\":{\"latest\":"@ + (decimal_text(blocks.latest as nat) + (
        ",\"available\":"@ + (range_text(blocks.available) + "}}"@))))))))));
}

/// The status text reads back as what it was built from: two snapshots with
/// one text agree on the application, the genesis hash, the network's name,
/// the latest block and the range of verified blocks.
pub proof fn lemma_status_round_trip(
    cfg: Config,
    node: ConnectedNode,
    blocks: BlockCounters,
    cfg2: Config,
    node2: ConnectedNode,
    blocks2: BlockCounters,
)
    requires
        status_text(cfg, node, blocks) == status_text(cfg2, node2, blocks2),
    ensures
        cfg.app_id == cfg2.app_id,
        node.genesis_hash@ == node2.genesis_hash@,
        network_text(node) == network_text(node2),
        blocks.latest == blocks2.latest,
        blocks.available == blocks2.available,
{
    reveal_strlit(",\"genesis_hash\":");
    reveal_strlit(",\"network\":");
    reveal_strlit(",\"blocks\":{\"latest\":");
    reveal_strlit(",\"available\":");
    let l1 = "{\"app_id\":"@;
    let l2 = ",\"genesis_hash\":"@;
    let l3 = ",\"network\":"@;
    let l4 = ",\"blocks\":{\"latest\":"@;
    let l5 = ",\"available\":"@;
    let l6 = "}}"@;
    // the rest after the range
    let r5a = range_text(blocks.available) + l6;
    let r5b = range_text(blocks2.available) + l6;
    let r4a = decimal_text(blocks.latest as nat) + (l5 + r5a);
    let r4b = decimal_text(blocks2.latest as nat) + (l5 + r5b);
    let r3a = json_quote(network_text(node)) + (l4 + r4a);
    let r3b = json_quote(network_text(node2)) + (l4 + r4b);
    let r2a = json_quote(node.genesis_hash@) + (l3 + r3a);
    let r2b = json_quote(node2.genesis_hash@) + (l3 + r3b);
    let r1a = optional_number_text(cfg.app_id) + (l2 + r2a);
    let r1b = optional_number_text(cfg2.app_id) + (l2 + r2b);
    lemma_status_shape(cfg, node, blocks);
    lemma_status_shape(cfg2, node2, blocks2);
    lemma_literal_prefix(l1, r1a, r1b);
    lemma_optional_number_prefix(cfg.app_id, cfg2.app_id, l2 + r2a, l2 + r2b);
    lemma_literal_prefix(l2, r2a, r2b);
    lemma_quote_prefix(node.genesis_hash@, node2.genesis_hash@, l3 + r3a, l3 + r3b);
    lemma_literal_prefix(l3, r3a, r3b);
    lemma_quote_prefix(network_text(node), network_text(node2), l4 + r4a, l4 + r4b);
    lemma_literal_prefix(l4, r4a, r4b);
    lemma_decimal_prefix(blocks.latest as nat, blocks2.latest as nat, l5 + r5a, l5 + r5b);
    lemma_literal_prefix(l5, r5a, r5b);
    lemma_range_prefix(blocks.available, blocks2.available, l6);
}

proof fn lemma_range_prefix(a: Option<(u32, u32)>, b: Option<(u32, u32)>, l6: Seq<char>)
    requires
        l6 == "}}"@,
        range_text(a) + l6 == range_text(b) + l6,
    ensures
        a == b,
{
    reveal_strlit("}}");
    reveal_strlit("null");
    reveal_strlit("{\"first\":");
    reveal_strlit(",\"last\":");
    reveal_strlit("}");
    let f = "{\"first\":"@;
    let m = ",\"last\":"@;
    let e = "}"@;
    let t = range_text(a) + l6;
    match (a, b) {
        (Some((p, q)), Some((v, w))) => {
            let ta = f + (decimal_text(p as nat) + (m + (decimal_text(q as nat) + (e + l6))));
            let tb = f + (decimal_text(v as nat) + (m + (decimal_text(w as nat) + (e + l6))));
            assert(t =~= ta);
            assert(range_text(b) + l6 =~= tb);
            lemma_literal_prefix(f, decimal_text(p as nat) + (m + (decimal_text(q as nat) + (e + l6))),
                decimal_text(v as nat) + (m + (decimal_text(w as nat) + (e + l6))));
            lemma_decimal_prefix(p as nat, v as nat, m + (decimal_text(q as nat) + (e + l6)),
                m + (decimal_text(w as nat) + (e + l6)));
            lemma_literal_prefix(m, decimal_text(q as nat) + (e + l6), decimal_text(w as nat) + (e + l6));
            lemma_decimal_prefix(q as nat, w as nat, e + l6, e + l6);
        },
        (Some(_), None) => {
            assert(t[0] == '{');
            assert((range_text(b) + l6)[0] == 'n');
        },
        (None, Some(_)) => {
            assert(t[0] == 'n');
            assert((range_text(b) + l6)[0] == '{');
        },
        (None, None) => {},
    }
}

/// Status queries are idempotent: against unchanged settings, node and store
/// two queries answer the same text.
pub proof fn lemma_status_idempotent(
    cfg: Config,
    node: ConnectedNode,
    blocks: BlockCounters,
    cfg2: Config,
    node2: ConnectedNode,
    blocks2: BlockCounters,
)
    requires
        cfg.app_id == cfg2.app_id,
        node.host@ == node2.host@,
        node.system_version@ == node2.system_version@,
        node.spec_version == node2.spec_version,
        node.genesis_hash@ == node2.genesis_hash@,
        blocks.latest == blocks2.latest,
        blocks.available == blocks2.available,
    ensures
        status_text(cfg, node, blocks) == status_text(cfg2, node2, blocks2),
{
}

} // verus!
