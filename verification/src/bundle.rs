//! Bundle request types and their wire encodings: the camelCase JSON objects
//! posted to the relay, with optional members omitted entirely when unset.

use vstd::prelude::*;
use vstd::string::*;
use crate::text::{dec_of, hex_digit_char, hex_of, hex_value, is_hex_digit, hex_digit_str,
    lemma_hex_of, parse_hex_u64, str_eq, u64_to_dec, u64_to_hex};

verus! {

/// A 32-byte transaction hash, as carried in a bundle's `txs` list.
#[derive(Clone, Copy, Debug, PartialEq, Eq)]
pub struct BundleHash {
    pub bytes: [u8; 32],
}

/// The state against which a simulation executes: the latest block, or a
/// specific block number.
#[derive(Clone, Copy, Debug, PartialEq, Eq, Structural)]
pub enum StateBlockNumber {
    Number(u64),
    Latest,
}

/// A bundle submission: ordered raw transactions, the target inclusion
/// block, an optional inclusion time window, and an optional allow-list of
/// transactions permitted to revert.
#[derive(Clone, Debug)]
pub struct SendBundleRequest {
    pub txs: Vec<BundleHash>,
    pub block_number: u64,
    pub min_timestamp: Option<u64>,
    pub max_timestamp: Option<u64>,
    pub reverting_tx_hashes: Option<Vec<BundleHash>>,
}

/// A bundle simulation: the same transactions and target block, plus the
/// state block to simulate against and an optional simulated timestamp.
#[derive(Clone, Debug)]
pub struct SimulateBundleRequest {
    pub txs: Vec<BundleHash>,
    pub block_number: u64,
    pub state_block_number: StateBlockNumber,
    pub timestamp: Option<u64>,
}

/// Two lowercase hex digits for one byte, high nibble first.
pub open spec fn hex_pair(b: u8) -> Seq<char> {
    seq![hex_digit_char((b / 16) as nat), hex_digit_char((b % 16) as nat)]
}

/// Lowercase hex rendering of a byte string, two digits per byte.
pub open spec fn hex_of_bytes(bs: Seq<u8>) -> Seq<char>
    decreases bs.len(),
{
    if bs.len() == 0 {
        Seq::empty()
    } else {
        hex_of_bytes(bs.drop_last()) + hex_pair(bs.last())
    }
}

/// A hash on the wire: a quoted `0x`-prefixed full-width hex string.
pub open spec fn quoted_hash(h: Seq<u8>) -> Seq<char> {
    "\"0x"@ + hex_of_bytes(h) + "\""@
}

/// The byte strings of a hash list.
pub open spec fn hashes(v: Seq<BundleHash>) -> Seq<Seq<u8>> {
    v.map_values(|h: BundleHash| h.bytes@)
}

/// Comma-separated quoted hashes, in list order.
pub open spec fn hash_list(hs: Seq<Seq<u8>>) -> Seq<char>
    decreases hs.len(),
{
    if hs.len() == 0 {
        Seq::empty()
    } else if hs.len() == 1 {
        quoted_hash(hs[0])
    } else {
        hash_list(hs.drop_last()) + seq![','] + quoted_hash(hs.last())
    }
}

/// A JSON array of quoted hashes.
pub open spec fn json_hash_array(hs: Seq<Seq<u8>>) -> Seq<char> {
    "["@ + hash_list(hs) + "]"@
}

/// A quoted minimal `0x`-prefixed hex number, as block numbers travel.
pub open spec fn quoted_hex(n: nat) -> Seq<char> {
    "\"0x"@ + hex_of(n) + "\""@
}

/// The string form of a state block number: `latest`, or minimal lowercase
/// hex with no prefix.
pub open spec fn state_block_str(b: StateBlockNumber) -> Seq<char> {
    match b {
        StateBlockNumber::Latest => "latest"@,
        StateBlockNumber::Number(n) => hex_of(n as nat),
    }
}

/// What parsing a state block number string yields: `latest` maps to
/// `Latest`, anything else must be base-sixteen with a value fitting `u64`.
pub open spec fn parse_state_block(s: Seq<char>) -> Option<StateBlockNumber> {
    if s == "latest"@ {
        Some(StateBlockNumber::Latest)
    } else if s.len() >= 1 && (forall|i: int| 0 <= i < s.len() ==> is_hex_digit(#[trigger] s[i]))
        && hex_value(s) <= u64::MAX {
        Some(StateBlockNumber::Number(hex_value(s) as u64))
    } else {
        None
    }
}

impl Default for StateBlockNumber {
    /// The default state to simulate against is the latest block.
    fn default() -> (r: Self)
        ensures
            r == StateBlockNumber::Latest,
    {
        StateBlockNumber::Latest
    }
}

impl StateBlockNumber {
    /// Renders the wire string form.
    pub fn serialize(&self) -> (r: String)
        ensures
            r@ == state_block_str(*self),
    {
        match self {
            StateBlockNumber::Latest => String::from_str("latest"),
            StateBlockNumber::Number(n) => u64_to_hex(*n),
        }
    }

    /// Parses the wire string form: the exact string `latest`, case
    /// sensitively, or a raw base-sixteen number with no `0x` prefix.
    pub fn deserialize(s: &str) -> (r: Option<Self>)
        ensures
            r == parse_state_block(s@),
    {
        if str_eq(s, "latest") {
            Some(StateBlockNumber::Latest)
        } else {
            match parse_hex_u64(s) {
                Some(n) => Some(StateBlockNumber::Number(n)),
                None => None,
            }
        }
    }
}

/// Serializing any state block number and parsing it back returns the very
/// value: the hex form of a number is never the string `latest`.
pub proof fn lemma_state_block_round_trip(b: StateBlockNumber)
    ensures
        parse_state_block(state_block_str(b)) == Some(b),
{
    match b {
        StateBlockNumber::Latest => {},
        StateBlockNumber::Number(n) => {
            lemma_hex_of(n as nat);
            assert(state_block_str(b) != "latest"@) by {
                reveal_strlit("latest");
                if hex_of(n as nat) == "latest"@ {
                    assert(is_hex_digit(hex_of(n as nat)[0]));
                    assert(hex_of(n as nat)[0] == 'l');
                }
            }
        },
    }
}

impl Default for SendBundleRequest {
    /// An empty bundle aimed at block zero, with every optional member
    /// unset.
    fn default() -> (r: Self)
        ensures
            r.txs@ == Seq::<BundleHash>::empty(),
            r.block_number == 0,
            r.min_timestamp is None,
            r.max_timestamp is None,
            r.reverting_tx_hashes is None,
    {
        SendBundleRequest {
            txs: Vec::new(),
            block_number: 0,
            min_timestamp: None,
            max_timestamp: None,
            reverting_tx_hashes: None,
        }
    }
}

impl SendBundleRequest {
    /// A bundle with the given transactions and target block, and every
    /// optional member unset.
    pub fn new(txs: Vec<BundleHash>, block_number: u64) -> (r: Self)
        ensures
            r.txs == txs,
            r.block_number == block_number,
            r.min_timestamp is None,
            r.max_timestamp is None,
            r.reverting_tx_hashes is None,
    {
        SendBundleRequest {
            txs,
            block_number,
            min_timestamp: None,
            max_timestamp: None,
            reverting_tx_hashes: None,
        }
    }

    /// Sets the earliest acceptable inclusion time.
    pub fn with_min_timestamp(self, min_timestamp: u64) -> (r: Self)
        ensures
            r == (SendBundleRequest { min_timestamp: Some(min_timestamp), ..self }),
    {
        SendBundleRequest { min_timestamp: Some(min_timestamp), ..self }
    }

    /// Sets the latest acceptable inclusion time.
    pub fn with_max_timestamp(self, max_timestamp: u64) -> (r: Self)
        ensures
            r == (SendBundleRequest { max_timestamp: Some(max_timestamp), ..self }),
    {
        SendBundleRequest { max_timestamp: Some(max_timestamp), ..self }
    }

    /// Sets the transactions permitted to revert.
    pub fn with_reverting_tx_hashes(self, reverting_tx_hashes: Vec<BundleHash>) -> (r: Self)
        ensures
            r == (SendBundleRequest {
                reverting_tx_hashes: Some(reverting_tx_hashes),
                ..self
            }),
    {
        SendBundleRequest { reverting_tx_hashes: Some(reverting_tx_hashes), ..self }
    }

    /// Renders the wire object.
    pub fn encode(&self) -> (r: String)
        ensures
            r@ == json_of_send(*self),
    {
        let mut out = String::from_str("{\"txs\":");
        append_hash_array(&mut out, &self.txs);
        out.append(",\"blockNumber\":\"0x");
        let bn = u64_to_hex(self.block_number);
        out.append(bn.as_str());
        out.append("\"");
        if let Some(t) = self.min_timestamp {
            out.append(",\"minTimestamp\":");
            let ts = u64_to_dec(t);
            out.append(ts.as_str());
        }
        if let Some(t) = self.max_timestamp {
            out.append(",\"maxTimestamp\":");
            let ts = u64_to_dec(t);
            out.append(ts.as_str());
        }
        if let Some(v) = &self.reverting_tx_hashes {
            out.append(",\"revertingTxHashes\":");
            append_hash_array(&mut out, v);
        }
        out.append("}");
        proof {
            assert(out@ =~= json_of_send(*self));
        }
        out
    }
}

impl SimulateBundleRequest {
    /// A simulation with the given transactions, target block and state
    /// block, and no timestamp override.
    pub fn new(txs: Vec<BundleHash>, block_number: u64, state_block_number: StateBlockNumber)
        -> (r: Self)
        ensures
            r.txs == txs,
            r.block_number == block_number,
            r.state_block_number == state_block_number,
            r.timestamp is None,
    {
        SimulateBundleRequest { txs, block_number, state_block_number, timestamp: None }
    }

    /// Sets the simulated execution time.
    pub fn timestamp(self, timestamp: u64) -> (r: Self)
        ensures
            r == (SimulateBundleRequest { timestamp: Some(timestamp), ..self }),
    {
        SimulateBundleRequest { timestamp: Some(timestamp), ..self }
    }

    /// The target inclusion block.
    pub fn block(&self) -> (r: u64)
        ensures
            r == self.block_number,
    {
        self.block_number
    }

    /// Replaces the state block to simulate against.
    pub fn state_block_number(self, state_block_number: StateBlockNumber) -> (r: Self)
        ensures
            r == (SimulateBundleRequest { state_block_number, ..self }),
    {
        SimulateBundleRequest { state_block_number, ..self }
    }

    /// Renders the wire object.
    pub fn encode(&self) -> (r: String)
        ensures
            r@ == json_of_sim(*self),
    {
        let mut out = String::from_str("{\"txs\":");
        append_hash_array(&mut out, &self.txs);
        out.append(",\"blockNumber\":\"0x");
        let bn = u64_to_hex(self.block_number);
        out.append(bn.as_str());
        out.append("\",\"stateBlockNumber\":\"");
        let sb = self.state_block_number.serialize();
        out.append(sb.as_str());
        out.append("\"");
        if let Some(t) = self.timestamp {
            out.append(",\"timestamp\":");
            let ts = u64_to_dec(t);
            out.append(ts.as_str());
        }
        out.append("}");
        proof {
            assert(out@ =~= json_of_sim(*self));
        }
        out
    }
}

/// The `eth_sendBundle` wire object: `txs` and `blockNumber` always, each
/// optional member only when set.
pub open spec fn json_of_send(r: SendBundleRequest) -> Seq<char> {
    "{\"txs\":"@ + json_hash_array(hashes(r.txs@)) + ",\"blockNumber\":\"0x"@
        + hex_of(r.block_number as nat) + "\""@ + (match r.min_timestamp {
        Some(t) => ",\"minTimestamp\":"@ + dec_of(t as nat),
        None => Seq::empty(),
    }) + (match r.max_timestamp {
        Some(t) => ",\"maxTimestamp\":"@ + dec_of(t as nat),
        None => Seq::empty(),
    }) + (match r.reverting_tx_hashes {
        Some(v) => ",\"revertingTxHashes\":"@ + json_hash_array(hashes(v@)),
        None => Seq::empty(),
    }) + "}"@
}

/// The `eth_callBundle` wire object: `txs`, `blockNumber` and
/// `stateBlockNumber` always, `timestamp` only when set.
pub open spec fn json_of_sim(r: SimulateBundleRequest) -> Seq<char> {
    "{\"txs\":"@ + json_hash_array(hashes(r.txs@)) + ",\"blockNumber\":\"0x"@
        + hex_of(r.block_number as nat) + "\",\"stateBlockNumber\":\""@
        + state_block_str(r.state_block_number) + "\""@ + (match r.timestamp {
        Some(t) => ",\"timestamp\":"@ + dec_of(t as nat),
        None => Seq::empty(),
    }) + "}"@
}

/// One `"key":value` member of a JSON object, `value` already rendered.
pub open spec fn kv(key: Seq<char>, val: Seq<char>) -> Seq<char> {
    seq!['"'] + key + "\":"@ + val
}

/// Comma-separated members, in order.
pub open spec fn join_fields(fs: Seq<(Seq<char>, Seq<char>)>) -> Seq<char>
    decreases fs.len(),
{
    if fs.len() == 0 {
        Seq::empty()
    } else if fs.len() == 1 {
        kv(fs[0].0, fs[0].1)
    } else {
        join_fields(fs.drop_last()) + seq![','] + kv(fs.last().0, fs.last().1)
    }
}

/// A JSON object holding exactly the given members, in order.
pub open spec fn json_object(fs: Seq<(Seq<char>, Seq<char>)>) -> Seq<char> {
    seq!['{'] + join_fields(fs) + seq!['}']
}

/// The members of the `eth_sendBundle` wire object: `txs` and `blockNumber`
/// always, each optional member exactly when it is set.
pub open spec fn send_bundle_fields(r: SendBundleRequest) -> Seq<(Seq<char>, Seq<char>)> {
    seq![("txs"@, json_hash_array(hashes(r.txs@))),
        ("blockNumber"@, quoted_hex(r.block_number as nat))] + (match r.min_timestamp {
        Some(t) => seq![("minTimestamp"@, dec_of(t as nat))],
        None => Seq::empty(),
    }) + (match r.max_timestamp {
        Some(t) => seq![("maxTimestamp"@, dec_of(t as nat))],
        None => Seq::empty(),
    }) + (match r.reverting_tx_hashes {
        Some(v) => seq![("revertingTxHashes"@, json_hash_array(hashes(v@)))],
        None => Seq::empty(),
    })
}

/// The encoding equals the JSON object over the member list, case by case.
#[verifier::rlimit(100)]
#[verifier::spinoff_prover]
proof fn lemma_send_bundle_wire_glue(r: SendBundleRequest)
    ensures
        json_of_send(r) == json_object(send_bundle_fields(r)),
{
    reveal_strlit("{\"txs\":");
    reveal_strlit(",\"blockNumber\":\"0x");
    reveal_strlit("\"");
    reveal_strlit("\"0x");
    reveal_strlit(",\"minTimestamp\":");
    reveal_strlit(",\"maxTimestamp\":");
    reveal_strlit(",\"revertingTxHashes\":");
    reveal_strlit("}");
    reveal_strlit("\":");
    reveal_strlit("txs");
    reveal_strlit("blockNumber");
    reveal_strlit("minTimestamp");
    reveal_strlit("maxTimestamp");
    reveal_strlit("revertingTxHashes");
    let fs = send_bundle_fields(r);
    let f_txs = ("txs"@, json_hash_array(hashes(r.txs@)));
    let f_bn = ("blockNumber"@, quoted_hex(r.block_number as nat));
    match (r.min_timestamp, r.max_timestamp, &r.reverting_tx_hashes) {
        (None, None, None) => {
            assert(fs =~= seq![f_txs, f_bn]);
            assert(json_of_send(r) =~= json_object(fs)) by {
                reveal_with_fuel(join_fields, 4);
            }
        },
        (Some(a), None, None) => {
            assert(fs =~= seq![f_txs, f_bn, ("minTimestamp"@, dec_of(a as nat))]);
            assert(json_of_send(r) =~= json_object(fs)) by {
                reveal_with_fuel(join_fields, 5);
            }
        },
        (None, Some(b), None) => {
            assert(fs =~= seq![f_txs, f_bn, ("maxTimestamp"@, dec_of(b as nat))]);
            assert(json_of_send(r) =~= json_object(fs)) by {
                reveal_with_fuel(join_fields, 5);
            }
        },
        (None, None, Some(v)) => {
            assert(fs =~= seq![f_txs, f_bn, ("revertingTxHashes"@, json_hash_array(hashes(
                v@)))]);
            assert(json_of_send(r) =~= json_object(fs)) by {
                reveal_with_fuel(join_fields, 5);
            }
        },
        (Some(a), Some(b), None) => {
            assert(fs =~= seq![f_txs, f_bn, ("minTimestamp"@, dec_of(a as nat)),
                ("maxTimestamp"@, dec_of(b as nat))]);
            assert(json_of_send(r) =~= json_object(fs)) by {
                reveal_with_fuel(join_fields, 6);
            }
        },
        (Some(a), None, Some(v)) => {
            assert(fs =~= seq![f_txs, f_bn, ("minTimestamp"@, dec_of(a as nat)),
                ("revertingTxHashes"@, json_hash_array(hashes(v@)))]);
            assert(json_of_send(r) =~= json_object(fs)) by {
                reveal_with_fuel(join_fields, 6);
            }
        },
        (None, Some(b), Some(v)) => {
            assert(fs =~= seq![f_txs, f_bn, ("maxTimestamp"@, dec_of(b as nat)),
                ("revertingTxHashes"@, json_hash_array(hashes(v@)))]);
            assert(json_of_send(r) =~= json_object(fs)) by {
                reveal_with_fuel(join_fields, 6);
            }
        },
        (Some(a), Some(b), Some(v)) => {
            assert(fs =~= seq![f_txs, f_bn, ("minTimestamp"@, dec_of(a as nat)),
                ("maxTimestamp"@, dec_of(b as nat)), ("revertingTxHashes"@, json_hash_array(
                hashes(v@)))]);
            assert(json_of_send(r) =~= json_object(fs)) by {
                reveal_with_fuel(join_fields, 7);
            }
        },
    }
}

/// The encoding of a bundle is a JSON object whose member list omits no set
/// field and includes no unset field: decoding the object finds `txs` and
/// `blockNumber` always, and each optional key, with the set value, exactly
/// when the field was set.
#[verifier::rlimit(100)]
pub proof fn lemma_send_bundle_wire_object(r: SendBundleRequest)
    ensures
        json_of_send(r) == json_object(send_bundle_fields(r)),
        send_bundle_fields(r)[0] == ("txs"@, json_hash_array(hashes(r.txs@))),
        send_bundle_fields(r)[1] == ("blockNumber"@, quoted_hex(r.block_number as nat)),
        r.min_timestamp matches Some(t) ==> (exists|i: int| 0 <= i < send_bundle_fields(
            r).len() && #[trigger] send_bundle_fields(r)[i] == ("minTimestamp"@, dec_of(
            t as nat))),
        r.min_timestamp is None ==> (forall|i: int| 0 <= i < send_bundle_fields(r).len()
            ==> #[trigger] send_bundle_fields(r)[i].0 != "minTimestamp"@),
        r.max_timestamp matches Some(t) ==> (exists|i: int| 0 <= i < send_bundle_fields(
            r).len() && #[trigger] send_bundle_fields(r)[i] == ("maxTimestamp"@, dec_of(
            t as nat))),
        r.max_timestamp is None ==> (forall|i: int| 0 <= i < send_bundle_fields(r).len()
            ==> #[trigger] send_bundle_fields(r)[i].0 != "maxTimestamp"@),
        r.reverting_tx_hashes matches Some(v) ==> (exists|i: int| 0 <= i
            < send_bundle_fields(r).len() && #[trigger] send_bundle_fields(r)[i]
            == ("revertingTxHashes"@, json_hash_array(hashes(v@)))),
        r.reverting_tx_hashes is None ==> (forall|i: int| 0 <= i < send_bundle_fields(
            r).len() ==> #[trigger] send_bundle_fields(r)[i].0 != "revertingTxHashes"@),
{
    lemma_send_bundle_wire_glue(r);
    reveal_strlit("txs");
    reveal_strlit("blockNumber");
    reveal_strlit("minTimestamp");
    reveal_strlit("maxTimestamp");
    reveal_strlit("revertingTxHashes");
    let fs = send_bundle_fields(r);
    let f_txs = ("txs"@, json_hash_array(hashes(r.txs@)));
    let f_bn = ("blockNumber"@, quoted_hex(r.block_number as nat));
    assert("txs"@.len() == 3 && "blockNumber"@.len() == 11 && "minTimestamp"@.len() == 12
        && "maxTimestamp"@.len() == 12 && "revertingTxHashes"@.len() == 17);
    assert("txs"@ != "minTimestamp"@ && "txs"@ != "maxTimestamp"@
        && "txs"@ != "revertingTxHashes"@);
    assert("blockNumber"@ != "minTimestamp"@ && "blockNumber"@ != "maxTimestamp"@
        && "blockNumber"@ != "revertingTxHashes"@);
    assert("minTimestamp"@ != "maxTimestamp"@) by {
        assert("minTimestamp"@[1] != "maxTimestamp"@[1]);
    }
    assert("minTimestamp"@ != "revertingTxHashes"@ && "maxTimestamp"@
        != "revertingTxHashes"@);
    match (r.min_timestamp, r.max_timestamp, &r.reverting_tx_hashes) {
        (None, None, None) => {
            assert(fs =~= seq![f_txs, f_bn]);
        },
        (Some(a), None, None) => {
            assert(fs =~= seq![f_txs, f_bn, ("minTimestamp"@, dec_of(a as nat))]);
        },
        (None, Some(b), None) => {
            assert(fs =~= seq![f_txs, f_bn, ("maxTimestamp"@, dec_of(b as nat))]);
        },
        (None, None, Some(v)) => {
            assert(fs =~= seq![f_txs, f_bn, ("revertingTxHashes"@, json_hash_array(hashes(
                v@)))]);
        },
        (Some(a), Some(b), None) => {
            assert(fs =~= seq![f_txs, f_bn, ("minTimestamp"@, dec_of(a as nat)),
                ("maxTimestamp"@, dec_of(b as nat))]);
        },
        (Some(a), None, Some(v)) => {
            assert(fs =~= seq![f_txs, f_bn, ("minTimestamp"@, dec_of(a as nat)),
                ("revertingTxHashes"@, json_hash_array(hashes(v@)))]);
        },
        (None, Some(b), Some(v)) => {
            assert(fs =~= seq![f_txs, f_bn, ("maxTimestamp"@, dec_of(b as nat)),
                ("revertingTxHashes"@, json_hash_array(hashes(v@)))]);
        },
        (Some(a), Some(b), Some(v)) => {
            assert(fs =~= seq![f_txs, f_bn, ("minTimestamp"@, dec_of(a as nat)),
                ("maxTimestamp"@, dec_of(b as nat)), ("revertingTxHashes"@, json_hash_array(
                hashes(v@)))]);
        },
    }
}

/// Appends the two hex digits of one byte.
fn append_hex_byte(out: &mut String, b: u8)
    ensures
        final(out)@ == old(out)@ + hex_pair(b),
{
    out.append(hex_digit_str(b / 16));
    out.append(hex_digit_str(b % 16));
    proof {
        assert(final(out)@ =~= old(out)@ + hex_pair(b));
    }
}

/// Appends one quoted `0x`-prefixed hash.
fn append_hash(out: &mut String, h: &BundleHash)
    ensures
        final(out)@ == old(out)@ + quoted_hash(h.bytes@),
{
    out.append("\"0x");
    let mut i: usize = 0;
    while i < 32
        invariant
            0 <= i <= 32,
            out@ == old(out)@ + "\"0x"@ + hex_of_bytes(h.bytes@.take(i as int)),
        decreases 32 - i,
    {
        proof {
            assert(h.bytes@.take(i + 1).drop_last() =~= h.bytes@.take(i as int));
            assert(h.bytes@.take(i + 1).last() == h.bytes@[i as int]);
        }
        append_hex_byte(out, h.bytes[i]);
        i = i + 1;
    }
    out.append("\"");
    proof {
        assert(h.bytes@.take(32) =~= h.bytes@);
        assert(final(out)@ =~= old(out)@ + quoted_hash(h.bytes@));
    }
}

/// Appends a JSON array of quoted hashes.
fn append_hash_array(out: &mut String, v: &Vec<BundleHash>)
    ensures
        final(out)@ == old(out)@ + json_hash_array(hashes(v@)),
{
    let ghost hs = hashes(v@);
    out.append("[");
    let mut i: usize = 0;
    while i < v.len()
        invariant
            0 <= i <= v.len(),
            hs == hashes(v@),
            hs.len() == v@.len(),
            out@ == old(out)@ + "["@ + hash_list(hs.take(i as int)),
        decreases v.len() - i,
    {
        if i > 0 {
            out.append(",");
        }
        append_hash(out, &v[i]);
        proof {
            assert(hs.take(i + 1).drop_last() =~= hs.take(i as int));
            assert(hs.take(i + 1).last() == hs[i as int]);
            assert(hs[i as int] == v@[i as int].bytes@);
            if i == 0 {
                assert(hash_list(hs.take(1)) == quoted_hash(hs[0]));
                assert(out@ =~= old(out)@ + "["@ + hash_list(hs.take(i + 1)));
            } else {
                assert(hash_list(hs.take(i + 1)) == hash_list(hs.take(i as int)) + seq![',']
                    + quoted_hash(hs[i as int]));
                assert(","@ =~= seq![',']) by {
                    reveal_strlit(",");
                }
                assert(out@ =~= old(out)@ + "["@ + hash_list(hs.take(i + 1)));
            }
        }
        i = i + 1;
    }
    out.append("]");
    proof {
        assert(hs.take(v@.len() as int) =~= hs);
        assert(final(out)@ =~= old(out)@ + json_hash_array(hashes(v@)));
    }
}

} // verus!
