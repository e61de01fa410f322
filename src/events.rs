//! Rows derived from block-result events: `send_packet` creates an unsettled row,
//! `acknowledge_packet` and `timeout_packet` settle it.

use vstd::prelude::*;

use crate::client::{BlockResults, EventAttribute, TxEvent, TxResult};
use crate::codec::{from_hex_lower, lower_hex_decoding, parse_u64, u64_parse};
use crate::ingest::{block_covered, extends, ingest_block, tx_hash_of, BlockError, IngestError, TxReport};
use crate::msg::{data_hash, data_hash_of, timeout_of, transfer_payload, FungibleTokenPacketData, IBC_VERSION_V1, TRANSFER_PORT};
use crate::proto::{decode_tx, tx_decoding};
use crate::store::{is_settled, settled_key, PacketRow, Store, SEND_PACKET};
use crate::text::{opt_view, str_eq};
use crate::codec::{sha256, to_hex_upper};

verus! {

/// The value under `key`; of repeated keys the last one counts.
pub open spec fn attr_value(attrs: Seq<EventAttribute>, key: Seq<char>) -> Option<Seq<char>>
    decreases attrs.len(),
{
    if attrs.len() == 0 {
        None
    } else if attrs.last().key@ == key {
        Some(attrs.last().value@)
    } else {
        attr_value(attrs.drop_last(), key)
    }
}

/// The value under `key`, empty when absent.
pub open spec fn attr_text(attrs: Seq<EventAttribute>, key: Seq<char>) -> Seq<char> {
    match attr_value(attrs, key) {
        Some(v) => v,
        None => Seq::empty(),
    }
}

/// The packet sequence of an event: its `packet_sequence` as a number, 0 when absent
/// or not a number.
pub open spec fn event_sequence(attrs: Seq<EventAttribute>) -> u64 {
    match attr_value(attrs, "packet_sequence"@) {
        Some(v) => match u64_parse(v) {
            Some(n) => n,
            None => 0,
        },
        None => 0,
    }
}

/// The value under `key`, searching from the last attribute back.
pub fn attribute<'a>(attrs: &'a Vec<EventAttribute>, key: &str) -> (r: Option<&'a str>)
    ensures
        match r {
            Some(v) => attr_value(attrs@, key@) == Some(v@),
            None => attr_value(attrs@, key@) is None,
        },
{
    let mut i: usize = attrs.len();
    assert(attrs@.take(i as int) =~= attrs@);
    while i > 0
        invariant
            i <= attrs@.len(),
            attr_value(attrs@, key@) == attr_value(attrs@.take(i as int), key@),
        decreases i,
    {
        assert(attrs@.take(i as int).drop_last() =~= attrs@.take(i - 1));
        assert(attrs@.take(i as int).last() == attrs@[i - 1]);
        let a = &attrs[i - 1];
        if str_eq(a.key.as_str(), key) {
            return Some(a.value.as_str());
        }
        i -= 1;
    }
    None
}

/// The value under `key` as an owned string, empty when absent.
pub fn attribute_text(attrs: &Vec<EventAttribute>, key: &str) -> (r: String)
    ensures
        r@ == attr_text(attrs@, key@),
{
    match attribute(attrs, key) {
        Some(v) => v.to_string(),
        None => String::new(),
    }
}

/// The `packet_sequence` of an event, 0 when absent or not a number.
pub fn sequence_of(attrs: &Vec<EventAttribute>) -> (r: u64)
    ensures
        r == event_sequence(attrs@),
{
    match attribute(attrs, "packet_sequence") {
        Some(v) => match parse_u64(v) {
            Some(n) => n,
            None => 0,
        },
        None => 0,
    }
}

/// The payload bytes of a `send_packet` event: its `packet_data` read as lower-case hex.
pub open spec fn event_payload(attrs: Seq<EventAttribute>) -> Option<Seq<u8>> {
    lower_hex_decoding(attr_text(attrs, "packet_data"@))
}

/// The timeout timestamp of a `send_packet` event; zero or unreadable is absent.
pub open spec fn event_timeout(attrs: Seq<EventAttribute>) -> Option<u64> {
    match attr_value(attrs, "packet_timeout_timestamp"@) {
        Some(v) => match u64_parse(v) {
            Some(n) => timeout_of(n),
            None => None,
        },
        None => None,
    }
}

/// The user fields of a `send_packet` event: on the `transfer` port, from a payload
/// that decodes and parses as a fungible-token transfer.
pub open spec fn event_user_fields(attrs: Seq<EventAttribute>) -> Option<(Seq<char>, Seq<char>, Seq<char>, Seq<char>)> {
    if attr_text(attrs, "packet_src_port"@) == TRANSFER_PORT@ {
        match event_payload(attrs) {
            Some(b) => match transfer_payload(b) {
                Some(f) => Some((f.0, f.1, f.2, f.3)),
                None => None,
            },
            None => None,
        }
    } else {
        None
    }
}

/// `row` is the unsettled row a `send_packet` event with `attrs` records in
/// transaction `tx_id`.
pub open spec fn sent_row(row: PacketRow, tx_id: u64, attrs: Seq<EventAttribute>) -> bool {
    &&& row.tx_id == tx_id
    &&& row.key() == (attr_text(attrs, "packet_src_channel"@), attr_text(attrs, "packet_src_port"@),
        attr_text(attrs, "packet_dst_channel"@), attr_text(attrs, "packet_dst_port"@),
        event_sequence(attrs), SEND_PACKET@)
    &&& row.signer@ == Seq::<char>::empty()
    &&& !row.effected
    &&& row.effected_signer is None
    &&& row.effected_tx is None
    &&& match event_user_fields(attrs) {
        Some(f) => opt_view(row.denom) == Some(f.0) && opt_view(row.amount) == Some(f.1)
            && opt_view(row.sender) == Some(f.2) && opt_view(row.receiver) == Some(f.3),
        None => row.denom is None && row.amount is None && row.sender is None && row.receiver is None,
    }
    &&& opt_view(row.ibc_version) == Some(IBC_VERSION_V1@)
    &&& row.timeout_timestamp == event_timeout(attrs)
    &&& row.timeout_height is None
    &&& opt_view(row.data_hash) == match event_payload(attrs) {
        Some(b) => Some(data_hash_of(b)),
        None => None,
    }
}

/// The key the row of a `send_packet` event with `attrs` has.
pub open spec fn sent_key(attrs: Seq<EventAttribute>) -> crate::store::PacketKey {
    (attr_text(attrs, "packet_src_channel"@), attr_text(attrs, "packet_src_port"@),
        attr_text(attrs, "packet_dst_channel"@), attr_text(attrs, "packet_dst_port"@),
        event_sequence(attrs), SEND_PACKET@)
}

/// Records a `send_packet` event of transaction `tx_id` as an unsettled row
/// (insert-or-ignore). Returns whether a row was stored.
pub fn process_send_packet_event(store: &mut Store, tx_id: u64, attrs: &Vec<EventAttribute>) -> (r: bool)
    requires
        old(store).wf(),
        old(store).tx_exists(tx_id),
    ensures
        final(store).wf(),
        final(store).txs == old(store).txs,
        r ==> final(store).packets@.len() == old(store).packets@.len() + 1
            && final(store).packets@.drop_last() == old(store).packets@
            && sent_row(final(store).packets@.last(), tx_id, attrs@),
        !r ==> *final(store) == *old(store),
        !old(store).has_row_in_tx(tx_id, sent_key(attrs@)) && old(store).packets@.len() < u64::MAX ==> r,
{
    let sequence = sequence_of(attrs);
    let src_channel = attribute_text(attrs, "packet_src_channel");
    let src_port = attribute_text(attrs, "packet_src_port");
    let dst_channel = attribute_text(attrs, "packet_dst_channel");
    let dst_port = attribute_text(attrs, "packet_dst_port");
    let timeout_timestamp = match attribute(attrs, "packet_timeout_timestamp") {
        Some(v) => match parse_u64(v) {
            Some(n) => if n == 0 {
                None
            } else {
                Some(n)
            },
            None => None,
        },
        None => None,
    };
    let hex = attribute_text(attrs, "packet_data");
    let payload = from_hex_lower(hex.as_str());
    let on_transfer_port = str_eq(src_port.as_str(), TRANSFER_PORT);
    let (denom, amount, sender, receiver) = match &payload {
        Some(b) => if on_transfer_port {
            match FungibleTokenPacketData::parse(b.as_slice()) {
                Some(d) => (Some(d.denom), Some(d.amount), Some(d.sender), Some(d.receiver)),
                None => (None, None, None, None),
            }
        } else {
            (None, None, None, None)
        },
        None => (None, None, None, None),
    };
    let hash = match &payload {
        Some(b) => Some(data_hash(b.as_slice())),
        None => None,
    };
    let row = PacketRow {
        id: 0,
        tx_id,
        sequence,
        src_channel,
        src_port,
        dst_channel,
        dst_port,
        msg_type_url: SEND_PACKET.to_string(),
        signer: String::new(),
        effected: false,
        effected_signer: None,
        effected_tx: None,
        sender,
        receiver,
        denom,
        amount,
        ibc_version: Some(IBC_VERSION_V1.to_string()),
        timeout_timestamp,
        timeout_height: None,
        data_hash: hash,
    };
    assert(row.key() == sent_key(attrs@));
    store.insert_packet(row)
}

/// What settling by an event of transaction `tx_id` did to the store: every row was
/// kept or was an unsettled `send_packet` row of the packet that got settled, and a
/// kept one was blocked by an effected row holding the key it would take.
pub open spec fn settled_by(
    before: Store,
    after: Store,
    tx_id: u64,
    attrs: Seq<EventAttribute>,
    timed_out: bool,
) -> bool {
    let chain = before.chain_of_tx(tx_id);
    let seq = event_sequence(attrs);
    let src = attr_text(attrs, "packet_src_channel"@);
    let dst = attr_text(attrs, "packet_dst_channel"@);
    &&& after.txs == before.txs
    &&& after.packets@.len() == before.packets@.len()
    &&& forall|i: int|
        0 <= i < before.packets@.len() ==> #[trigger] after.packets@[i] == before.packets@[i]
            || (before.awaiting(i, chain, seq, src, dst) && is_settled(before.packets@[i], after.packets@[i], tx_id, timed_out))
    &&& forall|i: int|
        0 <= i < before.packets@.len() && before.awaiting(i, chain, seq, src, dst)
            && #[trigger] after.packets@[i] == before.packets@[i]
            ==> after.has_effected_on(chain, settled_key(before.packets@[i], timed_out))
}

/// An `acknowledge_packet` event settles the packet's `send_packet` row.
pub fn process_acknowledge_packet_event(store: &mut Store, tx_id: u64, attrs: &Vec<EventAttribute>)
    requires
        old(store).wf(),
        old(store).tx_exists(tx_id),
    ensures
        final(store).wf(),
        settled_by(*old(store), *final(store), tx_id, attrs@, false),
{
    let sequence = sequence_of(attrs);
    let src_channel = attribute_text(attrs, "packet_src_channel");
    let dst_channel = attribute_text(attrs, "packet_dst_channel");
    store.settle_sent(tx_id, sequence, src_channel.as_str(), dst_channel.as_str(), false);
}

/// A `timeout_packet` event settles the packet's `send_packet` row as `timeout_packet`.
pub fn process_timeout_packet_event(store: &mut Store, tx_id: u64, attrs: &Vec<EventAttribute>)
    requires
        old(store).wf(),
        old(store).tx_exists(tx_id),
    ensures
        final(store).wf(),
        settled_by(*old(store), *final(store), tx_id, attrs@, true),
{
    let sequence = sequence_of(attrs);
    let src_channel = attribute_text(attrs, "packet_src_channel");
    let dst_channel = attribute_text(attrs, "packet_dst_channel");
    store.settle_sent(tx_id, sequence, src_channel.as_str(), dst_channel.as_str(), true);
}

/// How many `send_packet` events a list holds.
pub open spec fn send_count(events: Seq<TxEvent>) -> nat
    decreases events.len(),
{
    if events.len() == 0 {
        0
    } else {
        send_count(events.drop_last()) + if events.last().type_str@ == SEND_PACKET@ { 1nat } else { 0nat }
    }
}

/// What applying one event of transaction `tx_id` did: a `send_packet` event stored
/// its row (or found it already stored, or found the table full), an
/// `acknowledge_packet` or `timeout_packet` event settled its packet, and any other
/// event changed nothing.
pub open spec fn event_applied(a: Store, b: Store, tx_id: u64, e: TxEvent) -> bool {
    let attrs = e.attributes@;
    if e.type_str@ == SEND_PACKET@ {
        &&& b.txs == a.txs
        &&& ((b == a && (a.has_row_in_tx(tx_id, sent_key(attrs)) || a.packets@.len() >= u64::MAX)) || (
        b.packets@.len() == a.packets@.len() + 1 && b.packets@.drop_last() == a.packets@ && sent_row(
            b.packets@.last(),
            tx_id,
            attrs,
        )))
    } else if e.type_str@ == "acknowledge_packet"@ {
        settled_by(a, b, tx_id, attrs, false)
    } else if e.type_str@ == "timeout_packet"@ {
        settled_by(a, b, tx_id, attrs, true)
    } else {
        b == a
    }
}

/// `states` are the stores that applying the events `evs` of transaction `tx_id` one
/// after another passes through.
pub open spec fn events_chain(states: Seq<Store>, tx_id: u64, evs: Seq<TxEvent>) -> bool {
    &&& states.len() == evs.len() + 1
    &&& forall|j: int| 0 <= j < evs.len() ==> #[trigger] event_step(states, tx_id, evs, j)
}

/// Step `j` of an event chain.
pub open spec fn event_step(states: Seq<Store>, tx_id: u64, evs: Seq<TxEvent>, j: int) -> bool {
    states[j].wf() && event_applied(states[j], states[j + 1], tx_id, evs[j])
}

/// The events `evs` of transaction `tx_id` applied one after another take `a` to `b`.
pub open spec fn events_applied(a: Store, b: Store, tx_id: u64, evs: Seq<TxEvent>) -> bool {
    exists|states: Seq<Store>| #[trigger] events_chain(states, tx_id, evs) && states[0] == a && states.last() == b
}

/// Applies a transaction's events in order; other event types change nothing.
/// Returns the number of `send_packet` events seen.
pub fn process_tx_events(store: &mut Store, tx_id: u64, events: &Vec<TxEvent>) -> (r: u64)
    requires
        old(store).wf(),
        old(store).tx_exists(tx_id),
    ensures
        final(store).wf(),
        final(store).txs == old(store).txs,
        r == send_count(events@),
        events_applied(*old(store), *final(store), tx_id, events@),
{
    let mut count: u64 = 0;
    let mut i: usize = 0;
    let ghost s0 = *store;
    let ghost txs0 = store.txs;
    assert(events@.take(0) =~= Seq::<TxEvent>::empty());
    let ghost mut states: Seq<Store> = seq![s0];
    while i < events.len()
        invariant
            store.wf(),
            s0 == *old(store),
            store.txs == txs0,
            store.tx_exists(tx_id),
            i <= events@.len(),
            count == send_count(events@.take(i as int)),
            count <= i,
            events_chain(states, tx_id, events@.take(i as int)),
            states[0] == s0,
            states.last() == *store,
        decreases events@.len() - i,
    {
        assert(events@.take(i + 1).drop_last() =~= events@.take(i as int));
        let ghost sb = *store;
        let e = &events[i];
        assert(events@.take(i + 1).last() == *e);
        let t = e.type_str.as_str();
        if str_eq(t, SEND_PACKET) {
            process_send_packet_event(store, tx_id, &e.attributes);
            count += 1;
        } else if str_eq(t, "acknowledge_packet") {
            process_acknowledge_packet_event(store, tx_id, &e.attributes);
        } else if str_eq(t, "timeout_packet") {
            process_timeout_packet_event(store, tx_id, &e.attributes);
        }
        assert(event_applied(sb, *store, tx_id, *e));
        proof {
            let next = states.push(*store);
            let evs = events@.take(i + 1);
            assert forall|j: int| 0 <= j < evs.len() implies #[trigger] event_step(next, tx_id, evs, j) by {
                if j < i {
                    assert(event_step(states, tx_id, events@.take(i as int), j));
                    assert(evs[j] == events@.take(i as int)[j]);
                    assert(next[j] == states[j] && next[j + 1] == states[j + 1]);
                } else {
                    assert(next[j] == sb && next[j + 1] == *store);
                }
            }
            assert(events_chain(next, tx_id, evs));
            states = next;
        }
        i += 1;
    }
    assert(events@.take(i as int) =~= events@);
    assert(events_chain(states, tx_id, events@) && states[0] == s0 && states.last() == *store);
    count
}

/// The result of a transaction `raw` of `chain` applied to `a` gives `b`: the
/// transaction stored (or found stored) under some id, then its events applied.
pub open spec fn tx_result_applied(a: Store, b: Store, chain: Seq<char>, raw: Seq<u8>, events: Seq<TxEvent>) -> bool {
    match tx_decoding(raw) {
        Some(t) => exists|mid: Store, id: u64|
            {
                &&& mid.wf()
                &&& mid.packets == a.packets
                &&& (mid.txs@ == a.txs@ || mid.txs@ == a.txs@.push(mid.txs@[id - 1]))
                &&& mid.tx_exists(id)
                &&& mid.txs@[id - 1].chain@ == chain
                &&& mid.txs@[id - 1].hash@ == tx_hash_of(t.canonical@)
                &&& #[trigger] events_applied(mid, b, id, events)
            },
        None => false,
    }
}

/// How many transactions have a result: the shorter of the two lists.
pub open spec fn paired(txs: Seq<Vec<u8>>, results: Seq<TxResult>) -> int {
    if results.len() < txs.len() {
        results.len() as int
    } else {
        txs.len() as int
    }
}

/// `states` are the stores that applying the results of the first `n` transactions
/// one after another passes through.
pub open spec fn results_chain(states: Seq<Store>, chain: Seq<char>, txs: Seq<Vec<u8>>, results: Seq<TxResult>, n: int) -> bool {
    &&& states.len() == n + 1
    &&& forall|j: int| 0 <= j < n ==> #[trigger] result_step(states, chain, txs, results, j)
}

/// Step `j` of a results chain.
pub open spec fn result_step(states: Seq<Store>, chain: Seq<char>, txs: Seq<Vec<u8>>, results: Seq<TxResult>, j: int) -> bool {
    states[j].wf() && tx_result_applied(states[j], states[j + 1], chain, txs[j]@, results[j].events@)
}

/// The results of the first `n` transactions applied in order take `a` to `b`.
pub open spec fn results_applied(
    a: Store,
    b: Store,
    chain: Seq<char>,
    txs: Seq<Vec<u8>>,
    results: Seq<TxResult>,
    n: int,
) -> bool {
    exists|states: Seq<Store>| #[trigger] results_chain(states, chain, txs, results, n) && states[0] == a && states.last() == b
}

/// Every transaction of the block with a result is stored for `chain`.
pub open spec fn all_stored(s: Store, chain: Seq<char>, txs: Seq<Vec<u8>>, n: int) -> bool {
    forall|i: int| 0 <= i < n ==> (tx_decoding(#[trigger] txs[i]@) matches Some(t) && s.has_tx(chain, tx_hash_of(t.canonical@)))
}

/// Applies the block results of a block: the result at position `i` belongs to
/// transaction `i` of the block (results beyond the block's transactions are
/// ignored). Returns the number of `send_packet` events applied.
pub fn process_block_results(
    store: &mut Store,
    chain: &str,
    height: u64,
    txs: &Vec<Vec<u8>>,
    results: &Vec<TxResult>,
) -> (r: Result<u64, IngestError>)
    requires
        old(store).wf(),
    ensures
        final(store).wf(),
        r is Ok ==> results_applied(*old(store), *final(store), chain@, txs@, results@, paired(txs@, results@)),
        r is Ok ==> all_stored(*final(store), chain@, txs@, paired(txs@, results@)),
        r == Err::<u64, IngestError>(IngestError::Undecodable) ==> exists|i: int|
            0 <= i < paired(txs@, results@) && tx_decoding(#[trigger] txs@[i]@) is None,
        r == Err::<u64, IngestError>(IngestError::StoreFull) ==> final(store).txs@.len() >= u64::MAX,
        r == Err::<u64, IngestError>(IngestError::StoreFull) || r == Err::<u64, IngestError>(IngestError::Undecodable) || r is Ok,
        (forall|i: int| 0 <= i < paired(txs@, results@) ==> tx_decoding(#[trigger] txs@[i]@) is Some)
            && old(store).txs@.len() + paired(txs@, results@) < u64::MAX ==> r is Ok,
        all_stored(*old(store), chain@, txs@, paired(txs@, results@)) ==> r is Ok && final(store).txs == old(store).txs,
{
    let ghost s0 = *store;
    let ghost present = all_stored(s0, chain@, txs@, paired(txs@, results@));
    let ghost decodable = (forall|x: int| 0 <= x < paired(txs@, results@) ==> tx_decoding(#[trigger] txs@[x]@) is Some)
        && s0.txs@.len() + paired(txs@, results@) < u64::MAX;
    let mut total: u64 = 0;
    let mut i: usize = 0;
    let ghost mut states: Seq<Store> = seq![s0];
    while i < results.len() && i < txs.len()
        invariant
            store.wf(),
            i <= results@.len(),
            i <= txs@.len(),
            i <= paired(txs@, results@),
            s0 == *old(store),
            present == all_stored(s0, chain@, txs@, paired(txs@, results@)),
            decodable == ((forall|x: int| 0 <= x < paired(txs@, results@) ==> tx_decoding(#[trigger] txs@[x]@) is Some)
                && s0.txs@.len() + paired(txs@, results@) < u64::MAX),
            all_stored(*store, chain@, txs@, i as int),
            results_chain(states, chain@, txs@, results@, i as int),
            states[0] == s0,
            states.last() == *store,
            store.txs@.len() <= s0.txs@.len() + i,
            present ==> store.txs == s0.txs,
        decreases results@.len() - i,
    {
        let ghost sb = *store;
        proof {
            if present {
                assert(tx_decoding(txs@[i as int]@) is Some);
                assert(s0.has_tx(chain@, tx_hash_of(tx_decoding(txs@[i as int]@)->Some_0.canonical@)));
            }
            if decodable {
                assert(tx_decoding(txs@[i as int]@) is Some);
            }
        }
        let env = match decode_tx(txs[i].as_slice()) {
            Some(e) => e,
            None => return Err(IngestError::Undecodable),
        };
        let digest = sha256(env.canonical.as_slice());
        let hash = to_hex_upper(digest.as_slice());
        let memo = match &env.body {
            Some(b) => b.memo.clone(),
            None => String::new(),
        };
        let tx = match store.insert_tx(chain, height, hash.as_str(), memo.as_str()) {
            Some(t) => t,
            None => {
                assert(sb.txs@.len() >= u64::MAX);
                assert(i < paired(txs@, results@));
                return Err(IngestError::StoreFull);
            },
        };
        let ghost smid = *store;
        let n = process_tx_events(store, tx.id, &results[i].events);
        total = if total <= u64::MAX - n { total + n } else { u64::MAX };
        assert(store.txs == smid.txs);
        proof {
            assert(smid.txs@ == sb.txs@ || smid.txs@ == sb.txs@.push(smid.txs@[tx.id - 1]));
            assert(events_applied(smid, *store, tx.id, results@[i as int].events@));
            assert(tx_result_applied(sb, *store, chain@, txs@[i as int]@, results@[i as int].events@));
            let next = states.push(*store);
            assert forall|j: int| 0 <= j < i + 1 implies #[trigger] result_step(next, chain@, txs@, results@, j) by {
                if j < i {
                    assert(result_step(states, chain@, txs@, results@, j));
                    assert(next[j] == states[j] && next[j + 1] == states[j + 1]);
                } else {
                    assert(next[j] == sb && next[j + 1] == *store);
                }
            }
            assert(results_chain(next, chain@, txs@, results@, i + 1));
            states = next;
        }
        assert forall|j: int| 0 <= j < i + 1 implies (tx_decoding(#[trigger] txs@[j]@) matches Some(t) && store.has_tx(chain@, tx_hash_of(t.canonical@))) by {
            if j < i {
                let t = tx_decoding(txs@[j]@)->Some_0;
                assert(sb.has_tx(chain@, tx_hash_of(t.canonical@)));
                let k = choose|k: int| 0 <= k < sb.txs@.len() && sb.txs@[k].chain@ == chain@ && #[trigger] sb.txs@[k].hash@ == tx_hash_of(t.canonical@);
                assert(store.txs@[k] == sb.txs@[k]);
            } else {
                assert(store.txs@[tx.id - 1] == tx);
            }
        }
        i += 1;
    }
    assert(results_chain(states, chain@, txs@, results@, paired(txs@, results@)));
    Ok(total)
}

/// What processing one block produced.
#[derive(Clone, Debug, PartialEq, Eq)]
pub struct BlockReport {
    pub txs: Vec<TxReport>,
    /// The outcome of applying block results, when there were any.
    pub events: Option<Result<u64, IngestError>>,
}

/// Processes a new block: its transactions in order (as `ingest_block`), then, when
/// the client supplied block results for it, their events (as
/// `process_block_results`), which cannot fail once every transaction is stored.
pub fn process_block(
    store: &mut Store,
    chain: &str,
    height: u64,
    txs: &Vec<Vec<u8>>,
    results: Option<&BlockResults>,
) -> (r: Result<BlockReport, BlockError>)
    requires
        old(store).wf(),
    ensures
        final(store).wf(),
        (forall|i: int| 0 <= i < txs@.len() ==> (tx_decoding(#[trigger] txs@[i]@) matches Some(t) && t.body is Some))
            && old(store).txs@.len() + txs@.len() < u64::MAX ==> r is Ok,
        results is None && block_covered(*old(store), chain@, txs@) ==> *final(store) == *old(store) && r is Ok,
        r matches Ok(rep) ==> {
            &&& rep.txs@.len() == txs@.len()
            &&& forall|i: int| 0 <= i < txs@.len() ==> (tx_decoding(#[trigger] txs@[i]@) matches Some(t)
                && t.body is Some && rep.txs@[i].tx.hash@ == tx_hash_of(t.canonical@) && rep.txs@[i].tx.chain@ == chain@
                && final(store).has_tx(chain@, tx_hash_of(t.canonical@)))
            &&& exists|mid: Store| {
                &&& mid.wf()
                &&& #[trigger] extends(*old(store), mid)
                &&& (mid.packets@.len() < u64::MAX ==> block_covered(mid, chain@, txs@))
                &&& match results {
                    None => *final(store) == mid && rep.events is None,
                    Some(b) => rep.events matches Some(Ok(_)) && results_applied(mid, *final(store), chain@, txs@,
                        b.txs_results@, paired(txs@, b.txs_results@)),
                }
            }
        },
        r matches Err(e) ==> {
            &&& extends(*old(store), *final(store))
            &&& e.index < txs@.len()
            &&& e.reports@.len() == e.index
            &&& (e.error == IngestError::Undecodable <==> tx_decoding(txs@[e.index as int]@) is None)
            &&& (e.error == IngestError::MissingBody <==> (tx_decoding(txs@[e.index as int]@) matches Some(t)
                && t.body is None && e.error != IngestError::StoreFull))
            &&& (e.error == IngestError::StoreFull ==> final(store).txs@.len() >= u64::MAX)
            &&& forall|i: int| 0 <= i < e.index ==> (tx_decoding(#[trigger] txs@[i]@) matches Some(t)
                && t.body is Some && e.reports@[i].tx.hash@ == tx_hash_of(t.canonical@)
                && final(store).has_tx(chain@, tx_hash_of(t.canonical@)))
        },
{
    let reports = match ingest_block(store, chain, height, txs) {
        Ok(reps) => reps,
        Err(e) => return Err(e),
    };
    let ghost mid = *store;
    let events = match results {
        Some(b) => {
            proof {
                assert forall|i: int| 0 <= i < paired(txs@, b.txs_results@) implies (tx_decoding(#[trigger] txs@[i]@) matches Some(t)
                    && mid.has_tx(chain@, tx_hash_of(t.canonical@))) by {
                    assert(tx_decoding(txs@[i]@) is Some);
                }
            }
            Some(process_block_results(store, chain, height, txs, &b.txs_results))
        },
        None => None,
    };
    proof {
        assert forall|i: int| 0 <= i < txs@.len() implies (tx_decoding(#[trigger] txs@[i]@) matches Some(t)
            && store.has_tx(chain@, tx_hash_of(t.canonical@))) by {
            assert(tx_decoding(txs@[i]@) is Some);
            let t = tx_decoding(txs@[i]@)->Some_0;
            assert(mid.has_tx(chain@, tx_hash_of(t.canonical@)));
            let k = choose|k: int| 0 <= k < mid.txs@.len() && mid.txs@[k].chain@ == chain@ && #[trigger] mid.txs@[k].hash@ == tx_hash_of(t.canonical@);
            assert(store.txs@[k] == mid.txs@[k]);
        }
        assert(mid.wf() && extends(*old(store), mid));
    }
    Ok(BlockReport { txs: reports, events })
}

} // verus!
