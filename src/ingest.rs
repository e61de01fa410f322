//! The correlation engine: transactions of a block go into the store, and each
//! packet-carrying message is classified as the effected observation of its key on
//! the chain or as an uneffected one that points back to the winner.

use vstd::prelude::*;

use crate::codec::{hex_upper_of, sha256, sha256_of, to_hex_upper};
use crate::msg::{
    data_hash_of, decoding, timeout_of, transfer_payload, AnyMsg, DecodeError, Msg, Packet,
    TransferMsg, UniversalPacketInfo, IBC_VERSION_V1, TRANSFER_PORT,
};
use crate::proto::{decode_tx, tx_decoding};
use crate::store::{PacketKey, PacketRow, Store, TxRow};
use crate::text::opt_view;

verus! {

/// The row an uneffected observation points back to.
#[derive(Clone, Debug, PartialEq, Eq)]
pub struct Winner {
    pub row_id: u64,
    pub tx_id: u64,
    pub signer: String,
    pub memo: String,
}

/// One packet observation, with what the effected, uneffected and frontrun
/// counters are labelled with. `winner` is `None` for the effected observation.
#[derive(Clone, Debug, PartialEq, Eq)]
pub struct PacketObservation {
    pub src_channel: String,
    pub src_port: String,
    pub dst_channel: String,
    pub dst_port: String,
    pub sequence: u64,
    pub type_url: String,
    pub signer: String,
    pub memo: String,
    pub winner: Option<Winner>,
}

/// What one relevant message contributed.
#[derive(Clone, Debug, PartialEq, Eq)]
pub enum Sample {
    Packet(PacketObservation),
    Transfer(TransferMsg),
}

/// What ingesting one transaction produced.
#[derive(Clone, Debug, PartialEq, Eq)]
pub struct TxReport {
    pub tx: TxRow,
    pub samples: Vec<Sample>,
    pub undecodable: Vec<DecodeError>,
}

/// Why a transaction could not be ingested.
#[derive(Clone, Copy, Debug, PartialEq, Eq, Structural)]
pub enum IngestError {
    /// The bytes are not a transaction envelope.
    Undecodable,
    /// The envelope has no body.
    MissingBody,
    /// The transaction table has no id left.
    StoreFull,
}

/// A block whose ingestion stopped at transaction `index`; `reports` covers the
/// transactions before it.
#[derive(Clone, Debug, PartialEq, Eq)]
pub struct BlockError {
    pub index: usize,
    pub error: IngestError,
    pub reports: Vec<TxReport>,
}

pub open spec fn packet_key(p: Packet, type_url: Seq<char>) -> PacketKey {
    (p.source_channel@, p.source_port@, p.destination_channel@, p.destination_port@, p.sequence, type_url)
}

/// The transaction hash: upper-case hex of the SHA-256 of the canonical bytes.
pub open spec fn tx_hash_of(canonical: Seq<u8>) -> Seq<char> {
    hex_upper_of(sha256_of(canonical))
}

/// The four user fields a packet row keeps from a transfer payload.
pub open spec fn row_user_fields(row: PacketRow) -> Option<(Seq<char>, Seq<char>, Seq<char>, Seq<char>)> {
    match (row.denom, row.amount, row.sender, row.receiver) {
        (Some(d), Some(a), Some(s), Some(r)) => Some((d@, a@, s@, r@)),
        _ => None,
    }
}

pub open spec fn expected_user_fields(p: Packet) -> Option<(Seq<char>, Seq<char>, Seq<char>, Seq<char>)> {
    if p.source_port@ == TRANSFER_PORT@ {
        match transfer_payload(p.data@) {
            Some(f) => Some((f.0, f.1, f.2, f.3)),
            None => None,
        }
    } else {
        None
    }
}

/// `row` records the observation of `p` by a message of type `type_url` signed by
/// `signer` in transaction `tx_id`, effected unless there is a `winner`.
pub open spec fn observed_row(
    row: PacketRow,
    tx_id: u64,
    type_url: Seq<char>,
    signer: Seq<char>,
    p: Packet,
    winner: Option<PacketRow>,
) -> bool {
    &&& row.tx_id == tx_id
    &&& row.key() == packet_key(p, type_url)
    &&& row.signer@ == signer
    &&& row.effected == winner is None
    &&& opt_view(row.effected_signer) == match winner {
        Some(w) => Some(w.signer@),
        None => None,
    }
    &&& row.effected_tx == match winner {
        Some(w) => Some(w.tx_id),
        None => None,
    }
    &&& row_user_fields(row) == expected_user_fields(p)
    &&& (expected_user_fields(p) is None ==> row.denom is None && row.amount is None
        && row.sender is None && row.receiver is None)
    &&& opt_view(row.ibc_version) == Some(IBC_VERSION_V1@)
    &&& row.timeout_timestamp == timeout_of(p.timeout_timestamp)
    &&& row.timeout_height == p.timeout_height
    &&& opt_view(row.data_hash) == Some(data_hash_of(p.data@))
}

/// Row `w` is the first row of `chain` with key `k`.
pub open spec fn first_with_key(s: Store, w: int, chain: Seq<char>, k: PacketKey) -> bool {
    &&& 0 <= w < s.packets@.len()
    &&& s.row_chain(w) == chain
    &&& s.packets@[w].key() == k
    &&& forall|j: int| 0 <= j < w ==> !(s.row_chain(j) == chain && #[trigger] s.packets@[j].key() == k)
}

pub open spec fn winner_row(s: Store, w: Option<Winner>) -> Option<PacketRow> {
    match w {
        Some(w) => Some(s.packets@[w.row_id - 1]),
        None => None,
    }
}

/// The plan `p` holds a packet observation with key `k`.
pub open spec fn plans_key(p: Seq<Option<(PacketKey, Seq<char>)>>, k: PacketKey) -> bool {
    exists|j: int| 0 <= j < p.len() && (#[trigger] p[j]) is Some && p[j]->Some_0.0 == k
}

proof fn lemma_has_tx_extends(a: Store, b: Store, chain: Seq<char>, hash: Seq<char>)
    requires
        extends(a, b),
        a.has_tx(chain, hash),
    ensures
        b.has_tx(chain, hash),
{
    let i = choose|i: int| 0 <= i < a.txs@.len() && a.txs@[i].chain@ == chain && #[trigger] a.txs@[i].hash@ == hash;
    assert(b.txs@.subrange(0, a.txs@.len() as int)[i] == b.txs@[i]);
}

/// Every packet observation planned in `p` has a row of transaction `id`.
pub open spec fn rows_cover(s: Store, id: u64, p: Seq<Option<(PacketKey, Seq<char>)>>) -> bool {
    forall|j: int| 0 <= j < p.len() ==> match #[trigger] p[j] {
        Some(e) => s.has_row_in_tx(id, e.0),
        None => true,
    }
}

/// The raw transaction is already in the store for `chain`, with a row of its own
/// for every packet observation its messages plan.
pub open spec fn tx_covered(s: Store, chain: Seq<char>, raw: Seq<u8>) -> bool {
    match tx_decoding(raw) {
        Some(t) => match t.body {
            Some(body) => exists|i: int|
                0 <= i < s.txs@.len() && #[trigger] s.txs@[i].chain@ == chain && s.txs@[i].hash@
                    == tx_hash_of(t.canonical@) && rows_cover(s, (i + 1) as u64, plan(body.messages@)),
            None => false,
        },
        None => false,
    }
}

/// Every transaction of the block is covered.
pub open spec fn block_covered(s: Store, chain: Seq<char>, txs: Seq<Vec<u8>>) -> bool {
    forall|i: int| 0 <= i < txs.len() ==> tx_covered(s, chain, #[trigger] txs[i]@)
}

/// `b` extends `a`: both tables only gained rows at their ends.
pub open spec fn extends(a: Store, b: Store) -> bool {
    &&& a.txs@.len() <= b.txs@.len()
    &&& a.packets@.len() <= b.packets@.len()
    &&& b.txs@.subrange(0, a.txs@.len() as int) == a.txs@
    &&& b.packets@.subrange(0, a.packets@.len() as int) == a.packets@
}

proof fn lemma_extends_refl(a: Store)
    ensures
        extends(a, a),
{
    assert(a.txs@.subrange(0, a.txs@.len() as int) =~= a.txs@);
    assert(a.packets@.subrange(0, a.packets@.len() as int) =~= a.packets@);
}

proof fn lemma_extends_trans(a: Store, b: Store, c: Store)
    requires
        extends(a, b),
        extends(b, c),
    ensures
        extends(a, c),
{
    assert(c.txs@.subrange(0, a.txs@.len() as int) =~= b.txs@.subrange(0, a.txs@.len() as int));
    assert(c.packets@.subrange(0, a.packets@.len() as int) =~= b.packets@.subrange(0, a.packets@.len() as int));
}

proof fn lemma_has_row_extends(a: Store, b: Store, id: u64, k: PacketKey)
    requires
        extends(a, b),
        a.has_row_in_tx(id, k),
    ensures
        b.has_row_in_tx(id, k),
{
    let x = choose|x: int| 0 <= x < a.packets@.len() && a.packets@[x].tx_id == id && #[trigger] a.packets@[x].key() == k;
    assert(b.packets@.subrange(0, a.packets@.len() as int)[x] == b.packets@[x]);
}

proof fn lemma_rows_cover_extends(a: Store, b: Store, id: u64, p: Seq<Option<(PacketKey, Seq<char>)>>)
    requires
        extends(a, b),
        rows_cover(a, id, p),
    ensures
        rows_cover(b, id, p),
{
    assert forall|j: int| 0 <= j < p.len() implies match #[trigger] p[j] {
        Some(e) => b.has_row_in_tx(id, e.0),
        None => true,
    } by {
        if let Some(e) = p[j] {
            lemma_has_row_extends(a, b, id, e.0);
        }
    }
}

proof fn lemma_covered_extends(a: Store, b: Store, chain: Seq<char>, raw: Seq<u8>)
    requires
        extends(a, b),
        tx_covered(a, chain, raw),
    ensures
        tx_covered(b, chain, raw),
{
    let t = tx_decoding(raw)->Some_0;
    let body = t.body->Some_0;
    let i = choose|i: int|
        0 <= i < a.txs@.len() && #[trigger] a.txs@[i].chain@ == chain && a.txs@[i].hash@
            == tx_hash_of(t.canonical@) && rows_cover(a, (i + 1) as u64, plan(body.messages@));
    assert(b.txs@.subrange(0, a.txs@.len() as int)[i] == b.txs@[i]);
    lemma_rows_cover_extends(a, b, (i + 1) as u64, plan(body.messages@));
    assert(b.txs@[i].chain@ == chain);
}

proof fn lemma_rows_cover_concat(s: Store, id: u64, p: Seq<Option<(PacketKey, Seq<char>)>>, q: Seq<Option<(PacketKey, Seq<char>)>>)
    requires
        rows_cover(s, id, p),
        rows_cover(s, id, q),
    ensures
        rows_cover(s, id, p + q),
{
    assert forall|j: int| 0 <= j < (p + q).len() implies match #[trigger] (p + q)[j] {
        Some(e) => s.has_row_in_tx(id, e.0),
        None => true,
    } by {
        if j < p.len() {
            assert((p + q)[j] == p[j]);
        } else {
            assert((p + q)[j] == q[j - p.len()]);
        }
    }
}

/// The correlation step for one packet-carrying message of transaction `tx`:
/// probe the chain for a row with the same key, record the observation as effected
/// when there is none and otherwise as uneffected pointing to the first such row,
/// and insert it (ignored when `tx` already has a row with this key).
pub fn correlate(store: &mut Store, tx: &TxRow, type_url: &str, signer: &str, packet: &Packet) -> (r: PacketObservation)
    requires
        old(store).wf(),
        old(store).tx_exists(tx.id),
        old(store).txs@[tx.id - 1] == *tx,
    ensures
        final(store).wf(),
        final(store).txs == old(store).txs,
        r.winner is None <==> !old(store).has_key_on(tx.chain@, packet_key(*packet, type_url@)),
        r.winner matches Some(w) ==> {
            &&& first_with_key(*old(store), w.row_id - 1, tx.chain@, packet_key(*packet, type_url@))
            &&& w.tx_id == old(store).packets@[w.row_id - 1].tx_id
            &&& w.signer@ == old(store).packets@[w.row_id - 1].signer@
            &&& w.memo@ == old(store).txs@[w.tx_id - 1].memo@
        },
        r.src_channel@ == packet.source_channel@,
        r.src_port@ == packet.source_port@,
        r.dst_channel@ == packet.destination_channel@,
        r.dst_port@ == packet.destination_port@,
        r.sequence == packet.sequence,
        r.type_url@ == type_url@,
        r.signer@ == signer@,
        r.memo@ == tx.memo@,
        old(store).has_row_in_tx(tx.id, packet_key(*packet, type_url@)) ==> *final(store) == *old(store),
        !old(store).has_row_in_tx(tx.id, packet_key(*packet, type_url@)) && old(store).packets@.len() < u64::MAX
            ==> final(store).packets@.len() == old(store).packets@.len() + 1
            && final(store).packets@.drop_last() == old(store).packets@
            && observed_row(final(store).packets@.last(), tx.id, type_url@, signer@, *packet, winner_row(*old(store), r.winner)),
        final(store).packets@ == old(store).packets@ || final(store).packets@.drop_last() == old(store).packets@,
        final(store).packets@.len() != old(store).packets@.len() ==> final(store).packets@.len() == old(store).packets@.len() + 1
            && final(store).packets@.drop_last() == old(store).packets@
            && observed_row(final(store).packets@.last(), tx.id, type_url@, signer@, *packet, winner_row(*old(store), r.winner)),
        extends(*old(store), *final(store)),
{
    let info = UniversalPacketInfo::from_packet(packet);
    let found = store.find_packet(
        tx.chain.as_str(),
        packet.source_channel.as_str(),
        packet.source_port.as_str(),
        packet.destination_channel.as_str(),
        packet.destination_port.as_str(),
        packet.sequence,
        type_url,
        false,
    );
    let winner = match found {
        Some(i) => {
            let w = &store.packets[i];
            let wt = w.tx_id;
            assert(store.tx_exists(store.packets@[i as int].tx_id));
            let n = store.txs.len();
            assert(wt - 1 < n);
            let memo = store.txs[(wt - 1) as usize].memo.clone();
            Some(Winner { row_id: w.id, tx_id: wt, signer: w.signer.clone(), memo })
        },
        None => None,
    };
    let ghost k = packet_key(*packet, type_url@);
    assert(winner is None ==> !store.has_effected_on(tx.chain@, k));
    let row = PacketRow {
        id: 0,
        tx_id: tx.id,
        sequence: packet.sequence,
        src_channel: packet.source_channel.clone(),
        src_port: packet.source_port.clone(),
        dst_channel: packet.destination_channel.clone(),
        dst_port: packet.destination_port.clone(),
        msg_type_url: type_url.to_string(),
        signer: signer.to_string(),
        effected: match &winner {
            Some(_) => false,
            None => true,
        },
        effected_signer: match &winner {
            Some(w) => Some(w.signer.clone()),
            None => None,
        },
        effected_tx: match &winner {
            Some(w) => Some(w.tx_id),
            None => None,
        },
        sender: info.sender,
        receiver: info.receiver,
        denom: info.denom,
        amount: info.amount,
        ibc_version: Some(info.ibc_version),
        timeout_timestamp: info.timeout_timestamp,
        timeout_height: info.timeout_height,
        data_hash: Some(info.data_hash),
    };
    assert(row.key() == k);
    let ghost before = *store;
    store.insert_packet(row);
    assert(store.txs@.subrange(0, before.txs@.len() as int) =~= before.txs@);
    assert(store.packets@.subrange(0, before.packets@.len() as int) =~= before.packets@);
    PacketObservation {
        src_channel: packet.source_channel.clone(),
        src_port: packet.source_port.clone(),
        dst_channel: packet.destination_channel.clone(),
        dst_port: packet.destination_port.clone(),
        sequence: packet.sequence,
        type_url: type_url.to_string(),
        signer: signer.to_string(),
        memo: tx.memo.clone(),
        winner,
    }
}

/// What one message contributes to a transaction's samples: nothing when it does not
/// decode, is not IBC or is not relevant (or carries no packet); a transfer marker
/// (`None`) for a transfer; otherwise the observed key and signer.
pub open spec fn planned(m: AnyMsg) -> Seq<Option<(PacketKey, Seq<char>)>> {
    match decoding(m) {
        Some(d) => if d.spec_is_ibc() && d.spec_is_relevant() {
            match d {
                Msg::Transfer(_) => seq![None],
                _ => match (d.spec_packet(), d.spec_signer()) {
                    (Some(p), Some(sg)) => seq![Some((packet_key(p, m.type_url@), sg))],
                    _ => Seq::empty(),
                },
            }
        } else {
            Seq::empty()
        },
        None => Seq::empty(),
    }
}

/// The contributions of a transaction's messages, in message order.
pub open spec fn plan(msgs: Seq<AnyMsg>) -> Seq<Option<(PacketKey, Seq<char>)>>
    decreases msgs.len(),
{
    if msgs.len() == 0 {
        Seq::empty()
    } else {
        plan(msgs.drop_last()) + planned(msgs.last())
    }
}

pub open spec fn sample_plan(s: Sample) -> Option<(PacketKey, Seq<char>)> {
    match s {
        Sample::Packet(o) => Some(
            ((o.src_channel@, o.src_port@, o.dst_channel@, o.dst_port@, o.sequence, o.type_url@), o.signer@),
        ),
        Sample::Transfer(_) => None,
    }
}

pub open spec fn samples_plan(s: Seq<Sample>) -> Seq<Option<(PacketKey, Seq<char>)>> {
    s.map_values(|x: Sample| sample_plan(x))
}

/// How many of the messages fail to decode.
pub open spec fn undecodable_count(msgs: Seq<AnyMsg>) -> nat
    decreases msgs.len(),
{
    if msgs.len() == 0 {
        0
    } else {
        undecodable_count(msgs.drop_last()) + if decoding(msgs.last()) is None { 1nat } else { 0nat }
    }
}

/// The plan of two message lists one after the other is the two plans one after the other.
pub proof fn lemma_plan_concat(a: Seq<AnyMsg>, b: Seq<AnyMsg>)
    ensures
        plan(a + b) == plan(a) + plan(b),
    decreases b.len(),
{
    if b.len() == 0 {
        assert(a + b =~= a);
        assert(plan(b) =~= Seq::empty());
        assert(plan(a) + plan(b) =~= plan(a));
    } else {
        lemma_plan_concat(a, b.drop_last());
        assert((a + b).drop_last() =~= a + b.drop_last());
        assert((a + b).last() == b.last());
        assert(plan(a + b) =~= plan(a) + plan(b));
    }
}

/// A message that fails to decode affects no other message of its transaction: the
/// messages before it and after it contribute exactly as they would without it.
pub proof fn lemma_undecodable_skipped(msgs: Seq<AnyMsg>, i: int)
    requires
        0 <= i < msgs.len(),
        decoding(msgs[i]) is None,
    ensures
        plan(msgs) == plan(msgs.take(i)) + plan(msgs.skip(i + 1)),
{
    let before = msgs.take(i);
    let after = msgs.skip(i + 1);
    assert(msgs =~= before + seq![msgs[i]] + after);
    lemma_plan_concat(before + seq![msgs[i]], after);
    lemma_plan_concat(before, seq![msgs[i]]);
    assert(seq![msgs[i]].drop_last() =~= Seq::<AnyMsg>::empty());
    assert(seq![msgs[i]].last() == msgs[i]);
    assert(plan(Seq::<AnyMsg>::empty()) =~= Seq::empty());
    assert(planned(msgs[i]) =~= Seq::empty());
    assert(plan(seq![msgs[i]]) =~= Seq::empty());
    assert(plan(before) + plan(seq![msgs[i]]) =~= plan(before));
}

/// Ingests one raw transaction of `chain` at `height`: decodes the envelope, stores
/// the transaction (idempotently) under the upper-case hex SHA-256 of its canonical
/// bytes, then takes its messages in order. A message that fails to decode is listed
/// and skipped; IBC messages that carry or initiate a packet become samples, packet
/// carriers through the correlation step.
pub fn ingest_tx(store: &mut Store, chain: &str, height: u64, raw: &[u8]) -> (r: Result<TxReport, IngestError>)
    requires
        old(store).wf(),
    ensures
        final(store).wf(),
        extends(*old(store), *final(store)),
        tx_decoding(raw@) is None <==> r == Err::<TxReport, IngestError>(IngestError::Undecodable),
        tx_decoding(raw@) is None ==> *final(store) == *old(store),
        r == Err::<TxReport, IngestError>(IngestError::StoreFull) ==> old(store).txs@.len() >= u64::MAX
            && *final(store) == *old(store),
        final(store).txs@.len() <= old(store).txs@.len() + 1,
        r is Err ==> final(store).packets == old(store).packets,
        tx_decoding(raw@) matches Some(t) ==> (t.body is Some && (old(store).has_tx(chain@, tx_hash_of(t.canonical@))
            || old(store).txs@.len() < u64::MAX) ==> r is Ok),
        tx_decoding(raw@) matches Some(t) ==> (r != Err::<TxReport, IngestError>(IngestError::StoreFull)
            ==> final(store).has_tx(chain@, tx_hash_of(t.canonical@))),
        r == Err::<TxReport, IngestError>(IngestError::MissingBody) <==> (tx_decoding(raw@) matches Some(t)
            && t.body is None && r != Err::<TxReport, IngestError>(IngestError::StoreFull)),
        r matches Ok(rep) ==> tx_decoding(raw@) matches Some(t) && t.body matches Some(body) && {
            &&& rep.tx.chain@ == chain@
            &&& rep.tx.hash@ == tx_hash_of(t.canonical@)
            &&& final(store).tx_exists(rep.tx.id)
            &&& final(store).txs@[rep.tx.id - 1] == rep.tx
            &&& samples_plan(rep.samples@) == plan(body.messages@)
            &&& rep.undecodable@.len() == undecodable_count(body.messages@)
            &&& (!old(store).has_tx(chain@, tx_hash_of(t.canonical@)) ==> rep.tx.height == height
                && rep.tx.memo@ == body.memo@)
            &&& forall|k: int| old(store).packets@.len() <= k < final(store).packets@.len()
                ==> (#[trigger] final(store).packets@[k]).tx_id == rep.tx.id
                && plans_key(plan(body.messages@), final(store).packets@[k].key())
        },
        tx_covered(*old(store), chain@, raw@) ==> *final(store) == *old(store) && r is Ok,
        r is Ok && final(store).packets@.len() < u64::MAX ==> tx_covered(*final(store), chain@, raw@),
{
    let ghost s0 = *store;
    proof {
        lemma_extends_refl(s0);
    }
    let env = match decode_tx(raw) {
        Some(e) => e,
        None => return Err(IngestError::Undecodable),
    };
    let digest = sha256(env.canonical.as_slice());
    let hash = to_hex_upper(digest.as_slice());
    let memo = match &env.body {
        Some(b) => b.memo.clone(),
        None => String::new(),
    };
    let ghost cov = tx_covered(s0, chain@, raw@);
    let tx = match store.insert_tx(chain, height, hash.as_str(), memo.as_str()) {
        Some(t) => t,
        None => {
            assert(!cov);
            return Err(IngestError::StoreFull);
        },
    };
    let ghost s1 = *store;
    assert(s1.txs@.subrange(0, s0.txs@.len() as int) =~= s0.txs@);
    assert(s1.packets@.subrange(0, s0.packets@.len() as int) =~= s0.packets@);
    let mut body = match env.body {
        Some(b) => b,
        None => return Err(IngestError::MissingBody),
    };
    assert(memo@ == body.memo@);
    let ghost msgs = body.messages@;
    let ghost txs0 = store.txs;
    proof {
        lemma_extends_refl(s1);
        if cov {
            let w = choose|w: int|
                0 <= w < s0.txs@.len() && #[trigger] s0.txs@[w].chain@ == chain@ && s0.txs@[w].hash@
                    == tx_hash_of(env.canonical@) && rows_cover(s0, (w + 1) as u64, plan(msgs));
            assert(s0.has_tx(chain@, hash@));
            assert(w == tx.id - 1);
        }
    }
    let mut samples: Vec<Sample> = Vec::new();
    let mut undecodable: Vec<DecodeError> = Vec::new();
    let n = body.messages.len();
    let mut i: usize = 0;
    assert(msgs.take(0) =~= Seq::<AnyMsg>::empty());
    assert(samples_plan(samples@) =~= Seq::empty());
    while i < n
        invariant
            store.wf(),
            store.txs == txs0,
            store.tx_exists(tx.id),
            store.txs@[tx.id - 1] == tx,
            store.has_tx(chain@, hash@),
            n == msgs.len(),
            body.messages@.len() == n,
            i <= n,
            forall|j: int| i <= j < n ==> #[trigger] body.messages@[j] == msgs[j],
            samples_plan(samples@) == plan(msgs.take(i as int)),
            undecodable@.len() == undecodable_count(msgs.take(i as int)),
            extends(s1, *store),
            cov ==> *store == s1,
            cov ==> rows_cover(s1, tx.id, plan(msgs)),
            store.packets@.len() < u64::MAX ==> rows_cover(*store, tx.id, plan(msgs.take(i as int))),
            s1.packets == s0.packets,
            forall|k: int| s0.packets@.len() <= k < store.packets@.len()
                ==> (#[trigger] store.packets@[k]).tx_id == tx.id && plans_key(plan(msgs.take(i as int)), store.packets@[k].key()),
        decreases n - i,
    {
        let mut m = AnyMsg { type_url: String::new(), value: Vec::new() };
        body.messages.set_and_swap(i, &mut m);
        assert(m == msgs[i as int]);
        let type_url = m.type_url.clone();
        let ghost mm = m;
        let ghost before = samples@;
        let ghost sb = *store;
        proof {
            lemma_extends_refl(sb);
        }
        assert(msgs.take(i + 1).drop_last() =~= msgs.take(i as int));
        assert(msgs.take(i + 1).last() == mm);
        proof {
            assert(msgs =~= msgs.take(i + 1) + msgs.skip(i + 1));
            lemma_plan_concat(msgs.take(i + 1), msgs.skip(i + 1));
            assert(plan(msgs.take(i + 1)) == plan(msgs.take(i as int)) + planned(mm));
        }
        match Msg::decode(m) {
            Err(e) => {
                undecodable.push(e);
                assert(samples_plan(samples@) =~= plan(msgs.take(i + 1)));
                assert(planned(mm) =~= Seq::empty());
            },
            Ok(d) => {
                if d.is_ibc() && d.is_relevant() {
                    match d {
                        Msg::Transfer(t) => {
                            samples.push(Sample::Transfer(t));
                            assert(samples_plan(samples@) =~= samples_plan(before) + seq![None]);
                            assert(planned(mm) =~= seq![None]);
                        },
                        other => {
                            match (other.packet(), other.signer()) {
                                (Some(p), Some(sg)) => {
                                    proof {
                                        if cov {
                                            let k = packet_key(*p, type_url@);
                                            let idx = plan(msgs.take(i as int)).len() as int;
                                            assert(plan(msgs)[idx] == planned(mm)[0]);
                                            assert(planned(mm)[0] == Some((k, sg@)));
                                        }
                                    }
                                    let o = correlate(store, &tx, type_url.as_str(), sg, p);
                                    samples.push(Sample::Packet(o));
                                    assert(samples_plan(samples@) =~= samples_plan(before) + planned(mm));
                                    proof {
                                        let k = packet_key(*p, type_url@);
                                        assert(planned(mm) =~= seq![Some((k, sg@))]);
                                        if store.packets@.len() < u64::MAX {
                                            if !sb.has_row_in_tx(tx.id, k) {
                                                let last = (store.packets@.len() - 1) as int;
                                                assert(store.packets@[last].tx_id == tx.id && store.packets@[last].key() == k);
                                            }
                                            assert(store.has_row_in_tx(tx.id, k));
                                        }
                                    }
                                },
                                _ => {
                                    assert(planned(mm) =~= Seq::empty());
                                    assert(samples_plan(samples@) =~= plan(msgs.take(i + 1)));
                                },
                            }
                        },
                    }
                } else {
                    assert(planned(mm) =~= Seq::empty());
                    assert(samples_plan(samples@) =~= plan(msgs.take(i + 1)));
                }
            },
        }
        proof {
            let pre = plan(msgs.take(i as int));
            assert forall|k: int| s0.packets@.len() <= k < store.packets@.len()
                implies (#[trigger] store.packets@[k]).tx_id == tx.id && plans_key(plan(msgs.take(i + 1)), store.packets@[k].key()) by {
                if k < sb.packets@.len() {
                    assert(store.packets@[k] == sb.packets@[k]);
                    let j = choose|j: int| 0 <= j < pre.len() && (#[trigger] pre[j]) is Some && pre[j]->Some_0.0 == sb.packets@[k].key();
                    assert(plan(msgs.take(i + 1))[j] == pre[j]);
                } else {
                    let j = pre.len() as int;
                    assert(plan(msgs.take(i + 1))[j] == planned(mm)[0]);
                }
            }
            lemma_extends_trans(s1, sb, *store);
            if store.packets@.len() < u64::MAX {
                lemma_rows_cover_extends(sb, *store, tx.id, plan(msgs.take(i as int)));
                assert(rows_cover(*store, tx.id, planned(mm)));
                lemma_rows_cover_concat(*store, tx.id, plan(msgs.take(i as int)), planned(mm));
            }
        }
        i += 1;
    }
    assert(msgs.take(n as int) =~= msgs);
    proof {
        lemma_extends_trans(s0, s1, *store);
        if store.packets@.len() < u64::MAX {
            assert(store.txs@[tx.id - 1].chain@ == chain@);
            assert(tx_covered(*store, chain@, raw@));
        }
    }
    Ok(TxReport { tx, samples, undecodable })
}

/// Ingests the raw transactions of a block in order, stopping at the first one that
/// cannot be ingested; the error carries the reports of the transactions before it.
/// Ingesting is idempotent: afterwards the block is covered, and ingesting a covered
/// block changes nothing, so ingesting a block again leaves the store as it was.
pub fn ingest_block(store: &mut Store, chain: &str, height: u64, txs: &Vec<Vec<u8>>) -> (r: Result<Vec<TxReport>, BlockError>)
    requires
        old(store).wf(),
    ensures
        final(store).wf(),
        extends(*old(store), *final(store)),
        block_covered(*old(store), chain@, txs@) ==> *final(store) == *old(store) && r is Ok,
        r is Ok && final(store).packets@.len() < u64::MAX ==> block_covered(*final(store), chain@, txs@),
        (forall|i: int| 0 <= i < txs@.len() ==> (tx_decoding(#[trigger] txs@[i]@) matches Some(t) && t.body is Some))
            && old(store).txs@.len() + txs@.len() < u64::MAX ==> r is Ok,
        r matches Ok(reps) ==> {
            &&& reps@.len() == txs@.len()
            &&& forall|i: int| 0 <= i < txs@.len() ==> (tx_decoding(#[trigger] txs@[i]@) matches Some(t)
                && t.body is Some && reps@[i].tx.hash@ == tx_hash_of(t.canonical@) && reps@[i].tx.chain@ == chain@
                && final(store).has_tx(chain@, tx_hash_of(t.canonical@)))
        },
        r matches Err(e) ==> {
            &&& e.index < txs@.len()
            &&& e.reports@.len() == e.index
            &&& (e.error == IngestError::Undecodable <==> tx_decoding(txs@[e.index as int]@) is None)
            &&& (e.error == IngestError::MissingBody <==> (tx_decoding(txs@[e.index as int]@) matches Some(t)
                && t.body is None && e.error != IngestError::StoreFull))
            &&& (e.error == IngestError::StoreFull ==> final(store).txs@.len() >= u64::MAX)
            &&& forall|i: int| 0 <= i < e.index ==> (tx_decoding(#[trigger] txs@[i]@) matches Some(t)
                && t.body is Some && e.reports@[i].tx.hash@ == tx_hash_of(t.canonical@)
                && final(store).has_tx(chain@, tx_hash_of(t.canonical@)))
        },
{
    let ghost s0 = *store;
    proof {
        lemma_extends_refl(s0);
    }
    let mut reports: Vec<TxReport> = Vec::new();
    let mut i: usize = 0;
    while i < txs.len()
        invariant
            store.wf(),
            s0 == *old(store),
            extends(s0, *store),
            block_covered(s0, chain@, txs@) ==> *store == s0,
            store.packets@.len() < u64::MAX ==> forall|j: int| 0 <= j < i ==> tx_covered(*store, chain@, #[trigger] txs@[j]@),
            i <= txs@.len(),
            reports@.len() == i,
            forall|j: int| 0 <= j < i ==> (tx_decoding(#[trigger] txs@[j]@) matches Some(t)
                && t.body is Some && reports@[j].tx.hash@ == tx_hash_of(t.canonical@) && reports@[j].tx.chain@ == chain@
                && store.has_tx(chain@, tx_hash_of(t.canonical@))),
            store.txs@.len() <= s0.txs@.len() + i,
        decreases txs@.len() - i,
    {
        let ghost sb = *store;
        proof {
            if block_covered(s0, chain@, txs@) {
                assert(tx_covered(sb, chain@, txs@[i as int]@));
            }
        }
        proof {
            if (forall|x: int| 0 <= x < txs@.len() ==> (tx_decoding(#[trigger] txs@[x]@) matches Some(t) && t.body is Some))
                && s0.txs@.len() + txs@.len() < u64::MAX {
                assert(tx_decoding(txs@[i as int]@) matches Some(t) && t.body is Some);
            }
        }
        match ingest_tx(store, chain, height, txs[i].as_slice()) {
            Ok(rep) => reports.push(rep),
            Err(error) => {
                proof {
                    lemma_extends_trans(s0, sb, *store);
                }
                return Err(BlockError { index: i, error, reports });
            },
        }
        proof {
            assert forall|j: int| 0 <= j < i implies (tx_decoding(#[trigger] txs@[j]@) matches Some(t)
                && store.has_tx(chain@, tx_hash_of(t.canonical@))) by {
                let t = tx_decoding(txs@[j]@)->Some_0;
                lemma_has_tx_extends(sb, *store, chain@, tx_hash_of(t.canonical@));
            }
            lemma_extends_trans(s0, sb, *store);
            if store.packets@.len() < u64::MAX {
                assert forall|j: int| 0 <= j < i + 1 implies tx_covered(*store, chain@, #[trigger] txs@[j]@) by {
                    if j < i {
                        lemma_covered_extends(sb, *store, chain@, txs@[j]@);
                    }
                }
            }
        }
        i += 1;
    }
    Ok(reports)
}

} // verus!
