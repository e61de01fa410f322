use chainpulse::ingest::{correlate, ingest_block, ingest_tx, IngestError, Sample};
use chainpulse::msg::{Packet, RECV_PACKET_URL, TRANSFER_URL};
use chainpulse::store::Store;
use ibc_proto::ibc;
use prost::Message;
use sha2::Digest;

fn proto_packet(seq: u64, data: Vec<u8>) -> ibc::core::channel::v1::Packet {
    ibc::core::channel::v1::Packet {
        sequence: seq,
        source_port: "transfer".to_string(),
        source_channel: "channel-0".to_string(),
        destination_port: "transfer".to_string(),
        destination_channel: "channel-141".to_string(),
        data,
        timeout_height: None,
        timeout_timestamp: 0,
    }
}

fn recv_any(seq: u64, signer: &str) -> ibc_proto::google::protobuf::Any {
    let msg = ibc::core::channel::v1::MsgRecvPacket {
        packet: Some(proto_packet(seq, vec![1, 2, 3])),
        proof_commitment: vec![],
        proof_height: None,
        signer: signer.to_string(),
    };
    ibc_proto::google::protobuf::Any { type_url: RECV_PACKET_URL.to_string(), value: msg.encode_to_vec() }
}

fn transfer_any(sender: &str) -> ibc_proto::google::protobuf::Any {
    let msg = ibc::apps::transfer::v1::MsgTransfer {
        source_port: "transfer".to_string(),
        source_channel: "channel-0".to_string(),
        token: None,
        sender: sender.to_string(),
        receiver: "cosmos1receiver".to_string(),
        timeout_height: None,
        timeout_timestamp: 0,
        memo: String::new(),
    };
    ibc_proto::google::protobuf::Any { type_url: TRANSFER_URL.to_string(), value: msg.encode_to_vec() }
}

fn tx_bytes(messages: Vec<ibc_proto::google::protobuf::Any>, memo: &str) -> Vec<u8> {
    let tx = ibc_proto::cosmos::tx::v1beta1::Tx {
        body: Some(ibc_proto::cosmos::tx::v1beta1::TxBody {
            messages,
            memo: memo.to_string(),
            timeout_height: 0,
            extension_options: vec![],
            non_critical_extension_options: vec![],
        }),
        auth_info: None,
        signatures: vec![],
    };
    tx.encode_to_vec()
}

fn bodyless_tx() -> Vec<u8> {
    ibc_proto::cosmos::tx::v1beta1::Tx { body: None, auth_info: None, signatures: vec![vec![1]] }.encode_to_vec()
}

#[test]
fn effected_then_uneffected() {
    let mut store = Store::new();
    let t1 = tx_bytes(vec![recv_any(7, "relayer-a")], "first");
    let t2 = tx_bytes(vec![recv_any(7, "relayer-b")], "second");
    let r1 = ingest_block(&mut store, "a-1", 100, &vec![t1]).unwrap();
    let r2 = ingest_block(&mut store, "a-1", 101, &vec![t2]).unwrap();
    assert_eq!(store.packets.len(), 2);
    let first = &store.packets[0];
    let second = &store.packets[1];
    assert!(first.effected);
    assert_eq!(first.tx_id, r1[0].tx.id);
    assert!(!second.effected);
    assert_eq!(second.effected_tx, Some(r1[0].tx.id));
    assert_eq!(second.effected_signer.as_deref(), Some("relayer-a"));
    assert_eq!(second.tx_id, r2[0].tx.id);
    match &r1[0].samples[0] {
        Sample::Packet(o) => assert!(o.winner.is_none()),
        _ => panic!("expected a packet sample"),
    }
    match &r2[0].samples[0] {
        Sample::Packet(o) => {
            let w = o.winner.as_ref().unwrap();
            assert_eq!(w.signer, "relayer-a");
            assert_eq!(w.memo, "first");
            assert_eq!(o.signer, "relayer-b");
            assert_eq!(o.memo, "second");
        },
        _ => panic!("expected a packet sample"),
    }
}

#[test]
fn transfer_produces_no_row() {
    let mut store = Store::new();
    let t = tx_bytes(vec![transfer_any("osmo1sender")], "");
    let reps = ingest_block(&mut store, "osmosis-1", 5, &vec![t]).unwrap();
    assert_eq!(store.packets.len(), 0);
    assert_eq!(reps[0].samples.len(), 1);
    assert!(matches!(&reps[0].samples[0], Sample::Transfer(m) if m.sender == "osmo1sender"));
}

#[test]
fn tx_hash_is_upper_hex_sha256_of_canonical_bytes() {
    let mut store = Store::new();
    let raw = tx_bytes(vec![], "memo");
    let rep = ingest_tx(&mut store, "a-1", 1, &raw).unwrap();
    let canonical = ibc_proto::cosmos::tx::v1beta1::Tx::decode(raw.as_slice()).unwrap().encode_to_vec();
    let expected = format!("{:X}", sha2::Sha256::digest(&canonical));
    assert_eq!(rep.tx.hash, expected);
    assert_eq!(rep.tx.memo, "memo");
    assert_eq!(rep.tx.height, 1);
    assert_eq!(rep.tx.id, 1);
}

#[test]
fn same_transaction_stored_once() {
    let mut store = Store::new();
    let raw = tx_bytes(vec![], "x");
    let a = ingest_tx(&mut store, "a-1", 1, &raw).unwrap();
    let b = ingest_tx(&mut store, "a-1", 2, &raw).unwrap();
    assert_eq!(store.txs.len(), 1);
    assert_eq!(a.tx, b.tx);
    let c = ingest_tx(&mut store, "b-1", 2, &raw).unwrap();
    assert_eq!(store.txs.len(), 2);
    assert_ne!(c.tx.id, a.tx.id);
}

#[test]
fn reingesting_a_block_changes_nothing() {
    let mut store = Store::new();
    let block = vec![
        tx_bytes(vec![recv_any(1, "r1"), transfer_any("s")], "one"),
        tx_bytes(vec![recv_any(1, "r2"), recv_any(2, "r2")], "two"),
    ];
    ingest_block(&mut store, "a-1", 10, &block).unwrap();
    let once = store.clone();
    ingest_block(&mut store, "a-1", 10, &block).unwrap();
    ingest_block(&mut store, "a-1", 10, &block).unwrap();
    assert_eq!(store, once);
    assert_eq!(store.packets.len(), 3);
}

#[test]
fn effected_tx_points_into_the_same_chain() {
    let mut store = Store::new();
    ingest_block(&mut store, "a-1", 1, &vec![tx_bytes(vec![recv_any(3, "x")], "a")]).unwrap();
    ingest_block(&mut store, "b-1", 1, &vec![tx_bytes(vec![recv_any(3, "y")], "b")]).unwrap();
    ingest_block(&mut store, "b-1", 2, &vec![tx_bytes(vec![recv_any(3, "z")], "c")]).unwrap();
    assert!(store.packets[0].effected);
    assert!(store.packets[1].effected);
    assert!(!store.packets[2].effected);
    let t = store.packets[2].effected_tx.unwrap();
    assert_eq!(store.txs[(t - 1) as usize].chain, "b-1");
}

#[test]
fn missing_body_is_an_error_after_earlier_transactions() {
    let mut store = Store::new();
    let block = vec![tx_bytes(vec![recv_any(4, "r")], "ok"), bodyless_tx(), tx_bytes(vec![], "later")];
    let err = ingest_block(&mut store, "a-1", 3, &block).unwrap_err();
    assert_eq!(err.index, 1);
    assert_eq!(err.error, IngestError::MissingBody);
    assert_eq!(err.reports.len(), 1);
    assert_eq!(store.packets.len(), 1);
}

#[test]
fn undecodable_transaction_is_an_error() {
    let mut store = Store::new();
    assert_eq!(ingest_tx(&mut store, "a-1", 1, &[0xff, 0xff]), Err(IngestError::Undecodable));
    assert_eq!(store.txs.len(), 0);
}

#[test]
fn undecodable_message_is_skipped() {
    let mut store = Store::new();
    let broken = ibc_proto::google::protobuf::Any { type_url: RECV_PACKET_URL.to_string(), value: vec![0xff, 0xff, 0xff] };
    let raw = tx_bytes(vec![recv_any(1, "a"), broken, recv_any(2, "a")], "");
    let rep = ingest_tx(&mut store, "a-1", 1, &raw).unwrap();
    assert_eq!(rep.undecodable.len(), 1);
    assert_eq!(rep.samples.len(), 2);
    assert_eq!(store.packets.len(), 2);
    assert_eq!(store.packets[0].sequence, 1);
    assert_eq!(store.packets[1].sequence, 2);
}

#[test]
fn correlation_stores_transfer_fields() {
    let mut store = Store::new();
    let rep = ingest_tx(&mut store, "a-1", 1, &tx_bytes(vec![], "")).unwrap();
    let payload = br#"{"denom":"uatom","amount":"5","sender":"a","receiver":"b"}"#.to_vec();
    let p = Packet {
        sequence: 9,
        source_port: "transfer".to_string(),
        source_channel: "channel-0".to_string(),
        destination_port: "transfer".to_string(),
        destination_channel: "channel-1".to_string(),
        data: payload.clone(),
        timeout_height: None,
        timeout_timestamp: 0,
    };
    let o = correlate(&mut store, &rep.tx, RECV_PACKET_URL, "relayer", &p);
    assert!(o.winner.is_none());
    let row = &store.packets[0];
    assert_eq!(row.sender.as_deref(), Some("a"));
    assert_eq!(row.receiver.as_deref(), Some("b"));
    assert_eq!(row.denom.as_deref(), Some("uatom"));
    assert_eq!(row.amount.as_deref(), Some("5"));
    assert_eq!(row.ibc_version.as_deref(), Some("v1"));
    assert_eq!(row.timeout_timestamp, None);
    assert_eq!(row.data_hash.as_deref(), Some(format!("{:x}", sha2::Sha256::digest(&payload)).as_str()));
}
