use chainpulse::client::{BlockResults, EventAttribute, TxEvent, TxResult};
use chainpulse::events::{attribute, process_acknowledge_packet_event, process_block, process_send_packet_event, process_timeout_packet_event, sequence_of};
use chainpulse::store::Store;

fn attrs(pairs: &[(&str, &str)]) -> Vec<EventAttribute> {
    pairs.iter().map(|(k, v)| EventAttribute { key: k.to_string(), value: v.to_string() }).collect()
}

fn send_attrs(seq: &str) -> Vec<EventAttribute> {
    attrs(&[
        ("packet_sequence", seq),
        ("packet_src_channel", "channel-0"),
        ("packet_src_port", "transfer"),
        ("packet_dst_channel", "channel-1"),
        ("packet_dst_port", "transfer"),
        ("packet_timeout_timestamp", "0"),
    ])
}

fn store_with_txs(n: u64) -> Store {
    let mut store = Store::new();
    for i in 0..n {
        store.insert_tx("a-1", i, &format!("H{i}"), "").unwrap();
    }
    store
}

#[test]
fn send_then_acknowledge() {
    let mut store = store_with_txs(2);
    assert!(process_send_packet_event(&mut store, 1, &send_attrs("9")));
    let row = &store.packets[0];
    assert_eq!(row.msg_type_url, "send_packet");
    assert!(!row.effected);
    assert_eq!(row.sequence, 9);
    assert_eq!(row.timeout_timestamp, None);
    process_acknowledge_packet_event(&mut store, 2, &send_attrs("9"));
    let row = &store.packets[0];
    assert!(row.effected);
    assert_eq!(row.effected_tx, Some(2));
    assert_eq!(row.msg_type_url, "send_packet");
}

#[test]
fn send_then_timeout() {
    let mut store = store_with_txs(2);
    process_send_packet_event(&mut store, 1, &send_attrs("4"));
    process_timeout_packet_event(&mut store, 2, &send_attrs("4"));
    let row = &store.packets[0];
    assert!(row.effected);
    assert_eq!(row.effected_tx, Some(2));
    assert_eq!(row.msg_type_url, "timeout_packet");
}

#[test]
fn acknowledge_of_another_sequence_changes_nothing() {
    let mut store = store_with_txs(2);
    process_send_packet_event(&mut store, 1, &send_attrs("4"));
    let before = store.clone();
    process_acknowledge_packet_event(&mut store, 2, &send_attrs("5"));
    assert_eq!(store, before);
}

#[test]
fn send_packet_payload_extraction() {
    let mut store = store_with_txs(1);
    let payload = br#"{"denom":"uatom","amount":"5","sender":"a","receiver":"b"}"#;
    let hex: String = payload.iter().map(|b| format!("{b:02x}")).collect();
    let mut a = send_attrs("1");
    a.push(EventAttribute { key: "packet_data".to_string(), value: hex });
    process_send_packet_event(&mut store, 1, &a);
    let row = &store.packets[0];
    assert_eq!(row.sender.as_deref(), Some("a"));
    assert_eq!(row.denom.as_deref(), Some("uatom"));
    assert_eq!(row.data_hash.as_deref(), Some(chainpulse::msg::data_hash(payload).as_str()));
}

#[test]
fn last_attribute_wins_and_bad_sequence_is_zero() {
    let a = attrs(&[("k", "1"), ("k", "2")]);
    assert_eq!(attribute(&a, "k"), Some("2"));
    assert_eq!(attribute(&a, "x"), None);
    assert_eq!(sequence_of(&attrs(&[("packet_sequence", "abc")])), 0);
    assert_eq!(sequence_of(&attrs(&[("packet_sequence", "42")])), 42);
}

#[test]
fn block_results_apply_to_their_transactions() {
    let mut store = Store::new();
    let tx = ibc_proto::cosmos::tx::v1beta1::Tx {
        body: Some(ibc_proto::cosmos::tx::v1beta1::TxBody {
            messages: vec![],
            memo: String::new(),
            timeout_height: 0,
            extension_options: vec![],
            non_critical_extension_options: vec![],
        }),
        auth_info: None,
        signatures: vec![],
    };
    let raw = prost::Message::encode_to_vec(&tx);
    let results = BlockResults {
        height: 3,
        txs_results: vec![TxResult { code: 0, events: vec![TxEvent { type_str: "send_packet".to_string(), attributes: send_attrs("3") }] }],
    };
    let rep = process_block(&mut store, "a-1", 3, &vec![raw], Some(&results)).unwrap();
    assert_eq!(rep.events, Some(Ok(1)));
    assert_eq!(store.packets.len(), 1);
    assert_eq!(store.packets[0].tx_id, rep.txs[0].tx.id);
}
