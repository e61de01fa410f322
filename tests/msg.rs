use chainpulse::codec::to_hex_lower;
use chainpulse::msg::{
    data_hash, AnyMsg, FungibleTokenPacketData, Msg, Packet, PacketMsg, TransferMsg, UniversalPacketInfo,
    ACKNOWLEDGEMENT_URL, CHAN_OPEN_ACK_URL, CHAN_OPEN_CONFIRM_URL, CHAN_OPEN_INIT_URL, CHAN_OPEN_TRY_URL,
    CREATE_CLIENT_URL, RECV_PACKET_URL, TIMEOUT_URL, UPDATE_CLIENT_URL,
};
use ibc_proto::ibc;
use prost::Message;
use sha2::Digest;

fn packet(port: &str, data: Vec<u8>, timeout_timestamp: u64) -> Packet {
    Packet {
        sequence: 123,
        source_port: port.to_string(),
        source_channel: "channel-0".to_string(),
        destination_port: "transfer".to_string(),
        destination_channel: "channel-141".to_string(),
        data,
        timeout_height: None,
        timeout_timestamp,
    }
}

#[test]
fn test_parse_fungible_token_packet_data() {
    let data = r#"{
            "denom": "uosmo",
            "amount": "1000000",
            "sender": "osmo1sender123",
            "receiver": "cosmos1receiver456",
            "memo": "test transfer"
        }"#;

    let parsed = FungibleTokenPacketData::parse(data.as_bytes()).unwrap();

    assert_eq!(parsed.denom, "uosmo");
    assert_eq!(parsed.amount, "1000000");
    assert_eq!(parsed.sender, "osmo1sender123");
    assert_eq!(parsed.receiver, "cosmos1receiver456");
    assert_eq!(parsed.memo, "test transfer");
}

#[test]
fn test_parse_fungible_token_packet_data_no_memo() {
    let data = r#"{
            "denom": "uatom",
            "amount": "5000000",
            "sender": "cosmos1sender789",
            "receiver": "osmo1receiver012"
        }"#;

    let parsed = FungibleTokenPacketData::parse(data.as_bytes()).unwrap();

    assert_eq!(parsed.denom, "uatom");
    assert_eq!(parsed.amount, "5000000");
    assert_eq!(parsed.sender, "cosmos1sender789");
    assert_eq!(parsed.receiver, "osmo1receiver012");
    assert_eq!(parsed.memo, "");
}

#[test]
fn test_universal_packet_info_from_transfer_packet() {
    let data = br#"{"denom":"uosmo","amount":"1000000","sender":"osmo1sender","receiver":"cosmos1receiver","memo":"test"}"#.to_vec();
    let packet = Packet {
        sequence: 123,
        source_port: "transfer".to_string(),
        source_channel: "channel-0".to_string(),
        destination_port: "transfer".to_string(),
        destination_channel: "channel-141".to_string(),
        data,
        timeout_height: None,
        timeout_timestamp: 1234567890,
    };

    let info = UniversalPacketInfo::from_packet(&packet);

    assert_eq!(info.sequence, 123);
    assert_eq!(info.source_channel, "channel-0");
    assert_eq!(info.destination_channel, "channel-141");
    assert_eq!(info.source_port, "transfer");
    assert_eq!(info.destination_port, "transfer");
    assert_eq!(info.sender, Some("osmo1sender".to_string()));
    assert_eq!(info.receiver, Some("cosmos1receiver".to_string()));
    assert_eq!(info.amount, Some("1000000".to_string()));
    assert_eq!(info.denom, Some("uosmo".to_string()));
    assert_eq!(info.transfer_memo, Some("test".to_string()));
    assert_eq!(info.ibc_version, "v1");
    assert_eq!(info.timeout_timestamp, Some(1234567890));
}

#[test]
fn test_universal_packet_info_from_non_transfer_packet() {
    let packet = Packet {
        sequence: 456,
        source_port: "icahost".to_string(),
        source_channel: "channel-1".to_string(),
        destination_port: "icacontroller".to_string(),
        destination_channel: "channel-2".to_string(),
        data: vec![1, 2, 3, 4],
        timeout_height: None,
        timeout_timestamp: 0,
    };

    let info = UniversalPacketInfo::from_packet(&packet);

    assert_eq!(info.sequence, 456);
    assert_eq!(info.source_channel, "channel-1");
    assert_eq!(info.destination_channel, "channel-2");
    assert_eq!(info.source_port, "icahost");
    assert_eq!(info.destination_port, "icacontroller");
    assert_eq!(info.sender, None);
    assert_eq!(info.receiver, None);
    assert_eq!(info.amount, None);
    assert_eq!(info.denom, None);
    assert_eq!(info.transfer_memo, None);
    assert_eq!(info.ibc_version, "v1");
    assert_eq!(info.timeout_timestamp, None);
}

#[test]
fn fungible_token_extraction_and_hash() {
    let payload = br#"{"denom":"uatom","amount":"5","sender":"a","receiver":"b"}"#.to_vec();
    let info = UniversalPacketInfo::from_packet(&packet("transfer", payload.clone(), 7));
    assert_eq!(info.sender.as_deref(), Some("a"));
    assert_eq!(info.receiver.as_deref(), Some("b"));
    assert_eq!(info.denom.as_deref(), Some("uatom"));
    assert_eq!(info.amount.as_deref(), Some("5"));
    assert_eq!(info.transfer_memo.as_deref(), Some(""));
    assert_eq!(info.ibc_version, "v1");
    assert_eq!(info.data_hash, format!("{:x}", sha2::Sha256::digest(&payload)));
}

#[test]
fn transfer_port_with_unparsable_payload_has_no_user_data() {
    let info = UniversalPacketInfo::from_packet(&packet("transfer", b"not json".to_vec(), 0));
    assert_eq!(info.sender, None);
    assert_eq!(info.denom, None);
    assert_eq!(info.transfer_memo, None);
}

#[test]
fn non_transfer_port_ignores_a_transfer_payload() {
    let payload = br#"{"denom":"uatom","amount":"5","sender":"a","receiver":"b"}"#.to_vec();
    let info = UniversalPacketInfo::from_packet(&packet("icahost", payload, 0));
    assert_eq!(info.sender, None);
}

#[test]
fn data_hash_is_deterministic_and_known() {
    let empty = data_hash(&[]);
    assert_eq!(empty, "e3b0c44298fc1c149afbf4c8996fb92427ae41e4649b934ca495991b7852b855");
    assert_eq!(data_hash(b"abc"), data_hash(b"abc"));
    assert_ne!(data_hash(b"abc"), data_hash(b"abd"));
}

#[test]
fn zero_timeout_is_absent() {
    let info = UniversalPacketInfo::from_packet(&packet("icahost", vec![], 0));
    assert_eq!(info.timeout_timestamp, None);
    let info = UniversalPacketInfo::from_packet(&packet("icahost", vec![], 5));
    assert_eq!(info.timeout_timestamp, Some(5));
}

#[test]
fn lower_hex_of_bytes() {
    assert_eq!(to_hex_lower(&[0x00, 0xab, 0x7f, 0xff]), "00ab7fff");
    assert_eq!(to_hex_lower(&[]), "");
}

#[test]
fn transfer_payload_round_trip() {
    let payload = r#"{"denom":"uatom","amount":"5","sender":"a","receiver":"b","memo":"m"}"#;
    let parsed = FungibleTokenPacketData::parse(payload.as_bytes()).unwrap();
    let mut map = serde_json::Map::new();
    map.insert("denom".to_string(), serde_json::Value::String(parsed.denom.clone()));
    map.insert("amount".to_string(), serde_json::Value::String(parsed.amount.clone()));
    map.insert("sender".to_string(), serde_json::Value::String(parsed.sender.clone()));
    map.insert("receiver".to_string(), serde_json::Value::String(parsed.receiver.clone()));
    map.insert("memo".to_string(), serde_json::Value::String(parsed.memo.clone()));
    let reserialized = serde_json::to_vec(&serde_json::Value::Object(map)).unwrap();
    let a: serde_json::Value = serde_json::from_str(payload).unwrap();
    let b: serde_json::Value = serde_json::from_slice(&reserialized).unwrap();
    assert_eq!(a, b);
}

#[test]
fn decode_dispatches_on_type_url() {
    let proto_packet = ibc_proto::ibc::core::channel::v1::Packet {
        sequence: 7,
        source_port: "transfer".to_string(),
        source_channel: "channel-0".to_string(),
        destination_port: "transfer".to_string(),
        destination_channel: "channel-1".to_string(),
        data: vec![9],
        timeout_height: None,
        timeout_timestamp: 0,
    };
    let recv = ibc_proto::ibc::core::channel::v1::MsgRecvPacket {
        packet: Some(proto_packet),
        proof_commitment: vec![],
        proof_height: None,
        signer: "relayer".to_string(),
    };
    let any = AnyMsg { type_url: RECV_PACKET_URL.to_string(), value: recv.encode_to_vec() };
    let msg = Msg::decode(any).unwrap();
    assert!(msg.is_ibc());
    assert!(msg.is_relevant());
    assert_eq!(msg.signer(), Some("relayer"));
    let p = msg.packet().unwrap();
    assert_eq!(p.sequence, 7);
    assert_eq!(p.data, vec![9]);
    assert_eq!(msg.describe(), "RecvPacket: channel-0 -> channel-1");

    let bad = AnyMsg { type_url: RECV_PACKET_URL.to_string(), value: vec![0xff, 0xff, 0xff] };
    let err = Msg::decode(bad).unwrap_err();
    assert_eq!(err.type_url, RECV_PACKET_URL);

    let other = AnyMsg { type_url: "/cosmos.bank.v1beta1.MsgSend".to_string(), value: vec![1] };
    let msg = Msg::decode(other.clone()).unwrap();
    assert_eq!(msg, Msg::Other(other));
    assert!(!msg.is_ibc());
    assert!(!msg.is_relevant());
    assert_eq!(msg.signer(), None);
    assert_eq!(msg.describe(), "Unhandled msg: /cosmos.bank.v1beta1.MsgSend");

    let ibc_other = Msg::decode(AnyMsg { type_url: "/ibc.core.connection.v1.MsgConnectionOpenInit".to_string(), value: vec![] }).unwrap();
    assert!(ibc_other.is_ibc());
    assert!(!ibc_other.is_relevant());
}

#[test]
fn transfer_signer_is_sender() {
    let t = Msg::Transfer(TransferMsg {
        source_port: "transfer".to_string(),
        source_channel: "channel-0".to_string(),
        sender: "osmo1abc".to_string(),
        receiver: "cosmos1xyz".to_string(),
    });
    assert_eq!(t.signer(), Some("osmo1abc"));
    assert!(t.transfer().is_some());
    assert!(t.packet().is_none());
    assert_eq!(t.describe(), "Transfer: channel-0/transfer");
    let r = Msg::RecvPacket(PacketMsg { packet: None, signer: "s".to_string() });
    assert!(r.transfer().is_none());
    assert_eq!(r.describe(), "RecvPacket");
}

#[test]
fn every_recognized_message_decodes() {
    let p = ibc::core::channel::v1::Packet {
        sequence: 3,
        source_port: "transfer".to_string(),
        source_channel: "channel-5".to_string(),
        destination_port: "transfer".to_string(),
        destination_channel: "channel-6".to_string(),
        data: vec![],
        timeout_height: Some(ibc::core::client::v1::Height { revision_number: 1, revision_height: 99 }),
        timeout_timestamp: 11,
    };
    let decode = |url: &str, value: Vec<u8>| Msg::decode(AnyMsg { type_url: url.to_string(), value }).unwrap();

    let ack = ibc::core::channel::v1::MsgAcknowledgement {
        packet: Some(p.clone()),
        acknowledgement: vec![],
        proof_acked: vec![],
        proof_height: None,
        signer: "acker".to_string(),
    };
    let m = decode(ACKNOWLEDGEMENT_URL, ack.encode_to_vec());
    assert!(matches!(&m, Msg::Acknowledgement(_)));
    assert_eq!(m.signer(), Some("acker"));
    let packet = m.packet().unwrap();
    assert_eq!(packet.timeout_height, Some(chainpulse::msg::Height { revision_number: 1, revision_height: 99 }));
    assert_eq!(packet.timeout_timestamp, 11);
    assert_eq!(m.describe(), "Acknowledgement: channel-5 -> channel-6");

    let timeout = ibc::core::channel::v1::MsgTimeout {
        packet: Some(p),
        proof_unreceived: vec![],
        proof_height: None,
        next_sequence_recv: 4,
        signer: "timer".to_string(),
    };
    let m = decode(TIMEOUT_URL, timeout.encode_to_vec());
    assert!(matches!(&m, Msg::Timeout(_)));
    assert_eq!(m.signer(), Some("timer"));

    let create = ibc::core::client::v1::MsgCreateClient { client_state: None, consensus_state: None, signer: "c".to_string() };
    let m = decode(CREATE_CLIENT_URL, create.encode_to_vec());
    assert_eq!(m.signer(), Some("c"));
    assert!(!m.is_relevant());
    assert_eq!(m.describe(), "CreateClient");

    let update = ibc::core::client::v1::MsgUpdateClient { client_id: "07-tendermint-1".to_string(), header: None, signer: "u".to_string() };
    let m = decode(UPDATE_CLIENT_URL, update.encode_to_vec());
    assert_eq!(m.describe(), "UpdateClient: 07-tendermint-1");

    let init = ibc::core::channel::v1::MsgChannelOpenInit { port_id: "transfer".to_string(), channel: None, signer: "i".to_string() };
    assert_eq!(decode(CHAN_OPEN_INIT_URL, init.encode_to_vec()).describe(), "ChanOpenInit: transfer");

    let try_msg = ibc::core::channel::v1::MsgChannelOpenTry {
        port_id: "icahost".to_string(),
        previous_channel_id: String::new(),
        channel: None,
        counterparty_version: String::new(),
        proof_init: vec![],
        proof_height: None,
        signer: "t".to_string(),
    };
    assert_eq!(decode(CHAN_OPEN_TRY_URL, try_msg.encode_to_vec()).describe(), "ChanOpenTry: icahost");

    let open_ack = ibc::core::channel::v1::MsgChannelOpenAck {
        port_id: "transfer".to_string(),
        channel_id: "channel-9".to_string(),
        counterparty_channel_id: String::new(),
        counterparty_version: String::new(),
        proof_try: vec![],
        proof_height: None,
        signer: "a".to_string(),
    };
    assert_eq!(decode(CHAN_OPEN_ACK_URL, open_ack.encode_to_vec()).describe(), "ChanOpenAck: channel-9/transfer");

    let confirm = ibc::core::channel::v1::MsgChannelOpenConfirm {
        port_id: "transfer".to_string(),
        channel_id: "channel-8".to_string(),
        proof_ack: vec![],
        proof_height: None,
        signer: "f".to_string(),
    };
    let m = decode(CHAN_OPEN_CONFIRM_URL, confirm.encode_to_vec());
    assert_eq!(m.describe(), "ChanOpenConfirm: channel-8/transfer");
    assert_eq!(m.signer(), Some("f"));
}

#[test]
fn transfer_payload_sequence_form() {
    let d = FungibleTokenPacketData::parse(br#"["uatom","5","a","b"]"#).unwrap();
    assert_eq!((d.denom.as_str(), d.amount.as_str(), d.sender.as_str(), d.receiver.as_str(), d.memo.as_str()), ("uatom", "5", "a", "b", ""));
    let d = FungibleTokenPacketData::parse(br#"["uatom","5","a","b","m"]"#).unwrap();
    assert_eq!(d.memo, "m");
    assert_eq!(FungibleTokenPacketData::parse(br#"["uatom","5","a"]"#), None);
    assert_eq!(FungibleTokenPacketData::parse(br#"["uatom","5","a","b","m","x"]"#), None);
}

#[test]
fn transfer_payload_memo_must_be_a_string() {
    assert_eq!(FungibleTokenPacketData::parse(br#"{"denom":"d","amount":"1","sender":"a","receiver":"b","memo":5}"#), None);
    assert_eq!(FungibleTokenPacketData::parse(br#"{"denom":"d","amount":"1","sender":"a","receiver":"b","memo":null}"#), None);
    assert_eq!(FungibleTokenPacketData::parse(br#"{"denom":"d","amount":1,"sender":"a","receiver":"b"}"#), None);
    assert!(FungibleTokenPacketData::parse(br#"{"denom":"d","amount":"1","sender":"a","receiver":"b","extra":[1]}"#).is_some());
}
