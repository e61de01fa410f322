//! Decoded transaction messages and the uniform packet view extracted from them.

use vstd::prelude::*;

use crate::codec::{
    hex_lower_of, json_has_member, json_has_member_of, json_member_of, json_string_array, json_string_array_of,
    json_string_member, sha256, sha256_of, to_hex_lower,
};
use crate::proto::{
    ack_decoding, chan_open_ack_decoding, chan_open_confirm_decoding, chan_open_init_decoding,
    chan_open_try_decoding, create_client_decoding, decode_ack, decode_chan_open_ack,
    decode_chan_open_confirm, decode_chan_open_init, decode_chan_open_try, decode_create_client,
    decode_recv_packet, decode_timeout, decode_transfer, decode_update_client, recv_packet_decoding,
    timeout_decoding, transfer_decoding, update_client_decoding,
};
use crate::text::{concat, push_str, starts_with, str_eq};

verus! {

pub const CREATE_CLIENT_URL: &'static str = "/ibc.core.client.v1.MsgCreateClient";

pub const UPDATE_CLIENT_URL: &'static str = "/ibc.core.client.v1.MsgUpdateClient";

pub const TIMEOUT_URL: &'static str = "/ibc.core.channel.v1.MsgTimeout";

pub const RECV_PACKET_URL: &'static str = "/ibc.core.channel.v1.MsgRecvPacket";

pub const ACKNOWLEDGEMENT_URL: &'static str = "/ibc.core.channel.v1.MsgAcknowledgement";

pub const CHAN_OPEN_INIT_URL: &'static str = "/ibc.core.channel.v1.MsgChannelOpenInit";

pub const CHAN_OPEN_TRY_URL: &'static str = "/ibc.core.channel.v1.MsgChannelOpenTry";

pub const CHAN_OPEN_ACK_URL: &'static str = "/ibc.core.channel.v1.MsgChannelOpenAck";

pub const CHAN_OPEN_CONFIRM_URL: &'static str = "/ibc.core.channel.v1.MsgChannelOpenConfirm";

pub const TRANSFER_URL: &'static str = "/ibc.applications.transfer.v1.MsgTransfer";

/// The port of the standard fungible-token-transfer application.
pub const TRANSFER_PORT: &'static str = "transfer";

/// The version tag written on every packet record.
pub const IBC_VERSION_V1: &'static str = "v1";

/// A height on a revisioned chain.
#[derive(Clone, Copy, Debug, PartialEq, Eq, Structural)]
pub struct Height {
    pub revision_number: u64,
    pub revision_height: u64,
}

/// An IBC packet as carried by the packet-lifecycle messages.
#[derive(Clone, Debug, PartialEq, Eq)]
pub struct Packet {
    pub sequence: u64,
    pub source_port: String,
    pub source_channel: String,
    pub destination_port: String,
    pub destination_channel: String,
    pub data: Vec<u8>,
    pub timeout_height: Option<Height>,
    pub timeout_timestamp: u64,
}

/// An "any-typed" message: a type URL and the encoded message.
#[derive(Clone, Debug, PartialEq, Eq)]
pub struct AnyMsg {
    pub type_url: String,
    pub value: Vec<u8>,
}

#[derive(Clone, Debug, PartialEq, Eq)]
pub struct CreateClientMsg {
    pub signer: String,
}

#[derive(Clone, Debug, PartialEq, Eq)]
pub struct UpdateClientMsg {
    pub client_id: String,
    pub signer: String,
}

/// `MsgRecvPacket`, `MsgAcknowledgement` and `MsgTimeout` share this shape.
#[derive(Clone, Debug, PartialEq, Eq)]
pub struct PacketMsg {
    pub packet: Option<Packet>,
    pub signer: String,
}

/// The first two steps of the channel handshake.
#[derive(Clone, Debug, PartialEq, Eq)]
pub struct ChanOpenMsg {
    pub port_id: String,
    pub signer: String,
}

/// The last two steps of the channel handshake.
#[derive(Clone, Debug, PartialEq, Eq)]
pub struct ChanMsg {
    pub port_id: String,
    pub channel_id: String,
    pub signer: String,
}

/// A fungible-token transfer initiated by `sender`.
#[derive(Clone, Debug, PartialEq, Eq)]
pub struct TransferMsg {
    pub source_port: String,
    pub source_channel: String,
    pub sender: String,
    pub receiver: String,
}

#[derive(Clone, Debug, PartialEq, Eq)]
pub enum Msg {
    CreateClient(CreateClientMsg),
    UpdateClient(UpdateClientMsg),
    RecvPacket(PacketMsg),
    Acknowledgement(PacketMsg),
    Timeout(PacketMsg),
    ChanOpenInit(ChanOpenMsg),
    ChanOpenTry(ChanOpenMsg),
    ChanOpenAck(ChanMsg),
    ChanOpenConfirm(ChanMsg),
    Transfer(TransferMsg),
    Other(AnyMsg),
}

/// `<name>: <source channel> -> <destination channel>` for a packet message; just
/// the name when it carries no packet.
pub open spec fn packet_line(name: Seq<char>, m: PacketMsg) -> Seq<char> {
    match m.packet {
        Some(p) => name + ": "@ + p.source_channel@ + " -> "@ + p.destination_channel@,
        None => name,
    }
}

/// The one-line description of a message.
pub open spec fn description(m: Msg) -> Seq<char> {
    match m {
        Msg::CreateClient(_) => "CreateClient"@,
        Msg::UpdateClient(x) => "UpdateClient: "@ + x.client_id@,
        Msg::RecvPacket(x) => packet_line("RecvPacket"@, x),
        Msg::Timeout(x) => packet_line("Timeout"@, x),
        Msg::Acknowledgement(x) => packet_line("Acknowledgement"@, x),
        Msg::ChanOpenInit(x) => "ChanOpenInit: "@ + x.port_id@,
        Msg::ChanOpenTry(x) => "ChanOpenTry: "@ + x.port_id@,
        Msg::ChanOpenAck(x) => "ChanOpenAck: "@ + x.channel_id@ + "/"@ + x.port_id@,
        Msg::ChanOpenConfirm(x) => "ChanOpenConfirm: "@ + x.channel_id@ + "/"@ + x.port_id@,
        Msg::Transfer(x) => "Transfer: "@ + x.source_channel@ + "/"@ + x.source_port@,
        Msg::Other(a) => "Unhandled msg: "@ + a.type_url@,
    }
}

fn describe_packet(name: &str, m: &PacketMsg) -> (r: String)
    ensures
        r@ == packet_line(name@, *m),
{
    let mut s = name.to_string();
    match &m.packet {
        Some(p) => {
            push_str(&mut s, ": ");
            push_str(&mut s, p.source_channel.as_str());
            push_str(&mut s, " -> ");
            push_str(&mut s, p.destination_channel.as_str());
        },
        None => {},
    }
    s
}

fn joined(a: &str, b: &str, sep: &str, c: &str) -> (r: String)
    ensures
        r@ == a@ + b@ + sep@ + c@,
{
    let mut s = concat(a, b);
    push_str(&mut s, sep);
    push_str(&mut s, c);
    s
}

/// A recognized type URL whose bytes did not decode as that message.
#[derive(Clone, Debug, PartialEq, Eq)]
pub struct DecodeError {
    pub type_url: String,
}

/// What decoding `m` yields: the variant its type URL names, `None` when the
/// bytes do not decode as that message, and a passthrough for other URLs.
pub open spec fn decoding(m: AnyMsg) -> Option<Msg> {
    let u = m.type_url@;
    let b = m.value@;
    if u == CREATE_CLIENT_URL@ {
        match create_client_decoding(b) { Some(x) => Some(Msg::CreateClient(x)), None => None }
    } else if u == UPDATE_CLIENT_URL@ {
        match update_client_decoding(b) { Some(x) => Some(Msg::UpdateClient(x)), None => None }
    } else if u == TIMEOUT_URL@ {
        match timeout_decoding(b) { Some(x) => Some(Msg::Timeout(x)), None => None }
    } else if u == RECV_PACKET_URL@ {
        match recv_packet_decoding(b) { Some(x) => Some(Msg::RecvPacket(x)), None => None }
    } else if u == ACKNOWLEDGEMENT_URL@ {
        match ack_decoding(b) { Some(x) => Some(Msg::Acknowledgement(x)), None => None }
    } else if u == CHAN_OPEN_INIT_URL@ {
        match chan_open_init_decoding(b) { Some(x) => Some(Msg::ChanOpenInit(x)), None => None }
    } else if u == CHAN_OPEN_TRY_URL@ {
        match chan_open_try_decoding(b) { Some(x) => Some(Msg::ChanOpenTry(x)), None => None }
    } else if u == CHAN_OPEN_ACK_URL@ {
        match chan_open_ack_decoding(b) { Some(x) => Some(Msg::ChanOpenAck(x)), None => None }
    } else if u == CHAN_OPEN_CONFIRM_URL@ {
        match chan_open_confirm_decoding(b) {
            Some(x) => Some(Msg::ChanOpenConfirm(x)),
            None => None,
        }
    } else if u == TRANSFER_URL@ {
        match transfer_decoding(b) { Some(x) => Some(Msg::Transfer(x)), None => None }
    } else {
        Some(Msg::Other(m))
    }
}

impl Msg {
    pub open spec fn spec_is_ibc(self) -> bool {
        match self {
            Msg::Other(a) => crate::text::is_prefix("/ibc"@, a.type_url@),
            _ => true,
        }
    }

    pub open spec fn spec_is_relevant(self) -> bool {
        match self {
            Msg::RecvPacket(_) | Msg::Acknowledgement(_) | Msg::Timeout(_) | Msg::Transfer(_) => true,
            _ => false,
        }
    }

    pub open spec fn spec_packet(self) -> Option<Packet> {
        match self {
            Msg::RecvPacket(m) => m.packet,
            Msg::Acknowledgement(m) => m.packet,
            Msg::Timeout(m) => m.packet,
            _ => None,
        }
    }

    pub open spec fn spec_signer(self) -> Option<Seq<char>> {
        match self {
            Msg::CreateClient(m) => Some(m.signer@),
            Msg::UpdateClient(m) => Some(m.signer@),
            Msg::RecvPacket(m) => Some(m.signer@),
            Msg::Acknowledgement(m) => Some(m.signer@),
            Msg::Timeout(m) => Some(m.signer@),
            Msg::ChanOpenInit(m) => Some(m.signer@),
            Msg::ChanOpenTry(m) => Some(m.signer@),
            Msg::ChanOpenAck(m) => Some(m.signer@),
            Msg::ChanOpenConfirm(m) => Some(m.signer@),
            Msg::Transfer(m) => Some(m.sender@),
            Msg::Other(_) => None,
        }
    }

    /// A one-line description of the message, for logs.
    pub fn describe(&self) -> (r: String)
        ensures
            r@ == description(*self),
    {
        match self {
            Msg::CreateClient(_) => "CreateClient".to_string(),
            Msg::UpdateClient(x) => concat("UpdateClient: ", x.client_id.as_str()),
            Msg::RecvPacket(x) => describe_packet("RecvPacket", x),
            Msg::Timeout(x) => describe_packet("Timeout", x),
            Msg::Acknowledgement(x) => describe_packet("Acknowledgement", x),
            Msg::ChanOpenInit(x) => concat("ChanOpenInit: ", x.port_id.as_str()),
            Msg::ChanOpenTry(x) => concat("ChanOpenTry: ", x.port_id.as_str()),
            Msg::ChanOpenAck(x) => joined("ChanOpenAck: ", x.channel_id.as_str(), "/", x.port_id.as_str()),
            Msg::ChanOpenConfirm(x) => joined("ChanOpenConfirm: ", x.channel_id.as_str(), "/", x.port_id.as_str()),
            Msg::Transfer(x) => joined("Transfer: ", x.source_channel.as_str(), "/", x.source_port.as_str()),
            Msg::Other(a) => concat("Unhandled msg: ", a.type_url.as_str()),
        }
    }

    /// Every recognized variant is IBC; another message is when its type URL starts with `/ibc`.
    pub fn is_ibc(&self) -> (r: bool)
        ensures
            r == self.spec_is_ibc(),
    {
        match self {
            Msg::Other(a) => starts_with(a.type_url.as_str(), "/ibc"),
            _ => true,
        }
    }

    /// The variants that carry or initiate a packet.
    pub fn is_relevant(&self) -> (r: bool)
        ensures
            r == self.spec_is_relevant(),
    {
        match self {
            Msg::RecvPacket(_) | Msg::Acknowledgement(_) | Msg::Timeout(_) | Msg::Transfer(_) => true,
            _ => false,
        }
    }

    /// The embedded packet of the three packet-lifecycle variants.
    pub fn packet(&self) -> (r: Option<&Packet>)
        ensures
            match r {
                Some(p) => self.spec_packet() == Some(*p),
                None => self.spec_packet() is None,
            },
    {
        match self {
            Msg::RecvPacket(m) => m.packet.as_ref(),
            Msg::Acknowledgement(m) => m.packet.as_ref(),
            Msg::Timeout(m) => m.packet.as_ref(),
            _ => None,
        }
    }

    /// The submitter: `signer` on IBC messages, `sender` on a transfer.
    pub fn signer(&self) -> (r: Option<&str>)
        ensures
            match r {
                Some(s) => self.spec_signer() == Some(s@),
                None => self.spec_signer() is None,
            },
    {
        match self {
            Msg::CreateClient(m) => Some(m.signer.as_str()),
            Msg::UpdateClient(m) => Some(m.signer.as_str()),
            Msg::RecvPacket(m) => Some(m.signer.as_str()),
            Msg::Acknowledgement(m) => Some(m.signer.as_str()),
            Msg::Timeout(m) => Some(m.signer.as_str()),
            Msg::ChanOpenInit(m) => Some(m.signer.as_str()),
            Msg::ChanOpenTry(m) => Some(m.signer.as_str()),
            Msg::ChanOpenAck(m) => Some(m.signer.as_str()),
            Msg::ChanOpenConfirm(m) => Some(m.signer.as_str()),
            Msg::Transfer(m) => Some(m.sender.as_str()),
            Msg::Other(_) => None,
        }
    }

    /// The transfer details of a `MsgTransfer`.
    pub fn transfer(&self) -> (r: Option<&TransferMsg>)
        ensures
            match self {
                Msg::Transfer(t) => r matches Some(x) && *x == t,
                _ => r is None,
            },
    {
        match self {
            Msg::Transfer(t) => Some(t),
            _ => None,
        }
    }

    /// Decodes an any-typed message by its type URL.
    pub fn decode(msg: AnyMsg) -> (r: Result<Msg, DecodeError>)
        ensures
            match decoding(msg) {
                Some(d) => r == Ok::<Msg, DecodeError>(d),
                None => r matches Err(e) && e.type_url@ == msg.type_url@,
            },
    {
        let err = DecodeError { type_url: msg.type_url.clone() };
        let u = msg.type_url.as_str();
        let b = msg.value.as_slice();
        if str_eq(u, CREATE_CLIENT_URL) {
            match decode_create_client(b) { Some(x) => Ok(Msg::CreateClient(x)), None => Err(err) }
        } else if str_eq(u, UPDATE_CLIENT_URL) {
            match decode_update_client(b) { Some(x) => Ok(Msg::UpdateClient(x)), None => Err(err) }
        } else if str_eq(u, TIMEOUT_URL) {
            match decode_timeout(b) { Some(x) => Ok(Msg::Timeout(x)), None => Err(err) }
        } else if str_eq(u, RECV_PACKET_URL) {
            match decode_recv_packet(b) { Some(x) => Ok(Msg::RecvPacket(x)), None => Err(err) }
        } else if str_eq(u, ACKNOWLEDGEMENT_URL) {
            match decode_ack(b) { Some(x) => Ok(Msg::Acknowledgement(x)), None => Err(err) }
        } else if str_eq(u, CHAN_OPEN_INIT_URL) {
            match decode_chan_open_init(b) { Some(x) => Ok(Msg::ChanOpenInit(x)), None => Err(err) }
        } else if str_eq(u, CHAN_OPEN_TRY_URL) {
            match decode_chan_open_try(b) { Some(x) => Ok(Msg::ChanOpenTry(x)), None => Err(err) }
        } else if str_eq(u, CHAN_OPEN_ACK_URL) {
            match decode_chan_open_ack(b) { Some(x) => Ok(Msg::ChanOpenAck(x)), None => Err(err) }
        } else if str_eq(u, CHAN_OPEN_CONFIRM_URL) {
            match decode_chan_open_confirm(b) {
                Some(x) => Ok(Msg::ChanOpenConfirm(x)),
                None => Err(err),
            }
        } else if str_eq(u, TRANSFER_URL) {
            match decode_transfer(b) { Some(x) => Ok(Msg::Transfer(x)), None => Err(err) }
        } else {
            Ok(Msg::Other(msg))
        }
    }
}

/// The standard fungible-token-transfer payload.
#[derive(Clone, Debug, PartialEq, Eq)]
pub struct FungibleTokenPacketData {
    pub denom: String,
    pub amount: String,
    pub sender: String,
    pub receiver: String,
    pub memo: String,
}

/// The fields of a transfer payload. `b` is either a JSON array of four or five
/// strings (denom, amount, sender, receiver and optionally memo), or JSON with string
/// members `denom`, `amount`, `sender` and `receiver` and a `memo` that is a string or
/// absent (then empty).
pub open spec fn transfer_payload(b: Seq<u8>) -> Option<(Seq<char>, Seq<char>, Seq<char>, Seq<char>, Seq<char>)> {
    match json_string_array_of(b) {
        Some(items) => if items.len() == 4 {
            Some((items[0], items[1], items[2], items[3], Seq::empty()))
        } else if items.len() == 5 {
            Some((items[0], items[1], items[2], items[3], items[4]))
        } else {
            None
        },
        None => match (json_member_of(b, "denom"@), json_member_of(b, "amount"@), json_member_of(b, "sender"@),
            json_member_of(b, "receiver"@), json_member_of(b, "memo"@)) {
            (Some(d), Some(a), Some(s), Some(r), Some(m)) => Some((d, a, s, r, m)),
            (Some(d), Some(a), Some(s), Some(r), None) => if json_has_member_of(b, "memo"@) {
                None
            } else {
                Some((d, a, s, r, Seq::empty()))
            },
            _ => None,
        },
    }
}

impl FungibleTokenPacketData {
    pub open spec fn fields(self) -> (Seq<char>, Seq<char>, Seq<char>, Seq<char>, Seq<char>) {
        (self.denom@, self.amount@, self.sender@, self.receiver@, self.memo@)
    }

    /// Parses a transfer payload from its JSON bytes.
    pub fn parse(b: &[u8]) -> (r: Option<FungibleTokenPacketData>)
        ensures
            match r {
                Some(d) => transfer_payload(b@) == Some(d.fields()),
                None => transfer_payload(b@) is None,
            },
    {
        match json_string_array(b) {
            Some(items) => {
                let n = items.len();
                if n != 4 && n != 5 {
                    return None;
                }
                let memo = if n == 5 { items[4].clone() } else { String::new() };
                return Some(FungibleTokenPacketData {
                    denom: items[0].clone(),
                    amount: items[1].clone(),
                    sender: items[2].clone(),
                    receiver: items[3].clone(),
                    memo,
                });
            },
            None => {},
        }
        let denom = json_string_member(b, "denom");
        let amount = json_string_member(b, "amount");
        let sender = json_string_member(b, "sender");
        let receiver = json_string_member(b, "receiver");
        match (denom, amount, sender, receiver) {
            (Some(denom), Some(amount), Some(sender), Some(receiver)) => {
                let memo = match json_string_member(b, "memo") {
                    Some(m) => m,
                    None => {
                        if json_has_member(b, "memo") {
                            return None;
                        }
                        String::new()
                    },
                };
                Some(FungibleTokenPacketData { denom, amount, sender, receiver, memo })
            },
            _ => None,
        }
    }
}

/// The uniform record extracted from a packet.
#[derive(Clone, Debug, PartialEq, Eq)]
pub struct UniversalPacketInfo {
    pub sequence: u64,
    pub source_channel: String,
    pub destination_channel: String,
    pub source_port: String,
    pub destination_port: String,
    pub timeout_timestamp: Option<u64>,
    pub timeout_height: Option<Height>,
    pub sender: Option<String>,
    pub receiver: Option<String>,
    pub amount: Option<String>,
    pub denom: Option<String>,
    pub transfer_memo: Option<String>,
    pub ibc_version: String,
    pub data_hash: String,
}

/// The duplicate-detection hash of a payload: lower-case hex of its SHA-256.
pub open spec fn data_hash_of(b: Seq<u8>) -> Seq<char> {
    hex_lower_of(sha256_of(b))
}

/// A zero timestamp means "no timeout".
pub open spec fn timeout_of(ts: u64) -> Option<u64> {
    if ts == 0 {
        None
    } else {
        Some(ts)
    }
}

/// Hex of the SHA-256 of `b`, as stored in `data_hash`.
pub fn data_hash(b: &[u8]) -> (r: String)
    ensures
        r@ == data_hash_of(b@),
{
    let d = sha256(b);
    to_hex_lower(d.as_slice())
}

impl UniversalPacketInfo {
    /// The transfer fields this record holds, when it holds all five.
    pub open spec fn user_fields(self) -> Option<(Seq<char>, Seq<char>, Seq<char>, Seq<char>, Seq<char>)> {
        match (self.denom, self.amount, self.sender, self.receiver, self.transfer_memo) {
            (Some(d), Some(a), Some(s), Some(r), Some(m)) => Some((d@, a@, s@, r@, m@)),
            _ => None,
        }
    }

    pub open spec fn no_user_fields(self) -> bool {
        &&& self.denom is None
        &&& self.amount is None
        &&& self.sender is None
        &&& self.receiver is None
        &&& self.transfer_memo is None
    }

    /// Builds the uniform record of a packet: identity and timeouts copied (a zero
    /// timestamp becoming absent), the payload hashed, and on the `transfer` port the
    /// payload's user fields when it parses as a fungible-token transfer.
    pub fn from_packet(packet: &Packet) -> (r: UniversalPacketInfo)
        ensures
            r.sequence == packet.sequence,
            r.source_channel@ == packet.source_channel@,
            r.destination_channel@ == packet.destination_channel@,
            r.source_port@ == packet.source_port@,
            r.destination_port@ == packet.destination_port@,
            r.timeout_timestamp == timeout_of(packet.timeout_timestamp),
            r.timeout_height == packet.timeout_height,
            r.ibc_version@ == IBC_VERSION_V1@,
            r.data_hash@ == data_hash_of(packet.data@),
            packet.source_port@ == TRANSFER_PORT@ && transfer_payload(packet.data@) is Some
                ==> r.user_fields() == transfer_payload(packet.data@),
            !(packet.source_port@ == TRANSFER_PORT@ && transfer_payload(packet.data@) is Some)
                ==> r.no_user_fields(),
    {
        let ft = if str_eq(packet.source_port.as_str(), TRANSFER_PORT) {
            FungibleTokenPacketData::parse(packet.data.as_slice())
        } else {
            None
        };
        let (sender, receiver, denom, amount, transfer_memo) = match ft {
            Some(d) => (Some(d.sender), Some(d.receiver), Some(d.denom), Some(d.amount), Some(d.memo)),
            None => (None, None, None, None, None),
        };
        UniversalPacketInfo {
            sequence: packet.sequence,
            source_channel: packet.source_channel.clone(),
            destination_channel: packet.destination_channel.clone(),
            source_port: packet.source_port.clone(),
            destination_port: packet.destination_port.clone(),
            timeout_timestamp: if packet.timeout_timestamp == 0 {
                None
            } else {
                Some(packet.timeout_timestamp)
            },
            timeout_height: packet.timeout_height,
            sender,
            receiver,
            amount,
            denom,
            transfer_memo,
            ibc_version: IBC_VERSION_V1.to_string(),
            data_hash: data_hash(packet.data.as_slice()),
        }
    }
}

/// Equal payloads have equal duplicate-detection hashes.
pub proof fn lemma_data_hash_deterministic(a: Seq<u8>, b: Seq<u8>)
    requires
        a == b,
    ensures
        data_hash_of(a) == data_hash_of(b),
{
}

/// A zero timeout timestamp in the packet is stored as absent, any other as itself.
pub proof fn lemma_zero_timeout_absent(p: Packet)
    ensures
        p.timeout_timestamp == 0 <==> timeout_of(p.timeout_timestamp) is None,
        p.timeout_timestamp != 0 ==> timeout_of(p.timeout_timestamp) == Some(p.timeout_timestamp),
{
}

} // verus!
