//! Protobuf decoding of the transaction envelope and the IBC messages, by prost
//! through the generated types of ibc-proto. Each decoder's result is a function
//! of the bytes alone and is given a name here.

use vstd::prelude::*;

use ibc_proto::cosmos::tx::v1beta1::Tx;
use ibc_proto::ibc::apps::transfer::v1::MsgTransfer;
use ibc_proto::ibc;
use prost::Message;

use crate::msg::{
    AnyMsg, ChanMsg, ChanOpenMsg, CreateClientMsg, Height, Packet, PacketMsg, TransferMsg,
    UpdateClientMsg,
};

verus! {

/// The body of a decoded transaction: its messages in order and its memo.
#[derive(Clone, Debug, PartialEq, Eq)]
pub struct TxBody {
    pub messages: Vec<AnyMsg>,
    pub memo: String,
}

/// A decoded transaction, with its canonical encoding (the bytes its hash is taken over).
#[derive(Clone, Debug, PartialEq, Eq)]
pub struct TxEnvelope {
    pub body: Option<TxBody>,
    pub canonical: Vec<u8>,
}

pub uninterp spec fn create_client_decoding(b: Seq<u8>) -> Option<CreateClientMsg>;

/// Relies on prost's `MsgCreateClient::decode` (`ibc.core.client.v1.MsgCreateClient`); a decoding error gives `None`.
#[verifier::external_body]
pub(crate) fn decode_create_client(b: &[u8]) -> (r: Option<CreateClientMsg>)
    ensures
        r == create_client_decoding(b@),
{
    ibc::core::client::v1::MsgCreateClient::decode(b).ok().map(|m| CreateClientMsg { signer: m.signer })
}

pub uninterp spec fn update_client_decoding(b: Seq<u8>) -> Option<UpdateClientMsg>;

/// Relies on prost's `MsgUpdateClient::decode` (`ibc.core.client.v1.MsgUpdateClient`); a decoding error gives `None`.
#[verifier::external_body]
pub(crate) fn decode_update_client(b: &[u8]) -> (r: Option<UpdateClientMsg>)
    ensures
        r == update_client_decoding(b@),
{
    ibc::core::client::v1::MsgUpdateClient::decode(b).ok().map(|m| UpdateClientMsg { client_id: m.client_id, signer: m.signer })
}

pub uninterp spec fn recv_packet_decoding(b: Seq<u8>) -> Option<PacketMsg>;

/// Relies on prost's `MsgRecvPacket::decode` (`ibc.core.channel.v1.MsgRecvPacket`); a decoding error gives `None`.
#[verifier::external_body]
pub(crate) fn decode_recv_packet(b: &[u8]) -> (r: Option<PacketMsg>)
    ensures
        r == recv_packet_decoding(b@),
{
    ibc::core::channel::v1::MsgRecvPacket::decode(b).ok().map(|m| PacketMsg {
        packet: m.packet.map(|p| Packet {
            sequence: p.sequence,
            source_port: p.source_port,
            source_channel: p.source_channel,
            destination_port: p.destination_port,
            destination_channel: p.destination_channel,
            data: p.data,
            timeout_height: p.timeout_height.map(|h| Height { revision_number: h.revision_number, revision_height: h.revision_height }),
            timeout_timestamp: p.timeout_timestamp,
        }),
        signer: m.signer,
    })
}

pub uninterp spec fn ack_decoding(b: Seq<u8>) -> Option<PacketMsg>;

/// Relies on prost's `MsgAcknowledgement::decode` (`ibc.core.channel.v1.MsgAcknowledgement`); a decoding error gives `None`.
#[verifier::external_body]
pub(crate) fn decode_ack(b: &[u8]) -> (r: Option<PacketMsg>)
    ensures
        r == ack_decoding(b@),
{
    ibc::core::channel::v1::MsgAcknowledgement::decode(b).ok().map(|m| PacketMsg {
        packet: m.packet.map(|p| Packet {
            sequence: p.sequence,
            source_port: p.source_port,
            source_channel: p.source_channel,
            destination_port: p.destination_port,
            destination_channel: p.destination_channel,
            data: p.data,
            timeout_height: p.timeout_height.map(|h| Height { revision_number: h.revision_number, revision_height: h.revision_height }),
            timeout_timestamp: p.timeout_timestamp,
        }),
        signer: m.signer,
    })
}

pub uninterp spec fn timeout_decoding(b: Seq<u8>) -> Option<PacketMsg>;

/// Relies on prost's `MsgTimeout::decode` (`ibc.core.channel.v1.MsgTimeout`); a decoding error gives `None`.
#[verifier::external_body]
pub(crate) fn decode_timeout(b: &[u8]) -> (r: Option<PacketMsg>)
    ensures
        r == timeout_decoding(b@),
{
    ibc::core::channel::v1::MsgTimeout::decode(b).ok().map(|m| PacketMsg {
        packet: m.packet.map(|p| Packet {
            sequence: p.sequence,
            source_port: p.source_port,
            source_channel: p.source_channel,
            destination_port: p.destination_port,
            destination_channel: p.destination_channel,
            data: p.data,
            timeout_height: p.timeout_height.map(|h| Height { revision_number: h.revision_number, revision_height: h.revision_height }),
            timeout_timestamp: p.timeout_timestamp,
        }),
        signer: m.signer,
    })
}

pub uninterp spec fn chan_open_init_decoding(b: Seq<u8>) -> Option<ChanOpenMsg>;

/// Relies on prost's `MsgChannelOpenInit::decode` (`ibc.core.channel.v1.MsgChannelOpenInit`); a decoding error gives `None`.
#[verifier::external_body]
pub(crate) fn decode_chan_open_init(b: &[u8]) -> (r: Option<ChanOpenMsg>)
    ensures
        r == chan_open_init_decoding(b@),
{
    ibc::core::channel::v1::MsgChannelOpenInit::decode(b).ok().map(|m| ChanOpenMsg { port_id: m.port_id, signer: m.signer })
}

pub uninterp spec fn chan_open_try_decoding(b: Seq<u8>) -> Option<ChanOpenMsg>;

/// Relies on prost's `MsgChannelOpenTry::decode` (`ibc.core.channel.v1.MsgChannelOpenTry`); a decoding error gives `None`.
#[verifier::external_body]
pub(crate) fn decode_chan_open_try(b: &[u8]) -> (r: Option<ChanOpenMsg>)
    ensures
        r == chan_open_try_decoding(b@),
{
    ibc::core::channel::v1::MsgChannelOpenTry::decode(b).ok().map(|m| ChanOpenMsg { port_id: m.port_id, signer: m.signer })
}

pub uninterp spec fn chan_open_ack_decoding(b: Seq<u8>) -> Option<ChanMsg>;

/// Relies on prost's `MsgChannelOpenAck::decode` (`ibc.core.channel.v1.MsgChannelOpenAck`); a decoding error gives `None`.
#[verifier::external_body]
pub(crate) fn decode_chan_open_ack(b: &[u8]) -> (r: Option<ChanMsg>)
    ensures
        r == chan_open_ack_decoding(b@),
{
    ibc::core::channel::v1::MsgChannelOpenAck::decode(b).ok().map(|m| ChanMsg { port_id: m.port_id, channel_id: m.channel_id, signer: m.signer })
}

pub uninterp spec fn chan_open_confirm_decoding(b: Seq<u8>) -> Option<ChanMsg>;

/// Relies on prost's `MsgChannelOpenConfirm::decode` (`ibc.core.channel.v1.MsgChannelOpenConfirm`); a decoding error gives `None`.
#[verifier::external_body]
pub(crate) fn decode_chan_open_confirm(b: &[u8]) -> (r: Option<ChanMsg>)
    ensures
        r == chan_open_confirm_decoding(b@),
{
    ibc::core::channel::v1::MsgChannelOpenConfirm::decode(b).ok().map(|m| ChanMsg { port_id: m.port_id, channel_id: m.channel_id, signer: m.signer })
}

pub uninterp spec fn transfer_decoding(b: Seq<u8>) -> Option<TransferMsg>;

/// Relies on prost's `MsgTransfer::decode` (`ibc.applications.transfer.v1.MsgTransfer`); a decoding error gives `None`.
#[verifier::external_body]
pub(crate) fn decode_transfer(b: &[u8]) -> (r: Option<TransferMsg>)
    ensures
        r == transfer_decoding(b@),
{
    MsgTransfer::decode(b).ok().map(|m| TransferMsg {
        source_port: m.source_port,
        source_channel: m.source_channel,
        sender: m.sender,
        receiver: m.receiver,
    })
}

pub uninterp spec fn tx_decoding(b: Seq<u8>) -> Option<TxEnvelope>;

/// Relies on prost's `Tx::decode` (`cosmos.tx.v1beta1.Tx`) and on `encode_to_vec` of the
/// decoded value, which gives the canonical bytes; a decoding error gives `None`.
#[verifier::external_body]
pub(crate) fn decode_tx(b: &[u8]) -> (r: Option<TxEnvelope>)
    ensures
        r == tx_decoding(b@),
{
    Tx::decode(b).ok().map(|t| TxEnvelope {
        canonical: t.encode_to_vec(),
        body: t.body.map(|body| TxBody {
            messages: body.messages.into_iter().map(|a| AnyMsg { type_url: a.type_url, value: a.value }).collect(),
            memo: body.memo,
        }),
    })
}

} // verus!
