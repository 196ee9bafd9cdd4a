//! Request construction and response classification for the link
//! operations. The transport that carries the requests (sockets, sequence
//! numbers, the dump loop) lives outside the codec; these functions hold
//! the decisions it needs: what to send, and what each reply means.

use vstd::prelude::*;

use crate::constants::{
    NLM_F_ACK, NLM_F_CREATE, NLM_F_DUMP, NLM_F_EXCL, NLM_F_REQUEST, RTM_DELLINK, RTM_GETLINK,
};
use crate::errmsg::{AckMessage, ErrorMessage};
use crate::flags::NetlinkFlags;
use crate::header::NetlinkHeader;
use crate::link::{LinkFlags, LinkHeader, LinkLayerType, LinkMessage};
use crate::message::{NetlinkMessage, NetlinkPayload};
use crate::rtnl::RtnlMessage;

verus! {

/// What one reply of a link dump means: a link to collect, the end of the
/// dump, or a reply the dump did not expect, handed back whole.
#[derive(Debug, PartialEq, Eq, Clone)]
pub enum LinkDumpStep {
    Link(LinkMessage),
    Finished,
    Unexpected(NetlinkMessage),
}

/// What one reply to an acknowledged request means: a positive
/// acknowledgment, a failure with its error body, or a reply the request
/// did not expect, handed back whole.
#[derive(Debug, PartialEq, Eq, Clone)]
pub enum AckStep {
    Acknowledged(AckMessage),
    Failed(ErrorMessage),
    Unexpected(NetlinkMessage),
}

/// The finalized request for a link dump (`ip link show`): a `GetLink`
/// over an empty link message, flagged `NLM_F_REQUEST | NLM_F_DUMP`,
/// 32 bytes on the wire.
pub fn get_link_request() -> (r: NetlinkMessage)
    ensures
        r.finalized,
        r.header.length == 32,
        r.header.message_type == RTM_GETLINK,
        r.header.flags.0 == NLM_F_REQUEST | NLM_F_DUMP,
        r.header.sequence_number == 0,
        r.header.port_number == 0,
        r.payload matches NetlinkPayload::Rtnl(rm) && rm matches RtnlMessage::GetLink(lm)
            && lm.header == (LinkHeader {
            address_family: 0u8,
            link_layer_type: LinkLayerType::Netrom,
            index: 0i32,
            flags: LinkFlags(0u32),
            change_mask: 0u32,
        }) && lm.nlas@.len() == 0,
        r.wire().len() == 32,
        r.payload.wf(),
{
    let message = LinkMessage::new();
    let mut req = NetlinkMessage::from(RtnlMessage::GetLink(message));
    req.header_mut().set_flags(NetlinkFlags(NLM_F_REQUEST | NLM_F_DUMP));
    proof {
        lemma_empty_link_payload(req.payload);
        crate::header::lemma_header_wire_len(req.header);
    }
    req.finalize();
    req
}

/// The finalized request to delete the link with the given interface
/// index (`ip link del`): a `DelLink` naming the index, flagged
/// `NLM_F_REQUEST | NLM_F_ACK | NLM_F_EXCL | NLM_F_CREATE`, 32 bytes on
/// the wire.
pub fn del_link_request(index: i32) -> (r: NetlinkMessage)
    ensures
        r.finalized,
        r.header.length == 32,
        r.header.message_type == RTM_DELLINK,
        r.header.flags.0 == NLM_F_REQUEST | NLM_F_ACK | NLM_F_EXCL | NLM_F_CREATE,
        r.header.sequence_number == 0,
        r.header.port_number == 0,
        r.payload matches NetlinkPayload::Rtnl(rm) && rm matches RtnlMessage::DelLink(lm)
            && lm.header == (LinkHeader {
            address_family: 0u8,
            link_layer_type: LinkLayerType::Netrom,
            index,
            flags: LinkFlags(0u32),
            change_mask: 0u32,
        }) && lm.nlas@.len() == 0,
        r.wire().len() == 32,
        r.payload.wf(),
{
    let mut message = LinkMessage::new();
    message.header.index = index;
    let mut req = NetlinkMessage::from(RtnlMessage::DelLink(message));
    req.header_mut().set_flags(
        NetlinkFlags(NLM_F_REQUEST | NLM_F_ACK | NLM_F_EXCL | NLM_F_CREATE),
    );
    proof {
        lemma_empty_link_payload(req.payload);
        crate::header::lemma_header_wire_len(req.header);
    }
    req.finalize();
    req
}

/// A link payload without attributes occupies exactly its fixed header.
proof fn lemma_empty_link_payload(p: NetlinkPayload)
    requires
        p is Rtnl,
        p->Rtnl_0 is GetLink || p->Rtnl_0 is DelLink,
        p->Rtnl_0 is GetLink ==> (p->Rtnl_0)->GetLink_0.nlas@.len() == 0,
        p->Rtnl_0 is DelLink ==> (p->Rtnl_0)->DelLink_0.nlas@.len() == 0,
    ensures
        p.wire().len() == 16,
        p.wf(),
{
    let rm = p->Rtnl_0;
    let lm = if rm is GetLink {
        rm->GetLink_0
    } else {
        rm->DelLink_0
    };
    assert(lm.nlas@.map_values(|n: crate::link::LinkNla| n.wire()) =~= Seq::<Seq<u8>>::empty());
    assert(crate::nla::concat_wires(Seq::<Seq<u8>>::empty()) =~= Seq::<u8>::empty());
    crate::link::lemma_link_header_wire_len(lm.header);
    assert(lm.wire().len() == 16);
}

/// Classify one reply of a link dump: each `NewLink` is collected, a
/// `Done` ends the dump, anything else is unexpected.
pub fn link_dump_step(msg: NetlinkMessage) -> (r: LinkDumpStep)
    ensures
        msg.payload matches NetlinkPayload::Rtnl(RtnlMessage::NewLink(lm)) ==> r
            == LinkDumpStep::Link(lm),
        msg.payload matches NetlinkPayload::Done ==> r == LinkDumpStep::Finished,
        !(msg.payload matches NetlinkPayload::Rtnl(RtnlMessage::NewLink(_))) && !(msg.payload
            matches NetlinkPayload::Done) ==> r == LinkDumpStep::Unexpected(msg),
{
    let NetlinkMessage { header, payload, finalized } = msg;
    match payload {
        NetlinkPayload::Rtnl(RtnlMessage::NewLink(lm)) => LinkDumpStep::Link(lm),
        NetlinkPayload::Done => LinkDumpStep::Finished,
        other => LinkDumpStep::Unexpected(
            NetlinkMessage { header, payload: other, finalized },
        ),
    }
}

/// Classify one reply to an acknowledged request: an `Ack` acknowledges
/// it, an `Error` fails it, anything else is unexpected.
pub fn ack_step(msg: NetlinkMessage) -> (r: AckStep)
    ensures
        msg.payload matches NetlinkPayload::Ack(em) ==> r == AckStep::Acknowledged(em),
        msg.payload matches NetlinkPayload::Error(em) ==> r == AckStep::Failed(em),
        !(msg.payload matches NetlinkPayload::Ack(em)) && !(msg.payload
            matches NetlinkPayload::Error(em)) ==> r == AckStep::Unexpected(msg),
{
    let NetlinkMessage { header, payload, finalized } = msg;
    match payload {
        NetlinkPayload::Ack(em) => AckStep::Acknowledged(em),
        NetlinkPayload::Error(em) => AckStep::Failed(em),
        other => AckStep::Unexpected(NetlinkMessage { header, payload: other, finalized }),
    }
}

} // verus!
