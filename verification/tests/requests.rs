use netlink_packet::{
    ack_step, del_link_request, get_link_request, link_dump_step, AckStep, ErrorMessage,
    LinkDumpStep, NetlinkHeader, NetlinkMessage, NetlinkPayload, RtnlMessage,
};
use netlink_packet::constants::{
    NLM_F_ACK, NLM_F_CREATE, NLM_F_DUMP, NLM_F_EXCL, NLM_F_REQUEST, RTM_DELLINK, RTM_GETLINK,
};

#[test]
fn get_link_request_wire() {
    let msg = get_link_request();
    assert_eq!(msg.header().length(), 32);
    assert_eq!(msg.header().message_type(), RTM_GETLINK);
    assert_eq!(msg.header().flags().bits(), NLM_F_REQUEST | NLM_F_DUMP);
    let mut out = vec![0u8; 32];
    assert_eq!(msg.to_bytes(&mut out).unwrap(), 32);
    let mut expected: Vec<u8> = vec![32, 0, 0, 0, 18, 0, 0x01, 0x03, 0, 0, 0, 0, 0, 0, 0, 0];
    expected.extend_from_slice(&[0u8; 16]);
    assert_eq!(out, expected);
}

#[test]
fn del_link_request_wire() {
    let msg = del_link_request(5);
    assert_eq!(msg.header().length(), 32);
    assert_eq!(msg.header().message_type(), RTM_DELLINK);
    assert_eq!(
        msg.header().flags().bits(),
        NLM_F_REQUEST | NLM_F_ACK | NLM_F_EXCL | NLM_F_CREATE
    );
    match msg.payload() {
        NetlinkPayload::Rtnl(RtnlMessage::DelLink(lm)) => assert_eq!(lm.header.index, 5),
        other => panic!("expected a DelLink, got {:?}", other),
    }
    let mut out = vec![0u8; 32];
    assert_eq!(msg.to_bytes(&mut out).unwrap(), 32);
    let mut expected: Vec<u8> = vec![32, 0, 0, 0, 17, 0, 0x05, 0x06, 0, 0, 0, 0, 0, 0, 0, 0];
    expected.extend_from_slice(&[0, 0, 0, 0, 5, 0, 0, 0, 0, 0, 0, 0, 0, 0, 0, 0]);
    assert_eq!(out, expected);
}

#[test]
fn link_dump_step_classifies() {
    // a NewLink reply is collected
    let mut reply: Vec<u8> = vec![32, 0, 0, 0, 16, 0, 0, 0, 0, 0, 0, 0, 0, 0, 0, 0];
    reply.extend_from_slice(&[0u8; 16]);
    let msg = NetlinkMessage::from_bytes(&reply).unwrap();
    match link_dump_step(msg) {
        LinkDumpStep::Link(lm) => assert_eq!(lm.nlas.len(), 0),
        other => panic!("expected a collected link, got {:?}", other),
    }
    // a Done reply ends the dump
    let done = NetlinkMessage::from_bytes(&[16, 0, 0, 0, 3, 0, 0, 0, 0, 0, 0, 0, 0, 0, 0, 0])
        .unwrap();
    assert_eq!(link_dump_step(done), LinkDumpStep::Finished);
    // anything else is unexpected
    let noop = NetlinkMessage::from_bytes(&[16, 0, 0, 0, 1, 0, 0, 0, 0, 0, 0, 0, 0, 0, 0, 0])
        .unwrap();
    match link_dump_step(noop) {
        LinkDumpStep::Unexpected(m) => assert!(m.is_noop()),
        other => panic!("expected an unexpected reply, got {:?}", other),
    }
}

#[test]
fn ack_step_classifies() {
    let ack = NetlinkMessage::new(
        NetlinkHeader::default(),
        NetlinkPayload::Ack(ErrorMessage { code: 0, header: NetlinkHeader::default() }),
    );
    match ack_step(ack) {
        AckStep::Acknowledged(em) => assert_eq!(em.code, 0),
        other => panic!("expected an acknowledgment, got {:?}", other),
    }
    let failed = NetlinkMessage::new(
        NetlinkHeader::default(),
        NetlinkPayload::Error(ErrorMessage { code: -1, header: NetlinkHeader::default() }),
    );
    match ack_step(failed) {
        AckStep::Failed(em) => assert_eq!(em.code, -1),
        other => panic!("expected a failure, got {:?}", other),
    }
    let done = NetlinkMessage::new(NetlinkHeader::default(), NetlinkPayload::Done);
    match ack_step(done) {
        AckStep::Unexpected(m) => assert!(m.is_done()),
        other => panic!("expected an unexpected reply, got {:?}", other),
    }
}
