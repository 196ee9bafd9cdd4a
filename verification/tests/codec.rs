use netlink_packet::{
    AuditMessage, AuditStatus, DefaultNla, Error, LinkBuffer, LinkFlags, LinkLayerType,
    LinkMessage, LinkNla, LinkState, NeighbourCacheInfo, NeighbourNla, NetlinkBuffer,
    NetlinkFlags, NetlinkHeader, NetlinkMessage, NetlinkPayload, RtnlMessage,
};
use netlink_packet::constants::{IFF_LOOPBACK, IFF_RUNNING, IFF_UP, RTM_NEWLINK, RTM_NEWNEIGH};

fn link_reply_payload() -> Vec<u8> {
    vec![
        0x00, // address family
        0x00, // reserved
        0x04, 0x03, // link layer type 772 = loopback
        0x01, 0x00, 0x00, 0x00, // interface index = 1
        0x49, 0x00, 0x00, 0x00, // device flags: UP, LOOPBACK, RUNNING
        0x00, 0x00, 0x00, 0x00, // reserved 2 (aka device change flag)
        // nlas
        0x07, 0x00, 0x03, 0x00, 0x6c, 0x6f, 0x00, // device name L=7,T=3,V=lo
        0x00, // padding
        0x08, 0x00, 0x0d, 0x00, 0xe8, 0x03, 0x00, 0x00, // TxQueue length L=8,T=13,V=1000
        0x05, 0x00, 0x10, 0x00, 0x00, // OperState L=5,T=16,V=0 (unknown)
        0x00, 0x00, 0x00, // padding
        0x05, 0x00, 0x11, 0x00, 0x00, // Link mode L=5,T=17,V=0
        0x00, 0x00, 0x00, // padding
        0x08, 0x00, 0x04, 0x00, 0x00, 0x00, 0x01, 0x00, // MTU L=8,T=4,V=65536
        0x08, 0x00, 0x1b, 0x00, 0x00, 0x00, 0x00, 0x00, // Group L=8,T=27,V=0
        0x08, 0x00, 0x1e, 0x00, 0x00, 0x00, 0x00, 0x00, // Promiscuity L=8,T=30,V=0
        0x08, 0x00, 0x1f, 0x00, 0x01, 0x00, 0x00, 0x00, // Number of Tx Queues L=8,T=31,V=1
        0x08, 0x00, 0x28, 0x00, 0xff, 0xff, 0x00, 0x00, // Maximum GSO segment count
        0x08, 0x00, 0x29, 0x00, 0x00, 0x00, 0x01, 0x00, // Maximum GSO size L=8,T=41,V=65536
    ]
}

#[test]
fn packet_header_read() {
    let payload = link_reply_payload();
    let packet = LinkBuffer::new(payload[0..16].to_vec());
    assert_eq!(packet.address_family(), 0);
    assert_eq!(packet.reserved_1(), 0);
    assert_eq!(packet.link_layer_type(), LinkLayerType::Loopback);
    assert_eq!(packet.link_index(), 1);
    assert_eq!(packet.flags(), LinkFlags::from(IFF_UP | IFF_LOOPBACK | IFF_RUNNING));
    assert!(packet.flags().has_running());
    assert!(packet.flags().has_loopback());
    assert!(packet.flags().has_up());
    assert_eq!(packet.reserved_2(), 0);
}

#[test]
fn packet_header_build() {
    let payload = link_reply_payload();
    let mut packet = LinkBuffer::new(vec![0xff; 16]);
    packet.set_address_family(0);
    packet.set_reserved_1(0);
    packet.set_link_layer_type(LinkLayerType::Loopback);
    packet.set_link_index(1);
    let mut flags = LinkFlags::new();
    flags.set_up();
    flags.set_loopback();
    flags.set_running();
    packet.set_flags(flags);
    packet.set_reserved_2(0);
    assert_eq!(&packet.into_inner()[..], &payload[0..16]);
}

#[test]
fn packet_nlas_read() {
    let packet = LinkBuffer::new(link_reply_payload());
    let nlas = packet.nlas().unwrap();
    assert_eq!(nlas.len(), 10);

    // device name L=7,T=3,V=lo
    let nla = &nlas[0];
    nla.check_buffer_length().unwrap();
    assert_eq!(nla.length(), 7);
    assert_eq!(nla.kind(), 3);
    assert_eq!(nla.value(), vec![0x6c, 0x6f, 0x00]);
    let parsed: LinkNla = nla.parse_link().unwrap();
    assert_eq!(parsed, LinkNla::IfName(String::from("lo")));

    // TxQueue length L=8,T=13,V=1000
    let nla = &nlas[1];
    nla.check_buffer_length().unwrap();
    assert_eq!(nla.length(), 8);
    assert_eq!(nla.kind(), 13);
    assert_eq!(nla.value(), vec![0xe8, 0x03, 0x00, 0x00]);
    let parsed: LinkNla = nla.parse_link().unwrap();
    assert_eq!(parsed, LinkNla::TxQueueLen(1000));

    // OperState L=5,T=16,V=0 (unknown)
    let nla = &nlas[2];
    nla.check_buffer_length().unwrap();
    assert_eq!(nla.length(), 5);
    assert_eq!(nla.kind(), 16);
    assert_eq!(nla.value(), vec![0x00]);
    let parsed: LinkNla = nla.parse_link().unwrap();
    assert_eq!(parsed, LinkNla::OperState(LinkState::Unknown));

    // Link mode L=5,T=17,V=0
    let nla = &nlas[3];
    nla.check_buffer_length().unwrap();
    assert_eq!(nla.length(), 5);
    assert_eq!(nla.kind(), 17);
    assert_eq!(nla.value(), vec![0x00]);
    let parsed: LinkNla = nla.parse_link().unwrap();
    assert_eq!(parsed, LinkNla::LinkMode(0));

    // MTU L=8,T=4,V=65536
    let nla = &nlas[4];
    nla.check_buffer_length().unwrap();
    assert_eq!(nla.length(), 8);
    assert_eq!(nla.kind(), 4);
    assert_eq!(nla.value(), vec![0x00, 0x00, 0x01, 0x00]);
    let parsed: LinkNla = nla.parse_link().unwrap();
    assert_eq!(parsed, LinkNla::Mtu(65_536));

    // Group L=8,T=27,V=0
    let nla = &nlas[5];
    nla.check_buffer_length().unwrap();
    assert_eq!(nla.length(), 8);
    assert_eq!(nla.kind(), 27);
    assert_eq!(nla.value(), vec![0x00, 0x00, 0x00, 0x00]);
    let parsed: LinkNla = nla.parse_link().unwrap();
    assert_eq!(parsed, LinkNla::Group(0));

    // Promiscuity L=8,T=30,V=0
    let nla = &nlas[6];
    nla.check_buffer_length().unwrap();
    assert_eq!(nla.length(), 8);
    assert_eq!(nla.kind(), 30);
    assert_eq!(nla.value(), vec![0x00, 0x00, 0x00, 0x00]);
    let parsed: LinkNla = nla.parse_link().unwrap();
    assert_eq!(parsed, LinkNla::Promiscuity(0));

    // Number of Tx Queues L=8,T=31,V=1
    let nla = &nlas[7];
    nla.check_buffer_length().unwrap();
    assert_eq!(nla.length(), 8);
    assert_eq!(nla.kind(), 31);
    assert_eq!(nla.value(), vec![0x01, 0x00, 0x00, 0x00]);
    let parsed: LinkNla = nla.parse_link().unwrap();
    assert_eq!(parsed, LinkNla::NumTxQueues(1));
}

#[test]
fn minimal_done_round_trip() {
    let bytes: Vec<u8> = vec![0x10, 0, 0, 0, 0x03, 0, 0, 0, 0, 0, 0, 0, 0, 0, 0, 0];
    let msg = NetlinkMessage::from_bytes(&bytes).unwrap();
    assert_eq!(msg.header().length(), 16);
    assert_eq!(msg.header().message_type(), 3);
    assert_eq!(msg.header().flags(), NetlinkFlags::new());
    assert_eq!(msg.header().sequence_number(), 0);
    assert_eq!(msg.header().port_number(), 0);
    assert!(msg.is_done());
    let mut out = vec![0u8; 16];
    let written = msg.to_bytes(&mut out).unwrap();
    assert_eq!(written, 16);
    assert_eq!(out, bytes);
}

#[test]
fn ack_classification() {
    let mut bytes: Vec<u8> = vec![0x24, 0, 0, 0, 0x02, 0, 0, 0, 0, 0, 0, 0, 0, 0, 0, 0];
    bytes.extend_from_slice(&[0, 0, 0, 0]); // code = 0
    bytes.extend_from_slice(&[0x10, 0, 0, 0, 0x03, 0, 0, 0, 0, 0, 0, 0, 0, 0, 0, 0]);
    let msg = NetlinkMessage::from_bytes(&bytes).unwrap();
    assert!(msg.is_ack());
    match msg.payload() {
        NetlinkPayload::Ack(em) => {
            assert_eq!(em.code, 0);
            assert_eq!(em.header.length, 16);
            assert_eq!(em.header.message_type, 3);
        }
        other => panic!("expected an ack, got {:?}", other),
    }
    let mut out = vec![0u8; 36];
    assert_eq!(msg.to_bytes(&mut out).unwrap(), 36);
    assert_eq!(out, bytes);
}

#[test]
fn error_classification() {
    let mut bytes: Vec<u8> = vec![0x24, 0, 0, 0, 0x02, 0, 0, 0, 0, 0, 0, 0, 0, 0, 0, 0];
    bytes.extend_from_slice(&[0xfe, 0xff, 0xff, 0xff]); // code = -2
    bytes.extend_from_slice(&[0x10, 0, 0, 0, 0x03, 0, 0, 0, 0, 0, 0, 0, 0, 0, 0, 0]);
    let msg = NetlinkMessage::from_bytes(&bytes).unwrap();
    assert!(msg.is_error());
    assert!(!msg.is_ack());
    match msg.payload() {
        NetlinkPayload::Error(em) => assert_eq!(em.code, -2),
        other => panic!("expected an error, got {:?}", other),
    }
}

#[test]
fn link_dump_reply_round_trip() {
    let mut bytes: Vec<u8> = vec![112, 0, 0, 0, 16, 0, 0, 0, 0, 0, 0, 0, 0, 0, 0, 0];
    bytes.extend_from_slice(&link_reply_payload());
    assert_eq!(bytes.len(), 112);
    let msg = NetlinkMessage::from_bytes(&bytes).unwrap();
    assert_eq!(msg.header().message_type(), RTM_NEWLINK);
    assert!(msg.is_rtnl());
    let lm = match msg.payload() {
        NetlinkPayload::Rtnl(RtnlMessage::NewLink(lm)) => lm,
        other => panic!("expected a NewLink, got {:?}", other),
    };
    assert_eq!(lm.header.address_family, 0);
    assert_eq!(lm.header.link_layer_type, LinkLayerType::Loopback);
    assert_eq!(lm.header.index, 1);
    assert_eq!(lm.header.flags, LinkFlags(IFF_UP | IFF_LOOPBACK | IFF_RUNNING));
    assert_eq!(lm.header.change_mask, 0);
    assert_eq!(lm.nlas.len(), 10);
    assert_eq!(lm.nlas[0], LinkNla::IfName(String::from("lo")));
    assert_eq!(lm.nlas[1], LinkNla::TxQueueLen(1000));
    assert_eq!(lm.nlas[2], LinkNla::OperState(LinkState::Unknown));
    assert_eq!(lm.nlas[3], LinkNla::LinkMode(0));
    assert_eq!(lm.nlas[4], LinkNla::Mtu(65_536));
    assert_eq!(lm.nlas[5], LinkNla::Group(0));
    assert_eq!(lm.nlas[6], LinkNla::Promiscuity(0));
    assert_eq!(lm.nlas[7], LinkNla::NumTxQueues(1));
    assert_eq!(lm.nlas[8], LinkNla::GsoMaxSegs(65_535));
    assert_eq!(lm.nlas[9], LinkNla::GsoMaxSize(65_536));
    // length invariant: the declared length is the wire size
    assert_eq!(msg.buffer_len(), 112);
    assert_eq!(msg.header().length(), 112);
    // byte-for-byte round trip
    let mut out = vec![0u8; 112];
    assert_eq!(msg.to_bytes(&mut out).unwrap(), 112);
    assert_eq!(out, bytes);
}

#[test]
fn audit_status_round_trip() {
    let mut bytes: Vec<u8> = vec![72, 0, 0, 0, 0xe9, 0x03, 0, 0, 0, 0, 0, 0, 0, 0, 0, 0];
    let mut status = vec![0u8; 56];
    status[0] = 5; // mask: enabled | pid
    status[4] = 1; // enabled
    status[8] = 1; // failure
    status[12] = 0x34; // pid
    status[13] = 0x12;
    bytes.extend_from_slice(&status);
    assert_eq!(bytes.len(), 72);
    let mut msg = NetlinkMessage::from_bytes(&bytes).unwrap();
    assert!(msg.is_audit());
    match msg.payload() {
        NetlinkPayload::Audit(am) => {
            assert_eq!(am.message_type(), 1001);
            assert!(!am.is_done());
            assert_eq!(
                *am,
                AuditMessage::SetStatus(AuditStatus {
                    mask: 5,
                    enabled: 1,
                    failure: 1,
                    pid: 0x1234,
                    rate_limit: 0,
                    backlog_limit: 0,
                    lost: 0,
                    backlog: 0,
                    feature_bitmap: 0,
                    backlog_wait_time: 0,
                    tail: vec![0u8; 16],
                })
            );
        }
        other => panic!("expected an audit payload, got {:?}", other),
    }
    assert_eq!(msg.header().length(), 72);
    // finalize keeps the status command's type code
    msg.finalize();
    assert_eq!(msg.header().message_type(), 1001);
    let mut out = vec![0u8; 72];
    assert_eq!(msg.to_bytes(&mut out).unwrap(), 72);
    assert_eq!(out, bytes);
}

#[test]
fn audit_get_status_variants() {
    // an empty AUDIT_GET payload is the status query itself
    let query: Vec<u8> = vec![16, 0, 0, 0, 0xe8, 0x03, 0, 0, 0, 0, 0, 0, 0, 0, 0, 0];
    let msg = NetlinkMessage::from_bytes(&query).unwrap();
    match msg.payload() {
        NetlinkPayload::Audit(AuditMessage::GetStatus(None)) => {}
        other => panic!("expected an empty status query, got {:?}", other),
    }
    // an AUDIT_GET with a status body is the kernel's answer
    let mut reply: Vec<u8> = vec![56, 0, 0, 0, 0xe8, 0x03, 0, 0, 0, 0, 0, 0, 0, 0, 0, 0];
    let mut status = vec![0u8; 40];
    status[4] = 1; // enabled
    status[24] = 9; // lost
    reply.extend_from_slice(&status);
    let msg = NetlinkMessage::from_bytes(&reply).unwrap();
    match msg.payload() {
        NetlinkPayload::Audit(AuditMessage::GetStatus(Some(st))) => {
            assert_eq!(st.enabled, 1);
            assert_eq!(st.lost, 9);
            assert_eq!(st.tail, Vec::<u8>::new());
        }
        other => panic!("expected an answered status query, got {:?}", other),
    }
    let mut out = vec![0u8; 56];
    assert_eq!(msg.to_bytes(&mut out).unwrap(), 56);
    assert_eq!(out, reply);
}

#[test]
fn audit_short_status_malformed() {
    // an AUDIT_SET whose payload is shorter than the ten counters
    let mut bytes: Vec<u8> = vec![26, 0, 0, 0, 0xe9, 0x03, 0, 0, 0, 0, 0, 0, 0, 0, 0, 0];
    bytes.extend_from_slice(&[0u8; 10]);
    match NetlinkMessage::from_bytes(&bytes) {
        Err(Error::Malformed) => {}
        other => panic!("expected Malformed, got {:?}", other),
    }
}

#[test]
fn sloppy_done_still_serialises() {
    // a DONE datagram declaring 4 payload bytes the parser ignores:
    // it comes back finalized and serialises, header written as parsed
    let bytes: Vec<u8> = vec![20, 0, 0, 0, 3, 0, 0, 0, 0, 0, 0, 0, 0, 0, 0, 0, 9, 9, 9, 9];
    let msg = NetlinkMessage::from_bytes(&bytes).unwrap();
    assert!(msg.is_done());
    assert_eq!(msg.header().length(), 20);
    let mut out = vec![0u8; 20];
    let written = msg.to_bytes(&mut out).unwrap();
    assert_eq!(written, 16);
    assert_eq!(&out[..16], &bytes[..16]);
    assert_eq!(&out[16..], &[0u8; 4]);
}

#[test]
fn hostile_length_truncated() {
    let bytes: Vec<u8> = vec![0xff, 0xff, 0xff, 0xff, 0x03, 0, 0, 0, 0, 0, 0, 0, 0, 0, 0, 0];
    match NetlinkMessage::from_bytes(&bytes) {
        Err(Error::Truncated) => {}
        other => panic!("expected Truncated, got {:?}", other),
    }
}

#[test]
fn bad_nla_length_malformed() {
    // a neighbour message whose single attribute declares length 2 (< 4)
    let mut bytes: Vec<u8> = vec![32, 0, 0, 0, 28, 0, 0, 0, 0, 0, 0, 0, 0, 0, 0, 0];
    bytes.extend_from_slice(&[0u8; 12]); // ndmsg
    bytes.extend_from_slice(&[2, 0, 1, 0]); // impossible attribute length
    assert_eq!(bytes.len(), 32);
    match NetlinkMessage::from_bytes(&bytes) {
        Err(Error::Malformed) => {}
        other => panic!("expected Malformed, got {:?}", other),
    }
}

#[test]
fn emission_exhausted() {
    let msg = netlink_packet::get_link_request();
    let mut out = vec![0u8; 16];
    match msg.to_bytes(&mut out) {
        Err(Error::Exhausted) => {}
        other => panic!("expected Exhausted, got {:?}", other),
    }
    assert_eq!(out, vec![0u8; 16]); // no partial write
}

#[test]
fn unfinalized_emission_malformed() {
    let msg = NetlinkMessage::new(
        NetlinkHeader::default(),
        NetlinkPayload::Rtnl(RtnlMessage::Done),
    );
    let mut out = vec![0u8; 64];
    match msg.to_bytes(&mut out) {
        Err(Error::Malformed) => {}
        other => panic!("expected Malformed, got {:?}", other),
    }
}

#[test]
fn unknown_tag_round_trip() {
    // a neighbour message carrying an attribute with an unknown tag
    let mut bytes: Vec<u8> = vec![36, 0, 0, 0, 28, 0, 0, 0, 0, 0, 0, 0, 0, 0, 0, 0];
    bytes.extend_from_slice(&[0u8; 12]); // ndmsg
    bytes.extend_from_slice(&[8, 0, 0x99, 0, 0xde, 0xad, 0xbe, 0xef]);
    assert_eq!(bytes.len(), 36);
    let msg = NetlinkMessage::from_bytes(&bytes).unwrap();
    let nm = match msg.payload() {
        NetlinkPayload::Rtnl(RtnlMessage::NewNeighbour(nm)) => nm,
        other => panic!("expected a NewNeighbour, got {:?}", other),
    };
    assert_eq!(nm.nlas.len(), 1);
    assert_eq!(
        nm.nlas[0],
        NeighbourNla::Other(DefaultNla { kind: 0x99, value: vec![0xde, 0xad, 0xbe, 0xef] })
    );
    let mut out = vec![0u8; 36];
    assert_eq!(msg.to_bytes(&mut out).unwrap(), 36);
    assert_eq!(out, bytes);
}

#[test]
fn ifname_invalid_utf8_malformed() {
    // a link message whose device name is not UTF-8
    let mut bytes: Vec<u8> = vec![40, 0, 0, 0, 16, 0, 0, 0, 0, 0, 0, 0, 0, 0, 0, 0];
    bytes.extend_from_slice(&[0u8; 16]); // ifinfomsg
    bytes.extend_from_slice(&[6, 0, 3, 0, 0xff, 0x00, 0, 0]);
    assert_eq!(bytes.len(), 40);
    match NetlinkMessage::from_bytes(&bytes) {
        Err(Error::Malformed) => {}
        other => panic!("expected Malformed, got {:?}", other),
    }
}

#[test]
fn nla_run_alignment() {
    // IfName("lo") occupies 7 bytes and is padded to 8, so the next
    // attribute begins at a 4-byte-aligned offset of the run
    let lm = LinkMessage {
        header: Default::default(),
        nlas: vec![LinkNla::IfName(String::from("lo")), LinkNla::Mtu(1500)],
    };
    let mut msg = NetlinkMessage::from(RtnlMessage::NewLink(lm));
    msg.finalize();
    assert_eq!(msg.header().length(), 16 + 16 + 8 + 8);
    let mut out = vec![0u8; 48];
    assert_eq!(msg.to_bytes(&mut out).unwrap(), 48);
    // first nla at run offset 0: length 7, tag IFLA_IFNAME, "lo\0", zero pad
    assert_eq!(&out[32..40], &[7, 0, 3, 0, 0x6c, 0x6f, 0, 0]);
    // second nla at run offset 8: length 8, tag IFLA_MTU, 1500 LE
    assert_eq!(&out[40..48], &[8, 0, 4, 0, 0xdc, 0x05, 0, 0]);
}

#[test]
fn netlink_buffer_fields() {
    let bytes: Vec<u8> = vec![
        0x24, 0x00, 0x00, 0x00, 0x12, 0x00, 0x01, 0x03, 0x01, 0x00, 0x00, 0x00, 0x39, 0x30, 0x00,
        0x00, 0xaa, 0xbb, 0xcc, 0xdd, 0xee, 0xff, 0x00, 0x11, 0x22, 0x33, 0x44, 0x55, 0x66, 0x77,
        0x88, 0x99, 0x00, 0x00, 0x00, 0x00,
    ];
    let mut buf = NetlinkBuffer::new_checked(bytes).unwrap();
    assert_eq!(buf.length(), 0x24);
    assert_eq!(buf.message_type(), 0x12);
    assert_eq!(buf.flags(), NetlinkFlags::from(0x0301));
    assert_eq!(buf.sequence_number(), 1);
    assert_eq!(buf.port_number(), 12345);
    assert_eq!(buf.payload_length(), 0x24 - 16);
    assert_eq!(buf.payload().len(), 0x24 - 16);
    buf.set_length(16);
    buf.set_message_type(3);
    buf.set_flags(NetlinkFlags::new());
    buf.set_sequence_number(0);
    buf.set_port_number(0);
    assert_eq!(buf.length(), 16);
    assert_eq!(buf.message_type(), 3);
    assert_eq!(buf.flags(), NetlinkFlags::new());
    assert_eq!(buf.sequence_number(), 0);
    assert_eq!(buf.port_number(), 0);
}

#[test]
fn short_buffer_truncated() {
    match NetlinkBuffer::new_checked(vec![0u8; 12]) {
        Err(Error::Truncated) => {}
        other => panic!("expected Truncated, got {:?}", other),
    }
    // a length field below the header size is rejected too
    let mut bytes = vec![0u8; 16];
    bytes[0] = 8;
    match NetlinkBuffer::new_checked(bytes) {
        Err(Error::Truncated) => {}
        other => panic!("expected Truncated, got {:?}", other),
    }
}

#[test]
fn netlink_header_fields() {
    let mut header = NetlinkHeader::new(32, 18, NetlinkFlags::from(5), 7, 9);
    assert_eq!(header.length(), 32);
    assert_eq!(header.message_type(), 18);
    assert_eq!(header.flags(), NetlinkFlags::from(5));
    assert_eq!(header.sequence_number(), 7);
    assert_eq!(header.port_number(), 9);
    header.set_length(16);
    header.set_message_type(3);
    header.set_flags(NetlinkFlags::new());
    header.set_sequence_number(0);
    header.set_port_number(0);
    assert_eq!(header, NetlinkHeader::new(16, 3, NetlinkFlags::new(), 0, 0));
    assert_eq!(header.buffer_len(), 16);
    let mut wire = Vec::new();
    header.emit(&mut wire);
    assert_eq!(wire, vec![16, 0, 0, 0, 3, 0, 0, 0, 0, 0, 0, 0, 0, 0, 0, 0]);
}

#[test]
fn neighbour_cacheinfo_fields() {
    let bytes: Vec<u8> = vec![1, 0, 0, 0, 2, 0, 0, 0, 3, 0, 0, 0, 4, 0, 0, 0];
    let ci = NeighbourCacheInfo::from_bytes(&bytes).unwrap();
    assert_eq!(
        ci,
        NeighbourCacheInfo { ndm_confirmed: 1, ndm_used: 2, ndm_updated: 3, ndm_refcnt: 4 }
    );
    let mut out = Vec::new();
    ci.emit(&mut out);
    assert_eq!(out, bytes);
    match NeighbourCacheInfo::from_bytes(&bytes[0..12]) {
        Err(Error::Malformed) => {}
        other => panic!("expected Malformed, got {:?}", other),
    }
}

#[test]
fn address_round_trip() {
    // RTM_NEWADDR: ifaddrmsg for 192.168.1.1/24 on interface 3
    let mut bytes: Vec<u8> = vec![32, 0, 0, 0, 20, 0, 0, 0, 0, 0, 0, 0, 0, 0, 0, 0];
    bytes.extend_from_slice(&[2, 24, 0, 0, 3, 0, 0, 0]); // ifaddrmsg
    bytes.extend_from_slice(&[8, 0, 1, 0, 192, 168, 1, 1]); // IFA_ADDRESS
    assert_eq!(bytes.len(), 32);
    let msg = NetlinkMessage::from_bytes(&bytes).unwrap();
    let am = match msg.payload() {
        NetlinkPayload::Rtnl(RtnlMessage::NewAddress(am)) => am,
        other => panic!("expected a NewAddress, got {:?}", other),
    };
    assert_eq!(am.header.family, 2);
    assert_eq!(am.header.prefix_len, 24);
    assert_eq!(am.header.scope, 0);
    assert_eq!(am.header.index, 3);
    assert_eq!(am.nlas.len(), 1);
    assert_eq!(am.nlas[0], DefaultNla { kind: 1, value: vec![192, 168, 1, 1] });
    let mut out = vec![0u8; 32];
    assert_eq!(msg.to_bytes(&mut out).unwrap(), 32);
    assert_eq!(out, bytes);
}

#[test]
fn neighbour_typed_nlas_round_trip() {
    let mut bytes: Vec<u8> = vec![64, 0, 0, 0, 28, 0, 0, 0, 0, 0, 0, 0, 0, 0, 0, 0];
    bytes.extend_from_slice(&[2, 0, 0, 0, 7, 0, 0, 0, 0x02, 0, 0x80, 1]); // ndmsg
    bytes.extend_from_slice(&[6, 0, 5, 0, 0x64, 0, 0, 0]); // NDA_VLAN = 100
    bytes.extend_from_slice(&[20, 0, 3, 0]); // NDA_CACHEINFO
    bytes.extend_from_slice(&[1, 0, 0, 0, 2, 0, 0, 0, 3, 0, 0, 0, 4, 0, 0, 0]);
    bytes.extend_from_slice(&[8, 0, 7, 0, 42, 0, 0, 0]); // NDA_VNI = 42
    assert_eq!(bytes.len(), 64);
    let msg = NetlinkMessage::from_bytes(&bytes).unwrap();
    let nm = match msg.payload() {
        NetlinkPayload::Rtnl(RtnlMessage::NewNeighbour(nm)) => nm,
        other => panic!("expected a NewNeighbour, got {:?}", other),
    };
    assert_eq!(nm.header.family, 2);
    assert_eq!(nm.header.ifindex, 7);
    assert_eq!(nm.header.state, 0x02);
    assert_eq!(nm.header.flags, 0x80);
    assert_eq!(nm.header.ntype, 1);
    assert_eq!(nm.nlas.len(), 3);
    assert_eq!(nm.nlas[0], NeighbourNla::VLAN(100));
    assert_eq!(
        nm.nlas[1],
        NeighbourNla::CacheInfo(NeighbourCacheInfo {
            ndm_confirmed: 1,
            ndm_used: 2,
            ndm_updated: 3,
            ndm_refcnt: 4,
        })
    );
    assert_eq!(nm.nlas[2], NeighbourNla::VNI(42));
    let mut out = vec![0u8; 64];
    assert_eq!(msg.to_bytes(&mut out).unwrap(), 64);
    assert_eq!(out, bytes);
}

#[test]
fn ifname_non_ascii_round_trip() {
    // "é" is two UTF-8 bytes; the decoded string must hold the one
    // character, not the raw bytes
    let mut bytes: Vec<u8> = vec![40, 0, 0, 0, 16, 0, 0, 0, 0, 0, 0, 0, 0, 0, 0, 0];
    bytes.extend_from_slice(&[0u8; 16]); // ifinfomsg
    bytes.extend_from_slice(&[7, 0, 3, 0, 0xc3, 0xa9, 0x00, 0x00]);
    let msg = NetlinkMessage::from_bytes(&bytes).unwrap();
    let lm = match msg.payload() {
        NetlinkPayload::Rtnl(RtnlMessage::NewLink(lm)) => lm,
        other => panic!("expected a NewLink, got {:?}", other),
    };
    assert_eq!(lm.nlas[0], LinkNla::IfName(String::from("\u{e9}")));
    match &lm.nlas[0] {
        LinkNla::IfName(name) => assert_eq!(name.chars().count(), 1),
        other => panic!("expected a device name, got {:?}", other),
    }
    let mut out = vec![0u8; 40];
    assert_eq!(msg.to_bytes(&mut out).unwrap(), 40);
    assert_eq!(out, bytes);
}

#[test]
fn header_field_references() {
    let mut header = NetlinkHeader::default();
    *header.length_mut() = 32;
    *header.message_type_mut() = 18;
    *header.flags_mut() = NetlinkFlags::from(1);
    *header.sequence_number_mut() = 2;
    *header.port_number_mut() = 3;
    assert_eq!(header, NetlinkHeader::new(32, 18, NetlinkFlags::from(1), 2, 3));
}

#[test]
fn io_error_wrapped() {
    let upstream = std::io::Error::new(std::io::ErrorKind::Other, "connection reset");
    let err = Error::from(upstream);
    assert!(matches!(err, Error::Io(_)));
    assert_eq!(err.description(), "failed to read or write a packet due to an IO error");
}

#[test]
fn error_descriptions() {
    assert_eq!(Error::Exhausted.description(), "buffer space exhausted");
    assert_eq!(Error::Truncated.description(), "truncated packet");
    assert_eq!(Error::Malformed.description(), "malformed packet");
}
