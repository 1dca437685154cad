use porky_mdns::address::{Ipv4Address, Ipv6Address};
use porky_mdns::answers::{HostRecord, ServiceDescriptor, TxtPair};
use porky_mdns::responder::{handle_datagram, session_step, SessionEvent, SessionState};

fn name(labels: &[&[u8]]) -> Vec<u8> {
    let mut out = Vec::new();
    for l in labels {
        out.push(l.len() as u8);
        out.extend_from_slice(l);
    }
    out.push(0);
    out
}

fn query(id: u16, qname: &[u8], qtype: u16, qclass: u16) -> Vec<u8> {
    let mut d = vec![
        (id >> 8) as u8,
        id as u8,
        0,
        0,
        0,
        1,
        0,
        0,
        0,
        0,
        0,
        0,
    ];
    d.extend_from_slice(qname);
    d.push((qtype >> 8) as u8);
    d.push(qtype as u8);
    d.push((qclass >> 8) as u8);
    d.push(qclass as u8);
    d
}

fn pair(key: &[u8], value: &[u8]) -> TxtPair {
    TxtPair { key: key.to_vec(), value: value.to_vec() }
}

fn host() -> HostRecord {
    HostRecord {
        hostname: b"host1".to_vec(),
        ipv4: Ipv4Address { octets: [192, 168, 1, 5] },
        ipv6: None,
        ttl: 60,
    }
}

fn service() -> ServiceDescriptor {
    ServiceDescriptor {
        instance: b"123456789".to_vec(),
        service: b"_pigg".to_vec(),
        protocol: b"_tcp".to_vec(),
        port: 1234,
        priority: 1,
        weight: 5,
        subtypes: vec![],
        txt: vec![
            pair(b"Serial", b"123456789"),
            pair(b"Model", b"Pi Pico W"),
            pair(b"AppName", b"porky"),
            pair(b"AppVersion", b"1.0.0"),
        ],
    }
}

fn service_type_name() -> Vec<u8> {
    name(&[b"_pigg", b"_tcp", b"local"])
}

fn instance_name() -> Vec<u8> {
    name(&[b"123456789", b"_pigg", b"_tcp", b"local"])
}

fn host_name() -> Vec<u8> {
    name(&[b"host1", b"local"])
}

struct Rec {
    name: Vec<u8>,
    rtype: u16,
    rclass: u16,
    ttl: u32,
    rdata: Vec<u8>,
}

fn parse_records(resp: &[u8]) -> (u16, Vec<Rec>) {
    assert!(resp.len() >= 12);
    let ancount = u16::from_be_bytes([resp[6], resp[7]]);
    let mut i = 12;
    let mut recs = Vec::new();
    while i < resp.len() {
        let start = i;
        while resp[i] != 0 {
            i += 1 + resp[i] as usize;
        }
        i += 1;
        let rname = resp[start..i].to_vec();
        let rtype = u16::from_be_bytes([resp[i], resp[i + 1]]);
        let rclass = u16::from_be_bytes([resp[i + 2], resp[i + 3]]);
        let ttl = u32::from_be_bytes([resp[i + 4], resp[i + 5], resp[i + 6], resp[i + 7]]);
        let rdlen = u16::from_be_bytes([resp[i + 8], resp[i + 9]]) as usize;
        i += 10;
        let rdata = resp[i..i + rdlen].to_vec();
        i += rdlen;
        recs.push(Rec { name: rname, rtype, rclass, ttl, rdata });
    }
    (ancount, recs)
}

fn expected_txt_rdata() -> Vec<u8> {
    let mut out = Vec::new();
    for (k, v) in [
        (b"Serial".as_slice(), b"123456789".as_slice()),
        (b"Model".as_slice(), b"Pi Pico W".as_slice()),
        (b"AppName".as_slice(), b"porky".as_slice()),
        (b"AppVersion".as_slice(), b"1.0.0".as_slice()),
    ] {
        out.push((k.len() + 1 + v.len()) as u8);
        out.extend_from_slice(k);
        out.push(b'=');
        out.extend_from_slice(v);
    }
    out
}

#[test]
fn ptr_query_earns_full_answer_set_with_txt_pairs_in_order() {
    let d = query(0x1234, &service_type_name(), 12, 1);
    let (resp, unicast) = handle_datagram(&d, &host(), &service()).expect("a PTR query is answered");
    assert!(!unicast);
    assert_eq!(&resp[0..2], &[0x12, 0x34]);
    assert_eq!(&resp[2..4], &[0x84, 0x00]);
    assert_eq!(&resp[4..6], &[0, 0]);
    let (ancount, recs) = parse_records(&resp);
    assert_eq!(ancount, 4);
    assert_eq!(recs.len(), 4);

    assert_eq!(recs[0].name, service_type_name());
    assert_eq!(recs[0].rtype, 12);
    assert_eq!(recs[0].rclass, 1);
    assert_eq!(recs[0].ttl, 60);
    assert_eq!(recs[0].rdata, instance_name());

    assert_eq!(recs[1].name, instance_name());
    assert_eq!(recs[1].rtype, 33);
    assert_eq!(recs[1].rclass, 0x8001);
    let mut srv = vec![0, 1, 0, 5, 0x04, 0xd2];
    srv.extend_from_slice(&host_name());
    assert_eq!(recs[1].rdata, srv);

    assert_eq!(recs[2].name, instance_name());
    assert_eq!(recs[2].rtype, 16);
    assert_eq!(recs[2].rdata, expected_txt_rdata());

    assert_eq!(recs[3].name, host_name());
    assert_eq!(recs[3].rtype, 1);
    assert_eq!(recs[3].rdata, vec![192, 168, 1, 5]);
}

#[test]
fn txt_query_for_instance_earns_exactly_the_txt_record() {
    let d = query(7, &instance_name(), 16, 1);
    let (resp, _) = handle_datagram(&d, &host(), &service()).expect("a TXT query is answered");
    let (ancount, recs) = parse_records(&resp);
    assert_eq!(ancount, 1);
    assert_eq!(recs[0].rtype, 16);
    assert_eq!(recs[0].rdata, expected_txt_rdata());
}

#[test]
fn srv_query_for_instance_reports_port_priority_weight() {
    let d = query(7, &instance_name(), 33, 1);
    let (resp, _) = handle_datagram(&d, &host(), &service()).expect("an SRV query is answered");
    let (_, recs) = parse_records(&resp);
    assert_eq!(recs.len(), 1);
    let mut srv = vec![0, 1, 0, 5, 0x04, 0xd2];
    srv.extend_from_slice(&host_name());
    assert_eq!(recs[0].rdata, srv);
}

#[test]
fn a_query_for_host_reports_the_resolved_address() {
    let d = query(7, &host_name(), 1, 1);
    let (resp, _) = handle_datagram(&d, &host(), &service()).expect("an A query is answered");
    let (_, recs) = parse_records(&resp);
    assert_eq!(recs.len(), 1);
    assert_eq!(recs[0].rclass, 0x8001);
    assert_eq!(recs[0].rdata, vec![192, 168, 1, 5]);
}

#[test]
fn aaaa_query_is_answered_only_when_an_ipv6_address_exists() {
    let d = query(7, &host_name(), 28, 1);
    assert!(handle_datagram(&d, &host(), &service()).is_none());

    let mut h6 = host();
    h6.ipv6 = Some(Ipv6Address { octets: [0xfe, 0x80, 0, 0, 0, 0, 0, 0, 0, 0, 0, 0, 0, 0, 0, 1] });
    let (resp, _) = handle_datagram(&d, &h6, &service()).expect("an AAAA query is answered");
    let (_, recs) = parse_records(&resp);
    assert_eq!(recs.len(), 1);
    assert_eq!(recs[0].rtype, 28);
    assert_eq!(recs[0].rdata.len(), 16);
    assert_eq!(recs[0].rdata[0], 0xfe);
}

#[test]
fn subtype_ptr_query_is_answered_for_an_advertised_subtype() {
    let mut s = service();
    s.subtypes = vec![b"_gpio".to_vec()];
    let sub = name(&[b"_gpio", b"_sub", b"_pigg", b"_tcp", b"local"]);
    let d = query(7, &sub, 12, 1);
    let (resp, _) = handle_datagram(&d, &host(), &s).expect("a subtype PTR query is answered");
    let (ancount, recs) = parse_records(&resp);
    assert_eq!(ancount, 4);
    assert_eq!(recs[0].name, sub);
    assert_eq!(recs[0].rdata, instance_name());

    assert!(handle_datagram(&d, &host(), &service()).is_none());
}

#[test]
fn empty_attribute_set_yields_one_empty_txt_string() {
    let mut s = service();
    s.txt = vec![];
    let d = query(7, &instance_name(), 16, 1);
    let (resp, _) = handle_datagram(&d, &host(), &s).expect("a TXT query is answered");
    let (_, recs) = parse_records(&resp);
    assert_eq!(recs[0].rdata, vec![0]);
}

#[test]
fn two_questions_earn_concatenated_answers() {
    let mut d = query(9, &service_type_name(), 12, 1);
    d[5] = 2;
    d.extend_from_slice(&host_name());
    d.extend_from_slice(&[0, 1, 0, 1]);
    let (resp, _) = handle_datagram(&d, &host(), &service()).expect("both questions are answered");
    let (ancount, recs) = parse_records(&resp);
    assert_eq!(ancount, 5);
    assert_eq!(recs.len(), 5);
    assert_eq!(recs[4].rtype, 1);
    assert_eq!(recs[4].rdata, vec![192, 168, 1, 5]);
}

#[test]
fn irrelevant_and_unparseable_datagrams_are_dropped() {
    let h = host();
    let s = service();
    assert!(handle_datagram(&vec![], &h, &s).is_none());
    assert!(handle_datagram(&vec![0; 5], &h, &s).is_none());

    let other = query(7, &name(&[b"_http", b"_tcp", b"local"]), 12, 1);
    assert!(handle_datagram(&other, &h, &s).is_none());

    let wrong_type = query(7, &service_type_name(), 1, 1);
    assert!(handle_datagram(&wrong_type, &h, &s).is_none());

    let mut response_bit = query(7, &service_type_name(), 12, 1);
    response_bit[2] = 0x84;
    assert!(handle_datagram(&response_bit, &h, &s).is_none());

    let mut truncated = query(7, &service_type_name(), 12, 1);
    truncated.truncate(truncated.len() - 3);
    assert!(handle_datagram(&truncated, &h, &s).is_none());

    let mut compressed = vec![0u8, 7, 0, 0, 0, 1, 0, 0, 0, 0, 0, 0];
    compressed.extend_from_slice(&[0xc0, 0x0c, 0, 12, 0, 1]);
    assert!(handle_datagram(&compressed, &h, &s).is_none());

    let mut overlong = vec![0u8, 7, 0, 0, 0, 1, 0, 0, 0, 0, 0, 0];
    overlong.push(64);
    overlong.extend_from_slice(&[b'x'; 64]);
    overlong.extend_from_slice(&[0, 0, 12, 0, 1]);
    assert!(handle_datagram(&overlong, &h, &s).is_none());
}

#[test]
fn a_sixty_three_byte_label_is_the_largest_accepted() {
    let big = [b'a'; 63];
    let mut s = service();
    s.instance = big.to_vec();
    let iname = name(&[&big, b"_pigg", b"_tcp", b"local"]);
    let d = query(7, &iname, 33, 1);
    let (resp, _) = handle_datagram(&d, &host(), &s).expect("the longest label is served");
    let (ancount, recs) = parse_records(&resp);
    assert_eq!(ancount, 1);
    assert_eq!(recs[0].name, iname);
}

#[test]
fn the_same_query_earns_byte_identical_answers() {
    let d = query(0x4242, &service_type_name(), 12, 1);
    let first = handle_datagram(&d, &host(), &service()).expect("answered once");
    let second = handle_datagram(&d, &host(), &service()).expect("answered twice");
    assert_eq!(first, second);
}

#[test]
fn unicast_bit_of_the_question_requests_a_unicast_response() {
    let multicast = query(7, &service_type_name(), 12, 1);
    let (_, unicast) = handle_datagram(&multicast, &host(), &service()).unwrap();
    assert!(!unicast);

    let qu = query(7, &service_type_name(), 12, 0x8001);
    let (_, unicast) = handle_datagram(&qu, &host(), &service()).unwrap();
    assert!(unicast);
}

#[test]
fn session_binds_listens_answers_and_terminates() {
    let h = host();
    let s = service();

    let (st, out) = session_step(SessionState::Binding, &SessionEvent::BindSucceeded, &h, &s);
    assert_eq!(st, SessionState::Listening);
    assert!(out.is_none());

    let (st, out) = session_step(SessionState::Binding, &SessionEvent::BindFailed, &h, &s);
    assert_eq!(st, SessionState::Terminated);
    assert!(out.is_none());

    let d = query(7, &service_type_name(), 12, 1);
    let (st, out) = session_step(
        SessionState::Listening,
        &SessionEvent::DatagramReceived(d.clone()),
        &h,
        &s,
    );
    assert_eq!(st, SessionState::Listening);
    assert_eq!(out, handle_datagram(&d, &h, &s));

    let noise = SessionEvent::DatagramReceived(vec![1, 2, 3]);
    let (st, out) = session_step(SessionState::Listening, &noise, &h, &s);
    assert_eq!(st, SessionState::Listening);
    assert!(out.is_none());

    let (st, out) = session_step(SessionState::Listening, &SessionEvent::SocketFailed, &h, &s);
    assert_eq!(st, SessionState::Terminated);
    assert!(out.is_none());

    let (st, out) = session_step(SessionState::Terminated, &noise, &h, &s);
    assert_eq!(st, SessionState::Terminated);
    assert!(out.is_none());
}
