use gossip_core::addr::Address;
use gossip_core::addr::IpSocket;
use gossip_core::addr::Ipv4;
use gossip_core::addr::Ipv6;
use gossip_core::codec::DecodeError;
use gossip_core::codec::EncodeError;
use gossip_core::codec::SIZE_LIMIT;
use gossip_core::codec::decode;
use gossip_core::codec::encode;
use gossip_core::gossip::Gossip;
use gossip_core::gossip::Gossips;
use gossip_core::gossip::Profile;

fn record(payload: Vec<u8>, addr: Option<Address>) -> Gossip {
    Gossip::from_profile(Profile { payload, addr })
}

fn sample_v4() -> Option<Address> {
    Some(Address::Ip(IpSocket::V4(Ipv4 { o0: 93, o1: 184, o2: 216, o3: 34 }, 443)))
}

fn sample_v6() -> Option<Address> {
    Some(Address::Ip(IpSocket::V6(
        Ipv6 { s0: 0x2001, s1: 0xdb8, s2: 0, s3: 0, s4: 0, s5: 0, s6: 0, s7: 0x42 },
        9000,
    )))
}

#[test]
fn round_trip_all_endpoint_kinds() {
    let cases = [
        record(Vec::new(), None),
        record(vec![7], Some(Address::Unresolved)),
        record(vec![1, 2, 3, 4, 5], sample_v4()),
        record(vec![0, 255, 128], sample_v6()),
    ];
    for original in cases {
        let bytes = encode(&original).expect("record fits the limit");
        assert!(bytes.len() <= SIZE_LIMIT);
        let decoded = decode(&bytes).expect("own encoding decodes");
        assert_eq!(decoded, original);
    }
}

#[test]
fn encoding_is_deterministic() {
    let a = record(vec![1, 2, 3], sample_v4());
    let b = record(vec![1, 2, 3], sample_v4());
    assert_eq!(encode(&a).unwrap(), encode(&b).unwrap());
}

#[test]
fn exact_wire_bytes() {
    // 3-byte payload, IPv4 endpoint 93.184.216.34:443.
    let bytes = encode(&record(vec![0xaa, 0xbb, 0xcc], sample_v4())).unwrap();
    assert_eq!(
        bytes,
        vec![0, 0, 0, 3, 0xaa, 0xbb, 0xcc, 2, 93, 184, 216, 34, 1, 187]
    );
    // Empty payload, no endpoint.
    let bytes = encode(&record(Vec::new(), None)).unwrap();
    assert_eq!(bytes, vec![0, 0, 0, 0, 0]);
}

#[test]
fn size_boundary() {
    // Payload + 4 length bytes + 1 endpoint tag: exactly SIZE_LIMIT.
    let at_limit = record(vec![9; SIZE_LIMIT - 5], None);
    let bytes = encode(&at_limit).expect("exactly the limit encodes");
    assert_eq!(bytes.len(), SIZE_LIMIT);
    let decoded = decode(&bytes).expect("exactly the limit decodes");
    assert_eq!(decoded, at_limit);

    // One byte over.
    let over = record(vec![9; SIZE_LIMIT - 4], None);
    assert_eq!(encode(&over), Err(EncodeError::TooLarge));

    let mut long = bytes.clone();
    long.push(0);
    assert_eq!(decode(&long), Err(DecodeError::LimitExceeded));
}

#[test]
fn truncated_input_is_malformed() {
    for original in [
        record(vec![1, 2, 3], None),
        record(vec![1, 2, 3], sample_v4()),
        record(vec![1, 2, 3], sample_v6()),
    ] {
        let mut bytes = encode(&original).unwrap();
        while bytes.pop().is_some() {
            assert_eq!(decode(&bytes), Err(DecodeError::Malformed));
        }
    }
}

#[test]
fn trailing_bytes_are_rejected() {
    for original in [
        record(vec![1, 2, 3], None),
        record(vec![1, 2, 3], Some(Address::Unresolved)),
        record(vec![1, 2, 3], sample_v4()),
        record(vec![1, 2, 3], sample_v6()),
    ] {
        let mut bytes = encode(&original).unwrap();
        bytes.push(0);
        assert_eq!(decode(&bytes), Err(DecodeError::TrailingBytes));
    }
}

#[test]
fn malformed_inputs() {
    // Unknown endpoint tag.
    assert_eq!(decode(&vec![0, 0, 0, 0, 9]), Err(DecodeError::Malformed));
    // Length field larger than what follows.
    assert_eq!(decode(&vec![0, 0, 0, 5, 1, 2, 0]), Err(DecodeError::Malformed));
    // Too short to hold a length field.
    assert_eq!(decode(&vec![1, 2]), Err(DecodeError::Malformed));
    // Endpoint sections cut short.
    assert_eq!(decode(&vec![0, 0, 0, 0, 2, 10, 0, 0, 1, 4]), Err(DecodeError::Malformed));
    assert_eq!(decode(&vec![0, 0, 0, 0, 3, 0, 0]), Err(DecodeError::Malformed));
}

#[test]
fn batch_encodes_in_order() {
    let records = vec![
        record(vec![1], None),
        record(vec![2, 2], sample_v4()),
        record(vec![3, 3, 3], sample_v6()),
    ];
    let expected: Vec<Vec<u8>> = records.iter().map(|g| encode(g).unwrap()).collect();
    let batch = Gossips::from_records(records);
    let wire = batch.to_wire().expect("all records fit the limit");
    assert_eq!(wire.nodes, expected);
}

#[test]
fn batch_conversion_is_all_or_nothing() {
    let records = vec![
        record(vec![1], None),
        record(vec![9; SIZE_LIMIT], None),
        record(vec![3], None),
    ];
    let batch = Gossips::from_records(records);
    assert_eq!(batch.to_wire(), Err(EncodeError::TooLarge));
}

#[test]
fn batch_round_trip() {
    let records = vec![record(vec![1], None), record(vec![2, 2], sample_v4())];
    let batch = Gossips::from_records(records);
    let wire = batch.to_wire().unwrap();
    let decoded: Vec<Gossip> = wire.nodes.iter().map(|b| decode(b).unwrap()).collect();
    assert_eq!(decoded, batch.into_records());
}
