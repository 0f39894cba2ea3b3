//! The wire format, held against `prost` wherever both know the message.

use prost::Message as _;

use fabric_shim::bytes_map::BytesMap;
use fabric_shim::codec::Message;
use fabric_shim::fields::{decode, encode};
use fabric_shim::proto::{
    ChaincodeEvent, ChaincodeId, ChaincodeInput, ChaincodeMessage, ChaincodeProposalPayload,
    ChaincodeSpec, ChannelHeader, GetHistoryForKey, KeyModification, PutState, QueryResponse,
    QueryResultBytes, QueryStateNext, Response, SignedProposal, Timestamp,
};
use fabric_shim::wire::{DecodeErrorKind, WireType};

/// A simple generator of repeatable noise.
struct Noise(u64);

impl Noise {
    fn next(&mut self) -> u64 {
        self.0 = self.0.wrapping_mul(6364136223846793005).wrapping_add(1442695040888963407);
        self.0 >> 33
    }

    fn bytes(&mut self, alphabet: &[u8], longest: u64) -> Vec<u8> {
        let count = self.next() % (longest + 1);
        (0..count).map(|_| alphabet[(self.next() % alphabet.len() as u64) as usize]).collect()
    }
}

fn check_timestamp(bytes: &[u8]) -> bool {
    let theirs = prost_types::Timestamp::decode(bytes);
    let ours = decode::<Timestamp>(bytes);
    match (theirs, ours) {
        (Ok(t), Ok(o)) => {
            assert_eq!((t.seconds, t.nanos), (o.seconds, o.nanos), "{bytes:?}");
            true
        }
        (Err(t), Err(o)) => {
            assert_eq!(t.to_string(), o.message(), "{bytes:?}");
            false
        }
        (t, o) => panic!("{bytes:?}: {t:?} but {o:?}"),
    }
}

#[test]
fn timestamps_are_written_as_prost_writes_them() {
    for seconds in [0, 1, 127, 128, -1, 1_700_000_000, i64::MAX, i64::MIN] {
        for nanos in [0, 1, 300, 999_999_999, -1, i32::MAX, i32::MIN] {
            let theirs = prost_types::Timestamp { seconds, nanos }.encode_to_vec();
            let ours = encode(&Timestamp { seconds, nanos });
            assert_eq!(theirs, ours);
            assert!(check_timestamp(&ours));
        }
    }
}

#[test]
fn timestamps_are_read_as_prost_reads_them() {
    // Bytes that make keys, lengths, groups and varints likely.
    let alphabet: Vec<u8> = vec![
        0x00, 0x01, 0x02, 0x03, 0x08, 0x0a, 0x0b, 0x0c, 0x0d, 0x09, 0x10, 0x12, 0x13, 0x14, 0x18,
        0x1a, 0x1b, 0x1c, 0x1d, 0x19, 0x1e, 0x1f, 0x7f, 0x80, 0x81, 0xff,
    ];
    let mut noise = Noise(7);
    let mut read = 0;
    for _ in 0..60_000 {
        let bytes = noise.bytes(&alphabet, 14);
        if check_timestamp(&bytes) {
            read += 1;
        }
    }
    assert!(read > 1_000);
}

#[test]
fn text_and_bytes_are_read_as_prost_reads_them() {
    let alphabet: Vec<u8> = vec![0x0a, 0x01, 0x02, 0x03, 0x41, 0xc3, 0xa9, 0xe2, 0x82, 0xac, 0xff];
    let mut noise = Noise(11);
    for _ in 0..40_000 {
        let bytes = noise.bytes(&alphabet, 9);
        let theirs = prost_types::SourceContext::decode(bytes.as_slice());
        let ours = decode::<QueryStateNext>(&bytes);
        assert_eq!(theirs.as_ref().ok().map(|t| &t.file_name), ours.as_ref().ok().map(|o| &o.id));
        if let (Err(t), Err(o)) = (theirs, ours) {
            let renamed = t.to_string().replace("SourceContext.file_name", "QueryStateNext.id");
            assert_eq!(renamed, o.message());
        }
        let theirs = Vec::<u8>::decode(bytes.as_slice());
        let ours = decode::<QueryResultBytes>(&bytes);
        assert_eq!(theirs.ok(), ours.ok().map(|o| o.result_bytes));
    }
}

#[test]
fn strings_bytes_and_repetition_are_written_as_prost_writes_them() {
    for text in ["", "a", "héllo", "\u{10FFFF}", &"x".repeat(300)] {
        let ours = encode(&GetHistoryForKey { key: text.to_string() });
        assert_eq!(text.to_string().encode_to_vec(), ours);
        let ours = encode(&QueryResultBytes { result_bytes: text.as_bytes().to_vec() });
        assert_eq!(text.as_bytes().to_vec().encode_to_vec(), ours);
    }
    let paths = vec!["a".to_string(), String::new(), "bc".to_string()];
    let input = ChaincodeInput {
        args: paths.iter().map(|p| p.as_bytes().to_vec()).collect(),
        decorations: BytesMap::new(),
        is_init: false,
    };
    assert_eq!(prost_types::FieldMask { paths }.encode_to_vec(), encode(&input));
    let any = prost_types::Any { type_url: "k".to_string(), value: vec![1, 2, 3] };
    let put = PutState { key: "k".to_string(), value: vec![1, 2, 3], collection: String::new() };
    assert_eq!(any.encode_to_vec(), encode(&put));
}

fn entries(pairs: &[(&str, &[u8])]) -> BytesMap {
    let mut map = BytesMap::new();
    for (key, value) in pairs {
        map.insert(key.to_string(), value.to_vec());
    }
    map
}

#[test]
fn written_messages_read_back() {
    let message = ChaincodeMessage {
        type_code: 5,
        timestamp: Some(Timestamp { seconds: -3, nanos: 7 }),
        payload: vec![0; 200],
        txid: "tx".to_string(),
        proposal: Some(SignedProposal { proposal_bytes: vec![1], signature: vec![] }),
        chaincode_event: Some(ChaincodeEvent {
            chaincode_id: String::new(),
            tx_id: "tx".to_string(),
            event_name: "e".to_string(),
            payload: vec![9],
        }),
        channel_id: "c".to_string(),
    };
    assert_eq!(decode::<ChaincodeMessage>(&encode(&message)).unwrap(), message);

    let spec = ChaincodeSpec {
        type_code: 0,
        chaincode_id: Some(ChaincodeId {
            path: String::new(),
            name: "cc".to_string(),
            version: String::new(),
        }),
        input: Some(ChaincodeInput {
            args: vec![vec![], vec![1, 2], vec![]],
            decorations: entries(&[("a", b"1"), ("", b""), ("b", b"")]),
            is_init: true,
        }),
        timeout: -1,
    };
    assert_eq!(decode::<ChaincodeSpec>(&encode(&spec)).unwrap(), spec);

    let page = QueryResponse {
        results: vec![
            QueryResultBytes { result_bytes: vec![] },
            QueryResultBytes { result_bytes: vec![4, 5] },
        ],
        has_more: true,
        id: "q".to_string(),
        metadata: vec![],
    };
    assert_eq!(decode::<QueryResponse>(&encode(&page)).unwrap(), page);

    let header = ChannelHeader {
        type_code: 3,
        version: -1,
        timestamp: None,
        channel_id: "ch".to_string(),
        tx_id: "t".to_string(),
        epoch: u64::MAX,
        extension: vec![],
        tls_cert_hash: vec![8],
    };
    assert_eq!(decode::<ChannelHeader>(&encode(&header)).unwrap(), header);

    let change = KeyModification {
        tx_id: "t".to_string(),
        value: vec![],
        timestamp: Some(Timestamp { seconds: 0, nanos: 0 }),
        is_delete: true,
    };
    assert_eq!(decode::<KeyModification>(&encode(&change)).unwrap(), change);
}

#[test]
fn blank_messages_take_no_bytes() {
    assert_eq!(encode(&ChaincodeMessage::blank()), Vec::<u8>::new());
    assert_eq!(decode::<ChaincodeMessage>(&[]).unwrap(), ChaincodeMessage::blank());
    assert_eq!(encode(&Response::blank()), Vec::<u8>::new());
}

#[test]
fn maps_are_written_as_entries() {
    let payload = ChaincodeProposalPayload {
        input: vec![],
        transient_map: entries(&[("k", b"v"), ("", b"x"), ("e", b"")]),
    };
    let bytes = encode(&payload);
    let expected: Vec<u8> = vec![
        0x12, 6, 0x0a, 1, b'k', 0x12, 1, b'v', // both
        0x12, 3, 0x12, 1, b'x', // a blank key is left out
        0x12, 3, 0x0a, 1, b'e', // so is a blank value
    ];
    assert_eq!(bytes, expected);
    assert_eq!(decode::<ChaincodeProposalPayload>(&bytes).unwrap(), payload);
}

#[test]
fn the_last_entry_of_a_key_counts() {
    let bytes: Vec<u8> = vec![
        0x12, 6, 0x0a, 1, b'k', 0x12, 1, b'1', 0x12, 6, 0x0a, 1, b'j', 0x12, 1, b'2', 0x12, 6,
        0x0a, 1, b'k', 0x12, 1, b'3',
    ];
    let map = decode::<ChaincodeProposalPayload>(&bytes).unwrap().transient_map;
    assert_eq!(map.len(), 2);
    assert_eq!(map.get("k").unwrap(), b"3");
    assert_eq!(map.get("j").unwrap(), b"2");
    assert_eq!(map.get("i"), None);
    assert_eq!(map.entry(0).key, "k");
}

#[test]
fn repeated_fields_of_one_message_are_merged() {
    // The second timestamp sets the nanoseconds and leaves the seconds.
    let bytes: Vec<u8> = vec![0x12, 2, 0x08, 5, 0x12, 2, 0x10, 6];
    let message = decode::<ChaincodeMessage>(&bytes).unwrap();
    assert_eq!(message.timestamp, Some(Timestamp { seconds: 5, nanos: 6 }));
    // Of two numbers the last counts.
    let bytes: Vec<u8> = vec![0x08, 1, 0x08, 2];
    assert_eq!(decode::<ChaincodeMessage>(&bytes).unwrap().type_code, 2);
}

#[test]
fn unknown_fields_are_skipped() {
    let known = encode(&Timestamp { seconds: 1, nanos: 2 });
    for unknown in [
        vec![0x1a, 2, 0xff, 0xff],
        vec![0x18, 0x80, 0x01],
        vec![0x1d, 1, 2, 3, 4],
        vec![0x19, 1, 2, 3, 4, 5, 6, 7, 8],
        vec![0x1b, 0x08, 1, 0x23, 0x24, 0x1c],
    ] {
        let mut bytes = unknown.clone();
        bytes.extend_from_slice(&known);
        bytes.extend_from_slice(&unknown);
        assert!(check_timestamp(&bytes));
        assert_eq!(decode::<Timestamp>(&bytes).unwrap(), Timestamp { seconds: 1, nanos: 2 });
    }
}

#[test]
fn each_fault_is_told() {
    let cases: Vec<(Vec<u8>, DecodeErrorKind, &str)> = vec![
        (vec![0x80], DecodeErrorKind::InvalidVarint, "invalid varint"),
        (vec![0x0f], DecodeErrorKind::InvalidWireType { value: 7 }, "invalid wire type value: 7"),
        (
            vec![0x80, 0x80, 0x80, 0x80, 0x10],
            DecodeErrorKind::InvalidKey { key: 4294967296 },
            "invalid key value: 4294967296",
        ),
        (vec![0x00], DecodeErrorKind::InvalidTag, "invalid tag value: 0"),
        (vec![0x1a, 5, 1], DecodeErrorKind::BufferUnderflow, "buffer underflow"),
        (
            vec![0x1c],
            DecodeErrorKind::UnexpectedEndGroupTag,
            "unexpected end group tag",
        ),
    ];
    for (bytes, kind, words) in cases {
        let error = decode::<Timestamp>(&bytes).unwrap_err();
        assert_eq!(error.kind, kind);
        assert_eq!(error.message(), format!("failed to decode Protobuf message: {words}"));
        assert!(!check_timestamp(&bytes));
    }
}

#[test]
fn faults_name_the_fields_around_them() {
    let error = decode::<ChaincodeMessage>(&[0x08, 0x80]).unwrap_err();
    assert_eq!(
        error.message(),
        "failed to decode Protobuf message: ChaincodeMessage.r#type: invalid varint"
    );
    let error = decode::<ChaincodeMessage>(&[0x12, 2, 0x0d, 0]).unwrap_err();
    assert_eq!(
        error.kind,
        DecodeErrorKind::UnexpectedWireType {
            actual: WireType::ThirtyTwoBit,
            expected: WireType::Varint,
        }
    );
    assert_eq!(
        error.message(),
        "failed to decode Protobuf message: Timestamp.seconds: ChaincodeMessage.timestamp: \
         invalid wire type: ThirtyTwoBit (expected Varint)"
    );
    let error = decode::<ChaincodeMessage>(&[0x22, 1, 0xff]).unwrap_err();
    assert_eq!(
        error.message(),
        "failed to decode Protobuf message: ChaincodeMessage.txid: invalid string value: data is \
         not UTF-8 encoded"
    );
    // The nested message goes on behind its end.
    let error = decode::<ChaincodeMessage>(&[0x12, 1, 0x08, 0x80, 0x01]).unwrap_err();
    assert_eq!(error.kind, DecodeErrorKind::DelimitedLengthExceeded);
    assert_eq!(
        error.message(),
        "failed to decode Protobuf message: ChaincodeMessage.timestamp: delimited length exceeded"
    );
}

#[test]
fn nested_groups_have_a_limit() {
    for depth in [1usize, 50, 98, 99, 100, 101, 102, 150] {
        let mut bytes = vec![0x1b; depth];
        bytes.extend(vec![0x1c; depth]);
        check_timestamp(&bytes);
    }
    let bytes = vec![0x1b; 200];
    let error = decode::<Timestamp>(&bytes).unwrap_err();
    assert_eq!(error.kind, DecodeErrorKind::RecursionLimitReached);
    assert_eq!(
        error.message(),
        "failed to decode Protobuf message: recursion limit reached"
    );
}

#[test]
fn the_longest_varint_has_ten_bytes() {
    let mut longest = vec![0x08];
    longest.extend(vec![0xff; 9]);
    longest.push(0x01);
    assert_eq!(decode::<Timestamp>(&longest).unwrap().seconds, -1);
    let mut over = vec![0x08];
    over.extend(vec![0xff; 9]);
    over.push(0x02);
    assert!(!check_timestamp(&over));
    assert_eq!(decode::<Timestamp>(&over).unwrap_err().kind, DecodeErrorKind::InvalidVarint);
}

#[test]
fn maps_keep_one_value_per_key() {
    let mut map = BytesMap::new();
    assert!(map.is_empty());
    map.insert("a".to_string(), vec![1]);
    map.insert("b".to_string(), vec![2]);
    map.insert("a".to_string(), vec![3]);
    assert_eq!(map.len(), 2);
    assert_eq!(map.get("a"), Some(&vec![3]));
    assert_eq!(map.get("b"), Some(&vec![2]));
    let copy = map.clone();
    assert_eq!(copy, map);
    // The order of the entries makes no difference.
    assert_eq!(entries(&[("b", &[2]), ("a", &[3])]), map);
    assert_ne!(entries(&[("b", &[2])]), map);
    assert_ne!(entries(&[("b", &[2]), ("a", &[4])]), map);
    assert_ne!(entries(&[("b", &[2]), ("a", &[3]), ("c", &[])]), map);
}
