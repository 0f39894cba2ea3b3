//! What the peer sends is decoded without a panic, whatever it is.

use fabric_shim::fields::{decode, encode};
use fabric_shim::proto::{
    ChaincodeInput, ChaincodeMessage, ChaincodeProposalPayload, ChannelHeader, Header, Proposal,
    SignatureHeader, SignedProposal,
};
use fabric_shim::bytes_map::BytesMap;
use fabric_shim::{create_composite_key, split_composite_key, ChaincodeStub};

struct Noise(u64);

impl Noise {
    fn next(&mut self) -> u64 {
        self.0 = self.0.wrapping_mul(6364136223846793005).wrapping_add(1442695040888963407);
        self.0 >> 33
    }

    fn bytes(&mut self, longest: u64) -> Vec<u8> {
        let count = self.next() % (longest + 1);
        (0..count)
            .map(|_| match self.next() % 3 {
                0 => (self.next() % 256) as u8,
                1 => (self.next() % 8 * 8 + 2) as u8,
                _ => (self.next() % 6) as u8,
            })
            .collect()
    }
}

#[test]
fn decode_chaincode_message() {
    let mut noise = Noise(3);
    let mut read = 0;
    for _ in 0..50_000 {
        let bytes = noise.bytes(24);
        if let Ok(message) = decode::<ChaincodeMessage>(&bytes) {
            read += 1;
            // What was read is written so that it reads the same.
            assert_eq!(decode::<ChaincodeMessage>(&encode(&message)).unwrap(), message);
        }
    }
    assert!(read > 100);
}

#[test]
fn decode_proposal_chain() {
    let mut noise = Noise(5);
    for _ in 0..20_000 {
        let header = Header { channel_header: noise.bytes(6), signature_header: noise.bytes(6) };
        let header_bytes = if noise.next() % 4 == 0 { noise.bytes(6) } else { encode(&header) };
        let proposal =
            Proposal { header: header_bytes, payload: noise.bytes(6), extension: vec![] };
        let bytes = if noise.next() % 8 == 0 { noise.bytes(6) } else { encode(&proposal) };

        let sound = decode::<Proposal>(&bytes).and_then(|proposal| {
            let header = decode::<Header>(&proposal.header)?;
            let channel = decode::<ChannelHeader>(&header.channel_header)?;
            let signature = decode::<SignatureHeader>(&header.signature_header)?;
            let payload = decode::<ChaincodeProposalPayload>(&proposal.payload)?;
            Ok((channel.timestamp, signature.creator, payload.transient_map))
        });
        let signed = SignedProposal { proposal_bytes: bytes, signature: vec![] };
        let input = ChaincodeInput { args: vec![], decorations: BytesMap::new(), is_init: false };
        let stub = ChaincodeStub::new(String::new(), String::new(), input, Some(signed));
        match (sound, stub) {
            (Ok((timestamp, creator, transient)), Ok(stub)) => {
                assert_eq!(stub.get_tx_timestamp().ok(), timestamp);
                assert_eq!(stub.get_creator(), creator);
                assert_eq!(*stub.get_transient(), transient);
            }
            (Err(expected), Err(error)) => {
                assert_eq!(error.message(), format!("decode error: {}", expected.message()));
            }
            _ => panic!("the stub is made if and only if all parts can be decoded"),
        }
    }
}

#[test]
fn composite_keys_of_any_text_round_trip() {
    let mut noise = Noise(9);
    let mut built = 0;
    for _ in 0..20_000 {
        let data: Vec<u8> = noise.bytes(12).into_iter().map(|b| if b == 5 { b'\n' } else { b }).collect();
        let text = String::from_utf8_lossy(&data);
        let mut parts = text.split('\n');
        let object_type = parts.next().unwrap_or("");
        let attributes: Vec<&str> = parts.collect();
        if let Ok(key) = create_composite_key(object_type, &attributes) {
            built += 1;
            let (parsed_type, parsed_attrs) = split_composite_key(&key).unwrap();
            assert_eq!(parsed_type, object_type);
            assert_eq!(parsed_attrs, attributes);
        }
        let _ = split_composite_key(&text);
    }
    assert!(built > 100);
}
