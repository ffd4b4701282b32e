use finality_aleph::communication::{
    CoordSet,
    broadcast_round_trip, decode_envelope, encode_envelope, handle_incoming, peers_set_config,
    sign_message, MessageKind, SignedEnvelope, UnitCoord, ENVELOPE_OVERHEAD, MAX_MESSAGE_SIZE,
    MAX_PAYLOAD_SIZE,
};
use finality_aleph::crypto::{authority_id_of_secret, AuthorityId, AuthorityKeystore, SigningStore};
use finality_aleph::registry::Registry;

fn keystore_for(seed: u8) -> AuthorityKeystore {
    let mut store = SigningStore::new();
    store.insert_key(vec![seed; 32]);
    let id = authority_id_of_secret(&[seed; 32]).unwrap();
    AuthorityKeystore::new(id, store).unwrap()
}

fn four_peer_registry() -> Registry {
    let ids: Vec<AuthorityId> =
        (1u8..=4).map(|s| authority_id_of_secret(&[s; 32]).unwrap()).collect();
    Registry::new(ids).unwrap()
}

#[test]
fn envelope_encoding_round_trips() {
    let e = SignedEnvelope {
        sender_index: 2,
        kind: MessageKind::RequestCoord,
        payload: vec![5, 6, 7],
        signature: vec![9u8; 64],
    };
    let raw = encode_envelope(&e);
    assert_eq!(raw.len(), ENVELOPE_OVERHEAD + 3);
    let back = decode_envelope(&raw).unwrap();
    assert_eq!(back.sender_index, 2);
    assert_eq!(back.kind, MessageKind::RequestCoord);
    assert_eq!(back.payload, vec![5, 6, 7]);
    assert_eq!(back.signature, vec![9u8; 64]);
}

#[test]
fn truncated_and_garbled_bytes_do_not_decode() {
    assert!(decode_envelope(&[0u8; 0]).is_none());
    assert!(decode_envelope(&[0u8; 76]).is_none());
    // a valid image, then a bad kind tag
    let e = SignedEnvelope {
        sender_index: 0,
        kind: MessageKind::Unit,
        payload: Vec::new(),
        signature: vec![0u8; 64],
    };
    let mut raw = encode_envelope(&e);
    raw[0] = 3;
    assert!(decode_envelope(&raw).is_none());
    // a length field pointing past the end
    let mut raw2 = encode_envelope(&e);
    raw2[9] = 1;
    assert!(decode_envelope(&raw2).is_none());
}

#[test]
fn signed_message_is_accepted_and_returned_intact() {
    let registry = four_peer_registry();
    let keystore = keystore_for(2);
    let payload = b"unit bytes".to_vec();
    let raw = sign_message(&keystore, 1, MessageKind::Unit, payload.clone()).unwrap();
    assert!(raw.len() <= MAX_MESSAGE_SIZE);
    let (sender, kind, out) = handle_incoming(&registry, &raw).unwrap();
    assert_eq!(sender, 1);
    assert_eq!(kind, MessageKind::Unit);
    assert_eq!(out, payload);
}

#[test]
fn broadcast_round_trip_law_holds_at_runtime() {
    let registry = four_peer_registry();
    let keystore = keystore_for(3);
    assert!(broadcast_round_trip(&registry, &keystore, 2, MessageKind::ResponseUnit, b"payload"));
}

#[test]
fn oversized_message_never_reaches_the_engine() {
    let registry = four_peer_registry();
    let raw = vec![0u8; MAX_MESSAGE_SIZE + 1];
    assert!(handle_incoming(&registry, &raw).is_none());
    // and no payload over the limit can even be signed
    let keystore = keystore_for(1);
    let long = vec![0u8; MAX_PAYLOAD_SIZE + 1];
    assert!(sign_message(&keystore, 0, MessageKind::Unit, long).is_none());
    let longest = vec![0u8; MAX_PAYLOAD_SIZE];
    let raw = sign_message(&keystore, 0, MessageKind::Unit, longest).unwrap();
    assert_eq!(raw.len(), MAX_MESSAGE_SIZE);
    assert!(handle_incoming(&registry, &raw).is_some());
}

#[test]
fn malformed_signature_never_reaches_the_engine() {
    let registry = four_peer_registry();
    let e = SignedEnvelope {
        sender_index: 1,
        kind: MessageKind::Unit,
        payload: b"unit bytes".to_vec(),
        signature: vec![0u8; 64],
    };
    let raw = encode_envelope(&e);
    assert!(handle_incoming(&registry, &raw).is_none());
}

#[test]
fn message_signed_by_the_wrong_participant_is_dropped() {
    // tagged with sender index 2, but signed with participant 1's key
    let registry = four_peer_registry();
    let keystore_of_one = keystore_for(2);  // seed 2 is the identity at index 1
    let raw = sign_message(&keystore_of_one, 2, MessageKind::Unit, b"unit bytes".to_vec())
        .unwrap();
    assert!(handle_incoming(&registry, &raw).is_none());
}

#[test]
fn unknown_sender_index_is_dropped() {
    let registry = four_peer_registry();
    let keystore = keystore_for(1);
    let raw = sign_message(&keystore, 17, MessageKind::Unit, b"unit bytes".to_vec()).unwrap();
    assert!(handle_incoming(&registry, &raw).is_none());
}

#[test]
fn tampered_payload_is_dropped() {
    let registry = four_peer_registry();
    let keystore = keystore_for(1);
    let mut raw = sign_message(&keystore, 0, MessageKind::Unit, b"unit bytes".to_vec()).unwrap();
    let p = raw.len() - 70;
    raw[p] ^= 1;
    assert!(handle_incoming(&registry, &raw).is_none());
}

#[test]
fn protocol_channel_configuration_is_fixed() {
    let c = peers_set_config();
    assert_eq!(c.protocol_name, b"/aleph/1".to_vec());
    assert_eq!(c.max_message_size, 1024 * 1024);
    assert_eq!(c.in_peers, 0);
    assert_eq!(c.out_peers, 0);
    assert!(c.reserved_peers.is_empty());
    assert!(c.accept_non_reserved);
}

#[test]
fn duplicate_unit_coordinates_are_detected() {
    let mut seen = CoordSet::new();
    let a = UnitCoord { creator: 0, round: 1 };
    let b = UnitCoord { creator: 1, round: 1 };
    assert!(!seen.contains(&a));
    assert!(seen.note(a));
    assert!(seen.note(b));
    assert!(!seen.note(a));
    assert!(seen.contains(&a));
    assert!(seen.contains(&b));
    assert!(!seen.contains(&UnitCoord { creator: 0, round: 2 }));
}

#[test]
fn unit_coordinate_reads_round_then_creator() {
    let coord = UnitCoord::from((5u64, 2u64));
    assert_eq!(coord.round, 5);
    assert_eq!(coord.creator, 2);
    let a = UnitCoord { creator: 1, round: 4 };
    let b = UnitCoord { creator: 1, round: 4 };
    assert_eq!(a, b);
}
