use finality_aleph::crypto::{
    authority_id_of_secret, sign_then_verify, verify, AuthorityId, AuthorityKeystore, SigningStore,
};
use finality_aleph::error::Error;
use finality_aleph::registry::{resolve_round_trip, NodeId, Registry};

fn id_from_byte(b: u8) -> AuthorityId {
    AuthorityId(vec![b; 32])
}

fn four_ids() -> Vec<AuthorityId> {
    vec![id_from_byte(1), id_from_byte(2), id_from_byte(3), id_from_byte(4)]
}

#[test]
fn registry_maps_four_authorities_onto_dense_indices() {
    let registry = Registry::new(four_ids()).unwrap();
    assert_eq!(registry.len(), 4);
    for i in 0..4usize {
        let id = registry.resolve_identity(i).unwrap();
        assert!(id.equals(&id_from_byte(i as u8 + 1)));
        let back = registry.resolve_index(&id_from_byte(i as u8 + 1)).unwrap();
        assert_eq!(back, i);
    }
}

#[test]
fn registry_round_trip_law_holds_on_every_index() {
    let registry = Registry::new(four_ids()).unwrap();
    for i in 0..4usize {
        assert!(resolve_round_trip(&registry, i));
    }
}

#[test]
fn registry_rejects_unknown_identity_and_index() {
    let registry = Registry::new(four_ids()).unwrap();
    assert_eq!(registry.resolve_index(&id_from_byte(9)), Err(Error::UnknownParticipant));
    assert!(matches!(registry.resolve_identity(4), Err(Error::UnknownParticipant)));
}

#[test]
fn registry_rejects_empty_authority_list() {
    assert!(matches!(Registry::new(Vec::new()), Err(Error::EmptyAuthoritySet)));
}

#[test]
fn registry_rejects_duplicate_authorities() {
    let ids = vec![id_from_byte(1), id_from_byte(2), id_from_byte(1)];
    assert!(matches!(Registry::new(ids), Err(Error::DuplicateAuthority)));
}

fn store_with_secrets(bytes: &[u8]) -> SigningStore {
    let mut store = SigningStore::new();
    for b in bytes {
        store.insert_key(vec![*b; 32]);
    }
    store
}

#[test]
fn signature_verifies_under_signing_identity() {
    let store = store_with_secrets(&[7]);
    let id = authority_id_of_secret(&[7u8; 32]).unwrap();
    let keystore = AuthorityKeystore::new(id, store).unwrap();
    let payload = b"round 3 unit".to_vec();
    let sig = keystore.sign(&payload);
    assert_eq!(sig.len(), 64);
    assert!(verify(keystore.authority_id(), &payload, &sig));
    assert!(sign_then_verify(&keystore, &payload));
    assert!(sign_then_verify(&keystore, &[]));
}

#[test]
fn verification_fails_under_another_identity() {
    let store = store_with_secrets(&[7, 8]);
    let signer = authority_id_of_secret(&[7u8; 32]).unwrap();
    let other = authority_id_of_secret(&[8u8; 32]).unwrap();
    let keystore = AuthorityKeystore::new(signer, store).unwrap();
    let payload = b"round 3 unit".to_vec();
    let sig = keystore.sign(&payload);
    assert!(!verify(&other, &payload, &sig));
}

#[test]
fn verification_fails_on_malformed_signature_without_error() {
    let id = authority_id_of_secret(&[7u8; 32]).unwrap();
    assert!(!verify(&id, b"payload", &[0u8; 64]));
    assert!(!verify(&id, b"payload", b"short"));
    assert!(!verify(&id, b"payload", &[0u8; 0]));
    let garbage_key = AuthorityId(vec![0u8; 5]);
    assert!(!verify(&garbage_key, b"payload", &[0u8; 64]));
}

#[test]
fn verification_fails_on_altered_payload() {
    let store = store_with_secrets(&[7]);
    let id = authority_id_of_secret(&[7u8; 32]).unwrap();
    let keystore = AuthorityKeystore::new(id, store).unwrap();
    let sig = keystore.sign(b"payload");
    assert!(!verify(keystore.authority_id(), b"payloae", &sig));
}

#[test]
fn keystore_construction_fails_when_key_is_absent() {
    let store = store_with_secrets(&[1, 2, 3]);
    let absent = authority_id_of_secret(&[4u8; 32]).unwrap();
    assert!(!store.contains_key_for(&absent));
    match AuthorityKeystore::new(absent, store) {
        Err(e) => assert_eq!(e, Error::KeyNotFound),
        Ok(_) => panic!("binding must fail without the signing key"),
    }
}

#[test]
fn key_type_is_carried_through_configuration() {
    let store = store_with_secrets(&[7]);
    let id = authority_id_of_secret(&[7u8; 32]).unwrap();
    let keystore = AuthorityKeystore::new(id, store).unwrap();
    assert_eq!(keystore.key_type_id(), finality_aleph::KEY_TYPE);
    let other_store = store_with_secrets(&[7]);
    let other_id = authority_id_of_secret(&[7u8; 32]).unwrap();
    let custom = AuthorityKeystore::with_key_type(0x74736574, other_id, other_store).unwrap();
    assert_eq!(custom.key_type_id(), 0x74736574);
    // the configured slot does not change what the binding signs
    let sig = custom.sign(b"payload");
    assert!(verify(custom.authority_id(), b"payload", &sig));
}

#[test]
fn seed_of_wrong_length_has_no_identity() {
    assert!(authority_id_of_secret(&[1u8; 31]).is_none());
    assert!(authority_id_of_secret(&[1u8; 33]).is_none());
    assert!(authority_id_of_secret(&[]).is_none());
    assert!(authority_id_of_secret(&[1u8; 32]).is_some());
}

#[test]
fn node_id_reports_its_own_index_to_the_engine() {
    let auth = id_from_byte(3);
    let copy = auth.duplicate();
    assert!(auth.equals(&copy));
    let node = NodeId { auth, index: 2 };
    assert_eq!(node.my_index(), Some(2));
    assert!(node.auth.equals(&copy));
}

#[test]
fn derived_identity_is_deterministic_and_key_bound() {
    let a1 = authority_id_of_secret(&[9u8; 32]).unwrap();
    let a2 = authority_id_of_secret(&[9u8; 32]).unwrap();
    let b = authority_id_of_secret(&[10u8; 32]).unwrap();
    assert!(a1.equals(&a2));
    assert!(!a1.equals(&b));
    assert_eq!(a1.0.len(), 32);
}
