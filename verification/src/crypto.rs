use vstd::prelude::*;
use vstd::slice::slice_to_vec;

use crate::error::Error;

verus! {

/// Public identity of one authority: the raw bytes of its sr25519 public key.
#[derive(Debug)]
pub struct AuthorityId(pub Vec<u8>);

impl View for AuthorityId {
    type V = Seq<u8>;

    open spec fn view(&self) -> Seq<u8> {
        self.0@
    }
}

impl AuthorityId {
    /// Byte-for-byte comparison of two identities.
    pub fn equals(&self, other: &AuthorityId) -> (r: bool)
        ensures
            r == (self@ == other@),
    {
        eq_bytes(self.0.as_slice(), other.0.as_slice())
    }

    /// An owned copy of this identity.
    pub fn duplicate(&self) -> (r: AuthorityId)
        ensures
            r@ == self@,
    {
        AuthorityId(copy_bytes(self.0.as_slice()))
    }
}

/// Byte-for-byte equality of two byte strings.
pub fn eq_bytes(a: &[u8], b: &[u8]) -> (r: bool)
    ensures
        r == (a@ == b@),
{
    if a.len() != b.len() {
        return false;
    }
    let n = a.len();
    let mut i: usize = 0;
    while i < n
        invariant
            i <= n,
            n == a@.len(),
            n == b@.len(),
            forall|j: int| 0 <= j < i ==> a@[j] == b@[j],
        decreases n - i,
    {
        if a[i] != b[i] {
            return false;
        }
        i += 1;
    }
    proof {
        assert(a@ =~= b@);
    }
    true
}

/// An owned copy of a byte string.
pub fn copy_bytes(a: &[u8]) -> (r: Vec<u8>)
    ensures
        r@ == a@,
{
    slice_to_vec(a)
}

/// The sr25519 public key derived from a 32-byte seed, as bytes. Derivation
/// is a pure function of the seed; only the trusted signing primitives below
/// say anything about this value.
pub uninterp spec fn pk_of_secret(secret: Seq<u8>) -> Seq<u8>;

/// Whether `signature` is a valid sr25519 signature by the key `public` over
/// `message`. Signature checking is a pure function of the three byte
/// strings; only the trusted signing primitives below say anything about it.
pub uninterp spec fn sig_valid(public: Seq<u8>, message: Seq<u8>, signature: Seq<u8>) -> bool;

/// Relies on schnorrkel: `MiniSecretKey::from_bytes` succeeds exactly on
/// 32-byte seeds, and `expand_to_keypair` in Ed25519 mode derives the public
/// key from the seed alone; `PublicKey::to_bytes` yields its 32 bytes.
#[verifier::external_body]
fn sr25519_public(secret: &[u8]) -> (r: Option<Vec<u8>>)
    ensures
        r is Some <==> secret@.len() == 32,
        r matches Some(pk) ==> pk@ == pk_of_secret(secret@) && pk@.len() == 32,
{
    let mini = match schnorrkel::MiniSecretKey::from_bytes(secret) {
        Ok(m) => m,
        Err(_) => return None,
    };
    let pair = mini.expand_to_keypair(schnorrkel::ExpansionMode::Ed25519);
    Some(pair.public.to_bytes().to_vec())
}

/// Relies on schnorrkel: `Keypair::sign_simple` produces a 64-byte signature
/// that `PublicKey::verify_simple` accepts for the same signing context and
/// message; signing is randomized, so only validity is stated of the result.
/// Both this function and `sr25519_verify` use the same signing context.
#[verifier::external_body]
fn sr25519_sign(secret: &[u8], message: &[u8]) -> (r: Option<Vec<u8>>)
    ensures
        r is Some <==> secret@.len() == 32,
        r matches Some(sig) ==> sig@.len() == 64 && sig_valid(
            pk_of_secret(secret@),
            message@,
            sig@,
        ),
{
    let mini = match schnorrkel::MiniSecretKey::from_bytes(secret) {
        Ok(m) => m,
        Err(_) => return None,
    };
    let pair = mini.expand_to_keypair(schnorrkel::ExpansionMode::Ed25519);
    let sig = pair.sign_simple(b"substrate", message);
    Some(sig.to_bytes().to_vec())
}

/// Relies on schnorrkel: `PublicKey::verify_simple` deterministically checks
/// a signature over a message; malformed key or signature bytes fail
/// `from_bytes` and the check is false rather than an error.
#[verifier::external_body]
fn sr25519_verify(public: &[u8], message: &[u8], signature: &[u8]) -> (r: bool)
    ensures
        r == sig_valid(public@, message@, signature@),
{
    let pk = match schnorrkel::PublicKey::from_bytes(public) {
        Ok(p) => p,
        Err(_) => return false,
    };
    let sig = match schnorrkel::Signature::from_bytes(signature) {
        Ok(s) => s,
        Err(_) => return false,
    };
    pk.verify_simple(b"substrate", message, &sig).is_ok()
}

/// Checks a signature against an authority's identity: a pure read over
/// arbitrary byte strings that never errors. Its result equals the validity
/// predicate, so any pair the identity's key did not produce — a signature
/// made under another key, over other bytes, or malformed — comes back false
/// rather than as an error.
pub fn verify(identity: &AuthorityId, payload: &[u8], signature: &[u8]) -> (r: bool)
    ensures
        r == sig_valid(identity@, payload@, signature@),
{
    sr25519_verify(identity.0.as_slice(), payload, signature)
}

/// Derives the authority identity that a 32-byte seed signs for.
pub fn authority_id_of_secret(secret: &[u8]) -> (r: Option<AuthorityId>)
    ensures
        r is Some <==> secret@.len() == 32,
        r matches Some(id) ==> id@ == pk_of_secret(secret@),
{
    match sr25519_public(secret) {
        Some(pk) => Some(AuthorityId(pk)),
        None => None,
    }
}

/// The backing store of signing keys: each entry is one 32-byte seed.
pub struct SigningStore {
    secrets: Vec<Vec<u8>>,
}

impl View for SigningStore {
    type V = Seq<Seq<u8>>;

    closed spec fn view(&self) -> Seq<Seq<u8>> {
        Seq::new(self.secrets@.len(), |i: int| self.secrets@[i]@)
    }
}

/// Whether the store holds a seed whose derived public key is `id`.
pub open spec fn store_has_key(store: Seq<Seq<u8>>, id: Seq<u8>) -> bool {
    exists|i: int| 0 <= i < store.len() && store[i].len() == 32 && pk_of_secret(store[i]) == id
}

impl SigningStore {
    /// An empty store.
    pub fn new() -> (s: SigningStore)
        ensures
            s@.len() == 0,
    {
        SigningStore { secrets: Vec::new() }
    }

    /// Adds one seed to the store.
    pub fn insert_key(&mut self, secret: Vec<u8>)
        ensures
            final(self)@ == old(self)@.push(secret@),
    {
        self.secrets.push(secret);
        proof {
            assert(self@ =~= old(self)@.push(self.secrets@.last()@));
        }
    }

    /// Looks for a seed whose derived public key is `id`.
    fn find_key(&self, id: &AuthorityId) -> (r: Option<usize>)
        ensures
            match r {
                Some(i) => i < self@.len() && self@[i as int].len() == 32 && pk_of_secret(
                    self@[i as int],
                ) == id@,
                None => !store_has_key(self@, id@),
            },
    {
        let n = self.secrets.len();
        let mut i: usize = 0;
        while i < n
            invariant
                i <= n,
                n == self.secrets@.len(),
                self@.len() == n,
                forall|j: int|
                    0 <= j < i ==> !(self@[j].len() == 32 && pk_of_secret(self@[j]) == id@),
            decreases n - i,
        {
            match sr25519_public(self.secrets[i].as_slice()) {
                Some(pk) => {
                    if eq_bytes(pk.as_slice(), id.0.as_slice()) {
                        return Some(i);
                    }
                },
                None => {},
            }
            i += 1;
        }
        None
    }

    /// Whether the store holds a signing key for `id`.
    pub fn contains_key_for(&self, id: &AuthorityId) -> (r: bool)
        ensures
            r == store_has_key(self@, id@),
    {
        match self.find_key(id) {
            Some(_) => true,
            None => false,
        }
    }
}

/// Ties one authority identity to the signing store that holds its key, under
/// one key-type identifier. Construction fails unless the store holds the
/// key, so signing never fails afterwards: key absence is a fatal
/// configuration error at startup, not a per-call condition.
pub struct AuthorityKeystore {
    key_type_id: u32,
    authority_id: AuthorityId,
    keystore: SigningStore,
    key_index: usize,
}

impl AuthorityKeystore {
    #[verifier::type_invariant]
    spec fn wf(self) -> bool {
        &&& self.key_index < self.keystore@.len()
        &&& self.keystore@[self.key_index as int].len() == 32
        &&& pk_of_secret(self.keystore@[self.key_index as int]) == self.authority_id@
    }

    /// The identity this keystore signs for.
    pub closed spec fn id_view(&self) -> Seq<u8> {
        self.authority_id@
    }

    /// The seeds held by the backing store.
    pub closed spec fn store_view(&self) -> Seq<Seq<u8>> {
        self.keystore@
    }

    /// The key-type identifier the binding was configured with.
    pub closed spec fn key_type_spec(&self) -> u32 {
        self.key_type_id
    }

    /// Binds `authority_id` to `keystore` under an explicitly configured
    /// key-type identifier, so several instances with different scheme slots
    /// can coexist; fails with `KeyNotFound` when the store holds no signing
    /// key for that identity.
    pub fn with_key_type(key_type_id: u32, authority_id: AuthorityId, keystore: SigningStore) -> (r:
        Result<AuthorityKeystore, Error>)
        ensures
            r is Ok <==> store_has_key(keystore@, authority_id@),
            r matches Ok(ks) ==> ks.id_view() == authority_id@ && ks.store_view() == keystore@
                && ks.key_type_spec() == key_type_id,
            r matches Err(e) ==> e == Error::KeyNotFound,
    {
        match keystore.find_key(&authority_id) {
            Some(i) => Ok(AuthorityKeystore { key_type_id, authority_id, keystore, key_index: i }),
            None => Err(Error::KeyNotFound),
        }
    }

    /// Binds `authority_id` to `keystore` under the crate's default key-type
    /// identifier; fails with `KeyNotFound` when the store holds no signing
    /// key for that identity.
    pub fn new(authority_id: AuthorityId, keystore: SigningStore) -> (r: Result<
        AuthorityKeystore,
        Error,
    >)
        ensures
            r is Ok <==> store_has_key(keystore@, authority_id@),
            r matches Ok(ks) ==> ks.id_view() == authority_id@ && ks.store_view() == keystore@
                && ks.key_type_spec() == crate::KEY_TYPE,
            r matches Err(e) ==> e == Error::KeyNotFound,
    {
        AuthorityKeystore::with_key_type(crate::KEY_TYPE, authority_id, keystore)
    }

    /// The key-type identifier the binding was configured with.
    pub fn key_type_id(&self) -> (k: u32)
        ensures
            k == self.key_type_spec(),
    {
        self.key_type_id
    }

    /// A reference to the authority identity.
    pub fn authority_id(&self) -> (r: &AuthorityId)
        ensures
            r@ == self.id_view(),
    {
        &self.authority_id
    }

    /// A reference to the backing signing store.
    pub fn keystore(&self) -> (r: &SigningStore)
        ensures
            r@ == self.store_view(),
    {
        &self.keystore
    }

    /// Signs `msg` with the bound key. The signature is bound to the
    /// keystore's own identity; it need not be unique, but always verifies.
    pub fn sign(&self, msg: &[u8]) -> (sig: Vec<u8>)
        ensures
            sig@.len() == 64,
            sig_valid(self.id_view(), msg@, sig@),
    {
        proof {
            use_type_invariant(&*self);
        }
        match sr25519_sign(self.keystore.secrets[self.key_index].as_slice(), msg) {
            Some(sig) => sig,
            None => {
                proof {
                    assert(false);
                }
                Vec::new()
            },
        }
    }
}

/// Law: a signature produced by a keystore verifies under the keystore's own
/// authority identity, for every payload. The returned flag is always true.
pub fn sign_then_verify(ks: &AuthorityKeystore, payload: &[u8]) -> (r: bool)
    ensures
        r,
{
    let sig = ks.sign(payload);
    verify(ks.authority_id(), payload, sig.as_slice())
}

} // verus!
