use vstd::prelude::*;
use vstd::bytes::{
    lemma_auto_spec_u32_to_from_le_bytes, lemma_auto_spec_u64_to_from_le_bytes,
    spec_u32_to_le_bytes, spec_u64_to_le_bytes, u32_from_le_bytes, u32_to_le_bytes,
    u64_from_le_bytes, u64_to_le_bytes,
};
use vstd::slice::{slice_subrange, slice_to_vec};

use crate::crypto::{copy_bytes, eq_bytes, sig_valid, verify, AuthorityKeystore};
use crate::registry::Registry;

verus! {

/// Hard wire limit: no message on the protocol channel may exceed 1 MiB.
pub const MAX_MESSAGE_SIZE: usize = 1048576;

/// Fixed envelope bytes around the payload: one kind tag, eight bytes of
/// sender index, four bytes of payload length, and a 64-byte signature.
pub const ENVELOPE_OVERHEAD: usize = 77;

/// The longest payload whose envelope still fits the wire limit.
pub const MAX_PAYLOAD_SIZE: usize = MAX_MESSAGE_SIZE - ENVELOPE_OVERHEAD;

/// What a protocol message carries: a consensus unit, a request for a missing
/// unit by coordinate, or the unit sent back in answer to such a request.
#[derive(Clone, Copy, Debug, PartialEq, Eq, Structural)]
pub enum MessageKind {
    Unit,
    RequestCoord,
    ResponseUnit,
}

/// The wire tag of each message kind.
pub open spec fn spec_kind_tag(k: MessageKind) -> u8 {
    match k {
        MessageKind::Unit => 0,
        MessageKind::RequestCoord => 1,
        MessageKind::ResponseUnit => 2,
    }
}

fn kind_tag(k: MessageKind) -> (t: u8)
    ensures
        t == spec_kind_tag(k),
{
    match k {
        MessageKind::Unit => 0,
        MessageKind::RequestCoord => 1,
        MessageKind::ResponseUnit => 2,
    }
}

fn kind_of_tag(t: u8) -> (r: Option<MessageKind>)
    ensures
        match r {
            Some(k) => spec_kind_tag(k) == t,
            None => forall|k: MessageKind| spec_kind_tag(k) != t,
        },
{
    if t == 0 {
        Some(MessageKind::Unit)
    } else if t == 1 {
        Some(MessageKind::RequestCoord)
    } else if t == 2 {
        Some(MessageKind::ResponseUnit)
    } else {
        None
    }
}

/// One authenticated protocol message: the sender's dense participant index
/// (for cheap filtering before the signature check), the kind discriminator,
/// the engine-opaque payload, and the sender's signature.
#[derive(Debug)]
pub struct SignedEnvelope {
    pub sender_index: u64,
    pub kind: MessageKind,
    pub payload: Vec<u8>,
    pub signature: Vec<u8>,
}

/// Size bounds every well-formed envelope meets.
pub open spec fn envelope_wf(e: SignedEnvelope) -> bool {
    e.payload@.len() <= MAX_PAYLOAD_SIZE && e.signature@.len() == 64
}

/// The bytes the sender signs: everything of the wire image but the
/// signature, so the signature binds kind, sender index and payload.
pub open spec fn signed_part(kind: MessageKind, sender: u64, payload: Seq<u8>) -> Seq<u8> {
    seq![spec_kind_tag(kind)] + spec_u64_to_le_bytes(sender) + spec_u32_to_le_bytes(
        payload.len() as u32,
    ) + payload
}

/// The full wire image of an envelope.
pub open spec fn wire_bytes(
    kind: MessageKind,
    sender: u64,
    payload: Seq<u8>,
    signature: Seq<u8>,
) -> Seq<u8> {
    signed_part(kind, sender, payload) + signature
}

/// How the wire image decomposes into its fields.
pub proof fn lemma_wire_parts(kind: MessageKind, sender: u64, payload: Seq<u8>, signature: Seq<u8>)
    ensures
        signed_part(kind, sender, payload).len() == 13 + payload.len(),
        wire_bytes(kind, sender, payload, signature).len() == 13 + payload.len()
            + signature.len(),
        wire_bytes(kind, sender, payload, signature)[0] == spec_kind_tag(kind),
        wire_bytes(kind, sender, payload, signature).subrange(1, 9) == spec_u64_to_le_bytes(
            sender,
        ),
        wire_bytes(kind, sender, payload, signature).subrange(9, 13) == spec_u32_to_le_bytes(
            payload.len() as u32,
        ),
        wire_bytes(kind, sender, payload, signature).subrange(13, 13 + payload.len() as int)
            == payload,
        wire_bytes(kind, sender, payload, signature).subrange(
            13 + payload.len() as int,
            13 + payload.len() + signature.len() as int,
        ) == signature,
{
    lemma_auto_spec_u64_to_from_le_bytes();
    lemma_auto_spec_u32_to_from_le_bytes();
    let w = wire_bytes(kind, sender, payload, signature);
    assert(w.subrange(1, 9) =~= spec_u64_to_le_bytes(sender));
    assert(w.subrange(9, 13) =~= spec_u32_to_le_bytes(payload.len() as u32));
    assert(w.subrange(13, 13 + payload.len() as int) =~= payload);
    assert(w.subrange(13 + payload.len() as int, 13 + payload.len() + signature.len() as int)
        =~= signature);
}

/// The wire image determines the envelope: two envelopes with payloads below
/// the length-field range and the same image agree field by field.
pub proof fn lemma_wire_injective(
    k1: MessageKind,
    s1: u64,
    p1: Seq<u8>,
    g1: Seq<u8>,
    k2: MessageKind,
    s2: u64,
    p2: Seq<u8>,
    g2: Seq<u8>,
)
    requires
        p1.len() <= u32::MAX,
        p2.len() <= u32::MAX,
        wire_bytes(k1, s1, p1, g1) == wire_bytes(k2, s2, p2, g2),
    ensures
        k1 == k2,
        s1 == s2,
        p1 == p2,
        g1 == g2,
{
    lemma_auto_spec_u64_to_from_le_bytes();
    lemma_auto_spec_u32_to_from_le_bytes();
    lemma_wire_parts(k1, s1, p1, g1);
    lemma_wire_parts(k2, s2, p2, g2);
    let w = wire_bytes(k1, s1, p1, g1);
    assert(spec_u32_to_le_bytes(p1.len() as u32) == spec_u32_to_le_bytes(p2.len() as u32));
    assert(p1.len() as u32 == p2.len() as u32);
    assert(p1.len() == p2.len());
    assert(p1 == w.subrange(13, 13 + p1.len() as int));
    assert(g1 == w.subrange(13 + p1.len() as int, 13 + p1.len() + g1.len() as int));
    assert(g1.len() == g2.len());
    assert(spec_kind_tag(k1) == spec_kind_tag(k2));
    match (k1, k2) {
        (MessageKind::Unit, MessageKind::Unit) => {},
        (MessageKind::RequestCoord, MessageKind::RequestCoord) => {},
        (MessageKind::ResponseUnit, MessageKind::ResponseUnit) => {},
        _ => {
            assert(false);
        },
    }
    assert(spec_u64_to_le_bytes(s1) == spec_u64_to_le_bytes(s2));
}

/// Serializes the part of the envelope that gets signed.
pub fn encode_signed_part(kind: MessageKind, sender: u64, payload: &[u8]) -> (r: Vec<u8>)
    requires
        payload@.len() <= MAX_PAYLOAD_SIZE,
    ensures
        r@ == signed_part(kind, sender, payload@),
        r@.len() == 13 + payload@.len(),
{
    let mut out: Vec<u8> = Vec::new();
    out.push(kind_tag(kind));
    let mut sender_bytes = u64_to_le_bytes(sender);
    out.append(&mut sender_bytes);
    let mut len_bytes = u32_to_le_bytes(payload.len() as u32);
    out.append(&mut len_bytes);
    let mut payload_bytes = slice_to_vec(payload);
    out.append(&mut payload_bytes);
    proof {
        lemma_wire_parts(kind, sender, payload@, Seq::empty());
        assert(out@ =~= signed_part(kind, sender, payload@));
    }
    out
}

/// Serializes a whole envelope for the wire; the result always respects the
/// wire limit.
pub fn encode_envelope(e: &SignedEnvelope) -> (r: Vec<u8>)
    requires
        envelope_wf(*e),
    ensures
        r@ == wire_bytes(e.kind, e.sender_index, e.payload@, e.signature@),
        r@.len() == ENVELOPE_OVERHEAD + e.payload@.len(),
        r@.len() <= MAX_MESSAGE_SIZE,
{
    let mut out = encode_signed_part(e.kind, e.sender_index, e.payload.as_slice());
    let mut sig_bytes = slice_to_vec(e.signature.as_slice());
    out.append(&mut sig_bytes);
    out
}

/// Parses a wire image back into an envelope. Returns the envelope exactly
/// when the bytes are the image of a well-formed one, `None` on anything
/// malformed.
pub fn decode_envelope(bytes: &[u8]) -> (r: Option<SignedEnvelope>)
    ensures
        match r {
            Some(e) => envelope_wf(e) && bytes@ == wire_bytes(
                e.kind,
                e.sender_index,
                e.payload@,
                e.signature@,
            ),
            None => forall|k: MessageKind, s: u64, p: Seq<u8>, g: Seq<u8>|
                p.len() <= MAX_PAYLOAD_SIZE && g.len() == 64 ==> bytes@ != wire_bytes(k, s, p, g),
        },
{
    proof {
        lemma_auto_spec_u64_to_from_le_bytes();
        lemma_auto_spec_u32_to_from_le_bytes();
    }
    if bytes.len() < ENVELOPE_OVERHEAD {
        proof {
            assert forall|k: MessageKind, s: u64, p: Seq<u8>, g: Seq<u8>|
                p.len() <= MAX_PAYLOAD_SIZE && g.len() == 64 implies bytes@ != wire_bytes(
                k,
                s,
                p,
                g,
            ) by {
                lemma_wire_parts(k, s, p, g);
            }
        }
        return None;
    }
    let tag = bytes[0];
    let kind = match kind_of_tag(tag) {
        Some(k) => k,
        None => {
            proof {
                assert forall|k: MessageKind, s: u64, p: Seq<u8>, g: Seq<u8>|
                    p.len() <= MAX_PAYLOAD_SIZE && g.len() == 64 implies bytes@ != wire_bytes(
                    k,
                    s,
                    p,
                    g,
                ) by {
                    lemma_wire_parts(k, s, p, g);
                }
            }
            return None;
        },
    };
    let sender = u64_from_le_bytes(slice_subrange(bytes, 1, 9));
    let payload_len32 = u32_from_le_bytes(slice_subrange(bytes, 9, 13));
    let payload_len = payload_len32 as usize;
    if payload_len > MAX_PAYLOAD_SIZE || bytes.len() != ENVELOPE_OVERHEAD + payload_len {
        proof {
            assert forall|k: MessageKind, s: u64, p: Seq<u8>, g: Seq<u8>|
                p.len() <= MAX_PAYLOAD_SIZE && g.len() == 64 implies bytes@ != wire_bytes(
                k,
                s,
                p,
                g,
            ) by {
                lemma_wire_parts(k, s, p, g);
                if bytes@ == wire_bytes(k, s, p, g) {
                    assert(bytes@.subrange(9, 13) == spec_u32_to_le_bytes(p.len() as u32));
                    assert(payload_len32 == p.len() as u32);
                }
            }
        }
        return None;
    }
    let payload = slice_to_vec(slice_subrange(bytes, 13, 13 + payload_len));
    let signature = slice_to_vec(slice_subrange(bytes, 13 + payload_len, bytes.len()));
    let e = SignedEnvelope { sender_index: sender, kind, payload, signature };
    proof {
        lemma_wire_parts(e.kind, e.sender_index, e.payload@, e.signature@);
        let w = wire_bytes(e.kind, e.sender_index, e.payload@, e.signature@);
        assert(bytes@ =~= bytes@.subrange(0, 1) + bytes@.subrange(1, 9) + bytes@.subrange(9, 13)
            + bytes@.subrange(13, 13 + payload_len as int) + bytes@.subrange(
            13 + payload_len as int,
            bytes@.len() as int,
        ));
        assert(bytes@.subrange(1, 9) == spec_u64_to_le_bytes(e.sender_index));
        assert(bytes@.subrange(9, 13) == spec_u32_to_le_bytes(e.payload@.len() as u32)) by {
            assert(e.payload@.len() as u32 == payload_len32);
        }
        assert(bytes@.subrange(0, 1) =~= seq![spec_kind_tag(e.kind)]);
        assert(w =~= bytes@.subrange(0, 1) + bytes@.subrange(1, 9) + bytes@.subrange(9, 13)
            + bytes@.subrange(13, 13 + payload_len as int) + bytes@.subrange(
            13 + payload_len as int,
            bytes@.len() as int,
        ));
    }
    Some(e)
}

/// When the receive filter hands a message upstream: the raw bytes are the
/// wire image of a well-formed envelope, the sender index names a registered
/// authority, and the signature of that very authority covers kind, sender
/// index and payload. Such bytes never exceed the wire limit.
pub open spec fn accepted_message(
    ids: Seq<Seq<u8>>,
    raw: Seq<u8>,
    kind: MessageKind,
    sender: u64,
    payload: Seq<u8>,
) -> bool {
    exists|g: Seq<u8>|
        g.len() == 64 && payload.len() <= MAX_PAYLOAD_SIZE && raw == wire_bytes(
            kind,
            sender,
            payload,
            g,
        ) && sender < ids.len() && sig_valid(
            ids[sender as int],
            signed_part(kind, sender, payload),
            g,
        )
}

/// The receive filter: drops oversized bytes, anything that does not parse,
/// an unknown sender index, and any envelope whose signature does not verify
/// under the identity registered at the claimed sender index. Only accepted
/// messages ever reach the ordering engine.
pub fn handle_incoming(registry: &Registry, raw: &[u8]) -> (r: Option<(u64, MessageKind, Vec<u8>)>)
    ensures
        match r {
            Some((sender, kind, payload)) => accepted_message(
                registry@,
                raw@,
                kind,
                sender,
                payload@,
            ),
            None => forall|kind: MessageKind, sender: u64, payload: Seq<u8>|
                !accepted_message(registry@, raw@, kind, sender, payload),
        },
{
    if raw.len() > MAX_MESSAGE_SIZE {
        proof {
            assert forall|kind: MessageKind, sender: u64, payload: Seq<u8>| !accepted_message(
                registry@,
                raw@,
                kind,
                sender,
                payload,
            ) by {
                if accepted_message(registry@, raw@, kind, sender, payload) {
                    let g = choose|g: Seq<u8>|
                        g.len() == 64 && payload.len() <= MAX_PAYLOAD_SIZE && raw@ == wire_bytes(
                            kind,
                            sender,
                            payload,
                            g,
                        ) && sender < registry@.len() && sig_valid(
                            registry@[sender as int],
                            signed_part(kind, sender, payload),
                            g,
                        );
                    lemma_wire_parts(kind, sender, payload, g);
                }
            }
        }
        return None;
    }
    let e = match decode_envelope(raw) {
        Some(e) => e,
        None => {
            return None;
        },
    };
    if e.sender_index >= registry.len() as u64 {
        proof {
            reject_because_differs(registry@, raw@, &e);
        }
        return None;
    }
    let identity = match registry.resolve_identity(e.sender_index as usize) {
        Ok(a) => a,
        Err(_) => {
            proof {
                assert(false);
            }
            return None;
        },
    };
    let part = encode_signed_part(e.kind, e.sender_index, e.payload.as_slice());
    if verify(identity, part.as_slice(), e.signature.as_slice()) {
        proof {
            let g = e.signature@;
            assert(accepted_message(registry@, raw@, e.kind, e.sender_index, e.payload@)) by {
                assert(g.len() == 64 && e.payload@.len() <= MAX_PAYLOAD_SIZE && raw@ == wire_bytes(
                    e.kind,
                    e.sender_index,
                    e.payload@,
                    g,
                ) && e.sender_index < registry@.len() && sig_valid(
                    registry@[e.sender_index as int],
                    signed_part(e.kind, e.sender_index, e.payload@),
                    g,
                ));
            }
        }
        Some((e.sender_index, e.kind, e.payload))
    } else {
        proof {
            reject_because_differs(registry@, raw@, &e);
        }
        None
    }
}

/// Law: a wire message whose signature is not the tagged authority's own —
/// one signed under another participant's key, or tagged with an index
/// outside the registry — is never accepted by the receive filter, under any
/// reading of its bytes, and so never reaches the ordering engine.
pub proof fn lemma_mismatched_signature_rejected(
    ids: Seq<Seq<u8>>,
    kind: MessageKind,
    sender: u64,
    payload: Seq<u8>,
    g: Seq<u8>,
)
    requires
        g.len() == 64,
        payload.len() <= MAX_PAYLOAD_SIZE,
        sender < ids.len() ==> !sig_valid(
            ids[sender as int],
            signed_part(kind, sender, payload),
            g,
        ),
    ensures
        forall|k: MessageKind, s: u64, p: Seq<u8>|
            !accepted_message(ids, wire_bytes(kind, sender, payload, g), k, s, p),
{
    let raw = wire_bytes(kind, sender, payload, g);
    assert forall|k: MessageKind, s: u64, p: Seq<u8>| !accepted_message(ids, raw, k, s, p) by {
        if accepted_message(ids, raw, k, s, p) {
            let g2 = choose|g2: Seq<u8>|
                g2.len() == 64 && p.len() <= MAX_PAYLOAD_SIZE && raw == wire_bytes(k, s, p, g2)
                    && s < ids.len() && sig_valid(ids[s as int], signed_part(k, s, p), g2);
            lemma_wire_injective(k, s, p, g2, kind, sender, payload, g);
        }
    }
}

/// For the filter's drop paths: any accepted reading of `raw` would agree
/// field by field with the decoded envelope `e`, so a failed check on `e`
/// rules every reading out.
proof fn reject_because_differs(ids: Seq<Seq<u8>>, raw: Seq<u8>, e: &SignedEnvelope)
    requires
        envelope_wf(*e),
        raw == wire_bytes(e.kind, e.sender_index, e.payload@, e.signature@),
        e.sender_index >= ids.len() || !sig_valid(
            ids[e.sender_index as int],
            signed_part(e.kind, e.sender_index, e.payload@),
            e.signature@,
        ),
    ensures
        forall|kind: MessageKind, sender: u64, payload: Seq<u8>|
            !accepted_message(ids, raw, kind, sender, payload),
{
    lemma_mismatched_signature_rejected(ids, e.kind, e.sender_index, e.payload@, e.signature@);
}

/// Builds and signs the wire image of one outgoing message. Fails exactly
/// when the payload is too long for the wire limit.
pub fn sign_message(
    keystore: &AuthorityKeystore,
    sender_index: u64,
    kind: MessageKind,
    payload: Vec<u8>,
) -> (r: Option<Vec<u8>>)
    ensures
        r is Some <==> payload@.len() <= MAX_PAYLOAD_SIZE,
        r matches Some(raw) ==> raw@.len() <= MAX_MESSAGE_SIZE && exists|g: Seq<u8>|
            g.len() == 64 && raw@ == wire_bytes(kind, sender_index, payload@, g) && sig_valid(
                keystore.id_view(),
                signed_part(kind, sender_index, payload@),
                g,
            ),
{
    if payload.len() > MAX_PAYLOAD_SIZE {
        return None;
    }
    let part = encode_signed_part(kind, sender_index, payload.as_slice());
    let signature = keystore.sign(part.as_slice());
    let e = SignedEnvelope { sender_index, kind, payload, signature };
    let raw = encode_envelope(&e);
    proof {
        let g = e.signature@;
        assert(g.len() == 64 && raw@ == wire_bytes(kind, sender_index, e.payload@, g) && sig_valid(
            keystore.id_view(),
            signed_part(kind, sender_index, e.payload@),
            g,
        ));
    }
    Some(raw)
}

/// Law: a message signed by the keystore of the authority registered at
/// `sender_index` passes the receive filter, and the filter hands back the
/// sender index, kind and payload that went in. The returned flag is always
/// true.
pub fn broadcast_round_trip(
    registry: &Registry,
    keystore: &AuthorityKeystore,
    sender_index: u64,
    kind: MessageKind,
    payload: &[u8],
) -> (r: bool)
    requires
        sender_index < registry@.len(),
        registry@[sender_index as int] == keystore.id_view(),
        payload@.len() <= MAX_PAYLOAD_SIZE,
    ensures
        r,
{
    let owned = copy_bytes(payload);
    let raw = match sign_message(keystore, sender_index, kind, owned) {
        Some(raw) => raw,
        None => {
            proof {
                assert(false);
            }
            return false;
        },
    };
    match handle_incoming(registry, raw.as_slice()) {
        Some((sender, out_kind, out_payload)) => {
            proof {
                let g_in = choose|g: Seq<u8>|
                    g.len() == 64 && raw@ == wire_bytes(kind, sender_index, payload@, g)
                        && sig_valid(
                        keystore.id_view(),
                        signed_part(kind, sender_index, payload@),
                        g,
                    );
                let g_out = choose|g: Seq<u8>|
                    g.len() == 64 && out_payload@.len() <= MAX_PAYLOAD_SIZE && raw@ == wire_bytes(
                        out_kind,
                        sender,
                        out_payload@,
                        g,
                    ) && sender < registry@.len() && sig_valid(
                        registry@[sender as int],
                        signed_part(out_kind, sender, out_payload@),
                        g,
                    );
                lemma_wire_injective(
                    out_kind,
                    sender,
                    out_payload@,
                    g_out,
                    kind,
                    sender_index,
                    payload@,
                    g_in,
                );
            }
            let same_kind = match (out_kind, kind) {
                (MessageKind::Unit, MessageKind::Unit) => true,
                (MessageKind::RequestCoord, MessageKind::RequestCoord) => true,
                (MessageKind::ResponseUnit, MessageKind::ResponseUnit) => true,
                _ => false,
            };
            sender == sender_index && same_kind && eq_bytes(out_payload.as_slice(), payload)
        },
        None => {
            proof {
                let g_in = choose|g: Seq<u8>|
                    g.len() == 64 && raw@ == wire_bytes(kind, sender_index, payload@, g)
                        && sig_valid(
                        keystore.id_view(),
                        signed_part(kind, sender_index, payload@),
                        g,
                    );
                assert(accepted_message(registry@, raw@, kind, sender_index, payload@)) by {
                    assert(g_in.len() == 64 && payload@.len() <= MAX_PAYLOAD_SIZE && raw@
                        == wire_bytes(kind, sender_index, payload@, g_in) && sender_index
                        < registry@.len() && sig_valid(
                        registry@[sender_index as int],
                        signed_part(kind, sender_index, payload@),
                        g_in,
                    ));
                }
                assert(false);
            }
            false
        },
    }
}

/// A position in the unit DAG the ordering engine builds: which participant
/// created the unit and in which round. Used only for addressing and
/// deduplication; the unit's content is opaque to this layer.
#[derive(Clone, Copy, Debug, Default, PartialEq, Eq, PartialOrd, Ord, Hash, Structural)]
pub struct UnitCoord {
    pub creator: u64,
    pub round: u64,
}

impl From<(u64, u64)> for UnitCoord {
    /// Reads a `(round, creator)` pair as a coordinate.
    fn from(coord: (u64, u64)) -> (r: UnitCoord) {
        UnitCoord { creator: coord.1, round: coord.0 }
    }
}

impl vstd::std_specs::convert::FromSpecImpl<(u64, u64)> for UnitCoord {
    open spec fn obeys_from_spec() -> bool {
        true
    }

    open spec fn from_spec(coord: (u64, u64)) -> UnitCoord {
        UnitCoord { creator: coord.1, round: coord.0 }
    }
}

/// Tracks which unit coordinates were already seen. An honest participant
/// considers at most one unit canonical per coordinate, and a duplicate or
/// conflicting coordinate is dropped here rather than crash anything
/// downstream; equivocation itself is the ordering engine's to punish.
pub struct CoordSet {
    seen: Vec<UnitCoord>,
}

impl View for CoordSet {
    type V = Seq<UnitCoord>;

    closed spec fn view(&self) -> Seq<UnitCoord> {
        self.seen@
    }
}

impl CoordSet {
    /// Nothing seen yet.
    pub fn new() -> (s: CoordSet)
        ensures
            s@.len() == 0,
    {
        CoordSet { seen: Vec::new() }
    }

    /// Whether the coordinate was seen before.
    pub fn contains(&self, c: &UnitCoord) -> (r: bool)
        ensures
            r == self@.contains(*c),
    {
        let n = self.seen.len();
        let mut i: usize = 0;
        while i < n
            invariant
                i <= n,
                n == self@.len(),
                forall|j: int| 0 <= j < i ==> self@[j] != *c,
            decreases n - i,
        {
            if self.seen[i] == *c {
                return true;
            }
            i += 1;
        }
        false
    }

    /// Notes a coordinate and says whether it was new. A repeated coordinate
    /// leaves the set unchanged.
    pub fn note(&mut self, c: UnitCoord) -> (fresh: bool)
        ensures
            fresh == !old(self)@.contains(c),
            final(self)@ == (if old(self)@.contains(c) {
                old(self)@
            } else {
                old(self)@.push(c)
            }),
    {
        if self.contains(&c) {
            false
        } else {
            self.seen.push(c);
            true
        }
    }
}

/// The network-facing shape of the protocol channel: its name, the wire
/// limit, no statically reserved peers, and admission open to every peer the
/// surrounding stack brings.
pub struct ProtocolNetworkConfig {
    pub protocol_name: Vec<u8>,
    pub max_message_size: usize,
    pub in_peers: u32,
    pub out_peers: u32,
    pub reserved_peers: Vec<Vec<u8>>,
    pub accept_non_reserved: bool,
}

/// The protocol channel's name on the wire.
pub open spec fn protocol_name_spec() -> Seq<u8> {
    seq![47u8, 97u8, 108u8, 101u8, 112u8, 104u8, 47u8, 49u8]
}

/// The configuration under which the embedding network stack registers this
/// protocol's single notifications channel.
pub fn peers_set_config() -> (c: ProtocolNetworkConfig)
    ensures
        c.protocol_name@ == protocol_name_spec(),
        c.max_message_size == MAX_MESSAGE_SIZE,
        c.in_peers == 0,
        c.out_peers == 0,
        c.reserved_peers@.len() == 0,
        c.accept_non_reserved,
{
    let mut name: Vec<u8> = Vec::new();
    name.push(47);
    name.push(97);
    name.push(108);
    name.push(101);
    name.push(112);
    name.push(104);
    name.push(47);
    name.push(49);
    proof {
        assert(name@ =~= protocol_name_spec());
    }
    ProtocolNetworkConfig {
        protocol_name: name,
        max_message_size: MAX_MESSAGE_SIZE,
        in_peers: 0,
        out_peers: 0,
        reserved_peers: Vec::new(),
        accept_non_reserved: true,
    }
}

} // verus!
