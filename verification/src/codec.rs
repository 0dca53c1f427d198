use vstd::prelude::*;
use vstd::bytes::{
    lemma_auto_spec_u64_to_from_le_bytes, spec_u64_from_le_bytes, spec_u64_to_le_bytes,
    u64_from_le_bytes, u64_to_le_bytes,
};
use vstd::slice::{slice_index_get, slice_subrange, slice_to_vec};
use crate::b64::{b64_decode, b64_encode, b64_of};
use crate::errors::DecodeError;

verus! {

/// Version tag of the envelope byte framing; the first byte of every frame.
pub const WIRE_VERSION: u8 = 1;

/// Number of framing bytes that precede the payload:
/// version (1) + semantic type tag (1) + key generation (8).
pub const HEADER_LEN: usize = 10;

/// The semantic type of the plaintext under a ciphertext: how many bits the
/// value carries, and therefore which modulus aggregation wraps at.
#[derive(Clone, Copy, PartialEq, Eq, Structural, Debug)]
pub enum SemanticType {
    Uint8,
    Uint64,
}

impl SemanticType {
    /// The byte that stands for this type inside a frame.
    pub open spec fn spec_tag(self) -> u8 {
        match self {
            SemanticType::Uint8 => 1,
            SemanticType::Uint64 => 2,
        }
    }

    /// Plaintext values of this type live in `[0, modulus)`, and sums wrap
    /// modulo this value.
    pub open spec fn spec_modulus(self) -> int {
        match self {
            SemanticType::Uint8 => 0x100,
            SemanticType::Uint64 => 0x1_0000_0000_0000_0000,
        }
    }

    pub fn tag(self) -> (r: u8)
        ensures
            r == self.spec_tag(),
    {
        match self {
            SemanticType::Uint8 => 1,
            SemanticType::Uint64 => 2,
        }
    }

    /// The inverse of `tag`: which semantic type a frame byte stands for.
    pub open spec fn spec_of_tag(t: u8) -> Option<SemanticType> {
        if t == 1 {
            Some(SemanticType::Uint8)
        } else if t == 2 {
            Some(SemanticType::Uint64)
        } else {
            None
        }
    }

    pub fn of_tag(t: u8) -> (r: Option<SemanticType>)
        ensures
            r == Self::spec_of_tag(t),
    {
        if t == 1 {
            Some(SemanticType::Uint8)
        } else if t == 2 {
            Some(SemanticType::Uint64)
        } else {
            None
        }
    }
}

/// An in-memory ciphertext handle: the envelope around one encrypted value.
/// `payload` is the engine's opaque ciphertext serialization; `stype` says
/// what plaintext type it carries; `key_gen` binds it to the key-generation
/// event of the tenant that produced it, so a handle can never be combined
/// or decrypted under key material from another generation or tenant.
#[derive(Debug)]
pub struct CiphertextEnvelope {
    pub stype: SemanticType,
    pub key_gen: u64,
    pub payload: Vec<u8>,
}

/// Mathematical model of an envelope.
pub struct EnvelopeModel {
    pub stype: SemanticType,
    pub key_gen: u64,
    pub payload: Seq<u8>,
}

impl View for CiphertextEnvelope {
    type V = EnvelopeModel;

    open spec fn view(&self) -> EnvelopeModel {
        EnvelopeModel { stype: self.stype, key_gen: self.key_gen, payload: self.payload@ }
    }
}

/// An envelope the codec can frame: its payload leaves room for the header.
pub open spec fn envelope_wf(e: EnvelopeModel) -> bool {
    e.payload.len() + HEADER_LEN <= usize::MAX
}

/// The byte framing of an envelope: self-contained and versioned, so it can
/// be decoded with no external context.
pub open spec fn spec_frame(e: EnvelopeModel) -> Seq<u8> {
    seq![WIRE_VERSION, e.stype.spec_tag()] + spec_u64_to_le_bytes(e.key_gen) + e.payload
}

/// The exact inverse of `spec_frame`: `Some` on precisely the byte strings
/// that are a frame of some envelope.
pub open spec fn spec_parse(b: Seq<u8>) -> Option<EnvelopeModel> {
    if b.len() >= HEADER_LEN && b[0] == WIRE_VERSION && SemanticType::spec_of_tag(b[1]) is Some {
        Some(
            EnvelopeModel {
                stype: SemanticType::spec_of_tag(b[1])->Some_0,
                key_gen: spec_u64_from_le_bytes(b.subrange(2, HEADER_LEN as int)),
                payload: b.skip(HEADER_LEN as int),
            },
        )
    } else {
        None
    }
}

/// Framing loses nothing: parsing a frame gives back exactly the envelope
/// that was framed.
pub proof fn lemma_parse_frame(e: EnvelopeModel)
    ensures
        spec_parse(spec_frame(e)) == Some(e),
{
    lemma_auto_spec_u64_to_from_le_bytes();
    let b = spec_frame(e);
    assert(b.subrange(2, HEADER_LEN as int) =~= spec_u64_to_le_bytes(e.key_gen));
    assert(b.skip(HEADER_LEN as int) =~= e.payload);
}

/// Framing is injective: distinct envelopes never share a frame.
pub proof fn lemma_frame_injective(e1: EnvelopeModel, e2: EnvelopeModel)
    requires
        spec_frame(e1) == spec_frame(e2),
    ensures
        e1 == e2,
{
    lemma_parse_frame(e1);
    lemma_parse_frame(e2);
}

/// Build the byte frame of an envelope.
pub fn frame_envelope(env: &CiphertextEnvelope) -> (r: Vec<u8>)
    requires
        envelope_wf(env@),
    ensures
        r@ == spec_frame(env@),
{
    let mut out: Vec<u8> = Vec::new();
    out.push(WIRE_VERSION);
    out.push(env.stype.tag());
    let gen_bytes = u64_to_le_bytes(env.key_gen);
    let mut i: usize = 0;
    while i < gen_bytes.len()
        invariant
            gen_bytes@ == spec_u64_to_le_bytes(env.key_gen),
            i <= gen_bytes.len(),
            out@ == seq![WIRE_VERSION, env.stype.spec_tag()] + gen_bytes@.take(i as int),
        decreases gen_bytes.len() - i,
    {
        out.push(gen_bytes[i]);
        assert(gen_bytes@.take(i + 1) =~= gen_bytes@.take(i as int) + seq![gen_bytes@[i as int]]);
        i = i + 1;
    }
    assert(gen_bytes@.take(8) =~= gen_bytes@);
    let mut j: usize = 0;
    while j < env.payload.len()
        invariant
            j <= env.payload.len(),
            envelope_wf(env@),
            out@ == seq![WIRE_VERSION, env.stype.spec_tag()] + spec_u64_to_le_bytes(env.key_gen)
                + env.payload@.take(j as int),
        decreases env.payload.len() - j,
    {
        out.push(env.payload[j]);
        assert(env.payload@.take(j + 1) =~= env.payload@.take(j as int) + seq![
            env.payload@[j as int],
        ]);
        j = j + 1;
    }
    assert(env.payload@.take(env.payload@.len() as int) =~= env.payload@);
    assert(out@ =~= spec_frame(env@));
    out
}

/// A parsed byte string is the frame of what it parsed to: `spec_parse`
/// inverts `spec_frame` from the right as well.
pub proof fn lemma_frame_of_parse(b: Seq<u8>)
    requires
        spec_parse(b) is Some,
    ensures
        spec_frame(spec_parse(b)->Some_0) == b,
{
    lemma_auto_spec_u64_to_from_le_bytes();
    let e = spec_parse(b)->Some_0;
    assert(spec_u64_to_le_bytes(e.key_gen) =~= b.subrange(2, HEADER_LEN as int));
    assert(spec_frame(e) =~= b);
}

/// Parse a byte frame back into an envelope. Returns `Malformed` on exactly
/// the byte strings that are no envelope's frame.
pub fn parse_envelope(b: &[u8]) -> (r: Result<CiphertextEnvelope, DecodeError>)
    ensures
        match r {
            Ok(env) => spec_parse(b@) == Some(env@) && envelope_wf(env@),
            Err(e) => e == DecodeError::Malformed && spec_parse(b@) is None,
        },
{
    if b.len() < HEADER_LEN {
        return Err(DecodeError::Malformed);
    }
    if *slice_index_get(b, 0) != WIRE_VERSION {
        return Err(DecodeError::Malformed);
    }
    let stype = match SemanticType::of_tag(*slice_index_get(b, 1)) {
        Some(t) => t,
        None => {
            return Err(DecodeError::Malformed);
        },
    };
    let gen_slice = slice_subrange(b, 2, HEADER_LEN);
    let key_gen = u64_from_le_bytes(gen_slice);
    let payload_slice = slice_subrange(b, HEADER_LEN, b.len());
    let payload = slice_to_vec(payload_slice);
    let env = CiphertextEnvelope { stype, key_gen, payload };
    assert(env@.payload =~= b@.skip(HEADER_LEN as int));
    Ok(env)
}

/// The full wire encoding of an envelope: its byte frame, transport-encoded
/// as text.
pub open spec fn spec_encode(e: EnvelopeModel) -> Seq<char> {
    b64_of(spec_frame(e))
}

/// Encode a ciphertext handle into its self-contained, text-safe wire
/// form. No other envelope shares the resulting wire string.
pub fn encode(env: &CiphertextEnvelope) -> (r: String)
    requires
        envelope_wf(env@),
    ensures
        r@ == spec_encode(env@),
        forall|e: EnvelopeModel| r@ == #[trigger] spec_encode(e) ==> e == env@,
{
    let framed = frame_envelope(env);
    let r = b64_encode(framed.as_slice());
    proof {
        assert forall|e: EnvelopeModel| r@ == #[trigger] spec_encode(e) implies e == env@ by {
            assert(spec_frame(e) == framed@);
            lemma_frame_injective(e, env@);
        }
    }
    r
}

/// The semantic type a request's `data_type` label names, if any.
pub open spec fn spec_label(s: Seq<char>) -> Option<SemanticType> {
    if s == "uint8"@ {
        Some(SemanticType::Uint8)
    } else if s == "uint64"@ {
        Some(SemanticType::Uint64)
    } else {
        None
    }
}

/// Parse a request's `data_type` label.
pub fn parse_label(s: &String) -> (r: Option<SemanticType>)
    ensures
        r == spec_label(s@),
{
    let lab8: String = "uint8".to_owned();
    if *s == lab8 {
        return Some(SemanticType::Uint8);
    }
    let lab64: String = "uint64".to_owned();
    if *s == lab64 {
        return Some(SemanticType::Uint64);
    }
    None
}

/// Decode a wire string back into a ciphertext handle, insisting that it
/// carry the semantic type the caller expects.
///
/// The contract pins the result down completely: a wire string that is the
/// encoding of an envelope of the expected type decodes to exactly that
/// envelope (so `decode` inverts `encode`); one that is the encoding of an
/// envelope of another type is a `TypeMismatch`; one that is no envelope's
/// encoding at all is `Malformed`.
pub fn decode(wire: &str, expected: SemanticType) -> (r: Result<CiphertextEnvelope, DecodeError>)
    ensures
        r is Ok ==> r->Ok_0@.stype == expected && envelope_wf(r->Ok_0@) && wire@ == spec_encode(
            r->Ok_0@,
        ) && (forall|e: EnvelopeModel| wire@ == #[trigger] spec_encode(e) ==> e == r->Ok_0@),
        r == Err::<CiphertextEnvelope, DecodeError>(DecodeError::Malformed) ==> (forall|
            e: EnvelopeModel,
        |
            wire@ != #[trigger] spec_encode(e)),
        r == Err::<CiphertextEnvelope, DecodeError>(DecodeError::TypeMismatch) ==> (exists|
            e: EnvelopeModel,
        |
            wire@ == #[trigger] spec_encode(e) && e.stype != expected) && (forall|
            e: EnvelopeModel,
        |
            wire@ == #[trigger] spec_encode(e) ==> e.stype != expected),
        forall|e: EnvelopeModel|
            wire@ == #[trigger] spec_encode(e) && e.stype == expected ==> r is Ok && r->Ok_0@ == e,
{
    let d = match b64_decode(wire) {
        Some(d) => d,
        None => {
            proof {
                assert forall|e: EnvelopeModel| wire@ != #[trigger] spec_encode(e) by {
                    if wire@ == spec_encode(e) {
                        assert(wire@ == b64_of(spec_frame(e)));
                    }
                }
            }
            return Err(DecodeError::Malformed);
        },
    };
    match parse_envelope(d.as_slice()) {
        Ok(env) => {
            proof {
                lemma_frame_of_parse(d@);
                assert(wire@ == spec_encode(env@));
                assert forall|e: EnvelopeModel| wire@ == #[trigger] spec_encode(e) implies e
                    == env@ by {
                    assert(spec_frame(e) == d@);
                    lemma_parse_frame(e);
                }
            }
            if env.stype == expected {
                Ok(env)
            } else {
                Err(DecodeError::TypeMismatch)
            }
        },
        Err(_) => {
            proof {
                assert forall|e: EnvelopeModel| wire@ != #[trigger] spec_encode(e) by {
                    if wire@ == spec_encode(e) {
                        assert(spec_frame(e) == d@);
                        lemma_parse_frame(e);
                    }
                }
            }
            Err(DecodeError::Malformed)
        },
    }
}

} // verus!
