//! The state-transition proof: a deterministic digest over the public fields,
//! behind a generate / verify pair that a succinct proof system can replace.
use vstd::prelude::*;
use vstd::utf8::encode_utf8;
use crate::clock::unix_time_secs;
use crate::commitments::{clone_strings, lemma_encode_utf8_injective, lemma_middle_differs, views};
use crate::primitives::{append_bytes, base64_chars, base64_encode, sha256, sha256_of};

verus! {

/// Domain tag of the proof digest.
pub const PROOF_TAG: &'static str = "cfc_proof_simulation";

/// Fingerprint of the state-transition function of a sent message.
pub const SEND_MESSAGE_CFC: &'static str = "0xdeadbeefcafebabe";

/// A proof that a start root evolved into an end root.
pub struct CFCProof {
    pub cfc_fingerprint: String,
    pub start_cstate_root: String,
    pub end_cstate_root: String,
    /// The proof artifact, base64 text of the digest.
    pub proof_bytes: String,
    pub public_inputs: Vec<String>,
    pub timestamp: u64,
}

/// What is submitted alongside a message: its proof, the storage address of
/// the ciphertext, the replay nonce and the sender's signature.
pub struct EndCap {
    pub proof: CFCProof,
    pub encrypted_blob_address: String,
    pub vaa_nonce: u64,
    pub signature: String,
}

/// A length as eight bytes, most significant first.
pub open spec fn len_tag(n: u64) -> Seq<u8> {
    seq![
        (n >> 56u64) as u8,
        (n >> 48u64) as u8,
        (n >> 40u64) as u8,
        (n >> 32u64) as u8,
        (n >> 24u64) as u8,
        (n >> 16u64) as u8,
        (n >> 8u64) as u8,
        n as u8,
    ]
}

/// One public input as hashed: its UTF-8 byte length, then its UTF-8 bytes.
pub open spec fn input_chunk(input: Seq<char>) -> Seq<u8> {
    len_tag(encode_utf8(input).len() as u64) + encode_utf8(input)
}

/// The public inputs as hashed, one chunk after the other.
pub open spec fn inputs_bytes(inputs: Seq<Seq<char>>) -> Seq<u8>
    decreases inputs.len(),
{
    if inputs.len() == 0 {
        Seq::empty()
    } else {
        inputs_bytes(inputs.drop_last()) + input_chunk(inputs.last())
    }
}

/// Every input's UTF-8 length fits in 64 bits, as that of any string does.
pub open spec fn inputs_fit(inputs: Seq<Seq<char>>) -> bool {
    forall|i: int| 0 <= i < inputs.len() ==> encode_utf8(#[trigger] inputs[i]).len() <= u64::MAX
}

/// The bytes that the proof digest covers.
pub open spec fn proof_preimage(
    fingerprint: Seq<char>,
    start_root: Seq<char>,
    end_root: Seq<char>,
    inputs: Seq<Seq<char>>,
) -> Seq<u8> {
    encode_utf8(PROOF_TAG@) + encode_utf8(fingerprint) + encode_utf8(start_root) + encode_utf8(
        end_root,
    ) + inputs_bytes(inputs)
}

/// The proof artifact owed for the four public fields.
pub open spec fn proof_artifact(
    fingerprint: Seq<char>,
    start_root: Seq<char>,
    end_root: Seq<char>,
    inputs: Seq<Seq<char>>,
) -> Seq<char> {
    base64_chars(sha256_of(proof_preimage(fingerprint, start_root, end_root, inputs)))
}

/// A proof verifies when its artifact is the one owed for its own public
/// fields.
pub open spec fn proof_verifies(p: CFCProof) -> bool {
    p.proof_bytes@ == proof_artifact(
        p.cfc_fingerprint@,
        p.start_cstate_root@,
        p.end_cstate_root@,
        views(p.public_inputs@),
    )
}

/// A generated proof verifies: a proof whose artifact was computed from the
/// same public fields that it carries is accepted.
pub proof fn lemma_generated_proof_verifies(
    p: CFCProof,
    fingerprint: Seq<char>,
    start_root: Seq<char>,
    end_root: Seq<char>,
    inputs: Seq<Seq<char>>,
)
    requires
        p.cfc_fingerprint@ == fingerprint,
        p.start_cstate_root@ == start_root,
        p.end_cstate_root@ == end_root,
        views(p.public_inputs@) == inputs,
        p.proof_bytes@ == proof_artifact(fingerprint, start_root, end_root, inputs),
    ensures
        proof_verifies(p),
{
}

/// A verified proof whose artifact alone is changed no longer verifies.
pub proof fn lemma_tampered_artifact_rejected(p: CFCProof, q: CFCProof)
    requires
        proof_verifies(p),
        q.cfc_fingerprint@ == p.cfc_fingerprint@,
        q.start_cstate_root@ == p.start_cstate_root@,
        q.end_cstate_root@ == p.end_cstate_root@,
        views(q.public_inputs@) == views(p.public_inputs@),
        q.proof_bytes@ != p.proof_bytes@,
    ensures
        !proof_verifies(q),
{
}

/// The input bytes of two lists joined are the bytes of each, joined.
pub proof fn lemma_inputs_bytes_concat(a: Seq<Seq<char>>, b: Seq<Seq<char>>)
    ensures
        inputs_bytes(a + b) == inputs_bytes(a) + inputs_bytes(b),
    decreases b.len(),
{
    if b.len() == 0 {
        assert(a + b =~= a);
        assert(inputs_bytes(a) + inputs_bytes(b) =~= inputs_bytes(a));
    } else {
        lemma_inputs_bytes_concat(a, b.drop_last());
        assert((a + b).drop_last() =~= a + b.drop_last());
        assert(inputs_bytes(a + b) =~= inputs_bytes(a) + inputs_bytes(b));
    }
}

/// The eight bytes of a length determine it.
pub proof fn lemma_len_tag_injective(x: u64, y: u64)
    requires
        len_tag(x) == len_tag(y),
    ensures
        x == y,
{
    assert(len_tag(x)[0] == len_tag(y)[0]);
    assert(len_tag(x)[1] == len_tag(y)[1]);
    assert(len_tag(x)[2] == len_tag(y)[2]);
    assert(len_tag(x)[3] == len_tag(y)[3]);
    assert(len_tag(x)[4] == len_tag(y)[4]);
    assert(len_tag(x)[5] == len_tag(y)[5]);
    assert(len_tag(x)[6] == len_tag(y)[6]);
    assert(len_tag(x)[7] == len_tag(y)[7]);
    assert(x == y) by (bit_vector)
        requires
            (x >> 56u64) as u8 == (y >> 56u64) as u8,
            (x >> 48u64) as u8 == (y >> 48u64) as u8,
            (x >> 40u64) as u8 == (y >> 40u64) as u8,
            (x >> 32u64) as u8 == (y >> 32u64) as u8,
            (x >> 24u64) as u8 == (y >> 24u64) as u8,
            (x >> 16u64) as u8 == (y >> 16u64) as u8,
            (x >> 8u64) as u8 == (y >> 8u64) as u8,
            x as u8 == y as u8,
    ;
}

/// The hashed inputs of a non-empty list: the first input's chunk, then the
/// rest.
pub proof fn lemma_inputs_bytes_first(a: Seq<Seq<char>>)
    requires
        a.len() > 0,
    ensures
        inputs_bytes(a) == input_chunk(a[0]) + inputs_bytes(a.drop_first()),
{
    lemma_inputs_bytes_concat(seq![a[0]], a.drop_first());
    assert(seq![a[0]] + a.drop_first() =~= a);
    assert(seq![a[0]].drop_last() =~= Seq::<Seq<char>>::empty());
    assert(inputs_bytes(Seq::<Seq<char>>::empty()) =~= Seq::<u8>::empty());
    assert(inputs_bytes(seq![a[0]]) =~= input_chunk(a[0]));
}

/// Different lists of public inputs are hashed as different bytes: each
/// input carries its length, so no re-split of the same text collides.
pub proof fn lemma_inputs_bytes_injective(a: Seq<Seq<char>>, b: Seq<Seq<char>>)
    requires
        a != b,
        inputs_fit(a),
        inputs_fit(b),
    ensures
        inputs_bytes(a) != inputs_bytes(b),
    decreases a.len(),
{
    if a.len() == 0 || b.len() == 0 {
        if a.len() > 0 {
            lemma_inputs_bytes_first(a);
        }
        if b.len() > 0 {
            lemma_inputs_bytes_first(b);
        }
        assert(a.len() == 0 ==> inputs_bytes(a).len() == 0);
        assert(b.len() == 0 ==> inputs_bytes(b).len() == 0);
        if a.len() == 0 && b.len() == 0 {
            assert(a =~= b);
        }
    } else {
        lemma_inputs_bytes_first(a);
        lemma_inputs_bytes_first(b);
        let ea = encode_utf8(a[0]);
        let eb = encode_utf8(b[0]);
        let la = ea.len() as u64;
        let lb = eb.len() as u64;
        let ra = inputs_bytes(a.drop_first());
        let rb = inputs_bytes(b.drop_first());
        let xa = inputs_bytes(a);
        let xb = inputs_bytes(b);
        assert(xa =~= len_tag(la) + ea + ra);
        assert(xb =~= len_tag(lb) + eb + rb);
        if xa == xb {
            assert(xa.subrange(0, 8) =~= len_tag(la));
            assert(xb.subrange(0, 8) =~= len_tag(lb));
            lemma_len_tag_injective(la, lb);
            assert(ea.len() == eb.len());
            assert(xa.subrange(8, 8 + ea.len() as int) =~= ea);
            assert(xb.subrange(8, 8 + eb.len() as int) =~= eb);
            if a[0] != b[0] {
                lemma_encode_utf8_injective(a[0], b[0]);
            }
            assert(xa.subrange(8 + ea.len() as int, xa.len() as int) =~= ra);
            assert(xb.subrange(8 + eb.len() as int, xb.len() as int) =~= rb);
            if a.drop_first() == b.drop_first() {
                assert(a =~= seq![a[0]] + a.drop_first());
                assert(b =~= seq![b[0]] + b.drop_first());
            } else {
                assert(inputs_fit(a.drop_first()));
                assert(inputs_fit(b.drop_first()));
                lemma_inputs_bytes_injective(a.drop_first(), b.drop_first());
            }
        }
    }
}

/// Changing exactly one public field of a proof (the fingerprint, a root, or
/// the list of public inputs) changes the bytes that the digest covers; the
/// proof then fails to verify unless the digests collide.
pub proof fn lemma_proof_preimage_sensitive(
    f1: Seq<char>,
    s1: Seq<char>,
    e1: Seq<char>,
    i1: Seq<Seq<char>>,
    f2: Seq<char>,
    s2: Seq<char>,
    e2: Seq<char>,
    i2: Seq<Seq<char>>,
)
    requires
        inputs_fit(i1),
        inputs_fit(i2),
        (f1 != f2 && s1 == s2 && e1 == e2 && i1 == i2) || (f1 == f2 && s1 != s2 && e1 == e2 && i1
            == i2) || (f1 == f2 && s1 == s2 && e1 != e2 && i1 == i2) || (f1 == f2 && s1 == s2 && e1
            == e2 && i1 != i2),
    ensures
        proof_preimage(f1, s1, e1, i1) != proof_preimage(f2, s2, e2, i2),
{
    let tag = encode_utf8(PROOF_TAG@);
    let a1 = proof_preimage(f1, s1, e1, i1);
    let a2 = proof_preimage(f2, s2, e2, i2);
    if f1 != f2 {
        lemma_encode_utf8_injective(f1, f2);
        let post = encode_utf8(s1) + encode_utf8(e1) + inputs_bytes(i1);
        lemma_middle_differs(tag, encode_utf8(f1), encode_utf8(f2), post);
        assert(a1 =~= tag + encode_utf8(f1) + post);
        assert(a2 =~= tag + encode_utf8(f2) + post);
    } else if s1 != s2 {
        lemma_encode_utf8_injective(s1, s2);
        let pre = tag + encode_utf8(f1);
        let post = encode_utf8(e1) + inputs_bytes(i1);
        lemma_middle_differs(pre, encode_utf8(s1), encode_utf8(s2), post);
        assert(a1 =~= pre + encode_utf8(s1) + post);
        assert(a2 =~= pre + encode_utf8(s2) + post);
    } else if e1 != e2 {
        lemma_encode_utf8_injective(e1, e2);
        let pre = tag + encode_utf8(f1) + encode_utf8(s1);
        let post = inputs_bytes(i1);
        lemma_middle_differs(pre, encode_utf8(e1), encode_utf8(e2), post);
    } else {
        lemma_inputs_bytes_injective(i1, i2);
        let pre = tag + encode_utf8(f1) + encode_utf8(s1) + encode_utf8(e1);
        lemma_middle_differs(pre, inputs_bytes(i1), inputs_bytes(i2), Seq::<u8>::empty());
        assert(a1 =~= pre + inputs_bytes(i1) + Seq::<u8>::empty());
        assert(a2 =~= pre + inputs_bytes(i2) + Seq::<u8>::empty());
    }
}

/// Appends the eight bytes of a length.
fn push_len_tag(buf: &mut Vec<u8>, n: u64)
    ensures
        final(buf)@ == old(buf)@ + len_tag(n),
{
    buf.push((n >> 56u64) as u8);
    buf.push((n >> 48u64) as u8);
    buf.push((n >> 40u64) as u8);
    buf.push((n >> 32u64) as u8);
    buf.push((n >> 24u64) as u8);
    buf.push((n >> 16u64) as u8);
    buf.push((n >> 8u64) as u8);
    buf.push(n as u8);
    assert(buf@ =~= old(buf)@ + len_tag(n));
}

/// The digest of the public fields.
fn proof_digest(
    fingerprint: &str,
    start_root: &str,
    end_root: &str,
    public_inputs: &[String],
) -> (r: Vec<u8>)
    ensures
        r@ == sha256_of(proof_preimage(fingerprint@, start_root@, end_root@, views(public_inputs@))),
{
    let mut buf: Vec<u8> = Vec::new();
    append_bytes(&mut buf, PROOF_TAG.as_bytes());
    append_bytes(&mut buf, fingerprint.as_bytes());
    append_bytes(&mut buf, start_root.as_bytes());
    append_bytes(&mut buf, end_root.as_bytes());
    let ghost head = buf@;
    let mut i: usize = 0;
    while i < public_inputs.len()
        invariant
            i <= public_inputs@.len(),
            buf@ == head + inputs_bytes(views(public_inputs@).subrange(0, i as int)),
        decreases public_inputs@.len() - i,
    {
        let bytes = public_inputs[i].as_str().as_bytes();
        push_len_tag(&mut buf, bytes.len() as u64);
        append_bytes(&mut buf, bytes);
        proof {
            let done = views(public_inputs@).subrange(0, i + 1);
            assert(done.drop_last() =~= views(public_inputs@).subrange(0, i as int));
        }
        i = i + 1;
    }
    assert(views(public_inputs@).subrange(0, i as int) =~= views(public_inputs@));
    sha256(buf.as_slice())
}

/// Generates the proof over a fingerprint, two roots and the public inputs.
pub fn generate_cfc_proof(
    cfc_fingerprint: &str,
    start_root: &str,
    end_root: &str,
    public_inputs: &[String],
) -> (r: CFCProof)
    ensures
        r.cfc_fingerprint@ == cfc_fingerprint@,
        r.start_cstate_root@ == start_root@,
        r.end_cstate_root@ == end_root@,
        r.public_inputs@ == public_inputs@,
        r.proof_bytes@ == proof_artifact(
            cfc_fingerprint@,
            start_root@,
            end_root@,
            views(public_inputs@),
        ),
{
    let digest = proof_digest(cfc_fingerprint, start_root, end_root, public_inputs);
    CFCProof {
        cfc_fingerprint: cfc_fingerprint.to_owned(),
        start_cstate_root: start_root.to_owned(),
        end_cstate_root: end_root.to_owned(),
        proof_bytes: base64_encode(digest.as_slice()),
        public_inputs: clone_strings(public_inputs),
        timestamp: unix_time_secs(),
    }
}

/// Recomputes the artifact from the proof's own public fields and compares.
pub fn verify_cfc_proof(proof: &CFCProof) -> (r: bool)
    ensures
        r == proof_verifies(*proof),
{
    let digest = proof_digest(
        proof.cfc_fingerprint.as_str(),
        proof.start_cstate_root.as_str(),
        proof.end_cstate_root.as_str(),
        proof.public_inputs.as_slice(),
    );
    let expected = base64_encode(digest.as_slice());
    expected == proof.proof_bytes
}

/// Assembles an end cap.
pub fn create_endcap(
    proof: CFCProof,
    encrypted_blob_address: String,
    vaa_nonce: u64,
    signature: String,
) -> (r: EndCap)
    ensures
        r.proof == proof,
        r.encrypted_blob_address == encrypted_blob_address,
        r.vaa_nonce == vaa_nonce,
        r.signature == signature,
{
    EndCap { proof, encrypted_blob_address, vaa_nonce, signature }
}

/// A proof backend: generation and verification over the four public
/// fields alone.
pub trait ProofSystem {
    /// Whether the backend accepts a proof.
    spec fn accepts(&self, proof: CFCProof) -> bool;

    /// A proof over a fingerprint, two roots and the public inputs, which
    /// carries those fields.
    fn generate(
        &self,
        cfc_fingerprint: &str,
        start_root: &str,
        end_root: &str,
        public_inputs: &[String],
    ) -> (r: CFCProof)
        ensures
            r.cfc_fingerprint@ == cfc_fingerprint@,
            r.start_cstate_root@ == start_root@,
            r.end_cstate_root@ == end_root@,
            r.public_inputs@ == public_inputs@,
            self.accepts(r),
    ;

    /// Whether a proof is accepted.
    fn verify(&self, proof: &CFCProof) -> (r: bool)
        ensures
            r == self.accepts(*proof),
    ;
}

/// The digest-based backend of this crate.
pub struct DigestProofSystem;

impl ProofSystem for DigestProofSystem {
    open spec fn accepts(&self, proof: CFCProof) -> bool {
        proof_verifies(proof)
    }

    fn generate(
        &self,
        cfc_fingerprint: &str,
        start_root: &str,
        end_root: &str,
        public_inputs: &[String],
    ) -> (r: CFCProof) {
        generate_cfc_proof(cfc_fingerprint, start_root, end_root, public_inputs)
    }

    fn verify(&self, proof: &CFCProof) -> (r: bool) {
        verify_cfc_proof(proof)
    }
}

impl CFCProof {
    /// The proof of a sent message: the send fingerprint, the two roots, and
    /// the message commitment as the one public input.
    pub fn for_send_message(start_root: &str, end_root: &str, message_commitment: &str) -> (r: Self)
        ensures
            r.cfc_fingerprint@ == SEND_MESSAGE_CFC@,
            r.start_cstate_root@ == start_root@,
            r.end_cstate_root@ == end_root@,
            views(r.public_inputs@) == seq![message_commitment@],
            r.proof_bytes@ == proof_artifact(
                SEND_MESSAGE_CFC@,
                start_root@,
                end_root@,
                seq![message_commitment@],
            ),
    {
        let mut inputs: Vec<String> = Vec::new();
        inputs.push(message_commitment.to_owned());
        assert(views(inputs@) =~= seq![message_commitment@]);
        generate_cfc_proof(SEND_MESSAGE_CFC, start_root, end_root, inputs.as_slice())
    }
}

} // verus!
