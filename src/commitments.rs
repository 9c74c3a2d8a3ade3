//! Message commitments and the Merkle-style CSTATE root.
use vstd::prelude::*;
use vstd::utf8::{encode_utf8, encode_utf8_decode_utf8};
use crate::clock::unix_time_secs;
use crate::primitives::{
    append_bytes, hex_chars, hex_encode, keccak256, keccak256_of, sha256, sha256_hex, sha256_of,
};

verus! {

/// Domain tag of the first commitment round.
pub const COMMITMENT_TAG: &'static str = "zerotrace_commitment_v1";

/// Domain tag of the second commitment round.
pub const SECOND_ROUND_TAG: &'static str = "poseidon2_simulation";

/// The root of an identity with no thread roots: 64 zero characters.
pub const ZERO_ROOT: &'static str = "0000000000000000000000000000000000000000000000000000000000000000";

/// The views of a sequence of strings.
pub open spec fn views(s: Seq<String>) -> Seq<Seq<char>> {
    s.map_values(|x: String| x@)
}

/// 64 zero characters.
pub open spec fn zero_root() -> Seq<char> {
    Seq::new(64, |i: int| '0')
}

/// The bytes that the first commitment round hashes.
pub open spec fn commitment_preimage(
    sender_hash: Seq<char>,
    thread_id: Seq<char>,
    nonce: Seq<u8>,
    plaintext_hash: Seq<char>,
) -> Seq<u8> {
    encode_utf8(COMMITMENT_TAG@) + encode_utf8(sender_hash) + encode_utf8(thread_id) + nonce
        + encode_utf8(plaintext_hash)
}

/// The message commitment: SHA-256 over the tagged fields, then Keccak-256
/// over that digest and a second tag, in lowercase hexadecimal.
pub open spec fn message_commitment(
    sender_hash: Seq<char>,
    thread_id: Seq<char>,
    nonce: Seq<u8>,
    plaintext_hash: Seq<char>,
) -> Seq<char> {
    hex_chars(
        keccak256_of(
            sha256_of(commitment_preimage(sender_hash, thread_id, nonce, plaintext_hash))
                + encode_utf8(SECOND_ROUND_TAG@),
        ),
    )
}

/// The parent of two Merkle nodes: the hexadecimal SHA-256 of their texts
/// joined.
pub open spec fn pair_hash(a: Seq<char>, b: Seq<char>) -> Seq<char> {
    sha256_hex(encode_utf8(a) + encode_utf8(b))
}

/// One level of the reduction: adjacent nodes are paired, and an odd last
/// node is carried up unchanged.
pub open spec fn merkle_level(s: Seq<Seq<char>>) -> Seq<Seq<char>> {
    Seq::new(
        (s.len() + 1) / 2,
        |i: int|
            if 2 * i + 1 < s.len() {
                pair_hash(s[2 * i], s[2 * i + 1])
            } else {
                s[2 * i]
            },
    )
}

/// Reduces a non-empty sequence of nodes level by level to one node.
pub open spec fn merkle_reduce(s: Seq<Seq<char>>) -> Seq<char>
    decreases s.len(),
{
    if s.len() <= 1 {
        s[0]
    } else {
        merkle_reduce(merkle_level(s))
    }
}

/// The CSTATE root of a list of thread-root commitments.
pub open spec fn cstate_root(leaves: Seq<Seq<char>>) -> Seq<char> {
    if leaves.len() == 0 {
        zero_root()
    } else {
        merkle_reduce(leaves)
    }
}

/// Lemma: putting a different middle part between the same prefix and suffix
/// gives a different sequence.
pub proof fn lemma_middle_differs<T>(pre: Seq<T>, x: Seq<T>, y: Seq<T>, post: Seq<T>)
    requires
        x != y,
    ensures
        pre + x + post != pre + y + post,
{
    if x.len() == y.len() {
        assert(!(x =~= y));
        let k = choose|k: int| 0 <= k < x.len() && x[k] != y[k];
        assert((pre + x + post)[pre.len() + k] == x[k]);
        assert((pre + y + post)[pre.len() + k] == y[k]);
    } else {
        assert((pre + x + post).len() != (pre + y + post).len());
    }
}

/// Lemma: distinct texts have distinct UTF-8 encodings.
pub proof fn lemma_encode_utf8_injective(a: Seq<char>, b: Seq<char>)
    requires
        a != b,
    ensures
        encode_utf8(a) != encode_utf8(b),
{
    encode_utf8_decode_utf8(a);
    encode_utf8_decode_utf8(b);
}

/// Determinism of the commitment: equal inputs give equal commitments.
pub proof fn lemma_commitment_deterministic(
    s1: Seq<char>,
    t1: Seq<char>,
    n1: Seq<u8>,
    p1: Seq<char>,
    s2: Seq<char>,
    t2: Seq<char>,
    n2: Seq<u8>,
    p2: Seq<char>,
)
    requires
        s1 == s2,
        t1 == t2,
        n1 == n2,
        p1 == p2,
    ensures
        message_commitment(s1, t1, n1, p1) == message_commitment(s2, t2, n2, p2),
{
}

/// Changing exactly one of sender hash, thread id, nonce or plaintext hash
/// changes the bytes that the first round hashes; the commitment then differs
/// unless the digests collide.
pub proof fn lemma_commitment_preimage_sensitive(
    s1: Seq<char>,
    t1: Seq<char>,
    n1: Seq<u8>,
    p1: Seq<char>,
    s2: Seq<char>,
    t2: Seq<char>,
    n2: Seq<u8>,
    p2: Seq<char>,
)
    requires
        (s1 != s2 && t1 == t2 && n1 == n2 && p1 == p2) || (s1 == s2 && t1 != t2 && n1 == n2
            && p1 == p2) || (s1 == s2 && t1 == t2 && n1 != n2 && p1 == p2) || (s1 == s2 && t1
            == t2 && n1 == n2 && p1 != p2),
    ensures
        commitment_preimage(s1, t1, n1, p1) != commitment_preimage(s2, t2, n2, p2),
{
    let tag = encode_utf8(COMMITMENT_TAG@);
    let a1 = commitment_preimage(s1, t1, n1, p1);
    let a2 = commitment_preimage(s2, t2, n2, p2);
    if s1 != s2 {
        lemma_encode_utf8_injective(s1, s2);
        let post = encode_utf8(t1) + n1 + encode_utf8(p1);
        lemma_middle_differs(tag, encode_utf8(s1), encode_utf8(s2), post);
        assert(a1 =~= tag + encode_utf8(s1) + post);
        assert(a2 =~= tag + encode_utf8(s2) + post);
    } else if t1 != t2 {
        lemma_encode_utf8_injective(t1, t2);
        let pre = tag + encode_utf8(s1);
        let post = n1 + encode_utf8(p1);
        lemma_middle_differs(pre, encode_utf8(t1), encode_utf8(t2), post);
        assert(a1 =~= pre + encode_utf8(t1) + post);
        assert(a2 =~= pre + encode_utf8(t2) + post);
    } else if n1 != n2 {
        let pre = tag + encode_utf8(s1) + encode_utf8(t1);
        let post = encode_utf8(p1);
        lemma_middle_differs(pre, n1, n2, post);
    } else {
        lemma_encode_utf8_injective(p1, p2);
        let pre = tag + encode_utf8(s1) + encode_utf8(t1) + n1;
        lemma_middle_differs(pre, encode_utf8(p1), encode_utf8(p2), Seq::<u8>::empty());
        assert(a1 =~= pre + encode_utf8(p1) + Seq::<u8>::empty());
        assert(a2 =~= pre + encode_utf8(p2) + Seq::<u8>::empty());
    }
}

/// The edge cases of the root: no leaves give the zero root, one leaf is its
/// own root, two leaves give their pair hash, and of three leaves the third is
/// carried up unchanged and paired with the hash of the first two.
pub proof fn lemma_cstate_root_edge_cases(a: Seq<char>, b: Seq<char>, c: Seq<char>)
    ensures
        cstate_root(seq![]) == zero_root(),
        cstate_root(seq![a]) == a,
        cstate_root(seq![a, b]) == pair_hash(a, b),
        cstate_root(seq![a, b, c]) == pair_hash(pair_hash(a, b), c),
{
    assert(merkle_level(seq![a, b]) =~= seq![pair_hash(a, b)]);
    assert(merkle_reduce(seq![a, b]) == merkle_reduce(seq![pair_hash(a, b)]));
    assert(merkle_level(seq![a, b, c]) =~= seq![pair_hash(a, b), c]);
    assert(merkle_level(seq![pair_hash(a, b), c]) =~= seq![pair_hash(pair_hash(a, b), c)]);
    assert(merkle_reduce(seq![a, b, c]) == merkle_reduce(seq![pair_hash(a, b), c]));
    assert(merkle_reduce(seq![pair_hash(a, b), c]) == merkle_reduce(
        seq![pair_hash(pair_hash(a, b), c)],
    ));
}

/// Copies a slice of strings.
pub fn clone_strings(v: &[String]) -> (r: Vec<String>)
    ensures
        r@ == v@,
{
    let mut r: Vec<String> = Vec::new();
    let mut i: usize = 0;
    while i < v.len()
        invariant
            i <= v@.len(),
            r@ == v@.subrange(0, i as int),
        decreases v@.len() - i,
    {
        r.push(v[i].clone());
        i = i + 1;
    }
    r
}

/// Computes the commitment of one message from its sender, thread, nonce and
/// plaintext hash.
pub fn compute_message_commitment(
    sender_hash: &str,
    thread_id: &str,
    nonce: &[u8],
    plaintext_hash: &str,
) -> (r: String)
    ensures
        r@ == message_commitment(sender_hash@, thread_id@, nonce@, plaintext_hash@),
        r@.len() == 64,
{
    let mut first: Vec<u8> = Vec::new();
    append_bytes(&mut first, COMMITMENT_TAG.as_bytes());
    append_bytes(&mut first, sender_hash.as_bytes());
    append_bytes(&mut first, thread_id.as_bytes());
    append_bytes(&mut first, nonce);
    append_bytes(&mut first, plaintext_hash.as_bytes());
    let digest = sha256(first.as_slice());
    let mut second = digest;
    append_bytes(&mut second, SECOND_ROUND_TAG.as_bytes());
    hex_encode(keccak256(second.as_slice()).as_slice())
}

/// The parent node of two nodes.
fn hash_pair(a: &String, b: &String) -> (r: String)
    ensures
        r@ == pair_hash(a@, b@),
        r@.len() == 64,
{
    let mut buf: Vec<u8> = Vec::new();
    append_bytes(&mut buf, a.as_str().as_bytes());
    append_bytes(&mut buf, b.as_str().as_bytes());
    hex_encode(sha256(buf.as_slice()).as_slice())
}

/// Computes one level of the reduction.
fn next_level(current: &Vec<String>) -> (r: Vec<String>)
    ensures
        views(r@) == merkle_level(views(current@)),
        current@.len() == 2 ==> r@[0]@.len() == 64,
{
    let ghost cur = views(current@);
    let n = current.len();
    let half = n / 2 + n % 2;
    let mut next: Vec<String> = Vec::new();
    let mut j: usize = 0;
    while j < half
        invariant
            cur == views(current@),
            n == current@.len(),
            half == (n + 1) / 2,
            j <= half,
            next@.len() == j,
            forall|k: int| 0 <= k < j ==> #[trigger] next@[k]@ == merkle_level(cur)[k],
            n == 2 && j >= 1 ==> next@[0]@.len() == 64,
        decreases half - j,
    {
        if 2 * j + 1 < n {
            next.push(hash_pair(&current[2 * j], &current[2 * j + 1]));
        } else {
            next.push(current[2 * j].clone());
        }
        j = j + 1;
    }
    assert(views(next@) =~= merkle_level(cur));
    next
}

/// Reduces thread-root commitments to the CSTATE root, pairing adjacent
/// nodes and carrying an odd last node up unchanged.
pub fn compute_cstate_root(thread_roots: &[String]) -> (r: String)
    ensures
        r@ == cstate_root(views(thread_roots@)),
        thread_roots@.len() == 0 ==> r@.len() == 64,
        thread_roots@.len() >= 2 ==> r@.len() == 64,
{
    if thread_roots.len() == 0 {
        let zeros = ZERO_ROOT.to_owned();
        proof {
            reveal_strlit("0000000000000000000000000000000000000000000000000000000000000000");
            assert(zeros@ =~= zero_root());
        }
        return zeros;
    }
    let mut current = clone_strings(thread_roots);
    while current.len() > 1
        invariant
            current@.len() >= 1,
            merkle_reduce(views(current@)) == merkle_reduce(views(thread_roots@)),
            current@.len() <= thread_roots@.len(),
            current@.len() == 1 && thread_roots@.len() >= 2 ==> current@[0]@.len() == 64,
        decreases current@.len(),
    {
        current = next_level(&current);
        assert(views(current@).len() == current@.len());
    }
    current[0].clone()
}

/// Hashes a plaintext so that commitments need not carry it.
pub fn hash_plaintext(plaintext: &str) -> (r: String)
    ensures
        r@ == sha256_hex(encode_utf8(plaintext@)),
        r@.len() == 64,
{
    hex_encode(sha256(plaintext.as_bytes()).as_slice())
}

/// A candidate state: the root after one more commitment.
pub struct StateCommitment {
    pub cstate_root: String,
    pub thread_id: String,
    pub message_commitment: String,
    pub timestamp: u64,
}

impl StateCommitment {
    /// Computes the root of `existing_roots` with `message_commitment`
    /// appended.
    pub fn new(thread_id: String, message_commitment: String, existing_roots: &[String]) -> (r: Self)
        ensures
            r.cstate_root@ == cstate_root(views(existing_roots@).push(message_commitment@)),
            r.thread_id == thread_id,
            r.message_commitment == message_commitment,
    {
        let mut all_roots = clone_strings(existing_roots);
        all_roots.push(message_commitment.clone());
        assert(views(all_roots@) =~= views(existing_roots@).push(message_commitment@));
        let cstate_root = compute_cstate_root(all_roots.as_slice());
        StateCommitment {
            cstate_root,
            thread_id,
            message_commitment,
            timestamp: unix_time_secs(),
        }
    }
}

} // verus!
