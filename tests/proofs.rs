use base64::Engine;
use sha2::{Digest, Sha256};
use zerotrace::proofs::{
    create_endcap, generate_cfc_proof, verify_cfc_proof, CFCProof, DigestProofSystem, ProofSystem,
    SEND_MESSAGE_CFC,
};

fn inputs() -> Vec<String> {
    vec!["in1".to_string(), "in2".to_string()]
}

#[test]
fn proof_artifact_is_base64_of_digest() {
    let p = generate_cfc_proof("fp", "s", "e", &inputs());
    let mut pre = b"cfc_proof_simulationfpse".to_vec();
    for input in ["in1", "in2"] {
        pre.extend_from_slice(&(input.len() as u64).to_be_bytes());
        pre.extend_from_slice(input.as_bytes());
    }
    let digest = Sha256::digest(&pre);
    assert_eq!(p.proof_bytes, base64::engine::general_purpose::STANDARD.encode(digest));
    assert_eq!(p.cfc_fingerprint, "fp");
    assert_eq!(p.start_cstate_root, "s");
    assert_eq!(p.end_cstate_root, "e");
    assert_eq!(p.public_inputs, inputs());
}

#[test]
fn generated_proof_verifies() {
    let p = generate_cfc_proof("fp", "start", "end", &inputs());
    assert!(verify_cfc_proof(&p));
    let empty = generate_cfc_proof("", "", "", &[]);
    assert!(verify_cfc_proof(&empty));
}

#[test]
fn mutated_proof_fails() {
    let p = generate_cfc_proof("fp", "start", "end", &inputs());
    let mut q = p.clone_fields();
    q.cfc_fingerprint.push('x');
    assert!(!verify_cfc_proof(&q));
    let mut q = p.clone_fields();
    q.start_cstate_root = "other".to_string();
    assert!(!verify_cfc_proof(&q));
    let mut q = p.clone_fields();
    q.end_cstate_root = "other".to_string();
    assert!(!verify_cfc_proof(&q));
    let mut q = p.clone_fields();
    q.public_inputs[1] = "in3".to_string();
    assert!(!verify_cfc_proof(&q));
    let mut q = p.clone_fields();
    q.public_inputs.push(String::new());
    assert!(!verify_cfc_proof(&q));
    let mut q = p.clone_fields();
    q.proof_bytes = q.proof_bytes.trim_end_matches('=').to_string();
    assert!(!verify_cfc_proof(&q));
}

trait CloneFields {
    fn clone_fields(&self) -> CFCProof;
}

impl CloneFields for CFCProof {
    fn clone_fields(&self) -> CFCProof {
        CFCProof {
            cfc_fingerprint: self.cfc_fingerprint.clone(),
            start_cstate_root: self.start_cstate_root.clone(),
            end_cstate_root: self.end_cstate_root.clone(),
            proof_bytes: self.proof_bytes.clone(),
            public_inputs: self.public_inputs.clone(),
            timestamp: self.timestamp,
        }
    }
}

#[test]
fn send_message_proof_uses_send_fingerprint() {
    let p = CFCProof::for_send_message("s", "e", "c");
    assert_eq!(p.cfc_fingerprint, SEND_MESSAGE_CFC);
    assert_eq!(p.public_inputs, vec!["c".to_string()]);
    assert!(verify_cfc_proof(&p));
    let q = generate_cfc_proof(SEND_MESSAGE_CFC, "s", "e", &["c".to_string()]);
    assert_eq!(p.proof_bytes, q.proof_bytes);
}

#[test]
fn digest_backend_round_trips() {
    let ps = DigestProofSystem;
    let p = ps.generate("fp", "a", "b", &inputs());
    assert!(ps.verify(&p));
}

#[test]
fn endcap_holds_its_parts() {
    let p = generate_cfc_proof("fp", "s", "e", &[]);
    let bytes = p.proof_bytes.clone();
    let e = create_endcap(p, "da://x".to_string(), 7, "sig".to_string());
    assert_eq!(e.proof.proof_bytes, bytes);
    assert_eq!(e.encrypted_blob_address, "da://x");
    assert_eq!(e.vaa_nonce, 7);
    assert_eq!(e.signature, "sig");
}

#[test]
fn resplit_public_inputs_fail() {
    let p = generate_cfc_proof("fp", "s", "e", &["ab".to_string()]);
    let mut q = p.clone_fields();
    q.public_inputs = vec!["a".to_string(), "b".to_string()];
    assert!(!verify_cfc_proof(&q));
    let r = generate_cfc_proof("fp", "s", "e", &["a".to_string(), "b".to_string()]);
    assert_ne!(p.proof_bytes, r.proof_bytes);
}
