use rust_rapidsnark::boundary::{
    to_c_text, verification_result, ProveRequest, VerifyOutcome, VerifyRequest,
    ERROR_BUFFER_CAPACITY, PROOF_BUFFER_CAPACITY, PUBLIC_BUFFER_CAPACITY,
};
use rust_rapidsnark::error::RapidsnarkError;

fn fill(buf: &mut [u8], text: &str) {
    buf[..text.len()].copy_from_slice(text.as_bytes());
}

#[test]
fn c_text_ends_with_nul() {
    assert_eq!(to_c_text("ab").unwrap(), vec![b'a', b'b', 0]);
    assert_eq!(to_c_text("").unwrap(), vec![0]);
    assert_eq!(to_c_text("é").unwrap(), vec![0xc3, 0xa9, 0]);
}

#[test]
fn c_text_refuses_interior_nul() {
    assert_eq!(to_c_text("a\0b"), Err(RapidsnarkError::InteriorNul));
    assert!(ProveRequest::new("key\0.zkey", vec![1]).is_err());
    assert!(VerifyRequest::new("{}", "[\0]", "{}").is_err());
}

#[test]
fn prove_request_buffers_are_zeroed_at_capacity() {
    let q = ProveRequest::new("./multiplier2_final.zkey", vec![9, 8, 7]).unwrap();
    assert_eq!(q.zkey_path, b"./multiplier2_final.zkey\0".to_vec());
    assert_eq!(q.witness, vec![9, 8, 7]);
    assert_eq!(q.proof.len(), 4 * 1024 * 1024);
    assert_eq!(q.public_signals.len(), 4 * 1024 * 1024);
    assert_eq!(q.error_msg.len(), 256);
    assert_eq!(PROOF_BUFFER_CAPACITY, 4194304);
    assert_eq!(PUBLIC_BUFFER_CAPACITY, 4194304);
    assert_eq!(ERROR_BUFFER_CAPACITY, 256);
    assert!(q.proof.iter().all(|b| *b == 0));
    assert!(q.public_signals.iter().all(|b| *b == 0));
    assert!(q.error_msg.iter().all(|b| *b == 0));
}

#[test]
fn successful_proof_reads_both_texts() {
    let mut q = ProveRequest::new("k.zkey", vec![]).unwrap();
    let proof = "{\"pi_a\":[\"1\",\"2\",\"1\"],\"protocol\":\"groth16\"}";
    let signals = "[\"21888242871839275222246405745257275088548364400416034343698204186575808495616\"]";
    fill(&mut q.proof, proof);
    fill(&mut q.public_signals, signals);
    let r = q.finish(0, proof.len() as u64 + 1, signals.len() as u64).unwrap();
    assert_eq!(r.proof, proof);
    assert_eq!(r.public_signals, signals);
}

#[test]
fn reported_size_bounds_the_text() {
    let mut q = ProveRequest::new("k.zkey", vec![]).unwrap();
    fill(&mut q.proof, "abcdef");
    fill(&mut q.public_signals, "[1,2]");
    let r = q.finish(0, 3, u64::MAX).unwrap();
    assert_eq!(r.proof, "abc");
    assert_eq!(r.public_signals, "[1,2]");
}

#[test]
fn failed_proof_carries_the_native_message() {
    let mut q = ProveRequest::new("k.zkey", vec![]).unwrap();
    fill(&mut q.proof, "partial");
    fill(&mut q.error_msg, "Invalid witness length");
    match q.finish(1, 7, 0) {
        Err(RapidsnarkError::ProofGeneration(m)) => assert_eq!(m, "Invalid witness length"),
        _ => panic!("expected a proof generation error"),
    }
}

#[test]
fn empty_error_buffer_gives_unknown_failure() {
    let q = ProveRequest::new("k.zkey", vec![]).unwrap();
    match q.finish(3, 0, 0) {
        Err(RapidsnarkError::ProofGeneration(m)) => assert_eq!(m, "unknown failure"),
        _ => panic!("expected a proof generation error"),
    }
}

#[test]
fn error_text_stops_at_capacity() {
    let mut q = ProveRequest::new("k.zkey", vec![]).unwrap();
    let long = "x".repeat(256);
    fill(&mut q.error_msg, &long);
    match q.finish(-1, 0, 0) {
        Err(RapidsnarkError::ProofGeneration(m)) => assert_eq!(m.len(), 256),
        _ => panic!("expected a proof generation error"),
    }
}

#[test]
fn invalid_utf8_is_replaced() {
    let mut q = ProveRequest::new("k.zkey", vec![]).unwrap();
    q.error_msg[0] = b'a';
    q.error_msg[1] = 0xff;
    q.error_msg[2] = b'b';
    match q.finish(2, 0, 0) {
        Err(RapidsnarkError::ProofGeneration(m)) => assert_eq!(m, "a\u{fffd}b"),
        _ => panic!("expected a proof generation error"),
    }
}

#[test]
fn verify_request_holds_the_three_texts() {
    let q = VerifyRequest::new("{\"p\":1}", "[\"3\"]", "{\"k\":2}").unwrap();
    assert_eq!(q.proof, b"{\"p\":1}\0".to_vec());
    assert_eq!(q.inputs, b"[\"3\"]\0".to_vec());
    assert_eq!(q.verification_key, b"{\"k\":2}\0".to_vec());
    assert_eq!(q.error_msg, vec![0u8; 256]);
}

#[test]
fn verify_status_maps_to_three_outcomes() {
    let q = VerifyRequest::new("p", "s", "k").unwrap();
    assert!(matches!(q.finish(0), VerifyOutcome::Valid));
    let q = VerifyRequest::new("p", "s", "k").unwrap();
    assert!(matches!(q.finish(1), VerifyOutcome::Invalid));
    let mut q = VerifyRequest::new("p", "s", "k").unwrap();
    fill(&mut q.error_msg, "bad verification key");
    match q.finish(2) {
        VerifyOutcome::Error(m) => assert_eq!(m, "bad verification key"),
        _ => panic!("expected a verification error"),
    }
    let q = VerifyRequest::new("p", "s", "k").unwrap();
    assert!(matches!(q.finish(7), VerifyOutcome::Invalid));
}

#[test]
fn invalid_proof_is_not_an_error() {
    assert_eq!(verification_result(VerifyOutcome::Valid), Ok(true));
    assert_eq!(verification_result(VerifyOutcome::Invalid), Ok(false));
    assert_eq!(
        verification_result(VerifyOutcome::Error("boom".to_string())),
        Err(RapidsnarkError::Verification("boom".to_string()))
    );
}

#[test]
fn verify_twice_gives_the_same_result() {
    for status in [0, 1, 2] {
        let mut a = VerifyRequest::new("{\"p\":1}", "[\"3\"]", "{}").unwrap();
        let mut b = VerifyRequest::new("{\"p\":1}", "[\"3\"]", "{}").unwrap();
        assert_eq!(a.proof, b.proof);
        assert_eq!(a.inputs, b.inputs);
        assert_eq!(a.verification_key, b.verification_key);
        fill(&mut a.error_msg, "oops");
        fill(&mut b.error_msg, "oops");
        let ra = verification_result(a.finish(status));
        let rb = verification_result(b.finish(status));
        assert_eq!(ra, rb);
    }
}
