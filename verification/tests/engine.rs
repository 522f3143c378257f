use zkbridge::verification::{encode_statement, verify_proof};
use zkbridge::{BackendFailure, VerificationContext, VerificationError, VerificationParams};

fn params(
    proof: Vec<u8>,
    payload: Vec<u8>,
    from_chain: u64,
    to_chain: u64,
    nonce: u64,
    timestamp: u64,
) -> VerificationParams {
    VerificationParams { proof, payload, from_chain, to_chain, nonce, timestamp }
}

#[test]
fn test_proof_verification() {
    // A dummy program and hash.
    let program = vec![1, 2, 3, 4];
    let program_hash = [0u8; 32];

    let context = VerificationContext::new(program, program_hash);

    // Dummy proof and input bytes: the backend rejects them.
    let proof = vec![5, 6, 7, 8];
    let input = vec![9, 10, 11, 12];

    let p = params(proof, input, 1, 2, 0, 0);

    let result = verify_proof(&context, &p, 0, u64::MAX, Ok(false));
    assert!(result.is_err()); // Should fail with dummy data
}

#[test]
fn statement_encoding_is_deterministic_and_exact() {
    let p1 = params(vec![1], vec![1, 2, 3], 0, 1, 5, 42);
    let p2 = params(vec![9, 9], vec![1, 2, 3], 0, 1, 5, 42);
    // The statement depends on payload, chains, nonce and timestamp alone,
    // and twice the same fields give byte-identical output.
    let expected = vec![
        0, 0, 0, 0, 0, 0, 0, 0, // origin chain
        0, 0, 0, 0, 0, 0, 0, 1, // destination chain
        0, 0, 0, 0, 0, 0, 0, 3, // payload length
        1, 2, 3, // payload
        0, 0, 0, 0, 0, 0, 0, 5, // nonce
        0, 0, 0, 0, 0, 0, 0, 42, // timestamp
    ];
    assert_eq!(encode_statement(&p1), expected);
    assert_eq!(encode_statement(&p2), expected);
}

#[test]
fn statement_encoding_changes_with_each_field() {
    let base = params(vec![1], vec![1, 2, 3], 0, 1, 5, 42);
    let reference = encode_statement(&base);
    let changed = [
        params(vec![1], vec![1, 2, 3], 2, 1, 5, 42),
        params(vec![1], vec![1, 2, 3], 0, 2, 5, 42),
        params(vec![1], vec![1, 2, 4], 0, 1, 5, 42),
        params(vec![1], vec![1, 2], 0, 1, 5, 42),
        params(vec![1], vec![1, 2, 3], 0, 1, 6, 42),
        params(vec![1], vec![1, 2, 3], 0, 1, 5, 43),
    ];
    for c in changed.iter() {
        assert_ne!(encode_statement(c), reference);
    }
}

#[test]
fn engine_is_a_pure_function_of_its_inputs() {
    let context = VerificationContext::new(vec![1], [3u8; 32]);
    let p = params(vec![1, 2], vec![7], 0, 1, 0, 50);
    let first = verify_proof(&context, &p, 0, 100, Ok(true));
    let second = verify_proof(&context, &p, 0, 100, Ok(true));
    assert!(first.is_ok() && second.is_ok());
    let third = verify_proof(&context, &p, 0, 100, Ok(false));
    let fourth = verify_proof(&context, &p, 0, 100, Ok(false));
    assert!(matches!(third, Err(VerificationError::VerificationFailed)));
    assert!(matches!(fourth, Err(VerificationError::VerificationFailed)));
}

#[test]
fn empty_proof_rejected_before_the_backend_answer_counts() {
    let context = VerificationContext::new(vec![1], [3u8; 32]);
    let p = params(vec![], vec![7], 0, 1, 0, 50);
    // Even a positive backend answer cannot rescue an empty proof.
    let r = verify_proof(&context, &p, 0, 100, Ok(true));
    assert!(matches!(r, Err(VerificationError::InvalidProofFormat)));
}

#[test]
fn out_of_range_chain_code_rejected() {
    let context = VerificationContext::new(vec![1], [3u8; 32]);
    let p = params(vec![1], vec![7], 255, 1, 0, 50);
    let r = verify_proof(&context, &p, 0, 100, Ok(true));
    assert!(matches!(r, Err(VerificationError::InvalidInput)));
}

#[test]
fn timestamp_outside_window_rejected() {
    let context = VerificationContext::new(vec![1], [3u8; 32]);
    let p = params(vec![1], vec![7], 0, 1, 0, 101);
    let r = verify_proof(&context, &p, 0, 100, Ok(true));
    assert!(matches!(r, Err(VerificationError::InvalidInput)));
}

#[test]
fn backend_failures_map_to_their_error_kinds() {
    let context = VerificationContext::new(vec![1], [3u8; 32]);
    let p = params(vec![1], vec![7], 0, 1, 0, 50);
    let r = verify_proof(&context, &p, 0, 100, Err(BackendFailure::Program(vec![1])));
    assert!(matches!(r, Err(VerificationError::InvalidProofFormat)));
    let r = verify_proof(&context, &p, 0, 100, Err(BackendFailure::Rejected(vec![2])));
    assert!(matches!(r, Err(VerificationError::VerificationFailed)));
    let r = verify_proof(&context, &p, 0, 100, Err(BackendFailure::Input(vec![3])));
    assert!(matches!(r, Err(VerificationError::InvalidInput)));
    let r = verify_proof(&context, &p, 0, 100, Err(BackendFailure::Other(vec![4, 5])));
    match r {
        Err(VerificationError::BackendError(bytes)) => assert_eq!(bytes, vec![4, 5]),
        other => panic!("unexpected engine answer: {:?}", other),
    }
    let r = verify_proof(&context, &p, 0, 100, Err(BackendFailure::Unknown));
    assert!(matches!(r, Err(VerificationError::SystemError)));
}

#[test]
fn context_keeps_program_and_hash() {
    let context = VerificationContext::new(vec![8, 9], [4u8; 32]);
    assert_eq!(context.program, vec![8, 9]);
    assert_eq!(context.program_hash, [4u8; 32]);
}
