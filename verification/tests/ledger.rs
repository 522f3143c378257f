use zkbridge::{BackendFailure, ChainId, Config, Error, Event, Message, MessageStatus, Pallet};

fn config() -> Config {
    Config {
        max_payload_size: 16,
        message_deposit: 1,
        max_key_size: 128,
        max_program_age: 5,
        min_timestamp: 0,
        max_timestamp: 1_000_000,
    }
}

fn pallet() -> Pallet {
    Pallet::new(config())
}

#[test]
fn submitted_message_hash_is_the_blake2_digest_of_its_record() {
    let mut p = pallet();
    let hash = p
        .submit_message(ChainId::Ethereum, ChainId::Polkadot, vec![1, 2, 3], None, 7, 42)
        .unwrap();
    // blake2b-256 of the record bytes of this exact message, computed
    // independently.
    let expected: [u8; 32] = [
        244, 160, 233, 35, 198, 165, 11, 159, 44, 225, 127, 136, 175, 178, 80, 244, 248, 2, 68,
        190, 153, 199, 135, 149, 206, 34, 42, 71, 173, 7, 221, 255,
    ];
    assert_eq!(hash, expected);
}

#[test]
fn nonces_increase_by_one_per_origin_and_sender() {
    let mut p = pallet();
    let h1 = p
        .submit_message(ChainId::Ethereum, ChainId::Polkadot, vec![1], None, 7, 1)
        .unwrap();
    let h2 = p
        .submit_message(ChainId::Ethereum, ChainId::Polkadot, vec![2], None, 7, 2)
        .unwrap();
    assert_eq!(p.get_message(&h1).unwrap().nonce, 0);
    assert_eq!(p.get_message(&h2).unwrap().nonce, 1);
    assert_eq!(p.peek_nonce(ChainId::Ethereum, 7), 2);
    // Another origin chain and another sender each count separately.
    assert_eq!(p.peek_nonce(ChainId::Solana, 7), 0);
    assert_eq!(p.peek_nonce(ChainId::Ethereum, 8), 0);
    let h3 = p
        .submit_message(ChainId::Solana, ChainId::Polkadot, vec![3], None, 7, 3)
        .unwrap();
    assert_eq!(p.get_message(&h3).unwrap().nonce, 0);
}

#[test]
fn oversized_payload_rejected_without_a_trace() {
    let mut p = pallet();
    let r = p.submit_message(ChainId::Ethereum, ChainId::Polkadot, vec![0; 17], None, 7, 1);
    assert!(matches!(r, Err(Error::PayloadTooLarge)));
    assert_eq!(p.peek_nonce(ChainId::Ethereum, 7), 0);
    assert!(p.events().is_empty());
}

#[test]
fn unknown_chain_rejected() {
    let mut p = pallet();
    let r = p.submit_message(ChainId::Unknown, ChainId::Polkadot, vec![1], None, 7, 1);
    assert!(matches!(r, Err(Error::InvalidChainId)));
    let r = p.submit_message(ChainId::Ethereum, ChainId::Unknown, vec![1], None, 7, 1);
    assert!(matches!(r, Err(Error::InvalidChainId)));
    assert!(p.events().is_empty());
}

#[test]
fn verify_unknown_hash_fails_with_message_not_found() {
    let mut p = pallet();
    let r = p.verify_message(&[9u8; 32], Ok(true));
    assert!(matches!(r, Err(Error::MessageNotFound)));
}

#[test]
fn verify_twice_rejected_whatever_the_first_outcome() {
    let answers: [Result<bool, BackendFailure>; 2] = [Ok(true), Ok(false)];
    for first_answer in answers {
        let mut p = pallet();
        let hash = p
            .submit_message(
                ChainId::Ethereum,
                ChainId::Polkadot,
                vec![1, 2, 3],
                Some(vec![9, 9]),
                7,
                42,
            )
            .unwrap();
        let msg = p.get_message(&hash).unwrap();
        let program_hash = Pallet::compute_program_hash(msg);
        p.add_verification_key(program_hash, vec![5; 64], None, 42).unwrap();
        let _ = p.verify_message(&hash, first_answer);
        assert_ne!(p.get_message(&hash).unwrap().status, MessageStatus::Pending);
        let second = p.verify_message(&hash, Ok(true));
        assert!(matches!(second, Err(Error::InvalidStatusTransition)));
    }
}

#[test]
fn proofless_submission_stays_pending_and_verify_is_a_no_op() {
    // Scenario: submit with no proof, then verify; the call succeeds without
    // moving the message out of `Pending`.
    let mut p = pallet();
    let hash = p
        .submit_message(ChainId::Ethereum, ChainId::Polkadot, vec![1, 2, 3], None, 7, 1)
        .unwrap();
    let msg = p.get_message(&hash).unwrap();
    assert_eq!(msg.status, MessageStatus::Pending);
    assert_eq!(msg.nonce, 0);
    let r = p.verify_message(&hash, Ok(true));
    assert!(r.is_ok());
    assert_eq!(p.get_message(&hash).unwrap().status, MessageStatus::Pending);
}

#[test]
fn successful_verification_counts_a_program_use() {
    // Scenario: register a 64-byte key for the message's program hash, cache
    // the program, verify with a positive backend answer; the message turns
    // `Verified` and the cached program counts one use.
    let mut p = pallet();
    let hash = p
        .submit_message(
            ChainId::Ethereum,
            ChainId::Polkadot,
            vec![1, 2, 3],
            Some(vec![8, 8, 8]),
            7,
            42,
        )
        .unwrap();
    let program_hash = Pallet::compute_program_hash(p.get_message(&hash).unwrap());
    p.add_verification_key(program_hash, vec![5; 64], None, 42).unwrap();
    p.cache_program(program_hash, vec![1, 1, 2, 3, 5], 42);
    assert_eq!(p.get_cached_program(&program_hash).unwrap().use_count, 0);

    let r = p.verify_message(&hash, Ok(true));
    assert!(r.is_ok());
    assert_eq!(p.get_message(&hash).unwrap().status, MessageStatus::Verified);
    assert_eq!(p.get_cached_program(&program_hash).unwrap().use_count, 1);
    assert!(matches!(
        p.events().last().unwrap(),
        Event::MessageVerified { .. }
    ));
}

#[test]
fn negative_backend_answer_turns_the_message_failed() {
    let mut p = pallet();
    let hash = p
        .submit_message(ChainId::Ethereum, ChainId::Polkadot, vec![1], Some(vec![9]), 7, 42)
        .unwrap();
    let program_hash = Pallet::compute_program_hash(p.get_message(&hash).unwrap());
    p.add_verification_key(program_hash, vec![5; 64], None, 42).unwrap();
    let r = p.verify_message(&hash, Ok(false));
    assert!(matches!(r, Err(Error::VerificationFailed)));
    assert_eq!(p.get_message(&hash).unwrap().status, MessageStatus::Failed);
    assert!(matches!(
        p.events().last().unwrap(),
        Event::MessageVerificationFailed { .. }
    ));
}

#[test]
fn backend_diagnostics_surface_as_sp1_error() {
    let mut p = pallet();
    let hash = p
        .submit_message(ChainId::Ethereum, ChainId::Polkadot, vec![1], Some(vec![9]), 7, 42)
        .unwrap();
    let program_hash = Pallet::compute_program_hash(p.get_message(&hash).unwrap());
    p.add_verification_key(program_hash, vec![5; 64], None, 42).unwrap();
    let r = p.verify_message(&hash, Err(BackendFailure::Other(vec![3, 1, 4])));
    match r {
        Err(Error::Sp1Error(bytes)) => assert_eq!(bytes, vec![3, 1, 4]),
        other => panic!("unexpected result: {:?}", other),
    }
    assert_eq!(p.get_message(&hash).unwrap().status, MessageStatus::Failed);
}

#[test]
fn missing_key_rejects_the_call_and_keeps_pending() {
    let mut p = pallet();
    let hash = p
        .submit_message(ChainId::Ethereum, ChainId::Polkadot, vec![1], Some(vec![9]), 7, 42)
        .unwrap();
    let r = p.verify_message(&hash, Ok(true));
    assert!(matches!(r, Err(Error::InvalidKey)));
    assert_eq!(p.get_message(&hash).unwrap().status, MessageStatus::Pending);
}

#[test]
fn empty_proof_bytes_reject_the_call_and_keep_pending() {
    let mut p = pallet();
    let hash = p
        .submit_message(ChainId::Ethereum, ChainId::Polkadot, vec![1], Some(vec![]), 7, 42)
        .unwrap();
    let program_hash = Pallet::compute_program_hash(p.get_message(&hash).unwrap());
    p.add_verification_key(program_hash, vec![5; 64], None, 42).unwrap();
    let r = p.verify_message(&hash, Ok(true));
    assert!(matches!(r, Err(Error::InvalidProof)));
    assert_eq!(p.get_message(&hash).unwrap().status, MessageStatus::Pending);
}

#[test]
fn timestamp_outside_the_window_rejects_and_keeps_pending() {
    let mut p = Pallet::new(Config { min_timestamp: 100, ..config() });
    let hash = p
        .submit_message(ChainId::Ethereum, ChainId::Polkadot, vec![1], Some(vec![9]), 7, 42)
        .unwrap();
    let program_hash = Pallet::compute_program_hash(p.get_message(&hash).unwrap());
    p.add_verification_key(program_hash, vec![5; 64], None, 42).unwrap();
    let r = p.verify_message(&hash, Ok(true));
    assert!(matches!(r, Err(Error::InvalidChainId)));
    assert_eq!(p.get_message(&hash).unwrap().status, MessageStatus::Pending);
}

#[test]
fn key_registry_validates_and_round_trips() {
    let mut p = pallet();
    let r = p.add_verification_key([0u8; 32], vec![1], None, 1);
    assert!(matches!(r, Err(Error::InvalidKey)));
    let r = p.add_verification_key([1u8; 32], vec![], None, 1);
    assert!(matches!(r, Err(Error::InvalidKey)));
    let r = p.add_verification_key([1u8; 32], vec![9; 129], None, 1);
    assert!(matches!(r, Err(Error::KeyTooLarge)));
    assert!(p.get_verification_key(&[1u8; 32]).is_none());

    let r = p.add_verification_key([1u8; 32], vec![7, 8, 9], Some(vec![1]), 4);
    assert!(r.is_ok());
    let entry = p.get_verification_key(&[1u8; 32]).unwrap();
    assert_eq!(entry.program_hash, [1u8; 32]);
    assert_eq!(entry.key_bytes, vec![7, 8, 9]);
    assert_eq!(entry.added_at, 4);
    assert_eq!(entry.metadata, Some(vec![1]));
}

#[test]
fn eviction_removes_exactly_the_entries_at_or_past_max_age() {
    let mut p = pallet(); // max_program_age = 5
    p.cache_program([1u8; 32], vec![1], 10);
    p.cache_program([2u8; 32], vec![2], 12);
    // At time 14 the first entry is 4 old and survives; at 15 it is 5 old
    // and goes, while the second (3 old) stays.
    p.cleanup_program_cache(14);
    assert!(p.get_cached_program(&[1u8; 32]).is_some());
    assert!(p.get_cached_program(&[2u8; 32]).is_some());
    p.cleanup_program_cache(15);
    assert!(p.get_cached_program(&[1u8; 32]).is_none());
    assert!(p.get_cached_program(&[2u8; 32]).is_some());
    // Sweeping again at the same time changes nothing.
    p.cleanup_program_cache(15);
    assert!(p.get_cached_program(&[2u8; 32]).is_some());
}

#[test]
fn eviction_ignores_how_often_a_program_was_used() {
    let mut p = pallet();
    let hash = p
        .submit_message(ChainId::Ethereum, ChainId::Polkadot, vec![1], Some(vec![9]), 7, 10)
        .unwrap();
    let program_hash = Pallet::compute_program_hash(p.get_message(&hash).unwrap());
    p.add_verification_key(program_hash, vec![5; 64], None, 10).unwrap();
    p.cache_program(program_hash, vec![1], 10);
    p.verify_message(&hash, Ok(true)).unwrap();
    assert_eq!(p.get_cached_program(&program_hash).unwrap().use_count, 1);
    // Freshly touched, but young: survives.
    p.cleanup_program_cache(14);
    assert!(p.get_cached_program(&program_hash).is_some());
    // Touched or not, at max age it goes.
    p.cleanup_program_cache(15);
    assert!(p.get_cached_program(&program_hash).is_none());
}

#[test]
fn prepare_verification_hands_out_key_proof_and_statement_inputs() {
    let mut p = pallet();
    let hash = p
        .submit_message(
            ChainId::Ethereum,
            ChainId::Polkadot,
            vec![1, 2, 3],
            Some(vec![8, 8]),
            7,
            42,
        )
        .unwrap();
    let program_hash = Pallet::compute_program_hash(p.get_message(&hash).unwrap());
    p.add_verification_key(program_hash, vec![5; 64], None, 42).unwrap();
    let (context, params) = p.prepare_verification(&hash).unwrap().unwrap();
    assert_eq!(context.program, vec![5; 64]);
    assert_eq!(context.program_hash, program_hash);
    assert_eq!(params.proof, vec![8, 8]);
    assert_eq!(params.payload, vec![1, 2, 3]);
    assert_eq!(params.from_chain, 0);
    assert_eq!(params.to_chain, 1);
    assert_eq!(params.nonce, 0);
    assert_eq!(params.timestamp, 42);
}

#[test]
fn prepare_verification_is_a_no_op_without_a_proof() {
    let mut p = pallet();
    let hash = p
        .submit_message(ChainId::Ethereum, ChainId::Polkadot, vec![1], None, 7, 42)
        .unwrap();
    assert!(p.prepare_verification(&hash).unwrap().is_none());
}

#[test]
fn defaults_are_unknown_chain_and_pending_status() {
    assert_eq!(ChainId::default(), ChainId::Unknown);
    assert_eq!(MessageStatus::default(), MessageStatus::Pending);
}

#[test]
fn program_hash_holds_the_chain_codes() {
    let m = Message {
        from_chain: ChainId::Solana,
        to_chain: ChainId::Polkadot,
        sender: 1,
        payload: vec![],
        nonce: 0,
        timestamp: 0,
        status: MessageStatus::Pending,
        proof: None,
    };
    let h = Pallet::compute_program_hash(&m);
    assert_eq!(h[0], 2);
    assert_eq!(h[1], 1);
    assert!(h[2..].iter().all(|&b| b == 0));
}

#[test]
fn submission_is_recorded_as_an_event() {
    let mut p = pallet();
    let hash = p
        .submit_message(ChainId::Ethereum, ChainId::Polkadot, vec![1], None, 7, 1)
        .unwrap();
    match p.events().last().unwrap() {
        Event::MessageSubmitted { hash: h, from_chain, to_chain, sender } => {
            assert_eq!(*h, hash);
            assert_eq!(*from_chain, ChainId::Ethereum);
            assert_eq!(*to_chain, ChainId::Polkadot);
            assert_eq!(*sender, 7);
        },
        other => panic!("unexpected event: {:?}", other),
    }
}
