use zkbridge::{KeyError, ProgramCacheEntry, VerificationKeyEntry};

#[test]
fn test_verification_key_validation() {
    let valid_key = VerificationKeyEntry::new([1; 32], vec![1, 2, 3], 1, None);
    assert!(valid_key.validate().is_ok());

    let invalid_key = VerificationKeyEntry::new([0; 32], vec![], 1, None);
    assert!(invalid_key.validate().is_err());
}

#[test]
fn test_program_cache() {
    let mut entry = ProgramCacheEntry::new([1; 32], vec![1, 2, 3], 1);
    assert_eq!(entry.use_count, 0);

    entry.increment_use_count();
    assert_eq!(entry.use_count, 1);
}

#[test]
fn empty_key_bytes_rejected_before_zero_hash() {
    let entry = VerificationKeyEntry::new([0; 32], vec![], 5, None);
    assert!(matches!(entry.validate(), Err(KeyError::InvalidFormat)));
}

#[test]
fn zero_program_hash_rejected() {
    let entry = VerificationKeyEntry::new([0; 32], vec![9], 5, None);
    assert!(matches!(entry.validate(), Err(KeyError::InvalidProgramHash)));
}

#[test]
fn key_entry_keeps_its_fields() {
    let entry = VerificationKeyEntry::new([7; 32], vec![4, 5], 11, Some(vec![6]));
    assert_eq!(entry.program_hash, [7; 32]);
    assert_eq!(entry.key_bytes, vec![4, 5]);
    assert_eq!(entry.added_at, 11);
    assert_eq!(entry.metadata, Some(vec![6]));
    assert!(entry.validate().is_ok());
}

#[test]
fn use_count_saturates_at_maximum() {
    let mut entry = ProgramCacheEntry::new([1; 32], vec![], 0);
    entry.use_count = u64::MAX;
    entry.increment_use_count();
    assert_eq!(entry.use_count, u64::MAX);
}
