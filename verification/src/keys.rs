//! Verification-key registry entries and program-cache entries, with their
//! admission invariants: key bytes must be non-empty and the program hash must
//! not be the all-zero digest.

use vstd::prelude::*;
use vstd::slice::slice_to_vec;

verus! {

/// Errors arising from key and program admission checks.
#[derive(Clone, Copy, PartialEq, Eq, Structural, Debug)]
pub enum KeyError {
    /// Key bytes are malformed (here: empty).
    InvalidFormat,
    /// No entry under the requested program hash.
    NotFound,
    /// The program hash is the all-zero digest.
    InvalidProgramHash,
    /// Unclassified failure.
    SystemError,
}

/// A 32-byte digest in which every byte is zero; such a digest never
/// identifies a real program.
pub open spec fn is_zero_hash(h: Seq<u8>) -> bool {
    forall|i: int| 0 <= i < h.len() ==> h[i] == 0
}

/// A verification key stored under the hash of the program it belongs to.
pub struct VerificationKeyEntry {
    /// Hash of the program this key verifies proofs for.
    pub program_hash: [u8; 32],
    /// The serialized verification key.
    pub key_bytes: Vec<u8>,
    /// Logical clock value at which the key was added.
    pub added_at: u64,
    /// Optional free-form metadata.
    pub metadata: Option<Vec<u8>>,
}

/// Mathematical image of a `VerificationKeyEntry`.
#[verifier::ext_equal]
pub ghost struct KeyEntryModel {
    pub program_hash: Seq<u8>,
    pub key_bytes: Seq<u8>,
    pub added_at: u64,
    pub metadata: Option<Seq<u8>>,
}

impl View for VerificationKeyEntry {
    type V = KeyEntryModel;

    open spec fn view(&self) -> KeyEntryModel {
        KeyEntryModel {
            program_hash: self.program_hash@,
            key_bytes: self.key_bytes@,
            added_at: self.added_at,
            metadata: match self.metadata {
                Some(m) => Some(m@),
                None => None,
            },
        }
    }
}

impl VerificationKeyEntry {
    /// What `validate` decides: empty key bytes are rejected first, then the
    /// all-zero program hash; everything else is admitted.
    pub open spec fn validate_spec(&self) -> Result<(), KeyError> {
        if self.key_bytes@.len() == 0 {
            Err(KeyError::InvalidFormat)
        } else if is_zero_hash(self.program_hash@) {
            Err(KeyError::InvalidProgramHash)
        } else {
            Ok(())
        }
    }

    /// Build an entry from its parts.
    pub fn new(
        program_hash: [u8; 32],
        key_bytes: Vec<u8>,
        added_at: u64,
        metadata: Option<Vec<u8>>,
    ) -> (entry: Self)
        ensures
            entry@ == (KeyEntryModel {
                program_hash: program_hash@,
                key_bytes: key_bytes@,
                added_at,
                metadata: match metadata {
                    Some(m) => Some(m@),
                    None => None,
                },
            }),
    {
        Self { program_hash, key_bytes, added_at, metadata }
    }

    /// A copy of the entry, equal under the model.
    pub fn duplicate(&self) -> (r: Self)
        ensures
            r@ == self@,
    {
        let r = Self {
            program_hash: self.program_hash,
            key_bytes: slice_to_vec(self.key_bytes.as_slice()),
            added_at: self.added_at,
            metadata: match &self.metadata {
                Some(m) => Some(slice_to_vec(m.as_slice())),
                None => None,
            },
        };
        proof {
            assert(r@ =~= self@);
        }
        r
    }

    /// Check the admission invariant of the entry.
    pub fn validate(&self) -> (r: Result<(), KeyError>)
        ensures
            r == self.validate_spec(),
    {
        if self.key_bytes.len() == 0 {
            return Err(KeyError::InvalidFormat);
        }
        let mut i: usize = 0;
        let mut all_zero: bool = true;
        while i < 32
            invariant
                i <= 32,
                all_zero <==> (forall|j: int| 0 <= j < i ==> self.program_hash@[j] == 0),
            decreases 32 - i,
        {
            if self.program_hash[i] != 0 {
                all_zero = false;
            }
            i += 1;
        }
        if all_zero {
            Err(KeyError::InvalidProgramHash)
        } else {
            Ok(())
        }
    }
}

/// A cached program, aged by the logical clock and counting successful uses.
pub struct ProgramCacheEntry {
    /// Hash of the cached program.
    pub hash: [u8; 32],
    /// The program bytes themselves.
    pub bytes: Vec<u8>,
    /// Logical clock value at which the program was cached.
    pub cached_at: u64,
    /// How many times the program served a successful verification.
    pub use_count: u64,
}

/// Mathematical image of a `ProgramCacheEntry`.
#[verifier::ext_equal]
pub ghost struct CacheEntryModel {
    pub hash: Seq<u8>,
    pub bytes: Seq<u8>,
    pub cached_at: u64,
    pub use_count: u64,
}

impl View for ProgramCacheEntry {
    type V = CacheEntryModel;

    open spec fn view(&self) -> CacheEntryModel {
        CacheEntryModel {
            hash: self.hash@,
            bytes: self.bytes@,
            cached_at: self.cached_at,
            use_count: self.use_count,
        }
    }
}

impl ProgramCacheEntry {
    /// Build a fresh entry; a fresh entry has never been used.
    pub fn new(hash: [u8; 32], bytes: Vec<u8>, cached_at: u64) -> (entry: Self)
        ensures
            entry@ == (CacheEntryModel {
                hash: hash@,
                bytes: bytes@,
                cached_at,
                use_count: 0,
            }),
    {
        Self { hash, bytes, cached_at, use_count: 0 }
    }

    /// A copy of the entry, equal under the model.
    pub fn duplicate(&self) -> (r: Self)
        ensures
            r@ == self@,
    {
        let r = Self {
            hash: self.hash,
            bytes: slice_to_vec(self.bytes.as_slice()),
            cached_at: self.cached_at,
            use_count: self.use_count,
        };
        proof {
            assert(r@ =~= self@);
        }
        r
    }

    /// Count one more successful use, saturating at the largest representable
    /// count; nothing else about the entry changes.
    pub fn increment_use_count(&mut self)
        ensures
            final(self)@ == (CacheEntryModel {
                use_count: old(self).use_count.saturating_add(1),
                ..old(self)@
            }),
    {
        self.use_count = self.use_count.saturating_add(1);
    }
}

} // verus!
