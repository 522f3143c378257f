//! The message ledger: submission, nonce issuance, verification-key and
//! program administration, cache eviction, and the Pending → Verified/Failed
//! state machine.
//!
//! Every operation is one atomic step on the ledger state. The contracts
//! state each step as a function from the previous state model to the next,
//! so that sequences of calls can be reasoned about purely over the models.

use vstd::prelude::*;
use vstd::slice::slice_to_vec;
use crate::keys::{is_zero_hash, CacheEntryModel, KeyEntryModel, ProgramCacheEntry,
    VerificationKeyEntry};
use crate::store::{KvList, NonceStore};
use crate::verification::{backend_verdict_model, outcome_model, precheck_model, push_u64_be,
    u64_be_bytes, BackendFailure, BackendFailureModel, VerificationContext, VerificationError,
    VerificationErrorModel, VerificationParams};

verus! {

/// A supported chain, or the `Unknown` sentinel, which never identifies the
/// origin or destination of a real message.
#[derive(Clone, Copy, PartialEq, Eq, Structural, Debug)]
pub enum ChainId {
    Ethereum,
    Polkadot,
    Solana,
    Unknown,
}

impl ChainId {
    /// The numeric code of a chain, as used in the canonical statement.
    pub open spec fn code_spec(self) -> u64 {
        match self {
            ChainId::Ethereum => 0,
            ChainId::Polkadot => 1,
            ChainId::Solana => 2,
            ChainId::Unknown => 255,
        }
    }

    /// Numeric code of this chain.
    pub fn code(&self) -> (c: u64)
        ensures
            c == self.code_spec(),
    {
        match self {
            ChainId::Ethereum => 0,
            ChainId::Polkadot => 1,
            ChainId::Solana => 2,
            ChainId::Unknown => 255,
        }
    }
}

impl Default for ChainId {
    /// The default chain identifier is the `Unknown` sentinel.
    fn default() -> (r: Self)
        ensures
            r == ChainId::Unknown,
    {
        ChainId::Unknown
    }
}

/// Lifecycle state of a message: created `Pending`, moved exactly once to the
/// terminal `Verified` or `Failed`.
#[derive(Clone, Copy, PartialEq, Eq, Structural, Debug)]
pub enum MessageStatus {
    Pending,
    Verified,
    Failed,
}

impl Default for MessageStatus {
    /// A message starts out `Pending`.
    fn default() -> (r: Self)
        ensures
            r == MessageStatus::Pending,
    {
        MessageStatus::Pending
    }
}

/// A cross-chain message as the ledger records it.
#[derive(Debug)]
pub struct Message {
    /// Origin chain; never `Unknown`.
    pub from_chain: ChainId,
    /// Destination chain; never `Unknown`.
    pub to_chain: ChainId,
    /// Account that submitted the message.
    pub sender: u64,
    /// Payload bytes, bounded by the configured maximum.
    pub payload: Vec<u8>,
    /// Replay-protection nonce, issued by the ledger.
    pub nonce: u64,
    /// Logical clock value at submission.
    pub timestamp: u64,
    /// Lifecycle state.
    pub status: MessageStatus,
    /// Proof bytes, if a proof was attached at submission.
    pub proof: Option<Vec<u8>>,
}

/// Mathematical image of a `Message`.
#[verifier::ext_equal]
pub ghost struct MessageModel {
    pub from_chain: ChainId,
    pub to_chain: ChainId,
    pub sender: u64,
    pub payload: Seq<u8>,
    pub nonce: u64,
    pub timestamp: u64,
    pub status: MessageStatus,
    pub proof: Option<Seq<u8>>,
}

impl View for Message {
    type V = MessageModel;

    open spec fn view(&self) -> MessageModel {
        MessageModel {
            from_chain: self.from_chain,
            to_chain: self.to_chain,
            sender: self.sender,
            payload: self.payload@,
            nonce: self.nonce,
            timestamp: self.timestamp,
            status: self.status,
            proof: match self.proof {
                Some(p) => Some(p@),
                None => None,
            },
        }
    }
}

/// Errors the ledger reports to callers.
#[derive(Debug)]
pub enum Error {
    /// Payload longer than the configured maximum.
    PayloadTooLarge,
    /// No message under the given hash.
    MessageNotFound,
    /// Origin or destination chain is `Unknown`, or a chain code was out of
    /// range during verification.
    InvalidChainId,
    /// The proof bytes are unusable.
    InvalidProof,
    /// The message was already verified.
    AlreadyVerified,
    /// The message is no longer `Pending`.
    InvalidStatusTransition,
    /// The proof does not prove the statement, or the failure had no
    /// diagnostic bytes.
    VerificationFailed,
    /// Verification key longer than the configured maximum.
    KeyTooLarge,
    /// The key entry is malformed, or no key is registered for the program.
    InvalidKey,
    /// No program cached under the hash.
    ProgramNotFound,
    /// A backend failure, with its diagnostic bytes.
    Sp1Error(Vec<u8>),
}

/// Mathematical image of an `Error`.
#[verifier::ext_equal]
pub ghost enum ErrorModel {
    PayloadTooLarge,
    MessageNotFound,
    InvalidChainId,
    InvalidProof,
    AlreadyVerified,
    InvalidStatusTransition,
    VerificationFailed,
    KeyTooLarge,
    InvalidKey,
    ProgramNotFound,
    Sp1Error(Seq<u8>),
}

impl View for Error {
    type V = ErrorModel;

    open spec fn view(&self) -> ErrorModel {
        match self {
            Error::PayloadTooLarge => ErrorModel::PayloadTooLarge,
            Error::MessageNotFound => ErrorModel::MessageNotFound,
            Error::InvalidChainId => ErrorModel::InvalidChainId,
            Error::InvalidProof => ErrorModel::InvalidProof,
            Error::AlreadyVerified => ErrorModel::AlreadyVerified,
            Error::InvalidStatusTransition => ErrorModel::InvalidStatusTransition,
            Error::VerificationFailed => ErrorModel::VerificationFailed,
            Error::KeyTooLarge => ErrorModel::KeyTooLarge,
            Error::InvalidKey => ErrorModel::InvalidKey,
            Error::ProgramNotFound => ErrorModel::ProgramNotFound,
            Error::Sp1Error(b) => ErrorModel::Sp1Error(b@),
        }
    }
}

/// Observable record of a ledger step.
#[derive(Debug)]
pub enum Event {
    /// A message was admitted.
    MessageSubmitted { hash: [u8; 32], from_chain: ChainId, to_chain: ChainId, sender: u64 },
    /// A message reached `Verified`.
    MessageVerified { hash: [u8; 32], from_chain: ChainId, to_chain: ChainId },
    /// A message reached `Failed`, with the error that put it there.
    MessageVerificationFailed { hash: [u8; 32], error: VerificationError },
    /// A verification key was registered.
    VerificationKeyAdded { program_hash: [u8; 32] },
    /// A program was cached.
    ProgramCached { program_hash: [u8; 32] },
}

/// Mathematical image of an `Event`.
#[verifier::ext_equal]
pub ghost enum EventModel {
    MessageSubmitted { hash: Seq<u8>, from_chain: ChainId, to_chain: ChainId, sender: u64 },
    MessageVerified { hash: Seq<u8>, from_chain: ChainId, to_chain: ChainId },
    MessageVerificationFailed { hash: Seq<u8>, error: VerificationErrorModel },
    VerificationKeyAdded { program_hash: Seq<u8> },
    ProgramCached { program_hash: Seq<u8> },
}

impl View for Event {
    type V = EventModel;

    open spec fn view(&self) -> EventModel {
        match self {
            Event::MessageSubmitted { hash, from_chain, to_chain, sender } => {
                EventModel::MessageSubmitted {
                    hash: hash@,
                    from_chain: *from_chain,
                    to_chain: *to_chain,
                    sender: *sender,
                }
            },
            Event::MessageVerified { hash, from_chain, to_chain } => {
                EventModel::MessageVerified {
                    hash: hash@,
                    from_chain: *from_chain,
                    to_chain: *to_chain,
                }
            },
            Event::MessageVerificationFailed { hash, error } => {
                EventModel::MessageVerificationFailed { hash: hash@, error: error@ }
            },
            Event::VerificationKeyAdded { program_hash } => {
                EventModel::VerificationKeyAdded { program_hash: program_hash@ }
            },
            Event::ProgramCached { program_hash } => {
                EventModel::ProgramCached { program_hash: program_hash@ }
            },
        }
    }
}

/// Deployment-time configuration of the ledger.
#[derive(Clone, Copy, PartialEq, Eq, Structural, Debug)]
pub struct Config {
    /// Largest admissible payload, in bytes.
    pub max_payload_size: u64,
    /// Deposit reserved by the host for each submission.
    pub message_deposit: u64,
    /// Largest admissible verification key, in bytes.
    pub max_key_size: u64,
    /// Age (in logical clock units) at which a cached program expires.
    pub max_program_age: u64,
    /// Lower bound of the timestamp acceptance window.
    pub min_timestamp: u64,
    /// Upper bound of the timestamp acceptance window.
    pub max_timestamp: u64,
}

/// Mathematical image of the whole ledger state.
#[verifier::ext_equal]
pub ghost struct PalletModel {
    pub config: Config,
    pub messages: Map<Seq<u8>, MessageModel>,
    pub nonces: Map<(ChainId, u64), u64>,
    pub keys: Map<Seq<u8>, KeyEntryModel>,
    pub cache: Map<Seq<u8>, CacheEntryModel>,
    pub events: Seq<EventModel>,
}

/// The ledger and its stores.
pub struct Pallet {
    /// Deployment configuration; never changed by ledger operations.
    pub config: Config,
    messages: KvList<Message>,
    nonces: NonceStore,
    verification_keys: KvList<VerificationKeyEntry>,
    program_cache: KvList<ProgramCacheEntry>,
    events: Vec<Event>,
}

impl View for Pallet {
    type V = PalletModel;

    closed spec fn view(&self) -> PalletModel {
        PalletModel {
            config: self.config,
            messages: self.messages@,
            nonces: self.nonces@,
            keys: self.verification_keys@,
            cache: self.program_cache@,
            events: Seq::new(self.events@.len(), |i: int| self.events@[i]@),
        }
    }
}

impl Pallet {
    /// The stores are well-formed.
    pub closed spec fn wf(&self) -> bool {
        self.messages.wf() && self.nonces.wf() && self.verification_keys.wf()
            && self.program_cache.wf()
    }

    /// An empty ledger under the given configuration.
    pub fn new(config: Config) -> (r: Self)
        ensures
            r.wf(),
            r@ == (PalletModel {
                config,
                messages: Map::<Seq<u8>, MessageModel>::empty(),
                nonces: Map::<(ChainId, u64), u64>::empty(),
                keys: Map::<Seq<u8>, KeyEntryModel>::empty(),
                cache: Map::<Seq<u8>, CacheEntryModel>::empty(),
                events: Seq::<EventModel>::empty(),
            }),
    {
        let r = Pallet {
            config,
            messages: KvList::new(),
            nonces: NonceStore::new(),
            verification_keys: KvList::new(),
            program_cache: KvList::new(),
            events: Vec::new(),
        };
        proof {
            assert(r@.events =~= Seq::<EventModel>::empty());
        }
        r
    }
}

impl Message {
    /// A copy of the message, equal under the model.
    pub fn duplicate(&self) -> (r: Message)
        ensures
            r@ == self@,
    {
        let r = Message {
            from_chain: self.from_chain,
            to_chain: self.to_chain,
            sender: self.sender,
            payload: slice_to_vec(self.payload.as_slice()),
            nonce: self.nonce,
            timestamp: self.timestamp,
            status: self.status,
            proof: match &self.proof {
                Some(p) => Some(slice_to_vec(p.as_slice())),
                None => None,
            },
        };
        proof {
            assert(r@ =~= self@);
        }
        r
    }
}

/// Digest of the blake2b-256 hash function over a byte string.
pub uninterp spec fn blake2b_256(input: Seq<u8>) -> Seq<u8>;

/// Relies on `sp_runtime::traits::BlakeTwo256` (blake2b with a 32-byte
/// digest): the digest is a function of the input bytes alone.
#[verifier::external_body]
fn blake2_hash(input: &Vec<u8>) -> (r: [u8; 32])
    ensures
        r@ == blake2b_256(input@),
{
    let digest = <sp_runtime::traits::BlakeTwo256 as sp_runtime::traits::Hash>::hash(
        input.as_slice(),
    );
    digest.0
}

/// Numeric code of a message status, as used in the hashed record.
pub open spec fn status_code(s: MessageStatus) -> u8 {
    match s {
        MessageStatus::Pending => 0,
        MessageStatus::Verified => 1,
        MessageStatus::Failed => 2,
    }
}

/// The byte record a message's identifying hash is computed over: every
/// field of the record, lengths first where a field is variable-sized.
pub open spec fn message_record_bytes(m: MessageModel) -> Seq<u8> {
    u64_be_bytes(m.from_chain.code_spec()) + u64_be_bytes(m.to_chain.code_spec()) + u64_be_bytes(
        m.sender,
    ) + u64_be_bytes(m.payload.len() as u64) + m.payload + u64_be_bytes(m.nonce) + u64_be_bytes(
        m.timestamp,
    ) + seq![status_code(m.status)] + (match m.proof {
        None => seq![0u8],
        Some(p) => seq![1u8] + u64_be_bytes(p.len() as u64) + p,
    })
}

/// Identity of a message: the blake2b-256 digest of its record.
pub open spec fn message_hash_spec(m: MessageModel) -> Seq<u8> {
    blake2b_256(message_record_bytes(m))
}

/// Serialize a message into the record its hash is computed over.
pub fn encode_message_record(message: &Message) -> (r: Vec<u8>)
    ensures
        r@ == message_record_bytes(message@),
{
    let mut out: Vec<u8> = Vec::new();
    push_u64_be(&mut out, message.from_chain.code());
    push_u64_be(&mut out, message.to_chain.code());
    push_u64_be(&mut out, message.sender);
    push_u64_be(&mut out, message.payload.len() as u64);
    out.extend_from_slice(message.payload.as_slice());
    push_u64_be(&mut out, message.nonce);
    push_u64_be(&mut out, message.timestamp);
    out.push(match message.status {
        MessageStatus::Pending => 0,
        MessageStatus::Verified => 1,
        MessageStatus::Failed => 2,
    });
    match &message.proof {
        None => {
            out.push(0);
        },
        Some(p) => {
            out.push(1);
            push_u64_be(&mut out, p.len() as u64);
            out.extend_from_slice(p.as_slice());
        },
    }
    proof {
        assert(out@ =~= message_record_bytes(message@));
    }
    out
}

/// Compute the identifying hash of a message.
pub fn compute_message_hash(message: &Message) -> (r: [u8; 32])
    ensures
        r@ == message_hash_spec(message@),
{
    let record = encode_message_record(message);
    blake2_hash(&record)
}

/// The hash of the program that verifies messages for a chain pair: the two
/// chain codes in the first two bytes, zero elsewhere. A deployment derives
/// this differently; the derivation only has to be a pure function of the
/// pair.
pub open spec fn program_hash_spec(from_chain: ChainId, to_chain: ChainId) -> Seq<u8> {
    Seq::new(
        32,
        |i: int|
            if i == 0 {
                from_chain.code_spec() as u8
            } else if i == 1 {
                to_chain.code_spec() as u8
            } else {
                0u8
            },
    )
}

/// The counter stored for a pair, zero where none is stored yet.
pub open spec fn nonce_of(nonces: Map<(ChainId, u64), u64>, chain: ChainId, account: u64) -> u64 {
    if nonces.contains_key((chain, account)) {
        nonces[(chain, account)]
    } else {
        0u64
    }
}

/// Image of optional bytes.
pub open spec fn option_bytes_model(o: Option<Vec<u8>>) -> Option<Seq<u8>> {
    match o {
        Some(b) => Some(b@),
        None => None,
    }
}

/// Image of a submission result.
pub open spec fn submit_result_model(r: Result<[u8; 32], Error>) -> Result<Seq<u8>, ErrorModel> {
    match r {
        Ok(h) => Ok(h@),
        Err(e) => Err(e@),
    }
}

/// Image of a verification result at the ledger layer.
pub open spec fn ledger_result_model(r: Result<(), Error>) -> Result<(), ErrorModel> {
    match r {
        Ok(_) => Ok(()),
        Err(e) => Err(e@),
    }
}

/// How verification-domain errors surface to ledger callers.
pub open spec fn ledger_error_of(e: VerificationErrorModel) -> ErrorModel {
    match e {
        VerificationErrorModel::InvalidProofFormat => ErrorModel::InvalidProof,
        VerificationErrorModel::VerificationFailed => ErrorModel::VerificationFailed,
        VerificationErrorModel::InvalidInput => ErrorModel::InvalidChainId,
        VerificationErrorModel::SystemError => ErrorModel::VerificationFailed,
        VerificationErrorModel::BackendError(b) => ErrorModel::Sp1Error(b),
    }
}

/// The record a fresh submission stores.
pub open spec fn new_message_model(
    from_chain: ChainId,
    to_chain: ChainId,
    sender: u64,
    payload: Seq<u8>,
    proof: Option<Seq<u8>>,
    nonce: u64,
    now: u64,
) -> MessageModel {
    MessageModel {
        from_chain,
        to_chain,
        sender,
        payload,
        nonce,
        timestamp: now,
        status: MessageStatus::Pending,
        proof,
    }
}

/// One submission as a function of the ledger state: payloads over the
/// configured maximum are rejected, then `Unknown` chains; an admitted
/// message takes the pair's next nonce, is stamped with `now`, stored
/// `Pending` under its content hash, and the hash is returned.
pub open spec fn submit_step(
    pre: PalletModel,
    from_chain: ChainId,
    to_chain: ChainId,
    payload: Seq<u8>,
    proof: Option<Seq<u8>>,
    sender: u64,
    now: u64,
) -> (PalletModel, Result<Seq<u8>, ErrorModel>) {
    if payload.len() > pre.config.max_payload_size {
        (pre, Err(ErrorModel::PayloadTooLarge))
    } else if from_chain == ChainId::Unknown || to_chain == ChainId::Unknown {
        (pre, Err(ErrorModel::InvalidChainId))
    } else {
        let nonce = nonce_of(pre.nonces, from_chain, sender);
        let m = new_message_model(from_chain, to_chain, sender, payload, proof, nonce, now);
        let h = message_hash_spec(m);
        (
            PalletModel {
                messages: pre.messages.insert(h, m),
                nonces: pre.nonces.insert((from_chain, sender), (nonce + 1) as u64),
                events: pre.events.push(
                    EventModel::MessageSubmitted { hash: h, from_chain, to_chain, sender },
                ),
                ..pre
            },
            Ok(h),
        )
    }
}

impl Pallet {
    /// Issue the next nonce for a pair: return the stored counter (zero if
    /// none) and store its successor.
    fn get_next_nonce(&mut self, chain_id: ChainId, account: u64) -> (nonce: u64)
        requires
            old(self).wf(),
            nonce_of(old(self)@.nonces, chain_id, account) < u64::MAX,
        ensures
            final(self).wf(),
            nonce == nonce_of(old(self)@.nonces, chain_id, account),
            final(self)@ == (PalletModel {
                nonces: old(self)@.nonces.insert((chain_id, account), (nonce + 1) as u64),
                ..old(self)@
            }),
    {
        let nonce = self.nonces.get_or_zero(chain_id, account);
        self.nonces.set(chain_id, account, nonce + 1);
        proof {
            assert(self@ =~= (PalletModel {
                nonces: old(self)@.nonces.insert((chain_id, account), (nonce + 1) as u64),
                ..old(self)@
            }));
        }
        nonce
    }

    /// The nonce the next submission for this pair would take.
    pub fn peek_nonce(&self, chain_id: ChainId, account: u64) -> (nonce: u64)
        requires
            self.wf(),
        ensures
            nonce == nonce_of(self@.nonces, chain_id, account),
    {
        self.nonces.get_or_zero(chain_id, account)
    }

    /// Hash of the program that verifies this message, derived from its
    /// chain pair alone.
    pub fn compute_program_hash(message: &Message) -> (r: [u8; 32])
        ensures
            r@ == program_hash_spec(message.from_chain, message.to_chain),
    {
        let mut hash: [u8; 32] = [0u8; 32];
        hash[0] = match message.from_chain {
            ChainId::Ethereum => 0,
            ChainId::Polkadot => 1,
            ChainId::Solana => 2,
            ChainId::Unknown => 255,
        };
        hash[1] = match message.to_chain {
            ChainId::Ethereum => 0,
            ChainId::Polkadot => 1,
            ChainId::Solana => 2,
            ChainId::Unknown => 255,
        };
        proof {
            assert(hash@ =~= program_hash_spec(message.from_chain, message.to_chain));
        }
        hash
    }

    /// Admit a message: validate the payload bound and the chain pair, issue
    /// the pair's nonce, stamp the current logical time, store the record
    /// `Pending` under its content hash and return that hash. A rejected
    /// submission leaves the ledger exactly as it was.
    pub fn submit_message(
        &mut self,
        from_chain: ChainId,
        to_chain: ChainId,
        payload: Vec<u8>,
        proof: Option<Vec<u8>>,
        sender: u64,
        now: u64,
    ) -> (r: Result<[u8; 32], Error>)
        requires
            old(self).wf(),
            nonce_of(old(self)@.nonces, from_chain, sender) < u64::MAX,
        ensures
            final(self).wf(),
            ({
                let (post, res) = submit_step(
                    old(self)@,
                    from_chain,
                    to_chain,
                    payload@,
                    option_bytes_model(proof),
                    sender,
                    now,
                );
                final(self)@ == post && submit_result_model(r) == res
            }),
    {
        if payload.len() as u64 > self.config.max_payload_size {
            return Err(Error::PayloadTooLarge);
        }
        if from_chain == ChainId::Unknown || to_chain == ChainId::Unknown {
            return Err(Error::InvalidChainId);
        }
        let nonce = self.get_next_nonce(from_chain, sender);
        let message = Message {
            from_chain,
            to_chain,
            sender,
            payload,
            nonce,
            timestamp: now,
            status: MessageStatus::Pending,
            proof,
        };
        let hash = compute_message_hash(&message);
        self.messages.insert(hash, message);
        self.events.push(Event::MessageSubmitted { hash, from_chain, to_chain, sender });
        proof {
            let (post, res) = submit_step(
                old(self)@,
                from_chain,
                to_chain,
                payload@,
                option_bytes_model(proof),
                sender,
                now,
            );
            assert(self@.events =~= post.events);
            assert(self@ =~= post);
        }
        Ok(hash)
    }

    /// Look a message up by its hash.
    pub fn get_message(&self, message_hash: &[u8; 32]) -> (r: Option<&Message>)
        requires
            self.wf(),
        ensures
            match r {
                Some(m) => self@.messages.contains_key(message_hash@) && m@
                    == self@.messages[message_hash@],
                None => !self@.messages.contains_key(message_hash@),
            },
    {
        self.messages.get(message_hash)
    }

    /// Look a verification key up by its program hash.
    pub fn get_verification_key(&self, program_hash: &[u8; 32]) -> (r: Option<
        &VerificationKeyEntry,
    >)
        requires
            self.wf(),
        ensures
            match r {
                Some(e) => self@.keys.contains_key(program_hash@) && e@
                    == self@.keys[program_hash@],
                None => !self@.keys.contains_key(program_hash@),
            },
    {
        self.verification_keys.get(program_hash)
    }

    /// Look a cached program up by its hash.
    pub fn get_cached_program(&self, program_hash: &[u8; 32]) -> (r: Option<&ProgramCacheEntry>)
        requires
            self.wf(),
        ensures
            match r {
                Some(e) => self@.cache.contains_key(program_hash@) && e@
                    == self@.cache[program_hash@],
                None => !self@.cache.contains_key(program_hash@),
            },
    {
        self.program_cache.get(program_hash)
    }

    /// The events recorded so far, oldest first.
    pub fn events(&self) -> (r: &Vec<Event>)
        ensures
            r@.len() == self@.events.len(),
            forall|i: int| 0 <= i < r@.len() ==> (#[trigger] r@[i])@ == self@.events[i],
    {
        &self.events
    }
}

/// Saturating successor of a counter.
pub open spec fn sat_inc(c: u64) -> u64 {
    if c == u64::MAX {
        u64::MAX
    } else {
        (c + 1) as u64
    }
}

/// One successful use of a cached program: its use count rises by one,
/// saturating; a hash with nothing cached leaves the cache unchanged.
pub open spec fn touch_cache(cache: Map<Seq<u8>, CacheEntryModel>, ph: Seq<u8>) -> Map<
    Seq<u8>,
    CacheEntryModel,
> {
    if cache.contains_key(ph) {
        cache.insert(ph, CacheEntryModel { use_count: sat_inc(cache[ph].use_count), ..cache[ph] })
    } else {
        cache
    }
}

/// One verification as a function of the ledger state and the backend's
/// answer. An unknown hash, a message no longer `Pending`, a missing key or
/// a failed pre-backend check leaves the state untouched and reports the
/// error; a message without a proof succeeds untouched. Otherwise the
/// backend's answer decides: success moves the message to `Verified` and
/// counts one use of the resolved program; any failure moves it to `Failed`;
/// both are recorded as events and both transitions are terminal.
pub open spec fn verify_step(
    pre: PalletModel,
    h: Seq<u8>,
    outcome: Result<bool, BackendFailureModel>,
) -> (PalletModel, Result<(), ErrorModel>) {
    if !pre.messages.contains_key(h) {
        (pre, Err(ErrorModel::MessageNotFound))
    } else {
        let m = pre.messages[h];
        if m.status != MessageStatus::Pending {
            (pre, Err(ErrorModel::InvalidStatusTransition))
        } else {
            match m.proof {
                None => (pre, Ok(())),
                Some(proof) => {
                    let ph = program_hash_spec(m.from_chain, m.to_chain);
                    if !pre.keys.contains_key(ph) {
                        (pre, Err(ErrorModel::InvalidKey))
                    } else {
                        match precheck_model(
                            proof.len(),
                            m.from_chain.code_spec(),
                            m.to_chain.code_spec(),
                            m.timestamp,
                            pre.config.min_timestamp,
                            pre.config.max_timestamp,
                        ) {
                            Err(e) => (pre, Err(ledger_error_of(e))),
                            Ok(_) => match backend_verdict_model(outcome) {
                                Ok(_) => (
                                    PalletModel {
                                        messages: pre.messages.insert(
                                            h,
                                            MessageModel { status: MessageStatus::Verified, ..m },
                                        ),
                                        cache: touch_cache(pre.cache, ph),
                                        events: pre.events.push(
                                            EventModel::MessageVerified {
                                                hash: h,
                                                from_chain: m.from_chain,
                                                to_chain: m.to_chain,
                                            },
                                        ),
                                        ..pre
                                    },
                                    Ok(()),
                                ),
                                Err(e) => (
                                    PalletModel {
                                        messages: pre.messages.insert(
                                            h,
                                            MessageModel { status: MessageStatus::Failed, ..m },
                                        ),
                                        events: pre.events.push(
                                            EventModel::MessageVerificationFailed {
                                                hash: h,
                                                error: e,
                                            },
                                        ),
                                        ..pre
                                    },
                                    Err(ledger_error_of(e)),
                                ),
                            },
                        }
                    }
                },
            }
        }
    }
}

/// Turn a verification-domain error into the error the ledger reports.
fn map_verification_error(e: VerificationError) -> (r: Error)
    ensures
        r@ == ledger_error_of(e@),
{
    match e {
        VerificationError::InvalidProofFormat => Error::InvalidProof,
        VerificationError::VerificationFailed => Error::VerificationFailed,
        VerificationError::InvalidInput => Error::InvalidChainId,
        VerificationError::SystemError => Error::VerificationFailed,
        VerificationError::BackendError(b) => Error::Sp1Error(b),
    }
}

/// One key registration as a function of the ledger state: oversized keys
/// are rejected, then empty key bytes and the all-zero program hash; an
/// admitted entry overwrites whatever was stored for the hash.
pub open spec fn add_key_step(
    pre: PalletModel,
    program_hash: Seq<u8>,
    key_bytes: Seq<u8>,
    metadata: Option<Seq<u8>>,
    now: u64,
) -> (PalletModel, Result<(), ErrorModel>) {
    if key_bytes.len() > pre.config.max_key_size {
        (pre, Err(ErrorModel::KeyTooLarge))
    } else if key_bytes.len() == 0 || is_zero_hash(program_hash) {
        (pre, Err(ErrorModel::InvalidKey))
    } else {
        (
            PalletModel {
                keys: pre.keys.insert(
                    program_hash,
                    KeyEntryModel { program_hash, key_bytes, added_at: now, metadata },
                ),
                events: pre.events.push(EventModel::VerificationKeyAdded { program_hash }),
                ..pre
            },
            Ok(()),
        )
    }
}

/// One program caching as a function of the ledger state: the entry is
/// stored fresh — overwriting counts as inserting a new program version, so
/// the use count starts again at zero.
pub open spec fn cache_program_step(
    pre: PalletModel,
    program_hash: Seq<u8>,
    program_bytes: Seq<u8>,
    now: u64,
) -> PalletModel {
    PalletModel {
        cache: pre.cache.insert(
            program_hash,
            CacheEntryModel { hash: program_hash, bytes: program_bytes, cached_at: now, use_count: 0 },
        ),
        events: pre.events.push(EventModel::ProgramCached { program_hash }),
        ..pre
    }
}

/// Age of a cache entry at logical time `now`; an entry stamped in the
/// future has age zero.
pub open spec fn age_of(cached_at: u64, now: u64) -> u64 {
    if now >= cached_at {
        (now - cached_at) as u64
    } else {
        0u64
    }
}

/// Whether a cache entry has reached the configured maximum age.
pub open spec fn expired(entry: CacheEntryModel, now: u64, max_age: u64) -> bool {
    age_of(entry.cached_at, now) >= max_age
}

/// The cache after one eviction sweep: exactly the entries that have not
/// reached the maximum age survive, unchanged.
pub open spec fn evict_model(
    cache: Map<Seq<u8>, CacheEntryModel>,
    now: u64,
    max_age: u64,
) -> Map<Seq<u8>, CacheEntryModel> {
    Map::new(
        |k: Seq<u8>| cache.contains_key(k) && !expired(cache[k], now, max_age),
        |k: Seq<u8>| cache[k],
    )
}

/// A verification call on this hash would reach the backend: the message
/// exists, is still `Pending`, carries a proof, a key is registered for its
/// program, and the pre-backend checks pass.
pub open spec fn ready_for_backend(pre: PalletModel, h: Seq<u8>) -> bool {
    pre.messages.contains_key(h) && {
        let m = pre.messages[h];
        m.status == MessageStatus::Pending && (match m.proof {
            None => false,
            Some(p) => pre.keys.contains_key(program_hash_spec(m.from_chain, m.to_chain))
                && precheck_model(
                p.len(),
                m.from_chain.code_spec(),
                m.to_chain.code_spec(),
                m.timestamp,
                pre.config.min_timestamp,
                pre.config.max_timestamp,
            ) is Ok,
        })
    }
}

/// Law: nonces issued to one (origin chain, sender) pair by two successive
/// admitted submissions are consecutive — the second message carries a nonce
/// one higher than the first, and the stored counter has advanced by two.
pub proof fn lemma_nonce_strictly_increasing(
    pre: PalletModel,
    from_chain: ChainId,
    to_chain: ChainId,
    payload1: Seq<u8>,
    proof1: Option<Seq<u8>>,
    payload2: Seq<u8>,
    proof2: Option<Seq<u8>>,
    sender: u64,
    now1: u64,
    now2: u64,
)
    requires
        payload1.len() <= pre.config.max_payload_size,
        payload2.len() <= pre.config.max_payload_size,
        from_chain != ChainId::Unknown,
        to_chain != ChainId::Unknown,
        nonce_of(pre.nonces, from_chain, sender) + 1 < u64::MAX,
    ensures
        ({
            let first = nonce_of(pre.nonces, from_chain, sender);
            let (s1, r1) = submit_step(pre, from_chain, to_chain, payload1, proof1, sender, now1);
            let (s2, r2) = submit_step(s1, from_chain, to_chain, payload2, proof2, sender, now2);
            &&& r1 matches Ok(h1)
            &&& s1.messages.contains_key(h1)
            &&& s1.messages[h1].nonce == first
            &&& r2 matches Ok(h2)
            &&& s2.messages.contains_key(h2)
            &&& s2.messages[h2].nonce == first + 1
            &&& nonce_of(s2.nonces, from_chain, sender) == first + 2
        }),
{
}

/// Law: once a verification call has decided a message (the backend was
/// reached, so the message left `Pending`), a second call on the same hash
/// is rejected with `InvalidStatusTransition` and changes nothing — whatever
/// either backend answer was.
pub proof fn lemma_verify_twice_rejected(
    pre: PalletModel,
    h: Seq<u8>,
    outcome1: Result<bool, BackendFailureModel>,
    outcome2: Result<bool, BackendFailureModel>,
)
    requires
        ready_for_backend(pre, h),
    ensures
        ({
            let (s1, r1) = verify_step(pre, h, outcome1);
            let (s2, r2) = verify_step(s1, h, outcome2);
            s2 == s1 && r2 == Err::<(), ErrorModel>(ErrorModel::InvalidStatusTransition)
        }),
{
    let (s1, r1) = verify_step(pre, h, outcome1);
    assert(s1.messages.contains_key(h));
    assert(s1.messages[h].status != MessageStatus::Pending);
}

/// Law: a verification call on a hash the ledger does not know fails with
/// `MessageNotFound` and changes nothing.
pub proof fn lemma_verify_unknown_hash(
    pre: PalletModel,
    h: Seq<u8>,
    outcome: Result<bool, BackendFailureModel>,
)
    requires
        !pre.messages.contains_key(h),
    ensures
        verify_step(pre, h, outcome) == (pre, Err::<(), ErrorModel>(ErrorModel::MessageNotFound)),
{
}

/// Law: the eviction sweep is idempotent — sweeping again at the same time
/// removes nothing further.
pub proof fn lemma_evict_idempotent(cache: Map<Seq<u8>, CacheEntryModel>, now: u64, max_age: u64)
    ensures
        evict_model(evict_model(cache, now, max_age), now, max_age) == evict_model(
            cache,
            now,
            max_age,
        ),
{
    assert(evict_model(evict_model(cache, now, max_age), now, max_age) =~= evict_model(
        cache,
        now,
        max_age,
    ));
}

/// Law: counting a use of a cached program never changes which entries an
/// eviction sweep keeps: survival depends on the caching time alone.
pub proof fn lemma_touch_preserves_survival(
    cache: Map<Seq<u8>, CacheEntryModel>,
    ph: Seq<u8>,
    now: u64,
    max_age: u64,
)
    ensures
        forall|k: Seq<u8>|
            evict_model(touch_cache(cache, ph), now, max_age).contains_key(k) <==> evict_model(
                cache,
                now,
                max_age,
            ).contains_key(k),
{
    assert forall|k: Seq<u8>|
        evict_model(touch_cache(cache, ph), now, max_age).contains_key(k) <==> evict_model(
            cache,
            now,
            max_age,
        ).contains_key(k) by {
        if cache.contains_key(ph) && k == ph {
            assert(touch_cache(cache, ph)[k].cached_at == cache[k].cached_at);
        }
    }
}

/// Law: a key the registry admits round-trips exactly — after a successful
/// registration, the entry stored under the program hash is precisely the
/// one described by the arguments.
pub proof fn lemma_key_roundtrip(
    pre: PalletModel,
    program_hash: Seq<u8>,
    key_bytes: Seq<u8>,
    metadata: Option<Seq<u8>>,
    now: u64,
)
    requires
        key_bytes.len() > 0,
        key_bytes.len() <= pre.config.max_key_size,
        !is_zero_hash(program_hash),
    ensures
        ({
            let (post, res) = add_key_step(pre, program_hash, key_bytes, metadata, now);
            res is Ok && post.keys.contains_key(program_hash) && post.keys[program_hash] == (
            KeyEntryModel { program_hash, key_bytes, added_at: now, metadata })
        }),
{
}

impl Pallet {
    /// Decide a verification call, the backend's answer in hand. The answer
    /// is consulted only when the message is `Pending` with a proof
    /// attached, a key is registered for its program and the pre-backend
    /// checks pass; every other case leaves the ledger untouched.
    pub fn verify_message(&mut self, message_hash: &[u8; 32], outcome: Result<
        bool,
        BackendFailure,
    >) -> (r: Result<(), Error>)
        requires
            old(self).wf(),
        ensures
            final(self).wf(),
            ({
                let (post, res) = verify_step(old(self)@, message_hash@, outcome_model(outcome));
                final(self)@ == post && ledger_result_model(r) == res
            }),
    {
        let message = {
            match self.messages.get(message_hash) {
                None => {
                    return Err(Error::MessageNotFound);
                },
                Some(found) => {
                    if !(found.status == MessageStatus::Pending) {
                        return Err(Error::InvalidStatusTransition);
                    }
                    found.duplicate()
                },
            }
        };
        let attached = &message.proof;
        let proof_bytes = match attached {
            None => {
                return Ok(());
            },
            Some(p) => slice_to_vec(p.as_slice()),
        };
        let program_hash = Self::compute_program_hash(&message);
        if self.verification_keys.get(&program_hash).is_none() {
            return Err(Error::InvalidKey);
        }
        let params = VerificationParams {
            proof: proof_bytes,
            payload: slice_to_vec(message.payload.as_slice()),
            from_chain: message.from_chain.code(),
            to_chain: message.to_chain.code(),
            nonce: message.nonce,
            timestamp: message.timestamp,
        };
        match crate::verification::precheck_params(
            &params,
            self.config.min_timestamp,
            self.config.max_timestamp,
        ) {
            Err(e) => {
                return Err(map_verification_error(e));
            },
            Ok(_) => {},
        }
        let from_chain = message.from_chain;
        let to_chain = message.to_chain;
        match crate::verification::backend_verdict(outcome) {
            Ok(_) => {
                let mut updated = message;
                updated.status = MessageStatus::Verified;
                self.messages.insert(*message_hash, updated);
                let cached = match self.program_cache.get(&program_hash) {
                    Some(entry) => Some(entry.duplicate()),
                    None => None,
                };
                match cached {
                    Some(mut entry) => {
                        entry.increment_use_count();
                        self.program_cache.insert(program_hash, entry);
                    },
                    None => {},
                }
                self.events.push(
                    Event::MessageVerified { hash: *message_hash, from_chain, to_chain },
                );
                proof {
                    let (post, res) = verify_step(
                        old(self)@,
                        message_hash@,
                        outcome_model(outcome),
                    );
                    assert(self@.cache =~= post.cache);
                    assert(self@.events =~= post.events);
                    assert(self@ =~= post);
                }
                Ok(())
            },
            Err(e) => {
                let returned = e.duplicate();
                let mut updated = message;
                updated.status = MessageStatus::Failed;
                self.messages.insert(*message_hash, updated);
                self.events.push(
                    Event::MessageVerificationFailed { hash: *message_hash, error: e },
                );
                proof {
                    let (post, res) = verify_step(
                        old(self)@,
                        message_hash@,
                        outcome_model(outcome),
                    );
                    assert(self@.events =~= post.events);
                    assert(self@ =~= post);
                }
                Err(map_verification_error(returned))
            },
        }
    }

    /// What a verification call needs from the ledger before the backend
    /// can run: the registered key or program bytes as the context, and the
    /// message's proof and public facts as the parameters. `Ok(None)` means
    /// the message carries no proof, so there is nothing for a backend to
    /// do; errors mirror `verify_message` for the cases decided before the
    /// backend.
    pub fn prepare_verification(&self, message_hash: &[u8; 32]) -> (r: Result<
        Option<(VerificationContext, VerificationParams)>,
        Error,
    >)
        requires
            self.wf(),
        ensures
            ({
                let pre = self@;
                let h = message_hash@;
                if !pre.messages.contains_key(h) {
                    r matches Err(e) && e@ == ErrorModel::MessageNotFound
                } else {
                    let m = pre.messages[h];
                    if m.status != MessageStatus::Pending {
                        r matches Err(e) && e@ == ErrorModel::InvalidStatusTransition
                    } else {
                        match m.proof {
                            None => r matches Ok(None),
                            Some(proof) => {
                                let ph = program_hash_spec(m.from_chain, m.to_chain);
                                if !pre.keys.contains_key(ph) {
                                    r matches Err(e) && e@ == ErrorModel::InvalidKey
                                } else {
                                    match precheck_model(
                                        proof.len(),
                                        m.from_chain.code_spec(),
                                        m.to_chain.code_spec(),
                                        m.timestamp,
                                        pre.config.min_timestamp,
                                        pre.config.max_timestamp,
                                    ) {
                                        Err(e0) => r matches Err(e) && e@ == ledger_error_of(e0),
                                        Ok(_) => r matches Ok(Some((context, params)))
                                            && context.program@ == pre.keys[ph].key_bytes
                                            && context.program_hash@ == ph && params.proof@
                                            == proof && params.payload@ == m.payload
                                            && params.from_chain == m.from_chain.code_spec()
                                            && params.to_chain == m.to_chain.code_spec()
                                            && params.nonce == m.nonce && params.timestamp
                                            == m.timestamp,
                                    }
                                }
                            },
                        }
                    }
                }
            }),
    {
        let message = {
            match self.messages.get(message_hash) {
                None => {
                    return Err(Error::MessageNotFound);
                },
                Some(found) => {
                    if !(found.status == MessageStatus::Pending) {
                        return Err(Error::InvalidStatusTransition);
                    }
                    found.duplicate()
                },
            }
        };
        let attached = &message.proof;
        let proof_bytes = match attached {
            None => {
                return Ok(None);
            },
            Some(p) => slice_to_vec(p.as_slice()),
        };
        let program_hash = Self::compute_program_hash(&message);
        let key_bytes = match self.verification_keys.get(&program_hash) {
            None => {
                return Err(Error::InvalidKey);
            },
            Some(entry) => slice_to_vec(entry.key_bytes.as_slice()),
        };
        let params = VerificationParams {
            proof: proof_bytes,
            payload: slice_to_vec(message.payload.as_slice()),
            from_chain: message.from_chain.code(),
            to_chain: message.to_chain.code(),
            nonce: message.nonce,
            timestamp: message.timestamp,
        };
        match crate::verification::precheck_params(
            &params,
            self.config.min_timestamp,
            self.config.max_timestamp,
        ) {
            Err(e) => {
                return Err(map_verification_error(e));
            },
            Ok(_) => {},
        }
        let context = VerificationContext::new(key_bytes, program_hash);
        Ok(Some((context, params)))
    }

    /// Register (or overwrite) the verification key for a program. The host
    /// restricts this to its privileged caller.
    pub fn add_verification_key(
        &mut self,
        program_hash: [u8; 32],
        key_bytes: Vec<u8>,
        metadata: Option<Vec<u8>>,
        now: u64,
    ) -> (r: Result<(), Error>)
        requires
            old(self).wf(),
        ensures
            final(self).wf(),
            ({
                let (post, res) = add_key_step(
                    old(self)@,
                    program_hash@,
                    key_bytes@,
                    option_bytes_model(metadata),
                    now,
                );
                final(self)@ == post && ledger_result_model(r) == res
            }),
    {
        if key_bytes.len() as u64 > self.config.max_key_size {
            return Err(Error::KeyTooLarge);
        }
        let entry = VerificationKeyEntry::new(program_hash, key_bytes, now, metadata);
        match entry.validate() {
            Err(_) => {
                return Err(Error::InvalidKey);
            },
            Ok(_) => {},
        }
        self.verification_keys.insert(program_hash, entry);
        self.events.push(Event::VerificationKeyAdded { program_hash });
        proof {
            let (post, res) = add_key_step(
                old(self)@,
                program_hash@,
                key_bytes@,
                option_bytes_model(metadata),
                now,
            );
            assert(self@.events =~= post.events);
            assert(self@ =~= post);
        }
        Ok(())
    }

    /// Cache (or overwrite) the program stored under a hash; a cached
    /// program starts with a use count of zero. The host restricts this to
    /// its privileged caller.
    pub fn cache_program(&mut self, program_hash: [u8; 32], program_bytes: Vec<u8>, now: u64)
        requires
            old(self).wf(),
        ensures
            final(self).wf(),
            final(self)@ == cache_program_step(old(self)@, program_hash@, program_bytes@, now),
    {
        let entry = ProgramCacheEntry::new(program_hash, program_bytes, now);
        self.program_cache.insert(program_hash, entry);
        self.events.push(Event::ProgramCached { program_hash });
        proof {
            let post = cache_program_step(old(self)@, program_hash@, program_bytes@, now);
            assert(self@.events =~= post.events);
            assert(self@ =~= post);
        }
    }

    /// Sweep the program cache: remove exactly the entries that have
    /// reached the configured maximum age, and touch nothing else. Running
    /// the sweep again at the same time changes nothing.
    pub fn cleanup_program_cache(&mut self, now: u64)
        requires
            old(self).wf(),
        ensures
            final(self).wf(),
            final(self)@ == (PalletModel {
                cache: evict_model(old(self)@.cache, now, old(self)@.config.max_program_age),
                ..old(self)@
            }),
    {
        let max_age = self.config.max_program_age;
        let keys_list = self.program_cache.keys_vec();
        let ghost old_cache = self.program_cache@;
        let n = keys_list.len();
        let mut i: usize = 0;
        while i < n
            invariant
                self.messages.wf(),
                self.nonces.wf(),
                self.verification_keys.wf(),
                self.program_cache.wf(),
                self.messages@ == old(self).messages@,
                self.nonces@ == old(self).nonces@,
                self.verification_keys@ == old(self).verification_keys@,
                self.events@ == old(self).events@,
                self.config == old(self).config,
                old_cache == old(self).program_cache@,
                n == keys_list@.len(),
                i <= n,
                forall|j: int| 0 <= j < n ==> old_cache.contains_key(#[trigger] keys_list@[j]@),
                forall|k: Seq<u8>|
                    #[trigger] old_cache.contains_key(k) ==> exists|j: int|
                        0 <= j < n && #[trigger] keys_list@[j]@ == k,
                forall|j1: int, j2: int|
                    0 <= j1 < j2 < n ==> keys_list@[j1]@ != keys_list@[j2]@,
                forall|k: Seq<u8>|
                    #[trigger] self.program_cache@.contains_key(k) ==> old_cache.contains_key(k)
                        && self.program_cache@[k] == old_cache[k],
                forall|k: Seq<u8>|
                    #[trigger] self.program_cache@.contains_key(k) <==> (old_cache.contains_key(k)
                        && !(expired(old_cache[k], now, max_age) && (exists|j: int|
                        0 <= j < i && #[trigger] keys_list@[j]@ == k))),
            decreases n - i,
        {
            let key_i = keys_list[i];
            let cached_at_opt = match self.program_cache.get(&key_i) {
                Some(entry) => Some(entry.cached_at),
                None => None,
            };
            match cached_at_opt {
                Some(cached_at) => {
                    let age = if now >= cached_at {
                        now - cached_at
                    } else {
                        0
                    };
                    if age >= max_age {
                        self.program_cache.remove(&key_i);
                    }
                },
                None => {
                    proof {
                        assert(old_cache.contains_key(keys_list@[i as int]@));
                        assert(false);
                    }
                },
            }
            i += 1;
        }
        proof {
            assert forall|k: Seq<u8>| true implies #[trigger] self.program_cache@.contains_key(k)
                == (old_cache.contains_key(k) && !expired(old_cache[k], now, max_age)) by {
                if old_cache.contains_key(k) {
                    let j = choose|j: int| 0 <= j < n && keys_list@[j]@ == k;
                    assert(0 <= j < i);
                }
            }
            assert(self.program_cache@ =~= evict_model(old_cache, now, max_age));
            assert(self@ =~= (PalletModel {
                cache: evict_model(old(self)@.cache, now, old(self)@.config.max_program_age),
                ..old(self)@
            }));
        }
    }
}

} // verus!
