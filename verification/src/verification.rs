//! Proof verification engine.
//!
//! The engine decides whether proof bytes attest to a message's canonical
//! statement under a registered key. Checking the proof itself is the
//! backend's work and happens outside this crate, at the single suspension
//! point of a verification call; the engine validates everything that comes
//! before that call (steps on proof shape, chain range and timestamp window),
//! builds the canonical statement bytes, and turns the backend's answer into
//! the verdict. The verdict is a pure function of those inputs: identical
//! parameters and an identical backend answer always give the identical
//! outcome.

use vstd::prelude::*;
use vstd::slice::slice_to_vec;

verus! {

/// Errors of the verification domain.
#[derive(Debug)]
pub enum VerificationError {
    /// The proof bytes are empty or not in the backend's format.
    InvalidProofFormat,
    /// The proof was well-formed but does not prove the statement.
    VerificationFailed,
    /// A statement parameter is out of range.
    InvalidInput,
    /// An uncategorized failure.
    SystemError,
    /// A backend failure, with the backend's diagnostic bytes kept verbatim.
    BackendError(Vec<u8>),
}

/// Mathematical image of a `VerificationError`.
#[verifier::ext_equal]
pub ghost enum VerificationErrorModel {
    InvalidProofFormat,
    VerificationFailed,
    InvalidInput,
    SystemError,
    BackendError(Seq<u8>),
}

impl View for VerificationError {
    type V = VerificationErrorModel;

    open spec fn view(&self) -> VerificationErrorModel {
        match self {
            VerificationError::InvalidProofFormat => VerificationErrorModel::InvalidProofFormat,
            VerificationError::VerificationFailed => VerificationErrorModel::VerificationFailed,
            VerificationError::InvalidInput => VerificationErrorModel::InvalidInput,
            VerificationError::SystemError => VerificationErrorModel::SystemError,
            VerificationError::BackendError(b) => VerificationErrorModel::BackendError(b@),
        }
    }
}

impl VerificationError {
    /// A copy of the error, equal under the model.
    pub fn duplicate(&self) -> (r: Self)
        ensures
            r@ == self@,
    {
        match self {
            VerificationError::InvalidProofFormat => VerificationError::InvalidProofFormat,
            VerificationError::VerificationFailed => VerificationError::VerificationFailed,
            VerificationError::InvalidInput => VerificationError::InvalidInput,
            VerificationError::SystemError => VerificationError::SystemError,
            VerificationError::BackendError(b) => VerificationError::BackendError(
                slice_to_vec(b.as_slice()),
            ),
        }
    }
}

/// What the proof backend reported, classified by the caller that ran it:
/// either a yes/no answer, or a failure in one of the backend's categories.
#[derive(Debug)]
pub enum BackendFailure {
    /// The backend rejected the program or the proof's encoding.
    Program(Vec<u8>),
    /// The backend ran but reports the proof as failing.
    Rejected(Vec<u8>),
    /// The backend rejected the statement bytes.
    Input(Vec<u8>),
    /// Any other backend failure, with diagnostic bytes.
    Other(Vec<u8>),
    /// A failure the backend did not describe.
    Unknown,
}

/// Mathematical image of a `BackendFailure`.
#[verifier::ext_equal]
pub ghost enum BackendFailureModel {
    Program(Seq<u8>),
    Rejected(Seq<u8>),
    Input(Seq<u8>),
    Other(Seq<u8>),
    Unknown,
}

impl View for BackendFailure {
    type V = BackendFailureModel;

    open spec fn view(&self) -> BackendFailureModel {
        match self {
            BackendFailure::Program(b) => BackendFailureModel::Program(b@),
            BackendFailure::Rejected(b) => BackendFailureModel::Rejected(b@),
            BackendFailure::Input(b) => BackendFailureModel::Input(b@),
            BackendFailure::Other(b) => BackendFailureModel::Other(b@),
            BackendFailure::Unknown => BackendFailureModel::Unknown,
        }
    }
}

/// Result of a verification: success, or the error kind.
pub type VerificationResult = Result<(), VerificationError>;

/// Image of a backend outcome.
pub open spec fn outcome_model(o: Result<bool, BackendFailure>) -> Result<
    bool,
    BackendFailureModel,
> {
    match o {
        Ok(b) => Ok(b),
        Err(f) => Err(f@),
    }
}

/// Image of a verification result.
pub open spec fn vres_model(r: VerificationResult) -> Result<(), VerificationErrorModel> {
    match r {
        Ok(_) => Ok(()),
        Err(e) => Err(e@),
    }
}

/// Context a proof is verified in: the registered key or program bytes, and
/// the hash of the program they belong to.
#[derive(Debug)]
pub struct VerificationContext {
    /// Verification key or program bytes, as the registry stores them.
    pub program: Vec<u8>,
    /// Hash of the program.
    pub program_hash: [u8; 32],
}

impl VerificationContext {
    /// Build a context from key or program bytes and the program hash.
    pub fn new(program: Vec<u8>, program_hash: [u8; 32]) -> (r: Self)
        ensures
            r.program@ == program@,
            r.program_hash@ == program_hash@,
    {
        Self { program, program_hash }
    }
}

/// Parameters of one verification: the proof and the public facts the proof
/// must attest to, in the one canonical shape this engine supports — the
/// raw fields, which the engine itself serializes into the canonical
/// statement. Chain identifiers appear as their numeric codes.
#[derive(Debug)]
pub struct VerificationParams {
    /// Proof bytes.
    pub proof: Vec<u8>,
    /// Message payload.
    pub payload: Vec<u8>,
    /// Numeric code of the origin chain.
    pub from_chain: u64,
    /// Numeric code of the destination chain.
    pub to_chain: u64,
    /// Message nonce.
    pub nonce: u64,
    /// Message timestamp (logical clock at submission).
    pub timestamp: u64,
}

/// Byte `i` (big-endian, most significant first) of a 64-bit value.
pub open spec fn u64_byte(n: u64, i: int) -> u8 {
    if i == 0 {
        ((n >> 56u64) & 0xff) as u8
    } else if i == 1 {
        ((n >> 48u64) & 0xff) as u8
    } else if i == 2 {
        ((n >> 40u64) & 0xff) as u8
    } else if i == 3 {
        ((n >> 32u64) & 0xff) as u8
    } else if i == 4 {
        ((n >> 24u64) & 0xff) as u8
    } else if i == 5 {
        ((n >> 16u64) & 0xff) as u8
    } else if i == 6 {
        ((n >> 8u64) & 0xff) as u8
    } else {
        (n & 0xff) as u8
    }
}

/// The 8 bytes of a 64-bit value, big-endian.
pub open spec fn u64_be_bytes(n: u64) -> Seq<u8> {
    Seq::new(8, |i: int| u64_byte(n, i))
}

/// Append the big-endian bytes of `n`.
pub fn push_u64_be(out: &mut Vec<u8>, n: u64)
    ensures
        final(out)@ == old(out)@ + u64_be_bytes(n),
{
    out.push(((n >> 56u64) & 0xff) as u8);
    out.push(((n >> 48u64) & 0xff) as u8);
    out.push(((n >> 40u64) & 0xff) as u8);
    out.push(((n >> 32u64) & 0xff) as u8);
    out.push(((n >> 24u64) & 0xff) as u8);
    out.push(((n >> 16u64) & 0xff) as u8);
    out.push(((n >> 8u64) & 0xff) as u8);
    out.push((n & 0xff) as u8);
    proof {
        assert(out@ =~= old(out)@ + u64_be_bytes(n));
    }
}

/// Two 64-bit values with the same big-endian bytes are the same value.
pub proof fn lemma_u64_be_bytes_injective(a: u64, b: u64)
    requires
        u64_be_bytes(a) == u64_be_bytes(b),
    ensures
        a == b,
{
    assert forall|i: int| 0 <= i < 8 implies u64_byte(a, i) == u64_byte(b, i) by {
        assert(u64_be_bytes(a)[i] == u64_byte(a, i));
        assert(u64_be_bytes(b)[i] == u64_byte(b, i));
        assert(u64_be_bytes(a)[i] == u64_be_bytes(b)[i]);
    }
    assert(u64_byte(a, 0) == u64_byte(b, 0));
    assert(u64_byte(a, 1) == u64_byte(b, 1));
    assert(u64_byte(a, 2) == u64_byte(b, 2));
    assert(u64_byte(a, 3) == u64_byte(b, 3));
    assert(u64_byte(a, 4) == u64_byte(b, 4));
    assert(u64_byte(a, 5) == u64_byte(b, 5));
    assert(u64_byte(a, 6) == u64_byte(b, 6));
    assert(u64_byte(a, 7) == u64_byte(b, 7));
    assert(a == b) by (bit_vector)
        requires
            ((a >> 56u64) & 0xff) as u8 == ((b >> 56u64) & 0xff) as u8,
            ((a >> 48u64) & 0xff) as u8 == ((b >> 48u64) & 0xff) as u8,
            ((a >> 40u64) & 0xff) as u8 == ((b >> 40u64) & 0xff) as u8,
            ((a >> 32u64) & 0xff) as u8 == ((b >> 32u64) & 0xff) as u8,
            ((a >> 24u64) & 0xff) as u8 == ((b >> 24u64) & 0xff) as u8,
            ((a >> 16u64) & 0xff) as u8 == ((b >> 16u64) & 0xff) as u8,
            ((a >> 8u64) & 0xff) as u8 == ((b >> 8u64) & 0xff) as u8,
            (a & 0xff) as u8 == (b & 0xff) as u8,
    ;
}

/// The canonical statement a proof attests to, in this exact field order:
/// origin chain code, destination chain code, payload length, payload bytes,
/// nonce, timestamp; every number as 8 big-endian bytes.
pub open spec fn statement_bytes(
    from_chain: u64,
    to_chain: u64,
    payload: Seq<u8>,
    nonce: u64,
    timestamp: u64,
) -> Seq<u8> {
    u64_be_bytes(from_chain) + u64_be_bytes(to_chain) + u64_be_bytes(payload.len() as u64)
        + payload + u64_be_bytes(nonce) + u64_be_bytes(timestamp)
}

/// Build the canonical statement for these parameters.
pub fn encode_statement(params: &VerificationParams) -> (r: Vec<u8>)
    ensures
        r@ == statement_bytes(
            params.from_chain,
            params.to_chain,
            params.payload@,
            params.nonce,
            params.timestamp,
        ),
{
    let mut out: Vec<u8> = Vec::new();
    push_u64_be(&mut out, params.from_chain);
    push_u64_be(&mut out, params.to_chain);
    push_u64_be(&mut out, params.payload.len() as u64);
    out.extend_from_slice(params.payload.as_slice());
    proof {
        assert(out@ =~= u64_be_bytes(params.from_chain) + u64_be_bytes(params.to_chain)
            + u64_be_bytes(params.payload@.len() as u64) + params.payload@);
    }
    push_u64_be(&mut out, params.nonce);
    push_u64_be(&mut out, params.timestamp);
    proof {
        assert(out@ =~= statement_bytes(
            params.from_chain,
            params.to_chain,
            params.payload@,
            params.nonce,
            params.timestamp,
        ));
    }
    out
}

/// The canonical statement determines its fields: two statements over
/// payloads of machine-representable length agree only if origin chain,
/// destination chain, payload, nonce and timestamp all agree — so changing
/// any one field changes the encoding.
pub proof fn lemma_statement_bytes_injective(
    f1: u64,
    t1: u64,
    p1: Seq<u8>,
    n1: u64,
    s1: u64,
    f2: u64,
    t2: u64,
    p2: Seq<u8>,
    n2: u64,
    s2: u64,
)
    requires
        p1.len() <= u64::MAX,
        p2.len() <= u64::MAX,
        statement_bytes(f1, t1, p1, n1, s1) == statement_bytes(f2, t2, p2, n2, s2),
    ensures
        f1 == f2,
        t1 == t2,
        p1 == p2,
        n1 == n2,
        s1 == s2,
{
    let e1 = statement_bytes(f1, t1, p1, n1, s1);
    let e2 = statement_bytes(f2, t2, p2, n2, s2);
    let len1 = p1.len() as int;
    assert(e1.len() == 40 + p1.len());
    assert(e2.len() == 40 + p2.len());
    assert(p1.len() == p2.len());
    assert forall|i: int| 0 <= i < 8 implies u64_be_bytes(f1)[i] == u64_be_bytes(f2)[i] by {
        assert(e1[i] == u64_be_bytes(f1)[i]);
        assert(e2[i] == u64_be_bytes(f2)[i]);
        assert(e1[i] == e2[i]);
    }
    assert(u64_be_bytes(f1) =~= u64_be_bytes(f2));
    lemma_u64_be_bytes_injective(f1, f2);
    assert forall|i: int| 0 <= i < 8 implies u64_be_bytes(t1)[i] == u64_be_bytes(t2)[i] by {
        assert(e1[8 + i] == u64_be_bytes(t1)[i]);
        assert(e2[8 + i] == u64_be_bytes(t2)[i]);
        assert(e1[8 + i] == e2[8 + i]);
    }
    assert(u64_be_bytes(t1) =~= u64_be_bytes(t2));
    lemma_u64_be_bytes_injective(t1, t2);
    assert forall|i: int| 0 <= i < len1 implies p1[i] == p2[i] by {
        assert(e1[24 + i] == p1[i]);
        assert(e2[24 + i] == p2[i]);
        assert(e1[24 + i] == e2[24 + i]);
    }
    assert(p1 =~= p2);
    assert forall|i: int| 0 <= i < 8 implies u64_be_bytes(n1)[i] == u64_be_bytes(n2)[i] by {
        assert(e1[24 + len1 + i] == u64_be_bytes(n1)[i]);
        assert(e2[24 + len1 + i] == u64_be_bytes(n2)[i]);
        assert(e1[24 + len1 + i] == e2[24 + len1 + i]);
    }
    assert(u64_be_bytes(n1) =~= u64_be_bytes(n2));
    lemma_u64_be_bytes_injective(n1, n2);
    assert forall|i: int| 0 <= i < 8 implies u64_be_bytes(s1)[i] == u64_be_bytes(s2)[i] by {
        assert(e1[32 + len1 + i] == u64_be_bytes(s1)[i]);
        assert(e2[32 + len1 + i] == u64_be_bytes(s2)[i]);
        assert(e1[32 + len1 + i] == e2[32 + len1 + i]);
    }
    assert(u64_be_bytes(s1) =~= u64_be_bytes(s2));
    lemma_u64_be_bytes_injective(s1, s2);
}

/// The chain codes the engine accepts.
pub open spec fn chain_code_supported(code: u64) -> bool {
    code == 0 || code == 1 || code == 2
}

/// The checks made before the backend is invoked: proof bytes must not be
/// empty, chain codes must be in the supported range, and the timestamp must
/// lie in the configured acceptance window.
pub open spec fn precheck_model(
    proof_len: nat,
    from_chain: u64,
    to_chain: u64,
    timestamp: u64,
    min_timestamp: u64,
    max_timestamp: u64,
) -> Result<(), VerificationErrorModel> {
    if proof_len == 0 {
        Err(VerificationErrorModel::InvalidProofFormat)
    } else if !chain_code_supported(from_chain) || !chain_code_supported(to_chain) {
        Err(VerificationErrorModel::InvalidInput)
    } else if timestamp < min_timestamp || max_timestamp < timestamp {
        Err(VerificationErrorModel::InvalidInput)
    } else {
        Ok(())
    }
}

/// Run the pre-backend checks on these parameters.
pub fn precheck_params(params: &VerificationParams, min_timestamp: u64, max_timestamp: u64) -> (r:
    VerificationResult)
    ensures
        vres_model(r) == precheck_model(
            params.proof@.len(),
            params.from_chain,
            params.to_chain,
            params.timestamp,
            min_timestamp,
            max_timestamp,
        ),
{
    if params.proof.len() == 0 {
        return Err(VerificationError::InvalidProofFormat);
    }
    let from_ok = params.from_chain == 0 || params.from_chain == 1 || params.from_chain == 2;
    let to_ok = params.to_chain == 0 || params.to_chain == 1 || params.to_chain == 2;
    if !from_ok || !to_ok {
        return Err(VerificationError::InvalidInput);
    }
    if params.timestamp < min_timestamp || max_timestamp < params.timestamp {
        return Err(VerificationError::InvalidInput);
    }
    Ok(())
}

/// How a backend outcome is judged: `true` is success, `false` is
/// `VerificationFailed`; program and encoding failures are
/// `InvalidProofFormat`, statement failures `InvalidInput`, other described
/// failures keep their diagnostic bytes in `BackendError`, and undescribed
/// failures are `SystemError`.
pub open spec fn backend_verdict_model(outcome: Result<bool, BackendFailureModel>) -> Result<
    (),
    VerificationErrorModel,
> {
    match outcome {
        Ok(true) => Ok(()),
        Ok(false) => Err(VerificationErrorModel::VerificationFailed),
        Err(BackendFailureModel::Program(_)) => Err(VerificationErrorModel::InvalidProofFormat),
        Err(BackendFailureModel::Rejected(_)) => Err(VerificationErrorModel::VerificationFailed),
        Err(BackendFailureModel::Input(_)) => Err(VerificationErrorModel::InvalidInput),
        Err(BackendFailureModel::Other(b)) => Err(VerificationErrorModel::BackendError(b)),
        Err(BackendFailureModel::Unknown) => Err(VerificationErrorModel::SystemError),
    }
}

/// Turn the backend's answer into the engine's verdict.
pub fn backend_verdict(outcome: Result<bool, BackendFailure>) -> (r: VerificationResult)
    ensures
        vres_model(r) == backend_verdict_model(outcome_model(outcome)),
{
    match outcome {
        Ok(true) => Ok(()),
        Ok(false) => Err(VerificationError::VerificationFailed),
        Err(BackendFailure::Program(_)) => Err(VerificationError::InvalidProofFormat),
        Err(BackendFailure::Rejected(_)) => Err(VerificationError::VerificationFailed),
        Err(BackendFailure::Input(_)) => Err(VerificationError::InvalidInput),
        Err(BackendFailure::Other(b)) => Err(VerificationError::BackendError(b)),
        Err(BackendFailure::Unknown) => Err(VerificationError::SystemError),
    }
}

/// The whole engine as a function of its inputs: the verdict for these
/// parameters, given the answer the backend returned for them.
pub open spec fn verify_proof_model(
    proof_len: nat,
    from_chain: u64,
    to_chain: u64,
    timestamp: u64,
    min_timestamp: u64,
    max_timestamp: u64,
    outcome: Result<bool, BackendFailureModel>,
) -> Result<(), VerificationErrorModel> {
    match precheck_model(proof_len, from_chain, to_chain, timestamp, min_timestamp, max_timestamp) {
        Err(e) => Err(e),
        Ok(_) => backend_verdict_model(outcome),
    }
}

/// Decide a verification: run the pre-backend checks on the parameters, then
/// judge the backend's answer. The result is a pure function of the
/// parameters, the timestamp window and the backend's answer; the context
/// takes no further part once the backend has been run in it.
pub fn verify_proof(
    context: &VerificationContext,
    params: &VerificationParams,
    min_timestamp: u64,
    max_timestamp: u64,
    outcome: Result<bool, BackendFailure>,
) -> (r: VerificationResult)
    ensures
        vres_model(r) == verify_proof_model(
            params.proof@.len(),
            params.from_chain,
            params.to_chain,
            params.timestamp,
            min_timestamp,
            max_timestamp,
            outcome_model(outcome),
        ),
{
    let pre = precheck_params(params, min_timestamp, max_timestamp);
    match pre {
        Err(e) => Err(e),
        Ok(_) => backend_verdict(outcome),
    }
}

} // verus!
