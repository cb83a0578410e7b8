//! Requests to the native prover and verifier: the NUL-terminated text and
//! zeroed fixed-capacity buffers handed across, and how what comes back is
//! read. The native calls themselves are made by the caller, between
//! building a request and finishing it.

use vstd::prelude::*;
use vstd::string::StringSliceAdditionalSpecFns;
use vstd::utf8::{decode_utf8, valid_utf8};
use crate::bytes::zeros;
use crate::error::RapidsnarkError;

verus! {

/// Capacity of the proof buffer: 4 MiB.
pub const PROOF_BUFFER_CAPACITY: usize = 4194304;

/// Capacity of the public-signals buffer: 4 MiB.
pub const PUBLIC_BUFFER_CAPACITY: usize = 4194304;

/// Capacity of the error-message buffer.
pub const ERROR_BUFFER_CAPACITY: usize = 256;

/// Native status of a successful proof.
pub const PROVE_OK: i32 = 0;

/// Native verification status: the proof is valid.
pub const VERIFY_VALID: i32 = 0;

/// Native verification status: the proof is invalid.
pub const VERIFY_INVALID: i32 = 1;

/// Native verification status: the verifier failed.
pub const VERIFY_ERROR: i32 = 2;

/// The text that `String::from_utf8_lossy` makes of `b`.
pub uninterp spec fn lossy_utf8(b: Seq<u8>) -> Seq<char>;

/// Relies on `String::from_utf8_lossy`: the result depends on the bytes
/// alone, and valid UTF-8 comes back as the text it encodes.
#[verifier::external_body]
fn text_from_utf8(b: &[u8]) -> (r: String)
    ensures
        r@ == lossy_utf8(b@),
        valid_utf8(b@) ==> r@ == decode_utf8(b@),
{
    String::from_utf8_lossy(b).into_owned()
}

/// The text before the first NUL of `w`, or all of `w` if it holds none.
pub open spec fn c_text(w: Seq<u8>) -> Seq<u8>
    decreases w.len(),
{
    if w.len() == 0 || w[0] == 0 {
        Seq::empty()
    } else {
        seq![w[0]] + c_text(w.drop_first())
    }
}

/// The first `limit` bytes of `buf`, or all of it if it is shorter.
pub open spec fn window(buf: Seq<u8>, limit: nat) -> Seq<u8> {
    if limit < buf.len() {
        buf.subrange(0, limit as int)
    } else {
        buf
    }
}

/// `s` holds a NUL byte.
pub open spec fn has_nul(s: Seq<u8>) -> bool {
    exists|i: int| 0 <= i < s.len() && s[i] == 0
}

/// The message surfaced when the native side left its error buffer empty.
pub open spec fn unknown_failure() -> Seq<char> {
    "unknown failure"@
}

/// The message that an error buffer holds.
pub open spec fn error_text(buf: Seq<u8>) -> Seq<char> {
    if c_text(buf).len() == 0 {
        unknown_failure()
    } else {
        lossy_utf8(c_text(buf))
    }
}

/// The bytes of `buf` before its first NUL, within its first `limit` bytes.
pub fn read_c_text(buf: &[u8], limit: usize) -> (r: Vec<u8>)
    ensures
        r@ == c_text(window(buf@, limit as nat)),
{
    let end: usize = if limit < buf.len() {
        limit
    } else {
        buf.len()
    };
    let ghost w = window(buf@, limit as nat);
    let mut r: Vec<u8> = Vec::new();
    let mut k: usize = 0;
    proof {
        assert(w.subrange(0, end as int) =~= w);
        assert(r@ + c_text(w) =~= c_text(w));
    }
    while k < end && buf[k] != 0
        invariant
            end <= buf@.len(),
            end == w.len(),
            w == buf@.subrange(0, end as int),
            k <= end,
            r@ == w.subrange(0, k as int),
            c_text(w) == r@ + c_text(w.subrange(k as int, end as int)),
        decreases end - k,
    {
        let ghost rest = w.subrange(k as int, end as int);
        let ghost before = r@;
        proof {
            assert(rest.drop_first() =~= w.subrange(k + 1, end as int));
            assert(rest[0] == buf@[k as int]);
        }
        r.push(buf[k]);
        k = k + 1;
        proof {
            assert(r@ =~= w.subrange(0, k as int));
            assert(before + (seq![rest[0]] + c_text(rest.drop_first())) =~= r@ + c_text(
                w.subrange(k as int, end as int),
            ));
        }
    }
    proof {
        let rest = w.subrange(k as int, end as int);
        assert(rest.len() == 0 || rest[0] == 0);
        assert(r@ + c_text(rest) =~= r@);
    }
    r
}

/// The bytes of `s` followed by a NUL, as the native side reads text; an
/// error if `s` itself holds a NUL.
pub fn to_c_text(s: &str) -> (r: Result<Vec<u8>, RapidsnarkError>)
    ensures
        r.is_ok() <==> !has_nul(s.spec_bytes()),
        r.is_ok() ==> r.unwrap()@ == s.spec_bytes().push(0u8),
        r.is_err() ==> r == Err::<Vec<u8>, RapidsnarkError>(RapidsnarkError::InteriorNul),
{
    let b = s.as_bytes();
    let mut r: Vec<u8> = Vec::new();
    let mut k: usize = 0;
    while k < b.len()
        invariant
            b@ == s.spec_bytes(),
            k <= b@.len(),
            r@ == b@.subrange(0, k as int),
            forall|j: int| 0 <= j < k ==> b@[j] != 0,
        decreases b@.len() - k,
    {
        if b[k] == 0 {
            return Err(RapidsnarkError::InteriorNul);
        }
        r.push(b[k]);
        k = k + 1;
        proof {
            assert(r@ =~= b@.subrange(0, k as int));
        }
    }
    r.push(0u8);
    proof {
        assert(r@ =~= s.spec_bytes().push(0u8));
    }
    Ok(r)
}

/// The message of a filled error buffer, or a fixed one if it is empty.
fn error_message(buf: &[u8]) -> (r: String)
    ensures
        r@ == error_text(buf@),
{
    let t = read_c_text(buf, buf.len());
    proof {
        assert(window(buf@, buf@.len()) == buf@);
    }
    if t.len() == 0 {
        String::from_str("unknown failure")
    } else {
        text_from_utf8(t.as_slice())
    }
}

/// A proof and its public signals, both as JSON text.
#[derive(Debug)]
pub struct ProofResult {
    pub proof: String,
    pub public_signals: String,
}

/// Everything handed to the native prover for one proof: the proving-key
/// path as NUL-terminated text, the encoded witness, and the zeroed output
/// buffers at their fixed capacities.
pub struct ProveRequest {
    pub zkey_path: Vec<u8>,
    pub witness: Vec<u8>,
    pub proof: Vec<u8>,
    pub public_signals: Vec<u8>,
    pub error_msg: Vec<u8>,
}

impl ProveRequest {
    /// A request for a proof from the key at `zkey_path` and the encoded
    /// witness; an error if the path holds a NUL.
    pub fn new(zkey_path: &str, witness: Vec<u8>) -> (r: Result<ProveRequest, RapidsnarkError>)
        ensures
            r.is_ok() <==> !has_nul(zkey_path.spec_bytes()),
            r.is_err() ==> r == Err::<ProveRequest, RapidsnarkError>(
                RapidsnarkError::InteriorNul,
            ),
            r.is_ok() ==> {
                let q = r.unwrap();
                &&& q.zkey_path@ == zkey_path.spec_bytes().push(0u8)
                &&& q.witness@ == witness@
                &&& q.proof@ == zeros(PROOF_BUFFER_CAPACITY as nat)
                &&& q.public_signals@ == zeros(PUBLIC_BUFFER_CAPACITY as nat)
                &&& q.error_msg@ == zeros(ERROR_BUFFER_CAPACITY as nat)
            },
    {
        let path = match to_c_text(zkey_path) {
            Ok(p) => p,
            Err(e) => {
                return Err(e);
            },
        };
        let proof: Vec<u8> = vec![0u8; PROOF_BUFFER_CAPACITY];
        let public_signals: Vec<u8> = vec![0u8; PUBLIC_BUFFER_CAPACITY];
        let error_msg: Vec<u8> = vec![0u8; ERROR_BUFFER_CAPACITY];
        assert(proof@ =~= zeros(PROOF_BUFFER_CAPACITY as nat));
        assert(public_signals@ =~= zeros(PUBLIC_BUFFER_CAPACITY as nat));
        assert(error_msg@ =~= zeros(ERROR_BUFFER_CAPACITY as nat));
        Ok(ProveRequest { zkey_path: path, witness, proof, public_signals, error_msg })
    }

    /// Reads the outcome of the one native call made with this request.
    /// On status 0 the proof and the signals are the text of their buffers
    /// within the sizes the native side reported; on any other status the
    /// result is the native message, and no proof is returned.
    pub fn finish(self, status: i32, proof_size: u64, public_size: u64) -> (r: Result<
        ProofResult,
        RapidsnarkError,
    >)
        ensures
            status == PROVE_OK ==> r.is_ok() && r.unwrap().proof@ == lossy_utf8(
                c_text(window(self.proof@, proof_size as nat)),
            ) && r.unwrap().public_signals@ == lossy_utf8(
                c_text(window(self.public_signals@, public_size as nat)),
            ),
            status != PROVE_OK ==> r.is_err() && (match r {
                Err(RapidsnarkError::ProofGeneration(m)) => m@ == error_text(self.error_msg@),
                _ => false,
            }),
    {
        if status != PROVE_OK {
            let m = error_message(self.error_msg.as_slice());
            return Err(RapidsnarkError::ProofGeneration(m));
        }
        let proof_limit: usize = if proof_size < self.proof.len() as u64 {
            proof_size as usize
        } else {
            self.proof.len()
        };
        let public_limit: usize = if public_size < self.public_signals.len() as u64 {
            public_size as usize
        } else {
            self.public_signals.len()
        };
        let p = read_c_text(self.proof.as_slice(), proof_limit);
        let s = read_c_text(self.public_signals.as_slice(), public_limit);
        proof {
            assert(window(self.proof@, proof_limit as nat) == window(self.proof@, proof_size as nat));
            assert(window(self.public_signals@, public_limit as nat) == window(
                self.public_signals@,
                public_size as nat,
            ));
        }
        Ok(
            ProofResult {
                proof: text_from_utf8(p.as_slice()),
                public_signals: text_from_utf8(s.as_slice()),
            },
        )
    }
}

/// What the native verifier reported.
#[derive(Debug, PartialEq, Eq)]
pub enum VerifyOutcome {
    /// The proof is valid.
    Valid,
    /// The proof is invalid: a legitimate negative answer, not an error.
    Invalid,
    /// The verifier failed, with its message.
    Error(String),
}

/// `o` is the outcome of native status `status` with error buffer `err`:
/// 0 is valid, 2 is an error with the buffer's message, anything else is
/// invalid.
pub open spec fn is_outcome(status: i32, err: Seq<u8>, o: VerifyOutcome) -> bool {
    match o {
        VerifyOutcome::Valid => status == VERIFY_VALID,
        VerifyOutcome::Invalid => status != VERIFY_VALID && status != VERIFY_ERROR,
        VerifyOutcome::Error(m) => status == VERIFY_ERROR && m@ == error_text(err),
    }
}

/// Two outcomes of the same kind, with the same message if they are errors.
pub open spec fn same_outcome(a: VerifyOutcome, b: VerifyOutcome) -> bool {
    match (a, b) {
        (VerifyOutcome::Valid, VerifyOutcome::Valid) => true,
        (VerifyOutcome::Invalid, VerifyOutcome::Invalid) => true,
        (VerifyOutcome::Error(x), VerifyOutcome::Error(y)) => x@ == y@,
        _ => false,
    }
}

/// Everything handed to the native verifier: the proof, the public signals
/// and the verification key as NUL-terminated JSON text, and a zeroed
/// error buffer.
pub struct VerifyRequest {
    pub proof: Vec<u8>,
    pub inputs: Vec<u8>,
    pub verification_key: Vec<u8>,
    pub error_msg: Vec<u8>,
}

impl VerifyRequest {
    /// A request to check `proof` against the public signals `inputs` and
    /// `verification_key`; an error if any of the three holds a NUL.
    pub fn new(proof: &str, inputs: &str, verification_key: &str) -> (r: Result<
        VerifyRequest,
        RapidsnarkError,
    >)
        ensures
            r.is_ok() <==> !has_nul(proof.spec_bytes()) && !has_nul(inputs.spec_bytes())
                && !has_nul(verification_key.spec_bytes()),
            r.is_err() ==> r == Err::<VerifyRequest, RapidsnarkError>(
                RapidsnarkError::InteriorNul,
            ),
            r.is_ok() ==> {
                let q = r.unwrap();
                &&& q.proof@ == proof.spec_bytes().push(0u8)
                &&& q.inputs@ == inputs.spec_bytes().push(0u8)
                &&& q.verification_key@ == verification_key.spec_bytes().push(0u8)
                &&& q.error_msg@ == zeros(ERROR_BUFFER_CAPACITY as nat)
            },
    {
        let p = match to_c_text(proof) {
            Ok(t) => t,
            Err(e) => {
                return Err(e);
            },
        };
        let i = match to_c_text(inputs) {
            Ok(t) => t,
            Err(e) => {
                return Err(e);
            },
        };
        let k = match to_c_text(verification_key) {
            Ok(t) => t,
            Err(e) => {
                return Err(e);
            },
        };
        let error_msg: Vec<u8> = vec![0u8; ERROR_BUFFER_CAPACITY];
        assert(error_msg@ =~= zeros(ERROR_BUFFER_CAPACITY as nat));
        Ok(VerifyRequest { proof: p, inputs: i, verification_key: k, error_msg })
    }

    /// Reads the outcome of the one native call made with this request.
    pub fn finish(self, status: i32) -> (r: VerifyOutcome)
        ensures
            is_outcome(status, self.error_msg@, r),
    {
        if status == VERIFY_VALID {
            VerifyOutcome::Valid
        } else if status == VERIFY_ERROR {
            VerifyOutcome::Error(error_message(self.error_msg.as_slice()))
        } else {
            VerifyOutcome::Invalid
        }
    }
}

/// An outcome as valid or not, with the verifier's failure as an error:
/// an invalid proof is `Ok(false)`, never an error.
pub fn verification_result(outcome: VerifyOutcome) -> (r: Result<bool, RapidsnarkError>)
    ensures
        outcome is Valid ==> r == Ok::<bool, RapidsnarkError>(true),
        outcome is Invalid ==> r == Ok::<bool, RapidsnarkError>(false),
        outcome is Error ==> (match (outcome, r) {
            (VerifyOutcome::Error(m), Err(RapidsnarkError::Verification(e))) => e == m,
            _ => false,
        }),
{
    match outcome {
        VerifyOutcome::Valid => Ok(true),
        VerifyOutcome::Invalid => Ok(false),
        VerifyOutcome::Error(m) => Err(RapidsnarkError::Verification(m)),
    }
}

/// Verification is a function of its inputs and of what the native side
/// reports: requests built from the same three texts hand the same bytes
/// across, and when the native side answers both with the same status and
/// error buffer, the two outcomes are the same, with the same message.
pub proof fn lemma_verify_idempotent(
    a: VerifyRequest,
    b: VerifyRequest,
    proof: &str,
    inputs: &str,
    verification_key: &str,
    status: i32,
    oa: VerifyOutcome,
    ob: VerifyOutcome,
)
    requires
        a.proof@ == proof.spec_bytes().push(0u8),
        a.inputs@ == inputs.spec_bytes().push(0u8),
        a.verification_key@ == verification_key.spec_bytes().push(0u8),
        b.proof@ == proof.spec_bytes().push(0u8),
        b.inputs@ == inputs.spec_bytes().push(0u8),
        b.verification_key@ == verification_key.spec_bytes().push(0u8),
        a.error_msg@ == b.error_msg@,
        is_outcome(status, a.error_msg@, oa),
        is_outcome(status, b.error_msg@, ob),
    ensures
        a.proof@ == b.proof@,
        a.inputs@ == b.inputs@,
        a.verification_key@ == b.verification_key@,
        same_outcome(oa, ob),
{
}

} // verus!
