//! Signing a response and putting together what is submitted to the ledger.

use crate::error::TaskError;
use crate::uint256::Uint256;
use ethers::signers::Signer;
use vstd::prelude::*;
use vstd::utf8::encode_utf8;

verus! {

/// One unit of requested computation, as the ledger describes it.
#[derive(Clone, Debug)]
pub struct Task {
    pub code_arweave_uri: String,
    pub language: String,
    pub response_count: Uint256,
    pub task_created_block: u32,
    pub request_id: u32,
}

/// The arguments of the ledger's `respondToTask` method, in its order: the
/// task's descriptor `(code_uri, response_count, language, created_block)`,
/// then the request id, the response and the signature.
#[derive(Clone, Debug)]
pub struct Submission {
    pub code_uri: String,
    pub response_count: Uint256,
    pub language: String,
    pub created_block: u32,
    pub request_id: u32,
    pub response_string: String,
    pub signature: Vec<u8>,
}

/// The field values of a task.
pub struct TaskFields {
    pub code_arweave_uri: Seq<char>,
    pub language: Seq<char>,
    pub response_count: nat,
    pub task_created_block: u32,
    pub request_id: u32,
}

impl View for Task {
    type V = TaskFields;

    open spec fn view(&self) -> TaskFields {
        TaskFields {
            code_arweave_uri: self.code_arweave_uri@,
            language: self.language@,
            response_count: self.response_count@,
            task_created_block: self.task_created_block,
            request_id: self.request_id,
        }
    }
}

/// The field values of a submission.
pub struct SubmissionFields {
    pub code_uri: Seq<char>,
    pub response_count: nat,
    pub language: Seq<char>,
    pub created_block: u32,
    pub request_id: u32,
    pub response_string: Seq<char>,
    pub signature: Seq<u8>,
}

impl View for Submission {
    type V = SubmissionFields;

    open spec fn view(&self) -> SubmissionFields {
        SubmissionFields {
            code_uri: self.code_uri@,
            response_count: self.response_count@,
            language: self.language@,
            created_block: self.created_block,
            request_id: self.request_id,
            response_string: self.response_string@,
            signature: self.signature@,
        }
    }
}

/// The bytes of `n`, most significant first, without leading zero bytes:
/// none at all for zero.
pub open spec fn minimal_be_bytes(n: nat) -> Seq<u8>
    decreases n,
{
    if n == 0 {
        Seq::empty()
    } else {
        minimal_be_bytes(n / 256).push((n % 256) as u8)
    }
}

/// The bytes that bind a response to its request: the UTF-8 bytes of the
/// response, directly followed by the request id's bytes, most significant
/// first and without leading zero bytes.
pub open spec fn signing_payload(response: Seq<char>, request_id: u32) -> Seq<u8> {
    encode_utf8(response) + minimal_be_bytes(request_id as nat)
}

/// The marker byte 0x19 followed by `Ethereum Signed Message:` and a line
/// feed, in ASCII.
pub open spec fn signed_message_prefix() -> Seq<u8> {
    seq![
        0x19u8, 0x45, 0x74, 0x68, 0x65, 0x72, 0x65, 0x75, 0x6d, 0x20, 0x53, 0x69, 0x67, 0x6e, 0x65,
        0x64, 0x20, 0x4d, 0x65, 0x73, 0x73, 0x61, 0x67, 0x65, 0x3a, 0x0a,
    ]
}

/// The decimal numeral of `n` in ASCII.
pub open spec fn decimal_bytes(n: nat) -> Seq<u8>
    decreases n,
{
    if n < 10 {
        seq![(0x30 + n) as u8]
    } else {
        decimal_bytes(n / 10).push((0x30 + n % 10) as u8)
    }
}

/// What is hashed for a signed message of the bytes `message`: the prefix,
/// the number of bytes of the message as a decimal numeral, and the message.
pub open spec fn signed_message_envelope(message: Seq<u8>) -> Seq<u8> {
    signed_message_prefix() + decimal_bytes(message.len()) + message
}

/// The Keccak-256 digest of `bytes`, as `ethers::utils::keccak256` computes
/// it.
pub uninterp spec fn keccak256_digest(bytes: Seq<u8>) -> Seq<u8>;

/// The signature that `Wallet::sign_hash` makes of `digest` with the key
/// that the hexadecimal text `key` holds, as its 65 bytes `r`, `s`, `v`;
/// `None` where `key` is no usable key or signing fails.
pub uninterp spec fn signature_of(key: Seq<char>, digest: Seq<u8>) -> Option<Seq<u8>>;

/// The address of the key that the hexadecimal text `key` holds; `None`
/// where `key` is no usable key.
pub uninterp spec fn address_of_key(key: Seq<char>) -> Option<Seq<u8>>;

/// The address that `Signature::recover` finds for `signature` over
/// `digest`; `None` where `signature` is no signature or nothing can be
/// recovered.
pub uninterp spec fn recovered_address(signature: Seq<u8>, digest: Seq<u8>) -> Option<Seq<u8>>;

/// The digest that a signature over `response` for `request_id` signs: the
/// payload is hashed, and the hash is hashed again as a signed message.
pub open spec fn signing_digest(response: Seq<char>, request_id: u32) -> Seq<u8> {
    keccak256_digest(
        signed_message_envelope(keccak256_digest(signing_payload(response, request_id))),
    )
}

/// Packs the response and the request id with `ethers::abi::encode_packed`,
/// as a string token and an unsigned integer token. For these two kinds of
/// token the call does not fail; it writes the string's UTF-8 bytes and then
/// the integer's big-endian bytes from its first non-zero byte on.
#[verifier::external_body]
fn encode_packed_response(response: &str, request_id: u32) -> (packed: Option<Vec<u8>>)
    ensures
        packed.is_some(),
        packed.unwrap()@ == signing_payload(response@, request_id),
{
    ethers::abi::encode_packed(
        &[
            ethers::abi::Token::String(response.to_string()),
            ethers::abi::Token::Uint(request_id.into()),
        ],
    ).ok()
}

/// Hashes `bytes` with `ethers::utils::keccak256`.
#[verifier::external_body]
pub(crate) fn keccak256(bytes: &Vec<u8>) -> (digest: [u8; 32])
    ensures
        digest@ == keccak256_digest(bytes@),
{
    ethers::utils::keccak256(bytes)
}

/// The digest of `message` as a signed message: the Keccak-256 digest of its
/// envelope.
pub fn hash_signed_message(message: &[u8; 32]) -> (digest: [u8; 32])
    ensures
        digest@ == keccak256_digest(signed_message_envelope(message@)),
{
    let mut envelope: Vec<u8> = vec![
        0x19u8, 0x45, 0x74, 0x68, 0x65, 0x72, 0x65, 0x75, 0x6d, 0x20, 0x53, 0x69, 0x67, 0x6e, 0x65,
        0x64, 0x20, 0x4d, 0x65, 0x73, 0x73, 0x61, 0x67, 0x65, 0x3a, 0x0a,
    ];
    envelope.push(0x33);
    envelope.push(0x32);
    proof {
        assert(decimal_bytes(3) =~= seq![0x33u8]);
        assert(decimal_bytes(32) =~= seq![0x33u8, 0x32u8]);
        assert(envelope@ =~= signed_message_prefix() + decimal_bytes(32));
    }
    let mut i: usize = 0;
    while i < 32
        invariant
            i <= 32,
            envelope@ == signed_message_prefix() + decimal_bytes(32) + message@.subrange(
                0,
                i as int,
            ),
        decreases 32 - i,
    {
        envelope.push(message[i]);
        assert(message@.subrange(0, i as int).push(message@[i as int]) =~= message@.subrange(
            0,
            i + 1,
        ));
        i = i + 1;
    }
    assert(message@.subrange(0, 32) =~= message@);
    keccak256(&envelope)
}

/// Signs `digest` with `Wallet::sign_hash`, after parsing `key` as a
/// `LocalWallet`, and lays the signature out as its 65 bytes `r`, `s`, `v`.
/// The signature is made deterministically from the key and the digest; a
/// key that does not parse, or a failure to sign, gives `None`.
#[verifier::external_body]
fn sign_digest(key: &str, digest: &[u8; 32]) -> (signature: Option<[u8; 65]>)
    ensures
        signature_of(key@, digest@) == match signature {
            Some(bytes) => Some(bytes@),
            None => None,
        },
{
    let wallet = key.parse::<ethers::signers::LocalWallet>().ok()?;
    let signature = wallet.sign_hash(ethers::types::H256(*digest)).ok()?;
    Some(signature.into())
}

/// The wallet's address for `key`, from `Signer::address`, after parsing
/// `key` as a `LocalWallet`; a key that does not parse gives `None`.
#[verifier::external_body]
fn signer_address(key: &str) -> (address: Option<[u8; 20]>)
    ensures
        address_of_key(key@) == match address {
            Some(bytes) => Some(bytes@),
            None => None,
        },
{
    Some(key.parse::<ethers::signers::LocalWallet>().ok()?.address().0)
}

/// Recovers the signer of `digest` with `Signature::recover`, after reading
/// `signature` as the 65 bytes `r`, `s`, `v` with `Signature::try_from`;
/// bytes from which nothing is recovered give `None`.
#[verifier::external_body]
fn recover_signer(signature: &[u8; 65], digest: &[u8; 32]) -> (address: Option<[u8; 20]>)
    ensures
        recovered_address(signature@, digest@) == match address {
            Some(bytes) => Some(bytes@),
            None => None,
        },
{
    let signature = ethers::types::Signature::try_from(signature.as_slice()).ok()?;
    Some(signature.recover(ethers::types::H256(*digest)).ok()?.0)
}

/// The 65 bytes of a signature as a vector.
fn signature_bytes(signature: &[u8; 65]) -> (bytes: Vec<u8>)
    ensures
        bytes@ == signature@,
{
    let mut bytes: Vec<u8> = Vec::new();
    let mut i: usize = 0;
    while i < 65
        invariant
            i <= 65,
            bytes@ == signature@.subrange(0, i as int),
        decreases 65 - i,
    {
        bytes.push(signature[i]);
        assert(signature@.subrange(0, i as int).push(signature@[i as int]) =~= signature@.subrange(
            0,
            i + 1,
        ));
        i = i + 1;
    }
    assert(signature@.subrange(0, 65) =~= signature@);
    bytes
}

/// What is made of a signature, the address recovered from it and the
/// signer's address: the signature where all three are there and the two
/// addresses agree; `SigningFailed` where the signature or the signer's
/// address is missing; `SignerMismatch` otherwise.
pub open spec fn checked_signature(
    signature: Option<Seq<u8>>,
    recovered: Option<Seq<u8>>,
    signer: Option<Seq<u8>>,
) -> Result<Seq<u8>, TaskError> {
    match (signature, signer) {
        (Some(bytes), Some(address)) => {
            if recovered == Some(address) {
                Ok(bytes)
            } else {
                Err(TaskError::SignerMismatch)
            }
        },
        _ => Err(TaskError::SigningFailed),
    }
}

/// The bytes of a signature, or the failure in its place.
pub open spec fn signature_value(outcome: Result<Vec<u8>, TaskError>) -> Result<
    Seq<u8>,
    TaskError,
> {
    match outcome {
        Ok(bytes) => Ok(bytes@),
        Err(e) => Err(e),
    }
}

/// The bytes that an optional byte string holds.
pub open spec fn optional_bytes(bytes: Option<Vec<u8>>) -> Option<Seq<u8>> {
    match bytes {
        Some(b) => Some(b@),
        None => None,
    }
}

/// The bytes that an optional address holds.
pub open spec fn optional_address(address: Option<[u8; 20]>) -> Option<Seq<u8>> {
    match address {
        Some(a) => Some(a@),
        None => None,
    }
}

/// Whether two addresses are the same bytes.
fn same_address(a: &[u8; 20], b: &[u8; 20]) -> (same: bool)
    ensures
        same == (a@ == b@),
{
    let mut i: usize = 0;
    while i < 20
        invariant
            i <= 20,
            forall|k: int| 0 <= k < i ==> a@[k] == b@[k],
        decreases 20 - i,
    {
        if a[i] != b[i] {
            return false;
        }
        i = i + 1;
    }
    assert(a@ =~= b@);
    true
}

/// Hands out `signature` only where it recovers to the signer's address. A
/// mismatch is a fault of this node, not of the task.
pub fn check_signature(
    signature: Option<Vec<u8>>,
    recovered: Option<[u8; 20]>,
    signer: Option<[u8; 20]>,
) -> (outcome: Result<Vec<u8>, TaskError>)
    ensures
        signature_value(outcome) == checked_signature(
            optional_bytes(signature),
            optional_address(recovered),
            optional_address(signer),
        ),
{
    match (signature, signer) {
        (Some(bytes), Some(address)) => {
            match recovered {
                Some(found) => {
                    if same_address(&found, &address) {
                        Ok(bytes)
                    } else {
                        Err(TaskError::SignerMismatch)
                    }
                },
                None => Err(TaskError::SignerMismatch),
            }
        },
        _ => Err(TaskError::SigningFailed),
    }
}

/// The signature over `response` for `request_id` under the key `key`:
/// the signature of the signing digest, checked against the key's own
/// address.
pub open spec fn signed_response(key: Seq<char>, response: Seq<char>, request_id: u32) -> Result<
    Seq<u8>,
    TaskError,
> {
    let digest = signing_digest(response, request_id);
    match signature_of(key, digest) {
        Some(bytes) => checked_signature(
            Some(bytes),
            recovered_address(bytes, digest),
            address_of_key(key),
        ),
        None => Err(TaskError::SigningFailed),
    }
}

/// Signature validity: whatever the key, the response and the request id,
/// a signature that is handed out recovers, over the signing digest of that
/// response and that request id, to the address of the key it was made with.
pub proof fn lemma_signature_recovers_to_signer(key: Seq<char>, response: Seq<char>, request_id: u32)
    ensures
        signed_response(key, response, request_id) matches Ok(signature) ==> address_of_key(key)
            is Some && recovered_address(signature, signing_digest(response, request_id))
            == address_of_key(key),
{
}

/// Signs `response_string` for `task` with the operator key `key`, given as
/// hexadecimal text. The signature is over the signing digest of the response
/// and the task's request id, has 65 bytes, and is handed out only where it
/// recovers to the key's own address.
pub fn create_signature_for_task(key: &str, response_string: &str, task: &Task) -> (outcome:
    Result<Vec<u8>, TaskError>)
    ensures
        signature_value(outcome) == signed_response(key@, response_string@, task.request_id),
        outcome matches Ok(signature) ==> signature@.len() == 65 && recovered_address(
            signature@,
            signing_digest(response_string@, task.request_id),
        ) == address_of_key(key@) && address_of_key(key@) is Some,
{
    let packed = match encode_packed_response(response_string, task.request_id) {
        Some(bytes) => bytes,
        None => {
            return Err(TaskError::SigningFailed);
        },
    };
    let message_hash = keccak256(&packed);
    let digest = hash_signed_message(&message_hash);
    let signature = match sign_digest(key, &digest) {
        Some(bytes) => bytes,
        None => {
            return Err(TaskError::SigningFailed);
        },
    };
    let recovered = recover_signer(&signature, &digest);
    let signer = signer_address(key);
    check_signature(Some(signature_bytes(&signature)), recovered, signer)
}

/// The submission of `response` for `task`, signed under `key`; it fails
/// exactly where signing does.
pub open spec fn submission_for(key: Seq<char>, task: TaskFields, response: Seq<char>) -> Result<
    SubmissionFields,
    TaskError,
> {
    match signed_response(key, response, task.request_id) {
        Ok(signature) => Ok(
            SubmissionFields {
                code_uri: task.code_arweave_uri,
                response_count: task.response_count,
                language: task.language,
                created_block: task.task_created_block,
                request_id: task.request_id,
                response_string: response,
                signature,
            },
        ),
        Err(e) => Err(e),
    }
}

/// The field values of a submission, or the failure in its place.
pub open spec fn submission_value(outcome: Result<Submission, TaskError>) -> Result<
    SubmissionFields,
    TaskError,
> {
    match outcome {
        Ok(submission) => Ok(submission@),
        Err(e) => Err(e),
    }
}

/// Signs `response_string` for `task` and puts together what is submitted to
/// the ledger.
pub fn respond_to_task(key: &str, task: Task, response_string: String) -> (outcome: Result<
    Submission,
    TaskError,
>)
    ensures
        submission_value(outcome) == submission_for(key@, task@, response_string@),
        outcome matches Ok(submission) ==> submission.signature@.len() == 65,
{
    match create_signature_for_task(key, response_string.as_str(), &task) {
        Ok(signature) => Ok(
            Submission {
                code_uri: task.code_arweave_uri,
                response_count: task.response_count,
                language: task.language,
                created_block: task.task_created_block,
                request_id: task.request_id,
                response_string,
                signature,
            },
        ),
        Err(e) => Err(e),
    }
}

} // verus!
