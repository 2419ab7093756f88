//! The chain event scanner: decoding request logs and keeping the watermark.

use crate::config::Config;
use crate::executor::Executor;
use crate::respond::{keccak256, keccak256_digest};
use crate::uint256::{be_value, Uint256};
use ethers::abi::{ParamType, Token};
use vstd::prelude::*;
use vstd::slice::slice_to_vec;
use vstd::utf8::encode_utf8;

verus! {

/// A log entry of the ledger: its topics and its data.
#[derive(Clone, Debug)]
pub struct Log {
    pub topics: Vec<[u8; 32]>,
    pub data: Vec<u8>,
}

/// Why a log is no request event.
#[derive(Clone, Copy, Debug, PartialEq, Eq, Structural)]
pub enum DecodeError {
    /// The log has no topic at all.
    MissingSignature,
    /// The first topic is not the event's signature hash.
    WrongEvent,
    /// The log does not have exactly one topic besides the signature hash.
    TopicCount,
    /// The data do not hold two strings and two integers.
    MalformedData,
}

/// The event `ComputeRequestCreated(uint256 indexed requestId, string
/// codeArweaveUri, string language, uint256 responseCount, uint256
/// taskCreatedBlock)`, as decoded from a log.
#[derive(Clone, Debug)]
pub struct ComputeRequestCreated {
    pub request_id: Uint256,
    pub code_json: String,
    pub code_lang: String,
    pub node_count: Uint256,
    pub task_created_block: Uint256,
}

/// A request for computation.
#[derive(Clone, Debug)]
pub struct ComputeRequest {
    pub request_id: Uint256,
    pub code_json: String,
    pub code_lang: String,
    pub node_count: Uint256,
    pub task_created_block: Uint256,
}

/// The field values of a request.
pub struct RequestFields {
    pub request_id: nat,
    pub code_json: Seq<char>,
    pub code_lang: Seq<char>,
    pub node_count: nat,
    pub task_created_block: nat,
}

impl View for ComputeRequestCreated {
    type V = RequestFields;

    open spec fn view(&self) -> RequestFields {
        RequestFields {
            request_id: self.request_id@,
            code_json: self.code_json@,
            code_lang: self.code_lang@,
            node_count: self.node_count@,
            task_created_block: self.task_created_block@,
        }
    }
}

impl View for ComputeRequest {
    type V = RequestFields;

    open spec fn view(&self) -> RequestFields {
        RequestFields {
            request_id: self.request_id@,
            code_json: self.code_json@,
            code_lang: self.code_lang@,
            node_count: self.node_count@,
            task_created_block: self.task_created_block@,
        }
    }
}

/// The event's signature hash, the first topic of each of its logs.
pub open spec fn event_topic() -> Seq<u8> {
    keccak256_digest(
        encode_utf8("ComputeRequestCreated(uint256,string,string,uint256,uint256)"@),
    )
}

/// What `ethers::abi::decode` makes of `data` read as two strings followed by
/// two unsigned 256-bit integers; `None` where it rejects them.
pub uninterp spec fn abi_decoded_request(data: Seq<u8>) -> Option<
    (Seq<char>, Seq<char>, nat, nat),
>;

/// Decodes `data` with `ethers::abi::decode` as two strings followed by two
/// unsigned 256-bit integers.
#[verifier::external_body]
fn decode_request_data(data: &Vec<u8>) -> (fields: Option<(String, String, Uint256, Uint256)>)
    ensures
        abi_decoded_request(data@) == match fields {
            Some(f) => Some((f.0@, f.1@, f.2@, f.3@)),
            None => None,
        },
{
    let kinds = [ParamType::String, ParamType::String, ParamType::Uint(256), ParamType::Uint(256)];
    match ethers::abi::decode(&kinds, data).ok()?.as_slice() {
        [Token::String(uri), Token::String(lang), Token::Uint(count), Token::Uint(block)] => Some(
            (uri.clone(), lang.clone(), Uint256 { limbs: count.0 }, Uint256 { limbs: block.0 }),
        ),
        _ => None,
    }
}

/// What `log` decodes to: the request whose id is the second topic, read as
/// a big-endian integer, and whose other fields are the decoded data; or the
/// first reason, in the order of `DecodeError`, why it is no request event.
pub open spec fn decoded(log: Log) -> Result<RequestFields, DecodeError> {
    if log.topics@.len() == 0 {
        Err(DecodeError::MissingSignature)
    } else if log.topics@[0]@ != event_topic() {
        Err(DecodeError::WrongEvent)
    } else if log.topics@.len() != 2 {
        Err(DecodeError::TopicCount)
    } else {
        match abi_decoded_request(log.data@) {
            None => Err(DecodeError::MalformedData),
            Some((uri, lang, count, block)) => Ok(
                RequestFields {
                    request_id: be_value(log.topics@[1]@),
                    code_json: uri,
                    code_lang: lang,
                    node_count: count,
                    task_created_block: block,
                },
            ),
        }
    }
}

/// The requests that `logs` decode to, in the order of the logs; a log that
/// does not decode is left out.
pub open spec fn decoded_requests(logs: Seq<Log>) -> Seq<RequestFields>
    decreases logs.len(),
{
    if logs.len() == 0 {
        Seq::empty()
    } else {
        match decoded(logs.last()) {
            Ok(fields) => decoded_requests(logs.drop_last()).push(fields),
            Err(_) => decoded_requests(logs.drop_last()),
        }
    }
}

/// Order is kept: the requests of logs in a row are the requests of the
/// first logs followed by those of the later ones, whether the logs come in
/// one poll or in several.
pub proof fn lemma_decoded_requests_concat(first: Seq<Log>, later: Seq<Log>)
    ensures
        decoded_requests(first + later) == decoded_requests(first) + decoded_requests(later),
    decreases later.len(),
{
    if later.len() == 0 {
        assert(first + later =~= first);
        assert(decoded_requests(first) + decoded_requests(later) =~= decoded_requests(first));
    } else {
        assert((first + later).drop_last() =~= first + later.drop_last());
        assert((first + later).last() == later.last());
        lemma_decoded_requests_concat(first, later.drop_last());
        match decoded(later.last()) {
            Ok(fields) => {
                assert((decoded_requests(first) + decoded_requests(later.drop_last())).push(fields)
                    =~= decoded_requests(first) + decoded_requests(later.drop_last()).push(
                    fields,
                ));
            },
            Err(_) => {},
        }
    }
}

/// The field values of each request.
pub open spec fn request_views(requests: Seq<ComputeRequest>) -> Seq<RequestFields> {
    Seq::new(requests.len(), |i: int| requests[i]@)
}

/// Whether two 32-byte words are the same.
fn same_word(a: &[u8; 32], b: &[u8; 32]) -> (same: bool)
    ensures
        same == (a@ == b@),
{
    let mut i: usize = 0;
    while i < 32
        invariant
            i <= 32,
            forall|k: int| 0 <= k < i ==> a@[k] == b@[k],
        decreases 32 - i,
    {
        if a[i] != b[i] {
            return false;
        }
        i = i + 1;
    }
    assert(a@ =~= b@);
    true
}

impl ComputeRequestCreated {
    /// The event's signature hash.
    pub fn signature() -> (topic: [u8; 32])
        ensures
            topic@ == event_topic(),
    {
        let text = "ComputeRequestCreated(uint256,string,string,uint256,uint256)";
        let bytes = slice_to_vec(text.as_bytes());
        keccak256(&bytes)
    }

    /// Decodes a log of this event.
    pub fn decode_log(log: &Log) -> (outcome: Result<ComputeRequestCreated, DecodeError>)
        ensures
            match outcome {
                Ok(event) => decoded(*log) == Ok::<RequestFields, DecodeError>(event@),
                Err(e) => decoded(*log) == Err::<RequestFields, DecodeError>(e),
            },
    {
        if log.topics.len() == 0 {
            return Err(DecodeError::MissingSignature);
        }
        let topic = Self::signature();
        if !same_word(&log.topics[0], &topic) {
            return Err(DecodeError::WrongEvent);
        }
        if log.topics.len() != 2 {
            return Err(DecodeError::TopicCount);
        }
        let request_id = Uint256::from_big_endian(&log.topics[1]);
        match decode_request_data(&log.data) {
            None => Err(DecodeError::MalformedData),
            Some((code_json, code_lang, node_count, task_created_block)) => Ok(
                ComputeRequestCreated {
                    request_id,
                    code_json,
                    code_lang,
                    node_count,
                    task_created_block,
                },
            ),
        }
    }
}

/// What the ledger answered to one poll.
#[derive(Clone, Debug)]
pub enum ScanReply {
    /// The block height or the logs could not be read; the payload says why.
    Unreachable(String),
    /// The chain stands at `head`, and `logs` are the event's logs of the
    /// blocks after the watermark up to `head`, in block and log order.
    Scanned { head: u64, logs: Vec<Log> },
}

/// The watermark after one poll: the head where the poll scanned beyond the
/// watermark, else the watermark as it was.
pub open spec fn watermark_after(watermark: u64, reply: ScanReply) -> u64 {
    match reply {
        ScanReply::Scanned { head, logs } => if head > watermark {
            head
        } else {
            watermark
        },
        ScanReply::Unreachable(_) => watermark,
    }
}

/// The watermark after the polls `replies`, in order.
pub open spec fn watermark_after_all(watermark: u64, replies: Seq<ScanReply>) -> u64
    decreases replies.len(),
{
    if replies.len() == 0 {
        watermark
    } else {
        watermark_after(watermark_after_all(watermark, replies.drop_last()), replies.last())
    }
}

/// The requests that one poll yields: those of the logs where the poll
/// scanned beyond the watermark, else none.
pub open spec fn yielded(watermark: u64, reply: ScanReply) -> Seq<RequestFields> {
    match reply {
        ScanReply::Scanned { head, logs } => if head > watermark {
            decoded_requests(logs@)
        } else {
            Seq::empty()
        },
        ScanReply::Unreachable(_) => Seq::empty(),
    }
}

/// The scanner: it remembers the highest block that was scanned in full.
pub struct EventListener {
    contract_address: String,
    executor: Executor,
    last_processed_block: u64,
}

impl EventListener {
    /// The watermark: the highest block scanned in full.
    pub closed spec fn watermark(&self) -> u64 {
        self.last_processed_block
    }

    /// The address of the contract whose logs are scanned.
    pub closed spec fn contract(&self) -> Seq<char> {
        self.contract_address@
    }

    /// The dispatcher that the decoded requests are handed to.
    pub closed spec fn dispatcher(&self) -> Executor {
        self.executor
    }

    /// A scanner for the contract that `config` names, with the watermark at
    /// block 0. Its dispatcher works for the same contract and signs with
    /// `operator_key`.
    pub fn new(config: Config, operator_key: String) -> (listener: Self)
        ensures
            listener.watermark() == 0,
            listener.contract() == config.contract_address@,
            listener.dispatcher().config == config,
            listener.dispatcher().contract_address@ == config.contract_address@,
            listener.dispatcher().operator_key == operator_key,
    {
        let contract_address = config.contract_address.clone();
        let executor_contract = config.contract_address.clone();
        let executor = Executor::new(config, executor_contract, operator_key);
        EventListener { contract_address, executor, last_processed_block: 0 }
    }

    /// The watermark.
    pub fn last_processed_block(&self) -> (block: u64)
        ensures
            block == self.watermark(),
    {
        self.last_processed_block
    }

    /// The address of the contract whose logs are scanned.
    pub fn contract_address(&self) -> (address: &String)
        ensures
            address@ == self.contract(),
    {
        &self.contract_address
    }

    /// The dispatcher that the decoded requests are handed to.
    pub fn executor(&self) -> (executor: &Executor)
        ensures
            *executor == self.dispatcher(),
    {
        &self.executor
    }

    /// Starts listening at the chain's head: blocks up to `head` are not
    /// scanned. The watermark does not move back.
    pub fn start_listening(&mut self, head: u64)
        ensures
            final(self).watermark() == if head > old(self).watermark() {
                head
            } else {
                old(self).watermark()
            },
            final(self).contract() == old(self).contract(),
            final(self).dispatcher() == old(self).dispatcher(),
    {
        if head > self.last_processed_block {
            self.last_processed_block = head;
        }
    }

    /// The inclusive range of blocks to ask logs for when the chain stands at
    /// `head`: from the block after the watermark up to `head`, or `None`
    /// where there is no new block.
    pub fn scan_range(&self, head: u64) -> (range: Option<(u64, u64)>)
        ensures
            range == if head > self.watermark() {
                Some(((self.watermark() + 1) as u64, head))
            } else {
                None
            },
    {
        if head > self.last_processed_block {
            Some((self.last_processed_block + 1, head))
        } else {
            None
        }
    }

    /// Decodes one log into a request.
    pub fn parse_compute_request_event(&self, log: &Log) -> (outcome: Result<
        ComputeRequest,
        DecodeError,
    >)
        ensures
            match outcome {
                Ok(request) => decoded(*log) == Ok::<RequestFields, DecodeError>(request@),
                Err(e) => decoded(*log) == Err::<RequestFields, DecodeError>(e),
            },
    {
        match ComputeRequestCreated::decode_log(log) {
            Ok(event) => Ok(
                ComputeRequest {
                    code_json: event.code_json,
                    code_lang: event.code_lang,
                    node_count: event.node_count,
                    request_id: event.request_id,
                    task_created_block: event.task_created_block,
                },
            ),
            Err(e) => Err(e),
        }
    }

    /// Takes in the ledger's answer to one poll. Where the poll scanned
    /// beyond the watermark, the requests of its logs are returned in order,
    /// those that do not decode are skipped, and the watermark moves to the
    /// head. Where the ledger could not be reached, or there is no new block,
    /// nothing is returned and the watermark stays.
    pub fn poll(&mut self, reply: &ScanReply) -> (requests: Vec<ComputeRequest>)
        ensures
            final(self).watermark() == watermark_after(old(self).watermark(), *reply),
            final(self).watermark() >= old(self).watermark(),
            reply is Unreachable ==> final(self).watermark() == old(self).watermark(),
            final(self).contract() == old(self).contract(),
            final(self).dispatcher() == old(self).dispatcher(),
            request_views(requests@) == yielded(old(self).watermark(), *reply),
            requests@.len() == yielded(old(self).watermark(), *reply).len(),
    {
        let mut requests: Vec<ComputeRequest> = Vec::new();
        match reply {
            ScanReply::Unreachable(_) => {
                assert(request_views(requests@) =~= Seq::empty());
            },
            ScanReply::Scanned { head, logs } => {
                if *head > self.last_processed_block {
                    let mut i: usize = 0;
                    assert(request_views(requests@) =~= decoded_requests(
                        logs@.subrange(0, 0),
                    ));
                    while i < logs.len()
                        invariant
                            i <= logs.len(),
                            request_views(requests@) == decoded_requests(
                                logs@.subrange(0, i as int),
                            ),
                        decreases logs.len() - i,
                    {
                        let ghost before = request_views(requests@);
                        assert(logs@.subrange(0, i + 1).drop_last() =~= logs@.subrange(
                            0,
                            i as int,
                        ));
                        assert(logs@.subrange(0, i + 1).last() == logs@[i as int]);
                        match self.parse_compute_request_event(&logs[i]) {
                            Ok(request) => {
                                requests.push(request);
                                assert(request_views(requests@) =~= before.push(request@));
                            },
                            Err(_) => {},
                        }
                        i = i + 1;
                    }
                    assert(logs@.subrange(0, i as int) =~= logs@);
                    self.last_processed_block = *head;
                } else {
                    assert(request_views(requests@) =~= Seq::empty());
                }
            },
        }
        requests
    }
}

/// However the polls go, the watermark never moves back; and while the
/// ledger cannot be reached, it does not move at all.
pub proof fn lemma_watermark_monotone(watermark: u64, replies: Seq<ScanReply>)
    ensures
        watermark_after_all(watermark, replies) >= watermark,
        (forall|i: int| 0 <= i < replies.len() ==> (#[trigger] replies[i]) is Unreachable)
            ==> watermark_after_all(watermark, replies) == watermark,
    decreases replies.len(),
{
    if replies.len() > 0 {
        lemma_watermark_monotone(watermark, replies.drop_last());
        if forall|i: int| 0 <= i < replies.len() ==> (#[trigger] replies[i]) is Unreachable {
            assert forall|i: int| 0 <= i < replies.drop_last().len() implies (
            #[trigger] replies.drop_last()[i]) is Unreachable by {
                assert(replies.drop_last()[i] == replies[i]);
            }
            assert(replies.last() == replies[replies.len() - 1]);
        }
    }
}

/// A poll that extends a sequence of polls leaves the watermark at least
/// where they left it.
pub proof fn lemma_watermark_extends(watermark: u64, replies: Seq<ScanReply>, next: ScanReply)
    ensures
        watermark_after_all(watermark, replies.push(next)) >= watermark_after_all(
            watermark,
            replies,
        ),
        next is Unreachable ==> watermark_after_all(watermark, replies.push(next))
            == watermark_after_all(watermark, replies),
{
    assert(replies.push(next).drop_last() =~= replies);
}

} // verus!
