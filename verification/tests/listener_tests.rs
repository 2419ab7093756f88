use ethers::abi::Token;
use ethers::types::U256;
use function_layer::config::Config;
use function_layer::listener::{
    ComputeRequestCreated, DecodeError, EventListener, Log, ScanReply,
};

const EVENT: &str = "ComputeRequestCreated(uint256,string,string,uint256,uint256)";

fn word(value: u64) -> [u8; 32] {
    let mut bytes = [0u8; 32];
    bytes[24..].copy_from_slice(&value.to_be_bytes());
    bytes
}

fn data(uri: &str, language: &str, count: u64, block: u64) -> Vec<u8> {
    ethers::abi::encode(&[
        Token::String(uri.to_string()),
        Token::String(language.to_string()),
        Token::Uint(U256::from(count)),
        Token::Uint(U256::from(block)),
    ])
}

fn request_log(id: u64, uri: &str, language: &str, count: u64, block: u64) -> Log {
    Log {
        topics: vec![ethers::utils::keccak256(EVENT.as_bytes()), word(id)],
        data: data(uri, language, count, block),
    }
}

fn listener() -> EventListener {
    EventListener::new(Config::new("http://localhost:8545", "0xc0ffee", "0xdef"), "01".to_string())
}

#[test]
fn event_signature_is_the_hash_of_the_abi_signature() {
    assert_eq!(ComputeRequestCreated::signature(), ethers::utils::keccak256(EVENT.as_bytes()));
    assert_ne!(ComputeRequestCreated::signature(), [0u8; 32]);
    assert_eq!(
        ethers::utils::hex::encode(ComputeRequestCreated::signature()).len(),
        64
    );
}

#[test]
fn event_round_trip() {
    let event = ComputeRequestCreated::decode_log(&request_log(7, "abc", "js", 3, 100)).unwrap();
    assert_eq!(event.request_id.limbs, [7, 0, 0, 0]);
    assert_eq!(event.code_json, "abc");
    assert_eq!(event.code_lang, "js");
    assert_eq!(event.node_count.limbs, [3, 0, 0, 0]);
    assert_eq!(event.task_created_block.limbs, [100, 0, 0, 0]);
}

#[test]
fn event_round_trip_through_the_listener() {
    let request =
        listener().parse_compute_request_event(&request_log(7, "abc", "js", 3, 100)).unwrap();
    assert_eq!(request.request_id.limbs, [7, 0, 0, 0]);
    assert_eq!(request.code_json, "abc");
    assert_eq!(request.code_lang, "js");
    assert_eq!(request.node_count.limbs, [3, 0, 0, 0]);
    assert_eq!(request.task_created_block.limbs, [100, 0, 0, 0]);
}

#[test]
fn event_round_trip_of_large_and_long_fields() {
    let uri = "x".repeat(100);
    let mut log = request_log(0, &uri, "", 0, 0);
    log.topics[1] = [0xff; 32];
    log.data = ethers::abi::encode(&[
        Token::String(uri.clone()),
        Token::String(String::new()),
        Token::Uint(U256::MAX),
        Token::Uint(U256::from(1u64) << 64),
    ]);
    let event = ComputeRequestCreated::decode_log(&log).unwrap();
    assert_eq!(event.request_id.limbs, [u64::MAX; 4]);
    assert_eq!(event.code_json, uri);
    assert_eq!(event.code_lang, "");
    assert_eq!(event.node_count.limbs, [u64::MAX; 4]);
    assert_eq!(event.task_created_block.limbs, [0, 1, 0, 0]);
}

#[test]
fn decode_log_without_topics() {
    let log = Log { topics: vec![], data: data("abc", "js", 3, 100) };
    assert_eq!(ComputeRequestCreated::decode_log(&log).unwrap_err(), DecodeError::MissingSignature);
}

#[test]
fn decode_log_of_another_event() {
    let mut log = request_log(7, "abc", "js", 3, 100);
    log.topics[0] = ethers::utils::keccak256(b"Transfer(address,address,uint256)");
    assert_eq!(ComputeRequestCreated::decode_log(&log).unwrap_err(), DecodeError::WrongEvent);
    log.topics[0] = ethers::utils::keccak256(EVENT.as_bytes());
    log.topics[0][31] ^= 1;
    assert_eq!(ComputeRequestCreated::decode_log(&log).unwrap_err(), DecodeError::WrongEvent);
}

#[test]
fn decode_log_with_the_wrong_number_of_topics() {
    let mut log = request_log(7, "abc", "js", 3, 100);
    log.topics.pop();
    assert_eq!(ComputeRequestCreated::decode_log(&log).unwrap_err(), DecodeError::TopicCount);
    let mut log = request_log(7, "abc", "js", 3, 100);
    log.topics.push(word(1));
    assert_eq!(ComputeRequestCreated::decode_log(&log).unwrap_err(), DecodeError::TopicCount);
}

#[test]
fn decode_log_with_malformed_data() {
    let mut log = request_log(7, "abc", "js", 3, 100);
    log.data = vec![];
    assert_eq!(ComputeRequestCreated::decode_log(&log).unwrap_err(), DecodeError::MalformedData);
    let mut log = request_log(7, "abc", "js", 3, 100);
    log.data.truncate(40);
    assert_eq!(ComputeRequestCreated::decode_log(&log).unwrap_err(), DecodeError::MalformedData);
    let mut log = request_log(7, "abc", "js", 3, 100);
    log.data[0] = 0xff;
    assert_eq!(ComputeRequestCreated::decode_log(&log).unwrap_err(), DecodeError::MalformedData);
}

#[test]
fn new_listener_starts_at_block_zero() {
    let listener = listener();
    assert_eq!(listener.last_processed_block(), 0);
    assert_eq!(listener.contract_address(), "0xc0ffee");
    assert_eq!(listener.executor().contract_address, "0xc0ffee");
    assert_eq!(listener.executor().operator_key, "01");
    assert!(listener.executor().config.is_language_supported("js"));
}

#[test]
fn start_listening_moves_the_watermark_to_the_head() {
    let mut listener = listener();
    listener.start_listening(50);
    assert_eq!(listener.last_processed_block(), 50);
    listener.start_listening(40);
    assert_eq!(listener.last_processed_block(), 50);
    listener.start_listening(60);
    assert_eq!(listener.last_processed_block(), 60);
}

#[test]
fn scan_range_is_from_the_block_after_the_watermark_to_the_head() {
    let mut listener = listener();
    listener.start_listening(50);
    assert_eq!(listener.scan_range(49), None);
    assert_eq!(listener.scan_range(50), None);
    assert_eq!(listener.scan_range(51), Some((51, 51)));
    assert_eq!(listener.scan_range(75), Some((51, 75)));
    assert_eq!(listener.scan_range(u64::MAX), Some((51, u64::MAX)));
}

#[test]
fn poll_yields_requests_in_log_order_and_advances() {
    let mut listener = listener();
    listener.start_listening(10);
    let logs = vec![
        request_log(1, "first", "js", 1, 11),
        request_log(2, "second", "go", 2, 11),
        request_log(3, "third", "js", 3, 12),
    ];
    let requests = listener.poll(&ScanReply::Scanned { head: 12, logs });
    assert_eq!(listener.last_processed_block(), 12);
    let ids: Vec<u64> = requests.iter().map(|r| r.request_id.limbs[0]).collect();
    assert_eq!(ids, vec![1, 2, 3]);
    let uris: Vec<&str> = requests.iter().map(|r| r.code_json.as_str()).collect();
    assert_eq!(uris, vec!["first", "second", "third"]);
}

#[test]
fn poll_skips_logs_that_do_not_decode_and_still_advances() {
    let mut listener = listener();
    let mut broken = request_log(2, "broken", "js", 1, 5);
    broken.data.truncate(10);
    let mut foreign = request_log(4, "foreign", "js", 1, 5);
    foreign.topics[0] = [0; 32];
    let logs = vec![
        request_log(1, "a", "js", 1, 5),
        broken.clone(),
        request_log(3, "c", "js", 1, 5),
        foreign,
    ];
    let requests = listener.poll(&ScanReply::Scanned { head: 5, logs });
    let ids: Vec<u64> = requests.iter().map(|r| r.request_id.limbs[0]).collect();
    assert_eq!(ids, vec![1, 3]);
    assert_eq!(listener.last_processed_block(), 5);
    let requests = listener.poll(&ScanReply::Scanned { head: 6, logs: vec![broken] });
    assert!(requests.is_empty());
    assert_eq!(listener.last_processed_block(), 6);
}

#[test]
fn poll_on_transport_failure_keeps_the_watermark() {
    let mut listener = listener();
    listener.start_listening(10);
    let requests = listener.poll(&ScanReply::Unreachable("timeout".to_string()));
    assert!(requests.is_empty());
    assert_eq!(listener.last_processed_block(), 10);
    assert_eq!(listener.scan_range(12), Some((11, 12)));
}

#[test]
fn poll_without_a_new_block_yields_nothing() {
    let mut listener = listener();
    listener.start_listening(10);
    let logs = vec![request_log(1, "a", "js", 1, 10)];
    let requests = listener.poll(&ScanReply::Scanned { head: 10, logs: logs.clone() });
    assert!(requests.is_empty());
    assert_eq!(listener.last_processed_block(), 10);
    let requests = listener.poll(&ScanReply::Scanned { head: 9, logs });
    assert!(requests.is_empty());
    assert_eq!(listener.last_processed_block(), 10);
}

#[test]
fn watermark_never_decreases_over_a_sequence_of_polls() {
    let mut listener = listener();
    let replies = vec![
        ScanReply::Scanned { head: 5, logs: vec![] },
        ScanReply::Unreachable("down".to_string()),
        ScanReply::Scanned { head: 3, logs: vec![] },
        ScanReply::Scanned { head: 9, logs: vec![request_log(1, "a", "js", 1, 9)] },
        ScanReply::Unreachable("down".to_string()),
        ScanReply::Scanned { head: 9, logs: vec![] },
    ];
    let mut seen = vec![];
    for reply in &replies {
        let before = listener.last_processed_block();
        listener.poll(reply);
        assert!(listener.last_processed_block() >= before);
        if matches!(reply, ScanReply::Unreachable(_)) {
            assert_eq!(listener.last_processed_block(), before);
        }
        seen.push(listener.last_processed_block());
    }
    assert_eq!(seen, vec![5, 5, 5, 9, 9, 9]);
}
