use function_layer::encoding::{bool_string, encode, ExecutionResult};
use function_layer::error::{ErrorKind, TaskError};
use function_layer::uint256::Uint256;

#[test]
fn encode_uint_eight_is_the_numeral_eight() {
    assert_eq!(encode(&ExecutionResult::Uint(Uint256::from_u64(8))), "8");
    assert_eq!(encode(&ExecutionResult::Uint(Uint256::from_u64(8))), "8");
}

#[test]
fn encode_bool_array_joins_with_single_commas() {
    assert_eq!(encode(&ExecutionResult::BoolArray(vec![true, false])), "true,false");
    assert_eq!(encode(&ExecutionResult::BoolArray(vec![true, false])), "true,false");
}

#[test]
fn encode_uint_array_has_no_brackets_and_no_spaces() {
    let values = vec![Uint256::from_u64(1), Uint256::from_u64(20), Uint256::from_u64(300)];
    assert_eq!(encode(&ExecutionResult::UintArray(values)), "1,20,300");
}

#[test]
fn encode_single_element_arrays_have_no_comma() {
    assert_eq!(encode(&ExecutionResult::UintArray(vec![Uint256::from_u64(5)])), "5");
    assert_eq!(encode(&ExecutionResult::BoolArray(vec![false])), "false");
}

#[test]
fn encode_empty_arrays_are_empty_text() {
    assert_eq!(encode(&ExecutionResult::UintArray(vec![])), "");
    assert_eq!(encode(&ExecutionResult::BoolArray(vec![])), "");
}

#[test]
fn encode_bool_is_true_or_false() {
    assert_eq!(encode(&ExecutionResult::Bool(true)), "true");
    assert_eq!(encode(&ExecutionResult::Bool(false)), "false");
    assert_eq!(bool_string(true), "true");
    assert_eq!(bool_string(false), "false");
}

#[test]
fn encode_bytes_is_lowercase_hex_without_prefix() {
    assert_eq!(encode(&ExecutionResult::Bytes(vec![0x01, 0xab, 0x00, 0xff, 0x10])), "01ab00ff10");
    assert_eq!(encode(&ExecutionResult::Bytes(vec![])), "");
}

#[test]
fn encode_uint_beyond_sixty_four_bits() {
    let value = Uint256 { limbs: [0, 1, 0, 0] };
    assert_eq!(encode(&ExecutionResult::Uint(value)), "18446744073709551616");
}

#[test]
fn every_failure_has_its_class() {
    assert_eq!(TaskError::UnsupportedLanguage.kind(), ErrorKind::Validation);
    assert_eq!(TaskError::FieldOutOfRange.kind(), ErrorKind::Validation);
    assert_eq!(TaskError::MalformedModule.kind(), ErrorKind::Validation);
    assert_eq!(TaskError::ForbiddenEnvReference.kind(), ErrorKind::Validation);
    assert_eq!(TaskError::CountUnavailable.kind(), ErrorKind::Transport);
    assert_eq!(TaskError::FetchFailed.kind(), ErrorKind::Retrieval);
    assert_eq!(TaskError::BundleNotJson.kind(), ErrorKind::Retrieval);
    assert_eq!(TaskError::SandboxFailed.kind(), ErrorKind::Execution);
    assert_eq!(TaskError::ProcessFailed.kind(), ErrorKind::Execution);
    assert_eq!(TaskError::OutputNotUtf8.kind(), ErrorKind::Execution);
    assert_eq!(TaskError::OutputNotJson.kind(), ErrorKind::Execution);
    assert_eq!(TaskError::UnsupportedArray.kind(), ErrorKind::Execution);
    assert_eq!(TaskError::NumberConversion.kind(), ErrorKind::Execution);
    assert_eq!(TaskError::UnsupportedType.kind(), ErrorKind::Execution);
    assert_eq!(TaskError::SigningFailed.kind(), ErrorKind::Submission);
    assert_eq!(TaskError::SignerMismatch.kind(), ErrorKind::Submission);
    assert_eq!(TaskError::TransactionFailed.kind(), ErrorKind::Submission);
}
