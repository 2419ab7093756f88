use function_layer::encoding::ExecutionResult;
use function_layer::error::{ErrorKind, TaskError};
use function_layer::executor::CodeModule;
use function_layer::js_executor::{mentions_env_file, typed_result, JsExecutor, ProcessOutput};
use function_layer::json::{JsonItem, JsonValue};

fn module(imports: &str, function: &str) -> CodeModule {
    CodeModule { function: function.to_string(), imports: imports.to_string() }
}

fn finished(stdout: &str) -> ProcessOutput {
    ProcessOutput { success: true, stdout: stdout.as_bytes().to_vec() }
}

fn limbs_of(result: ExecutionResult) -> Vec<[u64; 4]> {
    match result {
        ExecutionResult::UintArray(values) => values.iter().map(|v| v.limbs).collect(),
        ExecutionResult::Uint(value) => vec![value.limbs],
        other => panic!("no integers: {:?}", other),
    }
}

#[test]
fn mentions_env_file_finds_the_marker_anywhere() {
    assert!(mentions_env_file(".env"));
    assert!(mentions_env_file("require('dotenv').config({ path: '.env' })"));
    assert!(mentions_env_file("process.env.SECRET"));
    assert!(mentions_env_file("x.env"));
    assert!(mentions_env_file(".envs"));
    assert!(mentions_env_file("é.env"));
}

#[test]
fn mentions_env_file_needs_all_four_characters_in_a_row() {
    assert!(!mentions_env_file(""));
    assert!(!mentions_env_file(".en"));
    assert!(!mentions_env_file("env"));
    assert!(!mentions_env_file(". env"));
    assert!(!mentions_env_file(".ENV"));
    assert!(!mentions_env_file("() => { return 5 + 3; }"));
}

#[test]
fn rejection_scenario_module_that_refers_to_the_env_file() {
    let js = JsExecutor::new();
    let in_function = module("", "() => require('fs').readFileSync('.env')");
    let error = js.prepare(&in_function).unwrap_err();
    assert_eq!(error, TaskError::ForbiddenEnvReference);
    assert_eq!(error.kind(), ErrorKind::Validation);
    let in_imports = module("import x from './.env';", "() => 1");
    assert_eq!(js.prepare(&in_imports).unwrap_err(), TaskError::ForbiddenEnvReference);
    let output = finished("8\n");
    assert_eq!(js.execute(&in_function, &output).unwrap_err(), TaskError::ForbiddenEnvReference);
    assert_eq!(js.execute(&in_imports, &output).unwrap_err(), TaskError::ForbiddenEnvReference);
}

#[test]
fn prepare_lays_out_manifest_module_and_harness() {
    let plan = JsExecutor::new().prepare(&module("", "() => { return 5 + 3; }")).unwrap();
    assert_eq!(plan.files.len(), 3);
    assert_eq!(plan.files[0].name, "package.json");
    assert_eq!(
        plan.files[0].contents,
        "{\n            \"type\": \"module\",\n            \"dependencies\": {}\n        }"
    );
    assert_eq!(plan.files[1].name, "index.js");
    assert_eq!(plan.files[1].contents, "\n\nexport const run = () => { return 5 + 3; }");
    assert_eq!(plan.files[2].name, "executor.js");
    assert_eq!(
        plan.files[2].contents,
        "\nimport { run } from './index.js';\n\nasync function main() {\n    try {\n        const result = await run();\n        console.log(JSON.stringify(result));\n    } catch (error) {\n        console.error(error);\n        process.exit(1);\n    }\n}\n\nmain();\n"
    );
    assert_eq!(plan.entry, "executor.js");
    assert!(!plan.install_dependencies);
    assert_eq!(plan.run_seconds, 30);
    assert_eq!(plan.install_seconds, 120);
    assert_eq!(plan.output_limit, 1_048_576);
}

#[test]
fn prepare_installs_dependencies_only_where_imports_are_declared() {
    let js = JsExecutor::new();
    let with = js.prepare(&module("import _ from 'lodash';", "() => _.sum([1, 2])")).unwrap();
    assert!(with.install_dependencies);
    assert_eq!(
        with.files[1].contents,
        "import _ from 'lodash';\n\nexport const run = () => _.sum([1, 2])"
    );
    let without = js.prepare(&module("", "() => 1")).unwrap();
    assert!(!without.install_dependencies);
}

#[test]
fn interpret_a_bare_number() {
    let result = JsExecutor::new().interpret(&finished("8\n")).unwrap();
    assert_eq!(limbs_of(result), vec![[8, 0, 0, 0]]);
}

#[test]
fn interpret_a_bare_boolean() {
    let js = JsExecutor::new();
    assert!(matches!(js.interpret(&finished("true\n")), Ok(ExecutionResult::Bool(true))));
    assert!(matches!(js.interpret(&finished("false")), Ok(ExecutionResult::Bool(false))));
}

#[test]
fn interpret_an_array_of_numbers() {
    let result = JsExecutor::new().interpret(&finished("[1,2,18446744073709551615]\n")).unwrap();
    assert_eq!(limbs_of(result), vec![[1, 0, 0, 0], [2, 0, 0, 0], [u64::MAX, 0, 0, 0]]);
}

#[test]
fn interpret_an_array_of_booleans() {
    match JsExecutor::new().interpret(&finished("[true,false,true]")) {
        Ok(ExecutionResult::BoolArray(values)) => assert_eq!(values, vec![true, false, true]),
        other => panic!("no booleans: {:?}", other),
    }
}

#[test]
fn interpret_an_empty_array_as_integers() {
    match JsExecutor::new().interpret(&finished("[]")) {
        Ok(ExecutionResult::UintArray(values)) => assert!(values.is_empty()),
        other => panic!("no integers: {:?}", other),
    }
}

#[test]
fn unsupported_type_scenario_mixed_array() {
    let error = JsExecutor::new().interpret(&finished("[1,true]\n")).unwrap_err();
    assert_eq!(error, TaskError::UnsupportedArray);
    assert_eq!(error.kind(), ErrorKind::Execution);
    let error = JsExecutor::new().interpret(&finished("[true,1]")).unwrap_err();
    assert_eq!(error, TaskError::UnsupportedArray);
    let ok = module("", "() => [1, true]");
    let error = JsExecutor::new().execute(&ok, &finished("[1,true]\n")).unwrap_err();
    assert_eq!(error, TaskError::UnsupportedArray);
}

#[test]
fn interpret_rejects_arrays_of_other_things() {
    let js = JsExecutor::new();
    assert_eq!(js.interpret(&finished("[\"a\"]")).unwrap_err(), TaskError::UnsupportedArray);
    assert_eq!(js.interpret(&finished("[null]")).unwrap_err(), TaskError::UnsupportedArray);
    assert_eq!(js.interpret(&finished("[[1]]")).unwrap_err(), TaskError::UnsupportedArray);
    assert_eq!(js.interpret(&finished("[1,\"a\"]")).unwrap_err(), TaskError::UnsupportedArray);
}

#[test]
fn interpret_cuts_numbers_in_an_array_down_to_their_integer_part() {
    let js = JsExecutor::new();
    assert_eq!(
        limbs_of(js.interpret(&finished("[1.5,2]")).unwrap()),
        vec![[1, 0, 0, 0], [2, 0, 0, 0]]
    );
    assert_eq!(
        limbs_of(js.interpret(&finished("[0.9,7.999,1e2,2.5e1]\n")).unwrap()),
        vec![[0, 0, 0, 0], [7, 0, 0, 0], [100, 0, 0, 0], [25, 0, 0, 0]]
    );
    assert_eq!(limbs_of(js.interpret(&finished("[1.5]")).unwrap()), vec![[1, 0, 0, 0]]);
    let ok = module("", "() => [1.5, 2]");
    assert_eq!(
        limbs_of(js.execute(&ok, &finished("[1.5,2]\n")).unwrap()),
        vec![[1, 0, 0, 0], [2, 0, 0, 0]]
    );
}

#[test]
fn interpret_keeps_integers_beyond_sixty_four_bits() {
    let js = JsExecutor::new();
    assert_eq!(
        limbs_of(js.interpret(&finished("[18446744073709551616,1]")).unwrap()),
        vec![[0, 1, 0, 0], [1, 0, 0, 0]]
    );
    let expected = ethers::types::U256::from_dec_str("1000000000000000019884624838656").unwrap();
    assert_eq!(limbs_of(js.interpret(&finished("[1e30]")).unwrap()), vec![expected.0]);
    assert_eq!(limbs_of(js.interpret(&finished("1e30")).unwrap()), vec![expected.0]);
    let high = ethers::types::U256::from(1u64) << 255;
    let text = format!("[{:e}]", 2f64.powi(255));
    assert_eq!(limbs_of(js.interpret(&finished(&text)).unwrap()), vec![high.0]);
}

#[test]
fn interpret_cuts_a_bare_number_down_to_its_integer_part() {
    let js = JsExecutor::new();
    assert_eq!(limbs_of(js.interpret(&finished("2.5")).unwrap()), vec![[2, 0, 0, 0]]);
    assert_eq!(limbs_of(js.interpret(&finished("0.25")).unwrap()), vec![[0, 0, 0, 0]]);
    assert_eq!(limbs_of(js.interpret(&finished("-0.0")).unwrap()), vec![[0, 0, 0, 0]]);
    assert_eq!(limbs_of(js.interpret(&finished("5e-324")).unwrap()), vec![[0, 0, 0, 0]]);
}

#[test]
fn interpret_rejects_numbers_below_zero_or_beyond_256_bits() {
    let js = JsExecutor::new();
    assert_eq!(js.interpret(&finished("-1")).unwrap_err(), TaskError::NumberConversion);
    assert_eq!(js.interpret(&finished("-0.5")).unwrap_err(), TaskError::NumberConversion);
    assert_eq!(js.interpret(&finished("[1,-2]")).unwrap_err(), TaskError::NumberConversion);
    assert_eq!(js.interpret(&finished("[-1.5,2]")).unwrap_err(), TaskError::NumberConversion);
    assert_eq!(js.interpret(&finished("1e300")).unwrap_err(), TaskError::NumberConversion);
    assert_eq!(js.interpret(&finished("[1,1e78]")).unwrap_err(), TaskError::NumberConversion);
    let text = format!("[{:e}]", 2f64.powi(256));
    assert_eq!(js.interpret(&finished(&text)).unwrap_err(), TaskError::NumberConversion);
    assert_eq!(TaskError::NumberConversion.kind(), ErrorKind::Execution);
}

#[test]
fn interpret_rejects_other_shapes() {
    let js = JsExecutor::new();
    assert_eq!(js.interpret(&finished("null")).unwrap_err(), TaskError::UnsupportedType);
    assert_eq!(js.interpret(&finished("\"8\"")).unwrap_err(), TaskError::UnsupportedType);
    assert_eq!(js.interpret(&finished("{\"a\":1}")).unwrap_err(), TaskError::UnsupportedType);
}

#[test]
fn interpret_a_failed_process() {
    let output = ProcessOutput { success: false, stdout: b"8\n".to_vec() };
    assert_eq!(JsExecutor::new().interpret(&output).unwrap_err(), TaskError::ProcessFailed);
}

#[test]
fn interpret_output_that_is_not_utf8() {
    let output = ProcessOutput { success: true, stdout: vec![0x38, 0xff, 0xfe] };
    assert_eq!(JsExecutor::new().interpret(&output).unwrap_err(), TaskError::OutputNotUtf8);
}

#[test]
fn interpret_output_that_is_not_json() {
    let js = JsExecutor::new();
    assert_eq!(js.interpret(&finished("")).unwrap_err(), TaskError::OutputNotJson);
    assert_eq!(js.interpret(&finished("undefined\n")).unwrap_err(), TaskError::OutputNotJson);
    assert_eq!(js.interpret(&finished("8\n9\n")).unwrap_err(), TaskError::OutputNotJson);
}

#[test]
fn execute_of_an_acceptable_module_is_the_interpreted_output() {
    let js = JsExecutor::new();
    let ok = module("", "() => { return 5 + 3; }");
    assert_eq!(limbs_of(js.execute(&ok, &finished("8\n")).unwrap()), vec![[8, 0, 0, 0]]);
    let failed = ProcessOutput { success: false, stdout: vec![] };
    assert_eq!(js.execute(&ok, &failed).unwrap_err(), TaskError::ProcessFailed);
}

#[test]
fn typed_result_of_values_built_by_hand() {
    let one = JsonItem::Number(Some(1), Some(1f64.to_bits()));
    let mixed = JsonValue::Array(vec![one, JsonItem::Bool(true)]);
    assert_eq!(typed_result(&mixed).unwrap_err(), TaskError::UnsupportedArray);
    let numbers = JsonValue::Array(vec![
        JsonItem::Number(Some(4), Some(4f64.to_bits())),
        JsonItem::Number(None, Some(5.75f64.to_bits())),
        JsonItem::Number(Some(6), None),
    ]);
    assert_eq!(
        limbs_of(typed_result(&numbers).unwrap()),
        vec![[4, 0, 0, 0], [5, 0, 0, 0], [6, 0, 0, 0]]
    );
    let negative = JsonValue::Array(vec![
        JsonItem::Number(Some(4), Some(4f64.to_bits())),
        JsonItem::Number(None, Some((-3f64).to_bits())),
    ]);
    assert_eq!(typed_result(&negative).unwrap_err(), TaskError::NumberConversion);
    let unknown = JsonValue::Array(vec![JsonItem::Number(None, None)]);
    assert_eq!(typed_result(&unknown).unwrap_err(), TaskError::NumberConversion);
    let nested = JsonValue::Array(vec![JsonItem::Nested]);
    assert_eq!(typed_result(&nested).unwrap_err(), TaskError::UnsupportedArray);
    let object = JsonValue::Object(vec![]);
    assert_eq!(typed_result(&object).unwrap_err(), TaskError::UnsupportedType);
    let text = JsonValue::Plain(JsonItem::String("8".to_string()));
    assert_eq!(typed_result(&text).unwrap_err(), TaskError::UnsupportedType);
}
