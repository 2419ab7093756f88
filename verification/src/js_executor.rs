//! The JavaScript backend: what is put into the sandbox, and what is made of
//! what the interpreter wrote.

use crate::encoding::{outcome_value, uint_values, ExecutionResult, ResultValue};
use crate::error::TaskError;
use crate::executor::{CodeModule, ModuleText};
use crate::json::{
    item_values, parse_json, parsed_json, DocumentValue, ItemValue, JsonItem, JsonValue,
};
use crate::number::{optional_value, truncate_number, truncated};
use crate::uint256::Uint256;
use vstd::prelude::*;
use vstd::string::StringExecFns;
use vstd::utf8::{decode_utf8, encode_scalar, encode_utf8, valid_utf8};

verus! {

/// Whether the four bytes of `.env` stand in `bytes` from `at` on.
pub open spec fn env_marker_at(bytes: Seq<u8>, at: int) -> bool {
    &&& 0 <= at
    &&& at + 4 <= bytes.len()
    &&& bytes[at] == 0x2e
    &&& bytes[at + 1] == 0x65
    &&& bytes[at + 2] == 0x6e
    &&& bytes[at + 3] == 0x76
}

/// Whether `bytes` hold `.env` anywhere.
pub open spec fn holds_env_marker(bytes: Seq<u8>) -> bool {
    exists|at: int| env_marker_at(bytes, at)
}

/// Whether the module refers to the environment file: whether the UTF-8
/// bytes of its imports or of its function hold `.env`.
pub open spec fn refers_to_env_file(module: ModuleText) -> bool {
    holds_env_marker(encode_utf8(module.imports)) || holds_env_marker(
        encode_utf8(module.function),
    )
}

/// The UTF-8 bytes of two texts in a row are the bytes of the first followed
/// by the bytes of the second.
pub proof fn lemma_encode_utf8_concat(first: Seq<char>, second: Seq<char>)
    ensures
        encode_utf8(first + second) == encode_utf8(first) + encode_utf8(second),
    decreases first.len(),
{
    if first.len() == 0 {
        assert(first + second =~= second);
        assert(encode_utf8(first) + encode_utf8(second) =~= encode_utf8(second));
    } else {
        assert((first + second).drop_first() =~= first.drop_first() + second);
        assert((first + second)[0] == first[0]);
        lemma_encode_utf8_concat(first.drop_first(), second);
        assert(encode_scalar(first[0] as u32) + (encode_utf8(first.drop_first()) + encode_utf8(
            second,
        )) =~= (encode_scalar(first[0] as u32) + encode_utf8(first.drop_first())) + encode_utf8(
            second,
        ));
    }
}

/// A text that holds the characters `.env` in a row, wherever and among
/// whatever other characters, holds the marker in its UTF-8 bytes: no such
/// text passes for one that does not refer to the environment file.
pub proof fn lemma_env_text_is_found(text: Seq<char>, at: int)
    requires
        0 <= at,
        at + 4 <= text.len(),
        text[at] == '.',
        text[at + 1] == 'e',
        text[at + 2] == 'n',
        text[at + 3] == 'v',
    ensures
        holds_env_marker(encode_utf8(text)),
{
    let before = text.subrange(0, at);
    let marker = text.subrange(at, at + 4);
    let after = text.subrange(at + 4, text.len() as int);
    assert(text =~= before + marker + after);
    lemma_encode_utf8_concat(before + marker, after);
    lemma_encode_utf8_concat(before, marker);
    assert(encode_utf8(marker) =~= seq![0x2eu8, 0x65u8, 0x6eu8, 0x76u8]) by {
        reveal_with_fuel(encode_utf8, 5);
        assert(0x2eu32 & 0x7F == 0x2e) by (bit_vector);
        assert(0x65u32 & 0x7F == 0x65) by (bit_vector);
        assert(0x6eu32 & 0x7F == 0x6e) by (bit_vector);
        assert(0x76u32 & 0x7F == 0x76) by (bit_vector);
        assert(marker[0] == '.' && marker[1] == 'e' && marker[2] == 'n' && marker[3] == 'v');
        assert(marker.drop_first()[0] == 'e');
        assert(marker.drop_first().drop_first()[0] == 'n');
        assert(marker.drop_first().drop_first().drop_first()[0] == 'v');
        assert(marker.drop_first().drop_first().drop_first().drop_first().len() == 0);
    }
    let bytes = encode_utf8(text);
    let start = encode_utf8(before).len() as int;
    assert(bytes =~= encode_utf8(before) + seq![0x2eu8, 0x65u8, 0x6eu8, 0x76u8] + encode_utf8(
        after,
    ));
    assert(env_marker_at(bytes, start));
}

/// Whether `text` holds `.env`.
pub fn mentions_env_file(text: &str) -> (found: bool)
    ensures
        found == holds_env_marker(encode_utf8(text@)),
{
    let bytes = text.as_bytes();
    let n = bytes.len();
    if n < 4 {
        return false;
    }
    let mut at: usize = 0;
    while at <= n - 4
        invariant
            n == bytes@.len(),
            4 <= n,
            at <= n - 3,
            bytes@ == encode_utf8(text@),
            forall|k: int| 0 <= k < at ==> !env_marker_at(bytes@, k),
        decreases n - at,
    {
        if bytes[at] == 0x2e && bytes[at + 1] == 0x65 && bytes[at + 2] == 0x6e && bytes[at + 3]
            == 0x76 {
            assert(env_marker_at(bytes@, at as int));
            return true;
        }
        at = at + 1;
    }
    false
}

/// The seconds after which a run is killed.
pub const RUN_SECONDS: u64 = 30;

/// The seconds after which the installation of dependencies is killed.
pub const INSTALL_SECONDS: u64 = 120;

/// The number of bytes of standard output beyond which a run has failed.
pub const OUTPUT_LIMIT: u64 = 1048576;

/// A file to write into the sandbox directory.
#[derive(Clone, Debug)]
pub struct SandboxFile {
    pub name: String,
    pub contents: String,
}

/// What a run needs: the files of the working directory, whether declared
/// dependencies are installed first, the file that the interpreter is
/// started on, and the bounds within which the run has to stay.
#[derive(Clone, Debug)]
pub struct SandboxPlan {
    pub files: Vec<SandboxFile>,
    pub install_dependencies: bool,
    pub entry: String,
    pub install_seconds: u64,
    pub run_seconds: u64,
    pub output_limit: u64,
}

/// The text of a sandbox plan: each file as its name and its contents.
pub struct PlanText {
    pub files: Seq<(Seq<char>, Seq<char>)>,
    pub install_dependencies: bool,
    pub entry: Seq<char>,
    pub install_seconds: u64,
    pub run_seconds: u64,
    pub output_limit: u64,
}

impl View for SandboxPlan {
    type V = PlanText;

    open spec fn view(&self) -> PlanText {
        PlanText {
            files: Seq::new(
                self.files@.len(),
                |i: int| (self.files@[i].name@, self.files@[i].contents@),
            ),
            install_dependencies: self.install_dependencies,
            entry: self.entry@,
            install_seconds: self.install_seconds,
            run_seconds: self.run_seconds,
            output_limit: self.output_limit,
        }
    }
}

/// What the interpreter left behind.
#[derive(Clone, Debug)]
pub struct ProcessOutput {
    /// Whether the process exited with status zero.
    pub success: bool,
    /// The bytes written to standard output.
    pub stdout: Vec<u8>,
}

/// The text of the module file: the imports, an empty line, and the function
/// as the named export `run`.
pub open spec fn module_source(module: ModuleText) -> Seq<char> {
    module.imports + "\n\nexport const run = "@ + module.function
}

/// The package manifest of the sandbox.
pub open spec fn manifest_text() -> Seq<char> {
    "{\n            \"type\": \"module\",\n            \"dependencies\": {}\n        }"@
}

/// The harness: it calls the export, prints what it returned as one line of
/// JSON, and exits with status 1 where the call throws.
pub open spec fn harness_text() -> Seq<char> {
    "\nimport { run } from './index.js';\n\nasync function main() {\n    try {\n        const result = await run();\n        console.log(JSON.stringify(result));\n    } catch (error) {\n        console.error(error);\n        process.exit(1);\n    }\n}\n\nmain();\n"@
}

/// The sandbox for `module`: manifest, module file and harness, in this
/// order, with dependencies installed exactly where the module declares
/// imports, and with the fixed bounds on time and output.
pub open spec fn planned(module: ModuleText) -> PlanText {
    PlanText {
        files: seq![
            ("package.json"@, manifest_text()),
            ("index.js"@, module_source(module)),
            ("executor.js"@, harness_text()),
        ],
        install_dependencies: module.imports.len() > 0,
        entry: "executor.js"@,
        install_seconds: INSTALL_SECONDS,
        run_seconds: RUN_SECONDS,
        output_limit: OUTPUT_LIMIT,
    }
}

/// The plan for `module`, or `ForbiddenEnvReference` where the module refers
/// to the environment file.
pub open spec fn prepared(module: ModuleText) -> Result<PlanText, TaskError> {
    if refers_to_env_file(module) {
        Err(TaskError::ForbiddenEnvReference)
    } else {
        Ok(planned(module))
    }
}

/// Whether every item is a number.
pub open spec fn all_numbers(items: Seq<ItemValue>) -> bool {
    forall|i: int| 0 <= i < items.len() ==> (#[trigger] items[i]) is Number
}

/// The unsigned 256-bit integer that an item is taken for, where it is a
/// number that has one.
pub open spec fn truncated_of(item: ItemValue) -> Option<nat> {
    match item {
        ItemValue::Number(unsigned, double) => truncated(unsigned, double),
        _ => None,
    }
}

/// Whether every item is a number that is taken for an unsigned 256-bit
/// integer.
pub open spec fn all_truncate(items: Seq<ItemValue>) -> bool {
    forall|i: int| 0 <= i < items.len() ==> truncated_of(#[trigger] items[i]) is Some
}

/// Whether every item is a boolean.
pub open spec fn all_booleans(items: Seq<ItemValue>) -> bool {
    forall|i: int| 0 <= i < items.len() ==> (#[trigger] items[i]) is Bool
}

/// The unsigned 256-bit integer that a number is taken for; 0 for anything
/// else.
pub open spec fn unsigned_of(item: ItemValue) -> nat {
    match truncated_of(item) {
        Some(n) => n,
        None => 0,
    }
}

/// The value of a boolean; `false` for anything else.
pub open spec fn boolean_of(item: ItemValue) -> bool {
    match item {
        ItemValue::Bool(b) => b,
        _ => false,
    }
}

/// The unsigned values of the items, in order.
pub open spec fn unsigned_values_of(items: Seq<ItemValue>) -> Seq<nat> {
    Seq::new(items.len(), |i: int| unsigned_of(items[i]))
}

/// The booleans of the items, in order.
pub open spec fn boolean_values_of(items: Seq<ItemValue>) -> Seq<bool> {
    Seq::new(items.len(), |i: int| boolean_of(items[i]))
}

/// The typed result of a JSON value.
///
/// An array of numbers gives `UintArray` (an empty array too), each element
/// cut down to its integer part; it fails with `NumberConversion` where one
/// of them is below zero or beyond 256 bits. An array of booleans gives
/// `BoolArray`; any other array fails with `UnsupportedArray`. A number gives
/// `Uint` in the same way, or fails with `NumberConversion`; a boolean gives
/// `Bool`; anything else fails with `UnsupportedType`.
pub open spec fn typed_value(value: DocumentValue) -> Result<ResultValue, TaskError> {
    match value {
        DocumentValue::Array(items) => {
            if all_numbers(items) {
                if all_truncate(items) {
                    Ok(ResultValue::UintArray(unsigned_values_of(items)))
                } else {
                    Err(TaskError::NumberConversion)
                }
            } else if all_booleans(items) {
                Ok(ResultValue::BoolArray(boolean_values_of(items)))
            } else {
                Err(TaskError::UnsupportedArray)
            }
        },
        DocumentValue::Plain(ItemValue::Number(unsigned, double)) => match truncated(
            unsigned,
            double,
        ) {
            Some(n) => Ok(ResultValue::Uint(n)),
            None => Err(TaskError::NumberConversion),
        },
        DocumentValue::Plain(ItemValue::Bool(b)) => Ok(ResultValue::Bool(b)),
        _ => Err(TaskError::UnsupportedType),
    }
}

/// An array that holds both a number and a boolean has no typed result: it
/// is never coerced to one of the two kinds.
pub proof fn lemma_mixed_array_is_rejected(items: Seq<ItemValue>, i: int, j: int)
    requires
        0 <= i < items.len(),
        0 <= j < items.len(),
        items[i] is Number,
        items[j] is Bool,
    ensures
        typed_value(DocumentValue::Array(items)) == Err::<ResultValue, TaskError>(
            TaskError::UnsupportedArray,
        ),
{
}

/// What is made of a finished run: `ProcessFailed` where the process did not
/// exit with status zero, `OutputNotUtf8` or `OutputNotJson` where standard
/// output is not a JSON text, else the typed result of the value it holds.
pub open spec fn interpreted_value(success: bool, stdout: Seq<u8>) -> Result<
    ResultValue,
    TaskError,
> {
    if !success {
        Err(TaskError::ProcessFailed)
    } else if !valid_utf8(stdout) {
        Err(TaskError::OutputNotUtf8)
    } else {
        match parsed_json(decode_utf8(stdout)) {
            None => Err(TaskError::OutputNotJson),
            Some(value) => typed_value(value),
        }
    }
}

/// The result of running `module`, given what the interpreter left behind: a
/// module that refers to the environment file fails with
/// `ForbiddenEnvReference` whatever the output.
pub open spec fn run_value(module: ModuleText, success: bool, stdout: Seq<u8>) -> Result<
    ResultValue,
    TaskError,
> {
    if refers_to_env_file(module) {
        Err(TaskError::ForbiddenEnvReference)
    } else {
        interpreted_value(success, stdout)
    }
}

/// Decodes `bytes` with `String::from_utf8`, which accepts exactly the valid
/// UTF-8 byte strings and gives the text that they encode.
#[verifier::external_body]
fn text_from_utf8(bytes: &Vec<u8>) -> (text: Option<String>)
    ensures
        match text {
            Some(t) => valid_utf8(bytes@) && t@ == decode_utf8(bytes@),
            None => !valid_utf8(bytes@),
        },
{
    String::from_utf8(bytes.clone()).ok()
}

fn is_all_numbers(items: &Vec<JsonItem>) -> (yes: bool)
    ensures
        yes == all_numbers(item_values(items@)),
{
    let mut i: usize = 0;
    while i < items.len()
        invariant
            i <= items.len(),
            forall|k: int| 0 <= k < i ==> (#[trigger] item_values(items@)[k]) is Number,
        decreases items.len() - i,
    {
        match &items[i] {
            JsonItem::Number(_, _) => {},
            _ => {
                assert(!(item_values(items@)[i as int] is Number));
                return false;
            },
        }
        i = i + 1;
    }
    true
}

fn unsigned_values(items: &Vec<JsonItem>) -> (values: Option<Vec<Uint256>>)
    ensures
        match values {
            Some(v) => all_truncate(item_values(items@)) && uint_values(v@) == unsigned_values_of(
                item_values(items@),
            ),
            None => !all_truncate(item_values(items@)),
        },
{
    let mut values: Vec<Uint256> = Vec::new();
    let mut i: usize = 0;
    while i < items.len()
        invariant
            i <= items.len(),
            values@.len() == i,
            forall|k: int|
                0 <= k < i ==> truncated_of(#[trigger] item_values(items@)[k]) == Some(
                    values@[k]@,
                ),
        decreases items.len() - i,
    {
        let integer = match &items[i] {
            JsonItem::Number(unsigned, double) => truncate_number(*unsigned, *double),
            _ => None,
        };
        match integer {
            Some(n) => {
                values.push(n);
            },
            None => {
                assert(truncated_of(item_values(items@)[i as int]) is None);
                return None;
            },
        }
        i = i + 1;
    }
    assert(uint_values(values@) =~= unsigned_values_of(item_values(items@)));
    Some(values)
}

fn boolean_values(items: &Vec<JsonItem>) -> (values: Option<Vec<bool>>)
    ensures
        match values {
            Some(v) => all_booleans(item_values(items@)) && v@ == boolean_values_of(
                item_values(items@),
            ),
            None => !all_booleans(item_values(items@)),
        },
{
    let mut values: Vec<bool> = Vec::new();
    let mut i: usize = 0;
    while i < items.len()
        invariant
            i <= items.len(),
            values@.len() == i,
            forall|k: int|
                0 <= k < i ==> ((#[trigger] item_values(items@)[k]) matches ItemValue::Bool(b)
                    && values@[k] == b),
        decreases items.len() - i,
    {
        match &items[i] {
            JsonItem::Bool(b) => {
                values.push(*b);
            },
            _ => {
                assert(!(item_values(items@)[i as int] is Bool));
                return None;
            },
        }
        i = i + 1;
    }
    assert(values@ =~= boolean_values_of(item_values(items@)));
    Some(values)
}

/// The typed result of a JSON value.
pub fn typed_result(value: &JsonValue) -> (outcome: Result<ExecutionResult, TaskError>)
    ensures
        outcome_value(outcome) == typed_value(value@),
{
    match value {
        JsonValue::Array(items) => {
            if is_all_numbers(items) {
                match unsigned_values(items) {
                    Some(values) => Ok(ExecutionResult::UintArray(values)),
                    None => Err(TaskError::NumberConversion),
                }
            } else {
                match boolean_values(items) {
                    Some(values) => Ok(ExecutionResult::BoolArray(values)),
                    None => Err(TaskError::UnsupportedArray),
                }
            }
        },
        JsonValue::Plain(JsonItem::Number(unsigned, double)) => match truncate_number(
            *unsigned,
            *double,
        ) {
            Some(n) => Ok(ExecutionResult::Uint(n)),
            None => Err(TaskError::NumberConversion),
        },
        JsonValue::Plain(JsonItem::Bool(b)) => Ok(ExecutionResult::Bool(*b)),
        _ => Err(TaskError::UnsupportedType),
    }
}

/// The text of a plan, or the failure in its place.
pub open spec fn plan_value(plan: Result<SandboxPlan, TaskError>) -> Result<PlanText, TaskError> {
    match plan {
        Ok(p) => Ok(p@),
        Err(e) => Err(e),
    }
}

/// The backend that runs JavaScript modules.
#[derive(Clone, Copy, Debug)]
pub struct JsExecutor;

impl JsExecutor {
    pub fn new() -> (backend: Self) {
        JsExecutor
    }

    /// Plans the sandbox for `module`. A module that refers to the
    /// environment file is rejected with `ForbiddenEnvReference`, and no plan
    /// is made for it.
    pub fn prepare(&self, module: &CodeModule) -> (plan: Result<SandboxPlan, TaskError>)
        ensures
            plan_value(plan) == prepared(module@),
    {
        if mentions_env_file(module.imports.as_str()) || mentions_env_file(
            module.function.as_str(),
        ) {
            return Err(TaskError::ForbiddenEnvReference);
        }
        let mut source = module.imports.clone();
        source.append("\n\nexport const run = ");
        source.append(module.function.as_str());
        let mut files: Vec<SandboxFile> = Vec::new();
        files.push(
            SandboxFile {
                name: String::from_str("package.json"),
                contents: String::from_str(
                    "{\n            \"type\": \"module\",\n            \"dependencies\": {}\n        }",
                ),
            },
        );
        files.push(SandboxFile { name: String::from_str("index.js"), contents: source });
        files.push(
            SandboxFile {
                name: String::from_str("executor.js"),
                contents: String::from_str(
                    "\nimport { run } from './index.js';\n\nasync function main() {\n    try {\n        const result = await run();\n        console.log(JSON.stringify(result));\n    } catch (error) {\n        console.error(error);\n        process.exit(1);\n    }\n}\n\nmain();\n",
                ),
            },
        );
        let plan = SandboxPlan {
            files,
            install_dependencies: !module.imports.as_str().is_empty(),
            entry: String::from_str("executor.js"),
            install_seconds: INSTALL_SECONDS,
            run_seconds: RUN_SECONDS,
            output_limit: OUTPUT_LIMIT,
        };
        assert(plan@.files =~= planned(module@).files);
        Ok(plan)
    }

    /// Makes the typed result of what the interpreter left behind.
    pub fn interpret(&self, output: &ProcessOutput) -> (outcome: Result<ExecutionResult, TaskError>)
        ensures
            outcome_value(outcome) == interpreted_value(output.success, output.stdout@),
    {
        if !output.success {
            return Err(TaskError::ProcessFailed);
        }
        let text = match text_from_utf8(&output.stdout) {
            Some(text) => text,
            None => {
                return Err(TaskError::OutputNotUtf8);
            },
        };
        match parse_json(text.as_str()) {
            Some(value) => typed_result(&value),
            None => Err(TaskError::OutputNotJson),
        }
    }

    /// The result of running `module`, given what the interpreter left
    /// behind.
    pub fn execute(&self, module: &CodeModule, output: &ProcessOutput) -> (outcome: Result<
        ExecutionResult,
        TaskError,
    >)
        ensures
            outcome_value(outcome) == run_value(module@, output.success, output.stdout@),
    {
        if mentions_env_file(module.imports.as_str()) || mentions_env_file(
            module.function.as_str(),
        ) {
            return Err(TaskError::ForbiddenEnvReference);
        }
        self.interpret(output)
    }
}

} // verus!
