//! The task dispatcher: from a decoded request to a submitted result.

use crate::arweave::{fetched, ArweaveClient, ArweaveError};
use crate::config::Config;
pub use crate::encoding::ExecutionResult;
use crate::encoding::{encode, encoded, ResultValue};
use crate::error::TaskError;
use crate::js_executor::{
    prepared, refers_to_env_file, run_value, JsExecutor, PlanText, ProcessOutput, SandboxPlan,
};
use crate::json::{find_string, optional_text, string_member, DocumentValue, JsonValue};
use crate::listener::{ComputeRequest, RequestFields};
use crate::respond::{
    address_of_key, recovered_address, respond_to_task, signing_digest, submission_for,
    Submission, SubmissionFields, Task, TaskFields,
};
use crate::uint256::Uint256;
use vstd::prelude::*;

verus! {

/// A function body in source text, with the import declarations it needs.
#[derive(Clone, Debug)]
pub struct CodeModule {
    pub function: String,
    pub imports: String,
}

/// The text of a code module.
pub struct ModuleText {
    pub function: Seq<char>,
    pub imports: Seq<char>,
}

impl View for CodeModule {
    type V = ModuleText;

    open spec fn view(&self) -> ModuleText {
        ModuleText { function: self.function@, imports: self.imports@ }
    }
}

/// The code module that a bundle holds: the strings of its members
/// `function` and `imports`; `MalformedModule` where it is no object or one
/// of the two is missing or no string.
pub open spec fn bundled_module(value: DocumentValue) -> Result<ModuleText, TaskError> {
    match value {
        DocumentValue::Object(members) => match (
            string_member(members, "function"@),
            string_member(members, "imports"@),
        ) {
            (Some(function), Some(imports)) => Ok(ModuleText { function, imports }),
            _ => Err(TaskError::MalformedModule),
        },
        _ => Err(TaskError::MalformedModule),
    }
}

/// The text of a module, or the failure in its place.
pub open spec fn module_value(module: Result<CodeModule, TaskError>) -> Result<
    ModuleText,
    TaskError,
> {
    match module {
        Ok(m) => Ok(m@),
        Err(e) => Err(e),
    }
}

impl CodeModule {
    /// Reads a code module from a code bundle.
    pub fn from_json(value: &JsonValue) -> (module: Result<CodeModule, TaskError>)
        ensures
            module_value(module) == bundled_module(value@),
    {
        match value {
            JsonValue::Object(members) => {
                match (find_string(members, "function"), find_string(members, "imports")) {
                    (Some(function), Some(imports)) => Ok(CodeModule { function, imports }),
                    _ => Err(TaskError::MalformedModule),
                }
            },
            _ => Err(TaskError::MalformedModule),
        }
    }
}

/// A backend that runs code modules of one language.
#[derive(Clone, Copy, Debug, PartialEq, Eq, Structural)]
pub enum Backend {
    /// Runs `js` modules in a sandboxed interpreter.
    JavaScript,
    /// Stands in for a `go` runtime. It is not functional: it runs nothing
    /// and gives `Bool(true)` for every module.
    Go,
}

/// The backend registered for a language tag.
pub open spec fn backend_of(language: Seq<char>) -> Option<Backend> {
    if language == "js"@ {
        Some(Backend::JavaScript)
    } else if language == "go"@ {
        Some(Backend::Go)
    } else {
        None
    }
}

/// What the node has learned about a request, together with what it needs to
/// go on from there.
pub enum Step {
    /// A request was decoded from a log.
    Requested { request: ComputeRequest },
    /// The ledger was asked how many responses the task has; `None` where it
    /// could not be read.
    Counted { task: Task, count: Option<Uint256> },
    /// The gateway was asked for the code bundle; `None` where the request
    /// failed, else the body of the answer.
    Fetched { task: Task, response: Option<String> },
    /// The sandbox for `module` was run; `None` where it could not be set up
    /// or started.
    Ran { task: Task, module: CodeModule, output: Option<ProcessOutput> },
    /// The submission was sent; `accepted` says whether the transaction went
    /// through.
    Submitted { accepted: bool },
}

/// What the node does next for a request.
pub enum Action {
    /// Ask the ledger for the submission count of the task's request id.
    QueryCount { task: Task },
    /// Fetch the code bundle from `url`.
    Fetch { task: Task, url: String },
    /// Run `module` in the sandbox that `plan` describes.
    Run { task: Task, module: CodeModule, plan: SandboxPlan },
    /// Send the submission to the ledger.
    Submit { submission: Submission },
    /// Nothing more: the task ended with `outcome`.
    Finish { outcome: Result<(), TaskError> },
}

/// What an action holds.
pub enum ActionValue {
    QueryCount { task: TaskFields },
    Fetch { task: TaskFields, url: Seq<char> },
    Run { task: TaskFields, module: ModuleText, plan: PlanText },
    Submit { submission: SubmissionFields },
    Finish { outcome: Result<(), TaskError> },
}

impl View for Action {
    type V = ActionValue;

    open spec fn view(&self) -> ActionValue {
        match *self {
            Action::QueryCount { task } => ActionValue::QueryCount { task: task@ },
            Action::Fetch { task, url } => ActionValue::Fetch { task: task@, url: url@ },
            Action::Run { task, module, plan } => ActionValue::Run {
                task: task@,
                module: module@,
                plan: plan@,
            },
            Action::Submit { submission } => ActionValue::Submit { submission: submission@ },
            Action::Finish { outcome } => ActionValue::Finish { outcome },
        }
    }
}

/// The address from which the bundle `uri` is fetched.
pub open spec fn bundle_url(uri: Seq<char>) -> Seq<char> {
    "https://arweave.net"@ + "/"@ + uri
}

/// The first decision on a request. A request in an unsupported language is
/// rejected with `UnsupportedLanguage`, one whose id or creation block does
/// not fit in 32 bits with `FieldOutOfRange`; for any other the submission
/// count is asked for.
pub open spec fn admitted(config: Config, request: RequestFields) -> ActionValue {
    if !config.supports(request.code_lang) {
        ActionValue::Finish { outcome: Err(TaskError::UnsupportedLanguage) }
    } else if request.request_id > u32::MAX || request.task_created_block > u32::MAX {
        ActionValue::Finish { outcome: Err(TaskError::FieldOutOfRange) }
    } else {
        ActionValue::QueryCount {
            task: TaskFields {
                code_arweave_uri: request.code_json,
                language: request.code_lang,
                response_count: request.node_count,
                task_created_block: request.task_created_block as u32,
                request_id: request.request_id as u32,
            },
        }
    }
}

/// The decision on the submission count. Where the count already reaches the
/// number of responses asked for, the task ends with success and nothing is
/// fetched or run; where the count could not be read, it ends with
/// `CountUnavailable`.
pub open spec fn counted(task: TaskFields, count: Option<nat>) -> ActionValue {
    match count {
        None => ActionValue::Finish { outcome: Err(TaskError::CountUnavailable) },
        Some(c) => if c >= task.response_count {
            ActionValue::Finish { outcome: Ok(()) }
        } else {
            ActionValue::Fetch { task, url: bundle_url(task.code_arweave_uri) }
        },
    }
}

/// The decision on a result: its canonical text is signed and submitted; a
/// failed run, or a failure to sign, ends the task.
pub open spec fn concluded(key: Seq<char>, task: TaskFields, result: Result<ResultValue, TaskError>)
    -> ActionValue {
    match result {
        Err(e) => ActionValue::Finish { outcome: Err(e) },
        Ok(value) => match submission_for(key, task, encoded(value)) {
            Ok(submission) => ActionValue::Submit { submission },
            Err(e) => ActionValue::Finish { outcome: Err(e) },
        },
    }
}

/// The decision on the gateway's answer. No answer ends the task with
/// `FetchFailed`, a body that is not JSON with `BundleNotJson`, one that is
/// no code bundle with `MalformedModule`, a language without a backend with
/// `UnsupportedLanguage`. A JavaScript module is run in its sandbox, unless it
/// is rejected; the stand-in backend concludes at once with `Bool(true)`.
pub open spec fn resolved(key: Seq<char>, task: TaskFields, response: Option<Seq<char>>)
    -> ActionValue {
    match fetched(response) {
        Err(ArweaveError::RequestError) => ActionValue::Finish {
            outcome: Err(TaskError::FetchFailed),
        },
        Err(ArweaveError::JsonError) => ActionValue::Finish {
            outcome: Err(TaskError::BundleNotJson),
        },
        Ok(value) => match bundled_module(value) {
            Err(e) => ActionValue::Finish { outcome: Err(e) },
            Ok(module) => match backend_of(task.language) {
                None => ActionValue::Finish { outcome: Err(TaskError::UnsupportedLanguage) },
                Some(Backend::JavaScript) => match prepared(module) {
                    Err(e) => ActionValue::Finish { outcome: Err(e) },
                    Ok(plan) => ActionValue::Run { task, module, plan },
                },
                Some(Backend::Go) => concluded(key, task, Ok(ResultValue::Bool(true))),
            },
        },
    }
}

/// The decision on a finished run.
pub open spec fn ran(
    key: Seq<char>,
    task: TaskFields,
    module: ModuleText,
    output: Option<ProcessOutput>,
) -> ActionValue {
    match output {
        None => ActionValue::Finish { outcome: Err(TaskError::SandboxFailed) },
        Some(out) => concluded(key, task, run_value(module, out.success, out.stdout@)),
    }
}

/// The decision on a sent submission.
pub open spec fn submitted(accepted: bool) -> ActionValue {
    ActionValue::Finish {
        outcome: if accepted {
            Ok(())
        } else {
            Err(TaskError::TransactionFailed)
        },
    }
}

/// The dispatcher of compute requests.
pub struct Executor {
    pub config: Config,
    pub contract_address: String,
    pub operator_key: String,
}

/// What the dispatcher does next, given what it has learned.
#[verifier::opaque]
pub open spec fn decision(executor: Executor, step: Step) -> ActionValue {
    match step {
        Step::Requested { request } => admitted(executor.config, request@),
        Step::Counted { task, count } => counted(
            task@,
            match count {
                Some(c) => Some(c@),
                None => None,
            },
        ),
        Step::Fetched { task, response } => resolved(
            executor.operator_key@,
            task@,
            optional_text(response),
        ),
        Step::Ran { task, module, output } => ran(executor.operator_key@, task@, module@, output),
        Step::Submitted { accepted } => submitted(accepted),
    }
}

impl Executor {
    /// A dispatcher for the contract at `contract_address`, which signs with
    /// the operator key `operator_key`, given as hexadecimal text.
    pub fn new(config: Config, contract_address: String, operator_key: String) -> (executor: Self)
        ensures
            executor.config == config,
            executor.contract_address == contract_address,
            executor.operator_key == operator_key,
    {
        Executor { config, contract_address, operator_key }
    }

    /// The backend registered for `language`.
    pub fn backend_for(language: &str) -> (backend: Option<Backend>)
        ensures
            backend == backend_of(language@),
    {
        let tag = language.to_owned();
        if tag == "js".to_owned() {
            Some(Backend::JavaScript)
        } else if tag == "go".to_owned() {
            Some(Backend::Go)
        } else {
            None
        }
    }

    /// The first decision on a request.
    pub fn accept(&self, request: ComputeRequest) -> (action: Action)
        ensures
            action@ == admitted(self.config, request@),
    {
        if !self.config.is_language_supported(request.code_lang.as_str()) {
            return Action::Finish { outcome: Err(TaskError::UnsupportedLanguage) };
        }
        match (request.request_id.to_u32(), request.task_created_block.to_u32()) {
            (Some(request_id), Some(task_created_block)) => Action::QueryCount {
                task: Task {
                    code_arweave_uri: request.code_json,
                    language: request.code_lang,
                    response_count: request.node_count,
                    task_created_block,
                    request_id,
                },
            },
            _ => Action::Finish { outcome: Err(TaskError::FieldOutOfRange) },
        }
    }

    /// Encodes `result`, signs the text for `task` and puts the submission
    /// together; a failure to sign ends the task.
    pub fn submit_result(&self, task: Task, result: &ExecutionResult) -> (action: Action)
        ensures
            action@ == concluded(
                self.operator_key@,
                task@,
                Ok::<ResultValue, TaskError>(result@),
            ),
    {
        let response = encode(result);
        match respond_to_task(self.operator_key.as_str(), task, response) {
            Ok(submission) => Action::Submit { submission },
            Err(e) => Action::Finish { outcome: Err(e) },
        }
    }

    /// What to do next for a request, given what has been learned about it.
    /// The caller carries out the action and comes back with the step that
    /// answers it, until the action is `Finish`.
    pub fn execute(&self, step: Step) -> (action: Action)
        ensures
            action@ == decision(*self, step),
    {
        proof {
            reveal(decision);
        }
        match step {
            Step::Requested { request } => self.accept(request),
            Step::Counted { task, count } => {
                match count {
                    None => Action::Finish { outcome: Err(TaskError::CountUnavailable) },
                    Some(c) => {
                        if c.is_at_least(&task.response_count) {
                            Action::Finish { outcome: Ok(()) }
                        } else {
                            let url = ArweaveClient::new(None).request_url(
                                task.code_arweave_uri.as_str(),
                            );
                            Action::Fetch { task, url }
                        }
                    },
                }
            },
            Step::Fetched { task, response } => {
                let value = match ArweaveClient::new(None).get_transaction_data(response) {
                    Ok(value) => value,
                    Err(ArweaveError::RequestError) => {
                        return Action::Finish { outcome: Err(TaskError::FetchFailed) };
                    },
                    Err(ArweaveError::JsonError) => {
                        return Action::Finish { outcome: Err(TaskError::BundleNotJson) };
                    },
                };
                let module = match CodeModule::from_json(&value) {
                    Ok(module) => module,
                    Err(e) => {
                        return Action::Finish { outcome: Err(e) };
                    },
                };
                match Self::backend_for(task.language.as_str()) {
                    None => Action::Finish { outcome: Err(TaskError::UnsupportedLanguage) },
                    Some(Backend::JavaScript) => match JsExecutor::new().prepare(&module) {
                        Err(e) => Action::Finish { outcome: Err(e) },
                        Ok(plan) => Action::Run { task, module, plan },
                    },
                    Some(Backend::Go) => self.submit_result(task, &ExecutionResult::Bool(true)),
                }
            },
            Step::Ran { task, module, output } => {
                match output {
                    None => Action::Finish { outcome: Err(TaskError::SandboxFailed) },
                    Some(out) => match JsExecutor::new().execute(&module, &out) {
                        Ok(result) => self.submit_result(task, &result),
                        Err(e) => Action::Finish { outcome: Err(e) },
                    },
                }
            },
            Step::Submitted { accepted } => {
                if accepted {
                    Action::Finish { outcome: Ok(()) }
                } else {
                    Action::Finish { outcome: Err(TaskError::TransactionFailed) }
                }
            },
        }
    }
}

/// Whether `step` answers `action`: whether it reports on what the action
/// asked for, for the same task.
pub open spec fn answers(action: ActionValue, step: Step) -> bool {
    match (action, step) {
        (ActionValue::QueryCount { task }, Step::Counted { task: same, count }) => same@ == task,
        (ActionValue::Fetch { task, url }, Step::Fetched { task: same, response }) => same@ == task,
        (
            ActionValue::Run { task, module, plan },
            Step::Ran { task: same, module: run, output },
        ) => same@ == task && run@ == module,
        (ActionValue::Submit { submission }, Step::Submitted { accepted }) => true,
        _ => false,
    }
}

/// Whether `steps` are the steps of one request as the dispatcher leads it:
/// the first is the request itself, and each later one answers the decision
/// on the one before.
pub open spec fn is_run(executor: Executor, steps: Seq<Step>) -> bool {
    &&& steps.len() > 0
    &&& steps[0] is Requested
    &&& forall|i: int|
        0 < i < steps.len() ==> answers(decision(executor, steps[i - 1]), #[trigger] steps[i])
}

/// Whether the submission count that `step` reports already reaches the
/// number of responses that its task asks for.
pub open spec fn reports_satisfied(step: Step) -> bool {
    step matches Step::Counted { task, count: Some(c) } && c@ >= task@.response_count
}

/// Whether `action` calls on the code resolver or on the execution engine.
pub open spec fn resolves_or_runs(action: ActionValue) -> bool {
    action is Fetch || action is Run
}

/// The kinds of action that can follow each kind of step.
pub proof fn lemma_decision_by_step(executor: Executor, step: Step)
    ensures
        step is Requested ==> decision(executor, step) is QueryCount || decision(executor, step)
            is Finish,
        step is Counted ==> decision(executor, step) is Fetch || decision(executor, step)
            is Finish,
        step is Fetched ==> decision(executor, step) is Run || decision(executor, step) is Submit
            || decision(executor, step) is Finish,
        step is Ran ==> decision(executor, step) is Submit || decision(executor, step) is Finish,
        step is Submitted ==> decision(executor, step) is Finish,
{
    reveal(decision);
}

/// A request whose submission count already reaches the number of responses
/// asked for ends with success at once.
pub proof fn lemma_satisfied_request_finishes(executor: Executor, step: Step)
    requires
        reports_satisfied(step),
    ensures
        decision(executor, step) == (ActionValue::Finish { outcome: Ok(()) }),
{
    reveal(decision);
}

/// The kind of each step of a run follows from its place: the request, the
/// count, the bundle, then the run or the receipt, then the receipt; and
/// there is no sixth step.
pub proof fn lemma_run_by_place(executor: Executor, steps: Seq<Step>)
    requires
        is_run(executor, steps),
    ensures
        steps.len() <= 5,
        steps[0] is Requested,
        steps.len() > 1 ==> steps[1] is Counted,
        steps.len() > 2 ==> steps[2] is Fetched,
        steps.len() > 3 ==> steps[3] is Ran || steps[3] is Submitted,
        steps.len() > 4 ==> steps[3] is Ran && steps[4] is Submitted,
{
    if steps.len() > 1 {
        lemma_decision_by_step(executor, steps[0]);
        assert(answers(decision(executor, steps[0]), steps[1]));
    }
    if steps.len() > 2 {
        lemma_decision_by_step(executor, steps[1]);
        assert(answers(decision(executor, steps[1]), steps[2]));
    }
    if steps.len() > 3 {
        lemma_decision_by_step(executor, steps[2]);
        assert(answers(decision(executor, steps[2]), steps[3]));
    }
    if steps.len() > 4 {
        lemma_decision_by_step(executor, steps[3]);
        assert(answers(decision(executor, steps[3]), steps[4]));
    }
    if steps.len() > 5 {
        lemma_decision_by_step(executor, steps[4]);
        assert(answers(decision(executor, steps[4]), steps[5]));
    }
}

/// Idempotency: while the dispatcher leads a request whose submission count
/// already reaches the number of responses asked for, it never calls on the
/// code resolver or on the execution engine.
pub proof fn lemma_satisfied_request_is_not_run(executor: Executor, steps: Seq<Step>)
    requires
        is_run(executor, steps),
        exists|j: int| 0 <= j < steps.len() && reports_satisfied(#[trigger] steps[j]),
    ensures
        forall|i: int|
            0 <= i < steps.len() ==> !resolves_or_runs(decision(executor, #[trigger] steps[i])),
{
    let j = choose|j: int| 0 <= j < steps.len() && reports_satisfied(#[trigger] steps[j]);
    lemma_run_by_place(executor, steps);
    assert(j == 1);
    lemma_satisfied_request_finishes(executor, steps[1]);
    if steps.len() > 2 {
        assert(answers(decision(executor, steps[1]), steps[2]));
    }
    assert(steps.len() == 2);
    lemma_decision_by_step(executor, steps[0]);
}

/// A request is led to its end in at most five steps, and on the way the
/// code resolver is called at most once, right after the count; the
/// execution engine at most once, right after the bundle; and at most one
/// submission is sent.
pub proof fn lemma_run_is_bounded(executor: Executor, steps: Seq<Step>)
    requires
        is_run(executor, steps),
    ensures
        steps.len() <= 5,
        forall|i: int|
            0 <= i < steps.len() && decision(executor, #[trigger] steps[i]) is Fetch ==> i == 1,
        forall|i: int|
            0 <= i < steps.len() && decision(executor, #[trigger] steps[i]) is Run ==> i == 2,
        forall|i: int, j: int|
            0 <= i < j < steps.len() ==> !(decision(executor, #[trigger] steps[i]) is Submit
                && decision(executor, #[trigger] steps[j]) is Submit),
{
    lemma_run_by_place(executor, steps);
    assert forall|i: int| 0 <= i < steps.len() implies (decision(executor, #[trigger] steps[i])
        is Fetch ==> i == 1) && (decision(executor, steps[i]) is Run ==> i == 2) && (decision(
        executor,
        steps[i],
    ) is Submit ==> i == 2 || i == 3) by {
        lemma_decision_by_step(executor, steps[i]);
    }
    if steps.len() > 3 && decision(executor, steps[2]) is Submit {
        assert(answers(decision(executor, steps[2]), steps[3]));
        lemma_decision_by_step(executor, steps[3]);
    }
}

/// A module that refers to the environment file is never run: where the
/// dispatcher decides on a run, the module does not refer to it.
pub proof fn lemma_rejected_module_is_not_run(executor: Executor, step: Step)
    ensures
        decision(executor, step) matches ActionValue::Run { task, module, plan }
            ==> !refers_to_env_file(module) && prepared(module) == Ok::<PlanText, TaskError>(plan),
{
    reveal(decision);
}

/// Whatever the dispatcher submits is signed for that very response and
/// that very request: the signature recovers, over the signing digest of the
/// submitted response and request id, to the address of the operator key.
pub proof fn lemma_submission_is_signed(executor: Executor, step: Step)
    ensures
        decision(executor, step) matches ActionValue::Submit { submission } ==> address_of_key(
            executor.operator_key@,
        ) is Some && recovered_address(
            submission.signature,
            signing_digest(submission.response_string, submission.request_id),
        ) == address_of_key(executor.operator_key@),
{
    reveal(decision);
}

} // verus!
