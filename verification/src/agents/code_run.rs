//! One run of the code agent as a machine that the caller drives: ask the
//! model for file operations, check them against the files the agent may
//! patch, carry them out, verify, test, and, on any failure, try again up
//! to the configured number of retries.
//!
//! The model, the file operations and the commands run outside; every
//! decision between them is made here.
use vstd::prelude::*;
use crate::agents::code::{
    disallowed, modified_paths, patches_of, reports, signed_decimal, test_outcome,
    verify_command_outcome, verify_patches_constraints, CodeAgentConfig, FileOperation,
    OperationOutcome,
};
use crate::patcher::FilePatch;
use crate::text::{contains, decimal, join, owned, push_decimal, push_str};
use crate::types::{opt_view, strings_view};

verus! {

/// The command that runs the tests after the changes.
pub open spec fn test_command_text() -> Seq<char> {
    "cargo test 2>&1 || echo 'No tests found or test framework unavailable'"@
}

/// What the caller reports to the code agent's run.
#[derive(Debug)]
pub enum CodeReport {
    /// The model proposed these operations.
    Generated(Vec<FileOperation>),
    /// Asking the model failed, with the reason.
    GenerationFailed(String),
    /// The model's answer held no operations that could be read, with the
    /// reason.
    ParseFailed(String),
    /// The operations were carried out, with one outcome each, in order.
    Applied(Vec<OperationOutcome>),
    /// The verification command ran and exited with this code.
    VerifyRan { exit_code: i64, stderr: String },
    /// The verification command could not be run, with the reason.
    VerifyNotRun(String),
    /// The tests ran, printed this and exited with this code.
    TestsRan { stdout: String, exit_code: i64 },
    /// The tests could not be run, with the reason.
    TestsNotRun(String),
}

/// How the code agent's run ended.
#[derive(Debug)]
pub enum CodeOutcome {
    /// The model proposed no operation.
    NoOperations,
    /// The changes were made and verified; tests are not run.
    TestsSkipped,
    /// The changes were made and verified and the tests ran.
    Tested { passed: bool, failed: bool, output: String },
    /// The changes were made and verified; the tests could not be run.
    TestsUnavailable(String),
    /// Every attempt failed, with the message.
    Failed(String),
}

/// What the caller is to do next.
#[derive(Debug)]
pub enum CodeAction {
    /// Ask the model for operations.
    Generate,
    /// Carry out these operations, in order.
    Apply(Vec<FileOperation>),
    /// Run this verification command.
    Verify(String),
    /// Run this test command.
    RunTests(String),
    /// The run is over.
    Done(CodeOutcome),
    /// The report did not fit what the run waits for; nothing changed.
    Ignore,
}

/// One step: what to do and the progress messages to send first.
#[derive(Debug)]
pub struct CodeStep {
    pub action: CodeAction,
    pub progress: Vec<String>,
}

/// The mathematical value of a report.
pub enum CodeReportView {
    Generated(Seq<FileOperation>),
    GenerationFailed(Seq<char>),
    ParseFailed(Seq<char>),
    Applied(Seq<OperationOutcome>),
    VerifyRan { exit_code: i64, stderr: Seq<char> },
    VerifyNotRun(Seq<char>),
    TestsRan { stdout: Seq<char>, exit_code: i64 },
    TestsNotRun(Seq<char>),
}

impl View for CodeReport {
    type V = CodeReportView;

    open spec fn view(&self) -> CodeReportView {
        match self {
            CodeReport::Generated(o) => CodeReportView::Generated(o@),
            CodeReport::GenerationFailed(m) => CodeReportView::GenerationFailed(m@),
            CodeReport::ParseFailed(m) => CodeReportView::ParseFailed(m@),
            CodeReport::Applied(o) => CodeReportView::Applied(o@),
            CodeReport::VerifyRan { exit_code, stderr } => CodeReportView::VerifyRan {
                exit_code: *exit_code,
                stderr: stderr@,
            },
            CodeReport::VerifyNotRun(m) => CodeReportView::VerifyNotRun(m@),
            CodeReport::TestsRan { stdout, exit_code } => CodeReportView::TestsRan {
                stdout: stdout@,
                exit_code: *exit_code,
            },
            CodeReport::TestsNotRun(m) => CodeReportView::TestsNotRun(m@),
        }
    }
}

/// The mathematical value of an outcome.
pub enum CodeOutcomeView {
    NoOperations,
    TestsSkipped,
    Tested { passed: bool, failed: bool, output: Seq<char> },
    TestsUnavailable(Seq<char>),
    Failed(Seq<char>),
}

/// The mathematical value of an action.
pub enum CodeActionView {
    Generate,
    Apply(Seq<FileOperation>),
    Verify(Seq<char>),
    RunTests(Seq<char>),
    Done(CodeOutcomeView),
    Ignore,
}

impl View for CodeAction {
    type V = CodeActionView;

    open spec fn view(&self) -> CodeActionView {
        match self {
            CodeAction::Generate => CodeActionView::Generate,
            CodeAction::Apply(o) => CodeActionView::Apply(o@),
            CodeAction::Verify(c) => CodeActionView::Verify(c@),
            CodeAction::RunTests(c) => CodeActionView::RunTests(c@),
            CodeAction::Done(o) => CodeActionView::Done(
                match o {
                    CodeOutcome::NoOperations => CodeOutcomeView::NoOperations,
                    CodeOutcome::TestsSkipped => CodeOutcomeView::TestsSkipped,
                    CodeOutcome::Tested { passed, failed, output } => CodeOutcomeView::Tested {
                        passed: *passed,
                        failed: *failed,
                        output: output@,
                    },
                    CodeOutcome::TestsUnavailable(e) => CodeOutcomeView::TestsUnavailable(e@),
                    CodeOutcome::Failed(m) => CodeOutcomeView::Failed(m@),
                },
            ),
            CodeAction::Ignore => CodeActionView::Ignore,
        }
    }
}

/// What the code agent's run waits for.
#[derive(Debug)]
pub enum CodePhase {
    Idle,
    AwaitingGeneration,
    AwaitingApply { operations: Vec<FileOperation> },
    AwaitingVerify,
    AwaitingTests,
    Done,
}

/// The mathematical value of a phase.
pub enum CodePhaseView {
    Idle,
    AwaitingGeneration,
    AwaitingApply { operations: Seq<FileOperation> },
    AwaitingVerify,
    AwaitingTests,
    Done,
}

/// The mathematical value of the run.
pub struct CodeRunView {
    pub max_retries: nat,
    pub allowed_files: Seq<Seq<char>>,
    pub verify_command: Option<Seq<char>>,
    pub test_aware: bool,
    /// Failed attempts so far.
    pub retries: nat,
    pub last_error: Option<Seq<char>>,
    pub phase: CodePhaseView,
}

/// A step: the run after it, the progress it reports and its action.
pub struct CodeStepView {
    pub run: CodeRunView,
    pub progress: Seq<Seq<char>>,
    pub action: CodeActionView,
}

/// `s` with `p` reported before its own progress.
pub open spec fn after_progress(p: Seq<Seq<char>>, s: CodeStepView) -> CodeStepView {
    CodeStepView { progress: p + s.progress, ..s }
}

/// The run waits, or ends, with nothing reported.
pub open spec fn code_wait(v: CodeRunView, phase: CodePhaseView, action: CodeActionView) -> CodeStepView {
    CodeStepView { run: CodeRunView { phase, ..v }, progress: seq![], action }
}

/// The run ends with this outcome.
pub open spec fn code_done(v: CodeRunView, o: CodeOutcomeView) -> CodeStepView {
    code_wait(v, CodePhaseView::Done, CodeActionView::Done(o))
}

/// The message that announces attempt `n` (counted from one).
pub open spec fn attempt_text(n: nat) -> Seq<char> {
    "Attempt "@ + decimal(n)
}

/// The attempt failed with `error`: another one follows, announced as a
/// retry with the error, or, with every retry spent, the run fails with
/// the last error.
pub open spec fn code_failed(v: CodeRunView, error: Seq<char>) -> CodeStepView {
    let r = v.retries + 1;
    let w = CodeRunView { retries: r, last_error: Some(error), ..v };
    if r <= v.max_retries {
        CodeStepView {
            run: CodeRunView { phase: CodePhaseView::AwaitingGeneration, ..w },
            progress: seq![
                "Retrying ("@ + decimal(r) + " of "@ + decimal(v.max_retries) + ") after failure: "@
                    + error,
                attempt_text(r + 1),
            ],
            action: CodeActionView::Generate,
        }
    } else {
        code_done(
            w,
            CodeOutcomeView::Failed(
                "All "@ + decimal(v.max_retries + 1) + " attempts failed. Last error: "@ + error,
            ),
        )
    }
}

/// The changes are verified: the tests run if the agent is test aware,
/// else the run ends.
pub open spec fn code_tests(v: CodeRunView) -> CodeStepView {
    if v.test_aware {
        code_wait(v, CodePhaseView::AwaitingTests, CodeActionView::RunTests(test_command_text()))
    } else {
        code_done(v, CodeOutcomeView::TestsSkipped)
    }
}

/// The verification passed (or there is no verification command).
pub open spec fn code_verified(v: CodeRunView) -> CodeStepView {
    after_progress(seq!["Verification passed"@], code_tests(v))
}

/// The operations were carried out: the verification command runs, if
/// there is one.
pub open spec fn code_applied(v: CodeRunView) -> CodeStepView {
    after_progress(
        seq!["File operations applied successfully"@],
        match v.verify_command {
            Some(c) => code_wait(v, CodePhaseView::AwaitingVerify, CodeActionView::Verify(c)),
            None => code_verified(v),
        },
    )
}

/// The model proposed `ops`: none ends the run; otherwise the files they
/// modify are checked against the allowed files, and the operations are
/// carried out if they pass.
pub open spec fn code_generated(v: CodeRunView, ops: Seq<FileOperation>) -> CodeStepView {
    if ops.len() == 0 {
        after_progress(seq!["No operations to apply"@], code_done(v, CodeOutcomeView::NoOperations))
    } else {
        let bad = disallowed(v.allowed_files, modified_paths(ops));
        if v.allowed_files.len() == 0 || bad.len() == 0 {
            code_wait(v, CodePhaseView::AwaitingApply { operations: ops }, CodeActionView::Apply(ops))
        } else {
            code_failed(v, "Patches for disallowed files: "@ + join(bad, ", "@))
        }
    }
}

/// The step that starts the run: the first attempt.
pub open spec fn code_begin(v: CodeRunView) -> CodeStepView {
    if v.phase is Idle {
        CodeStepView {
            run: CodeRunView { phase: CodePhaseView::AwaitingGeneration, ..v },
            progress: seq!["Starting code generation process"@, attempt_text(v.retries + 1)],
            action: CodeActionView::Generate,
        }
    } else {
        code_wait(v, v.phase, CodeActionView::Ignore)
    }
}

/// One step of the run on a report. A report that does not fit what the
/// run waits for, or outcomes that are not one per operation, change
/// nothing.
pub open spec fn code_step(v: CodeRunView, r: CodeReportView) -> CodeStepView {
    let ignore = code_wait(v, v.phase, CodeActionView::Ignore);
    match v.phase {
        CodePhaseView::AwaitingGeneration => match r {
            CodeReportView::Generated(ops) => code_generated(v, ops),
            CodeReportView::GenerationFailed(m) => code_failed(v, m),
            CodeReportView::ParseFailed(e) => code_failed(v, "Failed to parse operations: "@ + e),
            _ => ignore,
        },
        CodePhaseView::AwaitingApply { operations } => match r {
            CodeReportView::Applied(outs) => if outs.len() == operations.len() {
                let (d, f) = reports(operations, outs, operations.len() as int);
                if f.len() == 0 {
                    code_applied(v)
                } else {
                    code_failed(
                        v,
                        "Some operations failed: "@ + join(f, "; "@) + ". Successful: "@ + join(
                            d,
                            "; "@,
                        ),
                    )
                }
            } else {
                ignore
            },
            _ => ignore,
        },
        CodePhaseView::AwaitingVerify => match r {
            CodeReportView::VerifyRan { exit_code, stderr } => if exit_code == 0 {
                code_verified(v)
            } else {
                code_failed(
                    v,
                    "Verify command failed with exit code "@ + signed_decimal(exit_code as int)
                        + ": "@ + stderr,
                )
            },
            CodeReportView::VerifyNotRun(e) => code_failed(v, "Failed to run verify command: "@ + e),
            _ => ignore,
        },
        CodePhaseView::AwaitingTests => match r {
            CodeReportView::TestsRan { stdout, exit_code } => code_done(
                v,
                CodeOutcomeView::Tested {
                    passed: contains(stdout, "test result: ok"@),
                    failed: !contains(stdout, "test result: ok"@) && exit_code != 0,
                    output: stdout,
                },
            ),
            CodeReportView::TestsNotRun(e) => code_done(v, CodeOutcomeView::TestsUnavailable(e)),
            _ => ignore,
        },
        _ => ignore,
    }
}

/// The attempts are bounded: a step adds at most one failed attempt, and
/// the model is only asked again while no more than `max_retries`
/// attempts have failed, so it is asked at most `max_retries + 1` times.
pub proof fn lemma_code_retries_bounded(v: CodeRunView, r: CodeReportView)
    requires
        v.retries <= v.max_retries,
    ensures
        code_step(v, r).run.retries <= v.retries + 1,
        code_step(v, r).action is Generate ==> code_step(v, r).run.retries <= v.max_retries,
        code_step(v, r).run.retries > v.max_retries ==> code_step(v, r).action is Done,
{
}

/// One run of the code agent.
#[derive(Debug)]
pub struct CodeRun {
    max_retries: usize,
    allowed_files: Vec<String>,
    verify_command: Option<String>,
    test_aware: bool,
    retries: usize,
    last_error: Option<String>,
    phase: CodePhase,
}

impl View for CodeRun {
    type V = CodeRunView;

    closed spec fn view(&self) -> CodeRunView {
        CodeRunView {
            max_retries: self.max_retries as nat,
            allowed_files: strings_view(self.allowed_files@),
            verify_command: opt_view(self.verify_command),
            test_aware: self.test_aware,
            retries: self.retries as nat,
            last_error: opt_view(self.last_error),
            phase: match self.phase {
                CodePhase::Idle => CodePhaseView::Idle,
                CodePhase::AwaitingGeneration => CodePhaseView::AwaitingGeneration,
                CodePhase::AwaitingApply { operations } => CodePhaseView::AwaitingApply {
                    operations: operations@,
                },
                CodePhase::AwaitingVerify => CodePhaseView::AwaitingVerify,
                CodePhase::AwaitingTests => CodePhaseView::AwaitingTests,
                CodePhase::Done => CodePhaseView::Done,
            },
        }
    }
}

/// `s` is what a step did: the run is now `post`, `p` holds the progress
/// messages and `a` is the action.
pub open spec fn code_produced(s: CodeStepView, post: CodeRunView, p: Seq<String>, a: CodeAction) -> bool {
    &&& post == s.run
    &&& strings_view(p) == s.progress
    &&& a@ == s.action
}

/// A copy of an operation.
fn copy_operation(o: &FileOperation) -> (r: FileOperation)
    ensures
        r == *o,
{
    match o {
        FileOperation::Create { path, content } => FileOperation::Create {
            path: path.clone(),
            content: content.clone(),
        },
        FileOperation::Modify { path, original, replacement } => FileOperation::Modify {
            path: path.clone(),
            original: original.clone(),
            replacement: replacement.clone(),
        },
        FileOperation::Delete { path } => FileOperation::Delete { path: path.clone() },
    }
}

/// A copy of the operations.
fn copy_operations(v: &Vec<FileOperation>) -> (r: Vec<FileOperation>)
    ensures
        r@ == v@,
{
    let mut r: Vec<FileOperation> = Vec::new();
    let mut i: usize = 0;
    while i < v.len()
        invariant
            i <= v@.len(),
            r@ == v@.take(i as int),
        decreases v@.len() - i,
    {
        r.push(copy_operation(&v[i]));
        assert(v@.take(i + 1) =~= v@.take(i as int).push(v@[i as int]));
        i = i + 1;
    }
    assert(v@.take(v@.len() as int) =~= v@);
    r
}

/// Appends one message.
fn say(p: &mut Vec<String>, m: String)
    ensures
        strings_view(final(p)@) == strings_view(old(p)@).push(m@),
{
    let ghost before = strings_view(p@);
    p.push(m);
    assert(strings_view(p@) =~= before.push(m@));
}

impl CodeRun {
    /// The invariant: at most one retry more than allowed, and the limit
    /// leaves room for the count of attempts.
    pub closed spec fn wf(&self) -> bool {
        &&& self.max_retries < usize::MAX
        &&& self.retries <= self.max_retries + 1
        &&& !(self.phase is Done) ==> self.retries <= self.max_retries
    }

    /// A run of the code agent with its configuration, not started.
    pub fn new(config: &CodeAgentConfig) -> (r: CodeRun)
        requires
            config.max_retries < usize::MAX,
        ensures
            r.wf(),
            r@ == (CodeRunView {
                max_retries: config.max_retries as nat,
                allowed_files: strings_view(config.allowed_files@),
                verify_command: opt_view(config.verify_command),
                test_aware: config.test_aware,
                retries: 0,
                last_error: None,
                phase: CodePhaseView::Idle,
            }),
    {
        CodeRun {
            max_retries: config.max_retries,
            allowed_files: crate::types::copy_strings(&config.allowed_files),
            verify_command: match &config.verify_command {
                Some(c) => Some(c.clone()),
                None => None,
            },
            test_aware: config.test_aware,
            retries: 0,
            last_error: None,
            phase: CodePhase::Idle,
        }
    }

    fn done(&mut self, o: CodeOutcome, p: &mut Vec<String>) -> (a: CodeAction)
        requires
            old(self).wf(),
        ensures
            final(self).wf(),
            final(self)@ == (CodeRunView { phase: CodePhaseView::Done, ..old(self)@ }),
            final(p)@ == old(p)@,
            a == CodeAction::Done(o),
    {
        self.phase = CodePhase::Done;
        CodeAction::Done(o)
    }

    fn failed(&mut self, error: String, p: &mut Vec<String>) -> (a: CodeAction)
        requires
            old(self).wf(),
            !(old(self).phase is Done),
        ensures
            final(self).wf(),
            ({
                let s = code_failed(old(self)@, error@);
                final(self)@ == s.run && strings_view(final(p)@) == strings_view(old(p)@) + s.progress
                    && a@ == s.action
            }),
    {
        let ghost before = strings_view(p@);
        self.retries = self.retries + 1;
        self.last_error = Some(error.clone());
        if self.retries <= self.max_retries {
            let mut m = owned("Retrying (");
            push_decimal(&mut m, self.retries as u64);
            push_str(&mut m, " of ");
            push_decimal(&mut m, self.max_retries as u64);
            push_str(&mut m, ") after failure: ");
            push_str(&mut m, error.as_str());
            say(p, m);
            let mut n = owned("Attempt ");
            push_decimal(&mut n, (self.retries + 1) as u64);
            say(p, n);
            self.phase = CodePhase::AwaitingGeneration;
            assert(strings_view(p@) =~= before + code_failed(old(self)@, error@).progress);
            CodeAction::Generate
        } else {
            let mut m = owned("All ");
            push_decimal(&mut m, (self.max_retries + 1) as u64);
            push_str(&mut m, " attempts failed. Last error: ");
            push_str(&mut m, error.as_str());
            self.phase = CodePhase::Done;
            assert(strings_view(p@) =~= before + seq![]);
            CodeAction::Done(CodeOutcome::Failed(m))
        }
    }

    fn tests(&mut self, p: &mut Vec<String>) -> (a: CodeAction)
        requires
            old(self).wf(),
            !(old(self).phase is Done),
        ensures
            final(self).wf(),
            ({
                let s = code_tests(old(self)@);
                final(self)@ == s.run && strings_view(final(p)@) == strings_view(old(p)@) + s.progress
                    && a@ == s.action
            }),
    {
        assert(strings_view(p@) =~= strings_view(p@) + seq![]);
        if self.test_aware {
            self.phase = CodePhase::AwaitingTests;
            CodeAction::RunTests(
                owned("cargo test 2>&1 || echo 'No tests found or test framework unavailable'"),
            )
        } else {
            self.done(CodeOutcome::TestsSkipped, p)
        }
    }

    fn verified(&mut self, p: &mut Vec<String>) -> (a: CodeAction)
        requires
            old(self).wf(),
            !(old(self).phase is Done),
        ensures
            final(self).wf(),
            ({
                let s = code_verified(old(self)@);
                final(self)@ == s.run && strings_view(final(p)@) == strings_view(old(p)@) + s.progress
                    && a@ == s.action
            }),
    {
        let ghost before = strings_view(p@);
        say(p, owned("Verification passed"));
        let a = self.tests(p);
        assert(strings_view(p@) =~= before + code_verified(old(self)@).progress);
        a
    }

    /// Starts the run: the first attempt asks the model. A run that has
    /// started already ignores the call.
    pub fn begin(&mut self) -> (r: CodeStep)
        requires
            old(self).wf(),
        ensures
            final(self).wf(),
            code_produced(code_begin(old(self)@), final(self)@, r.progress@, r.action),
    {
        let mut p: Vec<String> = Vec::new();
        match self.phase {
            CodePhase::Idle => {
                say(&mut p, owned("Starting code generation process"));
                let mut n = owned("Attempt ");
                push_decimal(&mut n, (self.retries + 1) as u64);
                say(&mut p, n);
                self.phase = CodePhase::AwaitingGeneration;
                assert(strings_view(p@) =~= code_begin(old(self)@).progress);
                CodeStep { action: CodeAction::Generate, progress: p }
            },
            _ => {
                assert(strings_view(p@) =~= Seq::<Seq<char>>::empty());
                CodeStep { action: CodeAction::Ignore, progress: p }
            },
        }
    }

    fn on_generated(&mut self, ops: Vec<FileOperation>, p: &mut Vec<String>) -> (a: CodeAction)
        requires
            old(self).wf(),
            old(self).phase is AwaitingGeneration,
        ensures
            final(self).wf(),
            ({
                let s = code_generated(old(self)@, ops@);
                final(self)@ == s.run && strings_view(final(p)@) == strings_view(old(p)@) + s.progress
                    && a@ == s.action
            }),
    {
        let ghost before = strings_view(p@);
        if ops.len() == 0 {
            say(p, owned("No operations to apply"));
            let a = self.done(CodeOutcome::NoOperations, p);
            assert(strings_view(p@) =~= before + code_generated(old(self)@, ops@).progress);
            return a;
        }
        let patches = patches_of(&ops);
        match verify_patches_constraints(&self.allowed_files, &patches) {
            Ok(()) => {
                self.phase = CodePhase::AwaitingApply { operations: copy_operations(&ops) };
                assert(strings_view(p@) =~= before + seq![]);
                CodeAction::Apply(ops)
            },
            Err(m) => self.failed(m, p),
        }
    }

    /// One step on a report from outside, as `code_step` says.
    pub fn report(&mut self, r: CodeReport) -> (s: CodeStep)
        requires
            old(self).wf(),
        ensures
            final(self).wf(),
            code_produced(code_step(old(self)@, r@), final(self)@, s.progress@, s.action),
    {
        let mut p: Vec<String> = Vec::new();
        assert(strings_view(p@) =~= Seq::<Seq<char>>::empty());
        let action = match &self.phase {
            CodePhase::AwaitingGeneration => match r {
                CodeReport::Generated(ops) => self.on_generated(ops, &mut p),
                CodeReport::GenerationFailed(m) => self.failed(m, &mut p),
                CodeReport::ParseFailed(e) => {
                    let mut m = owned("Failed to parse operations: ");
                    push_str(&mut m, e.as_str());
                    self.failed(m, &mut p)
                },
                _ => CodeAction::Ignore,
            },
            CodePhase::AwaitingApply { operations } => match r {
                CodeReport::Applied(outs) => if outs.len() == operations.len() {
                    let rep = crate::agents::code::operations_report(operations, &outs);
                    match rep {
                        Ok(_) => {
                            let ghost before = strings_view(p@);
                            say(&mut p, owned("File operations applied successfully"));
                            let a = match &self.verify_command {
                                Some(c) => {
                                    let c2 = c.clone();
                                    self.phase = CodePhase::AwaitingVerify;
                                    CodeAction::Verify(c2)
                                },
                                None => self.verified(&mut p),
                            };
                            assert(strings_view(p@) =~= before + code_applied(old(self)@).progress);
                            a
                        },
                        Err(m) => self.failed(m, &mut p),
                    }
                } else {
                    CodeAction::Ignore
                },
                _ => CodeAction::Ignore,
            },
            CodePhase::AwaitingVerify => match r {
                CodeReport::VerifyRan { exit_code, stderr } => match verify_command_outcome(
                    exit_code,
                    stderr.as_str(),
                ) {
                    Ok(()) => self.verified(&mut p),
                    Err(m) => self.failed(m, &mut p),
                },
                CodeReport::VerifyNotRun(e) => {
                    let mut m = owned("Failed to run verify command: ");
                    push_str(&mut m, e.as_str());
                    self.failed(m, &mut p)
                },
                _ => CodeAction::Ignore,
            },
            CodePhase::AwaitingTests => match r {
                CodeReport::TestsRan { stdout, exit_code } => {
                    let (passed, failed) = test_outcome(stdout.as_str(), exit_code);
                    self.done(CodeOutcome::Tested { passed, failed, output: stdout }, &mut p)
                },
                CodeReport::TestsNotRun(e) => self.done(CodeOutcome::TestsUnavailable(e), &mut p),
                _ => CodeAction::Ignore,
            },
            _ => CodeAction::Ignore,
        };
        CodeStep { action, progress: p }
    }
}

} // verus!
