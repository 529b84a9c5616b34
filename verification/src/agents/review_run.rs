//! One run of the review agent as a machine that the caller drives: check
//! the task's files against the changed files, run the verification
//! commands, have the model analyse the changes, and judge.
//!
//! The commands and the model run outside; every decision between them is
//! made here.
use vstd::prelude::*;
use crate::agents::code::{push_signed, signed_decimal};
use crate::agents::review::{
    check_task_files, failing_tests, failure_output, file_check_issues, issues_view, messages_of,
    parse_failing_tests, rejection_message, review_verdict, CommandResult, Issue, IssueType,
    IssueView, ReviewVerdict,
};
use crate::text::{decimal, join, join_strings, owned, push_decimal, push_str};
use crate::types::strings_view;

verus! {

/// The message for a contract error: "title: description".
pub open spec fn contract_error_line(i: IssueView) -> Seq<char> {
    i.title + ": "@ + i.description
}

/// The messages of the errors among `is`, in order.
pub open spec fn contract_error_lines(is: Seq<IssueView>) -> Seq<Seq<char>>
    decreases is.len(),
{
    if is.len() == 0 {
        seq![]
    } else {
        let prev = contract_error_lines(is.drop_last());
        if is.last().issue_type == IssueType::Error {
            prev.push(contract_error_line(is.last()))
        } else {
            prev
        }
    }
}

/// The failures among the results of the commands: each command whose
/// exit code is not zero, with its position and text, in order.
pub open spec fn command_failures(cmds: Seq<String>, results: Seq<CommandResult>, n: int) -> Seq<
    (usize, String, CommandResult),
>
    decreases n,
{
    if n <= 0 {
        seq![]
    } else {
        let prev = command_failures(cmds, results, n - 1);
        if results[n - 1].exit_code != 0 {
            prev.push(((n - 1) as usize, cmds[n - 1], results[n - 1]))
        } else {
            prev
        }
    }
}

/// The line that describes one failed command.
pub open spec fn failure_detail(f: (usize, String, CommandResult)) -> Seq<char> {
    "Command "@ + decimal((f.0 + 1) as nat) + " '"@ + f.1@ + "' failed with exit code "@
        + signed_decimal(f.2.exit_code as int) + ": "@ + failure_output(f.2)
}

/// The message of failed verification commands: each failure, then the
/// failing tests named in their output.
pub open spec fn verify_failure_text(fs: Seq<(usize, String, CommandResult)>) -> Seq<char> {
    let ft = failing_tests(fs);
    "Verification failed: "@ + join(fs.map_values(|f: (usize, String, CommandResult)| failure_detail(f)), "; "@)
        + ". Failing tests: "@ + if ft.len() == 0 {
        "none identified"@
    } else {
        join(ft, ", "@)
    }
}

/// What the caller reports to the review's run.
#[derive(Debug)]
pub enum ReviewReport {
    /// The verification commands ran: one result each, in order (a command
    /// that could not run is reported with exit code -1 and the reason as
    /// its error output).
    CommandsRan(Vec<CommandResult>),
    /// The model's analysis found these issues (none when it could not be
    /// had).
    Analyzed(Vec<Issue>),
}

/// The mathematical value of a report.
pub enum ReviewReportView {
    CommandsRan(Seq<CommandResult>),
    Analyzed(Seq<IssueView>),
}

impl View for ReviewReport {
    type V = ReviewReportView;

    open spec fn view(&self) -> ReviewReportView {
        match self {
            ReviewReport::CommandsRan(v) => ReviewReportView::CommandsRan(v@),
            ReviewReport::Analyzed(v) => ReviewReportView::Analyzed(issues_view(v@)),
        }
    }
}

/// How the review's run ended.
#[derive(Debug)]
pub enum ReviewRunOutcome {
    /// The task's files did not match the changes: the failure message.
    ContractErrors(String),
    /// The review judged the model's issues.
    Judged(ReviewVerdict),
}

/// What the caller is to do next.
#[derive(Debug)]
pub enum ReviewAction {
    /// Run these commands, in order, and report their results.
    RunCommands(Vec<String>),
    /// Have the model analyse the changes and report its issues.
    Analyze,
    /// The run is over.
    Done(ReviewRunOutcome),
    /// The report did not fit what the run waits for; nothing changed.
    Ignore,
}

/// One step: what to do and the progress messages to send first.
#[derive(Debug)]
pub struct ReviewStep {
    pub action: ReviewAction,
    pub progress: Vec<String>,
}

/// What the review's run waits for.
#[derive(Debug, Clone, Copy, PartialEq, Eq, Structural)]
pub enum ReviewPhase {
    Idle,
    AwaitingCommands,
    AwaitingAnalysis,
    Done,
}

/// One run of the review agent.
#[derive(Debug)]
pub struct ReviewRun {
    verify_commands: Vec<String>,
    can_analyze: bool,
    phase: ReviewPhase,
    contract_issues: Vec<Issue>,
    verify_failure: Option<String>,
}

/// The progress messages when the model's issues are judged.
pub open spec fn verdict_progress(is: Seq<IssueView>) -> Seq<char> {
    let e = messages_of(is, IssueType::Error).len();
    let w = messages_of(is, IssueType::Warning).len();
    if e > 0 {
        "Review completed with "@ + decimal(e) + " error(s) and "@ + decimal(w) + " warning(s)"@
    } else if w > 0 {
        "Review approved with "@ + decimal(w) + " warning(s)"@
    } else {
        "Review approved - no issues found"@
    }
}

/// The verdict on the issues, as `review_verdict` gives it.
pub open spec fn verdict_of(is: Seq<IssueView>, v: ReviewVerdict) -> bool {
    let em = messages_of(is, IssueType::Error);
    let wm = messages_of(is, IssueType::Warning);
    &&& em.len() > 0 <==> v is Rejected
    &&& v matches ReviewVerdict::Rejected { error_count, message } ==> error_count == em.len()
        && message@ == rejection_message(em)
    &&& (em.len() == 0 && wm.len() > 0) <==> v is ApprovedWithWarnings
    &&& v matches ReviewVerdict::ApprovedWithWarnings { warnings } ==> strings_view(warnings@) == wm
}

impl ReviewRun {
    /// The phase.
    pub closed spec fn phase_of(&self) -> ReviewPhase {
        self.phase
    }

    /// The commands of the run.
    pub closed spec fn commands_of(&self) -> Seq<String> {
        self.verify_commands@
    }

    /// Whether the model can analyse the changes.
    pub closed spec fn analyzes(&self) -> bool {
        self.can_analyze
    }

    /// The issues of the check of the task's files.
    pub closed spec fn contract_issues_of(&self) -> Seq<IssueView> {
        issues_view(self.contract_issues@)
    }

    /// The message of the failed verification commands, if they failed.
    pub closed spec fn verify_failure_of(&self) -> Option<Seq<char>> {
        match self.verify_failure {
            Some(m) => Some(m@),
            None => None,
        }
    }

    /// A run with these verification commands; `can_analyze` says whether
    /// the model is used (review by the model enabled and a client set).
    pub fn new(verify_commands: Vec<String>, can_analyze: bool) -> (r: ReviewRun)
        ensures
            r.phase_of() == ReviewPhase::Idle,
            r.commands_of() == verify_commands@,
            r.analyzes() == can_analyze,
            r.contract_issues_of() == Seq::<IssueView>::empty(),
            r.verify_failure_of() is None,
    {
        let r = ReviewRun {
            verify_commands,
            can_analyze,
            phase: ReviewPhase::Idle,
            contract_issues: Vec::new(),
            verify_failure: None,
        };
        assert(r.contract_issues_of() =~= Seq::<IssueView>::empty());
        r
    }

    /// The issues of the check of the task's files.
    pub fn contract_issues(&self) -> (r: &Vec<Issue>)
        ensures
            issues_view(r@) == self.contract_issues_of(),
    {
        &self.contract_issues
    }

    /// The message of the failed verification commands, if they failed.
    pub fn verify_failure(&self) -> (r: &Option<String>)
        ensures
            match *r {
                Some(m) => self.verify_failure_of() == Some(m@),
                None => self.verify_failure_of() is None,
            },
    {
        &self.verify_failure
    }

    fn analyze_or_judge(&mut self, p: &mut Vec<String>) -> (a: ReviewAction)
        requires
            old(self).phase_of() != ReviewPhase::Done,
        ensures
            final(self).commands_of() == old(self).commands_of(),
            final(self).analyzes() == old(self).analyzes(),
            final(self).contract_issues_of() == old(self).contract_issues_of(),
            final(self).verify_failure_of() == old(self).verify_failure_of(),
            old(self).analyzes() ==> {
                &&& final(self).phase_of() == ReviewPhase::AwaitingAnalysis
                &&& a is Analyze
                &&& strings_view(final(p)@) == strings_view(old(p)@) + seq![
                    "Analyzing code changes with LLM"@,
                ]
            },
            !old(self).analyzes() ==> {
                &&& final(self).phase_of() == ReviewPhase::Done
                &&& a matches ReviewAction::Done(ReviewRunOutcome::Judged(v)) && verdict_of(
                    Seq::<IssueView>::empty(),
                    v,
                )
                &&& strings_view(final(p)@) == strings_view(old(p)@) + seq![
                    "Analyzing code changes with LLM"@,
                    verdict_progress(Seq::<IssueView>::empty()),
                ]
            },
    {
        let ghost before = strings_view(p@);
        p.push(owned("Analyzing code changes with LLM"));
        if self.can_analyze {
            self.phase = ReviewPhase::AwaitingAnalysis;
            assert(strings_view(p@) =~= before + seq!["Analyzing code changes with LLM"@]);
            ReviewAction::Analyze
        } else {
            let none: Vec<Issue> = Vec::new();
            let a = self.judge(none, p);
            assert(issues_view(Seq::<Issue>::empty()) =~= Seq::<IssueView>::empty());
            assert(strings_view(p@) =~= before + seq![
                "Analyzing code changes with LLM"@,
                verdict_progress(Seq::<IssueView>::empty()),
            ]);
            a
        }
    }

    fn judge(&mut self, issues: Vec<Issue>, p: &mut Vec<String>) -> (a: ReviewAction)
        ensures
            final(self).commands_of() == old(self).commands_of(),
            final(self).analyzes() == old(self).analyzes(),
            final(self).contract_issues_of() == old(self).contract_issues_of(),
            final(self).verify_failure_of() == old(self).verify_failure_of(),
            final(self).phase_of() == ReviewPhase::Done,
            a matches ReviewAction::Done(ReviewRunOutcome::Judged(v)) && verdict_of(
                issues_view(issues@),
                v,
            ),
            strings_view(final(p)@) == strings_view(old(p)@).push(
                verdict_progress(issues_view(issues@)),
            ),
    {
        let v = review_verdict(&issues);
        let ghost is = issues_view(issues@);
        let mut w: usize = 0;
        let mut i: usize = 0;
        while i < issues.len()
            invariant
                i <= issues@.len(),
                is == issues_view(issues@),
                w == messages_of(is.take(i as int), IssueType::Warning).len(),
                w <= i,
            decreases issues@.len() - i,
        {
            assert(is.take(i + 1).drop_last() =~= is.take(i as int));
            match issues[i].issue_type {
                IssueType::Warning => {
                    w = w + 1;
                },
                IssueType::Error => {},
            }
            i = i + 1;
        }
        assert(is.take(is.len() as int) =~= is);
        let m = match &v {
            ReviewVerdict::Rejected { error_count, .. } => {
                let mut m = owned("Review completed with ");
                push_decimal(&mut m, *error_count as u64);
                push_str(&mut m, " error(s) and ");
                push_decimal(&mut m, w as u64);
                push_str(&mut m, " warning(s)");
                m
            },
            ReviewVerdict::ApprovedWithWarnings { .. } => {
                let mut m = owned("Review approved with ");
                push_decimal(&mut m, w as u64);
                push_str(&mut m, " warning(s)");
                m
            },
            ReviewVerdict::Approved => owned("Review approved - no issues found"),
        };
        let ghost before = strings_view(p@);
        p.push(m);
        assert(strings_view(p@) =~= before.push(m@));
        self.phase = ReviewPhase::Done;
        ReviewAction::Done(ReviewRunOutcome::Judged(v))
    }

    /// Starts the run with the task's files, if a task is given, and the
    /// changed files, one per line. Errors among the issues of the file
    /// check end the run with a failure naming each ("title:
    /// description"); otherwise the commands run, or, with none, the
    /// analysis follows. A run that has started already ignores the call.
    pub fn begin(&mut self, task_files: Option<&Vec<String>>, changed_files: &str) -> (r: ReviewStep)
        ensures
            final(self).commands_of() == old(self).commands_of(),
            final(self).analyzes() == old(self).analyzes(),
            old(self).phase_of() != ReviewPhase::Idle ==> {
                &&& r.action is Ignore
                &&& r.progress@.len() == 0
                &&& final(self).phase_of() == old(self).phase_of()
            },
            old(self).phase_of() == ReviewPhase::Idle ==> {
                let is = match task_files {
                    Some(f) => file_check_issues(f@.map_values(|x: String| x@), changed_files@),
                    None => Seq::<IssueView>::empty(),
                };
                let errs = contract_error_lines(is);
                let start = seq!["Starting review process"@, "Verifying task contracts"@];
                &&& final(self).contract_issues_of() == is
                &&& errs.len() > 0 ==> {
                    &&& final(self).phase_of() == ReviewPhase::Done
                    &&& r.action matches ReviewAction::Done(ReviewRunOutcome::ContractErrors(m))
                        && m@ == "Contract verification errors: "@ + join(errs, ", "@)
                    &&& strings_view(r.progress@) == start
                }
                &&& errs.len() == 0 && old(self).commands_of().len() > 0 ==> {
                    &&& final(self).phase_of() == ReviewPhase::AwaitingCommands
                    &&& r.action matches ReviewAction::RunCommands(c) && strings_view(c@) == strings_view(
                        old(self).commands_of(),
                    )
                    &&& strings_view(r.progress@) == start + seq![
                        "Contract verification completed"@,
                        "Running verification commands"@,
                    ]
                }
                &&& errs.len() == 0 && old(self).commands_of().len() == 0 && old(self).analyzes() ==> {
                    &&& final(self).phase_of() == ReviewPhase::AwaitingAnalysis
                    &&& r.action is Analyze
                    &&& strings_view(r.progress@) == start + seq![
                        "Contract verification completed"@,
                        "Running verification commands"@,
                        "Verification commands completed"@,
                        "Analyzing code changes with LLM"@,
                    ]
                }
                &&& errs.len() == 0 && old(self).commands_of().len() == 0 && !old(self).analyzes() ==> {
                    &&& final(self).phase_of() == ReviewPhase::Done
                    &&& r.action matches ReviewAction::Done(ReviewRunOutcome::Judged(v)) && verdict_of(
                        Seq::<IssueView>::empty(),
                        v,
                    )
                    &&& strings_view(r.progress@) == start + seq![
                        "Contract verification completed"@,
                        "Running verification commands"@,
                        "Verification commands completed"@,
                        "Analyzing code changes with LLM"@,
                        verdict_progress(Seq::<IssueView>::empty()),
                    ]
                }
            },
    {
        let mut p: Vec<String> = Vec::new();
        if self.phase != ReviewPhase::Idle {
            return ReviewStep { action: ReviewAction::Ignore, progress: p };
        }
        p.push(owned("Starting review process"));
        p.push(owned("Verifying task contracts"));
        let ghost start = strings_view(p@);
        assert(start =~= seq!["Starting review process"@, "Verifying task contracts"@]);
        let issues = match task_files {
            Some(f) => check_task_files(f, changed_files),
            None => {
                let v: Vec<Issue> = Vec::new();
                assert(issues_view(v@) =~= Seq::<IssueView>::empty());
                v
            },
        };
        let ghost is = issues_view(issues@);
        let mut errs: Vec<String> = Vec::new();
        let mut i: usize = 0;
        while i < issues.len()
            invariant
                i <= issues@.len(),
                is == issues_view(issues@),
                strings_view(errs@) == contract_error_lines(is.take(i as int)),
            decreases issues@.len() - i,
        {
            assert(is.take(i + 1).drop_last() =~= is.take(i as int));
            let issue = &issues[i];
            match issue.issue_type {
                IssueType::Error => {
                    let mut m = issue.title.clone();
                    push_str(&mut m, ": ");
                    push_str(&mut m, issue.description.as_str());
                    let ghost ev = strings_view(errs@);
                    errs.push(m);
                    assert(strings_view(errs@) =~= ev.push(contract_error_line(issue@)));
                },
                IssueType::Warning => {},
            }
            i = i + 1;
        }
        assert(is.take(is.len() as int) =~= is);
        self.contract_issues = issues;
        if errs.len() > 0 {
            let mut m = owned("Contract verification errors: ");
            let j = join_strings(&errs, ", ");
            push_str(&mut m, j.as_str());
            self.phase = ReviewPhase::Done;
            return ReviewStep {
                action: ReviewAction::Done(ReviewRunOutcome::ContractErrors(m)),
                progress: p,
            };
        }
        p.push(owned("Contract verification completed"));
        p.push(owned("Running verification commands"));
        if self.verify_commands.len() > 0 {
            self.phase = ReviewPhase::AwaitingCommands;
            let c = crate::types::copy_strings(&self.verify_commands);
            assert(strings_view(p@) =~= start + seq![
                "Contract verification completed"@,
                "Running verification commands"@,
            ]);
            return ReviewStep { action: ReviewAction::RunCommands(c), progress: p };
        }
        p.push(owned("Verification commands completed"));
        let ghost mid = strings_view(p@);
        let a = self.analyze_or_judge(&mut p);
        assert(strings_view(p@) =~= start + seq![
            "Contract verification completed"@,
            "Running verification commands"@,
            "Verification commands completed"@,
        ] + (strings_view(p@).subrange(mid.len() as int, strings_view(p@).len() as int)));
        ReviewStep { action: a, progress: p }
    }

    /// One step on a report from outside. The results of the commands
    /// (one per command, else nothing changes) record the failure message
    /// when some command failed, and the analysis follows; the model's
    /// issues are judged.
    pub fn report(&mut self, r: ReviewReport) -> (s: ReviewStep)
        ensures
            final(self).commands_of() == old(self).commands_of(),
            final(self).analyzes() == old(self).analyzes(),
            final(self).contract_issues_of() == old(self).contract_issues_of(),
            ({
                let ignored = {
                    &&& s.action is Ignore
                    &&& s.progress@.len() == 0
                    &&& final(self).phase_of() == old(self).phase_of()
                    &&& final(self).verify_failure_of() == old(self).verify_failure_of()
                };
                match r@ {
                    ReviewReportView::CommandsRan(results) => if old(self).phase_of()
                        == ReviewPhase::AwaitingCommands && results.len() == old(self).commands_of().len() {
                        let fs = command_failures(old(self).commands_of(), results, results.len() as int);
                        let first = if fs.len() == 0 {
                            "Verification commands completed"@
                        } else {
                            "Verification commands found issues: "@ + verify_failure_text(fs)
                        };
                        &&& final(self).verify_failure_of() == if fs.len() == 0 {
                            None
                        } else {
                            Some(verify_failure_text(fs))
                        }
                        &&& old(self).analyzes() ==> {
                            &&& final(self).phase_of() == ReviewPhase::AwaitingAnalysis
                            &&& s.action is Analyze
                            &&& strings_view(s.progress@) == seq![first, "Analyzing code changes with LLM"@]
                        }
                        &&& !old(self).analyzes() ==> {
                            &&& final(self).phase_of() == ReviewPhase::Done
                            &&& s.action matches ReviewAction::Done(ReviewRunOutcome::Judged(v))
                                && verdict_of(Seq::<IssueView>::empty(), v)
                            &&& strings_view(s.progress@) == seq![
                                first,
                                "Analyzing code changes with LLM"@,
                                verdict_progress(Seq::<IssueView>::empty()),
                            ]
                        }
                    } else {
                        ignored
                    },
                    ReviewReportView::Analyzed(is) => if old(self).phase_of() == ReviewPhase::AwaitingAnalysis {
                        &&& final(self).phase_of() == ReviewPhase::Done
                        &&& final(self).verify_failure_of() == old(self).verify_failure_of()
                        &&& s.action matches ReviewAction::Done(ReviewRunOutcome::Judged(v)) && verdict_of(
                            is,
                            v,
                        )
                        &&& strings_view(s.progress@) == seq![verdict_progress(is)]
                    } else {
                        ignored
                    },
                }
            }),
    {
        let mut p: Vec<String> = Vec::new();
        match r {
            ReviewReport::CommandsRan(results) => {
                if self.phase != ReviewPhase::AwaitingCommands || results.len() != self.verify_commands.len() {
                    return ReviewStep { action: ReviewAction::Ignore, progress: p };
                }
                let ghost cmds = self.verify_commands@;
                let mut fs: Vec<(usize, String, CommandResult)> = Vec::new();
                let mut details: Vec<String> = Vec::new();
                let mut i: usize = 0;
                while i < results.len()
                    invariant
                        i <= results@.len(),
                        results@.len() == cmds.len(),
                        cmds == self.verify_commands@,
                        fs@ == command_failures(cmds, results@, i as int),
                        strings_view(details@) == fs@.map_values(
                            |f: (usize, String, CommandResult)| failure_detail(f),
                        ),
                    decreases results@.len() - i,
                {
                    let res = &results[i];
                    if res.exit_code != 0 {
                        let mut d = owned("Command ");
                        push_decimal(&mut d, (i as u64) + 1);
                        push_str(&mut d, " '");
                        push_str(&mut d, self.verify_commands[i].as_str());
                        push_str(&mut d, "' failed with exit code ");
                        push_signed(&mut d, res.exit_code);
                        push_str(&mut d, ": ");
                        if res.stderr.as_str().unicode_len() == 0 {
                            push_str(&mut d, res.stdout.as_str());
                        } else {
                            push_str(&mut d, res.stderr.as_str());
                        }
                        let f = (i, self.verify_commands[i].clone(), CommandResult {
                            stdout: res.stdout.clone(),
                            stderr: res.stderr.clone(),
                            exit_code: res.exit_code,
                        });
                        assert(f == (i, cmds[i as int], results@[i as int]));
                        let ghost dv = strings_view(details@);
                        let ghost fv = fs@;
                        fs.push(f);
                        details.push(d);
                        assert(d@ == failure_detail(f));
                        assert(strings_view(details@) =~= dv.push(d@));
                        assert(fs@.map_values(|f: (usize, String, CommandResult)| failure_detail(f))
                            =~= fv.map_values(|f: (usize, String, CommandResult)| failure_detail(f)).push(
                            failure_detail(f),
                        ));
                    }
                    i = i + 1;
                }
                if fs.len() == 0 {
                    p.push(owned("Verification commands completed"));
                    self.verify_failure = None;
                } else {
                    let mut m = owned("Verification failed: ");
                    let j = join_strings(&details, "; ");
                    push_str(&mut m, j.as_str());
                    push_str(&mut m, ". Failing tests: ");
                    let ft = parse_failing_tests(&fs);
                    if ft.len() == 0 {
                        push_str(&mut m, "none identified");
                    } else {
                        let k = join_strings(&ft, ", ");
                        push_str(&mut m, k.as_str());
                    }
                    let mut q = owned("Verification commands found issues: ");
                    push_str(&mut q, m.as_str());
                    p.push(q);
                    self.verify_failure = Some(m);
                }
                let ghost first = strings_view(p@);
                let a = self.analyze_or_judge(&mut p);
                assert(strings_view(p@) =~= first + strings_view(p@).subrange(1, strings_view(p@).len() as int));
                ReviewStep { action: a, progress: p }
            },
            ReviewReport::Analyzed(issues) => {
                if self.phase != ReviewPhase::AwaitingAnalysis {
                    return ReviewStep { action: ReviewAction::Ignore, progress: p };
                }
                let a = self.judge(issues, &mut p);
                ReviewStep { action: a, progress: p }
            },
        }
    }
}

} // verus!
