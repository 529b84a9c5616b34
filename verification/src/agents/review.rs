//! The review agent's judgement: issues, the checks of a task's files
//! against what changed, and the failing tests named in command output.
use vstd::prelude::*;
use crate::types::strings_view;
use crate::text::{decimal, join, join_strings, push_decimal};
use crate::text::{
    chars_of, contains, contains_exec, find_exec, find_from, lemma_find_bound, line_ranges,
    lines, owned, push_str, split, split_exec, starts_with, starts_with_exec, string_of, sub_chars,
    to_lowercase, trim, trim_range, unicode_lowercase,
};

verus! {

/// Whether an issue blocks the work.
#[derive(Debug, Clone, Copy, PartialEq, Eq, Structural)]
pub enum IssueType {
    /// Blocking error that prevents task completion.
    Error,
    /// Non-blocking warning that should be addressed.
    Warning,
}

/// An issue found during review.
#[derive(Debug, Clone)]
pub struct Issue {
    pub issue_type: IssueType,
    /// Short description of the issue.
    pub title: String,
    /// Detailed description of the issue.
    pub description: String,
    /// File where the issue was found, if known.
    pub file_path: Option<String>,
    /// Line where the issue was found, if known.
    pub line_number: Option<usize>,
}

/// The mathematical value of an `Issue`.
pub struct IssueView {
    pub issue_type: IssueType,
    pub title: Seq<char>,
    pub description: Seq<char>,
    pub file_path: Option<Seq<char>>,
    pub line_number: Option<usize>,
}

impl View for Issue {
    type V = IssueView;

    open spec fn view(&self) -> IssueView {
        IssueView {
            issue_type: self.issue_type,
            title: self.title@,
            description: self.description@,
            file_path: match self.file_path {
                Some(p) => Some(p@),
                None => None,
            },
            line_number: self.line_number,
        }
    }
}

/// The views of a sequence of issues.
pub open spec fn issues_view(v: Seq<Issue>) -> Seq<IssueView> {
    v.map_values(|i: Issue| i@)
}

impl Issue {
    /// An error with no location.
    pub fn error(title: &str, description: &str) -> (r: Issue)
        ensures
            r@ == (IssueView {
                issue_type: IssueType::Error,
                title: title@,
                description: description@,
                file_path: None,
                line_number: None,
            }),
    {
        Issue {
            issue_type: IssueType::Error,
            title: owned(title),
            description: owned(description),
            file_path: None,
            line_number: None,
        }
    }

    /// An error in a file.
    pub fn error_with_path(title: &str, description: &str, file_path: &str) -> (r: Issue)
        ensures
            r@ == (IssueView {
                issue_type: IssueType::Error,
                title: title@,
                description: description@,
                file_path: Some(file_path@),
                line_number: None,
            }),
    {
        Issue {
            issue_type: IssueType::Error,
            title: owned(title),
            description: owned(description),
            file_path: Some(owned(file_path)),
            line_number: None,
        }
    }

    /// An error at a line of a file.
    pub fn error_with_location(
        title: &str,
        description: &str,
        file_path: &str,
        line_number: usize,
    ) -> (r: Issue)
        ensures
            r@ == (IssueView {
                issue_type: IssueType::Error,
                title: title@,
                description: description@,
                file_path: Some(file_path@),
                line_number: Some(line_number),
            }),
    {
        Issue {
            issue_type: IssueType::Error,
            title: owned(title),
            description: owned(description),
            file_path: Some(owned(file_path)),
            line_number: Some(line_number),
        }
    }

    /// A warning with no location.
    pub fn warning(title: &str, description: &str) -> (r: Issue)
        ensures
            r@ == (IssueView {
                issue_type: IssueType::Warning,
                title: title@,
                description: description@,
                file_path: None,
                line_number: None,
            }),
    {
        Issue {
            issue_type: IssueType::Warning,
            title: owned(title),
            description: owned(description),
            file_path: None,
            line_number: None,
        }
    }

    /// A warning in a file.
    pub fn warning_with_path(title: &str, description: &str, file_path: &str) -> (r: Issue)
        ensures
            r@ == (IssueView {
                issue_type: IssueType::Warning,
                title: title@,
                description: description@,
                file_path: Some(file_path@),
                line_number: None,
            }),
    {
        Issue {
            issue_type: IssueType::Warning,
            title: owned(title),
            description: owned(description),
            file_path: Some(owned(file_path)),
            line_number: None,
        }
    }
}

/// What a verification command printed and how it exited.
#[derive(Debug, Clone)]
pub struct CommandResult {
    pub stdout: String,
    pub stderr: String,
    pub exit_code: i64,
}

/// Configuration of the review agent.
#[derive(Debug, Clone)]
pub struct ReviewAgentConfig {
    /// Commands to run for verification.
    pub verify_commands: Vec<String>,
    /// Timeout for each verification command, in seconds.
    pub verify_command_timeout_secs: u64,
    /// Whether to ask a language model to review the changes.
    pub use_llm_review: bool,
    /// Whether to gather context through MCP tools.
    pub use_mcp_tools: bool,
}

impl Default for ReviewAgentConfig {
    /// No commands, a two-minute timeout, model review and MCP tools on.
    fn default() -> (r: Self)
        ensures
            r.verify_commands@.len() == 0,
            r.verify_command_timeout_secs == 120,
            r.use_llm_review,
            r.use_mcp_tools,
    {
        ReviewAgentConfig {
            verify_commands: Vec::new(),
            verify_command_timeout_secs: 120,
            use_llm_review: true,
            use_mcp_tools: true,
        }
    }
}

/// A model's review, as the agent asks for it.
#[derive(Debug, Clone)]
pub struct CodeReviewResponse {
    pub issues: Vec<LlmIssue>,
    /// Overall assessment.
    pub summary: String,
    /// Whether the changes are approved.
    pub approved: bool,
}

/// One issue as the model reports it.
#[derive(Debug, Clone)]
pub struct LlmIssue {
    /// "error" or "warning", in any case.
    pub issue_type: String,
    pub title: String,
    pub description: String,
    pub file_path: Option<String>,
    pub line_number: Option<usize>,
}

/// The issue type a model's type name stands for: an error when it is
/// "error" in any case, otherwise a warning.
pub open spec fn issue_type_of(name: Seq<char>) -> IssueType {
    if unicode_lowercase(name) == "error"@ {
        IssueType::Error
    } else {
        IssueType::Warning
    }
}

/// Converts a model's issue into an issue of the agent.
pub fn convert_llm_issue(llm_issue: LlmIssue) -> (r: Issue)
    ensures
        r@ == (IssueView {
            issue_type: issue_type_of(llm_issue.issue_type@),
            title: llm_issue.title@,
            description: llm_issue.description@,
            file_path: match llm_issue.file_path {
                Some(p) => Some(p@),
                None => None,
            },
            line_number: llm_issue.line_number,
        }),
{
    let lower = to_lowercase(llm_issue.issue_type.as_str());
    let error = owned("error");
    let issue_type = if lower == error {
        IssueType::Error
    } else {
        IssueType::Warning
    };
    Issue {
        issue_type,
        title: llm_issue.title,
        description: llm_issue.description,
        file_path: llm_issue.file_path,
        line_number: llm_issue.line_number,
    }
}

// ------------------------------------------------------------------
// Files of a task against the files that changed
// ------------------------------------------------------------------

/// The non-empty pieces among `ps`.
pub open spec fn non_empty(ps: Seq<Seq<char>>) -> Seq<Seq<char>> {
    ps.filter(|p: Seq<char>| p.len() > 0)
}

/// Taking one more piece adds it to `non_empty` when it is not empty.
proof fn lemma_non_empty_take(s: Seq<Seq<char>>, i: int)
    requires
        0 <= i < s.len(),
    ensures
        non_empty(s.take(i + 1)) == if s[i].len() > 0 {
            non_empty(s.take(i)).push(s[i])
        } else {
            non_empty(s.take(i))
        },
{
    reveal(Seq::filter);
    let t = s.take(i + 1);
    assert(t.drop_last() =~= s.take(i));
    assert(t.last() == s[i]);
    assert(t.len() > 0);
}

/// Some changed file's name contains `f`.
pub open spec fn was_modified(changed: Seq<Seq<char>>, f: Seq<char>) -> bool {
    exists|k: int| 0 <= k < changed.len() && contains(changed[k], f)
}

/// The changed file `c` matches one of `files`: either name contains the
/// other.
pub open spec fn is_expected(files: Seq<Seq<char>>, c: Seq<char>) -> bool {
    exists|k: int| 0 <= k < files.len() && (contains(c, files[k]) || contains(files[k], c))
}

/// The error for a file of the task that did not change.
pub open spec fn missing_issue(f: Seq<char>) -> IssueView {
    IssueView {
        issue_type: IssueType::Error,
        title: "Missing File Modification"@,
        description: "Expected file '"@ + f
            + "' to be modified according to task spec, but it was not found in changed files"@,
        file_path: Some(f),
        line_number: None,
    }
}

/// The warning for a changed file that the task does not list.
pub open spec fn unintended_issue(c: Seq<char>) -> IssueView {
    IssueView {
        issue_type: IssueType::Warning,
        title: "Unintended File Modification"@,
        description: "File '"@ + c + "' was modified but is not listed in the task spec"@,
        file_path: Some(c),
        line_number: None,
    }
}

/// One error for each file of `files`, in order, that no changed file
/// matches.
pub open spec fn missing_issues(files: Seq<Seq<char>>, changed: Seq<Seq<char>>) -> Seq<IssueView>
    decreases files.len(),
{
    if files.len() == 0 {
        seq![]
    } else {
        let prev = missing_issues(files.drop_last(), changed);
        if was_modified(changed, files.last()) {
            prev
        } else {
            prev.push(missing_issue(files.last()))
        }
    }
}

/// One warning for each changed file of `changed`, in order, that matches
/// none of `files`.
pub open spec fn unintended_issues(files: Seq<Seq<char>>, changed: Seq<Seq<char>>) -> Seq<
    IssueView,
>
    decreases changed.len(),
{
    if changed.len() == 0 {
        seq![]
    } else {
        let prev = unintended_issues(files, changed.drop_last());
        if is_expected(files, changed.last()) {
            prev
        } else {
            prev.push(unintended_issue(changed.last()))
        }
    }
}

/// The issues of checking a task's files against the changed files, one
/// name per line: errors for the task's files that did not change, then,
/// when the task lists files, warnings for the changed files it does not
/// list.
pub open spec fn file_check_issues(files: Seq<Seq<char>>, changed_text: Seq<char>) -> Seq<
    IssueView,
> {
    let changed = non_empty(split(changed_text, '\n'));
    missing_issues(files, changed) + if files.len() > 0 {
        unintended_issues(files, changed)
    } else {
        seq![]
    }
}

/// The error for the missing file `f`.
fn missing_issue_exec(f: &String) -> (r: Issue)
    ensures
        r@ == missing_issue(f@),
{
    let mut d = owned("Expected file '");
    push_str(&mut d, f.as_str());
    push_str(
        &mut d,
        "' to be modified according to task spec, but it was not found in changed files",
    );
    Issue {
        issue_type: IssueType::Error,
        title: owned("Missing File Modification"),
        description: d,
        file_path: Some(f.clone()),
        line_number: None,
    }
}

/// The warning for the unlisted file `c`.
fn unintended_issue_exec(c: &String) -> (r: Issue)
    ensures
        r@ == unintended_issue(c@),
{
    let mut d = owned("File '");
    push_str(&mut d, c.as_str());
    push_str(&mut d, "' was modified but is not listed in the task spec");
    Issue {
        issue_type: IssueType::Warning,
        title: owned("Unintended File Modification"),
        description: d,
        file_path: Some(c.clone()),
        line_number: None,
    }
}

/// Whether `q` occurs in `s`.
fn str_contains(s: &String, q: &String) -> (r: bool)
    ensures
        r == contains(s@, q@),
{
    let a = chars_of(s.as_str());
    let b = chars_of(q.as_str());
    contains_exec(&a, &b)
}

/// The non-empty lines of `text`, split on line feeds.
fn changed_names(text: &str) -> (r: Vec<String>)
    ensures
        r@.map_values(|x: String| x@) == non_empty(split(text@, '\n')),
{
    let c = chars_of(text);
    let pieces = split_exec(&c, 0, c.len(), '\n');
    assert(c@.subrange(0, c@.len() as int) =~= c@);
    let ghost ps = pieces@.map_values(|x: String| x@);
    let mut r: Vec<String> = Vec::new();
    let mut i: usize = 0;
    while i < pieces.len()
        invariant
            i <= pieces@.len(),
            ps == pieces@.map_values(|x: String| x@),
            r@.map_values(|x: String| x@) == non_empty(ps.take(i as int)),
        decreases pieces@.len() - i,
    {
        let ghost prev = r@.map_values(|x: String| x@);
        proof {
            assert(ps.take(i + 1).drop_last() =~= ps.take(i as int));
            assert(ps.take(i + 1).last() == ps[i as int]);
            assert(ps[i as int] == pieces@[i as int]@);
            lemma_non_empty_take(ps, i as int);
        }
        if !pieces[i].as_str().is_empty() {
            r.push(pieces[i].clone());
            assert(r@.map_values(|x: String| x@) =~= prev.push(ps[i as int]));
        }
        i = i + 1;
        assert(r@.map_values(|x: String| x@) =~= non_empty(ps.take(i as int)));
    }
    assert(ps.take(ps.len() as int) =~= ps);
    r
}

/// Checks the files that a task lists against the files that changed
/// (`changed_files` holds one name per line): an error for each listed
/// file that no changed name contains, and, when the task lists any file,
/// a warning for each changed name that neither contains a listed file nor
/// is contained in one.
pub fn check_task_files(files: &Vec<String>, changed_files: &str) -> (r: Vec<Issue>)
    ensures
        issues_view(r@) == file_check_issues(files@.map_values(|x: String| x@), changed_files@),
{
    let ghost fs = files@.map_values(|x: String| x@);
    let changed = changed_names(changed_files);
    let ghost cs = changed@.map_values(|x: String| x@);
    let mut r: Vec<Issue> = Vec::new();
    let mut i: usize = 0;
    while i < files.len()
        invariant
            i <= files@.len(),
            fs == files@.map_values(|x: String| x@),
            cs == changed@.map_values(|x: String| x@),
            issues_view(r@) == missing_issues(fs.take(i as int), cs),
        decreases files@.len() - i,
    {
        let mut found = false;
        let mut j: usize = 0;
        while j < changed.len()
            invariant
                i < files@.len(),
                j <= changed@.len(),
                fs == files@.map_values(|x: String| x@),
                cs == changed@.map_values(|x: String| x@),
                found == exists|k: int| 0 <= k < j && contains(cs[k], fs[i as int]),
            decreases changed@.len() - j,
        {
            proof {
                assert(cs[j as int] == changed@[j as int]@);
                assert(fs[i as int] == files@[i as int]@);
            }
            if str_contains(&changed[j], &files[i]) {
                found = true;
            }
            j = j + 1;
        }
        assert(fs.take(i + 1).drop_last() =~= fs.take(i as int));
        assert(fs.take(i + 1).last() == fs[i as int]);
        let ghost before = issues_view(r@);
        if !found {
            let issue = missing_issue_exec(&files[i]);
            r.push(issue);
            assert(issues_view(r@) =~= before.push(missing_issue(fs[i as int])));
        }
        i = i + 1;
        assert(issues_view(r@) =~= missing_issues(fs.take(i as int), cs));
    }
    assert(fs.take(fs.len() as int) =~= fs);
    if files.len() > 0 {
        let ghost base = issues_view(r@);
        let mut j: usize = 0;
        while j < changed.len()
            invariant
                j <= changed@.len(),
                files@.len() > 0,
                fs == files@.map_values(|x: String| x@),
                cs == changed@.map_values(|x: String| x@),
                issues_view(r@) == base + unintended_issues(fs, cs.take(j as int)),
            decreases changed@.len() - j,
        {
            let mut expected = false;
            let mut k: usize = 0;
            while k < files.len()
                invariant
                    j < changed@.len(),
                    k <= files@.len(),
                    fs == files@.map_values(|x: String| x@),
                    cs == changed@.map_values(|x: String| x@),
                    expected == exists|t: int|
                        0 <= t < k && (contains(cs[j as int], fs[t]) || contains(
                            fs[t],
                            cs[j as int],
                        )),
                decreases files@.len() - k,
            {
                proof {
                    assert(cs[j as int] == changed@[j as int]@);
                    assert(fs[k as int] == files@[k as int]@);
                }
                if str_contains(&changed[j], &files[k]) || str_contains(&files[k], &changed[j]) {
                    expected = true;
                }
                k = k + 1;
            }
            assert(cs.take(j + 1).drop_last() =~= cs.take(j as int));
            assert(cs.take(j + 1).last() == cs[j as int]);
            let ghost before = issues_view(r@);
            if !expected {
                let issue = unintended_issue_exec(&changed[j]);
                r.push(issue);
                assert(issues_view(r@) =~= before.push(unintended_issue(cs[j as int])));
            }
            j = j + 1;
            assert(issues_view(r@) =~= base + unintended_issues(fs, cs.take(j as int)));
        }
        assert(cs.take(cs.len() as int) =~= cs);
    }
    assert(issues_view(r@) =~= file_check_issues(fs, changed_files@));
    r
}

// ------------------------------------------------------------------
// Failing tests named in command output
// ------------------------------------------------------------------

/// The test name on a line of test output: the text before the first
/// "...", trimmed.
pub open spec fn test_name_of(line: Seq<char>) -> Seq<char> {
    trim(
        match find_from(line, "..."@, 0) {
            Some(k) => line.subrange(0, k),
            None => line,
        },
    )
}

/// What one line of the output of `cmd` reports: on a line that holds
/// "FAILED", the test name followed by the command in brackets (unless the
/// name is empty or "test"); on a line that starts with "error", the command
/// and the line.
pub open spec fn line_reports(cmd: Seq<char>, line: Seq<char>) -> Seq<Seq<char>> {
    let name = test_name_of(line);
    let named = if contains(line, "FAILED"@) && name.len() > 0 && name != "test"@ {
        seq![name + " ("@ + cmd + ")"@]
    } else {
        seq![]
    };
    let errors = if starts_with(line, "error"@) {
        seq![cmd + ": "@ + line]
    } else {
        seq![]
    };
    named + errors
}

/// The reports of the lines `ls` of the output of `cmd`, in order.
pub open spec fn reports_of_lines(cmd: Seq<char>, ls: Seq<Seq<char>>) -> Seq<Seq<char>>
    decreases ls.len(),
{
    if ls.len() == 0 {
        seq![]
    } else {
        reports_of_lines(cmd, ls.drop_last()) + line_reports(cmd, ls.last())
    }
}

/// The output of a failed command that is searched: its standard error,
/// or its standard output when that is empty.
pub open spec fn failure_output(r: CommandResult) -> Seq<char> {
    if r.stderr@.len() == 0 {
        r.stdout@
    } else {
        r.stderr@
    }
}

/// The reports of all failures, in order.
pub open spec fn failing_tests(fs: Seq<(usize, String, CommandResult)>) -> Seq<Seq<char>>
    decreases fs.len(),
{
    if fs.len() == 0 {
        seq![]
    } else {
        failing_tests(fs.drop_last()) + reports_of_lines(
            fs.last().1@,
            lines(failure_output(fs.last().2)),
        )
    }
}

/// Appends the reports of one line to `r`.
fn push_line_reports(
    r: &mut Vec<String>,
    cmd: &String,
    line: &Vec<char>,
    failed: &Vec<char>,
    dots: &Vec<char>,
    error: &Vec<char>,
)
    requires
        failed@ == "FAILED"@,
        dots@ == "..."@,
        error@ == "error"@,
    ensures
        strings_view(final(r)@) == strings_view(old(r)@) + line_reports(cmd@, line@),
{
    let ghost start = strings_view(r@);
    let n = line.len();
    assert(line@.subrange(0, n as int) =~= line@);
    let ghost name = test_name_of(line@);
    let mut named = false;
    if contains_exec(line, failed) {
        let cut = match find_exec(line, n, 0, dots) {
            Some(k) => k,
            None => n,
        };
        proof {
            lemma_find_bound(line@, "..."@, 0);
            if cut == n {
                assert(line@.subrange(0, n as int) =~= line@);
            }
        }
        let (a, b) = trim_range(line, 0, cut);
        let t = string_of(line, a, b);
        assert(t@ == name);
        let test_word = owned("test");
        if b > a && !(t == test_word) {
            let mut m = t;
            push_str(&mut m, " (");
            push_str(&mut m, cmd.as_str());
            push_str(&mut m, ")");
            r.push(m);
            named = true;
        }
    }
    assert(strings_view(r@) =~= start + if named {
        seq![name + " ("@ + cmd@ + ")"@]
    } else {
        seq![]
    });
    let ghost mid = strings_view(r@);
    if starts_with_exec(line, error) {
        let mut m = cmd.clone();
        push_str(&mut m, ": ");
        let l = string_of(line, 0, n);
        push_str(&mut m, l.as_str());
        r.push(m);
        assert(strings_view(r@) =~= mid.push(cmd@ + ": "@ + line@));
    }
    assert(strings_view(r@) =~= strings_view(old(r)@) + line_reports(cmd@, line@));
}

/// Names the failing tests and errors in the output of failed
/// verification commands: for each failure `(index, command, result)` in
/// order, each line of its standard error (or of its standard output when
/// the error output is empty) is read as `line_reports` says.
pub fn parse_failing_tests(failures: &Vec<(usize, String, CommandResult)>) -> (r: Vec<String>)
    ensures
        strings_view(r@) == failing_tests(failures@),
{
    let failed = chars_of("FAILED");
    let dots = chars_of("...");
    let error = chars_of("error");
    let mut r: Vec<String> = Vec::new();
    let mut i: usize = 0;
    while i < failures.len()
        invariant
            i <= failures@.len(),
            failed@ == "FAILED"@,
            dots@ == "..."@,
            error@ == "error"@,
            strings_view(r@) == failing_tests(failures@.take(i as int)),
        decreases failures@.len() - i,
    {
        let command = &failures[i].1;
        let result = &failures[i].2;
        let output = if result.stderr.as_str().is_empty() {
            &result.stdout
        } else {
            &result.stderr
        };
        let c = chars_of(output.as_str());
        let ranges = line_ranges(&c);
        let ghost ls = lines(c@);
        let ghost start = strings_view(r@);
        let mut j: usize = 0;
        while j < ranges.len()
            invariant
                j <= ranges@.len(),
                ranges@.len() == ls.len(),
                ls == lines(c@),
                forall|k: int|
                    0 <= k < ranges@.len() ==> {
                        &&& (#[trigger] ranges@[k]).0 <= ranges@[k].1 <= c@.len()
                        &&& c@.subrange(ranges@[k].0 as int, ranges@[k].1 as int) == ls[k]
                    },
                failed@ == "FAILED"@,
                dots@ == "..."@,
                error@ == "error"@,
                strings_view(r@) == start + reports_of_lines(command@, ls.take(j as int)),
            decreases ranges@.len() - j,
        {
            let (lo, hi) = ranges[j];
            let line = sub_chars(&c, lo, hi);
            push_line_reports(&mut r, command, &line, &failed, &dots, &error);
            proof {
                assert(ls.take(j + 1).drop_last() =~= ls.take(j as int));
                assert(ls.take(j + 1).last() == ls[j as int]);
            }
            j = j + 1;
            assert(strings_view(r@) =~= start + reports_of_lines(command@, ls.take(j as int)));
        }
        proof {
            assert(ls.take(ls.len() as int) =~= ls);
            assert(failures@.take(i + 1).drop_last() =~= failures@.take(i as int));
            assert(failures@.take(i + 1).last() == failures@[i as int]);
            assert(c@ == failure_output(failures@[i as int].2));
        }
        i = i + 1;
        assert(strings_view(r@) =~= failing_tests(failures@.take(i as int)));
    }
    assert(failures@.take(failures@.len() as int) =~= failures@);
    r
}

// ------------------------------------------------------------------
// The verdict
// ------------------------------------------------------------------

/// Where an issue is, as the review's message writes it: "path:line",
/// "path", or "unknown".
pub open spec fn location_of(i: IssueView) -> Seq<char> {
    match i.file_path {
        Some(p) => match i.line_number {
            Some(l) => p + ":"@ + decimal(l as nat),
            None => p,
        },
        None => "unknown"@,
    }
}

/// The message for an error: "[location] title: description".
pub open spec fn error_message(i: IssueView) -> Seq<char> {
    "["@ + location_of(i) + "] "@ + i.title + ": "@ + i.description
}

/// The message for a warning: "title: description".
pub open spec fn warning_message(i: IssueView) -> Seq<char> {
    i.title + ": "@ + i.description
}

/// The messages of the issues of type `t` among `is`, in order.
pub open spec fn messages_of(is: Seq<IssueView>, t: IssueType) -> Seq<Seq<char>>
    decreases is.len(),
{
    if is.len() == 0 {
        seq![]
    } else {
        let prev = messages_of(is.drop_last(), t);
        let last = is.last();
        if last.issue_type != t {
            prev
        } else if t == IssueType::Error {
            prev.push(error_message(last))
        } else {
            prev.push(warning_message(last))
        }
    }
}

/// How a review ends.
#[derive(Debug, Clone)]
pub enum ReviewVerdict {
    /// Errors were found: the failure message names each of them.
    Rejected { error_count: usize, message: String },
    /// Approved, with the messages of the warnings.
    ApprovedWithWarnings { warnings: Vec<String> },
    /// Approved with no issue.
    Approved,
}

/// The message of a rejection with the error messages `em`.
pub open spec fn rejection_message(em: Seq<Seq<char>>) -> Seq<char> {
    "Review found "@ + decimal(em.len()) + " error(s): "@ + join(em, "; "@)
}

/// The location of an issue, as `location_of` says.
fn location_exec(i: &Issue) -> (r: String)
    ensures
        r@ == location_of(i@),
{
    match &i.file_path {
        Some(p) => {
            let mut s = p.clone();
            match i.line_number {
                Some(l) => {
                    push_str(&mut s, ":");
                    push_decimal(&mut s, l as u64);
                },
                None => {},
            }
            s
        },
        None => owned("unknown"),
    }
}

/// Judges the issues of a review: rejected when any error was found, with
/// the count and the message of each error; otherwise approved, with the
/// message of each warning if there are any.
pub fn review_verdict(issues: &Vec<Issue>) -> (r: ReviewVerdict)
    ensures
        ({
            let em = messages_of(issues_view(issues@), IssueType::Error);
            let wm = messages_of(issues_view(issues@), IssueType::Warning);
            &&& em.len() > 0 <==> r is Rejected
            &&& r matches ReviewVerdict::Rejected { error_count, message } ==> error_count
                == em.len() && message@ == rejection_message(em)
            &&& (em.len() == 0 && wm.len() > 0) <==> r is ApprovedWithWarnings
            &&& r matches ReviewVerdict::ApprovedWithWarnings { warnings } ==> strings_view(
                warnings@,
            ) == wm
        }),
{
    let ghost is = issues_view(issues@);
    let mut errors: Vec<String> = Vec::new();
    let mut warnings: Vec<String> = Vec::new();
    let mut i: usize = 0;
    while i < issues.len()
        invariant
            i <= issues@.len(),
            is == issues_view(issues@),
            strings_view(errors@) == messages_of(is.take(i as int), IssueType::Error),
            strings_view(warnings@) == messages_of(is.take(i as int), IssueType::Warning),
        decreases issues@.len() - i,
    {
        proof {
            assert(is.take(i + 1).drop_last() =~= is.take(i as int));
            assert(is.take(i + 1).last() == issues@[i as int]@);
        }
        let issue = &issues[i];
        let ghost ev = strings_view(errors@);
        let ghost wv = strings_view(warnings@);
        match issue.issue_type {
            IssueType::Error => {
                let mut m = owned("[");
                let loc = location_exec(issue);
                push_str(&mut m, loc.as_str());
                push_str(&mut m, "] ");
                push_str(&mut m, issue.title.as_str());
                push_str(&mut m, ": ");
                push_str(&mut m, issue.description.as_str());
                errors.push(m);
                assert(strings_view(errors@) =~= ev.push(error_message(issue@)));
            },
            IssueType::Warning => {
                let mut m = issue.title.clone();
                push_str(&mut m, ": ");
                push_str(&mut m, issue.description.as_str());
                warnings.push(m);
                assert(strings_view(warnings@) =~= wv.push(warning_message(issue@)));
            },
        }
        i = i + 1;
    }
    assert(is.take(is.len() as int) =~= is);
    if errors.len() > 0 {
        let mut message = owned("Review found ");
        push_decimal(&mut message, errors.len() as u64);
        push_str(&mut message, " error(s): ");
        let joined = join_strings(&errors, "; ");
        push_str(&mut message, joined.as_str());
        ReviewVerdict::Rejected { error_count: errors.len(), message }
    } else if warnings.len() > 0 {
        ReviewVerdict::ApprovedWithWarnings { warnings }
    } else {
        ReviewVerdict::Approved
    }
}


// ------------------------------------------------------------------
// The prompts
// ------------------------------------------------------------------

/// The instructions of the review model.
pub const REVIEW_SYSTEM_PROMPT: &'static str = "You are an expert in code review, tasked with reviewing code changes against a task specification.\n\n## Review Criteria\n1. **Contract Compliance**: Verify all contracts specified in the task are satisfied.\n2. **File Modifications**: Verify all files listed in the task spec were modified as expected.\n3. **Code Quality**: Check for code quality issues, bugs, and potential problems.\n4. **Side Effects**: Check for unintended changes to unrelated files.\n5. **Test Compliance**: Ensure verification commands pass successfully.\n\n## Issue Classification\n- **Error**: Blocking issues that prevent task completion (bugs, missing contracts, incorrect implementations).\n- **Warning**: Non-blocking issues that should be addressed but don't prevent completion (style issues, minor improvements).\n\n## Response Format\nRespond with a JSON object containing:\n- \"issues\": array of issues found (empty if none)\n- \"summary\": brief overall assessment\n- \"approved\": boolean indicating if changes are approved\n\nEach issue must have:\n- \"issue_type\": \"error\" or \"warning\"\n- \"title\": short description\n- \"description\": detailed explanation\n- \"file_path\": optional file path where issue was found\n- \"line_number\": optional line number where issue was found\n\nReturn ONLY valid JSON, no markdown formatting.";

/// The part of the review prompt that describes the task.
pub open spec fn review_spec_text(t: Option<crate::types::TaskSpecView>) -> Seq<char> {
    match t {
        Some(s) => {
            let cl = join(s.contracts, "\n- "@);
            "## Task Specification\n- Title: "@ + s.title + "\n- Description: "@ + match s.description {
                Some(d) => d,
                None => "None"@,
            } + "\n- Files to modify:\n"@ + join(s.files.map_values(|f: Seq<char>| "- "@ + f), "\n"@)
                + "\n- Contracts to satisfy:\n- "@ + if cl.len() == 0 {
                "None"@
            } else {
                cl
            }
        },
        None => "No task specification provided."@,
    }
}

/// A titled section of a prompt when there is text for it, else nothing.
pub open spec fn section_text(title: Seq<char>, text: Option<Seq<char>>) -> Seq<char> {
    match text {
        Some(t) => "\n\n## "@ + title + "\n"@ + t,
        None => Seq::<char>::empty(),
    }
}

/// The text of an optional `&str`.
pub open spec fn opt_str(o: Option<&str>) -> Option<Seq<char>> {
    match o {
        Some(s) => Some(s@),
        None => None,
    }
}

/// Appends the section titled `title` when there is text for it.
pub fn push_section(r: &mut String, title: &str, text: Option<&str>)
    ensures
        final(r)@ == old(r)@ + section_text(title@, opt_str(text)),
{
    match text {
        Some(t) => {
            push_str(r, "\n\n## ");
            push_str(r, title);
            push_str(r, "\n");
            push_str(r, t);
        },
        None => {
            assert(old(r)@ + Seq::<char>::empty() =~= old(r)@);
        },
    }
}

/// The part of the review prompt that describes the task, as
/// `review_spec_text` says.
fn review_spec_part(task: Option<&crate::types::TaskSpec>) -> (r: String)
    ensures
        r@ == review_spec_text(
            match task {
                Some(t) => Some(t@),
                None => None,
            },
        ),
{
    match task {
        Some(s) => {
            let mut r = owned("## Task Specification\n- Title: ");
            push_str(&mut r, s.title.as_str());
            push_str(&mut r, "\n- Description: ");
            match &s.description {
                Some(d) => push_str(&mut r, d.as_str()),
                None => push_str(&mut r, "None"),
            }
            push_str(&mut r, "\n- Files to modify:\n");
            let mut items: Vec<String> = Vec::new();
            let mut i: usize = 0;
            while i < s.files.len()
                invariant
                    i <= s.files@.len(),
                    strings_view(items@) == strings_view(s.files@).take(i as int).map_values(
                        |f: Seq<char>| "- "@ + f,
                    ),
                decreases s.files@.len() - i,
            {
                let mut it = owned("- ");
                push_str(&mut it, s.files[i].as_str());
                let ghost before = strings_view(items@);
                items.push(it);
                assert(strings_view(items@) =~= before.push(it@));
                assert(strings_view(s.files@).take(i + 1).map_values(|f: Seq<char>| "- "@ + f)
                    =~= strings_view(s.files@).take(i as int).map_values(|f: Seq<char>| "- "@ + f).push(
                    "- "@ + s.files@[i as int]@,
                ));
                i = i + 1;
            }
            assert(strings_view(s.files@).take(s.files@.len() as int) =~= strings_view(s.files@));
            let fl = join_strings(&items, "\n");
            push_str(&mut r, fl.as_str());
            push_str(&mut r, "\n- Contracts to satisfy:\n- ");
            let cl = join_strings(&s.contracts, "\n- ");
            if cl.as_str().unicode_len() == 0 {
                push_str(&mut r, "None");
            } else {
                push_str(&mut r, cl.as_str());
            }
            r
        },
        None => owned("No task specification provided."),
    }
}

/// The prompt that asks the model to review: the task's identifier, its
/// specification, and the changed files, the diffs and the test results
/// when they are known.
pub fn review_user_prompt(
    task_id: Option<&str>,
    task: Option<&crate::types::TaskSpec>,
    changed_files: Option<&str>,
    file_diffs: Option<&str>,
    test_results: Option<&str>,
) -> (r: String)
    ensures
        r@ == "## Task Information\n"@ + match task_id {
            Some(t) => "Task ID: "@ + t@,
            None => "No specific task ID provided."@,
        } + "\n\n"@ + review_spec_text(
            match task {
                Some(t) => Some(t@),
                None => None,
            },
        ) + "\n"@ + section_text("Changed Files"@, opt_str(changed_files)) + "\n"@ + section_text(
            "File Diffs"@,
            opt_str(file_diffs),
        ) + "\n"@ + section_text("Test Results"@, opt_str(test_results))
            + "\n\nPlease review the code changes above against the task specification. Identify any issues and provide an overall assessment."@,
{
    let mut r = owned("## Task Information\n");
    match task_id {
        Some(t) => {
            push_str(&mut r, "Task ID: ");
            push_str(&mut r, t);
        },
        None => push_str(&mut r, "No specific task ID provided."),
    }
    push_str(&mut r, "\n\n");
    let spec = review_spec_part(task);
    push_str(&mut r, spec.as_str());
    push_str(&mut r, "\n");
    push_section(&mut r, "Changed Files", changed_files);
    push_str(&mut r, "\n");
    push_section(&mut r, "File Diffs", file_diffs);
    push_str(&mut r, "\n");
    push_section(&mut r, "Test Results", test_results);
    push_str(
        &mut r,
        "\n\nPlease review the code changes above against the task specification. Identify any issues and provide an overall assessment.",
    );
    r
}

} // verus!
