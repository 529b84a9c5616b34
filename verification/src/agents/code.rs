//! The code agent's rules: the file operations it may request, which files
//! it may patch, how the outcome of its operations is reported, and how
//! its attempts end.
use vstd::prelude::*;
use crate::patcher::FilePatch;
use crate::text::{contains, decimal, join, join_strings, owned, push_decimal, push_str};
use crate::types::strings_view;

verus! {

/// Configuration of the code agent.
#[derive(Debug, Clone)]
pub struct CodeAgentConfig {
    /// Retries after a failed attempt.
    pub max_retries: usize,
    /// Whether tests are run after the changes.
    pub test_aware: bool,
    /// The only files that may be patched; any file when empty.
    pub allowed_files: Vec<String>,
    /// Command that verifies the changes.
    pub verify_command: Option<String>,
    /// Timeout of the verification command, in seconds.
    pub verify_command_timeout_secs: u64,
}

impl Default for CodeAgentConfig {
    /// Three retries, tests on, any file, no verification command, a
    /// two-minute timeout.
    fn default() -> (r: Self)
        ensures
            r.max_retries == 3,
            r.test_aware,
            r.allowed_files@.len() == 0,
            r.verify_command is None,
            r.verify_command_timeout_secs == 120,
    {
        CodeAgentConfig {
            max_retries: 3,
            test_aware: true,
            allowed_files: Vec::new(),
            verify_command: None,
            verify_command_timeout_secs: 120,
        }
    }
}

/// A file operation that the model requests.
#[derive(Debug, Clone)]
pub enum FileOperation {
    /// Create a file with the content.
    Create { path: String, content: String },
    /// Replace `original` by `replacement` in a file.
    Modify { path: String, original: String, replacement: String },
    /// Delete a file.
    Delete { path: String },
}

/// The model's answer: the operations and an optional summary.
#[derive(Debug, Clone)]
pub struct CodeGenerationResponse {
    pub operations: Vec<FileOperation>,
    pub summary: Option<String>,
}

/// The paths of the modifications among the operations, in order.
pub open spec fn modified_paths(ops: Seq<FileOperation>) -> Seq<Seq<char>>
    decreases ops.len(),
{
    if ops.len() == 0 {
        seq![]
    } else {
        let prev = modified_paths(ops.drop_last());
        match ops.last() {
            FileOperation::Modify { path, .. } => prev.push(path@),
            _ => prev,
        }
    }
}

/// The patches that the modifications among `operations` stand for, in
/// order.
pub fn patches_of(operations: &Vec<FileOperation>) -> (r: Vec<FilePatch>)
    ensures
        r@.map_values(|p: FilePatch| p.file_path@) == modified_paths(operations@),
{
    let mut r: Vec<FilePatch> = Vec::new();
    let mut i: usize = 0;
    while i < operations.len()
        invariant
            i <= operations@.len(),
            r@.map_values(|p: FilePatch| p.file_path@) == modified_paths(operations@.take(i as int)),
        decreases operations@.len() - i,
    {
        proof {
            assert(operations@.take(i + 1).drop_last() =~= operations@.take(i as int));
            assert(operations@.take(i + 1).last() == operations@[i as int]);
        }
        let ghost before = r@.map_values(|p: FilePatch| p.file_path@);
        match &operations[i] {
            FileOperation::Modify { path, original, replacement } => {
                r.push(
                    FilePatch {
                        file_path: path.clone(),
                        original: original.clone(),
                        replacement: replacement.clone(),
                    },
                );
                assert(r@.map_values(|p: FilePatch| p.file_path@) =~= before.push(path@));
            },
            _ => {},
        }
        i = i + 1;
    }
    assert(operations@.take(operations@.len() as int) =~= operations@);
    r
}

/// The paths among `paths` that are not allowed, in order.
pub open spec fn disallowed(allowed: Seq<Seq<char>>, paths: Seq<Seq<char>>) -> Seq<Seq<char>>
    decreases paths.len(),
{
    if paths.len() == 0 {
        seq![]
    } else {
        let prev = disallowed(allowed, paths.drop_last());
        if allowed.contains(paths.last()) {
            prev
        } else {
            prev.push(paths.last())
        }
    }
}

/// Checks that the patches touch only allowed files (any file when none is
/// listed): the error names the others, in order.
pub fn verify_patches_constraints(allowed_files: &Vec<String>, patches: &Vec<FilePatch>) -> (r: Result<(), String>)
    ensures
        ({
            let bad = disallowed(strings_view(allowed_files@), patches@.map_values(|p: FilePatch| p.file_path@));
            &&& (allowed_files@.len() == 0 || bad.len() == 0) <==> r is Ok
            &&& r matches Err(m) ==> m@ == "Patches for disallowed files: "@ + join(bad, ", "@)
        }),
{
    if allowed_files.len() == 0 {
        return Ok(());
    }
    let ghost al = strings_view(allowed_files@);
    let ghost ps = patches@.map_values(|p: FilePatch| p.file_path@);
    let mut bad: Vec<String> = Vec::new();
    let mut i: usize = 0;
    while i < patches.len()
        invariant
            i <= patches@.len(),
            al == strings_view(allowed_files@),
            ps == patches@.map_values(|p: FilePatch| p.file_path@),
            strings_view(bad@) == disallowed(al, ps.take(i as int)),
        decreases patches@.len() - i,
    {
        proof {
            assert(ps.take(i + 1).drop_last() =~= ps.take(i as int));
            assert(ps.take(i + 1).last() == patches@[i as int].file_path@);
        }
        let mut ok = false;
        let mut k: usize = 0;
        while k < allowed_files.len()
            invariant
                k <= allowed_files@.len(),
                i < patches@.len(),
                al == strings_view(allowed_files@),
                ok == exists|t: int| 0 <= t < k && al[t] == patches@[i as int].file_path@,
            decreases allowed_files@.len() - k,
        {
            assert(al[k as int] == allowed_files@[k as int]@);
            if allowed_files[k] == patches[i].file_path {
                ok = true;
            }
            k = k + 1;
        }
        let ghost before = strings_view(bad@);
        if !ok {
            bad.push(patches[i].file_path.clone());
            assert(strings_view(bad@) =~= before.push(patches@[i as int].file_path@));
        }
        i = i + 1;
    }
    assert(ps.take(ps.len() as int) =~= ps);
    if bad.len() == 0 {
        Ok(())
    } else {
        let mut m = owned("Patches for disallowed files: ");
        let j = join_strings(&bad, ", ");
        push_str(&mut m, j.as_str());
        Err(m)
    }
}

/// How one file operation went.
#[derive(Debug, Clone)]
pub enum OperationOutcome {
    /// It was carried out.
    Done,
    /// The file did not hold the text to replace, with the reason.
    VerifyFailed(String),
    /// It failed, with the reason.
    Failed(String),
}

/// The path of an operation.
pub open spec fn op_path(op: FileOperation) -> Seq<char> {
    match op {
        FileOperation::Create { path, .. } => path@,
        FileOperation::Modify { path, .. } => path@,
        FileOperation::Delete { path } => path@,
    }
}

/// The report of an operation that was carried out.
pub open spec fn done_line(op: FileOperation) -> Seq<char> {
    match op {
        FileOperation::Create { path, .. } => "Created: "@ + path@,
        FileOperation::Modify { path, .. } => "Modified: "@ + path@,
        FileOperation::Delete { path } => "Deleted: "@ + path@,
    }
}

/// The report of an operation that failed for the reason `e`.
pub open spec fn failure_line(op: FileOperation, o: OperationOutcome) -> Seq<char> {
    match o {
        OperationOutcome::VerifyFailed(e) => "Patch verification failed for "@ + op_path(op) + ": "@ + e@,
        OperationOutcome::Failed(e) => match op {
            FileOperation::Create { path, .. } => "Failed to create "@ + path@ + ": "@ + e@,
            FileOperation::Modify { path, .. } => "Failed to modify "@ + path@ + ": "@ + e@,
            FileOperation::Delete { path } => "Failed to delete "@ + path@ + ": "@ + e@,
        },
        OperationOutcome::Done => Seq::<char>::empty(),
    }
}

/// The reports of the first `n` operations that were carried out, and of
/// those that failed.
pub open spec fn reports(ops: Seq<FileOperation>, outs: Seq<OperationOutcome>, n: int) -> (Seq<Seq<char>>, Seq<Seq<char>>)
    decreases n,
{
    if n <= 0 {
        (seq![], seq![])
    } else {
        let (d, f) = reports(ops, outs, n - 1);
        match outs[n - 1] {
            OperationOutcome::Done => (d.push(done_line(ops[n - 1])), f),
            _ => (d, f.push(failure_line(ops[n - 1], outs[n - 1]))),
        }
    }
}

/// Reports the outcome of the operations (one outcome each, in order): the
/// lines of the operations carried out when none failed; otherwise the
/// failures and the successes in one message.
pub fn operations_report(operations: &Vec<FileOperation>, outcomes: &Vec<OperationOutcome>) -> (r: Result<Vec<String>, String>)
    requires
        outcomes@.len() == operations@.len(),
    ensures
        ({
            let (d, f) = reports(operations@, outcomes@, operations@.len() as int);
            &&& f.len() == 0 <==> r is Ok
            &&& r matches Ok(v) ==> strings_view(v@) == d
            &&& r matches Err(m) ==> m@ == "Some operations failed: "@ + join(f, "; "@) + ". Successful: "@
                + join(d, "; "@)
        }),
{
    let mut done: Vec<String> = Vec::new();
    let mut failed: Vec<String> = Vec::new();
    let mut i: usize = 0;
    while i < operations.len()
        invariant
            i <= operations@.len(),
            outcomes@.len() == operations@.len(),
            (strings_view(done@), strings_view(failed@)) == reports(operations@, outcomes@, i as int),
        decreases operations@.len() - i,
    {
        let ghost dv = strings_view(done@);
        let ghost fv = strings_view(failed@);
        let op = &operations[i];
        match &outcomes[i] {
            OperationOutcome::Done => {
                let line = match op {
                    FileOperation::Create { path, .. } => {
                        let mut l = owned("Created: ");
                        push_str(&mut l, path.as_str());
                        l
                    },
                    FileOperation::Modify { path, .. } => {
                        let mut l = owned("Modified: ");
                        push_str(&mut l, path.as_str());
                        l
                    },
                    FileOperation::Delete { path } => {
                        let mut l = owned("Deleted: ");
                        push_str(&mut l, path.as_str());
                        l
                    },
                };
                done.push(line);
                assert(strings_view(done@) =~= dv.push(done_line(operations@[i as int])));
            },
            OperationOutcome::VerifyFailed(e) => {
                let path = match op {
                    FileOperation::Create { path, .. } => path,
                    FileOperation::Modify { path, .. } => path,
                    FileOperation::Delete { path } => path,
                };
                let mut l = owned("Patch verification failed for ");
                push_str(&mut l, path.as_str());
                push_str(&mut l, ": ");
                push_str(&mut l, e.as_str());
                failed.push(l);
                assert(strings_view(failed@) =~= fv.push(failure_line(operations@[i as int], outcomes@[i as int])));
            },
            OperationOutcome::Failed(e) => {
                let mut l = match op {
                    FileOperation::Create { path, .. } => {
                        let mut l = owned("Failed to create ");
                        push_str(&mut l, path.as_str());
                        l
                    },
                    FileOperation::Modify { path, .. } => {
                        let mut l = owned("Failed to modify ");
                        push_str(&mut l, path.as_str());
                        l
                    },
                    FileOperation::Delete { path } => {
                        let mut l = owned("Failed to delete ");
                        push_str(&mut l, path.as_str());
                        l
                    },
                };
                push_str(&mut l, ": ");
                push_str(&mut l, e.as_str());
                failed.push(l);
                assert(strings_view(failed@) =~= fv.push(failure_line(operations@[i as int], outcomes@[i as int])));
            },
        }
        i = i + 1;
    }
    if failed.len() == 0 {
        Ok(done)
    } else {
        let mut m = owned("Some operations failed: ");
        let f = join_strings(&failed, "; ");
        push_str(&mut m, f.as_str());
        push_str(&mut m, ". Successful: ");
        let d = join_strings(&done, "; ");
        push_str(&mut m, d.as_str());
        Err(m)
    }
}

/// Whether the output of a test run reports success ("test result: ok"),
/// and whether it failed: no such report and a nonzero exit code.
pub fn test_outcome(stdout: &str, exit_code: i64) -> (r: (bool, bool))
    ensures
        r.0 == contains(stdout@, "test result: ok"@),
        r.1 == (!contains(stdout@, "test result: ok"@) && exit_code != 0),
{
    let c = crate::text::chars_of(stdout);
    let p = crate::text::chars_of("test result: ok");
    let passed = crate::text::contains_exec(&c, &p);
    (passed, !passed && exit_code != 0)
}

/// The decimal text of a signed number.
pub open spec fn signed_decimal(n: int) -> Seq<char> {
    if n < 0 {
        seq!['-'] + decimal((-n) as nat)
    } else {
        decimal(n as nat)
    }
}

/// Appends the decimal text of a signed number.
pub fn push_signed(s: &mut String, n: i64)
    ensures
        final(s)@ == old(s)@ + signed_decimal(n as int),
{
    if n < 0 {
        crate::text::push_char(s, '-');
        let mag: i128 = 0 - (n as i128);
        push_decimal(s, mag as u64);
    } else {
        push_decimal(s, n as u64);
    }
}

/// The outcome of the verification command: success on exit code zero,
/// otherwise a failure with the code and the error output.
pub fn verify_command_outcome(exit_code: i64, stderr: &str) -> (r: Result<(), String>)
    ensures
        exit_code == 0 <==> r is Ok,
        r matches Err(m) ==> m@ == "Verify command failed with exit code "@ + signed_decimal(exit_code as int) + ": "@
            + stderr@,
{
    if exit_code == 0 {
        return Ok(());
    }
    let mut m = owned("Verify command failed with exit code ");
    push_signed(&mut m, exit_code);
    push_str(&mut m, ": ");
    push_str(&mut m, stderr);
    Err(m)
}

/// Whether the code agent tries again after `retries` failed attempts:
/// it makes up to one more attempt than its retries.
pub fn should_retry(retries: usize, max_retries: usize) -> (r: bool)
    ensures
        r == (retries <= max_retries),
{
    retries <= max_retries
}

/// The failure of a code agent whose attempts all failed, with the last
/// error.
pub fn attempts_failed(max_retries: usize, last_error: &str) -> (r: String)
    requires
        max_retries < usize::MAX,
    ensures
        r@ == "All "@ + decimal((max_retries + 1) as nat) + " attempts failed. Last error: "@ + last_error@,
{
    let mut m = owned("All ");
    push_decimal(&mut m, (max_retries + 1) as u64);
    push_str(&mut m, " attempts failed. Last error: ");
    push_str(&mut m, last_error);
    m
}


// ------------------------------------------------------------------
// The prompts
// ------------------------------------------------------------------

/// The instructions of the code model, before the file constraints.
pub const CODE_PROMPT_HEAD: &'static str = "You are an expert software engineer tasked with implementing code changes according to a specification.\n\n## Rules\n1. Generate precise, surgical patches to modify existing code.\n2. Always read the file content before modifying it to ensure your patch will apply correctly.\n3. Use search/replace patches with enough context (3+ lines) to ensure uniqueness.\n4. Create new files when the file doesn't exist yet.\n5. Delete files only when explicitly requested.\n6. After making changes, run the verification command to ensure correctness.\n7. Follow existing code style and conventions in the project.\n8. Do NOT modify files outside the scope of the task.\n\n## File Constraints\n";

/// The instructions of the code model, after the file constraints.
pub const CODE_PROMPT_TAIL: &'static str = "\n\n## Response Format\nRespond with a JSON object containing:\n- \"operations\": array of file operations (create, modify, delete)\n- \"summary\": brief explanation of the changes\n\nEach operation must have:\n- \"operation\": one of \"create\", \"modify\", \"delete\"\n- \"path\": file path\n- For \"create\": \"content\" field with the full file content\n- For \"modify\": \"original\" (text to replace) and \"replacement\" (new text)\n- For \"delete\": no additional fields\n\nReturn ONLY valid JSON, no markdown formatting.";

/// What the model is told of the files it may modify.
pub open spec fn allowed_files_text(files: Seq<Seq<char>>) -> Seq<char> {
    if files.len() == 0 {
        "You may modify any files in the project."@
    } else {
        "You are ONLY allowed to modify the following files:\n"@ + join(files, "\n"@)
    }
}

/// The instructions of the code model, with the files it may modify.
pub fn code_system_prompt(allowed_files: &Vec<String>) -> (r: String)
    ensures
        r@ == CODE_PROMPT_HEAD@ + allowed_files_text(strings_view(allowed_files@)) + CODE_PROMPT_TAIL@,
{
    let mut r = owned(CODE_PROMPT_HEAD);
    if allowed_files.len() == 0 {
        push_str(&mut r, "You may modify any files in the project.");
    } else {
        push_str(&mut r, "You are ONLY allowed to modify the following files:\n");
        let j = join_strings(allowed_files, "\n");
        push_str(&mut r, j.as_str());
    }
    push_str(&mut r, CODE_PROMPT_TAIL);
    r
}

/// The prompt that asks the code model for changes: the task's identifier,
/// then its specification, dependencies and plan context when known.
pub fn code_user_prompt(
    task_id: Option<&str>,
    task_spec: Option<&str>,
    dependencies: Option<&str>,
    plan_context: Option<&str>,
) -> (r: String)
    ensures
        r@ == "## Task Information\n"@ + match task_id {
            Some(t) => "Task ID: "@ + t@,
            None => "No specific task ID provided."@,
        } + "\n"@ + crate::agents::review::section_text("Task Specification"@, crate::agents::review::opt_str(task_spec))
            + "\n"@ + crate::agents::review::section_text("Dependencies"@, crate::agents::review::opt_str(dependencies))
            + "\n"@ + crate::agents::review::section_text("Plan Context"@, crate::agents::review::opt_str(plan_context))
            + "\n\nPlease implement the required changes according to the task specification above."@,
{
    let mut r = owned("## Task Information\n");
    match task_id {
        Some(t) => {
            push_str(&mut r, "Task ID: ");
            push_str(&mut r, t);
        },
        None => push_str(&mut r, "No specific task ID provided."),
    }
    push_str(&mut r, "\n");
    crate::agents::review::push_section(&mut r, "Task Specification", task_spec);
    push_str(&mut r, "\n");
    crate::agents::review::push_section(&mut r, "Dependencies", dependencies);
    push_str(&mut r, "\n");
    crate::agents::review::push_section(&mut r, "Plan Context", plan_context);
    push_str(&mut r, "\n\nPlease implement the required changes according to the task specification above.");
    r
}

} // verus!
