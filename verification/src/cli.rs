//! The command line: its commands, their options, and how the words of a
//! command line are read into them.
//!
//! Each command accepts options in their long form (`--name value` or
//! `--name=value`), in their short form (`-n value`), flags without a
//! value, and a fixed number of positional arguments. An option may be
//! given once. `--help` or `-h` anywhere asks for help, and `--version` or
//! `-V` right after the program's name asks for the version.
use vstd::prelude::*;
use crate::plan::parser::{parse_u32, parse_u32_exec};
use crate::text::{find_from, owned};

verus! {

// ------------------------------------------------------------------
// Options of a command
// ------------------------------------------------------------------

/// One option of a command.
#[derive(Debug, Clone, Copy)]
pub struct OptionDef {
    /// Its long name, without the leading dashes.
    pub long: &'static str,
    /// Its short name.
    pub short: char,
    /// Whether it takes a value (otherwise it is a flag).
    pub takes_value: bool,
}

/// The mathematical value of an option definition.
pub struct OptionDefView {
    pub long: Seq<char>,
    pub short: char,
    pub takes_value: bool,
}

/// The views of a command's options.
pub open spec fn defs_view(d: Seq<OptionDef>) -> Seq<OptionDefView> {
    d.map_values(|o: OptionDef| OptionDefView { long: o.long@, short: o.short, takes_value: o.takes_value })
}

/// What went wrong in a command line.
#[derive(Debug, Clone, Copy, PartialEq, Eq, Structural)]
pub enum CliErrorKind {
    /// No command was given.
    MissingCommand,
    /// The command or subcommand is not known.
    UnknownCommand,
    /// The option is not one of the command's.
    UnknownOption,
    /// The option takes a value and none follows.
    MissingValue,
    /// A flag was given a value.
    UnexpectedValue,
    /// The option was given twice.
    Repeated,
    /// A word that the command does not expect.
    UnexpectedArgument,
    /// A required positional argument is missing.
    MissingArgument,
    /// A number could not be read.
    InvalidNumber,
    /// Help was asked for.
    HelpRequested,
    /// The version was asked for.
    VersionRequested,
}

/// An error in a command line, with the word it concerns (empty when
/// there is none).
#[derive(Debug, Clone)]
pub struct CliError {
    pub kind: CliErrorKind,
    pub word: String,
}

/// What the options of a command line hold: for each option, whether it
/// was given and its value; and the positional arguments, in order.
#[derive(Debug, Clone)]
pub struct Matches {
    pub present: Vec<bool>,
    pub values: Vec<Option<String>>,
    pub positionals: Vec<String>,
}

/// The mathematical value of `Matches`.
#[verifier::ext_equal]
pub struct MatchesView {
    pub present: Seq<bool>,
    pub values: Seq<Option<Seq<char>>>,
    pub positionals: Seq<Seq<char>>,
}

/// The characters of an optional string.
pub open spec fn opt_str(o: Option<String>) -> Option<Seq<char>> {
    match o {
        Some(s) => Some(s@),
        None => None,
    }
}

impl View for Matches {
    type V = MatchesView;

    open spec fn view(&self) -> MatchesView {
        MatchesView {
            present: self.present@,
            values: self.values@.map_values(|o: Option<String>| opt_str(o)),
            positionals: self.positionals@.map_values(|s: String| s@),
        }
    }
}

/// No option given and no positional argument, for `n` options.
pub open spec fn empty_matches(n: nat) -> MatchesView {
    MatchesView {
        present: Seq::new(n, |i: int| false),
        values: Seq::new(n, |i: int| None),
        positionals: seq![],
    }
}

/// `m` with option `k` given, with value `v`.
pub open spec fn with_option(m: MatchesView, k: int, v: Option<Seq<char>>) -> MatchesView {
    MatchesView { present: m.present.update(k, true), values: m.values.update(k, v), ..m }
}

/// The first option whose long name is `name`, or -1.
pub open spec fn find_long(defs: Seq<OptionDefView>, name: Seq<char>, k: int) -> int
    decreases defs.len() - k,
{
    if k < 0 || k >= defs.len() {
        -1
    } else if defs[k].long == name {
        k
    } else {
        find_long(defs, name, k + 1)
    }
}

/// The first option whose short name is `c`, or -1.
pub open spec fn find_short(defs: Seq<OptionDefView>, c: char, k: int) -> int
    decreases defs.len() - k,
{
    if k < 0 || k >= defs.len() {
        -1
    } else if defs[k].short == c {
        k
    } else {
        find_short(defs, c, k + 1)
    }
}

/// A word asking for help.
pub open spec fn is_help(t: Seq<char>) -> bool {
    t == "--help"@ || t == "-h"@
}

/// A word of the long form: two dashes and a name.
pub open spec fn is_long(t: Seq<char>) -> bool {
    t.len() > 2 && t[0] == '-' && t[1] == '-'
}

/// A word of the short form: one dash and a character other than a dash.
pub open spec fn is_short(t: Seq<char>) -> bool {
    t.len() == 2 && t[0] == '-' && t[1] != '-'
}

/// The result of giving option `k` (named by the word `t`) the value
/// `inline` written in the word itself, if any, with the words from `i`
/// still to read.
pub open spec fn give_option(
    defs: Seq<OptionDefView>,
    npos: nat,
    toks: Seq<Seq<char>>,
    i: int,
    m: MatchesView,
    k: int,
    t: Seq<char>,
    inline: Option<Seq<char>>,
) -> Result<MatchesView, (CliErrorKind, Seq<char>)>
    decreases toks.len() - i, 0nat,
{
    if i < 0 || i >= toks.len() || k < 0 || k >= defs.len() || k >= m.present.len() {
        Err((CliErrorKind::UnknownOption, t))
    } else if m.present[k] {
        Err((CliErrorKind::Repeated, t))
    } else if !defs[k].takes_value {
        if inline is Some {
            Err((CliErrorKind::UnexpectedValue, t))
        } else {
            parse_words(defs, npos, toks, i + 1, with_option(m, k, None))
        }
    } else {
        match inline {
            Some(v) => parse_words(defs, npos, toks, i + 1, with_option(m, k, Some(v))),
            None => if i + 1 < toks.len() {
                parse_words(defs, npos, toks, i + 2, with_option(m, k, Some(toks[i + 1])))
            } else {
                Err((CliErrorKind::MissingValue, t))
            },
        }
    }
}

/// Reads the words `toks` from `i` on into `m`, for a command with the
/// options `defs` and at most `npos` positional arguments.
pub open spec fn parse_words(
    defs: Seq<OptionDefView>,
    npos: nat,
    toks: Seq<Seq<char>>,
    i: int,
    m: MatchesView,
) -> Result<MatchesView, (CliErrorKind, Seq<char>)>
    decreases toks.len() - i, 1nat,
{
    if i < 0 || i >= toks.len() {
        Ok(m)
    } else {
        let t = toks[i];
        if is_help(t) {
            Err((CliErrorKind::HelpRequested, t))
        } else if is_long(t) {
            let body = t.subrange(2, t.len() as int);
            match find_from(body, seq!['='], 0) {
                Some(e) => give_option(
                    defs,
                    npos,
                    toks,
                    i,
                    m,
                    find_long(defs, body.subrange(0, e), 0),
                    t,
                    Some(body.subrange(e + 1, body.len() as int)),
                ),
                None => give_option(defs, npos, toks, i, m, find_long(defs, body, 0), t, None),
            }
        } else if is_short(t) {
            give_option(defs, npos, toks, i, m, find_short(defs, t[1], 0), t, None)
        } else if m.positionals.len() < npos {
            parse_words(
                defs,
                npos,
                toks,
                i + 1,
                MatchesView { positionals: m.positionals.push(t), ..m },
            )
        } else {
            Err((CliErrorKind::UnexpectedArgument, t))
        }
    }
}

/// What the words `toks` from `i` on hold, for a command with the options
/// `defs` and at most `npos` positional arguments.
pub open spec fn matches_of(defs: Seq<OptionDefView>, npos: nat, toks: Seq<Seq<char>>, i: int) -> Result<
    MatchesView,
    (CliErrorKind, Seq<char>),
> {
    parse_words(defs, npos, toks, i, empty_matches(defs.len()))
}

/// The view of an error.
pub open spec fn err_view(e: CliError) -> (CliErrorKind, Seq<char>) {
    (e.kind, e.word@)
}

/// The characters of each word.
pub open spec fn words_view(args: Seq<&str>) -> Seq<Seq<char>> {
    args.map_values(|a: &str| a@)
}

fn cli_error(kind: CliErrorKind, word: &str) -> (r: CliError)
    ensures
        r.kind == kind,
        r.word@ == word@,
{
    CliError { kind, word: owned(word) }
}

/// The first option whose long name is the characters `name`.
fn find_long_exec(defs: &Vec<OptionDef>, name: &Vec<char>) -> (r: usize)
    ensures
        find_long(defs_view(defs@), name@, 0) < 0 ==> r == defs@.len(),
        find_long(defs_view(defs@), name@, 0) >= 0 ==> r as int == find_long(
            defs_view(defs@),
            name@,
            0,
        ),
{
    let ghost dv = defs_view(defs@);
    let mut k: usize = 0;
    while k < defs.len()
        invariant
            k <= defs@.len(),
            dv == defs_view(defs@),
            find_long(dv, name@, 0) == find_long(dv, name@, k as int),
        decreases defs@.len() - k,
    {
        let l = crate::text::chars_of(defs[k].long);
        if l.len() == name.len() && crate::text::occurs_at_exec(&l, l.len(), 0, name) {
            assert(l@.subrange(0, name@.len() as int) =~= l@);
            return k;
        }
        proof {
            if dv[k as int].long == name@ {
                assert(l@.subrange(0, name@.len() as int) =~= l@);
            }
        }
        k = k + 1;
    }
    defs.len()
}

/// The first option whose short name is `c`.
fn find_short_exec(defs: &Vec<OptionDef>, c: char) -> (r: usize)
    ensures
        find_short(defs_view(defs@), c, 0) < 0 ==> r == defs@.len(),
        find_short(defs_view(defs@), c, 0) >= 0 ==> r as int == find_short(
            defs_view(defs@),
            c,
            0,
        ),
{
    let ghost dv = defs_view(defs@);
    let mut k: usize = 0;
    while k < defs.len()
        invariant
            k <= defs@.len(),
            dv == defs_view(defs@),
            find_short(dv, c, 0) == find_short(dv, c, k as int),
        decreases defs@.len() - k,
    {
        if defs[k].short == c {
            return k;
        }
        k = k + 1;
    }
    defs.len()
}

/// Reads the words of `args` from `start` on, for a command with the
/// options `defs` and at most `npos` positional arguments, as `matches_of`
/// says.
pub fn parse_matches(defs: &Vec<OptionDef>, npos: usize, args: &Vec<&str>, start: usize) -> (r:
    Result<Matches, CliError>)
    requires
        start <= args@.len(),
    ensures
        match r {
            Ok(m) => matches_of(defs_view(defs@), npos as nat, words_view(args@), start as int)
                == Ok::<MatchesView, (CliErrorKind, Seq<char>)>(m@),
            Err(e) => matches_of(defs_view(defs@), npos as nat, words_view(args@), start as int)
                == Err::<MatchesView, (CliErrorKind, Seq<char>)>(err_view(e)),
        },
{
    let ghost dv = defs_view(defs@);
    let ghost toks = words_view(args@);
    let mut present: Vec<bool> = Vec::new();
    let mut values: Vec<Option<String>> = Vec::new();
    let mut k: usize = 0;
    while k < defs.len()
        invariant
            k <= defs@.len(),
            present@.len() == k,
            values@.len() == k,
            forall|t: int| 0 <= t < k ==> !present@[t],
            forall|t: int| 0 <= t < k ==> (#[trigger] values@[t]) is None,
        decreases defs@.len() - k,
    {
        present.push(false);
        values.push(None);
        k = k + 1;
    }
    let mut m = Matches { present, values, positionals: Vec::new() };
    assert(m@.present =~= empty_matches(dv.len()).present);
    assert forall|t: int| 0 <= t < dv.len() implies m@.values[t] == empty_matches(
        dv.len(),
    ).values[t] by {
        assert(m.values@[t] is None);
    }
    assert(m@.values =~= empty_matches(dv.len()).values);
    assert(m@.positionals =~= empty_matches(dv.len()).positionals);
    assert(m@ =~= empty_matches(dv.len()));
    let mut i = start;
    while i < args.len()
        invariant
            start <= i,
            dv == defs_view(defs@),
            toks == words_view(args@),
            m@.present.len() == dv.len(),
            m@.values.len() == dv.len(),
            matches_of(dv, npos as nat, toks, start as int) == parse_words(
                dv,
                npos as nat,
                toks,
                i as int,
                m@,
            ),
        decreases args@.len() - i,
    {
        let t = crate::text::chars_of(args[i]);
        assert(toks[i as int] == t@);
        let help = owned(args[i]) == owned("--help") || owned(args[i]) == owned("-h");
        if help {
            return Err(cli_error(CliErrorKind::HelpRequested, args[i]));
        }
        let mut kidx: usize = defs.len();
        let mut inline: Option<String> = None;
        let mut named = false;
        let ghost mut gk: int = -1;
        if t.len() > 2 && t[0] == '-' && t[1] == '-' {
            let body = crate::text::sub_chars(&t, 2, t.len());
            let eq = vec!['='];
            assert(eq@ =~= seq!['=']);
            assert(body@.subrange(0, body@.len() as int) =~= body@);
            match crate::text::find_exec(&body, body.len(), 0, &eq) {
                Some(e) => {
                    proof {
                        crate::text::lemma_find_bound(body@, seq!['='], 0);
                    }
                    let name = crate::text::sub_chars(&body, 0, e);
                    kidx = find_long_exec(defs, &name);
                    inline = Some(crate::text::string_of(&body, e + 1, body.len()));
                    proof {
                        gk = find_long(dv, name@, 0);
                        assert(parse_words(dv, npos as nat, toks, i as int, m@) == give_option(
                            dv,
                            npos as nat,
                            toks,
                            i as int,
                            m@,
                            gk,
                            t@,
                            opt_str(inline),
                        ));
                    }
                },
                None => {
                    kidx = find_long_exec(defs, &body);
                    proof {
                        gk = find_long(dv, body@, 0);
                        assert(parse_words(dv, npos as nat, toks, i as int, m@) == give_option(
                            dv,
                            npos as nat,
                            toks,
                            i as int,
                            m@,
                            gk,
                            t@,
                            opt_str(inline),
                        ));
                    }
                },
            }
            named = true;
        } else if t.len() == 2 && t[0] == '-' && t[1] != '-' {
            kidx = find_short_exec(defs, t[1]);
            named = true;
            proof {
                gk = find_short(dv, t@[1], 0);
                assert(parse_words(dv, npos as nat, toks, i as int, m@) == give_option(
                    dv,
                    npos as nat,
                    toks,
                    i as int,
                    m@,
                    gk,
                    t@,
                    opt_str(inline),
                ));
            }
        }
        if named {
            if kidx >= defs.len() {
                return Err(cli_error(CliErrorKind::UnknownOption, args[i]));
            }
            if m.present[kidx] {
                return Err(cli_error(CliErrorKind::Repeated, args[i]));
            }
            let ghost before = m@;
            if !defs[kidx].takes_value {
                if inline.is_some() {
                    return Err(cli_error(CliErrorKind::UnexpectedValue, args[i]));
                }
                m.present.set(kidx, true);
                m.values.set(kidx, None);
                assert(m@ =~= with_option(before, kidx as int, None));
                i = i + 1;
            } else {
                match inline {
                    Some(v) => {
                        let ghost vv = v@;
                        m.present.set(kidx, true);
                        m.values.set(kidx, Some(v));
                        assert(m@ =~= with_option(before, kidx as int, Some(vv)));
                        i = i + 1;
                    },
                    None => {
                        if i + 1 < args.len() {
                            m.present.set(kidx, true);
                            m.values.set(kidx, Some(owned(args[i + 1])));
                            assert(m@ =~= with_option(before, kidx as int, Some(toks[i + 1])));
                            i = i + 2;
                        } else {
                            return Err(cli_error(CliErrorKind::MissingValue, args[i]));
                        }
                    },
                }
            }
        } else {
            if m.positionals.len() < npos {
                let ghost before = m@;
                m.positionals.push(owned(args[i]));
                assert(m@ =~= MatchesView { positionals: before.positionals.push(t@), ..before });
                i = i + 1;
            } else {
                return Err(cli_error(CliErrorKind::UnexpectedArgument, args[i]));
            }
        }
    }
    Ok(m)
}

// ------------------------------------------------------------------
// The commands
// ------------------------------------------------------------------

/// The command line of the program.
#[derive(Debug, Clone)]
pub struct Cli {
    pub command: Commands,
}

/// The commands of the program.
#[derive(Debug, Clone)]
pub enum Commands {
    /// Run the planning phase.
    Plan(Plan),
    /// Run the execution phase with the terminal interface.
    Run(Run),
    /// Index codebase artifacts.
    Index(Index),
    /// Show the status of the current plan.
    Status(Status),
    /// List and manage sessions.
    Session(Session),
    /// Run diagnostics.
    Doctor(Doctor),
    /// Write the default configuration.
    Bootstrap,
}

/// Manage plans (create, edit, list, validate).
#[derive(Debug, Clone)]
pub struct Plan {
    /// What to do; none when the command stands alone.
    pub command: Option<PlanCommand>,
}

/// The plan subcommands.
#[derive(Debug, Clone)]
pub enum PlanCommand {
    /// Create a new plan.
    Create { goal: Option<String>, profile: Option<String> },
    /// Edit an existing plan.
    Edit { plan_path: Option<String> },
    /// List available plans.
    List { profile: Option<String> },
    /// Validate a plan file.
    Validate { plan_path: Option<String> },
}

/// Run the execution phase.
#[derive(Debug, Clone)]
pub struct Run {
    /// Path to the plan file.
    pub plan_path: Option<String>,
    /// Profile name to use.
    pub profile: Option<String>,
    /// Continue from the given step.
    pub continue_from: Option<String>,
    /// Dry run without making changes.
    pub dry_run: bool,
}

/// Index codebase artifacts.
#[derive(Debug, Clone)]
pub struct Index {
    /// What to do; none when the command stands alone.
    pub command: Option<IndexCommand>,
}

/// The index subcommands.
#[derive(Debug, Clone)]
pub enum IndexCommand {
    /// Build the codebase index.
    Build { path: Option<String>, force: bool },
    /// Search the codebase index.
    Search { query: String, top_k: usize },
    /// Watch for file changes and update the index.
    Watch { path: Option<String> },
    /// Display index status and health.
    Status,
}

/// Show the status of the current plan.
#[derive(Debug, Clone)]
pub struct Status {
    /// Show detailed information.
    pub detailed: bool,
}

/// List and manage sessions.
#[derive(Debug, Clone)]
pub struct Session {
    pub command: SessionCommand,
}

/// The session subcommands.
#[derive(Debug, Clone)]
pub enum SessionCommand {
    /// List all sessions.
    List,
    /// Resume a session by its identifier.
    Resume { id: String, continue_from: Option<String>, dry_run: bool },
    /// Show the details of a session.
    Show { id: String },
    /// Delete a session.
    Delete { id: String },
    /// Export a session to JSON.
    Export { id: String, output: Option<String> },
}

/// Run diagnostics.
#[derive(Debug, Clone)]
pub struct Doctor {
    /// Verbose output.
    pub verbose: bool,
}

/// An option's definition as a value.
pub open spec fn od(long: Seq<char>, short: char, takes_value: bool) -> OptionDefView {
    OptionDefView { long, short, takes_value }
}

/// The options of `run`.
pub open spec fn run_defs() -> Seq<OptionDefView> {
    seq![
        od("plan-path"@, 'p', true),
        od("profile"@, 'P', true),
        od("continue-from"@, 'c', true),
        od("dry-run"@, 'd', false),
    ]
}

/// The options of `plan create`.
pub open spec fn create_defs() -> Seq<OptionDefView> {
    seq![od("goal"@, 'g', true), od("profile"@, 'P', true)]
}

/// The options of `plan edit` and `plan validate`.
pub open spec fn plan_path_defs() -> Seq<OptionDefView> {
    seq![od("plan-path"@, 'p', true)]
}

/// The options of `plan list`.
pub open spec fn profile_defs() -> Seq<OptionDefView> {
    seq![od("profile"@, 'P', true)]
}

/// The options of `index build`.
pub open spec fn build_defs() -> Seq<OptionDefView> {
    seq![od("path"@, 'p', true), od("force"@, 'f', false)]
}

/// The options of `index watch`.
pub open spec fn path_defs() -> Seq<OptionDefView> {
    seq![od("path"@, 'p', true)]
}

/// The options of `index search`.
pub open spec fn search_defs() -> Seq<OptionDefView> {
    seq![od("top-k"@, 't', true)]
}

/// The options of `session resume`.
pub open spec fn resume_defs() -> Seq<OptionDefView> {
    seq![od("continue-from"@, 'c', true), od("dry-run"@, 'd', false)]
}

/// The options of `session export`.
pub open spec fn export_defs() -> Seq<OptionDefView> {
    seq![od("output"@, 'o', true)]
}

/// The options of `status`.
pub open spec fn status_defs() -> Seq<OptionDefView> {
    seq![od("detailed"@, 'd', false)]
}

/// The options of `doctor`.
pub open spec fn doctor_defs() -> Seq<OptionDefView> {
    seq![od("verbose"@, 'v', false)]
}

/// `r` is the error `e`.
pub open spec fn is_error(r: Result<Cli, CliError>, e: (CliErrorKind, Seq<char>)) -> bool {
    match r {
        Err(x) => err_view(x) == e,
        Ok(_) => false,
    }
}

/// `r` is the error of kind `k` about the word `w`.
pub open spec fn is_error_of(r: Result<Cli, CliError>, k: CliErrorKind, w: Seq<char>) -> bool {
    is_error(r, (k, w))
}

/// The command of a successful result.
pub open spec fn command_of(r: Result<Cli, CliError>) -> Option<Commands> {
    match r {
        Ok(c) => Some(c.command),
        Err(_) => None,
    }
}

/// What `run` reads from its words.
pub open spec fn run_result(toks: Seq<Seq<char>>, r: Result<Cli, CliError>) -> bool {
    match matches_of(run_defs(), 0, toks, 2) {
        Ok(m) => match command_of(r) {
            Some(Commands::Run(x)) => opt_str(x.plan_path) == m.values[0] && opt_str(x.profile)
                == m.values[1] && opt_str(x.continue_from) == m.values[2] && x.dry_run
                == m.present[3],
            _ => false,
        },
        Err(e) => is_error(r, e),
    }
}

/// What `plan` reads from its words.
pub open spec fn plan_result(toks: Seq<Seq<char>>, r: Result<Cli, CliError>) -> bool {
    if toks.len() <= 2 {
        command_of(r) == Some(Commands::Plan(Plan { command: None }))
    } else {
        let s = toks[2];
        let defs = if s == "create"@ {
            create_defs()
        } else if s == "list"@ {
            profile_defs()
        } else {
            plan_path_defs()
        };
        if s == "create"@ || s == "edit"@ || s == "list"@ || s == "validate"@ {
            match matches_of(defs, 0, toks, 3) {
                Ok(m) => match command_of(r) {
                    Some(Commands::Plan(Plan { command: Some(c) })) => match c {
                        PlanCommand::Create { goal, profile } => s == "create"@ && opt_str(goal)
                            == m.values[0] && opt_str(profile) == m.values[1],
                        PlanCommand::Edit { plan_path } => s == "edit"@ && opt_str(plan_path)
                            == m.values[0],
                        PlanCommand::List { profile } => s == "list"@ && opt_str(profile)
                            == m.values[0],
                        PlanCommand::Validate { plan_path } => s == "validate"@ && opt_str(
                            plan_path,
                        ) == m.values[0],
                    },
                    _ => false,
                },
                Err(e) => is_error(r, e),
            }
        } else if is_help(s) {
            is_error_of(r, CliErrorKind::HelpRequested, s)
        } else {
            is_error_of(r, CliErrorKind::UnknownCommand, s)
        }
    }
}

/// The value of `--top-k`: ten when it is not given.
pub open spec fn top_k_of(v: Option<Seq<char>>) -> Option<u32> {
    match v {
        Some(t) => parse_u32(t),
        None => Some(10u32),
    }
}

/// What `index` reads from its words.
pub open spec fn index_result(toks: Seq<Seq<char>>, r: Result<Cli, CliError>) -> bool {
    if toks.len() <= 2 {
        command_of(r) == Some(Commands::Index(Index { command: None }))
    } else {
        let s = toks[2];
        let defs = if s == "build"@ {
            build_defs()
        } else if s == "search"@ {
            search_defs()
        } else if s == "watch"@ {
            path_defs()
        } else {
            Seq::<OptionDefView>::empty()
        };
        let npos: nat = if s == "search"@ {
            1
        } else {
            0
        };
        if s == "build"@ || s == "search"@ || s == "watch"@ || s == "status"@ {
            match matches_of(defs, npos, toks, 3) {
                Ok(m) => if s == "search"@ && m.positionals.len() == 0 {
                    is_error_of(r, CliErrorKind::MissingArgument, "<QUERY>"@)
                } else if s == "search"@ && top_k_of(m.values[0]) is None {
                    is_error_of(r, CliErrorKind::InvalidNumber, m.values[0].unwrap())
                } else {
                    match command_of(r) {
                        Some(Commands::Index(Index { command: Some(c) })) => match c {
                            IndexCommand::Build { path, force } => s == "build"@ && opt_str(path)
                                == m.values[0] && force == m.present[1],
                            IndexCommand::Search { query, top_k } => s == "search"@ && query@
                                == m.positionals[0] && Some(top_k as u32) == top_k_of(m.values[0])
                                && top_k <= u32::MAX,
                            IndexCommand::Watch { path } => s == "watch"@ && opt_str(path)
                                == m.values[0],
                            IndexCommand::Status => s == "status"@,
                        },
                        _ => false,
                    }
                },
                Err(e) => is_error(r, e),
            }
        } else if is_help(s) {
            is_error_of(r, CliErrorKind::HelpRequested, s)
        } else {
            is_error_of(r, CliErrorKind::UnknownCommand, s)
        }
    }
}

/// What `session` reads from its words.
pub open spec fn session_result(toks: Seq<Seq<char>>, r: Result<Cli, CliError>) -> bool {
    if toks.len() <= 2 {
        is_error_of(r, CliErrorKind::MissingCommand, "session"@)
    } else {
        let s = toks[2];
        let defs = if s == "resume"@ {
            resume_defs()
        } else if s == "export"@ {
            export_defs()
        } else {
            Seq::<OptionDefView>::empty()
        };
        let npos: nat = if s == "list"@ {
            0
        } else {
            1
        };
        if s == "list"@ || s == "resume"@ || s == "show"@ || s == "delete"@ || s == "export"@ {
            match matches_of(defs, npos, toks, 3) {
                Ok(m) => if s != "list"@ && m.positionals.len() == 0 {
                    is_error_of(r, CliErrorKind::MissingArgument, "<ID>"@)
                } else {
                    match command_of(r) {
                        Some(Commands::Session(Session { command: c })) => match c {
                            SessionCommand::List => s == "list"@,
                            SessionCommand::Resume { id, continue_from, dry_run } => s
                                == "resume"@ && id@ == m.positionals[0] && opt_str(continue_from)
                                == m.values[0] && dry_run == m.present[1],
                            SessionCommand::Show { id } => s == "show"@ && id@ == m.positionals[0],
                            SessionCommand::Delete { id } => s == "delete"@ && id@
                                == m.positionals[0],
                            SessionCommand::Export { id, output } => s == "export"@ && id@
                                == m.positionals[0] && opt_str(output) == m.values[0],
                        },
                        _ => false,
                    }
                },
                Err(e) => is_error(r, e),
            }
        } else if is_help(s) {
            is_error_of(r, CliErrorKind::HelpRequested, s)
        } else {
            is_error_of(r, CliErrorKind::UnknownCommand, s)
        }
    }
}

/// What a command line reads as: the words after the program's name name
/// a command and then hold its options and arguments.
pub open spec fn cli_result(toks: Seq<Seq<char>>, r: Result<Cli, CliError>) -> bool {
    if toks.len() < 2 {
        is_error_of(r, CliErrorKind::MissingCommand, Seq::<char>::empty())
    } else {
        let c = toks[1];
        if is_help(c) {
            is_error_of(r, CliErrorKind::HelpRequested, c)
        } else if c == "--version"@ || c == "-V"@ {
            is_error_of(r, CliErrorKind::VersionRequested, c)
        } else if c == "plan"@ {
            plan_result(toks, r)
        } else if c == "run"@ {
            run_result(toks, r)
        } else if c == "index"@ {
            index_result(toks, r)
        } else if c == "session"@ {
            session_result(toks, r)
        } else if c == "status"@ {
            match matches_of(status_defs(), 0, toks, 2) {
                Ok(m) => command_of(r) == Some(Commands::Status(Status { detailed: m.present[0] })),
                Err(e) => is_error(r, e),
            }
        } else if c == "doctor"@ {
            match matches_of(doctor_defs(), 0, toks, 2) {
                Ok(m) => command_of(r) == Some(Commands::Doctor(Doctor { verbose: m.present[0] })),
                Err(e) => is_error(r, e),
            }
        } else if c == "bootstrap"@ {
            match matches_of(Seq::<OptionDefView>::empty(), 0, toks, 2) {
                Ok(m) => command_of(r) == Some(Commands::Bootstrap),
                Err(e) => is_error(r, e),
            }
        } else {
            is_error_of(r, CliErrorKind::UnknownCommand, c)
        }
    }
}

/// A command line that reads without error.
pub open spec fn cli_accepts(args: Seq<&str>) -> bool {
    exists|c: Cli| cli_result(words_view(args), Ok(c))
}

/// The definitions of a list of options.
fn defs_of(v: Vec<OptionDef>) -> (r: Vec<OptionDef>)
    ensures
        r@ == v@,
{
    v
}

fn opt(long: &'static str, short: char, takes_value: bool) -> (r: OptionDef)
    ensures
        r.long@ == long@,
        r.short == short,
        r.takes_value == takes_value,
{
    OptionDef { long, short, takes_value }
}

/// The string of an optional value.
fn clone_value(v: &Option<String>) -> (r: Option<String>)
    ensures
        opt_str(r) == opt_str(*v),
{
    match v {
        Some(s) => Some(s.clone()),
        None => None,
    }
}

/// Whether the word is exactly `w`.
fn word_is(a: &str, w: &str) -> (r: bool)
    ensures
        r == (a@ == w@),
{
    owned(a) == owned(w)
}

/// The options of `run`, as `run_defs` lists them.
fn run_defs_exec() -> (r: Vec<OptionDef>)
    ensures
        defs_view(r@) == run_defs(),
{
    let r = defs_of(
        vec![
            opt("plan-path", 'p', true),
            opt("profile", 'P', true),
            opt("continue-from", 'c', true),
            opt("dry-run", 'd', false),
        ],
    );
    assert(defs_view(r@) =~= run_defs());
    r
}

/// A list of options with one entry.
fn one_def(long: &'static str, short: char, takes_value: bool) -> (r: Vec<OptionDef>)
    ensures
        defs_view(r@) == seq![od(long@, short, takes_value)],
{
    let r = defs_of(vec![opt(long, short, takes_value)]);
    assert(defs_view(r@) =~= seq![od(long@, short, takes_value)]);
    r
}

/// A list of options with two entries.
fn two_defs(
    l1: &'static str,
    s1: char,
    v1: bool,
    l2: &'static str,
    s2: char,
    v2: bool,
) -> (r: Vec<OptionDef>)
    ensures
        defs_view(r@) == seq![od(l1@, s1, v1), od(l2@, s2, v2)],
{
    let r = defs_of(vec![opt(l1, s1, v1), opt(l2, s2, v2)]);
    assert(defs_view(r@) =~= seq![od(l1@, s1, v1), od(l2@, s2, v2)]);
    r
}

/// No options.
fn no_defs() -> (r: Vec<OptionDef>)
    ensures
        defs_view(r@) == Seq::<OptionDefView>::empty(),
{
    let r: Vec<OptionDef> = Vec::new();
    assert(defs_view(r@) =~= Seq::<OptionDefView>::empty());
    r
}

/// The error of `parse_matches`, as a result of the whole command line.
fn fail(e: CliError) -> (r: Result<Cli, CliError>)
    ensures
        is_error(r, err_view(e)),
{
    Err(e)
}

fn parse_run(args: &Vec<&str>) -> (r: Result<Cli, CliError>)
    requires
        args@.len() >= 2,
    ensures
        run_result(words_view(args@), r),
{
    let defs = run_defs_exec();
    match parse_matches(&defs, 0, args, 2) {
        Ok(m) => {
            assert(m@.values.len() == 4 && m@.present.len() == 4) by {
                lemma_matches_len(defs_view(defs@), 0, words_view(args@), 2);
            }
            assert(opt_str(m.values@[0]) == m@.values[0]);
            assert(opt_str(m.values@[1]) == m@.values[1]);
            assert(opt_str(m.values@[2]) == m@.values[2]);
            Ok(
                Cli {
                    command: Commands::Run(
                        Run {
                            plan_path: clone_value(&m.values[0]),
                            profile: clone_value(&m.values[1]),
                            continue_from: clone_value(&m.values[2]),
                            dry_run: m.present[3],
                        },
                    ),
                },
            )
        },
        Err(e) => fail(e),
    }
}

/// What `parse_words` gives keeps one entry for each option.
proof fn lemma_words_len(
    defs: Seq<OptionDefView>,
    npos: nat,
    toks: Seq<Seq<char>>,
    i: int,
    m: MatchesView,
)
    requires
        m.present.len() == defs.len(),
        m.values.len() == defs.len(),
    ensures
        parse_words(defs, npos, toks, i, m) matches Ok(x) ==> x.present.len() == defs.len()
            && x.values.len() == defs.len(),
    decreases toks.len() - i, 1nat,
{
    if 0 <= i < toks.len() {
        let t = toks[i];
        if is_help(t) {
        } else if is_long(t) {
            let body = t.subrange(2, t.len() as int);
            let (k, inline) = match find_from(body, seq!['='], 0) {
                Some(e) => (
                    find_long(defs, body.subrange(0, e), 0),
                    Some(body.subrange(e + 1, body.len() as int)),
                ),
                None => (find_long(defs, body, 0), None),
            };
            lemma_give_len(defs, npos, toks, i, m, k, t, inline);
        } else if is_short(t) {
            lemma_give_len(defs, npos, toks, i, m, find_short(defs, t[1], 0), t, None);
        } else if m.positionals.len() < npos {
            lemma_words_len(
                defs,
                npos,
                toks,
                i + 1,
                MatchesView { positionals: m.positionals.push(t), ..m },
            );
        }
    }
}

proof fn lemma_give_len(
    defs: Seq<OptionDefView>,
    npos: nat,
    toks: Seq<Seq<char>>,
    i: int,
    m: MatchesView,
    k: int,
    t: Seq<char>,
    inline: Option<Seq<char>>,
)
    requires
        m.present.len() == defs.len(),
        m.values.len() == defs.len(),
        0 <= i < toks.len(),
    ensures
        give_option(defs, npos, toks, i, m, k, t, inline) matches Ok(x) ==> x.present.len()
            == defs.len() && x.values.len() == defs.len(),
    decreases toks.len() - i, 0nat,
{
    if 0 <= k < defs.len() && !m.present[k] {
        if !defs[k].takes_value {
            if inline is None {
                lemma_words_len(defs, npos, toks, i + 1, with_option(m, k, None));
            }
        } else {
            match inline {
                Some(v) => lemma_words_len(defs, npos, toks, i + 1, with_option(m, k, Some(v))),
                None => if i + 1 < toks.len() {
                    lemma_words_len(defs, npos, toks, i + 2, with_option(m, k, Some(toks[i + 1])));
                },
            }
        }
    }
}

/// What `matches_of` gives keeps one entry for each option.
proof fn lemma_matches_len(defs: Seq<OptionDefView>, npos: nat, toks: Seq<Seq<char>>, i: int)
    ensures
        matches_of(defs, npos, toks, i) matches Ok(x) ==> x.present.len() == defs.len()
            && x.values.len() == defs.len(),
{
    lemma_words_len(defs, npos, toks, i, empty_matches(defs.len()));
}

fn parse_plan(args: &Vec<&str>) -> (r: Result<Cli, CliError>)
    requires
        args@.len() >= 2,
    ensures
        plan_result(words_view(args@), r),
{
    if args.len() <= 2 {
        return Ok(Cli { command: Commands::Plan(Plan { command: None }) });
    }
    let s = args[2];
    assert(words_view(args@)[2] == s@);
    let create = word_is(s, "create");
    let edit = word_is(s, "edit");
    let list = word_is(s, "list");
    let validate = word_is(s, "validate");
    if !(create || edit || list || validate) {
        if word_is(s, "--help") || word_is(s, "-h") {
            return Err(cli_error(CliErrorKind::HelpRequested, s));
        }
        return Err(cli_error(CliErrorKind::UnknownCommand, s));
    }
    let defs = if create {
        two_defs("goal", 'g', true, "profile", 'P', true)
    } else if list {
        one_def("profile", 'P', true)
    } else {
        one_def("plan-path", 'p', true)
    };
    match parse_matches(&defs, 0, args, 3) {
        Ok(m) => {
            proof {
                lemma_matches_len(defs_view(defs@), 0, words_view(args@), 3);
            }
            assert(opt_str(m.values@[0]) == m@.values[0]);
            let v0 = clone_value(&m.values[0]);
            let c = if create {
                assert(opt_str(m.values@[1]) == m@.values[1]);
                PlanCommand::Create { goal: v0, profile: clone_value(&m.values[1]) }
            } else if edit {
                PlanCommand::Edit { plan_path: v0 }
            } else if list {
                PlanCommand::List { profile: v0 }
            } else {
                PlanCommand::Validate { plan_path: v0 }
            };
            Ok(Cli { command: Commands::Plan(Plan { command: Some(c) }) })
        },
        Err(e) => fail(e),
    }
}

fn parse_index(args: &Vec<&str>) -> (r: Result<Cli, CliError>)
    requires
        args@.len() >= 2,
    ensures
        index_result(words_view(args@), r),
{
    if args.len() <= 2 {
        return Ok(Cli { command: Commands::Index(Index { command: None }) });
    }
    let s = args[2];
    assert(words_view(args@)[2] == s@);
    proof {
        reveal_strlit("build");
        reveal_strlit("search");
        reveal_strlit("watch");
        reveal_strlit("status");
    }
    let build = word_is(s, "build");
    let search = word_is(s, "search");
    let watch = word_is(s, "watch");
    let status = word_is(s, "status");
    if !(build || search || watch || status) {
        if word_is(s, "--help") || word_is(s, "-h") {
            return Err(cli_error(CliErrorKind::HelpRequested, s));
        }
        return Err(cli_error(CliErrorKind::UnknownCommand, s));
    }
    let defs = if build {
        two_defs("path", 'p', true, "force", 'f', false)
    } else if search {
        one_def("top-k", 't', true)
    } else if watch {
        one_def("path", 'p', true)
    } else {
        no_defs()
    };
    let npos: usize = if search {
        1
    } else {
        0
    };
    match parse_matches(&defs, npos, args, 3) {
        Ok(m) => {
            proof {
                lemma_matches_len(defs_view(defs@), npos as nat, words_view(args@), 3);
            }
            if build {
                assert(opt_str(m.values@[0]) == m@.values[0]);
                let c = IndexCommand::Build { path: clone_value(&m.values[0]), force: m.present[1] };
                Ok(Cli { command: Commands::Index(Index { command: Some(c) }) })
            } else if search {
                if m.positionals.len() == 0 {
                    return Err(cli_error(CliErrorKind::MissingArgument, "<QUERY>"));
                }
                assert(opt_str(m.values@[0]) == m@.values[0]);
                assert(m.positionals@[0]@ == m@.positionals[0]);
                let top_k: u32 = match &m.values[0] {
                    Some(v) => match parse_u32_exec(v) {
                        Some(n) => n,
                        None => {
                            return Err(cli_error(CliErrorKind::InvalidNumber, v.as_str()));
                        },
                    },
                    None => 10,
                };
                let c = IndexCommand::Search {
                    query: m.positionals[0].clone(),
                    top_k: top_k as usize,
                };
                Ok(Cli { command: Commands::Index(Index { command: Some(c) }) })
            } else if watch {
                assert(opt_str(m.values@[0]) == m@.values[0]);
                let c = IndexCommand::Watch { path: clone_value(&m.values[0]) };
                Ok(Cli { command: Commands::Index(Index { command: Some(c) }) })
            } else {
                Ok(Cli { command: Commands::Index(Index { command: Some(IndexCommand::Status) }) })
            }
        },
        Err(e) => fail(e),
    }
}

fn parse_session(args: &Vec<&str>) -> (r: Result<Cli, CliError>)
    requires
        args@.len() >= 2,
    ensures
        session_result(words_view(args@), r),
{
    if args.len() <= 2 {
        return Err(cli_error(CliErrorKind::MissingCommand, "session"));
    }
    let s = args[2];
    assert(words_view(args@)[2] == s@);
    let list = word_is(s, "list");
    let resume = word_is(s, "resume");
    let show = word_is(s, "show");
    let delete = word_is(s, "delete");
    let export = word_is(s, "export");
    if !(list || resume || show || delete || export) {
        if word_is(s, "--help") || word_is(s, "-h") {
            return Err(cli_error(CliErrorKind::HelpRequested, s));
        }
        return Err(cli_error(CliErrorKind::UnknownCommand, s));
    }
    let defs = if resume {
        two_defs("continue-from", 'c', true, "dry-run", 'd', false)
    } else if export {
        one_def("output", 'o', true)
    } else {
        no_defs()
    };
    let npos: usize = if list {
        0
    } else {
        1
    };
    match parse_matches(&defs, npos, args, 3) {
        Ok(m) => {
            proof {
                lemma_matches_len(defs_view(defs@), npos as nat, words_view(args@), 3);
            }
            if list {
                return Ok(Cli { command: Commands::Session(Session { command: SessionCommand::List }) });
            }
            if m.positionals.len() == 0 {
                return Err(cli_error(CliErrorKind::MissingArgument, "<ID>"));
            }
            assert(m.positionals@[0]@ == m@.positionals[0]);
            let id = m.positionals[0].clone();
            let c = if resume {
                assert(opt_str(m.values@[0]) == m@.values[0]);
                SessionCommand::Resume {
                    id,
                    continue_from: clone_value(&m.values[0]),
                    dry_run: m.present[1],
                }
            } else if show {
                SessionCommand::Show { id }
            } else if delete {
                SessionCommand::Delete { id }
            } else {
                assert(opt_str(m.values@[0]) == m@.values[0]);
                SessionCommand::Export { id, output: clone_value(&m.values[0]) }
            };
            Ok(Cli { command: Commands::Session(Session { command: c }) })
        },
        Err(e) => fail(e),
    }
}

impl Cli {
    /// Reads a command line (the program's name first) as `cli_result`
    /// says: the command, then its subcommand, options and arguments.
    pub fn try_parse_from(args: Vec<&str>) -> (r: Result<Cli, CliError>)
        ensures
            cli_result(words_view(args@), r),
    {
        if args.len() < 2 {
            return Err(CliError { kind: CliErrorKind::MissingCommand, word: String::new() });
        }
        let c = args[1];
        assert(words_view(args@)[1] == c@);
        if word_is(c, "--help") || word_is(c, "-h") {
            return Err(cli_error(CliErrorKind::HelpRequested, c));
        }
        if word_is(c, "--version") || word_is(c, "-V") {
            return Err(cli_error(CliErrorKind::VersionRequested, c));
        }
        if word_is(c, "plan") {
            return parse_plan(&args);
        }
        if word_is(c, "run") {
            return parse_run(&args);
        }
        if word_is(c, "index") {
            return parse_index(&args);
        }
        if word_is(c, "session") {
            return parse_session(&args);
        }
        if word_is(c, "status") {
            let defs = one_def("detailed", 'd', false);
            return match parse_matches(&defs, 0, &args, 2) {
                Ok(m) => {
                    proof {
                        lemma_matches_len(defs_view(defs@), 0, words_view(args@), 2);
                    }
                    Ok(Cli { command: Commands::Status(Status { detailed: m.present[0] }) })
                },
                Err(e) => fail(e),
            };
        }
        if word_is(c, "doctor") {
            let defs = one_def("verbose", 'v', false);
            return match parse_matches(&defs, 0, &args, 2) {
                Ok(m) => {
                    proof {
                        lemma_matches_len(defs_view(defs@), 0, words_view(args@), 2);
                    }
                    Ok(Cli { command: Commands::Doctor(Doctor { verbose: m.present[0] }) })
                },
                Err(e) => fail(e),
            };
        }
        if word_is(c, "bootstrap") {
            let defs = no_defs();
            return match parse_matches(&defs, 0, &args, 2) {
                Ok(_) => Ok(Cli { command: Commands::Bootstrap }),
                Err(e) => fail(e),
            };
        }
        Err(cli_error(CliErrorKind::UnknownCommand, c))
    }

    /// Reads a command line that reads without error, as `cli_result`
    /// says.
    pub fn parse_from(args: Vec<&str>) -> (r: Cli)
        requires
            cli_accepts(args@),
        ensures
            cli_result(words_view(args@), Ok(r)),
    {
        let ghost toks = words_view(args@);
        match Cli::try_parse_from(args) {
            Ok(c) => c,
            Err(e) => {
                proof {
                    let c = choose|c: Cli| cli_result(toks, Ok(c));
                    lemma_result_kind(toks, c, e);
                    assert(false);
                }
                Cli { command: Commands::Bootstrap }
            },
        }
    }
}

/// A command line that reads as a command does not also read as an error.
proof fn lemma_result_kind(toks: Seq<Seq<char>>, c: Cli, e: CliError)
    requires
        cli_result(toks, Ok(c)),
    ensures
        !cli_result(toks, Err(e)),
{
}


// ------------------------------------------------------------------
// Which plan a run executes
// ------------------------------------------------------------------

/// An entry of the plans directory: its path, its file name, and when it
/// was last modified (as a number that grows with time), if known.
#[derive(Debug, Clone)]
pub struct PlanEntry {
    pub path: String,
    pub name: String,
    pub modified: Option<u128>,
}

/// The entry is a plan: its file name has the extension "md".
pub open spec fn is_plan_file(e: PlanEntry) -> bool {
    crate::crawler::extension_of(e.name@) == Some("md"@)
}

/// `a` is a later time than `b`; a known time is later than an unknown one.
pub open spec fn newer(a: Option<u128>, b: Option<u128>) -> bool {
    match (a, b) {
        (Some(x), Some(y)) => x > y,
        (Some(_), None) => true,
        _ => false,
    }
}

/// The position among the first `n` entries of the most recently modified
/// plan, the first of them on a tie; -1 when there is none.
pub open spec fn newest_plan(es: Seq<PlanEntry>, n: int) -> int
    decreases n,
{
    if n <= 0 {
        -1
    } else {
        let b = newest_plan(es, n - 1);
        if is_plan_file(es[n - 1]) && (b < 0 || newer(es[n - 1].modified, es[b].modified)) {
            n - 1
        } else {
            b
        }
    }
}

proof fn lemma_newest_plan_bound(es: Seq<PlanEntry>, n: int)
    requires
        0 <= n,
    ensures
        -1 <= newest_plan(es, n) < n,
    decreases n,
{
    if n > 0 {
        lemma_newest_plan_bound(es, n - 1);
    }
}

/// Whether the file name has the extension "md", as `Path::extension`
/// reads it.
fn has_md_extension(name: &str) -> (r: bool)
    ensures
        r == (crate::crawler::extension_of(name@) == Some("md"@)),
{
    let c = crate::text::chars_of(name);
    let n = c.len();
    match crate::text::rfind_char(&c, n, '.') {
        Some(k) => {
            if k == 0 {
                return false;
            }
            let e = crate::text::string_of(&c, k + 1, n);
            e == owned("md")
        },
        None => false,
    }
}

impl Run {
    /// The plan file to execute: the one given, if it exists; otherwise
    /// the most recently modified ".md" file of the plans directory
    /// (`entries` lists it; the first one on a tie); an error when the given
    /// file does not exist, the directory does not exist, or it holds no
    /// plan.
    pub fn resolve_plan_path(&self, plan_exists: bool, plans_dir_exists: bool, entries: &Vec<PlanEntry>) -> (r: Result<String, String>)
        ensures
            match self.plan_path {
                Some(p) => if plan_exists {
                    r matches Ok(x) && x@ == p@
                } else {
                    r matches Err(m) && m@ == "Plan file not found: "@ + p@
                },
                None => if !plans_dir_exists {
                    r matches Err(m) && m@ == "No plan file specified and plans/ directory not found"@
                } else {
                    let b = newest_plan(entries@, entries@.len() as int);
                    if b < 0 {
                        r matches Err(m) && m@ == "No plan files found in plans/ directory"@
                    } else {
                        r matches Ok(x) && x@ == entries@[b].path@
                    }
                },
            },
    {
        match &self.plan_path {
            Some(p) => {
                if plan_exists {
                    return Ok(p.clone());
                }
                let mut m = owned("Plan file not found: ");
                crate::text::push_str(&mut m, p.as_str());
                return Err(m);
            },
            None => {},
        }
        if !plans_dir_exists {
            return Err(owned("No plan file specified and plans/ directory not found"));
        }
        let mut best: Option<usize> = None;
        let mut i: usize = 0;
        while i < entries.len()
            invariant
                i <= entries@.len(),
                match best {
                    Some(b) => newest_plan(entries@, i as int) == b as int,
                    None => newest_plan(entries@, i as int) == -1,
                },
            decreases entries@.len() - i,
        {
            proof {
                lemma_newest_plan_bound(entries@, i as int);
            }
            if has_md_extension(entries[i].name.as_str()) {
                let take = match best {
                    None => true,
                    Some(b) => match (entries[i].modified, entries[b].modified) {
                        (Some(x), Some(y)) => x > y,
                        (Some(_), None) => true,
                        _ => false,
                    },
                };
                if take {
                    best = Some(i);
                }
            }
            i = i + 1;
        }
        proof {
            lemma_newest_plan_bound(entries@, entries@.len() as int);
        }
        match best {
            Some(b) => Ok(entries[b].path.clone()),
            None => Err(owned("No plan files found in plans/ directory")),
        }
    }
}

} // verus!
