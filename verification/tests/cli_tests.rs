use telisq::cli::{Cli, CliErrorKind, Commands, IndexCommand, PlanCommand, SessionCommand};

#[test]
fn test_cli_parse_plan_command() {
    let args = vec!["telisq", "plan"];
    let cli = Cli::parse_from(args);

    assert!(matches!(cli.command, Commands::Plan(_)));
}

#[test]
fn test_cli_parse_run_command() {
    let args = vec!["telisq", "run"];
    let cli = Cli::parse_from(args);

    assert!(matches!(cli.command, Commands::Run(_)));
}

#[test]
fn test_cli_parse_index_command() {
    let args = vec!["telisq", "index"];
    let cli = Cli::parse_from(args);

    assert!(matches!(cli.command, Commands::Index(_)));
}

#[test]
fn test_cli_parse_status_command() {
    let args = vec!["telisq", "status"];
    let cli = Cli::parse_from(args);

    assert!(matches!(cli.command, Commands::Status(_)));
}

#[test]
fn test_cli_parse_session_command() {
    let args = vec!["telisq", "session", "list"];
    let cli = Cli::parse_from(args);

    assert!(matches!(cli.command, Commands::Session(_)));
}

#[test]
fn test_cli_parse_doctor_command() {
    let args = vec!["telisq", "doctor"];
    let cli = Cli::parse_from(args);

    assert!(matches!(cli.command, Commands::Doctor(_)));
}

#[test]
fn test_cli_parse_bootstrap_command() {
    let args = vec!["telisq", "bootstrap"];
    let cli = Cli::parse_from(args);

    assert!(matches!(cli.command, Commands::Bootstrap));
}

#[test]
fn cli_run_options_long_short_and_inline() {
    let cli = Cli::try_parse_from(vec!["telisq", "run", "--plan-path", "plans/a.md", "-P", "dev", "--continue-from=3", "-d"])
        .expect("parses");
    match cli.command {
        Commands::Run(r) => {
            assert_eq!(r.plan_path.as_deref(), Some("plans/a.md"));
            assert_eq!(r.profile.as_deref(), Some("dev"));
            assert_eq!(r.continue_from.as_deref(), Some("3"));
            assert!(r.dry_run);
        }
        _ => panic!("expected run"),
    }
}

#[test]
fn cli_plan_subcommands() {
    let cli = Cli::try_parse_from(vec!["telisq", "plan", "create", "-g", "build a todo app"]).expect("parses");
    match cli.command {
        Commands::Plan(p) => match p.command {
            Some(PlanCommand::Create { goal, profile }) => {
                assert_eq!(goal.as_deref(), Some("build a todo app"));
                assert!(profile.is_none());
            }
            _ => panic!("expected create"),
        },
        _ => panic!("expected plan"),
    }
    let cli = Cli::try_parse_from(vec!["telisq", "plan", "validate", "--plan-path", "p.md"]).expect("parses");
    assert!(matches!(cli.command, Commands::Plan(p) if matches!(p.command, Some(PlanCommand::Validate { .. }))));
}

#[test]
fn cli_index_search_query_and_top_k() {
    let cli = Cli::try_parse_from(vec!["telisq", "index", "search", "graph", "--top-k", "5"]).expect("parses");
    match cli.command {
        Commands::Index(i) => match i.command {
            Some(IndexCommand::Search { query, top_k }) => {
                assert_eq!(query, "graph");
                assert_eq!(top_k, 5);
            }
            _ => panic!("expected search"),
        },
        _ => panic!("expected index"),
    }
    let cli = Cli::try_parse_from(vec!["telisq", "index", "search", "graph"]).expect("parses");
    match cli.command {
        Commands::Index(i) => assert!(matches!(i.command, Some(IndexCommand::Search { top_k: 10, .. }))),
        _ => panic!("expected index"),
    }
}

#[test]
fn cli_session_resume_needs_id() {
    let e = Cli::try_parse_from(vec!["telisq", "session", "resume"]).err().expect("error");
    assert_eq!(e.kind, CliErrorKind::MissingArgument);
    let cli = Cli::try_parse_from(vec!["telisq", "session", "resume", "abc", "--dry-run"]).expect("parses");
    match cli.command {
        Commands::Session(s) => match s.command {
            SessionCommand::Resume { id, continue_from, dry_run } => {
                assert_eq!(id, "abc");
                assert!(continue_from.is_none());
                assert!(dry_run);
            }
            _ => panic!("expected resume"),
        },
        _ => panic!("expected session"),
    }
}

#[test]
fn cli_errors() {
    assert_eq!(Cli::try_parse_from(vec!["telisq"]).err().unwrap().kind, CliErrorKind::MissingCommand);
    let e = Cli::try_parse_from(vec!["telisq", "launch"]).err().unwrap();
    assert_eq!(e.kind, CliErrorKind::UnknownCommand);
    assert_eq!(e.word, "launch");
    assert_eq!(Cli::try_parse_from(vec!["telisq", "run", "--bogus"]).err().unwrap().kind, CliErrorKind::UnknownOption);
    assert_eq!(Cli::try_parse_from(vec!["telisq", "run", "-p"]).err().unwrap().kind, CliErrorKind::MissingValue);
    assert_eq!(Cli::try_parse_from(vec!["telisq", "run", "-d", "-d"]).err().unwrap().kind, CliErrorKind::Repeated);
    assert_eq!(Cli::try_parse_from(vec!["telisq", "run", "--dry-run=yes"]).err().unwrap().kind, CliErrorKind::UnexpectedValue);
    assert_eq!(Cli::try_parse_from(vec!["telisq", "status", "extra"]).err().unwrap().kind, CliErrorKind::UnexpectedArgument);
    assert_eq!(Cli::try_parse_from(vec!["telisq", "--help"]).err().unwrap().kind, CliErrorKind::HelpRequested);
    assert_eq!(Cli::try_parse_from(vec!["telisq", "-V"]).err().unwrap().kind, CliErrorKind::VersionRequested);
    assert_eq!(
        Cli::try_parse_from(vec!["telisq", "index", "search", "q", "-t", "many"]).err().unwrap().kind,
        CliErrorKind::InvalidNumber
    );
    assert_eq!(Cli::try_parse_from(vec!["telisq", "session"]).err().unwrap().kind, CliErrorKind::MissingCommand);
}

#[test]
fn cli_status_and_doctor_flags() {
    let cli = Cli::try_parse_from(vec!["telisq", "status", "--detailed"]).expect("parses");
    assert!(matches!(cli.command, Commands::Status(s) if s.detailed));
    let cli = Cli::try_parse_from(vec!["telisq", "doctor", "-v"]).expect("parses");
    assert!(matches!(cli.command, Commands::Doctor(d) if d.verbose));
}
