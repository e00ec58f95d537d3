use whowns::model::OwnershipGraph;
use whowns::cli::{exit_status, help, parse_args, Invocation, Mode};

fn strings(values: &[&str]) -> Vec<String> {
    values.iter().map(|value| value.to_string()).collect()
}

#[test]
fn help_uses_invoked_binary_name() {
    assert!(help("whowns").contains("whowns [OPTIONS] <COMMAND ...>"));
    assert!(help("whowns").contains("whowns --all [OPTIONS]"));
}

#[test]
fn parses_individual_lookup_as_primary_mode() {
    let args = match parse_args(&strings(&["--explain", "node", "python3"])).unwrap() {
        Invocation::Run(args) => args,
        other => panic!("unexpected {other:?}"),
    };
    assert!(args.explain);
    assert_eq!(args.mode, Mode::Inspect(vec!["node".into(), "python3".into()]));
}

#[test]
fn parses_all_option_as_all_mode() {
    let args = match parse_args(&strings(&["--all", "--json", "--show-missing"])).unwrap() {
        Invocation::Run(args) => args,
        other => panic!("unexpected {other:?}"),
    };
    assert!(args.json);
    assert!(args.show_missing);
    assert_eq!(args.mode, Mode::All);
}

#[test]
fn rejects_all_with_command_names() {
    let result = parse_args(&strings(&["node", "--all"]));
    assert_eq!(
        result.err().as_deref(),
        Some("--all does not accept command names")
    );
}

#[test]
fn requires_a_primary_command() {
    let result = parse_args(&Vec::new());
    assert!(result.is_err());
}

#[test]
fn rejects_unknown_options() {
    let result = parse_args(&strings(&["--wat"]));
    assert!(result.is_err());
}

// Further cases of the library's own.

#[test]
fn every_command_line_error_names_its_cause() {
    assert_eq!(
        parse_args(&strings(&["--wat", "--help"])).err().as_deref(),
        Some("unknown option: --wat")
    );
    assert_eq!(
        parse_args(&Vec::new()).err().as_deref(),
        Some("missing COMMAND; inspect one command or use --all")
    );
    assert_eq!(
        parse_args(&strings(&["node", "--show-missing"])).err().as_deref(),
        Some("--show-missing is only valid with --all")
    );
}

#[test]
fn help_and_version_stop_reading_and_double_dash_ends_options() {
    assert_eq!(parse_args(&strings(&["-h", "--wat"])), Ok(Invocation::PrintHelp));
    assert_eq!(parse_args(&strings(&["node", "--version"])), Ok(Invocation::PrintVersion));
    let args = match parse_args(&strings(&["--", "--all", "-h"])).unwrap() {
        Invocation::Run(args) => args,
        other => panic!("unexpected {other:?}"),
    };
    assert_eq!(args.mode, Mode::Inspect(vec!["--all".into(), "-h".into()]));
    assert!(!args.json);
}

#[test]
fn an_inspected_command_missing_from_path_fails_the_run() {
    let missing = vec![OwnershipGraph { command: "go".into(), resolutions: vec![] }];
    assert_eq!(exit_status(&Mode::Inspect(vec!["go".into()]), &missing), 1);
    assert_eq!(exit_status(&Mode::All, &missing), 0);
    assert_eq!(exit_status(&Mode::Inspect(vec![]), &vec![]), 0);
}
