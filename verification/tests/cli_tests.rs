use cwnote::cli::{Cli, CliError, Commands};

fn args_of(parts: &[&str]) -> Vec<String> {
    parts.iter().map(|p| p.to_string()).collect()
}

#[test]
fn parse_minimal_annotate_with_dashboard() {
    // cwnote annotate --dashboard TestDash --value 1.2.3
    let cli = Cli::try_parse_from(&args_of(&[
        "cwnote",
        "annotate",
        "--dashboard",
        "TestDash",
        "--value",
        "1.2.3",
    ]))
    .expect("failed to parse args");

    assert!(cli.region.is_none());

    match cli.command {
        Commands::Annotate(opts) => {
            assert_eq!(opts.dashboard.as_deref(), Some("TestDash"));
            assert!(opts.dashboard_prefix.is_none());
            assert_eq!(opts.label, "version"); // default
            assert_eq!(opts.value, "1.2.3");
            assert!(opts.time.is_none());
            assert!(!opts.dry_run);
            assert!(opts.widget_title_contains.is_none());
        }
    }
}

#[test]
fn parse_with_dashboard_prefix() {
    // cwnote annotate --dashboard-prefix TestService- --value foo
    let cli = Cli::try_parse_from(&args_of(&[
        "cwnote",
        "annotate",
        "--dashboard-prefix",
        "TestService-",
        "--value",
        "foo",
    ]))
    .expect("failed to parse args");

    match cli.command {
        Commands::Annotate(opts) => {
            assert!(opts.dashboard.is_none());
            assert_eq!(opts.dashboard_prefix.as_deref(), Some("TestService-"));
            assert_eq!(opts.label, "version");
            assert_eq!(opts.value, "foo");
        }
    }
}

#[test]
fn parse_with_all_optional_extras() {
    // cwnote annotate --dashboard TestDash --value v \
    //   --time 2025-01-01T00:00:00Z --dry-run --widget-title-contains Latency
    let cli = Cli::try_parse_from(&args_of(&[
        "cwnote",
        "annotate",
        "--dashboard",
        "TestDash",
        "--value",
        "v",
        "--time",
        "2025-01-01T00:00:00Z",
        "--dry-run",
        "--widget-title-contains",
        "Latency",
    ]))
    .expect("failed to parse args");

    match cli.command {
        Commands::Annotate(opts) => {
            assert_eq!(opts.dashboard.as_deref(), Some("TestDash"));
            assert_eq!(opts.value, "v");
            assert_eq!(opts.time.as_deref(), Some("2025-01-01T00:00:00Z"));
            assert!(opts.dry_run);
            assert_eq!(opts.widget_title_contains.as_deref(), Some("Latency"));
        }
    }
}

#[test]
fn error_when_neither_dashboard_nor_prefix_is_provided() {
    // cwnote annotate --value v
    let res = Cli::try_parse_from(&args_of(&["cwnote", "annotate", "--value", "v"]));
    assert!(res.is_err(), "expected clap error when missing dashboard and prefix");
}

#[test]
fn error_when_both_dashboard_and_prefix_are_provided() {
    // cwnote annotate --dashboard A --dashboard-prefix B --value v
    let res = Cli::try_parse_from(&args_of(&[
        "cwnote",
        "annotate",
        "--dashboard",
        "A",
        "--dashboard-prefix",
        "B",
        "--value",
        "v",
    ]));
    assert!(res.is_err(), "expected clap error when both dashboard and prefix are set");
}

#[test]
fn parse_region_before_subcommand() {
    let cli = Cli::try_parse_from(&args_of(&[
        "cwnote",
        "--region",
        "eu-central-1",
        "annotate",
        "--dashboard",
        "TestDash",
        "--value",
        "1.2.3",
    ]))
    .expect("failed to parse args");

    assert_eq!(cli.region.as_deref(), Some("eu-central-1"));
}

#[test]
fn error_when_value_is_missing() {
    let res = Cli::try_parse_from(&args_of(&["cwnote", "annotate", "--dashboard", "TestDash"]));
    assert_eq!(res.unwrap_err(), CliError::MissingValue);
}

#[test]
fn error_on_unknown_argument() {
    let res = Cli::try_parse_from(&args_of(&[
        "cwnote",
        "annotate",
        "--dashboard",
        "TestDash",
        "--value",
        "v",
        "--frobnicate",
    ]));
    assert_eq!(res.unwrap_err(), CliError::UnknownArgument);
}

#[test]
fn error_on_unknown_subcommand() {
    let res = Cli::try_parse_from(&args_of(&["cwnote", "decorate", "--value", "v"]));
    assert_eq!(res.unwrap_err(), CliError::UnknownCommand);
}

#[test]
fn error_when_a_flag_is_missing_its_value() {
    let res = Cli::try_parse_from(&args_of(&["cwnote", "annotate", "--dashboard"]));
    assert_eq!(res.unwrap_err(), CliError::MissingArgValue);
}

#[test]
fn error_when_subcommand_is_missing() {
    let res = Cli::try_parse_from(&args_of(&["cwnote"]));
    assert_eq!(res.unwrap_err(), CliError::MissingCommand);
    assert!(!CliError::MissingCommand.message().is_empty());
}
