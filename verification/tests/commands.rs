use passkeeper::cli::{
    check_args, find_command, get_commands, parse_args, Argument, CliError, Command, Invocation,
    Option_,
};
use passkeeper::error::VaultError;

fn line(words: &[&str]) -> Vec<String> {
    words.iter().map(|word| word.to_string()).collect()
}

#[test]
fn command_table_holds_the_seven_commands() {
    let commands = get_commands();
    let rows: Vec<(&str, &str, Vec<&str>)> = commands
        .iter()
        .map(|command| (command.name, command.description, command.required.clone()))
        .collect();
    assert_eq!(
        rows,
        vec![
            ("add", "Add a password to the vault", vec!["<site>"]),
            ("rm", "Remove a password from the vault", vec!["<site>"]),
            ("show", "Show the password for a given site", vec!["<site>"]),
            ("ls", "List saved passwords", vec![]),
            ("init", "Initialize passkeeper", vec![]),
            ("help", "Show the help page", vec![]),
            ("usage", "Show this page", vec![]),
        ]
    );
    for command in &commands {
        assert!(command.arguments.is_none());
        assert!(command.options.is_none());
    }
}

#[test]
fn find_command_finds_by_name() {
    let commands = get_commands();
    for name in ["add", "rm", "show", "ls", "init", "help", "usage"] {
        assert_eq!(find_command(&commands, name).unwrap().name, name);
    }
    assert_eq!(find_command(&commands, "rm").unwrap().description, "Remove a password from the vault");
    assert!(find_command(&commands, "remove").is_none());
    assert!(find_command(&commands, "").is_none());
    assert!(find_command(&commands, "ADD").is_none());
    assert!(find_command(&Vec::new(), "add").is_none());
}

#[test]
fn check_args_counts_required_arguments() {
    let commands = get_commands();
    let add = find_command(&commands, "add").unwrap();
    let ls = find_command(&commands, "ls").unwrap();
    assert_eq!(check_args(add, &line(&[])), Err(CliError::MissingArgument));
    assert_eq!(check_args(add, &line(&["example.com"])), Ok(()));
    assert_eq!(check_args(add, &line(&["example.com", "extra"])), Ok(()));
    assert_eq!(check_args(ls, &line(&[])), Ok(()));
    assert_eq!(check_args(ls, &line(&["extra"])), Ok(()));
}

#[test]
fn parse_args_without_a_command_asks_for_help() {
    assert_eq!(parse_args(&line(&[])), Invocation::Help);
    assert_eq!(parse_args(&line(&["passkeeper"])), Invocation::Help);
    assert_eq!(parse_args(&line(&["passkeeper", "-h"])), Invocation::Help);
    assert_eq!(parse_args(&line(&["passkeeper", "--help"])), Invocation::Help);
    assert_eq!(parse_args(&line(&["passkeeper", "--help", "add"])), Invocation::Help);
}

#[test]
fn parse_args_recognizes_commands_without_arguments() {
    assert_eq!(parse_args(&line(&["passkeeper", "usage"])), Invocation::Usage);
    assert_eq!(parse_args(&line(&["passkeeper", "init"])), Invocation::Init);
    assert_eq!(parse_args(&line(&["passkeeper", "ls"])), Invocation::List);
    assert_eq!(parse_args(&line(&["passkeeper", "ls", "extra"])), Invocation::List);
}

#[test]
fn parse_args_recognizes_commands_with_a_site() {
    assert_eq!(parse_args(&line(&["passkeeper", "add", "example.com"])), Invocation::Add);
    assert_eq!(parse_args(&line(&["passkeeper", "rm", "example.com"])), Invocation::Remove);
    assert_eq!(parse_args(&line(&["passkeeper", "show", "example.com"])), Invocation::Show);
    assert_eq!(parse_args(&line(&["passkeeper", "add", "example.com", "more"])), Invocation::Add);
    assert_eq!(parse_args(&line(&["passkeeper", "add", ""])), Invocation::Add);
}

#[test]
fn parse_args_reports_a_missing_site() {
    assert_eq!(parse_args(&line(&["passkeeper", "add"])), Invocation::MissingArgument);
    assert_eq!(parse_args(&line(&["passkeeper", "rm"])), Invocation::MissingArgument);
    assert_eq!(parse_args(&line(&["passkeeper", "show"])), Invocation::MissingArgument);
}

#[test]
fn parse_args_tells_unknown_options_from_unknown_arguments() {
    assert_eq!(parse_args(&line(&["passkeeper", "-x"])), Invocation::UnrecognizedOption);
    assert_eq!(parse_args(&line(&["passkeeper", "--verbose"])), Invocation::UnrecognizedOption);
    assert_eq!(parse_args(&line(&["passkeeper", "-"])), Invocation::UnrecognizedOption);
    assert_eq!(parse_args(&line(&["passkeeper", "frobnicate"])), Invocation::UnrecognizedArgument);
    assert_eq!(parse_args(&line(&["passkeeper", ""])), Invocation::UnrecognizedArgument);
    assert_eq!(parse_args(&line(&["passkeeper", "help"])), Invocation::UnrecognizedArgument);
    assert_eq!(parse_args(&line(&["passkeeper", "Add", "x"])), Invocation::UnrecognizedArgument);
    assert_eq!(parse_args(&line(&["passkeeper", "\u{2212}h"])), Invocation::UnrecognizedArgument);
}

#[test]
fn error_messages_read_as_expected() {
    let site = "example.com";
    assert_eq!(VaultError::AlreadyInitialized.message(site), "passkeeper is already initialized");
    assert_eq!(
        VaultError::NotInitialized.message(site),
        "passkeeper is not initialized\nRun passkeeper init"
    );
    assert_eq!(
        VaultError::SiteAlreadyExists.message(site),
        "A password for example.com is already in your vault"
    );
    assert_eq!(VaultError::SiteNotFound.message(site), "No password for example.com in your vault");
    assert_eq!(VaultError::AuthenticationFailure.message(site), "Sorry, wrong password");
    assert_eq!(VaultError::EmptyInput.message(site), "You must enter a password");
    assert_eq!(VaultError::PasswordMismatch.message(site), "Passwords do not match");
}

#[test]
fn error_messages_are_distinct() {
    let errors = [
        VaultError::AlreadyInitialized,
        VaultError::NotInitialized,
        VaultError::SiteAlreadyExists,
        VaultError::SiteNotFound,
        VaultError::AuthenticationFailure,
        VaultError::EmptyInput,
        VaultError::PasswordMismatch,
    ];
    for site in ["", "example.com"] {
        for (i, first) in errors.iter().enumerate() {
            for second in &errors[i + 1..] {
                assert_ne!(first.message(site), second.message(site));
            }
        }
    }
}

#[test]
fn authentication_failure_reads_the_same_for_every_site() {
    assert_eq!(
        VaultError::AuthenticationFailure.message("a.com"),
        VaultError::AuthenticationFailure.message("b.com")
    );
}

#[test]
fn check_args_counts_against_any_command() {
    let copy = Command {
        name: "cp",
        description: "Copy a password to another site",
        required: vec!["<from>", "<to>"],
        arguments: Some(vec![Argument { name: "<note>", description: "A note to keep" }]),
        options: Some(vec![Option_ { name: "--force", description: "Replace what is there" }]),
    };
    assert_eq!(check_args(&copy, &line(&[])), Err(CliError::MissingArgument));
    assert_eq!(check_args(&copy, &line(&["a.com"])), Err(CliError::MissingArgument));
    assert_eq!(check_args(&copy, &line(&["a.com", "b.com"])), Ok(()));
    assert_eq!(check_args(&copy, &line(&["a.com", "b.com", "note"])), Ok(()));
    let table = vec![copy];
    assert_eq!(find_command(&table, "cp").unwrap().required, vec!["<from>", "<to>"]);
    assert!(find_command(&table, "add").is_none());
}
