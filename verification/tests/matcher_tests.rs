use drk::api::{ArgType, CommandArg, PluginCommand};
use drk::matcher::{match_command, UsageError};

fn arg(name: &str, required: bool, arg_type: ArgType) -> CommandArg {
    CommandArg {
        name: name.to_string(),
        description: String::new(),
        required,
        arg_type,
    }
}

fn command(name: &str, args: Vec<CommandArg>) -> PluginCommand {
    PluginCommand { name: name.to_string(), description: String::new(), args }
}

fn tokens(parts: &[&str]) -> Vec<String> {
    parts.iter().map(|p| p.to_string()).collect()
}

#[test]
fn required_string_missing_is_a_usage_error() {
    let cmd = command("greet", vec![arg("name", true, ArgType::String)]);
    let outcome = match_command(&cmd, &tokens(&[]));
    assert!(matches!(
        outcome,
        Err(UsageError::MissingRequiredArgument { ref name }) if name == "name"
    ));
}

#[test]
fn required_string_supplied_binds_exactly_that_key() {
    let cmd = command("greet", vec![arg("name", true, ArgType::String)]);
    let matches = match_command(&cmd, &tokens(&["--name", "Ada"])).unwrap();
    assert_eq!(matches.command_name, "greet");
    assert_eq!(matches.args.len(), 1);
    assert_eq!(matches.args.get("name"), Some(&"Ada".to_string()));
}

#[test]
fn boolean_flag_present_binds_true() {
    let cmd = command("build", vec![arg("verbose", false, ArgType::Boolean)]);
    let matches = match_command(&cmd, &tokens(&["--verbose"])).unwrap();
    assert_eq!(matches.args.get("verbose"), Some(&"true".to_string()));
}

#[test]
fn boolean_flag_absent_leaves_no_entry() {
    let cmd = command("build", vec![arg("verbose", false, ArgType::Boolean)]);
    let matches = match_command(&cmd, &tokens(&[])).unwrap();
    assert_eq!(matches.args.len(), 0);
    assert_eq!(matches.args.get("verbose"), None);
}

#[test]
fn integer_value_is_kept_as_text() {
    let cmd = command("count", vec![arg("times", false, ArgType::Integer)]);
    let matches = match_command(&cmd, &tokens(&["--times", "-42"])).unwrap();
    assert_eq!(matches.args.get("times"), Some(&"-42".to_string()));
}

#[test]
fn malformed_integer_is_rejected() {
    let cmd = command("count", vec![arg("times", false, ArgType::Integer)]);
    let outcome = match_command(&cmd, &tokens(&["--times", "4x"]));
    assert!(matches!(outcome, Err(UsageError::InvalidValue { .. })));
    let leading_zero = match_command(&cmd, &tokens(&["--times", "007"]));
    assert!(matches!(leading_zero, Err(UsageError::InvalidValue { .. })));
}

#[test]
fn decimal_value_is_kept_as_text() {
    let cmd = command("scale", vec![arg("factor", false, ArgType::Float)]);
    let matches = match_command(&cmd, &tokens(&["--factor", "2.5"])).unwrap();
    assert_eq!(matches.args.get("factor"), Some(&"2.5".to_string()));
    let outcome = match_command(&cmd, &tokens(&["--factor", "2."]));
    assert!(matches!(outcome, Err(UsageError::InvalidValue { .. })));
}

#[test]
fn value_option_at_the_end_is_missing_its_value() {
    let cmd = command("greet", vec![arg("name", false, ArgType::String)]);
    let outcome = match_command(&cmd, &tokens(&["--name"]));
    assert!(matches!(outcome, Err(UsageError::MissingValue { .. })));
}

#[test]
fn unknown_flag_is_rejected() {
    let cmd = command("greet", vec![arg("name", false, ArgType::String)]);
    let outcome = match_command(&cmd, &tokens(&["--nome", "Ada"]));
    assert!(matches!(
        outcome,
        Err(UsageError::UnknownArgument { ref name }) if name == "nome"
    ));
}

#[test]
fn repeated_flag_is_rejected() {
    let cmd = command("greet", vec![arg("name", false, ArgType::String)]);
    let outcome = match_command(&cmd, &tokens(&["--name", "Ada", "--name", "Bo"]));
    assert!(matches!(outcome, Err(UsageError::DuplicateArgument { .. })));
}

#[test]
fn positional_token_binds_the_declared_positional() {
    let cmd = command("open", vec![arg("file", true, ArgType::Positional)]);
    let matches = match_command(&cmd, &tokens(&["notes.txt"])).unwrap();
    assert_eq!(matches.args.get("file"), Some(&"notes.txt".to_string()));
    let extra = match_command(&cmd, &tokens(&["notes.txt", "more.txt"]));
    assert!(matches!(extra, Err(UsageError::UnexpectedPositional { .. })));
}

#[test]
fn bare_token_without_positional_is_rejected() {
    let cmd = command("greet", vec![arg("name", false, ArgType::String)]);
    let outcome = match_command(&cmd, &tokens(&["Ada"]));
    assert!(matches!(outcome, Err(UsageError::UnexpectedPositional { .. })));
}
