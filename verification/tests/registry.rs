use sftp_trust::command::{parse_command, tokenize};
use sftp_trust::registry::{
    execute_feature, feature_exists, format_error, list_features, process_input, register_feature,
    registry, CoreError, Registry,
};

type Handler = fn(&[String]) -> Result<(), CoreError>;

fn sample_handler(args: &[String]) -> Result<(), CoreError> {
    if args.is_empty() {
        return Err(CoreError::InvalidArgs("expected at least 1 arg".into()));
    }
    Ok(())
}

fn accept_all(_args: &[String]) -> Result<(), CoreError> {
    Ok(())
}

fn always_fails(_args: &[String]) -> Result<(), CoreError> {
    Err(CoreError::ExecutionFailed("boom".into()))
}

#[test]
fn registry_and_dispatch() {
    let mut reg: Registry<Handler> = registry();
    register_feature(&mut reg, "sample", sample_handler);
    assert!(feature_exists(&reg, "sample"));
    assert!(list_features(&reg).contains(&"sample".to_string()));
    assert!(execute_feature(&reg, "sample", &["ok".into()]).is_ok());
    assert!(execute_feature(&reg, "missing", &[]).is_err());
}

#[test]
fn parse_and_process() {
    let mut reg: Registry<Handler> = registry();
    register_feature(&mut reg, "echo", |_| Ok(()));
    let out = process_input(&reg, "echo 'hello world'").unwrap();
    assert_eq!(out.code, 0);
}

#[test]
fn process_reports_the_feature_by_name() {
    let mut reg: Registry<Handler> = registry();
    register_feature(&mut reg, "echo", accept_all);
    let out = process_input(&reg, "echo 'hello world'").unwrap();
    assert_eq!(out.message, "echo executed successfully");
    assert_eq!(out.code, 0);
}

#[test]
fn process_hands_the_arguments_to_the_handler() {
    let mut reg: Registry<Handler> = registry();
    register_feature(&mut reg, "sample", sample_handler);
    assert!(process_input(&reg, "sample one").is_ok());
    match process_input(&reg, "sample") {
        Err(CoreError::InvalidArgs(m)) => assert_eq!(m, "expected at least 1 arg"),
        other => panic!("unexpected: {:?}", other),
    }
}

#[test]
fn process_hands_a_handler_error_on() {
    let mut reg: Registry<Handler> = registry();
    register_feature(&mut reg, "bad", always_fails);
    match process_input(&reg, "bad x") {
        Err(CoreError::ExecutionFailed(m)) => assert_eq!(m, "boom"),
        other => panic!("unexpected: {:?}", other),
    }
}

#[test]
fn process_refuses_an_empty_line() {
    let mut reg: Registry<Handler> = registry();
    register_feature(&mut reg, "echo", accept_all);
    match process_input(&reg, "   ") {
        Err(CoreError::InvalidArgs(m)) => {
            assert_eq!(m, "no feature provided; try one of: auth, transfer, echo")
        }
        other => panic!("unexpected: {:?}", other),
    }
    match process_input(&reg, "' ' x") {
        Err(CoreError::InvalidArgs(_)) => {}
        other => panic!("unexpected: {:?}", other),
    }
}

#[test]
fn process_names_an_unknown_feature() {
    let reg: Registry<Handler> = registry();
    match process_input(&reg, "nothing here") {
        Err(CoreError::UnknownFeature(n)) => assert_eq!(n, "nothing"),
        other => panic!("unexpected: {:?}", other),
    }
}

#[test]
fn built_in_features_come_first_and_once() {
    let mut reg: Registry<Handler> = registry();
    assert_eq!(list_features(&reg), vec!["auth".to_string(), "transfer".to_string()]);
    register_feature(&mut reg, "zeta", accept_all);
    register_feature(&mut reg, "auth", accept_all);
    register_feature(&mut reg, "alpha", accept_all);
    assert_eq!(
        list_features(&reg),
        vec!["auth".to_string(), "transfer".to_string(), "zeta".to_string(), "alpha".to_string()]
    );
}

#[test]
fn registering_again_replaces_the_handler() {
    let mut reg: Registry<Handler> = registry();
    register_feature(&mut reg, "f", always_fails);
    register_feature(&mut reg, "g", accept_all);
    assert!(execute_feature(&reg, "f", &[]).is_err());
    register_feature(&mut reg, "f", accept_all);
    assert!(execute_feature(&reg, "f", &[]).is_ok());
    assert_eq!(
        list_features(&reg),
        vec!["auth".to_string(), "transfer".to_string(), "f".to_string(), "g".to_string()]
    );
    assert!(!feature_exists(&reg, "h"));
}

#[test]
fn error_messages() {
    let mut reg: Registry<Handler> = registry();
    register_feature(&mut reg, "echo", accept_all);
    assert_eq!(CoreError::UnknownFeature("x".into()).message(), "Unknown feature: x");
    assert_eq!(CoreError::InvalidArgs("y".into()).message(), "Invalid arguments: y");
    assert_eq!(CoreError::ExecutionFailed("z".into()).message(), "Execution failed: z");
    assert_eq!(
        format_error(&reg, CoreError::UnknownFeature("x".into())),
        "Unknown feature: x. Available: auth, transfer, echo"
    );
    assert_eq!(format_error(&reg, CoreError::InvalidArgs("y".into())), "Invalid arguments: y");
    assert_eq!(format_error(&reg, CoreError::ExecutionFailed("z".into())), "Execution failed: z");
}

#[test]
fn tokenize_splits_on_white_space() {
    assert_eq!(tokenize("a  b\tc\n"), vec!["a", "b", "c"]);
    assert_eq!(tokenize(""), Vec::<String>::new());
    assert_eq!(tokenize("   "), Vec::<String>::new());
    assert_eq!(tokenize("a\u{3000}b"), vec!["a", "b"]);
}

#[test]
fn tokenize_keeps_quoted_white_space() {
    assert_eq!(tokenize("echo 'hello world'"), vec!["echo", "hello world"]);
    assert_eq!(tokenize("echo \"hello  world\" x"), vec!["echo", "hello  world", "x"]);
    assert_eq!(tokenize("a'b c'd"), vec!["ab cd"]);
    assert_eq!(tokenize("\"it's\""), vec!["it's"]);
    assert_eq!(tokenize("'say \"hi\"'"), vec!["say \"hi\""]);
}

#[test]
fn tokenize_backslash_takes_the_next_character() {
    assert_eq!(tokenize("a\\ b"), vec!["a b"]);
    assert_eq!(tokenize("a\\'b"), vec!["a'b"]);
    assert_eq!(tokenize("'a\\'b'"), vec!["a'b"]);
    assert_eq!(tokenize("a\\"), vec!["a"]);
    assert_eq!(tokenize("\\\\"), vec!["\\"]);
}

#[test]
fn tokenize_drops_empty_quotes_and_forgives_an_open_one() {
    assert_eq!(tokenize("a '' b"), vec!["a", "b"]);
    assert_eq!(tokenize("'open quote"), vec!["open quote"]);
}

#[test]
fn parse_command_takes_the_first_token_as_feature() {
    assert_eq!(parse_command("transfer ls /tmp"), ("transfer".to_string(), vec!["ls".to_string(), "/tmp".to_string()]));
    assert_eq!(parse_command("solo"), ("solo".to_string(), Vec::<String>::new()));
    assert_eq!(parse_command(""), (String::new(), Vec::<String>::new()));
}
