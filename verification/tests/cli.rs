use sftp_trust::cli::{
    choose_policy, parse_args, parse_auth_args, parse_invocation, parse_net_args,
    parse_net_options, parse_port, parse_transfer_args, AuthCommand, NetRequest, Target,
    TransferCommand,
};
use sftp_trust::config::{Auth, HostKeyPolicy};
use sftp_trust::text::{char_is_space, chars_of, join, split_words, str_eq, str_is_blank};

fn args(items: &[&str]) -> Vec<String> {
    items.iter().map(|s| s.to_string()).collect()
}

#[test]
fn white_space_is_what_std_calls_white_space() {
    for u in 0..=0x10ffffu32 {
        if let Some(c) = char::from_u32(u) {
            assert_eq!(char_is_space(c), c.is_whitespace(), "U+{:04X}", u);
        }
    }
}

#[test]
fn blank_is_what_trims_to_nothing() {
    for s in ["", " ", "\t\n\r", "\u{2003}\u{3000}", " a ", "a", "\u{200b}"] {
        assert_eq!(str_is_blank(s), s.trim().is_empty(), "{:?}", s);
    }
}

#[test]
fn words_are_what_std_splits() {
    for s in ["", "a", " a  b\tc\n", "\u{3000}x\u{2003}y", "  ", "one two  three   "] {
        let chars = chars_of(s);
        let expected: Vec<String> = s.split_whitespace().map(|w| w.to_string()).collect();
        assert_eq!(split_words(&chars, 0, chars.len()), expected, "{:?}", s);
    }
    let chars = chars_of("ab cd ef");
    assert_eq!(split_words(&chars, 1, 7), vec!["b", "cd", "e"]);
}

#[test]
fn strings_and_characters() {
    assert_eq!(chars_of("héllo"), vec!['h', 'é', 'l', 'l', 'o']);
    assert!(str_eq("aßc", "aßc"));
    assert!(!str_eq("aßc", "assc"));
    assert!(str_eq("", ""));
    assert_eq!(join(&args(&["a", "b", "c"]), ", "), "a, b, c");
    assert_eq!(join(&args(&["solo"]), ", "), "solo");
    assert_eq!(join(&args(&[]), ", "), "");
    assert_eq!(join(&args(&["", ""]), "-"), "-");
}

#[test]
fn ports_are_read_as_std_reads_them() {
    let cases = [
        "0", "22", "2222", "65535", "65536", "99999", "+22", "+", "", "-1", "022", "000000022",
        "0000065536", "22 ", " 22", "2a", "４２", "++1", "1+", "4294967318", "18446744073709551638",
    ];
    for s in cases {
        assert_eq!(parse_port(s), s.parse::<u16>().ok(), "{:?}", s);
    }
    assert_eq!(parse_port("2222"), Some(2222));
    assert_eq!(parse_port("65536"), None);
}

#[test]
fn invocation_without_arguments_asks_for_help() {
    let inv = parse_invocation(&args(&[]));
    assert_eq!(inv.target, Target::Help);
    assert!(!inv.verbose);
    assert_eq!(parse_invocation(&args(&["-v"])).target, Target::Help);
    assert_eq!(parse_invocation(&args(&[""])).target, Target::Help);
}

#[test]
fn help_wins_over_version_and_both_over_features() {
    assert_eq!(parse_invocation(&args(&["auth", "--help"])).target, Target::Help);
    assert_eq!(parse_invocation(&args(&["-V", "-h"])).target, Target::Help);
    assert_eq!(parse_invocation(&args(&["auth", "--version"])).target, Target::Version);
    assert_eq!(parse_invocation(&args(&["-V"])).target, Target::Version);
}

#[test]
fn invocation_names_the_feature_and_keeps_its_arguments() {
    let inv = parse_invocation(&args(&["-v", "transfer", "ls", "--verbose", "/tmp"]));
    assert_eq!(inv.target, Target::Transfer);
    assert_eq!(inv.feature, "transfer");
    assert_eq!(inv.args, args(&["ls", "/tmp"]));
    assert!(inv.verbose);
    assert_eq!(parse_invocation(&args(&["auth"])).target, Target::Auth);
    assert_eq!(parse_invocation(&args(&["net", "ls"])).target, Target::Net);
    assert_eq!(parse_invocation(&args(&["sftp", "ls"])).target, Target::Net);
    let inv = parse_invocation(&args(&["frobnicate", "x"]));
    assert_eq!(inv.target, Target::Unknown);
    assert_eq!(inv.feature, "frobnicate");
    assert!(!inv.verbose);
}

#[test]
fn flags_are_left_out_of_the_arguments() {
    assert_eq!(
        parse_args(&args(&["--verbose", "auth", "-h", "load_keys", "-V", "f", "-v", "--help", "--version"])),
        ("auth".to_string(), args(&["load_keys", "f"]))
    );
    assert_eq!(parse_args(&args(&["-v", "-h"])), (String::new(), Vec::new()));
    assert_eq!(parse_args(&args(&[])), (String::new(), Vec::new()));
    assert_eq!(parse_args(&args(&["--flag", "x"])), ("--flag".to_string(), args(&["x"])));
}

#[test]
fn auth_arguments() {
    assert!(matches!(parse_auth_args(&args(&[])), Ok(AuthCommand::Help)));
    match parse_auth_args(&args(&["load_keys", "/etc/keys"])) {
        Ok(AuthCommand::LoadKeys { path }) => assert_eq!(path, "/etc/keys"),
        other => panic!("unexpected: {:?}", other),
    }
    for bad in [args(&["load_keys"]), args(&["load_keys", "a", "b"])] {
        let e = parse_auth_args(&bad).unwrap_err();
        assert_eq!(e.message, "auth load_keys requires <authorized_keys_path>");
        assert_eq!(e.code, 2);
    }
    let e = parse_auth_args(&args(&["drop", "x"])).unwrap_err();
    assert_eq!(e.message, "unknown auth subcommand: drop");
    assert_eq!(e.code, 1);
}

#[test]
fn transfer_arguments() {
    assert!(matches!(parse_transfer_args(&args(&[])), Ok(TransferCommand::Help)));
    match parse_transfer_args(&args(&["upload", "a", "b"])) {
        Ok(TransferCommand::Upload { src, dest }) => assert_eq!((src, dest), ("a".into(), "b".into())),
        other => panic!("unexpected: {:?}", other),
    }
    match parse_transfer_args(&args(&["download", "a", "b"])) {
        Ok(TransferCommand::Download { src, dest }) => {
            assert_eq!((src, dest), ("a".into(), "b".into()))
        }
        other => panic!("unexpected: {:?}", other),
    }
    match parse_transfer_args(&args(&["ls", "d"])) {
        Ok(TransferCommand::List { dir }) => assert_eq!(dir, "d"),
        other => panic!("unexpected: {:?}", other),
    }
    let e = parse_transfer_args(&args(&["upload", "a"])).unwrap_err();
    assert_eq!((e.message.as_str(), e.code), ("transfer upload requires <src> <dest>", 2));
    let e = parse_transfer_args(&args(&["download", "a", "b", "c"])).unwrap_err();
    assert_eq!((e.message.as_str(), e.code), ("transfer download requires <src> <dest>", 2));
    let e = parse_transfer_args(&args(&["ls"])).unwrap_err();
    assert_eq!((e.message.as_str(), e.code), ("transfer ls requires <dir>", 2));
    let e = parse_transfer_args(&args(&["rm", "a"])).unwrap_err();
    assert_eq!((e.message.as_str(), e.code), ("unknown transfer subcommand: rm", 1));
}

#[test]
fn policy_from_the_two_flags() {
    assert_eq!(choose_policy(false, false), Some(HostKeyPolicy::InsecureIgnore));
    assert_eq!(choose_policy(true, false), Some(HostKeyPolicy::Strict));
    assert_eq!(choose_policy(false, true), Some(HostKeyPolicy::AcceptNew));
    assert_eq!(choose_policy(true, true), None);
}

#[test]
fn net_options_are_read_in_any_order() {
    let o = parse_net_options(&args(&[
        "upload", "a", "--port", "2222", "--host", "h", "b", "--user", "u", "--key", "k",
        "--key-pub", "kp", "--passphrase", "pp", "--known-hosts", "kh", "--strict", "--password",
        "pw", "--accept-new",
    ]));
    assert_eq!(o.host, "h");
    assert_eq!(o.port, 2222);
    assert_eq!(o.username, "u");
    assert_eq!(o.password.as_deref(), Some("pw"));
    assert_eq!(o.key_path.as_deref(), Some("k"));
    assert_eq!(o.key_pub.as_deref(), Some("kp"));
    assert_eq!(o.key_pass.as_deref(), Some("pp"));
    assert_eq!(o.known_hosts.as_deref(), Some("kh"));
    assert!(o.strict);
    assert!(o.accept_new);
    assert_eq!(o.rest, args(&["a", "b"]));
}

#[test]
fn net_options_have_defaults_and_other_spellings() {
    let o = parse_net_options(&args(&["ls"]));
    assert_eq!((o.host.as_str(), o.port, o.username.as_str()), ("", 22, ""));
    assert!(o.password.is_none() && o.key_path.is_none() && o.known_hosts.is_none());
    assert!(!o.strict && !o.accept_new);
    assert!(o.rest.is_empty());
    let o = parse_net_options(&args(&[]));
    assert_eq!(o.port, 22);
    let o = parse_net_options(&args(&[
        "ls", "--username", "u", "--identity-file", "k", "--key-pass", "p", "--port", "x",
    ]));
    assert_eq!(o.username, "u");
    assert_eq!(o.key_path.as_deref(), Some("k"));
    assert_eq!(o.key_pass.as_deref(), Some("p"));
    assert_eq!(o.port, 22);
}

#[test]
fn an_option_takes_whatever_stands_behind_it() {
    let o = parse_net_options(&args(&["ls", "--host", "--strict", "--user"]));
    assert_eq!(o.host, "--strict");
    assert!(!o.strict);
    assert_eq!(o.username, "");
    let o = parse_net_options(&args(&["ls", "--password", "a", "--password"]));
    assert!(o.password.is_none());
    let o = parse_net_options(&args(&["--host", "h", "--host", "x", "--port", "1", "--port"]));
    assert_eq!(o.host, "x");
    assert_eq!(o.rest, args(&["h"]));
    assert_eq!(o.port, 22);
}

#[test]
fn a_net_command_with_a_key() {
    let c = parse_net_args(&args(&[
        "upload", "--host", "h", "--port", "2222", "--user", "alice", "--key", "id", "--key-pass",
        "pp", "--known-hosts", "kh", "--accept-new", "local.txt", "/remote.txt",
    ]))
    .unwrap();
    assert_eq!(c.config.host, "h");
    assert_eq!(c.config.port, 2222);
    assert_eq!(c.config.known_hosts.as_deref(), Some("kh"));
    assert_eq!(c.config.hostkey_policy, HostKeyPolicy::AcceptNew);
    assert_eq!(c.config.timeout_ms, Some(30_000));
    match c.config.auth {
        Auth::KeyFile { username, private_key, passphrase, public_key } => {
            assert_eq!(username, "alice");
            assert_eq!(private_key, "id");
            assert_eq!(passphrase.as_deref(), Some("pp"));
            assert!(public_key.is_none());
        }
        other => panic!("unexpected: {:?}", other),
    }
    match c.request {
        NetRequest::Upload { local, remote } => {
            assert_eq!((local.as_str(), remote.as_str()), ("local.txt", "/remote.txt"))
        }
        other => panic!("unexpected: {:?}", other),
    }
}

#[test]
fn a_net_command_with_a_password() {
    let c = parse_net_args(&args(&[
        "download", "/r", "l", "--host", "h", "--user", "u", "--password", "pw",
    ]))
    .unwrap();
    assert_eq!(c.config.port, 22);
    assert_eq!(c.config.hostkey_policy, HostKeyPolicy::InsecureIgnore);
    assert!(c.config.known_hosts.is_none());
    match c.config.auth {
        Auth::Password { username, password } => {
            assert_eq!((username.as_str(), password.as_str()), ("u", "pw"))
        }
        other => panic!("unexpected: {:?}", other),
    }
    match c.request {
        NetRequest::Download { remote, local } => {
            assert_eq!((remote.as_str(), local.as_str()), ("/r", "l"))
        }
        other => panic!("unexpected: {:?}", other),
    }
    let c = parse_net_args(&args(&[
        "ls", "--host", "h", "--user", "u", "--password", "pw", "--key", "k", "--strict", "/d",
    ]))
    .unwrap();
    assert!(matches!(c.config.auth, Auth::KeyFile { .. }));
    assert_eq!(c.config.hostkey_policy, HostKeyPolicy::Strict);
    assert!(matches!(c.request, NetRequest::List { ref dir } if dir == "/d"));
}

#[test]
fn what_is_wrong_with_a_net_command() {
    let message = |items: &[&str]| {
        let e = parse_net_args(&args(items)).unwrap_err();
        assert_eq!(e.code, 2);
        e.message
    };
    assert_eq!(message(&[]), "sftp requires a subcommand: upload|download|ls");
    assert_eq!(message(&["ls", "--user", "u"]), "--host and --user are required");
    assert_eq!(message(&["ls", "--host", "h"]), "--host and --user are required");
    assert_eq!(
        message(&["ls", "--host", "h", "--user", "u", "--strict", "--accept-new", "--key", "k", "/d"]),
        "--strict and --accept-new exclude each other"
    );
    assert_eq!(
        message(&["ls", "--host", "h", "--user", "u", "/d"]),
        "either --key or --password must be provided"
    );
    assert_eq!(
        message(&["frob", "--host", "h", "--user", "u"]),
        "either --key or --password must be provided"
    );
    assert_eq!(
        message(&["upload", "a", "--host", "h", "--user", "u", "--password", "p"]),
        "sftp upload requires <local_src> <remote_dest>"
    );
    assert_eq!(
        message(&["download", "a", "b", "c", "--host", "h", "--user", "u", "--password", "p"]),
        "sftp download requires <remote_src> <local_dest>"
    );
    assert_eq!(
        message(&["ls", "--host", "h", "--user", "u", "--password", "p"]),
        "sftp ls requires <remote_dir>"
    );
    assert_eq!(
        message(&["rm", "x", "--host", "h", "--user", "u", "--password", "p"]),
        "unknown sftp subcommand (use upload|download|ls)"
    );
}
