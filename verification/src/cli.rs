//! What a command line asks for.
//!
//! The functions here take the arguments as strings and say what is to be
//! done; nothing is printed and nothing is opened.

use vstd::prelude::*;
use crate::config::{opt_view, Auth, AuthView, ConfigView, HostKeyPolicy, SshConfig};
use crate::hostspec::{
    all_digits, decimal, digit_value, lemma_decimal_is_read_back, number_of, DEFAULT_PORT,
};
use crate::text::{chars_of, str_eq, views_of};

verus! {

/// A command line that cannot be carried out: what to tell the user, and
/// the exit code.
#[derive(Debug)]
pub struct UsageError {
    pub message: String,
    pub code: i32,
}

/// Whether `r` fails with the message `message` and the exit code `code`.
pub open spec fn fails_with<T>(r: Result<T, UsageError>, message: Seq<char>, code: i32) -> bool {
    r matches Err(e) && e.message@ == message && e.code == code
}

fn usage<T>(message: &str, code: i32) -> (r: Result<T, UsageError>)
    ensures
        fails_with(r, message@, code),
{
    Err(UsageError { message: message.to_owned(), code })
}

/// Whether `arg` asks for the help text.
pub open spec fn is_help_flag(arg: Seq<char>) -> bool {
    arg == "--help"@ || arg == "-h"@
}

/// Whether `arg` asks for the version.
pub open spec fn is_version_flag(arg: Seq<char>) -> bool {
    arg == "--version"@ || arg == "-V"@
}

/// Whether `arg` asks for debug output.
pub open spec fn is_verbose_flag(arg: Seq<char>) -> bool {
    arg == "--verbose"@ || arg == "-v"@
}

/// Whether `arg` is one of the flags that stand for themselves.
pub open spec fn is_flag(arg: Seq<char>) -> bool {
    is_help_flag(arg) || is_version_flag(arg) || is_verbose_flag(arg)
}

/// Those of `args` that are no flags, in order.
pub open spec fn operands(args: Seq<Seq<char>>) -> Seq<Seq<char>>
    decreases args.len(),
{
    if args.len() == 0 {
        Seq::empty()
    } else if is_flag(args.last()) {
        operands(args.drop_last())
    } else {
        operands(args.drop_last()).push(args.last())
    }
}

/// Whether one of `args` asks for the help text.
pub open spec fn asks_help(args: Seq<Seq<char>>) -> bool {
    exists|i: int| 0 <= i < args.len() && is_help_flag(#[trigger] args[i])
}

/// Whether one of `args` asks for the version.
pub open spec fn asks_version(args: Seq<Seq<char>>) -> bool {
    exists|i: int| 0 <= i < args.len() && is_version_flag(#[trigger] args[i])
}

/// Whether one of `args` asks for debug output.
pub open spec fn asks_verbose(args: Seq<Seq<char>>) -> bool {
    exists|i: int| 0 <= i < args.len() && is_verbose_flag(#[trigger] args[i])
}

/// Which part of the program a command line is for.
#[derive(Clone, Copy, Debug, PartialEq, Eq, Structural)]
pub enum Target {
    /// Show the help text.
    Help,
    /// Show the name and version.
    Version,
    /// Key lists.
    Auth,
    /// Local copies.
    Transfer,
    /// Transfers over the network.
    Net,
    /// A feature that does not exist: say so, show the help text and fail.
    Unknown,
}

/// What a command line asks for: the part of the program, the name of the
/// feature as it was given, its arguments, and whether debug output is
/// wanted.
#[derive(Debug)]
pub struct Invocation {
    pub target: Target,
    pub feature: String,
    pub args: Vec<String>,
    pub verbose: bool,
}

/// The part of the program that a feature name stands for.
pub open spec fn target_of(feature: Seq<char>) -> Target {
    if feature == "auth"@ {
        Target::Auth
    } else if feature == "transfer"@ {
        Target::Transfer
    } else if feature == "net"@ || feature == "sftp"@ {
        Target::Net
    } else {
        Target::Unknown
    }
}

/// The part of the program that a command line is for. No arguments and a
/// help flag anywhere ask for the help text, then a version flag for the
/// version; otherwise the first argument that is no flag names the feature,
/// and help is shown where there is none or it is empty.
pub open spec fn target_spec(raw: Seq<Seq<char>>) -> Target {
    if raw.len() == 0 || asks_help(raw) {
        Target::Help
    } else if asks_version(raw) {
        Target::Version
    } else if operands(raw).len() == 0 || operands(raw)[0].len() == 0 {
        Target::Help
    } else {
        target_of(operands(raw)[0])
    }
}

fn arg_is_help(arg: &str) -> (r: bool)
    ensures
        r == is_help_flag(arg@),
{
    str_eq(arg, "--help") || str_eq(arg, "-h")
}

fn arg_is_version(arg: &str) -> (r: bool)
    ensures
        r == is_version_flag(arg@),
{
    str_eq(arg, "--version") || str_eq(arg, "-V")
}

fn arg_is_verbose(arg: &str) -> (r: bool)
    ensures
        r == is_verbose_flag(arg@),
{
    str_eq(arg, "--verbose") || str_eq(arg, "-v")
}

/// The feature name and its arguments: the arguments that are no flags, the
/// first of them apart. Without any, the feature name is empty.
pub fn parse_args(raw: &[String]) -> (r: (String, Vec<String>))
    ensures
        operands(views_of(raw@)).len() == 0 ==> r.0@.len() == 0 && r.1@.len() == 0,
        operands(views_of(raw@)).len() > 0 ==> r.0@ == operands(views_of(raw@))[0] && views_of(r.1@)
            == operands(views_of(raw@)).skip(1),
{
    let mut args: Vec<String> = Vec::new();
    let mut i: usize = 0;
    let ghost all = views_of(raw@);
    assert(all.take(0) =~= Seq::<Seq<char>>::empty());
    assert(views_of(args@) =~= Seq::<Seq<char>>::empty());
    while i < raw.len()
        invariant
            i <= raw.len(),
            all == views_of(raw@),
            views_of(args@) == operands(all.take(i as int)),
        decreases raw.len() - i,
    {
        let a = raw[i].as_str();
        let ghost before = views_of(args@);
        assert(all.take(i as int + 1).drop_last() =~= all.take(i as int));
        assert(all.take(i as int + 1).last() == raw@[i as int]@);
        if !(arg_is_help(a) || arg_is_version(a) || arg_is_verbose(a)) {
            args.push(raw[i].clone());
            assert(views_of(args@) =~= before.push(raw@[i as int]@));
        }
        i += 1;
    }
    assert(all.take(i as int) =~= all);
    if args.len() == 0 {
        return (String::new(), args);
    }
    let ghost found = views_of(args@);
    let feature = args.remove(0);
    assert(views_of(args@) =~= found.skip(1));
    (feature, args)
}

/// What a command line asks for.
pub fn parse_invocation(raw: &[String]) -> (inv: Invocation)
    ensures
        inv.target == target_spec(views_of(raw@)),
        inv.verbose == asks_verbose(views_of(raw@)),
        operands(views_of(raw@)).len() > 0 ==> inv.feature@ == operands(views_of(raw@))[0]
            && views_of(inv.args@) == operands(views_of(raw@)).skip(1),
        operands(views_of(raw@)).len() == 0 ==> inv.feature@.len() == 0 && inv.args@.len() == 0,
{
    let mut help = false;
    let mut version = false;
    let mut verbose = false;
    let mut i: usize = 0;
    let ghost all = views_of(raw@);
    while i < raw.len()
        invariant
            i <= raw.len(),
            all == views_of(raw@),
            help == asks_help(all.take(i as int)),
            version == asks_version(all.take(i as int)),
            verbose == asks_verbose(all.take(i as int)),
        decreases raw.len() - i,
    {
        let a = raw[i].as_str();
        let ghost seen = all.take(i as int);
        let ghost now = all.take(i as int + 1);
        proof {
            assert(now[i as int] == raw@[i as int]@);
            assert(forall|k: int| 0 <= k < i ==> now[k] == seen[k]);
            if asks_help(seen) {
                let k = choose|k: int| 0 <= k < seen.len() && is_help_flag(#[trigger] seen[k]);
                assert(is_help_flag(now[k]));
            }
            if asks_version(seen) {
                let k = choose|k: int| 0 <= k < seen.len() && is_version_flag(#[trigger] seen[k]);
                assert(is_version_flag(now[k]));
            }
            if asks_verbose(seen) {
                let k = choose|k: int| 0 <= k < seen.len() && is_verbose_flag(#[trigger] seen[k]);
                assert(is_verbose_flag(now[k]));
            }
            if asks_help(now) {
                let k = choose|k: int| 0 <= k < now.len() && is_help_flag(#[trigger] now[k]);
                if k < i {
                    assert(is_help_flag(seen[k]));
                }
            }
            if asks_version(now) {
                let k = choose|k: int| 0 <= k < now.len() && is_version_flag(#[trigger] now[k]);
                if k < i {
                    assert(is_version_flag(seen[k]));
                }
            }
            if asks_verbose(now) {
                let k = choose|k: int| 0 <= k < now.len() && is_verbose_flag(#[trigger] now[k]);
                if k < i {
                    assert(is_verbose_flag(seen[k]));
                }
            }
        }
        if arg_is_help(a) {
            help = true;
        }
        if arg_is_version(a) {
            version = true;
        }
        if arg_is_verbose(a) {
            verbose = true;
        }
        i += 1;
    }
    assert(all.take(i as int) =~= all);
    let (feature, args) = parse_args(raw);
    let target = if raw.len() == 0 || help {
        Target::Help
    } else if version {
        Target::Version
    } else if feature.as_str().is_empty() {
        Target::Help
    } else if str_eq(feature.as_str(), "auth") {
        Target::Auth
    } else if str_eq(feature.as_str(), "transfer") {
        Target::Transfer
    } else if str_eq(feature.as_str(), "net") || str_eq(feature.as_str(), "sftp") {
        Target::Net
    } else {
        Target::Unknown
    };
    Invocation { target, feature, args, verbose }
}

/// What the key-list part of the program is asked to do.
#[derive(Debug)]
pub enum AuthCommand {
    /// Show the help text and fail with exit code 1.
    Help,
    /// Read the key list at `path`.
    LoadKeys { path: String },
}

/// What the arguments ask of the key-list part: nothing asks for help,
/// `load_keys` takes one path, and anything else is refused.
pub open spec fn auth_command_ok(args: Seq<Seq<char>>, r: Result<AuthCommand, UsageError>) -> bool {
    if args.len() == 0 {
        r matches Ok(AuthCommand::Help)
    } else if args[0] == "load_keys"@ {
        if args.len() == 2 {
            r matches Ok(AuthCommand::LoadKeys { path }) && path@ == args[1]
        } else {
            fails_with(r, "auth load_keys requires <authorized_keys_path>"@, 2)
        }
    } else {
        fails_with(r, "unknown auth subcommand: "@ + args[0], 1)
    }
}

/// What the arguments ask of the key-list part of the program.
pub fn parse_auth_args(args: &[String]) -> (r: Result<AuthCommand, UsageError>)
    ensures
        auth_command_ok(views_of(args@), r),
{
    if args.len() == 0 {
        return Ok(AuthCommand::Help);
    }
    if str_eq(args[0].as_str(), "load_keys") {
        if args.len() != 2 {
            return usage("auth load_keys requires <authorized_keys_path>", 2);
        }
        Ok(AuthCommand::LoadKeys { path: args[1].clone() })
    } else {
        let message = "unknown auth subcommand: ".to_owned().concat(args[0].as_str());
        Err(UsageError { message, code: 1 })
    }
}

/// What the local-copy part of the program is asked to do.
#[derive(Debug)]
pub enum TransferCommand {
    /// Show the help text and fail with exit code 1.
    Help,
    /// Copy `src` to `dest` and report the progress.
    Upload { src: String, dest: String },
    /// Copy `src` to `dest`.
    Download { src: String, dest: String },
    /// List the entries of `dir`.
    List { dir: String },
}

/// What the arguments ask of the local-copy part: nothing asks for help,
/// `upload` and `download` take a source and a destination, `ls` takes a
/// directory, and anything else is refused.
pub open spec fn transfer_command_ok(args: Seq<Seq<char>>, r: Result<TransferCommand, UsageError>)
    -> bool {
    if args.len() == 0 {
        r matches Ok(TransferCommand::Help)
    } else if args[0] == "upload"@ {
        if args.len() == 3 {
            r matches Ok(TransferCommand::Upload { src, dest }) && src@ == args[1] && dest@
                == args[2]
        } else {
            fails_with(r, "transfer upload requires <src> <dest>"@, 2)
        }
    } else if args[0] == "download"@ {
        if args.len() == 3 {
            r matches Ok(TransferCommand::Download { src, dest }) && src@ == args[1] && dest@
                == args[2]
        } else {
            fails_with(r, "transfer download requires <src> <dest>"@, 2)
        }
    } else if args[0] == "ls"@ {
        if args.len() == 2 {
            r matches Ok(TransferCommand::List { dir }) && dir@ == args[1]
        } else {
            fails_with(r, "transfer ls requires <dir>"@, 2)
        }
    } else {
        fails_with(r, "unknown transfer subcommand: "@ + args[0], 1)
    }
}

/// What the arguments ask of the local-copy part of the program.
pub fn parse_transfer_args(args: &[String]) -> (r: Result<TransferCommand, UsageError>)
    ensures
        transfer_command_ok(views_of(args@), r),
{
    if args.len() == 0 {
        return Ok(TransferCommand::Help);
    }
    let sub = args[0].as_str();
    if str_eq(sub, "upload") {
        if args.len() != 3 {
            return usage("transfer upload requires <src> <dest>", 2);
        }
        Ok(TransferCommand::Upload { src: args[1].clone(), dest: args[2].clone() })
    } else if str_eq(sub, "download") {
        if args.len() != 3 {
            return usage("transfer download requires <src> <dest>", 2);
        }
        Ok(TransferCommand::Download { src: args[1].clone(), dest: args[2].clone() })
    } else if str_eq(sub, "ls") {
        if args.len() != 2 {
            return usage("transfer ls requires <dir>", 2);
        }
        Ok(TransferCommand::List { dir: args[1].clone() })
    } else {
        let message = "unknown transfer subcommand: ".to_owned().concat(sub);
        Err(UsageError { message, code: 1 })
    }
}

/// The port that `s` spells: decimal digits, at least one, with a `+`
/// before them or without, whose number is a port.
pub open spec fn port_spec(s: Seq<char>) -> Option<u16> {
    let digits = if s.len() > 0 && s[0] == '+' {
        s.skip(1)
    } else {
        s
    };
    if digits.len() > 0 && all_digits(digits) && number_of(digits) <= 65535 {
        Some(number_of(digits) as u16)
    } else {
        None
    }
}

proof fn lemma_number_grows(s: Seq<char>, k: int)
    requires
        0 <= k <= s.len(),
    ensures
        number_of(s.take(k)) <= number_of(s),
    decreases s.len() - k,
{
    if k < s.len() {
        lemma_number_grows(s, k + 1);
        assert(s.take(k + 1).drop_last() =~= s.take(k));
        assert(number_of(s.take(k)) <= number_of(s.take(k + 1))) by (nonlinear_arith)
            requires
                number_of(s.take(k + 1)) >= number_of(s.take(k)) * 10,
        ;
    } else {
        assert(s.take(k) =~= s);
    }
}

/// Reads a port number.
pub fn parse_port(s: &str) -> (r: Option<u16>)
    ensures
        r == port_spec(s@),
{
    let chars = chars_of(s);
    let start: usize = if chars.len() > 0 && chars[0] == '+' {
        1
    } else {
        0
    };
    let ghost digits = chars@.skip(start as int);
    if chars.len() == start {
        return None;
    }
    let mut value: u32 = 0;
    let mut i: usize = start;
    assert(digits.take(0) =~= Seq::<char>::empty());
    while i < chars.len()
        invariant
            start <= i <= chars.len(),
            start < chars.len(),
            chars@ == s@,
            start == (if s@.len() > 0 && s@[0] == '+' {
                1int
            } else {
                0int
            }),
            digits == chars@.skip(start as int),
            value == number_of(digits.take(i - start)),
            value <= 65535,
            all_digits(digits.take(i - start)),
        decreases chars.len() - i,
    {
        let u = chars[i] as u32;
        let ghost k = i - start;
        proof {
            assert(digits[k] == chars@[i as int]);
            assert(digits.take(k + 1).drop_last() =~= digits.take(k));
            assert(digits.take(k + 1).last() == digits[k]);
        }
        if !(48 <= u && u <= 57) {
            assert(digit_value(digits[k]) is None);
            assert(s@.skip(0) =~= s@);
            return None;
        }
        assert(digit_value(digits[k]) == Some((u - 48) as nat));
        value = value * 10 + (u - 48);
        assert(value == number_of(digits.take(k + 1)));
        if value > 65535 {
            proof {
                lemma_number_grows(digits, k + 1);
                assert(s@.skip(0) =~= s@);
            }
            return None;
        }
        proof {
            assert forall|j: int| 0 <= j < k + 1 implies digit_value(
                #[trigger] digits.take(k + 1)[j],
            ) is Some by {
                if j < k {
                    assert(digits.take(k + 1)[j] == digits.take(k)[j]);
                }
            }
        }
        i += 1;
    }
    assert(digits.take(i - start) =~= digits);
    assert(s@.skip(0) =~= s@);
    Some(value as u16)
}

/// A port that was written in decimal is read as that port.
pub proof fn lemma_port_is_read_back(port: u16)
    ensures
        port_spec(decimal(port as nat)) == Some(port),
{
    lemma_decimal_is_read_back(port as nat);
    let d = decimal(port as nat);
    assert(digit_value(d[0]) is Some);
    assert(d[0] != '+');
}

/// The time that a connection may take to open, in milliseconds.
pub const CONNECT_TIMEOUT_MS: u64 = 30000;

/// What the options of a network command say, as plain sequences.
pub struct NetFlags {
    pub host: Seq<char>,
    pub port: u16,
    pub username: Seq<char>,
    pub password: Option<Seq<char>>,
    pub key_path: Option<Seq<char>>,
    pub key_pub: Option<Seq<char>>,
    pub key_pass: Option<Seq<char>>,
    pub known_hosts: Option<Seq<char>>,
    pub strict: bool,
    pub accept_new: bool,
    /// The arguments that are neither an option nor its value.
    pub rest: Seq<Seq<char>>,
}

/// What the options of a network command say.
pub struct NetOptions {
    pub host: String,
    pub port: u16,
    pub username: String,
    pub password: Option<String>,
    pub key_path: Option<String>,
    pub key_pub: Option<String>,
    pub key_pass: Option<String>,
    pub known_hosts: Option<String>,
    pub strict: bool,
    pub accept_new: bool,
    pub rest: Vec<String>,
}

impl View for NetOptions {
    type V = NetFlags;

    open spec fn view(&self) -> NetFlags {
        NetFlags {
            host: self.host@,
            port: self.port,
            username: self.username@,
            password: opt_view(self.password),
            key_path: opt_view(self.key_path),
            key_pub: opt_view(self.key_pub),
            key_pass: opt_view(self.key_pass),
            known_hosts: opt_view(self.known_hosts),
            strict: self.strict,
            accept_new: self.accept_new,
            rest: views_of(self.rest@),
        }
    }
}

/// The options before any argument was read: the default port, and nothing
/// else.
pub open spec fn flags_start() -> NetFlags {
    NetFlags {
        host: Seq::empty(),
        port: DEFAULT_PORT,
        username: Seq::empty(),
        password: None,
        key_path: None,
        key_pub: None,
        key_pass: None,
        known_hosts: None,
        strict: false,
        accept_new: false,
        rest: Seq::empty(),
    }
}

/// The argument at `i`, if there is one.
pub open spec fn arg_at(args: Seq<Seq<char>>, i: int) -> Option<Seq<char>> {
    if 0 <= i < args.len() {
        Some(args[i])
    } else {
        None
    }
}

/// The argument at `i`, or the empty string.
pub open spec fn arg_or_empty(args: Seq<Seq<char>>, i: int) -> Seq<char> {
    match arg_at(args, i) {
        Some(a) => a,
        None => Seq::empty(),
    }
}

/// The port that the argument at `i` spells, or the default port.
pub open spec fn port_at(args: Seq<Seq<char>>, i: int) -> u16 {
    match arg_at(args, i) {
        Some(a) => match port_spec(a) {
            Some(p) => p,
            None => DEFAULT_PORT,
        },
        None => DEFAULT_PORT,
    }
}

/// The options that the arguments from `i` on make of `st`.
///
/// An option that takes a value takes the argument behind it, whatever it
/// is; where none is left, a name is empty, the port is the default and
/// everything else is missing. An option that is given twice counts the
/// second time. Every other argument is kept in `rest`.
pub open spec fn read_flags(args: Seq<Seq<char>>, i: int, st: NetFlags) -> NetFlags
    decreases args.len() + 1 - i,
{
    if i < 0 || i >= args.len() {
        st
    } else {
        let a = args[i];
        if a == "--host"@ {
            read_flags(args, i + 2, NetFlags { host: arg_or_empty(args, i + 1), ..st })
        } else if a == "--port"@ {
            read_flags(args, i + 2, NetFlags { port: port_at(args, i + 1), ..st })
        } else if a == "--user"@ || a == "--username"@ {
            read_flags(args, i + 2, NetFlags { username: arg_or_empty(args, i + 1), ..st })
        } else if a == "--password"@ {
            read_flags(args, i + 2, NetFlags { password: arg_at(args, i + 1), ..st })
        } else if a == "--key"@ || a == "--identity-file"@ {
            read_flags(args, i + 2, NetFlags { key_path: arg_at(args, i + 1), ..st })
        } else if a == "--key-pass"@ || a == "--passphrase"@ {
            read_flags(args, i + 2, NetFlags { key_pass: arg_at(args, i + 1), ..st })
        } else if a == "--key-pub"@ {
            read_flags(args, i + 2, NetFlags { key_pub: arg_at(args, i + 1), ..st })
        } else if a == "--known-hosts"@ {
            read_flags(args, i + 2, NetFlags { known_hosts: arg_at(args, i + 1), ..st })
        } else if a == "--strict"@ {
            read_flags(args, i + 1, NetFlags { strict: true, ..st })
        } else if a == "--accept-new"@ {
            read_flags(args, i + 1, NetFlags { accept_new: true, ..st })
        } else {
            read_flags(args, i + 1, NetFlags { rest: st.rest.push(a), ..st })
        }
    }
}

fn take_arg(args: &[String], i: usize) -> (r: Option<String>)
    ensures
        opt_view(r) == arg_at(views_of(args@), i as int),
{
    if i < args.len() {
        Some(args[i].clone())
    } else {
        None
    }
}

fn take_arg_or_empty(args: &[String], i: usize) -> (r: String)
    ensures
        r@ == arg_or_empty(views_of(args@), i as int),
{
    if i < args.len() {
        args[i].clone()
    } else {
        String::new()
    }
}

fn take_port(args: &[String], i: usize) -> (r: u16)
    ensures
        r == port_at(views_of(args@), i as int),
{
    if i < args.len() {
        match parse_port(args[i].as_str()) {
            Some(p) => p,
            None => DEFAULT_PORT,
        }
    } else {
        DEFAULT_PORT
    }
}

/// Reads the options of a network command from the arguments behind the
/// sub-command.
pub fn parse_net_options(args: &[String]) -> (opts: NetOptions)
    ensures
        opts@ == read_flags(views_of(args@), 1, flags_start()),
{
    let mut opts = NetOptions {
        host: String::new(),
        port: DEFAULT_PORT,
        username: String::new(),
        password: None,
        key_path: None,
        key_pub: None,
        key_pass: None,
        known_hosts: None,
        strict: false,
        accept_new: false,
        rest: Vec::new(),
    };
    let ghost all = views_of(args@);
    assert(views_of(opts.rest@) =~= Seq::<Seq<char>>::empty());
    assert(opts@ == flags_start());
    if args.len() == 0 {
        return opts;
    }
    let mut i: usize = 1;
    while i < args.len()
        invariant
            1 <= i,
            all == views_of(args@),
            read_flags(all, i as int, opts@) == read_flags(all, 1, flags_start()),
        decreases args.len() - i,
    {
        let a = args[i].as_str();
        assert(all[i as int] == a@);
        let ghost before = opts@;
        let next = i + 1;
        if str_eq(a, "--host") {
            opts.host = take_arg_or_empty(args, next);
        } else if str_eq(a, "--port") {
            opts.port = take_port(args, next);
        } else if str_eq(a, "--user") || str_eq(a, "--username") {
            opts.username = take_arg_or_empty(args, next);
        } else if str_eq(a, "--password") {
            opts.password = take_arg(args, next);
        } else if str_eq(a, "--key") || str_eq(a, "--identity-file") {
            opts.key_path = take_arg(args, next);
        } else if str_eq(a, "--key-pass") || str_eq(a, "--passphrase") {
            opts.key_pass = take_arg(args, next);
        } else if str_eq(a, "--key-pub") {
            opts.key_pub = take_arg(args, next);
        } else if str_eq(a, "--known-hosts") {
            opts.known_hosts = take_arg(args, next);
        } else if str_eq(a, "--strict") {
            opts.strict = true;
            i = next;
            continue ;
        } else if str_eq(a, "--accept-new") {
            opts.accept_new = true;
            i = next;
            continue ;
        } else {
            opts.rest.push(args[i].clone());
            assert(opts@.rest =~= before.rest.push(a@));
            i = next;
            continue ;
        }
        proof {
            assert(read_flags(all, i as int, before) == read_flags(all, i as int + 2, opts@));
            if next >= args.len() {
                assert(read_flags(all, next as int, opts@) == opts@);
                assert(read_flags(all, next as int + 1, opts@) == opts@);
            }
        }
        if next < args.len() {
            i = next + 1;
        } else {
            i = next;
        }
    }
    opts
}

/// What is to be done over the connection.
#[derive(Debug)]
pub enum NetRequest {
    /// Copy the local file to the remote path.
    Upload { local: String, remote: String },
    /// Copy the remote file to the local path.
    Download { remote: String, local: String },
    /// List the entries of the remote directory.
    List { dir: String },
}

/// What a request holds, as plain sequences.
pub enum NetRequestView {
    Upload { local: Seq<char>, remote: Seq<char> },
    Download { remote: Seq<char>, local: Seq<char> },
    List { dir: Seq<char> },
}

impl View for NetRequest {
    type V = NetRequestView;

    open spec fn view(&self) -> NetRequestView {
        match self {
            NetRequest::Upload { local, remote } => NetRequestView::Upload {
                local: local@,
                remote: remote@,
            },
            NetRequest::Download { remote, local } => NetRequestView::Download {
                remote: remote@,
                local: local@,
            },
            NetRequest::List { dir } => NetRequestView::List { dir: dir@ },
        }
    }
}

/// A network command: where to connect and how, and what to do there.
#[derive(Debug)]
pub struct NetCommand {
    pub config: SshConfig,
    pub request: NetRequest,
}

/// The policy that the two flags choose: neither leaves the host key
/// unchecked. Both together choose nothing.
pub open spec fn policy_spec(strict: bool, accept_new: bool) -> Option<HostKeyPolicy> {
    if strict && accept_new {
        None
    } else if strict {
        Some(HostKeyPolicy::Strict)
    } else if accept_new {
        Some(HostKeyPolicy::AcceptNew)
    } else {
        Some(HostKeyPolicy::InsecureIgnore)
    }
}

/// The credential that the options give: the key file where one is named,
/// otherwise the password, and nothing where neither is there.
pub open spec fn auth_spec(f: NetFlags) -> Option<AuthView> {
    match f.key_path {
        Some(k) => Some(
            AuthView::KeyFile {
                username: f.username,
                private_key: k,
                passphrase: f.key_pass,
                public_key: f.key_pub,
            },
        ),
        None => match f.password {
            Some(p) => Some(AuthView::Password { username: f.username, password: p }),
            None => None,
        },
    }
}

/// The request that a sub-command and its operands make, or what is wrong
/// with them.
pub open spec fn request_spec(sub: Seq<char>, rest: Seq<Seq<char>>) -> Result<
    NetRequestView,
    Seq<char>,
> {
    if sub == "upload"@ {
        if rest.len() == 2 {
            Ok(NetRequestView::Upload { local: rest[0], remote: rest[1] })
        } else {
            Err("sftp upload requires <local_src> <remote_dest>"@)
        }
    } else if sub == "download"@ {
        if rest.len() == 2 {
            Ok(NetRequestView::Download { remote: rest[0], local: rest[1] })
        } else {
            Err("sftp download requires <remote_src> <local_dest>"@)
        }
    } else if sub == "ls"@ {
        if rest.len() == 1 {
            Ok(NetRequestView::List { dir: rest[0] })
        } else {
            Err("sftp ls requires <remote_dir>"@)
        }
    } else {
        Err("unknown sftp subcommand (use upload|download|ls)"@)
    }
}

/// The network command that the arguments make, or what is wrong with them.
/// All of it is settled before anything is opened.
pub open spec fn net_command_spec(args: Seq<Seq<char>>) -> Result<
    (ConfigView, NetRequestView),
    Seq<char>,
> {
    let f = read_flags(args, 1, flags_start());
    if args.len() == 0 {
        Err("sftp requires a subcommand: upload|download|ls"@)
    } else if f.host.len() == 0 || f.username.len() == 0 {
        Err("--host and --user are required"@)
    } else if policy_spec(f.strict, f.accept_new) is None {
        Err("--strict and --accept-new exclude each other"@)
    } else if auth_spec(f) is None {
        Err("either --key or --password must be provided"@)
    } else {
        match request_spec(args[0], f.rest) {
            Err(message) => Err(message),
            Ok(request) => Ok(
                (
                    ConfigView {
                        host: f.host,
                        port: f.port,
                        auth: auth_spec(f)->0,
                        known_hosts: f.known_hosts,
                        hostkey_policy: policy_spec(f.strict, f.accept_new)->0,
                        timeout_ms: Some(CONNECT_TIMEOUT_MS),
                    },
                    request,
                ),
            ),
        }
    }
}

/// The policy that the two flags choose.
pub fn choose_policy(strict: bool, accept_new: bool) -> (r: Option<HostKeyPolicy>)
    ensures
        r == policy_spec(strict, accept_new),
{
    if strict && accept_new {
        None
    } else if strict {
        Some(HostKeyPolicy::Strict)
    } else if accept_new {
        Some(HostKeyPolicy::AcceptNew)
    } else {
        Some(HostKeyPolicy::InsecureIgnore)
    }
}

fn choose_request(sub: &str, rest: &Vec<String>) -> (r: Result<NetRequest, UsageError>)
    ensures
        match request_spec(sub@, views_of(rest@)) {
            Ok(request) => r matches Ok(q) && q@ == request,
            Err(message) => fails_with(r, message, 2),
        },
{
    if str_eq(sub, "upload") {
        if rest.len() != 2 {
            return usage("sftp upload requires <local_src> <remote_dest>", 2);
        }
        Ok(NetRequest::Upload { local: rest[0].clone(), remote: rest[1].clone() })
    } else if str_eq(sub, "download") {
        if rest.len() != 2 {
            return usage("sftp download requires <remote_src> <local_dest>", 2);
        }
        Ok(NetRequest::Download { remote: rest[0].clone(), local: rest[1].clone() })
    } else if str_eq(sub, "ls") {
        if rest.len() != 1 {
            return usage("sftp ls requires <remote_dir>", 2);
        }
        Ok(NetRequest::List { dir: rest[0].clone() })
    } else {
        usage("unknown sftp subcommand (use upload|download|ls)", 2)
    }
}

/// The network command that the arguments make. What is wrong with them is
/// said with exit code 2.
pub fn parse_net_args(args: &[String]) -> (r: Result<NetCommand, UsageError>)
    ensures
        match net_command_spec(views_of(args@)) {
            Ok((config, request)) => r matches Ok(c) && c.config@ == config && c.request@
                == request,
            Err(message) => fails_with(r, message, 2),
        },
{
    if args.len() == 0 {
        return usage("sftp requires a subcommand: upload|download|ls", 2);
    }
    let opts = parse_net_options(args);
    let ghost f = opts@;
    if opts.host.as_str().is_empty() || opts.username.as_str().is_empty() {
        return usage("--host and --user are required", 2);
    }
    let policy = match choose_policy(opts.strict, opts.accept_new) {
        Some(p) => p,
        None => {
            return usage("--strict and --accept-new exclude each other", 2);
        },
    };
    if opts.key_path.is_none() && opts.password.is_none() {
        return usage("either --key or --password must be provided", 2);
    }
    let request = match choose_request(args[0].as_str(), &opts.rest) {
        Ok(q) => q,
        Err(e) => {
            return Err(e);
        },
    };
    let auth = match opts.key_path {
        Some(k) => Auth::KeyFile {
            username: opts.username,
            private_key: k,
            passphrase: opts.key_pass,
            public_key: opts.key_pub,
        },
        None => match opts.password {
            Some(p) => Auth::Password { username: opts.username, password: p },
            None => {
                return usage("either --key or --password must be provided", 2);
            },
        },
    };
    assert(auth@ == auth_spec(f)->0);
    let config = SshConfig {
        host: opts.host,
        port: opts.port,
        auth,
        known_hosts: opts.known_hosts,
        hostkey_policy: policy,
        timeout_ms: Some(CONNECT_TIMEOUT_MS),
    };
    Ok(NetCommand { config, request })
}

} // verus!
