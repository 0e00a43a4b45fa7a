//! The features that a command line can name, and their dispatch.
//!
//! A registry is a table that is built once and handed to whoever
//! dispatches. Names keep the order in which they were first registered.

use vstd::prelude::*;
use crate::command::{parse_command, parse_command_spec};
use crate::text::{is_blank, join, join_spec, str_eq, str_is_blank, views_of};

verus! {

/// What a command left behind: a message for the user and an exit code.
#[derive(Debug, Clone)]
pub struct Output {
    pub message: String,
    pub code: i32,
}

/// Why a command was not carried out.
#[derive(Debug, Clone)]
pub enum CoreError {
    UnknownFeature(String),
    InvalidArgs(String),
    ExecutionFailed(String),
}

/// The features that exist without being registered.
pub open spec fn built_in() -> Seq<Seq<char>> {
    seq!["auth"@, "transfer"@]
}

/// Those of `names` that are not built in, in order.
pub open spec fn extras(names: Seq<Seq<char>>) -> Seq<Seq<char>>
    decreases names.len(),
{
    if names.len() == 0 {
        Seq::empty()
    } else if built_in().contains(names.last()) {
        extras(names.drop_last())
    } else {
        extras(names.drop_last()).push(names.last())
    }
}

/// The names that can be offered to the user: the built-in features, then
/// the registered ones that are not among them.
pub open spec fn listed(names: Seq<Seq<char>>) -> Seq<Seq<char>> {
    built_in() + extras(names)
}

/// The handlers of features, by name.
pub struct Registry<H> {
    names: Vec<String>,
    handlers: Vec<H>,
}

impl<H> Registry<H> {
    /// The registered names, in the order of their first registration.
    pub closed spec fn names(&self) -> Seq<Seq<char>> {
        views_of(self.names@)
    }

    /// The handlers, each at the index of its name.
    pub closed spec fn handlers(&self) -> Seq<H> {
        self.handlers@
    }

    /// Whether `name` is registered.
    pub open spec fn has(&self, name: Seq<char>) -> bool {
        self.names().contains(name)
    }

    /// The handler registered under `name`.
    pub open spec fn handler_of(&self, name: Seq<char>) -> H
        recommends
            self.has(name),
    {
        self.handlers()[self.names().index_of(name)]
    }
}

impl<H: Fn(&[String]) -> Result<(), CoreError>> Registry<H> {
    /// Every name has one handler, no name stands twice, and every handler
    /// takes any arguments.
    pub closed spec fn wf(&self) -> bool {
        &&& self.names@.len() == self.handlers@.len()
        &&& forall|i: int, j: int|
            0 <= i < j < self.names@.len() ==> self.names()[i] != self.names()[j]
        &&& forall|i: int, args: &[String]|
            0 <= i < self.handlers@.len() ==> #[trigger] call_requires(self.handlers@[i], (args,))
    }

    fn find(&self, name: &str) -> (at: Option<usize>)
        requires
            self.wf(),
        ensures
            match at {
                Some(i) => i < self.names().len() && self.names()[i as int] == name@
                    && self.names().index_of(name@) == i,
                None => !self.has(name@),
            },
    {
        let mut i: usize = 0;
        while i < self.names.len()
            invariant
                i <= self.names.len(),
                self.wf(),
                forall|j: int| 0 <= j < i ==> self.names()[j] != name@,
            decreases self.names.len() - i,
        {
            if str_eq(self.names[i].as_str(), name) {
                assert(self.names()[i as int] == name@);
                return Some(i);
            }
            i += 1;
        }
        None
    }
}

/// A registry without features.
pub fn registry<H: Fn(&[String]) -> Result<(), CoreError>>() -> (reg: Registry<H>)
    ensures
        reg.wf(),
        reg.names() == Seq::<Seq<char>>::empty(),
{
    let reg = Registry { names: Vec::new(), handlers: Vec::new() };
    assert(reg.names() =~= Seq::<Seq<char>>::empty());
    reg
}

/// Registers `handler` under `name`. A handler that was registered under the
/// name before is replaced, and the name keeps its place.
pub fn register_feature<H: Fn(&[String]) -> Result<(), CoreError>>(
    reg: &mut Registry<H>,
    name: &str,
    handler: H,
)
    requires
        old(reg).wf(),
        forall|args: &[String]| call_requires(handler, (args,)),
    ensures
        final(reg).wf(),
        final(reg).has(name@),
        final(reg).handler_of(name@) == handler,
        old(reg).has(name@) ==> final(reg).names() == old(reg).names() && final(reg).handlers()
            == old(reg).handlers().update(old(reg).names().index_of(name@), handler),
        !old(reg).has(name@) ==> final(reg).names() == old(reg).names().push(name@)
            && final(reg).handlers() == old(reg).handlers().push(handler),
{
    match reg.find(name) {
        Some(i) => {
            reg.handlers.set(i, handler);
            assert(reg.names()[i as int] == name@);
        },
        None => {
            reg.names.push(name.to_owned());
            reg.handlers.push(handler);
            assert(reg.names() =~= old(reg).names().push(name@));
            let ghost last = reg.names().len() - 1;
            assert(reg.names()[last] == name@);
            assert(reg.names().index_of(name@) == last);
        },
    }
}

/// Whether a feature is registered under `name`.
pub fn feature_exists<H: Fn(&[String]) -> Result<(), CoreError>>(reg: &Registry<H>, name: &str)
    -> (r: bool)
    requires
        reg.wf(),
    ensures
        r == reg.has(name@),
{
    reg.find(name).is_some()
}

/// Runs the handler registered under `feature_name` on `args` and hands its
/// result on. A name that is not registered is an unknown feature.
pub fn execute_feature<H: Fn(&[String]) -> Result<(), CoreError>>(
    reg: &Registry<H>,
    feature_name: &str,
    args: &[String],
) -> (r: Result<(), CoreError>)
    requires
        reg.wf(),
    ensures
        reg.has(feature_name@) ==> call_ensures(reg.handler_of(feature_name@), (args,), r),
        !reg.has(feature_name@) ==> (r matches Err(CoreError::UnknownFeature(n)) && n@
            == feature_name@),
{
    match reg.find(feature_name) {
        Some(i) => (reg.handlers[i])(args),
        None => Err(CoreError::UnknownFeature(feature_name.to_owned())),
    }
}

fn is_built_in(name: &str) -> (r: bool)
    ensures
        r == built_in().contains(name@),
{
    let r = str_eq(name, "auth") || str_eq(name, "transfer");
    proof {
        if r {
            assert(built_in()[0] == "auth"@);
            assert(built_in()[1] == "transfer"@);
        }
    }
    r
}

/// The names that can be offered to the user.
pub fn list_features<H: Fn(&[String]) -> Result<(), CoreError>>(reg: &Registry<H>) -> (out: Vec<
    String,
>)
    requires
        reg.wf(),
    ensures
        views_of(out@) == listed(reg.names()),
{
    let mut out: Vec<String> = Vec::new();
    out.push("auth".to_owned());
    out.push("transfer".to_owned());
    assert(views_of(out@) =~= built_in());
    let mut i: usize = 0;
    assert(reg.names().take(0) =~= Seq::<Seq<char>>::empty());
    while i < reg.names.len()
        invariant
            i <= reg.names.len(),
            views_of(out@) == built_in() + extras(reg.names().take(i as int)),
        decreases reg.names.len() - i,
    {
        let ghost before = views_of(out@);
        assert(reg.names().take(i as int + 1).drop_last() =~= reg.names().take(i as int));
        assert(reg.names().take(i as int + 1).last() == reg.names@[i as int]@);
        if !is_built_in(reg.names[i].as_str()) {
            out.push(reg.names[i].clone());
            assert(views_of(out@) =~= before.push(reg.names@[i as int]@));
        }
        i += 1;
    }
    assert(reg.names().take(i as int) =~= reg.names());
    out
}

/// The message of an error, as it is shown to the user.
pub open spec fn message_spec(err: CoreError) -> Seq<char> {
    match err {
        CoreError::UnknownFeature(name) => "Unknown feature: "@ + name@,
        CoreError::InvalidArgs(msg) => "Invalid arguments: "@ + msg@,
        CoreError::ExecutionFailed(msg) => "Execution failed: "@ + msg@,
    }
}

impl CoreError {
    /// The message of the error, as it is shown to the user.
    pub fn message(&self) -> (text: String)
        ensures
            text@ == message_spec(*self),
    {
        match self {
            CoreError::UnknownFeature(name) => "Unknown feature: ".to_owned().concat(
                name.as_str(),
            ),
            CoreError::InvalidArgs(msg) => "Invalid arguments: ".to_owned().concat(msg.as_str()),
            CoreError::ExecutionFailed(msg) => "Execution failed: ".to_owned().concat(
                msg.as_str(),
            ),
        }
    }
}

/// The message of an error for the command line: that of an unknown feature
/// also says which features there are.
pub fn format_error<H: Fn(&[String]) -> Result<(), CoreError>>(reg: &Registry<H>, err: CoreError)
    -> (text: String)
    requires
        reg.wf(),
    ensures
        text@ == match err {
            CoreError::UnknownFeature(_) => message_spec(err) + ". Available: "@ + join_spec(
                listed(reg.names()),
                ", "@,
            ),
            _ => message_spec(err),
        },
{
    let text = err.message();
    match err {
        CoreError::UnknownFeature(_) => {
            let names = join(&list_features(reg), ", ");
            text.concat(". Available: ").concat(names.as_str())
        },
        _ => text,
    }
}

/// Whether `r` is what a command line gives whose feature is `feature`, once
/// its handler returned `handled`.
pub open spec fn reports(r: Result<Output, CoreError>, feature: Seq<char>, handled: Result<
    (),
    CoreError,
>) -> bool {
    match handled {
        Ok(_) => r matches Ok(out) && out.message@ == feature + " executed successfully"@
            && out.code == 0,
        Err(e) => r == Err::<Output, CoreError>(e),
    }
}

/// Parses a command line and runs the feature that it names.
///
/// A line whose feature name is blank is refused with the list of features.
/// A name that is not registered is an unknown feature. Otherwise the handler
/// runs on the arguments: its error is handed on, and its success is reported
/// with exit code 0.
pub fn process_input<H: Fn(&[String]) -> Result<(), CoreError>>(reg: &Registry<H>, input: &str)
    -> (r: Result<Output, CoreError>)
    requires
        reg.wf(),
    ensures
        ({
            let (feature, args) = parse_command_spec(input@);
            if is_blank(feature) {
                r matches Err(CoreError::InvalidArgs(m)) && m@
                    == "no feature provided; try one of: "@ + join_spec(
                    listed(reg.names()),
                    ", "@,
                )
            } else if !reg.has(feature) {
                r matches Err(CoreError::UnknownFeature(n)) && n@ == feature
            } else {
                exists|given: &[String], handled: Result<(), CoreError>|
                    views_of(given@) == args && call_ensures(
                        reg.handler_of(feature),
                        (given,),
                        handled,
                    ) && reports(r, feature, handled)
            }
        }),
{
    let (feature, args) = parse_command(input);
    if str_is_blank(feature.as_str()) {
        let names = join(&list_features(reg), ", ");
        return Err(
            CoreError::InvalidArgs(
                "no feature provided; try one of: ".to_owned().concat(names.as_str()),
            ),
        );
    }
    let given = args.as_slice();
    let handled = execute_feature(reg, feature.as_str(), given);
    match handled {
        Ok(_) => {
            let out = Output {
                message: feature.clone().concat(" executed successfully"),
                code: 0,
            };
            assert(reg.has(feature@) ==> call_ensures(
                reg.handler_of(feature@),
                (given,),
                handled,
            ) && reports(Ok(out), feature@, handled));
            Ok(out)
        },
        Err(e) => {
            assert(reg.has(feature@) ==> call_ensures(
                reg.handler_of(feature@),
                (given,),
                handled,
            ) && reports(Err(e), feature@, handled));
            Err(e)
        },
    }
}

} // verus!
