//! The failures that the library tells apart.

use vstd::prelude::*;

verus! {

/// `std::io::Error`: the error of a file or socket, carried through as it
/// is.
#[verifier::external_type_specification]
#[verifier::external_body]
pub struct ExIoError(std::io::Error);

/// `ssh2::Error`: the error of the transport, carried through as it is.
#[verifier::external_type_specification]
#[verifier::external_body]
pub struct ExSshError(ssh2::Error);

/// `sshkeys::Error`: the error of the key reader, carried through as it is.
#[verifier::external_type_specification]
#[verifier::external_body]
pub struct ExKeyError(sshkeys::Error);

/// The code of a failure that the transport reported, by where it arose.
#[derive(Clone, Copy, Debug, PartialEq, Eq, Structural)]
pub enum FailureCode {
    /// A code of the session layer.
    Session(i32),
    /// A code of the file transfer subsystem.
    Sftp(i32),
}

/// What a failed access to a file or directory comes down to.
#[derive(Clone, Copy, Debug, PartialEq, Eq, Structural)]
pub enum Cause {
    /// It is not there.
    Missing,
    /// It may not be accessed.
    Denied,
    /// Anything else.
    Other,
}

/// The session code for a key file that could not be read or opened.
pub const SESSION_FILE: i32 = -16;

/// The transfer code for a file that does not exist.
pub const SFTP_NO_SUCH_FILE: i32 = 2;

/// The transfer code for an access that is not permitted.
pub const SFTP_PERMISSION_DENIED: i32 = 3;

/// The transfer code for a path that does not exist.
pub const SFTP_NO_SUCH_PATH: i32 = 10;

/// Why a host key was not trusted.
#[derive(Clone, Copy, Debug, PartialEq, Eq, Structural)]
pub enum HostKeyError {
    /// The store holds nothing for the host, and the policy accepts no new
    /// key.
    Untrusted,
    /// The store holds another key for the host.
    Mismatch,
}

/// Why an identity was not established.
#[derive(Debug)]
pub enum AuthError {
    InvalidKey,
    InvalidPassword,
    UserNotFound,
    /// A file could not be read.
    Io(std::io::Error),
    /// A public key did not parse.
    Key(sshkeys::Error),
    /// A line of a key list has not the shape of one.
    Parse(String),
    /// The private key file could not be read or understood.
    KeyUnreadable,
    /// The private key did not open with the passphrase given.
    PassphraseRejected,
    /// The server did not accept the identity.
    Rejected,
}

/// Why a connection attempt ended.
#[derive(Debug)]
pub enum NetError {
    /// The TCP connection was refused or timed out.
    Tcp(std::io::Error),
    /// The handshake or another step of the protocol failed.
    Ssh(ssh2::Error),
    /// The host's key was not trusted.
    HostKey { host: String, reason: HostKeyError },
    /// The identity was not established.
    Auth(AuthError),
    /// The configuration is incomplete or contradicts itself.
    Invalid(String),
}

/// Why a transfer or a listing ended.
#[derive(Debug)]
pub enum TransferError {
    /// The file or directory named does not exist.
    FileNotFound(String),
    /// The file or directory named may not be accessed.
    PermissionDenied(String),
    /// Reading or writing failed.
    Io(std::io::Error),
}

/// Reads the code of a transport failure.
///
/// Calls `ssh2::Error::code` and gives the code in the library's own type.
/// Nothing is claimed of the code.
#[verifier::external_body]
pub(crate) fn failure_code(e: &ssh2::Error) -> (code: FailureCode) {
    match e.code() {
        ssh2::ErrorCode::Session(n) => FailureCode::Session(n),
        ssh2::ErrorCode::SFTP(n) => FailureCode::Sftp(n),
    }
}

/// Turns a transport failure into an I/O error.
///
/// Calls the conversion that `ssh2` offers from its error to
/// `std::io::Error`. Nothing is claimed of the result.
#[verifier::external_body]
pub(crate) fn io_error_of(e: ssh2::Error) -> (io: std::io::Error) {
    std::io::Error::from(e)
}

/// Reads what kind of failure an I/O error is.
///
/// Calls `std::io::Error::kind` and tells a missing file and a denied
/// access from everything else. Nothing is claimed of the result.
#[verifier::external_body]
pub(crate) fn io_cause(e: &std::io::Error) -> (cause: Cause) {
    match e.kind() {
        std::io::ErrorKind::NotFound => Cause::Missing,
        std::io::ErrorKind::PermissionDenied => Cause::Denied,
        _ => Cause::Other,
    }
}

/// What a code of the transport says of a failed access: the transfer codes
/// for a missing file or path and for a denied access are told apart, and
/// every other code is just a failure.
pub open spec fn cause_of(code: FailureCode) -> Cause {
    match code {
        FailureCode::Sftp(n) => if n == SFTP_NO_SUCH_FILE || n == SFTP_NO_SUCH_PATH {
            Cause::Missing
        } else if n == SFTP_PERMISSION_DENIED {
            Cause::Denied
        } else {
            Cause::Other
        },
        FailureCode::Session(_) => Cause::Other,
    }
}

/// What a code of the transport says of a failed access.
pub fn classify(code: FailureCode) -> (cause: Cause)
    ensures
        cause == cause_of(code),
{
    match code {
        FailureCode::Sftp(n) => {
            if n == SFTP_NO_SUCH_FILE || n == SFTP_NO_SUCH_PATH {
                Cause::Missing
            } else if n == SFTP_PERMISSION_DENIED {
                Cause::Denied
            } else {
                Cause::Other
            }
        },
        FailureCode::Session(_) => Cause::Other,
    }
}

/// Whether `r` is the failure of an access to `path` for `cause`, with `io`
/// as the error where the cause is nothing more special.
pub open spec fn is_failure_for(r: TransferError, cause: Cause, path: Seq<char>, io: std::io::Error)
    -> bool {
    match cause {
        Cause::Missing => r matches TransferError::FileNotFound(p) && p@ == path,
        Cause::Denied => r matches TransferError::PermissionDenied(p) && p@ == path,
        Cause::Other => r == TransferError::Io(io),
    }
}

/// The failure of an access to `path` for `cause`.
pub fn failure_for(cause: Cause, path: &str, io: std::io::Error) -> (r: TransferError)
    ensures
        is_failure_for(r, cause, path@, io),
{
    match cause {
        Cause::Missing => TransferError::FileNotFound(path.to_owned()),
        Cause::Denied => TransferError::PermissionDenied(path.to_owned()),
        Cause::Other => TransferError::Io(io),
    }
}

/// The failure of an access to the remote `path` that the transport
/// reported as `e`: one of the three kinds, and where it names a path,
/// that path is `path`.
pub fn remote_failure(e: ssh2::Error, path: &str) -> (r: TransferError)
    ensures
        exists|code: FailureCode, io: std::io::Error| is_failure_for(r, cause_of(code), path@, io),
{
    let code = failure_code(&e);
    let cause = classify(code);
    let io = io_error_of(e);
    failure_for(cause, path, io)
}

/// The failure of an access to the local `path` that ended with `e`: one of
/// the three kinds, and where it is neither a missing file nor a denied
/// access, it holds `e` itself.
pub fn local_failure(e: std::io::Error, path: &str) -> (r: TransferError)
    ensures
        exists|cause: Cause| is_failure_for(r, cause, path@, e),
{
    let cause = io_cause(&e);
    failure_for(cause, path, e)
}

} // verus!
