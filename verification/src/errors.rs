//! The closed set of ways an authorization request can fail, and the coarse
//! result codes by which a failure is reported back to the host.
//!
//! Every failure is reported as a denial of one shade or another. No error
//! kind maps to a success code, and the causes an error was raised for are
//! kept for diagnosis only: they never change the code that is reported.
//! A failure reaches the host as the kind it was raised as; only what is
//! raised as `Unauthorized` is reported as a refusal.

use libc::c_int;
use vstd::prelude::*;

use crate::keys::Key;
use crate::version::Version;

verus! {

/// Reported from `open` when the command may go ahead.
pub const SUDO_PLUGIN_OPEN_SUCCESS: c_int = 1;

/// Reported from `open` when the command may not go ahead.
pub const SUDO_PLUGIN_OPEN_FAILURE: c_int = 0;

/// Reported from `open` on a general error; the command does not go ahead.
pub const SUDO_PLUGIN_OPEN_GENERAL_ERROR: c_int = -1;

/// Reported from `open` when the host was invoked wrongly.
pub const SUDO_PLUGIN_OPEN_USAGE_ERROR: c_int = -2;

/// Reported from a logging call when the command may carry on.
pub const SUDO_PLUGIN_LOG_OK: c_int = 1;

/// Reported from a logging call to have the command ended.
pub const SUDO_PLUGIN_LOG_REJECT: c_int = 0;

/// Reported from a logging call on an error; the command is ended.
pub const SUDO_PLUGIN_LOG_ERROR: c_int = -1;

/// Why a request failed.
#[derive(Clone, Copy, Debug, PartialEq, Eq, Structural)]
pub enum ErrorKind {
    /// No channel to the approving party could be set up.
    CommunicationError,
    /// The approving party turned the session down.
    SessionDeclined,
    /// The approving party ended a session that was under way.
    SessionTerminated,
    /// Standard input was redirected, which a watched session forbids.
    StdinRedirected,
    /// Both a target user and a target group were given explicitly.
    SudoToUserAndGroup,
    /// The host speaks an older API than is needed; carries the oldest
    /// version that would have done.
    UnsupportedApiVersion(Version),
    /// The plugin was used before it was initialized.
    Uninitialized,
    /// The user may not run this command with these options.
    Unauthorized,
    /// A recognised option was missing though required, or held a value of
    /// the wrong shape; carries the option's name.
    InvalidInput(Key),
}

impl ErrorKind {
    /// The fixed, human-readable description of the kind.
    pub open spec fn spec_str(self) -> &'static str {
        match self {
            ErrorKind::CommunicationError => "couldn't establish communications with the pair",
            ErrorKind::SessionDeclined => "pair declined the session",
            ErrorKind::SessionTerminated => "pair ended the session",
            ErrorKind::StdinRedirected => "redirection of stdin to paired sessions is prohibited",
            ErrorKind::SudoToUserAndGroup => "the -u and -g options may not both be specified",
            ErrorKind::UnsupportedApiVersion(_) =>
                "sudo doesn't support the minimum plugin API version required by this plugin",
            ErrorKind::Uninitialized => "the plugin failed to initialize",
            ErrorKind::Unauthorized => "command unauthorized",
            ErrorKind::InvalidInput(_) => "sudo passed an option that is missing or malformed",
        }
    }

    /// The code reported from `open` for a failure of this kind.
    ///
    /// Every kind is listed, so that a kind added later cannot slip into a
    /// code by default.
    pub open spec fn open_code(self) -> c_int {
        match self {
            ErrorKind::Unauthorized => SUDO_PLUGIN_OPEN_GENERAL_ERROR,
            ErrorKind::CommunicationError => SUDO_PLUGIN_OPEN_FAILURE,
            ErrorKind::SessionDeclined => SUDO_PLUGIN_OPEN_FAILURE,
            ErrorKind::SessionTerminated => SUDO_PLUGIN_OPEN_FAILURE,
            ErrorKind::StdinRedirected => SUDO_PLUGIN_OPEN_FAILURE,
            ErrorKind::SudoToUserAndGroup => SUDO_PLUGIN_OPEN_FAILURE,
            ErrorKind::UnsupportedApiVersion(_) => SUDO_PLUGIN_OPEN_FAILURE,
            ErrorKind::Uninitialized => SUDO_PLUGIN_OPEN_FAILURE,
            ErrorKind::InvalidInput(_) => SUDO_PLUGIN_OPEN_FAILURE,
        }
    }

    /// The code reported from a logging call for a failure of this kind.
    pub open spec fn log_code(self) -> c_int {
        match self {
            ErrorKind::Unauthorized => SUDO_PLUGIN_LOG_REJECT,
            ErrorKind::CommunicationError => SUDO_PLUGIN_LOG_ERROR,
            ErrorKind::SessionDeclined => SUDO_PLUGIN_LOG_ERROR,
            ErrorKind::SessionTerminated => SUDO_PLUGIN_LOG_ERROR,
            ErrorKind::StdinRedirected => SUDO_PLUGIN_LOG_ERROR,
            ErrorKind::SudoToUserAndGroup => SUDO_PLUGIN_LOG_ERROR,
            ErrorKind::UnsupportedApiVersion(_) => SUDO_PLUGIN_LOG_ERROR,
            ErrorKind::Uninitialized => SUDO_PLUGIN_LOG_ERROR,
            ErrorKind::InvalidInput(_) => SUDO_PLUGIN_LOG_ERROR,
        }
    }

    /// Whether the kind is a failure of the session with the approving
    /// party.
    pub open spec fn is_session_failure(self) -> bool {
        self is CommunicationError || self is SessionDeclined || self is SessionTerminated
            || self is StdinRedirected || self is SudoToUserAndGroup
    }

    /// Whether two kinds are the same but for what they carry.
    pub open spec fn alike(self, other: ErrorKind) -> bool {
        match (self, other) {
            (ErrorKind::UnsupportedApiVersion(_), ErrorKind::UnsupportedApiVersion(_)) => true,
            (ErrorKind::InvalidInput(_), ErrorKind::InvalidInput(_)) => true,
            _ => self == other,
        }
    }

    /// The fixed, human-readable description of the kind.
    #[verifier::when_used_as_spec(spec_str)]
    pub fn as_str(self) -> (text: &'static str)
        ensures
            text == self.spec_str(),
    {
        match self {
            ErrorKind::CommunicationError => "couldn't establish communications with the pair",
            ErrorKind::SessionDeclined => "pair declined the session",
            ErrorKind::SessionTerminated => "pair ended the session",
            ErrorKind::StdinRedirected => "redirection of stdin to paired sessions is prohibited",
            ErrorKind::SudoToUserAndGroup => "the -u and -g options may not both be specified",
            ErrorKind::UnsupportedApiVersion(_) =>
                "sudo doesn't support the minimum plugin API version required by this plugin",
            ErrorKind::Uninitialized => "the plugin failed to initialize",
            ErrorKind::Unauthorized => "command unauthorized",
            ErrorKind::InvalidInput(_) => "sudo passed an option that is missing or malformed",
        }
    }
}

/// A failure: what went wrong, and the failures that led up to it.
#[derive(Clone, Debug, PartialEq, Eq)]
pub struct Error {
    /// What went wrong. This alone decides the code that is reported.
    pub kind: ErrorKind,
    /// The kinds of the failures that led to this one, nearest first.
    pub chain: Vec<ErrorKind>,
}

impl Error {
    /// A failure of the given kind with nothing leading up to it.
    pub fn new(kind: ErrorKind) -> (e: Error)
        ensures
            e.kind == kind,
            e.chain@ == Seq::<ErrorKind>::empty(),
    {
        Error { kind, chain: Vec::new() }
    }

    /// A failure of the given kind that `cause` led to. The cause and all
    /// that led to it are kept, nearest first.
    pub fn with_chain(cause: Error, kind: ErrorKind) -> (e: Error)
        ensures
            e.kind == kind,
            e.chain@ == seq![cause.kind] + cause.chain@,
    {
        let mut cause = cause;
        let mut chain: Vec<ErrorKind> = Vec::new();
        chain.push(cause.kind);
        chain.append(&mut cause.chain);
        Error { kind, chain }
    }

    /// Carries a failure across to the boundary with the host. It arrives
    /// as it set out: of the same kind, with the same failures behind it,
    /// and so with the same codes.
    ///
    /// Failures of the session with the approving party reach the host
    /// this way. None of them is turned into a refusal on the way; where a
    /// refusal with a cause is meant, `with_chain` builds one.
    pub fn propagate(cause: Error) -> (e: Error)
        ensures
            e == cause,
            e.kind == cause.kind,
            e.chain@ == cause.chain@,
            e.open_retval() == cause.open_retval(),
            e.log_retval() == cause.log_retval(),
    {
        cause
    }

    /// What went wrong.
    pub fn kind(&self) -> (kind: ErrorKind)
        ensures
            kind == self.kind,
    {
        self.kind
    }
}

/// Conversion of an outcome to the integer codes the host understands.
///
/// From `open` the host understands 1 (success), 0 (failure), -1 (general
/// error) and -2 (usage error); from the logging calls 1 (ok), 0 (reject)
/// and -1 (error).
pub trait AsSudoPluginRetval {
    /// The code to report from `open`.
    spec fn open_retval(&self) -> c_int;

    /// The code to report from a logging call.
    spec fn log_retval(&self) -> c_int;

    /// The code to report from `open`.
    fn as_sudo_io_plugin_open_retval(&self) -> (code: c_int)
        ensures
            code == self.open_retval(),
    ;

    /// The code to report from a logging call.
    fn as_sudo_io_plugin_log_retval(&self) -> (code: c_int)
        ensures
            code == self.log_retval(),
    ;
}

impl AsSudoPluginRetval for ErrorKind {
    open spec fn open_retval(&self) -> c_int {
        self.open_code()
    }

    open spec fn log_retval(&self) -> c_int {
        self.log_code()
    }

    fn as_sudo_io_plugin_open_retval(&self) -> (code: c_int) {
        match *self {
            ErrorKind::Unauthorized => SUDO_PLUGIN_OPEN_GENERAL_ERROR,
            ErrorKind::CommunicationError => SUDO_PLUGIN_OPEN_FAILURE,
            ErrorKind::SessionDeclined => SUDO_PLUGIN_OPEN_FAILURE,
            ErrorKind::SessionTerminated => SUDO_PLUGIN_OPEN_FAILURE,
            ErrorKind::StdinRedirected => SUDO_PLUGIN_OPEN_FAILURE,
            ErrorKind::SudoToUserAndGroup => SUDO_PLUGIN_OPEN_FAILURE,
            ErrorKind::UnsupportedApiVersion(_) => SUDO_PLUGIN_OPEN_FAILURE,
            ErrorKind::Uninitialized => SUDO_PLUGIN_OPEN_FAILURE,
            ErrorKind::InvalidInput(_) => SUDO_PLUGIN_OPEN_FAILURE,
        }
    }

    fn as_sudo_io_plugin_log_retval(&self) -> (code: c_int) {
        match *self {
            ErrorKind::Unauthorized => SUDO_PLUGIN_LOG_REJECT,
            ErrorKind::CommunicationError => SUDO_PLUGIN_LOG_ERROR,
            ErrorKind::SessionDeclined => SUDO_PLUGIN_LOG_ERROR,
            ErrorKind::SessionTerminated => SUDO_PLUGIN_LOG_ERROR,
            ErrorKind::StdinRedirected => SUDO_PLUGIN_LOG_ERROR,
            ErrorKind::SudoToUserAndGroup => SUDO_PLUGIN_LOG_ERROR,
            ErrorKind::UnsupportedApiVersion(_) => SUDO_PLUGIN_LOG_ERROR,
            ErrorKind::Uninitialized => SUDO_PLUGIN_LOG_ERROR,
            ErrorKind::InvalidInput(_) => SUDO_PLUGIN_LOG_ERROR,
        }
    }
}

impl AsSudoPluginRetval for Error {
    open spec fn open_retval(&self) -> c_int {
        self.kind.open_code()
    }

    open spec fn log_retval(&self) -> c_int {
        self.kind.log_code()
    }

    fn as_sudo_io_plugin_open_retval(&self) -> (code: c_int) {
        self.kind.as_sudo_io_plugin_open_retval()
    }

    fn as_sudo_io_plugin_log_retval(&self) -> (code: c_int) {
        self.kind.as_sudo_io_plugin_log_retval()
    }
}

impl<T, E: AsSudoPluginRetval> AsSudoPluginRetval for Result<T, E> {
    open spec fn open_retval(&self) -> c_int {
        match *self {
            Ok(_) => SUDO_PLUGIN_OPEN_SUCCESS,
            Err(e) => e.open_retval(),
        }
    }

    open spec fn log_retval(&self) -> c_int {
        match *self {
            Ok(_) => SUDO_PLUGIN_LOG_OK,
            Err(e) => e.log_retval(),
        }
    }

    fn as_sudo_io_plugin_open_retval(&self) -> (code: c_int) {
        match self {
            Ok(_) => SUDO_PLUGIN_OPEN_SUCCESS,
            Err(e) => e.as_sudo_io_plugin_open_retval(),
        }
    }

    fn as_sudo_io_plugin_log_retval(&self) -> (code: c_int) {
        match self {
            Ok(_) => SUDO_PLUGIN_LOG_OK,
            Err(e) => e.as_sudo_io_plugin_log_retval(),
        }
    }
}

/// No failure is ever reported to the host as a success, whatever its kind:
/// from `open` it is reported as a failure or a general error, from a
/// logging call as a reject or an error. A refusal is reported as a
/// general error from `open` and as a reject from a logging call, and every
/// other kind as a failure and an error.
pub proof fn lemma_codes_are_deny_biased(kind: ErrorKind)
    ensures
        kind.open_code() == SUDO_PLUGIN_OPEN_FAILURE || kind.open_code()
            == SUDO_PLUGIN_OPEN_GENERAL_ERROR,
        kind.log_code() == SUDO_PLUGIN_LOG_REJECT || kind.log_code() == SUDO_PLUGIN_LOG_ERROR,
        kind.open_code() != SUDO_PLUGIN_OPEN_SUCCESS,
        kind.log_code() != SUDO_PLUGIN_LOG_OK,
        kind == ErrorKind::Unauthorized <==> kind.open_code() == SUDO_PLUGIN_OPEN_GENERAL_ERROR,
        kind == ErrorKind::Unauthorized <==> kind.log_code() == SUDO_PLUGIN_LOG_REJECT,
{
}

/// The failures that led to an error never change the code it is reported
/// with: two errors of one kind are reported alike.
pub proof fn lemma_chain_never_alters_code(a: Error, b: Error)
    requires
        a.kind == b.kind,
    ensures
        a.open_retval() == b.open_retval(),
        a.log_retval() == b.log_retval(),
        a.open_retval() == a.kind.open_code(),
        a.log_retval() == a.kind.log_code(),
{
}

/// An outcome is reported as a success exactly when it is one.
pub proof fn lemma_success_only_on_ok<T>(outcome: Result<T, Error>)
    ensures
        outcome.open_retval() == SUDO_PLUGIN_OPEN_SUCCESS <==> outcome is Ok,
        outcome.log_retval() == SUDO_PLUGIN_LOG_OK <==> outcome is Ok,
{
}

/// A failure of the session with the approving party is reported as what
/// it is: as a failure from `open` and as an error from a logging call,
/// whatever led to it, and never as a refusal.
pub proof fn lemma_session_failures_are_failures(e: Error)
    requires
        e.kind.is_session_failure(),
    ensures
        e.open_retval() == SUDO_PLUGIN_OPEN_FAILURE,
        e.log_retval() == SUDO_PLUGIN_LOG_ERROR,
        e.kind != ErrorKind::Unauthorized,
{
}

/// The description tells the kinds apart: two kinds have the same
/// description exactly when they are the same but for what they carry.
pub proof fn lemma_descriptions_tell_kinds_apart(a: ErrorKind, b: ErrorKind)
    ensures
        a.spec_str()@ == b.spec_str()@ <==> a.alike(b),
{
    reveal_strlit("couldn't establish communications with the pair");
    reveal_strlit("pair declined the session");
    reveal_strlit("pair ended the session");
    reveal_strlit("redirection of stdin to paired sessions is prohibited");
    reveal_strlit("the -u and -g options may not both be specified");
    reveal_strlit(
        "sudo doesn't support the minimum plugin API version required by this plugin",
    );
    reveal_strlit("the plugin failed to initialize");
    reveal_strlit("command unauthorized");
    reveal_strlit("sudo passed an option that is missing or malformed");
    if a.spec_str()@ == b.spec_str()@ {
        assert(a.spec_str()@.len() == b.spec_str()@.len());
        assert(a.spec_str()@[0] == b.spec_str()@[0]);
    }
}

} // verus!
