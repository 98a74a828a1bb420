//! Errors, and how the outcome of an external program is classified.

use vstd::prelude::*;

verus! {

/// The standard library's I/O error, carried through opaquely.
#[verifier::external_type_specification]
#[verifier::external_body]
pub struct ExIoError(std::io::Error);

/// Every failure the wizard reports.
#[derive(Debug)]
pub enum SetupError {
    /// An external step exited non-zero or could not be started; holds its output.
    CommandFailed(String),
    /// Reading or writing a stream failed.
    Io(std::io::Error),
    /// A configuration value was malformed or out of range.
    InvalidInput(String),
    /// The environment lacked something a collaborator needs.
    System(String),
}

/// What a `SetupError` says, as mathematical text.
pub ghost enum ErrorView {
    CommandFailed(Seq<char>),
    Io,
    InvalidInput(Seq<char>),
    System(Seq<char>),
}

impl View for SetupError {
    type V = ErrorView;

    open spec fn view(&self) -> ErrorView {
        match self {
            SetupError::CommandFailed(m) => ErrorView::CommandFailed(m@),
            SetupError::Io(_) => ErrorView::Io,
            SetupError::InvalidInput(m) => ErrorView::InvalidInput(m@),
            SetupError::System(m) => ErrorView::System(m@),
        }
    }
}

/// Result of any wizard operation.
pub type CommandResult<T> = Result<T, SetupError>;

/// The error a result carries, if it failed.
pub open spec fn err_view<T>(r: CommandResult<T>) -> Option<ErrorView> {
    match r {
        Ok(_) => None,
        Err(e) => Some(e@),
    }
}

/// The one-line message shown to a user, for the variants whose text is known.
pub open spec fn message_of(e: ErrorView) -> Seq<char> {
    match e {
        ErrorView::CommandFailed(m) => "Command failed: "@ + m,
        ErrorView::Io => "IO error: "@,
        ErrorView::InvalidInput(m) => "Invalid input: "@ + m,
        ErrorView::System(m) => "System error: "@ + m,
    }
}

impl SetupError {
    /// The message shown to a user; for an I/O error the description of the
    /// underlying error follows its prefix.
    pub fn to_string(&self) -> (r: String)
        ensures
            !(self@ is Io) ==> r@ == message_of(self@),
            self@ is Io ==> r@.len() >= message_of(self@).len()
                && r@.take(message_of(self@).len() as int) == message_of(self@),
    {
        match self {
            SetupError::CommandFailed(m) => String::from_str("Command failed: ").concat(m.as_str()),
            SetupError::Io(e) => {
                let detail = e.to_string();
                let r = String::from_str("IO error: ").concat(detail.as_str());
                assert(r@.take(message_of(self@).len() as int) =~= message_of(self@));
                r
            },
            SetupError::InvalidInput(m) => String::from_str("Invalid input: ").concat(m.as_str()),
            SetupError::System(m) => String::from_str("System error: ").concat(m.as_str()),
        }
    }
}

impl From<std::io::Error> for SetupError {
    fn from(e: std::io::Error) -> (r: SetupError)
        ensures
            r@ is Io,
    {
        SetupError::Io(e)
    }
}

impl vstd::std_specs::convert::FromSpecImpl<std::io::Error> for SetupError {
    open spec fn obeys_from_spec() -> bool {
        true
    }

    open spec fn from_spec(e: std::io::Error) -> SetupError {
        SetupError::Io(e)
    }
}

/// Message when a command line names no program.
pub open spec fn no_program_message() -> Seq<char> {
    "No command provided"@
}

/// Error detail for a program that ran and failed, with its combined output.
pub open spec fn failed_message(program: Seq<char>, combined: Seq<char>) -> Seq<char> {
    "Command "@ + program + " failed: "@ + combined
}

/// Error detail for a program that could not be started or waited for.
pub open spec fn launch_message(program: Seq<char>, detail: Seq<char>) -> Seq<char> {
    "Failed to spawn "@ + program + ": "@ + detail
}

/// The error for a command line without a program.
pub fn no_program() -> (r: SetupError)
    ensures
        r@ == ErrorView::InvalidInput(no_program_message()),
{
    SetupError::InvalidInput(String::from_str("No command provided"))
}

/// The error for `program` when it could not be started, with the reason.
pub fn launch_failure(program: &str, detail: &str) -> (r: SetupError)
    ensures
        r@ == ErrorView::CommandFailed(launch_message(program@, detail@)),
{
    let m = String::from_str("Failed to spawn ").concat(program).concat(": ").concat(detail);
    SetupError::CommandFailed(m)
}

/// Classifies a finished run of `program`: its standard output followed by its
/// standard error is the result on success, and the detail of the error otherwise.
pub fn command_outcome(program: &str, stdout: &str, stderr: &str, success: bool) -> (r:
    CommandResult<String>)
    ensures
        success ==> (r matches Ok(out) && out@ == stdout@ + stderr@),
        !success ==> (r matches Err(e) && e@ == ErrorView::CommandFailed(
            failed_message(program@, stdout@ + stderr@),
        )),
{
    let combined = String::from_str(stdout).concat(stderr);
    if success {
        Ok(combined)
    } else {
        let m = String::from_str("Command ").concat(program).concat(" failed: ").concat(
            combined.as_str(),
        );
        Err(SetupError::CommandFailed(m))
    }
}

} // verus!
