//! Unified error model of the shell.
//!
//! Failures carry enough context to render a one-line diagnostic and no
//! control-flow meaning beyond "this operation did not complete"; the
//! dispatcher wraps builtin failures here and the loop reports and
//! continues.

use vstd::prelude::*;

verus! {

/// The closed set of failure kinds the shell reports.
#[derive(Debug)]
pub enum ShellError {
    /// I/O related error with a context string naming the failing operation
    /// and the rendered underlying error.
    Io { ctx: String, err: String },
    /// Usage / argument error.
    Usage(String),
    /// Unknown command.
    InvalidCommand(String),
    /// Generic catch-all.
    Other(String),
}

/// Convenience alias.
pub type ShellResult<T> = Result<T, ShellError>;

/// The one-line diagnostic text of an error.
pub open spec fn spec_message(e: ShellError) -> Seq<char> {
    match e {
        ShellError::Io { ctx, err } => "error: "@ + ctx@ + ": "@ + err@,
        ShellError::Usage(msg) => "usage: "@ + msg@,
        ShellError::InvalidCommand(name) => "Command '"@ + name@ + "' not found"@,
        ShellError::Other(msg) => "error: "@ + msg@,
    }
}

impl ShellError {
    /// Create an I/O error with context.
    pub fn io(ctx: &str, err: String) -> (e: ShellError)
        ensures
            e matches ShellError::Io { ctx: c, err: m } && c@ == ctx@ && m == err,
    {
        ShellError::Io { ctx: ctx.to_owned(), err }
    }

    /// Create a usage error.
    pub fn usage(msg: &str) -> (e: ShellError)
        ensures
            e matches ShellError::Usage(m) && m@ == msg@,
    {
        ShellError::Usage(msg.to_owned())
    }

    /// Create an invalid command error.
    pub fn invalid_command(name: &str) -> (e: ShellError)
        ensures
            e matches ShellError::InvalidCommand(n) && n@ == name@,
    {
        ShellError::InvalidCommand(name.to_owned())
    }

    /// Create a generic error.
    pub fn other(msg: &str) -> (e: ShellError)
        ensures
            e matches ShellError::Other(m) && m@ == msg@,
    {
        ShellError::Other(msg.to_owned())
    }

    /// Render the one-line diagnostic for this error.
    pub fn message(&self) -> (r: String)
        ensures
            r@ == spec_message(*self),
    {
        match self {
            ShellError::Io { ctx, err } => {
                let mut r = String::new();
                r.append("error: ");
                r.append(ctx.as_str());
                r.append(": ");
                r.append(err.as_str());
                proof {
                    assert(r@ =~= "error: "@ + ctx@ + ": "@ + err@);
                }
                r
            },
            ShellError::Usage(msg) => {
                let mut r = String::new();
                r.append("usage: ");
                r.append(msg.as_str());
                proof {
                    assert(r@ =~= "usage: "@ + msg@);
                }
                r
            },
            ShellError::InvalidCommand(name) => {
                let mut r = String::new();
                r.append("Command '");
                r.append(name.as_str());
                r.append("' not found");
                proof {
                    assert(r@ =~= "Command '"@ + name@ + "' not found"@);
                }
                r
            },
            ShellError::Other(msg) => {
                let mut r = String::new();
                r.append("error: ");
                r.append(msg.as_str());
                proof {
                    assert(r@ =~= "error: "@ + msg@);
                }
                r
            },
        }
    }
}

} // verus!
