//! Shell state and the decision core of the read-eval-print loop.
//!
//! The loop itself performs terminal and filesystem I/O, so a driver owns
//! it; every decision it takes is made here. `plan_line` classifies one
//! acquired line, `plan_dispatch` maps a command name to the builtin to run,
//! and `dispatch_apply` folds the builtin's outcome back into the shell
//! state, wrapping failures and resynchronizing the working directory after
//! a successful directory change.

use vstd::prelude::*;

use crate::command::{parse_tokens, parses_to, Command};
use crate::error::ShellError;
use crate::text::{is_blank, lemma_trim_all_ws, spec_trim, str_eq, trim_line};
use crate::tokenizer::{lemma_blank_line_has_no_tokens, spec_tokenize, tokenize_chars};

verus! {

/// The shell's mutable state: the cached working directory and whether the
/// loop keeps running.
pub struct Shell {
    /// The working directory, updated only after a successful directory
    /// change, from the directory the process then actually has.
    pub cwd: String,
    /// True until the exit command or end of input.
    pub running: bool,
}

/// The builtin operations a command can dispatch to.
#[derive(Clone, Copy, PartialEq, Eq, Structural, Debug)]
pub enum Builtin {
    Echo,
    Cd,
    Pwd,
    Cat,
    Mkdir,
    Cp,
    Rm,
    Mv,
    Clear,
    Ls,
}

/// What the dispatcher decides for a command name: stop the loop, run one
/// builtin, or report an unknown command.
#[derive(Clone, Copy, PartialEq, Eq, Structural, Debug)]
pub enum DispatchPlan {
    Exit,
    Invoke(Builtin),
    Unknown,
}

/// One acquisition from the line input front end: a line, end of input, or
/// a failure of the read itself (rendered as text).
pub enum LineEvent {
    EndOfInput,
    Line(String),
    ReadFailed(String),
}

/// What the loop does with one acquired line: stop cleanly, prompt again,
/// dispatch a command, or abort on a failure of the core's own input path,
/// which is the one error the loop does not recover from.
pub enum LoopStep {
    Terminate,
    Reprompt,
    Dispatch(Command),
    Fatal(ShellError),
}

/// What running a builtin produced, as reported back by the driver.
pub enum Outcome {
    /// No builtin was run (the plan was Exit or Unknown).
    NotInvoked,
    /// The builtin failed with the given rendered error.
    Failed(String),
    /// The builtin succeeded.
    Succeeded,
    /// The directory change succeeded; the payload is the process's actual
    /// current directory read back afterwards, if that read succeeded.
    CdSucceeded(Option<String>),
}

/// The dispatch decision for a command name.
pub open spec fn spec_plan(name: Seq<char>) -> DispatchPlan {
    if name == "exit"@ {
        DispatchPlan::Exit
    } else if name == "echo"@ {
        DispatchPlan::Invoke(Builtin::Echo)
    } else if name == "cd"@ {
        DispatchPlan::Invoke(Builtin::Cd)
    } else if name == "pwd"@ {
        DispatchPlan::Invoke(Builtin::Pwd)
    } else if name == "cat"@ {
        DispatchPlan::Invoke(Builtin::Cat)
    } else if name == "mkdir"@ {
        DispatchPlan::Invoke(Builtin::Mkdir)
    } else if name == "cp"@ {
        DispatchPlan::Invoke(Builtin::Cp)
    } else if name == "rm"@ {
        DispatchPlan::Invoke(Builtin::Rm)
    } else if name == "mv"@ {
        DispatchPlan::Invoke(Builtin::Mv)
    } else if name == "clear"@ {
        DispatchPlan::Invoke(Builtin::Clear)
    } else if name == "ls"@ {
        DispatchPlan::Invoke(Builtin::Ls)
    } else {
        DispatchPlan::Unknown
    }
}

/// Map a command to the builtin the driver must run, if any.
pub fn plan_dispatch(cmd: &Command) -> (p: DispatchPlan)
    ensures
        p == spec_plan(cmd.name@),
{
    let name = cmd.name.as_str();
    if str_eq(name, "exit") {
        DispatchPlan::Exit
    } else if str_eq(name, "echo") {
        DispatchPlan::Invoke(Builtin::Echo)
    } else if str_eq(name, "cd") {
        DispatchPlan::Invoke(Builtin::Cd)
    } else if str_eq(name, "pwd") {
        DispatchPlan::Invoke(Builtin::Pwd)
    } else if str_eq(name, "cat") {
        DispatchPlan::Invoke(Builtin::Cat)
    } else if str_eq(name, "mkdir") {
        DispatchPlan::Invoke(Builtin::Mkdir)
    } else if str_eq(name, "cp") {
        DispatchPlan::Invoke(Builtin::Cp)
    } else if str_eq(name, "rm") {
        DispatchPlan::Invoke(Builtin::Rm)
    } else if str_eq(name, "mv") {
        DispatchPlan::Invoke(Builtin::Mv)
    } else if str_eq(name, "clear") {
        DispatchPlan::Invoke(Builtin::Clear)
    } else if str_eq(name, "ls") {
        DispatchPlan::Invoke(Builtin::Ls)
    } else {
        DispatchPlan::Unknown
    }
}

/// Which outcomes the driver may report for a given plan: no builtin runs
/// for Exit or Unknown, only a directory change reports a directory
/// readback, and every other builtin either fails or succeeds plainly.
pub open spec fn outcome_fits(p: DispatchPlan, o: Outcome) -> bool {
    match p {
        DispatchPlan::Exit => o is NotInvoked,
        DispatchPlan::Unknown => o is NotInvoked,
        DispatchPlan::Invoke(b) => match o {
            Outcome::NotInvoked => false,
            Outcome::Failed(_) => true,
            Outcome::Succeeded => b != Builtin::Cd,
            Outcome::CdSucceeded(_) => b == Builtin::Cd,
        },
    }
}

/// Whether the loop keeps running after a dispatch result: reported errors
/// never stop it, only a successful "do not continue" does.
pub open spec fn spec_continue(r: Result<bool, ShellError>) -> bool {
    match r {
        Ok(b) => b,
        Err(_) => true,
    }
}

/// Decide whether the loop continues after a dispatch result.
pub fn should_continue(r: &Result<bool, ShellError>) -> (c: bool)
    ensures
        c == spec_continue(*r),
{
    match r {
        Ok(b) => *b,
        Err(_) => true,
    }
}

impl Shell {
    /// A fresh shell: running, with the given working directory, or the
    /// filesystem root when none could be determined.
    pub fn new(initial_cwd: Option<String>) -> (sh: Shell)
        ensures
            sh.running == true,
            sh.cwd@ == (match initial_cwd {
                Some(d) => d@,
                None => "/"@,
            }),
    {
        let cwd = match initial_cwd {
            Some(d) => d,
            None => String::from_str("/"),
        };
        Shell { cwd, running: true }
    }

    /// The prompt shown before each line: the working directory, colorized,
    /// followed by a dollar sign.
    pub fn prompt_string(&self) -> (r: String)
        ensures
            r@ == spec_prompt(self.cwd@),
    {
        let mut r = String::new();
        r.append("\u{1b}[38;5;93m");
        r.append(self.cwd.as_str());
        r.append("$ \u{1b}[0m");
        proof {
            assert(r@ =~= spec_prompt(self.cwd@));
        }
        r
    }

    /// Classify one acquired line: end of input stops the shell (only it
    /// and the exit command clear `running`), a failed read aborts the
    /// loop with the one error it does not recover from, a line without
    /// tokens — or whose first token is the empty token — only
    /// re-prompts, and any other line is parsed into the command to
    /// dispatch.
    pub fn plan_line(&mut self, ev: LineEvent) -> (s: LoopStep)
        ensures
            ev is EndOfInput ==> (s is Terminate && final(self).running == false
                && final(self).cwd == old(self).cwd),
            !(ev is EndOfInput) ==> *final(self) == *old(self),
            ev matches LineEvent::ReadFailed(m) ==> (s matches LoopStep::Fatal(e) && e matches
                ShellError::Io { ctx, err } && ctx@ == "read_line"@ && err == m),
            ev matches LineEvent::Line(l) ==> match s {
                LoopStep::Terminate => false,
                LoopStep::Fatal(_) => false,
                LoopStep::Reprompt => spec_tokenize(spec_trim(l@)).len() == 0 || spec_tokenize(
                    spec_trim(l@),
                )[0].len() == 0,
                LoopStep::Dispatch(c) => parses_to(spec_tokenize(spec_trim(l@)), c),
            },
    {
        match ev {
            LineEvent::EndOfInput => {
                self.running = false;
                LoopStep::Terminate
            },
            LineEvent::ReadFailed(m) => LoopStep::Fatal(ShellError::io("read_line", m)),
            LineEvent::Line(l) => {
                let trimmed = trim_line(l.as_str());
                let tokens = tokenize_chars(&trimmed);
                match parse_tokens(&tokens) {
                    None => LoopStep::Reprompt,
                    Some(c) => LoopStep::Dispatch(c),
                }
            },
        }
    }

    /// Fold a builtin outcome back into the shell.
    ///
    /// `exit` stops the loop and runs nothing; an unknown name is reported
    /// as an error with the state untouched; a builtin failure is wrapped
    /// with the command name as context; and a successful directory change
    /// stores the directory the process actually has now, falling back to
    /// the root when it could not be read.
    pub fn dispatch_apply(&mut self, cmd: &Command, outcome: Outcome) -> (r: Result<
        bool,
        ShellError,
    >)
        requires
            outcome_fits(spec_plan(cmd.name@), outcome),
        ensures
            spec_plan(cmd.name@) is Exit ==> (final(self).running == false && final(self).cwd
                == old(self).cwd && r == Ok::<bool, ShellError>(false)),
            spec_plan(cmd.name@) is Unknown ==> (*final(self) == *old(self) && (r matches Err(e)
                && e matches ShellError::InvalidCommand(n) && n@ == cmd.name@)),
            outcome matches Outcome::Failed(m) ==> (*final(self) == *old(self) && (r matches Err(
                e,
            ) && e matches ShellError::Io { ctx, err } && ctx@ == cmd.name@ && err == m)),
            outcome is Succeeded ==> (*final(self) == *old(self) && r == Ok::<bool, ShellError>(
                true,
            )),
            outcome matches Outcome::CdSucceeded(d) ==> (final(self).running == old(
                self,
            ).running && r == Ok::<bool, ShellError>(true) && final(self).cwd@ == (match d {
                Some(p) => p@,
                None => "/"@,
            })),
    {
        let plan = plan_dispatch(cmd);
        match plan {
            DispatchPlan::Exit => {
                self.running = false;
                Ok(false)
            },
            DispatchPlan::Unknown => Err(ShellError::invalid_command(cmd.name.as_str())),
            DispatchPlan::Invoke(_) => match outcome {
                Outcome::NotInvoked => unreached(),
                Outcome::Failed(m) => Err(ShellError::io(cmd.name.as_str(), m)),
                Outcome::Succeeded => Ok(true),
                Outcome::CdSucceeded(d) => {
                    self.cwd = match d {
                        Some(p) => p,
                        None => String::from_str("/"),
                    };
                    Ok(true)
                },
            },
        }
    }
}

/// The prompt text for a working directory.
pub open spec fn spec_prompt(cwd: Seq<char>) -> Seq<char> {
    "\u{1b}[38;5;93m"@ + cwd + "$ \u{1b}[0m"@
}

/// A line of only spaces and tabs yields no tokens once trimmed, so the
/// loop's plan for it is only to prompt again: nothing is dispatched.
pub proof fn lemma_blank_line_reprompts(l: Seq<char>)
    requires
        forall|i: int| 0 <= i < l.len() ==> is_blank(#[trigger] l[i]),
    ensures
        spec_tokenize(spec_trim(l)).len() == 0,
{
    lemma_trim_all_ws(l);
    lemma_blank_line_has_no_tokens(spec_trim(l));
}

/// `exit` always plans termination, whatever arguments or flags the command
/// carries, and the dispatcher admits no builtin outcome for it: no
/// collaborator is ever invoked.
pub proof fn lemma_exit_ignores_arguments(c: Command)
    requires
        c.name@ == "exit"@,
    ensures
        spec_plan(c.name@) == DispatchPlan::Exit,
        forall|o: Outcome| outcome_fits(spec_plan(c.name@), o) ==> o is NotInvoked,
{
}

/// A reported error never stops the loop: the continuation decision for any
/// error result is to keep running, so after an unknown command the next
/// prompt is issued.
pub proof fn lemma_error_never_stops(e: ShellError)
    ensures
        spec_continue(Err::<bool, ShellError>(e)),
{
}

} // verus!
