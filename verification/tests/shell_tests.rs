use zero_shell::command::parse_command;
use zero_shell::error::ShellError;
use zero_shell::shell::{
    plan_dispatch, should_continue, Builtin, DispatchPlan, LineEvent, LoopStep, Outcome, Shell,
};

fn shell_at(cwd: &str) -> Shell {
    Shell::new(Some(cwd.to_string()))
}

#[test]
fn new_shell_is_running_with_given_directory() {
    let sh = shell_at("/somewhere");
    assert!(sh.running);
    assert_eq!(sh.cwd, "/somewhere");
    let fallback = Shell::new(None);
    assert_eq!(fallback.cwd, "/");
}

#[test]
fn every_builtin_name_is_recognized() {
    let cases = [
        ("echo", Builtin::Echo),
        ("cd", Builtin::Cd),
        ("pwd", Builtin::Pwd),
        ("cat", Builtin::Cat),
        ("mkdir", Builtin::Mkdir),
        ("cp", Builtin::Cp),
        ("rm", Builtin::Rm),
        ("mv", Builtin::Mv),
        ("clear", Builtin::Clear),
        ("ls", Builtin::Ls),
    ];
    for (name, b) in cases {
        let cmd = parse_command(name).unwrap();
        assert_eq!(plan_dispatch(&cmd), DispatchPlan::Invoke(b), "{}", name);
    }
}

#[test]
fn exit_plans_termination_even_with_arguments() {
    for line in ["exit", "exit now", "exit 1 2 3", "exit -f"] {
        let cmd = parse_command(line).unwrap();
        assert_eq!(plan_dispatch(&cmd), DispatchPlan::Exit, "{}", line);
    }
}

#[test]
fn exit_stops_the_shell_without_any_builtin() {
    let mut sh = shell_at("/w");
    let cmd = parse_command("exit whatever").unwrap();
    let r = sh.dispatch_apply(&cmd, Outcome::NotInvoked);
    assert_eq!(r.unwrap(), false);
    assert!(!sh.running);
    assert_eq!(sh.cwd, "/w");
}

#[test]
fn unknown_command_reports_and_continues() {
    let mut sh = shell_at("/w");
    let cmd = parse_command("frobnicate a b").unwrap();
    let r = sh.dispatch_apply(&cmd, Outcome::NotInvoked);
    match &r {
        Err(ShellError::InvalidCommand(n)) => assert_eq!(n, "frobnicate"),
        other => panic!("expected InvalidCommand, got {:?} variant", other.is_ok()),
    }
    assert!(sh.running);
    assert_eq!(sh.cwd, "/w");
    assert!(should_continue(&r));
}

#[test]
fn builtin_failure_is_wrapped_with_command_context() {
    let mut sh = shell_at("/w");
    let cmd = parse_command("ls /nope").unwrap();
    let r = sh.dispatch_apply(&cmd, Outcome::Failed("no such directory".to_string()));
    match &r {
        Err(ShellError::Io { ctx, err }) => {
            assert_eq!(ctx, "ls");
            assert_eq!(err, "no such directory");
        },
        _ => panic!("expected Io error"),
    }
    assert!(sh.running);
    assert!(should_continue(&r));
}

#[test]
fn builtin_success_continues_unchanged() {
    let mut sh = shell_at("/w");
    let cmd = parse_command("echo hi").unwrap();
    let r = sh.dispatch_apply(&cmd, Outcome::Succeeded);
    assert_eq!(r.unwrap(), true);
    assert!(sh.running);
    assert_eq!(sh.cwd, "/w");
}

#[test]
fn cd_success_stores_the_directory_read_back() {
    let mut sh = shell_at("/w");
    let cmd = parse_command("cd sub").unwrap();
    // the stored value is the process's actual directory as read back, not
    // the literal argument
    let r = sh.dispatch_apply(&cmd, Outcome::CdSucceeded(Some("/w/resolved".to_string())));
    assert_eq!(r.unwrap(), true);
    assert_eq!(sh.cwd, "/w/resolved");
    assert!(sh.running);
}

#[test]
fn cd_success_without_readback_falls_back_to_root() {
    let mut sh = shell_at("/w");
    let cmd = parse_command("cd sub").unwrap();
    let r = sh.dispatch_apply(&cmd, Outcome::CdSucceeded(None));
    assert_eq!(r.unwrap(), true);
    assert_eq!(sh.cwd, "/");
}

#[test]
fn end_of_input_terminates_the_loop() {
    let mut sh = shell_at("/w");
    let step = sh.plan_line(LineEvent::EndOfInput);
    assert!(matches!(step, LoopStep::Terminate));
    // only the exit command and end of input clear the running flag
    assert!(!sh.running);
    assert_eq!(sh.cwd, "/w");
}

#[test]
fn failed_read_is_fatal() {
    let mut sh = shell_at("/w");
    let step = sh.plan_line(LineEvent::ReadFailed("bad descriptor".to_string()));
    match step {
        LoopStep::Fatal(ShellError::Io { ctx, err }) => {
            assert_eq!(ctx, "read_line");
            assert_eq!(err, "bad descriptor");
        },
        _ => panic!("expected a fatal read error"),
    }
    // a read failure aborts by propagation, not by the running flag
    assert!(sh.running);
}

#[test]
fn blank_line_only_reprompts() {
    let mut sh = shell_at("/w");
    for line in ["", "   ", "\t \t", "  \n"] {
        let step = sh.plan_line(LineEvent::Line(line.to_string()));
        assert!(matches!(step, LoopStep::Reprompt), "line {:?}", line);
        assert!(sh.running);
    }
}

#[test]
fn empty_name_line_only_reprompts() {
    // a leading empty-quote token would make an empty command name, which
    // no command ever has; the line is skipped like a blank one
    let mut sh = shell_at("/w");
    for line in ["\"\"", "\"\" a b", "  \"\" -l"] {
        let step = sh.plan_line(LineEvent::Line(line.to_string()));
        assert!(matches!(step, LoopStep::Reprompt), "line {:?}", line);
    }
}

#[test]
fn nonblank_line_is_dispatched_after_trimming() {
    let mut sh = shell_at("/w");
    let step = sh.plan_line(LineEvent::Line("  echo hi  \n".to_string()));
    match step {
        LoopStep::Dispatch(cmd) => {
            assert_eq!(cmd.name, "echo");
            assert_eq!(cmd.args, vec!["hi"]);
        },
        _ => panic!("expected a dispatch"),
    }
}

#[test]
fn prompt_shows_the_working_directory() {
    let sh = shell_at("/home/someone");
    let p = sh.prompt_string();
    assert!(p.contains("/home/someone"));
    assert!(p.contains("$ "));
}

#[test]
fn error_messages_render_one_line_diagnostics() {
    assert_eq!(
        ShellError::io("cd", "No such directory".to_string()).message(),
        "error: cd: No such directory"
    );
    assert_eq!(ShellError::usage("mkdir <dir>").message(), "usage: mkdir <dir>");
    assert_eq!(
        ShellError::invalid_command("frob").message(),
        "Command 'frob' not found"
    );
    assert_eq!(ShellError::other("boom").message(), "error: boom");
}
