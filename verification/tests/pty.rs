//! Launching the shell.

use shelvd::pty::{integration_kind, plan_integration, plan_launch, reader_step, resolve_shell, PtyOptions, ReadEvent, ReaderStep, ShellKind};

#[test]
fn detects_shell_kind_from_path() {
    assert_eq!(ShellKind::detect("/bin/bash"), ShellKind::Bash);
    assert_eq!(ShellKind::detect("/usr/bin/zsh"), ShellKind::Zsh);
    assert_eq!(ShellKind::detect("/usr/local/bin/fish"), ShellKind::Fish);
    assert_eq!(ShellKind::detect("-bash"), ShellKind::Bash); // login-shell argv0
    assert_eq!(ShellKind::detect("/bin/sh"), ShellKind::Other);
    assert_eq!(ShellKind::detect(""), ShellKind::Other);
}

#[test]
fn integration_writes_bash_rcfile() {
    let plan = plan_integration(ShellKind::Bash, "/tmp/shelvd-1", "/home/u", "__shelvd_prompt() { :; }\n").unwrap();
    assert_eq!(plan.files.len(), 1);
    assert_eq!(plan.files[0].name, "init.bash");
    let body = &plan.files[0].body;
    assert!(body.contains("source \"$HOME/.bashrc\""));
    assert!(body.contains("__shelvd_prompt"), "embeds the integration script");
    assert_eq!(plan.args, ["--rcfile", "/tmp/shelvd-1/init.bash", "-i"]);
    assert!(plan.env.is_empty());
}

#[test]
fn unknown_shell_is_not_injected() {
    assert!(plan_integration(ShellKind::Other, "/tmp/shelvd-1", "/home/u", "x").is_none());
}

#[test]
fn shell_comes_from_the_config_or_the_environment() {
    let s = |t: &str| Some(t.to_owned());
    assert_eq!(resolve_shell(&s("/bin/zsh"), s("/bin/bash")), s("/bin/zsh"));
    assert_eq!(resolve_shell(&None, s("/bin/bash")), s("/bin/bash"));
    assert_eq!(resolve_shell(&None, None), None);
    assert_eq!(resolve_shell(&s("  "), s("/bin/bash")), None, "blank means the default");
}

#[test]
fn detection_goes_by_the_last_name() {
    assert_eq!(ShellKind::detect("/bin/bash/"), ShellKind::Bash);
    assert_eq!(ShellKind::detect("/opt/--zsh"), ShellKind::Zsh);
    assert_eq!(ShellKind::detect("fish"), ShellKind::Fish);
    assert_eq!(ShellKind::detect("/bin/bash5"), ShellKind::Other);
    assert_eq!(ShellKind::detect("/"), ShellKind::Other);
}

#[test]
fn integration_is_for_plain_interactive_shells() {
    let shell = Some("/bin/bash".to_owned());
    let mut opts = PtyOptions::default();
    assert_eq!(integration_kind(&opts, &shell), ShellKind::Bash);
    assert_eq!(integration_kind(&opts, &None), ShellKind::Other);
    opts.args = vec!["-c".to_owned()];
    assert_eq!(integration_kind(&opts, &shell), ShellKind::Other);
    opts.args.clear();
    opts.shell_integration = false;
    assert_eq!(integration_kind(&opts, &shell), ShellKind::Other);
}

#[test]
fn zsh_and_fish_have_plans() {
    let p = plan_integration(ShellKind::Fish, "/tmp/d", "/home/u", "S").unwrap();
    assert_eq!(p.args, ["-C", "source /tmp/d/shelvd.fish"]);
    let slash = plan_integration(ShellKind::Fish, "/tmp/d/", "/home/u", "S").unwrap();
    assert_eq!(slash.args, p.args);
    assert_eq!((p.files[0].name.as_str(), p.files[0].body.as_str()), ("shelvd.fish", "S"));
    let p = plan_integration(ShellKind::Zsh, "/tmp/d", "/home/u", "S").unwrap();
    assert_eq!(p.files.iter().map(|f| f.name.as_str()).collect::<Vec<_>>(), [".zshenv", ".zshrc"]);
    assert!(p.files[1].body.ends_with("S"));
    assert!(p.args.is_empty());
    assert_eq!(p.env, [
        ("SHELVD_USER_ZDOTDIR".to_owned(), "/home/u".to_owned()),
        ("ZDOTDIR".to_owned(), "/tmp/d".to_owned()),
    ]);
}

#[test]
fn launch_puts_the_callers_variables_last() {
    let mut opts = PtyOptions::default();
    opts.cwd = Some("/w".to_owned());
    opts.env = vec![("TERM".to_owned(), "dumb".to_owned())];
    let plan = plan_integration(ShellKind::Zsh, "/tmp/d", "/home/u", "S");
    let l = plan_launch(&opts, Some("/bin/zsh".to_owned()), plan);
    assert_eq!(l.program.as_deref(), Some("/bin/zsh"));
    assert_eq!(l.cwd.as_deref(), Some("/w"));
    let keys: Vec<&str> = l.env.iter().map(|e| e.0.as_str()).collect();
    assert_eq!(keys, ["TERM", "COLORTERM", "TERM_PROGRAM", "SHELVD_USER_ZDOTDIR", "ZDOTDIR", "TERM"]);
    assert_eq!(l.env.last().unwrap().1, "dumb");
    let plan = plan_integration(ShellKind::Bash, "/tmp/d", "", "S");
    let l = plan_launch(&PtyOptions::default(), None, plan);
    assert_eq!(l.args, ["--rcfile", "/tmp/d/init.bash", "-i"]);
    assert_eq!(l.env.len(), 3);
}

#[test]
fn reader_ends_on_an_empty_read() {
    assert_eq!(reader_step(ReadEvent::Bytes(8)), ReaderStep::Forward);
    assert_eq!(reader_step(ReadEvent::Bytes(0)), ReaderStep::Finish);
    assert_eq!(reader_step(ReadEvent::Interrupted), ReaderStep::Again);
    assert_eq!(reader_step(ReadEvent::Failed), ReaderStep::Finish);
}
