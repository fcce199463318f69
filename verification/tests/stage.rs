use cmd_lib::dir::DirProbe;
use cmd_lib::error::ErrorKind;
use cmd_lib::redirect::{PipeEnd, Redirect, Stdio};
use cmd_lib::registry::Registry;
use cmd_lib::stage::{bracketed, Cmd, Launch, Resolution, CD_CMD, IGNORE_CMD};

fn no_builtins() -> Registry<u8> {
    Registry::new()
}

fn with_builtin(name: &str) -> Registry<u8> {
    let mut registry = Registry::new();
    registry.insert(name, 1);
    registry
}

fn argv(cmd: &Cmd) -> Vec<String> {
    cmd.gen_command().1
}

#[test]
fn reserved_names() {
    assert_eq!(CD_CMD, "cd");
    assert_eq!(IGNORE_CMD, "ignore");
}

#[test]
fn default_stage_is_empty() {
    let cmd = Cmd::default();
    assert_eq!(cmd.arg0(), "");
    assert_eq!(cmd.resolve(), Resolution::Empty);
    assert_eq!(cmd.gen_command(), (false, vec![]));
    assert!(cmd.vars().is_empty());
    assert!(cmd.redirects().is_empty());
    assert_eq!(cmd.creation_flags(), None);
    assert_eq!(cmd.cmd_str(), "[]");
}

#[test]
fn tokens_are_kept_in_order() {
    let cmd = Cmd::default().add_args(&["echo", "rust", "-n"], &no_builtins());
    assert_eq!(cmd.arg0(), "echo");
    assert_eq!(argv(&cmd), vec!["echo", "rust", "-n"]);
    assert_eq!(cmd.resolve(), Resolution::Process);
    assert!(!cmd.in_cmd_map());
}

#[test]
fn add_args_is_add_arg_in_turn() {
    let registry = with_builtin("b");
    let one = Cmd::default().add_args(&["A=1", "ignore", "b", "c=d"], &registry);
    let other = Cmd::default()
        .add_arg("A=1", &registry)
        .add_arg("ignore", &registry)
        .add_arg("b", &registry)
        .add_arg("c=d", &registry);
    assert_eq!(one.cmd_str(), other.cmd_str());
    assert_eq!(one.gen_command(), other.gen_command());
    assert_eq!(one.in_cmd_map(), other.in_cmd_map());
}

#[test]
fn leading_assignments_become_variable_overrides() {
    let cmd = Cmd::default().add_args(&["FOO=bar", "BAZ=1", "env"], &no_builtins());
    assert_eq!(argv(&cmd), vec!["env"]);
    assert_eq!(cmd.vars().len(), 2);
    assert_eq!(cmd.vars().get("FOO"), Some(&"bar".to_string()));
    assert_eq!(cmd.vars().get("BAZ"), Some(&"1".to_string()));
}

#[test]
fn a_later_assignment_of_the_same_name_wins() {
    let cmd = Cmd::default().add_args(&["A=1", "A=2", "env"], &no_builtins());
    assert_eq!(cmd.vars().len(), 1);
    assert_eq!(cmd.vars().get("A"), Some(&"2".to_string()));
}

#[test]
fn assignment_after_the_name_is_an_argument() {
    let cmd = Cmd::default().add_args(&["env", "FOO=bar"], &no_builtins());
    assert_eq!(argv(&cmd), vec!["env", "FOO=bar"]);
    assert!(cmd.vars().is_empty());
}

#[test]
fn token_with_two_equals_signs_is_the_name() {
    let cmd = Cmd::default().add_args(&["a=b=c", "x"], &no_builtins());
    assert_eq!(cmd.arg0(), "a=b=c");
    assert!(cmd.vars().is_empty());
}

#[test]
fn ignore_token_is_kept_but_is_not_the_name() {
    let cmd = Cmd::default().add_args(&["ignore", "false"], &no_builtins());
    assert_eq!(cmd.arg0(), "false");
    assert_eq!(cmd.gen_command(), (true, vec!["false".to_string()]));
}

#[test]
fn ignore_and_assignments_may_alternate_before_the_name() {
    let cmd = Cmd::default().add_args(&["A=1", "ignore", "B=2", "ignore", "ls", "-l"], &no_builtins());
    assert_eq!(cmd.gen_command(), (true, vec!["ls".to_string(), "-l".to_string()]));
    assert_eq!(cmd.vars().len(), 2);
}

#[test]
fn ignore_after_the_name_is_an_argument() {
    let cmd = Cmd::default().add_args(&["echo", "ignore"], &no_builtins());
    assert_eq!(cmd.gen_command(), (false, vec!["echo".to_string(), "ignore".to_string()]));
}

#[test]
fn stage_of_modifiers_only_has_no_command() {
    let cmd = Cmd::default().add_args(&["ignore", "A=1", "ignore"], &no_builtins());
    assert_eq!(cmd.arg0(), "");
    assert_eq!(cmd.resolve(), Resolution::Empty);
    assert_eq!(cmd.gen_command(), (true, vec![]));
}

#[test]
fn empty_token_can_be_the_name() {
    let cmd = Cmd::default().add_args(&["", "x"], &no_builtins());
    assert_eq!(argv(&cmd), vec!["", "x"]);
    assert_eq!(cmd.resolve(), Resolution::Process);
}

#[test]
fn registered_name_resolves_to_the_builtin() {
    let cmd = Cmd::default().add_args(&["my_echo", "x"], &with_builtin("my_echo"));
    assert!(cmd.in_cmd_map());
    assert_eq!(cmd.resolve(), Resolution::Builtin);
}

#[test]
fn only_the_name_is_looked_up() {
    let cmd = Cmd::default().add_args(&["ls", "my_echo"], &with_builtin("my_echo"));
    assert!(!cmd.in_cmd_map());
    assert_eq!(cmd.resolve(), Resolution::Process);
}

#[test]
fn resolution_is_a_snapshot_of_the_registry() {
    let mut registry: Registry<u8> = Registry::new();
    let early = Cmd::default().add_arg("late_cmd", &registry);
    registry.insert("late_cmd", 1);
    let early = early.add_arg("argument", &registry).add_arg("late_cmd", &registry);
    assert!(!early.in_cmd_map());
    assert_eq!(early.resolve(), Resolution::Process);
    let late = Cmd::default().add_arg("late_cmd", &registry);
    assert_eq!(late.resolve(), Resolution::Builtin);
}

#[test]
fn resolution_made_with_a_full_registry_stays_when_an_empty_one_is_shown() {
    let cmd = Cmd::default().add_arg("b", &with_builtin("b")).add_arg("x", &no_builtins());
    assert_eq!(cmd.resolve(), Resolution::Builtin);
}

#[test]
fn cd_wins_over_the_registry() {
    let cmd = Cmd::default().add_args(&["cd", "/tmp"], &with_builtin("cd"));
    assert_eq!(cmd.resolve(), Resolution::ChangeDir);
    let cmd = Cmd::default().add_args(&["ignore", "cd", "/tmp"], &no_builtins());
    assert_eq!(cmd.resolve(), Resolution::ChangeDir);
}

#[test]
fn builtin_runs_inline_only_alone_and_uncollected() {
    let cmd = Cmd::default().add_arg("b", &with_builtin("b"));
    assert_eq!(cmd.launch(true, false), Some(Launch::Inline));
    assert_eq!(cmd.launch(true, true), Some(Launch::Thread));
    assert_eq!(cmd.launch(false, false), Some(Launch::Thread));
    assert_eq!(cmd.launch(false, true), Some(Launch::Thread));
}

#[test]
fn executable_runs_as_a_process() {
    let cmd = Cmd::default().add_arg("ls", &no_builtins());
    for sole in [true, false] {
        for with_output in [true, false] {
            assert_eq!(cmd.launch(sole, with_output), Some(Launch::Process));
        }
    }
}

#[test]
fn nothing_is_started_for_a_change_of_directory() {
    for registry in [no_builtins(), with_builtin("cd")] {
        let cmd = Cmd::default().add_args(&["cd", "/tmp"], &registry);
        for sole in [true, false] {
            for with_output in [true, false] {
                assert_eq!(cmd.launch(sole, with_output), None);
            }
        }
    }
    assert_eq!(Cmd::default().launch(true, false), None);
    assert_eq!(Cmd::default().add_arg("ignore", &no_builtins()).launch(true, false), None);
}

#[test]
fn spawning_a_change_of_directory_changes_it_at_once() {
    let cmd = Cmd::default().add_args(&["cd", "tmp"], &with_builtin("cd"));
    let mut dir = "/".to_string();
    assert_eq!(cmd.spawn(&mut dir, DirProbe::Accessible, true, false).unwrap(), None);
    assert_eq!(dir, "/tmp");
    assert_eq!(cmd.spawn(&mut dir, DirProbe::Accessible, false, true).unwrap(), None);
    assert_eq!(dir, "/tmp/tmp");
}

#[test]
fn spawning_a_change_to_a_missing_directory_fails() {
    let cmd = Cmd::default().add_args(&["cd", "/bad_dir"], &no_builtins());
    let mut dir = "/".to_string();
    let e = cmd.spawn(&mut dir, DirProbe::Missing, true, false).unwrap_err();
    assert_eq!(e.kind, ErrorKind::DirectoryChange);
    assert_eq!(e.message, "cd /bad_dir: No such file or directory");
    assert_eq!(dir, "/");
}

#[test]
fn spawning_ignore_cd_misses_its_directory() {
    let cmd = Cmd::default().add_args(&["ignore", "cd"], &no_builtins());
    let mut dir = "/".to_string();
    let e = cmd.spawn(&mut dir, DirProbe::Accessible, true, false).unwrap_err();
    assert_eq!(e.kind, ErrorKind::DirectoryChange);
    assert!(e.message.contains("missing directory"));
    assert_eq!(dir, "/");
}

#[test]
fn spawning_cd_with_two_directories_fails() {
    let cmd = Cmd::default().add_args(&["cd", "a", "b"], &no_builtins());
    let mut dir = "/".to_string();
    let e = cmd.spawn(&mut dir, DirProbe::Accessible, true, false).unwrap_err();
    assert!(e.message.contains("too many arguments"));
    assert_eq!(dir, "/");
}

#[test]
fn spawning_a_stage_without_a_command_is_a_build_error() {
    let mut dir = "/here".to_string();
    for cmd in [Cmd::default(), Cmd::default().add_args(&["ignore", "A=1"], &no_builtins())] {
        let e = cmd.spawn(&mut dir, DirProbe::Accessible, true, false).unwrap_err();
        assert_eq!(e.kind, ErrorKind::Build);
        assert_eq!(e.message, "empty command");
        assert_eq!(dir, "/here");
    }
}

#[test]
fn spawning_any_other_stage_says_how_to_start_it() {
    let mut dir = "/here".to_string();
    let cmd = Cmd::default().add_args(&["ls", "-l"], &no_builtins());
    for probe in [DirProbe::Missing, DirProbe::Accessible] {
        assert_eq!(cmd.spawn(&mut dir, probe, true, false).unwrap(), Some(Launch::Process));
    }
    let cmd = Cmd::default().add_arg("b", &with_builtin("b"));
    assert_eq!(cmd.spawn(&mut dir, DirProbe::Missing, true, false).unwrap(), Some(Launch::Inline));
    assert_eq!(cmd.spawn(&mut dir, DirProbe::Missing, false, false).unwrap(), Some(Launch::Thread));
    assert_eq!(cmd.spawn(&mut dir, DirProbe::Missing, true, true).unwrap(), Some(Launch::Thread));
    assert_eq!(dir, "/here");
}

#[test]
fn diagnostic_text_of_tokens() {
    let cmd = Cmd::default().add_args(&["echo", "rust"], &no_builtins());
    assert_eq!(cmd.cmd_str(), "[\"echo\", \"rust\"]");
}

#[test]
fn diagnostic_text_quotes_as_debug_does() {
    let cmd = Cmd::default().add_args(&["echo", "a \"b\"\n", "tab\t"], &no_builtins());
    assert_eq!(cmd.cmd_str(), "[\"echo\", \"a \\\"b\\\"\\n\", \"tab\\t\"]");
    let tokens = vec!["echo".to_string(), "a \"b\"\n".to_string(), "tab\t".to_string()];
    assert_eq!(cmd.cmd_str(), format!("{:?}", tokens));
}

#[test]
fn diagnostic_text_with_variables() {
    let cmd = Cmd::default().add_args(&["A=1", "B=x y", "env"], &no_builtins());
    assert_eq!(cmd.cmd_str(), "[\"env\"]({\"A\": \"1\", \"B\": \"x y\"})");
}

#[test]
fn diagnostic_text_with_redirects() {
    let cmd = Cmd::default()
        .add_args(&["ls"], &no_builtins())
        .add_redirect(Redirect::StdoutToFile("/tmp/f".to_string(), false))
        .add_redirect(Redirect::StderrToStdout);
    assert_eq!(cmd.cmd_str(), "[\"ls\"]([1> /tmp/f, 2>&1])");
}

#[test]
fn diagnostic_text_with_variables_and_redirects() {
    let cmd = Cmd::default()
        .add_args(&["ignore", "A=1", "ls"], &no_builtins())
        .add_redirect(Redirect::FileToStdin("in".to_string()));
    assert_eq!(cmd.cmd_str(), "[\"ignore\", \"ls\"]({\"A\": \"1\"}, [< in])");
}

#[test]
fn redirects_are_kept_in_declared_order() {
    let cmd = Cmd::default()
        .add_redirect(Redirect::StdoutToStderr)
        .add_arg("ls", &no_builtins())
        .add_redirect(Redirect::StderrToFile("e".to_string(), true));
    let shown: Vec<String> = cmd.redirects().iter().map(|r| r.describe()).collect();
    assert_eq!(shown, vec![">&2", "2>> e"]);
    let w = cmd.setup_redirects(false, false, false);
    assert_eq!(w.stdout, Stdio::Pipe(PipeEnd::Log));
    assert_eq!(w.stderr, Stdio::File(1));
}

#[test]
fn creation_flags_are_carried() {
    let cmd = Cmd::default().add_arg("x", &no_builtins()).add_creation_flags(0x08000000);
    assert_eq!(cmd.creation_flags(), Some(0x08000000));
    let cmd = cmd.add_creation_flags(1);
    assert_eq!(cmd.creation_flags(), Some(1));
    assert_eq!(cmd.arg0(), "x");
}

#[test]
fn cd_without_a_directory_is_refused() {
    let cmd = Cmd::default().add_args(&["cd"], &no_builtins());
    let e = cmd.cd_target("/tmp").unwrap_err();
    assert_eq!(e.kind, ErrorKind::DirectoryChange);
    assert_eq!(e.message, "cd: missing directory");
}

#[test]
fn cd_with_two_directories_is_refused() {
    let cmd = Cmd::default().add_args(&["cd", "a", "b"], &no_builtins());
    let e = cmd.cd_target("/tmp").unwrap_err();
    assert_eq!(e.kind, ErrorKind::DirectoryChange);
    assert_eq!(e.message, "cd: too many arguments: [\"cd\", \"a\", \"b\"]");
    let cmd = Cmd::default().add_args(&["cd", "a", "b", "c"], &no_builtins());
    assert!(cmd.cd_target("").unwrap_err().message.starts_with("cd: too many arguments"));
}

#[test]
fn cd_target_is_joined_to_the_working_directory() {
    let cmd = Cmd::default().add_args(&["cd", "sub"], &no_builtins());
    assert_eq!(cmd.cd_target("/tmp").unwrap(), "/tmp/sub");
    assert_eq!(cmd.cd_target("").unwrap(), "sub");
    let cmd = Cmd::default().add_args(&["cd", "/abs"], &no_builtins());
    assert_eq!(cmd.cd_target("/tmp").unwrap(), "/abs");
}

#[test]
fn cd_counts_what_follows_the_name_not_the_ignore_token() {
    let cmd = Cmd::default().add_args(&["ignore", "cd", "sub"], &no_builtins());
    assert_eq!(cmd.cd_target("/tmp").unwrap(), "/tmp/sub");
    let cmd = Cmd::default().add_args(&["ignore", "cd"], &no_builtins());
    assert_eq!(cmd.cd_target("/tmp").unwrap_err().message, "cd: missing directory");
}

#[test]
fn cd_to_a_directory_that_is_there_changes_the_working_directory() {
    let cmd = Cmd::default().add_args(&["cd", "sub"], &no_builtins());
    let mut dir = "/tmp".to_string();
    assert!(cmd.run_cd_cmd(&mut dir, DirProbe::Accessible).is_ok());
    assert_eq!(dir, "/tmp/sub");
    assert!(cmd.run_cd_cmd(&mut dir, DirProbe::Accessible).is_ok());
    assert_eq!(dir, "/tmp/sub/sub");
}

#[test]
fn cd_to_a_missing_directory_fails_and_changes_nothing() {
    let cmd = Cmd::default().add_args(&["cd", "/bad_dir"], &no_builtins());
    let mut dir = "/tmp".to_string();
    let e = cmd.run_cd_cmd(&mut dir, DirProbe::Missing).unwrap_err();
    assert_eq!(e.kind, ErrorKind::DirectoryChange);
    assert_eq!(e.message, "cd /bad_dir: No such file or directory");
    assert_eq!(dir, "/tmp");
}

#[test]
fn cd_to_a_directory_that_may_not_be_traversed_fails() {
    let cmd = Cmd::default().add_args(&["cd", "locked"], &no_builtins());
    let mut dir = "/tmp".to_string();
    let e = cmd
        .run_cd_cmd(&mut dir, DirProbe::Denied("Permission denied (os error 13)".to_string()))
        .unwrap_err();
    assert_eq!(e.kind, ErrorKind::DirectoryChange);
    assert_eq!(e.message, "Permission denied (os error 13)");
    assert_eq!(dir, "/tmp");
}

#[test]
fn malformed_cd_fails_whatever_the_driver_found() {
    let cmd = Cmd::default().add_args(&["cd"], &no_builtins());
    let mut dir = "/tmp".to_string();
    let e = cmd.run_cd_cmd(&mut dir, DirProbe::Accessible).unwrap_err();
    assert_eq!(e.message, "cd: missing directory");
    assert_eq!(dir, "/tmp");
}

#[test]
fn execution_context_holds_the_resolved_command() {
    let cmd = Cmd::default().add_args(&["ignore", "K=v", "b", "x", "y"], &with_builtin("b"));
    let mut env = cmd.env("/work", "input".to_string(), String::new(), String::new());
    assert_eq!(env.args(), ["b", "x", "y"]);
    assert_eq!(env.var("K"), Some(&"v".to_string()));
    assert_eq!(env.var("L"), None);
    assert_eq!(env.current_dir(), "/work");
    assert_eq!(env.stdin(), "input");
    env.stdout().push_str("out");
    env.stderr().push_str("err");
    env.stdout().push_str("put");
    assert_eq!(env.stdout(), "output");
    assert_eq!(env.stderr(), "err");
    assert_eq!(env.args(), ["b", "x", "y"]);
}

#[test]
fn items_between_brackets() {
    let items = vec!["\"a\"".to_string(), "\"b c\"".to_string()];
    assert_eq!(bracketed("[", &items, "]"), "[\"a\", \"b c\"]");
    assert_eq!(bracketed("{", &vec![], "}"), "{}");
    assert_eq!(bracketed("<", &vec!["x".to_string()], ">"), "<x>");
}
