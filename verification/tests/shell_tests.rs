use aish::builtins::BuiltinKind;
use aish::parser::{Redirection, RedirectionType, SimpleCommand};
use aish::shell::{
    directory_target, done_message, exit_report, interactive_line, job_announcement, script_line,
    Action, Job, PollStatus, Shell, StageInput, StageOutput, StdinSource, StdoutTarget,
};

fn pair(k: &str, v: &str) -> (String, String) {
    (k.to_string(), v.to_string())
}

fn command(words: &[&str], redirections: Vec<(RedirectionType, &str)>) -> SimpleCommand {
    SimpleCommand {
        args: words.iter().map(|w| w.to_string()).collect(),
        redirections: redirections
            .into_iter()
            .map(|(t, f)| Redirection { redir_type: t, filename: f.to_string() })
            .collect(),
    }
}

#[test]
fn new_shell_gets_defaults_for_path_and_prompt() {
    let shell = Shell::new(&vec![pair("HOME", "/home/u")]);
    assert_eq!(shell.get_env_var("HOME").map(|s| s.as_str()), Some("/home/u"));
    assert_eq!(
        shell.get_env_var("PATH").map(|s| s.as_str()),
        Some("/usr/local/bin:/usr/bin:/bin")
    );
    assert_eq!(shell.get_prompt(), "aish$ ");
    assert!(!shell.exit_requested);
    assert!(shell.background_jobs.is_empty());

    let shell = Shell::new(&vec![pair("PATH", "/bin"), pair("PS1", "> "), pair("PATH", "/opt")]);
    assert_eq!(shell.get_env_var("PATH").map(|s| s.as_str()), Some("/opt"));
    assert_eq!(shell.get_prompt(), "> ");
}

#[test]
fn variables_can_be_set_read_and_unset() {
    let mut shell = Shell::new(&vec![]);
    assert_eq!(shell.get_env_var("FOO"), None);
    shell.set_env_var("FOO".to_string(), "bar".to_string());
    assert_eq!(shell.get_env_var("FOO").map(|s| s.as_str()), Some("bar"));
    shell.unset_env_var("FOO");
    assert_eq!(shell.get_env_var("FOO"), None);
    shell.request_exit();
    assert!(shell.exit_requested);
}

#[test]
fn jobs_are_numbered_from_the_table_size() {
    let mut shell = Shell::new(&vec![]);
    let a = shell.register_job(100);
    let b = shell.register_job(200);
    assert_eq!(a, Job { display_id: 1, pid: 100 });
    assert_eq!(b, Job { display_id: 2, pid: 200 });
    assert_eq!(job_announcement(&b), "[2] 200");
    assert_eq!(shell.background_jobs, vec![a, b]);
}

#[test]
fn poll_removes_finished_jobs_and_reports_each_once() {
    let mut shell = Shell::new(&vec![]);
    shell.register_job(11);
    shell.register_job(22);
    shell.register_job(33);
    shell.register_job(44);
    let lines = shell.cleanup_background_jobs(&vec![
        PollStatus::Exited,
        PollStatus::Running,
        PollStatus::Failed,
        PollStatus::Exited,
    ]);
    assert_eq!(lines, vec!["[11] Done", "[44] Done"]);
    assert_eq!(shell.background_jobs, vec![Job { display_id: 2, pid: 22 }]);
    let lines = shell.cleanup_background_jobs(&vec![PollStatus::Running]);
    assert!(lines.is_empty());
    assert_eq!(shell.background_jobs.len(), 1);
    let next = shell.register_job(55);
    assert_eq!(next.display_id, 2);
}

#[test]
fn poll_of_one_short_lived_job() {
    let mut shell = Shell::new(&vec![]);
    shell.register_job(7);
    let lines = shell.cleanup_background_jobs(&vec![PollStatus::Exited]);
    assert_eq!(lines, vec!["[7] Done"]);
    assert!(shell.background_jobs.is_empty());
    let lines = shell.cleanup_background_jobs(&vec![]);
    assert!(lines.is_empty());
}

#[test]
fn shutdown_drains_every_job() {
    let mut shell = Shell::new(&vec![]);
    shell.register_job(1);
    shell.register_job(2);
    shell.register_job(3);
    let drained = shell.cleanup_all_jobs();
    assert_eq!(drained.iter().map(|j| j.pid).collect::<Vec<u32>>(), vec![1, 2, 3]);
    assert!(shell.background_jobs.is_empty());
    assert!(shell.cleanup_all_jobs().is_empty());
}

#[test]
fn messages_for_jobs_and_exit_codes() {
    assert_eq!(done_message(0), "[0] Done");
    assert_eq!(done_message(4_294_967_295), "[4294967295] Done");
    assert_eq!(exit_report(true, Some(0)), None);
    assert_eq!(exit_report(false, Some(2)).as_deref(), Some("Command exited with code 2"));
    assert_eq!(exit_report(false, Some(-1)).as_deref(), Some("Command exited with code -1"));
    assert_eq!(
        exit_report(false, Some(i32::MIN)).as_deref(),
        Some("Command exited with code -2147483648")
    );
    assert_eq!(exit_report(false, None).as_deref(), Some("Command terminated by signal"));
}

#[test]
fn external_command_plan_applies_redirections_last_wins() {
    let shell = Shell::new(&vec![pair("A", "1"), pair("PATH", "/bin"), pair("PS1", "$ ")]);
    let cmd = command(
        &["sort", "-r", "x"],
        vec![
            (RedirectionType::Output, "a.txt"),
            (RedirectionType::Input, "in1"),
            (RedirectionType::Append, "b.txt"),
            (RedirectionType::Input, "in2"),
        ],
    );
    let plan = shell.execute_external_command(&cmd, false);
    assert_eq!(plan.program, "sort");
    assert_eq!(plan.args, vec!["-r", "x"]);
    assert!(matches!(&plan.stdin, StdinSource::File(f) if f == "in2"));
    assert!(matches!(&plan.stdout, StdoutTarget::Append(f) if f == "b.txt"));
    assert!(!plan.background);
    assert_eq!(plan.redirections.len(), 4);
    assert_eq!(plan.redirections[0].filename, "a.txt");
    let mut env = plan.env.clone();
    env.sort();
    assert_eq!(env, vec![pair("A", "1"), pair("PATH", "/bin"), pair("PS1", "$ ")]);

    let plan = shell.execute_external_command(&cmd, true);
    assert!(matches!(plan.stdin, StdinSource::Null));
    assert!(matches!(&plan.stdout, StdoutTarget::Append(f) if f == "b.txt"));
    assert!(plan.background);

    let plain = shell.execute_external_command(&command(&["ls"], vec![]), false);
    assert!(matches!(plain.stdin, StdinSource::Inherit));
    assert!(matches!(plain.stdout, StdoutTarget::Inherit));
    assert!(plain.args.is_empty());
    let out = shell.execute_external_command(
        &command(&["ls"], vec![(RedirectionType::Append, "x"), (RedirectionType::Output, "y")]),
        false,
    );
    assert!(matches!(&out.stdout, StdoutTarget::Truncate(f) if f == "y"));
}

#[test]
fn pipeline_plan_wires_the_stages() {
    let shell = Shell::new(&vec![]);
    let stages = shell.execute_pipeline(&vec![
        command(&["a", "1"], vec![]),
        command(&["b"], vec![]),
        command(&["c", "2", "3"], vec![]),
    ]);
    assert_eq!(stages.len(), 3);
    assert_eq!(stages[0].program, "a");
    assert_eq!(stages[2].args, vec!["2", "3"]);
    assert_eq!(
        stages.iter().map(|s| (s.stdin, s.stdout)).collect::<Vec<_>>(),
        vec![
            (StageInput::Inherit, StageOutput::Piped),
            (StageInput::PreviousStage, StageOutput::Piped),
            (StageInput::PreviousStage, StageOutput::Inherit),
        ]
    );
    assert_eq!(stages[1].env.len(), 2);
    let one = shell.execute_pipeline(&vec![command(&["only"], vec![])]);
    assert_eq!((one[0].stdin, one[0].stdout), (StageInput::Inherit, StageOutput::Inherit));
}

#[test]
fn lines_are_dispatched_to_builtins_processes_and_pipelines() {
    let mut shell = Shell::new(&vec![pair("X", "42")]);
    match shell.execute_line("echo $X done").unwrap() {
        Action::Builtin(h) => {
            assert_eq!(h.kind, BuiltinKind::Echo);
            assert_eq!(h.args, vec!["42", "done"]);
        }
        other => panic!("unexpected: {:?}", other),
    }
    match shell.execute_line("export A=1 &").unwrap() {
        Action::Builtin(h) => assert_eq!(h.kind, BuiltinKind::Export),
        other => panic!("unexpected: {:?}", other),
    }
    match shell.execute_line("ls -l > out &").unwrap() {
        Action::Spawn(plan) => {
            assert_eq!(plan.program, "ls");
            assert!(plan.background);
            assert!(matches!(plan.stdin, StdinSource::Null));
        }
        other => panic!("unexpected: {:?}", other),
    }
    match shell.execute_line("echo a | cat").unwrap() {
        Action::Pipeline(stages) => {
            assert_eq!(stages.len(), 2);
            assert_eq!(stages[0].program, "echo");
        }
        other => panic!("unexpected: {:?}", other),
    }
    assert_eq!(shell.execute_line("   ").unwrap_err(), "Parse error: Empty command");
    assert_eq!(
        shell.execute_line("cat <").unwrap_err(),
        "Parse error: Missing filename for redirection"
    );
    assert_eq!(
        shell.execute_line("a | b &").unwrap_err(),
        "Parse error: Invalid syntax: Background pipelines not supported"
    );
    let empty = SimpleCommand { args: vec![], redirections: vec![] };
    assert!(matches!(shell.execute_simple_command(&empty, false), Action::Nothing));
}

#[test]
fn cd_targets() {
    assert_eq!(directory_target("", Some("/home/u")), "/home/u");
    assert_eq!(directory_target("~", Some("/home/u")), "/home/u");
    assert_eq!(directory_target("~/src/x", Some("/home/u")), "/home/u/src/x");
    assert_eq!(directory_target("~/", Some("/home/u")), "/home/u/");
    assert_eq!(directory_target("~x", Some("/home/u")), "~x");
    assert_eq!(directory_target("/tmp", Some("/home/u")), "/tmp");
    assert_eq!(directory_target("", None), "/");
    assert_eq!(directory_target("~/a", None), "//a");
}

#[test]
fn script_and_prompt_lines() {
    assert_eq!(script_line("  ls -l  ").as_deref(), Some("ls -l"));
    assert_eq!(script_line("# comment"), None);
    assert_eq!(script_line("   # indented comment"), None);
    assert_eq!(script_line(""), None);
    assert_eq!(script_line(" \t "), None);
    assert_eq!(script_line("echo # not a comment").as_deref(), Some("echo # not a comment"));
    assert_eq!(interactive_line(" # x ").as_deref(), Some("# x"));
    assert_eq!(interactive_line("   "), None);
}
