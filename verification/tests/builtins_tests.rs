use aish::builtins::{
    located_message, parse_i32, path_candidates, BuiltinKind, Builtins, Effect, Handler,
};
use aish::shell::Shell;

fn strings(words: &[&str]) -> Vec<String> {
    words.iter().map(|w| w.to_string()).collect()
}

fn run(shell: &mut Shell, kind: BuiltinKind, words: &[&str]) -> Vec<String> {
    let handler = Handler { kind, args: strings(words) };
    handler.call(shell).iter().map(|e| format!("{:?}", e)).collect()
}

#[test]
fn registry_knows_the_ten_builtins() {
    let names = ["exit", "cd", "pwd", "echo", "export", "unset", "env", "type", "help", "history"];
    let kinds = [
        BuiltinKind::Exit,
        BuiltinKind::Cd,
        BuiltinKind::Pwd,
        BuiltinKind::Echo,
        BuiltinKind::Export,
        BuiltinKind::Unset,
        BuiltinKind::Env,
        BuiltinKind::Type,
        BuiltinKind::Help,
        BuiltinKind::History,
    ];
    let registry = Builtins::new();
    for (name, kind) in names.iter().zip(kinds.iter()) {
        assert!(Builtins::is_builtin(name));
        let handler = registry.execute(name, &strings(&["a", "b"])).unwrap();
        assert_eq!(handler.kind, *kind);
        assert_eq!(handler.args, vec!["a", "b"]);
    }
    for name in ["", "ls", "Exit", "echo ", "exi", "exits"] {
        assert!(!Builtins::is_builtin(name));
        assert!(registry.execute(name, &[]).is_none());
    }
}

#[test]
fn escape_sequences() {
    assert_eq!(Builtins::interpret_escape_sequences("a\\nb"), "a\nb");
    assert_eq!(Builtins::interpret_escape_sequences("\\t\\r\\\\\\\"\\'"), "\t\r\\\"'");
    assert_eq!(Builtins::interpret_escape_sequences("x\\qy"), "x\\qy");
    assert_eq!(Builtins::interpret_escape_sequences("end\\"), "end\\");
    assert_eq!(Builtins::interpret_escape_sequences("plain"), "plain");
    assert_eq!(Builtins::interpret_escape_sequences(""), "");
    assert_eq!(Builtins::interpret_escape_sequences("\\\\n"), "\\n");
}

#[test]
fn integers_are_read_as_the_standard_library_reads_them() {
    for text in [
        "0", "7", "-7", "+7", "007", "2147483647", "-2147483648", "2147483648", "-2147483649",
        "99999999999999999999", "", "-", "+", "1a", "a1", " 1", "1 ", "--1", "+-1", "1_0", "٣",
    ] {
        assert_eq!(parse_i32(text), text.parse::<i32>().ok(), "for {:?}", text);
    }
}

#[test]
fn exit_sets_the_flag_and_ends_the_process_for_a_code() {
    let mut shell = Shell::new(&vec![]);
    assert!(run(&mut shell, BuiltinKind::Exit, &[]).is_empty());
    assert!(shell.exit_requested);
    let mut shell = Shell::new(&vec![]);
    assert!(run(&mut shell, BuiltinKind::Exit, &["0"]).is_empty());
    assert_eq!(run(&mut shell, BuiltinKind::Exit, &["3"]), vec!["ExitProcess(3)"]);
    assert_eq!(run(&mut shell, BuiltinKind::Exit, &["-2", "x"]), vec!["ExitProcess(-2)"]);
    assert_eq!(run(&mut shell, BuiltinKind::Exit, &["oops"]), vec!["ExitProcess(1)"]);
    assert!(shell.exit_requested);
}

#[test]
fn echo_joins_its_arguments_and_honours_its_options() {
    let mut shell = Shell::new(&vec![]);
    assert_eq!(run(&mut shell, BuiltinKind::Echo, &["a", "b"]), vec!["PrintLine(\"a b\")"]);
    assert_eq!(run(&mut shell, BuiltinKind::Echo, &[]), vec!["PrintLine(\"\")"]);
    assert_eq!(run(&mut shell, BuiltinKind::Echo, &["-n", "a"]), vec!["Print(\"a\")"]);
    assert_eq!(run(&mut shell, BuiltinKind::Echo, &["-e", "a\\tb"]), vec!["PrintLine(\"a\\tb\")"]);
    assert!(matches!(&Builtins::echo(&strings(&["-e", "a\\tb"])), Effect::PrintLine(t) if t == "a\tb"));
    assert!(matches!(&Builtins::echo(&strings(&["a\\tb"])), Effect::PrintLine(t) if t == "a\\tb"));
    assert!(matches!(&Builtins::echo(&strings(&["-e", "-E", "a\\tb"])), Effect::PrintLine(t) if t == "a\\tb"));
    assert!(matches!(&Builtins::echo(&strings(&["-E", "-n", "-e", "x\\n", "y"])), Effect::Print(t) if t == "x\n y"));
    assert!(matches!(&Builtins::echo(&strings(&["a", "-n"])), Effect::PrintLine(t) if t == "a -n"));
    assert!(matches!(&Builtins::echo(&strings(&["-n"])), Effect::Print(t) if t.is_empty()));
    assert!(matches!(&Builtins::echo(&strings(&["", "", "x"])), Effect::PrintLine(t) if t == "  x"));
}

#[test]
fn export_then_unset_round_trip() {
    let mut shell = Shell::new(&vec![]);
    assert_eq!(
        run(&mut shell, BuiltinKind::Export, &["FOO=bar"]),
        vec!["SetOsVar(\"FOO\", \"bar\")"]
    );
    assert_eq!(shell.get_env_var("FOO").map(|s| s.as_str()), Some("bar"));
    assert_eq!(run(&mut shell, BuiltinKind::Unset, &["FOO"]), vec!["RemoveOsVar(\"FOO\")"]);
    assert_eq!(shell.get_env_var("FOO"), None);
}

#[test]
fn export_forms() {
    let mut shell = Shell::new(&vec![("KNOWN".to_string(), "k".to_string())]);
    assert_eq!(run(&mut shell, BuiltinKind::Export, &[]), vec!["PrintOsEnvironment"]);
    assert_eq!(
        run(&mut shell, BuiltinKind::Export, &["A=1=2", "B=", "KNOWN", "MISSING", "A"]),
        vec![
            "SetOsVar(\"A\", \"1=2\")",
            "SetOsVar(\"B\", \"\")",
            "SetOsVar(\"KNOWN\", \"k\")",
            "PrintErrorLine(\"export: MISSING: not found\")",
            "SetOsVar(\"A\", \"1=2\")",
        ]
    );
    assert_eq!(shell.get_env_var("A").map(|s| s.as_str()), Some("1=2"));
    assert_eq!(shell.get_env_var("B").map(|s| s.as_str()), Some(""));
    assert_eq!(shell.get_env_var("MISSING"), None);
    assert_eq!(
        run(&mut shell, BuiltinKind::Unset, &["A", "NONE"]),
        vec!["RemoveOsVar(\"A\")", "RemoveOsVar(\"NONE\")"]
    );
    assert_eq!(shell.get_env_var("A"), None);
    assert_eq!(shell.get_env_var("B").map(|s| s.as_str()), Some(""));
    assert!(run(&mut shell, BuiltinKind::Unset, &[]).is_empty());
}

#[test]
fn cd_pwd_env_ask_the_surroundings() {
    let mut shell = Shell::new(&vec![]);
    assert_eq!(run(&mut shell, BuiltinKind::Cd, &[]), vec!["ChangeDirectory(\"\")"]);
    assert_eq!(run(&mut shell, BuiltinKind::Cd, &["/tmp", "x"]), vec!["ChangeDirectory(\"/tmp\")"]);
    assert_eq!(run(&mut shell, BuiltinKind::Pwd, &["x"]), vec!["PrintWorkingDirectory"]);
    assert_eq!(run(&mut shell, BuiltinKind::Env, &[]), vec!["PrintOsEnvironment"]);
    assert!(!shell.exit_requested);
}

#[test]
fn type_names_builtins_and_looks_the_rest_up() {
    let mut shell = Shell::new(&vec![]);
    assert_eq!(
        run(&mut shell, BuiltinKind::Type, &[]),
        vec!["PrintErrorLine(\"type: usage: type [-afptP] name [name ...]\")"]
    );
    assert_eq!(
        run(&mut shell, BuiltinKind::Type, &["cd", "ls", "help"]),
        vec![
            "PrintLine(\"cd is a shell builtin\")",
            "Locate(\"ls\")",
            "PrintLine(\"help is a shell builtin\")",
        ]
    );
    assert_eq!(path_candidates("/bin:/usr/bin", "ls"), vec!["/bin/ls", "/usr/bin/ls"]);
    assert_eq!(path_candidates("", "ls"), vec!["/ls"]);
    assert_eq!(path_candidates("/a::/b:", "x"), vec!["/a/x", "/x", "/b/x", "/x"]);
    assert_eq!(located_message("ls", Some("/bin/ls")), "ls is /bin/ls");
    assert_eq!(located_message("nope", None), "nope: not found");
}

#[test]
fn help_and_history_texts() {
    let mut shell = Shell::new(&vec![]);
    let help = run(&mut shell, BuiltinKind::Help, &[]);
    assert_eq!(help.len(), 21);
    assert_eq!(help[0], "PrintLine(\"aish - A simple shell\")");
    assert_eq!(help[12], "PrintLine(\"\")");
    assert_eq!(help[18], "PrintLine(\"  - Variable expansion ($VAR, ${VAR})\")");
    assert_eq!(help[20], "PrintLine(\"  - Tab completion\")");
    let history = run(&mut shell, BuiltinKind::History, &[]);
    assert_eq!(
        history,
        vec![
            "PrintLine(\"History functionality would be implemented here\")",
            "PrintLine(\"Use arrow keys to navigate through command history\")",
        ]
    );
}
