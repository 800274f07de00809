use clawsh::commands::builtin::fs::{cd_target, invoke_cd, invoke_pwd, CommandsError};
use clawsh::commands::builtin::string::{invoke_echo, invoke_type};
use clawsh::commands::{
    find_exec_file, resolve, Builtin, CommandKind, FromStrError, Probe, BUILTIN_COMMANDS,
};

fn list(words: &[&str]) -> Vec<String> {
    words.iter().map(|w| w.to_string()).collect()
}

fn probe(path: &str, executable: bool) -> Probe {
    Probe { path: path.to_string(), executable }
}

#[test]
fn builtin_names_resolve() {
    assert_eq!(Builtin::from_str("echo"), Ok(Builtin::Echo));
    assert_eq!(Builtin::from_str("exit"), Ok(Builtin::Exit));
    assert_eq!(Builtin::from_str("type"), Ok(Builtin::Tipe));
    assert_eq!(Builtin::from_str("pwd"), Ok(Builtin::Pwd));
    assert_eq!(Builtin::from_str("cd"), Ok(Builtin::Cd));
    assert_eq!(Builtin::from_str("history"), Ok(Builtin::History));
}

#[test]
fn builtin_unknown_name_is_an_error() {
    assert_eq!(
        Builtin::from_str("ls"),
        Err(FromStrError::UnknownBuiltin("ls".to_string()))
    );
    assert_eq!(
        Builtin::from_str(""),
        Err(FromStrError::UnknownBuiltin(String::new()))
    );
    assert_eq!(
        Builtin::from_str("Echo"),
        Err(FromStrError::UnknownBuiltin("Echo".to_string()))
    );
    assert_eq!(
        Builtin::from_str("echo "),
        Err(FromStrError::UnknownBuiltin("echo ".to_string()))
    );
}

#[test]
fn builtin_names_round_trip() {
    for name in BUILTIN_COMMANDS {
        let builtin = Builtin::from_str(name).unwrap();
        assert_eq!(builtin.name(), name);
    }
    assert_eq!(BUILTIN_COMMANDS.len(), 6);
}

#[test]
fn echo_joins_with_spaces() {
    assert_eq!(invoke_echo(&list(&[])), "\n");
    assert_eq!(invoke_echo(&list(&["hello"])), "hello\n");
    assert_eq!(invoke_echo(&list(&["a", "b c", "d"])), "a b c d\n");
    assert_eq!(invoke_echo(&list(&["", "x", ""])), " x \n");
}

#[test]
fn type_reports_each_name() {
    let names = list(&["echo", "ls", "nosuch", "cd"]);
    let found = vec![
        Some("/bin/echo".to_string()),
        Some("/bin/ls".to_string()),
        None,
        None,
    ];
    assert_eq!(
        invoke_type(&names, &found),
        "echo is a shell builtin\nls is /bin/ls\nnosuch: not found\ncd is a shell builtin\n"
    );
}

#[test]
fn type_of_nothing_is_an_empty_line() {
    assert_eq!(invoke_type(&Vec::new(), &Vec::new()), "\n");
}

#[test]
fn pwd_ends_the_directory_with_a_line_feed() {
    assert_eq!(invoke_pwd("/home/me"), "/home/me\n");
    assert_eq!(invoke_pwd(""), "\n");
}

#[test]
fn cd_chooses_its_target() {
    assert_eq!(cd_target(&list(&[]), Some("/home/me".to_string())), Ok(None));
    assert_eq!(
        cd_target(&list(&["~"]), Some("/home/me".to_string())),
        Ok(Some("/home/me".to_string()))
    );
    assert_eq!(cd_target(&list(&["~"]), None), Err(CommandsError::HomeNotSet));
    assert_eq!(
        cd_target(&list(&["/tmp", "ignored"]), None),
        Ok(Some("/tmp".to_string()))
    );
    assert_eq!(
        cd_target(&list(&["~/x"]), Some("/home/me".to_string())),
        Ok(Some("~/x".to_string()))
    );
}

#[test]
fn cd_complains_about_a_missing_directory() {
    assert_eq!(invoke_cd("/tmp", true), None);
    assert_eq!(
        invoke_cd("/no/such", false),
        Some("cd: /no/such: No such file or directory\n".to_string())
    );
}

#[test]
fn find_exec_file_takes_the_first_hit() {
    assert_eq!(find_exec_file(&Vec::new()), None);
    assert_eq!(
        find_exec_file(&vec![probe("/a/ls", false), probe("/b/ls", false)]),
        None
    );
    assert_eq!(
        find_exec_file(&vec![
            probe("/a/ls", false),
            probe("/b/ls", true),
            probe("/c/ls", true),
        ]),
        Some("/b/ls".to_string())
    );
}

#[test]
fn resolve_prefers_builtins() {
    let probes = vec![probe("/bin/echo", true)];
    assert_eq!(resolve("echo", &probes), CommandKind::Builtin(Builtin::Echo));
    assert_eq!(
        resolve("ls", &vec![probe("/a/ls", false), probe("/bin/ls", true)]),
        CommandKind::External("/bin/ls".to_string())
    );
    assert_eq!(resolve("ls", &vec![probe("/a/ls", false)]), CommandKind::NotFound);
    assert_eq!(resolve("nosuch", &Vec::new()), CommandKind::NotFound);
}
