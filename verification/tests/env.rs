use cmd_lib::env::CmdEnv;
use cmd_lib::vars::CmdVars;

fn env() -> CmdEnv<Vec<u8>, Vec<u8>> {
    CmdEnv::new(
        vec!["cmd".to_string(), "arg".to_string()],
        CmdVars::new().insert("HOME", "/root").insert("LANG", "C"),
        "/work".to_string(),
        b"input".to_vec(),
        Vec::new(),
        Vec::new(),
    )
}

#[test]
fn context_gives_back_its_parts() {
    let mut env = env();
    assert_eq!(env.args(), ["cmd", "arg"]);
    assert_eq!(env.var("HOME"), Some(&"/root".to_string()));
    assert_eq!(env.var("LANG"), Some(&"C".to_string()));
    assert_eq!(env.var("PATH"), None);
    assert_eq!(env.current_dir(), "/work");
    assert_eq!(env.stdin(), b"input");
    assert!(env.stdout().is_empty());
    assert!(env.stderr().is_empty());
}

#[test]
fn handles_are_the_contexts_own() {
    let mut env = env();
    env.stdout().extend_from_slice(b"out");
    env.stderr().extend_from_slice(b"err");
    env.stdin().clear();
    assert_eq!(env.stdout(), b"out");
    assert_eq!(env.stderr(), b"err");
    assert!(env.stdin().is_empty());
    assert_eq!(env.args(), ["cmd", "arg"]);
    assert_eq!(env.current_dir(), "/work");
}
