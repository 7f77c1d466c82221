use openshell::exec_command::{
    build_remote_exec_command, is_valid_env_key, shell_escape, ExecSandboxRequest,
};
use openshell::string_map::StringMap;

#[test]
fn env_key_validation_accepts_valid_keys() {
    assert!(is_valid_env_key("PATH"));
    assert!(is_valid_env_key("PYTHONPATH"));
    assert!(is_valid_env_key("_NAVIGATOR_VALUE_1"));
}

#[test]
fn env_key_validation_rejects_invalid_keys() {
    assert!(!is_valid_env_key(""));
    assert!(!is_valid_env_key("1PATH"));
    assert!(!is_valid_env_key("BAD-KEY"));
    assert!(!is_valid_env_key("BAD KEY"));
    assert!(!is_valid_env_key("X=Y"));
    assert!(!is_valid_env_key("X;rm -rf /"));
}

#[test]
fn env_key_validation_rejects_other_scripts() {
    assert!(!is_valid_env_key("ÄPFEL"));
    assert!(!is_valid_env_key("A²"));
}

#[test]
fn escape_leaves_plain_values() {
    assert_eq!(shell_escape("/usr/bin/python3.11_x-y"), "/usr/bin/python3.11_x-y");
}

#[test]
fn escape_quotes_the_empty_value() {
    assert_eq!(shell_escape(""), "''");
}

#[test]
fn escape_quotes_special_values() {
    assert_eq!(shell_escape("a b"), "'a b'");
    assert_eq!(shell_escape("$HOME;`id`"), "'$HOME;`id`'");
    assert_eq!(shell_escape("it's"), "'it'\"'\"'s'");
    assert_eq!(shell_escape("é"), "'é'");
}

fn request(command: &[&str], env: &[(&str, &str)], workdir: &str) -> ExecSandboxRequest {
    let mut environment = StringMap::new();
    for (key, value) in env {
        environment.insert((*key).to_string(), (*value).to_string());
    }
    ExecSandboxRequest {
        sandbox_id: "sb".to_string(),
        command: command.iter().map(|c| (*c).to_string()).collect(),
        workdir: workdir.to_string(),
        environment,
        timeout_seconds: 0,
        stdin: vec![],
    }
}

#[test]
fn command_is_joined_and_escaped() {
    let req = request(&["echo", "hello world"], &[], "");
    assert_eq!(build_remote_exec_command(&req), "echo 'hello world'");
}

#[test]
fn command_sorts_its_environment() {
    let req = request(&["env"], &[("B", "2 3"), ("A", "1"), ("AA", "")], "");
    assert_eq!(build_remote_exec_command(&req), "A=1 AA='' B='2 3' env");
}

#[test]
fn command_changes_directory_first() {
    let req = request(&["ls"], &[("A", "x")], "/my dir");
    assert_eq!(build_remote_exec_command(&req), "cd '/my dir' && A=x ls");
}

#[test]
fn command_of_no_words_is_empty() {
    assert_eq!(build_remote_exec_command(&request(&[], &[], "")), "");
}
