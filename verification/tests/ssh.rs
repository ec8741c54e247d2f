use symphony::collections::TextMap;
use symphony::config::Environment;
use symphony::error::SymphonyError;
use symphony::ssh::{
    combined_output, command_result, executable_from_lookup, parse_target, remote_shell_command,
    run_failed, shell_escape, ssh_args, ssh_executable, start_port_failed, SshLookup, SshTarget,
};

fn target(destination: &str, port: Option<&str>) -> SshTarget {
    SshTarget { destination: destination.into(), port: port.map(String::from) }
}

fn environment(vars: &[(&str, &str)]) -> Environment {
    let mut map = TextMap::new();
    for (name, value) in vars {
        map.insert(String::from(*name), String::from(*value));
    }
    Environment { vars: map }
}

fn args(host: &str, command: &str) -> Vec<String> {
    ssh_args(host, command, &environment(&[]))
}

#[test]
fn parse_target_splits_host_and_port() {
    assert_eq!(parse_target("worker1:2222"), target("worker1", Some("2222")));
}

#[test]
fn parse_target_keeps_plain_host() {
    assert_eq!(parse_target("worker1"), target("worker1", None));
}

#[test]
fn parse_target_supports_bracketed_ipv6() {
    assert_eq!(parse_target("[::1]:2222"), target("[::1]", Some("2222")));
}

#[test]
fn parse_target_treats_bare_ipv6_as_plain_host() {
    assert_eq!(parse_target("::1"), target("::1", None));
}

#[test]
fn parse_target_treats_invalid_port_targets_as_plain_host() {
    assert_eq!(parse_target("user@host:path"), target("user@host:path", None));
}

#[test]
fn parse_target_handles_empty_port_and_trailing_colon() {
    assert_eq!(parse_target("worker1:"), target("worker1:", None));
    assert_eq!(parse_target("[::1]:"), target("[::1]:", None));
}

#[test]
fn shell_escape_wraps_plain_string() {
    assert_eq!(shell_escape("ls -la"), "'ls -la'");
}

#[test]
fn shell_escape_escapes_single_quotes() {
    assert_eq!(shell_escape("echo 'hello'"), "'echo '\"'\"'hello'\"'\"''");
}

#[test]
fn shell_escape_handles_empty_string() {
    assert_eq!(shell_escape(""), "''");
}

#[test]
fn ssh_args_include_t_flag_and_destination() {
    assert_eq!(
        args("worker1", "echo hello"),
        vec!["-T".to_string(), "worker1".to_string(), "bash -lc 'echo hello'".to_string()]
    );
}

#[test]
fn ssh_args_include_port_when_present() {
    assert_eq!(
        args("worker1:2222", "echo hello"),
        vec![
            "-T".to_string(),
            "-p".to_string(),
            "2222".to_string(),
            "worker1".to_string(),
            "bash -lc 'echo hello'".to_string(),
        ]
    );
}

#[test]
fn ssh_args_include_config_when_env_var_is_set() {
    let env = environment(&[("SYMPHONY_SSH_CONFIG", "/tmp/test-ssh-config")]);

    assert_eq!(
        ssh_args("worker1", "echo hello", &env),
        vec![
            "-F".to_string(),
            "/tmp/test-ssh-config".to_string(),
            "-T".to_string(),
            "worker1".to_string(),
            "bash -lc 'echo hello'".to_string(),
        ]
    );
}

#[test]
fn ssh_args_for_bracketed_ipv6_with_port() {
    assert_eq!(
        args("[::1]:2222", "echo test"),
        vec![
            "-T".to_string(),
            "-p".to_string(),
            "2222".to_string(),
            "[::1]".to_string(),
            "bash -lc 'echo test'".to_string(),
        ]
    );
}

#[test]
fn ssh_args_for_user_at_host() {
    assert_eq!(
        args("user@host", "ls"),
        vec!["-T".to_string(), "user@host".to_string(), "bash -lc 'ls'".to_string()]
    );
}

#[test]
fn ssh_args_skip_config_when_env_empty() {
    let env = environment(&[("SYMPHONY_SSH_CONFIG", "")]);

    assert_eq!(
        ssh_args("worker1", "echo hello", &env),
        vec!["-T".to_string(), "worker1".to_string(), "bash -lc 'echo hello'".to_string()]
    );
}

#[test]
fn shell_escape_handles_special_characters() {
    assert_eq!(shell_escape("a\"b"), "'a\"b'");
    assert_eq!(shell_escape("a\\b"), "'a\\b'");
    assert_eq!(shell_escape("a b c"), "'a b c'");
}

#[test]
fn remote_shell_command_wraps_correctly() {
    let cmd = remote_shell_command("echo hello");
    assert_eq!(cmd, "bash -lc 'echo hello'");
}

#[test]
fn parse_target_user_at_host_with_port() {
    assert_eq!(parse_target("user@host:22"), target("user@host", Some("22")));
}

#[test]
fn parse_target_multiple_colons_treated_as_plain() {
    assert_eq!(parse_target("a:b:c"), target("a:b:c", None));
}

#[test]
fn parse_target_bracketed_ipv6_without_port() {
    assert_eq!(parse_target("[::1]"), target("[::1]", None));
}

#[test]
fn output_that_is_no_text_is_replaced() {
    assert_eq!(combined_output(b"ok ", &[0xff, b'!']), "ok \u{fffd}!");
}

#[test]
fn the_program_is_where_the_lookup_says() {
    assert_eq!(executable_from_lookup(true, "/usr/bin/ssh\n", "").unwrap(), "/usr/bin/ssh");
    assert!(matches!(
        executable_from_lookup(false, "a", "b\n"),
        Err(SymphonyError::Ssh(message)) if message == "ssh_not_found: ab"
    ));
    assert!(matches!(
        executable_from_lookup(true, " \n", ""),
        Err(SymphonyError::Ssh(message)) if message == "ssh_not_found: empty lookup result"
    ));
}

#[test]
fn the_lookup_is_read_as_it_was_written() {
    let lookup = SshLookup::Finished {
        found: true,
        stdout: b"/opt/\xff/ssh\n".to_vec(),
        stderr: Vec::new(),
    };
    assert_eq!(ssh_executable(&lookup).unwrap(), "/opt/\u{fffd}/ssh");

    let lookup = SshLookup::Finished {
        found: false,
        stdout: Vec::new(),
        stderr: b"no ssh in path\n".to_vec(),
    };
    assert_eq!(
        ssh_executable(&lookup).unwrap_err().message(),
        "ssh error: ssh_not_found: no ssh in path"
    );
    assert_eq!(
        ssh_executable(&SshLookup::Failed("which".into())).unwrap_err().message(),
        "ssh error: ssh_lookup_failed: which"
    );
}

#[test]
fn a_command_that_a_signal_ended_counts_as_failed() {
    assert_eq!(command_result(b"out", b"err", Some(3)), ("outerr".into(), 3));
    assert_eq!(command_result(b"", b"", None), (String::new(), -1));
    assert_eq!(run_failed("x").message(), "ssh error: ssh_run_failed: x");
    assert_eq!(start_port_failed("x").message(), "ssh error: ssh_start_port_failed: x");
}
