use ap_onboard::script::{echo_artifact, session_script, strip_echo_artifacts, tcl_quote};

#[test]
fn tcl_quote_escapes_special_characters() {
    assert_eq!(tcl_quote("ubnt"), "\"ubnt\"");
    assert_eq!(tcl_quote("a\"b$c[d]e\\f"), "\"a\\\"b\\$c\\[d\\]e\\\\f\"");
    assert_eq!(tcl_quote(""), "\"\"");
}

#[test]
fn script_spawns_client_and_answers_prompt() {
    let args = vec!["-p".to_string(), "22".to_string(), "ubnt@10.0.0.1".to_string()];
    let s = session_script(&args, "pw$");
    assert!(s.starts_with("set timeout 15\nspawn ssh \"-p\" \"22\" \"ubnt@10.0.0.1\"\nexpect {\n"));
    assert!(s.contains("{ send -- \"pw\\$\"\\r }"));
    assert!(s.contains("{ puts \"Permission denied\"; exit 1 }"));
    assert!(s.ends_with("exit [lindex $result 3]\n"));
}

#[test]
fn artifacts_are_recognised() {
    assert!(echo_artifact(""));
    assert!(echo_artifact(" \t\r"));
    assert!(echo_artifact("spawn ssh -p 22 ubnt@h set-inform x"));
    assert!(echo_artifact("ubnt@10.0.0.1's password: "));
    assert!(echo_artifact("Warning: Permanently added '10.0.0.1' (RSA) to the list of known hosts.\r"));
    assert!(!echo_artifact("Adoption request sent to 'http://c/inform'."));
    assert!(!echo_artifact(" spawn"));
}

#[test]
fn stripping_keeps_only_command_output() {
    let raw = "spawn ssh ubnt@h set-inform http://c/inform\r\nubnt@h's password: \r\nWarning: Permanently added 'h' (RSA) to the list of known hosts.\r\n\r\nAdoption request sent to 'http://c/inform'.\r\nerror counter 0\r\n";
    assert_eq!(
        strip_echo_artifacts(raw),
        "Adoption request sent to 'http://c/inform'.\r\nerror counter 0\r"
    );
}

#[test]
fn stripping_banner_only_output_leaves_nothing() {
    assert_eq!(strip_echo_artifacts("spawn ssh x\npassword:\n\n"), "");
    assert_eq!(strip_echo_artifacts(""), "");
    assert_eq!(strip_echo_artifacts("one\ntwo"), "one\ntwo");
}
