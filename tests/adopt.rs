use ap_onboard::adopt::{strategy_order, AdoptStep, Adoption, SessionTarget, Strategy};
use ap_onboard::session::SshError;

fn target() -> SessionTarget {
    SessionTarget {
        ip: "192.168.1.20".to_string(),
        inform_url: "http://ctrl:8080/inform".to_string(),
        custom_password: Some("pw".to_string()),
    }
}

fn run(step: AdoptStep) -> (Adoption, Strategy) {
    match step {
        AdoptStep::Run(a, s) => (a, s),
        AdoptStep::Succeeded(_) | AdoptStep::Failed(_) => panic!("expected a strategy to run"),
    }
}

#[test]
fn order_depends_on_the_credential_helper() {
    assert_eq!(strategy_order(true), vec![Strategy::ProcessPassword, Strategy::Native]);
    assert_eq!(strategy_order(false), vec![Strategy::ProcessScripted, Strategy::Native]);
}

#[test]
fn authentication_failure_stops_at_once() {
    let (a, s) = run(Adoption::start(target(), true));
    assert_eq!(s, Strategy::ProcessPassword);
    match a.on_outcome(Err(SshError::AuthFailed("bad".to_string()))) {
        AdoptStep::Failed(m) => assert_eq!(m, "Authentication failed: bad"),
        _ => panic!("the second strategy must not run"),
    }
}

#[test]
fn timeout_falls_back_with_the_same_target() {
    let (a, s) = run(Adoption::start(target(), false));
    assert_eq!(s, Strategy::ProcessScripted);
    let (b, s) = run(a.on_outcome(Err(SshError::ConnectionTimeout("slow".to_string()))));
    assert_eq!(s, Strategy::Native);
    let t = b.target();
    assert_eq!(t.ip, "192.168.1.20");
    assert_eq!(t.inform_url, "http://ctrl:8080/inform");
    assert_eq!(t.custom_password.as_deref(), Some("pw"));
}

#[test]
fn exhaustion_reports_the_first_failure() {
    let (a, _) = run(Adoption::start(target(), true));
    let (b, _) = run(a.on_outcome(Err(SshError::ConnectionRefused("first".to_string()))));
    match b.on_outcome(Err(SshError::Other("second".to_string()))) {
        AdoptStep::Failed(m) => {
            assert_eq!(m, "SSH error: Failed to connect to 192.168.1.20: Connection refused: first")
        }
        _ => panic!("expected failure"),
    }
}

#[test]
fn command_failure_stops_at_once() {
    let (a, _) = run(Adoption::start(target(), true));
    match a.on_outcome(Err(SshError::CommandFailed("x".to_string()))) {
        AdoptStep::Failed(m) => assert_eq!(m, "Command failed: x"),
        _ => panic!("the second strategy must not run"),
    }
}

#[test]
fn late_command_failure_is_reported_as_is() {
    let (a, _) = run(Adoption::start(target(), false));
    let (b, _) = run(a.on_outcome(Err(SshError::ConnectionRefused("r".to_string()))));
    match b.on_outcome(Err(SshError::CommandFailed("y".to_string()))) {
        AdoptStep::Failed(m) => assert_eq!(m, "Command failed: y"),
        _ => panic!("expected failure"),
    }
}

#[test]
fn success_ends_the_adoption() {
    let (a, _) = run(Adoption::start(target(), true));
    let (b, _) = run(a.on_outcome(Err(SshError::Other("tool missing".to_string()))));
    match b.on_outcome(Ok("Adoption request sent".to_string())) {
        AdoptStep::Succeeded(o) => assert_eq!(o, "Adoption request sent"),
        _ => panic!("expected success"),
    }
}

#[test]
fn late_authentication_failure_is_reported_as_is() {
    let (a, _) = run(Adoption::start(target(), true));
    let (b, _) = run(a.on_outcome(Err(SshError::Other("tool missing".to_string()))));
    match b.on_outcome(Err(SshError::AuthFailed("no".to_string()))) {
        AdoptStep::Failed(m) => assert_eq!(m, "Authentication failed: no"),
        _ => panic!("expected failure"),
    }
}
