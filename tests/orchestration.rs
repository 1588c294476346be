use git_credential_github::credhelper::CredHelperError;
use git_credential_github::ghauth::{AccessToken, AccessTokenPollError};
use git_credential_github::operation::Operation;
use git_credential_github::params::Params;
use git_credential_github::session::{after_device_flow, after_helper, begin, pick_backing_helper, Config, SessionError, Step};

fn config(op: Operation, helper: Option<&str>) -> Config {
    Config { backing_helper: helper.map(|h| h.to_string()), force_auth: false, no_auth_on_fail: false, operation: op }
}

fn set(pairs: &[(&str, &str)]) -> Params {
    let mut p = Params::new();
    for (k, v) in pairs {
        p.add(k.to_string(), v.to_string());
    }
    p
}

fn token(s: &str) -> AccessToken {
    AccessToken { access_token: s.to_string(), token_type: "bearer".to_string(), scope: "repo".to_string() }
}

#[test]
fn helper_with_password_is_final_for_get() {
    let c = config(Operation::Get, Some("store"));
    match after_helper(&c, Ok(set(&[("username", "u"), ("password", "p")]))) {
        Step::Write(p) => {
            assert_eq!(p.len(), 2);
            assert_eq!(p.get("username".to_string()).unwrap(), "u");
            assert_eq!(p.get("password".to_string()).unwrap(), "p");
        }
        _ => panic!("expected the set to be written"),
    }
}

#[test]
fn helper_without_password_runs_device_flow() {
    let c = config(Operation::Get, Some("store"));
    let output = match after_helper(&c, Ok(set(&[("username", "u")]))) {
        Step::DeviceFlow(p) => p,
        _ => panic!("expected the device flow"),
    };
    match after_device_flow(output, Ok(token("gho_mock"))) {
        Step::Write(p) => {
            assert_eq!(p.get("password".to_string()).unwrap(), "gho_mock");
            assert_eq!(p.get("username".to_string()).unwrap(), "u");
        }
        _ => panic!("expected the set to be written"),
    }
}

#[test]
fn failed_helper_for_store_writes_empty_set() {
    let c = config(Operation::Store, Some("store"));
    match after_helper(&c, Err(CredHelperError::Non0ExitCode(1, None))) {
        Step::Write(p) => assert_eq!(p.len(), 0),
        _ => panic!("expected an empty set to be written"),
    }
}

#[test]
fn failed_helper_for_get_goes_on_with_its_output() {
    let c = config(Operation::Get, Some("store"));
    match after_helper(&c, Err(CredHelperError::Non0ExitCode(2, Some(set(&[("username", "u")]))))) {
        Step::DeviceFlow(p) => assert_eq!(p.get("username".to_string()).unwrap(), "u"),
        _ => panic!("expected the device flow"),
    }
}

#[test]
fn no_auth_on_fail_stops() {
    let mut c = config(Operation::Get, Some("store"));
    c.no_auth_on_fail = true;
    assert!(matches!(after_helper(&c, Err(CredHelperError::Non0ExitCode(1, None))), Step::Fail(_)));
}

#[test]
fn launch_failure_is_fatal() {
    let c = config(Operation::Get, Some("store"));
    match after_helper(&c, Err(CredHelperError::Io("not found".to_string()))) {
        Step::Fail(SessionError::Helper(CredHelperError::Io(m))) => assert_eq!(m, "not found"),
        _ => panic!("expected a fatal error"),
    }
}

#[test]
fn force_auth_runs_device_flow_despite_password() {
    let mut c = config(Operation::Get, Some("store"));
    c.force_auth = true;
    assert!(matches!(after_helper(&c, Ok(set(&[("password", "p")]))), Step::DeviceFlow(_)));
}

#[test]
fn erase_never_runs_device_flow() {
    let mut c = config(Operation::Erase, None);
    c.force_auth = true;
    assert!(matches!(begin(&c, &Params::new()), Step::Write(_)));
    assert!(matches!(after_helper(&c, Ok(Params::new())), Step::Write(_)));
}

#[test]
fn without_helper_get_runs_device_flow() {
    match begin(&config(Operation::Get, None), &set(&[("host", "github.com")])) {
        Step::DeviceFlow(p) => assert_eq!(p.len(), 0),
        _ => panic!("expected the device flow"),
    }
}

#[test]
fn with_helper_begin_runs_it() {
    match begin(&config(Operation::Get, Some("cache --timeout 300")), &set(&[("host", "github.com")])) {
        Step::RunHelper(r) => {
            assert_eq!(r.command.program, "git");
            assert_eq!(r.command.args, vec!["credential-cache", "--timeout", "300", "get"]);
            assert_eq!(r.input, "host=github.com\n\n");
        }
        _ => panic!("expected the helper to run"),
    }
    assert!(matches!(
        begin(&config(Operation::Get, Some("/x 'y")), &Params::new()),
        Step::Fail(SessionError::Helper(CredHelperError::InvalidHelper))
    ));
}

#[test]
fn expired_code_restarts_device_flow() {
    match after_device_flow(set(&[("username", "u")]), Err(AccessTokenPollError::DeviceCodeExpired)) {
        Step::DeviceFlow(p) => assert_eq!(p.len(), 1),
        _ => panic!("expected the flow to start over"),
    }
    match after_device_flow(Params::new(), Err(AccessTokenPollError::Transport("x".to_string()))) {
        Step::Fail(SessionError::DeviceFlow(m)) => assert_eq!(m, "x"),
        _ => panic!("expected a fatal error"),
    }
}

#[test]
fn backing_helper_setting_precedence() {
    let s = |x: &str| Some(x.to_string());
    assert_eq!(pick_backing_helper(s("a"), s("b"), s("c")), s("a"));
    assert_eq!(pick_backing_helper(None, s("b"), s("c")), s("b"));
    assert_eq!(pick_backing_helper(None, None, s("c")), s("c"));
    assert_eq!(pick_backing_helper(None, None, None), None);
}
