//! The error type and its exit codes.
use cli_engine::error::{
    exit_code_for_error, exit_code_for_exit_coder, CliCoreError, DetailedError, ExitCoder,
    TransportError,
};

fn s(text: &str) -> String {
    text.to_owned()
}

#[test]
fn system_walks_through_fix_and_exit_code_wrappers() {
    let err = CliCoreError::with_exit_code(
        2,
        CliCoreError::with_fix(
            s("Run auth login"),
            CliCoreError::message_for_system(s("auth"), s("not logged in")),
        ),
    );
    assert_eq!(err.system(), Some("auth"));
}

struct AuthRequired;

impl DetailedError for AuthRequired {
    fn error_message(&self) -> String {
        s("not logged in")
    }

    fn error_code(&self) -> String {
        s("AUTH_REQUIRED")
    }

    fn error_system(&self) -> Option<String> {
        Some(s("auth"))
    }

    fn error_request_id(&self) -> Option<String> {
        None
    }

    fn error_fix(&self) -> Option<String> {
        Some(s("Run auth login"))
    }

    fn error_source(&self) -> Option<CliCoreError> {
        None
    }
}

struct Wrapped;

impl DetailedError for Wrapped {
    fn error_message(&self) -> String {
        s("could not start")
    }

    fn error_code(&self) -> String {
        s("START")
    }

    fn error_system(&self) -> Option<String> {
        None
    }

    fn error_request_id(&self) -> Option<String> {
        None
    }

    fn error_fix(&self) -> Option<String> {
        None
    }

    fn error_source(&self) -> Option<CliCoreError> {
        Some(CliCoreError::with_exit_code(42, CliCoreError::message(s("below"))))
    }
}

#[test]
fn the_cause_of_a_detailed_error_decides_its_exit_code() {
    let err = CliCoreError::with_detailed_error(&Wrapped);
    assert_eq!(err.to_text(), "could not start");
    assert_eq!(exit_code_for_error(&err), 42);
}

#[test]
fn with_detailed_error_fix_preserves_system() {
    let err = CliCoreError::with_detailed_error(&AuthRequired);
    assert!(matches!(err, CliCoreError::Fix { .. }));
    assert_eq!(err.system(), Some("auth"));
}

#[test]
fn empty_with_fix_does_not_wrap() {
    let inner = CliCoreError::message_for_system(s("auth"), s("not logged in"));
    let err = CliCoreError::with_fix(s(""), inner);
    assert!(matches!(err, CliCoreError::SystemMessage { .. }));
    assert_eq!(err.system(), Some("auth"));
    assert!(!matches!(err, CliCoreError::Fix { .. }));
}

#[test]
fn is_auth_walks_through_fix_and_exit_code_wrappers() {
    let err = CliCoreError::with_exit_code(
        2,
        CliCoreError::with_fix(
            s("Run auth login"),
            CliCoreError::MissingAuthProvider(s("primary")),
        ),
    );
    assert!(err.is_auth());
    assert!(!CliCoreError::with_fix(s("hint"), CliCoreError::message(s("boom"))).is_auth());
}

#[test]
fn every_kind_has_its_exit_code() {
    assert_eq!(exit_code_for_error(&CliCoreError::MissingAuthProvider(s("p"))), 2);
    assert_eq!(exit_code_for_error(&CliCoreError::InvalidOutputFormat(s("yaml"))), 3);
    assert_eq!(exit_code_for_error(&CliCoreError::message(s("project not found"))), 4);
    assert_eq!(exit_code_for_error(&CliCoreError::message(s("Permission missing"))), 5);
    assert_eq!(exit_code_for_error(&CliCoreError::message(s("request denied"))), 6);
    assert_eq!(exit_code_for_error(&CliCoreError::message(s("boom"))), 1);
    assert_eq!(
        exit_code_for_error(&CliCoreError::with_exit_code(
            42,
            CliCoreError::message(s("project not found")),
        )),
        42
    );
    let inner = CliCoreError::MissingAuthProvider(s("p"));
    assert_eq!(exit_code_for_error(&CliCoreError::with_system(s("api"), inner)), 2);
}

struct Coded;

impl ExitCoder for Coded {
    fn exit_code(&self) -> i32 {
        9
    }
}

#[test]
fn an_exit_coder_decides_its_code() {
    assert_eq!(exit_code_for_exit_coder(&Coded), 9);
}

#[test]
fn errors_show_their_texts() {
    assert_eq!(
        CliCoreError::MissingAuthProvider(s("primary")).to_text(),
        "auth: no provider registered with name \"primary\""
    );
    assert_eq!(
        CliCoreError::InvalidOutputFormat(s("yaml")).to_text(),
        "invalid output format \"yaml\": must be one of toon, json, human"
    );
    let source = Box::new(CliCoreError::message(s("expired")));
    let err = CliCoreError::AuthProvider { provider: s("p"), source };
    assert_eq!(err.to_text(), "auth: provider \"p\": expired");
    assert!(err.is_auth());
    let transport = TransportError {
        message: s("bad gateway"),
        code: s("HTTP_502"),
        system: Some(s("api")),
        request_id: None,
    };
    assert_eq!(transport.error_code(), "HTTP_502");
    assert_eq!(CliCoreError::Transport(transport).to_text(), "bad gateway");
}
