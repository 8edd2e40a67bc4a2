//! Credential retrieval and dispatch: the two ends of the pipeline.

use quickmail::config::Config;
use quickmail::credential::{credential_from_outcome, retrieve_credential, CredentialOutcome};
use quickmail::dispatch::prepare_dispatch;
use quickmail::errors::{ConfigField, MailError};

fn valid_config() -> Config {
    Config {
        sender: String::from("a@x.com"),
        receiver: String::from("b@x.com"),
        smtp_server: String::from("smtp.x.com"),
        smtp_port: 587,
        keychain_service: String::from("quickmail"),
        keychain_account: String::from("a@x.com"),
    }
}

#[test]
fn found_credential_is_handed_back_verbatim() {
    let r = credential_from_outcome(
        CredentialOutcome::Found(String::from("secret")),
        "quickmail",
        "a@x.com",
    );
    assert_eq!(r.unwrap(), "secret");
}

#[test]
fn missing_credential_names_the_queried_pair() {
    let e = credential_from_outcome(CredentialOutcome::Missing, "quickmail", "a@x.com")
        .unwrap_err();
    match &e {
        MailError::CredentialNotFound { service, account } => {
            assert_eq!(service, "quickmail");
            assert_eq!(account, "a@x.com");
        }
        _ => panic!("wrong error kind"),
    }
    assert_eq!(
        e.message(),
        "No credential stored for service quickmail and account a@x.com"
    );
}

#[test]
fn unreachable_store_keeps_the_cause() {
    let e = credential_from_outcome(
        CredentialOutcome::Unavailable(String::from("store is sealed")),
        "quickmail",
        "a@x.com",
    )
    .unwrap_err();
    assert_eq!(
        e.message(),
        "Failed to access the credential store: store is sealed"
    );
}

#[test]
fn store_without_this_entry_fails_with_a_credential_error() {
    // Nothing is stored under this deliberately improbable pair, so the
    // live store either answers "no entry" or is itself out of reach here;
    // both are credential-stage failures and neither touches the network.
    let r = retrieve_credential("quickmail-test-no-such-service", "nobody@x.invalid");
    match r {
        Err(MailError::CredentialNotFound { service, account }) => {
            assert_eq!(service, "quickmail-test-no-such-service");
            assert_eq!(account, "nobody@x.invalid");
        }
        Err(MailError::CredentialStoreUnavailable { .. }) => {}
        other => panic!("expected a credential-stage failure, got {:?}", other.map(|_| ())),
    }
}

#[test]
fn invalid_sender_is_rejected_naming_the_sender_field() {
    let mut config = valid_config();
    config.sender = String::from("not-an-email");
    let e = match prepare_dispatch("Hi", "Body text", &config, String::from("secret")) {
        Err(e) => e,
        Ok(_) => panic!("expected an error"),
    };
    match &e {
        MailError::AddressParseError { field, value } => {
            assert_eq!(*field, ConfigField::Sender);
            assert_eq!(value, "not-an-email");
        }
        _ => panic!("wrong error kind"),
    }
    assert_eq!(e.message(), "Invalid sender address: not-an-email");
}

#[test]
fn invalid_receiver_is_rejected_naming_the_receiver_field() {
    let mut config = valid_config();
    config.receiver = String::from("@@nope");
    let e = match prepare_dispatch("Hi", "Body text", &config, String::from("secret")) {
        Err(e) => e,
        Ok(_) => panic!("expected an error"),
    };
    assert!(matches!(
        e,
        MailError::AddressParseError { field: ConfigField::Receiver, .. }
    ));
}

#[test]
fn valid_config_composes_exactly_the_requested_message() {
    let plan = prepare_dispatch("Hi", "Body text", &valid_config(), String::from("secret"))
        .unwrap();
    assert_eq!(plan.message.from, "a@x.com");
    assert_eq!(plan.message.to, "b@x.com");
    assert_eq!(plan.message.subject, "Hi");
    assert_eq!(plan.message.body, "Body text");
}

#[test]
fn composed_message_never_carries_the_credential() {
    let plan = prepare_dispatch("Hi", "Body text", &valid_config(), String::from("hunter2"))
        .unwrap();
    assert!(!plan.message.from.contains("hunter2"));
    assert!(!plan.message.to.contains("hunter2"));
    assert!(!plan.message.subject.contains("hunter2"));
    assert!(!plan.message.body.contains("hunter2"));
}

#[test]
fn address_error_never_carries_the_credential() {
    let mut config = valid_config();
    config.sender = String::from("not-an-email");
    let e = match prepare_dispatch("Hi", "Body text", &config, String::from("hunter2")) {
        Err(e) => e,
        Ok(_) => panic!("expected an error"),
    };
    assert!(!e.message().contains("hunter2"));
}

#[test]
fn credential_errors_never_carry_a_secret() {
    let e = credential_from_outcome(CredentialOutcome::Missing, "quickmail", "a@x.com")
        .unwrap_err();
    assert!(!e.message().contains("secret"));
}

#[test]
fn plan_is_owed_whenever_both_addresses_are_valid() {
    // Relay-client construction is local: the server name is stored, not
    // resolved, so even an unresolvable name yields a plan, and failure
    // is deferred to the send itself.
    let mut config = valid_config();
    config.smtp_server = String::from("no.such.relay.invalid");
    config.smtp_port = 2525;
    let plan = prepare_dispatch("Hi", "Body text", &config, String::from("secret"));
    assert!(plan.is_ok());
}

#[test]
fn transport_errors_render_their_stage_and_cause() {
    let e = MailError::TransportInitError {
        server: String::from("smtp.x.com"),
        cause: String::from("bad endpoint"),
    };
    assert_eq!(
        e.message(),
        "Failed to create SMTP transport for smtp.x.com: bad endpoint"
    );
    let e = MailError::SendError { cause: String::from("connection refused") };
    assert_eq!(e.message(), "Failed to send email: connection refused");
}

#[test]
fn read_failure_keeps_path_and_cause() {
    let e = quickmail::schema::read_failure("conf/mail.yml", "permission denied");
    match &e {
        MailError::ConfigReadError { path, cause } => {
            assert_eq!(path, "conf/mail.yml");
            assert_eq!(cause, "permission denied");
        }
        _ => panic!("wrong error kind"),
    }
    assert_eq!(
        e.message(),
        "Failed to read config file conf/mail.yml: permission denied"
    );
}

#[test]
fn display_name_addresses_are_accepted() {
    let mut config = valid_config();
    config.sender = String::from("Ada <ada@x.com>");
    let plan = prepare_dispatch("Hi", "Body", &config, String::from("s")).unwrap();
    assert_eq!(plan.message.from, "Ada <ada@x.com>");
}
