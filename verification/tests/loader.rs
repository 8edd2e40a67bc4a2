//! The schema: parsing, serializing, faults, and the round trip.

use quickmail::config::Config;
use quickmail::errors::{ConfigField, MailError, ParseFault};
use quickmail::schema::{load_config, parse_config, parse_port, port_text, serialize_config};

fn sample() -> Config {
    Config {
        sender: String::from("a@x.com"),
        receiver: String::from("b@x.com"),
        smtp_server: String::from("smtp.x.com"),
        smtp_port: 587,
        keychain_service: String::from("quickmail"),
        keychain_account: String::from("a@x.com"),
    }
}

const SAMPLE_TEXT: &str = "sender: a@x.com\nreceiver: b@x.com\nsmtp_server: smtp.x.com\nsmtp_port: 587\nkeychain_service: quickmail\nkeychain_account: a@x.com\n";

#[test]
fn serializer_writes_one_line_per_field() {
    assert_eq!(serialize_config(&sample()), SAMPLE_TEXT);
}

#[test]
fn parser_reads_the_sample_text() {
    let c = parse_config(SAMPLE_TEXT).unwrap();
    assert_eq!(c.sender, "a@x.com");
    assert_eq!(c.receiver, "b@x.com");
    assert_eq!(c.smtp_server, "smtp.x.com");
    assert_eq!(c.smtp_port, 587);
    assert_eq!(c.keychain_service, "quickmail");
    assert_eq!(c.keychain_account, "a@x.com");
}

#[test]
fn round_trip_preserves_every_field() {
    let c = sample();
    let text = serialize_config(&c);
    let back = parse_config(&text).unwrap();
    assert_eq!(back.sender, c.sender);
    assert_eq!(back.receiver, c.receiver);
    assert_eq!(back.smtp_server, c.smtp_server);
    assert_eq!(back.smtp_port, c.smtp_port);
    assert_eq!(back.keychain_service, c.keychain_service);
    assert_eq!(back.keychain_account, c.keychain_account);
}

#[test]
fn omitting_sender_is_a_missing_field() {
    let text = "receiver: b@x.com\nsmtp_server: smtp.x.com\nsmtp_port: 587\nkeychain_service: quickmail\nkeychain_account: a@x.com\n";
    assert_eq!(
        parse_config(text).unwrap_err(),
        ParseFault::MissingField(ConfigField::Sender)
    );
}

#[test]
fn omitting_receiver_is_a_missing_field() {
    let text = "sender: a@x.com\nsmtp_server: smtp.x.com\nsmtp_port: 587\nkeychain_service: quickmail\nkeychain_account: a@x.com\n";
    assert_eq!(
        parse_config(text).unwrap_err(),
        ParseFault::MissingField(ConfigField::Receiver)
    );
}

#[test]
fn omitting_smtp_server_is_a_missing_field() {
    let text = "sender: a@x.com\nreceiver: b@x.com\nsmtp_port: 587\nkeychain_service: quickmail\nkeychain_account: a@x.com\n";
    assert_eq!(
        parse_config(text).unwrap_err(),
        ParseFault::MissingField(ConfigField::SmtpServer)
    );
}

#[test]
fn omitting_smtp_port_is_a_missing_field() {
    let text = "sender: a@x.com\nreceiver: b@x.com\nsmtp_server: smtp.x.com\nkeychain_service: quickmail\nkeychain_account: a@x.com\n";
    assert_eq!(
        parse_config(text).unwrap_err(),
        ParseFault::MissingField(ConfigField::SmtpPort)
    );
}

#[test]
fn omitting_keychain_service_is_a_missing_field() {
    let text = "sender: a@x.com\nreceiver: b@x.com\nsmtp_server: smtp.x.com\nsmtp_port: 587\nkeychain_account: a@x.com\n";
    assert_eq!(
        parse_config(text).unwrap_err(),
        ParseFault::MissingField(ConfigField::KeychainService)
    );
}

#[test]
fn omitting_keychain_account_is_a_missing_field() {
    let text = "sender: a@x.com\nreceiver: b@x.com\nsmtp_server: smtp.x.com\nsmtp_port: 587\nkeychain_service: quickmail\n";
    assert_eq!(
        parse_config(text).unwrap_err(),
        ParseFault::MissingField(ConfigField::KeychainAccount)
    );
}

#[test]
fn empty_text_is_a_missing_sender() {
    assert_eq!(
        parse_config("").unwrap_err(),
        ParseFault::MissingField(ConfigField::Sender)
    );
}

#[test]
fn port_above_sixteen_bits_is_invalid() {
    let text = SAMPLE_TEXT.replace("smtp_port: 587", "smtp_port: 65536");
    assert_eq!(parse_config(&text).unwrap_err(), ParseFault::InvalidPort);
}

#[test]
fn non_numeric_port_is_invalid() {
    let text = SAMPLE_TEXT.replace("smtp_port: 587", "smtp_port: rather-high");
    assert_eq!(parse_config(&text).unwrap_err(), ParseFault::InvalidPort);
}

#[test]
fn empty_port_is_invalid() {
    let text = SAMPLE_TEXT.replace("smtp_port: 587", "smtp_port:");
    assert_eq!(parse_config(&text).unwrap_err(), ParseFault::InvalidPort);
}

#[test]
fn line_without_colon_is_malformed() {
    let text = format!("just some words\n{SAMPLE_TEXT}");
    assert_eq!(parse_config(&text).unwrap_err(), ParseFault::MalformedLine);
}

#[test]
fn comments_blank_lines_and_unknown_keys_are_ignored() {
    let text = format!("# mail account\n\n   \nextra: ignored\n{SAMPLE_TEXT}");
    let c = parse_config(&text).unwrap();
    assert_eq!(c.sender, "a@x.com");
    assert_eq!(c.smtp_port, 587);
}

#[test]
fn first_occurrence_of_a_key_wins() {
    let text = format!("{SAMPLE_TEXT}sender: late@x.com\n");
    let c = parse_config(&text).unwrap();
    assert_eq!(c.sender, "a@x.com");
}

#[test]
fn spaces_around_key_and_value_are_trimmed() {
    let text = SAMPLE_TEXT.replace("sender: a@x.com", "  sender  :   a@x.com  ");
    let c = parse_config(&text).unwrap();
    assert_eq!(c.sender, "a@x.com");
}

#[test]
fn missing_final_newline_is_accepted() {
    let c = parse_config(SAMPLE_TEXT.trim_end()).unwrap();
    assert_eq!(c.keychain_account, "a@x.com");
}

#[test]
fn port_text_is_plain_decimal() {
    assert_eq!(port_text(0), "0");
    assert_eq!(port_text(25), "25");
    assert_eq!(port_text(587), "587");
    assert_eq!(port_text(65535), "65535");
}

#[test]
fn parse_port_exact_values() {
    assert_eq!(parse_port("0"), Some(0));
    assert_eq!(parse_port("587"), Some(587));
    assert_eq!(parse_port("65535"), Some(65535));
    assert_eq!(parse_port("65536"), None);
    assert_eq!(parse_port("070"), Some(70));
    assert_eq!(parse_port(""), None);
    assert_eq!(parse_port("58x"), None);
    assert_eq!(parse_port("-1"), None);
}

#[test]
fn load_config_wraps_the_fault_with_the_path() {
    let e = load_config("conf/mail.yml", "sender alone, no colon").unwrap_err();
    match &e {
        MailError::ConfigParseError { path, fault } => {
            assert_eq!(path, "conf/mail.yml");
            assert_eq!(*fault, ParseFault::MalformedLine);
        }
        _ => panic!("wrong error kind"),
    }
    assert_eq!(
        e.message(),
        "Failed to parse config file conf/mail.yml: a line is neither blank, a comment, nor a key: value pair"
    );
}

#[test]
fn missing_field_message_names_the_field() {
    let e = load_config("c.yml", "").unwrap_err();
    assert_eq!(e.message(), "Failed to parse config file c.yml: missing field sender");
}

#[test]
fn a_text_written_by_another_yaml_writer_parses_the_same() {
    let mut map = serde_yaml::Mapping::new();
    map.insert(
        serde_yaml::Value::String(String::from("sender")),
        serde_yaml::Value::String(String::from("a@x.com")),
    );
    map.insert(
        serde_yaml::Value::String(String::from("receiver")),
        serde_yaml::Value::String(String::from("b@x.com")),
    );
    map.insert(
        serde_yaml::Value::String(String::from("smtp_server")),
        serde_yaml::Value::String(String::from("smtp.x.com")),
    );
    map.insert(
        serde_yaml::Value::String(String::from("smtp_port")),
        serde_yaml::Value::Number(serde_yaml::Number::from(587u64)),
    );
    map.insert(
        serde_yaml::Value::String(String::from("keychain_service")),
        serde_yaml::Value::String(String::from("quickmail")),
    );
    map.insert(
        serde_yaml::Value::String(String::from("keychain_account")),
        serde_yaml::Value::String(String::from("a@x.com")),
    );
    let text = serde_yaml::to_string(&map).unwrap();
    let c = parse_config(&text).unwrap();
    assert_eq!(c.sender, "a@x.com");
    assert_eq!(c.receiver, "b@x.com");
    assert_eq!(c.smtp_server, "smtp.x.com");
    assert_eq!(c.smtp_port, 587);
    assert_eq!(c.keychain_service, "quickmail");
    assert_eq!(c.keychain_account, "a@x.com");
}
