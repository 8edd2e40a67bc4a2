//! The locator's precedence rule, over every combination of probes.

use quickmail::errors::MailError;
use quickmail::locate::{home_config_path, resolve_config_path};

fn home() -> Option<String> {
    Some(String::from("/home/op/.quickmail.yml"))
}

#[test]
fn home_candidate_is_home_dir_plus_file_name() {
    assert_eq!(home_config_path("/home/op"), "/home/op/.quickmail.yml");
}

#[test]
fn explicit_path_wins_over_everything() {
    let r = resolve_config_path(Some(String::from("mine.yml")), home(), true, true);
    assert_eq!(r.unwrap(), "mine.yml");
}

#[test]
fn explicit_path_wins_when_nothing_else_exists() {
    let r = resolve_config_path(Some(String::from("mine.yml")), None, false, false);
    assert_eq!(r.unwrap(), "mine.yml");
}

#[test]
fn explicit_path_is_not_existence_checked() {
    let r = resolve_config_path(Some(String::from("no/such/file.yml")), home(), true, true);
    assert_eq!(r.unwrap(), "no/such/file.yml");
}

#[test]
fn home_config_wins_without_explicit_path() {
    let r = resolve_config_path(None, home(), true, true);
    assert_eq!(r.unwrap(), "/home/op/.quickmail.yml");
}

#[test]
fn home_config_wins_when_cwd_config_is_absent() {
    let r = resolve_config_path(None, home(), true, false);
    assert_eq!(r.unwrap(), "/home/op/.quickmail.yml");
}

#[test]
fn cwd_config_wins_when_home_candidate_does_not_exist() {
    let r = resolve_config_path(None, home(), false, true);
    assert_eq!(r.unwrap(), "config.yml");
}

#[test]
fn cwd_config_wins_when_no_home_directory_is_known() {
    let r = resolve_config_path(None, None, false, true);
    assert_eq!(r.unwrap(), "config.yml");
}

#[test]
fn not_found_when_no_probe_succeeds() {
    let r = resolve_config_path(None, home(), false, false);
    assert!(matches!(r, Err(MailError::ConfigNotFound)));
}

#[test]
fn not_found_without_home_directory_or_cwd_config() {
    let r = resolve_config_path(None, None, false, false);
    assert!(matches!(r, Err(MailError::ConfigNotFound)));
}

#[test]
fn not_found_message_names_the_alternatives() {
    let e = resolve_config_path(None, None, false, false).unwrap_err();
    let m = e.message();
    assert!(m.contains(".quickmail.yml"));
    assert!(m.contains("config.yml"));
    assert!(m.contains("config path"));
}
