//! Error taxonomy of the pipeline. Every stage fails fast with one of these
//! kinds; the underlying cause is carried as a value, so callers can match on
//! the kind and still report the root cause.

use vstd::prelude::*;
use vstd::string::StringExecFns;

verus! {

/// One of the six mandatory configuration fields.
#[derive(Clone, Copy, Debug, PartialEq, Eq, Structural)]
pub enum ConfigField {
    Sender,
    Receiver,
    SmtpServer,
    SmtpPort,
    KeychainService,
    KeychainAccount,
}

/// Why a configuration text failed to match the schema.
#[derive(Clone, Copy, Debug, PartialEq, Eq, Structural)]
pub enum ParseFault {
    /// A mandatory field does not occur in the file.
    MissingField(ConfigField),
    /// The relay port is not a decimal 16-bit unsigned integer.
    InvalidPort,
    /// A line is neither blank, nor a comment, nor a `key: value` pair.
    MalformedLine,
}

/// A failure of the pipeline, tagged with the stage that failed and carrying
/// the underlying cause as a value.
#[derive(Debug)]
pub enum MailError {
    /// The locator found no usable configuration file path.
    ConfigNotFound,
    /// The file at `path` exists but could not be read.
    ConfigReadError { path: String, cause: String },
    /// The file at `path` was read but does not match the schema.
    ConfigParseError { path: String, fault: ParseFault },
    /// The platform credential store could not be reached.
    CredentialStoreUnavailable { cause: String },
    /// No secret is stored under this service/account pair.
    CredentialNotFound { service: String, account: String },
    /// The named field does not hold a syntactically valid address.
    AddressParseError { field: ConfigField, value: String },
    /// The relay client for `server` could not be constructed.
    TransportInitError { server: String, cause: String },
    /// Delivery over an established session failed.
    SendError { cause: String },
}

/// The short name of a configuration field, as it appears in the schema.
pub open spec fn field_name_view(f: ConfigField) -> Seq<char> {
    match f {
        ConfigField::Sender => "sender"@,
        ConfigField::Receiver => "receiver"@,
        ConfigField::SmtpServer => "smtp_server"@,
        ConfigField::SmtpPort => "smtp_port"@,
        ConfigField::KeychainService => "keychain_service"@,
        ConfigField::KeychainAccount => "keychain_account"@,
    }
}

/// The text explaining a schema fault.
pub open spec fn fault_text_view(f: ParseFault) -> Seq<char> {
    match f {
        ParseFault::MissingField(field) => "missing field "@ + field_name_view(field),
        ParseFault::InvalidPort => "smtp_port is not a decimal 16-bit unsigned integer"@,
        ParseFault::MalformedLine => "a line is neither blank, a comment, nor a key: value pair"@,
    }
}

/// The single-line text reported for a failure: it names the stage that
/// failed and the root cause. No variant carries the credential, so no
/// message can contain it.
pub open spec fn message_view(e: &MailError) -> Seq<char> {
    match e {
        MailError::ConfigNotFound => "No configuration file found. Create ~/.quickmail.yml or config.yml in the current directory, or pass an explicit config path"@,
        MailError::ConfigReadError { path, cause } => "Failed to read config file "@ + path@
            + ": "@ + cause@,
        MailError::ConfigParseError { path, fault } => "Failed to parse config file "@ + path@
            + ": "@ + fault_text_view(*fault),
        MailError::CredentialStoreUnavailable { cause } => "Failed to access the credential store: "@
            + cause@,
        MailError::CredentialNotFound { service, account } => "No credential stored for service "@
            + service@ + " and account "@ + account@,
        MailError::AddressParseError { field, value } => "Invalid "@ + field_name_view(*field)
            + " address: "@ + value@,
        MailError::TransportInitError { server, cause } => "Failed to create SMTP transport for "@
            + server@ + ": "@ + cause@,
        MailError::SendError { cause } => "Failed to send email: "@ + cause@,
    }
}

/// The schema name of a field, as an owned string.
pub fn field_name(f: ConfigField) -> (r: String)
    ensures
        r@ == field_name_view(f),
{
    match f {
        ConfigField::Sender => String::from_str("sender"),
        ConfigField::Receiver => String::from_str("receiver"),
        ConfigField::SmtpServer => String::from_str("smtp_server"),
        ConfigField::SmtpPort => String::from_str("smtp_port"),
        ConfigField::KeychainService => String::from_str("keychain_service"),
        ConfigField::KeychainAccount => String::from_str("keychain_account"),
    }
}

fn fault_text(f: ParseFault) -> (r: String)
    ensures
        r@ == fault_text_view(f),
{
    match f {
        ParseFault::MissingField(field) => {
            let mut s = String::from_str("missing field ");
            let name = field_name(field);
            s.append(name.as_str());
            s
        },
        ParseFault::InvalidPort => String::from_str(
            "smtp_port is not a decimal 16-bit unsigned integer",
        ),
        ParseFault::MalformedLine => String::from_str(
            "a line is neither blank, a comment, nor a key: value pair",
        ),
    }
}

impl MailError {
    /// Renders the single human-readable line written to standard error on a
    /// failure.
    pub fn message(&self) -> (r: String)
        ensures
            r@ == message_view(self),
    {
        match self {
            MailError::ConfigNotFound => String::from_str(
                "No configuration file found. Create ~/.quickmail.yml or config.yml in the current directory, or pass an explicit config path",
            ),
            MailError::ConfigReadError { path, cause } => {
                let mut s = String::from_str("Failed to read config file ");
                s.append(path.as_str());
                s.append(": ");
                s.append(cause.as_str());
                s
            },
            MailError::ConfigParseError { path, fault } => {
                let mut s = String::from_str("Failed to parse config file ");
                s.append(path.as_str());
                s.append(": ");
                let t = fault_text(*fault);
                s.append(t.as_str());
                s
            },
            MailError::CredentialStoreUnavailable { cause } => {
                let mut s = String::from_str("Failed to access the credential store: ");
                s.append(cause.as_str());
                s
            },
            MailError::CredentialNotFound { service, account } => {
                let mut s = String::from_str("No credential stored for service ");
                s.append(service.as_str());
                s.append(" and account ");
                s.append(account.as_str());
                s
            },
            MailError::AddressParseError { field, value } => {
                let mut s = String::from_str("Invalid ");
                let name = field_name(*field);
                s.append(name.as_str());
                s.append(" address: ");
                s.append(value.as_str());
                s
            },
            MailError::TransportInitError { server, cause } => {
                let mut s = String::from_str("Failed to create SMTP transport for ");
                s.append(server.as_str());
                s.append(": ");
                s.append(cause.as_str());
                s
            },
            MailError::SendError { cause } => {
                let mut s = String::from_str("Failed to send email: ");
                s.append(cause.as_str());
                s
            },
        }
    }
}

} // verus!
