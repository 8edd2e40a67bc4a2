//! The configuration record: the only persistent entity of the tool, loaded
//! fresh on every invocation and immutable for the duration of a run.

use vstd::prelude::*;

verus! {

/// Mathematical model of a configuration: the five text fields as character
/// sequences and the relay port as a 16-bit unsigned integer.
#[verifier::ext_equal]
pub struct ConfigView {
    pub sender: Seq<char>,
    pub receiver: Seq<char>,
    pub smtp_server: Seq<char>,
    pub smtp_port: u16,
    pub keychain_service: Seq<char>,
    pub keychain_account: Seq<char>,
}

/// A fully populated configuration. All six fields are mandatory: the loader
/// never defaults a missing one.
#[derive(Debug)]
pub struct Config {
    /// Address the message is sent from; also the SMTP username.
    pub sender: String,
    /// Address the message is sent to.
    pub receiver: String,
    /// Hostname of the SMTP relay.
    pub smtp_server: String,
    /// Port of the SMTP relay.
    pub smtp_port: u16,
    /// Namespace of the credential-store entry holding the SMTP password.
    pub keychain_service: String,
    /// Account of the credential-store entry within that namespace.
    pub keychain_account: String,
}

impl View for Config {
    type V = ConfigView;

    open spec fn view(&self) -> ConfigView {
        ConfigView {
            sender: self.sender@,
            receiver: self.receiver@,
            smtp_server: self.smtp_server@,
            smtp_port: self.smtp_port,
            keychain_service: self.keychain_service@,
            keychain_account: self.keychain_account@,
        }
    }
}

impl Clone for Config {
    fn clone(&self) -> (r: Self)
        ensures
            r@ == self@,
    {
        Config {
            sender: self.sender.clone(),
            receiver: self.receiver.clone(),
            smtp_server: self.smtp_server.clone(),
            smtp_port: self.smtp_port,
            keychain_service: self.keychain_service.clone(),
            keychain_account: self.keychain_account.clone(),
        }
    }
}

} // verus!
