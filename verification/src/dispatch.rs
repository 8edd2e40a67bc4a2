//! Email dispatcher: validates the two addresses, composes exactly one
//! message, and builds the authenticated relay client. The network send
//! itself is left to the caller of the library; everything decided before
//! the wire — which message, which relay session, which failure — is
//! verified here, and the plan carries a model of both: what the message
//! holds, and which server, port and credentials the session uses.
//!
//! Credential isolation: the retrieved secret flows into exactly one place,
//! the authentication half of the relay client, through
//! [`build_relay_client`], which can produce no error. No function that can
//! produce an error text receives the secret, and the composed message is
//! pinned by contract to the title, body and configuration alone; see
//! [`lemma_credential_isolation`].

use vstd::prelude::*;

use crate::config::{Config, ConfigView};
use crate::errors::{ConfigField, MailError};

verus! {

/// Model of the one message composed per invocation.
#[verifier::ext_equal]
pub struct EmailMessageView {
    pub from: Seq<char>,
    pub to: Seq<char>,
    pub subject: Seq<char>,
    pub body: Seq<char>,
}

/// The one message composed per invocation: plain text, no attachments, no
/// extra headers.
#[derive(Debug)]
pub struct EmailMessage {
    /// Sender address, taken verbatim from the configuration.
    pub from: String,
    /// Receiver address, taken verbatim from the configuration.
    pub to: String,
    /// Subject line: the operator-supplied title.
    pub subject: String,
    /// Body: the operator-supplied message text, literally.
    pub body: String,
}

impl View for EmailMessage {
    type V = EmailMessageView;

    open spec fn view(&self) -> EmailMessageView {
        EmailMessageView {
            from: self.from@,
            to: self.to@,
            subject: self.subject@,
            body: self.body@,
        }
    }
}

/// Whether a string is a syntactically valid mailbox, exactly as the mail
/// transport library's parser decides it. The verdict is a function of the
/// characters alone.
pub uninterp spec fn address_ok(s: Seq<char>) -> bool;

/// A parsed mailbox of the mail transport library.
#[verifier::external_type_specification]
#[verifier::external_body]
pub struct ExMailbox(lettre::message::Mailbox);

/// A composed message of the mail transport library.
#[verifier::external_type_specification]
#[verifier::external_body]
pub struct ExMessage(lettre::Message);

/// A relay client builder of the mail transport library.
#[verifier::external_type_specification]
#[verifier::external_body]
pub struct ExSmtpTransportBuilder(lettre::transport::smtp::SmtpTransportBuilder);

/// A relay client of the mail transport library.
#[verifier::external_type_specification]
#[verifier::external_body]
pub struct ExSmtpTransport(lettre::SmtpTransport);

/// Relies on `lettre::message::Mailbox`'s `FromStr`: parses an address,
/// succeeding exactly when the string is syntactically valid. The verdict
/// depends on the characters alone, which is what `address_ok` names.
#[verifier::external_body]
fn parse_mailbox(s: &str) -> (r: Option<lettre::message::Mailbox>)
    ensures
        r is Some <==> address_ok(s@),
{
    match s.parse::<lettre::message::Mailbox>() {
        Ok(mailbox) => Some(mailbox),
        Err(_) => None,
    }
}

/// Relies on `lettre::Message::builder`: with exactly one `from` mailbox,
/// one `to` mailbox, a subject and a plain-text body, construction always
/// succeeds (the builder only fails on a missing or ambiguous originator or
/// an empty recipient list).
#[verifier::external_body]
fn build_email(
    from: lettre::message::Mailbox,
    to: lettre::message::Mailbox,
    subject: &str,
    body: &str,
) -> (r: Result<lettre::Message, String>)
    ensures
        r is Ok,
{
    match lettre::Message::builder().from(from).to(to).subject(subject).body(body.to_string()) {
        Ok(message) => Ok(message),
        Err(e) => Err(e.to_string()),
    }
}

/// Relies on `lettre::SmtpTransport::relay`: builds an implicit-TLS relay
/// client builder for the server. Under this crate's TLS backend the call
/// is local and always succeeds: the TLS parameters are built from the
/// compiled-in roots with supported protocol versions and no client
/// identity, and the server name is stored at this stage, not parsed or
/// resolved — that happens only when a connection is opened. The secret is
/// not an argument here.
#[verifier::external_body]
fn relay_builder(server: &str) -> (r: Result<lettre::transport::smtp::SmtpTransportBuilder, String>)
    ensures
        r is Ok,
{
    match lettre::SmtpTransport::relay(server) {
        Ok(builder) => Ok(builder),
        Err(e) => Err(e.to_string()),
    }
}

/// Relies on `SmtpTransportBuilder::port`, `::credentials` and `::build`:
/// plain setters and a constructor that cannot fail. The client will
/// connect to the builder's server at `port` and authenticate with
/// username and password as given.
#[verifier::external_body]
fn finish_transport(
    builder: lettre::transport::smtp::SmtpTransportBuilder,
    port: u16,
    username: String,
    secret: String,
) -> (r: lettre::SmtpTransport) {
    builder.port(port).credentials(
        lettre::transport::smtp::authentication::Credentials::new(username, secret),
    ).build()
}

/// A parsed mailbox together with the address text it stands for.
pub struct ParsedMailbox {
    inner: lettre::message::Mailbox,
    /// The text this mailbox was parsed from.
    pub text: Ghost<Seq<char>>,
}

/// Parses an address, recording the parsed text as the mailbox's model.
fn checked_mailbox(s: &str) -> (r: Option<ParsedMailbox>)
    ensures
        r is Some <==> address_ok(s@),
        r matches Some(m) ==> m.text@ == s@,
{
    match parse_mailbox(s) {
        Some(inner) => Some(ParsedMailbox { inner, text: Ghost(s@) }),
        None => None,
    }
}

/// The composed transport-library message together with its model: it is
/// built from exactly the fields the model records, nothing else.
pub struct ComposedEmail {
    /// The message handed to the transport for sending.
    pub email: lettre::Message,
    /// From, to, subject and body, exactly as handed to the builder.
    pub model: Ghost<EmailMessageView>,
}

/// Composes the one message: subject, plain-text body, one from, one to.
/// The model records exactly what was handed to the builder.
fn compose_email(from: ParsedMailbox, to: ParsedMailbox, subject: &str, body: &str) -> (r:
    ComposedEmail)
    ensures
        r.model@ == (EmailMessageView {
            from: from.text@,
            to: to.text@,
            subject: subject@,
            body: body@,
        }),
{
    let ghost model = EmailMessageView {
        from: from.text@,
        to: to.text@,
        subject: subject@,
        body: body@,
    };
    let ParsedMailbox { inner: from_inner, text: _ } = from;
    let ParsedMailbox { inner: to_inner, text: _ } = to;
    let email = match build_email(from_inner, to_inner, subject, body) {
        Ok(email) => email,
        Err(_) => unreached(),
    };
    ComposedEmail { email, model: Ghost(model) }
}

/// The relay client together with the model of the session it opens: the
/// server and port it connects to and the credentials it presents.
pub struct RelayClient {
    /// The client that performs the send.
    pub transport: lettre::SmtpTransport,
    /// The relay server handed to the client's constructor.
    pub server: Ghost<Seq<char>>,
    /// The port set on the client.
    pub port: Ghost<u16>,
    /// The username the session authenticates as.
    pub username: Ghost<Seq<char>>,
    /// The password the session authenticates with.
    pub password: Ghost<Seq<char>>,
}

/// Builds the authenticated relay client for `server`:`port`. Construction
/// is local and cannot fail; the model records exactly the endpoint and
/// credentials handed to the transport library.
fn build_relay_client(server: &str, port: u16, username: String, secret: String) -> (r: RelayClient)
    ensures
        r.server@ == server@,
        r.port@ == port,
        r.username@ == username@,
        r.password@ == secret@,
{
    let ghost username_text = username@;
    let ghost secret_text = secret@;
    let builder = match relay_builder(server) {
        Ok(builder) => builder,
        Err(_) => unreached(),
    };
    let transport = finish_transport(builder, port, username, secret);
    RelayClient {
        transport,
        server: Ghost(server@),
        port: Ghost(port),
        username: Ghost(username_text),
        password: Ghost(secret_text),
    }
}

/// Everything decided before the network is touched: the composed message,
/// the relay client ready to authenticate, and the verified model of the
/// one message composed for this invocation.
pub struct DispatchPlan {
    /// The message to send, with the model of what it holds.
    pub email: ComposedEmail,
    /// The relay client, with the model of the session it opens.
    pub relay: RelayClient,
    /// The model of the one message composed for this invocation.
    pub message: EmailMessage,
}

/// The message the dispatcher composes: subject = title, body = the literal
/// message text, from = sender, to = receiver.
pub open spec fn composed_view(title: Seq<char>, body: Seq<char>, c: ConfigView) -> EmailMessageView {
    EmailMessageView { from: c.sender, to: c.receiver, subject: title, body: body }
}

/// The dispatch decision up to the network: which address error is raised,
/// or which message is composed. The retrieved secret is a parameter, as it
/// is of the dispatch stage, and the decision never depends on it.
pub open spec fn dispatch_decision(
    title: Seq<char>,
    body: Seq<char>,
    c: ConfigView,
    secret: Seq<char>,
) -> Result<EmailMessageView, (ConfigField, Seq<char>)> {
    if !address_ok(c.sender) {
        Err((ConfigField::Sender, c.sender))
    } else if !address_ok(c.receiver) {
        Err((ConfigField::Receiver, c.receiver))
    } else {
        Ok(composed_view(title, body, c))
    }
}

/// Credential isolation, at the decision level: whatever secret the store
/// returned, the dispatch decision — the composed message, or the address
/// error with its field and offending value — is identical, because the
/// decision is a function of title, body and configuration alone.
pub proof fn lemma_credential_isolation(
    title: Seq<char>,
    body: Seq<char>,
    c: ConfigView,
    secret1: Seq<char>,
    secret2: Seq<char>,
)
    ensures
        dispatch_decision(title, body, c, secret1) == dispatch_decision(title, body, c, secret2),
{
}

/// Composes and prepares exactly one message for dispatch, without touching
/// the network. Address validation comes first: an invalid sender fails with
/// `AddressParseError` naming the sender field and its value, before the
/// receiver is looked at and before any transport exists; then the receiver
/// likewise. With both addresses valid a plan is owed — the remaining
/// construction is local and cannot fail — and the plan's models pin
/// everything the send will use: the message is built from exactly sender,
/// receiver, title and body, and the session targets
/// `smtp_server`:`smtp_port`, authenticating with username = sender and
/// password = the retrieved credential.
pub fn prepare_dispatch(title: &str, body: &str, config: &Config, secret: String) -> (r: Result<
    DispatchPlan,
    MailError,
>)
    ensures
        (match dispatch_decision(title@, body@, config@, secret@) {
            Err((field, value)) => r matches Err(e) && e matches MailError::AddressParseError {
                field: f,
                value: v,
            } && f == field && v@ == value,
            Ok(m) => r matches Ok(plan) && plan.message@ == m && plan.email.model@ == m
                && plan.relay.server@ == config.smtp_server@ && plan.relay.port@
                == config.smtp_port && plan.relay.username@ == config.sender@
                && plan.relay.password@ == secret@,
        }),
{
    let from = match checked_mailbox(config.sender.as_str()) {
        Some(mailbox) => mailbox,
        None => {
            return Err(
                MailError::AddressParseError {
                    field: ConfigField::Sender,
                    value: config.sender.clone(),
                },
            );
        },
    };
    let to = match checked_mailbox(config.receiver.as_str()) {
        Some(mailbox) => mailbox,
        None => {
            return Err(
                MailError::AddressParseError {
                    field: ConfigField::Receiver,
                    value: config.receiver.clone(),
                },
            );
        },
    };
    let message = EmailMessage {
        from: config.sender.clone(),
        to: config.receiver.clone(),
        subject: title.to_owned(),
        body: body.to_owned(),
    };
    let email = compose_email(from, to, title, body);
    let relay = build_relay_client(
        config.smtp_server.as_str(),
        config.smtp_port,
        config.sender.clone(),
        secret,
    );
    Ok(DispatchPlan { email, relay, message })
}

} // verus!
