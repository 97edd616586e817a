//! What can go wrong, as a service and when a mail session is routed, and how it is put into words.

use crate::smtp_status::{ProvidesSmtpStatus, SmtpStatus, StatusClass, StatusSubject};
use crate::text::{replace_char, replaced};
use vstd::prelude::*;

verus! {

/// Why the service as a whole could not start or go on.
#[derive(Debug, Clone, Copy, PartialEq, Eq, Structural)]
pub enum ServiceErrorKind {
    /// The configuration file could not be read.
    Config,
    /// No listening address could be bound.
    Http,
}

impl ServiceErrorKind {
    /// The message for an operator.
    pub open spec fn spec_message(self) -> Seq<char> {
        match self {
            ServiceErrorKind::Config => "config error"@,
            ServiceErrorKind::Http => "failed to start http server"@,
        }
    }

    /// The message for an operator.
    pub fn to_string(&self) -> (r: String)
        ensures
            r@ == self.spec_message(),
    {
        match self {
            ServiceErrorKind::Config => "config error".to_owned(),
            ServiceErrorKind::Http => "failed to start http server".to_owned(),
        }
    }
}

/// Why a mail session was refused an upstream.
#[derive(Debug, Clone, Copy, PartialEq, Eq, Structural)]
pub enum ProxyTableLookupErrorKind {
    /// Neither the recipient's nor the sender's domain is in the routing table.
    LookupFailed,
    /// The domain of the user who logs in is not in the routing table.
    AuthLookupFailed,
    /// The sender, or the user who logs in, is no e-mail address.
    InvalidFrom,
    /// The recipient is no e-mail address.
    InvalidRcpt,
    /// The proxy named no protocol, or none that is known.
    ProtocolUnknown,
    /// The domain is in the routing table, but not for this protocol.
    ProtocolLookupFailed,
}

impl ProxyTableLookupErrorKind {
    /// The message for a mail client.
    pub open spec fn spec_message(self) -> Seq<char> {
        match self {
            ProxyTableLookupErrorKind::LookupFailed =>
                "neither the sending nor receiving domain is associated with this server"@,
            ProxyTableLookupErrorKind::AuthLookupFailed =>
                "this server does not handle logins for the specified mail domain"@,
            ProxyTableLookupErrorKind::InvalidFrom => "invalid sender"@,
            ProxyTableLookupErrorKind::InvalidRcpt => "invalid recipient"@,
            ProxyTableLookupErrorKind::ProtocolUnknown =>
                "sluice doesn't know of the protocol given by nginx"@,
            ProxyTableLookupErrorKind::ProtocolLookupFailed =>
                "the current mail protocol cannot be used with the specified mail domain"@,
        }
    }

    /// The reply code for a mail client.
    pub open spec fn spec_status(self) -> SmtpStatus {
        match self {
            ProxyTableLookupErrorKind::LookupFailed => SmtpStatus {
                class: StatusClass::PermFail,
                subject: StatusSubject::SecurityOrPolicy,
                basic_detail: 50,
                extended_detail: 1,
            },
            ProxyTableLookupErrorKind::AuthLookupFailed => SmtpStatus {
                class: StatusClass::PermFail,
                subject: StatusSubject::SecurityOrPolicy,
                basic_detail: 50,
                extended_detail: 1,
            },
            ProxyTableLookupErrorKind::InvalidFrom => SmtpStatus {
                class: StatusClass::PermFail,
                subject: StatusSubject::Addressing,
                basic_detail: 1,
                extended_detail: 7,
            },
            ProxyTableLookupErrorKind::InvalidRcpt => SmtpStatus {
                class: StatusClass::PermFail,
                subject: StatusSubject::Addressing,
                basic_detail: 1,
                extended_detail: 3,
            },
            ProxyTableLookupErrorKind::ProtocolUnknown => SmtpStatus {
                class: StatusClass::TempFail,
                subject: StatusSubject::MailSystem,
                basic_detail: 51,
                extended_detail: 5,
            },
            ProxyTableLookupErrorKind::ProtocolLookupFailed => SmtpStatus {
                class: StatusClass::PermFail,
                subject: StatusSubject::SecurityOrPolicy,
                basic_detail: 50,
                extended_detail: 0,
            },
        }
    }

    /// The message for a mail client.
    pub fn to_string(&self) -> (r: String)
        ensures
            r@ == self.spec_message(),
    {
        match self {
            ProxyTableLookupErrorKind::LookupFailed =>
                "neither the sending nor receiving domain is associated with this server".to_owned(),
            ProxyTableLookupErrorKind::AuthLookupFailed =>
                "this server does not handle logins for the specified mail domain".to_owned(),
            ProxyTableLookupErrorKind::InvalidFrom => "invalid sender".to_owned(),
            ProxyTableLookupErrorKind::InvalidRcpt => "invalid recipient".to_owned(),
            ProxyTableLookupErrorKind::ProtocolUnknown =>
                "sluice doesn't know of the protocol given by nginx".to_owned(),
            ProxyTableLookupErrorKind::ProtocolLookupFailed =>
                "the current mail protocol cannot be used with the specified mail domain".to_owned(),
        }
    }
}

/// A refusal: its kind and, where something else caused it, what that said.
#[derive(Debug, Clone)]
pub struct ProxyTableLookupError {
    /// Why the session was refused.
    pub kind: ProxyTableLookupErrorKind,
    /// The message of what caused it: of an address that could not be parsed.
    pub cause: Option<String>,
}

/// A refusal as a mathematical value.
pub struct LookupErrorView {
    /// Why the session was refused.
    pub kind: ProxyTableLookupErrorKind,
    /// The message of what caused it.
    pub cause: Option<Seq<char>>,
}

impl LookupErrorView {
    /// The refusal of the given kind that nothing else caused.
    pub open spec fn plain(kind: ProxyTableLookupErrorKind) -> LookupErrorView {
        LookupErrorView { kind, cause: None }
    }

    /// The refusal of the given kind that something with the message `cause` led to.
    pub open spec fn caused(kind: ProxyTableLookupErrorKind, cause: Seq<char>) -> LookupErrorView {
        LookupErrorView { kind, cause: Some(cause) }
    }

    /// The message, followed by that of the cause where there is one.
    pub open spec fn chain(self) -> Seq<char> {
        match self.cause {
            None => self.kind.spec_message(),
            Some(cause) => self.kind.spec_message() + " ∵ "@ + cause,
        }
    }

    /// The chain of messages as a mail client gets it, with a colon for every `∵`.
    pub open spec fn client_text(self) -> Seq<char> {
        replaced(self.chain(), '∵', ':')
    }
}

impl View for ProxyTableLookupError {
    type V = LookupErrorView;

    open spec fn view(&self) -> LookupErrorView {
        LookupErrorView {
            kind: self.kind,
            cause: match self.cause {
                None => None,
                Some(cause) => Some(cause@),
            },
        }
    }
}

impl ProxyTableLookupError {
    /// Neither the recipient's nor the sender's domain is in the routing table.
    pub fn lookup_failed() -> (r: ProxyTableLookupError)
        ensures
            r@ == LookupErrorView::plain(ProxyTableLookupErrorKind::LookupFailed),
    {
        ProxyTableLookupError { kind: ProxyTableLookupErrorKind::LookupFailed, cause: None }
    }

    /// The domain of the user who logs in is not in the routing table.
    pub fn auth_lookup_failed() -> (r: ProxyTableLookupError)
        ensures
            r@ == LookupErrorView::plain(ProxyTableLookupErrorKind::AuthLookupFailed),
    {
        ProxyTableLookupError { kind: ProxyTableLookupErrorKind::AuthLookupFailed, cause: None }
    }

    /// The sender, or the user who logs in, could not be parsed as an address.
    pub fn invalid_from(cause: String) -> (r: ProxyTableLookupError)
        ensures
            r@ == LookupErrorView::caused(ProxyTableLookupErrorKind::InvalidFrom, cause@),
    {
        ProxyTableLookupError { kind: ProxyTableLookupErrorKind::InvalidFrom, cause: Some(cause) }
    }

    /// The recipient could not be parsed as an address.
    pub fn invalid_rcpt(cause: String) -> (r: ProxyTableLookupError)
        ensures
            r@ == LookupErrorView::caused(ProxyTableLookupErrorKind::InvalidRcpt, cause@),
    {
        ProxyTableLookupError { kind: ProxyTableLookupErrorKind::InvalidRcpt, cause: Some(cause) }
    }

    /// The proxy named no protocol, or none that is known.
    pub fn protocol_unknown() -> (r: ProxyTableLookupError)
        ensures
            r@ == LookupErrorView::plain(ProxyTableLookupErrorKind::ProtocolUnknown),
    {
        ProxyTableLookupError { kind: ProxyTableLookupErrorKind::ProtocolUnknown, cause: None }
    }

    /// The domain is in the routing table, but not for this protocol.
    pub fn protocol_lookup_failed() -> (r: ProxyTableLookupError)
        ensures
            r@ == LookupErrorView::plain(ProxyTableLookupErrorKind::ProtocolLookupFailed),
    {
        ProxyTableLookupError { kind: ProxyTableLookupErrorKind::ProtocolLookupFailed, cause: None }
    }

    /// The message alone, without that of the cause.
    pub fn to_string(&self) -> (r: String)
        ensures
            r@ == self@.kind.spec_message(),
    {
        self.kind.to_string()
    }

    /// The message, followed by that of the cause where there is one.
    pub fn chain(&self) -> (r: String)
        ensures
            r@ == self@.chain(),
    {
        let mut r = self.kind.to_string();
        match &self.cause {
            None => {},
            Some(cause) => {
                r.append(" ∵ ");
                r.append(cause.as_str());
            },
        }
        r
    }

    /// The chain of messages as a mail client gets it, with a colon for every `∵`.
    pub fn client_text(&self) -> (r: String)
        ensures
            r@ == self@.client_text(),
    {
        replace_char(self.chain().as_str(), '∵', ':')
    }
}

impl ProvidesSmtpStatus for ProxyTableLookupError {
    open spec fn spec_smtp_status(&self) -> SmtpStatus {
        self@.kind.spec_status()
    }

    fn smtp_status(&self) -> (r: SmtpStatus) {
        match self.kind {
            ProxyTableLookupErrorKind::LookupFailed => SmtpStatus::from(
                (StatusClass::PermFail, StatusSubject::SecurityOrPolicy, 50, 1),
            ),
            ProxyTableLookupErrorKind::AuthLookupFailed => SmtpStatus::from(
                (StatusClass::PermFail, StatusSubject::SecurityOrPolicy, 50, 1),
            ),
            ProxyTableLookupErrorKind::InvalidFrom => SmtpStatus::from(
                (StatusClass::PermFail, StatusSubject::Addressing, 1, 7),
            ),
            ProxyTableLookupErrorKind::InvalidRcpt => SmtpStatus::from(
                (StatusClass::PermFail, StatusSubject::Addressing, 1, 3),
            ),
            ProxyTableLookupErrorKind::ProtocolUnknown => SmtpStatus::from(
                (StatusClass::TempFail, StatusSubject::MailSystem, 51, 5),
            ),
            ProxyTableLookupErrorKind::ProtocolLookupFailed => SmtpStatus::from(
                (StatusClass::PermFail, StatusSubject::SecurityOrPolicy, 50, 0),
            ),
        }
    }
}

} // verus!
