//! The routing table: which upstream server a mail domain is sent to, for which protocol.

use crate::error::{LookupErrorView, ProxyTableLookupError, ProxyTableLookupErrorKind};
use crate::text::{printable, same_text};
use vstd::hash_map::StringHashMap;
use vstd::prelude::*;

verus! {

/// The address of an upstream server.
#[derive(Debug, PartialEq, Eq)]
pub struct SocketAddr {
    /// The IP address, as text.
    pub ip: String,
    /// The TCP port.
    pub port: u16,
}

impl SocketAddr {
    /// Whether the IP address can be sent as the value of a header, as that of every IP address
    /// can.
    pub open spec fn well_formed(self) -> bool {
        printable(self.ip@)
    }
}

impl Clone for SocketAddr {
    fn clone(&self) -> (r: SocketAddr)
        ensures
            r == *self,
    {
        SocketAddr { ip: self.ip.clone(), port: self.port }
    }
}

/// What is spoken between a mail client and the proxy.
#[derive(Debug, Clone, Copy, PartialEq, Eq, Hash, Structural)]
pub enum MailProtocol {
    /// SMTP from a client that has not logged in.
    Smtp,
    /// SMTP from a client that logs in. Servers often take such mail on a port of its own (587
    /// rather than 25), so it can be routed apart.
    SmtpAuthenticated,
    /// IMAP.
    Imap,
    /// POP3.
    Pop3,
}

/// The text was no protocol name.
#[derive(Debug, Clone, Copy, PartialEq, Eq, Structural)]
pub struct MailProtocolParseError {}

impl MailProtocolParseError {
    /// The message for an operator.
    pub fn to_string(&self) -> (r: String)
        ensures
            r@
                == "mail protocol must be \"smtp\", \"smtp_authenticated\", \"imap\", or \"pop3\""@,
    {
        "mail protocol must be \"smtp\", \"smtp_authenticated\", \"imap\", or \"pop3\"".to_owned()
    }
}

impl MailProtocol {
    /// The name of this protocol, in a configuration and in a request.
    pub open spec fn spec_name(self) -> Seq<char> {
        match self {
            MailProtocol::Smtp => "smtp"@,
            MailProtocol::SmtpAuthenticated => "smtp_authenticated"@,
            MailProtocol::Imap => "imap"@,
            MailProtocol::Pop3 => "pop3"@,
        }
    }

    /// The protocol with the given name, if there is one.
    pub open spec fn spec_parse(s: Seq<char>) -> Option<MailProtocol> {
        if s == "smtp"@ {
            Some(MailProtocol::Smtp)
        } else if s == "smtp_authenticated"@ {
            Some(MailProtocol::SmtpAuthenticated)
        } else if s == "imap"@ {
            Some(MailProtocol::Imap)
        } else if s == "pop3"@ {
            Some(MailProtocol::Pop3)
        } else {
            None
        }
    }

    /// This protocol, given whether the client logs in. Only for SMTP does that make a
    /// difference: IMAP and POP3 sessions are seen while they log in and at no other time.
    pub open spec fn spec_authenticated(self, authenticated: bool) -> MailProtocol {
        match self {
            MailProtocol::Smtp | MailProtocol::SmtpAuthenticated => if authenticated {
                MailProtocol::SmtpAuthenticated
            } else {
                MailProtocol::Smtp
            },
            other => other,
        }
    }

    /// Takes into account whether the client logs in.
    pub fn set_authenticated(&mut self, authenticated: bool)
        ensures
            *final(self) == old(self).spec_authenticated(authenticated),
    {
        match (*self, authenticated) {
            (MailProtocol::Smtp, true) => *self = MailProtocol::SmtpAuthenticated,
            (MailProtocol::SmtpAuthenticated, false) => *self = MailProtocol::Smtp,
            _ => {},
        }
    }

    /// The name of this protocol.
    pub fn to_string(&self) -> (r: String)
        ensures
            r@ == self.spec_name(),
    {
        match self {
            MailProtocol::Smtp => "smtp".to_owned(),
            MailProtocol::SmtpAuthenticated => "smtp_authenticated".to_owned(),
            MailProtocol::Imap => "imap".to_owned(),
            MailProtocol::Pop3 => "pop3".to_owned(),
        }
    }
}

impl std::str::FromStr for MailProtocol {
    type Err = MailProtocolParseError;

    fn from_str(s: &str) -> (r: Result<MailProtocol, MailProtocolParseError>)
        ensures
            r == (match MailProtocol::spec_parse(s@) {
                Some(protocol) => Ok::<MailProtocol, MailProtocolParseError>(protocol),
                None => Err(MailProtocolParseError {  }),
            }),
    {
        if same_text(s, "smtp") {
            Ok(MailProtocol::Smtp)
        } else if same_text(s, "smtp_authenticated") {
            Ok(MailProtocol::SmtpAuthenticated)
        } else if same_text(s, "imap") {
            Ok(MailProtocol::Imap)
        } else if same_text(s, "pop3") {
            Ok(MailProtocol::Pop3)
        } else {
            Err(MailProtocolParseError {  })
        }
    }
}

/// The upstream servers of one domain, at most one for each protocol.
#[derive(Debug, Clone)]
pub struct ProtocolTable {
    smtp: Option<SocketAddr>,
    smtp_authenticated: Option<SocketAddr>,
    imap: Option<SocketAddr>,
    pop3: Option<SocketAddr>,
}

/// The table that results from entering `entries` one after the other: of several for one
/// protocol, the last counts.
pub open spec fn entered(entries: Seq<(MailProtocol, SocketAddr)>) -> Map<MailProtocol, SocketAddr>
    decreases entries.len(),
{
    if entries.len() == 0 {
        Map::empty()
    } else {
        entered(entries.drop_last()).insert(entries.last().0, entries.last().1)
    }
}

impl View for ProtocolTable {
    type V = Map<MailProtocol, SocketAddr>;

    closed spec fn view(&self) -> Map<MailProtocol, SocketAddr> {
        Map::new(
            |protocol: MailProtocol| self.slot(protocol) is Some,
            |protocol: MailProtocol| self.slot(protocol)->0,
        )
    }
}

impl ProtocolTable {
    spec fn slot(&self, protocol: MailProtocol) -> Option<SocketAddr> {
        match protocol {
            MailProtocol::Smtp => self.smtp,
            MailProtocol::SmtpAuthenticated => self.smtp_authenticated,
            MailProtocol::Imap => self.imap,
            MailProtocol::Pop3 => self.pop3,
        }
    }

    /// A table without an entry.
    pub fn new() -> (r: ProtocolTable)
        ensures
            r@ == Map::<MailProtocol, SocketAddr>::empty(),
    {
        let r = ProtocolTable { smtp: None, smtp_authenticated: None, imap: None, pop3: None };
        proof {
            assert(r@ =~= Map::<MailProtocol, SocketAddr>::empty());
        }
        r
    }

    /// A table with the given entries; of several for one protocol, the last counts.
    pub fn from_entries(entries: Vec<(MailProtocol, SocketAddr)>) -> (r: ProtocolTable)
        ensures
            r@ == entered(entries@),
    {
        let mut r = ProtocolTable::new();
        for i in 0..entries.len()
            invariant
                r@ == entered(entries@.take(i as int)),
        {
            r.insert(entries[i].0, entries[i].1.clone());
            proof {
                assert(entries@.take(i + 1).drop_last() =~= entries@.take(i as int));
            }
        }
        proof {
            assert(entries@.take(entries@.len() as int) =~= entries@);
        }
        r
    }

    /// Enters a server for a protocol, in place of an earlier one.
    pub fn insert(&mut self, protocol: MailProtocol, addr: SocketAddr)
        ensures
            final(self)@ == old(self)@.insert(protocol, addr),
    {
        match protocol {
            MailProtocol::Smtp => self.smtp = Some(addr),
            MailProtocol::SmtpAuthenticated => self.smtp_authenticated = Some(addr),
            MailProtocol::Imap => self.imap = Some(addr),
            MailProtocol::Pop3 => self.pop3 = Some(addr),
        }
        proof {
            assert(self@ =~= old(self)@.insert(protocol, addr));
        }
    }

    /// The server that was entered for a protocol.
    pub fn get(&self, protocol: MailProtocol) -> (r: Option<&SocketAddr>)
        ensures
            match r {
                Some(addr) => self@.contains_key(protocol) && *addr == self@[protocol],
                None => !self@.contains_key(protocol),
            },
    {
        match protocol {
            MailProtocol::Smtp => self.smtp.as_ref(),
            MailProtocol::SmtpAuthenticated => self.smtp_authenticated.as_ref(),
            MailProtocol::Imap => self.imap.as_ref(),
            MailProtocol::Pop3 => self.pop3.as_ref(),
        }
    }
}

/// Where the sessions of one domain are sent.
#[derive(Debug, Clone)]
pub enum NetSocketAddrs {
    /// To one server, whatever the protocol.
    Single(SocketAddr),
    /// To a server that depends on the protocol.
    ByProtocol(ProtocolTable),
}

impl NetSocketAddrs {
    /// The server for a protocol: the single one, or the one entered for the protocol, or, for a
    /// client that logs in over SMTP where nothing was entered for that, the one for SMTP.
    pub open spec fn spec_get(self, protocol: MailProtocol) -> Option<SocketAddr> {
        match self {
            NetSocketAddrs::Single(addr) => Some(addr),
            NetSocketAddrs::ByProtocol(table) => if table@.contains_key(protocol) {
                Some(table@[protocol])
            } else if protocol == MailProtocol::SmtpAuthenticated && table@.contains_key(
                MailProtocol::Smtp,
            ) {
                Some(table@[MailProtocol::Smtp])
            } else {
                None
            },
        }
    }

    /// The server for a protocol.
    pub fn get(&self, mail_protocol: &MailProtocol) -> (r: Result<
        SocketAddr,
        ProxyTableLookupError,
    >)
        ensures
            match r {
                Ok(addr) => self.spec_get(*mail_protocol) == Some(addr),
                Err(error) => {
                    &&& self.spec_get(*mail_protocol) is None
                    &&& error@ == LookupErrorView::plain(
                        ProxyTableLookupErrorKind::ProtocolLookupFailed,
                    )
                },
            },
    {
        match self {
            NetSocketAddrs::Single(addr) => Ok(addr.clone()),
            NetSocketAddrs::ByProtocol(table) => {
                match (table.get(*mail_protocol), *mail_protocol) {
                    (Some(addr), _) => Ok(addr.clone()),
                    (None, MailProtocol::SmtpAuthenticated) => match table.get(MailProtocol::Smtp) {
                        Some(addr) => Ok(addr.clone()),
                        None => Err(ProxyTableLookupError::protocol_lookup_failed()),
                    },
                    _ => Err(ProxyTableLookupError::protocol_lookup_failed()),
                }
            },
        }
    }
}

/// What requests are answered from.
pub struct SluiceState {
    /// For each managed domain, in lower case, where its sessions are sent.
    pub proxy_map: StringHashMap<NetSocketAddrs>,
}

/// Whether all addresses in a routing table are well-formed.
pub open spec fn table_well_formed(table: Map<Seq<char>, NetSocketAddrs>) -> bool {
    forall|domain: Seq<char>, protocol: MailProtocol|
        table.contains_key(domain) && (#[trigger] table[domain].spec_get(protocol)) is Some
            ==> table[domain].spec_get(protocol)->0.well_formed()
}

impl View for SluiceState {
    type V = Map<Seq<char>, NetSocketAddrs>;

    open spec fn view(&self) -> Map<Seq<char>, NetSocketAddrs> {
        self.proxy_map@
    }
}

impl SluiceState {
    /// A state in which no domain is managed.
    pub fn new() -> (r: SluiceState)
        ensures
            r@ == Map::<Seq<char>, NetSocketAddrs>::empty(),
    {
        SluiceState { proxy_map: StringHashMap::new() }
    }

    /// Sends the sessions of a domain to the given servers, in place of earlier ones.
    pub fn insert(&mut self, domain: String, addrs: NetSocketAddrs)
        ensures
            final(self)@ == old(self)@.insert(domain@, addrs),
    {
        self.proxy_map.insert(domain, addrs);
    }
}

} // verus!
