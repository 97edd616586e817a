//! Answering the proxy's question which upstream server a mail session is to be sent to.
//!
//! The proxy asks with a request whose headers describe the session. The answer is a list of
//! headers too: it either names a server or says why there is none.

use crate::config::{table_well_formed, MailProtocol, NetSocketAddrs, SluiceState, SocketAddr};
use crate::envelope::{address_in, envelope_address, latin1, plain_text, to_latin1, to_str};
use crate::error::{LookupErrorView, ProxyTableLookupError, ProxyTableLookupErrorKind};
use crate::laws::{law_answers_are_printable, law_servers_come_from_the_table};
use crate::outside::{
    address_outcome, after_last_at, bare, header_contents, header_value, parse_address,
    plain_address,
};
use crate::smtp_status::ProvidesSmtpStatus;
use crate::text::{
    decimal, lemma_lower_is_lower, lower, printable, push_decimal, same_text, to_ascii_lowercase,
};
use std::str::FromStr;
use vstd::prelude::*;

verus! {

/// What the proxy says of a session: the values of the headers that matter, as far as they are
/// there.
#[derive(Debug)]
pub struct AuthRequest {
    /// `Auth-Method`: how the client logs in, or `none`.
    pub method: Option<Vec<u8>>,
    /// `Auth-Protocol`: the protocol of the session.
    pub protocol: Option<Vec<u8>>,
    /// `Auth-User`: the name that the client logs in with.
    pub user: Option<Vec<u8>>,
    /// `Auth-SMTP-To`: the `RCPT TO` command of the session.
    pub smtp_to: Option<Vec<u8>>,
    /// `Auth-SMTP-From`: the `MAIL FROM` command of the session.
    pub smtp_from: Option<Vec<u8>>,
}

/// A request as a mathematical value.
pub struct AuthRequestView {
    /// `Auth-Method`.
    pub method: Option<Seq<u8>>,
    /// `Auth-Protocol`.
    pub protocol: Option<Seq<u8>>,
    /// `Auth-User`.
    pub user: Option<Seq<u8>>,
    /// `Auth-SMTP-To`.
    pub smtp_to: Option<Seq<u8>>,
    /// `Auth-SMTP-From`.
    pub smtp_from: Option<Seq<u8>>,
}

/// The bytes of a value that may be absent.
pub open spec fn bytes(value: Option<Vec<u8>>) -> Option<Seq<u8>> {
    match value {
        Some(value) => Some(value@),
        None => None,
    }
}

impl View for AuthRequest {
    type V = AuthRequestView;

    open spec fn view(&self) -> AuthRequestView {
        AuthRequestView {
            method: bytes(self.method),
            protocol: bytes(self.protocol),
            user: bytes(self.user),
            smtp_to: bytes(self.smtp_to),
            smtp_from: bytes(self.smtp_from),
        }
    }
}

/// The value of a header among the contents of a header map.
pub open spec fn header(contents: Map<Seq<char>, Seq<u8>>, name: Seq<char>) -> Option<Seq<u8>> {
    if contents.contains_key(lower(name)) {
        Some(contents[lower(name)])
    } else {
        None
    }
}

/// The request that the contents of a header map make.
pub open spec fn request_in(contents: Map<Seq<char>, Seq<u8>>) -> AuthRequestView {
    AuthRequestView {
        method: header(contents, "Auth-Method"@),
        protocol: header(contents, "Auth-Protocol"@),
        user: header(contents, "Auth-User"@),
        smtp_to: header(contents, "Auth-SMTP-To"@),
        smtp_from: header(contents, "Auth-SMTP-From"@),
    }
}

impl AuthRequestView {
    /// Whether the client logs in.
    pub open spec fn authenticated(self) -> bool {
        self.method is Some && latin1(self.method->0) != "none"@
    }

    /// The protocol that sessions of this kind are routed by.
    pub open spec fn mail_protocol(self) -> Option<MailProtocol> {
        match plain_text(self.protocol) {
            Some(name) => match MailProtocol::spec_parse(name) {
                Some(protocol) => Some(protocol.spec_authenticated(self.authenticated())),
                None => None,
            },
            None => None,
        }
    }

    /// The user name, or nothing where there is none.
    pub open spec fn user_name(self) -> Seq<char> {
        match plain_text(self.user) {
            Some(name) => name,
            None => Seq::empty(),
        }
    }

    /// The address that mail is for, or nothing where there is none.
    pub open spec fn recipient(self) -> Seq<char> {
        envelope_address(self.smtp_to, "RCPT TO:"@)
    }

    /// The address that mail is from, or nothing where there is none: bounces have no sender.
    pub open spec fn sender(self) -> Seq<char> {
        envelope_address(self.smtp_from, "MAIL FROM:"@)
    }
}

/// Where the sessions of a domain are sent; nothing if the domain is not managed. Domains are
/// looked up in lower case.
pub open spec fn routed(
    table: Map<Seq<char>, NetSocketAddrs>,
    protocol: MailProtocol,
    domain: Seq<char>,
) -> Option<Result<SocketAddr, LookupErrorView>> {
    if table.contains_key(lower(domain)) {
        match table[lower(domain)].spec_get(protocol) {
            Some(addr) => Some(Ok(addr)),
            None => Some(
                Err(LookupErrorView::plain(ProxyTableLookupErrorKind::ProtocolLookupFailed)),
            ),
        }
    } else {
        None
    }
}

/// Where a session is sent whose client logs in, given what its user name is as an address.
pub open spec fn by_user(
    table: Map<Seq<char>, NetSocketAddrs>,
    protocol: MailProtocol,
    user: Result<Seq<char>, Seq<char>>,
) -> Result<SocketAddr, LookupErrorView> {
    match user {
        Err(message) => Err(
            LookupErrorView::caused(ProxyTableLookupErrorKind::InvalidFrom, message),
        ),
        Ok(domain) => match routed(table, protocol, domain) {
            Some(result) => result,
            None => Err(LookupErrorView::plain(ProxyTableLookupErrorKind::AuthLookupFailed)),
        },
    }
}

/// Where a session is sent by its recipient, given what that is as an address; nothing if the
/// recipient's domain is not managed.
pub open spec fn by_recipient(
    table: Map<Seq<char>, NetSocketAddrs>,
    protocol: MailProtocol,
    recipient: Result<Seq<char>, Seq<char>>,
) -> Option<Result<SocketAddr, LookupErrorView>> {
    match recipient {
        Err(message) => Some(
            Err(LookupErrorView::caused(ProxyTableLookupErrorKind::InvalidRcpt, message)),
        ),
        Ok(domain) => routed(table, protocol, domain),
    }
}

/// Where a session is sent by its sender, given what that is as an address, if there is one.
pub open spec fn by_sender(
    table: Map<Seq<char>, NetSocketAddrs>,
    protocol: MailProtocol,
    sender: Option<Result<Seq<char>, Seq<char>>>,
) -> Result<SocketAddr, LookupErrorView> {
    match sender {
        None => Err(LookupErrorView::plain(ProxyTableLookupErrorKind::LookupFailed)),
        Some(Err(message)) => Err(
            LookupErrorView::caused(ProxyTableLookupErrorKind::InvalidFrom, message),
        ),
        Some(Ok(domain)) => match routed(table, protocol, domain) {
            Some(result) => result,
            None => Err(LookupErrorView::plain(ProxyTableLookupErrorKind::LookupFailed)),
        },
    }
}

/// Where a session is sent, given its protocol, whether the client logs in, and the texts that are
/// looked at for addresses: by the user if the client logs in, and else by the recipient or, if the
/// recipient's domain is not managed, by the sender, if there is one.
pub open spec fn decided_on(
    table: Map<Seq<char>, NetSocketAddrs>,
    protocol: MailProtocol,
    authenticated: bool,
    user: Seq<char>,
    recipient: Seq<char>,
    sender: Seq<char>,
) -> Result<SocketAddr, LookupErrorView> {
    if authenticated {
        by_user(table, protocol, address_outcome(user))
    } else {
        match by_recipient(table, protocol, address_outcome(recipient)) {
            Some(result) => result,
            None => by_sender(
                table,
                protocol,
                if sender.len() == 0 {
                    None
                } else {
                    Some(address_outcome(sender))
                },
            ),
        }
    }
}

/// Where the session of a request is sent.
pub open spec fn decided(
    table: Map<Seq<char>, NetSocketAddrs>,
    request: AuthRequestView,
) -> Result<SocketAddr, LookupErrorView> {
    match request.mail_protocol() {
        None => Err(LookupErrorView::plain(ProxyTableLookupErrorKind::ProtocolUnknown)),
        Some(protocol) => decided_on(
            table,
            protocol,
            request.authenticated(),
            request.user_name(),
            request.recipient(),
            request.sender(),
        ),
    }
}

/// A session is sent to a server.
#[derive(Debug)]
pub struct ProxyTableResponse {
    /// The upstream server.
    pub server: SocketAddr,
}

/// A result as a mathematical value.
pub open spec fn outcome(
    result: Result<ProxyTableResponse, ProxyTableLookupError>,
) -> Result<SocketAddr, LookupErrorView> {
    match result {
        Ok(response) => Ok(response.server),
        Err(error) => Err(error@),
    }
}

/// Whether a session is refused for the given reason.
pub open spec fn refused(
    result: Result<SocketAddr, LookupErrorView>,
    kind: ProxyTableLookupErrorKind,
) -> bool {
    result is Err && result->Err_0.kind == kind
}

/// Whether the message of what caused a refusal, if there is one, is printable.
pub open spec fn cause_printable(result: Result<SocketAddr, LookupErrorView>) -> bool {
    result is Err && result->Err_0.cause is Some ==> printable(result->Err_0.cause->0)
}

/// Whether addresses of the ordinary form are not refused as none.
pub open spec fn plain_addresses_pass(
    request: AuthRequestView,
    result: Result<SocketAddr, LookupErrorView>,
) -> bool {
    if request.authenticated() {
        plain_address(request.user_name()) ==> !refused(
            result,
            ProxyTableLookupErrorKind::InvalidFrom,
        )
    } else {
        &&& plain_address(request.recipient()) ==> !refused(
            result,
            ProxyTableLookupErrorKind::InvalidRcpt,
        )
        &&& request.sender().len() == 0 || plain_address(request.sender()) ==> !refused(
            result,
            ProxyTableLookupErrorKind::InvalidFrom,
        )
    }
}

/// Whether a user name or a recipient without an `@` is refused: names such as `DOMAIN\USER` are
/// no addresses.
pub open spec fn only_addresses(
    request: AuthRequestView,
    result: Result<SocketAddr, LookupErrorView>,
) -> bool {
    request.mail_protocol() is Some ==> if request.authenticated() {
        !request.user_name().contains('@') ==> refused(
            result,
            ProxyTableLookupErrorKind::InvalidFrom,
        )
    } else {
        !request.recipient().contains('@') ==> refused(
            result,
            ProxyTableLookupErrorKind::InvalidRcpt,
        )
    }
}

/// Whether, of a bare address that is not refused as none, the domain that is looked up is what
/// follows the last `@`; and whether, once it comes to the sender, none is a failed lookup and one
/// without an `@` is refused as no address.
pub open spec fn domains_follow_at(
    table: Map<Seq<char>, NetSocketAddrs>,
    request: AuthRequestView,
    result: Result<SocketAddr, LookupErrorView>,
) -> bool {
    request.mail_protocol() is Some ==> {
        let protocol = request.mail_protocol()->0;
        if request.authenticated() {
            bare(request.user_name()) && !refused(result, ProxyTableLookupErrorKind::InvalidFrom)
                ==> result == by_user(table, protocol, Ok(after_last_at(request.user_name())))
        } else {
            bare(request.recipient()) && !refused(result, ProxyTableLookupErrorKind::InvalidRcpt)
                ==> match routed(table, protocol, after_last_at(request.recipient())) {
                Some(verdict) => result == verdict,
                None => {
                    &&& request.sender().len() == 0 ==> result == by_sender(table, protocol, None)
                    &&& request.sender().len() > 0 && !request.sender().contains('@') ==> refused(
                        result,
                        ProxyTableLookupErrorKind::InvalidFrom,
                    )
                    &&& request.sender().len() > 0 && bare(request.sender()) && !refused(
                        result,
                        ProxyTableLookupErrorKind::InvalidFrom,
                    ) ==> result == by_sender(
                        table,
                        protocol,
                        Some(Ok(after_last_at(request.sender()))),
                    )
                },
            }
        }
    }
}

/// Whether a session is sent where it would be sent with its addresses in lower case.
pub open spec fn letter_case_ignored(
    table: Map<Seq<char>, NetSocketAddrs>,
    request: AuthRequestView,
    result: Result<SocketAddr, LookupErrorView>,
) -> bool {
    request.mail_protocol() is Some ==> result == decided_on(
        table,
        request.mail_protocol()->0,
        request.authenticated(),
        lower(request.user_name()),
        lower(request.recipient()),
        lower(request.sender()),
    )
}

/// What an address is, as a mathematical value.
pub open spec fn parsed(address: Result<String, String>) -> Result<Seq<char>, Seq<char>> {
    match address {
        Ok(domain) => Ok(domain@),
        Err(message) => Err(message@),
    }
}

/// Looks a domain up. There is no result if the domain is not managed.
pub fn route(state: &SluiceState, mail_protocol: &MailProtocol, domain: &str) -> (r: Option<
    Result<ProxyTableResponse, ProxyTableLookupError>,
>)
    ensures
        match r {
            Some(result) => routed(state@, *mail_protocol, domain@) == Some(outcome(result)),
            None => routed(state@, *mail_protocol, domain@) is None,
        },
{
    match state.proxy_map.get(to_ascii_lowercase(domain).as_str()) {
        None => None,
        Some(upstreams) => match upstreams.get(mail_protocol) {
            Ok(server) => Some(Ok(ProxyTableResponse { server })),
            Err(error) => Some(Err(error)),
        },
    }
}

/// Routes a session whose client logs in, given the domain of the user name or why it has none.
pub fn route_by_user(
    state: &SluiceState,
    mail_protocol: &MailProtocol,
    user: Result<String, String>,
) -> (r: Result<ProxyTableResponse, ProxyTableLookupError>)
    ensures
        outcome(r) == by_user(state@, *mail_protocol, parsed(user)),
{
    match user {
        Err(message) => Err(ProxyTableLookupError::invalid_from(message)),
        Ok(domain) => match route(state, mail_protocol, domain.as_str()) {
            Some(result) => result,
            None => Err(ProxyTableLookupError::auth_lookup_failed()),
        },
    }
}

/// Routes a session by its recipient, given the recipient's domain or why it has none. There is no
/// result if the domain is not managed.
pub fn route_by_recipient(
    state: &SluiceState,
    mail_protocol: &MailProtocol,
    recipient: Result<String, String>,
) -> (r: Option<Result<ProxyTableResponse, ProxyTableLookupError>>)
    ensures
        match r {
            Some(result) => by_recipient(state@, *mail_protocol, parsed(recipient)) == Some(
                outcome(result),
            ),
            None => by_recipient(state@, *mail_protocol, parsed(recipient)) is None,
        },
{
    match recipient {
        Err(message) => Some(Err(ProxyTableLookupError::invalid_rcpt(message))),
        Ok(domain) => route(state, mail_protocol, domain.as_str()),
    }
}

/// Routes a session by its sender, given the sender's domain or why it has none, if there is a
/// sender.
pub fn route_by_sender(
    state: &SluiceState,
    mail_protocol: &MailProtocol,
    sender: Option<Result<String, String>>,
) -> (r: Result<ProxyTableResponse, ProxyTableLookupError>)
    ensures
        outcome(r) == by_sender(
            state@,
            *mail_protocol,
            match sender {
                None => None,
                Some(address) => Some(parsed(address)),
            },
        ),
{
    match sender {
        None => Err(ProxyTableLookupError::lookup_failed()),
        Some(Err(message)) => Err(ProxyTableLookupError::invalid_from(message)),
        Some(Ok(domain)) => match route(state, mail_protocol, domain.as_str()) {
            Some(result) => result,
            None => Err(ProxyTableLookupError::lookup_failed()),
        },
    }
}

/// Decides where the session of a request is sent.
pub fn authorize(state: &SluiceState, request: &AuthRequest) -> (r: Result<
    ProxyTableResponse,
    ProxyTableLookupError,
>)
    ensures
        outcome(r) == decided(state@, request@),
        plain_addresses_pass(request@, outcome(r)),
        only_addresses(request@, outcome(r)),
        domains_follow_at(state@, request@, outcome(r)),
        letter_case_ignored(state@, request@, outcome(r)),
        cause_printable(outcome(r)),
{
    proof {
        assert forall|domain: Seq<char>| #[trigger] lower(lower(domain)) == lower(domain) by {
            lemma_lower_is_lower(domain);
        }
    }
    let authenticated = match &request.method {
        Some(method) => !same_text(to_latin1(method).as_str(), "none"),
        None => false,
    };
    let mut mail_protocol = match &request.protocol {
        None => {
            return Err(ProxyTableLookupError::protocol_unknown());
        },
        Some(value) => match to_str(value) {
            None => {
                return Err(ProxyTableLookupError::protocol_unknown());
            },
            Some(name) => match MailProtocol::from_str(name.as_str()) {
                Err(_) => {
                    return Err(ProxyTableLookupError::protocol_unknown());
                },
                Ok(protocol) => protocol,
            },
        },
    };
    mail_protocol.set_authenticated(authenticated);

    if authenticated {
        // The envelope is not known yet while a client logs in, so the user name is all there is.
        let user = match &request.user {
            None => String::new(),
            Some(value) => match to_str(value) {
                None => String::new(),
                Some(name) => name,
            },
        };
        route_by_user(state, &mail_protocol, parse_address(user.as_str()))
    } else {
        let recipient = address_in(&request.smtp_to, "RCPT TO:");
        match route_by_recipient(state, &mail_protocol, parse_address(recipient.as_str())) {
            Some(result) => result,
            None => {
                // The upstream server is trusted to deal with a sender that nothing vouches for.
                let sender = address_in(&request.smtp_from, "MAIL FROM:");
                if sender.as_str().is_empty() {
                    route_by_sender(state, &mail_protocol, None)
                } else {
                    route_by_sender(state, &mail_protocol, Some(parse_address(sender.as_str())))
                }
            },
        }
    }
}

/// The request that the headers make.
fn request_from(headers: &axum::http::HeaderMap) -> (r: AuthRequest)
    ensures
        r@ == request_in(header_contents(*headers)),
{
    AuthRequest {
        method: header_value(headers, "Auth-Method"),
        protocol: header_value(headers, "Auth-Protocol"),
        user: header_value(headers, "Auth-User"),
        smtp_to: header_value(headers, "Auth-SMTP-To"),
        smtp_from: header_value(headers, "Auth-SMTP-From"),
    }
}

/// Decides where the session is sent that the headers of a request describe.
pub fn auth(state: &SluiceState, headers: &axum::http::HeaderMap) -> (r: Result<
    ProxyTableResponse,
    ProxyTableLookupError,
>)
    ensures
        outcome(r) == decided(state@, request_in(header_contents(*headers))),
        plain_addresses_pass(request_in(header_contents(*headers)), outcome(r)),
        only_addresses(request_in(header_contents(*headers)), outcome(r)),
        domains_follow_at(state@, request_in(header_contents(*headers)), outcome(r)),
        letter_case_ignored(state@, request_in(header_contents(*headers)), outcome(r)),
        cause_printable(outcome(r)),
{
    authorize(state, &request_from(headers))
}

/// The headers of the answer that sends a session to a server.
pub open spec fn accepting_headers(server: SocketAddr) -> Seq<(Seq<char>, Seq<char>)> {
    seq![
        ("Auth-Status"@, "OK"@),
        ("Auth-Server"@, server.ip@),
        ("Auth-Port"@, decimal(server.port as nat)),
    ]
}

/// The headers of the answer that refuses a session.
pub open spec fn refusing_headers(error: LookupErrorView) -> Seq<(Seq<char>, Seq<char>)> {
    seq![
        ("Auth-Error-Code"@, error.kind.spec_status().spec_text()),
        ("Auth-Status"@, error.client_text()),
    ]
}

/// The headers of an answer.
pub open spec fn answer(result: Result<SocketAddr, LookupErrorView>) -> Seq<
    (Seq<char>, Seq<char>),
> {
    match result {
        Ok(server) => accepting_headers(server),
        Err(error) => refusing_headers(error),
    }
}

/// Header names and values as mathematical values.
pub open spec fn named_values(headers: Seq<(String, String)>) -> Seq<(Seq<char>, Seq<char>)> {
    headers.map_values(|h: (String, String)| (h.0@, h.1@))
}

impl ProxyTableResponse {
    /// The headers of the answer.
    pub fn into_response(self) -> (r: Vec<(String, String)>)
        ensures
            named_values(r@) == accepting_headers(self.server),
    {
        let mut port = String::new();
        push_decimal(&mut port, self.server.port);
        let ghost server = self.server;
        let mut r: Vec<(String, String)> = Vec::new();
        r.push(("Auth-Status".to_owned(), "OK".to_owned()));
        r.push(("Auth-Server".to_owned(), self.server.ip));
        r.push(("Auth-Port".to_owned(), port));
        proof {
            assert(port@ =~= decimal(server.port as nat));
            assert(named_values(r@) =~= accepting_headers(server));
        }
        r
    }
}

impl ProxyTableLookupError {
    /// The headers of the answer.
    pub fn into_response(self) -> (r: Vec<(String, String)>)
        ensures
            named_values(r@) == refusing_headers(self@),
    {
        let mut r: Vec<(String, String)> = Vec::new();
        r.push(("Auth-Error-Code".to_owned(), self.smtp_status().to_string()));
        r.push(("Auth-Status".to_owned(), self.client_text()));
        proof {
            assert(named_values(r@) =~= refusing_headers(self@));
        }
        r
    }
}

/// The headers of the answer to a request.
pub fn into_response(result: Result<ProxyTableResponse, ProxyTableLookupError>) -> (r: Vec<
    (String, String),
>)
    ensures
        named_values(r@) == answer(outcome(result)),
{
    match result {
        Ok(response) => response.into_response(),
        Err(error) => error.into_response(),
    }
}

/// Answers the request that the headers make: the headers of the answer. As long as the addresses
/// in the routing table are well-formed, the answer can always be sent.
pub fn respond(state: &SluiceState, headers: &axum::http::HeaderMap) -> (r: Vec<(String, String)>)
    ensures
        named_values(r@) == answer(decided(state@, request_in(header_contents(*headers)))),
        table_well_formed(state@) ==> forall|i: int|
            0 <= i < r@.len() ==> printable(#[trigger] r@[i].1@),
{
    let result = auth(state, headers);
    let ghost verdict = outcome(result);
    let r = into_response(result);
    proof {
        if table_well_formed(state@) {
            if let Ok(server) = verdict {
                law_servers_come_from_the_table(
                    state@,
                    request_in(header_contents(*headers)),
                    server,
                );
            }
            assert forall|i: int| 0 <= i < r@.len() implies printable(#[trigger] r@[i].1@) by {
                law_answers_are_printable(verdict, i);
                assert(named_values(r@)[i].1 == r@[i].1@);
            }
        }
    }
    r
}

} // verus!
