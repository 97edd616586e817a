//! Sessions as the proxy reports them, from the headers of its request to those of the answer.

use axum::http::{HeaderMap, HeaderName, HeaderValue};
use sluice::config::{MailProtocol, NetSocketAddrs, ProtocolTable, SluiceState, SocketAddr};
use sluice::http::{auth, into_response, respond};

const ROUTE_A_DOMAIN: &str = "routea.test";
const ROUTE_B_DOMAIN: &str = "routeb.test";
/// Unauthenticated SMTP goes to upstream A, authenticated SMTP to upstream B.
const ROUTE_SPLIT_DOMAIN: &str = "routesplit.test";
const ROUTE_IMAP_ONLY_DOMAIN: &str = "routeimaponly.test";
const ROUTE_SMTP_ONLY_DOMAIN: &str = "routesmtponly.test";
const ROUTE_AUTH_ONLY_DOMAIN: &str = "routeauthonly.test";

fn loopback(host: u8, port: u16) -> SocketAddr {
    SocketAddr { ip: format!("127.0.0.{host}"), port }
}

fn upstream_a() -> SocketAddr {
    loopback(2, 32500)
}

fn upstream_b() -> SocketAddr {
    loopback(3, 32500)
}

fn imap_upstream() -> SocketAddr {
    loopback(9, 32143)
}

fn pop3_upstream() -> SocketAddr {
    loopback(10, 32110)
}

fn state() -> SluiceState {
    let mut state = SluiceState::new();
    state.insert(ROUTE_A_DOMAIN.to_string(), NetSocketAddrs::Single(upstream_a()));
    state.insert(ROUTE_B_DOMAIN.to_string(), NetSocketAddrs::Single(upstream_b()));
    state.insert(
        ROUTE_SPLIT_DOMAIN.to_string(),
        NetSocketAddrs::ByProtocol(ProtocolTable::from_entries(vec![
            (MailProtocol::Smtp, upstream_a()),
            (MailProtocol::SmtpAuthenticated, upstream_b()),
            (MailProtocol::Pop3, pop3_upstream()),
        ])),
    );
    state.insert(
        ROUTE_IMAP_ONLY_DOMAIN.to_string(),
        NetSocketAddrs::ByProtocol(ProtocolTable::from_entries(vec![(
            MailProtocol::Imap,
            imap_upstream(),
        )])),
    );
    state.insert(
        ROUTE_SMTP_ONLY_DOMAIN.to_string(),
        NetSocketAddrs::ByProtocol(ProtocolTable::from_entries(vec![(
            MailProtocol::Smtp,
            upstream_a(),
        )])),
    );
    state.insert(
        ROUTE_AUTH_ONLY_DOMAIN.to_string(),
        NetSocketAddrs::ByProtocol(ProtocolTable::from_entries(vec![(
            MailProtocol::SmtpAuthenticated,
            upstream_a(),
        )])),
    );
    state
}

/// The headers of an answer.
#[derive(Debug, PartialEq)]
struct Answer(Vec<(String, String)>);

impl Answer {
    fn get(&self, name: &str) -> Option<&str> {
        self.0.iter().find(|(n, _)| n == name).map(|(_, value)| value.as_str())
    }

    fn code(&self) -> &str {
        self.get("Auth-Error-Code").unwrap_or_default()
    }

    /// The upstream that the session is sent to.
    fn upstream(&self) -> &'static str {
        assert_eq!(self.get("Auth-Status"), Some("OK"), "not accepted: {self:?}");
        match (self.get("Auth-Server"), self.get("Auth-Port")) {
            (Some("127.0.0.2"), Some("32500")) => "route-a",
            (Some("127.0.0.3"), Some("32500")) => "route-b",
            (Some("127.0.0.9"), Some("32143")) => "route-imap",
            (Some("127.0.0.10"), Some("32110")) => "route-pop3",
            other => panic!("unknown upstream {other:?}"),
        }
    }

    fn assert_no_upstream(&self) {
        assert!(self.get("Auth-Server").is_none(), "an upstream was named: {self:?}");
        assert!(self.get("Auth-Port").is_none(), "a port was named: {self:?}");
        assert_ne!(self.get("Auth-Status"), Some("OK"));
    }
}

fn ask(headers: &[(&str, &str)]) -> Answer {
    let mut map = HeaderMap::new();
    for (name, value) in headers {
        map.append(
            HeaderName::from_bytes(name.as_bytes()).expect("valid header name"),
            HeaderValue::from_str(value).expect("valid header value"),
        );
    }
    Answer(into_response(auth(&state(), &map)))
}

/// An SMTP session without a login, as it is reported at `RCPT TO`.
fn mail(from: &str, to: &str) -> Answer {
    ask(&[
        ("Auth-Method", "none"),
        ("Auth-User", ""),
        ("Auth-Pass", ""),
        ("Auth-Protocol", "smtp"),
        ("Auth-SMTP-Helo", "test.local"),
        ("Auth-SMTP-From", from),
        ("Auth-SMTP-To", to),
    ])
}

/// A session as it is reported at a login.
fn login(protocol: &str, user: &str) -> Answer {
    ask(&[
        ("Auth-Method", "plain"),
        ("Auth-User", user),
        ("Auth-Pass", "dummy-password"),
        ("Auth-Protocol", protocol),
    ])
}

#[test]
fn routes_unauthenticated_connection_by_recipient_domain() {
    let answer =
        mail("MAIL FROM:<sender@unrelated.test>", &format!("RCPT TO:<user@{ROUTE_A_DOMAIN}>"));
    assert_eq!(answer.upstream(), "route-a");
}

#[test]
fn routes_authenticated_connection_by_auth_user_domain() {
    let answer = login("smtp", &format!("user@{ROUTE_B_DOMAIN}"));
    assert_eq!(answer.upstream(), "route-b");
}

#[test]
fn unauthenticated_rejects_when_neither_domain_is_managed() {
    let answer = mail("MAIL FROM:<sender@unmanaged-a.test>", "RCPT TO:<user@unmanaged-b.test>");
    assert!(answer.code().starts_with("550 5.7.1"), "unexpected answer: {answer:?}");
    answer.assert_no_upstream();
}

#[test]
fn authenticated_rejects_when_domain_is_not_managed() {
    let answer = login("smtp", "user@unmanaged.test");
    assert!(answer.code().starts_with("550 5.7.1"), "unexpected answer: {answer:?}");
    answer.assert_no_upstream();
}

#[test]
fn unauthenticated_rejects_invalid_recipient_address() {
    let answer = mail("MAIL FROM:<sender@unrelated.test>", "RCPT TO:<not-an-email>");
    assert!(answer.code().starts_with("501 5.1.3"), "unexpected answer: {answer:?}");
    answer.assert_no_upstream();
}

#[test]
fn unauthenticated_rejects_invalid_sender_address_on_fallback() {
    let answer = mail("MAIL FROM:<not-an-email>", "RCPT TO:<user@unmanaged.test>");
    assert!(answer.code().starts_with("501 5.1.7"), "unexpected answer: {answer:?}");
    answer.assert_no_upstream();
}

#[test]
fn authenticated_rejects_invalid_auth_user() {
    let answer = login("smtp", "not-an-email");
    assert!(answer.code().starts_with("501 5.1.7"), "unexpected answer: {answer:?}");
    answer.assert_no_upstream();
}

#[test]
fn unauthenticated_prefers_recipient_domain_when_both_are_managed() {
    let answer = mail(
        &format!("MAIL FROM:<sender@{ROUTE_B_DOMAIN}>"),
        &format!("RCPT TO:<user@{ROUTE_A_DOMAIN}>"),
    );
    assert_eq!(answer.upstream(), "route-a");
}

#[test]
fn unauthenticated_falls_back_to_sender_domain_when_recipient_is_unmanaged() {
    let answer =
        mail(&format!("MAIL FROM:<sender@{ROUTE_B_DOMAIN}>"), "RCPT TO:<user@unmanaged.test>");
    assert_eq!(answer.upstream(), "route-b");
}

#[test]
fn routes_unauthenticated_session_on_the_smtp_entry() {
    let answer =
        mail("MAIL FROM:<sender@unrelated.test>", &format!("RCPT TO:<user@{ROUTE_SPLIT_DOMAIN}>"));
    assert_eq!(answer.upstream(), "route-a");
}

#[test]
fn routes_authenticated_session_on_the_smtp_authenticated_entry() {
    let answer = login("smtp", &format!("user@{ROUTE_SPLIT_DOMAIN}"));
    assert_eq!(answer.upstream(), "route-b");
}

#[test]
fn unauthenticated_rejects_when_domain_has_no_entry_for_this_protocol() {
    let answer = mail(
        "MAIL FROM:<sender@unrelated.test>",
        &format!("RCPT TO:<user@{ROUTE_IMAP_ONLY_DOMAIN}>"),
    );
    assert!(answer.code().starts_with("550 5.7.0"), "unexpected answer: {answer:?}");
    answer.assert_no_upstream();
}

#[test]
fn authenticated_rejects_when_domain_has_no_entry_for_this_protocol() {
    let answer = login("smtp", &format!("user@{ROUTE_IMAP_ONLY_DOMAIN}"));
    assert!(answer.code().starts_with("550 5.7.0"), "unexpected answer: {answer:?}");
    answer.assert_no_upstream();
}

#[test]
fn authenticated_falls_back_to_the_smtp_entry() {
    let answer = login("smtp", &format!("user@{ROUTE_SMTP_ONLY_DOMAIN}"));
    assert_eq!(answer.upstream(), "route-a");
}

#[test]
fn unauthenticated_does_not_fall_back_to_the_smtp_authenticated_entry() {
    let answer = mail(
        "MAIL FROM:<sender@unrelated.test>",
        &format!("RCPT TO:<user@{ROUTE_AUTH_ONLY_DOMAIN}>"),
    );
    assert!(answer.code().starts_with("550 5.7.0"), "unexpected answer: {answer:?}");
    answer.assert_no_upstream();
}

#[test]
fn single_address_mapping_answers_for_every_protocol() {
    let answer = login("smtp", &format!("user@{ROUTE_A_DOMAIN}"));
    assert_eq!(answer.upstream(), "route-a");
    for protocol in ["smtp_authenticated", "imap", "pop3"] {
        assert_eq!(login(protocol, &format!("user@{ROUTE_A_DOMAIN}")).upstream(), "route-a");
    }
}

#[test]
fn rejects_unknown_or_missing_auth_protocol() {
    for headers in [
        &[("Auth-Protocol", "gopher"), ("Auth-Method", "none")][..],
        &[("Auth-Method", "none")][..],
    ] {
        let answer = ask(headers);
        assert_eq!(
            answer.get("Auth-Error-Code"),
            Some("451 4.3.5"),
            "unexpected answer to {headers:?}: {answer:?}"
        );
        assert_ne!(answer.get("Auth-Status"), Some("OK"));
        assert!(answer.get("Auth-Server").is_none());
    }
}

#[test]
fn routes_imap_session_to_the_imap_entry() {
    let answer = login("imap", &format!("user@{ROUTE_IMAP_ONLY_DOMAIN}"));
    assert_eq!(answer.upstream(), "route-imap");
}

#[test]
fn routes_pop3_session_to_the_pop3_entry() {
    let answer = login("pop3", &format!("user@{ROUTE_SPLIT_DOMAIN}"));
    assert_eq!(answer.upstream(), "route-pop3");
}

/// For IMAP the proxy leaves the reply code out and sends on the status text alone.
#[test]
fn imap_rejects_unmanaged_domain_without_leaking_an_smtp_code() {
    let answer = login("imap", "user@unmanaged.test");
    let response = format!("a1 NO {}", answer.get("Auth-Status").expect("a status"));
    assert!(!response.contains("550") && !response.contains("5.7.0"), "leaked: {response}");
    answer.assert_no_upstream();
}

#[test]
fn pop3_rejects_unmanaged_domain_without_leaking_an_smtp_code() {
    let answer = login("pop3", "user@unmanaged.test");
    let response = format!("-ERR {}", answer.get("Auth-Status").expect("a status"));
    assert!(!response.contains("550") && !response.contains("5.7.0"), "leaked: {response}");
    answer.assert_no_upstream();
}

#[test]
fn accepting_answer_is_exact() {
    let answer = login("smtp", &format!("user@{ROUTE_B_DOMAIN}"));
    assert_eq!(
        answer.0,
        vec![
            ("Auth-Status".to_string(), "OK".to_string()),
            ("Auth-Server".to_string(), "127.0.0.3".to_string()),
            ("Auth-Port".to_string(), "32500".to_string()),
        ]
    );
}

#[test]
fn refusing_answers_are_exact() {
    let refusals = [
        (
            mail("MAIL FROM:<a@x.test>", "RCPT TO:<b@y.test>"),
            "550 5.7.1",
            "neither the sending nor receiving domain is associated with this server",
        ),
        (
            login("imap", "a@x.test"),
            "550 5.7.1",
            "this server does not handle logins for the specified mail domain",
        ),
        (
            login("imap", "nobody"),
            "501 5.1.7",
            "invalid sender : Missing separator character '@'.",
        ),
        (
            mail("MAIL FROM:<a@x.test>", "RCPT TO:<@routea.test>"),
            "501 5.1.3",
            "invalid recipient : Local part is empty.",
        ),
        (
            login("gopher", "a@x.test"),
            "451 4.3.5",
            "sluice doesn't know of the protocol given by nginx",
        ),
        (
            login("pop3", &format!("a@{ROUTE_SMTP_ONLY_DOMAIN}")),
            "550 5.7.0",
            "the current mail protocol cannot be used with the specified mail domain",
        ),
    ];
    for (answer, code, status) in refusals {
        assert_eq!(
            answer.0,
            vec![
                ("Auth-Error-Code".to_string(), code.to_string()),
                ("Auth-Status".to_string(), status.to_string()),
            ]
        );
    }
}

#[test]
fn every_answer_can_be_sent_as_headers() {
    for answer in [
        login("smtp", "a\"b@x.test"),
        login("smtp", "a@routea.test"),
        login("smtp", ""),
        login("smtp", "a@-.test"),
        login("smtp", "a@b..test"),
        login("smtp", "x <a@b"),
        mail("", ""),
    ] {
        for (name, value) in &answer.0 {
            assert!(HeaderName::from_bytes(name.as_bytes()).is_ok());
            assert!(HeaderValue::from_str(value).is_ok(), "not a header value: {value}");
        }
    }
}

#[test]
fn domain_and_user_names_such_as_windows_has_are_rejected() {
    let answer = login("imap", "DOMAIN\\USER");
    assert_eq!(answer.code(), "501 5.1.7");
}

#[test]
fn login_ignores_the_envelope() {
    let answer = ask(&[
        ("Auth-Method", "plain"),
        ("Auth-User", "user@routeb.test"),
        ("Auth-Protocol", "smtp"),
        ("Auth-SMTP-From", "MAIL FROM:<a@routea.test>"),
        ("Auth-SMTP-To", "RCPT TO:<a@routea.test>"),
    ]);
    assert_eq!(answer.upstream(), "route-b");
}

#[test]
fn mail_ignores_the_user_name() {
    let answer = ask(&[
        ("Auth-Method", "none"),
        ("Auth-User", "user@routeb.test"),
        ("Auth-Protocol", "smtp"),
        ("Auth-SMTP-To", "RCPT TO:<a@routea.test>"),
    ]);
    assert_eq!(answer.upstream(), "route-a");
}

#[test]
fn a_missing_method_is_no_login() {
    let answer = ask(&[
        ("Auth-User", "user@routeb.test"),
        ("Auth-Protocol", "smtp"),
        ("Auth-SMTP-To", "RCPT TO:<a@routea.test>"),
    ]);
    assert_eq!(answer.upstream(), "route-a");
}

#[test]
fn a_bounce_has_no_sender() {
    let answer = mail("MAIL FROM:<>", "RCPT TO:<user@unmanaged.test>");
    assert_eq!(answer.code(), "550 5.7.1");
    assert_eq!(mail("MAIL FROM:<>", "RCPT TO:<user@routea.test>").upstream(), "route-a");
}

#[test]
fn a_missing_recipient_is_invalid() {
    let answer = ask(&[
        ("Auth-Method", "none"),
        ("Auth-Protocol", "smtp"),
        ("Auth-SMTP-From", "MAIL FROM:<a@routea.test>"),
    ]);
    assert_eq!(answer.code(), "501 5.1.3");
}

#[test]
fn a_claim_of_authenticated_smtp_without_a_login_counts_for_nothing() {
    let answer = ask(&[
        ("Auth-Method", "none"),
        ("Auth-Protocol", "smtp_authenticated"),
        ("Auth-SMTP-To", "RCPT TO:<a@routesplit.test>"),
    ]);
    assert_eq!(answer.upstream(), "route-a");
}

#[test]
fn domains_are_looked_up_in_lower_case() {
    assert_eq!(login("imap", "User@RouteA.TEST").upstream(), "route-a");
    let mut state = SluiceState::new();
    state.insert("RouteA.test".to_string(), NetSocketAddrs::Single(upstream_a()));
    let mut headers = HeaderMap::new();
    headers.insert("auth-method", HeaderValue::from_static("plain"));
    headers.insert("auth-protocol", HeaderValue::from_static("imap"));
    headers.insert("auth-user", HeaderValue::from_static("user@RouteA.test"));
    assert!(auth(&state, &headers).is_err());
}

#[test]
fn header_names_ignore_case_and_the_first_value_counts() {
    let answer = ask(&[
        ("AUTH-METHOD", "plain"),
        ("auth-protocol", "imap"),
        ("aUTH-uSER", "user@routea.test"),
        ("Auth-User", "user@routeb.test"),
    ]);
    assert_eq!(answer.upstream(), "route-a");
}

#[test]
fn the_domain_is_what_follows_the_last_at_sign() {
    assert_eq!(login("imap", "\"a@routeb.test\"@routea.test").upstream(), "route-a");
    assert_eq!(login("imap", "Some Name <user@routeb.test>").upstream(), "route-b");
}

#[test]
fn headers_that_are_no_text_count_as_absent() {
    let mut headers = HeaderMap::new();
    headers.insert("auth-method", HeaderValue::from_bytes(b"none\xff").expect("valid bytes"));
    headers.insert("auth-protocol", HeaderValue::from_static("imap"));
    headers.insert("auth-user", HeaderValue::from_bytes(b"a\xff@routea.test").expect("valid bytes"));
    let error = auth(&state(), &headers).expect_err("no user");
    assert_eq!(error.chain(), "invalid sender ∵ Missing separator character '@'.");
    headers.insert("auth-protocol", HeaderValue::from_bytes(b"imap\xff").expect("valid bytes"));
    let error = auth(&state(), &headers).expect_err("no protocol");
    assert_eq!(error.to_string(), "sluice doesn't know of the protocol given by nginx");
}

#[test]
fn responding_is_deciding_and_putting_into_headers() {
    for user in ["user@routea.test", "user@unmanaged.test", "nobody", "First.Last@mail-1.routea.test"] {
        let mut headers = HeaderMap::new();
        headers.insert("auth-method", HeaderValue::from_static("plain"));
        headers.insert("auth-protocol", HeaderValue::from_static("pop3"));
        headers.insert("auth-user", HeaderValue::from_str(user).expect("valid header value"));
        assert_eq!(Answer(respond(&state(), &headers)), login("pop3", user));
    }
}

#[test]
fn addresses_of_the_ordinary_form_are_accepted() {
    let long = "a".repeat(63);
    for user in [
        "a@b".to_string(),
        "First.Last-2@Sub-1.routea.test".to_string(),
        format!("{long}@{long}"),
    ] {
        assert_eq!(login("imap", &user).code(), "550 5.7.1", "for {user}");
    }
}

#[test]
fn requests_ignore_the_case_of_addresses() {
    for (from, to) in [
        ("Sender@RouteB.TEST", "User@RouteA.Test"),
        ("Sender@RouteB.TEST", "User@Unmanaged.Test"),
        ("Not-An-Email", "User@Unmanaged.Test"),
        ("", "Not-An-Email"),
        ("", "User@RouteImapOnly.Test"),
    ] {
        let answer = mail(&format!("MAIL FROM:<{from}>"), &format!("RCPT TO:<{to}>"));
        let lower = mail(
            &format!("MAIL FROM:<{}>", from.to_ascii_lowercase()),
            &format!("RCPT TO:<{}>", to.to_ascii_lowercase()),
        );
        assert_eq!(answer, lower, "for {from} and {to}");
    }
    let long = "A".repeat(65);
    for user in [
        "User@RouteA.TEST".to_string(),
        "Some Name <User@RouteB.Test>".to_string(),
        "Some Name <User@RouteB.Test".to_string(),
        "<User@RouteB.Test>".to_string(),
        "\"A \\Z@B\"@RouteSplit.Test".to_string(),
        "\"A\"@[X-Y:Z]".to_string(),
        "\"@RouteA.Test".to_string(),
        "A@-B.Test".to_string(),
        "A..B@RouteA.Test".to_string(),
        "A@B..Test".to_string(),
        "@RouteA.Test".to_string(),
        "A@".to_string(),
        "NOBODY".to_string(),
        format!("{long}@RouteA.Test"),
        format!("A@{long}.Test"),
    ] {
        assert_eq!(login("smtp", &user), login("smtp", &user.to_ascii_lowercase()), "for {user}");
    }
}
