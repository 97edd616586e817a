//! The routing table: protocol names, and which server a protocol gets.

use sluice::config::{
    MailProtocol, MailProtocolParseError, NetSocketAddrs, ProtocolTable, SluiceState, SocketAddr,
};
use sluice::error::{ProxyTableLookupErrorKind, ServiceErrorKind};
use std::collections::HashMap;
use std::str::FromStr;

const ALL: [MailProtocol; 4] = [
    MailProtocol::Smtp,
    MailProtocol::SmtpAuthenticated,
    MailProtocol::Imap,
    MailProtocol::Pop3,
];

fn addr(s: &str) -> SocketAddr {
    let (ip, port) = s.rsplit_once(':').expect("test address has a port");
    SocketAddr { ip: ip.to_string(), port: port.parse().expect("test address is valid") }
}

fn table(entries: &[(&str, &str)]) -> NetSocketAddrs {
    let mut parsed = Vec::new();
    for (protocol, address) in entries {
        parsed.push((MailProtocol::from_str(protocol).expect("valid name"), addr(address)));
    }
    NetSocketAddrs::ByProtocol(ProtocolTable::from_entries(parsed))
}

#[test]
fn parses_both_proxy_map_forms() {
    let proxy_map: HashMap<&str, NetSocketAddrs> = HashMap::from([
        ("single.test", NetSocketAddrs::Single(addr("10.0.0.5:25"))),
        (
            "split.test",
            table(&[
                ("smtp", "10.0.0.6:25"),
                ("smtp_authenticated", "10.0.0.6:587"),
                ("imap", "10.0.0.6:143"),
            ]),
        ),
        ("smtponly.test", table(&[("smtp", "10.0.0.7:25")])),
        ("authonly.test", table(&[("smtp_authenticated", "10.0.0.8:587")])),
    ]);
    let get = |domain: &str, protocol: MailProtocol| {
        proxy_map
            .get(domain)
            .unwrap_or_else(|| panic!("{domain} missing from proxy_map"))
            .get(&protocol)
            .map_err(|err| err.chain())
    };

    // A single address answers for every protocol.
    assert_eq!(get("single.test", MailProtocol::Smtp), Ok(addr("10.0.0.5:25")));
    assert_eq!(get("single.test", MailProtocol::SmtpAuthenticated), Ok(addr("10.0.0.5:25")));
    assert_eq!(get("single.test", MailProtocol::Imap), Ok(addr("10.0.0.5:25")));

    // An explicit per-protocol entry wins over the fallback.
    assert_eq!(get("split.test", MailProtocol::Smtp), Ok(addr("10.0.0.6:25")));
    assert_eq!(get("split.test", MailProtocol::SmtpAuthenticated), Ok(addr("10.0.0.6:587")));
    assert_eq!(get("split.test", MailProtocol::Imap), Ok(addr("10.0.0.6:143")));

    // No `smtp_authenticated` entry falls back to the `smtp` one...
    assert_eq!(get("smtponly.test", MailProtocol::SmtpAuthenticated), Ok(addr("10.0.0.7:25")));
    // ...but never the reverse, and never across unrelated protocols.
    assert!(get("authonly.test", MailProtocol::Smtp).is_err());
    assert!(get("smtponly.test", MailProtocol::Imap).is_err());
}

#[test]
fn missing_entry_is_a_protocol_lookup_failure() {
    let error = table(&[]).get(&MailProtocol::SmtpAuthenticated).expect_err("empty table");
    assert_eq!(error.kind, ProxyTableLookupErrorKind::ProtocolLookupFailed);
    assert!(error.cause.is_none());
}

#[test]
fn last_entry_for_a_protocol_counts() {
    let table = table(&[("imap", "10.0.0.1:143"), ("pop3", "10.0.0.1:110"), ("imap", "10.0.0.2:143")]);
    assert_eq!(table.get(&MailProtocol::Imap).ok(), Some(addr("10.0.0.2:143")));
    assert_eq!(table.get(&MailProtocol::Pop3).ok(), Some(addr("10.0.0.1:110")));
    assert!(table.get(&MailProtocol::Smtp).is_err());
}

#[test]
fn protocol_names_parse_back() {
    for protocol in ALL {
        assert_eq!(MailProtocol::from_str(&protocol.to_string()).ok(), Some(protocol));
    }
    assert_eq!(MailProtocol::SmtpAuthenticated.to_string(), "smtp_authenticated");
}

#[test]
fn unknown_protocol_names_are_answered_with_the_known_ones() {
    for name in ["smtp_auth", "", "SMTP", " smtp", "smtp ", "imaps"] {
        let error: MailProtocolParseError = MailProtocol::from_str(name).expect_err("unknown name");
        let message = error.to_string();
        for protocol in ALL {
            assert!(message.contains(&protocol.to_string()), "not listed in: {message}");
        }
        assert_eq!(
            message,
            "mail protocol must be \"smtp\", \"smtp_authenticated\", \"imap\", or \"pop3\""
        );
    }
}

#[test]
fn logging_in_only_concerns_smtp() {
    let after = |mut protocol: MailProtocol, authenticated: bool| {
        protocol.set_authenticated(authenticated);
        protocol
    };
    assert_eq!(after(MailProtocol::Smtp, true), MailProtocol::SmtpAuthenticated);
    assert_eq!(after(MailProtocol::Smtp, false), MailProtocol::Smtp);
    assert_eq!(after(MailProtocol::SmtpAuthenticated, true), MailProtocol::SmtpAuthenticated);
    assert_eq!(after(MailProtocol::SmtpAuthenticated, false), MailProtocol::Smtp);
    for protocol in [MailProtocol::Imap, MailProtocol::Pop3] {
        assert_eq!(after(protocol, true), protocol);
        assert_eq!(after(protocol, false), protocol);
    }
    for protocol in ALL {
        for authenticated in [true, false] {
            assert_eq!(
                after(after(protocol, !authenticated), authenticated),
                after(protocol, authenticated)
            );
        }
    }
}

#[test]
fn later_entries_of_a_domain_replace_earlier_ones() {
    let mut state = SluiceState::new();
    assert!(state.proxy_map.is_empty());
    state.insert("a.test".to_string(), NetSocketAddrs::Single(addr("10.0.0.1:25")));
    state.insert("a.test".to_string(), NetSocketAddrs::Single(addr("10.0.0.2:25")));
    assert_eq!(state.proxy_map.len(), 1);
    let found = state.proxy_map.get("a.test").expect("managed").get(&MailProtocol::Imap);
    assert_eq!(found.ok(), Some(addr("10.0.0.2:25")));
}

#[test]
fn service_errors_have_messages() {
    assert_eq!(ServiceErrorKind::Config.to_string(), "config error");
    assert_eq!(ServiceErrorKind::Http.to_string(), "failed to start http server");
}
