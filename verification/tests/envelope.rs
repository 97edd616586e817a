//! Reading header text and envelope commands, held against the regular expressions that describe
//! them.

use axum::http::HeaderValue;
use lazy_regex::Regex;
use sluice::config::{MailProtocol, NetSocketAddrs, SluiceState, SocketAddr};
use sluice::envelope::{address_in, to_str};
use sluice::error::ProxyTableLookupErrorKind;
use sluice::http::{
    authorize, route, route_by_recipient, route_by_sender, route_by_user, AuthRequest,
};

fn recipient(header: &str) -> String {
    address_in(&Some(header.as_bytes().to_vec()), "RCPT TO:")
}

#[test]
fn addresses_are_captured() {
    assert_eq!(recipient("RCPT TO:<user@a.test>"), "user@a.test");
    assert_eq!(recipient("RCPT TO: \t< \tuser@a.test>"), "user@a.test");
    assert_eq!(recipient("RCPT TO:<user@a.test \t>"), "user@a.test \t");
    assert_eq!(recipient("RCPT TO:<user@a.test> SIZE=1"), "user@a.test");
    assert_eq!(recipient("RCPT TO:<a> <b>"), "a> <b");
    assert_eq!(recipient("RCPT TO:<<a>"), "<a");
    assert_eq!(recipient("RCPT TO:<>"), "");
}

#[test]
fn other_forms_yield_nothing() {
    for header in [
        "",
        "RCPT TO",
        "RCPT TO:",
        "RCPT TO:user@a.test",
        "RCPT TO:<user@a.test",
        "RCPT TO:user@a.test>",
        "RCPT TO:>user@a.test<",
        "rcpt to:<user@a.test>",
        " RCPT TO:<user@a.test>",
        "MAIL FROM:<user@a.test>",
    ] {
        assert_eq!(recipient(header), "", "captured from {header}");
    }
    assert_eq!(address_in(&None, "RCPT TO:"), "");
    assert_eq!(address_in(&Some(b"RCPT TO:<a\xc3\xa9@a.test>".to_vec()), "RCPT TO:"), "");
}

#[test]
fn capturing_agrees_with_the_pattern() {
    let pattern = Regex::new(r"^RCPT TO:\s*<\s*(.*)\s*>\s*").expect("valid pattern");
    let alphabet = [' ', '\t', '<', '>', 'a'];
    let mut texts = vec![String::new()];
    let mut from = 0;
    for _ in 0..6 {
        let until = texts.len();
        for i in from..until {
            for c in alphabet {
                let mut longer = texts[i].clone();
                longer.push(c);
                texts.push(longer);
            }
        }
        from = until;
    }
    for text in texts {
        let header = format!("RCPT TO:{text}");
        let expected =
            pattern.captures(&header).map(|found| found[1].to_string()).unwrap_or_default();
        assert_eq!(recipient(&header), expected, "from {header:?}");
    }
}

#[test]
fn header_text_agrees_with_the_header_value() {
    for b in 0..=255u8 {
        let bytes = vec![b'x', b, b'y'];
        if let Ok(value) = HeaderValue::from_bytes(&bytes) {
            let expected = value.to_str().ok().map(str::to_string);
            assert_eq!(to_str(&bytes), expected, "for byte {b}");
        }
    }
    assert_eq!(to_str(&Vec::new()), Some(String::new()));
}

fn addr(ip: &str, port: u16) -> SocketAddr {
    SocketAddr { ip: ip.to_string(), port }
}

fn state() -> SluiceState {
    let mut state = SluiceState::new();
    state.insert("a.test".to_string(), NetSocketAddrs::Single(addr("10.0.0.1", 25)));
    state
}

#[test]
fn domains_are_routed_in_any_case() {
    let found = route(&state(), &MailProtocol::Imap, "A.Test").expect("managed");
    assert_eq!(found.expect("routed").server, addr("10.0.0.1", 25));
    assert!(route(&state(), &MailProtocol::Imap, "b.test").is_none());
}

#[test]
fn each_step_of_routing_has_its_own_refusal() {
    let smtp = MailProtocol::Smtp;
    let kind_by_user =
        |user| route_by_user(&state(), &MailProtocol::Imap, user).expect_err("refused").kind;
    assert_eq!(kind_by_user(Err("no".to_string())), ProxyTableLookupErrorKind::InvalidFrom);
    assert_eq!(
        kind_by_user(Ok("b.test".to_string())),
        ProxyTableLookupErrorKind::AuthLookupFailed
    );
    assert!(route_by_recipient(&state(), &smtp, Ok("b.test".to_string())).is_none());
    let refused = route_by_recipient(&state(), &smtp, Err("no".to_string())).expect("settled");
    assert_eq!(refused.expect_err("refused").kind, ProxyTableLookupErrorKind::InvalidRcpt);
    let kind_by_sender =
        |sender| route_by_sender(&state(), &smtp, sender).expect_err("refused").kind;
    assert_eq!(kind_by_sender(None), ProxyTableLookupErrorKind::LookupFailed);
    assert_eq!(
        kind_by_sender(Some(Err("no".to_string()))),
        ProxyTableLookupErrorKind::InvalidFrom
    );
    assert_eq!(
        kind_by_sender(Some(Ok("b.test".to_string()))),
        ProxyTableLookupErrorKind::LookupFailed
    );
    let found = route_by_sender(&state(), &smtp, Some(Ok("a.test".to_string())));
    assert_eq!(found.expect("routed").server, addr("10.0.0.1", 25));
}

#[test]
fn requests_are_decided_on_their_values() {
    let request = AuthRequest {
        method: Some(b"none".to_vec()),
        protocol: Some(b"smtp".to_vec()),
        user: None,
        smtp_to: Some(b"RCPT TO:<x@b.test>".to_vec()),
        smtp_from: Some(b"MAIL FROM:<x@a.test>".to_vec()),
    };
    assert_eq!(authorize(&state(), &request).expect("routed").server, addr("10.0.0.1", 25));
    let request = AuthRequest { smtp_from: None, ..request };
    let error = authorize(&state(), &request).expect_err("refused");
    assert_eq!(error.kind, ProxyTableLookupErrorKind::LookupFailed);
}
