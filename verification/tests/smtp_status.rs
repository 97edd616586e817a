//! Reply codes as text.

use sluice::error::ProxyTableLookupError;
use sluice::smtp_status::{ProvidesSmtpStatus, SmtpStatus, StatusClass, StatusSubject};

fn status(class: StatusClass, subject: StatusSubject, basic: u8, extended: u8) -> SmtpStatus {
    SmtpStatus::from((class, subject, basic, extended))
}

#[test]
fn classes_and_subjects_have_digits() {
    assert_eq!(StatusClass::TempFail.to_string(), "4");
    assert_eq!(StatusClass::PermFail.to_string(), "5");
    assert_eq!(StatusSubject::Addressing.to_string(), "1");
    assert_eq!(StatusSubject::MailSystem.to_string(), "3");
    assert_eq!(StatusSubject::SecurityOrPolicy.to_string(), "7");
    assert!(StatusClass::TempFail < StatusClass::PermFail);
    assert!(StatusSubject::MailSystem < StatusSubject::SecurityOrPolicy);
}

#[test]
fn codes_are_padded_to_two_places() {
    let code = |basic, extended| {
        status(StatusClass::PermFail, StatusSubject::Addressing, basic, extended).to_string()
    };
    assert_eq!(code(0, 0), "500 5.1.0");
    assert_eq!(code(1, 7), "501 5.1.7");
    assert_eq!(code(9, 9), "509 5.1.9");
    assert_eq!(code(10, 10), "510 5.1.10");
    assert_eq!(code(99, 99), "599 5.1.99");
    assert_eq!(code(255, 255), "5255 5.1.255");
}

#[test]
fn a_status_is_made_of_its_parts() {
    let made = status(StatusClass::TempFail, StatusSubject::MailSystem, 51, 5);
    assert_eq!(made.class, StatusClass::TempFail);
    assert_eq!(made.subject, StatusSubject::MailSystem);
    assert_eq!(made.basic_detail, 51);
    assert_eq!(made.extended_detail, 5);
    assert_eq!(made.to_string(), "451 4.3.5");
}

#[test]
fn refusals_have_codes() {
    let code = |error: ProxyTableLookupError| error.smtp_status().to_string();
    assert_eq!(code(ProxyTableLookupError::lookup_failed()), "550 5.7.1");
    assert_eq!(code(ProxyTableLookupError::auth_lookup_failed()), "550 5.7.1");
    assert_eq!(code(ProxyTableLookupError::invalid_from(String::new())), "501 5.1.7");
    assert_eq!(code(ProxyTableLookupError::invalid_rcpt(String::new())), "501 5.1.3");
    assert_eq!(code(ProxyTableLookupError::protocol_unknown()), "451 4.3.5");
    assert_eq!(code(ProxyTableLookupError::protocol_lookup_failed()), "550 5.7.0");
}

#[test]
fn only_an_unknown_protocol_is_temporary() {
    let class = |error: ProxyTableLookupError| error.smtp_status().class;
    assert_eq!(class(ProxyTableLookupError::protocol_unknown()), StatusClass::TempFail);
    assert_eq!(class(ProxyTableLookupError::lookup_failed()), StatusClass::PermFail);
    assert_eq!(class(ProxyTableLookupError::auth_lookup_failed()), StatusClass::PermFail);
    assert_eq!(class(ProxyTableLookupError::protocol_lookup_failed()), StatusClass::PermFail);
    assert_eq!(class(ProxyTableLookupError::invalid_from(String::new())), StatusClass::PermFail);
    assert_eq!(class(ProxyTableLookupError::invalid_rcpt(String::new())), StatusClass::PermFail);
}

#[test]
fn causes_are_chained() {
    let error = ProxyTableLookupError::invalid_rcpt("because ∵ of this".to_string());
    assert_eq!(error.to_string(), "invalid recipient");
    assert_eq!(error.chain(), "invalid recipient ∵ because ∵ of this");
    assert_eq!(error.client_text(), "invalid recipient : because : of this");
}
