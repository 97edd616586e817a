//! SMTP reply codes: a basic three-digit code and the enhanced `X.Y.Z` code beside it.

use crate::text::{decimal, push_decimal};
use vstd::prelude::*;

verus! {

/// The class of a reply, the `A` and `X` in `ABB X.Y.Z`.
///
/// Only the two failure classes occur: no mail is taken in here, so there is nothing to report
/// success on.
#[derive(Debug, Clone, Copy, PartialEq, Eq, PartialOrd, Ord, Structural)]
pub enum StatusClass {
    TempFail,
    PermFail,
}

impl StatusClass {
    /// The digit of this class.
    pub open spec fn spec_code(self) -> u8 {
        match self {
            StatusClass::TempFail => 4,
            StatusClass::PermFail => 5,
        }
    }

    /// The digit of this class.
    pub fn code(self) -> (r: u8)
        ensures
            r == self.spec_code(),
    {
        match self {
            StatusClass::TempFail => 4,
            StatusClass::PermFail => 5,
        }
    }

    /// The digit of this class as text.
    pub fn to_string(&self) -> (r: String)
        ensures
            r@ == decimal(self.spec_code() as nat),
    {
        let mut r = String::new();
        push_decimal(&mut r, self.code() as u16);
        proof {
            assert(r@ =~= decimal(self.spec_code() as nat));
        }
        r
    }
}

/// What a reply is about, the `Y` in `ABB X.Y.Z`.
#[derive(Debug, Clone, Copy, PartialEq, Eq, PartialOrd, Ord, Structural)]
pub enum StatusSubject {
    Addressing,
    MailSystem,
    SecurityOrPolicy,
}

impl StatusSubject {
    /// The digit of this subject.
    pub open spec fn spec_code(self) -> u8 {
        match self {
            StatusSubject::Addressing => 1,
            StatusSubject::MailSystem => 3,
            StatusSubject::SecurityOrPolicy => 7,
        }
    }

    /// The digit of this subject.
    pub fn code(self) -> (r: u8)
        ensures
            r == self.spec_code(),
    {
        match self {
            StatusSubject::Addressing => 1,
            StatusSubject::MailSystem => 3,
            StatusSubject::SecurityOrPolicy => 7,
        }
    }

    /// The digit of this subject as text.
    pub fn to_string(&self) -> (r: String)
        ensures
            r@ == decimal(self.spec_code() as nat),
    {
        let mut r = String::new();
        push_decimal(&mut r, self.code() as u16);
        proof {
            assert(r@ =~= decimal(self.spec_code() as nat));
        }
        r
    }
}

/// A reply code `ABB X.Y.Z`.
#[derive(Debug, Clone, Copy, PartialEq, Eq, Structural)]
pub struct SmtpStatus {
    /// The `A` and `X` in `ABB X.Y.Z`
    pub class: StatusClass,
    /// The `Y` in `ABB X.Y.Z`
    pub subject: StatusSubject,
    /// The `BB` in `ABB X.Y.Z`
    pub basic_detail: u8,
    /// The `Z` in `ABB X.Y.Z`
    pub extended_detail: u8,
}

/// `n` in decimal notation, with a leading zero where that is needed to fill two places.
pub open spec fn two_places(n: nat) -> Seq<char> {
    if n < 10 {
        seq!['0'] + decimal(n)
    } else {
        decimal(n)
    }
}

impl SmtpStatus {
    /// The reply code as it is written: `ABB X.Y.Z`.
    pub open spec fn spec_text(self) -> Seq<char> {
        decimal(self.class.spec_code() as nat) + two_places(self.basic_detail as nat) + seq![' ']
            + decimal(self.class.spec_code() as nat) + seq!['.'] + decimal(
            self.subject.spec_code() as nat,
        ) + seq!['.'] + decimal(self.extended_detail as nat)
    }

    /// The reply code as it is written: `ABB X.Y.Z`.
    pub fn to_string(&self) -> (r: String)
        ensures
            r@ == self.spec_text(),
    {
        let mut r = String::new();
        push_decimal(&mut r, self.class.code() as u16);
        if self.basic_detail < 10 {
            r.push('0');
        }
        push_decimal(&mut r, self.basic_detail as u16);
        r.push(' ');
        push_decimal(&mut r, self.class.code() as u16);
        r.push('.');
        push_decimal(&mut r, self.subject.code() as u16);
        r.push('.');
        push_decimal(&mut r, self.extended_detail as u16);
        proof {
            assert(r@ =~= self.spec_text());
        }
        r
    }
}

impl From<(StatusClass, StatusSubject, u8, u8)> for SmtpStatus {
    fn from(value: (StatusClass, StatusSubject, u8, u8)) -> (r: SmtpStatus) {
        SmtpStatus {
            class: value.0,
            subject: value.1,
            basic_detail: value.2,
            extended_detail: value.3,
        }
    }
}

impl vstd::std_specs::convert::FromSpecImpl<(StatusClass, StatusSubject, u8, u8)> for SmtpStatus {
    open spec fn obeys_from_spec() -> bool {
        true
    }

    open spec fn from_spec(value: (StatusClass, StatusSubject, u8, u8)) -> SmtpStatus {
        SmtpStatus {
            class: value.0,
            subject: value.1,
            basic_detail: value.2,
            extended_detail: value.3,
        }
    }
}

/// Something that is answered to a mail client with a reply code.
pub trait ProvidesSmtpStatus {
    /// The reply code it is answered with.
    spec fn spec_smtp_status(&self) -> SmtpStatus;

    /// The reply code it is answered with.
    fn smtp_status(&self) -> (r: SmtpStatus)
        ensures
            r == self.spec_smtp_status(),
    ;
}

} // verus!
