//! What the library takes from elsewhere, and what it relies on there: header maps from the `http`
//! crate, address parsing from the `email_address` crate, and one function of the standard library.

use crate::envelope::last_position;
use crate::text::{lower, printable};
use std::str::FromStr;
use vstd::prelude::*;

verus! {

/// `String::push` appends its character to the end of the string and changes nothing else.
pub assume_specification[ String::push ](s: &mut String, ch: char)
    ensures
        final(s)@ == old(s)@.push(ch),
;

/// The header map of the `http` crate, which `axum` hands to a handler. It is opaque; what it
/// holds is named by `header_contents`.
#[verifier::external_type_specification]
#[verifier::external_body]
#[verifier::reject_recursive_types(T)]
pub struct ExHeaderMap<T>(axum::http::HeaderMap<T>);

/// The header value of the `http` crate. It is opaque and only occurs as what a header map holds.
#[verifier::external_type_specification]
#[verifier::external_body]
pub struct ExHeaderValue(axum::http::HeaderValue);

/// What a header map holds, as far as it can be looked up: for each header name, in lower case, the
/// bytes of its first value.
pub uninterp spec fn header_contents(headers: axum::http::HeaderMap) -> Map<Seq<char>, Seq<u8>>;

/// What `EmailAddress::from_str` makes of a text: the domain of the address, or the message of the
/// error.
pub uninterp spec fn address_outcome(s: Seq<char>) -> Result<Seq<char>, Seq<char>>;

/// `HeaderMap::get` with a name: the first value under that name, if there is one. Names are
/// compared without regard to case.
#[verifier::external_body]
pub(crate) fn header_value(headers: &axum::http::HeaderMap, name: &str) -> (r: Option<Vec<u8>>)
    ensures
        match r {
            Some(value) => {
                &&& header_contents(*headers).contains_key(lower(name@))
                &&& value@ == header_contents(*headers)[lower(name@)]
            },
            None => !header_contents(*headers).contains_key(lower(name@)),
        },
{
    headers.get(name).map(|value| value.as_bytes().to_vec())
}

/// What follows the last `@`.
pub open spec fn after_last_at(s: Seq<char>) -> Seq<char> {
    s.skip(last_position(s, '@') + 1)
}

/// Whether `s` is an address alone, with no display name set before it as in
/// `Some Name <user@example.com>`.
pub open spec fn bare(s: Seq<char>) -> bool {
    forall|i: int| 0 < i < s.len() && #[trigger] s[i] == '<' ==> s[i - 1] != ' '
}

/// An ASCII letter or digit.
pub open spec fn is_alphanumeric(c: char) -> bool {
    ('a' <= c && c <= 'z') || ('A' <= c && c <= 'Z') || ('0' <= c && c <= '9')
}

/// Words of ASCII letters, digits and hyphens with a dot between each two, as domains are made of.
/// Words begin and end with a letter or a digit.
pub open spec fn dotted_words(s: Seq<char>) -> bool {
    &&& s.len() > 0
    &&& is_alphanumeric(s.first())
    &&& is_alphanumeric(s.last())
    &&& forall|i: int|
        0 <= i < s.len() ==> is_alphanumeric(#[trigger] s[i]) || s[i] == '-' || (s[i] == '.'
            && is_alphanumeric(s[i - 1]) && is_alphanumeric(s[i + 1]))
}

/// The ordinary form of an address: dotted words on either side of an `@`, neither side longer
/// than 63 characters.
pub open spec fn plain_address(s: Seq<char>) -> bool {
    let at = last_position(s, '@');
    &&& 0 <= at <= 63
    &&& dotted_words(s.take(at))
    &&& dotted_words(after_last_at(s))
    &&& after_last_at(s).len() <= 63
}

/// `EmailAddress::from_str`, with the `domain` of the address that results or the message of the
/// error. Besides naming the result, the contract claims that text of the ordinary form is an
/// address, that no text without an `@` is one, that the domain of a bare address is what follows
/// the last `@`, that the case of ASCII letters decides nothing (in lower case the same text has the
/// same domain in lower case, or the same error), and that messages are printable ASCII.
#[verifier::external_body]
pub(crate) fn parse_address(s: &str) -> (r: Result<String, String>)
    ensures
        match r {
            Ok(domain) => address_outcome(s@) == Ok::<Seq<char>, Seq<char>>(domain@),
            Err(message) => address_outcome(s@) == Err::<Seq<char>, Seq<char>>(message@),
        },
        plain_address(s@) ==> r is Ok,
        !s@.contains('@') ==> r is Err,
        r is Ok && bare(s@) ==> r->Ok_0@ == after_last_at(s@),
        match r {
            Ok(domain) => address_outcome(lower(s@)) == Ok::<Seq<char>, Seq<char>>(lower(domain@)),
            Err(message) => address_outcome(lower(s@)) == Err::<Seq<char>, Seq<char>>(message@),
        },
        r is Err ==> printable(r->Err_0@),
{
    match email_address::EmailAddress::from_str(s) {
        Ok(address) => Ok(address.domain().to_owned()),
        Err(error) => Err(error.to_string()),
    }
}

} // verus!
