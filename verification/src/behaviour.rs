//! What the operations come to, said in terms of characters, bytes and table entries alone.
//!
//! The contracts of the library speak of specification functions. The laws here tie each of these
//! to what is on the wire and in the table: which characters a number is written with, which bytes
//! make a login, which text between which brackets is an address, and which entry a session is sent
//! to.

use crate::config::{table_well_formed, MailProtocol, NetSocketAddrs, SluiceState, SocketAddr};
use crate::envelope::{
    after_blanks, envelope_address, is_blank, is_visible, last_position, latin1, plain_text,
};
use crate::error::{
    LookupErrorView, ProxyTableLookupError, ProxyTableLookupErrorKind, ServiceErrorKind,
};
use crate::http::{
    accepting_headers, answer, by_recipient, by_sender, by_user, decided, domains_follow_at,
    named_values, only_addresses, outcome, parsed, plain_addresses_pass, refusing_headers,
    request_in, routed, AuthRequest, AuthRequestView, ProxyTableResponse,
};
use crate::laws::{law_reply_codes, lemma_after_blanks, lemma_last_position, lemma_message};
use crate::outside::{address_outcome, after_last_at, bare, dotted_words, plain_address};
use crate::smtp_status::{two_places, ProvidesSmtpStatus, SmtpStatus, StatusClass, StatusSubject};
use crate::text::{decimal, lower, printable};
use vstd::prelude::*;

verus! {

// ---- numbers and letters ----
/// The number that a text of digits is read as, from left to right.
pub open spec fn number(s: Seq<char>) -> int {
    s.fold_left(0int, |value: int, c: char| value * 10 + (c as int - '0' as int))
}

/// Whether a text is a number `n` in decimal notation: digits only, at least one of them, without a
/// zero in front, and read from left to right they give `n`.
pub open spec fn writes(s: Seq<char>, n: int) -> bool {
    &&& s.len() > 0
    &&& forall|i: int| 0 <= i < s.len() ==> '0' <= #[trigger] s[i] && s[i] <= '9'
    &&& s.len() > 1 ==> s[0] != '0'
    &&& number(s) == n
}

/// The decimal notation of a number reads back as that number.
pub proof fn law_decimal_reads_back(n: nat)
    ensures
        writes(decimal(n), n as int),
    decreases n,
{
    let f = |value: int, c: char| value * 10 + (c as int - '0' as int);
    let s = decimal(n);
    if n < 10 {
        assert(s.drop_last() =~= Seq::<char>::empty());
        reveal_with_fuel(Seq::fold_left, 2);
    } else {
        law_decimal_reads_back(n / 10);
        assert(s.drop_last() =~= decimal(n / 10));
        assert(s[0] == decimal(n / 10)[0]);
        assert(decimal(n / 10)[0] != '0') by {
            if decimal(n / 10).len() == 1 {
                let t = decimal(n / 10);
                assert(t.drop_last() =~= Seq::<char>::empty());
                reveal_with_fuel(Seq::fold_left, 2);
                assert(number(t) == t[0] as int - '0' as int);
            }
        }
        assert(number(s) == number(s.drop_last()) * 10 + (s.last() as int - '0' as int));
    }
}

/// Whether `key` is `domain` in lower case: there is no capital in it, and where it differs, it has
/// the small letter for a capital, which is 32 characters further on.
pub open spec fn in_lower_case(domain: Seq<char>, key: Seq<char>) -> bool {
    &&& key.len() == domain.len()
    &&& forall|i: int|
        0 <= i < key.len() ==> {
            &&& !('A' <= #[trigger] key[i] && key[i] <= 'Z')
            &&& key[i] == domain[i] || ('A' <= domain[i] && domain[i] <= 'Z' && key[i] as int
                == domain[i] as int + 32)
        }
}

/// What a domain is looked up as is the domain in lower case, and that is one text only.
pub proof fn law_lower_case(domain: Seq<char>, key: Seq<char>)
    ensures
        in_lower_case(domain, key) <==> key == lower(domain),
        forall|i: int|
            0 <= i < domain.len() && 'A' <= #[trigger] domain[i] && domain[i] <= 'Z' ==> lower(
                domain,
            )[i] as int == domain[i] as int + 32,
{
    assert forall|i: int| 0 <= i < domain.len() implies {
        &&& !('A' <= #[trigger] lower(domain)[i] && lower(domain)[i] <= 'Z')
        &&& lower(domain)[i] == domain[i] || ('A' <= domain[i] && domain[i] <= 'Z'
            && lower(domain)[i] as int == domain[i] as int + 32)
    } by {}
    if in_lower_case(domain, key) {
        assert forall|i: int| 0 <= i < key.len() implies #[trigger] key[i] == lower(domain)[i] by {
            assert(!('A' <= lower(domain)[i] && lower(domain)[i] <= 'Z'));
        }
        assert(key =~= lower(domain));
    }
}

/// Text is printable exactly if it holds nothing but the characters from the space to the tilde.
pub proof fn law_printable(s: Seq<char>)
    ensures
        printable(s) <==> forall|i: int|
            0 <= i < s.len() ==> 0x20 <= #[trigger] s[i] as int && s[i] as int <= 0x7e,
{
    assert forall|i: int| 0 <= i < s.len() implies (' ' <= #[trigger] s[i] && s[i] <= '~') == (0x20
        <= s[i] as int && s[i] as int <= 0x7e) by {}
}

// ---- reply codes ----
/// A reply code holds, in this order: the digit 4 or 5 of the class, the basic detail in at least
/// two places, a space, the digit of the class again, a dot, the digit of the subject, a dot and the
/// extended detail.
pub proof fn law_reply_code_reads_back(status: SmtpStatus)
    ensures
        ({
            let text = status.spec_text();
            let n: int = if status.basic_detail >= 100 {
                3
            } else {
                2
            };
            &&& n + 6 < text.len()
            &&& text[0] == (match status.class {
                StatusClass::TempFail => '4',
                StatusClass::PermFail => '5',
            })
            &&& forall|i: int| 1 <= i <= n ==> '0' <= #[trigger] text[i] && text[i] <= '9'
            &&& number(text.subrange(1, n + 1)) == status.basic_detail
            &&& text[n + 1] == ' '
            &&& text[n + 2] == text[0]
            &&& text[n + 3] == '.'
            &&& text[n + 4] == (match status.subject {
                StatusSubject::Addressing => '1',
                StatusSubject::MailSystem => '3',
                StatusSubject::SecurityOrPolicy => '7',
            })
            &&& text[n + 5] == '.'
            &&& writes(text.skip(n + 6), status.extended_detail as int)
        }),
{
    let text = status.spec_text();
    let basic = status.basic_detail as nat;
    let places = two_places(basic);
    let n = places.len() as int;
    reveal_with_fuel(decimal, 3);
    law_decimal_reads_back(basic);
    law_decimal_reads_back(status.extended_detail as nat);
    if basic < 10 {
        let f = |value: int, c: char| value * 10 + (c as int - '0' as int);
        assert(places.drop_last() =~= seq!['0']);
        assert(places.drop_last().drop_last() =~= Seq::<char>::empty());
        assert(decimal(basic).drop_last() =~= Seq::<char>::empty());
        assert(places.last() == decimal(basic).last());
        reveal_with_fuel(Seq::fold_left, 3);
    }
    assert(number(places) == basic);
    assert(text.subrange(1, n + 1) =~= places);
    assert(text.skip(n + 6) =~= decimal(status.extended_detail as nat));
    assert forall|i: int| 1 <= i <= n implies '0' <= #[trigger] text[i] && text[i] <= '9' by {
        assert(text[i] == places[i - 1]);
    }
}

/// The digits of classes and subjects.
pub proof fn law_class_and_subject_digits(class: StatusClass, subject: StatusSubject)
    ensures
        decimal(class.spec_code() as nat) == (match class {
            StatusClass::TempFail => seq!['4'],
            StatusClass::PermFail => seq!['5'],
        }),
        decimal(subject.spec_code() as nat) == (match subject {
            StatusSubject::Addressing => seq!['1'],
            StatusSubject::MailSystem => seq!['3'],
            StatusSubject::SecurityOrPolicy => seq!['7'],
        }),
{
    assert(decimal(class.spec_code() as nat) =~= (match class {
        StatusClass::TempFail => seq!['4'],
        StatusClass::PermFail => seq!['5'],
    }));
    assert(decimal(subject.spec_code() as nat) =~= (match subject {
        StatusSubject::Addressing => seq!['1'],
        StatusSubject::MailSystem => seq!['3'],
        StatusSubject::SecurityOrPolicy => seq!['7'],
    }));
}

/// A reply code that is made of four parts has these parts.
pub proof fn law_status_keeps_its_parts(value: (StatusClass, StatusSubject, u8, u8))
    ensures
        ({
            let status = <SmtpStatus as vstd::std_specs::convert::FromSpec<
                (StatusClass, StatusSubject, u8, u8),
            >>::from_spec(value);
            (status.class, status.subject, status.basic_detail, status.extended_detail) == value
        }),
{
}

// ---- the headers of a request ----
/// Whether the bytes of a header are the characters of a text, one for one.
pub open spec fn spells(value: Seq<u8>, text: Seq<char>) -> bool {
    &&& value.len() == text.len()
    &&& forall|i: int| 0 <= i < value.len() ==> #[trigger] value[i] as int == text[i] as int
}

/// Whether a header is there, holds nothing but tabs, spaces and visible ASCII characters, and
/// spells a text.
pub open spec fn says(header: Option<Seq<u8>>, text: Seq<char>) -> bool {
    &&& header is Some
    &&& spells(header->0, text)
    &&& forall|i: int|
        0 <= i < header->0.len() ==> #[trigger] header->0[i] == 0x09 || 0x20 <= header->0[i]
            <= 0x7e
}

proof fn lemma_spells(value: Seq<u8>, text: Seq<char>)
    ensures
        spells(value, text) <==> latin1(value) == text,
{
    assert forall|i: int| 0 <= i < value.len() implies #[trigger] latin1(value)[i] as int
        == value[i] as int by {}
    if spells(value, text) {
        assert forall|i: int| 0 <= i < value.len() implies latin1(value)[i] == text[i] by {
            assert(value[i] as int == text[i] as int);
        }
        assert(latin1(value) =~= text);
    }
    if latin1(value) == text {
        assert forall|i: int| 0 <= i < value.len() implies #[trigger] value[i] as int
            == text[i] as int by {
            assert(latin1(value)[i] == text[i]);
        }
    }
}

/// The text of a header is what the header says; there is none where it says nothing.
pub proof fn law_header_text(header: Option<Seq<u8>>, text: Seq<char>)
    ensures
        says(header, text) <==> plain_text(header) == Some(text),
{
    if header is Some {
        let value = header->0;
        lemma_spells(value, text);
        if says(header, text) {
            assert forall|i: int| 0 <= i < value.len() implies is_visible(#[trigger] value[i]) by {}
        }
        if plain_text(header) == Some(text) {
            assert forall|i: int| 0 <= i < value.len() implies #[trigger] value[i] == 0x09
                || 0x20 <= value[i] <= 0x7e by {
                assert(is_visible(value[i]));
            }
        }
    }
}

/// Whether there are nothing but spaces and tabs in a text.
pub open spec fn is_space(s: Seq<char>) -> bool {
    forall|i: int| 0 <= i < s.len() ==> #[trigger] s[i] == ' ' || s[i] == '\t'
}

/// Whether a header quotes an address: it says the command, space, an opening bracket, space, the
/// address, a closing bracket, and then anything but a closing bracket. The address does not begin
/// with space.
pub open spec fn quotes(
    header: Option<Seq<u8>>,
    command: Seq<char>,
    gap: Seq<char>,
    pad: Seq<char>,
    address: Seq<char>,
    rest: Seq<char>,
) -> bool {
    &&& says(header, command + gap + seq!['<'] + pad + address + seq!['>'] + rest)
    &&& is_space(gap)
    &&& is_space(pad)
    &&& address.len() > 0 ==> address[0] != ' ' && address[0] != '\t'
    &&& forall|i: int| 0 <= i < rest.len() ==> #[trigger] rest[i] != '>'
}

/// An address that a header quotes is read out whole, whatever its length and whatever it holds.
pub proof fn law_quoted_address_is_read_whole(
    header: Option<Seq<u8>>,
    command: Seq<char>,
    gap: Seq<char>,
    pad: Seq<char>,
    address: Seq<char>,
    rest: Seq<char>,
)
    requires
        quotes(header, command, gap, pad, address, rest),
    ensures
        envelope_address(header, command) == address,
{
    let text = command + gap + seq!['<'] + pad + address + seq!['>'] + rest;
    law_header_text(header, text);
    let n: int = command.len() as int;
    let open: int = n + gap.len();
    let first: int = open + 1 + pad.len();
    let end: int = first + address.len();
    assert(text[open] == '<');
    assert(text[end] == '>');
    assert forall|i: int| n <= i < open implies is_blank(#[trigger] text[i]) by {
        assert(text[i] == gap[i - n]);
    }
    assert forall|i: int| open < i < first implies is_blank(#[trigger] text[i]) by {
        assert(text[i] == pad[i - open - 1]);
    }
    assert(!is_blank(text[first])) by {
        if address.len() > 0 {
            assert(text[first] == address[0]);
        }
    }
    assert forall|i: int| end < i < text.len() implies #[trigger] text[i] != '>' by {
        assert(text[i] == rest[i - end - 1]);
    }
    lemma_after_blanks(text, n);
    assert(!is_blank(text[open]));
    assert(after_blanks(text, n) == open);
    lemma_after_blanks(text, open + 1);
    if after_blanks(text, open + 1) < first {
        assert(is_blank(text[after_blanks(text, open + 1)]));
    }
    assert(after_blanks(text, open + 1) == first);
    lemma_last_position(text, '>');
    assert(last_position(text, '>') == end);
    assert(text.subrange(0, n) =~= command);
    assert(command.is_prefix_of(text));
    assert(text.subrange(first, end) =~= address);
}

/// Nothing else is read out as an address: where there is one, the header quotes it.
pub proof fn law_only_quoted_addresses_are_read(header: Option<Seq<u8>>, command: Seq<char>)
    requires
        envelope_address(header, command).len() > 0,
    ensures
        exists|gap: Seq<char>, pad: Seq<char>, rest: Seq<char>|
            quotes(header, command, gap, pad, envelope_address(header, command), rest),
{
    let text = plain_text(header)->0;
    law_header_text(header, text);
    let open = after_blanks(text, command.len() as int);
    let start = after_blanks(text, open + 1);
    let close = last_position(text, '>');
    lemma_after_blanks(text, command.len() as int);
    lemma_after_blanks(text, open + 1);
    lemma_last_position(text, '>');
    let gap = text.subrange(command.len() as int, open);
    let pad = text.subrange(open + 1, start);
    let address = text.subrange(start, close);
    let rest = text.skip(close + 1);
    assert(text =~= command + gap + seq!['<'] + pad + address + seq!['>'] + rest) by {
        assert forall|i: int| 0 <= i < command.len() implies text[i] == command[i] by {
            assert(text.subrange(0, command.len() as int)[i] == command[i]);
        }
    }
    assert forall|i: int| 0 <= i < gap.len() implies #[trigger] gap[i] == ' ' || gap[i]
        == '\t' by {
        assert(is_blank(text[command.len() + i]));
    }
    assert forall|i: int| 0 <= i < pad.len() implies #[trigger] pad[i] == ' ' || pad[i]
        == '\t' by {
        assert(is_blank(text[open + 1 + i]));
    }
    assert(address[0] == text[start]);
    assert(!is_blank(text[start]));
    assert forall|i: int| 0 <= i < rest.len() implies #[trigger] rest[i] != '>' by {
        assert(rest[i] == text[close + 1 + i]);
    }
    assert(quotes(header, command, gap, pad, address, rest));
}

/// Whether a text is the address that a header quotes, or is empty where the header quotes none.
pub open spec fn gives(header: Option<Seq<u8>>, command: Seq<char>, address: Seq<char>) -> bool {
    ||| exists|gap: Seq<char>, pad: Seq<char>, rest: Seq<char>|
        quotes(header, command, gap, pad, address, rest)
    ||| address.len() == 0 && forall|
        gap: Seq<char>,
        pad: Seq<char>,
        other: Seq<char>,
        rest: Seq<char>,
    |
        !quotes(header, command, gap, pad, other, rest)
}

/// What is read out of a header is the address that it quotes, and nothing where it quotes none.
pub proof fn law_envelope_address(
    header: Option<Seq<u8>>,
    command: Seq<char>,
    address: Seq<char>,
)
    ensures
        gives(header, command, address) <==> envelope_address(header, command) == address,
{
    let read = envelope_address(header, command);
    if gives(header, command, address) {
        if exists|gap: Seq<char>, pad: Seq<char>, rest: Seq<char>|
            quotes(header, command, gap, pad, address, rest) {
            let (gap, pad, rest) = choose|gap: Seq<char>, pad: Seq<char>, rest: Seq<char>|
                quotes(header, command, gap, pad, address, rest);
            law_quoted_address_is_read_whole(header, command, gap, pad, address, rest);
        } else {
            if read.len() > 0 {
                law_only_quoted_addresses_are_read(header, command);
            }
            assert(read =~= address);
        }
    }
    if read == address {
        if read.len() > 0 {
            law_only_quoted_addresses_are_read(header, command);
        } else if !(forall|gap: Seq<char>, pad: Seq<char>, other: Seq<char>, rest: Seq<char>|
            !quotes(header, command, gap, pad, other, rest)) {
            let (gap, pad, other, rest) = choose|
                gap: Seq<char>,
                pad: Seq<char>,
                other: Seq<char>,
                rest: Seq<char>,
            |
                quotes(header, command, gap, pad, other, rest);
            law_quoted_address_is_read_whole(header, command, gap, pad, other, rest);
        }
    }
}

/// A request is made of the first values of five headers, each looked up by its name in lower case.
pub proof fn law_request_headers(contents: Map<Seq<char>, Seq<u8>>)
    ensures
        request_in(contents).method == contents.get("auth-method"@),
        request_in(contents).protocol == contents.get("auth-protocol"@),
        request_in(contents).user == contents.get("auth-user"@),
        request_in(contents).smtp_to == contents.get("auth-smtp-to"@),
        request_in(contents).smtp_from == contents.get("auth-smtp-from"@),
{
    reveal_strlit("Auth-Method");
    reveal_strlit("Auth-Protocol");
    reveal_strlit("Auth-User");
    reveal_strlit("Auth-SMTP-To");
    reveal_strlit("Auth-SMTP-From");
    reveal_strlit("auth-method");
    reveal_strlit("auth-protocol");
    reveal_strlit("auth-user");
    reveal_strlit("auth-smtp-to");
    reveal_strlit("auth-smtp-from");
    assert(lower("Auth-Method"@) =~= "auth-method"@);
    assert(lower("Auth-Protocol"@) =~= "auth-protocol"@);
    assert(lower("Auth-User"@) =~= "auth-user"@);
    assert(lower("Auth-SMTP-To"@) =~= "auth-smtp-to"@);
    assert(lower("Auth-SMTP-From"@) =~= "auth-smtp-from"@);
}

/// A request stands for the bytes of its fields, each in its own place.
pub proof fn law_request_fields(request: AuthRequest)
    ensures
        request@.method == (if let Some(value) = request.method { Some(value@) } else { None }),
        request@.protocol == (if let Some(value) = request.protocol { Some(value@) } else { None }),
        request@.user == (if let Some(value) = request.user { Some(value@) } else { None }),
        request@.smtp_to == (if let Some(value) = request.smtp_to { Some(value@) } else { None }),
        request@.smtp_from == (if let Some(value) = request.smtp_from { Some(value@) } else {
            None
        }),
{
}

// ---- logins and protocols ----
/// Whether the client logs in: there is an `Auth-Method`, and its bytes are not `none`.
pub open spec fn logs_in(request: AuthRequestView) -> bool {
    request.method is Some && request.method->0 != seq![110u8, 111u8, 110u8, 101u8]
}

/// A session is one of a client that logs in exactly if it names a method other than `none`.
pub proof fn law_every_method_but_none_is_a_login(request: AuthRequestView)
    ensures
        request.authenticated() <==> logs_in(request),
{
    reveal_strlit("none");
    let none = seq![110u8, 111u8, 110u8, 101u8];
    if request.method is Some {
        lemma_spells(request.method->0, "none"@);
        assert(spells(none, "none"@));
        if spells(request.method->0, "none"@) {
            assert(request.method->0 =~= none);
        }
    }
}

/// The names of the protocols: these four, and each of its own protocol.
pub proof fn law_protocol_names(s: Seq<char>)
    ensures
        MailProtocol::Smtp.spec_name() == "smtp"@,
        MailProtocol::SmtpAuthenticated.spec_name() == "smtp_authenticated"@,
        MailProtocol::Imap.spec_name() == "imap"@,
        MailProtocol::Pop3.spec_name() == "pop3"@,
        MailProtocol::spec_parse(s) == Some(MailProtocol::Smtp) <==> s == "smtp"@,
        MailProtocol::spec_parse(s) == Some(MailProtocol::SmtpAuthenticated) <==> s
            == "smtp_authenticated"@,
        MailProtocol::spec_parse(s) == Some(MailProtocol::Imap) <==> s == "imap"@,
        MailProtocol::spec_parse(s) == Some(MailProtocol::Pop3) <==> s == "pop3"@,
{
    reveal_strlit("smtp");
    reveal_strlit("smtp_authenticated");
    reveal_strlit("imap");
    reveal_strlit("pop3");
    assert("smtp"@[0] == 's');
    assert("imap"@[0] == 'i');
    assert("pop3"@[0] == 'p');
    assert("smtp_authenticated"@[0] == 's');
    assert("smtp"@.len() == 4);
    assert("smtp_authenticated"@.len() == 18);
}

/// A login turns SMTP, and nothing but SMTP, into SMTP with a login; its absence turns it back.
pub proof fn law_login_decides_on_smtp(protocol: MailProtocol, login: bool)
    ensures
        protocol is Smtp || protocol is SmtpAuthenticated ==> (protocol.spec_authenticated(
            login,
        ) is SmtpAuthenticated <==> login) && (protocol.spec_authenticated(login) is Smtp
            <==> !login),
        protocol is Imap ==> protocol.spec_authenticated(login) is Imap,
        protocol is Pop3 ==> protocol.spec_authenticated(login) is Pop3,
{
}

/// Whether a session is routed as one of a protocol: `Auth-Protocol` spells the protocol, and SMTP
/// is with a login exactly if the client logs in, whichever of the two names of SMTP is spelled.
pub open spec fn speaks(request: AuthRequestView, protocol: MailProtocol) -> bool {
    &&& request.protocol is Some
    &&& match protocol {
        MailProtocol::Smtp => !logs_in(request) && (spells(request.protocol->0, "smtp"@) || spells(
            request.protocol->0,
            "smtp_authenticated"@,
        )),
        MailProtocol::SmtpAuthenticated => logs_in(request) && (spells(
            request.protocol->0,
            "smtp"@,
        ) || spells(request.protocol->0, "smtp_authenticated"@)),
        MailProtocol::Imap => spells(request.protocol->0, "imap"@),
        MailProtocol::Pop3 => spells(request.protocol->0, "pop3"@),
    }
}

/// The protocol of a session is the one that it speaks; where it speaks none, it has none.
pub proof fn law_protocol_is_the_one_spoken(request: AuthRequestView, protocol: MailProtocol)
    ensures
        request.mail_protocol() == Some(protocol) <==> speaks(request, protocol),
{
    law_every_method_but_none_is_a_login(request);
    reveal_strlit("smtp");
    reveal_strlit("smtp_authenticated");
    reveal_strlit("imap");
    reveal_strlit("pop3");
    if request.protocol is Some {
        let value = request.protocol->0;
        let name = latin1(value);
        lemma_spells(value, "smtp"@);
        lemma_spells(value, "smtp_authenticated"@);
        lemma_spells(value, "imap"@);
        lemma_spells(value, "pop3"@);
        law_protocol_names(name);
        if name == "smtp"@ || name == "smtp_authenticated"@ || name == "imap"@ || name
            == "pop3"@ {
            assert forall|i: int| 0 <= i < value.len() implies is_visible(#[trigger] value[i]) by {
                assert(name[i] as int == value[i] as int);
            }
        }
    }
}

// ---- the routing table ----
/// Whether an entry of the routing table has a server for a protocol: it has that server for all of
/// them, or for this one, or it has it for SMTP and none for SMTP with a login, which is asked for.
pub open spec fn serves(entry: NetSocketAddrs, protocol: MailProtocol, server: SocketAddr) -> bool {
    match entry {
        NetSocketAddrs::Single(addr) => addr == server,
        NetSocketAddrs::ByProtocol(table) => {
            ||| table@.contains_pair(protocol, server)
            ||| protocol is SmtpAuthenticated && !table@.contains_key(protocol)
                && table@.contains_pair(MailProtocol::Smtp, server)
        },
    }
}

/// The server of an entry is the one that it has for the protocol.
pub proof fn law_entry_serves(entry: NetSocketAddrs, protocol: MailProtocol, server: SocketAddr)
    ensures
        entry.spec_get(protocol) == Some(server) <==> serves(entry, protocol, server),
{
}

/// Whether a result is what the routing table has under a key: the server there, or a refusal where
/// the entry has no server for the protocol, or one of the given kind where there is no entry.
pub open spec fn found(
    table: Map<Seq<char>, NetSocketAddrs>,
    protocol: MailProtocol,
    key: Seq<char>,
    missing: ProxyTableLookupErrorKind,
    result: Result<SocketAddr, LookupErrorView>,
) -> bool {
    &&& forall|server: SocketAddr|
        table.contains_key(key) && #[trigger] serves(table[key], protocol, server) ==> result == Ok::<
            SocketAddr,
            LookupErrorView,
        >(server)
    &&& table.contains_key(key) && (forall|server: SocketAddr|
        !#[trigger] serves(table[key], protocol, server)) ==> result == Err::<
        SocketAddr,
        LookupErrorView,
    >(LookupErrorView { kind: ProxyTableLookupErrorKind::ProtocolLookupFailed, cause: None })
    &&& !table.contains_key(key) ==> result == Err::<SocketAddr, LookupErrorView>(
        LookupErrorView { kind: missing, cause: None },
    )
}

/// A domain is looked up in lower case: what there is for it is what the table has under that key,
/// and there is something exactly if the key is there.
pub proof fn law_domain_is_looked_up_in_lower_case(
    table: Map<Seq<char>, NetSocketAddrs>,
    protocol: MailProtocol,
    domain: Seq<char>,
    key: Seq<char>,
    missing: ProxyTableLookupErrorKind,
)
    requires
        in_lower_case(domain, key),
    ensures
        routed(table, protocol, domain) is Some <==> table.contains_key(key),
        table.contains_key(key) ==> found(
            table,
            protocol,
            key,
            missing,
            routed(table, protocol, domain)->0,
        ),
{
    law_lower_case(domain, key);
    if table.contains_key(key) {
        assert forall|server: SocketAddr| #[trigger]
            serves(table[key], protocol, server) implies routed(table, protocol, domain) == Some(
            Ok::<SocketAddr, LookupErrorView>(server),
        ) by {
            law_entry_serves(table[key], protocol, server);
        }
        if let Some(server) = table[key].spec_get(protocol) {
            law_entry_serves(table[key], protocol, server);
        }
    }
}

/// A user is routed by the table's entry under their domain in lower case; without an entry, the
/// login is refused.
pub proof fn law_user_is_routed_by_domain(
    table: Map<Seq<char>, NetSocketAddrs>,
    protocol: MailProtocol,
    domain: Seq<char>,
    key: Seq<char>,
)
    requires
        in_lower_case(domain, key),
    ensures
        found(
            table,
            protocol,
            key,
            ProxyTableLookupErrorKind::AuthLookupFailed,
            by_user(table, protocol, Ok(domain)),
        ),
{
    law_domain_is_looked_up_in_lower_case(
        table,
        protocol,
        domain,
        key,
        ProxyTableLookupErrorKind::AuthLookupFailed,
    );
}

/// A recipient is routed by the table's entry under their domain in lower case; without an entry,
/// nothing is decided by the recipient.
pub proof fn law_recipient_is_routed_by_domain(
    table: Map<Seq<char>, NetSocketAddrs>,
    protocol: MailProtocol,
    domain: Seq<char>,
    key: Seq<char>,
)
    requires
        in_lower_case(domain, key),
    ensures
        by_recipient(table, protocol, Ok(domain)) is Some <==> table.contains_key(key),
        table.contains_key(key) ==> found(
            table,
            protocol,
            key,
            ProxyTableLookupErrorKind::LookupFailed,
            by_recipient(table, protocol, Ok(domain))->0,
        ),
{
    law_domain_is_looked_up_in_lower_case(
        table,
        protocol,
        domain,
        key,
        ProxyTableLookupErrorKind::LookupFailed,
    );
}

/// A sender is routed by the table's entry under their domain in lower case; without an entry, the
/// lookup has failed.
pub proof fn law_sender_is_routed_by_domain(
    table: Map<Seq<char>, NetSocketAddrs>,
    protocol: MailProtocol,
    domain: Seq<char>,
    key: Seq<char>,
)
    requires
        in_lower_case(domain, key),
    ensures
        found(
            table,
            protocol,
            key,
            ProxyTableLookupErrorKind::LookupFailed,
            by_sender(table, protocol, Some(Ok(domain))),
        ),
{
    law_domain_is_looked_up_in_lower_case(
        table,
        protocol,
        domain,
        key,
        ProxyTableLookupErrorKind::LookupFailed,
    );
}

/// What is no address is refused as that, with the reason given as it is; no sender at all is a
/// failed lookup.
pub proof fn law_no_address_is_refused(
    table: Map<Seq<char>, NetSocketAddrs>,
    protocol: MailProtocol,
    message: Seq<char>,
)
    ensures
        by_user(table, protocol, Err(message)) == Err::<SocketAddr, LookupErrorView>(
            LookupErrorView {
                kind: ProxyTableLookupErrorKind::InvalidFrom,
                cause: Some(message),
            },
        ),
        by_recipient(table, protocol, Err(message)) == Some(
            Err::<SocketAddr, LookupErrorView>(
                LookupErrorView {
                    kind: ProxyTableLookupErrorKind::InvalidRcpt,
                    cause: Some(message),
                },
            ),
        ),
        by_sender(table, protocol, Some(Err(message))) == Err::<SocketAddr, LookupErrorView>(
            LookupErrorView {
                kind: ProxyTableLookupErrorKind::InvalidFrom,
                cause: Some(message),
            },
        ),
        by_sender(table, protocol, None) == Err::<SocketAddr, LookupErrorView>(
            LookupErrorView { kind: ProxyTableLookupErrorKind::LookupFailed, cause: None },
        ),
{
}

// ---- decisions ----
/// Whether a text is what a header says, or is empty where the header says nothing.
pub open spec fn names(header: Option<Seq<u8>>, text: Seq<char>) -> bool {
    ||| says(header, text)
    ||| text.len() == 0 && forall|other: Seq<char>| !says(header, other)
}

/// The user name is what `Auth-User` says.
pub proof fn law_user_name(request: AuthRequestView, user: Seq<char>)
    ensures
        names(request.user, user) <==> request.user_name() == user,
{
    law_header_text(request.user, user);
    if plain_text(request.user) is Some {
        law_header_text(request.user, plain_text(request.user)->0);
    } else {
        assert forall|other: Seq<char>| !says(request.user, other) by {
            law_header_text(request.user, other);
        }
        if user.len() == 0 {
            assert(user =~= Seq::empty());
        }
    }
}

/// The recipient is the address in the `RCPT TO:` command that `Auth-SMTP-To` quotes, and the
/// sender the one in the `MAIL FROM:` command that `Auth-SMTP-From` quotes.
pub proof fn law_recipient_and_sender(
    request: AuthRequestView,
    recipient: Seq<char>,
    sender: Seq<char>,
)
    ensures
        gives(request.smtp_to, "RCPT TO:"@, recipient) <==> request.recipient() == recipient,
        gives(request.smtp_from, "MAIL FROM:"@, sender) <==> request.sender() == sender,
{
    law_envelope_address(request.smtp_to, "RCPT TO:"@, recipient);
    law_envelope_address(request.smtp_from, "MAIL FROM:"@, sender);
}

/// A session that speaks no protocol is refused.
pub proof fn law_no_protocol_is_refused(
    table: Map<Seq<char>, NetSocketAddrs>,
    request: AuthRequestView,
)
    requires
        forall|protocol: MailProtocol| !speaks(request, protocol),
    ensures
        decided(table, request) == Err::<SocketAddr, LookupErrorView>(
            LookupErrorView { kind: ProxyTableLookupErrorKind::ProtocolUnknown, cause: None },
        ),
{
    if request.mail_protocol() is Some {
        law_protocol_is_the_one_spoken(request, request.mail_protocol()->0);
    }
}

/// A client that logs in, by whatever method, is sent where the table sends the domain of the user
/// name; a user name that is no address is refused.
pub proof fn law_logins_are_decided_by_user(
    table: Map<Seq<char>, NetSocketAddrs>,
    request: AuthRequestView,
    protocol: MailProtocol,
    user: Seq<char>,
    key: Seq<char>,
)
    requires
        logs_in(request),
        speaks(request, protocol),
        names(request.user, user),
    ensures
        address_outcome(user) is Err ==> decided(table, request) == Err::<
            SocketAddr,
            LookupErrorView,
        >(
            LookupErrorView {
                kind: ProxyTableLookupErrorKind::InvalidFrom,
                cause: Some(address_outcome(user)->Err_0),
            },
        ),
        address_outcome(user) is Ok && in_lower_case(address_outcome(user)->Ok_0, key) ==> found(
            table,
            protocol,
            key,
            ProxyTableLookupErrorKind::AuthLookupFailed,
            decided(table, request),
        ),
{
    law_every_method_but_none_is_a_login(request);
    law_protocol_is_the_one_spoken(request, protocol);
    law_user_name(request, user);
    if address_outcome(user) is Err {
        law_no_address_is_refused(table, protocol, address_outcome(user)->Err_0);
    } else if in_lower_case(address_outcome(user)->Ok_0, key) {
        law_user_is_routed_by_domain(table, protocol, address_outcome(user)->Ok_0, key);
    }
}

/// Without a login, a session is sent where the table sends the domain of the recipient, if the
/// table has an entry for that; a recipient that is no address is refused.
pub proof fn law_mail_is_decided_by_recipient(
    table: Map<Seq<char>, NetSocketAddrs>,
    request: AuthRequestView,
    protocol: MailProtocol,
    recipient: Seq<char>,
    key: Seq<char>,
)
    requires
        !logs_in(request),
        speaks(request, protocol),
        gives(request.smtp_to, "RCPT TO:"@, recipient),
    ensures
        address_outcome(recipient) is Err ==> decided(table, request) == Err::<
            SocketAddr,
            LookupErrorView,
        >(
            LookupErrorView {
                kind: ProxyTableLookupErrorKind::InvalidRcpt,
                cause: Some(address_outcome(recipient)->Err_0),
            },
        ),
        address_outcome(recipient) is Ok && in_lower_case(address_outcome(recipient)->Ok_0, key)
            && table.contains_key(key) ==> found(
            table,
            protocol,
            key,
            ProxyTableLookupErrorKind::LookupFailed,
            decided(table, request),
        ),
{
    law_every_method_but_none_is_a_login(request);
    law_protocol_is_the_one_spoken(request, protocol);
    law_recipient_and_sender(request, recipient, request.sender());
    if address_outcome(recipient) is Err {
        law_no_address_is_refused(table, protocol, address_outcome(recipient)->Err_0);
    } else if in_lower_case(address_outcome(recipient)->Ok_0, key) {
        law_recipient_is_routed_by_domain(table, protocol, address_outcome(recipient)->Ok_0, key);
    }
}

/// Without a login and without an entry for the domain of the recipient, a session is sent where
/// the table sends the domain of the sender; it is refused if there is no sender, or one that is no
/// address.
pub proof fn law_other_mail_is_decided_by_sender(
    table: Map<Seq<char>, NetSocketAddrs>,
    request: AuthRequestView,
    protocol: MailProtocol,
    recipient: Seq<char>,
    recipient_key: Seq<char>,
    sender: Seq<char>,
    key: Seq<char>,
)
    requires
        !logs_in(request),
        speaks(request, protocol),
        gives(request.smtp_to, "RCPT TO:"@, recipient),
        address_outcome(recipient) is Ok,
        in_lower_case(address_outcome(recipient)->Ok_0, recipient_key),
        !table.contains_key(recipient_key),
        gives(request.smtp_from, "MAIL FROM:"@, sender),
    ensures
        sender.len() == 0 ==> decided(table, request) == Err::<SocketAddr, LookupErrorView>(
            LookupErrorView { kind: ProxyTableLookupErrorKind::LookupFailed, cause: None },
        ),
        sender.len() > 0 && address_outcome(sender) is Err ==> decided(table, request) == Err::<
            SocketAddr,
            LookupErrorView,
        >(
            LookupErrorView {
                kind: ProxyTableLookupErrorKind::InvalidFrom,
                cause: Some(address_outcome(sender)->Err_0),
            },
        ),
        sender.len() > 0 && address_outcome(sender) is Ok && in_lower_case(
            address_outcome(sender)->Ok_0,
            key,
        ) ==> found(
            table,
            protocol,
            key,
            ProxyTableLookupErrorKind::LookupFailed,
            decided(table, request),
        ),
{
    law_every_method_but_none_is_a_login(request);
    law_protocol_is_the_one_spoken(request, protocol);
    law_recipient_and_sender(request, recipient, sender);
    law_recipient_is_routed_by_domain(
        table,
        protocol,
        address_outcome(recipient)->Ok_0,
        recipient_key,
    );
    assert(by_recipient(table, protocol, address_outcome(recipient)) is None);
    if sender.len() == 0 {
        law_no_address_is_refused(table, protocol, sender);
    } else if address_outcome(sender) is Err {
        law_no_address_is_refused(table, protocol, address_outcome(sender)->Err_0);
    } else if in_lower_case(address_outcome(sender)->Ok_0, key) {
        law_sender_is_routed_by_domain(table, protocol, address_outcome(sender)->Ok_0, key);
    }
}

// ---- ordinary addresses ----
/// An ASCII letter or digit.
pub open spec fn letter_or_digit(c: char) -> bool {
    ('0' <= c <= '9') || ('A' <= c <= 'Z') || ('a' <= c <= 'z')
}

/// Whether a text is made of letters, digits, hyphens and dots, 63 characters at most, with a letter
/// or a digit at either end and on either side of every dot.
pub open spec fn words(s: Seq<char>) -> bool {
    &&& 1 <= s.len() <= 63
    &&& letter_or_digit(s[0])
    &&& letter_or_digit(s[s.len() - 1])
    &&& forall|i: int|
        0 < i < s.len() - 1 ==> letter_or_digit(#[trigger] s[i]) || s[i] == '-' || (s[i] == '.'
            && letter_or_digit(s[i - 1]) && letter_or_digit(s[i + 1]))
}

/// The text before an `@` and the one after the last are those of an address of the ordinary form.
pub proof fn law_ordinary_addresses(local: Seq<char>, domain: Seq<char>)
    requires
        words(local),
        words(domain),
    ensures
        plain_address(local + seq!['@'] + domain),
        bare(local + seq!['@'] + domain),
        after_last_at(local + seq!['@'] + domain) == domain,
{
    let s = local + seq!['@'] + domain;
    let at = local.len() as int;
    assert(s[at] == '@');
    assert forall|i: int| at < i < s.len() implies #[trigger] s[i] != '@' by {
        assert(s[i] == domain[i - at - 1]);
    }
    lemma_last_position(s, '@');
    assert(last_position(s, '@') == at);
    assert(s.take(at) =~= local);
    assert(s.skip(at + 1) =~= domain);
    assert(dotted_words(local));
    assert(dotted_words(domain));
    assert forall|i: int| 0 < i < s.len() && #[trigger] s[i] == '<' implies s[i - 1] != ' ' by {
        if i < at {
            assert(s[i] == local[i]);
        } else if i > at {
            assert(s[i] == domain[i - at - 1]);
        }
    }
}

/// A client that logs in with an ordinary address as its user name, by whatever method, is sent
/// where the table sends what follows the `@`, in lower case.
pub proof fn law_ordinary_login(
    table: Map<Seq<char>, NetSocketAddrs>,
    request: AuthRequestView,
    result: Result<SocketAddr, LookupErrorView>,
    protocol: MailProtocol,
    local: Seq<char>,
    domain: Seq<char>,
    key: Seq<char>,
)
    requires
        plain_addresses_pass(request, result),
        domains_follow_at(table, request, result),
        logs_in(request),
        speaks(request, protocol),
        says(request.user, local + seq!['@'] + domain),
        words(local),
        words(domain),
        in_lower_case(domain, key),
    ensures
        found(table, protocol, key, ProxyTableLookupErrorKind::AuthLookupFailed, result),
{
    law_every_method_but_none_is_a_login(request);
    law_protocol_is_the_one_spoken(request, protocol);
    law_user_name(request, local + seq!['@'] + domain);
    law_ordinary_addresses(local, domain);
    law_user_is_routed_by_domain(table, protocol, domain, key);
}

/// Mail without a login for an ordinary address is sent where the table sends what follows the `@`,
/// in lower case, if the table has an entry for that.
pub proof fn law_ordinary_recipient(
    table: Map<Seq<char>, NetSocketAddrs>,
    request: AuthRequestView,
    result: Result<SocketAddr, LookupErrorView>,
    protocol: MailProtocol,
    local: Seq<char>,
    domain: Seq<char>,
    key: Seq<char>,
)
    requires
        plain_addresses_pass(request, result),
        domains_follow_at(table, request, result),
        !logs_in(request),
        speaks(request, protocol),
        gives(request.smtp_to, "RCPT TO:"@, local + seq!['@'] + domain),
        words(local),
        words(domain),
        in_lower_case(domain, key),
        table.contains_key(key),
    ensures
        found(table, protocol, key, ProxyTableLookupErrorKind::LookupFailed, result),
{
    law_every_method_but_none_is_a_login(request);
    law_protocol_is_the_one_spoken(request, protocol);
    law_recipient_and_sender(request, local + seq!['@'] + domain, request.sender());
    law_ordinary_addresses(local, domain);
    law_domain_is_looked_up_in_lower_case(
        table,
        protocol,
        domain,
        key,
        ProxyTableLookupErrorKind::LookupFailed,
    );
}

/// Mail without a login from an ordinary address, for one whose domain the table does not have, is
/// sent where the table sends what follows the `@` of the sender, in lower case.
pub proof fn law_ordinary_sender(
    table: Map<Seq<char>, NetSocketAddrs>,
    request: AuthRequestView,
    result: Result<SocketAddr, LookupErrorView>,
    protocol: MailProtocol,
    recipient_local: Seq<char>,
    recipient_domain: Seq<char>,
    recipient_key: Seq<char>,
    local: Seq<char>,
    domain: Seq<char>,
    key: Seq<char>,
)
    requires
        plain_addresses_pass(request, result),
        domains_follow_at(table, request, result),
        !logs_in(request),
        speaks(request, protocol),
        gives(request.smtp_to, "RCPT TO:"@, recipient_local + seq!['@'] + recipient_domain),
        words(recipient_local),
        words(recipient_domain),
        in_lower_case(recipient_domain, recipient_key),
        !table.contains_key(recipient_key),
        gives(request.smtp_from, "MAIL FROM:"@, local + seq!['@'] + domain),
        words(local),
        words(domain),
        in_lower_case(domain, key),
    ensures
        found(table, protocol, key, ProxyTableLookupErrorKind::LookupFailed, result),
{
    let recipient = recipient_local + seq!['@'] + recipient_domain;
    let sender = local + seq!['@'] + domain;
    law_every_method_but_none_is_a_login(request);
    law_protocol_is_the_one_spoken(request, protocol);
    law_recipient_and_sender(request, recipient, sender);
    law_ordinary_addresses(recipient_local, recipient_domain);
    law_ordinary_addresses(local, domain);
    law_domain_is_looked_up_in_lower_case(
        table,
        protocol,
        recipient_domain,
        recipient_key,
        ProxyTableLookupErrorKind::LookupFailed,
    );
    law_sender_is_routed_by_domain(table, protocol, domain, key);
}

/// A user name without an `@` is refused, and so is, without a login, a recipient without one.
pub proof fn law_names_without_at_are_refused(
    request: AuthRequestView,
    result: Result<SocketAddr, LookupErrorView>,
    protocol: MailProtocol,
    name: Seq<char>,
)
    requires
        only_addresses(request, result),
        speaks(request, protocol),
        if logs_in(request) {
            names(request.user, name)
        } else {
            gives(request.smtp_to, "RCPT TO:"@, name)
        },
        forall|i: int| 0 <= i < name.len() ==> #[trigger] name[i] != '@',
    ensures
        result is Err,
        logs_in(request) ==> result->Err_0.kind is InvalidFrom,
        !logs_in(request) ==> result->Err_0.kind is InvalidRcpt,
{
    law_every_method_but_none_is_a_login(request);
    law_protocol_is_the_one_spoken(request, protocol);
    law_user_name(request, name);
    law_recipient_and_sender(request, name, request.sender());
}

// ---- answers ----
/// What a mail client is told of a refusal.
pub open spec fn told(kind: ProxyTableLookupErrorKind) -> Seq<char> {
    match kind {
        ProxyTableLookupErrorKind::InvalidRcpt => "invalid recipient"@,
        ProxyTableLookupErrorKind::InvalidFrom => "invalid sender"@,
        ProxyTableLookupErrorKind::ProtocolLookupFailed =>
            "the current mail protocol cannot be used with the specified mail domain"@,
        ProxyTableLookupErrorKind::ProtocolUnknown =>
            "sluice doesn't know of the protocol given by nginx"@,
        ProxyTableLookupErrorKind::AuthLookupFailed =>
            "this server does not handle logins for the specified mail domain"@,
        ProxyTableLookupErrorKind::LookupFailed =>
            "neither the sending nor receiving domain is associated with this server"@,
    }
}

/// The messages of the refusals, and those that the service ends with.
pub proof fn law_messages(kind: ProxyTableLookupErrorKind, service: ServiceErrorKind)
    ensures
        kind.spec_message() == told(kind),
        service is Config ==> service.spec_message() == "config error"@,
        service is Http ==> service.spec_message() == "failed to start http server"@,
{
}

/// Whether `text` is `message` and, where there is a cause, `mark` between spaces and the cause,
/// with a colon for every `∵` in the cause if `mark` is one.
pub open spec fn tells(
    text: Seq<char>,
    message: Seq<char>,
    mark: char,
    cause: Option<Seq<char>>,
) -> bool {
    &&& forall|i: int| 0 <= i < message.len() ==> #[trigger] text[i] == message[i]
    &&& match cause {
        None => text.len() == message.len(),
        Some(cause) => {
            let n = message.len() as int;
            &&& text.len() == n + 3 + cause.len()
            &&& text[n] == ' '
            &&& text[n + 1] == mark
            &&& text[n + 2] == ' '
            &&& forall|i: int|
                0 <= i < cause.len() ==> if cause[i] == '∵' && mark == ':' {
                    #[trigger] text[n + 3 + i] == ':'
                } else {
                    text[n + 3 + i] == cause[i]
                }
        },
    }
}

/// A refusal is put into words as its message and then its cause, set apart by `∵`; to a client, by
/// a colon, and no `∵` is left.
pub proof fn law_refusals_in_words(error: LookupErrorView)
    ensures
        tells(error.chain(), told(error.kind), '∵', error.cause),
        tells(error.client_text(), told(error.kind), ':', error.cause),
        !error.client_text().contains('∵'),
{
    reveal_strlit(" ∵ ");
    lemma_message(error.kind);
    let message = told(error.kind);
    let n = message.len() as int;
    let text = error.client_text();
    assert(text.len() == error.chain().len());
    assert forall|i: int| 0 <= i < text.len() implies #[trigger] text[i] == (if error.chain()[i]
        == '∵' {
        ':'
    } else {
        error.chain()[i]
    }) by {}
    if let Some(cause) = error.cause {
        assert forall|i: int| 0 <= i < cause.len() implies #[trigger] text[n + 3 + i] == (if cause[i]
            == '∵' {
            ':'
        } else {
            cause[i]
        }) by {
            assert(error.chain()[n + 3 + i] == cause[i]);
        }
    }
}

/// The answer that sends a session to a server: the status is `OK`, and the server's address and
/// port follow, the port as a decimal number.
pub proof fn law_accepting_answer(server: SocketAddr)
    ensures
        ({
            let headers = answer(Ok(server));
            &&& headers.len() == 3
            &&& headers[0] == ("Auth-Status"@, "OK"@)
            &&& headers[1] == ("Auth-Server"@, server.ip@)
            &&& headers[2].0 == "Auth-Port"@
            &&& writes(headers[2].1, server.port as int)
            &&& headers == accepting_headers(server)
        }),
{
    law_decimal_reads_back(server.port as nat);
}

/// The answer that refuses a session: the reply code of the refusal, and what it says as the
/// status.
pub proof fn law_refusing_answer(error: LookupErrorView)
    ensures
        ({
            let headers = answer(Err(error));
            &&& headers.len() == 2
            &&& headers[0].0 == "Auth-Error-Code"@
            &&& headers[0].1 == (match error.kind {
                ProxyTableLookupErrorKind::LookupFailed => "550 5.7.1"@,
                ProxyTableLookupErrorKind::AuthLookupFailed => "550 5.7.1"@,
                ProxyTableLookupErrorKind::InvalidFrom => "501 5.1.7"@,
                ProxyTableLookupErrorKind::InvalidRcpt => "501 5.1.3"@,
                ProxyTableLookupErrorKind::ProtocolUnknown => "451 4.3.5"@,
                ProxyTableLookupErrorKind::ProtocolLookupFailed => "550 5.7.0"@,
            })
            &&& headers[1].0 == "Auth-Status"@
            &&& tells(headers[1].1, told(error.kind), ':', error.cause)
            &&& headers == refusing_headers(error)
        }),
{
    law_reply_codes(error.kind);
    law_refusals_in_words(error);
}

/// A refusal has the reply code that it is answered with, whatever caused it.
pub proof fn law_refusals_have_the_code_of_their_answer(error: ProxyTableLookupError)
    ensures
        answer(Err(error@))[0].1 == error.spec_smtp_status().spec_text(),
{
}

// ---- values and what they stand for ----
/// Headers stand for their names and values, one for one and in order.
pub proof fn law_named_values(headers: Seq<(String, String)>)
    ensures
        named_values(headers).len() == headers.len(),
        forall|i: int|
            0 <= i < headers.len() ==> #[trigger] named_values(headers)[i] == (
                headers[i].0@,
                headers[i].1@,
            ),
{
}

/// A result stands for the server that it names, or for the kind of the refusal and the text of its
/// cause.
pub proof fn law_outcome(
    response: ProxyTableResponse,
    error: ProxyTableLookupError,
    domain: String,
    message: String,
)
    ensures
        outcome(Ok(response)) == Ok::<SocketAddr, LookupErrorView>(response.server),
        outcome(Err(error)) is Err,
        outcome(Err(error))->Err_0 == error@,
        error@.kind == error.kind,
        error.cause is None <==> error@.cause is None,
        error.cause is Some ==> error@.cause == Some(error.cause->0@),
        parsed(Ok(domain)) == Ok::<Seq<char>, Seq<char>>(domain@),
        parsed(Err(message)) == Err::<Seq<char>, Seq<char>>(message@),
{
}

/// The two ways to make a refusal set its kind, and its cause where there is one.
pub proof fn law_refusals(kind: ProxyTableLookupErrorKind, cause: Seq<char>)
    ensures
        LookupErrorView::plain(kind) == (LookupErrorView { kind, cause: None }),
        LookupErrorView::caused(kind, cause) == (LookupErrorView { kind, cause: Some(cause) }),
{
}

/// A state stands for its map, and a routing table is well-formed if all the servers that its
/// entries have are given by printable text.
pub proof fn law_tables(state: SluiceState, table: Map<Seq<char>, NetSocketAddrs>)
    ensures
        state@ == state.proxy_map@,
        table_well_formed(table) <==> forall|
            domain: Seq<char>,
            protocol: MailProtocol,
            server: SocketAddr,
            i: int,
        |
            table.contains_key(domain) && #[trigger] serves(table[domain], protocol, server) && 0
                <= i < server.ip@.len() ==> 0x20 <= #[trigger] server.ip@[i] as int
                && server.ip@[i] as int <= 0x7e,
{
    if table_well_formed(table) {
        assert forall|domain: Seq<char>, protocol: MailProtocol, server: SocketAddr, i: int|
            table.contains_key(domain) && #[trigger] serves(table[domain], protocol, server) && 0
                <= i < server.ip@.len() implies 0x20 <= #[trigger] server.ip@[i] as int
            && server.ip@[i] as int <= 0x7e by {
            law_entry_serves(table[domain], protocol, server);
            assert(table[domain].spec_get(protocol)->0.well_formed());
            law_printable(server.ip@);
        }
    }
    if forall|domain: Seq<char>, protocol: MailProtocol, server: SocketAddr, i: int|
        table.contains_key(domain) && #[trigger] serves(table[domain], protocol, server) && 0 <= i
            < server.ip@.len() ==> 0x20 <= #[trigger] server.ip@[i] as int && server.ip@[i] as int
            <= 0x7e {
        assert forall|domain: Seq<char>, protocol: MailProtocol|
            table.contains_key(domain) && (#[trigger] table[domain].spec_get(
                protocol,
            )) is Some implies table[domain].spec_get(protocol)->0.well_formed() by {
            let server = table[domain].spec_get(protocol)->0;
            law_entry_serves(table[domain], protocol, server);
            law_printable(server.ip@);
        }
    }
}

} // verus!
