//! What holds of the library as a whole: properties that span several functions, stated over the
//! same specification functions as their contracts.

use crate::config::{entered, MailProtocol, NetSocketAddrs, ProtocolTable, SocketAddr};
use crate::envelope::{
    after_blanks, blank, captured, envelope_address, is_blank, is_visible, last_position, latin1,
    plain_text,
};
use crate::error::{LookupErrorView, ProxyTableLookupErrorKind};
use crate::http::{
    answer, by_recipient, by_sender, cause_printable, decided, letter_case_ignored,
    refusing_headers, routed, AuthRequestView,
};
use crate::outside::address_outcome;
use crate::smtp_status::{two_places, SmtpStatus, StatusClass};
use crate::text::{decimal, digit, lemma_lower_is_lower, lower, lower_char, printable};
use vstd::prelude::*;

verus! {

/// A single address answers for every protocol.
pub proof fn law_single_answers_every_protocol(addr: SocketAddr, protocol: MailProtocol)
    ensures
        NetSocketAddrs::Single(addr).spec_get(protocol) == Some(addr),
{
}

/// What was entered for a protocol is what the protocol gets.
pub proof fn law_entry_wins(table: ProtocolTable, protocol: MailProtocol)
    requires
        table@.contains_key(protocol),
    ensures
        NetSocketAddrs::ByProtocol(table).spec_get(protocol) == Some(table@[protocol]),
{
}

/// A client that logs in over SMTP gets what was entered for SMTP where nothing was entered for
/// those who log in.
pub proof fn law_login_falls_back_to_smtp(table: ProtocolTable)
    requires
        !table@.contains_key(MailProtocol::SmtpAuthenticated),
    ensures
        NetSocketAddrs::ByProtocol(table).spec_get(MailProtocol::SmtpAuthenticated)
            == NetSocketAddrs::ByProtocol(table).spec_get(MailProtocol::Smtp),
{
}

/// That is the only fallback: any other protocol gets nothing but its own entry, whatever was
/// entered for the rest.
pub proof fn law_no_other_fallback(table: ProtocolTable, protocol: MailProtocol)
    requires
        protocol != MailProtocol::SmtpAuthenticated,
        !table@.contains_key(protocol),
    ensures
        NetSocketAddrs::ByProtocol(table).spec_get(protocol) is None,
{
}

/// Of the entries for one protocol the last one counts, and there is nothing for a protocol
/// without an entry.
pub proof fn law_last_entry_counts(
    entries: Seq<(MailProtocol, SocketAddr)>,
    protocol: MailProtocol,
    last: int,
)
    requires
        -1 <= last < entries.len(),
        last >= 0 ==> entries[last].0 == protocol,
        forall|i: int| last < i < entries.len() ==> (#[trigger] entries[i]).0 != protocol,
    ensures
        last == -1 ==> !entered(entries).contains_key(protocol),
        last >= 0 ==> entered(entries).contains_key(protocol) && entered(entries)[protocol]
            == entries[last].1,
    decreases entries.len(),
{
    if entries.len() > 0 && last < entries.len() - 1 {
        assert(entries.last().0 != protocol);
        let fewer = entries.drop_last();
        assert forall|i: int| last < i < fewer.len() implies (#[trigger] fewer[i]).0
            != protocol by {
            assert(fewer[i] == entries[i]);
        }
        law_last_entry_counts(fewer, protocol, last);
    }
}

/// The name of a protocol parses back to it, and nothing but its name does.
pub proof fn law_names_round_trip(protocol: MailProtocol, s: Seq<char>)
    ensures
        MailProtocol::spec_parse(s) == Some(protocol) <==> s == protocol.spec_name(),
{
    reveal_strlit("smtp");
    reveal_strlit("smtp_authenticated");
    reveal_strlit("imap");
    reveal_strlit("pop3");
    assert("smtp"@.len() != "smtp_authenticated"@.len());
    assert("smtp"@[0] == 's' && "imap"@[0] == 'i' && "pop3"@[0] == 'p');
    assert("smtp_authenticated"@[0] == 's');
}

/// Whether a client logs in is settled by what was said last, and it changes nothing for IMAP and
/// POP3.
pub proof fn law_login_settled_by_last_word(protocol: MailProtocol, first: bool, last: bool)
    ensures
        protocol.spec_authenticated(first).spec_authenticated(last) == protocol.spec_authenticated(
            last,
        ),
        protocol.spec_authenticated(true) != MailProtocol::Smtp,
        protocol.spec_authenticated(false) != MailProtocol::SmtpAuthenticated,
        protocol == MailProtocol::Imap || protocol == MailProtocol::Pop3
            ==> protocol.spec_authenticated(last) == protocol,
{
}

/// Where a client logs in, the envelope is not looked at.
pub proof fn law_login_ignores_envelope(
    table: Map<Seq<char>, NetSocketAddrs>,
    request: AuthRequestView,
    smtp_to: Option<Seq<u8>>,
    smtp_from: Option<Seq<u8>>,
)
    requires
        request.authenticated(),
    ensures
        decided(table, AuthRequestView { smtp_to, smtp_from, ..request }) == decided(
            table,
            request,
        ),
{
}

/// Where no client logs in, a user name is not looked at.
pub proof fn law_mail_ignores_user(
    table: Map<Seq<char>, NetSocketAddrs>,
    request: AuthRequestView,
    user: Option<Seq<u8>>,
)
    requires
        !request.authenticated(),
    ensures
        decided(table, AuthRequestView { user, ..request }) == decided(table, request),
{
}

/// Where the recipient settles the matter, because it is no address or its domain is managed, the
/// sender is not looked at.
pub proof fn law_recipient_comes_first(
    table: Map<Seq<char>, NetSocketAddrs>,
    request: AuthRequestView,
    protocol: MailProtocol,
    smtp_from: Option<Seq<u8>>,
)
    requires
        !request.authenticated(),
        request.mail_protocol() == Some(protocol),
        by_recipient(table, protocol, address_outcome(request.recipient())) is Some,
    ensures
        decided(table, AuthRequestView { smtp_from, ..request }) == decided(table, request),
        Some(decided(table, request)) == by_recipient(
            table,
            protocol,
            address_outcome(request.recipient()),
        ),
{
}

/// Where the recipient's domain is not managed, the sender settles the matter.
pub proof fn law_sender_comes_second(
    table: Map<Seq<char>, NetSocketAddrs>,
    request: AuthRequestView,
    protocol: MailProtocol,
)
    requires
        !request.authenticated(),
        request.mail_protocol() == Some(protocol),
        by_recipient(table, protocol, address_outcome(request.recipient())) is None,
    ensures
        request.sender().len() > 0 ==> decided(table, request) == by_sender(
            table,
            protocol,
            Some(address_outcome(request.sender())),
        ),
        request.sender().len() == 0 ==> decided(table, request) == Err::<
            SocketAddr,
            LookupErrorView,
        >(LookupErrorView::plain(ProxyTableLookupErrorKind::LookupFailed)),
{
}

/// A request that names no protocol, or none that is known, is refused as such, whatever else it
/// says and whatever the table holds.
pub proof fn law_unknown_protocol_is_refused(
    table: Map<Seq<char>, NetSocketAddrs>,
    request: AuthRequestView,
)
    requires
        forall|protocol: MailProtocol|
            request.protocol is Some ==> latin1(request.protocol->0)
                != #[trigger] protocol.spec_name(),
    ensures
        decided(table, request) == Err::<SocketAddr, LookupErrorView>(
            LookupErrorView::plain(ProxyTableLookupErrorKind::ProtocolUnknown),
        ),
{
    if let Some(value) = request.protocol {
        let name = latin1(value);
        if let Some(protocol) = MailProtocol::spec_parse(name) {
            law_names_round_trip(protocol, name);
            assert(name != protocol.spec_name());
        }
    }
}

/// A session is only ever sent to a server that the table lists, under some domain, for the
/// protocol of the session.
pub proof fn law_servers_come_from_the_table(
    table: Map<Seq<char>, NetSocketAddrs>,
    request: AuthRequestView,
    server: SocketAddr,
)
    requires
        decided(table, request) == Ok::<SocketAddr, LookupErrorView>(server),
    ensures
        request.mail_protocol() is Some,
        exists|domain: Seq<char>|
            table.contains_key(domain) && (#[trigger] table[domain]).spec_get(
                request.mail_protocol()->0,
            ) == Some(server),
{
    let protocol = request.mail_protocol()->0;
    if request.authenticated() {
        let domain = lower(address_outcome(request.user_name())->Ok_0);
        assert(table.contains_key(domain) && table[domain].spec_get(protocol) == Some(server));
    } else if by_recipient(table, protocol, address_outcome(request.recipient())) is Some {
        let domain = lower(address_outcome(request.recipient())->Ok_0);
        assert(table.contains_key(domain) && table[domain].spec_get(protocol) == Some(server));
    } else {
        let domain = lower(address_outcome(request.sender())->Ok_0);
        assert(table.contains_key(domain) && table[domain].spec_get(protocol) == Some(server));
    }
}

/// Where no client logs in, what the table lists for clients that log in over SMTP is not used:
/// two tables that differ in nothing else decide alike.
pub proof fn law_submission_needs_login(
    table: Map<Seq<char>, NetSocketAddrs>,
    other: Map<Seq<char>, NetSocketAddrs>,
    request: AuthRequestView,
)
    requires
        !request.authenticated(),
        table.dom() == other.dom(),
        forall|domain: Seq<char>, protocol: MailProtocol|
            table.contains_key(domain) && protocol != MailProtocol::SmtpAuthenticated
                ==> #[trigger] table[domain].spec_get(protocol) == other[domain].spec_get(protocol),
    ensures
        decided(table, request) == decided(other, request),
{
    if let Some(protocol) = request.mail_protocol() {
        assert forall|domain: Seq<char>|
            #![trigger routed(table, protocol, domain)]
            routed(table, protocol, domain) == routed(other, protocol, domain) by {
            assert(table.dom().contains(lower(domain)) == other.dom().contains(lower(domain)));
            assert(table.contains_key(lower(domain)) ==> table[lower(domain)].spec_get(protocol)
                == other[lower(domain)].spec_get(protocol));
        }
    }
}

/// Capitals in a domain make no difference.
pub proof fn law_domains_ignore_case(
    table: Map<Seq<char>, NetSocketAddrs>,
    protocol: MailProtocol,
    domain: Seq<char>,
    other: Seq<char>,
)
    requires
        lower(domain) == lower(other),
    ensures
        routed(table, protocol, domain) == routed(table, protocol, other),
        routed(table, protocol, domain) == routed(table, protocol, lower(domain)),
{
    lemma_lower_is_lower(domain);
}

/// Whether two texts are the same address as far as routing goes: their domains differ in nothing
/// but the case of letters, or both are no address for the same reason.
pub open spec fn alike(
    address: Result<Seq<char>, Seq<char>>,
    other: Result<Seq<char>, Seq<char>>,
) -> bool {
    match (address, other) {
        (Ok(domain), Ok(other)) => lower(domain) == lower(other),
        (Err(message), Err(other)) => message == other,
        _ => false,
    }
}

/// Requests are decided alike if they agree on the method and the protocol and their addresses are
/// alike.
pub proof fn law_alike_addresses_are_decided_alike(
    table: Map<Seq<char>, NetSocketAddrs>,
    request: AuthRequestView,
    other: AuthRequestView,
)
    requires
        request.method == other.method,
        request.protocol == other.protocol,
        alike(address_outcome(request.user_name()), address_outcome(other.user_name())),
        alike(address_outcome(request.recipient()), address_outcome(other.recipient())),
        alike(address_outcome(request.sender()), address_outcome(other.sender())),
        request.sender().len() == 0 <==> other.sender().len() == 0,
    ensures
        decided(table, request) == decided(table, other),
{
}

/// Whether two header values differ in nothing but the case of letters.
pub open spec fn same_letters(value: Option<Seq<u8>>, other: Option<Seq<u8>>) -> bool {
    match (value, other) {
        (Some(value), Some(other)) => lower(latin1(value)) == lower(latin1(other)),
        (None, None) => true,
        _ => false,
    }
}

/// Whether two header values differ in nothing but the case of letters, and both or neither begin
/// with the command as it is written.
pub open spec fn same_command(
    value: Option<Seq<u8>>,
    other: Option<Seq<u8>>,
    command: Seq<char>,
) -> bool {
    &&& same_letters(value, other)
    &&& value is Some && other is Some ==> command.is_prefix_of(latin1(value->0))
        == command.is_prefix_of(latin1(other->0))
}

proof fn lemma_same_letters(text: Seq<char>, other: Seq<char>)
    requires
        lower(text) == lower(other),
    ensures
        text.len() == other.len(),
        forall|i: int|
            0 <= i < text.len() ==> lower_char(#[trigger] text[i]) == lower_char(other[i]),
{
    assert(lower(text).len() == text.len());
    assert(lower(other).len() == other.len());
    assert forall|i: int| 0 <= i < text.len() implies lower_char(#[trigger] text[i]) == lower_char(
        other[i],
    ) by {
        assert(lower(text)[i] == lower_char(text[i]));
        assert(lower(other)[i] == lower_char(other[i]));
    }
}

proof fn lemma_same_text(value: Option<Seq<u8>>, other: Option<Seq<u8>>)
    requires
        same_letters(value, other),
    ensures
        plain_text(value) is Some <==> plain_text(other) is Some,
        plain_text(value) is Some ==> lower(plain_text(value)->0) == lower(plain_text(other)->0),
{
    if let (Some(v), Some(w)) = (value, other) {
        lemma_same_letters(latin1(v), latin1(w));
        assert forall|i: int| 0 <= i < v.len() implies is_visible(#[trigger] v[i]) == is_visible(
            w[i],
        ) by {
            assert(lower_char(latin1(v)[i]) == lower_char(latin1(w)[i]));
        }
        assert forall|i: int| 0 <= i < w.len() implies is_visible(v[i]) == is_visible(
            #[trigger] w[i],
        ) by {
            assert(is_visible(v[i]) == is_visible(w[i]));
        }
    }
}

proof fn lemma_same_after_blanks(text: Seq<char>, other: Seq<char>, from: int)
    requires
        lower(text) == lower(other),
    ensures
        after_blanks(text, from) == after_blanks(other, from),
    decreases text.len() - from,
{
    lemma_same_letters(text, other);
    if 0 <= from < text.len() {
        assert(lower_char(text[from]) == lower_char(other[from]));
        if is_blank(text[from]) {
            lemma_same_after_blanks(text, other, from + 1);
        }
    }
}

proof fn lemma_same_last_position(text: Seq<char>, other: Seq<char>)
    requires
        lower(text) == lower(other),
    ensures
        last_position(text, '>') == last_position(other, '>'),
    decreases text.len(),
{
    lemma_same_letters(text, other);
    if text.len() > 0 {
        assert(lower_char(text[text.len() - 1]) == lower_char(other[text.len() - 1]));
        assert(lower(text.drop_last()) =~= lower(text).drop_last());
        assert(lower(other.drop_last()) =~= lower(other).drop_last());
        lemma_same_last_position(text.drop_last(), other.drop_last());
    }
}

proof fn lemma_same_command(value: Option<Seq<u8>>, other: Option<Seq<u8>>, command: Seq<char>)
    requires
        same_command(value, other, command),
    ensures
        lower(envelope_address(value, command)) == lower(envelope_address(other, command)),
{
    lemma_same_text(value, other);
    if plain_text(value) is Some {
        let text = plain_text(value)->0;
        let twin = plain_text(other)->0;
        lemma_same_letters(text, twin);
        lemma_same_after_blanks(text, twin, command.len() as int);
        let open = after_blanks(text, command.len() as int);
        lemma_same_after_blanks(text, twin, open + 1);
        lemma_same_last_position(text, twin);
        if command.is_prefix_of(text) {
            lemma_after_blanks(text, command.len() as int);
            if open < text.len() {
                assert(lower_char(text[open]) == lower_char(twin[open]));
                lemma_after_blanks(text, open + 1);
                lemma_last_position(text, '>');
                let start = after_blanks(text, open + 1);
                let close = last_position(text, '>');
                if start <= close {
                    assert(lower(text.subrange(start, close)) =~= lower(text).subrange(
                        start,
                        close,
                    ));
                    assert(lower(twin.subrange(start, close)) =~= lower(twin).subrange(
                        start,
                        close,
                    ));
                }
            }
        }
    }
}

/// Capitals in the addresses of a request make no difference: two requests that differ in nothing
/// but the case of letters in their addresses are sent to the same server, or refused for the same
/// reason. The two results are those of deciding on the two requests.
pub proof fn law_requests_ignore_case(
    table: Map<Seq<char>, NetSocketAddrs>,
    request: AuthRequestView,
    other: AuthRequestView,
    result: Result<SocketAddr, LookupErrorView>,
    other_result: Result<SocketAddr, LookupErrorView>,
)
    requires
        request.method == other.method,
        request.protocol == other.protocol,
        same_letters(request.user, other.user),
        same_command(request.smtp_to, other.smtp_to, "RCPT TO:"@),
        same_command(request.smtp_from, other.smtp_from, "MAIL FROM:"@),
        result == decided(table, request) && letter_case_ignored(table, request, result),
        other_result == decided(table, other) && letter_case_ignored(table, other, other_result),
    ensures
        result == other_result,
{
    lemma_same_text(request.user, other.user);
    lemma_same_command(request.smtp_to, other.smtp_to, "RCPT TO:"@);
    lemma_same_command(request.smtp_from, other.smtp_from, "MAIL FROM:"@);
}

/// An entry of the table under a name with a capital in it is never used.
pub proof fn law_entries_with_capitals_are_dead(
    table: Map<Seq<char>, NetSocketAddrs>,
    name: Seq<char>,
    protocol: MailProtocol,
    domain: Seq<char>,
)
    requires
        lower(name) != name,
    ensures
        routed(table.remove(name), protocol, domain) == routed(table, protocol, domain),
{
    lemma_lower_is_lower(domain);
}

/// Only a protocol that the proxy names wrongly is a temporary failure: that is a fault of the
/// deployment, and mail is to wait until it is mended. Every other refusal is permanent.
pub proof fn law_only_deployment_faults_are_temporary(kind: ProxyTableLookupErrorKind)
    ensures
        kind.spec_status().class == StatusClass::TempFail <==> kind
            == ProxyTableLookupErrorKind::ProtocolUnknown,
{
}

/// The reply code of every refusal as a mail client sees it.
pub proof fn law_reply_codes(kind: ProxyTableLookupErrorKind)
    ensures
        kind.spec_status().spec_text() == (match kind {
            ProxyTableLookupErrorKind::LookupFailed => "550 5.7.1"@,
            ProxyTableLookupErrorKind::AuthLookupFailed => "550 5.7.1"@,
            ProxyTableLookupErrorKind::InvalidFrom => "501 5.1.7"@,
            ProxyTableLookupErrorKind::InvalidRcpt => "501 5.1.3"@,
            ProxyTableLookupErrorKind::ProtocolUnknown => "451 4.3.5"@,
            ProxyTableLookupErrorKind::ProtocolLookupFailed => "550 5.7.0"@,
        }),
{
    reveal_strlit("550 5.7.1");
    reveal_strlit("501 5.1.7");
    reveal_strlit("501 5.1.3");
    reveal_strlit("451 4.3.5");
    reveal_strlit("550 5.7.0");
    reveal_with_fuel(decimal, 2);
    let text = kind.spec_status().spec_text();
    match kind {
        ProxyTableLookupErrorKind::LookupFailed => {
            assert(text =~= "550 5.7.1"@);
        },
        ProxyTableLookupErrorKind::AuthLookupFailed => {
            assert(text =~= "550 5.7.1"@);
        },
        ProxyTableLookupErrorKind::InvalidFrom => {
            assert(text =~= "501 5.1.7"@);
        },
        ProxyTableLookupErrorKind::InvalidRcpt => {
            assert(text =~= "501 5.1.3"@);
        },
        ProxyTableLookupErrorKind::ProtocolUnknown => {
            assert(text =~= "451 4.3.5"@);
        },
        ProxyTableLookupErrorKind::ProtocolLookupFailed => {
            assert(text =~= "550 5.7.0"@);
        },
    }
}

/// A reply code has the shape `ABB X.Y.Z`, and `A` and `X` are the same digit. `A`, `X` and `Y` take
/// one place each; `BB` takes two if it is below 100, and `Z` takes one if it is below 10.
pub proof fn law_reply_code_shape(status: SmtpStatus)
    ensures
        ({
            let text = status.spec_text();
            let n = two_places(status.basic_detail as nat).len() as int;
            &&& text.len() == n + 6 + decimal(status.extended_detail as nat).len()
            &&& text[0] == digit(status.class.spec_code() as nat)
            &&& text.subrange(1, n + 1) == two_places(status.basic_detail as nat)
            &&& text[n + 1] == ' '
            &&& text[n + 2] == text[0]
            &&& text[n + 3] == '.'
            &&& text[n + 4] == digit(status.subject.spec_code() as nat)
            &&& text[n + 5] == '.'
            &&& text.skip(n + 6) == decimal(status.extended_detail as nat)
        }),
        status.basic_detail < 100 ==> two_places(status.basic_detail as nat).len() == 2,
        status.extended_detail < 10 ==> decimal(status.extended_detail as nat).len() == 1,
{
    reveal_with_fuel(decimal, 2);
    let text = status.spec_text();
    let n = two_places(status.basic_detail as nat).len() as int;
    assert(text.subrange(1, n + 1) =~= two_places(status.basic_detail as nat));
    assert(text.skip(n + 6) =~= decimal(status.extended_detail as nat));
}

pub proof fn lemma_message(kind: ProxyTableLookupErrorKind)
    ensures
        kind.spec_message().len() > 2,
        printable(kind.spec_message()),
        forall|i: int|
            0 <= i < kind.spec_message().len() ==> !('0' <= #[trigger] kind.spec_message()[i]
                && kind.spec_message()[i] <= '9'),
{
    reveal_strlit("neither the sending nor receiving domain is associated with this server");
    reveal_strlit("this server does not handle logins for the specified mail domain");
    reveal_strlit("invalid sender");
    reveal_strlit("invalid recipient");
    reveal_strlit("sluice doesn't know of the protocol given by nginx");
    reveal_strlit("the current mail protocol cannot be used with the specified mail domain");
}

/// An answer carries the status `OK` exactly if the session is sent to a server.
pub proof fn law_ok_means_routed(result: Result<SocketAddr, LookupErrorView>)
    ensures
        answer(result).contains(("Auth-Status"@, "OK"@)) <==> result is Ok,
{
    reveal_strlit("OK");
    reveal_strlit("Auth-Status");
    reveal_strlit("Auth-Error-Code");
    match result {
        Ok(server) => {
            assert(answer(result)[0] == ("Auth-Status"@, "OK"@));
        },
        Err(error) => {
            lemma_message(error.kind);
            reveal_strlit(" ∵ ");
            assert(error.client_text().len() > 2);
            assert("Auth-Error-Code"@.len() != "Auth-Status"@.len());
        },
    }
}

/// A refusal names neither a server nor a port.
pub proof fn law_refusals_name_no_server(error: LookupErrorView, value: Seq<char>)
    ensures
        !refusing_headers(error).contains(("Auth-Server"@, value)),
        !refusing_headers(error).contains(("Auth-Port"@, value)),
{
    reveal_strlit("Auth-Server");
    reveal_strlit("Auth-Port");
    reveal_strlit("Auth-Status");
    reveal_strlit("Auth-Error-Code");
    assert("Auth-Server"@[6] == 'e' && "Auth-Status"@[6] == 't');
    assert("Auth-Port"@.len() == 9 && "Auth-Status"@.len() == 11);
    assert("Auth-Server"@.len() == 11 && "Auth-Error-Code"@.len() == 15);
}

/// What a refusal says in words, where nothing else caused it, holds no digit: the reply code is
/// in a header of its own, so that protocols without reply codes can leave it out.
pub proof fn law_words_hold_no_code(kind: ProxyTableLookupErrorKind, i: int)
    requires
        0 <= i < LookupErrorView::plain(kind).client_text().len(),
    ensures
        !('0' <= LookupErrorView::plain(kind).client_text()[i]
            && LookupErrorView::plain(kind).client_text()[i] <= '9'),
{
    lemma_message(kind);
    assert(!('0' <= kind.spec_message()[i] && kind.spec_message()[i] <= '9'));
}

proof fn lemma_decimal_printable(n: nat)
    ensures
        printable(decimal(n)),
    decreases n,
{
    if n >= 10 {
        lemma_decimal_printable(n / 10);
    }
}

/// The values of an answer's headers are printable ASCII, and so can be sent as headers, if the
/// server's address is well-formed and what caused a refusal is printable.
pub proof fn law_answers_are_printable(result: Result<SocketAddr, LookupErrorView>, i: int)
    requires
        result is Ok ==> result->Ok_0.well_formed(),
        cause_printable(result),
        0 <= i < answer(result).len(),
    ensures
        printable(answer(result)[i].1),
{
    reveal_strlit("OK");
    match result {
        Ok(server) => {
            lemma_decimal_printable(server.port as nat);
        },
        Err(error) => {
            lemma_message(error.kind);
            law_reply_codes(error.kind);
            reveal_strlit("550 5.7.1");
            reveal_strlit("501 5.1.7");
            reveal_strlit("501 5.1.3");
            reveal_strlit("451 4.3.5");
            reveal_strlit("550 5.7.0");
            assert(printable(error.kind.spec_status().spec_text()));
            reveal_strlit(" ∵ ");
            let chain = error.chain();
            let text = error.client_text();
            assert forall|j: int| 0 <= j < text.len() implies ' ' <= #[trigger] text[j] && text[j]
                <= '~' by {
                let n = error.kind.spec_message().len();
                if j < n {
                    assert(chain[j] == error.kind.spec_message()[j]);
                } else if j < n + 3 {
                    assert(chain[j] == " ∵ "@[j - n]);
                } else {
                    assert(chain[j] == error.cause->0[j - n - 3]);
                }
            }
        },
    }
}

pub proof fn lemma_after_blanks(text: Seq<char>, from: int)
    requires
        0 <= from <= text.len(),
    ensures
        from <= after_blanks(text, from) <= text.len(),
        forall|i: int| from <= i < after_blanks(text, from) ==> is_blank(#[trigger] text[i]),
        after_blanks(text, from) < text.len() ==> !is_blank(text[after_blanks(text, from)]),
    decreases text.len() - from,
{
    if from < text.len() && is_blank(text[from]) {
        lemma_after_blanks(text, from + 1);
    }
}

pub proof fn lemma_last_position(text: Seq<char>, c: char)
    ensures
        -1 <= last_position(text, c) < text.len(),
        last_position(text, c) >= 0 ==> text[last_position(text, c)] == c,
        forall|i: int| last_position(text, c) < i < text.len() ==> #[trigger] text[i] != c,
    decreases text.len(),
{
    if text.len() > 0 && text.last() != c {
        let shorter = text.drop_last();
        lemma_last_position(shorter, c);
        assert forall|i: int| last_position(text, c) < i < text.len() implies #[trigger] text[i]
            != c by {
            if i < shorter.len() {
                assert(shorter[i] == text[i]);
            }
        }
    }
}

/// Whether `text` can be read as an envelope command: the command, white space, an opening
/// bracket, white space, the address, white space, a closing bracket and whatever follows.
pub open spec fn reads_as(
    text: Seq<char>,
    command: Seq<char>,
    gap: Seq<char>,
    pad: Seq<char>,
    address: Seq<char>,
    tail: Seq<char>,
    rest: Seq<char>,
) -> bool {
    &&& blank(gap)
    &&& blank(pad)
    &&& blank(tail)
    &&& text == command + gap + seq!['<'] + pad + address + tail + seq!['>'] + rest
}

/// What is captured as the address of an envelope command is the address in some reading of it.
pub proof fn law_captured_can_be_read(text: Seq<char>, command: Seq<char>)
    requires
        captured(text, command) is Some,
    ensures
        exists|gap: Seq<char>, pad: Seq<char>, tail: Seq<char>, rest: Seq<char>|
            reads_as(text, command, gap, pad, captured(text, command)->0, tail, rest),
{
    let open = after_blanks(text, command.len() as int);
    let start = after_blanks(text, open + 1);
    let close = last_position(text, '>');
    lemma_after_blanks(text, command.len() as int);
    lemma_after_blanks(text, open + 1);
    lemma_last_position(text, '>');
    let gap = text.subrange(command.len() as int, open);
    let pad = text.subrange(open + 1, start);
    let address = text.subrange(start, close);
    let rest = text.skip(close + 1);
    let tail = Seq::<char>::empty();
    assert(text =~= command + gap + seq!['<'] + pad + address + tail + seq!['>'] + rest) by {
        assert(text.subrange(0, command.len() as int) == command);
        assert forall|i: int| 0 <= i < command.len() implies text[i] == command[i] by {
            assert(text.subrange(0, command.len() as int)[i] == command[i]);
        }
    }
    assert(reads_as(text, command, gap, pad, captured(text, command)->0, tail, rest));
}

/// Whatever can be read as an envelope command is captured, with as much white space as possible
/// before the address, and with the address as long as possible.
pub proof fn law_captured_is_greedy(
    text: Seq<char>,
    command: Seq<char>,
    gap: Seq<char>,
    pad: Seq<char>,
    address: Seq<char>,
    tail: Seq<char>,
    rest: Seq<char>,
)
    requires
        reads_as(text, command, gap, pad, address, tail, rest),
    ensures
        captured(text, command) is Some,
        after_blanks(text, command.len() as int) == command.len() + gap.len(),
        ({
            let start = after_blanks(text, (command.len() + gap.len() + 1) as int);
            &&& command.len() + gap.len() + 1 + pad.len() <= start
            &&& command.len() + gap.len() + 1 + pad.len() + address.len() <= start + captured(
                text,
                command,
            )->0.len()
        }),
{
    let n: int = command.len() as int;
    let open: int = n + gap.len();
    let first: int = open + 1 + pad.len();
    let end: int = first + address.len() + tail.len();
    assert(text[open] == '<');
    assert(text[end] == '>');
    assert forall|i: int| n <= i < open implies is_blank(#[trigger] text[i]) by {
        assert(text[i] == gap[i - n]);
    }
    assert forall|i: int| open < i < first implies is_blank(#[trigger] text[i]) by {
        assert(text[i] == pad[i - open - 1]);
    }
    lemma_after_blanks(text, n);
    assert(!is_blank(text[open]));
    assert(after_blanks(text, n) == open);
    lemma_after_blanks(text, open + 1);
    lemma_last_position(text, '>');
    let start = after_blanks(text, open + 1);
    if start < first {
        assert(is_blank(text[start]));
    }
    if start > end {
        assert(is_blank(text[end]));
    }
    assert(last_position(text, '>') >= end);
    assert(text.subrange(0, n) =~= command);
    assert(command.is_prefix_of(text));
}

} // verus!
