//! Reading the text of a header, and the address out of an SMTP envelope command that a header
//! quotes: `RCPT TO:<user@example.com>` or `MAIL FROM:<user@example.com>`.

use vstd::prelude::*;

verus! {

/// A byte that may occur in a header that is read as text: a tab, a space or a visible ASCII
/// character.
pub open spec fn is_visible(b: u8) -> bool {
    b == 9 || 32 <= b < 127
}

/// The bytes of a header value, each as the character with its number.
pub open spec fn latin1(value: Seq<u8>) -> Seq<char> {
    value.map_values(|b: u8| b as char)
}

/// The text of a header value; there is one only where every byte may occur in text.
pub open spec fn header_text(value: Seq<u8>) -> Option<Seq<char>> {
    if forall|i: int| 0 <= i < value.len() ==> is_visible(#[trigger] value[i]) {
        Some(latin1(value))
    } else {
        None
    }
}

/// White space, as far as it occurs in the text of a header.
pub open spec fn is_blank(c: char) -> bool {
    c == ' ' || c == '\t'
}

/// Whether there is nothing but white space in `s`.
pub open spec fn blank(s: Seq<char>) -> bool {
    forall|i: int| 0 <= i < s.len() ==> is_blank(#[trigger] s[i])
}

/// The first position from `from` on that holds no white space, or the end of the text.
pub open spec fn after_blanks(text: Seq<char>, from: int) -> int
    decreases text.len() - from,
{
    if 0 <= from < text.len() && is_blank(text[from]) {
        after_blanks(text, from + 1)
    } else {
        from
    }
}

/// The last position that holds `c`, or -1.
pub open spec fn last_position(text: Seq<char>, c: char) -> int
    decreases text.len(),
{
    if text.len() == 0 {
        -1
    } else if text.last() == c {
        text.len() - 1
    } else {
        last_position(text.drop_last(), c)
    }
}

/// The address that an envelope command quotes: after the command, and white space, an opening
/// bracket has to follow, and later a closing one. The address is what stands between the
/// opening bracket and the last closing one, without the white space in front of it.
pub open spec fn captured(text: Seq<char>, command: Seq<char>) -> Option<Seq<char>> {
    let open = after_blanks(text, command.len() as int);
    let start = after_blanks(text, open + 1);
    let close = last_position(text, '>');
    if command.is_prefix_of(text) && open < text.len() && text[open] == '<' && start <= close {
        Some(text.subrange(start, close))
    } else {
        None
    }
}

/// The address in a header that quotes an envelope command, or nothing where the header is
/// absent, is no text or has another form.
pub open spec fn envelope_address(header: Option<Seq<u8>>, command: Seq<char>) -> Seq<char> {
    match plain_text(header) {
        Some(text) => match captured(text, command) {
            Some(address) => address,
            None => Seq::empty(),
        },
        None => Seq::empty(),
    }
}

/// The text of a header that may be absent.
pub open spec fn plain_text(header: Option<Seq<u8>>) -> Option<Seq<char>> {
    match header {
        Some(value) => header_text(value),
        None => None,
    }
}

/// The bytes of a header value, each as the character with its number.
pub(crate) fn to_latin1(value: &Vec<u8>) -> (r: String)
    ensures
        r@ == latin1(value@),
{
    let mut r = String::new();
    for i in 0..value.len()
        invariant
            r@ == latin1(value@.take(i as int)),
    {
        r.push(value[i] as char);
        proof {
            assert(r@ =~= latin1(value@.take(i + 1)));
        }
    }
    proof {
        assert(value@.take(value@.len() as int) =~= value@);
    }
    r
}

/// The text of a header value.
pub fn to_str(value: &Vec<u8>) -> (r: Option<String>)
    ensures
        match r {
            Some(text) => header_text(value@) == Some(text@),
            None => header_text(value@) is None,
        },
{
    for i in 0..value.len()
        invariant
            forall|j: int| 0 <= j < i ==> is_visible(#[trigger] value@[j]),
    {
        let b: u8 = value[i];
        if !(b == 9 || (32 <= b && b < 127)) {
            assert(!is_visible(value@[i as int]));
            return None;
        }
    }
    Some(to_latin1(value))
}

/// The characters of a text.
fn characters(s: &str) -> (r: Vec<char>)
    ensures
        r@ == s@,
{
    let mut r: Vec<char> = Vec::new();
    for c in it: s.chars()
        invariant
            it.seq() == s@,
            r@ == s@.take(it.index() as int),
    {
        r.push(c);
    }
    r
}

/// Whether `text` begins with `prefix`.
fn begins_with(text: &Vec<char>, prefix: &Vec<char>) -> (r: bool)
    ensures
        r == prefix@.is_prefix_of(text@),
{
    if prefix.len() > text.len() {
        return false;
    }
    for i in 0..prefix.len()
        invariant
            prefix@.len() <= text@.len(),
            forall|j: int| 0 <= j < i ==> prefix@[j] == #[trigger] text@[j],
    {
        if prefix[i] != text[i] {
            assert(text@.subrange(0, prefix@.len() as int)[i as int] == text@[i as int]);
            return false;
        }
    }
    proof {
        assert(prefix@ =~= text@.subrange(0, prefix@.len() as int));
    }
    true
}

/// The first position from `from` on that holds no white space, or the end of the text.
fn skip_blanks(text: &Vec<char>, from: usize) -> (r: usize)
    requires
        from <= text@.len(),
    ensures
        r == after_blanks(text@, from as int),
        from <= r <= text@.len(),
{
    let mut i: usize = from;
    while i < text.len() && (text[i] == ' ' || text[i] == '\t')
        invariant
            from <= i <= text@.len(),
            after_blanks(text@, from as int) == after_blanks(text@, i as int),
        decreases text@.len() - i,
    {
        i = i + 1;
    }
    i
}

/// The last position that holds `c`.
fn find_last(text: &Vec<char>, c: char) -> (r: Option<usize>)
    ensures
        match r {
            Some(i) => i == last_position(text@, c) && i < text@.len(),
            None => last_position(text@, c) == -1,
        },
{
    let mut n: usize = text.len();
    proof {
        assert(text@.take(n as int) =~= text@);
    }
    while n > 0
        invariant
            n <= text@.len(),
            last_position(text@, c) == last_position(text@.take(n as int), c),
        decreases n,
    {
        proof {
            assert(text@.take(n as int).drop_last() =~= text@.take(n - 1));
        }
        if text[n - 1] == c {
            return Some(n - 1);
        }
        n = n - 1;
    }
    None
}

/// The address that an envelope command quotes.
fn capture(text: &str, command: &str) -> (r: Option<String>)
    ensures
        match r {
            Some(address) => captured(text@, command@) == Some(address@),
            None => captured(text@, command@) is None,
        },
{
    let text = characters(text);
    let command = characters(command);
    if !begins_with(&text, &command) {
        return None;
    }
    let open = skip_blanks(&text, command.len());
    if open >= text.len() || text[open] != '<' {
        return None;
    }
    let start = skip_blanks(&text, open + 1);
    let close = match find_last(&text, '>') {
        Some(close) => close,
        None => {
            return None;
        },
    };
    if close < start {
        return None;
    }
    let mut address = String::new();
    for i in start..close
        invariant
            start <= close <= text@.len(),
            address@ == text@.subrange(start as int, i as int),
    {
        address.push(text[i]);
        proof {
            assert(text@.subrange(start as int, i + 1) =~= text@.subrange(
                start as int,
                i as int,
            ).push(text@[i as int]));
        }
    }
    Some(address)
}

/// The address in a header that quotes an envelope command; empty where there is none.
pub fn address_in(header: &Option<Vec<u8>>, command: &str) -> (r: String)
    ensures
        r@ == envelope_address(
            match header {
                Some(value) => Some(value@),
                None => None,
            },
            command@,
        ),
{
    match header {
        None => String::new(),
        Some(value) => match to_str(value) {
            None => String::new(),
            Some(text) => match capture(text.as_str(), command) {
                None => String::new(),
                Some(address) => address,
            },
        },
    }
}

} // verus!
