//! Bodies of `application/x-www-form-urlencoded` requests.
use vstd::prelude::*;
use crate::sql::pair_views;
use crate::text::joined;
use crate::decimal::digit_char;

verus! {

/// A character that form encoding writes as it is: an ASCII letter or digit,
/// or one of `*`, `-`, `.`, `_`.
pub open spec fn form_safe_char(c: char) -> bool {
    ||| c == '*'
    ||| c == '-'
    ||| c == '.'
    ||| c == '_'
    ||| ('0' <= c && c <= '9')
    ||| ('A' <= c && c <= 'Z')
    ||| ('a' <= c && c <= 'z')
}

/// The character of a hexadecimal digit, in upper case.
pub open spec fn hex_char(d: nat) -> char {
    if d < 10 {
        digit_char(d)
    } else if d == 10 {
        'A'
    } else if d == 11 {
        'B'
    } else if d == 12 {
        'C'
    } else if d == 13 {
        'D'
    } else if d == 14 {
        'E'
    } else {
        'F'
    }
}

/// The bytes of a character in UTF-8.
pub open spec fn utf8_bytes(c: char) -> Seq<nat> {
    let n = c as int;
    if n < 0x80 {
        seq![n as nat]
    } else if n < 0x800 {
        seq![(0xC0 + n / 64) as nat, (0x80 + n % 64) as nat]
    } else if n < 0x10000 {
        seq![(0xE0 + n / 4096) as nat, (0x80 + (n / 64) % 64) as nat, (0x80 + n % 64) as nat]
    } else {
        seq![
            (0xF0 + n / 262144) as nat,
            (0x80 + (n / 4096) % 64) as nat,
            (0x80 + (n / 64) % 64) as nat,
            (0x80 + n % 64) as nat,
        ]
    }
}

/// Each byte written as `%` and two upper-case hexadecimal digits.
pub open spec fn percent_bytes(bytes: Seq<nat>) -> Seq<char>
    decreases bytes.len(),
{
    if bytes.len() == 0 {
        Seq::empty()
    } else {
        percent_bytes(bytes.drop_last()) + seq![
            '%',
            hex_char(bytes.last() / 16),
            hex_char(bytes.last() % 16),
        ]
    }
}

/// How form encoding writes a character: as it is when it is safe, `+` for
/// a space, else each byte of its UTF-8 encoding as `%` and two upper-case
/// hexadecimal digits.
pub open spec fn form_encode_char(c: char) -> Seq<char> {
    if form_safe_char(c) {
        seq![c]
    } else if c == ' ' {
        seq!['+']
    } else {
        percent_bytes(utf8_bytes(c))
    }
}

/// The form encoding of a text, character by character.
pub open spec fn form_encode(s: Seq<char>) -> Seq<char>
    decreases s.len(),
{
    if s.len() == 0 {
        Seq::empty()
    } else {
        form_encode(s.drop_last()) + form_encode_char(s.last())
    }
}

/// A text of safe characters is encoded as it is.
pub proof fn lemma_form_encode_safe(s: Seq<char>)
    requires
        forall|j: int| 0 <= j < s.len() ==> form_safe_char(#[trigger] s[j]),
    ensures
        form_encode(s) == s,
    decreases s.len(),
{
    if s.len() > 0 {
        assert forall|j: int| 0 <= j < s.drop_last().len() implies form_safe_char(
            #[trigger] s.drop_last()[j],
        ) by {
            assert(s.drop_last()[j] == s[j]);
        }
        lemma_form_encode_safe(s.drop_last());
        assert(s.drop_last() + seq![s.last()] =~= s);
    }
}

/// The form encoding of (name, value) pairs, as `serde_urlencoded` writes
/// it: `name=value` for each pair, each encoded, joined with `&`.
pub open spec fn form_urlencoded(pairs: Seq<(Seq<char>, Seq<char>)>) -> Seq<char> {
    joined(
        pairs.map_values(|p: (Seq<char>, Seq<char>)| form_encode(p.0) + "="@ + form_encode(p.1)),
        "&"@,
    )
}

/// Form-encodes (name, value) pairs.
///
/// Trusted: wraps `serde_urlencoded::to_string` on a vector of string pairs.
/// The crate documents sequences of pairs with string names and values as
/// supported, and its source has no failing path for them, so the call
/// succeeds. Its source writes each pair as the encoded name, `=` and the
/// encoded value, with `&` between pairs, and encodes the UTF-8 bytes of
/// each text as `form_encode_char` says (through
/// `form_urlencoded::byte_serialize` and
/// `percent_encoding::percent_encode_byte`): the result is
/// `form_urlencoded`.
#[verifier::external_body]
fn urlencode(pairs: &Vec<(String, String)>) -> (r: Result<String, serde_urlencoded::ser::Error>)
    ensures
        r is Ok,
        r is Ok ==> r->Ok_0@ == form_urlencoded(pair_views(pairs@)),
{
    serde_urlencoded::to_string(pairs)
}

#[verifier::external_type_specification]
#[verifier::external_body]
pub struct ExFormError(serde_urlencoded::ser::Error);

/// The form-encoded body of a request with these fields.
pub fn form_body(pairs: &Vec<(String, String)>) -> (body: String)
    ensures
        body@ == form_urlencoded(pair_views(pairs@)),
{
    match urlencode(pairs) {
        Ok(s) => s,
        Err(_) => String::new(),
    }
}

} // verus!
