//! Universally unique identifiers.
use crate::text;
use vstd::prelude::*;

verus! {

/// An identifier of 128 bits, most significant byte first.
#[derive(Clone, Copy, Debug, PartialEq, Eq)]
pub struct Uuid(pub u128);

/// The number of thirty-two hexadecimal digits.
pub open spec fn plain_form(s: Seq<char>) -> Option<u128> {
    if s.len() == 32 && text::all_digits(s, 16) {
        Some(text::number_value(s, 16) as u128)
    } else {
        None
    }
}

/// The number of five groups of digits with hyphens between them.
pub open spec fn hyphenated_form(s: Seq<char>) -> Option<u128> {
    if s.len() == 36 && s[8] == '-' && s[13] == '-' && s[18] == '-' && s[23] == '-' {
        plain_form(
            s.subrange(0, 8) + s.subrange(9, 13) + s.subrange(14, 18) + s.subrange(19, 23)
                + s.subrange(24, 36),
        )
    } else {
        None
    }
}

/// The number that a text denotes: digits alone, with hyphens, and with hyphens in
/// braces or after `urn:uuid:` in whatever case.
pub open spec fn uuid_parsed(s: Seq<char>) -> Option<u128> {
    if s.len() == 32 {
        plain_form(s)
    } else if s.len() == 36 {
        hyphenated_form(s)
    } else if s.len() == 38 && s[0] == '{' && s[37] == '}' {
        hyphenated_form(s.subrange(1, 37))
    } else if s.len() == 45 && text::lower(s.take(9)) == "urn:uuid:"@ {
        hyphenated_form(s.skip(9))
    } else {
        None
    }
}

/// The lowest `n` hexadecimal digits of a number, most significant first.
pub open spec fn hex_digits(v: nat, n: nat) -> Seq<char>
    decreases n,
{
    if n == 0 {
        Seq::empty()
    } else {
        hex_digits(v / 16, (n - 1) as nat).push(text::digit_char(v % 16))
    }
}

/// The hyphenated form: groups of eight, four, four, four and twelve digits.
pub open spec fn uuid_text(id: Uuid) -> Seq<char> {
    let d = hex_digits(id.0 as nat, 32);
    d.subrange(0, 8) + seq!['-'] + d.subrange(8, 12) + seq!['-'] + d.subrange(12, 16) + seq!['-']
        + d.subrange(16, 20) + seq!['-'] + d.subrange(20, 32)
}

/// What an identifier is shown as is read back as the identifier.
pub proof fn law_identifiers_are_read_back(id: Uuid)
    ensures
        uuid_parsed(uuid_text(id)) == Some(id.0),
{
    let d = hex_digits(id.0 as nat, 32);
    let s = uuid_text(id);
    lemma_powers();
    lemma_hex_digits(id.0 as nat, 32);
    assert(s.subrange(0, 8) =~= d.subrange(0, 8));
    assert(s.subrange(9, 13) =~= d.subrange(8, 12));
    assert(s.subrange(14, 18) =~= d.subrange(12, 16));
    assert(s.subrange(19, 23) =~= d.subrange(16, 20));
    assert(s.subrange(24, 36) =~= d.subrange(20, 32));
    assert(s.subrange(0, 8) + s.subrange(9, 13) + s.subrange(14, 18) + s.subrange(19, 23)
        + s.subrange(24, 36) =~= d);
}

/// How many numbers `n` hexadecimal digits can hold.
spec fn power(n: nat) -> nat
    decreases n,
{
    if n == 0 {
        1
    } else {
        16 * power((n - 1) as nat)
    }
}

proof fn lemma_powers()
    ensures
        power(32) == 0x1_0000_0000_0000_0000_0000_0000_0000_0000,
{
    reveal_with_fuel(power, 33);
}

proof fn lemma_hex_digits(v: nat, n: nat)
    requires
        v < power(n),
    ensures
        hex_digits(v, n).len() == n,
        text::all_digits(hex_digits(v, n), 16),
        text::number_value(hex_digits(v, n), 16) == v,
    decreases n,
{
    if n > 0 {
        lemma_hex_digits(v / 16, (n - 1) as nat);
        let head = hex_digits(v / 16, (n - 1) as nat);
        let all = hex_digits(v, n);
        assert(all.drop_last() =~= head);
        assert(text::digit_value(text::digit_char(v % 16)) == v % 16);
        assert forall|i: int| 0 <= i < all.len() implies text::digit_value(#[trigger] all[i])
            < 16 by {
            if i < head.len() {
                assert(all[i] == head[i]);
            }
        }
    }
}

/// `uuid::Uuid::parse_str`: it reads the plain, the hyphenated, the braced and the URN
/// form, digits in either case, and refuses every other text.
#[verifier::external_body]
pub(crate) fn parse_uuid(s: &str) -> (r: Option<u128>)
    ensures
        r == uuid_parsed(s@),
{
    match uuid::Uuid::parse_str(s) {
        Ok(id) => Some(id.as_u128()),
        Err(_) => None,
    }
}

/// `uuid::Uuid::to_string`: the hyphenated lower-case form.
#[verifier::external_body]
fn format_uuid(id: u128) -> (r: String)
    ensures
        r@ == uuid_text(Uuid(id)),
{
    uuid::Uuid::from_u128(id).to_string()
}

impl Uuid {
    /// The identifier whose bits are all zero.
    pub fn nil() -> (r: Uuid)
        ensures
            r == Uuid(0),
    {
        Uuid(0)
    }

    /// Reads an identifier from a text.
    pub fn parse_str(s: &str) -> (r: Option<Uuid>)
        ensures
            r == (match uuid_parsed(s@) {
                Some(id) => Some(Uuid(id)),
                None => None,
            }),
    {
        match parse_uuid(s) {
            Some(id) => Some(Uuid(id)),
            None => None,
        }
    }

    /// The hyphenated form.
    pub fn to_text(&self) -> (r: String)
        ensures
            r@ == uuid_text(*self),
    {
        format_uuid(self.0)
    }
}

} // verus!
