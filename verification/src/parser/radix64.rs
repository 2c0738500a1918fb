//! Base64 texts: the standard and the URL-safe alphabet, with and without padding.
use vstd::prelude::*;

verus! {

/// The symbol for six bits.
#[verifier::opaque]
pub open spec fn symbol(url_safe: bool, v: int) -> u8 {
    if v < 26 {
        (65 + v) as u8
    } else if v < 52 {
        (71 + v) as u8
    } else if v < 62 {
        (v - 4) as u8
    } else if v == 62 {
        if url_safe {
            45
        } else {
            43
        }
    } else {
        if url_safe {
            95
        } else {
            47
        }
    }
}

/// The text of bytes: four symbols for every three bytes, three for two bytes at the
/// end and two for one, filled up with `=` where the form is padded.
pub open spec fn encoded(url_safe: bool, padded: bool, b: Seq<u8>) -> Seq<u8>
    decreases b.len(),
{
    if b.len() == 0 {
        Seq::empty()
    } else if b.len() == 1 {
        seq![symbol(url_safe, b[0] as int / 4), symbol(url_safe, b[0] % 4 * 16)] + (if padded {
            seq![61u8, 61u8]
        } else {
            Seq::empty()
        })
    } else if b.len() == 2 {
        seq![
            symbol(url_safe, b[0] as int / 4),
            symbol(url_safe, b[0] % 4 * 16 + b[1] / 16),
            symbol(url_safe, b[1] % 16 * 4),
        ] + (if padded {
            seq![61u8]
        } else {
            Seq::empty()
        })
    } else {
        seq![
            symbol(url_safe, b[0] as int / 4),
            symbol(url_safe, b[0] % 4 * 16 + b[1] / 16),
            symbol(url_safe, b[1] % 16 * 4 + b[2] / 64),
            symbol(url_safe, b[2] as int % 64),
        ] + encoded(url_safe, padded, b.skip(3))
    }
}

/// The bytes that a text stands for in a form, if it is the text of any.
pub open spec fn decoded(url_safe: bool, padded: bool, input: Seq<u8>) -> Option<Seq<u8>> {
    if exists|b: Seq<u8>| #[trigger] encoded(url_safe, padded, b) == input {
        Some(choose|b: Seq<u8>| #[trigger] encoded(url_safe, padded, b) == input)
    } else {
        None
    }
}

/// Different six bits have different symbols, across the alphabets too; no symbol is
/// the padding or white space.
proof fn lemma_symbol(url_safe: bool, v: int, other_url_safe: bool, w: int)
    requires
        0 <= v < 64,
        0 <= w < 64,
    ensures
        symbol(url_safe, v) == symbol(other_url_safe, w) ==> v == w,
        symbol(url_safe, v) != 61,
        symbol(url_safe, v) > 32,
        symbol(other_url_safe, w) != 61,
{
    reveal(symbol);
}

/// Three bytes are known by their four groups of six bits.
proof fn lemma_sixes(a: u8, b: u8, c: u8, x: u8, y: u8, z: u8)
    requires
        a as int / 4 == x as int / 4,
        a % 4 * 16 + b / 16 == x % 4 * 16 + y / 16,
    ensures
        a == x,
        b / 16 == y / 16,
        b % 16 * 4 + c / 64 == y % 16 * 4 + z / 64 ==> b == y && c / 64 == z / 64,
        b % 16 * 4 + c / 64 == y % 16 * 4 + z / 64 && c % 64 == z % 64 ==> c == z,
{
}

/// A text stands for the same bytes in every form in which it stands for any.
pub proof fn law_texts_stand_for_one_thing(
    url_safe: bool,
    padded: bool,
    b: Seq<u8>,
    other_url_safe: bool,
    other_padded: bool,
    other: Seq<u8>,
)
    requires
        encoded(url_safe, padded, b) == encoded(other_url_safe, other_padded, other),
    ensures
        b == other,
    decreases b.len(),
{
    let x = encoded(url_safe, padded, b);
    let y = encoded(other_url_safe, other_padded, other);
    if b.len() > 0 && other.len() > 0 {
        lemma_head(url_safe, padded, b);
        lemma_head(other_url_safe, other_padded, other);
        let (b1, b2) = (head(b)[1], head(b)[2]);
        let (o1, o2) = (head(other)[1], head(other)[2]);
        lemma_symbol(url_safe, b[0] as int / 4, other_url_safe, other[0] as int / 4);
        lemma_symbol(
            url_safe,
            b[0] % 4 * 16 + b1 / 16,
            other_url_safe,
            other[0] % 4 * 16 + o1 / 16,
        );
        lemma_symbol(url_safe, b1 % 16 * 4 + b2 / 64, other_url_safe, o1 % 16 * 4 + o2 / 64);
        lemma_symbol(url_safe, b2 as int % 64, other_url_safe, o2 as int % 64);
        lemma_sixes(b[0], b1, b2, other[0], o1, o2);
        assert(x[0] == y[0] && x[1] == y[1]);
        if b.len() >= 3 && other.len() >= 3 {
            assert(x[2] == y[2] && x[3] == y[3]);
            assert(x.skip(4) == y.skip(4));
            law_texts_stand_for_one_thing(
                url_safe,
                padded,
                b.skip(3),
                other_url_safe,
                other_padded,
                other.skip(3),
            );
            assert(b =~= b.take(3) + b.skip(3));
            assert(other =~= other.take(3) + other.skip(3));
            assert(b.take(3) =~= other.take(3));
        } else {
            if x.len() > 2 {
                assert(x[2] == y[2]);
            }
            if x.len() > 3 {
                assert(x[3] == y[3]);
            }
            assert(b =~= other);
        }
    } else {
        lemma_head(url_safe, padded, b);
        lemma_head(other_url_safe, other_padded, other);
        assert(b =~= other);
    }
}

/// The first three bytes, filled up with zeros.
spec fn head(b: Seq<u8>) -> Seq<u8> {
    seq![
        if b.len() > 0 { b[0] } else { 0 },
        if b.len() > 1 { b[1] } else { 0 },
        if b.len() > 2 { b[2] } else { 0 },
    ]
}

/// How a text begins, and what comes after its first four symbols.
proof fn lemma_head(url_safe: bool, padded: bool, b: Seq<u8>)
    ensures
        ({
            let x = encoded(url_safe, padded, b);
            let h = head(b);
            &&& b.len() == 0 <==> x.len() == 0
            &&& b.len() == 1 ==> x.len() == if padded { 4nat } else { 2 }
            &&& b.len() == 2 ==> x.len() == if padded { 4nat } else { 3 }
            &&& b.len() >= 3 ==> x.len() >= 4 && x.skip(4) == encoded(
                url_safe,
                padded,
                b.skip(3),
            )
            &&& b.len() > 0 ==> x[0] == symbol(url_safe, h[0] as int / 4) && x[1] == symbol(
                url_safe,
                h[0] % 4 * 16 + h[1] / 16,
            )
            &&& b.len() > 1 ==> x[2] == symbol(url_safe, h[1] % 16 * 4 + h[2] / 64)
            &&& b.len() > 2 ==> x[3] == symbol(url_safe, h[2] as int % 64)
            &&& b.len() == 1 && padded ==> x[2] == 61 && x[3] == 61
            &&& b.len() == 2 && padded ==> x[3] == 61
        }),
{
    if b.len() >= 3 {
        assert(encoded(url_safe, padded, b).skip(4) =~= encoded(url_safe, padded, b.skip(3)));
    }
}

/// Decoding gives back what was encoded.
pub proof fn law_encoded_bytes_are_decoded(url_safe: bool, padded: bool, b: Seq<u8>)
    ensures
        decoded(url_safe, padded, encoded(url_safe, padded, b)) == Some(b),
{
    let input = encoded(url_safe, padded, b);
    let found = choose|x: Seq<u8>| #[trigger] encoded(url_safe, padded, x) == input;
    law_texts_stand_for_one_thing(url_safe, padded, found, url_safe, padded, b);
}

/// A text is at most four thirds as long as its bytes, rounded up to four symbols,
/// and no byte of it is white space.
pub proof fn lemma_encoded(url_safe: bool, padded: bool, b: Seq<u8>)
    ensures
        b.len() > 0 ==> encoded(url_safe, padded, b).len() > 0,
        3 * encoded(url_safe, padded, b).len() <= 4 * (b.len() + 2),
        forall|i: int|
            0 <= i < encoded(url_safe, padded, b).len() ==> #[trigger] encoded(
                url_safe,
                padded,
                b,
            )[i] > 32,
    decreases b.len(),
{
    if b.len() > 0 {
        let h = head(b);
        lemma_symbol(url_safe, h[0] as int / 4, url_safe, 0);
        lemma_symbol(url_safe, h[0] % 4 * 16 + h[1] / 16, url_safe, 0);
        lemma_symbol(url_safe, h[1] % 16 * 4 + h[2] / 64, url_safe, 0);
        lemma_symbol(url_safe, h[2] as int % 64, url_safe, 0);
        lemma_head(url_safe, padded, b);
    }
    if b.len() >= 3 {
        let rest = encoded(url_safe, padded, b.skip(3));
        let all = encoded(url_safe, padded, b);
        lemma_encoded(url_safe, padded, b.skip(3));
        assert forall|i: int| 0 <= i < all.len() implies #[trigger] all[i] > 32 by {
            if i >= 4 {
                assert(all[i] == rest[i - 4]);
            }
        }
    }
}

} // verus!
