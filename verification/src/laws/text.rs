//! What working with texts promises.
use crate::text;
use vstd::prelude::*;

verus! {

/// Lower case changes the twenty-six ASCII capitals, each to its small letter, and
/// nothing else.
pub proof fn law_lower_case_changes_capitals_only(s: Seq<char>, i: int)
    requires
        0 <= i < s.len(),
    ensures
        text::lower(s).len() == s.len(),
        s[i] as u32 >= 65 && s[i] as u32 <= 90 ==> text::lower(s)[i] as u32 == s[i] as u32 + 32,
        (s[i] as u32) < 65 || s[i] as u32 > 90 ==> text::lower(s)[i] == s[i],
{
}

/// Trimming takes white space off both ends, all of it and nothing else.
pub proof fn law_trimming_takes_white_space_off_the_ends(s: Seq<char>)
    ensures
        ({
            let t = text::trim(s);
            &&& t.len() > 0 ==> !text::is_space(t.first()) && !text::is_space(t.last())
            &&& exists|a: int, b: int|
                {
                    &&& 0 <= a <= b <= s.len()
                    &&& t == #[trigger] s.subrange(a, b)
                    &&& forall|i: int|
                        0 <= i < a || b <= i < s.len() ==> text::is_space(#[trigger] s[i])
                }
        }),
{
    let u = text::trim_start(s);
    let t = text::trim(s);
    let a = lemma_trim_start(s);
    let b = lemma_trim_end(u);
    assert(t =~= s.subrange(a, a + b));
    if t.len() > 0 {
        text::lemma_trim_start_first(s);
        assert(t.first() == u.first());
        lemma_trim_end_last(u);
    }
    assert forall|i: int| 0 <= i < a || a + b <= i < s.len() implies text::is_space(
        #[trigger] s[i],
    ) by {
        if i >= a {
            assert(u[i - a] == s[i]);
        }
    }
}

proof fn lemma_trim_start(s: Seq<char>) -> (a: int)
    ensures
        0 <= a <= s.len(),
        text::trim_start(s) == s.skip(a),
        forall|i: int| 0 <= i < a ==> text::is_space(#[trigger] s[i]),
    decreases s.len(),
{
    if s.len() > 0 && text::is_space(s.first()) {
        let rest = s.drop_first();
        let a = lemma_trim_start(rest);
        assert(rest.skip(a) =~= s.skip(a + 1));
        assert forall|i: int| 0 <= i < a + 1 implies text::is_space(#[trigger] s[i]) by {
            if i > 0 {
                assert(rest[i - 1] == s[i]);
            }
        }
        a + 1
    } else {
        assert(s.skip(0) =~= s);
        0
    }
}

proof fn lemma_trim_end(s: Seq<char>) -> (b: int)
    ensures
        0 <= b <= s.len(),
        text::trim_end(s) == s.take(b),
        forall|i: int| b <= i < s.len() ==> text::is_space(#[trigger] s[i]),
    decreases s.len(),
{
    if s.len() > 0 && text::is_space(s.last()) {
        let rest = s.drop_last();
        let b = lemma_trim_end(rest);
        assert(rest.take(b) =~= s.take(b));
        assert forall|i: int| b <= i < s.len() implies text::is_space(#[trigger] s[i]) by {
            if i < rest.len() {
                assert(rest[i] == s[i]);
            }
        }
        b
    } else {
        assert(s.take(s.len() as int) =~= s);
        s.len() as int
    }
}

proof fn lemma_trim_end_last(s: Seq<char>)
    requires
        text::trim_end(s).len() > 0,
    ensures
        !text::is_space(text::trim_end(s).last()),
    decreases s.len(),
{
    if s.len() > 0 && text::is_space(s.last()) {
        lemma_trim_end_last(s.drop_last());
    }
}

/// A text holds a character.
pub open spec fn holds(s: Seq<char>, c: char) -> bool {
    exists|i: int| 0 <= i < s.len() && s[i] == c
}

/// Splitting at a character gives the parts that make up the text again with the
/// character between them, none of which holds it.
pub proof fn law_parts_make_up_the_text(s: Seq<char>, c: char)
    ensures
        text::fields(s, c).len() > 0,
        text::join(text::fields(s, c), seq![c]) == s,
        forall|i: int| 0 <= i < text::fields(s, c).len() ==> !holds(#[trigger] text::fields(s, c)[i], c),
    decreases s.len(),
{
    let end = text::next_char(s, c, 0);
    let parts = text::fields(s, c);
    text::lemma_next_char(s, c, 0);
    if end >= s.len() {
        assert(parts =~= seq![s]);
    } else {
        let rest = s.skip(end + 1);
        law_parts_make_up_the_text(rest, c);
        let tail = text::fields(rest, c);
        lemma_join_first(s.take(end), tail, seq![c]);
        assert(s =~= s.take(end) + seq![c] + rest);
        assert forall|i: int| 0 <= i < parts.len() implies !holds(#[trigger] parts[i], c) by {
            if i > 0 {
                assert(parts[i] == tail[i - 1]);
            }
        }
    }
}

/// A text that was put together with a character splits into what it was made of.
pub proof fn law_joined_parts_are_split_again(parts: Seq<Seq<char>>, c: char)
    requires
        parts.len() > 0,
        forall|i: int| 0 <= i < parts.len() ==> !holds(#[trigger] parts[i], c),
    ensures
        text::fields(text::join(parts, seq![c]), c) == parts,
    decreases parts.len(),
{
    let s = text::join(parts, seq![c]);
    let first = parts[0];
    text::lemma_next_char(s, c, 0);
    let end = text::next_char(s, c, 0);
    if parts.len() == 1 {
        if end < s.len() {
            assert(first[end] == c);
        }
        assert(text::fields(s, c) =~= parts);
    } else {
        let rest = parts.drop_first();
        assert(parts =~= seq![first] + rest);
        lemma_join_first(first, rest, seq![c]);
        assert forall|i: int| 0 <= i < rest.len() implies !holds(#[trigger] rest[i], c) by {
            assert(rest[i] == parts[i + 1]);
        }
        law_joined_parts_are_split_again(rest, c);
        assert(s[first.len() as int] == c);
        if end < first.len() {
            assert(first[end] == s[end]);
        }
        assert(end == first.len());
        assert(s.take(end) =~= first);
        assert(s.skip(end + 1) =~= text::join(rest, seq![c]));
    }
}

proof fn lemma_join_first(first: Seq<char>, rest: Seq<Seq<char>>, separator: Seq<char>)
    requires
        rest.len() > 0,
    ensures
        text::join(seq![first] + rest, separator) == first + separator + text::join(
            rest,
            separator,
        ),
    decreases rest.len(),
{
    let all = seq![first] + rest;
    reveal_with_fuel(text::join, 2);
    if rest.len() == 1 {
        assert(all.drop_last() =~= seq![first]);
        assert(text::join(all, separator) =~= first + separator + rest[0]);
    } else {
        lemma_join_first(first, rest.drop_last(), separator);
        assert(all.drop_last() =~= seq![first] + rest.drop_last());
        assert(text::join(all, separator) =~= first + separator + text::join(rest, separator));
    }
}

/// Splitting a text once takes its first occurrence of what it is split at.
pub proof fn law_splitting_once_takes_the_first_occurrence(s: Seq<char>, needle: Seq<char>)
    ensures
        (match text::split_once(s, needle) {
            None => forall|at: int|
                0 <= at && at + needle.len() <= s.len() ==> #[trigger] s.subrange(
                    at,
                    at + needle.len(),
                ) != needle,
            Some((head, tail)) => {
                &&& s == head + needle + tail
                &&& forall|at: int|
                    0 <= at < head.len() ==> #[trigger] s.subrange(at, at + needle.len()) != needle
            },
        }),
        text::contains(s, needle) == text::split_once(s, needle) is Some,
{
    if text::contains(s, needle) {
        let some = choose|at: int| text::occurs_at(s, needle, at);
        lemma_first(s, needle, some);
        let at = choose|at: int| text::first_occurrence(s, needle, at);
        let (head, tail) = text::split_once(s, needle)->0;
        assert(s =~= head + s.subrange(at, at + needle.len()) + tail);
        assert forall|k: int| 0 <= k < head.len() implies #[trigger] s.subrange(
            k,
            k + needle.len(),
        ) != needle by {
            assert(!text::occurs_at(s, needle, k));
        }
    } else {
        assert forall|at: int| 0 <= at && at + needle.len() <= s.len() implies #[trigger] s.subrange(
            at,
            at + needle.len(),
        ) != needle by {
            assert(!text::occurs_at(s, needle, at));
        }
    }
}

proof fn lemma_first(s: Seq<char>, needle: Seq<char>, at: int)
    requires
        text::occurs_at(s, needle, at),
    ensures
        exists|k: int| text::first_occurrence(s, needle, k),
    decreases at,
{
    if exists|k: int| 0 <= k < at && text::occurs_at(s, needle, k) {
        let k = choose|k: int| 0 <= k < at && text::occurs_at(s, needle, k);
        lemma_first(s, needle, k);
    } else {
        assert(text::first_occurrence(s, needle, at));
    }
}

/// A number is written in decimal digits without leading zeros, and reads back.
pub proof fn law_decimal_numbers_read_back(n: nat, max: nat)
    requires
        n <= max,
    ensures
        text::unsigned_number(text::decimal(n), 10, max) == Some(n),
        text::decimal(n).len() > 0,
        forall|i: int| 0 <= i < text::decimal(n).len() ==> '0' <= #[trigger] text::decimal(n)[i] <= '9',
        n > 0 ==> text::decimal(n)[0] != '0',
{
    lemma_decimal(n);
    let d = text::decimal(n);
    assert(d[0] != '+');
}

pub proof fn lemma_decimal(n: nat)
    ensures
        text::decimal(n).len() > 0,
        forall|i: int| 0 <= i < text::decimal(n).len() ==> '0' <= #[trigger] text::decimal(n)[i] <= '9',
        text::all_digits(text::decimal(n), 10),
        text::number_value(text::decimal(n), 10) == n,
        n > 0 ==> text::decimal(n)[0] != '0',
    decreases n,
{
    reveal_with_fuel(text::number_value, 2);
    let d = text::decimal(n);
    if n < 10 {
        assert(d =~= seq![text::digit_char(n)]);
        assert(d.drop_last() =~= Seq::empty());
    } else {
        let before = text::decimal(n / 10);
        lemma_decimal(n / 10);
        assert(d =~= before.push(text::digit_char(n % 10)));
        assert(d.drop_last() =~= before);
        assert forall|i: int| 0 <= i < d.len() implies '0' <= #[trigger] d[i] <= '9' by {
            if i < before.len() {
                assert(d[i] == before[i]);
            }
        }
        assert(d[0] == before[0]);
    }
}

/// A text of decimal digits, at least one.
pub open spec fn is_decimal(s: Seq<char>) -> bool {
    s.len() > 0 && forall|i: int| 0 <= i < s.len() ==> '0' <= #[trigger] s[i] <= '9'
}

/// A text is a number exactly if it is digits, at least one, behind an optional plus
/// sign, and the number is not too large. Each digit counts ten times the next.
pub proof fn law_numbers_are_digits(s: Seq<char>, d: Seq<char>, max: nat)
    requires
        s == d && (s.len() == 0 || s[0] != '+') || s == seq!['+'] + d,
    ensures
        is_decimal(d) && text::number_value(d, 10) <= max ==> text::unsigned_number(s, 10, max)
            == Some(text::number_value(d, 10)),
        !is_decimal(d) || text::number_value(d, 10) > max ==> text::unsigned_number(s, 10, max)
            is None,
        text::number_value(Seq::empty(), 10) == 0,
        forall|t: Seq<char>, c: char|
            '0' <= c <= '9' ==> #[trigger] text::number_value(t.push(c), 10)
                == text::number_value(t, 10) * 10 + (c as u32 - '0' as u32),
{
    if s == seq!['+'] + d {
        assert(s.drop_first() =~= d);
    }
    if text::all_digits(d, 10) {
        assert forall|i: int| 0 <= i < d.len() implies '0' <= #[trigger] d[i] <= '9' by {
            assert(text::digit_value(d[i]) < 10);
        }
    }
    if is_decimal(d) {
        assert(text::all_digits(d, 10));
    }
    assert forall|t: Seq<char>, c: char|
        '0' <= c <= '9' implies #[trigger] text::number_value(t.push(c), 10)
        == text::number_value(t, 10) * 10 + (c as u32 - '0' as u32) by {
        assert(t.push(c).drop_last() =~= t);
    }
}

/// The lines of a text hold no line feed, and the text is made up of them: each line is
/// followed by a line feed, or a carriage return and a line feed, but for the last one,
/// behind which they may be missing.
pub proof fn law_lines_are_between_line_feeds(s: Seq<char>)
    ensures
        s.len() == 0 <==> text::lines(s).len() == 0,
        forall|i: int| 0 <= i < text::lines(s).len() ==> !holds(#[trigger] text::lines(s)[i], '\n'),
        s.len() > 0 ==> {
            let first = text::lines(s)[0];
            let rest = text::lines(s).skip(1);
            ||| s == first && rest.len() == 0
            ||| exists|tail: Seq<char>| #[trigger]
                text::lines(tail) == rest && (s == first + seq!['\n'] + tail || s == first + seq![
                    '\r',
                    '\n',
                ] + tail)
        },
    decreases s.len(),
{
    if s.len() > 0 {
        let end = text::next_char(s, '\n', 0);
        text::lemma_next_char(s, '\n', 0);
        let all = text::lines(s);
        if end >= s.len() {
            assert(all.skip(1) =~= Seq::empty());
            assert(all =~= seq![s]);
        } else {
            let tail = s.skip(end + 1);
            law_lines_are_between_line_feeds(tail);
            assert(all.skip(1) =~= text::lines(tail));
            let head = s.take(end);
            assert(s =~= head + seq!['\n'] + tail);
            if head.len() > 0 && head.last() == '\r' {
                assert(s =~= head.drop_last() + seq!['\r', '\n'] + tail);
            }
            assert forall|i: int| 0 <= i < all.len() implies !holds(#[trigger] all[i], '\n') by {
                if i > 0 {
                    assert(all[i] == text::lines(tail)[i - 1]);
                } else {
                    let line = all[0];
                    assert forall|k: int| 0 <= k < line.len() implies line[k] != '\n' by {
                        assert(line[k] == s[k]);
                    }
                }
            }
        }
    }
}

/// The words of a text are its runs of characters that are not white space: white space
/// before a word does not matter, and ends it.
pub proof fn law_words_lie_between_white_space(w: Seq<char>, c: char, s: Seq<char>)
    requires
        forall|i: int| 0 <= i < w.len() ==> !text::is_space(#[trigger] w[i]),
        text::is_space(c),
    ensures
        text::words(Seq::empty()).len() == 0,
        text::words(seq![c] + s) == text::words(s),
        w.len() > 0 ==> text::words(w) == seq![w],
        w.len() > 0 ==> text::words(w + seq![c] + s) == seq![w] + text::words(s),
{
    let gap = seq![c] + s;
    assert(gap.drop_first() =~= s);
    assert(text::trim_start(gap) == text::trim_start(s));
    if w.len() > 0 {
        lemma_word(w, Seq::empty());
        assert(w + Seq::empty() =~= w);
        assert(text::trim_start(w) == w);
        assert(w.take(w.len() as int) =~= w);
        assert(w.skip(w.len() as int) =~= Seq::empty());
        assert(text::words(Seq::<char>::empty()) =~= Seq::empty());
        let t = w + gap;
        assert(w + seq![c] + s =~= t);
        lemma_word(w, gap);
        assert(t.first() == w[0]);
        assert(text::trim_start(t) == t);
        assert(t.take(w.len() as int) =~= w);
        assert(t.skip(w.len() as int) =~= gap);
    }
}

proof fn lemma_word(w: Seq<char>, rest: Seq<char>)
    requires
        forall|i: int| 0 <= i < w.len() ==> !text::is_space(#[trigger] w[i]),
        rest.len() == 0 || text::is_space(rest[0]),
    ensures
        text::word_len(w + rest) == w.len(),
    decreases w.len(),
{
    let s = w + rest;
    if w.len() > 0 {
        assert(s.drop_first() =~= w.drop_first() + rest);
        assert(s.first() == w[0]);
        assert forall|i: int| 0 <= i < w.drop_first().len() implies !text::is_space(
            #[trigger] w.drop_first()[i],
        ) by {
            assert(w.drop_first()[i] == w[i + 1]);
        }
        lemma_word(w.drop_first(), rest);
    } else {
        assert(s =~= rest);
    }
}

/// Bytes are shown as two hexadecimal digits each, the higher one first.
pub proof fn law_bytes_are_shown_in_hexadecimal(s: Seq<u8>, i: int)
    requires
        0 <= i < s.len(),
    ensures
        text::hex_bytes(s).len() == 2 * s.len(),
        16 * text::digit_value(text::hex_bytes(s)[2 * i]) + text::digit_value(
            text::hex_bytes(s)[2 * i + 1],
        ) == s[i],
    decreases s.len(),
{
    let rest = s.drop_last();
    lemma_hex_len(rest);
    assert(text::hex_bytes(s) == text::hex_bytes(rest) + text::hex_byte(s.last()));
    if i < rest.len() {
        law_bytes_are_shown_in_hexadecimal(rest, i);
        assert(rest[i] == s[i]);
    } else {
        let b = s[i];
        assert(text::hex_bytes(s)[2 * i] == text::digit_char((b / 16) as nat));
        assert(text::hex_bytes(s)[2 * i + 1] == text::digit_char((b % 16) as nat));
    }
}

proof fn lemma_hex_len(s: Seq<u8>)
    ensures
        text::hex_bytes(s).len() == 2 * s.len(),
    decreases s.len(),
{
    if s.len() > 0 {
        lemma_hex_len(s.drop_last());
    }
}

} // verus!
