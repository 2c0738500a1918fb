//! Text as sequences of characters: trimming, line and word splitting,
//! searching, and the decimal and hexadecimal forms of unsigned numbers.
use vstd::prelude::*;
use vstd::slice::slice_subrange;
use vstd::string::*;

verus! {

// ---------------------------------------------------------------------------
// Model
// ---------------------------------------------------------------------------

/// The characters with the Unicode `White_Space` property.
pub open spec fn is_space(c: char) -> bool {
    let v = c as u32;
    ||| 0x9 <= v <= 0xd
    ||| v == 0x20
    ||| v == 0x85
    ||| v == 0xa0
    ||| v == 0x1680
    ||| 0x2000 <= v <= 0x200a
    ||| v == 0x2028
    ||| v == 0x2029
    ||| v == 0x202f
    ||| v == 0x205f
    ||| v == 0x3000
}

/// `s` without its leading white space.
pub open spec fn trim_start(s: Seq<char>) -> Seq<char>
    decreases s.len(),
{
    if s.len() > 0 && is_space(s.first()) {
        trim_start(s.drop_first())
    } else {
        s
    }
}

/// `s` without its trailing white space.
pub open spec fn trim_end(s: Seq<char>) -> Seq<char>
    decreases s.len(),
{
    if s.len() > 0 && is_space(s.last()) {
        trim_end(s.drop_last())
    } else {
        s
    }
}

/// `s` without leading and trailing white space.
pub open spec fn trim(s: Seq<char>) -> Seq<char> {
    trim_end(trim_start(s))
}

/// The ASCII lower-case form of a character; other characters stay.
pub open spec fn lower_char(c: char) -> char {
    if 'A' <= c <= 'Z' {
        ((c as u32 + 32) as u32) as char
    } else {
        c
    }
}

/// The ASCII lower-case form of a text.
pub open spec fn lower(s: Seq<char>) -> Seq<char> {
    s.map_values(|c: char| lower_char(c))
}

/// `needle` stands in `s` at position `at`.
pub open spec fn occurs_at(s: Seq<char>, needle: Seq<char>, at: int) -> bool {
    0 <= at && at + needle.len() <= s.len() && s.subrange(at, at + needle.len()) == needle
}

/// `needle` stands somewhere in `s`.
pub open spec fn contains(s: Seq<char>, needle: Seq<char>) -> bool {
    exists|at: int| occurs_at(s, needle, at)
}

/// `at` is the first position at which `needle` stands in `s`.
pub open spec fn first_occurrence(s: Seq<char>, needle: Seq<char>, at: int) -> bool {
    occurs_at(s, needle, at) && forall|k: int| 0 <= k < at ==> !occurs_at(s, needle, k)
}

/// What stands before and after the first occurrence of `needle`.
pub open spec fn split_once(s: Seq<char>, needle: Seq<char>) -> Option<(Seq<char>, Seq<char>)> {
    if contains(s, needle) {
        let at = choose|at: int| first_occurrence(s, needle, at);
        Some((s.take(at), s.skip(at + needle.len())))
    } else {
        None
    }
}

/// The position of the first `c` at or after `from`, or the length of `s`.
pub open spec fn next_char(s: Seq<char>, c: char, from: int) -> int
    decreases s.len() - from,
{
    if from < 0 || from >= s.len() {
        s.len() as int
    } else if s[from] == c {
        from
    } else {
        next_char(s, c, from + 1)
    }
}

/// A line without the carriage return that precedes its line feed.
pub open spec fn strip_carriage_return(s: Seq<char>) -> Seq<char> {
    if s.len() > 0 && s.last() == '\r' {
        s.drop_last()
    } else {
        s
    }
}

/// The lines of `s`: separated by `\n` or `\r\n`, the last terminator optional.
pub open spec fn lines(s: Seq<char>) -> Seq<Seq<char>>
    decreases s.len(),
{
    if s.len() == 0 {
        Seq::empty()
    } else {
        let end = next_char(s, '\n', 0);
        if end < 0 || end >= s.len() {
            seq![s]
        } else {
            seq![strip_carriage_return(s.take(end))] + lines(s.skip(end + 1))
        }
    }
}

/// The parts of `s` between the occurrences of `c`, empty ones included.
pub open spec fn fields(s: Seq<char>, c: char) -> Seq<Seq<char>>
    decreases s.len(),
{
    let end = next_char(s, c, 0);
    if end < 0 || end >= s.len() {
        seq![s]
    } else {
        seq![s.take(end)] + fields(s.skip(end + 1), c)
    }
}

/// The number of characters before the first white space.
pub open spec fn word_len(s: Seq<char>) -> nat
    decreases s.len(),
{
    if s.len() == 0 || is_space(s.first()) {
        0
    } else {
        1 + word_len(s.drop_first())
    }
}

/// The maximal runs of characters that are not white space.
pub open spec fn words(s: Seq<char>) -> Seq<Seq<char>>
    decreases s.len(),
    via words_decreases
{
    let t = trim_start(s);
    if t.len() == 0 {
        Seq::empty()
    } else {
        seq![t.take(word_len(t) as int)] + words(t.skip(word_len(t) as int))
    }
}

#[via_fn]
proof fn words_decreases(s: Seq<char>) {
    lemma_trim_start_len(s);
    let t = trim_start(s);
    if t.len() > 0 {
        lemma_trim_start_first(s);
        lemma_word_len(t);
    }
}

/// The texts of `parts` with `separator` between neighbours.
pub open spec fn join(parts: Seq<Seq<char>>, separator: Seq<char>) -> Seq<char>
    decreases parts.len(),
{
    if parts.len() == 0 {
        Seq::empty()
    } else if parts.len() == 1 {
        parts[0]
    } else {
        join(parts.drop_last(), separator) + separator + parts.last()
    }
}

/// The value of a digit of a base up to sixteen.
pub open spec fn digit_value(c: char) -> nat {
    if '0' <= c <= '9' {
        (c as u32 - '0' as u32) as nat
    } else if 'a' <= c <= 'f' {
        (c as u32 - 'a' as u32 + 10) as nat
    } else if 'A' <= c <= 'F' {
        (c as u32 - 'A' as u32 + 10) as nat
    } else {
        16
    }
}

/// The lower-case digit with the given value.
pub open spec fn digit_char(v: nat) -> char {
    if v < 10 {
        ((48 + v) as u32) as char
    } else {
        ((87 + v) as u32) as char
    }
}

/// Every character is a digit of the base.
pub open spec fn all_digits(s: Seq<char>, base: nat) -> bool {
    forall|i: int| 0 <= i < s.len() ==> digit_value(#[trigger] s[i]) < base
}

/// The number that the digits of `s` denote.
pub open spec fn number_value(s: Seq<char>, base: nat) -> nat
    decreases s.len(),
{
    if s.len() == 0 {
        0
    } else {
        number_value(s.drop_last(), base) * base + digit_value(s.last())
    }
}

/// What reading an unsigned number in a base gives: an optional plus sign, then
/// one or more digits whose value is at most `max`.
pub open spec fn unsigned_number(s: Seq<char>, base: nat, max: nat) -> Option<nat> {
    let digits = if s.len() > 0 && s.first() == '+' {
        s.drop_first()
    } else {
        s
    };
    if digits.len() > 0 && all_digits(digits, base) && number_value(digits, base) <= max {
        Some(number_value(digits, base))
    } else {
        None
    }
}

/// The shortest text of a number in a base.
pub open spec fn number_text(n: nat, base: nat) -> Seq<char>
    decreases n,
    via number_text_decreases
{
    if base < 2 || n < base {
        seq![digit_char(n)]
    } else {
        number_text(n / base, base).push(digit_char(n % base))
    }
}

#[via_fn]
proof fn number_text_decreases(n: nat, base: nat) {
    if base >= 2 && n >= base {
        assert(n / base < n) by (nonlinear_arith)
            requires
                n >= base,
                base >= 2,
        ;
    }
}

/// The decimal text of a number.
pub open spec fn decimal(n: nat) -> Seq<char> {
    number_text(n, 10)
}

/// The lower-case hexadecimal text of a number.
pub open spec fn hex(n: nat) -> Seq<char> {
    number_text(n, 16)
}

/// The two hexadecimal digits of a byte.
pub open spec fn hex_byte(b: u8) -> Seq<char> {
    seq![digit_char((b / 16) as nat), digit_char((b % 16) as nat)]
}

/// The hexadecimal digits of a sequence of bytes, two for each.
pub open spec fn hex_bytes(s: Seq<u8>) -> Seq<char>
    decreases s.len(),
{
    if s.len() == 0 {
        Seq::empty()
    } else {
        hex_bytes(s.drop_last()) + hex_byte(s.last())
    }
}

/// The optional text as its characters.
pub open spec fn text_of(s: Option<String>) -> Option<Seq<char>> {
    match s {
        Some(s) => Some(s@),
        None => None,
    }
}

/// The texts of a list as their characters.
pub open spec fn texts_of(s: Seq<String>) -> Seq<Seq<char>> {
    s.map_values(|t: String| t@)
}

/// Every character is an ASCII one.
pub open spec fn is_ascii(s: Seq<char>) -> bool {
    forall|i: int| 0 <= i < s.len() ==> (#[trigger] s[i] as u32) < 128
}

/// The Unicode lower-case form of a text that is not all ASCII, as
/// `str::to_lowercase` gives it.
pub uninterp spec fn unicode_lowercase(s: Seq<char>) -> Seq<char>;

/// The lower-case form of a text.
pub open spec fn lowercase(s: Seq<char>) -> Seq<char> {
    if is_ascii(s) {
        lower(s)
    } else {
        unicode_lowercase(s)
    }
}

/// The text that stands for bytes of which some may not be UTF-8, as
/// `String::from_utf8_lossy` gives it.
pub uninterp spec fn utf8_lossy(bytes: Seq<u8>) -> Seq<char>;

/// What `std::str::Utf8Error` says of bytes that are not UTF-8.
pub uninterp spec fn utf8_error_text(bytes: Seq<u8>) -> Seq<char>;

/// A text between double quotes with its special characters escaped, as the
/// `Debug` form of `str` shows it.
pub uninterp spec fn quoted(s: Seq<char>) -> Seq<char>;

// ---------------------------------------------------------------------------
// Lemmas
// ---------------------------------------------------------------------------

pub proof fn lemma_trim_start_len(s: Seq<char>)
    ensures
        trim_start(s).len() <= s.len(),
    decreases s.len(),
{
    if s.len() > 0 && is_space(s.first()) {
        lemma_trim_start_len(s.drop_first());
    }
}

pub proof fn lemma_trim_start_first(s: Seq<char>)
    requires
        trim_start(s).len() > 0,
    ensures
        !is_space(trim_start(s).first()),
    decreases s.len(),
{
    if s.len() > 0 && is_space(s.first()) {
        lemma_trim_start_first(s.drop_first());
    }
}

pub proof fn lemma_word_len(s: Seq<char>)
    requires
        s.len() > 0,
        !is_space(s.first()),
    ensures
        1 <= word_len(s) <= s.len(),
{
    lemma_word_len_bound(s.drop_first());
}

pub proof fn lemma_word_len_bound(s: Seq<char>)
    ensures
        word_len(s) <= s.len(),
    decreases s.len(),
{
    if s.len() > 0 && !is_space(s.first()) {
        lemma_word_len_bound(s.drop_first());
    }
}

pub proof fn lemma_next_char(s: Seq<char>, c: char, from: int)
    requires
        0 <= from <= s.len(),
    ensures
        from <= next_char(s, c, from) <= s.len(),
        next_char(s, c, from) < s.len() ==> s[next_char(s, c, from)] == c,
        forall|k: int| from <= k < next_char(s, c, from) ==> s[k] != c,
    decreases s.len() - from,
{
    if from < s.len() && s[from] != c {
        lemma_next_char(s, c, from + 1);
    }
}

/// The value of a prefix is at most that of the whole.
pub proof fn lemma_number_prefix(s: Seq<char>, base: nat, n: int)
    requires
        0 <= n <= s.len(),
        base >= 1,
    ensures
        number_value(s.take(n), base) <= number_value(s, base),
    decreases s.len() - n,
{
    if n == s.len() {
        assert(s.take(n) =~= s);
    } else {
        lemma_number_prefix(s, base, n + 1);
        assert(s.take(n + 1).drop_last() =~= s.take(n));
        let v = number_value(s.take(n), base);
        assert(v * base >= v) by (nonlinear_arith)
            requires
                base >= 1,
                v >= 0,
        ;
    }
}

// ---------------------------------------------------------------------------
// Executable forms
// ---------------------------------------------------------------------------

/// `str::to_lowercase`: in an ASCII text the letters are put in lower case and
/// everything else is kept; the Unicode lower-case form of another text has a name.
#[verifier::external_body]
pub(crate) fn to_lowercase(s: &str) -> (r: String)
    ensures
        is_ascii(s@) ==> r@ == lower(s@),
        !is_ascii(s@) ==> r@ == unicode_lowercase(s@),
{
    s.to_lowercase()
}

/// `String::from_utf8_lossy`: bytes that are UTF-8 are decoded; what stands for
/// other bytes has a name.
#[verifier::external_body]
pub(crate) fn from_utf8_lossy(bytes: &[u8]) -> (r: String)
    ensures
        r@ == utf8_lossy(bytes@),
        vstd::utf8::valid_utf8(bytes@) ==> r@ == vstd::utf8::decode_utf8(bytes@),
{
    String::from_utf8_lossy(bytes).into_owned()
}

/// `std::str::from_utf8`: succeeds exactly on valid UTF-8, which it decodes; the
/// message of its error has a name.
#[verifier::external_body]
pub(crate) fn from_utf8(bytes: &[u8]) -> (r: Result<String, String>)
    ensures
        r is Ok <==> vstd::utf8::valid_utf8(bytes@),
        r matches Ok(s) ==> s@ == vstd::utf8::decode_utf8(bytes@),
        r matches Err(e) ==> e@ == utf8_error_text(bytes@),
{
    match std::str::from_utf8(bytes) {
        Ok(text) => Ok(text.to_owned()),
        Err(error) => Err(error.to_string()),
    }
}

/// `String::from_iter` over characters: the text made of them in order.
#[verifier::external_body]
pub(crate) fn from_chars(chars: &[char]) -> (r: String)
    ensures
        r@ == chars@,
{
    chars.iter().collect()
}

/// The `Debug` form of `str`, under a name.
#[verifier::external_body]
pub(crate) fn quote(s: &str) -> (r: String)
    ensures
        r@ == quoted(s@),
{
    format!("{s:?}")
}

/// The characters of a text.
pub fn to_chars(s: &str) -> (r: Vec<char>)
    ensures
        r@ == s@,
{
    let mut r: Vec<char> = Vec::new();
    for c in it: s.chars()
        invariant
            r@ == s@.take(it.index()),
            it.seq() == s@,
    {
        r.push(c);
    }
    r
}

/// Whether two texts are equal.
pub fn same(a: &str, b: &str) -> (r: bool)
    ensures
        r == (a@ == b@),
{
    let x = a.as_bytes();
    let y = b.as_bytes();
    proof {
        vstd::utf8::encode_utf8_decode_utf8(a@);
        vstd::utf8::encode_utf8_decode_utf8(b@);
    }
    if x.len() != y.len() {
        return false;
    }
    let mut i: usize = 0;
    while i < x.len()
        invariant
            i <= x@.len(),
            x@.len() == y@.len(),
            x@ == vstd::utf8::encode_utf8(a@),
            y@ == vstd::utf8::encode_utf8(b@),
            forall|k: int| 0 <= k < i ==> x@[k] == y@[k],
        decreases x@.len() - i,
    {
        if x[i] != y[i] {
            return false;
        }
        i += 1;
    }
    assert(x@ =~= y@);
    true
}

/// Whether two slices of characters are equal.
pub fn same_chars(a: &[char], b: &[char]) -> (r: bool)
    ensures
        r == (a@ == b@),
{
    if a.len() != b.len() {
        return false;
    }
    let mut i: usize = 0;
    while i < a.len()
        invariant
            i <= a@.len(),
            a@.len() == b@.len(),
            forall|k: int| 0 <= k < i ==> a@[k] == b@[k],
        decreases a@.len() - i,
    {
        if a[i] != b[i] {
            return false;
        }
        i += 1;
    }
    assert(a@ =~= b@);
    true
}

/// Whether two slices of bytes are equal.
pub fn same_bytes(a: &[u8], b: &[u8]) -> (r: bool)
    ensures
        r == (a@ == b@),
{
    if a.len() != b.len() {
        return false;
    }
    let mut i: usize = 0;
    while i < a.len()
        invariant
            i <= a@.len(),
            a@.len() == b@.len(),
            forall|k: int| 0 <= k < i ==> a@[k] == b@[k],
        decreases a@.len() - i,
    {
        if a[i] != b[i] {
            return false;
        }
        i += 1;
    }
    assert(a@ =~= b@);
    true
}

/// Whether a character has the Unicode `White_Space` property.
pub fn is_space_char(c: char) -> (r: bool)
    ensures
        r == is_space(c),
{
    let v: u32 = c as u32;
    (v >= 0x9 && v <= 0xd) || v == 0x20 || v == 0x85 || v == 0xa0 || v == 0x1680 || (v >= 0x2000
        && v <= 0x200a) || v == 0x2028 || v == 0x2029 || v == 0x202f || v == 0x205f || v == 0x3000
}

/// Removes leading white space.
pub fn trim_start_chars<'a>(s: &'a [char]) -> (r: &'a [char])
    ensures
        r@ == trim_start(s@),
{
    let mut i: usize = 0;
    assert(s@.skip(0) =~= s@);
    while i < s.len() && is_space_char(s[i])
        invariant
            i <= s@.len(),
            trim_start(s@) == trim_start(s@.skip(i as int)),
        decreases s@.len() - i,
    {
        assert(s@.skip(i as int).drop_first() =~= s@.skip(i + 1));
        i += 1;
    }
    assert(s@.subrange(i as int, s@.len() as int) =~= s@.skip(i as int));
    slice_subrange(s, i, s.len())
}

/// Removes leading and trailing white space.
pub fn trim_chars<'a>(s: &'a [char]) -> (r: &'a [char])
    ensures
        r@ == trim(s@),
{
    let t = trim_start_chars(s);
    let mut n: usize = t.len();
    assert(t@.take(n as int) =~= t@);
    while n > 0 && is_space_char(t[n - 1])
        invariant
            n <= t@.len(),
            trim_end(t@) == trim_end(t@.take(n as int)),
        decreases n,
    {
        assert(t@.take(n as int).drop_last() =~= t@.take(n - 1));
        n -= 1;
    }
    assert(t@.subrange(0, n as int) =~= t@.take(n as int));
    slice_subrange(t, 0, n)
}

/// The ASCII lower-case form of a character.
pub fn lower_one(c: char) -> (r: char)
    ensures
        r == lower_char(c),
{
    if c >= 'A' && c <= 'Z' {
        let b: u8 = c as u8;
        (b + 32) as char
    } else {
        c
    }
}

/// The ASCII lower-case form of a slice of characters.
pub fn lower_chars(s: &[char]) -> (r: Vec<char>)
    ensures
        r@ == lower(s@),
{
    let mut r: Vec<char> = Vec::new();
    let mut i: usize = 0;
    while i < s.len()
        invariant
            i <= s@.len(),
            r@ == lower(s@.take(i as int)),
        decreases s@.len() - i,
    {
        r.push(lower_one(s[i]));
        assert(lower(s@.take(i + 1)) =~= lower(s@.take(i as int)).push(lower_char(s@[i as int])));
        i += 1;
    }
    assert(s@.take(s@.len() as int) =~= s@);
    r
}

/// The ASCII lower-case form of a text.
pub fn lower_text(s: &str) -> (r: String)
    ensures
        r@ == lower(s@),
{
    let chars = to_chars(s);
    from_chars(&lower_chars(&chars))
}

/// Whether `needle` stands in `s` at `at`.
pub fn occurs_here(s: &[char], needle: &[char], at: usize) -> (r: bool)
    requires
        at <= s@.len(),
    ensures
        r == occurs_at(s@, needle@, at as int),
{
    let len: usize = s.len();
    if len - at < needle.len() {
        return false;
    }
    let mut i: usize = 0;
    while i < needle.len()
        invariant
            len == s@.len(),
            i <= needle@.len(),
            at + needle@.len() <= s@.len(),
            forall|k: int| 0 <= k < i ==> s@[at + k] == needle@[k],
        decreases needle@.len() - i,
    {
        if s[at + i] != needle[i] {
            proof {
                if occurs_at(s@, needle@, at as int) {
                    assert(s@.subrange(at as int, at + needle@.len())[i as int] == needle@[i as int]);
                }
            }
            return false;
        }
        i += 1;
    }
    assert(s@.subrange(at as int, at + needle@.len()) =~= needle@);
    true
}

/// The first position at which `needle` stands in `s`.
pub fn find(s: &[char], needle: &[char]) -> (r: Option<usize>)
    ensures
        r is Some <==> contains(s@, needle@),
        r matches Some(at) ==> first_occurrence(s@, needle@, at as int),
{
    let mut at: usize = 0;
    while at < s.len()
        invariant
            at <= s@.len(),
            forall|k: int| 0 <= k < at ==> !occurs_at(s@, needle@, k),
        decreases s@.len() - at,
    {
        if occurs_here(s, needle, at) {
            return Some(at);
        }
        at += 1;
    }
    if occurs_here(s, needle, at) {
        Some(at)
    } else {
        None
    }
}

/// Whether `needle` stands somewhere in `s`.
pub fn contains_chars(s: &[char], needle: &[char]) -> (r: bool)
    ensures
        r == contains(s@, needle@),
{
    find(s, needle).is_some()
}

/// Whether `needle` stands somewhere in `s`.
pub fn contains_text(s: &str, needle: &str) -> (r: bool)
    ensures
        r == contains(s@, needle@),
{
    contains_chars(&to_chars(s), &to_chars(needle))
}

/// Splits at the first occurrence of `needle`.
pub fn split_once_chars<'a>(s: &'a [char], needle: &[char]) -> (r: Option<(&'a [char], &'a [char])>)
    ensures
        r matches Some(p) ==> split_once(s@, needle@) == Some((p.0@, p.1@)),
        r is None ==> split_once(s@, needle@) is None,
{
    match find(s, needle) {
        None => None,
        Some(at) => {
            proof {
                let chosen = choose|k: int| first_occurrence(s@, needle@, k);
                assert(first_occurrence(s@, needle@, at as int));
                assert(first_occurrence(s@, needle@, chosen));
                assert(chosen == at as int) by {
                    if chosen < at {
                        assert(!occurs_at(s@, needle@, chosen));
                    }
                    if at < chosen {
                        assert(!occurs_at(s@, needle@, at as int));
                    }
                }
            }
            let len: usize = s.len();
            let end: usize = at + needle.len();
            assert(s@.subrange(0, at as int) =~= s@.take(at as int));
            assert(s@.subrange(end as int, s@.len() as int) =~= s@.skip(end as int));
            Some((slice_subrange(s, 0, at), slice_subrange(s, end, len)))
        },
    }
}

/// The position of the first `c` at or after `from`, or the length.
pub fn find_char(s: &[char], c: char, from: usize) -> (r: usize)
    requires
        from <= s@.len(),
    ensures
        r == next_char(s@, c, from as int),
        from <= r <= s@.len(),
{
    let mut i: usize = from;
    while i < s.len() && s[i] != c
        invariant
            from <= i <= s@.len(),
            next_char(s@, c, from as int) == next_char(s@, c, i as int),
        decreases s@.len() - i,
    {
        i += 1;
    }
    i
}

/// Splits a text into its lines.
pub fn split_lines<'a>(s: &'a [char]) -> (r: Vec<&'a [char]>)
    ensures
        r@.map_values(|l: &[char]| l@) == lines(s@),
{
    let mut r: Vec<&'a [char]> = Vec::new();
    let mut pos: usize = 0;
    let ghost view = |l: &[char]| l@;
    assert(s@.skip(0) =~= s@);
    assert(r@.map_values(view) =~= Seq::<Seq<char>>::empty());
    assert(Seq::<Seq<char>>::empty() + lines(s@) =~= lines(s@));
    while pos < s.len()
        invariant
            pos <= s@.len(),
            view == (|l: &[char]| l@),
            r@.map_values(view) + lines(s@.skip(pos as int)) == lines(s@),
        decreases s@.len() - pos,
    {
        let ghost rest = s@.skip(pos as int);
        let end = find_char(s, '\n', pos);
        proof {
            lemma_next_char(s@, '\n', pos as int);
            lemma_next_char(rest, '\n', 0);
            let a = next_char(rest, '\n', 0);
            let b = end - pos;
            assert(a == b) by {
                if a < b {
                    assert(s@[pos + a] != '\n');
                    assert(rest[a] == s@[pos + a]);
                }
                if b < a {
                    assert(rest[b] == s@[end as int]);
                    assert(s@[end as int] == '\n');
                }
            }
        }
        if end == s.len() {
            assert(s@.subrange(pos as int, s@.len() as int) =~= rest);
            let line = slice_subrange(s, pos, s.len());
            let ghost before = r@;
            r.push(line);
            assert(r@.map_values(view) =~= before.map_values(view).push(line@));
            assert(lines(rest) == seq![rest]);
            pos = s.len();
            assert(s@.skip(pos as int) =~= Seq::<char>::empty());
            assert(r@.map_values(view) + lines(s@.skip(pos as int)) =~= before.map_values(view)
                + seq![rest]);
        } else {
            let mut stop: usize = end;
            if end > pos && s[end - 1] == '\r' {
                stop = end - 1;
            }
            let line = slice_subrange(s, pos, stop);
            proof {
                assert(rest.take(end - pos) =~= s@.subrange(pos as int, end as int));
                assert(line@ =~= strip_carriage_return(rest.take(end - pos)));
                assert(rest.skip(end - pos + 1) =~= s@.skip(end + 1));
            }
            let ghost before = r@;
            r.push(line);
            assert(r@.map_values(view) =~= before.map_values(view).push(line@));
            pos = end + 1;
            assert(lines(rest) == seq![line@] + lines(s@.skip(pos as int)));
            assert(r@.map_values(view) + lines(s@.skip(pos as int)) =~= before.map_values(view) + (
            seq![line@] + lines(s@.skip(pos as int))));
        }
    }
    assert(s@.skip(pos as int) =~= Seq::<char>::empty());
    assert(r@.map_values(view) + lines(s@.skip(pos as int)) =~= r@.map_values(view));
    r
}

/// Splits a text at every `c`.
pub fn split_fields<'a>(s: &'a [char], c: char) -> (r: Vec<&'a [char]>)
    ensures
        r@.map_values(|l: &[char]| l@) == fields(s@, c),
        r@.len() > 0,
{
    let mut r: Vec<&'a [char]> = Vec::new();
    let mut pos: usize = 0;
    let ghost view = |l: &[char]| l@;
    assert(s@.skip(0) =~= s@);
    assert(r@.map_values(view) =~= Seq::<Seq<char>>::empty());
    assert(Seq::<Seq<char>>::empty() + fields(s@, c) =~= fields(s@, c));
    loop
        invariant
            pos <= s@.len(),
            view == (|l: &[char]| l@),
            r@.map_values(view) + fields(s@.skip(pos as int), c) == fields(s@, c),
        decreases s@.len() - pos,
    {
        let ghost rest = s@.skip(pos as int);
        let end = find_char(s, c, pos);
        proof {
            lemma_next_char(s@, c, pos as int);
            lemma_next_char(rest, c, 0);
            let a = next_char(rest, c, 0);
            let b = end - pos;
            assert(a == b) by {
                if a < b {
                    assert(s@[pos + a] != c);
                    assert(rest[a] == s@[pos + a]);
                }
                if b < a {
                    assert(rest[b] == s@[end as int]);
                    assert(s@[end as int] == c);
                }
            }
        }
        let part = slice_subrange(s, pos, end);
        let ghost before = r@;
        r.push(part);
        assert(r@.map_values(view) =~= before.map_values(view).push(part@));
        if end == s.len() {
            assert(part@ =~= rest);
            assert(r@.map_values(view) =~= before.map_values(view) + seq![rest]);
            return r;
        }
        assert(part@ =~= rest.take(end - pos));
        assert(rest.skip(end - pos + 1) =~= s@.skip(end + 1));
        assert(r@.map_values(view) + fields(s@.skip(end + 1), c) =~= before.map_values(view) + (
        seq![part@] + fields(s@.skip(end + 1), c)));
        pos = end + 1;
    }
}

/// Splits a text into its words.
pub fn split_words<'a>(s: &'a [char]) -> (r: Vec<&'a [char]>)
    ensures
        r@.map_values(|l: &[char]| l@) == words(s@),
{
    let mut r: Vec<&'a [char]> = Vec::new();
    let mut rest: &'a [char] = s;
    let ghost view = |l: &[char]| l@;
    assert(r@.map_values(view) =~= Seq::<Seq<char>>::empty());
    assert(Seq::<Seq<char>>::empty() + words(s@) =~= words(s@));
    loop
        invariant
            view == (|l: &[char]| l@),
            r@.map_values(view) + words(rest@) == words(s@),
        decreases rest@.len(),
    {
        let t = trim_start_chars(rest);
        proof {
            lemma_trim_start_len(rest@);
        }
        if t.len() == 0 {
            assert(r@.map_values(view) + words(rest@) =~= r@.map_values(view));
            return r;
        }
        proof {
            lemma_trim_start_first(rest@);
            lemma_word_len(t@);
        }
        let mut n: usize = 0;
        assert(t@.skip(0) =~= t@);
        while n < t.len() && !is_space_char(t[n])
            invariant
                n <= t@.len(),
                word_len(t@) == n + word_len(t@.skip(n as int)),
            decreases t@.len() - n,
        {
            assert(t@.skip(n as int).drop_first() =~= t@.skip(n + 1));
            n += 1;
        }
        assert(word_len(t@.skip(n as int)) == 0);
        let word = slice_subrange(t, 0, n);
        let next = slice_subrange(t, n, t.len());
        let ghost before = r@;
        r.push(word);
        assert(r@.map_values(view) =~= before.map_values(view).push(word@));
        assert(word@ =~= t@.take(n as int));
        assert(next@ =~= t@.skip(n as int));
        assert(r@.map_values(view) + words(next@) =~= before.map_values(view) + (seq![word@] + words(
            next@,
        )));
        rest = next;
    }
}

/// Joins texts with a separator.
pub fn join_texts(parts: &Vec<String>, separator: &str) -> (r: String)
    ensures
        r@ == join(texts_of(parts@), separator@),
{
    let mut r = String::new();
    let mut i: usize = 0;
    assert(texts_of(parts@).take(0) =~= Seq::<Seq<char>>::empty());
    while i < parts.len()
        invariant
            i <= parts@.len(),
            r@ == join(texts_of(parts@).take(i as int), separator@),
        decreases parts@.len() - i,
    {
        let ghost all = texts_of(parts@);
        if i > 0 {
            r.append(separator);
        }
        r.append(parts[i].as_str());
        assert(all.take(i + 1).drop_last() =~= all.take(i as int));
        assert(r@ =~= join(all.take(i + 1), separator@));
        i += 1;
    }
    assert(texts_of(parts@).take(parts@.len() as int) =~= texts_of(parts@));
    r
}

/// The value of a digit, or sixteen.
pub fn digit_of(c: char) -> (r: u64)
    ensures
        r == digit_value(c),
        r <= 16,
{
    let v: u32 = c as u32;
    if c >= '0' && c <= '9' {
        (v - 48) as u64
    } else if c >= 'a' && c <= 'f' {
        (v - 87) as u64
    } else if c >= 'A' && c <= 'F' {
        (v - 55) as u64
    } else {
        16
    }
}

/// Reads an unsigned number in a base: an optional plus sign and digits whose
/// value is at most `max`.
pub fn read_unsigned(s: &[char], base: u64, max: u64) -> (r: Option<u64>)
    requires
        2 <= base <= 16,
    ensures
        (match r {
            Some(v) => unsigned_number(s@, base as nat, max as nat) == Some(v as nat),
            None => unsigned_number(s@, base as nat, max as nat) is None,
        }),
{
    let start: usize = if s.len() > 0 && s[0] == '+' {
        1
    } else {
        0
    };
    let digits = slice_subrange(s, start, s.len());
    proof {
        if start == 1 {
            assert(digits@ =~= s@.drop_first());
        } else {
            assert(digits@ =~= s@);
        }
    }
    if digits.len() == 0 {
        return None;
    }
    let mut value: u64 = 0;
    let mut i: usize = 0;
    while i < digits.len()
        invariant
            i <= digits@.len(),
            2 <= base <= 16,
            value <= max,
            value == number_value(digits@.take(i as int), base as nat),
            forall|k: int| 0 <= k < i ==> digit_value(#[trigger] digits@[k]) < base,
            digits@.len() > 0,
            digits@ == (if s@.len() > 0 && s@.first() == '+' {
                s@.drop_first()
            } else {
                s@
            }),
        decreases digits@.len() - i,
    {
        let d = digit_of(digits[i]);
        if d >= base {
            return None;
        }
        assert(0 <= value * base <= 16 * u64::MAX) by (nonlinear_arith)
            requires
                value <= u64::MAX,
                base <= 16,
        ;
        let wide: u128 = (value as u128) * (base as u128) + (d as u128);
        proof {
            assert(digits@.take(i + 1).drop_last() =~= digits@.take(i as int));
            lemma_number_prefix(digits@, base as nat, i + 1);
        }
        if wide > max as u128 {
            return None;
        }
        value = wide as u64;
        i += 1;
    }
    assert(digits@.take(digits@.len() as int) =~= digits@);
    Some(value)
}

/// The lower-case digit with a value below sixteen.
pub fn digit_for(v: u8) -> (r: char)
    requires
        v < 16,
    ensures
        r == digit_char(v as nat),
{
    if v < 10 {
        (48 + v) as char
    } else {
        (87 + v) as char
    }
}

/// The shortest text of a number in a base.
pub fn number_chars(n: u64, base: u64) -> (r: Vec<char>)
    requires
        2 <= base <= 16,
    ensures
        r@ == number_text(n as nat, base as nat),
    decreases n,
{
    if n < base {
        let mut r: Vec<char> = Vec::new();
        r.push(digit_for(n as u8));
        r
    } else {
        assert(n / base < n) by (nonlinear_arith)
            requires
                n >= base,
                base >= 2,
        ;
        assert(n % base < base) by (nonlinear_arith)
            requires
                base >= 2,
        ;
        let mut r = number_chars(n / base, base);
        r.push(digit_for((n % base) as u8));
        r
    }
}

/// The decimal text of a number.
pub fn decimal_text(n: u64) -> (r: String)
    ensures
        r@ == decimal(n as nat),
{
    from_chars(&number_chars(n, 10))
}

/// The hexadecimal text of a number, without a prefix.
pub fn hex_text(n: u64) -> (r: String)
    ensures
        r@ == hex(n as nat),
{
    from_chars(&number_chars(n, 16))
}

/// The hexadecimal digits of bytes, two for each.
pub fn hex_text_of_bytes(bytes: &[u8]) -> (r: String)
    ensures
        r@ == hex_bytes(bytes@),
{
    let mut r: Vec<char> = Vec::new();
    let mut i: usize = 0;
    while i < bytes.len()
        invariant
            i <= bytes@.len(),
            r@ == hex_bytes(bytes@.take(i as int)),
        decreases bytes@.len() - i,
    {
        let b = bytes[i];
        r.push(digit_for(b / 16));
        r.push(digit_for(b % 16));
        assert(bytes@.take(i + 1).drop_last() =~= bytes@.take(i as int));
        assert(r@ =~= hex_bytes(bytes@.take(i + 1)));
        i += 1;
    }
    assert(bytes@.take(bytes@.len() as int) =~= bytes@);
    from_chars(&r)
}

/// Copies a list of texts.
pub fn copy_texts(s: &Vec<String>) -> (r: Vec<String>)
    ensures
        texts_of(r@) == texts_of(s@),
{
    let mut r: Vec<String> = Vec::new();
    let mut i: usize = 0;
    while i < s.len()
        invariant
            i <= s@.len(),
            r@.len() == i,
            forall|k: int| 0 <= k < i ==> (#[trigger] r@[k])@ == s@[k]@,
        decreases s@.len() - i,
    {
        r.push(s[i].clone());
        i += 1;
    }
    assert(texts_of(r@) =~= texts_of(s@));
    r
}

/// Copies an optional text.
pub fn copy_text(s: &Option<String>) -> (r: Option<String>)
    ensures
        text_of(r) == text_of(*s),
{
    match s {
        Some(t) => Some(t.clone()),
        None => None,
    }
}

} // verus!
