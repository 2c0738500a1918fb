//! Subscription formats: Base64 bundles, entry schemes and containers.
use crate::parser::radix64;
use crate::parser::wire;
use crate::text;
use vstd::prelude::*;
use vstd::string::*;

verus! {

/// The largest bundle that is decoded, in bytes.
pub const MAX_DECODED_BYTES: usize = 8388608;

// ---------------------------------------------------------------------------
// Model
// ---------------------------------------------------------------------------

/// ASCII white space: space, tab, line feed, form feed, carriage return.
pub open spec fn is_ascii_space(b: u8) -> bool {
    b == 32 || b == 9 || b == 10 || b == 12 || b == 13
}

/// The bytes that are not ASCII white space.
pub open spec fn compact(s: Seq<u8>) -> Seq<u8> {
    s.filter(|b: u8| !is_ascii_space(b))
}

/// What was decoded, where it is not too long.
pub open spec fn bounded(decoded: Option<Seq<u8>>) -> Option<Seq<u8>> {
    match decoded {
        Some(d) if d.len() <= MAX_DECODED_BYTES => Some(d),
        _ => None,
    }
}

pub open spec fn bounded_base64(url_safe: bool, padded: bool, input: Seq<u8>) -> Option<Seq<u8>> {
    bounded(radix64::decoded(url_safe, padded, input))
}

/// A bundle's bytes: the first of the four Base64 forms that fits.
pub open spec fn bundle(raw: Seq<u8>) -> Result<Seq<u8>, Seq<char>> {
    let input = compact(raw);
    if input.len() == 0 || input.len() > 2 * MAX_DECODED_BYTES {
        Err("empty or oversized Base64 input"@)
    } else {
        match bounded_base64(false, true, input) {
            Some(d) => Ok(d),
            None => match bounded_base64(false, false, input) {
                Some(d) => Ok(d),
                None => match bounded_base64(true, true, input) {
                    Some(d) => Ok(d),
                    None => match bounded_base64(true, false, input) {
                        Some(d) => Ok(d),
                        None => Err("unsupported alphabet, padding, or input length"@),
                    },
                },
            },
        }
    }
}

/// White space in a bundle does not matter: two inputs that differ in nothing else are
/// read alike, and putting a byte of it in anywhere is such a difference.
pub proof fn law_white_space_does_not_matter(raw: Seq<u8>, other: Seq<u8>, i: int, space: u8)
    requires
        0 <= i <= raw.len(),
        is_ascii_space(space),
    ensures
        compact(raw) == compact(other) ==> bundle(raw) == bundle(other),
        compact(raw.insert(i, space)) == compact(raw),
{
    let keep = |b: u8| !is_ascii_space(b);
    let (head, tail) = (raw.take(i), raw.skip(i));
    assert(raw =~= head + tail);
    assert(raw.insert(i, space) =~= (head + seq![space]) + tail);
    Seq::filter_distributes_over_add(head, tail, keep);
    Seq::filter_distributes_over_add(head + seq![space], tail, keep);
    Seq::filter_distributes_over_add(head, seq![space], keep);
    assert(seq![space].filter(keep) =~= Seq::<u8>::empty()) by {
        let only = seq![space];
        reveal_with_fuel(Seq::filter, 2);
        assert(only.drop_last() =~= Seq::<u8>::empty());
        assert(only.drop_last().filter(keep) =~= Seq::<u8>::empty());
        assert(!keep(only.last()));
    }
    assert(head.filter(keep) + Seq::<u8>::empty() =~= head.filter(keep));
}

/// A bundle reads back: whichever of the four Base64 forms some bytes were encoded in,
/// and wherever white space was put into the text, decoding gives the bytes, where
/// there are any and they are not too many.
pub proof fn law_encoded_bundles_are_read_back(
    raw: Seq<u8>,
    url_safe: bool,
    padded: bool,
    bytes: Seq<u8>,
)
    requires
        0 < bytes.len() <= MAX_DECODED_BYTES,
        compact(raw) == radix64::encoded(url_safe, padded, bytes),
    ensures
        bundle(raw) == Ok::<_, Seq<char>>(bytes),
        bundle(radix64::encoded(url_safe, padded, bytes)) == Ok::<_, Seq<char>>(bytes),
{
    let input = compact(raw);
    radix64::lemma_encoded(url_safe, padded, bytes);
    lemma_nothing_to_compact(input);
    radix64::law_encoded_bytes_are_decoded(url_safe, padded, bytes);
    lemma_decoded_alike(false, true, input, url_safe, padded, bytes);
    lemma_decoded_alike(false, false, input, url_safe, padded, bytes);
    lemma_decoded_alike(true, true, input, url_safe, padded, bytes);
    lemma_decoded_alike(true, false, input, url_safe, padded, bytes);
}

/// What any form makes of a text is what the text was made of.
proof fn lemma_decoded_alike(
    as_url_safe: bool,
    as_padded: bool,
    input: Seq<u8>,
    url_safe: bool,
    padded: bool,
    bytes: Seq<u8>,
)
    requires
        input == radix64::encoded(url_safe, padded, bytes),
    ensures
        radix64::decoded(as_url_safe, as_padded, input) is Some ==> radix64::decoded(
            as_url_safe,
            as_padded,
            input,
        ) == Some(bytes),
{
    if radix64::decoded(as_url_safe, as_padded, input) is Some {
        let found = choose|b: Seq<u8>| #[trigger]
            radix64::encoded(as_url_safe, as_padded, b) == input;
        radix64::law_texts_stand_for_one_thing(
            as_url_safe,
            as_padded,
            found,
            url_safe,
            padded,
            bytes,
        );
    }
}

proof fn lemma_nothing_to_compact(s: Seq<u8>)
    requires
        forall|i: int| 0 <= i < s.len() ==> #[trigger] s[i] > 32,
    ensures
        compact(s) == s,
    decreases s.len(),
{
    reveal(Seq::filter);
    if s.len() > 0 {
        let rest = s.drop_last();
        assert forall|i: int| 0 <= i < rest.len() implies #[trigger] rest[i] > 32 by {
            assert(rest[i] == s[i]);
        }
        lemma_nothing_to_compact(rest);
        assert(s.last() > 32);
        assert(s =~= rest.push(s.last()));
    }
}

/// A bundle of nothing but white space is refused.
pub proof fn law_blank_bundles_are_refused(raw: Seq<u8>)
    requires
        forall|i: int| 0 <= i < raw.len() ==> is_ascii_space(#[trigger] raw[i]),
    ensures
        bundle(raw) == Err::<Seq<u8>, _>("empty or oversized Base64 input"@),
{
    let keep = |b: u8| !is_ascii_space(b);
    if raw.filter(keep).len() > 0 {
        let kept = raw.filter(keep)[0];
        raw.lemma_filter_pred(keep, 0);
        lemma_filtered_from(raw, keep, 0);
        let i = choose|i: int| 0 <= i < raw.len() && raw[i] == kept;
        assert(is_ascii_space(raw[i]));
    }
}

proof fn lemma_filtered_from(s: Seq<u8>, keep: spec_fn(u8) -> bool, k: int)
    requires
        0 <= k < s.filter(keep).len(),
    ensures
        s.contains(s.filter(keep)[k]),
    decreases s.len(),
{
    reveal(Seq::filter);
    let rest = s.drop_last();
    if k < rest.filter(keep).len() {
        lemma_filtered_from(rest, keep, k);
        let i = choose|i: int| 0 <= i < rest.len() && rest[i] == rest.filter(keep)[k];
        assert(s[i] == s.filter(keep)[k]);
    } else {
        assert(s[s.len() - 1] == s.filter(keep)[k]);
    }
}

/// What one of the four Base64 forms decodes, and is not too long, is not refused.
pub proof fn law_decodable_bundles_are_accepted(raw: Seq<u8>, url_safe: bool, padded: bool)
    requires
        0 < compact(raw).len() <= 2 * MAX_DECODED_BYTES,
        bounded_base64(url_safe, padded, compact(raw)) is Some,
    ensures
        bundle(raw) is Ok,
{
}

/// A character that may stand in a scheme.
pub open spec fn is_scheme_char(c: char) -> bool {
    ||| 'a' <= c <= 'z'
    ||| 'A' <= c <= 'Z'
    ||| '0' <= c <= '9'
    ||| c == '+'
    ||| c == '.'
    ||| c == '-'
}

/// The scheme of an entry: what stands before `://`.
pub open spec fn scheme(s: Seq<char>) -> Option<Seq<char>> {
    match text::split_once(s, "://"@) {
        Some((head, tail)) => if head.len() > 0 && forall|i: int|
            0 <= i < head.len() ==> is_scheme_char(#[trigger] head[i]) {
            Some(head)
        } else {
            None
        },
        None => None,
    }
}

/// A scheme for which there is a parser.
pub open spec fn is_known_scheme(s: Seq<char>) -> bool {
    ||| s == "vless"@
    ||| s == "vmess"@
    ||| s == "trojan"@
    ||| s == "ss"@
    ||| s == "hysteria2"@
    ||| s == "hy2"@
    ||| s == "tuic"@
}

/// The entry has a known scheme, in whatever case.
pub open spec fn has_known_scheme(s: Seq<char>) -> bool {
    match scheme(s) {
        Some(name) => is_known_scheme(text::lower(name)),
        None => false,
    }
}

/// Some line, trimmed, has a known scheme.
pub open spec fn has_known_line(s: Seq<char>) -> bool {
    exists|i: int|
        0 <= i < text::lines(s).len() && has_known_scheme(text::trim(#[trigger] text::lines(s)[i]))
}

/// A line that opens a section of a Clash document.
pub open spec fn is_clash_line(s: Seq<char>) -> bool {
    let t = text::trim(s);
    t == "proxies:"@ || t == "proxy-groups:"@ || t == "rules:"@
}

/// Some line opens a section of a Clash document.
pub open spec fn is_clash_yaml(s: Seq<char>) -> bool {
    exists|i: int| 0 <= i < text::lines(s).len() && is_clash_line(#[trigger] text::lines(s)[i])
}

/// The text is a JSON object with outbounds or inbounds.
pub open spec fn is_singbox_json(s: Seq<char>) -> bool {
    let t = text::trim_start(s);
    t.len() > 0 && t[0] == '{' && wire::has_proxy_section(
        wire::json_tape(vstd::utf8::encode_utf8(s)),
    )
}

/// Well-known subscription container formats that are not plain URI entries.
#[derive(Clone, Copy, Debug, PartialEq, Eq, Structural)]
pub enum ContainerKind {
    ClashYaml,
    SingBoxJson,
}

/// The container format of a text.
pub open spec fn container(s: Seq<char>) -> Option<ContainerKind> {
    if is_clash_yaml(s) {
        Some(ContainerKind::ClashYaml)
    } else if is_singbox_json(s) {
        Some(ContainerKind::SingBoxJson)
    } else {
        None
    }
}

// ---------------------------------------------------------------------------
// Outside calls
// ---------------------------------------------------------------------------

/// `base64`'s `STANDARD` engine, `Engine::decode`: it decodes the texts of the standard
/// alphabet with padding, each to the bytes of which it is the text, and refuses every
/// other input (a stray symbol, bits left over, padding that is not due).
#[verifier::external_body]
fn decode_standard(input: &Vec<u8>) -> (r: Option<Vec<u8>>)
    ensures
        (match r {
            Some(d) => radix64::decoded(false, true, input@) == Some(d@),
            None => radix64::decoded(false, true, input@) is None,
        }),
{
    base64::Engine::decode(&base64::engine::general_purpose::STANDARD, input).ok()
}

/// `base64`'s `STANDARD_NO_PAD` engine, `Engine::decode`: it decodes the texts of the standard
/// alphabet without padding, each to the bytes of which it is the text, and refuses every
/// other input (a stray symbol, bits left over, padding that is not due).
#[verifier::external_body]
fn decode_standard_no_pad(input: &Vec<u8>) -> (r: Option<Vec<u8>>)
    ensures
        (match r {
            Some(d) => radix64::decoded(false, false, input@) == Some(d@),
            None => radix64::decoded(false, false, input@) is None,
        }),
{
    base64::Engine::decode(&base64::engine::general_purpose::STANDARD_NO_PAD, input).ok()
}

/// `base64`'s `URL_SAFE` engine, `Engine::decode`: it decodes the texts of the URL-safe
/// alphabet with padding, each to the bytes of which it is the text, and refuses every
/// other input (a stray symbol, bits left over, padding that is not due).
#[verifier::external_body]
fn decode_url_safe(input: &Vec<u8>) -> (r: Option<Vec<u8>>)
    ensures
        (match r {
            Some(d) => radix64::decoded(true, true, input@) == Some(d@),
            None => radix64::decoded(true, true, input@) is None,
        }),
{
    base64::Engine::decode(&base64::engine::general_purpose::URL_SAFE, input).ok()
}

/// `base64`'s `URL_SAFE_NO_PAD` engine, `Engine::decode`: it decodes the texts of the URL-safe
/// alphabet without padding, each to the bytes of which it is the text, and refuses every
/// other input (a stray symbol, bits left over, padding that is not due).
#[verifier::external_body]
fn decode_url_safe_no_pad(input: &Vec<u8>) -> (r: Option<Vec<u8>>)
    ensures
        (match r {
            Some(d) => radix64::decoded(true, false, input@) == Some(d@),
            None => radix64::decoded(true, false, input@) is None,
        }),
{
    base64::Engine::decode(&base64::engine::general_purpose::URL_SAFE_NO_PAD, input).ok()
}

// ---------------------------------------------------------------------------
// Executable forms
// ---------------------------------------------------------------------------

pub open spec fn bytes_of(v: Option<Vec<u8>>) -> Option<Seq<u8>> {
    match v {
        Some(d) => Some(d@),
        None => None,
    }
}

/// Keeps decoded bytes that are not too long.
pub fn within_limit(decoded: Option<Vec<u8>>) -> (r: Option<Vec<u8>>)
    ensures
        bytes_of(r) == bounded(bytes_of(decoded)),
{
    match decoded {
        Some(d) => if d.len() <= MAX_DECODED_BYTES {
            Some(d)
        } else {
            None
        },
        None => None,
    }
}

/// Decodes a Base64 bundle in any of the four common forms.
pub fn decode_bundle(raw: &[u8]) -> (r: Result<Vec<u8>, String>)
    ensures
        (match r {
            Ok(d) => bundle(raw@) == Ok::<_, Seq<char>>(d@),
            Err(e) => bundle(raw@) == Err::<Seq<u8>, _>(e@),
        }),
{
    let mut input: Vec<u8> = Vec::new();
    let ghost keep = |b: u8| !is_ascii_space(b);
    let mut i: usize = 0;
    while i < raw.len()
        invariant
            i <= raw@.len(),
            keep == (|b: u8| !is_ascii_space(b)),
            input@ == raw@.take(i as int).filter(keep),
        decreases raw@.len() - i,
    {
        let b: u8 = raw[i];
        proof {
            let next = raw@.take(i + 1);
            assert(next.drop_last() =~= raw@.take(i as int));
            reveal(Seq::filter);
        }
        if !(b == 32 || b == 9 || b == 10 || b == 12 || b == 13) {
            input.push(b);
        }
        i += 1;
    }
    assert(raw@.take(raw@.len() as int) =~= raw@);
    if input.len() == 0 || input.len() > 2 * MAX_DECODED_BYTES {
        return Err("empty or oversized Base64 input".to_owned());
    }
    if let Some(d) = within_limit(decode_standard(&input)) {
        return Ok(d);
    }
    if let Some(d) = within_limit(decode_standard_no_pad(&input)) {
        return Ok(d);
    }
    if let Some(d) = within_limit(decode_url_safe(&input)) {
        return Ok(d);
    }
    if let Some(d) = within_limit(decode_url_safe_no_pad(&input)) {
        return Ok(d);
    }
    Err("unsupported alphabet, padding, or input length".to_owned())
}

fn scheme_char(c: char) -> (r: bool)
    ensures
        r == is_scheme_char(c),
{
    (c >= 'a' && c <= 'z') || (c >= 'A' && c <= 'Z') || (c >= '0' && c <= '9') || c == '+' || c
        == '.' || c == '-'
}

/// The scheme of an entry.
pub(crate) fn scheme_chars<'a>(entry: &'a [char]) -> (r: Option<&'a [char]>)
    ensures
        (match r {
            Some(s) => scheme(entry@) == Some(s@),
            None => scheme(entry@) is None,
        }),
{
    let mark = text::to_chars("://");
    match text::split_once_chars(entry, &mark) {
        None => None,
        Some((head, tail)) => {
            if head.len() == 0 {
                return None;
            }
            let mut i: usize = 0;
            while i < head.len()
                invariant
                    i <= head@.len(),
                    text::split_once(entry@, "://"@) == Some((head@, tail@)),
                    forall|k: int| 0 <= k < i ==> is_scheme_char(#[trigger] head@[k]),
                decreases head@.len() - i,
            {
                if !scheme_char(head[i]) {
                    return None;
                }
                i += 1;
            }
            Some(head)
        },
    }
}

/// The scheme of an entry.
pub fn scheme_of(entry: &str) -> (r: Option<String>)
    ensures
        text::text_of(r) == scheme(entry@),
{
    let chars = text::to_chars(entry);
    match scheme_chars(&chars) {
        Some(s) => Some(text::from_chars(s)),
        None => None,
    }
}

fn known_scheme_chars(entry: &[char]) -> (r: bool)
    ensures
        r == has_known_scheme(entry@),
{
    match scheme_chars(entry) {
        None => false,
        Some(s) => {
            let name = text::from_chars(&text::lower_chars(s));
            let name = name.as_str();
            text::same(name, "vless") || text::same(name, "vmess") || text::same(name, "trojan")
                || text::same(name, "ss") || text::same(name, "hysteria2") || text::same(
                name,
                "hy2",
            ) || text::same(name, "tuic")
        },
    }
}

/// Whether there is a parser for the scheme of an entry.
pub fn is_supported_scheme(entry: &str) -> (r: bool)
    ensures
        r == has_known_scheme(entry@),
{
    known_scheme_chars(&text::to_chars(entry))
}

/// Whether bytes are a text with a line that has a known scheme.
pub fn looks_like_supported_entry(bytes: &[u8]) -> (r: bool)
    ensures
        r == (vstd::utf8::valid_utf8(bytes@) && has_known_line(vstd::utf8::decode_utf8(bytes@))),
{
    match text::from_utf8(bytes) {
        Err(_) => false,
        Ok(s) => {
            let chars = text::to_chars(s.as_str());
            let lines = text::split_lines(&chars);
            let ghost view = |l: &[char]| l@;
            let ghost model = text::lines(s@);
            assert(lines@.map_values(view) == model);
            let mut i: usize = 0;
            while i < lines.len()
                invariant
                    i <= lines@.len(),
                    view == (|l: &[char]| l@),
                    lines@.map_values(view) == model,
                    model == text::lines(s@),
                    s@ == vstd::utf8::decode_utf8(bytes@),
                    vstd::utf8::valid_utf8(bytes@),
                    forall|k: int| 0 <= k < i ==> !has_known_scheme(text::trim(#[trigger] model[k])),
                decreases lines@.len() - i,
            {
                assert(model[i as int] == lines@[i as int]@);
                if known_scheme_chars(text::trim_chars(lines[i])) {
                    return true;
                }
                i += 1;
            }
            false
        },
    }
}

/// Recognizes well-known subscription container formats.
pub fn detect_container(s: &str) -> (r: Option<ContainerKind>)
    ensures
        r == container(s@),
{
    if looks_like_clash_yaml(s) {
        return Some(ContainerKind::ClashYaml);
    }
    if looks_like_singbox_json(s) {
        return Some(ContainerKind::SingBoxJson);
    }
    None
}

/// Whether some line opens a section of a Clash document.
pub fn looks_like_clash_yaml(s: &str) -> (r: bool)
    ensures
        r == is_clash_yaml(s@),
{
    let chars = text::to_chars(s);
    let lines = text::split_lines(&chars);
    let ghost view = |l: &[char]| l@;
    let ghost model = text::lines(s@);
    assert(lines@.map_values(view) == model);
    let proxies = text::to_chars("proxies:");
    let groups = text::to_chars("proxy-groups:");
    let rules = text::to_chars("rules:");
    let mut i: usize = 0;
    while i < lines.len()
        invariant
            i <= lines@.len(),
            view == (|l: &[char]| l@),
            lines@.map_values(view) == model,
            model == text::lines(s@),
            proxies@ == "proxies:"@,
            groups@ == "proxy-groups:"@,
            rules@ == "rules:"@,
            forall|k: int| 0 <= k < i ==> !is_clash_line(#[trigger] model[k]),
        decreases lines@.len() - i,
    {
        assert(model[i as int] == lines@[i as int]@);
        let line = text::trim_chars(lines[i]);
        if text::same_chars(line, &proxies) || text::same_chars(line, &groups) || text::same_chars(
            line,
            &rules,
        ) {
            return true;
        }
        i += 1;
    }
    false
}

/// Whether a text is a JSON object with outbounds or inbounds.
pub fn looks_like_singbox_json(s: &str) -> (r: bool)
    ensures
        r == is_singbox_json(s@),
{
    let chars = text::to_chars(s);
    let trimmed = text::trim_start_chars(&chars);
    if trimmed.len() == 0 || trimmed[0] != '{' {
        return false;
    }
    match wire::read_json(s.as_bytes()) {
        Ok(nodes) => wire::holds_proxy_section(&nodes),
        Err(_) => false,
    }
}

} // verus!
