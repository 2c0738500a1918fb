//! Country codes from node labels.
use crate::ir::node::{is_country_code, NodeMetadata, SubId};
use crate::parser::error::ParseError;
use crate::text;
use vstd::prelude::*;
use vstd::string::*;

verus! {

// ---------------------------------------------------------------------------
// Model
// ---------------------------------------------------------------------------

/// The letter of a regional indicator symbol.
pub open spec fn indicator(c: char) -> Option<u8> {
    let v = c as u32;
    if 0x1F1E6 <= v <= 0x1F1FF {
        Some((65 + (v - 0x1F1E6)) as u8)
    } else {
        None
    }
}

/// The letters of the regional indicators in a label, in order.
pub open spec fn indicators(s: Seq<char>) -> Seq<u8>
    decreases s.len(),
{
    if s.len() == 0 {
        Seq::empty()
    } else {
        match indicator(s.last()) {
            Some(letter) => indicators(s.drop_last()).push(letter),
            None => indicators(s.drop_last()),
        }
    }
}

/// The code that the first two regional indicators spell.
pub open spec fn emoji_letters(s: Seq<char>) -> Option<[u8; 2]> {
    let found = indicators(s);
    if found.len() >= 2 {
        Some([found[0], found[1]])
    } else {
        None
    }
}

/// The closing bracket for an opening one.
pub open spec fn closing(b: u8) -> Option<u8> {
    if b == 91 {
        Some(93u8)
    } else if b == 40 {
        Some(41u8)
    } else {
        None
    }
}

/// The code between the bracket at position `i` and its closing bracket: two
/// upper-case letters.
pub open spec fn tag_at(s: Seq<u8>, i: int) -> Option<[u8; 2]> {
    match closing(s[i]) {
        Some(close) => if i + 3 < s.len() && s[i + 3] == close && is_country_code(
            [s[i + 1], s[i + 2]],
        ) {
            Some([s[i + 1], s[i + 2]])
        } else {
            None
        },
        None => None,
    }
}

/// The first code between brackets from position `i` on.
pub open spec fn tag_from(s: Seq<u8>, i: int) -> Option<[u8; 2]>
    decreases s.len() - i,
{
    if i < 0 || i >= s.len() {
        None
    } else {
        match tag_at(s, i) {
            Some(code) => Some(code),
            None => tag_from(s, i + 1),
        }
    }
}

/// Names of places and the codes of their countries.
pub open spec fn country_keywords() -> Seq<(&'static str, [u8; 2])> {
    seq![
        ("tokyo", [74u8, 80u8]),
        ("osaka", [74u8, 80u8]),
        ("japan", [74u8, 80u8]),
        ("hong kong", [72u8, 75u8]),
        ("taiwan", [84u8, 87u8]),
        ("taipei", [84u8, 87u8]),
        ("singapore", [83u8, 71u8]),
        ("korea", [75u8, 82u8]),
        ("seoul", [75u8, 82u8]),
        ("frankfurt", [68u8, 69u8]),
        ("germany", [68u8, 69u8]),
        ("deutschland", [68u8, 69u8]),
        ("amsterdam", [78u8, 76u8]),
        ("netherlands", [78u8, 76u8]),
        ("paris", [70u8, 82u8]),
        ("france", [70u8, 82u8]),
        ("london", [71u8, 66u8]),
        ("united kingdom", [71u8, 66u8]),
        ("new york", [85u8, 83u8]),
        ("los angeles", [85u8, 83u8]),
        ("chicago", [85u8, 83u8]),
        ("seattle", [85u8, 83u8]),
        ("dallas", [85u8, 83u8]),
        ("san jose", [85u8, 83u8]),
        ("united states", [85u8, 83u8]),
        ("usa", [85u8, 83u8]),
        ("sydney", [65u8, 85u8]),
        ("australia", [65u8, 85u8]),
        ("bangkok", [84u8, 72u8]),
        ("thailand", [84u8, 72u8]),
        ("vietnam", [86u8, 78u8]),
        ("hanoi", [86u8, 78u8]),
        ("ho chi minh", [86u8, 78u8]),
        ("moscow", [82u8, 85u8]),
        ("russia", [82u8, 85u8]),
        ("mumbai", [73u8, 78u8]),
        ("india", [73u8, 78u8]),
        ("dubai", [65u8, 69u8]),
        ("istanbul", [84u8, 82u8]),
        ("turkey", [84u8, 82u8]),
        ("madrid", [69u8, 83u8]),
        ("spain", [69u8, 83u8]),
        ("helsinki", [70u8, 73u8]),
        ("finland", [70u8, 73u8]),
        ("stockholm", [83u8, 69u8]),
        ("sweden", [83u8, 69u8]),
        ("oslo", [78u8, 79u8]),
        ("norway", [78u8, 79u8]),
        ("copenhagen", [68u8, 75u8]),
        ("denmark", [68u8, 75u8]),
        ("warsaw", [80u8, 76u8]),
        ("poland", [80u8, 76u8]),
        ("prague", [67u8, 90u8]),
        ("toronto", [67u8, 65u8]),
        ("vancouver", [67u8, 65u8]),
        ("montreal", [67u8, 65u8]),
        ("canada", [67u8, 65u8]),
        ("sao paulo", [66u8, 82u8]),
        ("brazil", [66u8, 82u8]),
        ("chile", [67u8, 76u8]),
        ("argentina", [65u8, 82u8]),
        ("kuala lumpur", [77u8, 89u8]),
        ("malaysia", [77u8, 89u8]),
        ("jakarta", [73u8, 68u8]),
        ("indonesia", [73u8, 68u8]),
        ("manila", [80u8, 72u8]),
        ("philippines", [80u8, 72u8]),
    ]
}

/// The code of the first keyword that stands in a text.
pub open spec fn keyword_code(s: Seq<char>, n: nat) -> [u8; 2]
    decreases country_keywords().len() - n,
{
    if n >= country_keywords().len() {
        [85u8, 78u8]
    } else if text::contains(s, country_keywords()[n as int].0@) {
        country_keywords()[n as int].1
    } else {
        keyword_code(s, n + 1)
    }
}

/// The country code of a label: a pair of regional indicators, else a bracketed
/// tag, else a known place, else `UN`.
pub open spec fn country_code(label: Seq<char>) -> [u8; 2] {
    match emoji_letters(label) {
        Some(code) => code,
        None => match tag_from(vstd::utf8::encode_utf8(label), 0) {
            Some(code) => code,
            None => keyword_code(text::lower(label), 0),
        },
    }
}

/// The metadata for a label.
pub open spec fn metadata(sub_id: SubId, label: Seq<char>, import_timestamp: u64) -> NodeMetadata<
    Seq<char>,
> {
    NodeMetadata { sub_id, label, country_code: country_code(label), import_timestamp }
}

// ---------------------------------------------------------------------------
// Laws
// ---------------------------------------------------------------------------

/// Every label has a country code of two upper-case letters.
pub proof fn law_country_codes_are_upper_case(label: Seq<char>)
    ensures
        is_country_code(country_code(label)),
{
    lemma_indicators(label);
    lemma_tag_from(vstd::utf8::encode_utf8(label), 0);
    lemma_keyword_code(text::lower(label), 0);
}

proof fn lemma_indicators(s: Seq<char>)
    ensures
        forall|i: int| 0 <= i < indicators(s).len() ==> 65 <= #[trigger] indicators(s)[i] <= 90,
    decreases s.len(),
{
    if s.len() > 0 {
        let before = indicators(s.drop_last());
        lemma_indicators(s.drop_last());
        match indicator(s.last()) {
            Some(letter) => {
                assert(indicators(s) == before.push(letter));
                assert forall|i: int| 0 <= i < indicators(s).len() implies 65 <= #[trigger] indicators(
                    s,
                )[i] <= 90 by {
                    if i < before.len() {
                        assert(indicators(s)[i] == before[i]);
                    }
                }
            },
            None => {},
        }
    }
}

proof fn lemma_tag_from(s: Seq<u8>, i: int)
    ensures
        tag_from(s, i) matches Some(code) ==> is_country_code(code),
    decreases s.len() - i,
{
    if 0 <= i < s.len() {
        lemma_tag_from(s, i + 1);
    }
}

proof fn lemma_keyword_code(s: Seq<char>, n: nat)
    ensures
        is_country_code(keyword_code(s, n)),
    decreases country_keywords().len() - n,
{
    if n < country_keywords().len() {
        lemma_keyword_code(s, n + 1);
        lemma_keywords_are_codes(n as int);
    }
}

proof fn lemma_keywords_are_codes(i: int)
    requires
        0 <= i < country_keywords().len(),
    ensures
        is_country_code(country_keywords()[i].1),
{
}

// ---------------------------------------------------------------------------
// Executable forms
// ---------------------------------------------------------------------------

/// The table of places.
fn keyword_table() -> (r: Vec<(&'static str, [u8; 2])>)
    ensures
        r@ == country_keywords(),
{
    let r = vec![
        ("tokyo", [74u8, 80u8]),
        ("osaka", [74u8, 80u8]),
        ("japan", [74u8, 80u8]),
        ("hong kong", [72u8, 75u8]),
        ("taiwan", [84u8, 87u8]),
        ("taipei", [84u8, 87u8]),
        ("singapore", [83u8, 71u8]),
        ("korea", [75u8, 82u8]),
        ("seoul", [75u8, 82u8]),
        ("frankfurt", [68u8, 69u8]),
        ("germany", [68u8, 69u8]),
        ("deutschland", [68u8, 69u8]),
        ("amsterdam", [78u8, 76u8]),
        ("netherlands", [78u8, 76u8]),
        ("paris", [70u8, 82u8]),
        ("france", [70u8, 82u8]),
        ("london", [71u8, 66u8]),
        ("united kingdom", [71u8, 66u8]),
        ("new york", [85u8, 83u8]),
        ("los angeles", [85u8, 83u8]),
        ("chicago", [85u8, 83u8]),
        ("seattle", [85u8, 83u8]),
        ("dallas", [85u8, 83u8]),
        ("san jose", [85u8, 83u8]),
        ("united states", [85u8, 83u8]),
        ("usa", [85u8, 83u8]),
        ("sydney", [65u8, 85u8]),
        ("australia", [65u8, 85u8]),
        ("bangkok", [84u8, 72u8]),
        ("thailand", [84u8, 72u8]),
        ("vietnam", [86u8, 78u8]),
        ("hanoi", [86u8, 78u8]),
        ("ho chi minh", [86u8, 78u8]),
        ("moscow", [82u8, 85u8]),
        ("russia", [82u8, 85u8]),
        ("mumbai", [73u8, 78u8]),
        ("india", [73u8, 78u8]),
        ("dubai", [65u8, 69u8]),
        ("istanbul", [84u8, 82u8]),
        ("turkey", [84u8, 82u8]),
        ("madrid", [69u8, 83u8]),
        ("spain", [69u8, 83u8]),
        ("helsinki", [70u8, 73u8]),
        ("finland", [70u8, 73u8]),
        ("stockholm", [83u8, 69u8]),
        ("sweden", [83u8, 69u8]),
        ("oslo", [78u8, 79u8]),
        ("norway", [78u8, 79u8]),
        ("copenhagen", [68u8, 75u8]),
        ("denmark", [68u8, 75u8]),
        ("warsaw", [80u8, 76u8]),
        ("poland", [80u8, 76u8]),
        ("prague", [67u8, 90u8]),
        ("toronto", [67u8, 65u8]),
        ("vancouver", [67u8, 65u8]),
        ("montreal", [67u8, 65u8]),
        ("canada", [67u8, 65u8]),
        ("sao paulo", [66u8, 82u8]),
        ("brazil", [66u8, 82u8]),
        ("chile", [67u8, 76u8]),
        ("argentina", [65u8, 82u8]),
        ("kuala lumpur", [77u8, 89u8]),
        ("malaysia", [77u8, 89u8]),
        ("jakarta", [73u8, 68u8]),
        ("indonesia", [73u8, 68u8]),
        ("manila", [80u8, 72u8]),
        ("philippines", [80u8, 72u8]),
    ];
    assert(r@ =~= country_keywords());
    r
}

/// Extracts a country code from a node label.
pub fn extract_country_code(label: &str) -> (r: [u8; 2])
    ensures
        r == country_code(label@),
        is_country_code(r),
{
    proof {
        law_country_codes_are_upper_case(label@);
    }
    if let Some(code) = emoji_code(label) {
        return code;
    }
    if let Some(code) = bracket_code(label) {
        return code;
    }
    let lowered = text::lower_chars(&text::to_chars(label));
    let table = keyword_table();
    let mut i: usize = 0;
    while i < table.len()
        invariant
            i <= table@.len(),
            table@ == country_keywords(),
            lowered@ == text::lower(label@),
            emoji_letters(label@) is None,
            tag_from(vstd::utf8::encode_utf8(label@), 0) is None,
            keyword_code(lowered@, 0) == keyword_code(lowered@, i as nat),
        decreases table@.len() - i,
    {
        let keyword = text::to_chars(table[i].0);
        if text::contains_chars(&lowered, &keyword) {
            return table[i].1;
        }
        i += 1;
    }
    [85, 78]
}

/// The code that regional indicators spell.
pub fn emoji_code(label: &str) -> (r: Option<[u8; 2]>)
    ensures
        r == emoji_letters(label@),
{
    let chars = text::to_chars(label);
    let mut found: Vec<u8> = Vec::new();
    let mut i: usize = 0;
    while i < chars.len()
        invariant
            i <= chars@.len(),
            chars@ == label@,
            found@ == indicators(chars@.take(i as int)),
        decreases chars@.len() - i,
    {
        let v: u32 = chars[i] as u32;
        assert(chars@.take(i + 1).drop_last() =~= chars@.take(i as int));
        if v >= 0x1F1E6 && v <= 0x1F1FF {
            found.push((65 + (v - 0x1F1E6)) as u8);
        }
        i += 1;
    }
    assert(chars@.take(chars@.len() as int) =~= chars@);
    if found.len() >= 2 {
        Some([found[0], found[1]])
    } else {
        None
    }
}

/// The code in a bracketed tag.
pub fn bracket_code(label: &str) -> (r: Option<[u8; 2]>)
    ensures
        r == tag_from(vstd::utf8::encode_utf8(label@), 0),
{
    let bytes = label.as_bytes();
    let len: usize = bytes.len();
    let mut i: usize = 0;
    while i < len
        invariant
            i <= len,
            len == bytes@.len(),
            bytes@ == vstd::utf8::encode_utf8(label@),
            tag_from(bytes@, 0) == tag_from(bytes@, i as int),
        decreases len - i,
    {
        let open: u8 = bytes[i];
        if (open == 91 || open == 40) && len - i > 3 {
            let close: u8 = if open == 91 {
                93
            } else {
                41
            };
            let a: u8 = bytes[i + 1];
            let b: u8 = bytes[i + 2];
            if bytes[i + 3] == close && a >= 65 && a <= 90 && b >= 65
                && b <= 90 {
                return Some([a, b]);
            }
        }
        i += 1;
    }
    None
}

/// The metadata for a label.
pub fn make_metadata(sub_id: SubId, label: &str, import_timestamp: u64) -> (r: Result<
    NodeMetadata,
    ParseError,
>)
    ensures
        r matches Ok(meta) && meta@ == metadata(sub_id, label@, import_timestamp),
{
    match NodeMetadata::new(sub_id, label, extract_country_code(label), import_timestamp) {
        Ok(meta) => Ok(meta),
        Err(e) => Err(
            ParseError::InvalidValue { field: "metadata", value: e.message().to_owned() },
        ),
    }
}

} // verus!
