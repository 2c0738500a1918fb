//! What telling a label's country promises.
use crate::laws::names;
use crate::parser::metadata;
use crate::text;
use vstd::prelude::*;

verus! {

/// The character is a regional indicator symbol.
pub open spec fn is_flag_letter(c: char) -> bool {
    0x1F1E6 <= c as u32 <= 0x1F1FF
}

/// The first two regional indicator symbols of a label spell its country, wherever they
/// stand; other characters between them do not matter.
pub proof fn law_flags_tell_the_country(label: Seq<char>, i: int, j: int)
    requires
        0 <= i < j < label.len(),
        is_flag_letter(label[i]),
        is_flag_letter(label[j]),
        forall|k: int| 0 <= k < j && k != i ==> !is_flag_letter(#[trigger] label[k]),
    ensures
        metadata::country_code(label)[0] == 65 + (label[i] as u32 - 0x1F1E6),
        metadata::country_code(label)[1] == 65 + (label[j] as u32 - 0x1F1E6),
{
    lemma_flag_letters(label, i, j, label.len());
    assert(label.take(label.len() as int) =~= label);
}

proof fn lemma_flag_letters(label: Seq<char>, i: int, j: int, n: nat)
    requires
        0 <= i < j < label.len(),
        n <= label.len(),
        is_flag_letter(label[i]),
        is_flag_letter(label[j]),
        forall|k: int| 0 <= k < j && k != i ==> !is_flag_letter(#[trigger] label[k]),
    ensures
        ({
            let found = metadata::indicators(label.take(n as int));
            &&& n <= i ==> found.len() == 0
            &&& i < n <= j ==> found.len() == 1
            &&& j < n ==> found.len() >= 2 && found[1] == 65 + (label[j] as u32 - 0x1F1E6)
            &&& i < n ==> found[0] == 65 + (label[i] as u32 - 0x1F1E6)
        }),
    decreases n,
{
    let s = label.take(n as int);
    if n > 0 {
        lemma_flag_letters(label, i, j, (n - 1) as nat);
        assert(s.drop_last() =~= label.take(n - 1));
        assert(s.last() == label[n - 1]);
    }
}

proof fn lemma_no_flag(label: Seq<char>, i: int, n: nat)
    requires
        n <= label.len(),
        forall|k: int| 0 <= k < label.len() && k != i ==> !is_flag_letter(#[trigger] label[k]),
    ensures
        metadata::indicators(label.take(n as int)).len() <= if 0 <= i < n {
            1int
        } else {
            0
        },
    decreases n,
{
    let s = label.take(n as int);
    if n > 0 {
        lemma_no_flag(label, i, (n - 1) as nat);
        assert(s.drop_last() =~= label.take(n - 1));
        assert(s.last() == label[n - 1]);
    }
}

/// Two upper-case letters in brackets or parentheses stand at the position.
pub open spec fn is_tag(bytes: Seq<u8>, k: int) -> bool {
    &&& 0 <= k && k + 3 < bytes.len()
    &&& (bytes[k] == '[' as u8 && bytes[k + 3] == ']' as u8) || (bytes[k] == '(' as u8 && bytes[k
        + 3] == ')' as u8)
    &&& 'A' as u8 <= bytes[k + 1] <= 'Z' as u8
    &&& 'A' as u8 <= bytes[k + 2] <= 'Z' as u8
}

/// A label without a flag, with at most one regional indicator symbol, is of the country
/// of its first tag: two upper-case letters in brackets or parentheses.
pub proof fn law_tags_tell_the_country(label: Seq<char>, only: int, k: int)
    requires
        forall|x: int| 0 <= x < label.len() && x != only ==> !is_flag_letter(#[trigger] label[x]),
        is_tag(vstd::utf8::encode_utf8(label), k),
        forall|x: int| 0 <= x < k ==> !#[trigger] is_tag(vstd::utf8::encode_utf8(label), x),
    ensures
        metadata::country_code(label)[0] == vstd::utf8::encode_utf8(label)[k + 1],
        metadata::country_code(label)[1] == vstd::utf8::encode_utf8(label)[k + 2],
{
    lemma_no_flag(label, only, label.len());
    assert(label.take(label.len() as int) =~= label);
    lemma_tag(vstd::utf8::encode_utf8(label), 0, k);
}

proof fn lemma_tag(bytes: Seq<u8>, from: int, k: int)
    requires
        0 <= from <= k,
        is_tag(bytes, k),
        forall|x: int| from <= x < k ==> !#[trigger] is_tag(bytes, x),
    ensures
        metadata::tag_from(bytes, from) is Some,
        metadata::tag_from(bytes, from)->0[0] == bytes[k + 1],
        metadata::tag_from(bytes, from)->0[1] == bytes[k + 2],
    decreases k - from,
{
    if from < k {
        assert(!is_tag(bytes, from));
        lemma_tag(bytes, from + 1, k);
    }
}

proof fn lemma_no_tag(bytes: Seq<u8>, from: int)
    requires
        0 <= from,
        forall|x: int| from <= x ==> !#[trigger] is_tag(bytes, x),
    ensures
        metadata::tag_from(bytes, from) is None,
    decreases bytes.len() - from,
{
    if from < bytes.len() {
        assert(!is_tag(bytes, from));
        lemma_no_tag(bytes, from + 1);
    }
}

/// The country in which a place lies.
pub open spec fn country_of(place: Seq<char>) -> (char, char) {
    if place == "tokyo"@ || place == "osaka"@ || place == "japan"@ {
        ('J', 'P')
    } else if place == "hong kong"@ {
        ('H', 'K')
    } else if place == "taiwan"@ || place == "taipei"@ {
        ('T', 'W')
    } else if place == "singapore"@ {
        ('S', 'G')
    } else if place == "korea"@ || place == "seoul"@ {
        ('K', 'R')
    } else if place == "frankfurt"@ || place == "germany"@ || place == "deutschland"@ {
        ('D', 'E')
    } else if place == "amsterdam"@ || place == "netherlands"@ {
        ('N', 'L')
    } else if place == "paris"@ || place == "france"@ {
        ('F', 'R')
    } else if place == "london"@ || place == "united kingdom"@ {
        ('G', 'B')
    } else if place == "new york"@ || place == "los angeles"@ || place == "chicago"@ || place == "seattle"@ || place == "dallas"@ || place == "san jose"@ || place == "united states"@ || place == "usa"@ {
        ('U', 'S')
    } else if place == "sydney"@ || place == "australia"@ {
        ('A', 'U')
    } else if place == "bangkok"@ || place == "thailand"@ {
        ('T', 'H')
    } else if place == "vietnam"@ || place == "hanoi"@ || place == "ho chi minh"@ {
        ('V', 'N')
    } else if place == "moscow"@ || place == "russia"@ {
        ('R', 'U')
    } else if place == "mumbai"@ || place == "india"@ {
        ('I', 'N')
    } else if place == "dubai"@ {
        ('A', 'E')
    } else if place == "istanbul"@ || place == "turkey"@ {
        ('T', 'R')
    } else if place == "madrid"@ || place == "spain"@ {
        ('E', 'S')
    } else if place == "helsinki"@ || place == "finland"@ {
        ('F', 'I')
    } else if place == "stockholm"@ || place == "sweden"@ {
        ('S', 'E')
    } else if place == "oslo"@ || place == "norway"@ {
        ('N', 'O')
    } else if place == "copenhagen"@ || place == "denmark"@ {
        ('D', 'K')
    } else if place == "warsaw"@ || place == "poland"@ {
        ('P', 'L')
    } else if place == "prague"@ {
        ('C', 'Z')
    } else if place == "toronto"@ || place == "vancouver"@ || place == "montreal"@ || place == "canada"@ {
        ('C', 'A')
    } else if place == "sao paulo"@ || place == "brazil"@ {
        ('B', 'R')
    } else if place == "chile"@ {
        ('C', 'L')
    } else if place == "argentina"@ {
        ('A', 'R')
    } else if place == "kuala lumpur"@ || place == "malaysia"@ {
        ('M', 'Y')
    } else if place == "jakarta"@ || place == "indonesia"@ {
        ('I', 'D')
    } else if place == "manila"@ || place == "philippines"@ {
        ('P', 'H')
    } else {
        ('U', 'N')
    }
}

/// A label with neither a flag nor a tag is of the country of the first place that it
/// names, in whatever case; one that names no known place is of no known country.
pub proof fn law_places_tell_the_country(label: Seq<char>, only: int, n: int)
    requires
        forall|x: int| 0 <= x < label.len() && x != only ==> !is_flag_letter(#[trigger] label[x]),
        forall|x: int| 0 <= x ==> !#[trigger] is_tag(vstd::utf8::encode_utf8(label), x),
    ensures
        0 <= n < metadata::country_keywords().len() && text::contains(
            text::lower(label),
            metadata::country_keywords()[n].0@,
        ) && (forall|k: int|
            0 <= k < n ==> !text::contains(
                text::lower(label),
                (#[trigger] metadata::country_keywords()[k]).0@,
            )) ==> {
            let (a, b) = country_of(metadata::country_keywords()[n].0@);
            metadata::country_code(label)[0] == a as u8 && metadata::country_code(label)[1]
                == b as u8
        },
        (forall|k: int|
            0 <= k < metadata::country_keywords().len() ==> !text::contains(
                text::lower(label),
                (#[trigger] metadata::country_keywords()[k]).0@,
            )) ==> metadata::country_code(label)[0] == 'U' as u8 && metadata::country_code(
            label,
        )[1] == 'N' as u8,
{
    lemma_no_flag(label, only, label.len());
    assert(label.take(label.len() as int) =~= label);
    lemma_no_tag(vstd::utf8::encode_utf8(label), 0);
    if forall|k: int|
        0 <= k < n ==> !text::contains(
            text::lower(label),
            (#[trigger] metadata::country_keywords()[k]).0@,
        ) {
        if 0 <= n < metadata::country_keywords().len() && text::contains(
            text::lower(label),
            metadata::country_keywords()[n].0@,
        ) {
            lemma_keyword(text::lower(label), 0, n);
            lemma_countries(n);
        }
    }
    if forall|k: int|
        0 <= k < metadata::country_keywords().len() ==> !text::contains(
            text::lower(label),
            (#[trigger] metadata::country_keywords()[k]).0@,
        ) {
        lemma_no_keyword(text::lower(label), 0);
    }
}

proof fn lemma_keyword(s: Seq<char>, from: nat, n: int)
    requires
        from <= n < metadata::country_keywords().len(),
        text::contains(s, metadata::country_keywords()[n].0@),
        forall|k: int|
            from <= k < n ==> !text::contains(s, (#[trigger] metadata::country_keywords()[k]).0@),
    ensures
        metadata::keyword_code(s, from) == metadata::country_keywords()[n].1,
    decreases n - from,
{
    if from < n {
        assert(!text::contains(s, metadata::country_keywords()[from as int].0@));
        lemma_keyword(s, from + 1, n);
    }
}

proof fn lemma_no_keyword(s: Seq<char>, from: nat)
    requires
        forall|k: int|
            0 <= k < metadata::country_keywords().len() ==> !text::contains(
                s,
                (#[trigger] metadata::country_keywords()[k]).0@,
            ),
    ensures
        metadata::keyword_code(s, from)[0] == 'U' as u8,
        metadata::keyword_code(s, from)[1] == 'N' as u8,
    decreases metadata::country_keywords().len() - from,
{
    if from < metadata::country_keywords().len() {
        assert(!text::contains(s, metadata::country_keywords()[from as int].0@));
        lemma_no_keyword(s, from + 1);
    }
}

/// The table of places has each of them in its country.
#[verifier::rlimit(60)]
proof fn lemma_countries(n: int)
    requires
        0 <= n < metadata::country_keywords().len(),
    ensures
        ({
            let (a, b) = country_of(metadata::country_keywords()[n].0@);
            metadata::country_keywords()[n].1[0] == a as u8 && metadata::country_keywords()[n].1[1]
                == b as u8
        }),
{
    names::lemma_place_names();
}

} // verus!
