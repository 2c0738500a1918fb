//! YAML documents as plain values.
use crate::text;
use vstd::prelude::*;
use vstd::string::*;

verus! {

/// A YAML value. A number keeps its text and, where it is an unsigned integer of
/// 64 bits, its value.
#[derive(Debug, PartialEq, Eq)]
pub enum Yaml {
    Null,
    Bool(bool),
    Number { shown: String, unsigned: Option<u64> },
    Text(String),
    Sequence(Vec<Yaml>),
    Mapping(Vec<(Yaml, Yaml)>),
    Tagged(Box<Yaml>),
}

/// The model of a YAML value.
pub enum YamlView {
    Null,
    Bool(bool),
    Number { shown: Seq<char>, unsigned: Option<u64> },
    Text(Seq<char>),
    Sequence(Seq<YamlView>),
    Mapping(Seq<(YamlView, YamlView)>),
    Tagged(Box<YamlView>),
}

pub open spec fn yaml_view(y: Yaml) -> YamlView
    decreases y,
{
    match y {
        Yaml::Null => YamlView::Null,
        Yaml::Bool(b) => YamlView::Bool(b),
        Yaml::Number { shown, unsigned } => YamlView::Number { shown: shown@, unsigned },
        Yaml::Text(s) => YamlView::Text(s@),
        Yaml::Sequence(items) => YamlView::Sequence(items_view(items@)),
        Yaml::Mapping(pairs) => YamlView::Mapping(mapping_view(pairs@)),
        Yaml::Tagged(inner) => YamlView::Tagged(Box::new(yaml_view(*inner))),
    }
}

pub open spec fn items_view(s: Seq<Yaml>) -> Seq<YamlView>
    decreases s,
{
    if s.len() == 0 {
        Seq::empty()
    } else {
        items_view(s.drop_last()).push(yaml_view(s.last()))
    }
}

pub open spec fn mapping_view(s: Seq<(Yaml, Yaml)>) -> Seq<(YamlView, YamlView)>
    decreases s,
{
    if s.len() == 0 {
        Seq::empty()
    } else {
        mapping_view(s.drop_last()).push((yaml_view(s.last().0), yaml_view(s.last().1)))
    }
}

impl View for Yaml {
    type V = YamlView;

    open spec fn view(&self) -> YamlView {
        yaml_view(*self)
    }
}

proof fn lemma_items_view(s: Seq<Yaml>)
    ensures
        items_view(s).len() == s.len(),
        forall|i: int| 0 <= i < s.len() ==> #[trigger] items_view(s)[i] == yaml_view(s[i]),
    decreases s.len(),
{
    if s.len() > 0 {
        lemma_items_view(s.drop_last());
    }
}

proof fn lemma_mapping_view(s: Seq<(Yaml, Yaml)>)
    ensures
        mapping_view(s).len() == s.len(),
        forall|i: int|
            0 <= i < s.len() ==> #[trigger] mapping_view(s)[i] == (
                yaml_view(s[i].0),
                yaml_view(s[i].1),
            ),
    decreases s.len(),
{
    if s.len() > 0 {
        lemma_mapping_view(s.drop_last());
    }
}

/// A value without its tags.
pub open spec fn untagged(y: YamlView) -> YamlView
    decreases y,
{
    match y {
        YamlView::Tagged(inner) => untagged(*inner),
        _ => y,
    }
}

/// The value of the first pair whose key is the given text.
pub open spec fn pair_value(s: Seq<(YamlView, YamlView)>, key: Seq<char>) -> Option<YamlView>
    decreases s.len(),
{
    if s.len() == 0 {
        None
    } else if s[0].0 == YamlView::Text(key) {
        Some(s[0].1)
    } else {
        pair_value(s.drop_first(), key)
    }
}

/// The member of a mapping.
pub open spec fn member(y: YamlView, key: Seq<char>) -> Option<YamlView> {
    match untagged(y) {
        YamlView::Mapping(pairs) => pair_value(pairs, key),
        _ => None,
    }
}

/// The member of an optional mapping.
pub open spec fn member_of(y: Option<YamlView>, key: Seq<char>) -> Option<YamlView> {
    match y {
        Some(v) => member(v, key),
        None => None,
    }
}

/// A scalar as text; anything else is empty.
pub open spec fn shown(y: YamlView) -> Seq<char> {
    match y {
        YamlView::Text(s) => s,
        YamlView::Number { shown, unsigned } => shown,
        YamlView::Bool(b) => if b {
            "true"@
        } else {
            "false"@
        },
        _ => ""@,
    }
}

/// A member as text.
pub open spec fn text_at(y: YamlView, key: Seq<char>) -> Option<Seq<char>> {
    match member(y, key) {
        Some(v) => Some(shown(v)),
        None => None,
    }
}

/// A member as a truth value.
pub open spec fn bool_at(y: YamlView, key: Seq<char>) -> Option<bool> {
    match member(y, key) {
        Some(v) => match untagged(v) {
            YamlView::Bool(b) => Some(b),
            _ => None,
        },
        None => None,
    }
}

/// A value as an unsigned number: a number, or a text that denotes one.
pub open spec fn number_of(y: YamlView) -> Option<u64> {
    match untagged(y) {
        YamlView::Number { shown, unsigned } => unsigned,
        YamlView::Text(s) => match text::unsigned_number(s, 10, u64::MAX as nat) {
            Some(v) => Some(v as u64),
            None => None,
        },
        _ => None,
    }
}

/// The document in a text, as `serde_yaml::from_str` reads it, or the text of its
/// error.
pub uninterp spec fn yaml_document(s: Seq<char>) -> Result<YamlView, Seq<char>>;

/// What a value of `serde_yaml` holds.
pub uninterp spec fn yaml_contents(value: serde_yaml::Value) -> YamlView;

/// `serde_yaml::Value`: a parsed document.
#[verifier::external_type_specification]
#[verifier::external_body]
pub struct ExYamlValue(serde_yaml::Value);

/// `serde_yaml::from_str`: the document, or the text of the error, under a name.
#[verifier::external_body]
fn load_yaml(s: &str) -> (r: Result<serde_yaml::Value, String>)
    ensures
        (match r {
            Ok(v) => yaml_document(s@) == Ok::<_, Seq<char>>(yaml_contents(v)),
            Err(e) => yaml_document(s@) == Err::<YamlView, _>(e@),
        }),
{
    serde_yaml::from_str(s).map_err(|error| error.to_string())
}

/// The variants of `serde_yaml::Value` one for one, with `Number::to_string` and
/// `Number::as_u64` for a number; a tag's name is not kept.
#[verifier::external_body]
fn plain_yaml(value: serde_yaml::Value) -> (r: Yaml)
    ensures
        r@ == yaml_contents(value),
{
    match value {
        serde_yaml::Value::Null => Yaml::Null,
        serde_yaml::Value::Bool(b) => Yaml::Bool(b),
        serde_yaml::Value::Number(n) => Yaml::Number { shown: n.to_string(), unsigned: n.as_u64() },
        serde_yaml::Value::String(s) => Yaml::Text(s),
        serde_yaml::Value::Sequence(items) => {
            Yaml::Sequence(items.into_iter().map(plain_yaml).collect())
        },
        serde_yaml::Value::Mapping(pairs) => Yaml::Mapping(
            pairs.into_iter().map(|(k, v)| (plain_yaml(k), plain_yaml(v))).collect(),
        ),
        serde_yaml::Value::Tagged(tagged) => Yaml::Tagged(Box::new(plain_yaml(tagged.value))),
    }
}

/// Reads a document.
pub fn read_yaml(s: &str) -> (r: Result<Yaml, String>)
    ensures
        (match r {
            Ok(v) => yaml_document(s@) == Ok::<_, Seq<char>>(v@),
            Err(e) => yaml_document(s@) == Err::<YamlView, _>(e@),
        }),
{
    match load_yaml(s) {
        Ok(v) => Ok(plain_yaml(v)),
        Err(e) => Err(e),
    }
}

pub open spec fn optional_view(y: Option<&Yaml>) -> Option<YamlView> {
    match y {
        Some(v) => Some(v@),
        None => None,
    }
}

impl Yaml {
    /// The value without its tags.
    pub fn untag(&self) -> (r: &Yaml)
        ensures
            r@ == untagged(self@),
        decreases self,
    {
        match self {
            Yaml::Tagged(inner) => inner.untag(),
            _ => self,
        }
    }

    /// The member of a mapping.
    pub fn get(&self, key: &str) -> (r: Option<&Yaml>)
        ensures
            optional_view(r) == member(self@, key@),
    {
        match self.untag() {
            Yaml::Mapping(pairs) => {
                proof {
                    lemma_mapping_view(pairs@);
                }
                let ghost all = mapping_view(pairs@);
                let mut i: usize = 0;
                assert(all.skip(0) =~= all);
                while i < pairs.len()
                    invariant
                        i <= pairs@.len(),
                        all == mapping_view(pairs@),
                        all.len() == pairs@.len(),
                        forall|k: int|
                            0 <= k < pairs@.len() ==> #[trigger] all[k] == (
                                yaml_view(pairs@[k].0),
                                yaml_view(pairs@[k].1),
                            ),
                        member(self@, key@) == pair_value(all.skip(i as int), key@),
                    decreases pairs@.len() - i,
                {
                    assert(all.skip(i as int)[0] == all[i as int]);
                    assert(all.skip(i as int).drop_first() =~= all.skip(i + 1));
                    let matches_key = match &pairs[i].0 {
                        Yaml::Text(s) => text::same(s.as_str(), key),
                        _ => false,
                    };
                    if matches_key {
                        return Some(&pairs[i].1);
                    }
                    i += 1;
                }
                assert(all.skip(i as int) =~= Seq::empty());
                None
            },
            _ => None,
        }
    }

    /// The scalar as text.
    pub fn to_text(&self) -> (r: String)
        ensures
            r@ == shown(self@),
    {
        match self {
            Yaml::Text(s) => s.clone(),
            Yaml::Number { shown, .. } => shown.clone(),
            Yaml::Bool(b) => if *b {
                "true".to_owned()
            } else {
                "false".to_owned()
            },
            _ => "".to_owned(),
        }
    }

    /// A member as text.
    pub fn string_at(&self, key: &str) -> (r: Option<String>)
        ensures
            text::text_of(r) == text_at(self@, key@),
    {
        match self.get(key) {
            Some(v) => Some(v.to_text()),
            None => None,
        }
    }

    /// A member as a truth value.
    pub fn bool_at(&self, key: &str) -> (r: Option<bool>)
        ensures
            r == bool_at(self@, key@),
    {
        match self.get(key) {
            Some(v) => match v.untag() {
                Yaml::Bool(b) => Some(*b),
                _ => None,
            },
            None => None,
        }
    }

    /// The value as an unsigned number.
    pub fn number(&self) -> (r: Option<u64>)
        ensures
            r == number_of(self@),
    {
        match self.untag() {
            Yaml::Number { unsigned, .. } => *unsigned,
            Yaml::Text(s) => text::read_unsigned(&text::to_chars(s.as_str()), 10, u64::MAX),
            _ => None,
        }
    }

    /// The texts among the items of a sequence.
    pub fn texts(&self) -> (r: Vec<String>)
        ensures
            text::texts_of(r@) == sequence_texts(self@),
    {
        let mut out: Vec<String> = Vec::new();
        assert(text::texts_of(out@) =~= Seq::<Seq<char>>::empty());
        match self.untag() {
            Yaml::Sequence(items) => {
                proof {
                    lemma_items_view(items@);
                }
                let ghost all = items_view(items@);
                let mut i: usize = 0;
                while i < items.len()
                    invariant
                        i <= items@.len(),
                        all == items_view(items@),
                        all.len() == items@.len(),
                        forall|k: int|
                            0 <= k < items@.len() ==> #[trigger] all[k] == yaml_view(items@[k]),
                        text::texts_of(out@) == item_texts(all.take(i as int)),
                    decreases items@.len() - i,
                {
                    let ghost before = text::texts_of(out@);
                    assert(all.take(i + 1).drop_last() =~= all.take(i as int));
                    assert(all.take(i + 1).last() == items@[i as int]@);
                    match items[i].untag() {
                        Yaml::Text(s) => {
                            out.push(s.clone());
                            assert(text::texts_of(out@) =~= before.push(s@));
                        },
                        _ => {},
                    }
                    i += 1;
                }
                assert(all.take(all.len() as int) =~= all);
            },
            _ => {},
        }
        out
    }

    /// The items of a sequence.
    pub fn items(&self) -> (r: Option<&Vec<Yaml>>)
        ensures
            (match r {
                Some(v) => untagged(self@) == YamlView::Sequence(v@.map_values(|y: Yaml| y@)),
                None => !(untagged(self@) is Sequence),
            }),
    {
        match self.untag() {
            Yaml::Sequence(items) => {
                proof {
                    lemma_items_view(items@);
                    assert(items_view(items@) =~= items@.map_values(|y: Yaml| y@));
                }
                Some(items)
            },
            _ => None,
        }
    }
}

/// The texts among values.
pub open spec fn item_texts(s: Seq<YamlView>) -> Seq<Seq<char>>
    decreases s.len(),
{
    if s.len() == 0 {
        Seq::empty()
    } else {
        match untagged(s.last()) {
            YamlView::Text(t) => item_texts(s.drop_last()).push(t),
            _ => item_texts(s.drop_last()),
        }
    }
}

/// The texts among the items of a sequence; anything else has none.
pub open spec fn sequence_texts(y: YamlView) -> Seq<Seq<char>> {
    match untagged(y) {
        YamlView::Sequence(items) => item_texts(items),
        _ => Seq::empty(),
    }
}

} // verus!
