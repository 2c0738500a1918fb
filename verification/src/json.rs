//! JSON documents as plain values.
use crate::text;
use vstd::prelude::*;

verus! {

/// A JSON document.
#[derive(Debug, PartialEq, Eq)]
pub enum Json {
    Null,
    Bool(bool),
    Number(u64),
    Text(String),
    List(Vec<Json>),
    Object(JsonObject),
}

/// The members of an object in the order in which they were set. Where a name
/// occurs twice, the later member stands.
#[derive(Debug, PartialEq, Eq)]
pub struct JsonObject {
    pub entries: Vec<(String, Json)>,
}

/// What a document means: an object is a map from names to values.
pub enum JsonView {
    Null,
    Bool(bool),
    Number(u64),
    Text(Seq<char>),
    List(Seq<JsonView>),
    Object(Map<Seq<char>, JsonView>),
}

pub open spec fn json_view(j: Json) -> JsonView
    decreases j,
{
    match j {
        Json::Null => JsonView::Null,
        Json::Bool(b) => JsonView::Bool(b),
        Json::Number(n) => JsonView::Number(n),
        Json::Text(s) => JsonView::Text(s@),
        Json::List(items) => JsonView::List(list_view(items@)),
        Json::Object(object) => JsonView::Object(entries_view(object.entries@)),
    }
}

pub open spec fn list_view(s: Seq<Json>) -> Seq<JsonView>
    decreases s,
{
    if s.len() == 0 {
        Seq::empty()
    } else {
        list_view(s.drop_last()).push(json_view(s.last()))
    }
}

pub open spec fn entries_view(s: Seq<(String, Json)>) -> Map<Seq<char>, JsonView>
    decreases s,
{
    if s.len() == 0 {
        Map::empty()
    } else {
        entries_view(s.drop_last()).insert(s.last().0@, json_view(s.last().1))
    }
}

impl View for Json {
    type V = JsonView;

    open spec fn view(&self) -> JsonView {
        json_view(*self)
    }
}

impl View for JsonObject {
    type V = Map<Seq<char>, JsonView>;

    open spec fn view(&self) -> Map<Seq<char>, JsonView> {
        entries_view(self.entries@)
    }
}

/// The member of an object with a name.
pub open spec fn member(j: JsonView, name: Seq<char>) -> Option<JsonView> {
    match j {
        JsonView::Object(map) if map.dom().contains(name) => Some(map[name]),
        _ => None,
    }
}

/// The texts of a list as JSON strings.
pub open spec fn text_list(s: Seq<Seq<char>>) -> JsonView {
    JsonView::List(s.map_values(|t: Seq<char>| JsonView::Text(t)))
}

/// An optional text: null where there is none.
pub open spec fn optional_text(s: Option<Seq<char>>) -> JsonView {
    match s {
        Some(t) => JsonView::Text(t),
        None => JsonView::Null,
    }
}

pub proof fn lemma_list_view(s: Seq<Json>)
    ensures
        list_view(s).len() == s.len(),
        forall|i: int| 0 <= i < s.len() ==> #[trigger] list_view(s)[i] == json_view(s[i]),
    decreases s.len(),
{
    if s.len() > 0 {
        lemma_list_view(s.drop_last());
    }
}

impl JsonObject {
    /// An object without members.
    pub fn new() -> (r: JsonObject)
        ensures
            r@ == Map::<Seq<char>, JsonView>::empty(),
    {
        JsonObject { entries: Vec::new() }
    }

    /// Sets a member.
    pub fn set(&mut self, name: &str, value: Json)
        ensures
            final(self)@ == old(self)@.insert(name@, value@),
    {
        let ghost before = self.entries@;
        self.entries.push((name.to_owned(), value));
        assert(self.entries@.drop_last() =~= before);
    }

    /// Sets a member to a text.
    pub fn set_text(&mut self, name: &str, value: &str)
        ensures
            final(self)@ == old(self)@.insert(name@, JsonView::Text(value@)),
    {
        self.set(name, Json::Text(value.to_owned()));
    }

    /// The member with a name.
    pub fn get(&self, name: &str) -> (r: Option<&Json>)
        ensures
            (match r {
                Some(v) => self@.dom().contains(name@) && self@[name@] == v@,
                None => !self@.dom().contains(name@),
            }),
    {
        let mut i: usize = self.entries.len();
        let ghost all = self.entries@;
        assert(all.take(all.len() as int) =~= all);
        while i > 0
            invariant
                i <= all.len(),
                all == self.entries@,
                entries_view(all.take(i as int)).dom().contains(name@) == self@.dom().contains(
                    name@,
                ),
                self@.dom().contains(name@) ==> self@[name@] == entries_view(
                    all.take(i as int),
                )[name@],
            decreases i,
        {
            assert(all.take(i as int).drop_last() =~= all.take(i - 1));
            i -= 1;
            if text::same(self.entries[i].0.as_str(), name) {
                return Some(&self.entries[i].1);
            }
        }
        assert(all.take(0) =~= Seq::empty());
        None
    }
}

impl Json {
    /// The member of an object with a name.
    pub fn get(&self, name: &str) -> (r: Option<&Json>)
        ensures
            (match r {
                Some(v) => member(self@, name@) == Some(v@),
                None => member(self@, name@) is None,
            }),
    {
        match self {
            Json::Object(object) => object.get(name),
            _ => None,
        }
    }

    /// The item of a list at a position.
    pub fn at(&self, index: usize) -> (r: Option<&Json>)
        ensures
            (match r {
                Some(v) => self@ is List && index < self@->List_0.len() && self@->List_0[index as int]
                    == v@,
                None => self@ is List ==> index >= self@->List_0.len(),
            }),
    {
        match self {
            Json::List(items) => {
                proof {
                    lemma_list_view(items@);
                }
                if index < items.len() {
                    Some(&items[index])
                } else {
                    None
                }
            },
            _ => None,
        }
    }

    /// The text of a string.
    pub fn as_text(&self) -> (r: Option<&str>)
        ensures
            (match r {
                Some(s) => self@ == JsonView::Text(s@),
                None => !(self@ is Text),
            }),
    {
        match self {
            Json::Text(s) => Some(s.as_str()),
            _ => None,
        }
    }

    /// A list of one item.
    pub fn single(item: Json) -> (r: Json)
        ensures
            r@ == JsonView::List(seq![item@]),
    {
        let mut items: Vec<Json> = Vec::new();
        items.push(item);
        proof {
            lemma_list_view(items@);
            assert(list_view(items@) =~= seq![item@]);
        }
        Json::List(items)
    }

    /// A list of two items.
    pub fn pair(first: Json, second: Json) -> (r: Json)
        ensures
            r@ == JsonView::List(seq![first@, second@]),
    {
        let mut items: Vec<Json> = Vec::new();
        items.push(first);
        items.push(second);
        proof {
            lemma_list_view(items@);
            assert(list_view(items@) =~= seq![first@, second@]);
        }
        Json::List(items)
    }

    /// A list of texts.
    pub fn texts(list: &Vec<String>) -> (r: Json)
        ensures
            r@ == text_list(text::texts_of(list@)),
    {
        let mut items: Vec<Json> = Vec::new();
        let mut i: usize = 0;
        while i < list.len()
            invariant
                i <= list@.len(),
                items@.len() == i,
                forall|k: int| 0 <= k < i ==> (#[trigger] items@[k])@ == JsonView::Text(list@[k]@),
            decreases list@.len() - i,
        {
            items.push(Json::Text(list[i].clone()));
            i += 1;
        }
        proof {
            lemma_list_view(items@);
            let want = text::texts_of(list@).map_values(|t: Seq<char>| JsonView::Text(t));
            assert forall|k: int| 0 <= k < want.len() implies list_view(items@)[k] == want[k] by {
                assert(items@[k]@ == JsonView::Text(list@[k]@));
            }
            assert(list_view(items@) =~= want);
        }
        Json::List(items)
    }

    /// An optional text: null where there is none.
    pub fn optional(value: &Option<String>) -> (r: Json)
        ensures
            r@ == optional_text(text::text_of(*value)),
    {
        match value {
            Some(s) => Json::Text(s.clone()),
            None => Json::Null,
        }
    }
}

} // verus!
