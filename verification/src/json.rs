//! JSON values: what they hold, how members are read and objects are built.
use vstd::prelude::*;

use crate::text::same;

verus! {

/// A `serde_json` number, carried through where no rule of this library reads it.
#[verifier::external_type_specification]
#[verifier::external_body]
pub struct ExNumber(serde_json::Number);

/// `serde_json::Number::clone`: the clone is the same number.
pub assume_specification[ <serde_json::Number as Clone>::clone ](n: &serde_json::Number) -> (r:
    serde_json::Number)
    ensures
        r == *n,
;

/// A number that is no 64-bit integer. Only the reader of JSON text makes one.
#[derive(Debug)]
pub struct Decimal {
    pub(crate) number: serde_json::Number,
}

impl Decimal {
    /// The same number.
    fn duplicate(&self) -> (r: Decimal)
        ensures
            r == *self,
    {
        Decimal { number: self.number.clone() }
    }
}

/// A JSON value.
#[derive(Debug)]
pub enum Json {
    Null,
    Bool(bool),
    Unsigned(u64),
    Signed(i64),
    Decimal(Decimal),
    Text(String),
    Array(Vec<Json>),
    Object(JsonObject),
}

/// The members of a JSON object; where two share a key, the later counts.
#[derive(Debug)]
pub struct JsonObject {
    pub(crate) entries: Vec<(String, Json)>,
}

/// What a JSON value says.
pub enum JsonView {
    Null,
    Bool(bool),
    Int(int),
    Decimal(Decimal),
    Text(Seq<char>),
    Array(Seq<JsonView>),
    Object(Map<Seq<char>, JsonView>),
}

impl View for Json {
    type V = JsonView;

    open spec fn view(&self) -> JsonView {
        self.meaning()
    }
}

/// What each value of a list says.
pub open spec fn json_views(items: Seq<Json>) -> Seq<JsonView> {
    items.map_values(|j: Json| j@)
}

/// The member `key` of an object; no other value has members.
pub open spec fn member(value: JsonView, key: Seq<char>) -> Option<JsonView> {
    match value {
        JsonView::Object(members) => if members.contains_key(key) {
            Some(members[key])
        } else {
            None
        },
        _ => None,
    }
}

/// The characters of a text value.
pub open spec fn as_text(value: Option<JsonView>) -> Option<Seq<char>> {
    match value {
        Some(JsonView::Text(s)) => Some(s),
        _ => None,
    }
}

/// The truth of a boolean value.
pub open spec fn as_truth(value: Option<JsonView>) -> Option<bool> {
    match value {
        Some(JsonView::Bool(b)) => Some(b),
        _ => None,
    }
}

/// The number of an integer value between `low` and `high`.
pub open spec fn as_int(value: Option<JsonView>, low: int, high: int) -> Option<int> {
    match value {
        Some(JsonView::Int(n)) => if low <= n <= high {
            Some(n)
        } else {
            None
        },
        _ => None,
    }
}

/// The items of an array value.
pub open spec fn as_items(value: Option<JsonView>) -> Option<Seq<JsonView>> {
    match value {
        Some(JsonView::Array(items)) => Some(items),
        _ => None,
    }
}

/// What an optional value says.
pub open spec fn opt_view(value: Option<&Json>) -> Option<JsonView> {
    match value {
        Some(j) => Some(j@),
        None => None,
    }
}

/// The characters of an optional text.
pub open spec fn opt_text(value: Option<&str>) -> Option<Seq<char>> {
    match value {
        Some(s) => Some(s@),
        None => None,
    }
}

impl Json {
    /// What this value says.
    pub open spec fn meaning(self) -> JsonView
        decreases self,
    {
        match self {
            Json::Null => JsonView::Null,
            Json::Bool(b) => JsonView::Bool(b),
            Json::Unsigned(n) => JsonView::Int(n as int),
            Json::Signed(n) => JsonView::Int(n as int),
            Json::Decimal(n) => JsonView::Decimal(n),
            Json::Text(s) => JsonView::Text(s@),
            Json::Array(items) => JsonView::Array(
                Seq::new(
                    items@.len(),
                    |i: int|
                        if 0 <= i < items@.len() {
                            items@[i].meaning()
                        } else {
                            JsonView::Null
                        },
                ),
            ),
            Json::Object(object) => JsonView::Object(object.members()),
        }
    }

    /// The text value `s`.
    pub fn text(s: &str) -> (r: Json)
        ensures
            r@ == JsonView::Text(s@),
    {
        Json::Text(s.to_owned())
    }

    /// The integer value `n`.
    pub fn count(n: usize) -> (r: Json)
        ensures
            r@ == JsonView::Int(n as int),
    {
        Json::Unsigned(n as u64)
    }

    /// The array of `items`.
    pub fn array(items: Vec<Json>) -> (r: Json)
        ensures
            r@ == JsonView::Array(json_views(items@)),
    {
        let r = Json::Array(items);
        assert(r@->Array_0 =~= json_views(items@));
        r
    }

    /// The array of the texts `items`.
    pub fn text_array(items: &Vec<String>) -> (r: Json)
        ensures
            r@ == text_array_view(crate::text::views(items@)),
    {
        let mut list: Vec<Json> = Vec::new();
        let mut i: usize = 0;
        while i < items.len()
            invariant
                i <= items@.len(),
                list@.len() == i,
                forall|k: int| 0 <= k < i ==> (#[trigger] list@[k])@ == JsonView::Text(items@[k]@),
            decreases items@.len() - i,
        {
            list.push(Json::text(items[i].as_str()));
            i = i + 1;
        }
        let r = Json::array(list);
        assert(r@->Array_0 =~= text_array_view(crate::text::views(items@))->Array_0);
        r
    }

    /// The member `key` of this value.
    pub fn get(&self, key: &str) -> (r: Option<&Json>)
        ensures
            opt_view(r) == member(self@, key@),
    {
        match self {
            Json::Object(object) => object.get(key),
            _ => None,
        }
    }

    /// The characters of this value, where it is a text.
    pub fn as_str(&self) -> (r: Option<&str>)
        ensures
            opt_text(r) == as_text(Some(self@)),
    {
        match self {
            Json::Text(s) => Some(s.as_str()),
            _ => None,
        }
    }

    /// The truth of this value, where it is a boolean.
    pub fn as_bool(&self) -> (r: Option<bool>)
        ensures
            r == as_truth(Some(self@)),
    {
        match self {
            Json::Bool(b) => Some(*b),
            _ => None,
        }
    }

    /// The number of this value, where it is an integer that an `i64` holds.
    pub fn as_i64(&self) -> (r: Option<i64>)
        ensures
            match r {
                Some(n) => as_int(Some(self@), i64::MIN as int, i64::MAX as int) == Some(n as int),
                None => as_int(Some(self@), i64::MIN as int, i64::MAX as int) is None,
            },
    {
        match self {
            Json::Unsigned(n) => if *n <= 0x7fff_ffff_ffff_ffff {
                Some(*n as i64)
            } else {
                None
            },
            Json::Signed(n) => Some(*n),
            _ => None,
        }
    }

    /// The number of this value, where it is an integer that a `u64` holds.
    pub fn as_u64(&self) -> (r: Option<u64>)
        ensures
            match r {
                Some(n) => as_int(Some(self@), 0, u64::MAX as int) == Some(n as int),
                None => as_int(Some(self@), 0, u64::MAX as int) is None,
            },
    {
        match self {
            Json::Unsigned(n) => Some(*n),
            Json::Signed(n) => if *n >= 0 {
                Some(*n as u64)
            } else {
                None
            },
            _ => None,
        }
    }

    /// The items of this value, where it is an array.
    pub fn as_array(&self) -> (r: Option<&Vec<Json>>)
        ensures
            match r {
                Some(items) => as_items(Some(self@)) == Some(json_views(items@)),
                None => as_items(Some(self@)) is None,
            },
    {
        match self {
            Json::Array(items) => {
                assert(self@->Array_0 =~= json_views(items@));
                Some(items)
            },
            _ => None,
        }
    }

    /// A value that says the same.
    pub fn duplicate(&self) -> (r: Json)
        ensures
            r@ == self@,
        decreases self,
    {
        match self {
            Json::Null => Json::Null,
            Json::Bool(b) => Json::Bool(*b),
            Json::Unsigned(n) => Json::Unsigned(*n),
            Json::Signed(n) => Json::Signed(*n),
            Json::Decimal(n) => Json::Decimal(n.duplicate()),
            Json::Text(s) => Json::Text(s.clone()),
            Json::Array(items) => {
                let mut list: Vec<Json> = Vec::new();
                let mut i: usize = 0;
                while i < items.len()
                    invariant
                        i <= items@.len(),
                        decreases_to!(self => items@),
                        list@.len() == i,
                        forall|k: int| 0 <= k < i ==> (#[trigger] list@[k])@ == items@[k]@,
                    decreases items@.len() - i,
                {
                    list.push(items[i].duplicate());
                    i = i + 1;
                }
                let r = Json::Array(list);
                assert(r@->Array_0 =~= self@->Array_0);
                r
            },
            Json::Object(object) => Json::Object(object.duplicate()),
        }
    }
}

/// The array of the texts `items`.
pub open spec fn text_array_view(items: Seq<Seq<char>>) -> JsonView {
    JsonView::Array(items.map_values(|s: Seq<char>| JsonView::Text(s)))
}

/// The text `s`, or `null` where there is none.
pub open spec fn text_or_null_view(s: Option<Seq<char>>) -> JsonView {
    match s {
        Some(s) => JsonView::Text(s),
        None => JsonView::Null,
    }
}

/// Copies of the values of a list.
pub fn duplicate_all(items: &Vec<Json>) -> (r: Vec<Json>)
    ensures
        json_views(r@) == json_views(items@),
{
    let mut list: Vec<Json> = Vec::new();
    let mut i: usize = 0;
    while i < items.len()
        invariant
            i <= items@.len(),
            list@.len() == i,
            forall|k: int| 0 <= k < i ==> (#[trigger] list@[k])@ == items@[k]@,
        decreases items@.len() - i,
    {
        list.push(items[i].duplicate());
        i = i + 1;
    }
    assert(json_views(list@) =~= json_views(items@));
    list
}

impl JsonObject {
    /// The members, by key.
    pub closed spec fn members(self) -> Map<Seq<char>, JsonView>
        decreases self,
    {
        Self::inserted(self.entries@)
    }

    closed spec fn inserted(entries: Seq<(String, Json)>) -> Map<Seq<char>, JsonView>
        decreases entries,
    {
        if entries.len() == 0 {
            Map::empty()
        } else {
            Self::inserted(entries.drop_last()).insert(entries.last().0@, entries.last().1.meaning())
        }
    }

    /// The object without members.
    pub fn new() -> (r: JsonObject)
        ensures
            r.members() == Map::<Seq<char>, JsonView>::empty(),
    {
        JsonObject { entries: Vec::new() }
    }

    /// This object with the member `key` set to `value`.
    pub fn with(self, key: &str, value: Json) -> (r: JsonObject)
        ensures
            r.members() == self.members().insert(key@, value@),
    {
        let mut entries = self.entries;
        entries.push((key.to_owned(), value));
        assert(entries@.drop_last() =~= self.entries@);
        JsonObject { entries }
    }

    /// The member `key`.
    pub fn get(&self, key: &str) -> (r: Option<&Json>)
        ensures
            opt_view(r) == member(JsonView::Object(self.members()), key@),
    {
        let mut i: usize = self.entries.len();
        assert(self.entries@.take(i as int) =~= self.entries@);
        while i > 0
            invariant
                i <= self.entries@.len(),
                member(JsonView::Object(self.members()), key@) == member(
                    JsonView::Object(Self::inserted(self.entries@.take(i as int))),
                    key@,
                ),
            decreases i,
        {
            assert(self.entries@.take(i as int).drop_last() =~= self.entries@.take(i - 1));
            if same(self.entries[i - 1].0.as_str(), key) {
                return Some(&self.entries[i - 1].1);
            }
            i = i - 1;
        }
        None
    }

    /// An object with the same members.
    pub fn duplicate(&self) -> (r: JsonObject)
        ensures
            r.members() == self.members(),
        decreases self,
    {
        let mut entries: Vec<(String, Json)> = Vec::new();
        let mut i: usize = 0;
        while i < self.entries.len()
            invariant
                i <= self.entries@.len(),
                entries@.len() == i,
                decreases_to!(self => self.entries@),
                Self::inserted(entries@) == Self::inserted(self.entries@.take(i as int)),
            decreases self.entries@.len() - i,
        {
            let ghost before = entries@;
            let key = self.entries[i].0.clone();
            assert(decreases_to!(self => self.entries@[i as int]));
            let value = self.entries[i].1.duplicate();
            entries.push((key, value));
            assert(entries@.drop_last() =~= before);
            assert(self.entries@.take(i + 1).drop_last() =~= self.entries@.take(i as int));
            i = i + 1;
        }
        assert(self.entries@.take(i as int) =~= self.entries@);
        JsonObject { entries }
    }
}

} // verus!
