//! JSON values as the daemon reads and writes them.
use vstd::prelude::*;

use crate::text::same_text;

verus! {

/// A JSON number, kept in the form in which it was written.
#[derive(Clone, Copy, Debug, PartialEq, Eq, Structural)]
pub enum Number {
    /// An integer that is not negative.
    Unsigned(u64),
    /// A negative integer.
    Negative(i64),
    /// Any other number, by the bits of its double precision value.
    Fraction(u64),
}

/// A JSON value.
#[derive(Debug)]
pub enum Json {
    Null,
    Bool(bool),
    Number(Number),
    Text(String),
    Array(Vec<Json>),
    Object(Object),
}

/// The members of a JSON object.
#[derive(Debug)]
pub struct Object {
    /// Names and values in the order in which they were inserted. A later member takes the
    /// place of an earlier one of the same name.
    pub members: Vec<(String, Json)>,
}

/// What a JSON value says, without its layout in memory.
#[verifier::ext_equal]
pub enum JsonView {
    Null,
    Bool(bool),
    Number(Number),
    Text(Seq<char>),
    Array(Seq<JsonView>),
    Object(Map<Seq<char>, JsonView>),
}

/// What a JSON value says.
pub open spec fn json_view(json: Json) -> JsonView
    decreases json,
{
    match json {
        Json::Null => JsonView::Null,
        Json::Bool(b) => JsonView::Bool(b),
        Json::Number(n) => JsonView::Number(n),
        Json::Text(s) => JsonView::Text(s@),
        Json::Array(items) => JsonView::Array(items_view(items@)),
        Json::Object(object) => JsonView::Object(members_view(object.members@)),
    }
}

/// What the items of an array say, in order.
pub open spec fn items_view(items: Seq<Json>) -> Seq<JsonView>
    decreases items,
{
    if items.len() == 0 {
        Seq::empty()
    } else {
        items_view(items.drop_last()).push(json_view(items.last()))
    }
}

/// The value that each name stands for: the last one inserted under it.
pub open spec fn members_view(members: Seq<(String, Json)>) -> Map<Seq<char>, JsonView>
    decreases members,
{
    if members.len() == 0 {
        Map::empty()
    } else {
        members_view(members.drop_last()).insert(members.last().0@, json_view(members.last().1))
    }
}

impl View for Json {
    type V = JsonView;

    open spec fn view(&self) -> JsonView {
        json_view(*self)
    }
}

impl View for Object {
    type V = Map<Seq<char>, JsonView>;

    open spec fn view(&self) -> Map<Seq<char>, JsonView> {
        members_view(self.members@)
    }
}

impl JsonView {
    /// The member of an object under `name`.
    pub open spec fn get(self, name: Seq<char>) -> Option<JsonView> {
        match self {
            JsonView::Object(members) => member(members, name),
            _ => None,
        }
    }

    /// The characters, if this is a text.
    pub open spec fn as_text(self) -> Option<Seq<char>> {
        match self {
            JsonView::Text(text) => Some(text),
            _ => None,
        }
    }

    /// The items, if this is an array.
    pub open spec fn as_array(self) -> Option<Seq<JsonView>> {
        match self {
            JsonView::Array(items) => Some(items),
            _ => None,
        }
    }

    /// The number, if this is an integer that is not negative.
    pub open spec fn as_u64(self) -> Option<u64> {
        match self {
            JsonView::Number(Number::Unsigned(n)) => Some(n),
            _ => None,
        }
    }
}

/// The member under `name`.
pub open spec fn member(members: Map<Seq<char>, JsonView>, name: Seq<char>) -> Option<JsonView> {
    if members.contains_key(name) {
        Some(members[name])
    } else {
        None
    }
}

/// The member under `name`, if it is a text.
pub open spec fn text_member(members: Map<Seq<char>, JsonView>, name: Seq<char>) -> Option<Seq<char>> {
    match member(members, name) {
        Some(value) => value.as_text(),
        None => None,
    }
}

/// The member under `name`, if it is an integer that is not negative.
pub open spec fn u64_member(members: Map<Seq<char>, JsonView>, name: Seq<char>) -> Option<u64> {
    match member(members, name) {
        Some(value) => value.as_u64(),
        None => None,
    }
}

/// The member under `name`, if it is an array.
pub open spec fn array_member(
    members: Map<Seq<char>, JsonView>,
    name: Seq<char>,
) -> Option<Seq<JsonView>> {
    match member(members, name) {
        Some(value) => value.as_array(),
        None => None,
    }
}

/// A number that is not negative.
pub open spec fn unsigned(n: u64) -> JsonView {
    JsonView::Number(Number::Unsigned(n))
}

/// An integer of either sign.
pub open spec fn signed(n: i64) -> JsonView {
    if n < 0 {
        JsonView::Number(Number::Negative(n))
    } else {
        unsigned(n as u64)
    }
}

/// A text, or `null` in its absence.
pub open spec fn optional_text(text: Option<String>) -> JsonView {
    match text {
        Some(text) => JsonView::Text(text@),
        None => JsonView::Null,
    }
}

/// A number, or `null` in its absence.
pub open spec fn optional_number(n: Option<u32>) -> JsonView {
    match n {
        Some(n) => unsigned(n as u64),
        None => JsonView::Null,
    }
}

/// The items of an array say what each of them says.
pub broadcast proof fn lemma_items_view(items: Seq<Json>)
    ensures
        #[trigger] items_view(items) == items.map_values(|j: Json| j@),
    decreases items.len(),
{
    if items.len() > 0 {
        lemma_items_view(items.drop_last());
        assert(items.map_values(|j: Json| j@) =~= items.drop_last().map_values(
            |j: Json| j@,
        ).push(items.last()@));
    } else {
        assert(items.map_values(|j: Json| j@) =~= Seq::empty());
    }
}

impl Object {
    /// The object without members.
    pub fn new() -> (object: Object)
        ensures
            object@ == Map::<Seq<char>, JsonView>::empty(),
    {
        Object { members: Vec::new() }
    }

    /// The value under `name`.
    pub fn get(&self, name: &str) -> (value: Option<&Json>)
        ensures
            match value {
                Some(value) => self@.contains_key(name@) && value@ == self@[name@],
                None => !self@.contains_key(name@),
            },
    {
        let mut left: usize = self.members.len();
        proof {
            assert(self.members@.take(left as int) == self.members@);
        }
        while left > 0
            invariant
                left <= self.members.len(),
                self@.contains_key(name@) == members_view(
                    self.members@.take(left as int),
                ).contains_key(name@),
                self@.contains_key(name@) ==> self@[name@] == members_view(
                    self.members@.take(left as int),
                )[name@],
            decreases left,
        {
            proof {
                assert(self.members@.take(left as int).drop_last() == self.members@.take(left - 1));
            }
            left = left - 1;
            if same_text(self.members[left].0.as_str(), name) {
                return Some(&self.members[left].1);
            }
        }
        None
    }

    /// The text under `name`.
    pub fn get_text(&self, name: &str) -> (text: Option<&String>)
        ensures
            match text {
                Some(text) => text_member(self@, name@) == Some(text@),
                None => text_member(self@, name@) is None,
            },
    {
        match self.get(name) {
            Some(Json::Text(text)) => Some(text),
            _ => None,
        }
    }

    /// The integer under `name`, if it is not negative.
    pub fn get_u64(&self, name: &str) -> (n: Option<u64>)
        ensures
            n == u64_member(self@, name@),
    {
        match self.get(name) {
            Some(Json::Number(Number::Unsigned(n))) => Some(*n),
            _ => None,
        }
    }

    /// The items of the array under `name`.
    pub fn get_array(&self, name: &str) -> (items: Option<&Vec<Json>>)
        ensures
            match items {
                Some(items) => array_member(self@, name@) == Some(items_view(items@)),
                None => array_member(self@, name@) is None,
            },
    {
        match self.get(name) {
            Some(Json::Array(items)) => Some(items),
            _ => None,
        }
    }

    /// Puts `value` under `name`, in place of what was there.
    pub fn insert(&mut self, name: &str, value: Json)
        ensures
            final(self)@ == old(self)@.insert(name@, value@),
    {
        let ghost before = self.members@;
        self.members.push((name.to_owned(), value));
        proof {
            assert(self.members@.drop_last() == before);
        }
    }

    /// The same object once more.
    pub fn copy(&self) -> (object: Object)
        ensures
            object@ == self@,
        decreases *self,
    {
        let mut members: Vec<(String, Json)> = Vec::new();
        let mut i: usize = 0;
        while i < self.members.len()
            invariant
                i <= self.members.len(),
                members_view(members@) == members_view(self.members@.take(i as int)),
            decreases self.members.len() - i,
        {
            let ghost before = members@;
            let member: &(String, Json) = &self.members[i];
            members.push((member.0.clone(), member.1.copy()));
            proof {
                assert(members@.drop_last() == before);
                assert(self.members@.take(i + 1).drop_last() == self.members@.take(i as int));
            }
            i = i + 1;
        }
        assert(self.members@.take(i as int) == self.members@);
        Object { members }
    }
}

/// The same items once more.
fn copy_items(items: &Vec<Json>) -> (copies: Vec<Json>)
    ensures
        items_view(copies@) == items_view(items@),
    decreases *items,
{
    let mut copies: Vec<Json> = Vec::new();
    let mut i: usize = 0;
    while i < items.len()
        invariant
            i <= items.len(),
            items_view(copies@) == items_view(items@.take(i as int)),
        decreases items.len() - i,
    {
        let ghost before = copies@;
        copies.push(items[i].copy());
        proof {
            assert(copies@.drop_last() == before);
            assert(items@.take(i + 1).drop_last() == items@.take(i as int));
        }
        i = i + 1;
    }
    assert(items@.take(i as int) == items@);
    copies
}

impl Json {
    /// The member of an object under `name`.
    pub fn get(&self, name: &str) -> (value: Option<&Json>)
        ensures
            match value {
                Some(value) => self@.get(name@) == Some(value@),
                None => self@.get(name@) is None,
            },
    {
        match self {
            Json::Object(object) => object.get(name),
            _ => None,
        }
    }

    /// The characters, if this is a text.
    pub fn as_str(&self) -> (text: Option<&str>)
        ensures
            match text {
                Some(text) => self@.as_text() == Some(text@),
                None => self@.as_text() is None,
            },
    {
        match self {
            Json::Text(text) => Some(text.as_str()),
            _ => None,
        }
    }

    /// The items, if this is an array.
    pub fn as_array(&self) -> (items: Option<&Vec<Json>>)
        ensures
            match items {
                Some(items) => self@.as_array() == Some(items_view(items@)),
                None => self@.as_array() is None,
            },
    {
        match self {
            Json::Array(items) => Some(items),
            _ => None,
        }
    }

    /// The number, if this is an integer that is not negative.
    pub fn as_u64(&self) -> (n: Option<u64>)
        ensures
            n == self@.as_u64(),
    {
        match self {
            Json::Number(Number::Unsigned(n)) => Some(*n),
            _ => None,
        }
    }

    /// A text.
    pub fn text(text: &str) -> (json: Json)
        ensures
            json@ == JsonView::Text(text@),
    {
        Json::Text(text.to_owned())
    }

    /// A number that is not negative.
    pub fn number(n: u64) -> (json: Json)
        ensures
            json@ == unsigned(n),
    {
        Json::Number(Number::Unsigned(n))
    }

    /// An integer of either sign.
    pub fn integer(n: i64) -> (json: Json)
        ensures
            json@ == signed(n),
    {
        if n < 0 {
            Json::Number(Number::Negative(n))
        } else {
            Json::Number(Number::Unsigned(n as u64))
        }
    }

    /// A text, or `null` in its absence.
    pub fn optional_text(text: &Option<String>) -> (json: Json)
        ensures
            json@ == optional_text(*text),
    {
        match text {
            Some(text) => Json::Text(text.clone()),
            None => Json::Null,
        }
    }

    /// A number, or `null` in its absence.
    pub fn optional_number(n: Option<u32>) -> (json: Json)
        ensures
            json@ == optional_number(n),
    {
        match n {
            Some(n) => Json::Number(Number::Unsigned(n as u64)),
            None => Json::Null,
        }
    }

    /// The same value once more.
    pub fn copy(&self) -> (json: Json)
        ensures
            json@ == self@,
        decreases *self,
    {
        match self {
            Json::Null => Json::Null,
            Json::Bool(b) => Json::Bool(*b),
            Json::Number(n) => Json::Number(*n),
            Json::Text(s) => Json::Text(s.clone()),
            Json::Array(items) => Json::Array(copy_items(items)),
            Json::Object(object) => Json::Object(object.copy()),
        }
    }
}

} // verus!
