//! The export document: a JSON value held as a tree of plain values, and the
//! guarded ways into it. Nothing in a document is taken for granted: a member
//! may be missing, and a value may be of another kind than the one hoped for.

use vstd::prelude::*;

verus! {

/// A JSON value.
///
/// A number is kept as the text that writes it. The members of an object are
/// kept in the order in which the object lists them; where two members share
/// a name, the one listed first is the one that a lookup finds.
#[derive(Debug)]
pub enum Json {
    Null,
    Bool(bool),
    Number(String),
    Text(String),
    Array(Vec<Json>),
    Object(Vec<(String, Json)>),
}

/// What a [`Json`] value is, as mathematics sees it: texts as sequences of
/// characters, arrays and objects as sequences of what they hold.
pub enum JsonView {
    Null,
    Bool(bool),
    Number(Seq<char>),
    Text(Seq<char>),
    Array(Seq<JsonView>),
    Object(Seq<(Seq<char>, JsonView)>),
}

/// What a value is seen as: see [`JsonView`].
pub open spec fn seen_as(value: Json) -> JsonView
    decreases value,
{
    match value {
        Json::Null => JsonView::Null,
        Json::Bool(b) => JsonView::Bool(b),
        Json::Number(digits) => JsonView::Number(digits@),
        Json::Text(text) => JsonView::Text(text@),
        Json::Array(items) => JsonView::Array(
            Seq::new(
                items.len() as nat,
                |i: int|
                    if 0 <= i < items.len() {
                        seen_as(items[i])
                    } else {
                        JsonView::Null
                    },
            ),
        ),
        Json::Object(members) => JsonView::Object(
            Seq::new(
                members.len() as nat,
                |i: int|
                    if 0 <= i < members.len() {
                        (members[i].0@, seen_as(members[i].1))
                    } else {
                        (Seq::empty(), JsonView::Null)
                    },
            ),
        ),
    }
}

impl View for Json {
    type V = JsonView;

    open spec fn view(&self) -> JsonView {
        seen_as(*self)
    }
}

/// The views of the items of an array, in order.
pub open spec fn item_views(items: Seq<Json>) -> Seq<JsonView> {
    Seq::new(items.len(), |i: int| items[i]@)
}

/// The views of the members of an object, in order.
pub open spec fn member_views(members: Seq<(String, Json)>) -> Seq<(Seq<char>, JsonView)> {
    Seq::new(members.len(), |i: int| (members[i].0@, members[i].1@))
}

/// An array is seen as the sequence of its items' views.
pub proof fn lemma_array_view(items: Vec<Json>)
    ensures
        Json::Array(items)@ == JsonView::Array(item_views(items@)),
{
    assert(Json::Array(items)@->Array_0 =~= item_views(items@));
}

/// An object is seen as the sequence of its members' names and views.
pub proof fn lemma_object_view(members: Vec<(String, Json)>)
    ensures
        Json::Object(members)@ == JsonView::Object(member_views(members@)),
{
    assert(Json::Object(members)@->Object_0 =~= member_views(members@));
}

/// The value of the first member that bears the name `key`.
pub open spec fn first_named(members: Seq<(Seq<char>, JsonView)>, key: Seq<char>) -> Option<
    JsonView,
>
    decreases members.len(),
{
    if members.len() == 0 {
        None
    } else if members[0].0 == key {
        Some(members[0].1)
    } else {
        first_named(members.skip(1), key)
    }
}

/// A lookup finds the first member of the name and passes over none of that
/// name; it finds nothing exactly where no member bears the name.
pub proof fn lemma_first_named(members: Seq<(Seq<char>, JsonView)>, key: Seq<char>)
    ensures
        match first_named(members, key) {
            Some(value) => exists|i: int|
                0 <= i < members.len() && (#[trigger] members[i]) == (key, value) && forall|j: int|
                    0 <= j < i ==> (#[trigger] members[j]).0 != key,
            None => forall|i: int| 0 <= i < members.len() ==> (#[trigger] members[i]).0 != key,
        },
    decreases members.len(),
{
    if members.len() > 0 && members[0].0 != key {
        let rest = members.skip(1);
        lemma_first_named(rest, key);
        match first_named(members, key) {
            Some(value) => {
                let i = choose|i: int|
                    0 <= i < rest.len() && (#[trigger] rest[i]) == (key, value) && forall|j: int|
                        0 <= j < i ==> (#[trigger] rest[j]).0 != key;
                assert forall|j: int| 0 <= j < i + 1 implies (#[trigger] members[j]).0 != key by {
                    if j > 0 {
                        assert(rest[j - 1].0 != key);
                    }
                }
            },
            None => {
                assert forall|i: int| 0 <= i < members.len() implies (#[trigger] members[i]).0
                    != key by {
                    if i > 0 {
                        assert(rest[i - 1].0 != key);
                    }
                }
            },
        }
    }
}

/// The member named `key` of a value that may itself be missing.
pub open spec fn step(from: Option<JsonView>, key: Seq<char>) -> Option<JsonView> {
    match from {
        Some(value) => value.member(key),
        None => None,
    }
}

/// The view of a value that may be missing.
pub open spec fn view_of(found: Option<&Json>) -> Option<JsonView> {
    match found {
        Some(value) => Some(value@),
        None => None,
    }
}

impl JsonView {
    /// The member named `key`, where the value is an object that has one.
    pub open spec fn member(self, key: Seq<char>) -> Option<JsonView> {
        match self {
            JsonView::Object(members) => first_named(members, key),
            _ => None,
        }
    }

    /// The value three names deep: member `third` of member `second` of
    /// member `first`, where all three are there.
    pub open spec fn descend(self, first: Seq<char>, second: Seq<char>, third: Seq<char>) -> Option<
        JsonView,
    > {
        step(step(self.member(first), second), third)
    }

    /// The text that the value holds, where it is a text.
    pub open spec fn text(self) -> Option<Seq<char>> {
        match self {
            JsonView::Text(text) => Some(text),
            _ => None,
        }
    }

    /// The items of the value, where it is an array; of anything else, none.
    pub open spec fn items(self) -> Seq<JsonView> {
        match self {
            JsonView::Array(items) => items,
            _ => Seq::empty(),
        }
    }

    /// The members of the value, where it is an object; of anything else,
    /// none.
    pub open spec fn members(self) -> Seq<(Seq<char>, JsonView)> {
        match self {
            JsonView::Object(members) => members,
            _ => Seq::empty(),
        }
    }

    /// The text of the member named `key`, where there is such a member and
    /// it is a text.
    pub open spec fn text_at(self, key: Seq<char>) -> Option<Seq<char>> {
        match self.member(key) {
            Some(value) => value.text(),
            None => None,
        }
    }

    /// The items of the array three names deep; none where the place is
    /// missing or holds no array.
    pub open spec fn list(self, first: Seq<char>, second: Seq<char>, third: Seq<char>) -> Seq<
        JsonView,
    > {
        items_of(self.descend(first, second, third))
    }
}

/// The items of a value that may be missing: those of an array, else none.
pub open spec fn items_of(found: Option<JsonView>) -> Seq<JsonView> {
    match found {
        Some(value) => value.items(),
        None => Seq::empty(),
    }
}

/// The items of a list that may be missing, as mathematics sees them.
pub open spec fn listed(items: Option<&Vec<Json>>) -> Seq<JsonView> {
    match items {
        Some(items) => item_views(items@),
        None => Seq::empty(),
    }
}

/// The first of some items, if there is any.
pub open spec fn first_of(items: Seq<JsonView>) -> Option<JsonView> {
    if items.len() > 0 {
        Some(items.first())
    } else {
        None
    }
}

/// The last of some items, if there is any.
pub open spec fn last_of(items: Seq<JsonView>) -> Option<JsonView> {
    if items.len() > 0 {
        Some(items.last())
    } else {
        None
    }
}

impl Json {
    /// Looks up the member named `key`. There is none in a value that is not
    /// an object.
    pub fn get<'a>(&'a self, key: &str) -> (found: Option<&'a Json>)
        ensures
            view_of(found) == self@.member(key@),
    {
        match self {
            Json::Object(members) => {
                proof {
                    lemma_object_view(*members);
                }
                let wanted = String::from_str(key);
                let ghost all = member_views(members@);
                let mut i: usize = 0;
                assert(all.skip(0) == all);
                while i < members.len()
                    invariant
                        i <= members.len(),
                        wanted@ == key@,
                        all == member_views(members@),
                        self@.member(key@) == first_named(all, key@),
                        first_named(all, key@) == first_named(all.skip(i as int), key@),
                    decreases members.len() - i,
                {
                    if members[i].0 == wanted {
                        return Some(&members[i].1);
                    }
                    assert(all.skip(i as int).skip(1) == all.skip(i + 1));
                    i += 1;
                }
                None
            },
            _ => None,
        }
    }

    /// Looks up the value three names deep.
    pub fn descend<'a>(&'a self, first: &str, second: &str, third: &str) -> (found: Option<
        &'a Json,
    >)
        ensures
            view_of(found) == self@.descend(first@, second@, third@),
    {
        match self.get(first) {
            Some(outer) => match outer.get(second) {
                Some(inner) => inner.get(third),
                None => None,
            },
            None => None,
        }
    }

    /// The text that the value holds, where it is a text.
    pub fn as_str<'a>(&'a self) -> (text: Option<&'a str>)
        ensures
            match text {
                Some(text) => self@.text() == Some(text@),
                None => self@.text() is None,
            },
    {
        match self {
            Json::Text(text) => Some(text.as_str()),
            _ => None,
        }
    }

    /// The items of the value, where it is an array.
    pub fn as_array<'a>(&'a self) -> (items: Option<&'a Vec<Json>>)
        ensures
            match items {
                Some(items) => self@ == JsonView::Array(item_views(items@)),
                None => !(self@ is Array),
            },
    {
        match self {
            Json::Array(items) => {
                proof {
                    lemma_array_view(*items);
                }
                Some(items)
            },
            _ => None,
        }
    }

    /// The members of the value, where it is an object.
    pub fn as_object<'a>(&'a self) -> (members: Option<&'a Vec<(String, Json)>>)
        ensures
            match members {
                Some(members) => self@ == JsonView::Object(member_views(members@)),
                None => !(self@ is Object),
            },
    {
        match self {
            Json::Object(members) => {
                proof {
                    lemma_object_view(*members);
                }
                Some(members)
            },
            _ => None,
        }
    }

    /// Whether the value is `null`.
    pub fn is_null(&self) -> (null: bool)
        ensures
            null == (self@ is Null),
    {
        match self {
            Json::Null => true,
            _ => false,
        }
    }

    /// The text of the member named `key`, where there is such a member and
    /// it is a text.
    pub fn text_at<'a>(&'a self, key: &str) -> (text: Option<&'a str>)
        ensures
            match text {
                Some(text) => self@.text_at(key@) == Some(text@),
                None => self@.text_at(key@) is None,
            },
    {
        match self.get(key) {
            Some(value) => value.as_str(),
            None => None,
        }
    }
}

impl Json {
    /// The array three names deep, where the place is there and holds one.
    pub fn list<'a>(&'a self, first: &str, second: &str, third: &str) -> (items: Option<
        &'a Vec<Json>,
    >)
        ensures
            listed(items) == self@.list(first@, second@, third@),
            items is Some <==> (self@.descend(first@, second@, third@) matches Some(found)
                && found is Array),
    {
        match self.descend(first, second, third) {
            Some(found) => found.as_array(),
            None => None,
        }
    }
}

/// The first item of a list that may be missing.
pub fn first_item<'a>(items: Option<&'a Vec<Json>>) -> (item: Option<&'a Json>)
    ensures
        view_of(item) == first_of(listed(items)),
{
    match items {
        Some(items) => if items.len() > 0 {
            Some(&items[0])
        } else {
            None
        },
        None => None,
    }
}

/// The last item of a list that may be missing.
pub fn last_item<'a>(items: Option<&'a Vec<Json>>) -> (item: Option<&'a Json>)
    ensures
        view_of(item) == last_of(listed(items)),
{
    match items {
        Some(items) => if items.len() > 0 {
            Some(&items[items.len() - 1])
        } else {
            None
        },
        None => None,
    }
}

/// The number of items of a list that may be missing.
pub fn count_items(items: Option<&Vec<Json>>) -> (count: u64)
    ensures
        count == listed(items).len(),
{
    match items {
        Some(items) => items.len() as u64,
        None => 0,
    }
}

/// Counts the items of a value: those of an array, and none of anything else.
pub fn value_length(input_value: &Json) -> (length: usize)
    ensures
        length == input_value@.items().len(),
{
    match input_value.as_array() {
        Some(items) => items.len(),
        None => 0,
    }
}

} // verus!
