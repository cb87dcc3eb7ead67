//! JSON values, and their text by way of `serde_json`.
use vstd::prelude::*;

use crate::text::same;

verus! {

/// `serde_json`'s value, carried from the reader and to the writer.
#[verifier::external_type_specification]
#[verifier::external_body]
pub struct ExJsonValue(serde_json::Value);

/// `serde_json`'s number, which holds the numbers that are no integers.
#[verifier::external_type_specification]
#[verifier::external_body]
pub struct ExJsonNumber(serde_json::Number);

/// The `Clone` of `serde_json::Number` copies the number.
pub assume_specification[ <serde_json::Number as Clone>::clone ](
    number: &serde_json::Number,
) -> (copy: serde_json::Number)
    ensures
        copy == *number,
;

/// A number that is no integer. Only the reader makes one.
#[derive(Clone, Debug)]
pub struct JsonFloat {
    number: serde_json::Number,
}

/// A JSON value. Of the entries of an object that share a key the last one counts.
#[derive(Debug)]
pub enum Json {
    Null,
    Bool(bool),
    Unsigned(u64),
    Signed(i64),
    Float(JsonFloat),
    Text(String),
    Array(Vec<Json>),
    Object(Vec<(String, Json)>),
}

/// What a JSON value is.
pub enum JsonView {
    Null,
    Bool(bool),
    Integer(int),
    Float(JsonFloat),
    Text(Seq<char>),
    Array(Seq<JsonView>),
    Object(Map<Seq<char>, JsonView>),
}

/// What the items of an array are.
pub open spec fn array_view(items: Seq<Json>) -> Seq<JsonView>
    decreases items,
{
    if items.len() == 0 {
        Seq::empty()
    } else {
        array_view(items.drop_last()).push(json_view(items.last()))
    }
}

/// What the entries of an object are.
pub open spec fn object_view(entries: Seq<(String, Json)>) -> Map<Seq<char>, JsonView>
    decreases entries,
{
    if entries.len() == 0 {
        Map::empty()
    } else {
        object_view(entries.drop_last()).insert(entries.last().0@, json_view(entries.last().1))
    }
}

/// What a JSON value is.
pub open spec fn json_view(json: Json) -> JsonView
    decreases json,
{
    match json {
        Json::Null => JsonView::Null,
        Json::Bool(value) => JsonView::Bool(value),
        Json::Unsigned(number) => JsonView::Integer(number as int),
        Json::Signed(number) => JsonView::Integer(number as int),
        Json::Float(number) => JsonView::Float(number),
        Json::Text(text) => JsonView::Text(text@),
        Json::Array(items) => JsonView::Array(array_view(items@)),
        Json::Object(entries) => JsonView::Object(object_view(entries@)),
    }
}

impl View for Json {
    type V = JsonView;

    open spec fn view(&self) -> JsonView {
        json_view(*self)
    }
}

/// What a value of `serde_json` holds.
pub uninterp spec fn json_held(value: serde_json::Value) -> JsonView;

/// The value that a JSON text gives, if it is one.
pub uninterp spec fn json_read(text: Seq<char>) -> Option<JsonView>;

/// What the reader says of a text that is no JSON value.
pub uninterp spec fn json_failure(text: Seq<char>) -> Seq<char>;

/// The text of a JSON value, without spaces.
pub uninterp spec fn json_written(value: JsonView) -> Seq<char>;

/// `serde_json::from_str` for a value: what it gives for the text, and the `Display` form of its
/// error where it gives none, are named.
#[verifier::external_body]
fn read_value(text: &str) -> (result: Result<serde_json::Value, String>)
    ensures
        match result {
            Ok(value) => json_read(text@) == Some(json_held(value)),
            Err(reason) => json_read(text@) is None && reason@ == json_failure(text@),
        },
{
    serde_json::from_str(text).map_err(|error| error.to_string())
}

/// Takes a value of `serde_json` apart, variant by variant: null, a boolean, a number by its
/// `as_u64` and `as_i64` forms or as it is, a text, an array item by item, an object entry by
/// entry.
#[verifier::external_body]
pub(crate) fn from_value(value: serde_json::Value) -> (json: Json)
    ensures
        json@ == json_held(value),
{
    match value {
        serde_json::Value::Null => Json::Null,
        serde_json::Value::Bool(value) => Json::Bool(value),
        serde_json::Value::Number(number) => match (number.as_u64(), number.as_i64()) {
            (Some(value), _) => Json::Unsigned(value),
            (_, Some(value)) => Json::Signed(value),
            _ => Json::Float(JsonFloat { number }),
        },
        serde_json::Value::String(text) => Json::Text(text),
        serde_json::Value::Array(items) => Json::Array(items.into_iter().map(from_value).collect()),
        serde_json::Value::Object(entries) => Json::Object(
            entries.into_iter().map(|(key, value)| (key, from_value(value))).collect()),
    }
}

/// Puts a value of `serde_json` together, variant by variant. Its object keeps the last of the
/// entries that share a key.
#[verifier::external_body]
fn to_value(json: &Json) -> (value: serde_json::Value)
    ensures
        json_held(value) == json@,
{
    match json {
        Json::Null => serde_json::Value::Null,
        Json::Bool(value) => serde_json::Value::Bool(*value),
        Json::Unsigned(number) => serde_json::Value::Number((*number).into()),
        Json::Signed(number) => serde_json::Value::Number((*number).into()),
        Json::Float(float) => serde_json::Value::Number(float.number.clone()),
        Json::Text(text) => serde_json::Value::String(text.clone()),
        Json::Array(items) => serde_json::Value::Array(items.iter().map(to_value).collect()),
        Json::Object(entries) => serde_json::Value::Object(
            entries.iter().map(|(key, value)| (key.clone(), to_value(value))).collect()),
    }
}

/// `serde_json::to_string` for a value: it does not fail, and its text is named.
#[verifier::external_body]
fn write_value(value: &serde_json::Value) -> (result: Option<String>)
    ensures
        match result {
            Some(text) => text@ == json_written(json_held(*value)),
            None => false,
        },
{
    serde_json::to_string(value).ok()
}

/// The value that the text gives.
pub fn parse_json(text: &str) -> (result: Result<Json, String>)
    ensures
        match result {
            Ok(json) => json_read(text@) == Some(json@),
            Err(reason) => json_read(text@) is None && reason@ == json_failure(text@),
        },
{
    match read_value(text) {
        Ok(value) => Ok(from_value(value)),
        Err(reason) => Err(reason),
    }
}

/// The text of the value.
pub fn write_json(json: &Json) -> (text: String)
    ensures
        text@ == json_written(json@),
{
    match write_value(&to_value(json)) {
        Some(text) => text,
        None => String::new(),
    }
}

/// The JSON text of a text.
pub fn write_text(text: &str) -> (written: String)
    ensures
        written@ == json_written(JsonView::Text(text@)),
{
    write_json(&Json::Text(text.to_owned()))
}

/// The entry of an object under a key.
pub open spec fn json_get(value: JsonView, key: Seq<char>) -> Option<JsonView> {
    match value {
        JsonView::Object(entries) => if entries.dom().contains(key) {
            Some(entries[key])
        } else {
            None
        },
        _ => None,
    }
}

/// The entry under a key of a value that there may be.
pub open spec fn json_in(value: Option<JsonView>, key: Seq<char>) -> Option<JsonView> {
    match value {
        Some(found) => json_get(found, key),
        None => None,
    }
}

/// What a pointer's step `0` leads to: the first item of an array, or the entry `0` of an object.
pub open spec fn json_first(value: Option<JsonView>) -> Option<JsonView> {
    match value {
        Some(JsonView::Array(items)) => if items.len() > 0 {
            Some(items[0])
        } else {
            None
        },
        Some(found) => json_get(found, "0"@),
        None => None,
    }
}

/// What a value that there may be is.
pub open spec fn json_maybe(value: Option<&Json>) -> Option<JsonView> {
    match value {
        Some(found) => Some(found@),
        None => None,
    }
}

/// The text that a value is.
pub open spec fn json_text(value: Option<JsonView>) -> Option<Seq<char>> {
    match value {
        Some(JsonView::Text(text)) => Some(text),
        _ => None,
    }
}

/// The number that a value is, if it is a natural number that fits.
pub open spec fn json_u64(value: Option<JsonView>) -> Option<u64> {
    match value {
        Some(JsonView::Integer(number)) => if 0 <= number <= u64::MAX {
            Some(number as u64)
        } else {
            None
        },
        _ => None,
    }
}

/// The truth value that a value is.
pub open spec fn json_bool(value: Option<JsonView>) -> Option<bool> {
    match value {
        Some(JsonView::Bool(truth)) => Some(truth),
        _ => None,
    }
}

/// The items of an array.
pub open spec fn json_items(value: Option<JsonView>) -> Option<Seq<JsonView>> {
    match value {
        Some(JsonView::Array(items)) => Some(items),
        _ => None,
    }
}

proof fn lemma_object_prefix(entries: Seq<(String, Json)>, place: int, key: Seq<char>)
    requires
        0 <= place <= entries.len(),
        forall|i: int| place <= i < entries.len() ==> (#[trigger] entries[i]).0@ != key,
    ensures
        object_view(entries).dom().contains(key) == object_view(entries.take(place)).dom().contains(
            key,
        ),
        object_view(entries).dom().contains(key) ==> object_view(entries)[key] == object_view(
            entries.take(place),
        )[key],
    decreases entries.len() - place,
{
    if place == entries.len() {
        assert(entries.take(place) =~= entries);
    } else {
        lemma_object_prefix(entries, place + 1, key);
        assert(entries.take(place + 1).drop_last() =~= entries.take(place));
        assert(entries[place].0@ != key);
    }
}

/// An object has the keys of its entries.
pub proof fn lemma_object_key(entries: Seq<(String, Json)>, key: Seq<char>)
    ensures
        object_view(entries).dom().contains(key) <==> exists|i: int|
            0 <= i < entries.len() && (#[trigger] entries[i]).0@ == key,
    decreases entries.len(),
{
    if entries.len() > 0 {
        let front = entries.drop_last();
        lemma_object_key(front, key);
        if object_view(front).dom().contains(key) {
            let i = choose|i: int| 0 <= i < front.len() && (#[trigger] front[i]).0@ == key;
            assert(entries[i].0@ == key);
        }
        if exists|i: int| 0 <= i < entries.len() && (#[trigger] entries[i]).0@ == key {
            let i = choose|i: int| 0 <= i < entries.len() && (#[trigger] entries[i]).0@ == key;
            if i < front.len() {
                assert(front[i].0@ == key);
            }
        }
        assert(entries[entries.len() - 1].0@ == entries.last().0@);
    }
}

/// The place of the entry that counts for the key.
fn find_entry(entries: &Vec<(String, Json)>, key: &str) -> (place: Option<usize>)
    ensures
        match place {
            Some(found) => {
                &&& found < entries@.len()
                &&& entries@[found as int].0@ == key@
                &&& forall|i: int| found < i < entries@.len() ==> (#[trigger] entries@[i]).0@ != key@
                &&& object_view(entries@).dom().contains(key@)
                &&& object_view(entries@)[key@] == entries@[found as int].1@
            },
            None => {
                &&& !object_view(entries@).dom().contains(key@)
                &&& forall|i: int| 0 <= i < entries@.len() ==> (#[trigger] entries@[i]).0@ != key@
            },
        },
{
    let mut place: usize = entries.len();
    while place > 0
        invariant
            place <= entries.len(),
            forall|i: int| place <= i < entries@.len() ==> (#[trigger] entries@[i]).0@ != key@,
        decreases place,
    {
        place -= 1;
        if same(entries[place].0.as_str(), key) {
            proof {
                lemma_object_prefix(entries@, place + 1, key@);
                let head = entries@.take(place + 1);
                assert(head.last() == entries@[place as int]);
                assert(object_view(head).dom().contains(key@));
            }
            return Some(place);
        }
    }
    proof {
        lemma_object_prefix(entries@, 0, key@);
        assert(entries@.take(0) =~= Seq::<(String, Json)>::empty());
    }
    None
}

proof fn lemma_array_view(items: Seq<Json>)
    ensures
        array_view(items).len() == items.len(),
        forall|i: int| 0 <= i < items.len() ==> #[trigger] array_view(items)[i] == items[i]@,
    decreases items.len(),
{
    if items.len() > 0 {
        let front = items.drop_last();
        lemma_array_view(front);
        assert forall|i: int| 0 <= i < items.len() implies #[trigger] array_view(items)[i]
            == items[i]@ by {
            if i < front.len() {
                assert(array_view(front)[i] == front[i]@);
                assert(front[i] == items[i]);
            }
        }
    }
}

/// The views of the items, one by one.
pub broadcast proof fn lemma_array_items(items: Seq<Json>)
    ensures
        #![trigger array_view(items)]
        array_view(items).len() == items.len(),
        forall|i: int| 0 <= i < items.len() ==> #[trigger] array_view(items)[i] == items[i]@,
{
    lemma_array_view(items);
}

/// An item more.
pub proof fn lemma_array_push(items: Seq<Json>, item: Json)
    ensures
        array_view(items.push(item)) == array_view(items).push(item@),
{
    assert(items.push(item).drop_last() =~= items);
}

/// The entry under the key of the value, if there is one.
pub fn get_in<'a>(value: Option<&'a Json>, key: &str) -> (found: Option<&'a Json>)
    ensures
        json_maybe(found) == json_in(json_maybe(value), key@),
{
    match value {
        Some(json) => json.get(key),
        None => None,
    }
}

/// What a pointer's step `0` leads to from the value, if there is one.
pub fn first_in<'a>(value: Option<&'a Json>) -> (found: Option<&'a Json>)
    ensures
        json_maybe(found) == json_first(json_maybe(value)),
{
    match value {
        Some(Json::Array(items)) => if items.len() > 0 {
            proof {
                lemma_array_view(items@);
            }
            assert(array_view(items@)[0] == items@[0]@);
            Some(&items[0])
        } else {
            proof {
                lemma_array_view(items@);
            }
            None
        },
        Some(json) => json.get("0"),
        None => None,
    }
}

/// The text that the value is, if there is one.
pub fn text_in<'a>(value: Option<&'a Json>) -> (text: Option<&'a str>)
    ensures
        match text {
            Some(found) => json_text(json_maybe(value)) == Some(found@),
            None => json_text(json_maybe(value)) is None,
        },
{
    match value {
        Some(json) => json.as_str(),
        None => None,
    }
}

/// The text that the value is, as a text of its own.
pub fn owned_text(value: Option<&Json>) -> (text: Option<String>)
    ensures
        match text {
            Some(found) => json_text(json_maybe(value)) == Some(found@),
            None => json_text(json_maybe(value)) is None,
        },
{
    match text_in(value) {
        Some(text) => Some(text.to_owned()),
        None => None,
    }
}

impl Json {
    /// An object without entries.
    pub fn object() -> (json: Json)
        ensures
            json@ == JsonView::Object(Map::empty()),
    {
        let entries: Vec<(String, Json)> = Vec::new();
        Json::Object(entries)
    }

    /// A text.
    pub fn text(text: &str) -> (json: Json)
        ensures
            json@ == JsonView::Text(text@),
    {
        Json::Text(text.to_owned())
    }

    /// This object with an entry more.
    pub fn with(self, key: &str, value: Json) -> (json: Json)
        requires
            self@ is Object,
        ensures
            json@ == JsonView::Object(self@->Object_0.insert(key@, value@)),
    {
        match self {
            Json::Object(mut entries) => {
                let ghost before = entries@;
                entries.push((key.to_owned(), value));
                assert(entries@.drop_last() =~= before);
                Json::Object(entries)
            },
            other => other,
        }
    }

    /// Sets the entry of an object.
    pub fn insert(&mut self, key: &str, value: Json)
        requires
            old(self)@ is Object,
        ensures
            final(self)@ == JsonView::Object(old(self)@->Object_0.insert(key@, value@)),
    {
        if let Json::Object(entries) = self {
            let ghost before = entries@;
            entries.push((key.to_owned(), value));
            assert(entries@.drop_last() =~= before);
        }
    }

    /// This object without the entry of the key.
    pub fn without(&self, key: &str) -> (json: Json)
        ensures
            match self@ {
                JsonView::Object(entries) => json@ == JsonView::Object(entries.remove(key@)),
                other => json@ == other,
            },
    {
        match self {
            Json::Object(entries) => {
                let mut kept: Vec<(String, Json)> = Vec::new();
                let mut place: usize = 0;
                assert(entries@.take(0) =~= Seq::<(String, Json)>::empty());
                assert(object_view(kept@) =~= object_view(entries@.take(0)).remove(key@));
                while place < entries.len()
                    invariant
                        place <= entries@.len(),
                        object_view(kept@) == object_view(entries@.take(place as int)).remove(key@),
                    decreases entries@.len() - place,
                {
                    let ghost more = entries@.take(place + 1);
                    assert(more.drop_last() =~= entries@.take(place as int));
                    if !same(entries[place].0.as_str(), key) {
                        let ghost before = kept@;
                        kept.push((entries[place].0.clone(), entries[place].1.copy()));
                        assert(kept@.drop_last() =~= before);
                    }
                    assert(object_view(kept@) =~= object_view(more).remove(key@));
                    place += 1;
                }
                assert(entries@.take(place as int) =~= entries@);
                Json::Object(kept)
            },
            other => other.copy(),
        }
    }

    /// The entry of an object under the key.
    pub fn get(&self, key: &str) -> (value: Option<&Json>)
        ensures
            match value {
                Some(found) => json_get(self@, key@) == Some(found@),
                None => json_get(self@, key@) is None,
            },
    {
        match self {
            Json::Object(entries) => match find_entry(entries, key) {
                Some(place) => Some(&entries[place].1),
                None => None,
            },
            _ => None,
        }
    }

    pub fn is_object(&self) -> (result: bool)
        ensures
            result == (self@ is Object),
    {
        match self {
            Json::Object(_) => true,
            _ => false,
        }
    }

    /// The text that the value is.
    pub fn as_str(&self) -> (text: Option<&str>)
        ensures
            match text {
                Some(found) => json_text(Some(self@)) == Some(found@),
                None => json_text(Some(self@)) is None,
            },
    {
        match self {
            Json::Text(text) => Some(text.as_str()),
            _ => None,
        }
    }

    /// The number that the value is.
    pub fn as_u64(&self) -> (number: Option<u64>)
        ensures
            number == json_u64(Some(self@)),
    {
        match self {
            Json::Unsigned(number) => Some(*number),
            Json::Signed(number) => if *number >= 0 {
                Some(*number as u64)
            } else {
                None
            },
            _ => None,
        }
    }

    /// The truth value that the value is.
    pub fn as_bool(&self) -> (truth: Option<bool>)
        ensures
            truth == json_bool(Some(self@)),
    {
        match self {
            Json::Bool(truth) => Some(*truth),
            _ => None,
        }
    }

    /// The items of an array.
    pub fn as_array(&self) -> (items: Option<&Vec<Json>>)
        ensures
            match items {
                Some(found) => json_items(Some(self@)) == Some(array_view(found@)),
                None => json_items(Some(self@)) is None,
            },
    {
        match self {
            Json::Array(items) => Some(items),
            _ => None,
        }
    }

    /// The text under the key.
    pub fn text_at(&self, key: &str) -> (text: Option<&str>)
        ensures
            match text {
                Some(found) => json_text(json_get(self@, key@)) == Some(found@),
                None => json_text(json_get(self@, key@)) is None,
            },
    {
        match self.get(key) {
            Some(value) => value.as_str(),
            None => None,
        }
    }

    /// The number under the key.
    pub fn u64_at(&self, key: &str) -> (number: Option<u64>)
        ensures
            number == json_u64(json_get(self@, key@)),
    {
        match self.get(key) {
            Some(value) => value.as_u64(),
            None => None,
        }
    }

    /// A value that is the same.
    pub fn copy(&self) -> (json: Json)
        ensures
            json@ == self@,
        decreases self,
    {
        match self {
            Json::Null => Json::Null,
            Json::Bool(value) => Json::Bool(*value),
            Json::Unsigned(number) => Json::Unsigned(*number),
            Json::Signed(number) => Json::Signed(*number),
            Json::Float(float) => Json::Float(JsonFloat { number: float.number.clone() }),
            Json::Text(text) => Json::Text(text.clone()),
            Json::Array(items) => {
                let mut list: Vec<Json> = Vec::new();
                let mut place: usize = 0;
                assert(items@.take(0) =~= Seq::<Json>::empty());
                while place < items.len()
                    invariant
                        place <= items.len(),
                        *self == Json::Array(*items),
                        array_view(list@) == array_view(items@.take(place as int)),
                    decreases items.len() - place,
                {
                    assert(items@.take(place + 1).drop_last() =~= items@.take(place as int));
                    assert(decreases_to!(*self => self->Array_0));
                    assert(decreases_to!(self->Array_0 => self->Array_0@));
                    assert(decreases_to!(self->Array_0@ => self->Array_0@[place as int]));
                    assert(decreases_to!(*self => items@[place as int]));
                    let item = items[place].copy();
                    proof {
                        lemma_array_push(list@, item);
                    }
                    list.push(item);
                    place += 1;
                }
                assert(items@.take(place as int) =~= items@);
                Json::Array(list)
            },
            Json::Object(entries) => {
                let mut list: Vec<(String, Json)> = Vec::new();
                let mut place: usize = 0;
                assert(entries@.take(0) =~= Seq::<(String, Json)>::empty());
                while place < entries.len()
                    invariant
                        place <= entries.len(),
                        *self == Json::Object(*entries),
                        object_view(list@) == object_view(entries@.take(place as int)),
                    decreases entries.len() - place,
                {
                    assert(entries@.take(place + 1).drop_last() =~= entries@.take(place as int));
                    assert(decreases_to!(*self => self->Object_0));
                    assert(decreases_to!(self->Object_0 => self->Object_0@));
                    assert(decreases_to!(self->Object_0@ => self->Object_0@[place as int]));
                    assert(decreases_to!(self->Object_0@[place as int] => self->Object_0@[place as int].1));
                    assert(decreases_to!(*self => entries@[place as int].1));
                    let value = entries[place].1.copy();
                    let ghost before = list@;
                    list.push((entries[place].0.clone(), value));
                    assert(list@.drop_last() =~= before);
                    place += 1;
                }
                assert(entries@.take(place as int) =~= entries@);
                Json::Object(list)
            },
        }
    }
}

} // verus!
