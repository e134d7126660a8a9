//! JSON documents as plain values, and the fields that the rules read of them.
use crate::text;
use vstd::prelude::*;
use vstd::string::*;

verus! {

/// `serde_json::Value`, a parsed document of the JSON crate.
#[verifier::external_type_specification]
#[verifier::external_body]
pub struct ExJsonDocument(serde_json::Value);

/// `serde_json::Number`, a number of the JSON crate.
#[verifier::external_type_specification]
#[verifier::external_body]
pub struct ExJsonNumber(serde_json::Number);

/// A JSON number: the number itself, and the readings that callers ask for.
#[derive(Debug)]
pub struct JsonNumber {
    /// The number as an unsigned integer, where it is one.
    pub unsigned: Option<u64>,
    /// The number as a signed integer, where it is one.
    pub signed: Option<i64>,
    /// The number as it is written.
    pub text: String,
    /// The number as the JSON crate holds it.
    pub number: serde_json::Number,
}

/// A JSON document. The keys of an object are distinct.
#[derive(Debug)]
pub enum JsonValue {
    Null,
    Bool(bool),
    Number(JsonNumber),
    Text(String),
    Array(Vec<JsonValue>),
    Object(Vec<(String, JsonValue)>),
}

/// What a [`JsonValue`] stands for.
pub enum JsonView {
    Null,
    Bool(bool),
    Number(Option<u64>, Option<i64>, Seq<char>, serde_json::Number),
    Text(Seq<char>),
    Array(Seq<JsonView>),
    Object(Seq<(Seq<char>, JsonView)>),
}

impl View for JsonValue {
    type V = JsonView;

    open spec fn view(&self) -> JsonView
        decreases self,
    {
        match self {
            JsonValue::Null => JsonView::Null,
            JsonValue::Bool(held) => JsonView::Bool(*held),
            JsonValue::Number(number) => JsonView::Number(
                number.unsigned,
                number.signed,
                number.text@,
                number.number,
            ),
            JsonValue::Text(held) => JsonView::Text(held@),
            JsonValue::Array(items) => JsonView::Array(
                Seq::new(
                    items@.len(),
                    |i: int|
                        if 0 <= i < items@.len() {
                            items@[i].view()
                        } else {
                            JsonView::Null
                        },
                ),
            ),
            JsonValue::Object(fields) => JsonView::Object(
                Seq::new(
                    fields@.len(),
                    |i: int|
                        if 0 <= i < fields@.len() {
                            (fields@[i].0@, fields@[i].1.view())
                        } else {
                            (Seq::empty(), JsonView::Null)
                        },
                ),
            ),
        }
    }
}

/// The items of an array, as what they stand for.
pub open spec fn items_view(items: Seq<JsonValue>) -> Seq<JsonView> {
    Seq::new(items.len(), |i: int| items[i]@)
}

/// The fields of an object, as what they stand for.
pub open spec fn fields_view(fields: Seq<(String, JsonValue)>) -> Seq<(Seq<char>, JsonView)> {
    Seq::new(fields.len(), |i: int| (fields[i].0@, fields[i].1@))
}

/// What an optional document stands for.
pub open spec fn json_of(value: Option<JsonValue>) -> Option<JsonView> {
    match value {
        Some(held) => Some(held@),
        None => None,
    }
}

/// What an optional borrowed document stands for.
pub open spec fn json_ref(value: Option<&JsonValue>) -> Option<JsonView> {
    match value {
        Some(held) => Some(held@),
        None => None,
    }
}

/// An array stands for what its items stand for.
pub broadcast proof fn lemma_array_view(items: Vec<JsonValue>)
    ensures
        #[trigger] JsonValue::Array(items)@ == JsonView::Array(items_view(items@)),
{
    reveal_with_fuel(<JsonValue as View>::view, 2);
    assert(JsonValue::Array(items)@->Array_0 =~= items_view(items@));
}

/// An object stands for what its fields stand for.
pub broadcast proof fn lemma_object_view(fields: Vec<(String, JsonValue)>)
    ensures
        #[trigger] JsonValue::Object(fields)@ == JsonView::Object(fields_view(fields@)),
{
    reveal_with_fuel(<JsonValue as View>::view, 2);
    assert(JsonValue::Object(fields)@->Object_0 =~= fields_view(fields@));
}

/// The value of the field `key`, where there is one.
pub open spec fn lookup(fields: Seq<(Seq<char>, JsonView)>, key: Seq<char>) -> Option<JsonView>
    decreases fields.len(),
{
    if fields.len() == 0 {
        None
    } else if fields[0].0 == key {
        Some(fields[0].1)
    } else {
        lookup(fields.drop_first(), key)
    }
}

/// Whether there is a field `key`.
pub open spec fn has_key(fields: Seq<(Seq<char>, JsonView)>, key: Seq<char>) -> bool {
    exists|i: int| 0 <= i < fields.len() && #[trigger] fields[i].0 == key
}

/// Whether no two fields have the same key.
pub open spec fn distinct_keys(fields: Seq<(Seq<char>, JsonView)>) -> bool {
    forall|i: int, j: int|
        0 <= i < j < fields.len() ==> #[trigger] fields[i].0 != #[trigger] fields[j].0
}

/// The fields after `key` has been given a value: in place where the key is
/// there, at the end where it is not.
pub open spec fn with_field(
    fields: Seq<(Seq<char>, JsonView)>,
    key: Seq<char>,
    value: JsonView,
) -> Seq<(Seq<char>, JsonView)>
    decreases fields.len(),
{
    if fields.len() == 0 {
        seq![(key, value)]
    } else if fields[0].0 == key {
        fields.update(0, (key, value))
    } else {
        seq![fields[0]] + with_field(fields.drop_first(), key, value)
    }
}

impl JsonView {
    /// The field `key` of an object; nothing for any other value.
    pub open spec fn get(self, key: Seq<char>) -> Option<JsonView> {
        match self {
            JsonView::Object(fields) => lookup(fields, key),
            _ => None,
        }
    }

    /// The characters of a text; nothing for any other value.
    pub open spec fn as_text(self) -> Option<Seq<char>> {
        match self {
            JsonView::Text(held) => Some(held),
            _ => None,
        }
    }

    /// The truth value of a boolean; nothing for any other value.
    pub open spec fn as_bool(self) -> Option<bool> {
        match self {
            JsonView::Bool(held) => Some(held),
            _ => None,
        }
    }

    /// A number as an unsigned integer; nothing for any other value.
    pub open spec fn as_u64(self) -> Option<u64> {
        match self {
            JsonView::Number(unsigned, _, _, _) => unsigned,
            _ => None,
        }
    }

    /// A number as a signed integer; nothing for any other value.
    pub open spec fn as_i64(self) -> Option<i64> {
        match self {
            JsonView::Number(_, signed, _, _) => signed,
            _ => None,
        }
    }

    /// The items of an array; nothing for any other value.
    pub open spec fn as_array(self) -> Option<Seq<JsonView>> {
        match self {
            JsonView::Array(items) => Some(items),
            _ => None,
        }
    }

    /// The field `second` of the field `first`.
    pub open spec fn get_within(self, first: Seq<char>, second: Seq<char>) -> Option<JsonView> {
        match self.get(first) {
            Some(held) => held.get(second),
            None => None,
        }
    }

    /// The characters of the text field `key`.
    pub open spec fn text_field(self, key: Seq<char>) -> Option<Seq<char>> {
        match self.get(key) {
            Some(held) => held.as_text(),
            None => None,
        }
    }

    /// The truth value of the boolean field `key`.
    pub open spec fn bool_field(self, key: Seq<char>) -> Option<bool> {
        match self.get(key) {
            Some(held) => held.as_bool(),
            None => None,
        }
    }
}

/// The text `text`, or null.
pub open spec fn text_or_null(value: Option<Seq<char>>) -> JsonView {
    match value {
        Some(held) => JsonView::Text(held),
        None => JsonView::Null,
    }
}

/// The truth value, or null.
pub open spec fn bool_or_null(value: Option<bool>) -> JsonView {
    match value {
        Some(held) => JsonView::Bool(held),
        None => JsonView::Null,
    }
}

/// The number of the JSON crate for an unsigned integer.
pub uninterp spec fn unsigned_number(value: u64) -> serde_json::Number;

/// The number of the JSON crate for a signed integer.
pub uninterp spec fn integer_number(value: i64) -> serde_json::Number;

/// `serde_json::Number::from` on an unsigned integer: the number depends on the
/// integer alone.
#[verifier::external_body]
fn hold_unsigned(value: u64) -> (number: serde_json::Number)
    ensures
        number == unsigned_number(value),
{
    serde_json::Number::from(value)
}

/// `serde_json::Number::from` on a signed integer: the number depends on the
/// integer alone.
#[verifier::external_body]
fn hold_signed(value: i64) -> (number: serde_json::Number)
    ensures
        number == integer_number(value),
{
    serde_json::Number::from(value)
}

/// `serde_json::Number::clone`: the same number.
#[verifier::external_body]
fn copy_number(number: &serde_json::Number) -> (copy: serde_json::Number)
    ensures
        copy == *number,
{
    number.clone()
}

/// An unsigned integer as a JSON number.
pub open spec fn number(value: u64) -> JsonView {
    JsonView::Number(
        Some(value),
        if value <= i64::MAX {
            Some(value as i64)
        } else {
            None
        },
        text::decimal(value as nat),
        unsigned_number(value),
    )
}

/// A key that is there is looked up, and one that is looked up is there.
pub proof fn lemma_lookup_finds(fields: Seq<(Seq<char>, JsonView)>, key: Seq<char>)
    ensures
        (lookup(fields, key) is Some) == has_key(fields, key),
    decreases fields.len(),
{
    if fields.len() > 0 {
        let rest = fields.drop_first();
        lemma_lookup_finds(rest, key);
        if fields[0].0 == key {
            assert(has_key(fields, key));
        } else if has_key(rest, key) {
            let i = choose|i: int| 0 <= i < rest.len() && #[trigger] rest[i].0 == key;
            assert(fields[i + 1].0 == key);
        } else if has_key(fields, key) {
            let i = choose|i: int| 0 <= i < fields.len() && #[trigger] fields[i].0 == key;
            assert(rest[i - 1].0 == key);
        }
    }
}

/// A field that has been given a value has that value; the others keep theirs.
pub proof fn lemma_with_field_lookup(
    fields: Seq<(Seq<char>, JsonView)>,
    key: Seq<char>,
    value: JsonView,
    other: Seq<char>,
)
    ensures
        lookup(with_field(fields, key, value), other) == (if other == key {
            Some(value)
        } else {
            lookup(fields, other)
        }),
    decreases fields.len(),
{
    let updated = with_field(fields, key, value);
    reveal_with_fuel(lookup, 2);
    if fields.len() == 0 {
        assert(updated.drop_first() =~= Seq::<(Seq<char>, JsonView)>::empty());
    } else if fields[0].0 == key {
        assert(updated.drop_first() =~= fields.drop_first());
    } else {
        let rest = fields.drop_first();
        lemma_with_field_lookup(rest, key, value, other);
        assert(updated.drop_first() =~= with_field(rest, key, value));
        assert(updated[0] == fields[0]);
    }
}

/// Giving a field a value adds at most its key.
pub proof fn lemma_with_field_keys(
    fields: Seq<(Seq<char>, JsonView)>,
    key: Seq<char>,
    value: JsonView,
)
    ensures
        forall|other: Seq<char>| #[trigger]
            has_key(with_field(fields, key, value), other) == (other == key || has_key(
                fields,
                other,
            )),
{
    assert forall|other: Seq<char>| #[trigger]
        has_key(with_field(fields, key, value), other) == (other == key || has_key(
            fields,
            other,
        )) by {
        lemma_with_field_lookup(fields, key, value, other);
        lemma_lookup_finds(fields, other);
        lemma_lookup_finds(with_field(fields, key, value), other);
    }
}

/// Giving a field a value keeps the keys distinct.
pub proof fn lemma_with_field_distinct(
    fields: Seq<(Seq<char>, JsonView)>,
    key: Seq<char>,
    value: JsonView,
)
    requires
        distinct_keys(fields),
    ensures
        distinct_keys(with_field(fields, key, value)),
    decreases fields.len(),
{
    let updated = with_field(fields, key, value);
    if fields.len() == 0 {
    } else if fields[0].0 == key {
        assert forall|i: int, j: int| 0 <= i < j < updated.len() implies #[trigger] updated[i].0
            != #[trigger] updated[j].0 by {
            assert(fields[i].0 != fields[j].0);
        }
    } else {
        let rest = fields.drop_first();
        assert forall|i: int, j: int| 0 <= i < j < rest.len() implies #[trigger] rest[i].0
            != #[trigger] rest[j].0 by {
            assert(fields[i + 1].0 != fields[j + 1].0);
        }
        lemma_with_field_distinct(rest, key, value);
        lemma_with_field_keys(rest, key, value);
        let tail = with_field(rest, key, value);
        assert(updated =~= seq![fields[0]] + tail);
        assert forall|i: int, j: int| 0 <= i < j < updated.len() implies #[trigger] updated[i].0
            != #[trigger] updated[j].0 by {
            assert(updated[j] == tail[j - 1]);
            if i > 0 {
                assert(updated[i] == tail[i - 1]);
            } else {
                assert(has_key(tail, updated[j].0));
                if has_key(rest, updated[j].0) {
                    let at = choose|at: int| 0 <= at < rest.len() && #[trigger] rest[at].0 == updated[j].0;
                    assert(fields[0].0 != fields[at + 1].0);
                }
            }
        }
    }
}

// ---- Reading -----------------------------------------------------------

/// The field `key` among `fields`.
pub fn field<'a>(fields: &'a Vec<(String, JsonValue)>, key: &str) -> (value: Option<&'a JsonValue>)
    ensures
        json_ref(value) == lookup(fields_view(fields@), key@),
{
    let ghost all = fields_view(fields@);
    let mut i: usize = 0;
    assert(all.skip(0) =~= all);
    while i < fields.len()
        invariant
            i <= fields@.len(),
            all == fields_view(fields@),
            lookup(all, key@) == lookup(all.skip(i as int), key@),
        decreases fields@.len() - i,
    {
        assert(all.skip(i as int)[0] == (fields@[i as int].0@, fields@[i as int].1@));
        if text::same_text(fields[i].0.as_str(), key) {
            return Some(&fields[i].1);
        }
        assert(all.skip(i as int).drop_first() =~= all.skip(i + 1));
        i = i + 1;
    }
    None
}

impl JsonValue {
    /// The field `key` of an object; nothing for any other value.
    pub fn get(&self, key: &str) -> (value: Option<&JsonValue>)
        ensures
            json_ref(value) == self@.get(key@),
    {
        match self {
            JsonValue::Object(fields) => {
                proof {
                    lemma_object_view(*fields);
                }
                field(fields, key)
            },
            _ => None,
        }
    }

    /// The characters of a text; nothing for any other value.
    pub fn as_text(&self) -> (text: Option<&str>)
        ensures
            text::str_of(text) == self@.as_text(),
    {
        match self {
            JsonValue::Text(held) => Some(held.as_str()),
            _ => None,
        }
    }

    /// The truth value of a boolean; nothing for any other value.
    pub fn as_bool(&self) -> (held: Option<bool>)
        ensures
            held == self@.as_bool(),
    {
        match self {
            JsonValue::Bool(held) => Some(*held),
            _ => None,
        }
    }

    /// A number as an unsigned integer; nothing for any other value.
    pub fn as_u64(&self) -> (held: Option<u64>)
        ensures
            held == self@.as_u64(),
    {
        match self {
            JsonValue::Number(held) => held.unsigned,
            _ => None,
        }
    }

    /// A number as a signed integer; nothing for any other value.
    pub fn as_i64(&self) -> (held: Option<i64>)
        ensures
            held == self@.as_i64(),
    {
        match self {
            JsonValue::Number(held) => held.signed,
            _ => None,
        }
    }

    /// The items of an array; nothing for any other value.
    pub fn as_array(&self) -> (items: Option<&Vec<JsonValue>>)
        ensures
            match items {
                Some(held) => self@.as_array() == Some(items_view(held@)),
                None => self@.as_array() is None,
            },
    {
        match self {
            JsonValue::Array(items) => {
                proof {
                    lemma_array_view(*items);
                }
                Some(items)
            },
            _ => None,
        }
    }

    /// The field `second` of the field `first`.
    pub fn get_within(&self, first: &str, second: &str) -> (value: Option<&JsonValue>)
        ensures
            json_ref(value) == self@.get_within(first@, second@),
    {
        match self.get(first) {
            Some(held) => held.get(second),
            None => None,
        }
    }

    /// The characters of the text field `key`.
    pub fn text_field(&self, key: &str) -> (text: Option<&str>)
        ensures
            text::str_of(text) == self@.text_field(key@),
    {
        match self.get(key) {
            Some(held) => held.as_text(),
            None => None,
        }
    }

    /// The truth value of the boolean field `key`.
    pub fn bool_field(&self, key: &str) -> (held: Option<bool>)
        ensures
            held == self@.bool_field(key@),
    {
        match self.get(key) {
            Some(held) => held.as_bool(),
            None => None,
        }
    }

    /// A copy of the document.
    pub fn duplicate(&self) -> (copy: JsonValue)
        ensures
            copy@ == self@,
        decreases self,
    {
        match self {
            JsonValue::Null => JsonValue::Null,
            JsonValue::Bool(held) => JsonValue::Bool(*held),
            JsonValue::Number(held) => JsonValue::Number(
                JsonNumber {
                    unsigned: held.unsigned,
                    signed: held.signed,
                    text: held.text.clone(),
                    number: copy_number(&held.number),
                },
            ),
            JsonValue::Text(held) => JsonValue::Text(held.clone()),
            JsonValue::Array(items) => {
                let mut copies: Vec<JsonValue> = Vec::new();
                let mut i: usize = 0;
                while i < items.len()
                    invariant
                        self == JsonValue::Array(*items),
                        i <= items@.len(),
                        copies@.len() == i,
                        forall|j: int| 0 <= j < i ==> #[trigger] copies@[j]@ == items@[j]@,
                    decreases items@.len() - i,
                {
                    assert(decreases_to!(*self => self->Array_0@[i as int]));
                    copies.push(items[i].duplicate());
                    i = i + 1;
                }
                proof {
                    lemma_array_view(copies);
                    lemma_array_view(*items);
                    assert(items_view(copies@) =~= items_view(items@));
                }
                JsonValue::Array(copies)
            },
            JsonValue::Object(fields) => {
                let mut copies: Vec<(String, JsonValue)> = Vec::new();
                let mut i: usize = 0;
                while i < fields.len()
                    invariant
                        self == JsonValue::Object(*fields),
                        i <= fields@.len(),
                        copies@.len() == i,
                        forall|j: int|
                            0 <= j < i ==> #[trigger] copies@[j].0@ == fields@[j].0@ && copies@[j].1@
                                == fields@[j].1@,
                    decreases fields@.len() - i,
                {
                    assert(decreases_to!(*self => self->Object_0@[i as int].1));
                    copies.push((fields[i].0.clone(), fields[i].1.duplicate()));
                    i = i + 1;
                }
                proof {
                    lemma_object_view(copies);
                    lemma_object_view(*fields);
                    assert(fields_view(copies@) =~= fields_view(fields@));
                }
                JsonValue::Object(copies)
            },
        }
    }
}

// ---- Building ----------------------------------------------------------

/// A JSON text.
pub fn text_value(text: &str) -> (value: JsonValue)
    ensures
        value@ == JsonView::Text(text@),
{
    JsonValue::Text(text.to_owned())
}

/// A JSON text, or null.
pub fn optional_text(text: Option<&str>) -> (value: JsonValue)
    ensures
        value@ == text_or_null(text::str_of(text)),
{
    match text {
        Some(held) => text_value(held),
        None => JsonValue::Null,
    }
}

/// A JSON boolean, or null.
pub fn optional_bool(held: Option<bool>) -> (value: JsonValue)
    ensures
        value@ == bool_or_null(held),
{
    match held {
        Some(held) => JsonValue::Bool(held),
        None => JsonValue::Null,
    }
}

/// A JSON number for an unsigned integer.
pub fn number_value(held: u64) -> (value: JsonValue)
    ensures
        value@ == number(held),
{
    let signed: Option<i64> = if held <= i64::MAX as u64 {
        Some(held as i64)
    } else {
        None
    };
    JsonValue::Number(
        JsonNumber {
            unsigned: Some(held),
            signed,
            text: text::decimal_text(held),
            number: hold_unsigned(held),
        },
    )
}

/// Adds a field behind those that are there.
pub fn add_field(fields: &mut Vec<(String, JsonValue)>, key: &str, value: JsonValue)
    ensures
        fields_view(final(fields)@) == fields_view(old(fields)@).push((key@, value@)),
{
    let ghost before = fields_view(fields@);
    let ghost held = value@;
    fields.push((key.to_owned(), value));
    assert(fields_view(fields@) =~= before.push((key@, held)));
}

/// Gives the field `key` a value, in place of the one it has.
pub fn set_field(fields: Vec<(String, JsonValue)>, key: &str, value: JsonValue) -> (updated: Vec<
    (String, JsonValue),
>)
    ensures
        fields_view(updated@) == with_field(fields_view(fields@), key@, value@),
{
    let ghost all = fields_view(fields@);
    let ghost held = value@;
    let mut updated = fields;
    let mut i: usize = 0;
    assert(all.skip(0) =~= all);
    assert(all.take(0) + with_field(all, key@, held) =~= with_field(all, key@, held));
    while i < updated.len()
        invariant
            i <= updated@.len(),
            value@ == held,
            all == fields_view(fields@),
            all == fields_view(updated@),
            with_field(all, key@, held) == all.take(i as int) + with_field(
                all.skip(i as int),
                key@,
                held,
            ),
        decreases updated@.len() - i,
    {
        let ghost rest = all.skip(i as int);
        assert(rest[0] == (updated@[i as int].0@, updated@[i as int].1@));
        if text::same_text(updated[i].0.as_str(), key) {
            let entry = (key.to_owned(), value);
            updated.set(i, entry);
            assert(fields_view(updated@) =~= all.update(i as int, (key@, held)));
            assert(with_field(rest, key@, held) == rest.update(0, (key@, held)));
            assert(fields_view(updated@) =~= all.take(i as int) + with_field(rest, key@, held));
            return updated;
        }
        assert(rest.drop_first() =~= all.skip(i + 1));
        assert(all.take(i as int) + with_field(rest, key@, held) =~= all.take(i + 1) + with_field(
            all.skip(i + 1),
            key@,
            held,
        ));
        i = i + 1;
    }
    updated.push((key.to_owned(), value));
    assert(fields_view(updated@) =~= all.take(i as int) + with_field(all.skip(i as int), key@, held));
    updated
}

/// The digits of a signed integer, behind a sign where it is negative.
pub open spec fn signed_decimal(value: i64) -> Seq<char> {
    if value < 0 {
        "-"@ + text::decimal((-value) as nat)
    } else {
        text::decimal(value as nat)
    }
}

/// A signed integer as a JSON number.
pub open spec fn signed_number(value: i64) -> JsonView {
    JsonView::Number(
        if value < 0 {
            None
        } else {
            Some(value as u64)
        },
        Some(value),
        signed_decimal(value),
        integer_number(value),
    )
}

/// A signed integer as a JSON number.
pub fn signed_value(held: i64) -> (value: JsonValue)
    ensures
        value@ == signed_number(held),
{
    if held < 0 {
        let size: u64 = if held == i64::MIN {
            0x8000_0000_0000_0000
        } else {
            (-held) as u64
        };
        let mut digits = "-".to_owned();
        digits.append(text::decimal_text(size).as_str());
        JsonValue::Number(
            JsonNumber {
                unsigned: None,
                signed: Some(held),
                text: digits,
                number: hold_signed(held),
            },
        )
    } else {
        JsonValue::Number(
            JsonNumber {
                unsigned: Some(held as u64),
                signed: Some(held),
                text: text::decimal_text(held as u64),
                number: hold_signed(held),
            },
        )
    }
}

// ---- Documents of the JSON crate ----------------------------------------

/// The tree that a document of the JSON crate holds: its variants as they
/// are, an object's fields in the order in which its map hands them out.
pub uninterp spec fn document_tree(document: serde_json::Value) -> JsonView;

/// The tree of the document that a text spells, where it spells one.
pub uninterp spec fn parsed_json(text: Seq<char>) -> Option<JsonView>;

/// The message of the error that a text gives which spells no document.
pub uninterp spec fn parse_failure(text: Seq<char>) -> Seq<char>;

/// `serde_json::from_str` into `serde_json::Value`, and the display of its
/// error: whether a text spells a document, the tree that this document holds
/// and the message where there is none depend on the text alone.
#[verifier::external_body]
fn read_document(text: &str) -> (document: Result<serde_json::Value, String>)
    ensures
        match document {
            Ok(held) => parsed_json(text@) == Some(document_tree(held)),
            Err(message) => parsed_json(text@) is None && message@ == parse_failure(text@),
        },
{
    serde_json::from_str::<serde_json::Value>(text).map_err(|error| error.to_string())
}

/// Takes a `serde_json::Value` apart, variant for variant: a number as it is, with
/// `Number::as_u64`, `Number::as_i64` and its display, an object through the
/// iterator of its map.
#[verifier::external_body]
fn open_document(document: serde_json::Value) -> (tree: JsonValue)
    ensures
        tree@ == document_tree(document),
{
    match document {
        serde_json::Value::Null => JsonValue::Null,
        serde_json::Value::Bool(held) => JsonValue::Bool(held),
        serde_json::Value::Number(number) => {
            let (unsigned, signed) = (number.as_u64(), number.as_i64());
            JsonValue::Number(JsonNumber { unsigned, signed, text: number.to_string(), number })
        },
        serde_json::Value::String(held) => JsonValue::Text(held),
        serde_json::Value::Array(all) => JsonValue::Array(all.into_iter().map(open_document).collect()),
        serde_json::Value::Object(held) => JsonValue::Object(
            held.into_iter().map(|(key, value)| (key, open_document(value))).collect(),
        ),
    }
}

/// The document of the JSON crate that is built from a tree.
pub uninterp spec fn document_of(tree: JsonView) -> serde_json::Value;

/// The compact text of a document of the JSON crate.
pub uninterp spec fn document_text(document: serde_json::Value) -> Seq<char>;

/// The compact JSON text of a tree.
pub open spec fn rendered_json(tree: JsonView) -> Seq<char> {
    document_text(document_of(tree))
}

/// Builds the `serde_json::Value` of a tree, variant for variant: a number is the
/// one that the tree holds, an object is collected into its map.
#[verifier::external_body]
fn build_document(tree: &JsonValue) -> (document: serde_json::Value)
    ensures
        document == document_of(tree@),
{
    match tree {
        JsonValue::Null => serde_json::Value::Null,
        JsonValue::Bool(held) => serde_json::Value::Bool(*held),
        JsonValue::Number(held) => serde_json::Value::Number(held.number.clone()),
        JsonValue::Text(held) => serde_json::Value::String(held.clone()),
        JsonValue::Array(held) => held.iter().map(build_document).collect(),
        JsonValue::Object(held) => held.iter().map(
            |entry| (entry.0.clone(), build_document(&entry.1)),
        ).collect(),
    }
}

/// The display of a `serde_json::Value`, which is its compact JSON text.
#[verifier::external_body]
fn write_document(document: &serde_json::Value) -> (text: String)
    ensures
        text@ == document_text(*document),
{
    document.to_string()
}

/// The compact JSON text of a document.
pub fn render_json(tree: &JsonValue) -> (text: String)
    ensures
        text@ == rendered_json(tree@),
{
    write_document(&build_document(tree))
}

/// The document that a text spells, else why it spells none.
pub fn parse_json_or_message(text: &str) -> (tree: Result<JsonValue, String>)
    ensures
        match tree {
            Ok(tree) => parsed_json(text@) == Some(tree@),
            Err(message) => parsed_json(text@) is None && message@ == parse_failure(text@),
        },
{
    match read_document(text) {
        Ok(document) => Ok(open_document(document)),
        Err(message) => Err(message),
    }
}

/// The document that a text spells, where it spells one.
pub fn parse_json(text: &str) -> (tree: Option<JsonValue>)
    ensures
        json_of(tree) == parsed_json(text@),
{
    match parse_json_or_message(text) {
        Ok(tree) => Some(tree),
        Err(_) => None,
    }
}

/// A field is found under its key wherever it stands, so long as no field before
/// it has the same key.
pub proof fn law_field_is_found(fields: Seq<(Seq<char>, JsonView)>, i: int)
    requires
        0 <= i < fields.len(),
        forall|j: int| 0 <= j < i ==> (#[trigger] fields[j]).0 != fields[i].0,
    ensures
        JsonView::Object(fields).get(fields[i].0) == Some(fields[i].1),
    decreases fields.len(),
{
    if i > 0 {
        assert(fields[0].0 != fields[i].0);
        let rest = fields.drop_first();
        assert forall|j: int| 0 <= j < i - 1 implies (#[trigger] rest[j]).0 != rest[i - 1].0 by {
            assert(rest[j] == fields[j + 1]);
        }
        law_field_is_found(rest, i - 1);
    }
}

/// A key that no field has is not found, whatever the fields hold.
pub proof fn law_absent_field_is_not_found(fields: Seq<(Seq<char>, JsonView)>, key: Seq<char>)
    requires
        forall|j: int| 0 <= j < fields.len() ==> (#[trigger] fields[j]).0 != key,
    ensures
        JsonView::Object(fields).get(key) is None,
    decreases fields.len(),
{
    if fields.len() > 0 {
        law_absent_field_is_not_found(fields.drop_first(), key);
    }
}

/// A number that is held is read back as itself, signed or not, where it fits, and
/// is written in decimal, a negative one with its sign.
pub proof fn law_numbers_are_held_as_they_are(value: u64, signed: i64)
    ensures
        number(value).as_u64() == Some(value),
        value <= i64::MAX ==> number(value).as_i64() == Some(value as i64),
        value > i64::MAX ==> number(value).as_i64() is None,
        signed_number(signed).as_i64() == Some(signed),
        signed >= 0 ==> signed_number(signed).as_u64() == Some(signed as u64),
        signed < 0 ==> signed_number(signed).as_u64() is None,
        signed >= 0 ==> signed_decimal(signed) == text::decimal(signed as nat),
        signed < 0 ==> signed_decimal(signed) == "-"@ + text::decimal((-signed) as nat),
{
}

/// A field that is set holds what was set, and every other field what it held.
pub proof fn law_set_field_holds_its_value(
    fields: Seq<(Seq<char>, JsonView)>,
    key: Seq<char>,
    value: JsonView,
    other: Seq<char>,
)
    requires
        other != key,
    ensures
        JsonView::Object(with_field(fields, key, value)).get(key) == Some(value),
        JsonView::Object(with_field(fields, key, value)).get(other) == JsonView::Object(fields).get(
            other,
        ),
{
    lemma_with_field_lookup(fields, key, value, key);
    lemma_with_field_lookup(fields, key, value, other);
}

} // verus!
