//! JSON documents as plain values.
//!
//! Reading and writing JSON text is `serde_json`'s work. What the library
//! inspects and builds is the [`Json`] tree below, whose meaning is given by
//! [`JsonView`]: an object is a finite map, so the order of its fields carries
//! nothing.

use vstd::prelude::*;
use crate::tools::FREEFORM_INPUT_PARAM;

verus! {

/// `serde_json::Value`, a parsed document.
#[verifier::external_type_specification]
#[verifier::external_body]
pub struct ExSerdeValue(serde_json::Value);

/// `serde_json::Number`, carried through unread except for [`integer_of`].
#[verifier::external_type_specification]
#[verifier::external_body]
pub struct ExSerdeNumber(serde_json::Number);

/// `serde_json::Error`, why a text could not be read.
#[verifier::external_type_specification]
#[verifier::external_body]
pub struct ExSerdeError(serde_json::Error);

/// A JSON document. Where an object names a key twice, the later entry counts.
#[derive(Debug, PartialEq)]
pub enum Json {
    Null,
    Bool(bool),
    Number(serde_json::Number),
    Text(String),
    Array(Vec<Json>),
    Object(Vec<(String, Json)>),
}

/// What a JSON document says.
pub enum JsonView {
    Null,
    Bool(bool),
    Number(serde_json::Number),
    Text(Seq<char>),
    Array(Seq<JsonView>),
    Object(Map<Seq<char>, JsonView>),
}

/// What the elements of an array say.
pub open spec fn items_view(items: Seq<Json>) -> Seq<JsonView>
    decreases items,
{
    if items.len() == 0 {
        Seq::empty()
    } else {
        items_view(items.drop_last()).push(items.last().view())
    }
}

/// What the fields of an object say.
pub open spec fn fields_view(fields: Seq<(String, Json)>) -> Map<Seq<char>, JsonView>
    decreases fields,
{
    if fields.len() == 0 {
        Map::empty()
    } else {
        fields_view(fields.drop_last()).insert(fields.last().0@, fields.last().1.view())
    }
}

impl Json {
    pub open spec fn view(&self) -> JsonView
        decreases self,
    {
        match self {
            Json::Null => JsonView::Null,
            Json::Bool(flag) => JsonView::Bool(*flag),
            Json::Number(number) => JsonView::Number(*number),
            Json::Text(text) => JsonView::Text(text@),
            Json::Array(items) => JsonView::Array(items_view(items@)),
            Json::Object(fields) => JsonView::Object(fields_view(fields@)),
        }
    }
}

/// The value a document holds under `key`, where it is an object that has it.
pub open spec fn field(json: JsonView, key: Seq<char>) -> Option<JsonView> {
    match json {
        JsonView::Object(fields) => if fields.contains_key(key) {
            Some(fields[key])
        } else {
            None
        },
        _ => None,
    }
}

/// The text a document is, where it is one.
pub open spec fn as_text(json: Option<JsonView>) -> Option<Seq<char>> {
    match json {
        Some(JsonView::Text(text)) => Some(text),
        _ => None,
    }
}

/// The elements of a document, where it is an array.
pub open spec fn as_items(json: Option<JsonView>) -> Option<Seq<JsonView>> {
    match json {
        Some(JsonView::Array(items)) => Some(items),
        _ => None,
    }
}

/// The integer a document is, where it is one that fits in 64 signed bits.
pub open spec fn as_integer(json: Option<JsonView>) -> Option<i64> {
    match json {
        Some(JsonView::Number(number)) => integer_of(number),
        _ => None,
    }
}

/// The text under `key`, where there is one.
pub open spec fn text_field(json: JsonView, key: Seq<char>) -> Option<Seq<char>> {
    as_text(field(json, key))
}

/// An object of one field, the text that a freeform tool takes.
pub open spec fn only_input(json: JsonView) -> bool {
    &&& json is Object
    &&& json->Object_0.dom() == set![FREEFORM_INPUT_PARAM@]
    &&& json->Object_0[FREEFORM_INPUT_PARAM@] is Text
}

/// What a parsed document holds.
pub uninterp spec fn contents(value: serde_json::Value) -> JsonView;

/// The words in which a `serde_json::Error` displays itself.
pub uninterp spec fn described(err: serde_json::Error) -> Seq<char>;

/// What `serde_json::Number::as_i64` reads out of a number.
pub uninterp spec fn integer_of(number: serde_json::Number) -> Option<i64>;

/// What `serde_json::from_str` makes of a text read as one document: what the
/// document says, or the words of the error.
pub uninterp spec fn parsed(text: Seq<char>) -> Result<JsonView, Seq<char>>;

/// What `serde_json::from_str` makes of a text read as a list of documents: what
/// each of them says, or the words of the error.
pub uninterp spec fn parsed_list(text: Seq<char>) -> Result<Seq<JsonView>, Seq<char>>;

/// The compact text that `serde_json` writes for a document.
pub uninterp spec fn written(json: JsonView) -> Seq<char>;

/// Reading the text gives a document that says `json`.
pub open spec fn reads_as(text: Seq<char>, json: JsonView) -> bool {
    parsed(text) == Ok::<JsonView, Seq<char>>(json)
}

/// What each of a list of parsed documents holds.
pub open spec fn contents_list(values: Seq<serde_json::Value>) -> Seq<JsonView> {
    values.map_values(|value: serde_json::Value| contents(value))
}

/// The outcome of reading one document.
pub open spec fn outcome_view(outcome: Result<Json, String>) -> Result<JsonView, Seq<char>> {
    match outcome {
        Ok(json) => Ok(json@),
        Err(err) => Err(err@),
    }
}

/// The outcome of reading a list of documents.
pub open spec fn list_outcome_view(outcome: Result<Vec<Json>, String>) -> Result<
    Seq<JsonView>,
    Seq<char>,
> {
    match outcome {
        Ok(items) => Ok(items_view(items@)),
        Err(err) => Err(err@),
    }
}

/// `serde_json::from_str` at the type `serde_json::Value`. What it reads, and the
/// words of its error, depend on the text alone.
#[verifier::external_body]
fn value_from_str(text: &str) -> (outcome: Result<serde_json::Value, serde_json::Error>)
    ensures
        match outcome {
            Ok(value) => reads_as(text@, contents(value)),
            Err(err) => parsed(text@) == Err::<JsonView, Seq<char>>(described(err)),
        },
{
    serde_json::from_str(text)
}

/// `serde_json::from_str` at the type `Vec<serde_json::Value>`. What it reads, and
/// the words of its error, depend on the text alone.
#[verifier::external_body]
fn values_from_str(text: &str) -> (outcome: Result<Vec<serde_json::Value>, serde_json::Error>)
    ensures
        match outcome {
            Ok(values) => parsed_list(text@) == Ok::<Seq<JsonView>, Seq<char>>(
                contents_list(values@),
            ),
            Err(err) => parsed_list(text@) == Err::<Seq<JsonView>, Seq<char>>(described(err)),
        },
{
    serde_json::from_str(text)
}

/// The display form of a `serde_json::Error`.
#[verifier::external_body]
fn error_to_string(err: &serde_json::Error) -> (text: String)
    ensures
        text@ == described(*err),
{
    err.to_string()
}

/// One level of a `serde_json::Value`, as plain values.
pub enum ValueParts {
    Null,
    Bool(bool),
    Number(serde_json::Number),
    Text(String),
    Array(Vec<serde_json::Value>),
    Object(Vec<(String, serde_json::Value)>),
}

/// What the entries of an object hold; the later of two with the same key counts.
pub open spec fn entries_contents(entries: Seq<(String, serde_json::Value)>) -> Map<
    Seq<char>,
    JsonView,
>
    decreases entries.len(),
{
    if entries.len() == 0 {
        Map::empty()
    } else {
        entries_contents(entries.drop_last()).insert(
            entries.last().0@,
            contents(entries.last().1),
        )
    }
}

/// What one level of a document and what is below it hold.
pub open spec fn parts_contents(parts: ValueParts) -> JsonView {
    match parts {
        ValueParts::Null => JsonView::Null,
        ValueParts::Bool(flag) => JsonView::Bool(flag),
        ValueParts::Number(number) => JsonView::Number(number),
        ValueParts::Text(text) => JsonView::Text(text@),
        ValueParts::Array(items) => JsonView::Array(contents_list(items@)),
        ValueParts::Object(entries) => JsonView::Object(entries_contents(entries@)),
    }
}

/// No key of an object stands twice.
pub open spec fn keys_differ(parts: ValueParts) -> bool {
    parts matches ValueParts::Object(entries) ==> forall|i: int, j: int|
        #![trigger entries@[i], entries@[j]]
        0 <= i < j < entries@.len() ==> entries@[i].0@ != entries@[j].0@
}

/// Takes one level of a `serde_json::Value` apart: each variant becomes the one of
/// the same kind. A `serde_json::Map` holds no key twice.
#[verifier::external_body]
fn take_apart(value: serde_json::Value) -> (parts: ValueParts)
    ensures
        parts_contents(parts) == contents(value),
        keys_differ(parts),
{
    match value {
        serde_json::Value::Null => ValueParts::Null,
        serde_json::Value::Bool(flag) => ValueParts::Bool(flag),
        serde_json::Value::Number(number) => ValueParts::Number(number),
        serde_json::Value::String(text) => ValueParts::Text(text),
        serde_json::Value::Array(items) => ValueParts::Array(items),
        serde_json::Value::Object(fields) => ValueParts::Object(fields.into_iter().collect()),
    }
}

/// Puts one level of a `serde_json::Value` together: each variant becomes the one
/// of the same kind. A `serde_json::Map` keeps the later of two entries for a key.
#[verifier::external_body]
fn put_together(parts: ValueParts) -> (value: serde_json::Value)
    ensures
        contents(value) == parts_contents(parts),
{
    match parts {
        ValueParts::Null => serde_json::Value::Null,
        ValueParts::Bool(flag) => serde_json::Value::Bool(flag),
        ValueParts::Number(number) => serde_json::Value::Number(number),
        ValueParts::Text(text) => serde_json::Value::String(text),
        ValueParts::Array(items) => serde_json::Value::Array(items),
        ValueParts::Object(entries) => serde_json::Value::Object(entries.into_iter().collect()),
    }
}

/// An object holds what each of its entries holds, where no key stands twice.
proof fn lemma_entry(entries: Seq<(String, serde_json::Value)>, i: int)
    requires
        0 <= i < entries.len(),
        forall|j: int, k: int|
            #![trigger entries[j], entries[k]]
            0 <= j < k < entries.len() ==> entries[j].0@ != entries[k].0@,
    ensures
        entries_contents(entries).contains_key(entries[i].0@),
        entries_contents(entries)[entries[i].0@] == contents(entries[i].1),
    decreases entries.len(),
{
    if i < entries.len() - 1 {
        assert(entries[i].0@ != entries[entries.len() - 1].0@);
        lemma_entry(entries.drop_last(), i);
    }
}

/// An object holds finitely many entries.
proof fn lemma_finite(entries: Seq<(String, serde_json::Value)>)
    ensures
        entries_contents(entries).dom().finite(),
    decreases entries.len(),
{
    broadcast use vstd::set::group_set_axioms;

    if entries.len() > 0 {
        lemma_finite(entries.drop_last());
    }
}

/// The plain values that say what a `serde_json::Value` holds.
fn json_of_value(value: serde_json::Value) -> (json: Json)
    ensures
        json@ == contents(value),
    decreases contents(value),
{
    let ghost whole = contents(value);
    match take_apart(value) {
        ValueParts::Null => Json::Null,
        ValueParts::Bool(flag) => Json::Bool(flag),
        ValueParts::Number(number) => Json::Number(number),
        ValueParts::Text(text) => Json::Text(text),
        ValueParts::Array(items) => {
            let ghost all = items@;
            let mut read: Vec<Json> = Vec::new();
            for item in it: items
                invariant
                    it.seq() == all,
                    whole == contents(value),
                    whole == JsonView::Array(contents_list(all)),
                    items_view(read@) == contents_list(all).take(it.index()),
            {
                let ghost i = it.index();
                assert(contents_list(all)[i] == contents(item));
                assert(decreases_to!(whole => whole->Array_0[i]));
                let json = json_of_value(item);
                proof {
                    lemma_items_push(read@, json);
                    assert(contents_list(all).take(i + 1) =~= contents_list(all).take(i).push(
                        contents(item),
                    ));
                }
                read.push(json);
            }
            assert(contents_list(all).take(all.len() as int) =~= contents_list(all));
            Json::Array(read)
        },
        ValueParts::Object(entries) => {
            let ghost all = entries@;
            let mut read: Vec<(String, Json)> = Vec::new();
            for entry in it: entries
                invariant
                    it.seq() == all,
                    whole == contents(value),
                    whole == JsonView::Object(entries_contents(all)),
                    forall|j: int, k: int|
                        #![trigger all[j], all[k]]
                        0 <= j < k < all.len() ==> all[j].0@ != all[k].0@,
                    fields_view(read@) == entries_contents(all.take(it.index())),
            {
                let ghost i = it.index();
                proof {
                    lemma_finite(all);
                    lemma_entry(all, i);
                    assert(decreases_to!(whole => whole->Object_0[all[i].0@]));
                    assert(all.take(i + 1).drop_last() =~= all.take(i));
                }
                let (key, item) = entry;
                let json = json_of_value(item);
                proof {
                    lemma_fields_push(read@, key, json);
                }
                read.push((key, json));
            }
            assert(all.take(all.len() as int) =~= all);
            Json::Object(read)
        },
    }
}

/// A `serde_json::Value` that holds what the plain values say.
fn value_of_json(json: &Json) -> (value: serde_json::Value)
    ensures
        contents(value) == json@,
    decreases json,
{
    match json {
        Json::Null => put_together(ValueParts::Null),
        Json::Bool(flag) => put_together(ValueParts::Bool(*flag)),
        Json::Number(number) => put_together(ValueParts::Number(copy_number(number))),
        Json::Text(text) => put_together(ValueParts::Text(text.clone())),
        Json::Array(items) => {
            let mut made: Vec<serde_json::Value> = Vec::new();
            assert(items_view(items@.take(0)) =~= contents_list(made@));
            for i in 0..items.len()
                invariant
                    json matches Json::Array(own) && own == items,
                    contents_list(made@) == items_view(items@.take(i as int)),
            {
                let ghost earlier = made@;
                assert(decreases_to!(json => items@[i as int]));
                let value = value_of_json(&items[i]);
                made.push(value);
                proof {
                    assert(items@.take(i + 1).drop_last() =~= items@.take(i as int));
                    assert(contents_list(made@) =~= contents_list(earlier).push(contents(value)));
                }
            }
            assert(items@.take(items@.len() as int) =~= items@);
            put_together(ValueParts::Array(made))
        },
        Json::Object(fields) => {
            let mut made: Vec<(String, serde_json::Value)> = Vec::new();
            for i in 0..fields.len()
                invariant
                    json matches Json::Object(own) && own == fields,
                    entries_contents(made@) == fields_view(fields@.take(i as int)),
            {
                let ghost earlier = made@;
                assert(decreases_to!(json => fields@[i as int].1));
                let value = value_of_json(&fields[i].1);
                made.push((fields[i].0.clone(), value));
                proof {
                    assert(fields@.take(i + 1).drop_last() =~= fields@.take(i as int));
                    assert(made@.drop_last() =~= earlier);
                }
            }
            assert(fields@.take(fields@.len() as int) =~= fields@);
            put_together(ValueParts::Object(made))
        },
    }
}

/// `serde_json::Value`'s display form, compact JSON. The text depends on what the
/// value says alone. Where the value is an object that holds nothing but the text a
/// freeform tool takes, reading it again gives the value back; of other values that
/// is left unsaid.
#[verifier::external_body]
fn value_to_string(value: &serde_json::Value) -> (text: String)
    ensures
        text@ == written(contents(*value)),
        only_input(contents(*value)) ==> reads_as(text@, contents(*value)),
{
    value.to_string()
}

/// `serde_json::Number::as_i64`: the integer, where the number is one that fits.
#[verifier::external_body]
fn number_as_i64(number: &serde_json::Number) -> (integer: Option<i64>)
    ensures
        integer == integer_of(*number),
{
    number.as_i64()
}

/// `serde_json::Number::clone`: the same number again.
#[verifier::external_body]
fn copy_number(number: &serde_json::Number) -> (copy: serde_json::Number)
    ensures
        copy == *number,
{
    number.clone()
}

/// Reads one JSON document.
pub fn parse(text: &str) -> (outcome: Result<Json, String>)
    ensures
        outcome_view(outcome) == parsed(text@),
{
    match value_from_str(text) {
        Ok(value) => Ok(json_of_value(value)),
        Err(err) => Err(error_to_string(&err)),
    }
}

/// Reads a JSON array as a list of documents.
pub fn parse_list(text: &str) -> (outcome: Result<Vec<Json>, String>)
    ensures
        list_outcome_view(outcome) == parsed_list(text@),
{
    let values = match values_from_str(text) {
        Ok(values) => values,
        Err(err) => return Err(error_to_string(&err)),
    };
    let ghost all = values@;
    let mut items: Vec<Json> = Vec::new();
    for value in it: values
        invariant
            it.seq() == all,
            items_view(items@) == contents_list(all).take(it.index()),
    {
        let item = json_of_value(value);
        proof {
            let i = it.index();
            lemma_items_push(items@, item);
            assert(contents_list(all).take(i + 1) =~= contents_list(all).take(i).push(
                contents(value),
            ));
        }
        items.push(item);
    }
    assert(contents_list(all).take(all.len() as int) =~= contents_list(all));
    Ok(items)
}

/// Appending an element appends what it says.
pub proof fn lemma_items_push(items: Seq<Json>, item: Json)
    ensures
        items_view(items.push(item)) == items_view(items).push(item@),
{
    assert(items.push(item).drop_last() =~= items);
}

/// Appending a field sets what the object says under its key.
pub proof fn lemma_fields_push(fields: Seq<(String, Json)>, key: String, value: Json)
    ensures
        fields_view(fields.push((key, value))) == fields_view(fields).insert(key@, value@),
{
    assert(fields.push((key, value)).drop_last() =~= fields);
}

/// The elements of an array say, one by one, what the array says.
pub proof fn lemma_items_view(items: Seq<Json>)
    ensures
        items_view(items).len() == items.len(),
        forall|i: int| 0 <= i < items.len() ==> (#[trigger] items_view(items)[i]) == items[i]@,
    decreases items.len(),
{
    if items.len() > 0 {
        lemma_items_view(items.drop_last());
    }
}

/// Sets a field of an object under construction.
pub fn put(fields: &mut Vec<(String, Json)>, key: &str, value: Json)
    ensures
        fields_view(final(fields)@) == fields_view(old(fields)@).insert(key@, value@),
{
    proof {
        reveal_with_fuel(fields_view, 2);
    }
    let name = key.to_owned();
    proof {
        lemma_fields_push(fields@, name, value);
    }
    fields.push((name, value));
}

impl Clone for Json {
    fn clone(&self) -> (copy: Self)
        ensures
            copy@ == self@,
        decreases self,
    {
        match self {
            Json::Null => Json::Null,
            Json::Bool(flag) => Json::Bool(*flag),
            Json::Number(number) => Json::Number(copy_number(number)),
            Json::Text(text) => Json::Text(text.clone()),
            Json::Array(items) => {
                let mut copies: Vec<Json> = Vec::new();
                for i in 0..items.len()
                    invariant
                        self matches Json::Array(own) && own == items,
                        items_view(copies@) == items_view(items@.take(i as int)),
                {
                    assert(decreases_to!(self => items@[i as int]));
                    let item = items[i].clone();
                    proof {
                        lemma_items_push(copies@, item);
                        assert(items@.take(i + 1).drop_last() =~= items@.take(i as int));
                    }
                    copies.push(item);
                }
                assert(items@.take(items@.len() as int) =~= items@);
                Json::Array(copies)
            },
            Json::Object(fields) => {
                let mut copies: Vec<(String, Json)> = Vec::new();
                for i in 0..fields.len()
                    invariant
                        self matches Json::Object(own) && own == fields,
                        fields_view(copies@) == fields_view(fields@.take(i as int)),
                {
                    assert(decreases_to!(self => fields@[i as int].1));
                    let key = fields[i].0.clone();
                    let item = fields[i].1.clone();
                    proof {
                        lemma_fields_push(copies@, key, item);
                        assert(fields@.take(i + 1).drop_last() =~= fields@.take(i as int));
                    }
                    copies.push((key, item));
                }
                assert(fields@.take(fields@.len() as int) =~= fields@);
                Json::Object(copies)
            },
        }
    }
}

impl Json {
    /// A document that is a text.
    pub fn text(text: &str) -> (json: Json)
        ensures
            json@ == JsonView::Text(text@),
    {
        Json::Text(text.to_owned())
    }

    /// The value under `key`, where the document is an object that has it.
    pub fn get(&self, key: &str) -> (value: Option<&Json>)
        ensures
            value matches Some(json) ==> field(self@, key@) == Some(json@),
            value is None ==> field(self@, key@) is None,
    {
        match self {
            Json::Object(fields) => {
                let mut i: usize = fields.len();
                assert(fields@.take(i as int) =~= fields@);
                while i > 0
                    invariant
                        i <= fields@.len(),
                        self@ == JsonView::Object(fields_view(fields@)),
                        fields_view(fields@).contains_key(key@) == fields_view(
                            fields@.take(i as int),
                        ).contains_key(key@),
                        fields_view(fields@).contains_key(key@) ==> fields_view(fields@)[key@]
                            == fields_view(fields@.take(i as int))[key@],
                    decreases i,
                {
                    assert(fields@.take(i as int).drop_last() =~= fields@.take(i - 1));
                    assert(fields@.take(i as int).last() == fields@[i - 1]);
                    i = i - 1;
                    if *fields[i].0.as_str() == *key {
                        return Some(&fields[i].1);
                    }
                }
                None
            },
            _ => None,
        }
    }

    /// The text the document is, where it is one.
    pub fn as_str(&self) -> (text: Option<&str>)
        ensures
            crate::text::str_option(text) == as_text(Some(self@)),
    {
        match self {
            Json::Text(text) => Some(text.as_str()),
            _ => None,
        }
    }

    /// The elements of the document, where it is an array.
    pub fn as_array(&self) -> (items: Option<&Vec<Json>>)
        ensures
            items matches Some(items) ==> as_items(Some(self@)) == Some(items_view(items@)),
            items is None ==> as_items(Some(self@)) is None,
    {
        match self {
            Json::Array(items) => Some(items),
            _ => None,
        }
    }

    /// The integer the document is, where it is one that fits.
    pub fn as_i64(&self) -> (integer: Option<i64>)
        ensures
            integer == as_integer(Some(self@)),
    {
        match self {
            Json::Number(number) => number_as_i64(number),
            _ => None,
        }
    }

    /// Whether the document is `null`.
    pub fn is_null(&self) -> (null: bool)
        ensures
            null == (self@ == JsonView::Null),
    {
        match self {
            Json::Null => true,
            _ => false,
        }
    }

    /// The text under `key`, where there is one.
    pub fn get_text(&self, key: &str) -> (text: Option<&str>)
        ensures
            crate::text::str_option(text) == text_field(self@, key@),
    {
        match self.get(key) {
            Some(value) => value.as_str(),
            None => None,
        }
    }

    /// The document as compact JSON text.
    pub fn to_text(&self) -> (text: String)
        ensures
            text@ == written(self@),
            only_input(self@) ==> reads_as(text@, self@),
    {
        value_to_string(&value_of_json(self))
    }
}

/// What stands under a key of an object is found under it, and nothing is found under
/// a key that it does not have, or in what is no object.
pub proof fn a_field_is_found_under_its_key(
    fields: Map<Seq<char>, JsonView>,
    key: Seq<char>,
    value: JsonView,
    json: JsonView,
)
    ensures
        field(JsonView::Object(fields.insert(key, value)), key) == Some(value),
        !fields.contains_key(key) ==> field(JsonView::Object(fields), key) is None,
        fields.contains_key(key) ==> field(JsonView::Object(fields), key) == Some(fields[key]),
        !(json is Object) ==> field(json, key) is None,
{
}

/// A document is read as what it is, and as nothing else.
pub proof fn a_document_is_read_as_what_it_is(json: JsonView)
    ensures
        as_text(None) is None,
        as_items(None) is None,
        as_integer(None) is None,
        match json {
            JsonView::Text(text) => as_text(Some(json)) == Some(text) && as_items(Some(json)) is None
                && as_integer(Some(json)) is None,
            JsonView::Array(items) => as_items(Some(json)) == Some(items) && as_text(Some(json)) is None
                && as_integer(Some(json)) is None,
            JsonView::Number(number) => as_integer(Some(json)) == integer_of(number) && as_text(
                Some(json),
            ) is None && as_items(Some(json)) is None,
            _ => as_text(Some(json)) is None && as_items(Some(json)) is None && as_integer(
                Some(json),
            ) is None,
        },
{
}

/// An object says what its entries say, and of two under one key the later counts.
pub proof fn the_later_entry_counts(
    fields: Seq<(String, Json)>,
    entry: (String, Json),
    key: Seq<char>,
)
    ensures
        fields_view(Seq::empty()) == Map::<Seq<char>, JsonView>::empty(),
        ({
            let before = fields_view(fields);
            let after = fields_view(fields.push(entry));
            if key == entry.0@ {
                after.contains_key(key) && after[key] == entry.1@
            } else {
                &&& after.contains_key(key) == before.contains_key(key)
                &&& before.contains_key(key) ==> after[key] == before[key]
            }
        }),
{
    lemma_fields_push(fields, entry.0, entry.1);
}

} // verus!
