use vstd::prelude::*;
use vstd::string::*;

verus! {

/// A JSON value as the decoders of this library read it. Numbers are kept as
/// their text, since no decoder here reads one.
pub enum Json {
    Null,
    Bool(bool),
    Number(String),
    Text(String),
    List(Vec<Json>),
    Record(Vec<(String, Json)>),
}

#[verifier::external_type_specification]
#[verifier::external_body]
pub struct ExValue(serde_json::Value);

/// The value that `serde_json` reads from a whole text, or `None` where the
/// text is not one JSON value.
pub uninterp spec fn json_document(text: Seq<char>) -> Option<Json>;

/// Rewrites a `serde_json::Value` as a [`Json`], variant by variant: the
/// entries of an object in the order in which its map yields them. Nothing is
/// claimed of the result.
#[verifier::external_body]
fn json_of_value(value: &serde_json::Value) -> Json {
    match value {
        serde_json::Value::Null => Json::Null,
        serde_json::Value::Bool(b) => Json::Bool(*b),
        serde_json::Value::Number(n) => Json::Number(n.to_string()),
        serde_json::Value::String(s) => Json::Text(s.clone()),
        serde_json::Value::Array(items) => Json::List(items.iter().map(json_of_value).collect()),
        serde_json::Value::Object(fields) => Json::Record(
            fields.iter().map(|(k, v)| (k.clone(), json_of_value(v))).collect(),
        ),
    }
}

/// Calls `serde_json::from_str` for a `serde_json::Value`. The contract claims
/// only that the outcome is a function of the text: `None` stands for every
/// error of the parser.
#[verifier::external_body]
fn read_json(text: &str) -> (doc: Option<Json>)
    ensures
        doc == json_document(text@),
{
    match serde_json::from_str::<serde_json::Value>(text) {
        Ok(value) => Some(json_of_value(&value)),
        Err(_) => None,
    }
}

/// The value of the first entry of `fields`, at or after `from`, whose key is
/// `key`.
pub open spec fn entry_from(fields: Seq<(String, Json)>, key: Seq<char>, from: int) -> Option<Json>
    decreases fields.len() - from,
{
    if from < 0 || from >= fields.len() {
        None
    } else if fields[from].0@ == key {
        Some(fields[from].1)
    } else {
        entry_from(fields, key, from + 1)
    }
}

impl Json {
    /// The member `key` of an object; `None` for a value that is no object or
    /// has no such member.
    pub open spec fn member(self, key: Seq<char>) -> Option<Json> {
        match self {
            Json::Record(fields) => entry_from(fields@, key, 0),
            _ => None,
        }
    }

    /// The elements of an array.
    pub open spec fn items(self) -> Option<Seq<Json>> {
        match self {
            Json::List(items) => Some(items@),
            _ => None,
        }
    }

    /// The characters of a JSON string.
    pub open spec fn text(self) -> Option<Seq<char>> {
        match self {
            Json::Text(s) => Some(s@),
            _ => None,
        }
    }

    /// The truth value of a JSON boolean.
    pub open spec fn truth(self) -> Option<bool> {
        match self {
            Json::Bool(b) => Some(b),
            _ => None,
        }
    }

    /// The member `key` of an object, where it is there and is not `null`.
    pub open spec fn present(self, key: Seq<char>) -> Option<Json> {
        match self.member(key) {
            Some(Json::Null) => None,
            other => other,
        }
    }

    /// Reads one JSON value from a whole text.
    pub fn parse(text: &str) -> (doc: Option<Json>)
        ensures
            doc == json_document(text@),
    {
        read_json(text)
    }

    /// Looks a member of an object up by its key.
    pub fn get(&self, key: &str) -> (found: Option<&Json>)
        ensures
            match found {
                Some(value) => self.member(key@) == Some(*value),
                None => self.member(key@) is None,
            },
    {
        match self {
            Json::Record(fields) => {
                let wanted = String::from_str(key);
                let mut i: usize = 0;
                while i < fields.len()
                    invariant
                        i <= fields@.len(),
                        wanted@ == key@,
                        self.member(key@) == entry_from(fields@, key@, i as int),
                    decreases fields@.len() - i,
                {
                    let entry = &fields[i];
                    if entry.0 == wanted {
                        return Some(&entry.1);
                    }
                    i += 1;
                }
                None
            },
            _ => None,
        }
    }

    /// Looks up a member of an object that is there and is not `null`.
    pub fn get_present(&self, key: &str) -> (found: Option<&Json>)
        ensures
            match found {
                Some(value) => self.present(key@) == Some(*value),
                None => self.present(key@) is None,
            },
    {
        match self.get(key) {
            Some(Json::Null) => None,
            other => other,
        }
    }

    /// The characters of a JSON string, copied.
    pub fn as_text(&self) -> (found: Option<String>)
        ensures
            match found {
                Some(s) => self.text() == Some(s@),
                None => self.text() is None,
            },
    {
        match self {
            Json::Text(s) => Some(s.clone()),
            _ => None,
        }
    }

    /// The truth value of a JSON boolean.
    pub fn as_bool(&self) -> (found: Option<bool>)
        ensures
            found == self.truth(),
    {
        match self {
            Json::Bool(b) => Some(*b),
            _ => None,
        }
    }

    /// The string member `key` of an object.
    pub open spec fn text_member(self, key: Seq<char>) -> Option<Seq<char>> {
        match self.member(key) {
            Some(value) => value.text(),
            None => None,
        }
    }

    /// Looks a string member of an object up by its key.
    pub fn get_text(&self, key: &str) -> (found: Option<String>)
        ensures
            match found {
                Some(s) => self.text_member(key@) == Some(s@),
                None => self.text_member(key@) is None,
            },
    {
        match self.get(key) {
            Some(value) => value.as_text(),
            None => None,
        }
    }
}

} // verus!
