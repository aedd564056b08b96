//! A TOML document as a tree of plain values, and the parser that reads one.
use vstd::prelude::*;

verus! {

/// `toml::Value`, a parsed TOML value.
#[verifier::external_type_specification]
#[verifier::external_body]
pub struct ExTomlValue(toml::Value);

/// A TOML value. A table keeps its entries in order. Of a float only its
/// kind is kept, of a date and time its text.
#[derive(Debug, PartialEq)]
pub enum TomlValue {
    Text(String),
    Integer(i64),
    Float,
    Boolean(bool),
    Datetime(String),
    Array(Vec<TomlValue>),
    Table(Vec<(String, TomlValue)>),
}

/// What `toml::Value::from_str` makes of a text: the value that it reads,
/// or nothing where it reports an error.
pub uninterp spec fn toml_parsed(text: Seq<char>) -> Option<toml::Value>;

/// A `toml::Value` as a tree of plain values: each variant as the variant of
/// the same kind, an array with its items in order, a table with its entries
/// in the order of `toml::map::Map::iter`.
pub uninterp spec fn toml_tree(value: toml::Value) -> TomlValue;

/// The document that a text is, as a tree of plain values; nothing where the
/// text is no TOML document.
pub open spec fn toml_document(text: Seq<char>) -> Option<TomlValue> {
    match toml_parsed(text) {
        Some(value) => Some(toml_tree(value)),
        None => None,
    }
}

/// Calls `toml::Value::from_str`, which parses a whole TOML document and
/// returns an error on text that is none. The result depends on the text
/// alone.
#[verifier::external_body]
fn toml_from_str(content: &str) -> (value: Option<toml::Value>)
    ensures
        value == toml_parsed(content@),
{
    content.parse::<toml::Value>().ok()
}

/// Turns a `toml::Value` into the library's tree. It tells the variants of
/// `toml::Value` apart and moves what each holds: a string, an integer and a
/// boolean as they are, a date and time as the text that its `to_string`
/// gives, the items of an array in order, and the entries of a table in the
/// order of `toml::map::Map::iter`, each item and entry turned in the same
/// way. The result depends on the value alone.
#[verifier::external_body]
fn convert_toml(value: &toml::Value) -> (tree: TomlValue)
    ensures
        tree == toml_tree(*value),
{
    match value {
        toml::Value::String(s) => TomlValue::Text(s.clone()),
        toml::Value::Integer(i) => TomlValue::Integer(*i),
        toml::Value::Float(_) => TomlValue::Float,
        toml::Value::Boolean(b) => TomlValue::Boolean(*b),
        toml::Value::Datetime(d) => TomlValue::Datetime(d.to_string()),
        toml::Value::Array(a) => TomlValue::Array(a.iter().map(convert_toml).collect()),
        toml::Value::Table(t) => TomlValue::Table(
            t.iter().map(|(k, v)| (k.clone(), convert_toml(v))).collect(),
        ),
    }
}

/// Reads a text as a TOML document.
pub fn parse_toml(content: &str) -> (doc: Option<TomlValue>)
    ensures
        doc == toml_document(content@),
{
    match toml_from_str(content) {
        Some(value) => Some(convert_toml(&value)),
        None => None,
    }
}

/// The value of the first entry with the given key.
pub open spec fn lookup(entries: Seq<(String, TomlValue)>, key: Seq<char>) -> Option<TomlValue>
    decreases entries.len(),
{
    if entries.len() == 0 {
        None
    } else if entries[0].0@ == key {
        Some(entries[0].1)
    } else {
        lookup(entries.drop_first(), key)
    }
}

impl TomlValue {
    /// The value under `key`, where this value is a table that has the key.
    pub open spec fn member(self, key: Seq<char>) -> Option<TomlValue> {
        match self {
            TomlValue::Table(entries) => lookup(entries@, key),
            _ => None,
        }
    }

    /// The text of this value, where it is a string.
    pub open spec fn text(self) -> Option<Seq<char>> {
        match self {
            TomlValue::Text(s) => Some(s@),
            _ => None,
        }
    }

    /// The value under `key`, where this value is a table that has the key.
    pub fn get(&self, key: &str) -> (r: Option<&TomlValue>)
        ensures
            match r {
                Some(value) => self.member(key@) == Some(*value),
                None => self.member(key@) is None,
            },
    {
        match self {
            TomlValue::Table(entries) => {
                let wanted: String = key.to_owned();
                let mut i: usize = 0;
                proof {
                    assert(entries@.skip(0) == entries@);
                }
                while i < entries.len()
                    invariant
                        i <= entries.len(),
                        wanted@ == key@,
                        self.member(key@) == lookup(entries@, key@),
                        lookup(entries@, key@) == lookup(entries@.skip(i as int), key@),
                    decreases entries.len() - i,
                {
                    proof {
                        assert(entries@.skip(i as int).drop_first() == entries@.skip(i + 1));
                    }
                    if entries[i].0 == wanted {
                        return Some(&entries[i].1);
                    }
                    i += 1;
                }
                None
            },
            _ => None,
        }
    }

    /// The text of this value, where it is a string.
    pub fn as_str(&self) -> (r: Option<&str>)
        ensures
            match r {
                Some(s) => self.text() == Some(s@),
                None => self.text() is None,
            },
    {
        match self {
            TomlValue::Text(s) => Some(s.as_str()),
            _ => None,
        }
    }
}

} // verus!
