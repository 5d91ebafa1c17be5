//! A spanned TOML document tree, produced by the `toml` crate's parser.

use vstd::prelude::*;

verus! {

/// Byte range of a value in the parsed document.
#[derive(Debug, Clone, Copy, PartialEq, Eq)]
pub struct Span {
    /// Starting byte offset.
    pub start: usize,
    /// Ending byte offset.
    pub end: usize,
}

/// A TOML value with the spans of its nested items.
#[derive(Debug)]
pub enum TomlValue {
    /// A string.
    String(String),
    /// An integer, as written in the document.
    Integer(String),
    /// A float, as written in the document.
    Float(String),
    /// A boolean.
    Boolean(bool),
    /// A date or time, as displayed by `toml`.
    Datetime(String),
    /// An array of items.
    Array(Vec<TomlItem>),
    /// A table: its entries in key order.
    Table(Vec<TomlEntry>),
}

/// A value and where it stands in the document.
#[derive(Debug)]
pub struct TomlItem {
    /// The value.
    pub value: TomlValue,
    /// Where the value is written.
    pub span: Span,
}

/// One key of a table with its value.
#[derive(Debug)]
pub struct TomlEntry {
    /// The key.
    pub key: String,
    /// Where the key is written.
    pub key_span: Span,
    /// The value of the key.
    pub item: TomlItem,
}

/// A TOML syntax error.
#[derive(Debug)]
pub struct TomlSyntaxError {
    /// What went wrong.
    pub message: String,
    /// Where it went wrong, when known.
    pub span: Option<Span>,
}

#[verifier::external_type_specification]
#[verifier::external_body]
pub struct ExDeValue<'i>(toml::de::DeValue<'i>);

#[verifier::external_type_specification]
#[verifier::external_body]
#[verifier::reject_recursive_types(T)]
pub struct ExSpanned<T>(toml::Spanned<T>);

#[verifier::external_type_specification]
#[verifier::external_body]
#[verifier::reject_recursive_types(K)]
#[verifier::reject_recursive_types(V)]
pub struct ExTomlMap<K, V>(toml::map::Map<K, V>);

#[verifier::external_type_specification]
#[verifier::external_body]
pub struct ExDeArray<'i>(toml::de::DeArray<'i>);

/// The document tree that `toml::de::DeTable::parse` gives for `content`, or
/// its syntax error, converted one for one into this module's types.
pub uninterp spec fn toml_document(content: Seq<char>) -> Result<TomlItem, TomlSyntaxError>;

/// Parses a TOML document into a spanned tree.
///
/// Trusted: calls `toml::de::DeTable::parse` and converts its result; the
/// contract only names that result as a function of the document text.
#[verifier::external_body]
pub(crate) fn parse_toml_document(content: &str) -> (res: Result<TomlItem, TomlSyntaxError>)
    ensures
        res == toml_document(content@),
{
    match toml::de::DeTable::parse(content) {
        Ok(doc) => {
            let span = doc.span();
            let entries = convert_de_table(doc.get_ref());
            Ok(TomlItem { value: TomlValue::Table(entries), span: Span { start: span.start, end: span.end } })
        },
        Err(error) => Err(TomlSyntaxError {
            message: error.message().to_owned(),
            span: error.span().map(|r| Span { start: r.start, end: r.end }),
        }),
    }
}

/// Converts one parsed `toml` value into a `TomlItem`, variant for variant.
#[verifier::external_body]
fn convert_de_value(value: &toml::de::DeValue<'_>, start: usize, end: usize) -> TomlItem {
    let value = match value {
        toml::de::DeValue::String(s) => TomlValue::String(s.to_string()),
        toml::de::DeValue::Integer(i) => TomlValue::Integer(i.to_string()),
        toml::de::DeValue::Float(f) => TomlValue::Float(f.to_string()),
        toml::de::DeValue::Boolean(b) => TomlValue::Boolean(*b),
        toml::de::DeValue::Datetime(d) => TomlValue::Datetime(d.to_string()),
        toml::de::DeValue::Array(a) => TomlValue::Array(convert_de_array(a)),
        toml::de::DeValue::Table(t) => TomlValue::Table(convert_de_table(t)),
    };
    TomlItem { value, span: Span { start, end } }
}

/// Converts the items of a parsed `toml` array, in order.
#[verifier::external_body]
fn convert_de_array(array: &toml::de::DeArray<'_>) -> Vec<TomlItem> {
    array.iter().map(|v| convert_de_value(v.get_ref(), v.span().start, v.span().end)).collect()
}

/// Converts the entries of a parsed `toml` table, in the table's key order.
#[verifier::external_body]
fn convert_de_table(table: &toml::de::DeTable<'_>) -> Vec<TomlEntry> {
    table.iter().map(|(k, v)| TomlEntry {
        key: k.get_ref().to_string(),
        key_span: Span { start: k.span().start, end: k.span().end },
        item: convert_de_value(v.get_ref(), v.span().start, v.span().end),
    }).collect()
}

} // verus!
