//! Reading and changing the top level of a TOML document.
use vstd::prelude::*;

verus! {

/// The error of a text that is no TOML document.
#[verifier::external_type_specification]
#[verifier::external_body]
pub struct ExTomlError(toml_edit::TomlError);

/// The items at the top level of a TOML document by their keys; nothing where the
/// text is no document. Of an item this says which boolean it is, where it is
/// one; which keys it has, where it is a table, inline or not; and how it is
/// printed: a value with the comment behind it, a table as the lines under its
/// header.
pub uninterp spec fn toml_root(text: Seq<char>) -> Option<
    Map<Seq<char>, (Option<bool>, Option<Set<Seq<char>>>, Seq<char>)>,
>;

/// A TOML document after a key at its top level was set to a boolean.
pub uninterp spec fn toml_with_bool(text: Seq<char>, key: Seq<char>, value: bool) -> Seq<char>;

/// `toml_edit` parses a document (`DocumentMut::from_str`) and looks for a key in
/// the root table (`Table::contains_key`). Parsing depends on the text alone, and
/// the key is found exactly where the root table has it. What the error of a
/// text that cannot be parsed holds is not said.
#[verifier::external_body]
pub(crate) fn root_has_key(text: &str, key: &str) -> (r: Result<bool, toml_edit::TomlError>)
    ensures
        r is Ok <==> toml_root(text@) is Some,
        r matches Ok(found) ==> found == toml_root(text@)->0.contains_key(key@),
{
    let document = text.parse::<toml_edit::DocumentMut>()?;
    Ok(document.as_table().contains_key(key))
}

/// `toml_edit` parses a document, takes an item of the root table as a table
/// (`Table::get`, `Item::as_table_like`) and looks for a key in it
/// (`TableLike::contains_key`). There is no answer where the item is missing or
/// no table.
#[verifier::external_body]
pub(crate) fn table_has_key(text: &str, table: &str, key: &str) -> (r: Result<Option<bool>, toml_edit::TomlError>)
    ensures
        r is Ok <==> toml_root(text@) is Some,
        r matches Ok(found) ==> found == (if toml_root(text@)->0.contains_key(table@) {
            match toml_root(text@)->0[table@].1 {
                Some(keys) => Some(keys.contains(key@)),
                None => None,
            }
        } else {
            None
        }),
{
    let document = text.parse::<toml_edit::DocumentMut>()?;
    let item = document.as_table().get(table);
    Ok(item.and_then(toml_edit::Item::as_table_like).map(|keys| keys.contains_key(key)))
}

/// `toml_edit` parses a document, assigns a boolean to a key of the root table
/// (`DocumentMut::index_mut`, `toml_edit::value`) and prints the document. The
/// printed text depends on the text, the key and the value alone; read again, it
/// has the key that was set with the value that it was set to, and every other
/// item as it was. What the error of a text that cannot be parsed holds is not
/// said, nor where comments of their own lines stand: those of a table that the
/// boolean replaces go with it.
#[verifier::external_body]
pub(crate) fn with_root_bool(text: &str, key: &str, value: bool) -> (r: Result<String, toml_edit::TomlError>)
    ensures
        r is Ok <==> toml_root(text@) is Some,
        r matches Ok(s) ==> s@ == toml_with_bool(text@, key@, value),
        r matches Ok(s) ==> toml_root(s@) is Some && toml_root(s@)->0.contains_key(key@),
        r matches Ok(s) ==> toml_root(s@)->0[key@].0 == Some(value),
        r matches Ok(s) ==> toml_root(s@)->0.remove(key@) == toml_root(text@)->0.remove(key@),
{
    let mut document = text.parse::<toml_edit::DocumentMut>()?;
    document[key] = toml_edit::value(value);
    Ok(document.to_string())
}

} // verus!
