//! Reading VS Code's recent-folder history into entries.

use vstd::prelude::*;
use crate::remote::{
    default_label, remote_key, remote_kind, spec_default_label, spec_remote_key,
    spec_remote_kind,
};
use crate::text::{has_prefix, push_text};

verus! {

#[verifier::external_type_specification]
#[verifier::external_body]
pub struct ExJsonError(serde_json::Error);

/// What `serde_json` gives for the document `text` when asked, member by
/// member, for the array member `list_key` and, of each of its elements, the
/// string members `first_key` and `second_key`: `None` when `text` is not
/// JSON; `Some(None)` when the document has no such array member.
pub uninterp spec fn spec_json_member_strings(
    text: Seq<char>,
    list_key: Seq<char>,
    first_key: Seq<char>,
    second_key: Seq<char>,
) -> Option<Option<Seq<(Option<Seq<char>>, Option<Seq<char>>)>>>;

/// The view of an optional string.
pub open spec fn opt_view(s: Option<String>) -> Option<Seq<char>> {
    match s {
        Some(s) => Some(s@),
        None => None,
    }
}

/// The view of the string pairs that the JSON reader hands back.
pub open spec fn pairs_view(v: Seq<(Option<String>, Option<String>)>) -> Seq<
    (Option<Seq<char>>, Option<Seq<char>>),
> {
    v.map_values(|p: (Option<String>, Option<String>)| (opt_view(p.0), opt_view(p.1)))
}

/// The view of what the JSON reader hands back on success.
pub open spec fn records_view(r: Option<Vec<(Option<String>, Option<String>)>>) -> Option<
    Seq<(Option<Seq<char>>, Option<Seq<char>>)>,
> {
    match r {
        Some(v) => Some(pairs_view(v@)),
        None => None,
    }
}

/// Parses `text` with `serde_json::from_str::<serde_json::Value>` and reads
/// from the document, with `Value::get` and `Value::as_array`, its array
/// member `list_key`, and of each element, with `Value::get` and
/// `Value::as_str`, the string members `first_key` and `second_key`. The
/// result is named `spec_json_member_strings`.
#[verifier::external_body]
fn json_member_strings(text: &str, list_key: &str, first_key: &str, second_key: &str) -> (res:
    Result<Option<Vec<(Option<String>, Option<String>)>>, serde_json::Error>)
    ensures
        match res {
            Ok(r) => spec_json_member_strings(text@, list_key@, first_key@, second_key@) == Some(
                records_view(r),
            ),
            Err(_) => spec_json_member_strings(text@, list_key@, first_key@, second_key@) is None,
        },
{
    let value: serde_json::Value = serde_json::from_str(text)?;
    Ok(value.get(list_key).and_then(serde_json::Value::as_array).map(|items| {
        items.iter().map(|item| (
            item.get(first_key).and_then(serde_json::Value::as_str).map(str::to_owned),
            item.get(second_key).and_then(serde_json::Value::as_str).map(str::to_owned),
        )).collect()
    }))
}

/// The lower-case equivalent of a string, as `str::to_lowercase` computes it
/// by the Unicode lower-case mappings.
pub uninterp spec fn spec_to_lowercase(s: Seq<char>) -> Seq<char>;

/// Wraps `str::to_lowercase`; its result is named `spec_to_lowercase`.
#[verifier::external_body]
pub(crate) fn to_lowercase(s: &str) -> (res: String)
    ensures
        res@ == spec_to_lowercase(s@),
{
    s.to_lowercase()
}

/// A recent folder, as the picker lists it.
#[derive(Clone, Debug)]
pub struct Entry {
    pub uri: String,
    pub label: String,
    pub remote: String,
    pub remote_key: String,
    pub search_key: String,
}

/// The label of a folder: its own label when non-empty, else the default one.
pub open spec fn spec_entry_label(uri: Seq<char>, label: Option<Seq<char>>) -> Seq<char> {
    match label {
        Some(l) => if l.len() > 0 {
            l
        } else {
            spec_default_label(uri)
        },
        None => spec_default_label(uri),
    }
}

/// `e` is the entry made from a folder URI and its optional label.
pub open spec fn is_entry_for(e: Entry, uri: Seq<char>, label: Option<Seq<char>>) -> bool {
    let l = spec_entry_label(uri, label);
    &&& e.uri@ == uri
    &&& e.label@ == l
    &&& e.remote@ == spec_remote_kind(uri)
    &&& e.remote_key@ == spec_remote_key(uri)
    &&& e.search_key@ == spec_to_lowercase(l) + " "@ + spec_to_lowercase(uri)
}

/// The folders of the history items `(folderUri, label)`: the items with a
/// non-empty folder URI, in order (single-file items have none).
pub open spec fn history_folders(items: Seq<(Option<Seq<char>>, Option<Seq<char>>)>) -> Seq<
    (Seq<char>, Option<Seq<char>>),
>
    decreases items.len(),
{
    if items.len() == 0 {
        seq![]
    } else {
        let rest = history_folders(items.drop_last());
        match items.last().0 {
            Some(uri) => if uri.len() > 0 {
                rest.push((uri, items.last().1))
            } else {
                rest
            },
            None => rest,
        }
    }
}

/// `entries` are the entries made from `folders`, one for one, in order.
pub open spec fn entries_for(entries: Seq<Entry>, folders: Seq<(Seq<char>, Option<Seq<char>>)>) -> bool {
    &&& entries.len() == folders.len()
    &&& forall|i: int|
        0 <= i < entries.len() ==> is_entry_for(#[trigger] entries[i], folders[i].0, folders[i].1)
}

/// The entry made from a folder URI and its optional label.
pub fn make_entry(uri: &str, label: Option<&str>) -> (e: Entry)
    ensures
        is_entry_for(e, uri@, match label {
            Some(l) => Some(l@),
            None => None,
        }),
{
    let label = match label {
        Some(l) => if !l.is_empty() {
            l.to_owned()
        } else {
            default_label(uri)
        },
        None => default_label(uri),
    };
    let remote = remote_kind(uri);
    let key = remote_key(uri);
    let mut search_key = to_lowercase(label.as_str());
    push_text(&mut search_key, " ");
    let lowered_uri = to_lowercase(uri);
    push_text(&mut search_key, lowered_uri.as_str());
    Entry { uri: uri.to_owned(), label, remote, remote_key: key, search_key }
}

/// The message when the history document has no `entries` array.
pub open spec fn no_entries_message() -> Seq<char> {
    "history JSON does not contain an entries array"@
}

/// The entries of a history document whose `entries` items were read as
/// `(folderUri, label)` pairs; an error when the document has no such array.
pub fn entries_from_records(records: Option<Vec<(Option<String>, Option<String>)>>) -> (res: Result<
    Vec<Entry>,
    String,
>)
    ensures
        match records {
            None => res matches Err(m) && m@ == no_entries_message(),
            Some(items) => res matches Ok(entries) && entries_for(
                entries@,
                history_folders(pairs_view(items@)),
            ),
        },
{
    let items = match records {
        Some(items) => items,
        None => {
            return Err("history JSON does not contain an entries array".to_owned());
        },
    };
    let mut entries: Vec<Entry> = Vec::new();
    for i in 0..items.len()
        invariant
            entries_for(entries@, history_folders(pairs_view(items@.take(i as int)))),
    {
        let ghost before = pairs_view(items@.take(i as int));
        assert(pairs_view(items@.take(i + 1)).drop_last() == before);
        assert(pairs_view(items@.take(i + 1)).last() == pairs_view(items@)[i as int]);
        let (uri, label) = &items[i];
        if let Some(uri) = uri {
            if !uri.as_str().is_empty() {
                let label = match label {
                    Some(l) => Some(l.as_str()),
                    None => None,
                };
                let e = make_entry(uri.as_str(), label);
                entries.push(e);
            }
        }
    }
    assert(items@.take(items@.len() as int) == items@);
    Ok(entries)
}

/// What reading the history document `json` gives: the entries of its
/// folders, an error naming invalid JSON, or an error when it has no
/// `entries` array.
pub open spec fn parsed_as(json: Seq<char>, res: Result<Vec<Entry>, String>) -> bool {
    match spec_json_member_strings(json, "entries"@, "folderUri"@, "label"@) {
        None => res matches Err(m) && has_prefix(m@, "invalid history JSON: "@),
        Some(None) => res matches Err(m) && m@ == no_entries_message(),
        Some(Some(items)) => res matches Ok(entries) && entries_for(
            entries@,
            history_folders(items),
        ),
    }
}

/// Reads the entries of VS Code's recent-folder history document.
pub fn parse_entries(json: &str) -> (res: Result<Vec<Entry>, String>)
    ensures
        parsed_as(json@, res),
{
    match json_member_strings(json, "entries", "folderUri", "label") {
        Ok(records) => entries_from_records(records),
        Err(error) => {
            let mut message = "invalid history JSON: ".to_owned();
            let detail = error.to_string();
            let ghost prefix = "invalid history JSON: "@;
            push_text(&mut message, detail.as_str());
            assert(message@.take(prefix.len() as int) =~= prefix);
            Err(message)
        },
    }
}

} // verus!
