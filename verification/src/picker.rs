//! The state behind the picker window: the entries, which of them the list
//! shows, the remote groups of the remote filter, and a load error.

use vstd::prelude::*;
use crate::filter::{matching_indexes, query_tokens, shows_exactly, tokens_of_query};
use crate::groups::{key_count, remote_groups, text_lt};
use crate::history::Entry;
use crate::remote::{remote_group_display, spec_remote_group_display};
use crate::text::{chars_of, decimal_digits, push_decimal, push_text};

verus! {

/// The text of a list row: the label, four spaces, and the remote in brackets.
pub open spec fn row_text(e: Entry) -> Seq<char> {
    e.label@ + "    ["@ + e.remote@ + "]"@
}

/// The first item of the remote filter.
pub open spec fn all_remotes_label(n: nat) -> Seq<char> {
    "All remotes ("@ + decimal_digits(n) + ")"@
}

/// The item of the remote filter for a group.
pub open spec fn group_label(key: Seq<char>, count: nat) -> Seq<char> {
    spec_remote_group_display(key) + " ("@ + decimal_digits(count) + ")"@
}

/// The view of an optional string.
pub open spec fn key_view(k: Option<String>) -> Option<Seq<char>> {
    match k {
        Some(s) => Some(s@),
        None => None,
    }
}

/// What the list shows instead of rows: the load error, else a note when
/// there are no entries or none matches; nothing when rows are shown.
pub open spec fn list_message(load_error: Option<Seq<char>>, entries: nat, shown: nat) -> Option<
    Seq<char>,
> {
    match load_error {
        Some(e) => Some(e),
        None => if entries == 0 {
            Some("No recent folders found"@)
        } else if shown == 0 {
            Some("No matching folders"@)
        } else {
            None
        },
    }
}

/// What to put in the list: the message alone if there is one, else the rows.
pub struct ListContent {
    pub message: Option<String>,
    pub rows: Vec<String>,
}

/// The items of the remote filter and the group keys behind them: first
/// `All remotes`, then one per remote group in key order with its count.
pub open spec fn remote_items_for(
    keys: Seq<Option<Seq<char>>>,
    labels: Seq<Seq<char>>,
    entries: Seq<Entry>,
) -> bool {
    &&& keys.len() == labels.len()
    &&& keys.len() >= 1
    &&& keys[0] is None
    &&& labels[0] == all_remotes_label(entries.len())
    &&& forall|k: int|
        1 <= k < keys.len() ==> (#[trigger] keys[k]) is Some && key_count(entries, keys[k]->0) > 0
            && labels[k] == group_label(keys[k]->0, key_count(entries, keys[k]->0))
    &&& forall|a: int, b: int| 1 <= a < b < keys.len() ==> text_lt(keys[a]->0, keys[b]->0)
    &&& forall|j: int|
        0 <= j < entries.len() ==> exists|k: int|
            1 <= k < keys.len() && keys[k] == Some((#[trigger] entries[j]).remote_key@)
}

/// The picker's state.
pub struct Picker {
    entries: Vec<Entry>,
    shown: Vec<usize>,
    remote_keys: Vec<Option<String>>,
    load_error: Option<String>,
}

impl Picker {
    #[verifier::type_invariant]
    spec fn shown_in_range(self) -> bool {
        forall|k: int| 0 <= k < self.shown@.len() ==> #[trigger] self.shown@[k] < self.entries@.len()
    }

    /// The loaded entries.
    pub closed spec fn entry_list(self) -> Seq<Entry> {
        self.entries@
    }

    /// The indexes of the entries that the list shows, row by row.
    pub closed spec fn shown_rows(self) -> Seq<usize> {
        self.shown@
    }

    /// The group keys behind the items of the remote filter (`None`: all).
    pub closed spec fn remote_key_list(self) -> Seq<Option<Seq<char>>> {
        self.remote_keys@.map_values(|k: Option<String>| key_view(k))
    }

    /// The message of a failed load, if any.
    pub closed spec fn error_text(self) -> Option<Seq<char>> {
        key_view(self.load_error)
    }

    /// An empty picker whose remote filter offers only `All remotes`.
    pub fn new() -> (p: Picker)
        ensures
            p.entry_list().len() == 0,
            p.shown_rows().len() == 0,
            p.remote_key_list() == seq![None::<Seq<char>>],
            p.error_text() is None,
    {
        let mut keys: Vec<Option<String>> = Vec::new();
        keys.push(None);
        let p = Picker { entries: Vec::new(), shown: Vec::new(), remote_keys: keys, load_error: None };
        assert(p.remote_key_list() =~= seq![None::<Seq<char>>]);
        p
    }

    /// Takes the loaded entries and clears the load error. The list shows no
    /// row until the filter is applied again.
    pub fn set_entries(&mut self, entries: Vec<Entry>)
        ensures
            final(self).entry_list() == entries@,
            final(self).shown_rows().len() == 0,
            final(self).remote_key_list() == old(self).remote_key_list(),
            final(self).error_text() is None,
    {
        self.shown = Vec::new();
        self.entries = entries;
        self.load_error = None;
    }

    /// Records that loading failed with `error`.
    pub fn set_load_error(&mut self, error: &str)
        ensures
            final(self).entry_list() == old(self).entry_list(),
            final(self).shown_rows() == old(self).shown_rows(),
            final(self).remote_key_list() == old(self).remote_key_list(),
            final(self).error_text() == Some("Unable to load history: "@ + error@),
    {
        proof {
            use_type_invariant(&*self);
        }
        let mut message = "Unable to load history: ".to_owned();
        push_text(&mut message, error);
        self.load_error = Some(message);
    }

    /// The number of loaded entries.
    pub fn entry_count(&self) -> (n: usize)
        ensures
            n == self.entry_list().len(),
    {
        self.entries.len()
    }

    /// Fills the remote filter: returns its items and keeps the group key
    /// behind each.
    pub fn remote_filter_items(&mut self) -> (labels: Vec<String>)
        ensures
            final(self).entry_list() == old(self).entry_list(),
            final(self).shown_rows() == old(self).shown_rows(),
            final(self).error_text() == old(self).error_text(),
            remote_items_for(
                final(self).remote_key_list(),
                labels@.map_values(|l: String| l@),
                old(self).entry_list(),
            ),
    {
        proof {
            use_type_invariant(&*self);
        }
        let groups = remote_groups(&self.entries);
        let mut labels: Vec<String> = Vec::new();
        let mut keys: Vec<Option<String>> = Vec::new();
        let mut all = "All remotes (".to_owned();
        push_decimal(&mut all, self.entries.len() as u64);
        push_text(&mut all, ")");
        labels.push(all);
        keys.push(None);
        for g in 0..groups.len()
            invariant
                labels@.len() == g + 1,
                keys@.len() == g + 1,
                keys@[0] is None,
                labels@[0]@ == all_remotes_label(self.entries@.len()),
                forall|k: int|
                    1 <= k < keys@.len() ==> (#[trigger] keys@[k]) == Some(groups@[k - 1].0)
                        && labels@[k]@ == group_label(groups@[k - 1].0@, groups@[k - 1].1 as nat),
        {
            let (key, count) = (groups[g].0.clone(), groups[g].1);
            let mut label = remote_group_display(key.as_str());
            push_text(&mut label, " (");
            push_decimal(&mut label, count as u64);
            push_text(&mut label, ")");
            labels.push(label);
            keys.push(Some(key));
        }
        self.remote_keys = keys;
        proof {
            let kv = self.remote_key_list();
            let lv = labels@.map_values(|l: String| l@);
            assert forall|k: int| 1 <= k < kv.len() implies (#[trigger] kv[k]) is Some && key_count(
                self.entries@,
                kv[k]->0,
            ) > 0 && lv[k] == group_label(kv[k]->0, key_count(self.entries@, kv[k]->0)) by {
                assert(kv[k] == Some(groups@[k - 1].0@));
            }
            assert forall|a: int, b: int| 1 <= a < b < kv.len() implies text_lt(
                kv[a]->0,
                kv[b]->0,
            ) by {
                assert(kv[a] == Some(groups@[a - 1].0@));
                assert(kv[b] == Some(groups@[b - 1].0@));
            }
            assert forall|j: int| 0 <= j < self.entries@.len() implies exists|k: int|
                1 <= k < kv.len() && kv[k] == Some((#[trigger] self.entries@[j]).remote_key@) by {
                let m = choose|m: int|
                    0 <= m < groups@.len() && groups@[m].0@ == self.entries@[j].remote_key@;
                assert(kv[m + 1] == Some(groups@[m].0@));
            }
        }
        labels
    }

    /// Applies the query typed in the filter and the remote group selected
    /// as item `remote_index` of the remote filter (a negative index or one
    /// past the items selects all groups); returns what the list shows.
    pub fn apply_filter(&mut self, query: &str, remote_index: isize) -> (content: ListContent)
        ensures
            final(self).entry_list() == old(self).entry_list(),
            final(self).remote_key_list() == old(self).remote_key_list(),
            final(self).error_text() == old(self).error_text(),
            shows_exactly(
                final(self).shown_rows(),
                old(self).entry_list(),
                query_tokens(query@),
                if 0 <= remote_index < old(self).remote_key_list().len() {
                    old(self).remote_key_list()[remote_index as int]
                } else {
                    None
                },
            ),
            key_view(content.message) == list_message(
                old(self).error_text(),
                old(self).entry_list().len(),
                final(self).shown_rows().len(),
            ),
            content.rows@.len() == final(self).shown_rows().len(),
            forall|k: int|
                0 <= k < content.rows@.len() ==> (#[trigger] content.rows@[k])@ == row_text(
                    old(self).entry_list()[final(self).shown_rows()[k] as int],
                ),
    {
        let selected: Option<Vec<char>> = if remote_index < 0 || remote_index as usize
            >= self.remote_keys.len() {
            None
        } else {
            match &self.remote_keys[remote_index as usize] {
                Some(key) => Some(chars_of(key.as_str())),
                None => None,
            }
        };
        let tokens = tokens_of_query(query);
        let shown = matching_indexes(&self.entries, &tokens, &selected);
        let mut rows: Vec<String> = Vec::new();
        for k in 0..shown.len()
            invariant
                shows_exactly(shown@, self.entries@, query_tokens(query@), match selected {
                    Some(v) => Some(v@),
                    None => None,
                }),
                rows@.len() == k,
                forall|m: int|
                    0 <= m < k ==> (#[trigger] rows@[m])@ == row_text(
                        self.entries@[shown@[m] as int],
                    ),
        {
            let e = &self.entries[shown[k]];
            let mut row = e.label.clone();
            push_text(&mut row, "    [");
            push_text(&mut row, e.remote.as_str());
            push_text(&mut row, "]");
            rows.push(row);
        }
        let message = match &self.load_error {
            Some(error) => Some(error.clone()),
            None => if self.entries.len() == 0 {
                Some("No recent folders found".to_owned())
            } else if shown.len() == 0 {
                Some("No matching folders".to_owned())
            } else {
                None
            },
        };
        self.shown = shown;
        ListContent { message, rows }
    }

    /// The remote of the entry shown in row `row`, if the row shows one.
    pub fn row_remote(&self, row: usize) -> (remote: Option<String>)
        ensures
            match remote {
                Some(r) => row < self.shown_rows().len() && r@ == self.entry_list()[self.shown_rows()[row as int] as int].remote@,
                None => row >= self.shown_rows().len(),
            },
    {
        proof {
            use_type_invariant(self);
        }
        if row < self.shown.len() {
            Some(self.entries[self.shown[row]].remote.clone())
        } else {
            None
        }
    }

    /// The URI of the entry shown in the selected row, if a row showing an
    /// entry is selected.
    pub fn selected_uri(&self, selected: isize) -> (uri: Option<String>)
        ensures
            match uri {
                Some(u) => 0 <= selected < self.shown_rows().len() && u@ == self.entry_list()[self.shown_rows()[selected as int] as int].uri@,
                None => !(0 <= selected < self.shown_rows().len()),
            },
    {
        proof {
            use_type_invariant(self);
        }
        if selected < 0 || selected as usize >= self.shown.len() {
            None
        } else {
            Some(self.entries[self.shown[selected as usize]].uri.clone())
        }
    }
}

} // verus!
