//! The filter of the picker: whitespace tokens, and which entries a query shows.

use vstd::prelude::*;
use crate::history::{spec_to_lowercase, to_lowercase, Entry};
use crate::text::{chars_eq, chars_of, contains_chars, occurs_in};

verus! {

/// `c` has the Unicode `White_Space` property (what `char::is_whitespace` tests).
pub open spec fn is_white_space(c: char) -> bool {
    let u = c as u32;
    ||| 9 <= u && u <= 13
    ||| u == 32
    ||| u == 0x85
    ||| u == 0xA0
    ||| u == 0x1680
    ||| 0x2000 <= u && u <= 0x200A
    ||| u == 0x2028
    ||| u == 0x2029
    ||| u == 0x202F
    ||| u == 0x205F
    ||| u == 0x3000
}

/// Whether `c` has the Unicode `White_Space` property.
pub fn white_space(c: char) -> (r: bool)
    ensures
        r == is_white_space(c),
{
    let u = c as u32;
    (9 <= u && u <= 13) || u == 32 || u == 0x85 || u == 0xA0 || u == 0x1680 || (0x2000 <= u && u
        <= 0x200A) || u == 0x2028 || u == 0x2029 || u == 0x202F || u == 0x205F || u == 0x3000
}

/// The white space of the Unicode standard: the ASCII controls tab, line
/// feed, vertical tab, form feed and carriage return and the space are white
/// space, and so are the no-break space, the em space, the line and
/// paragraph separators and the ideographic space; no printable ASCII
/// character (letters, digits, punctuation such as `-`, `_`, `.`, `/`) is,
/// nor any other character below U+0085, nor any character beyond U+3000,
/// nor the zero-width space and joiners.
pub proof fn lemma_white_space_characters(c: char)
    ensures
        c == '\t' || c == '\n' || c == '\r' || c == ' ' || c == '\u{0B}' || c == '\u{0C}'
            ==> is_white_space(c),
        ('!' <= c && c <= '~') ==> !is_white_space(c),
        (c as u32) < 9 || (14 <= (c as u32) && (c as u32) < 32) || (33 <= (c as u32) && (c
            as u32) < 0x85) ==> !is_white_space(c),
        (c as u32) > 0x3000 ==> !is_white_space(c),
        c == '\u{A0}' || c == '\u{2028}' || c == '\u{2029}' || c == '\u{3000}' || c
            == '\u{2003}' ==> is_white_space(c),
        c == '\u{200B}' || c == '\u{FEFF}' || c == '\u{2060}' ==> !is_white_space(c),
{
}

/// The words of `s` read so far: the finished ones, and the one being read.
pub open spec fn split_state(s: Seq<char>) -> (Seq<Seq<char>>, Seq<char>)
    decreases s.len(),
{
    if s.len() == 0 {
        (seq![], seq![])
    } else {
        let (done, cur) = split_state(s.drop_last());
        if is_white_space(s.last()) {
            if cur.len() > 0 {
                (done.push(cur), seq![])
            } else {
                (done, seq![])
            }
        } else {
            (done, cur.push(s.last()))
        }
    }
}

/// The maximal runs of non-white-space characters of `s`, in order
/// (what `split_whitespace` yields).
pub open spec fn whitespace_tokens(s: Seq<char>) -> Seq<Seq<char>> {
    let (done, cur) = split_state(s);
    if cur.len() > 0 {
        done.push(cur)
    } else {
        done
    }
}

/// No token is empty and none holds white space.
pub open spec fn proper_tokens(tokens: Seq<Seq<char>>) -> bool {
    forall|k: int|
        0 <= k < tokens.len() ==> #[trigger] tokens[k].len() > 0 && forall|j: int|
            0 <= j < tokens[k].len() ==> !is_white_space(tokens[k][j])
}

proof fn lemma_split_state_proper(s: Seq<char>)
    ensures
        proper_tokens(split_state(s).0),
        forall|j: int|
            0 <= j < split_state(s).1.len() ==> !is_white_space(#[trigger] split_state(s).1[j]),
    decreases s.len(),
{
    if s.len() > 0 {
        lemma_split_state_proper(s.drop_last());
    }
}

/// The tokens of a query are non-empty and free of white space.
pub proof fn lemma_tokens_proper(s: Seq<char>)
    ensures
        proper_tokens(whitespace_tokens(s)),
{
    lemma_split_state_proper(s);
}

/// The view of a list of character vectors.
pub open spec fn tokens_view(v: Seq<Vec<char>>) -> Seq<Seq<char>> {
    v.map_values(|t: Vec<char>| t@)
}

/// The white-space separated tokens of `s`.
pub fn split_whitespace(s: &[char]) -> (res: Vec<Vec<char>>)
    ensures
        tokens_view(res@) == whitespace_tokens(s@),
{
    let mut done: Vec<Vec<char>> = Vec::new();
    let mut cur: Vec<char> = Vec::new();
    for i in 0..s.len()
        invariant
            (tokens_view(done@), cur@) == split_state(s@.take(i as int)),
    {
        assert(s@.take(i + 1).drop_last() == s@.take(i as int));
        let c = s[i];
        if white_space(c) {
            if cur.len() > 0 {
                let token = cur;
                cur = Vec::new();
                done.push(token);
                assert(tokens_view(done@) == tokens_view(done@.drop_last()).push(token@));
            } else {
                cur = Vec::new();
            }
        } else {
            cur.push(c);
        }
    }
    assert(s@.take(s@.len() as int) == s@);
    if cur.len() > 0 {
        let ghost before = done@;
        done.push(cur);
        assert(tokens_view(done@) == tokens_view(before).push(cur@));
    }
    done
}

/// The tokens of a query: the words of its lower-case equivalent.
pub open spec fn query_tokens(query: Seq<char>) -> Seq<Seq<char>> {
    whitespace_tokens(spec_to_lowercase(query))
}

/// The tokens of a query.
pub fn tokens_of_query(query: &str) -> (res: Vec<Vec<char>>)
    ensures
        tokens_view(res@) == query_tokens(query@),
{
    let lowered = to_lowercase(query);
    let chars = chars_of(lowered.as_str());
    split_whitespace(chars.as_slice())
}

/// `e` is shown for `tokens` and the selected remote group: it is in the
/// group (if one is selected) and every token occurs in the lower-case form
/// of its label or of its URI.
pub open spec fn entry_matches(e: Entry, tokens: Seq<Seq<char>>, remote: Option<Seq<char>>) -> bool {
    &&& match remote {
        Some(r) => e.remote_key@ == r,
        None => true,
    }
    &&& forall|k: int|
        0 <= k < tokens.len() ==> occurs_in(spec_to_lowercase(e.label@), #[trigger] tokens[k])
            || occurs_in(spec_to_lowercase(e.uri@), tokens[k])
}

/// `shown` lists, in increasing order, exactly the indexes of the entries
/// that match.
pub open spec fn shows_exactly(
    shown: Seq<usize>,
    entries: Seq<Entry>,
    tokens: Seq<Seq<char>>,
    remote: Option<Seq<char>>,
) -> bool {
    &&& forall|k: int|
        0 <= k < shown.len() ==> #[trigger] shown[k] < entries.len() && entry_matches(
            entries[shown[k] as int],
            tokens,
            remote,
        )
    &&& forall|k: int, m: int| 0 <= k < m < shown.len() ==> shown[k] < shown[m]
    &&& forall|i: int|
        0 <= i < entries.len() && entry_matches(#[trigger] entries[i], tokens, remote) ==> exists|
            k: int,
        |
            0 <= k < shown.len() && shown[k] == i
}

/// Whether an entry matches the tokens and the selected remote group.
pub fn matches(e: &Entry, tokens: &Vec<Vec<char>>, remote: &Option<Vec<char>>) -> (r: bool)
    ensures
        r == entry_matches(*e, tokens_view(tokens@), match remote {
            Some(v) => Some(v@),
            None => None,
        }),
{
    match remote {
        Some(r) => {
            let key = chars_of(e.remote_key.as_str());
            if !chars_eq(key.as_slice(), r.as_slice()) {
                return false;
            }
        },
        None => {},
    }
    let label = chars_of(to_lowercase(e.label.as_str()).as_str());
    let uri = chars_of(to_lowercase(e.uri.as_str()).as_str());
    for k in 0..tokens.len()
        invariant
            label@ == spec_to_lowercase(e.label@),
            uri@ == spec_to_lowercase(e.uri@),
            forall|j: int|
                0 <= j < k ==> occurs_in(spec_to_lowercase(e.label@), #[trigger] tokens_view(
                    tokens@,
                )[j]) || occurs_in(spec_to_lowercase(e.uri@), tokens_view(tokens@)[j]),
    {
        assert(tokens_view(tokens@)[k as int] == tokens@[k as int]@);
        if !contains_chars(label.as_slice(), tokens[k].as_slice()) && !contains_chars(
            uri.as_slice(),
            tokens[k].as_slice(),
        ) {
            return false;
        }
    }
    true
}

/// The indexes of the entries that match, in increasing order.
pub fn matching_indexes(entries: &Vec<Entry>, tokens: &Vec<Vec<char>>, remote: &Option<Vec<char>>) -> (shown: Vec<usize>)
    ensures
        shows_exactly(shown@, entries@, tokens_view(tokens@), match remote {
            Some(v) => Some(v@),
            None => None,
        }),
{
    let ghost rv = match remote {
        Some(v) => Some(v@),
        None => None,
    };
    let mut shown: Vec<usize> = Vec::new();
    for i in 0..entries.len()
        invariant
            rv == match remote {
                Some(v) => Some(v@),
                None => None,
            },
            forall|k: int|
                0 <= k < shown.len() ==> #[trigger] shown@[k] < i && entry_matches(
                    entries@[shown@[k] as int],
                    tokens_view(tokens@),
                    rv,
                ),
            forall|k: int, m: int| 0 <= k < m < shown.len() ==> shown@[k] < shown@[m],
            forall|j: int|
                0 <= j < i && entry_matches(#[trigger] entries@[j], tokens_view(tokens@), rv)
                    ==> exists|k: int| 0 <= k < shown.len() && shown@[k] == j,
    {
        if matches(&entries[i], tokens, remote) {
            let ghost before = shown@;
            shown.push(i);
            proof {
                assert forall|j: int|
                    0 <= j < i + 1 && entry_matches(
                        #[trigger] entries@[j],
                        tokens_view(tokens@),
                        rv,
                    ) implies exists|k: int| 0 <= k < shown.len() && shown@[k] == j by {
                    if j == i {
                        assert(shown@[shown.len() - 1] == j);
                    } else {
                        let k = choose|k: int| 0 <= k < before.len() && before[k] == j;
                        assert(shown@[k] == j);
                    }
                }
            }
        }
    }
    shown
}

proof fn lemma_rows_at_least_index(shown: Seq<usize>, m: int)
    requires
        forall|k: int, n: int| 0 <= k < n < shown.len() ==> shown[k] < shown[n],
        0 <= m < shown.len(),
    ensures
        shown[m] >= m,
    decreases m,
{
    if m > 0 {
        lemma_rows_at_least_index(shown, m - 1);
    }
}

proof fn lemma_rows_are_indexes(shown: Seq<usize>, entries: Seq<Entry>, k: int)
    requires
        shows_exactly(shown, entries, seq![], None),
        0 <= k < entries.len(),
    ensures
        k < shown.len(),
        forall|j: int| #![trigger shown[j]] 0 <= j <= k ==> j < shown.len() && shown[j] == j,
    decreases k,
{
    if k > 0 {
        lemma_rows_are_indexes(shown, entries, k - 1);
    }
    assert(entry_matches(entries[k], seq![], None));
    let m = choose|m: int| 0 <= m < shown.len() && shown[m] == k;
    lemma_rows_at_least_index(shown, m);
    if m < k {
        assert(shown[m] == m);
    }
}

/// With no token and no remote group selected, the list shows every entry,
/// in order.
pub proof fn lemma_no_tokens_shows_all(shown: Seq<usize>, entries: Seq<Entry>)
    requires
        shows_exactly(shown, entries, seq![], None),
    ensures
        shown.len() == entries.len(),
        forall|k: int| 0 <= k < shown.len() ==> shown[k] == k,
{
    if entries.len() > 0 {
        lemma_rows_are_indexes(shown, entries, entries.len() - 1);
    }
    if shown.len() > entries.len() {
        lemma_rows_at_least_index(shown, entries.len() as int);
        assert(shown[entries.len() as int] < entries.len());
    }
}

/// Adding tokens never adds a row: when every token of `fewer` is also a
/// token of `more`, every row shown for `more` is shown for `fewer` too (and,
/// both lists being in increasing order, in the same order).
pub proof fn lemma_more_tokens_never_add_rows(
    entries: Seq<Entry>,
    fewer: Seq<Seq<char>>,
    more: Seq<Seq<char>>,
    remote: Option<Seq<char>>,
    shown_fewer: Seq<usize>,
    shown_more: Seq<usize>,
)
    requires
        forall|k: int| 0 <= k < fewer.len() ==> more.contains(#[trigger] fewer[k]),
        shows_exactly(shown_fewer, entries, fewer, remote),
        shows_exactly(shown_more, entries, more, remote),
    ensures
        forall|k: int| 0 <= k < shown_more.len() ==> shown_fewer.contains(#[trigger] shown_more[k]),
{
    assert forall|k: int| 0 <= k < shown_more.len() implies shown_fewer.contains(
        #[trigger] shown_more[k],
    ) by {
        let i = shown_more[k] as int;
        let e = entries[i];
        assert(entry_matches(e, more, remote));
        assert forall|t: int| 0 <= t < fewer.len() implies occurs_in(
            spec_to_lowercase(e.label@),
            #[trigger] fewer[t],
        ) || occurs_in(spec_to_lowercase(e.uri@), fewer[t]) by {
            assert(more.contains(fewer[t]));
            let m = choose|m: int| 0 <= m < more.len() && more[m] == fewer[t];
            assert(occurs_in(spec_to_lowercase(e.label@), more[m]) || occurs_in(
                spec_to_lowercase(e.uri@),
                more[m],
            ));
        }
        assert(entry_matches(entries[i], fewer, remote));
        let j = choose|j: int| 0 <= j < shown_fewer.len() && shown_fewer[j] == i;
        assert(shown_fewer[j] == shown_more[k]);
    }
}

proof fn lemma_split_state_one_word(s: Seq<char>)
    requires
        forall|i: int| 0 <= i < s.len() ==> !is_white_space(#[trigger] s[i]),
    ensures
        split_state(s) == (Seq::<Seq<char>>::empty(), s),
    decreases s.len(),
{
    if s.len() > 0 {
        lemma_split_state_one_word(s.drop_last());
        assert(!is_white_space(s[s.len() - 1]));
        assert(s.drop_last().push(s.last()) == s);
    }
}

/// A query without white space is a single token, whatever else it holds:
/// hyphens, dots, slashes and other punctuation never separate tokens.
pub proof fn lemma_no_white_space_one_token(s: Seq<char>)
    requires
        s.len() > 0,
        forall|i: int| 0 <= i < s.len() ==> !is_white_space(#[trigger] s[i]),
    ensures
        whitespace_tokens(s) == seq![s],
{
    lemma_split_state_one_word(s);
    assert(Seq::<Seq<char>>::empty().push(s) == seq![s]);
}

/// A query of printable ASCII characters other than the space (such as
/// `api-gateway` or `src/app.rs`) is a single token.
pub proof fn lemma_printable_ascii_query_one_token(s: Seq<char>)
    requires
        s.len() > 0,
        forall|i: int| 0 <= i < s.len() ==> '!' <= #[trigger] s[i] && s[i] <= '~',
    ensures
        whitespace_tokens(s) == seq![s],
{
    assert forall|i: int| 0 <= i < s.len() implies !is_white_space(#[trigger] s[i]) by {
        lemma_white_space_characters(s[i]);
    }
    lemma_no_white_space_one_token(s);
}

} // verus!
