//! Opening a folder in VS Code: the command line, the outcome of the launch,
//! and how an already open but hidden VS Code window is recognised.

use vstd::prelude::*;
use crate::decode::{percent_decode, spec_percent_decode};
use crate::history::{spec_to_lowercase, to_lowercase};
use crate::text::{
    chars_of, contains_chars, ends_with_chars, has_suffix, occurs_in, push_signed_decimal,
    push_text, signed_decimal, string_from,
};

verus! {

/// The arguments given to `Code.exe` to open `uri`, in a new window if asked.
pub open spec fn spec_launch_arguments(uri: Seq<char>, force_new: bool) -> Seq<char> {
    if force_new {
        "--new-window --folder-uri \""@ + uri + "\""@
    } else {
        "--folder-uri \""@ + uri + "\""@
    }
}

/// The arguments given to `Code.exe` to open `uri`.
pub fn launch_arguments(uri: &str, force_new: bool) -> (a: String)
    ensures
        a@ == spec_launch_arguments(uri@, force_new),
{
    let mut a = if force_new {
        "--new-window --folder-uri \"".to_owned()
    } else {
        "--folder-uri \"".to_owned()
    };
    push_text(&mut a, uri);
    push_text(&mut a, "\"");
    a
}

/// The outcome of starting VS Code from the value `ShellExecuteW` returned:
/// values up to 32 are errors.
pub fn launch_result(code: isize) -> (r: Result<(), String>)
    ensures
        code > 32 ==> r is Ok,
        code <= 32 ==> (r matches Err(m) && m@ == "could not start VS Code (ShellExecute error "@
            + signed_decimal(code as int) + ")"@),
{
    if code <= 32 {
        let mut m = "could not start VS Code (ShellExecute error ".to_owned();
        push_signed_decimal(&mut m, code as i64);
        push_text(&mut m, ")");
        Err(m)
    } else {
        Ok(())
    }
}

/// The characters after the last `/` of `s` (all of `s` if it has none).
pub open spec fn final_run(s: Seq<char>) -> Seq<char>
    decreases s.len(),
{
    if s.len() == 0 || s.last() == '/' {
        seq![]
    } else {
        final_run(s.drop_last()).push(s.last())
    }
}

/// The last non-empty piece of `s` between `/` separators, if any.
pub open spec fn last_segment(s: Seq<char>) -> Option<Seq<char>>
    decreases s.len(),
{
    if s.len() == 0 {
        None
    } else if s.last() == '/' {
        last_segment(s.drop_last())
    } else {
        Some(final_run(s))
    }
}

/// The last non-empty `/`-separated piece of `s`.
pub fn last_path_segment(s: &[char]) -> (r: Option<Vec<char>>)
    ensures
        match r {
            Some(v) => last_segment(s@) == Some(v@),
            None => last_segment(s@) is None,
        },
{
    let mut end = s.len();
    assert(s@.take(end as int) == s@);
    while end > 0 && s[end - 1] == '/'
        invariant
            end <= s@.len(),
            last_segment(s@) == last_segment(s@.take(end as int)),
        decreases end,
    {
        assert(s@.take(end as int).drop_last() == s@.take(end - 1));
        end = end - 1;
    }
    if end == 0 {
        return None;
    }
    let ghost head = s@.take(end as int);
    assert(head.last() != '/');
    let mut begin = end;
    assert(s@.subrange(begin as int, end as int).len() == 0);
    assert(s@.take(begin as int) == head);
    while begin > 0 && s[begin - 1] != '/'
        invariant
            begin <= end <= s@.len(),
            head == s@.take(end as int),
            final_run(head) == final_run(s@.take(begin as int)) + s@.subrange(
                begin as int,
                end as int,
            ),
        decreases begin,
    {
        let ghost t = s@.take(begin as int);
        assert(t.drop_last() == s@.take(begin - 1));
        assert(s@.subrange(begin - 1, end as int) == seq![t.last()] + s@.subrange(
            begin as int,
            end as int,
        ));
        assert(final_run(t) == final_run(t.drop_last()).push(t.last()));
        assert(final_run(t.drop_last()).push(t.last()) + s@.subrange(begin as int, end as int)
            == final_run(t.drop_last()) + (seq![t.last()] + s@.subrange(begin as int, end as int)));
        begin = begin - 1;
    }
    assert(final_run(s@.take(begin as int)) == Seq::<char>::empty());
    assert(Seq::<char>::empty() + s@.subrange(begin as int, end as int) == s@.subrange(
        begin as int,
        end as int,
    ));
    let mut out: Vec<char> = Vec::new();
    let mut i = begin;
    while i < end
        invariant
            begin <= i <= end <= s@.len(),
            out@ == s@.subrange(begin as int, i as int),
        decreases end - i,
    {
        out.push(s[i]);
        assert(s@.subrange(begin as int, i + 1) == s@.subrange(begin as int, i as int).push(
            s@[i as int],
        ));
        i = i + 1;
    }
    Some(out)
}

/// What the title of a VS Code window showing the folder of `uri` contains:
/// the lower-case form of the decoded last piece of its path, if not empty.
pub open spec fn spec_window_needle(uri: Seq<char>) -> Option<Seq<char>> {
    match last_segment(uri) {
        None => None,
        Some(segment) => if spec_percent_decode(segment).len() == 0 {
            None
        } else {
            Some(spec_to_lowercase(spec_percent_decode(segment)))
        },
    }
}

/// What to look for in the title of a hidden VS Code window of `uri`.
pub fn window_needle(uri: &str) -> (n: Option<String>)
    ensures
        match n {
            Some(s) => spec_window_needle(uri@) == Some(s@),
            None => spec_window_needle(uri@) is None,
        },
{
    let u = chars_of(uri);
    match last_path_segment(u.as_slice()) {
        None => None,
        Some(segment) => {
            let segment = string_from(segment.as_slice());
            let name = percent_decode(segment.as_str());
            if name.as_str().is_empty() {
                None
            } else {
                Some(to_lowercase(name.as_str()))
            }
        },
    }
}

/// A window title that belongs to VS Code showing the folder `needle`.
pub open spec fn spec_is_code_window(title: Seq<char>, needle: Seq<char>) -> bool {
    let t = spec_to_lowercase(title);
    has_suffix(t, " - visual studio code"@) && occurs_in(t, needle)
}

/// Whether a window title belongs to VS Code showing the folder `needle`.
pub fn is_code_window(title: &str, needle: &str) -> (r: bool)
    ensures
        r == spec_is_code_window(title@, needle@),
{
    let lowered = to_lowercase(title);
    let t = chars_of(lowered.as_str());
    let suffix = chars_of(" - visual studio code");
    let n = chars_of(needle);
    ends_with_chars(t.as_slice(), suffix.as_slice()) && contains_chars(t.as_slice(), n.as_slice())
}

/// What the window does once it tried to open a folder.
#[derive(Debug, PartialEq, Eq)]
pub enum AfterLaunch {
    /// Close the window.
    Close,
    /// Stay open, with the focus in the filter box.
    FocusFilter,
    /// Show this error.
    ShowError(String),
}

/// What follows an attempt to open a folder: on success the window closes,
/// unless Shift was held to keep it open; on failure the error is shown.
pub fn after_launch(outcome: Result<(), String>, keep_open: bool) -> (a: AfterLaunch)
    ensures
        match outcome {
            Ok(()) => if keep_open {
                a == AfterLaunch::FocusFilter
            } else {
                a == AfterLaunch::Close
            },
            Err(e) => a matches AfterLaunch::ShowError(m) && m@ == e@,
        },
{
    match outcome {
        Ok(()) => if keep_open {
            AfterLaunch::FocusFilter
        } else {
            AfterLaunch::Close
        },
        Err(e) => AfterLaunch::ShowError(e),
    }
}

} // verus!
