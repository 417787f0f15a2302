//! Classification of folder URIs: remote kind, grouping key, default label.

use vstd::prelude::*;
use vstd::string::StrSliceExecFns;
use vstd::utf8::{encode_utf8, valid_utf8};
use crate::decode::{
    lemma_percent_decode_ieq, percent_decode, percent_decode_bytes, spec_percent_decode,
};
use crate::text::{
    after_char, ascii_ieq, ascii_lower, ascii_upper, ascii_lower_seq, ascii_upper_seq, before_char, chars_after,
    chars_before, chars_eq_str, chars_of, has_prefix, has_prefix_ieq, lemma_ascii_lower_seq_index,
    lemma_ascii_lower_take_skip, lemma_before_char_ieq, lemma_case_forms_ieq,
    lemma_has_prefix_ieq_alike, lower_ascii, push_chars, push_text, skip_chars, starts_with_chars,
    starts_with_ignore_ascii_case, string_from, upper_ascii,
};

verus! {

/// `value` without its leading `prefix`, the prefix compared ignoring ASCII
/// case; `None` when `value` does not begin so.
pub open spec fn spec_strip_prefix_ascii_case(value: Seq<char>, prefix: Seq<char>) -> Option<
    Seq<char>,
> {
    if has_prefix_ieq(value, prefix) {
        Some(value.skip(prefix.len() as int))
    } else {
        None
    }
}

/// The authority of a `vscode-remote://` URI as written (what follows the
/// scheme, up to the first `/`).
pub open spec fn raw_authority(uri: Seq<char>) -> Seq<char> {
    before_char(uri.skip("vscode-remote://"@.len() as int), '/')
}

/// The authority of a `vscode-remote://` URI, percent-decoded.
pub open spec fn remote_authority(uri: Seq<char>) -> Seq<char> {
    spec_percent_decode(raw_authority(uri))
}

/// The escapes in the authority of a `vscode-remote://` URI spell valid
/// UTF-8.
pub open spec fn authority_is_utf8(uri: Seq<char>) -> bool {
    valid_utf8(percent_decode_bytes(encode_utf8(raw_authority(uri))))
}

/// The text shown for a remote instance: the instance, or `?` when empty.
pub open spec fn instance_or_unknown(decoded: Seq<char>) -> Seq<char> {
    match after_char(decoded, '+') {
        Some(instance) => if instance.len() == 0 {
            "?"@
        } else {
            instance
        },
        None => "?"@,
    }
}

/// The remote kind shown for a folder URI (`LOCAL`, `WSL: Ubuntu`, `SSH: host`, ...).
pub open spec fn spec_remote_kind(uri: Seq<char>) -> Seq<char> {
    if has_prefix_ieq(uri, "file:"@) {
        "LOCAL"@
    } else if has_prefix_ieq(uri, "vscode-remote://"@) {
        let decoded = remote_authority(uri);
        let kind = before_char(decoded, '+');
        let lowered = ascii_lower_seq(kind);
        if lowered == "wsl"@ {
            "WSL: "@ + instance_or_unknown(decoded)
        } else if lowered == "ssh-remote"@ {
            "SSH: "@ + instance_or_unknown(decoded)
        } else if lowered == "dev-container"@ {
            "DEV CONTAINER"@
        } else if lowered == "attached-container"@ {
            "CONTAINER"@
        } else if lowered == "codespaces"@ {
            "CODESPACE"@
        } else if lowered == "tunnel"@ {
            "TUNNEL"@
        } else {
            ascii_upper_seq(kind)
        }
    } else if has_prefix_ieq(uri, "vscode-vfs://github"@) {
        "GITHUB"@
    } else {
        ascii_upper_seq(before_char(uri, ':'))
    }
}

/// The key by which folders are grouped in the remote filter
/// (`local`, `wsl`, `ssh`, `container`, `github`, `vfs`, a scheme, or `unknown`).
pub open spec fn spec_remote_key(uri: Seq<char>) -> Seq<char> {
    if has_prefix_ieq(uri, "file:"@) {
        "local"@
    } else if has_prefix_ieq(uri, "vscode-remote://"@) {
        let kind = ascii_lower_seq(before_char(remote_authority(uri), '+'));
        if kind == "ssh-remote"@ {
            "ssh"@
        } else if kind == "attached-container"@ {
            "container"@
        } else if kind == "codespaces"@ {
            "codespace"@
        } else {
            kind
        }
    } else if has_prefix_ieq(uri, "vscode-vfs://github"@) {
        "github"@
    } else if has_prefix_ieq(uri, "vscode-vfs://"@) {
        "vfs"@
    } else if before_char(uri, ':').len() == 0 {
        "unknown"@
    } else {
        ascii_lower_seq(before_char(uri, ':'))
    }
}

/// The name shown for a group key in the remote filter.
pub open spec fn spec_remote_group_display(key: Seq<char>) -> Seq<char> {
    if key == "local"@ {
        "Local"@
    } else if key == "wsl"@ {
        "WSL"@
    } else if key == "ssh"@ {
        "SSH"@
    } else if key == "dev-container"@ {
        "Dev Container"@
    } else if key == "container"@ {
        "Container"@
    } else if key == "codespace"@ {
        "Codespace"@
    } else if key == "tunnel"@ {
        "Tunnel"@
    } else if key == "github"@ {
        "GitHub"@
    } else if key == "vfs"@ {
        "VFS"@
    } else if key == "unknown"@ {
        "Unknown"@
    } else {
        ascii_upper_seq(key)
    }
}

/// `s` with every `/` replaced by `\`.
pub open spec fn slashes_to_backslashes(s: Seq<char>) -> Seq<char> {
    s.map_values(|c: char| if c == '/' { '\\' } else { c })
}

/// The label of a folder that has none: for `file:///` URIs the decoded path
/// with backslashes, otherwise the URI itself.
pub open spec fn spec_default_label(uri: Seq<char>) -> Seq<char> {
    if has_prefix(uri, "file:///"@) {
        slashes_to_backslashes(spec_percent_decode(uri.skip("file:///"@.len() as int)))
    } else {
        uri
    }
}

/// `value` without its leading `prefix`, compared ignoring ASCII case.
pub fn strip_prefix_ascii_case<'a>(value: &'a str, prefix: &str) -> (r: Option<&'a str>)
    ensures
        match r {
            Some(rest) => spec_strip_prefix_ascii_case(value@, prefix@) == Some(rest@),
            None => spec_strip_prefix_ascii_case(value@, prefix@) is None,
        },
{
    let v = chars_of(value);
    let p = chars_of(prefix);
    if starts_with_ignore_ascii_case(v.as_slice(), p.as_slice()) {
        Some(value.substring_char(p.len(), v.len()))
    } else {
        None
    }
}

/// The percent-decoded authority of a `vscode-remote://` URI.
fn decoded_authority(uri: &[char]) -> (res: Vec<char>)
    requires
        has_prefix_ieq(uri@, "vscode-remote://"@),
    ensures
        res@ == remote_authority(uri@),
{
    let scheme = chars_of("vscode-remote://");
    let rest = skip_chars(uri, scheme.len());
    let authority = chars_before(rest.as_slice(), '/');
    let authority = string_from(authority.as_slice());
    let decoded = percent_decode(authority.as_str());
    chars_of(decoded.as_str())
}

/// `prefix` followed by the instance part of a decoded authority (or `?`).
fn with_instance(prefix: &str, decoded: &[char]) -> (res: String)
    ensures
        res@ == prefix@ + instance_or_unknown(decoded@),
{
    let mut res = prefix.to_owned();
    match chars_after(decoded, '+') {
        Some(instance) => {
            if instance.len() == 0 {
                push_text(&mut res, "?");
            } else {
                push_chars(&mut res, instance.as_slice());
            }
        },
        None => {
            push_text(&mut res, "?");
        },
    }
    res
}

/// The remote kind shown for a folder URI.
pub fn remote_kind(uri: &str) -> (res: String)
    ensures
        res@ == spec_remote_kind(uri@),
{
    let u = chars_of(uri);
    if starts_with_ignore_ascii_case(u.as_slice(), chars_of("file:").as_slice()) {
        return "LOCAL".to_owned();
    }
    if starts_with_ignore_ascii_case(u.as_slice(), chars_of("vscode-remote://").as_slice()) {
        let decoded = decoded_authority(u.as_slice());
        let kind = chars_before(decoded.as_slice(), '+');
        let lowered = lower_ascii(kind.as_slice());
        let l = lowered.as_slice();
        return if chars_eq_str(l, "wsl") {
            with_instance("WSL: ", decoded.as_slice())
        } else if chars_eq_str(l, "ssh-remote") {
            with_instance("SSH: ", decoded.as_slice())
        } else if chars_eq_str(l, "dev-container") {
            "DEV CONTAINER".to_owned()
        } else if chars_eq_str(l, "attached-container") {
            "CONTAINER".to_owned()
        } else if chars_eq_str(l, "codespaces") {
            "CODESPACE".to_owned()
        } else if chars_eq_str(l, "tunnel") {
            "TUNNEL".to_owned()
        } else {
            string_from(upper_ascii(kind.as_slice()).as_slice())
        };
    }
    if starts_with_ignore_ascii_case(u.as_slice(), chars_of("vscode-vfs://github").as_slice()) {
        "GITHUB".to_owned()
    } else {
        let scheme = chars_before(u.as_slice(), ':');
        string_from(upper_ascii(scheme.as_slice()).as_slice())
    }
}

/// The key by which a folder is grouped in the remote filter.
pub fn remote_key(uri: &str) -> (res: String)
    ensures
        res@ == spec_remote_key(uri@),
{
    let u = chars_of(uri);
    if starts_with_ignore_ascii_case(u.as_slice(), chars_of("file:").as_slice()) {
        return "local".to_owned();
    }
    if starts_with_ignore_ascii_case(u.as_slice(), chars_of("vscode-remote://").as_slice()) {
        let decoded = decoded_authority(u.as_slice());
        let kind = lower_ascii(chars_before(decoded.as_slice(), '+').as_slice());
        let k = kind.as_slice();
        return if chars_eq_str(k, "ssh-remote") {
            "ssh".to_owned()
        } else if chars_eq_str(k, "attached-container") {
            "container".to_owned()
        } else if chars_eq_str(k, "codespaces") {
            "codespace".to_owned()
        } else {
            string_from(k)
        };
    }
    if starts_with_ignore_ascii_case(u.as_slice(), chars_of("vscode-vfs://github").as_slice()) {
        "github".to_owned()
    } else if starts_with_ignore_ascii_case(u.as_slice(), chars_of("vscode-vfs://").as_slice()) {
        "vfs".to_owned()
    } else {
        let scheme = chars_before(u.as_slice(), ':');
        if scheme.len() == 0 {
            "unknown".to_owned()
        } else {
            string_from(lower_ascii(scheme.as_slice()).as_slice())
        }
    }
}

/// The name shown for a group key in the remote filter.
pub fn remote_group_display(key: &str) -> (res: String)
    ensures
        res@ == spec_remote_group_display(key@),
{
    let k = chars_of(key);
    let k = k.as_slice();
    if chars_eq_str(k, "local") {
        "Local".to_owned()
    } else if chars_eq_str(k, "wsl") {
        "WSL".to_owned()
    } else if chars_eq_str(k, "ssh") {
        "SSH".to_owned()
    } else if chars_eq_str(k, "dev-container") {
        "Dev Container".to_owned()
    } else if chars_eq_str(k, "container") {
        "Container".to_owned()
    } else if chars_eq_str(k, "codespace") {
        "Codespace".to_owned()
    } else if chars_eq_str(k, "tunnel") {
        "Tunnel".to_owned()
    } else if chars_eq_str(k, "github") {
        "GitHub".to_owned()
    } else if chars_eq_str(k, "vfs") {
        "VFS".to_owned()
    } else if chars_eq_str(k, "unknown") {
        "Unknown".to_owned()
    } else {
        string_from(upper_ascii(k).as_slice())
    }
}

/// The label of a folder that has none.
pub fn default_label(uri: &str) -> (res: String)
    ensures
        res@ == spec_default_label(uri@),
{
    let u = chars_of(uri);
    let scheme = chars_of("file:///");
    if starts_with_chars(u.as_slice(), scheme.as_slice()) {
        let path = string_from(skip_chars(u.as_slice(), scheme.len()).as_slice());
        let decoded = chars_of(percent_decode(path.as_str()).as_str());
        let mut out: Vec<char> = Vec::new();
        for i in 0..decoded.len()
            invariant
                out@ == slashes_to_backslashes(decoded@.take(i as int)),
        {
            let c = decoded[i];
            out.push(if c == '/' { '\\' } else { c });
            assert(slashes_to_backslashes(decoded@.take(i + 1)) == slashes_to_backslashes(
                decoded@.take(i as int),
            ).push(if c == '/' { '\\' } else { c }));
        }
        assert(decoded@.take(decoded@.len() as int) == decoded@);
        string_from(out.as_slice())
    } else {
        uri.to_owned()
    }
}

/// `s` holds no ASCII upper-case letter.
pub open spec fn no_ascii_upper(s: Seq<char>) -> bool {
    forall|i: int| 0 <= i < s.len() ==> !('A' <= #[trigger] s[i] && s[i] <= 'Z')
}

proof fn lemma_ascii_lower_has_no_upper(s: Seq<char>)
    ensures
        no_ascii_upper(ascii_lower_seq(s)),
{
    assert forall|i: int| 0 <= i < ascii_lower_seq(s).len() implies !('A' <= #[trigger] ascii_lower_seq(
        s,
    )[i] && ascii_lower_seq(s)[i] <= 'Z') by {
        let c = s[i];
        if 'A' <= c && c <= 'Z' {
            let l = ((c as u32) + 32) as char;
            assert(l == ascii_lower(c));
            assert('a' <= l && l <= 'z');
        }
    }
}

/// Group keys hold no ASCII upper-case letter, so folders whose schemes or
/// remote kinds differ only in ASCII case fall in the same group.
pub proof fn lemma_remote_key_lower_case(uri: Seq<char>)
    ensures
        no_ascii_upper(spec_remote_key(uri)),
{
    reveal_strlit("local");
    reveal_strlit("ssh");
    reveal_strlit("container");
    reveal_strlit("codespace");
    reveal_strlit("github");
    reveal_strlit("vfs");
    reveal_strlit("unknown");
    lemma_ascii_lower_has_no_upper(before_char(remote_authority(uri), '+'));
    lemma_ascii_lower_has_no_upper(before_char(uri, ':'));
}

/// The group key ignores ASCII case: URIs that are equal up to ASCII case
/// fall in the same group. For a `vscode-remote://` URI this is stated when
/// the escapes of its authority spell valid UTF-8 (other authorities are
/// read by `String::from_utf8_lossy`, of whose result nothing is stated).
pub proof fn lemma_remote_key_ignores_ascii_case(u: Seq<char>, v: Seq<char>)
    requires
        ascii_ieq(u, v),
        has_prefix_ieq(u, "vscode-remote://"@) ==> authority_is_utf8(u),
    ensures
        spec_remote_key(u) == spec_remote_key(v),
{
    lemma_has_prefix_ieq_alike(u, v, "file:"@);
    lemma_has_prefix_ieq_alike(u, v, "vscode-remote://"@);
    lemma_has_prefix_ieq_alike(u, v, "vscode-vfs://github"@);
    lemma_has_prefix_ieq_alike(u, v, "vscode-vfs://"@);
    lemma_ascii_lower_seq_index(u, 0);
    lemma_ascii_lower_seq_index(v, 0);
    if has_prefix_ieq(u, "vscode-remote://"@) {
        let n = "vscode-remote://"@.len() as int;
        lemma_ascii_lower_take_skip(u, n);
        lemma_ascii_lower_take_skip(v, n);
        lemma_before_char_ieq(u.skip(n), v.skip(n), '/');
        lemma_percent_decode_ieq(raw_authority(u), raw_authority(v));
        lemma_before_char_ieq(remote_authority(u), remote_authority(v), '+');
    }
    lemma_before_char_ieq(u, v, ':');
    lemma_ascii_lower_seq_index(before_char(u, ':'), 0);
    lemma_ascii_lower_seq_index(before_char(v, ':'), 0);
}

/// A URI, its lower-case form and its upper-case form have the same group
/// key (for a `vscode-remote://` URI, when the escapes of its authority spell
/// valid UTF-8).
pub proof fn lemma_remote_key_of_case_forms(u: Seq<char>)
    requires
        has_prefix_ieq(u, "vscode-remote://"@) ==> authority_is_utf8(u),
    ensures
        spec_remote_key(ascii_lower_seq(u)) == spec_remote_key(u),
        spec_remote_key(ascii_upper_seq(u)) == spec_remote_key(u),
{
    lemma_case_forms_ieq(u);
    lemma_remote_key_ignores_ascii_case(u, ascii_lower_seq(u));
    lemma_remote_key_ignores_ascii_case(u, ascii_upper_seq(u));
}

proof fn lemma_ascii_upper_cancel(a: Seq<char>, b: Seq<char>)
    requires
        no_ascii_upper(a),
        no_ascii_upper(b),
        ascii_upper_seq(a) == ascii_upper_seq(b),
    ensures
        a == b,
{
    assert(a.len() == ascii_upper_seq(a).len() && b.len() == ascii_upper_seq(b).len());
    assert forall|i: int| 0 <= i < a.len() implies a[i] == b[i] by {
        assert(ascii_upper_seq(a)[i] == ascii_upper(a[i]));
        assert(ascii_upper_seq(b)[i] == ascii_upper(b[i]));
        assert(!('A' <= a[i] && a[i] <= 'Z'));
        assert(!('A' <= b[i] && b[i] <= 'Z'));
        if ('a' <= a[i] && a[i] <= 'z') || ('a' <= b[i] && b[i] <= 'z') {
            lemma_same_code(a[i], b[i]);
        }
    }
    assert(a =~= b);
}

proof fn lemma_same_code(c: char, d: char)
    requires
        (c as u32) == (d as u32),
    ensures
        c == d,
{
    vstd::utf8::char_u32_cast(c, c as u32);
    vstd::utf8::char_u32_cast(d, d as u32);
}

/// `s` holds an ASCII lower-case letter at place `i`.
spec fn lower_letter_at(s: Seq<char>, i: int) -> bool {
    0 <= i < s.len() && 'a' <= s[i] && s[i] <= 'z'
}

proof fn lemma_upper_has_no_lower(k: Seq<char>, i: int)
    ensures
        !lower_letter_at(ascii_upper_seq(k), i),
{
    if 0 <= i < k.len() {
        assert(ascii_upper_seq(k)[i] == ascii_upper(k[i]));
    }
}

proof fn lemma_no_upper_literals()
    ensures
        no_ascii_upper("local"@),
        no_ascii_upper("wsl"@),
        no_ascii_upper("ssh"@),
        no_ascii_upper("dev-container"@),
        no_ascii_upper("container"@),
        no_ascii_upper("codespace"@),
        no_ascii_upper("tunnel"@),
        no_ascii_upper("github"@),
        no_ascii_upper("vfs"@),
        no_ascii_upper("unknown"@),
        ascii_upper_seq("wsl"@) == "WSL"@,
        ascii_upper_seq("ssh"@) == "SSH"@,
        ascii_upper_seq("vfs"@) == "VFS"@,
{
    reveal_strlit("local");
    reveal_strlit("wsl");
    reveal_strlit("ssh");
    reveal_strlit("dev-container");
    reveal_strlit("container");
    reveal_strlit("codespace");
    reveal_strlit("tunnel");
    reveal_strlit("github");
    reveal_strlit("vfs");
    reveal_strlit("unknown");
    reveal_strlit("WSL");
    reveal_strlit("SSH");
    reveal_strlit("VFS");
    assert(ascii_upper_seq("wsl"@) =~= "WSL"@);
    assert(ascii_upper_seq("ssh"@) =~= "SSH"@);
    assert(ascii_upper_seq("vfs"@) =~= "VFS"@);
}

/// Distinct group keys are shown under distinct names in the remote filter,
/// so no two of its items read the same. Group keys hold no ASCII upper-case
/// letter (`lemma_remote_key_lower_case`).
pub proof fn lemma_group_names_distinct(a: Seq<char>, b: Seq<char>)
    requires
        no_ascii_upper(a),
        no_ascii_upper(b),
        a != b,
    ensures
        spec_remote_group_display(a) != spec_remote_group_display(b),
{
    lemma_no_upper_literals();
    reveal_strlit("Local");
    reveal_strlit("WSL");
    reveal_strlit("SSH");
    reveal_strlit("Dev Container");
    reveal_strlit("Container");
    reveal_strlit("Codespace");
    reveal_strlit("Tunnel");
    reveal_strlit("GitHub");
    reveal_strlit("VFS");
    reveal_strlit("Unknown");
    let da = spec_remote_group_display(a);
    let db = spec_remote_group_display(b);
    lemma_upper_has_no_lower(a, 1);
    lemma_upper_has_no_lower(b, 1);
    assert(lower_letter_at("Local"@, 1));
    assert(lower_letter_at("Dev Container"@, 1));
    assert(lower_letter_at("Container"@, 1));
    assert(lower_letter_at("Codespace"@, 1));
    assert(lower_letter_at("Tunnel"@, 1));
    assert(lower_letter_at("GitHub"@, 1));
    assert(lower_letter_at("Unknown"@, 1));
    if !known_group_key(a) && !known_group_key(b) {
        if da == db {
            lemma_ascii_upper_cancel(a, b);
        }
    } else if known_group_key(a) && known_group_key(b) {
        lemma_known_names_distinct(a, b);
    } else if known_group_key(a) {
        lemma_known_name_not_upper(a, b);
    } else {
        lemma_known_name_not_upper(b, a);
    }
}

/// `k` is one of the group keys that have a name of their own.
spec fn known_group_key(k: Seq<char>) -> bool {
    ||| k == "local"@
    ||| k == "wsl"@
    ||| k == "ssh"@
    ||| k == "dev-container"@
    ||| k == "container"@
    ||| k == "codespace"@
    ||| k == "tunnel"@
    ||| k == "github"@
    ||| k == "vfs"@
    ||| k == "unknown"@
}

/// The name of a group key that has one, as a number: its length, its
/// first character and its third one tell the names apart.
spec fn name_signature(n: Seq<char>) -> (int, char, char) {
    (n.len() as int, n[0], n[2])
}

proof fn lemma_group_literals()
    ensures
        "local"@.len() == 5 && "local"@[0] == 'l' && "local"@[2] == 'c',
        "wsl"@.len() == 3 && "wsl"@[0] == 'w' && "wsl"@[2] == 'l',
        "ssh"@.len() == 3 && "ssh"@[0] == 's' && "ssh"@[2] == 'h',
        "dev-container"@.len() == 13 && "dev-container"@[0] == 'd' && "dev-container"@[2] == 'v',
        "container"@.len() == 9 && "container"@[0] == 'c' && "container"@[2] == 'n',
        "codespace"@.len() == 9 && "codespace"@[0] == 'c' && "codespace"@[2] == 'd',
        "tunnel"@.len() == 6 && "tunnel"@[0] == 't' && "tunnel"@[2] == 'n',
        "github"@.len() == 6 && "github"@[0] == 'g' && "github"@[2] == 't',
        "vfs"@.len() == 3 && "vfs"@[0] == 'v' && "vfs"@[2] == 's',
        "unknown"@.len() == 7 && "unknown"@[0] == 'u' && "unknown"@[2] == 'k',
        name_signature("Local"@) == (5int, 'L', 'c'),
        name_signature("WSL"@) == (3int, 'W', 'L'),
        name_signature("SSH"@) == (3int, 'S', 'H'),
        name_signature("Dev Container"@) == (13int, 'D', 'v'),
        name_signature("Container"@) == (9int, 'C', 'n'),
        name_signature("Codespace"@) == (9int, 'C', 'd'),
        name_signature("Tunnel"@) == (6int, 'T', 'n'),
        name_signature("GitHub"@) == (6int, 'G', 't'),
        name_signature("VFS"@) == (3int, 'V', 'S'),
        name_signature("Unknown"@) == (7int, 'U', 'k'),
{
    reveal_strlit("local");
    reveal_strlit("wsl");
    reveal_strlit("ssh");
    reveal_strlit("dev-container");
    reveal_strlit("container");
    reveal_strlit("codespace");
    reveal_strlit("tunnel");
    reveal_strlit("github");
    reveal_strlit("vfs");
    reveal_strlit("unknown");
    reveal_strlit("Local");
    reveal_strlit("WSL");
    reveal_strlit("SSH");
    reveal_strlit("Dev Container");
    reveal_strlit("Container");
    reveal_strlit("Codespace");
    reveal_strlit("Tunnel");
    reveal_strlit("GitHub");
    reveal_strlit("VFS");
    reveal_strlit("Unknown");
}

proof fn lemma_known_name(k: Seq<char>)
    requires
        known_group_key(k),
    ensures
        k == "local"@ ==> spec_remote_group_display(k) == "Local"@,
        k == "wsl"@ ==> spec_remote_group_display(k) == "WSL"@,
        k == "ssh"@ ==> spec_remote_group_display(k) == "SSH"@,
        k == "dev-container"@ ==> spec_remote_group_display(k) == "Dev Container"@,
        k == "container"@ ==> spec_remote_group_display(k) == "Container"@,
        k == "codespace"@ ==> spec_remote_group_display(k) == "Codespace"@,
        k == "tunnel"@ ==> spec_remote_group_display(k) == "Tunnel"@,
        k == "github"@ ==> spec_remote_group_display(k) == "GitHub"@,
        k == "vfs"@ ==> spec_remote_group_display(k) == "VFS"@,
        k == "unknown"@ ==> spec_remote_group_display(k) == "Unknown"@,
{
    lemma_group_literals();
}

proof fn lemma_known_names_distinct(a: Seq<char>, b: Seq<char>)
    requires
        known_group_key(a),
        known_group_key(b),
        a != b,
    ensures
        spec_remote_group_display(a) != spec_remote_group_display(b),
{
    lemma_group_literals();
    lemma_known_name(a);
    lemma_known_name(b);
    if spec_remote_group_display(a) == spec_remote_group_display(b) {
        assert(name_signature(spec_remote_group_display(a)) == name_signature(
            spec_remote_group_display(b),
        ));
    }
}

proof fn lemma_known_name_not_upper(a: Seq<char>, b: Seq<char>)
    requires
        known_group_key(a),
        !known_group_key(b),
        no_ascii_upper(b),
    ensures
        spec_remote_group_display(a) != spec_remote_group_display(b),
{
    lemma_no_upper_literals();
    reveal_strlit("Local");
    reveal_strlit("WSL");
    reveal_strlit("SSH");
    reveal_strlit("Dev Container");
    reveal_strlit("Container");
    reveal_strlit("Codespace");
    reveal_strlit("Tunnel");
    reveal_strlit("GitHub");
    reveal_strlit("VFS");
    reveal_strlit("Unknown");
    let da = spec_remote_group_display(a);
    let db = spec_remote_group_display(b);
    assert(db == ascii_upper_seq(b));
    lemma_upper_has_no_lower(b, 1);
    if da == db {
        if a == "wsl"@ {
            lemma_ascii_upper_cancel(b, "wsl"@);
        } else if a == "ssh"@ {
            lemma_ascii_upper_cancel(b, "ssh"@);
        } else if a == "vfs"@ {
            lemma_ascii_upper_cancel(b, "vfs"@);
        } else {
            assert(lower_letter_at(da, 1));
        }
    }
}

/// Folders in different groups are listed under different names in the
/// remote filter.
pub proof fn lemma_groups_of_uris_named_apart(u: Seq<char>, v: Seq<char>)
    requires
        spec_remote_key(u) != spec_remote_key(v),
    ensures
        spec_remote_group_display(spec_remote_key(u)) != spec_remote_group_display(
            spec_remote_key(v),
        ),
{
    lemma_remote_key_lower_case(u);
    lemma_remote_key_lower_case(v);
    lemma_group_names_distinct(spec_remote_key(u), spec_remote_key(v));
}

/// The kind written in a `vscode-remote://` URI: what precedes the first `+`
/// of its decoded authority, in lower case (`wsl`, `ssh-remote`, `tunnel`,
/// ...).
pub open spec fn written_remote_kind(uri: Seq<char>) -> Seq<char> {
    ascii_lower_seq(before_char(remote_authority(uri), '+'))
}

proof fn lemma_remote_is_not_file(uri: Seq<char>)
    requires
        has_prefix_ieq(uri, "vscode-remote://"@),
    ensures
        !has_prefix_ieq(uri, "file:"@),
{
    reveal_strlit("vscode-remote://");
    reveal_strlit("file:");
    if has_prefix_ieq(uri, "file:"@) {
        lemma_ascii_lower_seq_index(uri.take(16), 0);
        lemma_ascii_lower_seq_index(uri.take(5), 0);
        lemma_ascii_lower_seq_index("vscode-remote://"@, 0);
        lemma_ascii_lower_seq_index("file:"@, 0);
        assert(uri.take(16)[0] == uri.take(5)[0]);
        assert(ascii_lower('v') != ascii_lower('f'));
    }
}

proof fn lemma_kind_literals()
    ensures
        "ssh-remote"@.len() == 10 && "ssh-remote"@[0] == 's' && "ssh-remote"@[2] == 'h',
        "attached-container"@.len() == 18 && "attached-container"@[0] == 'a' && "attached-container"@[2] == 't',
        "codespaces"@.len() == 10 && "codespaces"@[0] == 'c' && "codespaces"@[2] == 'd',
        "ssh"@.len() == 3 && "ssh"@[0] == 's' && "ssh"@[2] == 'h',
        "container"@.len() == 9 && "container"@[0] == 'c' && "container"@[2] == 'n',
        "codespace"@.len() == 9 && "codespace"@[0] == 'c' && "codespace"@[2] == 'd',
{
    reveal_strlit("ssh-remote");
    reveal_strlit("attached-container");
    reveal_strlit("codespaces");
    reveal_strlit("ssh");
    reveal_strlit("container");
    reveal_strlit("codespace");
}

/// A `vscode-remote://` folder is grouped by the kind written in its URI:
/// the key is that kind itself, except that `ssh-remote`,
/// `attached-container` and `codespaces` are grouped as `ssh`, `container`
/// and `codespace`.
pub proof fn lemma_remote_folders_grouped_by_kind(uri: Seq<char>)
    requires
        has_prefix_ieq(uri, "vscode-remote://"@),
    ensures
        written_remote_kind(uri) == "ssh-remote"@ ==> spec_remote_key(uri) == "ssh"@,
        written_remote_kind(uri) == "attached-container"@ ==> spec_remote_key(uri)
            == "container"@,
        written_remote_kind(uri) == "codespaces"@ ==> spec_remote_key(uri) == "codespace"@,
        written_remote_kind(uri) != "ssh-remote"@ && written_remote_kind(uri)
            != "attached-container"@ && written_remote_kind(uri) != "codespaces"@
            ==> spec_remote_key(uri) == written_remote_kind(uri),
{
    lemma_remote_is_not_file(uri);
    lemma_kind_literals();
}

/// Two `vscode-remote://` folders share a group only when their URIs name
/// the same kind, or one names `ssh-remote`, `attached-container` or
/// `codespaces` and the other the short form of it.
pub proof fn lemma_remote_kinds_share_group_only_by_alias(u: Seq<char>, v: Seq<char>)
    requires
        has_prefix_ieq(u, "vscode-remote://"@),
        has_prefix_ieq(v, "vscode-remote://"@),
        spec_remote_key(u) == spec_remote_key(v),
    ensures
        written_remote_kind(u) == written_remote_kind(v) || ({
            let pair = set![written_remote_kind(u), written_remote_kind(v)];
            ||| pair == set!["ssh-remote"@, "ssh"@]
            ||| pair == set!["attached-container"@, "container"@]
            ||| pair == set!["codespaces"@, "codespace"@]
        }),
{
    lemma_remote_folders_grouped_by_kind(u);
    lemma_remote_folders_grouped_by_kind(v);
    lemma_kind_literals();
    let ku = written_remote_kind(u);
    let kv = written_remote_kind(v);
    if ku != kv {
        if ku == "ssh-remote"@ || kv == "ssh"@ && kv != ku {
            if ku == "ssh-remote"@ {
                assert(kv == "ssh"@);
                assert(set![ku, kv] =~= set!["ssh-remote"@, "ssh"@]);
            } else {
                assert(set![ku, kv] =~= set!["ssh-remote"@, "ssh"@]);
            }
        } else if kv == "ssh-remote"@ {
            assert(ku == "ssh"@);
            assert(set![ku, kv] =~= set!["ssh-remote"@, "ssh"@]);
        } else if ku == "attached-container"@ {
            assert(kv == "container"@);
            assert(set![ku, kv] =~= set!["attached-container"@, "container"@]);
        } else if kv == "attached-container"@ {
            assert(ku == "container"@);
            assert(set![ku, kv] =~= set!["attached-container"@, "container"@]);
        } else if ku == "codespaces"@ {
            assert(kv == "codespace"@);
            assert(set![ku, kv] =~= set!["codespaces"@, "codespace"@]);
        } else if kv == "codespaces"@ {
            assert(ku == "codespace"@);
            assert(set![ku, kv] =~= set!["codespaces"@, "codespace"@]);
        }
    }
}

proof fn lemma_names_spell_keys()
    ensures
        ascii_lower_seq("Local"@) == "local"@,
        ascii_lower_seq("WSL"@) == "wsl"@,
        ascii_lower_seq("SSH"@) == "ssh"@,
        ascii_lower_seq("Container"@) == "container"@,
        ascii_lower_seq("Codespace"@) == "codespace"@,
        ascii_lower_seq("Tunnel"@) == "tunnel"@,
        ascii_lower_seq("GitHub"@) == "github"@,
        ascii_lower_seq("VFS"@) == "vfs"@,
        ascii_lower_seq("Unknown"@) == "unknown"@,
{
    reveal_strlit("local");
    reveal_strlit("Local");
    reveal_strlit("wsl");
    reveal_strlit("WSL");
    reveal_strlit("ssh");
    reveal_strlit("SSH");
    reveal_strlit("container");
    reveal_strlit("Container");
    reveal_strlit("codespace");
    reveal_strlit("Codespace");
    reveal_strlit("tunnel");
    reveal_strlit("Tunnel");
    reveal_strlit("github");
    reveal_strlit("GitHub");
    reveal_strlit("vfs");
    reveal_strlit("VFS");
    reveal_strlit("unknown");
    reveal_strlit("Unknown");
    assert(ascii_lower_seq("Local"@) =~= "local"@);
    assert(ascii_lower_seq("WSL"@) =~= "wsl"@);
    assert(ascii_lower_seq("SSH"@) =~= "ssh"@);
    assert(ascii_lower_seq("Container"@) =~= "container"@);
    assert(ascii_lower_seq("Codespace"@) =~= "codespace"@);
    assert(ascii_lower_seq("Tunnel"@) =~= "tunnel"@);
    assert(ascii_lower_seq("GitHub"@) =~= "github"@);
    assert(ascii_lower_seq("VFS"@) =~= "vfs"@);
    assert(ascii_lower_seq("Unknown"@) =~= "unknown"@);
}

/// A group is shown under its own key, apart from letter case (`wsl` as
/// `WSL`, `container` as `Container`, any other key in capitals); the one
/// exception is `dev-container`, shown as `Dev Container`.
pub proof fn lemma_group_name_spells_key(k: Seq<char>)
    ensures
        k != "dev-container"@ ==> ascii_ieq(spec_remote_group_display(k), k),
        k == "dev-container"@ ==> spec_remote_group_display(k) == "Dev Container"@,
{
    lemma_names_spell_keys();
    lemma_group_literals();
    lemma_case_forms_ieq(k);
    if known_group_key(k) && k != "dev-container"@ {
        lemma_known_name(k);
        assert(ascii_lower_seq(spec_remote_group_display(k)) == k);
        lemma_no_upper_literals();
        lemma_lower_of_no_upper(k);
    }
}

proof fn lemma_lower_of_no_upper(k: Seq<char>)
    requires
        no_ascii_upper(k),
    ensures
        ascii_lower_seq(k) == k,
{
    assert forall|i: int| 0 <= i < k.len() implies ascii_lower_seq(k)[i] == k[i] by {
        lemma_ascii_lower_seq_index(k, i);
    }
    lemma_ascii_lower_seq_index(k, 0);
    assert(ascii_lower_seq(k) =~= k);
}

/// The group of a folder that is not a `vscode-remote://` one: `local` for
/// a `file:` URI (in any letter case); for `vscode-vfs://` URIs `github`
/// when the provider is GitHub and `vfs` otherwise; any other URI is grouped
/// by its scheme in lower case, or as `unknown` when it has none.
pub proof fn lemma_other_folders_grouped(uri: Seq<char>)
    ensures
        has_prefix_ieq(uri, "file:"@) ==> spec_remote_key(uri) == "local"@,
        !has_prefix_ieq(uri, "file:"@) && !has_prefix_ieq(uri, "vscode-remote://"@)
            && has_prefix_ieq(uri, "vscode-vfs://github"@) ==> spec_remote_key(uri) == "github"@,
        !has_prefix_ieq(uri, "file:"@) && !has_prefix_ieq(uri, "vscode-remote://"@)
            && !has_prefix_ieq(uri, "vscode-vfs://github"@) && has_prefix_ieq(
            uri,
            "vscode-vfs://"@,
        ) ==> spec_remote_key(uri) == "vfs"@,
        !has_prefix_ieq(uri, "file:"@) && !has_prefix_ieq(uri, "vscode-remote://"@)
            && !has_prefix_ieq(uri, "vscode-vfs://"@) ==> spec_remote_key(uri) == if before_char(
            uri,
            ':',
        ).len() == 0 {
            "unknown"@
        } else {
            ascii_lower_seq(before_char(uri, ':'))
        },
{
    if !has_prefix_ieq(uri, "vscode-vfs://"@) && has_prefix_ieq(uri, "vscode-vfs://github"@) {
        reveal_strlit("vscode-vfs://");
        reveal_strlit("vscode-vfs://github");
        let n = "vscode-vfs://"@.len() as int;
        lemma_ascii_lower_take_skip(uri.take(19), n);
        lemma_ascii_lower_take_skip("vscode-vfs://github"@, n);
        assert(uri.take(19).take(n) =~= uri.take(n));
        assert("vscode-vfs://github"@.take(n) =~= "vscode-vfs://"@);
    }
}

proof fn lemma_tag_literals()
    ensures
        "wsl"@.len() == 3 && "wsl"@[0] == 'w',
        "ssh-remote"@.len() == 10 && "ssh-remote"@[0] == 's',
        "dev-container"@.len() == 13 && "dev-container"@[0] == 'd',
        "attached-container"@.len() == 18 && "attached-container"@[0] == 'a',
        "codespaces"@.len() == 10 && "codespaces"@[0] == 'c',
        "tunnel"@.len() == 6 && "tunnel"@[0] == 't',
{
    reveal_strlit("wsl");
    reveal_strlit("ssh-remote");
    reveal_strlit("dev-container");
    reveal_strlit("attached-container");
    reveal_strlit("codespaces");
    reveal_strlit("tunnel");
}

/// The remote tag of a folder names its kind: `LOCAL` for a `file:` URI;
/// for a `vscode-remote://` URI `WSL: ` or `SSH: ` and the instance for WSL
/// and SSH remotes, and `DEV CONTAINER`, `CONTAINER`, `CODESPACE`, `TUNNEL`
/// for dev containers, attached containers, codespaces and tunnels.
pub proof fn lemma_remote_tag_by_kind(uri: Seq<char>)
    ensures
        has_prefix_ieq(uri, "file:"@) ==> spec_remote_kind(uri) == "LOCAL"@,
        has_prefix_ieq(uri, "vscode-remote://"@) ==> {
            let k = written_remote_kind(uri);
            let instance = instance_or_unknown(remote_authority(uri));
            &&& k == "wsl"@ ==> spec_remote_kind(uri) == "WSL: "@ + instance
            &&& k == "ssh-remote"@ ==> spec_remote_kind(uri) == "SSH: "@ + instance
            &&& k == "dev-container"@ ==> spec_remote_kind(uri) == "DEV CONTAINER"@
            &&& k == "attached-container"@ ==> spec_remote_kind(uri) == "CONTAINER"@
            &&& k == "codespaces"@ ==> spec_remote_kind(uri) == "CODESPACE"@
            &&& k == "tunnel"@ ==> spec_remote_kind(uri) == "TUNNEL"@
        },
{
    lemma_tag_literals();
    if has_prefix_ieq(uri, "vscode-remote://"@) {
        lemma_remote_is_not_file(uri);
    }
}

} // verus!
