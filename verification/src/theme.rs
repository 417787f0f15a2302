//! Colours: the light and dark themes, and the colours of a list row.

use vstd::prelude::*;
use vstd::utf8::encode_utf8;
use crate::remote::{
    instance_or_unknown, lemma_remote_tag_by_kind, remote_authority, spec_remote_kind,
    written_remote_kind,
};
use crate::text::{
    ascii_ieq, ascii_lower_seq, chars_eq_ignore_ascii_case, chars_eq_str, chars_of, contains_str,
    has_prefix, has_prefix_ieq, lemma_ascii_lower_seq_index, lemma_ascii_lower_take_skip,
    lower_ascii, occurs_in, starts_with_chars, string_from,
};

verus! {

/// The `COLORREF` value of a colour: red in the low byte, then green, then blue.
pub open spec fn spec_rgb(red: u8, green: u8, blue: u8) -> u32 {
    (red + green * 256 + blue * 65536) as u32
}

/// The `COLORREF` value of a colour.
pub fn rgb(red: u8, green: u8, blue: u8) -> (c: u32)
    ensures
        c == spec_rgb(red, green, blue),
{
    let r = red as u32;
    let g = green as u32;
    let b = blue as u32;
    assert(r | (g << 8) | (b << 16) == r + g * 256 + b * 65536) by (bit_vector)
        requires
            r < 256,
            g < 256,
            b < 256,
    ;
    r | (g << 8) | (b << 16)
}

/// The colours of the window.
#[derive(Clone, Copy, Debug)]
pub struct Theme {
    pub dark: bool,
    pub window: u32,
    pub control: u32,
    pub text: u32,
    pub muted: u32,
}

impl Theme {
    /// The light theme.
    pub open spec fn spec_light() -> Theme {
        Theme {
            dark: false,
            window: spec_rgb(245, 245, 245),
            control: spec_rgb(255, 255, 255),
            text: spec_rgb(25, 25, 28),
            muted: spec_rgb(96, 96, 96),
        }
    }

    /// The dark theme.
    pub open spec fn spec_dark() -> Theme {
        Theme {
            dark: true,
            window: spec_rgb(30, 30, 30),
            control: spec_rgb(37, 37, 38),
            text: spec_rgb(232, 232, 232),
            muted: spec_rgb(165, 165, 165),
        }
    }

    pub fn light() -> (t: Theme)
        ensures
            t == Theme::spec_light(),
    {
        Theme {
            dark: false,
            window: rgb(245, 245, 245),
            control: rgb(255, 255, 255),
            text: rgb(25, 25, 28),
            muted: rgb(96, 96, 96),
        }
    }

    pub fn dark() -> (t: Theme)
        ensures
            t == Theme::spec_dark(),
    {
        Theme {
            dark: true,
            window: rgb(30, 30, 30),
            control: rgb(37, 37, 38),
            text: rgb(232, 232, 232),
            muted: rgb(165, 165, 165),
        }
    }

    /// The visual style given to the controls: `DarkMode_Explorer` or `Explorer`.
    pub fn control_theme_name(&self) -> (name: &'static str)
        ensures
            name@ == (if self.dark {
                "DarkMode_Explorer"@
            } else {
                "Explorer"@
            }),
    {
        if self.dark {
            "DarkMode_Explorer"
        } else {
            "Explorer"
        }
    }
}

/// Some argument equals `flag` when ASCII case is ignored.
pub open spec fn has_flag(arguments: Seq<String>, flag: Seq<char>) -> bool {
    exists|i: int| 0 <= i < arguments.len() && ascii_ieq(#[trigger] arguments[i]@, flag)
}

/// Whether some argument equals `flag`, ignoring ASCII case.
pub fn flag_given(arguments: &[String], flag: &str) -> (r: bool)
    ensures
        r == has_flag(arguments@, flag@),
{
    let f = chars_of(flag);
    for i in 0..arguments.len()
        invariant
            f@ == flag@,
            forall|j: int| 0 <= j < i ==> !ascii_ieq(#[trigger] arguments@[j]@, flag@),
    {
        let a = chars_of(arguments[i].as_str());
        if chars_eq_ignore_ascii_case(a.as_slice(), f.as_slice()) {
            return true;
        }
    }
    false
}

/// The theme asked for on the command line: `--dark` wins over `--light`.
pub fn requested_theme(arguments: &[String]) -> (t: Option<Theme>)
    ensures
        t == (if has_flag(arguments@, "--dark"@) {
            Some(Theme::spec_dark())
        } else if has_flag(arguments@, "--light"@) {
            Some(Theme::spec_light())
        } else {
            None
        }),
{
    if flag_given(arguments, "--dark") {
        Some(Theme::dark())
    } else if flag_given(arguments, "--light") {
        Some(Theme::light())
    } else {
        None
    }
}

/// Whether the command line asks for the demonstration entries (`--demo`).
pub fn demo_requested(arguments: &[String]) -> (r: bool)
    ensures
        r == has_flag(arguments@, "--demo"@),
{
    flag_given(arguments, "--demo")
}

/// The system theme from the registry value `AppsUseLightTheme`: dark only
/// when the value was read (`status` 0) and is 0.
pub fn theme_from_registry(status: i32, apps_use_light_theme: u32) -> (t: Theme)
    ensures
        t == (if status == 0 && apps_use_light_theme == 0 {
            Theme::spec_dark()
        } else {
            Theme::spec_light()
        }),
{
    if status == 0 && apps_use_light_theme == 0 {
        Theme::dark()
    } else {
        Theme::light()
    }
}

/// The FNV-1a hash of a byte sequence.
pub open spec fn fnv1a(bytes: Seq<u8>) -> u32
    decreases bytes.len(),
{
    if bytes.len() == 0 {
        2_166_136_261u32
    } else {
        ((((fnv1a(bytes.drop_last()) ^ (bytes.last() as u32)) as nat) * 16_777_619nat)
            % 0x1_0000_0000nat) as u32
    }
}

/// The kind of remote a row colour goes by: 0 local, 1 WSL, 2 SSH,
/// 3 container, 4 codespace or GitHub, 5 tunnel, 6 any other.
pub open spec fn remote_color_class(remote: Seq<char>) -> int {
    let r = ascii_lower_seq(remote);
    if r == "local"@ {
        0
    } else if has_prefix(r, "wsl"@) {
        1
    } else if has_prefix(r, "ssh"@) {
        2
    } else if occurs_in(r, "container"@) {
        3
    } else if r == "codespace"@ || r == "github"@ {
        4
    } else if r == "tunnel"@ {
        5
    } else {
        6
    }
}

/// The (normal, selected) background colours of a named class of remote.
pub open spec fn class_colors(class: int, dark: bool) -> (u32, u32) {
    if class == 0 {
        if dark { (spec_rgb(38, 40, 45), spec_rgb(79, 86, 99)) } else { (spec_rgb(239, 241, 245), spec_rgb(79, 86, 99)) }
    } else if class == 1 {
        if dark { (spec_rgb(57, 37, 31), spec_rgb(194, 70, 25)) } else { (spec_rgb(255, 238, 229), spec_rgb(194, 70, 25)) }
    } else if class == 2 {
        if dark { (spec_rgb(31, 44, 61), spec_rgb(31, 92, 173)) } else { (spec_rgb(232, 241, 255), spec_rgb(31, 92, 173)) }
    } else if class == 3 {
        if dark { (spec_rgb(29, 48, 56), spec_rgb(25, 119, 177)) } else { (spec_rgb(228, 246, 255), spec_rgb(25, 119, 177)) }
    } else if class == 4 {
        if dark { (spec_rgb(45, 36, 61), spec_rgb(103, 63, 168)) } else { (spec_rgb(241, 234, 255), spec_rgb(103, 63, 168)) }
    } else {
        if dark { (spec_rgb(28, 52, 49), spec_rgb(0, 116, 104)) } else { (spec_rgb(227, 247, 242), spec_rgb(0, 116, 104)) }
    }
}

/// Entry `i` of the palette that other remotes are hashed into.
pub open spec fn palette_colors(i: int, dark: bool) -> (u32, u32) {
    if i == 0 {
        if dark { (spec_rgb(58, 43, 27), spec_rgb(166, 91, 0)) } else { (spec_rgb(255, 241, 223), spec_rgb(166, 91, 0)) }
    } else if i == 1 {
        if dark { (spec_rgb(31, 53, 37), spec_rgb(42, 120, 63)) } else { (spec_rgb(232, 246, 235), spec_rgb(42, 120, 63)) }
    } else if i == 2 {
        if dark { (spec_rgb(55, 34, 42), spec_rgb(153, 60, 91)) } else { (spec_rgb(250, 233, 239), spec_rgb(153, 60, 91)) }
    } else {
        if dark { (spec_rgb(36, 40, 61), spec_rgb(67, 79, 164)) } else { (spec_rgb(235, 239, 255), spec_rgb(67, 79, 164)) }
    }
}

/// The (normal, selected) background colours of a row whose remote is `remote`.
pub open spec fn spec_row_colors(remote: Seq<char>, dark: bool) -> (u32, u32) {
    let class = remote_color_class(remote);
    if class < 6 {
        class_colors(class, dark)
    } else {
        palette_colors((fnv1a(encode_utf8(ascii_lower_seq(remote))) % 4) as int, dark)
    }
}

/// The FNV-1a hash of a byte sequence.
pub fn fnv1a_hash(bytes: &[u8]) -> (h: u32)
    ensures
        h == fnv1a(bytes@),
{
    let mut h: u32 = 2_166_136_261;
    for i in 0..bytes.len()
        invariant
            h == fnv1a(bytes@.take(i as int)),
    {
        assert(bytes@.take(i + 1).drop_last() == bytes@.take(i as int));
        h = (h ^ (bytes[i] as u32)).wrapping_mul(16_777_619);
    }
    assert(bytes@.take(bytes@.len() as int) == bytes@);
    h
}

fn class_colors_exec(class: u8, dark: bool) -> (c: (u32, u32))
    requires
        class < 6,
    ensures
        c == class_colors(class as int, dark),
{
    if class == 0 {
        if dark { (rgb(38, 40, 45), rgb(79, 86, 99)) } else { (rgb(239, 241, 245), rgb(79, 86, 99)) }
    } else if class == 1 {
        if dark { (rgb(57, 37, 31), rgb(194, 70, 25)) } else { (rgb(255, 238, 229), rgb(194, 70, 25)) }
    } else if class == 2 {
        if dark { (rgb(31, 44, 61), rgb(31, 92, 173)) } else { (rgb(232, 241, 255), rgb(31, 92, 173)) }
    } else if class == 3 {
        if dark { (rgb(29, 48, 56), rgb(25, 119, 177)) } else { (rgb(228, 246, 255), rgb(25, 119, 177)) }
    } else if class == 4 {
        if dark { (rgb(45, 36, 61), rgb(103, 63, 168)) } else { (rgb(241, 234, 255), rgb(103, 63, 168)) }
    } else {
        if dark { (rgb(28, 52, 49), rgb(0, 116, 104)) } else { (rgb(227, 247, 242), rgb(0, 116, 104)) }
    }
}

fn palette_colors_exec(i: u32, dark: bool) -> (c: (u32, u32))
    requires
        i < 4,
    ensures
        c == palette_colors(i as int, dark),
{
    if i == 0 {
        if dark { (rgb(58, 43, 27), rgb(166, 91, 0)) } else { (rgb(255, 241, 223), rgb(166, 91, 0)) }
    } else if i == 1 {
        if dark { (rgb(31, 53, 37), rgb(42, 120, 63)) } else { (rgb(232, 246, 235), rgb(42, 120, 63)) }
    } else if i == 2 {
        if dark { (rgb(55, 34, 42), rgb(153, 60, 91)) } else { (rgb(250, 233, 239), rgb(153, 60, 91)) }
    } else {
        if dark { (rgb(36, 40, 61), rgb(67, 79, 164)) } else { (rgb(235, 239, 255), rgb(67, 79, 164)) }
    }
}

/// The colour class of a remote.
fn color_class(remote: &[char]) -> (class: u8)
    ensures
        class as int == remote_color_class(remote@),
{
    let r = lower_ascii(remote);
    let r = r.as_slice();
    if chars_eq_str(r, "local") {
        0
    } else if starts_with_chars(r, chars_of("wsl").as_slice()) {
        1
    } else if starts_with_chars(r, chars_of("ssh").as_slice()) {
        2
    } else if contains_str(r, "container") {
        3
    } else if chars_eq_str(r, "codespace") || chars_eq_str(r, "github") {
        4
    } else if chars_eq_str(r, "tunnel") {
        5
    } else {
        6
    }
}

/// The (normal, selected) background colours of a row whose remote is `remote`.
pub fn row_colors(remote: &str, dark: bool) -> (c: (u32, u32))
    ensures
        c == spec_row_colors(remote@, dark),
{
    let chars = chars_of(remote);
    let class = color_class(chars.as_slice());
    if class < 6 {
        class_colors_exec(class, dark)
    } else {
        let lowered = string_from(lower_ascii(chars.as_slice()).as_slice());
        let hash = fnv1a_hash(lowered.as_str().as_bytes());
        palette_colors_exec(hash % 4, dark)
    }
}

/// The (background, text) colours with which a row is painted.
pub fn row_paint(remote: &str, theme: &Theme, selected: bool) -> (c: (u32, u32))
    ensures
        c == (if selected {
            (spec_row_colors(remote@, theme.dark).1, spec_rgb(255, 255, 255))
        } else {
            (spec_row_colors(remote@, theme.dark).0, theme.text)
        }),
{
    let (normal, chosen) = row_colors(remote, theme.dark);
    if selected {
        (chosen, rgb(255, 255, 255))
    } else {
        (normal, theme.text)
    }
}

/// Rows of different colour classes are painted differently, in either theme.
pub proof fn lemma_row_colors_distinguish_classes(a: Seq<char>, b: Seq<char>, dark: bool)
    requires
        remote_color_class(a) != remote_color_class(b),
    ensures
        spec_row_colors(a, dark) != spec_row_colors(b, dark),
{
    let ca = remote_color_class(a);
    let cb = remote_color_class(b);
    let ia = (fnv1a(encode_utf8(ascii_lower_seq(a))) % 4) as int;
    let ib = (fnv1a(encode_utf8(ascii_lower_seq(b))) % 4) as int;
    assert(0 <= ia < 4 && 0 <= ib < 4);
}

/// The dark and the light theme never paint a row alike.
pub proof fn lemma_row_colors_differ_by_theme(remote: Seq<char>)
    ensures
        spec_row_colors(remote, true) != spec_row_colors(remote, false),
{
    let i = (fnv1a(encode_utf8(ascii_lower_seq(remote))) % 4) as int;
    assert(0 <= i < 4);
}

/// Rows are coloured by the kind of their remote tag, ignoring ASCII case,
/// in the same (normal, selected) colours (`COLORREF`, 0xBBGGRR) as ever:
/// `LOCAL` grey; a tag beginning with `WSL` orange; one beginning with `SSH`
/// blue; any other tag containing `CONTAINER` (`CONTAINER`,
/// `DEV CONTAINER`, ...) steel blue; `CODESPACE` and `GITHUB` purple;
/// `TUNNEL` teal.
pub proof fn lemma_row_colors_by_kind(remote: Seq<char>, dark: bool)
    ensures
        ascii_lower_seq(remote) == "local"@ ==> spec_row_colors(remote, dark) == if dark {
            (0x2D2826u32, 0x63564Fu32)
        } else {
            (0xF5F1EFu32, 0x63564Fu32)
        },
        ascii_lower_seq(remote) != "local"@ && has_prefix(ascii_lower_seq(remote), "wsl"@)
            ==> spec_row_colors(remote, dark) == if dark {
            (0x1F2539u32, 0x1946C2u32)
        } else {
            (0xE5EEFFu32, 0x1946C2u32)
        },
        ascii_lower_seq(remote) != "local"@ && !has_prefix(ascii_lower_seq(remote), "wsl"@)
            && has_prefix(ascii_lower_seq(remote), "ssh"@) ==> spec_row_colors(remote, dark)
            == if dark {
            (0x3D2C1Fu32, 0xAD5C1Fu32)
        } else {
            (0xFFF1E8u32, 0xAD5C1Fu32)
        },
        ascii_lower_seq(remote) != "local"@ && !has_prefix(ascii_lower_seq(remote), "wsl"@)
            && !has_prefix(ascii_lower_seq(remote), "ssh"@) && occurs_in(
            ascii_lower_seq(remote),
            "container"@,
        ) ==> spec_row_colors(remote, dark) == if dark {
            (0x38301Du32, 0xB17719u32)
        } else {
            (0xFFF6E4u32, 0xB17719u32)
        },
        ascii_lower_seq(remote) != "local"@ && !has_prefix(ascii_lower_seq(remote), "wsl"@)
            && !has_prefix(ascii_lower_seq(remote), "ssh"@) && !occurs_in(
            ascii_lower_seq(remote),
            "container"@,
        ) && (ascii_lower_seq(remote) == "codespace"@ || ascii_lower_seq(remote) == "github"@)
            ==> spec_row_colors(remote, dark) == if dark {
            (0x3D242Du32, 0xA83F67u32)
        } else {
            (0xFFEAF1u32, 0xA83F67u32)
        },
        ascii_lower_seq(remote) == "tunnel"@ ==> spec_row_colors(remote, dark) == if dark {
            (0x31341Cu32, 0x687400u32)
        } else {
            (0xF2F7E3u32, 0x687400u32)
        },
{
    lemma_theme_literals();
    let r = ascii_lower_seq(remote);
    if r == "tunnel"@ {
        assert(r != "local"@);
        assert(!has_prefix(r, "wsl"@)) by {
            assert(r[0] != "wsl"@.take(3)[0]);
        }
        assert(!has_prefix(r, "ssh"@)) by {
            assert(r[0] != "ssh"@.take(3)[0]);
        }
        assert(r != "codespace"@ && r != "github"@);
    }
}

proof fn lemma_theme_literals()
    ensures
        "tunnel"@.len() == 6 && "tunnel"@[0] == 't',
        "local"@.len() == 5,
        "wsl"@.len() == 3 && "wsl"@[0] == 'w',
        "ssh"@.len() == 3 && "ssh"@[0] == 's',
        "codespace"@.len() == 9,
        "github"@.len() == 6 && "github"@[0] == 'g',
        "container"@.len() == 9,
{
    reveal_strlit("tunnel");
    reveal_strlit("local");
    reveal_strlit("wsl");
    reveal_strlit("ssh");
    reveal_strlit("codespace");
    reveal_strlit("github");
    reveal_strlit("container");
}

proof fn lemma_prefixed_tag_lowering(x: Seq<char>)
    ensures
        has_prefix(ascii_lower_seq("WSL: "@ + x), "wsl"@),
        has_prefix(ascii_lower_seq("SSH: "@ + x), "ssh"@),
        !has_prefix(ascii_lower_seq("SSH: "@ + x), "wsl"@),
        ascii_lower_seq("WSL: "@ + x) != "local"@,
        ascii_lower_seq("SSH: "@ + x) != "local"@,
{
    reveal_strlit("WSL: ");
    reveal_strlit("SSH: ");
    reveal_strlit("WSL");
    reveal_strlit("SSH");
    lemma_theme_literals();
    let w = "WSL: "@ + x;
    let h = "SSH: "@ + x;
    lemma_ascii_lower_take_skip(w, 3);
    lemma_ascii_lower_take_skip(h, 3);
    assert(w.take(3) =~= "WSL"@);
    assert(h.take(3) =~= "SSH"@);
    reveal_strlit("wsl");
    reveal_strlit("ssh");
    assert(ascii_lower_seq("WSL"@) =~= "wsl"@);
    assert(ascii_lower_seq("SSH"@) =~= "ssh"@);
    lemma_ascii_lower_seq_index(w, 0);
    lemma_ascii_lower_seq_index(h, 0);
    reveal_strlit("local");
    assert(ascii_lower_seq(w)[0] == 'w');
    assert(ascii_lower_seq(h)[0] == 's');
    assert(ascii_lower_seq(h).take(3)[0] == 's');
}

proof fn lemma_not_wsl_ssh_local(r: Seq<char>)
    requires
        r.len() > 0,
        r[0] != 'w' && r[0] != 's' && r[0] != 'l',
    ensures
        !has_prefix(r, "wsl"@),
        !has_prefix(r, "ssh"@),
        r != "local"@,
{
    reveal_strlit("wsl");
    reveal_strlit("ssh");
    reveal_strlit("local");
    if has_prefix(r, "wsl"@) {
        assert(r.take(3)[0] == r[0]);
    }
    if has_prefix(r, "ssh"@) {
        assert(r.take(3)[0] == r[0]);
    }
}

proof fn lemma_container_tag_class()
    ensures
        remote_color_class("CONTAINER"@) == 3,
{
    reveal_strlit("CONTAINER");
    reveal_strlit("container");
    let c = ascii_lower_seq("CONTAINER"@);
    assert(c =~= "container"@);
    assert(c.subrange(0int, 0int + "container"@.len()) == "container"@);
    lemma_not_wsl_ssh_local(c);
}

proof fn lemma_dev_container_tag_class()
    ensures
        remote_color_class("DEV CONTAINER"@) == 3,
{
    reveal_strlit("DEV CONTAINER");
    reveal_strlit("container");
    let d = ascii_lower_seq("DEV CONTAINER"@);
    assert(d.len() == 13);
    assert(d.subrange(4int, 4int + "container"@.len()) =~= "container"@);
    assert(d[0] == 'd');
    lemma_not_wsl_ssh_local(d);
}

proof fn lemma_codespace_tag_class()
    ensures
        remote_color_class("CODESPACE"@) == 4,
{
    reveal_strlit("CODESPACE");
    reveal_strlit("codespace");
    reveal_strlit("container");
    let s = ascii_lower_seq("CODESPACE"@);
    assert(s =~= "codespace"@);
    lemma_not_wsl_ssh_local(s);
    assert(!occurs_in(s, "container"@)) by {
        if occurs_in(s, "container"@) {
            let i = choose|i: int|
                0 <= i && i + "container"@.len() <= s.len() && #[trigger] s.subrange(
                    i,
                    i + "container"@.len(),
                ) == "container"@;
            assert(s.subrange(i, i + 9)[2] == s[2]);
        }
    }
}

proof fn lemma_tunnel_tag_class()
    ensures
        remote_color_class("TUNNEL"@) == 5,
{
    reveal_strlit("TUNNEL");
    reveal_strlit("tunnel");
    let t = ascii_lower_seq("TUNNEL"@);
    assert(t =~= "tunnel"@);
    lemma_not_wsl_ssh_local(t);
    lemma_theme_literals();
}

/// Rows are coloured by the kind of folder they show: WSL folders orange,
/// SSH folders blue, dev-container and attached-container folders both in
/// the container colours, codespaces purple and tunnels teal, in either
/// theme.
pub proof fn lemma_remote_folders_painted_by_kind(uri: Seq<char>, dark: bool)
    requires
        has_prefix_ieq(uri, "vscode-remote://"@),
    ensures
        written_remote_kind(uri) == "wsl"@ ==> spec_row_colors(spec_remote_kind(uri), dark)
            == if dark {
            (0x1F2539u32, 0x1946C2u32)
        } else {
            (0xE5EEFFu32, 0x1946C2u32)
        },
        written_remote_kind(uri) == "ssh-remote"@ ==> spec_row_colors(spec_remote_kind(uri), dark)
            == if dark {
            (0x3D2C1Fu32, 0xAD5C1Fu32)
        } else {
            (0xFFF1E8u32, 0xAD5C1Fu32)
        },
        written_remote_kind(uri) == "dev-container"@ || written_remote_kind(uri)
            == "attached-container"@ ==> spec_row_colors(spec_remote_kind(uri), dark) == if dark {
            (0x38301Du32, 0xB17719u32)
        } else {
            (0xFFF6E4u32, 0xB17719u32)
        },
        written_remote_kind(uri) == "codespaces"@ ==> spec_row_colors(spec_remote_kind(uri), dark)
            == if dark {
            (0x3D242Du32, 0xA83F67u32)
        } else {
            (0xFFEAF1u32, 0xA83F67u32)
        },
        written_remote_kind(uri) == "tunnel"@ ==> spec_row_colors(spec_remote_kind(uri), dark)
            == if dark {
            (0x31341Cu32, 0x687400u32)
        } else {
            (0xF2F7E3u32, 0x687400u32)
        },
{
    let instance = instance_or_unknown(remote_authority(uri));
    lemma_remote_tag_by_kind(uri);
    lemma_prefixed_tag_lowering(instance);
    lemma_container_tag_class();
    lemma_dev_container_tag_class();
    lemma_codespace_tag_class();
    lemma_tunnel_tag_class();
    lemma_row_colors_by_kind(spec_remote_kind(uri), dark);
}

} // verus!
