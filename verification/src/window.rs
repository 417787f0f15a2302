//! Decisions of the picker window: what a key does, where the selection
//! moves, and the DPI-scaled geometry of the controls.

use vstd::prelude::*;

verus! {

/// The kind of keyboard message the message loop received.
#[derive(Clone, Copy, Debug, PartialEq, Eq, Structural)]
pub enum KeyMessage {
    SysKeyDown,
    KeyDown,
    Other,
}

/// The keys the picker reacts to.
#[derive(Clone, Copy, Debug, PartialEq, Eq, Structural)]
pub enum Key {
    R,
    Return,
    Escape,
    Down,
    Up,
    PageDown,
    PageUp,
    Home,
    End,
    Other,
}

/// What the picker does with a key.
#[derive(Clone, Copy, Debug, PartialEq, Eq, Structural)]
pub enum KeyAction {
    /// Focus the remote filter and drop its list down.
    OpenRemoteFilter,
    /// Open the highlighted folder.
    Launch,
    /// Close the window.
    Close,
    /// Move the highlight by this many rows.
    Move(isize),
    /// Highlight the first row.
    SelectFirst,
    /// Highlight the last row.
    SelectLast,
    /// Leave the key to the window.
    NotHandled,
}

/// What a key does: `Alt+R` opens the remote filter from anywhere; in the
/// filter box or the list, Enter opens, Esc closes, Up/Down move by one,
/// PgUp/PgDn by eight, Ctrl+Home/End jump to the first/last row.
pub open spec fn spec_key_action(
    message: KeyMessage,
    key: Key,
    in_filter_or_list: bool,
    ctrl_down: bool,
) -> KeyAction {
    if message == KeyMessage::SysKeyDown && key == Key::R {
        KeyAction::OpenRemoteFilter
    } else if message != KeyMessage::KeyDown || !in_filter_or_list {
        KeyAction::NotHandled
    } else {
        match key {
            Key::Return => KeyAction::Launch,
            Key::Escape => KeyAction::Close,
            Key::Down => KeyAction::Move(1isize),
            Key::Up => KeyAction::Move(-1isize),
            Key::PageDown => KeyAction::Move(8isize),
            Key::PageUp => KeyAction::Move(-8isize),
            Key::Home => if ctrl_down {
                KeyAction::SelectFirst
            } else {
                KeyAction::NotHandled
            },
            Key::End => if ctrl_down {
                KeyAction::SelectLast
            } else {
                KeyAction::NotHandled
            },
            _ => KeyAction::NotHandled,
        }
    }
}

/// The keys of the picker, for a key press in the filter box or the list:
/// Enter opens and Esc closes whatever Ctrl does; Up/Down move the highlight
/// by one row and PgUp/PgDn by eight; Home and End are the picker's only with
/// Ctrl held (Ctrl+Home to the first row, Ctrl+End to the last), and without
/// Ctrl they go on to the control, as does every other key. Alt+R opens the
/// remote filter wherever the focus is; outside the filter box and the list
/// a key press is left to the window.
pub proof fn lemma_picker_keys(key: Key, in_filter_or_list: bool, ctrl_down: bool)
    ensures
        in_filter_or_list ==> {
            &&& spec_key_action(KeyMessage::KeyDown, Key::Return, true, ctrl_down)
                == KeyAction::Launch
            &&& spec_key_action(KeyMessage::KeyDown, Key::Escape, true, ctrl_down)
                == KeyAction::Close
            &&& spec_key_action(KeyMessage::KeyDown, Key::Down, true, ctrl_down) == KeyAction::Move(1isize)
            &&& spec_key_action(KeyMessage::KeyDown, Key::Up, true, ctrl_down) == KeyAction::Move(-1isize)
            &&& spec_key_action(KeyMessage::KeyDown, Key::PageDown, true, ctrl_down)
                == KeyAction::Move(8)
            &&& spec_key_action(KeyMessage::KeyDown, Key::PageUp, true, ctrl_down)
                == KeyAction::Move(-8isize)
        },
        (spec_key_action(KeyMessage::KeyDown, Key::Home, in_filter_or_list, ctrl_down)
            == KeyAction::SelectFirst) <==> (in_filter_or_list && ctrl_down),
        (spec_key_action(KeyMessage::KeyDown, Key::End, in_filter_or_list, ctrl_down)
            == KeyAction::SelectLast) <==> (in_filter_or_list && ctrl_down),
        spec_key_action(KeyMessage::KeyDown, Key::Home, in_filter_or_list, false)
            == KeyAction::NotHandled,
        spec_key_action(KeyMessage::KeyDown, Key::End, in_filter_or_list, false)
            == KeyAction::NotHandled,
        spec_key_action(KeyMessage::KeyDown, Key::Other, in_filter_or_list, ctrl_down)
            == KeyAction::NotHandled,
        spec_key_action(KeyMessage::KeyDown, Key::R, in_filter_or_list, ctrl_down)
            == KeyAction::NotHandled,
        spec_key_action(KeyMessage::SysKeyDown, Key::R, in_filter_or_list, ctrl_down)
            == KeyAction::OpenRemoteFilter,
        !in_filter_or_list && key != Key::R ==> spec_key_action(
            KeyMessage::SysKeyDown,
            key,
            in_filter_or_list,
            ctrl_down,
        ) == KeyAction::NotHandled,
        !in_filter_or_list ==> spec_key_action(KeyMessage::KeyDown, key, in_filter_or_list, ctrl_down)
            == KeyAction::NotHandled,
        spec_key_action(KeyMessage::Other, key, in_filter_or_list, ctrl_down)
            == KeyAction::NotHandled,
        (spec_key_action(KeyMessage::KeyDown, key, in_filter_or_list, ctrl_down)
            is SelectFirst) ==> key == Key::Home,
        (spec_key_action(KeyMessage::KeyDown, key, in_filter_or_list, ctrl_down)
            is SelectLast) ==> key == Key::End,
{
}

/// What a key does in the picker.
pub fn picker_key_action(message: KeyMessage, key: Key, in_filter_or_list: bool, ctrl_down: bool) -> (a:
    KeyAction)
    ensures
        a == spec_key_action(message, key, in_filter_or_list, ctrl_down),
{
    if message == KeyMessage::SysKeyDown && key == Key::R {
        return KeyAction::OpenRemoteFilter;
    }
    if message != KeyMessage::KeyDown || !in_filter_or_list {
        return KeyAction::NotHandled;
    }
    match key {
        Key::Return => KeyAction::Launch,
        Key::Escape => KeyAction::Close,
        Key::Down => KeyAction::Move(1),
        Key::Up => KeyAction::Move(-1),
        Key::PageDown => KeyAction::Move(8),
        Key::PageUp => KeyAction::Move(-8),
        Key::Home => if ctrl_down {
            KeyAction::SelectFirst
        } else {
            KeyAction::NotHandled
        },
        Key::End => if ctrl_down {
            KeyAction::SelectLast
        } else {
            KeyAction::NotHandled
        },
        _ => KeyAction::NotHandled,
    }
}

/// `v` kept within `lo..=hi`.
pub open spec fn clamp(v: int, lo: int, hi: int) -> int {
    if v < lo {
        lo
    } else if v > hi {
        hi
    } else {
        v
    }
}

/// The row to highlight after moving by `delta` from `current` (no
/// selection counts as row 0) in a list of `count` rows, kept within the
/// list; `None` when the list is empty.
pub fn next_selection(count: isize, current: Option<isize>, delta: isize) -> (next: Option<isize>)
    requires
        match current {
            Some(c) => isize::MIN <= c + delta <= isize::MAX,
            None => true,
        },
    ensures
        count <= 0 ==> next is None,
        count > 0 ==> next == Some(
            clamp(
                match current {
                    Some(c) => c,
                    None => 0,
                } + delta,
                0,
                count - 1,
            ) as isize,
        ),
{
    if count <= 0 {
        return None;
    }
    let current = match current {
        Some(c) => c,
        None => 0,
    };
    let wanted = current + delta;
    let next = if wanted < 0 {
        0
    } else if wanted > count - 1 {
        count - 1
    } else {
        wanted
    };
    Some(next)
}

/// Moving the highlight in a non-empty list lands on a row of the list: on
/// the row `delta` away when there is one, else on the first row (moving up
/// past the top) or the last one (moving down past the bottom); moving by a
/// larger step never lands higher up.
pub proof fn lemma_selection_moves(count: int, current: int, delta: int, other: int)
    requires
        count > 0,
    ensures
        0 <= clamp(current + delta, 0, count - 1) < count,
        0 <= current + delta < count ==> clamp(current + delta, 0, count - 1) == current + delta,
        current + delta < 0 ==> clamp(current + delta, 0, count - 1) == 0,
        current + delta >= count ==> clamp(current + delta, 0, count - 1) == count - 1,
        delta <= other ==> clamp(current + delta, 0, count - 1) <= clamp(
            current + other,
            0,
            count - 1,
        ),
{
}

/// The last row of a list of `count` rows, if it has any.
pub fn last_row(count: isize) -> (row: Option<isize>)
    ensures
        row == (if count > 0 {
            Some((count - 1) as isize)
        } else {
            None
        }),
{
    if count > 0 {
        Some(count - 1)
    } else {
        None
    }
}

/// `value` pixels at 96 DPI scaled to `dpi`, but at least `minimum`.
pub open spec fn spec_scale(value: int, dpi: int, minimum: int) -> int {
    let scaled = value * dpi / 96;
    if scaled < minimum {
        minimum
    } else {
        scaled
    }
}

/// `value` pixels at 96 DPI scaled to `dpi`, but at least `minimum`.
pub fn scale_for_dpi(value: i32, dpi: u32, minimum: i32) -> (r: i32)
    requires
        0 <= value,
        value * dpi <= i32::MAX,
    ensures
        r == spec_scale(value as int, dpi as int, minimum as int),
{
    if value == 0 {
        return if 0 < minimum {
            minimum
        } else {
            0
        };
    }
    assert(0 <= value * dpi && dpi <= value * dpi) by (nonlinear_arith)
        requires
            1 <= value,
    ;
    let d = dpi as i32;
    let scaled = value * d / 96;
    if scaled < minimum {
        minimum
    } else {
        scaled
    }
}

/// A rectangle: left, top, width, height.
#[derive(Clone, Copy, Debug, PartialEq, Eq, Structural)]
pub struct Rect {
    pub x: i32,
    pub y: i32,
    pub width: i32,
    pub height: i32,
}

/// Where the controls of the window go.
#[derive(Clone, Copy, Debug, PartialEq, Eq, Structural)]
pub struct ControlLayout {
    pub filter: Rect,
    pub remote: Rect,
    pub list: Rect,
    pub separator: Rect,
    pub footer: Rect,
}

/// The largest DPI at which the layout arithmetic stays within `i32`.
pub open spec fn max_layout_dpi() -> int {
    12_632_256
}

/// The controls laid out in a client area of `width` by `height` at `dpi`:
/// filter box and remote filter on top, the list below, a separator and
/// the key help at the bottom.
pub open spec fn spec_layout(dpi: int, width: int, height: int) -> ControlLayout {
    let margin = spec_scale(10, dpi, 8);
    let gap = spec_scale(8, dpi, 6);
    let control_height = spec_scale(32, dpi, 28);
    let remote_width = spec_scale(170, dpi, 140);
    let list_top = margin + control_height + gap;
    let footer_height = spec_scale(25, dpi, 22);
    let footer_top = height - margin - footer_height;
    let filter_width = width - margin * 2 - gap - remote_width;
    ControlLayout {
        filter: Rect {
            x: margin as i32,
            y: margin as i32,
            width: (if filter_width < 80 { 80 } else { filter_width }) as i32,
            height: control_height as i32,
        },
        remote: Rect {
            x: (width - margin - remote_width) as i32,
            y: margin as i32,
            width: remote_width as i32,
            height: (control_height * 10) as i32,
        },
        list: Rect {
            x: margin as i32,
            y: list_top as i32,
            width: (width - margin * 2) as i32,
            height: (footer_top - list_top - gap) as i32,
        },
        separator: Rect {
            x: margin as i32,
            y: footer_top as i32,
            width: (width - margin * 2) as i32,
            height: 1,
        },
        footer: Rect {
            x: margin as i32,
            y: (footer_top + 1) as i32,
            width: (width - margin * 2) as i32,
            height: (footer_height - 1) as i32,
        },
    }
}

proof fn lemma_scale_bounds(value: int, dpi: int, minimum: int)
    requires
        0 <= value <= 170,
        0 <= dpi <= max_layout_dpi(),
        0 <= minimum <= 140,
    ensures
        minimum <= spec_scale(value, dpi, minimum) <= 22_369_621,
{
    assert(value * dpi <= 170 * 12_632_256) by (nonlinear_arith)
        requires
            0 <= value <= 170,
            0 <= dpi <= 12_632_256,
    ;
    assert(0 <= value * dpi) by (nonlinear_arith)
        requires
            0 <= value,
            0 <= dpi,
    ;
}

/// The controls laid out for a client area of `width` by `height` at `dpi`.
pub fn layout_controls(dpi: u32, width: i32, height: i32) -> (l: ControlLayout)
    requires
        dpi <= max_layout_dpi(),
        0 <= width <= 0xFFFF,
        0 <= height <= 0xFFFF,
    ensures
        l == spec_layout(dpi as int, width as int, height as int),
{
    proof {
        lemma_scale_bounds(10, dpi as int, 8);
        lemma_scale_bounds(8, dpi as int, 6);
        lemma_scale_bounds(32, dpi as int, 28);
        lemma_scale_bounds(170, dpi as int, 140);
        lemma_scale_bounds(25, dpi as int, 22);
        assert(170 * dpi <= i32::MAX);
    }
    let margin = scale_for_dpi(10, dpi, 8);
    let gap = scale_for_dpi(8, dpi, 6);
    let control_height = scale_for_dpi(32, dpi, 28);
    let remote_width = scale_for_dpi(170, dpi, 140);
    proof {
        assert(margin * 2 <= 2 * 22_369_621);
        assert(control_height * 10 <= 10 * 22_369_621) by (nonlinear_arith)
            requires
                control_height <= 22_369_621,
        ;
    }
    let list_top = margin + control_height + gap;
    let footer_height = scale_for_dpi(25, dpi, 22);
    let footer_top = height - margin - footer_height;
    let filter_width = width - margin * 2 - gap - remote_width;
    ControlLayout {
        filter: Rect {
            x: margin,
            y: margin,
            width: if filter_width < 80 {
                80
            } else {
                filter_width
            },
            height: control_height,
        },
        remote: Rect {
            x: width - margin - remote_width,
            y: margin,
            width: remote_width,
            height: control_height * 10,
        },
        list: Rect {
            x: margin,
            y: list_top,
            width: width - margin * 2,
            height: footer_top - list_top - gap,
        },
        separator: Rect { x: margin, y: footer_top, width: width - margin * 2, height: 1 },
        footer: Rect {
            x: margin,
            y: footer_top + 1,
            width: width - margin * 2,
            height: footer_height - 1,
        },
    }
}

/// The height of a list row at `dpi`.
pub fn row_height(dpi: u32) -> (h: i32)
    requires
        30 * dpi <= i32::MAX,
    ensures
        h == spec_scale(30, dpi as int, 24),
{
    scale_for_dpi(30, dpi, 24)
}

/// How far the text of a list row is indented at `dpi`.
pub fn row_text_inset(dpi: u32) -> (w: i32)
    requires
        10 * dpi <= i32::MAX,
    ensures
        w == spec_scale(10, dpi as int, 8),
{
    scale_for_dpi(10, dpi, 8)
}

/// How far the placeholder of the empty filter box is indented at `dpi`.
pub fn placeholder_inset(dpi: u32) -> (w: i32)
    requires
        4 * dpi <= i32::MAX,
    ensures
        w == spec_scale(4, dpi as int, 3),
{
    scale_for_dpi(4, dpi, 3)
}

/// The font heights at `dpi`: 10 points for the controls and 7.5 points
/// for the key help, negative as `CreateFontW` takes character heights.
pub fn font_heights(dpi: u32) -> (h: (i32, i32))
    requires
        750 * dpi <= i32::MAX,
    ensures
        h.0 == -((10 * dpi) / 72),
        h.1 == -((750 * dpi) / 7200),
{
    let d = dpi as i32;
    (-(10 * d / 72), -(750 * d / 7200))
}

/// The client width and height packed in the low 32 bits of a size message.
pub fn client_size(bits: u32) -> (size: (i32, i32))
    ensures
        size.0 == bits % 65536,
        size.1 == bits / 65536,
{
    let width = bits & 0xffff;
    let height = (bits >> 16) & 0xffff;
    assert(width == bits % 65536 && height == bits / 65536) by (bit_vector)
        requires
            width == bits & 0xffff,
            height == (bits >> 16) & 0xffff,
    ;
    (width as i32, height as i32)
}

/// The control identifier and the notification code of a command message.
pub fn command_parts(wparam: usize) -> (parts: (usize, usize))
    ensures
        parts.0 == wparam % 65536,
        parts.1 == (wparam / 65536) % 65536,
{
    let id = wparam & 0xffff;
    let code = (wparam >> 16) & 0xffff;
    assert(id == wparam % 65536 && code == (wparam / 65536) % 65536) by (bit_vector)
        requires
            id == wparam & 0xffff,
            code == (wparam >> 16) & 0xffff,
    ;
    (id, code)
}

/// The identifier of the filter box.
pub const ID_FILTER: usize = 100;

/// The identifier of the list of folders.
pub const ID_LIST: usize = 101;

/// The identifier of the remote filter.
pub const ID_REMOTE: usize = 102;

/// The identifier of the key help at the bottom.
pub const ID_FOOTER: usize = 103;

/// The identifier of the separator above the key help.
pub const ID_FOOTER_SEPARATOR: usize = 104;

/// The notification codes that the controls send with a command message.
#[derive(Clone, Copy, Debug)]
pub struct NotificationCodes {
    /// The text of an edit box changed.
    pub edit_change: usize,
    /// A list item was double-clicked.
    pub list_double_click: usize,
    /// The selection of a list changed.
    pub list_selection_change: usize,
    /// The selection of a combo box changed.
    pub combo_selection_change: usize,
}

/// What the window does with a command message.
#[derive(Clone, Copy, Debug, PartialEq, Eq, Structural)]
pub enum CommandAction {
    /// Filter the list again.
    ApplyFilter,
    /// Open the highlighted folder.
    LaunchSelected,
    /// Put the keyboard focus back in the filter box.
    FocusFilter,
    /// Nothing to do.
    Ignore,
}

/// What a command from control `id` with notification `code` asks for.
pub open spec fn spec_command_action(id: int, code: int, codes: NotificationCodes) -> CommandAction {
    if id == ID_FILTER && code == codes.edit_change {
        CommandAction::ApplyFilter
    } else if id == ID_LIST && code == codes.list_double_click {
        CommandAction::LaunchSelected
    } else if id == ID_LIST && code == codes.list_selection_change {
        CommandAction::FocusFilter
    } else if id == ID_REMOTE && code == codes.combo_selection_change {
        CommandAction::ApplyFilter
    } else {
        CommandAction::Ignore
    }
}

/// What a command message asks for: typing in the filter box or choosing a
/// remote group filters again, a double click opens, a selection change in
/// the list returns the focus to the filter box.
pub fn command_action(wparam: usize, codes: &NotificationCodes) -> (a: CommandAction)
    ensures
        a == spec_command_action((wparam % 65536) as int, ((wparam / 65536) % 65536) as int, *codes),
{
    let (id, code) = command_parts(wparam);
    if id == ID_FILTER && code == codes.edit_change {
        CommandAction::ApplyFilter
    } else if id == ID_LIST && code == codes.list_double_click {
        CommandAction::LaunchSelected
    } else if id == ID_LIST && code == codes.list_selection_change {
        CommandAction::FocusFilter
    } else if id == ID_REMOTE && code == codes.combo_selection_change {
        CommandAction::ApplyFilter
    } else {
        CommandAction::Ignore
    }
}

} // verus!
