use vsrecent::window::{
    client_size, command_parts, font_heights, last_row, layout_controls, next_selection,
    picker_key_action, placeholder_inset, row_height, row_text_inset, scale_for_dpi, Key,
    KeyAction, KeyMessage, Rect,
};

#[test]
fn keys_map_to_actions() {
    let act = |m, k, target, ctrl| picker_key_action(m, k, target, ctrl);
    assert_eq!(act(KeyMessage::SysKeyDown, Key::R, false, false), KeyAction::OpenRemoteFilter);
    assert_eq!(act(KeyMessage::KeyDown, Key::Return, true, false), KeyAction::Launch);
    assert_eq!(act(KeyMessage::KeyDown, Key::Return, false, false), KeyAction::NotHandled);
    assert_eq!(act(KeyMessage::KeyDown, Key::Escape, true, false), KeyAction::Close);
    assert_eq!(act(KeyMessage::KeyDown, Key::Down, true, false), KeyAction::Move(1));
    assert_eq!(act(KeyMessage::KeyDown, Key::Up, true, false), KeyAction::Move(-1));
    assert_eq!(act(KeyMessage::KeyDown, Key::PageDown, true, false), KeyAction::Move(8));
    assert_eq!(act(KeyMessage::KeyDown, Key::PageUp, true, false), KeyAction::Move(-8));
    assert_eq!(act(KeyMessage::KeyDown, Key::Home, true, true), KeyAction::SelectFirst);
    assert_eq!(act(KeyMessage::KeyDown, Key::Home, true, false), KeyAction::NotHandled);
    assert_eq!(act(KeyMessage::KeyDown, Key::End, true, true), KeyAction::SelectLast);
    assert_eq!(act(KeyMessage::Other, Key::Return, true, false), KeyAction::NotHandled);
    assert_eq!(act(KeyMessage::KeyDown, Key::R, true, false), KeyAction::NotHandled);
}

#[test]
fn selection_moves_within_the_list() {
    assert_eq!(next_selection(0, Some(0), 1), None);
    assert_eq!(next_selection(10, Some(3), 1), Some(4));
    assert_eq!(next_selection(10, Some(3), 8), Some(9));
    assert_eq!(next_selection(10, Some(3), -8), Some(0));
    assert_eq!(next_selection(10, None, 1), Some(1));
    assert_eq!(next_selection(10, None, -1), Some(0));
    assert_eq!(last_row(5), Some(4));
    assert_eq!(last_row(0), None);
}

#[test]
fn dpi_scaling() {
    assert_eq!(scale_for_dpi(10, 96, 8), 10);
    assert_eq!(scale_for_dpi(10, 48, 8), 8);
    assert_eq!(scale_for_dpi(10, 192, 8), 20);
    assert_eq!(row_height(96), 30);
    assert_eq!(row_height(144), 45);
    assert_eq!(row_text_inset(96), 10);
    assert_eq!(placeholder_inset(96), 4);
    assert_eq!(placeholder_inset(0), 3);
    assert_eq!(font_heights(96), (-13, -10));
    assert_eq!(font_heights(144), (-20, -15));
}

#[test]
fn layout_at_96_dpi() {
    let l = layout_controls(96, 620, 500);
    assert_eq!(l.filter, Rect { x: 10, y: 10, width: 422, height: 32 });
    assert_eq!(l.remote, Rect { x: 440, y: 10, width: 170, height: 320 });
    assert_eq!(l.list, Rect { x: 10, y: 50, width: 600, height: 407 });
    assert_eq!(l.separator, Rect { x: 10, y: 465, width: 600, height: 1 });
    assert_eq!(l.footer, Rect { x: 10, y: 466, width: 600, height: 24 });
    let narrow = layout_controls(96, 100, 100);
    assert_eq!(narrow.filter.width, 80);
}

#[test]
fn message_parameters_unpack() {
    assert_eq!(client_size(0x01F4_026C), (620, 500));
    assert_eq!(command_parts(0x0300_0064), (100, 0x300));
}
