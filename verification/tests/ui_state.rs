use photon_engine::app::{
    handle_shortcuts, press_menu_button, MenuButton, MenuPage, ShortcutKeys, UiAction, UiState,
    WindowMode,
};

fn none() -> ShortcutKeys {
    ShortcutKeys { backquote: false, escape: false, key_m: false, key_f: false, f11: false, enter: false, alt_held: false }
}

fn gameplay() -> UiState {
    UiState { show_menu: false, ..UiState::new(WindowMode::Windowed) }
}

#[test]
fn start_state() {
    let s = UiState::new(WindowMode::Exclusive);
    assert!(s.show_menu);
    assert_eq!(s.menu_page, MenuPage::Main);
    assert!(!s.console_open);
    assert!(!s.flashlight);
    assert_eq!(s.window_mode, WindowMode::Exclusive);
    assert!(!s.wants_cursor_grab());
    assert!(gameplay().wants_cursor_grab());
    assert!(gameplay().accepts_mouse_look());
}

#[test]
fn escape_opens_then_closes_menu() {
    let mut s = gameplay();
    let esc = ShortcutKeys { escape: true, ..none() };
    assert_eq!(handle_shortcuts(&mut s, esc, true), vec![UiAction::GrabCursor(false)]);
    assert!(s.show_menu);
    assert_eq!(s.menu_page, MenuPage::Main);
    assert_eq!(handle_shortcuts(&mut s, esc, true), vec![UiAction::GrabCursor(true)]);
    assert!(!s.show_menu);
}

#[test]
fn escape_leaves_sub_page_first() {
    let mut s = UiState { menu_page: MenuPage::Settings, ..UiState::new(WindowMode::Windowed) };
    let esc = ShortcutKeys { escape: true, ..none() };
    assert!(handle_shortcuts(&mut s, esc, true).is_empty());
    assert!(s.show_menu);
    assert_eq!(s.menu_page, MenuPage::Main);
}

#[test]
fn escape_closes_console_before_menu() {
    let mut s = UiState { console_open: true, ..gameplay() };
    let esc = ShortcutKeys { escape: true, ..none() };
    assert!(handle_shortcuts(&mut s, esc, true).is_empty());
    assert!(!s.console_open);
    assert!(!s.show_menu);
}

#[test]
fn backquote_toggles_console() {
    let mut s = gameplay();
    let bq = ShortcutKeys { backquote: true, ..none() };
    assert_eq!(handle_shortcuts(&mut s, bq, true), vec![UiAction::GrabCursor(false)]);
    assert!(s.console_open);
    assert!(handle_shortcuts(&mut s, bq, true).is_empty());
    assert!(!s.console_open);
}

#[test]
fn menu_key_is_ignored_with_console_open() {
    let mut s = UiState { console_open: true, ..gameplay() };
    let m = ShortcutKeys { key_m: true, ..none() };
    assert!(handle_shortcuts(&mut s, m, true).is_empty());
    assert!(!s.show_menu);
    let mut s = gameplay();
    assert_eq!(handle_shortcuts(&mut s, m, true), vec![UiAction::GrabCursor(false)]);
    assert!(s.show_menu);
    assert_eq!(handle_shortcuts(&mut s, m, true), vec![UiAction::GrabCursor(true)]);
}

#[test]
fn window_keys_wait_for_window() {
    let mut s = gameplay();
    let keys = ShortcutKeys { escape: true, backquote: true, key_m: true, ..none() };
    assert!(handle_shortcuts(&mut s, keys, false).is_empty());
    assert_eq!(s, gameplay());
    let f11 = ShortcutKeys { f11: true, ..none() };
    assert!(handle_shortcuts(&mut s, f11, false).is_empty());
    assert_eq!(s.window_mode, WindowMode::Borderless);
}

#[test]
fn f11_cycles_and_alt_enter_toggles() {
    let mut s = gameplay();
    let f11 = ShortcutKeys { f11: true, ..none() };
    assert_eq!(handle_shortcuts(&mut s, f11, true), vec![UiAction::ApplyWindowMode(WindowMode::Borderless)]);
    assert_eq!(handle_shortcuts(&mut s, f11, true), vec![UiAction::ApplyWindowMode(WindowMode::Exclusive)]);
    assert_eq!(handle_shortcuts(&mut s, f11, true), vec![UiAction::ApplyWindowMode(WindowMode::Windowed)]);
    let alt_enter = ShortcutKeys { enter: true, alt_held: true, ..none() };
    assert_eq!(handle_shortcuts(&mut s, alt_enter, true), vec![UiAction::ApplyWindowMode(WindowMode::Borderless)]);
    assert_eq!(handle_shortcuts(&mut s, alt_enter, true), vec![UiAction::ApplyWindowMode(WindowMode::Windowed)]);
    let enter = ShortcutKeys { enter: true, ..none() };
    assert!(handle_shortcuts(&mut s, enter, true).is_empty());
    assert_eq!(WindowMode::Exclusive.alt_enter(), WindowMode::Windowed);
    assert_eq!(WindowMode::Exclusive.next(), WindowMode::Windowed);
}

#[test]
fn f_toggles_flashlight_only() {
    let mut s = gameplay();
    let f = ShortcutKeys { key_f: true, ..none() };
    assert!(handle_shortcuts(&mut s, f, false).is_empty());
    assert!(s.flashlight);
    assert!(handle_shortcuts(&mut s, f, true).is_empty());
    assert!(!s.flashlight);
    assert_eq!(s, gameplay());
}

#[test]
fn menu_buttons() {
    let start = UiState::new(WindowMode::Windowed);
    let mut s = start;
    assert!(!press_menu_button(&mut s, MenuButton::Play, false));
    assert_eq!(s.menu_page, MenuPage::MapSelect);
    assert!(s.show_menu);
    assert!(!press_menu_button(&mut s, MenuButton::Back, false));
    assert_eq!(s, start);
    assert!(!press_menu_button(&mut s, MenuButton::Play, true));
    assert!(!s.show_menu);
    let mut s = start;
    assert!(!press_menu_button(&mut s, MenuButton::Settings, true));
    assert_eq!(s.menu_page, MenuPage::Settings);
    assert!(!press_menu_button(&mut s, MenuButton::Maps, true));
    assert_eq!(s.menu_page, MenuPage::MapSelect);
    assert!(press_menu_button(&mut s, MenuButton::Quit, true));
    assert_eq!(s.menu_page, MenuPage::MapSelect);
}
