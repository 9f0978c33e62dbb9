use vstd::prelude::*;

verus! {

/// How the game window is shown.
#[derive(Debug, Clone, Copy, PartialEq, Eq, Structural)]
pub enum WindowMode {
    Windowed,
    Borderless,
    Exclusive,
}

/// Which page of the main menu is shown.
#[derive(Debug, Clone, Copy, PartialEq, Eq, Structural)]
pub enum MenuPage {
    Main,
    Settings,
    MapSelect,
}

/// The F11 cycle: windowed, borderless, exclusive, windowed.
pub open spec fn next_window_mode_spec(m: WindowMode) -> WindowMode {
    match m {
        WindowMode::Windowed => WindowMode::Borderless,
        WindowMode::Borderless => WindowMode::Exclusive,
        WindowMode::Exclusive => WindowMode::Windowed,
    }
}

/// Alt+Enter: windowed goes borderless, anything else goes windowed.
pub open spec fn alt_enter_mode_spec(m: WindowMode) -> WindowMode {
    match m {
        WindowMode::Windowed => WindowMode::Borderless,
        _ => WindowMode::Windowed,
    }
}

impl WindowMode {
    /// The mode F11 switches to.
    pub fn next(self) -> (r: WindowMode)
        ensures
            r == next_window_mode_spec(self),
    {
        match self {
            WindowMode::Windowed => WindowMode::Borderless,
            WindowMode::Borderless => WindowMode::Exclusive,
            WindowMode::Exclusive => WindowMode::Windowed,
        }
    }

    /// The mode Alt+Enter switches to.
    pub fn alt_enter(self) -> (r: WindowMode)
        ensures
            r == alt_enter_mode_spec(self),
    {
        match self {
            WindowMode::Windowed => WindowMode::Borderless,
            _ => WindowMode::Windowed,
        }
    }
}

/// Pressing F11 three times comes back to the mode one started in.
pub proof fn lemma_f11_cycle(m: WindowMode)
    ensures
        next_window_mode_spec(next_window_mode_spec(next_window_mode_spec(m))) == m,
        next_window_mode_spec(m) != m,
{
}

/// The menu, console, flashlight, noclip and window state that keyboard
/// shortcuts and console commands drive.
#[derive(Debug, Clone, Copy, PartialEq, Eq, Structural)]
pub struct UiState {
    pub show_menu: bool,
    pub menu_page: MenuPage,
    pub console_open: bool,
    pub flashlight: bool,
    pub noclip: bool,
    pub window_mode: WindowMode,
}

impl UiState {
    /// The state at start-up: main menu shown, console closed, flashlight
    /// and noclip off, in the configured window mode.
    pub fn new(window_mode: WindowMode) -> (s: UiState)
        ensures
            s == (UiState {
                show_menu: true,
                menu_page: MenuPage::Main,
                console_open: false,
                flashlight: false,
                noclip: false,
                window_mode,
            }),
    {
        UiState {
            show_menu: true,
            menu_page: MenuPage::Main,
            console_open: false,
            flashlight: false,
            noclip: false,
            window_mode,
        }
    }

    /// The cursor is captured exactly in gameplay: no menu, no console.
    pub fn wants_cursor_grab(&self) -> (b: bool)
        ensures
            b == (!self.show_menu && !self.console_open),
    {
        !self.show_menu && !self.console_open
    }

    /// Mouse motion turns the view only in gameplay.
    pub fn accepts_mouse_look(&self) -> (b: bool)
        ensures
            b == (!self.show_menu && !self.console_open),
    {
        !self.console_open && !self.show_menu
    }
}

/// The shortcut keys that went down since the last frame, and whether an
/// Alt key is held.
#[derive(Debug, Clone, Copy, PartialEq, Eq, Structural)]
pub struct ShortcutKeys {
    pub backquote: bool,
    pub escape: bool,
    pub key_m: bool,
    pub key_f: bool,
    pub f11: bool,
    pub enter: bool,
    pub alt_held: bool,
}

/// Something the window must do in answer to a key press.
#[derive(Debug, Clone, Copy, PartialEq, Eq, Structural)]
pub enum UiAction {
    /// Capture (`true`) or release (`false`) the mouse cursor.
    GrabCursor(bool),
    /// Show the window in this mode.
    ApplyWindowMode(WindowMode),
}

pub open spec fn step_backquote(s: UiState, a: Seq<UiAction>) -> (UiState, Seq<UiAction>) {
    let open = !s.console_open;
    let s2 = UiState { console_open: open, ..s };
    if open {
        (s2, a.push(UiAction::GrabCursor(false)))
    } else {
        (s2, a)
    }
}

pub open spec fn step_escape(s: UiState, a: Seq<UiAction>) -> (UiState, Seq<UiAction>) {
    if s.console_open {
        (UiState { console_open: false, ..s }, a)
    } else if s.show_menu {
        if s.menu_page == MenuPage::Settings || s.menu_page == MenuPage::MapSelect {
            (UiState { menu_page: MenuPage::Main, ..s }, a)
        } else {
            (UiState { show_menu: false, ..s }, a.push(UiAction::GrabCursor(true)))
        }
    } else {
        (
            UiState { show_menu: true, menu_page: MenuPage::Main, ..s },
            a.push(UiAction::GrabCursor(false)),
        )
    }
}

pub open spec fn step_menu_key(s: UiState, a: Seq<UiAction>) -> (UiState, Seq<UiAction>) {
    if s.console_open {
        (s, a)
    } else {
        let show = !s.show_menu;
        let page = if show {
            MenuPage::Main
        } else {
            s.menu_page
        };
        (UiState { show_menu: show, menu_page: page, ..s }, a.push(UiAction::GrabCursor(!show)))
    }
}

pub open spec fn step_window_mode(s: UiState, a: Seq<UiAction>, m: WindowMode, window_ready: bool) -> (
    UiState,
    Seq<UiAction>,
) {
    (
        UiState { window_mode: m, ..s },
        if window_ready {
            a.push(UiAction::ApplyWindowMode(m))
        } else {
            a
        },
    )
}

/// A key event, handled in the game's order: backquote toggles the
/// console, Escape closes the console / steps back in the menu / leaves or
/// opens the menu, M toggles the menu, F the flashlight, F11 cycles the
/// window mode and Alt+Enter toggles borderless. Backquote, Escape and M
/// act only once the window is up.
pub open spec fn key_event_spec(s0: UiState, k: ShortcutKeys, window_ready: bool) -> (
    UiState,
    Seq<UiAction>,
) {
    let a0 = Seq::<UiAction>::empty();
    let (s1, a1) = if k.backquote && window_ready {
        step_backquote(s0, a0)
    } else {
        (s0, a0)
    };
    let (s2, a2) = if k.escape && window_ready {
        step_escape(s1, a1)
    } else {
        (s1, a1)
    };
    let (s3, a3) = if k.key_m && window_ready {
        step_menu_key(s2, a2)
    } else {
        (s2, a2)
    };
    let s4 = if k.key_f {
        UiState { flashlight: !s3.flashlight, ..s3 }
    } else {
        s3
    };
    let (s5, a5) = if k.f11 {
        step_window_mode(s4, a3, next_window_mode_spec(s4.window_mode), window_ready)
    } else {
        (s4, a3)
    };
    if k.alt_held && k.enter {
        step_window_mode(s5, a5, alt_enter_mode_spec(s5.window_mode), window_ready)
    } else {
        (s5, a5)
    }
}

/// Updates the UI state for a key event and returns what the window must
/// do, in order.
pub fn handle_shortcuts(state: &mut UiState, keys: ShortcutKeys, window_ready: bool) -> (actions: Vec<
    UiAction,
>)
    ensures
        (*final(state), actions@) == key_event_spec(*old(state), keys, window_ready),
{
    let mut actions: Vec<UiAction> = Vec::new();
    if keys.backquote && window_ready {
        state.console_open = !state.console_open;
        if state.console_open {
            actions.push(UiAction::GrabCursor(false));
        }
    }
    if keys.escape && window_ready {
        if state.console_open {
            state.console_open = false;
        } else if state.show_menu {
            if state.menu_page == MenuPage::Settings || state.menu_page == MenuPage::MapSelect {
                state.menu_page = MenuPage::Main;
            } else {
                state.show_menu = false;
                actions.push(UiAction::GrabCursor(true));
            }
        } else {
            state.show_menu = true;
            state.menu_page = MenuPage::Main;
            actions.push(UiAction::GrabCursor(false));
        }
    }
    if keys.key_m && window_ready {
        if !state.console_open {
            state.show_menu = !state.show_menu;
            if state.show_menu {
                state.menu_page = MenuPage::Main;
            }
            actions.push(UiAction::GrabCursor(!state.show_menu));
        }
    }
    if keys.key_f {
        state.flashlight = !state.flashlight;
    }
    if keys.f11 {
        let next = state.window_mode.next();
        state.window_mode = next;
        if window_ready {
            actions.push(UiAction::ApplyWindowMode(next));
        }
    }
    if keys.alt_held && keys.enter {
        let next = state.window_mode.alt_enter();
        state.window_mode = next;
        if window_ready {
            actions.push(UiAction::ApplyWindowMode(next));
        }
    }
    actions
}


/// A button of the main menu page, or the Back button of its sub-pages.
#[derive(Debug, Clone, Copy, PartialEq, Eq, Structural)]
pub enum MenuButton {
    Play,
    Maps,
    Settings,
    Quit,
    Back,
}

pub open spec fn menu_button_spec(s: UiState, button: MenuButton, map_loaded: bool) -> (UiState, bool) {
    match button {
        MenuButton::Play => if map_loaded {
            (UiState { show_menu: false, ..s }, false)
        } else {
            (UiState { menu_page: MenuPage::MapSelect, ..s }, false)
        },
        MenuButton::Maps => (UiState { menu_page: MenuPage::MapSelect, ..s }, false),
        MenuButton::Settings => (UiState { menu_page: MenuPage::Settings, ..s }, false),
        MenuButton::Quit => (s, true),
        MenuButton::Back => (UiState { menu_page: MenuPage::Main, ..s }, false),
    }
}

/// A click on a menu button: Play resumes the loaded map (or opens the
/// map list when none is loaded), Maps and Settings open their pages,
/// Back returns to the main page. Returns whether the game must quit.
pub fn press_menu_button(state: &mut UiState, button: MenuButton, map_loaded: bool) -> (quit: bool)
    ensures
        (*final(state), quit) == menu_button_spec(*old(state), button, map_loaded),
{
    match button {
        MenuButton::Play => {
            if map_loaded {
                state.show_menu = false;
            } else {
                state.menu_page = MenuPage::MapSelect;
            }
            false
        },
        MenuButton::Maps => {
            state.menu_page = MenuPage::MapSelect;
            false
        },
        MenuButton::Settings => {
            state.menu_page = MenuPage::Settings;
            false
        },
        MenuButton::Quit => true,
        MenuButton::Back => {
            state.menu_page = MenuPage::Main;
            false
        },
    }
}

pub open spec fn only_escape() -> ShortcutKeys {
    ShortcutKeys {
        backquote: false,
        escape: true,
        key_m: false,
        key_f: false,
        f11: false,
        enter: false,
        alt_held: false,
    }
}

pub open spec fn only_menu_key() -> ShortcutKeys {
    ShortcutKeys { escape: false, key_m: true, ..only_escape() }
}

pub open spec fn only_backquote() -> ShortcutKeys {
    ShortcutKeys { escape: false, backquote: true, ..only_escape() }
}

pub open spec fn only_f11() -> ShortcutKeys {
    ShortcutKeys { escape: false, f11: true, ..only_escape() }
}

/// Escape in gameplay opens the main menu and frees the cursor; a second
/// Escape closes it and captures the cursor again, back in gameplay.
pub proof fn lemma_escape_opens_then_closes_menu(s: UiState)
    requires
        !s.show_menu,
        !s.console_open,
    ensures
        ({
            let (s1, a1) = key_event_spec(s, only_escape(), true);
            let (s2, a2) = key_event_spec(s1, only_escape(), true);
            &&& s1 == UiState { show_menu: true, menu_page: MenuPage::Main, ..s }
            &&& a1 == seq![UiAction::GrabCursor(false)]
            &&& s2 == UiState { menu_page: MenuPage::Main, ..s }
            &&& a2 == seq![UiAction::GrabCursor(true)]
        }),
{
    let (s1, a1) = key_event_spec(s, only_escape(), true);
    assert(a1 =~= seq![UiAction::GrabCursor(false)]);
    let (s2, a2) = key_event_spec(s1, only_escape(), true);
    assert(a2 =~= seq![UiAction::GrabCursor(true)]);
}

/// Escape on a sub-page of the menu goes back to the main page and keeps
/// the menu open.
pub proof fn lemma_escape_leaves_sub_page(s: UiState)
    requires
        s.show_menu,
        !s.console_open,
        s.menu_page != MenuPage::Main,
    ensures
        key_event_spec(s, only_escape(), true) == (
            UiState { menu_page: MenuPage::Main, ..s },
            Seq::<UiAction>::empty(),
        ),
{
}

/// With the console closed, M toggles the menu: pressing it twice comes
/// back to whether the menu was shown, and each press sets the cursor
/// capture to gameplay's need.
pub proof fn lemma_menu_key_twice(s: UiState)
    requires
        !s.console_open,
    ensures
        ({
            let (s1, a1) = key_event_spec(s, only_menu_key(), true);
            let (s2, a2) = key_event_spec(s1, only_menu_key(), true);
            &&& s1.show_menu == !s.show_menu
            &&& a1 == seq![UiAction::GrabCursor(!s1.show_menu)]
            &&& s2.show_menu == s.show_menu
            &&& a2 == seq![UiAction::GrabCursor(!s2.show_menu)]
            &&& s2.console_open == s.console_open
            &&& s2.window_mode == s.window_mode
        }),
{
    let (s1, a1) = key_event_spec(s, only_menu_key(), true);
    assert(a1 =~= seq![UiAction::GrabCursor(!s1.show_menu)]);
    let (s2, a2) = key_event_spec(s1, only_menu_key(), true);
    assert(a2 =~= seq![UiAction::GrabCursor(!s2.show_menu)]);
}

/// The backquote key toggles the console; opening it frees the cursor.
pub proof fn lemma_backquote_twice(s: UiState)
    ensures
        ({
            let (s1, a1) = key_event_spec(s, only_backquote(), true);
            let (s2, _a2) = key_event_spec(s1, only_backquote(), true);
            &&& s1.console_open == !s.console_open
            &&& s1.console_open ==> a1 == seq![UiAction::GrabCursor(false)]
            &&& s2 == s
        }),
{
    let (s1, a1) = key_event_spec(s, only_backquote(), true);
    if s1.console_open {
        assert(a1 =~= seq![UiAction::GrabCursor(false)]);
    }
}

/// F11 three times brings the window back to its mode, applying each
/// mode on the way when the window exists.
pub proof fn lemma_f11_three_times(s: UiState)
    ensures
        ({
            let (s1, _a1) = key_event_spec(s, only_f11(), true);
            let (s2, _a2) = key_event_spec(s1, only_f11(), true);
            let (s3, a3) = key_event_spec(s2, only_f11(), true);
            &&& s3 == s
            &&& a3 == seq![UiAction::ApplyWindowMode(s.window_mode)]
        }),
{
    let (s1, _a1) = key_event_spec(s, only_f11(), true);
    let (s2, _a2) = key_event_spec(s1, only_f11(), true);
    let (s3, a3) = key_event_spec(s2, only_f11(), true);
    assert(a3 =~= seq![UiAction::ApplyWindowMode(s.window_mode)]);
}

/// A key event leaves the flashlight as it was unless F was pressed, which
/// toggles it, whatever else the event holds.
pub proof fn lemma_flashlight_only_toggled_by_f(s: UiState, k: ShortcutKeys, window_ready: bool)
    ensures
        key_event_spec(s, k, window_ready).0.flashlight == (s.flashlight != k.key_f),
{
}

/// M with the console closed shows the menu on its main page when it was
/// hidden (whatever page it was left on) and frees the cursor, or hides it
/// and captures the cursor, keeping the page; with the console open, M
/// does nothing.
pub proof fn lemma_menu_key(s: UiState)
    ensures
        !s.console_open && !s.show_menu ==> key_event_spec(s, only_menu_key(), true) == (
            UiState { show_menu: true, menu_page: MenuPage::Main, ..s },
            seq![UiAction::GrabCursor(false)],
        ),
        !s.console_open && s.show_menu ==> key_event_spec(s, only_menu_key(), true) == (
            UiState { show_menu: false, ..s },
            seq![UiAction::GrabCursor(true)],
        ),
        s.console_open ==> key_event_spec(s, only_menu_key(), true) == (s, Seq::<UiAction>::empty()),
{
    let (s1, a1) = key_event_spec(s, only_menu_key(), true);
    if !s.console_open {
        assert(a1 =~= seq![UiAction::GrabCursor(!s1.show_menu)]);
    } else {
        assert(a1 =~= Seq::<UiAction>::empty());
    }
}

} // verus!
