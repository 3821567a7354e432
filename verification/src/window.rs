//! What lies over the window, how its sidebars slide, and when the terminal has the keyboard.
use crate::profile_list::ActivePanel;
use vstd::prelude::*;

verus! {

/// A menu or list that lies over the window and goes with a click beside it.
#[derive(Clone, Copy, Debug, PartialEq, Eq, Structural)]
pub enum Overlay {
    WindowsMenu,
    SettingsSelector,
    ProfileContextMenu,
    SftpContextMenu,
    TerminalContextMenu,
}

/// Which menus and lists are open.
#[derive(Clone, Copy, Debug, PartialEq, Eq, Structural)]
pub struct OpenOverlays {
    /// The window draws its own menu bar.
    pub windows_chrome: bool,
    pub windows_menu: bool,
    pub panel: ActivePanel,
    pub settings_selector: bool,
    pub profile_context_menu: bool,
    pub sftp_context_menu: bool,
    pub terminal_context_menu: bool,
}

/// Every overlay, from the lowest to the topmost.
pub open spec fn overlay_order() -> Seq<Overlay> {
    seq![
        Overlay::WindowsMenu,
        Overlay::SettingsSelector,
        Overlay::ProfileContextMenu,
        Overlay::SftpContextMenu,
        Overlay::TerminalContextMenu,
    ]
}

/// The overlay is shown.
pub open spec fn shows_overlay(state: OpenOverlays) -> spec_fn(Overlay) -> bool {
    |overlay: Overlay|
        match overlay {
            Overlay::WindowsMenu => state.windows_chrome && state.windows_menu,
            Overlay::SettingsSelector => state.panel == ActivePanel::Settings
                && state.settings_selector,
            Overlay::ProfileContextMenu => state.profile_context_menu,
            Overlay::SftpContextMenu => state.sftp_context_menu,
            Overlay::TerminalContextMenu => state.terminal_context_menu,
        }
}

/// The overlays that are shown, from the lowest to the topmost.
pub fn shown_overlays(state: &OpenOverlays) -> (r: Vec<Overlay>)
    ensures
        r@ == overlay_order().filter(shows_overlay(*state)),
{
    let ghost order = overlay_order();
    let ghost shown = shows_overlay(*state);
    let mut list: Vec<Overlay> = Vec::new();
    proof {
        reveal(Seq::filter);
        crate::text::filter_push(order.take(0), order[0], shown);
        crate::text::filter_push(order.take(1), order[1], shown);
        crate::text::filter_push(order.take(2), order[2], shown);
        crate::text::filter_push(order.take(3), order[3], shown);
        crate::text::filter_push(order.take(4), order[4], shown);
        assert(order.take(0) =~= Seq::<Overlay>::empty());
        assert(order.take(1) =~= order.take(0).push(order[0]));
        assert(order.take(2) =~= order.take(1).push(order[1]));
        assert(order.take(3) =~= order.take(2).push(order[2]));
        assert(order.take(4) =~= order.take(3).push(order[3]));
        assert(order =~= order.take(4).push(order[4]));
    }
    if state.windows_chrome && state.windows_menu {
        list.push(Overlay::WindowsMenu);
    }
    assert(list@ =~= order.take(1).filter(shown));
    if state.panel == ActivePanel::Settings && state.settings_selector {
        list.push(Overlay::SettingsSelector);
    }
    assert(list@ =~= order.take(2).filter(shown));
    if state.profile_context_menu {
        list.push(Overlay::ProfileContextMenu);
    }
    assert(list@ =~= order.take(3).filter(shown));
    if state.sftp_context_menu {
        list.push(Overlay::SftpContextMenu);
    }
    assert(list@ =~= order.take(4).filter(shown));
    if state.terminal_context_menu {
        list.push(Overlay::TerminalContextMenu);
    }
    assert(list@ =~= order.filter(shown));
    list
}

/// How a sidebar comes to its width.
#[derive(Clone, Copy, Debug, PartialEq, Eq, Structural)]
pub struct SidebarSlide {
    /// It starts from its full width; else from nothing.
    pub from_full: bool,
    /// It ends at its full width; else at nothing.
    pub to_full: bool,
    /// It takes a moment to get there.
    pub animated: bool,
}

/// How a sidebar comes to its width. `transition` counts how often it was opened or closed.
pub fn sidebar_slide(transition: u64, open: bool) -> (r: SidebarSlide)
    ensures
        r.from_full == (transition != 0 && !open),
        r.to_full == open,
        r.animated == (transition != 0),
{
    SidebarSlide { from_full: transition != 0 && !open, to_full: open, animated: transition != 0 }
}

/// What decides whether the terminal takes the keyboard.
#[derive(Clone, Copy, Debug, PartialEq, Eq, Structural)]
pub struct TerminalSituation {
    pub panel: ActivePanel,
    /// The active tab shows a terminal.
    pub tab_shows_terminal: bool,
    pub right_sidebar_open: bool,
    pub bottom_panel_open: bool,
    /// There is an active session, and its terminal is visible.
    pub terminal_visible: bool,
}

/// The terminal takes the keyboard where it is what the window shows, with no panel beside or
/// below it.
pub open spec fn terminal_has_keyboard(situation: TerminalSituation) -> bool {
    situation.panel == ActivePanel::Connection && situation.tab_shows_terminal
        && !situation.right_sidebar_open && !situation.bottom_panel_open
        && situation.terminal_visible
}

/// The terminal takes the keyboard where it is what the window shows, with no panel beside or
/// below it.
pub fn should_focus_terminal(situation: TerminalSituation) -> (r: bool)
    ensures
        r == terminal_has_keyboard(situation),
{
    situation.panel == ActivePanel::Connection && situation.tab_shows_terminal
        && !situation.right_sidebar_open && !situation.bottom_panel_open
        && situation.terminal_visible
}

/// What the command to search the connections does.
#[derive(Clone, Copy, Debug, PartialEq, Eq, Structural)]
pub struct SearchSwitch {
    /// The left sidebar is to be opened.
    pub open_sidebar: bool,
    /// The field for the search is shown.
    pub visible: bool,
    /// The field gets the keyboard.
    pub focus: bool,
    /// The field is emptied.
    pub clear: bool,
}

/// What the command to search the connections does.
pub open spec fn search_switch(windows: bool, sidebar_open: bool, visible: bool) -> SearchSwitch {
    if windows {
        SearchSwitch { open_sidebar: !sidebar_open, visible, focus: true, clear: false }
    } else {
        SearchSwitch { open_sidebar: false, visible: !visible, focus: !visible, clear: visible }
    }
}

/// What the command to search the connections does: on Windows the field is always there, and the
/// command leads to it; elsewhere the command shows it, or puts it away.
pub fn toggle_sidebar_search(windows: bool, sidebar_open: bool, visible: bool) -> (r: SearchSwitch)
    ensures
        r == search_switch(windows, sidebar_open, visible),
{
    if windows {
        SearchSwitch { open_sidebar: !sidebar_open, visible, focus: true, clear: false }
    } else {
        SearchSwitch { open_sidebar: false, visible: !visible, focus: !visible, clear: visible }
    }
}

/// An overlay is shown exactly where it is open, the list of a setting only with the settings and
/// the menu bar only where the window draws it.
pub proof fn open_overlays_are_shown(state: OpenOverlays, overlay: Overlay)
    ensures
        overlay_order().filter(shows_overlay(state)).contains(overlay) <==> {
            ||| overlay == Overlay::WindowsMenu && state.windows_chrome && state.windows_menu
            ||| overlay == Overlay::SettingsSelector && state.panel == ActivePanel::Settings
                && state.settings_selector
            ||| overlay == Overlay::ProfileContextMenu && state.profile_context_menu
            ||| overlay == Overlay::SftpContextMenu && state.sftp_context_menu
            ||| overlay == Overlay::TerminalContextMenu && state.terminal_context_menu
        },
{
    let order = overlay_order();
    crate::sequences::filter_is_exact(order, shows_overlay(state), overlay);
    assert(order[0] == Overlay::WindowsMenu);
    assert(order[1] == Overlay::SettingsSelector);
    assert(order[2] == Overlay::ProfileContextMenu);
    assert(order[3] == Overlay::SftpContextMenu);
    assert(order[4] == Overlay::TerminalContextMenu);
    assert(order.contains(overlay));
}

/// The terminal never takes the keyboard from something else: not from another panel, not from a
/// sidebar or the panel below, and not where no terminal is seen. Where nothing else is open and
/// it is seen, it takes it.
pub proof fn terminal_takes_no_keyboard_away(situation: TerminalSituation)
    ensures
        situation.panel != ActivePanel::Connection ==> !terminal_has_keyboard(situation),
        situation.right_sidebar_open || situation.bottom_panel_open ==> !terminal_has_keyboard(
            situation,
        ),
        !situation.tab_shows_terminal || !situation.terminal_visible ==> !terminal_has_keyboard(
            situation,
        ),
        situation.panel == ActivePanel::Connection && situation.tab_shows_terminal
            && situation.terminal_visible && !situation.right_sidebar_open
            && !situation.bottom_panel_open ==> terminal_has_keyboard(situation),
{
}

/// The field for the search gets the keyboard exactly when it is shown by the command, it is
/// emptied exactly when it is put away, and giving the command twice leads back, but on Windows,
/// where the field stays.
pub proof fn search_is_shown_or_put_away(windows: bool, sidebar_open: bool, visible: bool)
    ensures
        !windows ==> {
            let once = search_switch(windows, sidebar_open, visible);
            &&& once.visible == !visible
            &&& once.focus == once.visible
            &&& once.clear == !once.visible
            &&& !once.open_sidebar
            &&& search_switch(windows, sidebar_open, once.visible).visible == visible
        },
        windows ==> {
            let once = search_switch(windows, sidebar_open, visible);
            &&& once.visible == visible
            &&& once.focus && !once.clear
            &&& once.open_sidebar == !sidebar_open
        },
{
}

} // verus!
