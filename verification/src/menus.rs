//! The menus of the window and of the application, the keys that do the same, and the room that
//! the menus take.
use crate::session::SessionState;
use crate::text::{chars_of, text_is_empty, views};
use vstd::prelude::*;
use vstd::string::*;

verus! {

/// A menu of the window's own menu bar.
#[derive(Clone, Copy, Debug, PartialEq, Eq, Structural)]
pub enum WindowsMenu {
    File,
    Edit,
    Terminal,
    View,
    Window,
    Help,
}

/// What is done to a text.
#[derive(Clone, Copy, Debug, PartialEq, Eq, Structural)]
pub enum EditCommand {
    Undo,
    Redo,
    Cut,
    Copy,
    Paste,
    SelectAll,
}

/// What a menu's entry or a key does.
#[derive(Clone, Copy, Debug, PartialEq, Eq, Structural)]
pub enum WindowsMenuCommand {
    NewConnection,
    NewLocalTerminal,
    NewRemoteTerminal,
    ConnectSelectedProfile,
    DisconnectActiveSession,
    Edit(EditCommand),
    SplitHorizontal,
    SplitVertical,
    ShowTerminalView,
    ShowFilesView,
    ResetActiveTerminal,
    CloseActivePane,
    CloseActiveTab,
    ShowHome,
    ToggleLeftSidebar,
    ToggleConnectionSearch,
    ShowSftpSidebar,
    ShowPerformanceSidebar,
    ToggleBottomPanel,
    MinimizeWindow,
    ZoomWindow,
    ToggleFullscreen,
    CloseWindow,
    ShowSettings,
    ShowAbout,
    Quit,
}

/// An entry of a menu of the window.
#[derive(Clone, Copy, Debug, PartialEq, Eq)]
pub enum WindowsMenuEntry {
    Item { label_key: &'static str, shortcut: &'static str, command: WindowsMenuCommand },
    Separator,
}

/// An entry that does something.
pub open spec fn item(
    label_key: &'static str,
    shortcut: &'static str,
    command: WindowsMenuCommand,
) -> WindowsMenuEntry {
    WindowsMenuEntry::Item { label_key, shortcut, command }
}

/// The entries of a menu.
pub open spec fn menu_entries(menu: WindowsMenu) -> Seq<WindowsMenuEntry> {
    match menu {
        WindowsMenu::File => seq![
            item("menu-new-connection", "Ctrl+N", WindowsMenuCommand::NewConnection),
            item("menu-new-local-terminal", "Ctrl+T", WindowsMenuCommand::NewLocalTerminal),
            item("menu-new-remote-terminal", "Ctrl+Shift+T", WindowsMenuCommand::NewRemoteTerminal),
            WindowsMenuEntry::Separator,
            item("menu-connect", "Ctrl+Enter", WindowsMenuCommand::ConnectSelectedProfile),
            item("menu-disconnect", "Ctrl+Shift+X", WindowsMenuCommand::DisconnectActiveSession),
            WindowsMenuEntry::Separator,
            item("menu-settings", "Ctrl+,", WindowsMenuCommand::ShowSettings),
            item("menu-exit", "Ctrl+Q", WindowsMenuCommand::Quit),
        ],
        WindowsMenu::Edit => seq![
            item("menu-undo", "Ctrl+Z", WindowsMenuCommand::Edit(EditCommand::Undo)),
            item("menu-redo", "Ctrl+Y", WindowsMenuCommand::Edit(EditCommand::Redo)),
            WindowsMenuEntry::Separator,
            item("menu-cut", "Ctrl+X", WindowsMenuCommand::Edit(EditCommand::Cut)),
            item("menu-copy", "Ctrl+C", WindowsMenuCommand::Edit(EditCommand::Copy)),
            item("menu-paste", "Ctrl+V", WindowsMenuCommand::Edit(EditCommand::Paste)),
            item("menu-select-all", "Ctrl+A", WindowsMenuCommand::Edit(EditCommand::SelectAll)),
        ],
        WindowsMenu::Terminal => seq![
            item("menu-split-horizontal", "Ctrl+D", WindowsMenuCommand::SplitHorizontal),
            item("menu-split-vertical", "Ctrl+Shift+D", WindowsMenuCommand::SplitVertical),
            WindowsMenuEntry::Separator,
            item("menu-show-terminal", "Ctrl+1", WindowsMenuCommand::ShowTerminalView),
            item("menu-show-remote-files", "Ctrl+2", WindowsMenuCommand::ShowFilesView),
            WindowsMenuEntry::Separator,
            item("menu-reset-terminal", "Ctrl+R", WindowsMenuCommand::ResetActiveTerminal),
            item("menu-close-active-split", "Ctrl+Alt+W", WindowsMenuCommand::CloseActivePane),
            item("menu-close-active-tab", "Ctrl+Shift+W", WindowsMenuCommand::CloseActiveTab),
        ],
        WindowsMenu::View => seq![
            item("menu-home", "Ctrl+Shift+H", WindowsMenuCommand::ShowHome),
            WindowsMenuEntry::Separator,
            item(
                "menu-toggle-connections-sidebar",
                "Ctrl+Shift+S",
                WindowsMenuCommand::ToggleLeftSidebar,
            ),
            item("menu-search-connections", "Ctrl+F", WindowsMenuCommand::ToggleConnectionSearch),
            WindowsMenuEntry::Separator,
            item(
                "menu-show-remote-files-sidebar",
                "Ctrl+Shift+F",
                WindowsMenuCommand::ShowSftpSidebar,
            ),
            item(
                "menu-show-server-performance",
                "Ctrl+Shift+P",
                WindowsMenuCommand::ShowPerformanceSidebar,
            ),
            item("menu-toggle-bottom-terminal", "Ctrl+J", WindowsMenuCommand::ToggleBottomPanel),
        ],
        WindowsMenu::Window => seq![
            item("menu-minimize", "", WindowsMenuCommand::MinimizeWindow),
            item("menu-maximize-restore", "", WindowsMenuCommand::ZoomWindow),
            item("menu-fullscreen", "Ctrl+Alt+F", WindowsMenuCommand::ToggleFullscreen),
            WindowsMenuEntry::Separator,
            item("menu-close-window", "Ctrl+W", WindowsMenuCommand::CloseWindow),
        ],
        WindowsMenu::Help => seq![
            item("about-title", "", WindowsMenuCommand::ShowAbout),
        ],
    }
}

/// An entry that does something.
fn menu_item(
    label_key: &'static str,
    shortcut: &'static str,
    command: WindowsMenuCommand,
) -> (r: WindowsMenuEntry)
    ensures
        r == item(label_key, shortcut, command),
{
    WindowsMenuEntry::Item { label_key, shortcut, command }
}

/// The entries of a menu.
pub fn windows_menu_entries(menu: WindowsMenu) -> (r: Vec<WindowsMenuEntry>)
    ensures
        r@ == menu_entries(menu),
{
    let mut entries: Vec<WindowsMenuEntry> = Vec::new();
    match menu {
        WindowsMenu::File => {
            entries.push(
                menu_item("menu-new-connection", "Ctrl+N", WindowsMenuCommand::NewConnection),
            );
            entries.push(
                menu_item(
                    "menu-new-local-terminal",
                    "Ctrl+T",
                    WindowsMenuCommand::NewLocalTerminal,
                ),
            );
            entries.push(
                menu_item(
                    "menu-new-remote-terminal",
                    "Ctrl+Shift+T",
                    WindowsMenuCommand::NewRemoteTerminal,
                ),
            );
            entries.push(WindowsMenuEntry::Separator);
            entries.push(
                menu_item("menu-connect", "Ctrl+Enter", WindowsMenuCommand::ConnectSelectedProfile),
            );
            entries.push(
                menu_item(
                    "menu-disconnect",
                    "Ctrl+Shift+X",
                    WindowsMenuCommand::DisconnectActiveSession,
                ),
            );
            entries.push(WindowsMenuEntry::Separator);
            entries.push(menu_item("menu-settings", "Ctrl+,", WindowsMenuCommand::ShowSettings));
            entries.push(menu_item("menu-exit", "Ctrl+Q", WindowsMenuCommand::Quit));
        },
        WindowsMenu::Edit => {
            entries.push(
                menu_item("menu-undo", "Ctrl+Z", WindowsMenuCommand::Edit(EditCommand::Undo)),
            );
            entries.push(
                menu_item("menu-redo", "Ctrl+Y", WindowsMenuCommand::Edit(EditCommand::Redo)),
            );
            entries.push(WindowsMenuEntry::Separator);
            entries.push(
                menu_item("menu-cut", "Ctrl+X", WindowsMenuCommand::Edit(EditCommand::Cut)),
            );
            entries.push(
                menu_item("menu-copy", "Ctrl+C", WindowsMenuCommand::Edit(EditCommand::Copy)),
            );
            entries.push(
                menu_item("menu-paste", "Ctrl+V", WindowsMenuCommand::Edit(EditCommand::Paste)),
            );
            entries.push(
                menu_item(
                    "menu-select-all",
                    "Ctrl+A",
                    WindowsMenuCommand::Edit(EditCommand::SelectAll),
                ),
            );
        },
        WindowsMenu::Terminal => {
            entries.push(
                menu_item("menu-split-horizontal", "Ctrl+D", WindowsMenuCommand::SplitHorizontal),
            );
            entries.push(
                menu_item("menu-split-vertical", "Ctrl+Shift+D", WindowsMenuCommand::SplitVertical),
            );
            entries.push(WindowsMenuEntry::Separator);
            entries.push(
                menu_item("menu-show-terminal", "Ctrl+1", WindowsMenuCommand::ShowTerminalView),
            );
            entries.push(
                menu_item("menu-show-remote-files", "Ctrl+2", WindowsMenuCommand::ShowFilesView),
            );
            entries.push(WindowsMenuEntry::Separator);
            entries.push(
                menu_item("menu-reset-terminal", "Ctrl+R", WindowsMenuCommand::ResetActiveTerminal),
            );
            entries.push(
                menu_item(
                    "menu-close-active-split",
                    "Ctrl+Alt+W",
                    WindowsMenuCommand::CloseActivePane,
                ),
            );
            entries.push(
                menu_item(
                    "menu-close-active-tab",
                    "Ctrl+Shift+W",
                    WindowsMenuCommand::CloseActiveTab,
                ),
            );
        },
        WindowsMenu::View => {
            entries.push(menu_item("menu-home", "Ctrl+Shift+H", WindowsMenuCommand::ShowHome));
            entries.push(WindowsMenuEntry::Separator);
            entries.push(
                menu_item(
                    "menu-toggle-connections-sidebar",
                    "Ctrl+Shift+S",
                    WindowsMenuCommand::ToggleLeftSidebar,
                ),
            );
            entries.push(
                menu_item(
                    "menu-search-connections",
                    "Ctrl+F",
                    WindowsMenuCommand::ToggleConnectionSearch,
                ),
            );
            entries.push(WindowsMenuEntry::Separator);
            entries.push(
                menu_item(
                    "menu-show-remote-files-sidebar",
                    "Ctrl+Shift+F",
                    WindowsMenuCommand::ShowSftpSidebar,
                ),
            );
            entries.push(
                menu_item(
                    "menu-show-server-performance",
                    "Ctrl+Shift+P",
                    WindowsMenuCommand::ShowPerformanceSidebar,
                ),
            );
            entries.push(
                menu_item(
                    "menu-toggle-bottom-terminal",
                    "Ctrl+J",
                    WindowsMenuCommand::ToggleBottomPanel,
                ),
            );
        },
        WindowsMenu::Window => {
            entries.push(menu_item("menu-minimize", "", WindowsMenuCommand::MinimizeWindow));
            entries.push(menu_item("menu-maximize-restore", "", WindowsMenuCommand::ZoomWindow));
            entries.push(
                menu_item("menu-fullscreen", "Ctrl+Alt+F", WindowsMenuCommand::ToggleFullscreen),
            );
            entries.push(WindowsMenuEntry::Separator);
            entries.push(menu_item("menu-close-window", "Ctrl+W", WindowsMenuCommand::CloseWindow));
        },
        WindowsMenu::Help => {
            entries.push(menu_item("about-title", "", WindowsMenuCommand::ShowAbout));
        },
    }
    entries
}

/// No menu begins or ends with a separator, and no two separators follow each other.
pub proof fn separators_stand_between(menu: WindowsMenu)
    ensures
        menu_entries(menu).len() > 0,
        menu_entries(menu)[0] is Item,
        menu_entries(menu).last() is Item,
        forall|i: int|
            0 <= i < menu_entries(menu).len() - 1 ==> (#[trigger] menu_entries(menu)[i]) is Item
                || menu_entries(menu)[i + 1] is Item,
{
}

/// A key and what it does.
#[derive(Clone, Copy, Debug, PartialEq, Eq)]
pub struct CommandBinding {
    pub keystroke: &'static str,
    pub command: WindowsMenuCommand,
}

/// The keys that do something with the command key.
pub open spec fn command_key_list() -> Seq<CommandBinding> {
    seq![
        CommandBinding { keystroke: "cmd-,", command: WindowsMenuCommand::ShowSettings },
        CommandBinding { keystroke: "cmd-shift-h", command: WindowsMenuCommand::ShowHome },
        CommandBinding { keystroke: "cmd-n", command: WindowsMenuCommand::NewConnection },
        CommandBinding { keystroke: "cmd-t", command: WindowsMenuCommand::NewLocalTerminal },
        CommandBinding { keystroke: "cmd-shift-t", command: WindowsMenuCommand::NewRemoteTerminal },
        CommandBinding {
            keystroke: "cmd-enter",
            command: WindowsMenuCommand::ConnectSelectedProfile,
        },
        CommandBinding {
            keystroke: "cmd-shift-x",
            command: WindowsMenuCommand::DisconnectActiveSession,
        },
        CommandBinding { keystroke: "cmd-d", command: WindowsMenuCommand::SplitHorizontal },
        CommandBinding { keystroke: "cmd-shift-d", command: WindowsMenuCommand::SplitVertical },
        CommandBinding { keystroke: "alt-cmd-w", command: WindowsMenuCommand::CloseActivePane },
        CommandBinding { keystroke: "cmd-shift-w", command: WindowsMenuCommand::CloseActiveTab },
        CommandBinding { keystroke: "cmd-w", command: WindowsMenuCommand::CloseWindow },
        CommandBinding { keystroke: "cmd-r", command: WindowsMenuCommand::ResetActiveTerminal },
        CommandBinding { keystroke: "cmd-1", command: WindowsMenuCommand::ShowTerminalView },
        CommandBinding { keystroke: "cmd-2", command: WindowsMenuCommand::ShowFilesView },
        CommandBinding { keystroke: "cmd-shift-s", command: WindowsMenuCommand::ToggleLeftSidebar },
        CommandBinding { keystroke: "cmd-m", command: WindowsMenuCommand::MinimizeWindow },
        CommandBinding { keystroke: "ctrl-cmd-f", command: WindowsMenuCommand::ToggleFullscreen },
        CommandBinding { keystroke: "cmd-f", command: WindowsMenuCommand::ToggleConnectionSearch },
        CommandBinding { keystroke: "cmd-shift-f", command: WindowsMenuCommand::ShowSftpSidebar },
        CommandBinding {
            keystroke: "cmd-shift-p",
            command: WindowsMenuCommand::ShowPerformanceSidebar,
        },
        CommandBinding { keystroke: "cmd-j", command: WindowsMenuCommand::ToggleBottomPanel },
        CommandBinding { keystroke: "cmd-q", command: WindowsMenuCommand::Quit },
    ]
}

/// The keys that do something with the command key.
pub fn command_key_bindings() -> (r: Vec<CommandBinding>)
    ensures
        r@ == command_key_list(),
{
    let mut keys: Vec<CommandBinding> = Vec::new();
    keys.push(CommandBinding { keystroke: "cmd-,", command: WindowsMenuCommand::ShowSettings });
    keys.push(CommandBinding { keystroke: "cmd-shift-h", command: WindowsMenuCommand::ShowHome });
    keys.push(CommandBinding { keystroke: "cmd-n", command: WindowsMenuCommand::NewConnection });
    keys.push(CommandBinding { keystroke: "cmd-t", command: WindowsMenuCommand::NewLocalTerminal });
    keys.push(
        CommandBinding { keystroke: "cmd-shift-t", command: WindowsMenuCommand::NewRemoteTerminal },
    );
    keys.push(
        CommandBinding {
            keystroke: "cmd-enter",
            command: WindowsMenuCommand::ConnectSelectedProfile,
        },
    );
    keys.push(
        CommandBinding {
            keystroke: "cmd-shift-x",
            command: WindowsMenuCommand::DisconnectActiveSession,
        },
    );
    keys.push(CommandBinding { keystroke: "cmd-d", command: WindowsMenuCommand::SplitHorizontal });
    keys.push(
        CommandBinding { keystroke: "cmd-shift-d", command: WindowsMenuCommand::SplitVertical },
    );
    keys.push(
        CommandBinding { keystroke: "alt-cmd-w", command: WindowsMenuCommand::CloseActivePane },
    );
    keys.push(
        CommandBinding { keystroke: "cmd-shift-w", command: WindowsMenuCommand::CloseActiveTab },
    );
    keys.push(CommandBinding { keystroke: "cmd-w", command: WindowsMenuCommand::CloseWindow });
    keys.push(
        CommandBinding { keystroke: "cmd-r", command: WindowsMenuCommand::ResetActiveTerminal },
    );
    keys.push(CommandBinding { keystroke: "cmd-1", command: WindowsMenuCommand::ShowTerminalView });
    keys.push(CommandBinding { keystroke: "cmd-2", command: WindowsMenuCommand::ShowFilesView });
    keys.push(
        CommandBinding { keystroke: "cmd-shift-s", command: WindowsMenuCommand::ToggleLeftSidebar },
    );
    keys.push(CommandBinding { keystroke: "cmd-m", command: WindowsMenuCommand::MinimizeWindow });
    keys.push(
        CommandBinding { keystroke: "ctrl-cmd-f", command: WindowsMenuCommand::ToggleFullscreen },
    );
    keys.push(
        CommandBinding { keystroke: "cmd-f", command: WindowsMenuCommand::ToggleConnectionSearch },
    );
    keys.push(
        CommandBinding { keystroke: "cmd-shift-f", command: WindowsMenuCommand::ShowSftpSidebar },
    );
    keys.push(
        CommandBinding {
            keystroke: "cmd-shift-p",
            command: WindowsMenuCommand::ShowPerformanceSidebar,
        },
    );
    keys.push(
        CommandBinding { keystroke: "cmd-j", command: WindowsMenuCommand::ToggleBottomPanel },
    );
    keys.push(CommandBinding { keystroke: "cmd-q", command: WindowsMenuCommand::Quit });
    keys
}

/// The keys that do something with the control key.
pub open spec fn control_key_list() -> Seq<CommandBinding> {
    seq![
        CommandBinding { keystroke: "ctrl-,", command: WindowsMenuCommand::ShowSettings },
        CommandBinding { keystroke: "ctrl-shift-h", command: WindowsMenuCommand::ShowHome },
        CommandBinding { keystroke: "ctrl-n", command: WindowsMenuCommand::NewConnection },
        CommandBinding { keystroke: "ctrl-t", command: WindowsMenuCommand::NewLocalTerminal },
        CommandBinding {
            keystroke: "ctrl-shift-t",
            command: WindowsMenuCommand::NewRemoteTerminal,
        },
        CommandBinding {
            keystroke: "ctrl-enter",
            command: WindowsMenuCommand::ConnectSelectedProfile,
        },
        CommandBinding {
            keystroke: "ctrl-shift-x",
            command: WindowsMenuCommand::DisconnectActiveSession,
        },
        CommandBinding { keystroke: "ctrl-d", command: WindowsMenuCommand::SplitHorizontal },
        CommandBinding { keystroke: "ctrl-shift-d", command: WindowsMenuCommand::SplitVertical },
        CommandBinding { keystroke: "ctrl-alt-w", command: WindowsMenuCommand::CloseActivePane },
        CommandBinding { keystroke: "ctrl-shift-w", command: WindowsMenuCommand::CloseActiveTab },
        CommandBinding { keystroke: "ctrl-w", command: WindowsMenuCommand::CloseWindow },
        CommandBinding { keystroke: "ctrl-r", command: WindowsMenuCommand::ResetActiveTerminal },
        CommandBinding { keystroke: "ctrl-1", command: WindowsMenuCommand::ShowTerminalView },
        CommandBinding { keystroke: "ctrl-2", command: WindowsMenuCommand::ShowFilesView },
        CommandBinding {
            keystroke: "ctrl-shift-s",
            command: WindowsMenuCommand::ToggleLeftSidebar,
        },
        CommandBinding { keystroke: "ctrl-m", command: WindowsMenuCommand::MinimizeWindow },
        CommandBinding { keystroke: "ctrl-alt-f", command: WindowsMenuCommand::ToggleFullscreen },
        CommandBinding { keystroke: "ctrl-f", command: WindowsMenuCommand::ToggleConnectionSearch },
        CommandBinding { keystroke: "ctrl-shift-f", command: WindowsMenuCommand::ShowSftpSidebar },
        CommandBinding {
            keystroke: "ctrl-shift-p",
            command: WindowsMenuCommand::ShowPerformanceSidebar,
        },
        CommandBinding { keystroke: "ctrl-j", command: WindowsMenuCommand::ToggleBottomPanel },
        CommandBinding { keystroke: "ctrl-q", command: WindowsMenuCommand::Quit },
    ]
}

/// The keys that do something with the control key.
pub fn control_key_bindings() -> (r: Vec<CommandBinding>)
    ensures
        r@ == control_key_list(),
{
    let mut keys: Vec<CommandBinding> = Vec::new();
    keys.push(CommandBinding { keystroke: "ctrl-,", command: WindowsMenuCommand::ShowSettings });
    keys.push(CommandBinding { keystroke: "ctrl-shift-h", command: WindowsMenuCommand::ShowHome });
    keys.push(CommandBinding { keystroke: "ctrl-n", command: WindowsMenuCommand::NewConnection });
    keys.push(
        CommandBinding { keystroke: "ctrl-t", command: WindowsMenuCommand::NewLocalTerminal },
    );
    keys.push(
        CommandBinding {
            keystroke: "ctrl-shift-t",
            command: WindowsMenuCommand::NewRemoteTerminal,
        },
    );
    keys.push(
        CommandBinding {
            keystroke: "ctrl-enter",
            command: WindowsMenuCommand::ConnectSelectedProfile,
        },
    );
    keys.push(
        CommandBinding {
            keystroke: "ctrl-shift-x",
            command: WindowsMenuCommand::DisconnectActiveSession,
        },
    );
    keys.push(CommandBinding { keystroke: "ctrl-d", command: WindowsMenuCommand::SplitHorizontal });
    keys.push(
        CommandBinding { keystroke: "ctrl-shift-d", command: WindowsMenuCommand::SplitVertical },
    );
    keys.push(
        CommandBinding { keystroke: "ctrl-alt-w", command: WindowsMenuCommand::CloseActivePane },
    );
    keys.push(
        CommandBinding { keystroke: "ctrl-shift-w", command: WindowsMenuCommand::CloseActiveTab },
    );
    keys.push(CommandBinding { keystroke: "ctrl-w", command: WindowsMenuCommand::CloseWindow });
    keys.push(
        CommandBinding { keystroke: "ctrl-r", command: WindowsMenuCommand::ResetActiveTerminal },
    );
    keys.push(
        CommandBinding { keystroke: "ctrl-1", command: WindowsMenuCommand::ShowTerminalView },
    );
    keys.push(CommandBinding { keystroke: "ctrl-2", command: WindowsMenuCommand::ShowFilesView });
    keys.push(
        CommandBinding {
            keystroke: "ctrl-shift-s",
            command: WindowsMenuCommand::ToggleLeftSidebar,
        },
    );
    keys.push(CommandBinding { keystroke: "ctrl-m", command: WindowsMenuCommand::MinimizeWindow });
    keys.push(
        CommandBinding { keystroke: "ctrl-alt-f", command: WindowsMenuCommand::ToggleFullscreen },
    );
    keys.push(
        CommandBinding { keystroke: "ctrl-f", command: WindowsMenuCommand::ToggleConnectionSearch },
    );
    keys.push(
        CommandBinding { keystroke: "ctrl-shift-f", command: WindowsMenuCommand::ShowSftpSidebar },
    );
    keys.push(
        CommandBinding {
            keystroke: "ctrl-shift-p",
            command: WindowsMenuCommand::ShowPerformanceSidebar,
        },
    );
    keys.push(
        CommandBinding { keystroke: "ctrl-j", command: WindowsMenuCommand::ToggleBottomPanel },
    );
    keys.push(CommandBinding { keystroke: "ctrl-q", command: WindowsMenuCommand::Quit });
    keys
}

/// Both keyboards have keys for the same commands, in the same order.
pub proof fn keyboards_agree(i: int)
    requires
        0 <= i < command_key_list().len(),
    ensures
        command_key_list().len() == control_key_list().len(),
        command_key_list()[i].command == control_key_list()[i].command,
{
}

/// No two keys do the same.
pub proof fn commands_have_one_key(i: int, j: int)
    requires
        0 <= i < j < control_key_list().len(),
    ensures
        control_key_list()[i].command != control_key_list()[j].command,
{
}

/// How a shortcut that a menu shows is written as a key.
pub open spec fn keystroke_of(shortcut: Seq<char>) -> Seq<char> {
    shortcut.map_values(
        |c: char|
            if c == '+' {
                '-'
            } else {
                crate::terminal_fonts::lower_ascii(c)
            },
    )
}

/// The keystroke does the command.
pub open spec fn is_bound(keystroke: Seq<char>, command: WindowsMenuCommand) -> bool {
    exists|j: int|
        0 <= j < control_key_list().len() && (#[trigger] control_key_list()[j]).keystroke@
            == keystroke && control_key_list()[j].command == command
}

/// The shortcut that a menu shows beside a command does the command; those for texts are the text
/// fields' own.
pub proof fn shortcuts_do_what_menus_say(menu: WindowsMenu, i: int)
    requires
        0 <= i < menu_entries(menu).len(),
    ensures
        match menu_entries(menu)[i] {
            WindowsMenuEntry::Item { shortcut, command, .. } => shortcut@ == ""@
                || command is Edit || is_bound(keystroke_of(shortcut@), command),
            WindowsMenuEntry::Separator => true,
        },
{
    assert(is_bound(keystroke_of("Ctrl+N"@), WindowsMenuCommand::NewConnection)) by {
        reveal_strlit("Ctrl+N");
        reveal_strlit("ctrl-n");
        assert("ctrl-n"@ =~= keystroke_of("Ctrl+N"@));
        assert(control_key_list()[2].keystroke == "ctrl-n");
    }
    assert(is_bound(keystroke_of("Ctrl+T"@), WindowsMenuCommand::NewLocalTerminal)) by {
        reveal_strlit("Ctrl+T");
        reveal_strlit("ctrl-t");
        assert("ctrl-t"@ =~= keystroke_of("Ctrl+T"@));
        assert(control_key_list()[3].keystroke == "ctrl-t");
    }
    assert(is_bound(keystroke_of("Ctrl+Shift+T"@), WindowsMenuCommand::NewRemoteTerminal)) by {
        reveal_strlit("Ctrl+Shift+T");
        reveal_strlit("ctrl-shift-t");
        assert("ctrl-shift-t"@ =~= keystroke_of("Ctrl+Shift+T"@));
        assert(control_key_list()[4].keystroke == "ctrl-shift-t");
    }
    assert(is_bound(keystroke_of("Ctrl+Enter"@), WindowsMenuCommand::ConnectSelectedProfile)) by {
        reveal_strlit("Ctrl+Enter");
        reveal_strlit("ctrl-enter");
        assert("ctrl-enter"@ =~= keystroke_of("Ctrl+Enter"@));
        assert(control_key_list()[5].keystroke == "ctrl-enter");
    }
    assert(is_bound(
        keystroke_of("Ctrl+Shift+X"@),
        WindowsMenuCommand::DisconnectActiveSession,
    )) by {
        reveal_strlit("Ctrl+Shift+X");
        reveal_strlit("ctrl-shift-x");
        assert("ctrl-shift-x"@ =~= keystroke_of("Ctrl+Shift+X"@));
        assert(control_key_list()[6].keystroke == "ctrl-shift-x");
    }
    assert(is_bound(keystroke_of("Ctrl+,"@), WindowsMenuCommand::ShowSettings)) by {
        reveal_strlit("Ctrl+,");
        reveal_strlit("ctrl-,");
        assert("ctrl-,"@ =~= keystroke_of("Ctrl+,"@));
        assert(control_key_list()[0].keystroke == "ctrl-,");
    }
    assert(is_bound(keystroke_of("Ctrl+Q"@), WindowsMenuCommand::Quit)) by {
        reveal_strlit("Ctrl+Q");
        reveal_strlit("ctrl-q");
        assert("ctrl-q"@ =~= keystroke_of("Ctrl+Q"@));
        assert(control_key_list()[22].keystroke == "ctrl-q");
    }
    assert(is_bound(keystroke_of("Ctrl+D"@), WindowsMenuCommand::SplitHorizontal)) by {
        reveal_strlit("Ctrl+D");
        reveal_strlit("ctrl-d");
        assert("ctrl-d"@ =~= keystroke_of("Ctrl+D"@));
        assert(control_key_list()[7].keystroke == "ctrl-d");
    }
    assert(is_bound(keystroke_of("Ctrl+Shift+D"@), WindowsMenuCommand::SplitVertical)) by {
        reveal_strlit("Ctrl+Shift+D");
        reveal_strlit("ctrl-shift-d");
        assert("ctrl-shift-d"@ =~= keystroke_of("Ctrl+Shift+D"@));
        assert(control_key_list()[8].keystroke == "ctrl-shift-d");
    }
    assert(is_bound(keystroke_of("Ctrl+1"@), WindowsMenuCommand::ShowTerminalView)) by {
        reveal_strlit("Ctrl+1");
        reveal_strlit("ctrl-1");
        assert("ctrl-1"@ =~= keystroke_of("Ctrl+1"@));
        assert(control_key_list()[13].keystroke == "ctrl-1");
    }
    assert(is_bound(keystroke_of("Ctrl+2"@), WindowsMenuCommand::ShowFilesView)) by {
        reveal_strlit("Ctrl+2");
        reveal_strlit("ctrl-2");
        assert("ctrl-2"@ =~= keystroke_of("Ctrl+2"@));
        assert(control_key_list()[14].keystroke == "ctrl-2");
    }
    assert(is_bound(keystroke_of("Ctrl+R"@), WindowsMenuCommand::ResetActiveTerminal)) by {
        reveal_strlit("Ctrl+R");
        reveal_strlit("ctrl-r");
        assert("ctrl-r"@ =~= keystroke_of("Ctrl+R"@));
        assert(control_key_list()[12].keystroke == "ctrl-r");
    }
    assert(is_bound(keystroke_of("Ctrl+Alt+W"@), WindowsMenuCommand::CloseActivePane)) by {
        reveal_strlit("Ctrl+Alt+W");
        reveal_strlit("ctrl-alt-w");
        assert("ctrl-alt-w"@ =~= keystroke_of("Ctrl+Alt+W"@));
        assert(control_key_list()[9].keystroke == "ctrl-alt-w");
    }
    assert(is_bound(keystroke_of("Ctrl+Shift+W"@), WindowsMenuCommand::CloseActiveTab)) by {
        reveal_strlit("Ctrl+Shift+W");
        reveal_strlit("ctrl-shift-w");
        assert("ctrl-shift-w"@ =~= keystroke_of("Ctrl+Shift+W"@));
        assert(control_key_list()[10].keystroke == "ctrl-shift-w");
    }
    assert(is_bound(keystroke_of("Ctrl+Shift+H"@), WindowsMenuCommand::ShowHome)) by {
        reveal_strlit("Ctrl+Shift+H");
        reveal_strlit("ctrl-shift-h");
        assert("ctrl-shift-h"@ =~= keystroke_of("Ctrl+Shift+H"@));
        assert(control_key_list()[1].keystroke == "ctrl-shift-h");
    }
    assert(is_bound(keystroke_of("Ctrl+Shift+S"@), WindowsMenuCommand::ToggleLeftSidebar)) by {
        reveal_strlit("Ctrl+Shift+S");
        reveal_strlit("ctrl-shift-s");
        assert("ctrl-shift-s"@ =~= keystroke_of("Ctrl+Shift+S"@));
        assert(control_key_list()[15].keystroke == "ctrl-shift-s");
    }
    assert(is_bound(keystroke_of("Ctrl+F"@), WindowsMenuCommand::ToggleConnectionSearch)) by {
        reveal_strlit("Ctrl+F");
        reveal_strlit("ctrl-f");
        assert("ctrl-f"@ =~= keystroke_of("Ctrl+F"@));
        assert(control_key_list()[18].keystroke == "ctrl-f");
    }
    assert(is_bound(keystroke_of("Ctrl+Shift+F"@), WindowsMenuCommand::ShowSftpSidebar)) by {
        reveal_strlit("Ctrl+Shift+F");
        reveal_strlit("ctrl-shift-f");
        assert("ctrl-shift-f"@ =~= keystroke_of("Ctrl+Shift+F"@));
        assert(control_key_list()[19].keystroke == "ctrl-shift-f");
    }
    assert(is_bound(keystroke_of("Ctrl+Shift+P"@), WindowsMenuCommand::ShowPerformanceSidebar)) by {
        reveal_strlit("Ctrl+Shift+P");
        reveal_strlit("ctrl-shift-p");
        assert("ctrl-shift-p"@ =~= keystroke_of("Ctrl+Shift+P"@));
        assert(control_key_list()[20].keystroke == "ctrl-shift-p");
    }
    assert(is_bound(keystroke_of("Ctrl+J"@), WindowsMenuCommand::ToggleBottomPanel)) by {
        reveal_strlit("Ctrl+J");
        reveal_strlit("ctrl-j");
        assert("ctrl-j"@ =~= keystroke_of("Ctrl+J"@));
        assert(control_key_list()[21].keystroke == "ctrl-j");
    }
    assert(is_bound(keystroke_of("Ctrl+Alt+F"@), WindowsMenuCommand::ToggleFullscreen)) by {
        reveal_strlit("Ctrl+Alt+F");
        reveal_strlit("ctrl-alt-f");
        assert("ctrl-alt-f"@ =~= keystroke_of("Ctrl+Alt+F"@));
        assert(control_key_list()[17].keystroke == "ctrl-alt-f");
    }
    assert(is_bound(keystroke_of("Ctrl+W"@), WindowsMenuCommand::CloseWindow)) by {
        reveal_strlit("Ctrl+W");
        reveal_strlit("ctrl-w");
        assert("ctrl-w"@ =~= keystroke_of("Ctrl+W"@));
        assert(control_key_list()[11].keystroke == "ctrl-w");
    }
}

/// An entry of a menu of the application.
#[derive(Clone, Copy, Debug, PartialEq, Eq)]
pub enum AppMenuItem {
    Action { label_key: &'static str, command: WindowsMenuCommand },
    Separator,
    /// The system's own menu of services.
    Services { label_key: &'static str },
}

/// What a menu of the application is called.
#[derive(Clone, Copy, Debug, PartialEq, Eq)]
pub enum AppMenuName {
    /// The program's name, the same in every language.
    Program(&'static str),
    Key(&'static str),
}

/// A menu of the application.
#[derive(Debug, PartialEq, Eq)]
pub struct AppMenu {
    pub name: AppMenuName,
    pub items: Vec<AppMenuItem>,
}

/// The entries of the program's own menu. Services are a menu of macOS.
pub open spec fn program_items(macos: bool) -> Seq<AppMenuItem> {
    seq![
        AppMenuItem::Action { label_key: "about-title", command: WindowsMenuCommand::ShowAbout },
        AppMenuItem::Separator,
        AppMenuItem::Action {
            label_key: "menu-settings",
            command: WindowsMenuCommand::ShowSettings,
        },
    ] + (if macos {
        seq![AppMenuItem::Services { label_key: "menu-services" }]
    } else {
        seq![]
    }) + seq![
        AppMenuItem::Separator,
        AppMenuItem::Action { label_key: "menu-quit", command: WindowsMenuCommand::Quit },
    ]
}

/// The entries of the menus for files, terminals, the view and the window, in this order.
pub open spec fn app_menu_items(index: int) -> Seq<AppMenuItem> {
    if index == 0 {
        seq![
            AppMenuItem::Action {
                label_key: "menu-new-connection",
                command: WindowsMenuCommand::NewConnection,
            },
            AppMenuItem::Action {
                label_key: "menu-new-local-terminal",
                command: WindowsMenuCommand::NewLocalTerminal,
            },
            AppMenuItem::Action {
                label_key: "menu-new-remote-terminal",
                command: WindowsMenuCommand::NewRemoteTerminal,
            },
            AppMenuItem::Separator,
            AppMenuItem::Action {
                label_key: "menu-connect",
                command: WindowsMenuCommand::ConnectSelectedProfile,
            },
            AppMenuItem::Action {
                label_key: "menu-disconnect",
                command: WindowsMenuCommand::DisconnectActiveSession,
            },
        ]
    } else if index == 1 {
        seq![
            AppMenuItem::Action {
                label_key: "menu-split-horizontal",
                command: WindowsMenuCommand::SplitHorizontal,
            },
            AppMenuItem::Action {
                label_key: "menu-split-vertical",
                command: WindowsMenuCommand::SplitVertical,
            },
            AppMenuItem::Separator,
            AppMenuItem::Action {
                label_key: "menu-terminal-view",
                command: WindowsMenuCommand::ShowTerminalView,
            },
            AppMenuItem::Action {
                label_key: "menu-files-view",
                command: WindowsMenuCommand::ShowFilesView,
            },
            AppMenuItem::Separator,
            AppMenuItem::Action {
                label_key: "menu-reset-terminal",
                command: WindowsMenuCommand::ResetActiveTerminal,
            },
            AppMenuItem::Action {
                label_key: "menu-close-pane",
                command: WindowsMenuCommand::CloseActivePane,
            },
            AppMenuItem::Action {
                label_key: "menu-close-terminal",
                command: WindowsMenuCommand::CloseActiveTab,
            },
        ]
    } else if index == 2 {
        seq![
            AppMenuItem::Action { label_key: "menu-home", command: WindowsMenuCommand::ShowHome },
            AppMenuItem::Separator,
            AppMenuItem::Action {
                label_key: "menu-toggle-sidebar",
                command: WindowsMenuCommand::ToggleLeftSidebar,
            },
            AppMenuItem::Action {
                label_key: "menu-search-connections",
                command: WindowsMenuCommand::ToggleConnectionSearch,
            },
            AppMenuItem::Separator,
            AppMenuItem::Action {
                label_key: "menu-sftp-sidebar",
                command: WindowsMenuCommand::ShowSftpSidebar,
            },
            AppMenuItem::Action {
                label_key: "menu-performance-sidebar",
                command: WindowsMenuCommand::ShowPerformanceSidebar,
            },
            AppMenuItem::Action {
                label_key: "menu-bottom-panel",
                command: WindowsMenuCommand::ToggleBottomPanel,
            },
        ]
    } else {
        seq![
            AppMenuItem::Action {
                label_key: "menu-minimize",
                command: WindowsMenuCommand::MinimizeWindow,
            },
            AppMenuItem::Action { label_key: "menu-zoom", command: WindowsMenuCommand::ZoomWindow },
            AppMenuItem::Action {
                label_key: "menu-fullscreen",
                command: WindowsMenuCommand::ToggleFullscreen,
            },
            AppMenuItem::Separator,
            AppMenuItem::Action {
                label_key: "menu-close-window",
                command: WindowsMenuCommand::CloseWindow,
            },
        ]
    }
}

/// The entries of the program's own menu.
fn program_menu_items(macos: bool) -> (r: Vec<AppMenuItem>)
    ensures
        r@ == program_items(macos),
{
    let mut items: Vec<AppMenuItem> = Vec::new();
    items.push(
        AppMenuItem::Action { label_key: "about-title", command: WindowsMenuCommand::ShowAbout },
    );
    items.push(AppMenuItem::Separator);
    items.push(
        AppMenuItem::Action {
            label_key: "menu-settings",
            command: WindowsMenuCommand::ShowSettings,
        },
    );
    if macos {
        items.push(AppMenuItem::Services { label_key: "menu-services" });
    }
    items.push(AppMenuItem::Separator);
    items.push(AppMenuItem::Action { label_key: "menu-quit", command: WindowsMenuCommand::Quit });
    assert(items@ =~= program_items(macos));
    items
}

/// The entries of the menu "file".
fn file_menu_items() -> (r: Vec<AppMenuItem>)
    ensures
        r@ == app_menu_items(0),
{
    let mut items: Vec<AppMenuItem> = Vec::new();
    items.push(
        AppMenuItem::Action {
            label_key: "menu-new-connection",
            command: WindowsMenuCommand::NewConnection,
        },
    );
    items.push(
        AppMenuItem::Action {
            label_key: "menu-new-local-terminal",
            command: WindowsMenuCommand::NewLocalTerminal,
        },
    );
    items.push(
        AppMenuItem::Action {
            label_key: "menu-new-remote-terminal",
            command: WindowsMenuCommand::NewRemoteTerminal,
        },
    );
    items.push(AppMenuItem::Separator);
    items.push(
        AppMenuItem::Action {
            label_key: "menu-connect",
            command: WindowsMenuCommand::ConnectSelectedProfile,
        },
    );
    items.push(
        AppMenuItem::Action {
            label_key: "menu-disconnect",
            command: WindowsMenuCommand::DisconnectActiveSession,
        },
    );
    items
}

/// The entries of the menu "terminal".
fn terminal_menu_items() -> (r: Vec<AppMenuItem>)
    ensures
        r@ == app_menu_items(1),
{
    let mut items: Vec<AppMenuItem> = Vec::new();
    items.push(
        AppMenuItem::Action {
            label_key: "menu-split-horizontal",
            command: WindowsMenuCommand::SplitHorizontal,
        },
    );
    items.push(
        AppMenuItem::Action {
            label_key: "menu-split-vertical",
            command: WindowsMenuCommand::SplitVertical,
        },
    );
    items.push(AppMenuItem::Separator);
    items.push(
        AppMenuItem::Action {
            label_key: "menu-terminal-view",
            command: WindowsMenuCommand::ShowTerminalView,
        },
    );
    items.push(
        AppMenuItem::Action {
            label_key: "menu-files-view",
            command: WindowsMenuCommand::ShowFilesView,
        },
    );
    items.push(AppMenuItem::Separator);
    items.push(
        AppMenuItem::Action {
            label_key: "menu-reset-terminal",
            command: WindowsMenuCommand::ResetActiveTerminal,
        },
    );
    items.push(
        AppMenuItem::Action {
            label_key: "menu-close-pane",
            command: WindowsMenuCommand::CloseActivePane,
        },
    );
    items.push(
        AppMenuItem::Action {
            label_key: "menu-close-terminal",
            command: WindowsMenuCommand::CloseActiveTab,
        },
    );
    items
}

/// The entries of the menu "view".
fn view_menu_items() -> (r: Vec<AppMenuItem>)
    ensures
        r@ == app_menu_items(2),
{
    let mut items: Vec<AppMenuItem> = Vec::new();
    items.push(
        AppMenuItem::Action { label_key: "menu-home", command: WindowsMenuCommand::ShowHome },
    );
    items.push(AppMenuItem::Separator);
    items.push(
        AppMenuItem::Action {
            label_key: "menu-toggle-sidebar",
            command: WindowsMenuCommand::ToggleLeftSidebar,
        },
    );
    items.push(
        AppMenuItem::Action {
            label_key: "menu-search-connections",
            command: WindowsMenuCommand::ToggleConnectionSearch,
        },
    );
    items.push(AppMenuItem::Separator);
    items.push(
        AppMenuItem::Action {
            label_key: "menu-sftp-sidebar",
            command: WindowsMenuCommand::ShowSftpSidebar,
        },
    );
    items.push(
        AppMenuItem::Action {
            label_key: "menu-performance-sidebar",
            command: WindowsMenuCommand::ShowPerformanceSidebar,
        },
    );
    items.push(
        AppMenuItem::Action {
            label_key: "menu-bottom-panel",
            command: WindowsMenuCommand::ToggleBottomPanel,
        },
    );
    items
}

/// The entries of the menu "window".
fn window_menu_items() -> (r: Vec<AppMenuItem>)
    ensures
        r@ == app_menu_items(3),
{
    let mut items: Vec<AppMenuItem> = Vec::new();
    items.push(
        AppMenuItem::Action {
            label_key: "menu-minimize",
            command: WindowsMenuCommand::MinimizeWindow,
        },
    );
    items.push(
        AppMenuItem::Action { label_key: "menu-zoom", command: WindowsMenuCommand::ZoomWindow },
    );
    items.push(
        AppMenuItem::Action {
            label_key: "menu-fullscreen",
            command: WindowsMenuCommand::ToggleFullscreen,
        },
    );
    items.push(AppMenuItem::Separator);
    items.push(
        AppMenuItem::Action {
            label_key: "menu-close-window",
            command: WindowsMenuCommand::CloseWindow,
        },
    );
    items
}

/// The menus of the application, in their order.
pub fn application_menus(macos: bool) -> (r: Vec<AppMenu>)
    ensures
        r@.len() == 5,
        r@[0].name == AppMenuName::Program("RemCmd"),
        r@[0].items@ == program_items(macos),
        r@[1].name == AppMenuName::Key("menu-file"),
        r@[2].name == AppMenuName::Key("menu-terminal"),
        r@[3].name == AppMenuName::Key("menu-view"),
        r@[4].name == AppMenuName::Key("menu-window"),
        forall|i: int| 1 <= i < 5 ==> (#[trigger] r@[i]).items@ == app_menu_items(i - 1),
{
    let mut menus: Vec<AppMenu> = Vec::new();
    menus.push(
        AppMenu { name: AppMenuName::Program("RemCmd"), items: program_menu_items(macos) },
    );
    menus.push(AppMenu { name: AppMenuName::Key("menu-file"), items: file_menu_items() });
    menus.push(AppMenu { name: AppMenuName::Key("menu-terminal"), items: terminal_menu_items() });
    menus.push(AppMenu { name: AppMenuName::Key("menu-view"), items: view_menu_items() });
    menus.push(AppMenu { name: AppMenuName::Key("menu-window"), items: window_menu_items() });
    menus
}

/// A command needs a profile to be selected.
pub open spec fn needs_profile(command: WindowsMenuCommand) -> bool {
    command == WindowsMenuCommand::NewRemoteTerminal || command
        == WindowsMenuCommand::ConnectSelectedProfile
}

/// A command needs a session to be active.
pub open spec fn needs_session(command: WindowsMenuCommand) -> bool {
    match command {
        WindowsMenuCommand::SplitHorizontal
        | WindowsMenuCommand::SplitVertical
        | WindowsMenuCommand::ShowTerminalView
        | WindowsMenuCommand::ShowFilesView
        | WindowsMenuCommand::ResetActiveTerminal
        | WindowsMenuCommand::CloseActivePane
        | WindowsMenuCommand::CloseActiveTab => true,
        _ => false,
    }
}

/// A command can be given, where a profile is selected or not, and with the active session in
/// this state where there is one.
pub open spec fn is_enabled(
    command: WindowsMenuCommand,
    profile_selected: bool,
    active_session: Option<SessionState>,
) -> bool {
    if needs_profile(command) {
        profile_selected
    } else if command == WindowsMenuCommand::DisconnectActiveSession {
        active_session matches Some(state) && state.is_live()
    } else if needs_session(command) {
        active_session is Some
    } else {
        true
    }
}

/// A command can be given, where a profile is selected or not, and with the active session in
/// this state where there is one.
pub fn windows_menu_command_enabled(
    command: WindowsMenuCommand,
    profile_selected: bool,
    active_session: Option<SessionState>,
) -> (r: bool)
    ensures
        r == is_enabled(command, profile_selected, active_session),
{
    match command {
        WindowsMenuCommand::NewRemoteTerminal | WindowsMenuCommand::ConnectSelectedProfile => {
            profile_selected
        },
        WindowsMenuCommand::DisconnectActiveSession => match active_session {
            Some(state) => state.can_disconnect(),
            None => false,
        },
        WindowsMenuCommand::SplitHorizontal
        | WindowsMenuCommand::SplitVertical
        | WindowsMenuCommand::ShowTerminalView
        | WindowsMenuCommand::ShowFilesView
        | WindowsMenuCommand::ResetActiveTerminal
        | WindowsMenuCommand::CloseActivePane
        | WindowsMenuCommand::CloseActiveTab => active_session.is_some(),
        _ => true,
    }
}

/// The menu that is open after a click on a menu's name.
pub fn menu_after_click(open: Option<WindowsMenu>, menu: WindowsMenu) -> (r: Option<WindowsMenu>)
    ensures
        r == if open == Some(menu) {
            None
        } else {
            Some(menu)
        },
{
    match open {
        Some(current) => if current == menu {
            None
        } else {
            Some(menu)
        },
        None => Some(menu),
    }
}

/// The menu that is open after the pointer came to a menu's name, or left it.
pub fn menu_after_hover(open: Option<WindowsMenu>, menu: WindowsMenu, hovered: bool) -> (r: Option<
    WindowsMenu,
>)
    ensures
        r == if hovered && open is Some {
            Some(menu)
        } else {
            open
        },
{
    if hovered && open.is_some() {
        Some(menu)
    } else {
        open
    }
}

/// Who a command on texts goes to.
#[derive(Clone, Copy, Debug, PartialEq, Eq, Structural)]
pub enum EditTarget {
    /// The terminal that has the keyboard.
    Terminal,
    /// The file editor alone.
    FileEditor,
    /// The text fields and the file editor.
    FieldsAndEditor,
    /// Nobody: a terminal cannot do it.
    Nobody,
}

/// Who a command on texts goes to, while a terminal has the keyboard or not.
pub open spec fn edit_target(command: EditCommand, terminal_focused: bool) -> EditTarget {
    if terminal_focused {
        match command {
            EditCommand::Copy | EditCommand::Paste | EditCommand::SelectAll => EditTarget::Terminal,
            EditCommand::Undo | EditCommand::Redo | EditCommand::Cut => EditTarget::Nobody,
        }
    } else {
        match command {
            EditCommand::Undo | EditCommand::Redo => EditTarget::FileEditor,
            _ => EditTarget::FieldsAndEditor,
        }
    }
}

/// Who a command on texts goes to, while a terminal has the keyboard or not.
pub fn dispatch_edit_command(command: EditCommand, terminal_focused: bool) -> (r: EditTarget)
    ensures
        r == edit_target(command, terminal_focused),
{
    if terminal_focused {
        match command {
            EditCommand::Copy | EditCommand::Paste | EditCommand::SelectAll => EditTarget::Terminal,
            EditCommand::Undo | EditCommand::Redo | EditCommand::Cut => EditTarget::Nobody,
        }
    } else {
        match command {
            EditCommand::Undo | EditCommand::Redo => EditTarget::FileEditor,
            _ => EditTarget::FieldsAndEditor,
        }
    }
}

/// Room for the program's name before the menus, in pixels.
pub const WINDOWS_BRAND_WIDTH: u32 = 112;

/// How wide a menu is at least, in pixels.
pub const WINDOWS_MENU_MIN_WIDTH: u128 = 180;

/// The menus in their order.
pub open spec fn menu_order() -> Seq<WindowsMenu> {
    seq![
        WindowsMenu::File,
        WindowsMenu::Edit,
        WindowsMenu::Terminal,
        WindowsMenu::View,
        WindowsMenu::Window,
        WindowsMenu::Help,
    ]
}

/// How wide the name of a menu is, in pixels.
pub open spec fn button_width(menu: WindowsMenu) -> u32 {
    match menu {
        WindowsMenu::File | WindowsMenu::Edit | WindowsMenu::Help => 43,
        WindowsMenu::Terminal => 66,
        WindowsMenu::View => 45,
        WindowsMenu::Window => 64,
    }
}

/// How wide the name of a menu is, in pixels.
pub fn windows_menu_button_width(menu: WindowsMenu) -> (r: u32)
    ensures
        r == button_width(menu),
{
    match menu {
        WindowsMenu::File | WindowsMenu::Edit | WindowsMenu::Help => 43,
        WindowsMenu::Terminal => 66,
        WindowsMenu::View => 45,
        WindowsMenu::Window => 64,
    }
}

/// Where the menu at this position begins, in pixels: behind the names of the menus before it.
pub open spec fn left_of(position: int) -> int
    decreases position,
{
    if position <= 0 {
        WINDOWS_BRAND_WIDTH as int
    } else {
        left_of(position - 1) + button_width(menu_order()[position - 1])
    }
}

/// The position of a menu.
pub open spec fn menu_position(menu: WindowsMenu) -> int {
    match menu {
        WindowsMenu::File => 0,
        WindowsMenu::Edit => 1,
        WindowsMenu::Terminal => 2,
        WindowsMenu::View => 3,
        WindowsMenu::Window => 4,
        WindowsMenu::Help => 5,
    }
}

/// The positions of the menus are those of their order.
pub proof fn menu_positions(menu: WindowsMenu)
    ensures
        0 <= menu_position(menu) < menu_order().len(),
        menu_order()[menu_position(menu)] == menu,
{
}

/// Where a menu begins, in pixels.
pub fn windows_menu_left(menu: WindowsMenu) -> (r: u32)
    ensures
        r == left_of(menu_position(menu)),
{
    proof {
        reveal_with_fuel(left_of, 7);
    }
    match menu {
        WindowsMenu::File => WINDOWS_BRAND_WIDTH,
        WindowsMenu::Edit => WINDOWS_BRAND_WIDTH + 43,
        WindowsMenu::Terminal => WINDOWS_BRAND_WIDTH + 86,
        WindowsMenu::View => WINDOWS_BRAND_WIDTH + 152,
        WindowsMenu::Window => WINDOWS_BRAND_WIDTH + 197,
        WindowsMenu::Help => WINDOWS_BRAND_WIDTH + 261,
    }
}

/// How wide a text is about, in quarters of a pixel: 7.25 pixels for a character of ASCII, 12 for
/// any other.
pub open spec fn text_quarters(text: Seq<char>) -> nat
    decreases text.len(),
{
    if text.len() == 0 {
        0
    } else {
        text_quarters(text.drop_last()) + if (text.last() as u32) < 128 {
            29nat
        } else {
            48nat
        }
    }
}

/// How wide a text is about, in quarters of a pixel.
pub fn estimated_windows_menu_text_width(text: &str) -> (r: u128)
    ensures
        r == text_quarters(text@),
        r <= 48 * text@.len(),
{
    let chars = chars_of(text);
    let mut width: u128 = 0;
    let mut i: usize = 0;
    assert(text@.take(0) =~= Seq::<char>::empty());
    while i < chars.len()
        invariant
            i <= chars@.len(),
            chars@ == text@,
            width == text_quarters(text@.take(i as int)),
            width <= 48 * i,
            chars@.len() == chars.len(),
        decreases chars@.len() - i,
    {
        proof {
            assert(text@.take(i + 1).drop_last() =~= text@.take(i as int));
            assert(text@.take(i + 1).last() == chars@[i as int]);
        }
        let c: u32 = chars[i] as u32;
        width = width + if c < 128 {
            29
        } else {
            48
        };
        i = i + 1;
    }
    assert(text@.take(i as int) =~= text@);
    width
}

/// How much room an entry with this label takes, in quarters of a pixel.
pub open spec fn entry_quarters(entry: WindowsMenuEntry, label: Seq<char>) -> nat {
    match entry {
        WindowsMenuEntry::Item { shortcut, .. } => 112 + text_quarters(label) + if shortcut@.len()
            == 0 {
            0
        } else {
            80 + text_quarters(shortcut@)
        },
        WindowsMenuEntry::Separator => 0,
    }
}

/// The most room that an entry takes, in quarters of a pixel, and no less than the smallest menu.
pub open spec fn widest_quarters(entries: Seq<WindowsMenuEntry>, labels: Seq<Seq<char>>) -> nat
    decreases entries.len(),
{
    if entries.len() == 0 {
        4 * WINDOWS_MENU_MIN_WIDTH as nat
    } else {
        let before = widest_quarters(entries.drop_last(), labels.drop_last());
        let last = entry_quarters(entries.last(), labels.last());
        if last > before {
            last
        } else {
            before
        }
    }
}

/// How wide a menu is, in pixels, with these labels for its entries.
pub fn windows_menu_popup_width(entries: &Vec<WindowsMenuEntry>, labels: &Vec<String>) -> (r: u128)
    requires
        entries@.len() == labels@.len(),
    ensures
        r == (widest_quarters(entries@, views(labels@)) + 3) / 4,
{
    let mut widest: u128 = 4 * WINDOWS_MENU_MIN_WIDTH;
    let mut i: usize = 0;
    let ghost all = views(labels@);
    assert(entries@.take(0) =~= Seq::<WindowsMenuEntry>::empty());
    while i < entries.len()
        invariant
            i <= entries@.len(),
            entries@.len() == labels@.len(),
            all == views(labels@),
            widest == widest_quarters(entries@.take(i as int), all.take(i as int)),
            widest <= 96 * 0x1_0000_0000_0000_0000 + 192,
        decreases entries@.len() - i,
    {
        proof {
            assert(entries@.take(i + 1).drop_last() =~= entries@.take(i as int));
            assert(entries@.take(i + 1).last() == entries@[i as int]);
            assert(all.take(i + 1).drop_last() =~= all.take(i as int));
            assert(all.take(i + 1).last() == labels@[i as int]@);
        }
        match entries[i] {
            WindowsMenuEntry::Item { shortcut, .. } => {
                let label_width: u128 = text_room(labels[i].as_str());
                let mut width: u128 = 112 + label_width;
                if !text_is_empty(shortcut) {
                    let shortcut_width: u128 = text_room(shortcut);
                    width = width + 80 + shortcut_width;
                }
                if width > widest {
                    widest = width;
                }
            },
            WindowsMenuEntry::Separator => (),
        }
        i = i + 1;
    }
    proof {
        assert(entries@.take(i as int) =~= entries@);
        assert(all.take(i as int) =~= all);
    }
    (widest + 3) / 4
}

/// How wide a text is about, in quarters of a pixel, and what that comes to at most.
fn text_room(text: &str) -> (r: u128)
    ensures
        r == text_quarters(text@),
        r <= 48 * 0x1_0000_0000_0000_0000,
{
    let chars = chars_of(text);
    assert(text@.len() == chars.len());
    estimated_windows_menu_text_width(text)
}

/// Every entry of a menu has the room that it takes.
pub proof fn menu_holds_its_entries(
    entries: Seq<WindowsMenuEntry>,
    labels: Seq<Seq<char>>,
    i: int,
)
    requires
        entries.len() == labels.len(),
        0 <= i < entries.len(),
    ensures
        entry_quarters(entries[i], labels[i]) <= widest_quarters(entries, labels),
        4 * WINDOWS_MENU_MIN_WIDTH <= widest_quarters(entries, labels),
    decreases entries.len(),
{
    if i < entries.len() - 1 {
        menu_holds_its_entries(entries.drop_last(), labels.drop_last(), i);
        assert(entries.drop_last()[i] == entries[i]);
        assert(labels.drop_last()[i] == labels[i]);
    } else {
        smallest_menu(entries.drop_last(), labels.drop_last());
    }
}

/// A menu is no narrower than the smallest.
proof fn smallest_menu(entries: Seq<WindowsMenuEntry>, labels: Seq<Seq<char>>)
    ensures
        4 * WINDOWS_MENU_MIN_WIDTH <= widest_quarters(entries, labels),
    decreases entries.len(),
{
    if entries.len() > 0 {
        smallest_menu(entries.drop_last(), labels.drop_last());
    }
}

/// A session can be disconnected by the menu only while it is connected or on its way; what opens
/// or connects a server needs a selected profile; and what shows, splits, resets or closes a
/// session needs one that is active.
pub proof fn commands_need_what_they_act_on(
    profile_selected: bool,
    active: Option<SessionState>,
)
    ensures
        is_enabled(WindowsMenuCommand::DisconnectActiveSession, profile_selected, active)
            <==> active == Some(SessionState::Connecting) || active == Some(
            SessionState::Authenticating,
        ) || active == Some(SessionState::Connected),
        is_enabled(WindowsMenuCommand::NewRemoteTerminal, profile_selected, active)
            <==> profile_selected,
        is_enabled(WindowsMenuCommand::ConnectSelectedProfile, profile_selected, active)
            <==> profile_selected,
        is_enabled(WindowsMenuCommand::SplitHorizontal, profile_selected, active)
            <==> active is Some,
        is_enabled(WindowsMenuCommand::SplitVertical, profile_selected, active) <==> active is Some,
        is_enabled(WindowsMenuCommand::ShowTerminalView, profile_selected, active)
            <==> active is Some,
        is_enabled(WindowsMenuCommand::ShowFilesView, profile_selected, active) <==> active is Some,
        is_enabled(WindowsMenuCommand::ResetActiveTerminal, profile_selected, active)
            <==> active is Some,
        is_enabled(WindowsMenuCommand::CloseActivePane, profile_selected, active)
            <==> active is Some,
        is_enabled(WindowsMenuCommand::CloseActiveTab, profile_selected, active)
            <==> active is Some,
{
}

/// While a terminal has the keyboard no command on texts reaches the file editor or a field, and
/// while none has, no command reaches a terminal.
pub proof fn texts_are_edited_where_the_keyboard_is(command: EditCommand, terminal_focused: bool)
    ensures
        terminal_focused ==> edit_target(command, terminal_focused) == EditTarget::Terminal
            || edit_target(command, terminal_focused) == EditTarget::Nobody,
        !terminal_focused ==> edit_target(command, terminal_focused) == EditTarget::FileEditor
            || edit_target(command, terminal_focused) == EditTarget::FieldsAndEditor,
        edit_target(command, terminal_focused) == EditTarget::Terminal <==> terminal_focused && (
        command == EditCommand::Copy || command == EditCommand::Paste || command
            == EditCommand::SelectAll),
        edit_target(command, terminal_focused) == EditTarget::FileEditor <==> !terminal_focused && (
        command == EditCommand::Undo || command == EditCommand::Redo),
{
}

} // verus!
