//! The settings that the user can change, and the menus that they are changed with.
use crate::browser::SftpAvailability;
use crate::credentials::CredentialPromptKind;
use crate::number::{decimal, u64_text};
use crate::sequences::{first_index, first_index_is};
use crate::session::{Session, TerminalSessionKind};
use crate::sftp_flow::SftpCreateKind;
use crate::text::{text_eq, views};
use vstd::prelude::*;
use vstd::string::*;

verus! {

/// Which language the program speaks.
#[derive(Clone, Copy, Debug, PartialEq, Eq, Structural)]
pub enum LanguageMode {
    System,
    EnUs,
    ZhCn,
}

/// Which colours the program has.
#[derive(Clone, Copy, Debug, PartialEq, Eq, Structural)]
pub enum ThemeMode {
    System,
    Light,
    Dark,
}

/// Where the tabs stand.
#[derive(Clone, Copy, Debug, PartialEq, Eq, Structural)]
pub enum TabLayout {
    Horizontal,
    Vertical,
}

/// A setting with a menu.
#[derive(Clone, Copy, Debug, PartialEq, Eq, Structural)]
pub enum SettingsSelector {
    Language,
    Theme,
    TabLayout,
    TerminalFont,
    TerminalFontSize,
    TransferRate,
    ParallelTransfers,
}

/// The value of a setting. Rates are in MiB per second, 0 for no limit.
#[derive(Clone, Copy, Debug, PartialEq, Eq, Structural)]
pub enum SettingsValue {
    Language(LanguageMode),
    Theme(ThemeMode),
    TabLayout(TabLayout),
    TerminalFontSize(u16),
    TransferRate(u32),
    ParallelTransfers(u8),
}

/// An entry of a setting's menu.
#[derive(Clone, Copy, Debug, PartialEq, Eq)]
pub struct SettingsOption {
    pub label: &'static str,
    pub value: SettingsValue,
}

/// What a setting is shown as.
#[derive(Debug, PartialEq, Eq)]
pub enum SettingsLabel {
    /// The text of this key, in the user's language.
    Key(&'static str),
    Text(String),
}

/// The languages to choose from.
pub open spec fn language_options() -> Seq<SettingsOption> {
    seq![
        SettingsOption {
            label: "Follow System",
            value: SettingsValue::Language(LanguageMode::System),
        },
        SettingsOption { label: "English", value: SettingsValue::Language(LanguageMode::EnUs) },
        SettingsOption { label: "简体中文", value: SettingsValue::Language(LanguageMode::ZhCn) },
    ]
}

/// The languages to choose from.
pub fn language_setting_options() -> (r: Vec<SettingsOption>)
    ensures
        r@ == language_options(),
{
    let mut options: Vec<SettingsOption> = Vec::new();
    options.push(
        SettingsOption {
            label: "Follow System",
            value: SettingsValue::Language(LanguageMode::System),
        },
    );
    options.push(
        SettingsOption { label: "English", value: SettingsValue::Language(LanguageMode::EnUs) },
    );
    options.push(
        SettingsOption { label: "简体中文", value: SettingsValue::Language(LanguageMode::ZhCn) },
    );
    options
}

/// The themes to choose from.
pub open spec fn theme_options() -> Seq<SettingsOption> {
    seq![
        SettingsOption { label: "System", value: SettingsValue::Theme(ThemeMode::System) },
        SettingsOption { label: "Light", value: SettingsValue::Theme(ThemeMode::Light) },
        SettingsOption { label: "Dark", value: SettingsValue::Theme(ThemeMode::Dark) },
    ]
}

/// The themes to choose from.
pub fn theme_setting_options() -> (r: Vec<SettingsOption>)
    ensures
        r@ == theme_options(),
{
    let mut options: Vec<SettingsOption> = Vec::new();
    options.push(
        SettingsOption { label: "System", value: SettingsValue::Theme(ThemeMode::System) },
    );
    options.push(SettingsOption { label: "Light", value: SettingsValue::Theme(ThemeMode::Light) });
    options.push(SettingsOption { label: "Dark", value: SettingsValue::Theme(ThemeMode::Dark) });
    options
}

/// The layouts of tabs to choose from.
pub open spec fn tab_layout_options() -> Seq<SettingsOption> {
    seq![
        SettingsOption {
            label: "Horizontal",
            value: SettingsValue::TabLayout(TabLayout::Horizontal),
        },
        SettingsOption { label: "Vertical", value: SettingsValue::TabLayout(TabLayout::Vertical) },
    ]
}

/// The layouts of tabs to choose from.
pub fn tab_layout_setting_options() -> (r: Vec<SettingsOption>)
    ensures
        r@ == tab_layout_options(),
{
    let mut options: Vec<SettingsOption> = Vec::new();
    options.push(
        SettingsOption {
            label: "Horizontal",
            value: SettingsValue::TabLayout(TabLayout::Horizontal),
        },
    );
    options.push(
        SettingsOption { label: "Vertical", value: SettingsValue::TabLayout(TabLayout::Vertical) },
    );
    options
}

/// The sizes of the terminal's font to choose from.
pub open spec fn terminal_font_size_options() -> Seq<SettingsOption> {
    seq![
        SettingsOption { label: "8 pt", value: SettingsValue::TerminalFontSize(8) },
        SettingsOption { label: "9 pt", value: SettingsValue::TerminalFontSize(9) },
        SettingsOption { label: "10 pt", value: SettingsValue::TerminalFontSize(10) },
        SettingsOption { label: "11 pt", value: SettingsValue::TerminalFontSize(11) },
        SettingsOption { label: "12 pt", value: SettingsValue::TerminalFontSize(12) },
        SettingsOption { label: "13 pt", value: SettingsValue::TerminalFontSize(13) },
        SettingsOption { label: "14 pt", value: SettingsValue::TerminalFontSize(14) },
        SettingsOption { label: "15 pt", value: SettingsValue::TerminalFontSize(15) },
        SettingsOption { label: "16 pt", value: SettingsValue::TerminalFontSize(16) },
        SettingsOption { label: "17 pt", value: SettingsValue::TerminalFontSize(17) },
        SettingsOption { label: "18 pt", value: SettingsValue::TerminalFontSize(18) },
        SettingsOption { label: "20 pt", value: SettingsValue::TerminalFontSize(20) },
        SettingsOption { label: "22 pt", value: SettingsValue::TerminalFontSize(22) },
        SettingsOption { label: "24 pt", value: SettingsValue::TerminalFontSize(24) },
        SettingsOption { label: "26 pt", value: SettingsValue::TerminalFontSize(26) },
        SettingsOption { label: "28 pt", value: SettingsValue::TerminalFontSize(28) },
        SettingsOption { label: "32 pt", value: SettingsValue::TerminalFontSize(32) },
    ]
}

/// The sizes of the terminal's font to choose from.
pub fn terminal_font_size_setting_options() -> (r: Vec<SettingsOption>)
    ensures
        r@ == terminal_font_size_options(),
{
    let mut options: Vec<SettingsOption> = Vec::new();
    options.push(SettingsOption { label: "8 pt", value: SettingsValue::TerminalFontSize(8) });
    options.push(SettingsOption { label: "9 pt", value: SettingsValue::TerminalFontSize(9) });
    options.push(SettingsOption { label: "10 pt", value: SettingsValue::TerminalFontSize(10) });
    options.push(SettingsOption { label: "11 pt", value: SettingsValue::TerminalFontSize(11) });
    options.push(SettingsOption { label: "12 pt", value: SettingsValue::TerminalFontSize(12) });
    options.push(SettingsOption { label: "13 pt", value: SettingsValue::TerminalFontSize(13) });
    options.push(SettingsOption { label: "14 pt", value: SettingsValue::TerminalFontSize(14) });
    options.push(SettingsOption { label: "15 pt", value: SettingsValue::TerminalFontSize(15) });
    options.push(SettingsOption { label: "16 pt", value: SettingsValue::TerminalFontSize(16) });
    options.push(SettingsOption { label: "17 pt", value: SettingsValue::TerminalFontSize(17) });
    options.push(SettingsOption { label: "18 pt", value: SettingsValue::TerminalFontSize(18) });
    options.push(SettingsOption { label: "20 pt", value: SettingsValue::TerminalFontSize(20) });
    options.push(SettingsOption { label: "22 pt", value: SettingsValue::TerminalFontSize(22) });
    options.push(SettingsOption { label: "24 pt", value: SettingsValue::TerminalFontSize(24) });
    options.push(SettingsOption { label: "26 pt", value: SettingsValue::TerminalFontSize(26) });
    options.push(SettingsOption { label: "28 pt", value: SettingsValue::TerminalFontSize(28) });
    options.push(SettingsOption { label: "32 pt", value: SettingsValue::TerminalFontSize(32) });
    options
}

/// The limits on transfers to choose from.
pub open spec fn transfer_rate_options() -> Seq<SettingsOption> {
    seq![
        SettingsOption { label: "Unlimited", value: SettingsValue::TransferRate(0) },
        SettingsOption { label: "5 MiB/s", value: SettingsValue::TransferRate(5) },
        SettingsOption { label: "20 MiB/s", value: SettingsValue::TransferRate(20) },
        SettingsOption { label: "100 MiB/s", value: SettingsValue::TransferRate(100) },
    ]
}

/// The limits on transfers to choose from.
pub fn transfer_rate_setting_options() -> (r: Vec<SettingsOption>)
    ensures
        r@ == transfer_rate_options(),
{
    let mut options: Vec<SettingsOption> = Vec::new();
    options.push(SettingsOption { label: "Unlimited", value: SettingsValue::TransferRate(0) });
    options.push(SettingsOption { label: "5 MiB/s", value: SettingsValue::TransferRate(5) });
    options.push(SettingsOption { label: "20 MiB/s", value: SettingsValue::TransferRate(20) });
    options.push(SettingsOption { label: "100 MiB/s", value: SettingsValue::TransferRate(100) });
    options
}

/// How many transfers at once there are to choose from.
pub open spec fn parallel_transfer_options() -> Seq<SettingsOption> {
    seq![
        SettingsOption { label: "1", value: SettingsValue::ParallelTransfers(1) },
        SettingsOption { label: "2", value: SettingsValue::ParallelTransfers(2) },
        SettingsOption { label: "4", value: SettingsValue::ParallelTransfers(4) },
        SettingsOption { label: "8", value: SettingsValue::ParallelTransfers(8) },
    ]
}

/// How many transfers at once there are to choose from.
pub fn parallel_transfer_setting_options() -> (r: Vec<SettingsOption>)
    ensures
        r@ == parallel_transfer_options(),
{
    let mut options: Vec<SettingsOption> = Vec::new();
    options.push(SettingsOption { label: "1", value: SettingsValue::ParallelTransfers(1) });
    options.push(SettingsOption { label: "2", value: SettingsValue::ParallelTransfers(2) });
    options.push(SettingsOption { label: "4", value: SettingsValue::ParallelTransfers(4) });
    options.push(SettingsOption { label: "8", value: SettingsValue::ParallelTransfers(8) });
    options
}

impl SettingsSelector {
    /// The name of the control.
    pub fn element_id(self) -> (r: &'static str)
        ensures
            r == match self {
                SettingsSelector::Language => "settings-language-selector",
                SettingsSelector::Theme => "settings-theme-selector",
                SettingsSelector::TabLayout => "settings-tab-layout-selector",
                SettingsSelector::TerminalFont => "settings-terminal-font-selector",
                SettingsSelector::TerminalFontSize => "settings-terminal-font-size-selector",
                SettingsSelector::TransferRate => "settings-transfer-rate-selector",
                SettingsSelector::ParallelTransfers => "settings-parallel-transfers-selector",
            },
    {
        match self {
            SettingsSelector::Language => "settings-language-selector",
            SettingsSelector::Theme => "settings-theme-selector",
            SettingsSelector::TabLayout => "settings-tab-layout-selector",
            SettingsSelector::TerminalFont => "settings-terminal-font-selector",
            SettingsSelector::TerminalFontSize => "settings-terminal-font-size-selector",
            SettingsSelector::TransferRate => "settings-transfer-rate-selector",
            SettingsSelector::ParallelTransfers => "settings-parallel-transfers-selector",
        }
    }

    /// How wide the control may be, in pixels.
    pub fn control_width(self) -> (r: u32)
        ensures
            r == match self {
                SettingsSelector::Language => 132u32,
                SettingsSelector::Theme => 92u32,
                SettingsSelector::TabLayout => 104u32,
                SettingsSelector::TerminalFont => 180u32,
                SettingsSelector::TerminalFontSize => 72u32,
                SettingsSelector::TransferRate => 104u32,
                SettingsSelector::ParallelTransfers => 56u32,
            },
    {
        match self {
            SettingsSelector::Language => 132,
            SettingsSelector::Theme => 92,
            SettingsSelector::TabLayout => 104,
            SettingsSelector::TerminalFont => 180,
            SettingsSelector::TerminalFontSize => 72,
            SettingsSelector::TransferRate => 104,
            SettingsSelector::ParallelTransfers => 56,
        }
    }

    /// How wide the menu is, in pixels.
    pub fn menu_width(self) -> (r: u32)
        ensures
            r == match self {
                SettingsSelector::Language => 148u32,
                SettingsSelector::Theme => 104u32,
                SettingsSelector::TabLayout => 120u32,
                SettingsSelector::TerminalFont => 220u32,
                SettingsSelector::TerminalFontSize => 88u32,
                SettingsSelector::TransferRate => 120u32,
                SettingsSelector::ParallelTransfers => 72u32,
            },
    {
        match self {
            SettingsSelector::Language => 148,
            SettingsSelector::Theme => 104,
            SettingsSelector::TabLayout => 120,
            SettingsSelector::TerminalFont => 220,
            SettingsSelector::TerminalFontSize => 88,
            SettingsSelector::TransferRate => 120,
            SettingsSelector::ParallelTransfers => 72,
        }
    }

    /// The entries of the menu. Those of the fonts come from what is installed.
    pub open spec fn entries(self) -> Seq<SettingsOption> {
        match self {
            SettingsSelector::Language => language_options(),
            SettingsSelector::Theme => theme_options(),
            SettingsSelector::TabLayout => tab_layout_options(),
            SettingsSelector::TerminalFont => Seq::empty(),
            SettingsSelector::TerminalFontSize => terminal_font_size_options(),
            SettingsSelector::TransferRate => transfer_rate_options(),
            SettingsSelector::ParallelTransfers => parallel_transfer_options(),
        }
    }

    /// The entries of the menu.
    pub fn options(self) -> (r: Vec<SettingsOption>)
        ensures
            r@ == self.entries(),
    {
        match self {
            SettingsSelector::Language => language_setting_options(),
            SettingsSelector::Theme => theme_setting_options(),
            SettingsSelector::TabLayout => tab_layout_setting_options(),
            SettingsSelector::TerminalFont => Vec::new(),
            SettingsSelector::TerminalFontSize => terminal_font_size_setting_options(),
            SettingsSelector::TransferRate => transfer_rate_setting_options(),
            SettingsSelector::ParallelTransfers => parallel_transfer_setting_options(),
        }
    }
}

/// The key of the text that a value is shown as; none where it is shown as a number.
pub open spec fn value_key(value: SettingsValue) -> Option<&'static str> {
    match value {
        SettingsValue::Language(LanguageMode::System) => Some("settings-language-system"),
        SettingsValue::Language(LanguageMode::EnUs) => Some("settings-language-english"),
        SettingsValue::Language(LanguageMode::ZhCn) => Some("settings-language-chinese"),
        SettingsValue::Theme(ThemeMode::System) => Some("common-system"),
        SettingsValue::Theme(ThemeMode::Light) => Some("common-light"),
        SettingsValue::Theme(ThemeMode::Dark) => Some("common-dark"),
        SettingsValue::TabLayout(TabLayout::Horizontal) => Some("common-horizontal"),
        SettingsValue::TabLayout(TabLayout::Vertical) => Some("common-vertical"),
        SettingsValue::TransferRate(rate) => if rate == 0 {
            Some("common-unlimited")
        } else {
            None
        },
        SettingsValue::TerminalFontSize(_) | SettingsValue::ParallelTransfers(_) => None,
    }
}

/// The key of the text that a value is shown as.
fn key_of_value(value: SettingsValue) -> (r: Option<&'static str>)
    ensures
        r == value_key(value),
{
    match value {
        SettingsValue::Language(LanguageMode::System) => Some("settings-language-system"),
        SettingsValue::Language(LanguageMode::EnUs) => Some("settings-language-english"),
        SettingsValue::Language(LanguageMode::ZhCn) => Some("settings-language-chinese"),
        SettingsValue::Theme(ThemeMode::System) => Some("common-system"),
        SettingsValue::Theme(ThemeMode::Light) => Some("common-light"),
        SettingsValue::Theme(ThemeMode::Dark) => Some("common-dark"),
        SettingsValue::TabLayout(TabLayout::Horizontal) => Some("common-horizontal"),
        SettingsValue::TabLayout(TabLayout::Vertical) => Some("common-vertical"),
        SettingsValue::TransferRate(rate) => if rate == 0 {
            Some("common-unlimited")
        } else {
            None
        },
        SettingsValue::TerminalFontSize(_) | SettingsValue::ParallelTransfers(_) => None,
    }
}

/// The number that a value is shown as, with its unit.
pub open spec fn value_text(value: SettingsValue) -> Seq<char> {
    match value {
        SettingsValue::TerminalFontSize(size) => decimal(size as nat) + " pt"@,
        SettingsValue::TransferRate(rate) => decimal(rate as nat) + " MiB/s"@,
        SettingsValue::ParallelTransfers(count) => decimal(count as nat),
        _ => Seq::empty(),
    }
}

/// The label shows this text where the value has no key, else the key's.
pub open spec fn is_label(
    label: SettingsLabel,
    key: Option<&'static str>,
    text: Seq<char>,
) -> bool {
    match (key, label) {
        (Some(key), SettingsLabel::Key(shown)) => shown == key,
        (None, SettingsLabel::Text(shown)) => shown@ == text,
        _ => false,
    }
}

/// What an entry of a menu is shown as.
pub fn settings_option_label(option: &SettingsOption) -> (r: SettingsLabel)
    ensures
        is_label(r, value_key(option.value), option.label@),
{
    match key_of_value(option.value) {
        Some(key) => SettingsLabel::Key(key),
        None => SettingsLabel::Text(option.label.to_string()),
    }
}

/// The entries of the menus are labelled with what their values are shown as.
pub proof fn entries_read_like_values(selector: SettingsSelector, i: int)
    requires
        0 <= i < selector.entries().len(),
        value_key(selector.entries()[i].value) is None,
    ensures
        selector.entries()[i].label@ == value_text(selector.entries()[i].value),
{
    reveal_with_fuel(decimal, 4);
    reveal_strlit("8 pt");
    reveal_strlit("9 pt");
    reveal_strlit("10 pt");
    reveal_strlit("11 pt");
    reveal_strlit("12 pt");
    reveal_strlit("13 pt");
    reveal_strlit("14 pt");
    reveal_strlit("15 pt");
    reveal_strlit("16 pt");
    reveal_strlit("17 pt");
    reveal_strlit("18 pt");
    reveal_strlit("20 pt");
    reveal_strlit("22 pt");
    reveal_strlit("24 pt");
    reveal_strlit("26 pt");
    reveal_strlit("28 pt");
    reveal_strlit("32 pt");
    reveal_strlit("5 MiB/s");
    reveal_strlit("20 MiB/s");
    reveal_strlit("100 MiB/s");
    reveal_strlit("1");
    reveal_strlit("2");
    reveal_strlit("4");
    reveal_strlit("8");
    reveal_strlit(" pt");
    reveal_strlit(" MiB/s");
    let option = selector.entries()[i];
    assert(option.label@ =~= value_text(option.value));
}

/// Every value of a setting with fixed choices stands in its menu, once.
pub proof fn menus_hold_every_choice(
    language: LanguageMode,
    theme: ThemeMode,
    layout: TabLayout,
)
    ensures
        exists|i: int|
            0 <= i < language_options().len() && (#[trigger] language_options()[i]).value
                == SettingsValue::Language(language),
        exists|i: int|
            0 <= i < theme_options().len() && (#[trigger] theme_options()[i]).value
                == SettingsValue::Theme(theme),
        exists|i: int|
            0 <= i < tab_layout_options().len() && (#[trigger] tab_layout_options()[i]).value
                == SettingsValue::TabLayout(layout),
{
    let l: int = match language {
        LanguageMode::System => 0,
        LanguageMode::EnUs => 1,
        LanguageMode::ZhCn => 2,
    };
    let t: int = match theme {
        ThemeMode::System => 0,
        ThemeMode::Light => 1,
        ThemeMode::Dark => 2,
    };
    let y: int = match layout {
        TabLayout::Horizontal => 0,
        TabLayout::Vertical => 1,
    };
    assert(language_options()[l].value == SettingsValue::Language(language));
    assert(theme_options()[t].value == SettingsValue::Theme(theme));
    assert(tab_layout_options()[y].value == SettingsValue::TabLayout(layout));
}

/// No two entries of a menu have the same value.
pub proof fn entries_differ(selector: SettingsSelector, i: int, j: int)
    requires
        0 <= i < j < selector.entries().len(),
    ensures
        selector.entries()[i].value != selector.entries()[j].value,
{
}

/// At most this many rows of a menu are seen at once.
pub const SELECT_MENU_MAX_VISIBLE_ROWS: usize = 9;

/// The height of a row of a menu, in pixels.
pub const SELECT_MENU_ROW_HEIGHT: u64 = 28;

/// How many rows of a menu are seen at once.
pub open spec fn visible_rows(option_count: usize) -> usize {
    if option_count < SELECT_MENU_MAX_VISIBLE_ROWS {
        option_count
    } else {
        SELECT_MENU_MAX_VISIBLE_ROWS
    }
}

/// The first row that is seen when a menu opens: the selected row is in the middle, unless the
/// menu begins or ends before.
pub open spec fn first_visible_row(selected_index: usize, option_count: usize) -> int {
    let half = visible_rows(option_count) as int / 2;
    let wanted = if selected_index < half {
        0
    } else {
        selected_index - half
    };
    let last = option_count - visible_rows(option_count);
    if wanted < last {
        wanted
    } else {
        last
    }
}

/// How high a menu is, in pixels. A menu without entries has the height of one.
pub fn select_menu_height(option_count: usize) -> (r: u64)
    ensures
        r == (if option_count == 0 {
            1
        } else {
            visible_rows(option_count) as int
        }) * SELECT_MENU_ROW_HEIGHT + 8,
{
    let rows: u64 = if option_count == 0 {
        1
    } else if option_count < SELECT_MENU_MAX_VISIBLE_ROWS {
        option_count as u64
    } else {
        SELECT_MENU_MAX_VISIBLE_ROWS as u64
    };
    rows * SELECT_MENU_ROW_HEIGHT + 8
}

/// How far a menu is scrolled when it opens, in pixels.
pub fn select_menu_scroll_offset(selected_index: usize, option_count: usize) -> (r: u128)
    ensures
        r == first_visible_row(selected_index, option_count) * SELECT_MENU_ROW_HEIGHT,
{
    let visible: usize = if option_count < SELECT_MENU_MAX_VISIBLE_ROWS {
        option_count
    } else {
        SELECT_MENU_MAX_VISIBLE_ROWS
    };
    let half: usize = visible / 2;
    let wanted: usize = if selected_index < half {
        0
    } else {
        selected_index - half
    };
    let last: usize = option_count - visible;
    let first: usize = if wanted < last {
        wanted
    } else {
        last
    };
    first as u128 * SELECT_MENU_ROW_HEIGHT as u128
}

/// The selected row is seen when the menu opens, and the rows that are seen are there.
pub proof fn selected_row_is_seen(selected_index: usize, option_count: usize)
    requires
        selected_index < option_count,
    ensures
        0 <= first_visible_row(selected_index, option_count) <= selected_index,
        selected_index < first_visible_row(selected_index, option_count) + visible_rows(
            option_count,
        ) <= option_count,
{
}

/// The settings and the menu that is open.
#[derive(Debug)]
pub struct SettingsState {
    pub language_mode: LanguageMode,
    pub theme_mode: ThemeMode,
    pub tab_layout: TabLayout,
    pub terminal_font_family: String,
    pub terminal_font_size: u16,
    pub rate_limit_mib_per_second: u32,
    pub max_parallel_transfers: u8,
    pub open_selector: Option<SettingsSelector>,
}

/// The settings that are numbers.
#[derive(Clone, Copy, Debug, PartialEq, Eq, Structural)]
pub struct SettingsNumbers {
    pub terminal_font_size: u16,
    pub rate_limit_mib_per_second: u32,
    pub max_parallel_transfers: u8,
}

/// How a menu that opens is scrolled.
#[derive(Clone, Copy, Debug, PartialEq, Eq, Structural)]
pub enum SelectorScroll {
    /// The menu has closed, or nothing in it is selected.
    Nothing,
    /// This row is brought to the middle.
    Center(usize),
    /// The menu is scrolled by this many pixels.
    Offset(u128),
}

/// What changing a setting takes besides.
#[derive(Clone, Copy, Debug, PartialEq, Eq, Structural)]
pub enum SettingsChange {
    /// Every text is to be read anew in the language.
    Language,
    /// The colours are to be resolved anew.
    Theme,
    /// Nothing more.
    Plain,
    /// Transfers have a new limit.
    RateLimit,
    /// Transfers that wait may start.
    StartTransfers,
}

/// Having the value `value`.
pub open spec fn has_value(value: SettingsValue) -> spec_fn(SettingsOption) -> bool {
    |option: SettingsOption| option.value == value
}

/// How a menu is scrolled in which `position` of `count` rows is selected; a position behind the
/// last row where none is.
pub open spec fn scroll_to(position: int, count: usize) -> SelectorScroll {
    if position >= count {
        SelectorScroll::Nothing
    } else if count > SELECT_MENU_MAX_VISIBLE_ROWS {
        SelectorScroll::Center(position as usize)
    } else {
        SelectorScroll::Offset(
            (first_visible_row(position as usize, count) * SELECT_MENU_ROW_HEIGHT) as u128,
        )
    }
}

/// How a menu is scrolled.
fn scroll_for(position: usize, count: usize) -> (r: SelectorScroll)
    ensures
        r == scroll_to(position as int, count),
{
    if position >= count {
        SelectorScroll::Nothing
    } else if count > SELECT_MENU_MAX_VISIBLE_ROWS {
        SelectorScroll::Center(position)
    } else {
        SelectorScroll::Offset(select_menu_scroll_offset(position, count))
    }
}

/// Being the text `text`.
pub open spec fn is_text(text: Seq<char>) -> spec_fn(Seq<char>) -> bool {
    |other: Seq<char>| other == text
}

impl SettingsState {
    /// The value of a setting. The font has none of these values.
    pub open spec fn value_of(self, selector: SettingsSelector) -> SettingsValue
        recommends
            selector != SettingsSelector::TerminalFont,
    {
        match selector {
            SettingsSelector::Language => SettingsValue::Language(self.language_mode),
            SettingsSelector::Theme => SettingsValue::Theme(self.theme_mode),
            SettingsSelector::TabLayout => SettingsValue::TabLayout(self.tab_layout),
            SettingsSelector::TransferRate => SettingsValue::TransferRate(
                self.rate_limit_mib_per_second,
            ),
            SettingsSelector::ParallelTransfers => SettingsValue::ParallelTransfers(
                self.max_parallel_transfers,
            ),
            SettingsSelector::TerminalFont | SettingsSelector::TerminalFontSize => {
                SettingsValue::TerminalFontSize(self.terminal_font_size)
            },
        }
    }

    /// The value of a setting other than the font.
    pub fn settings_value(&self, selector: SettingsSelector) -> (r: SettingsValue)
        requires
            selector != SettingsSelector::TerminalFont,
        ensures
            r == self.value_of(selector),
    {
        match selector {
            SettingsSelector::Language => SettingsValue::Language(self.language_mode),
            SettingsSelector::Theme => SettingsValue::Theme(self.theme_mode),
            SettingsSelector::TabLayout => SettingsValue::TabLayout(self.tab_layout),
            SettingsSelector::TransferRate => SettingsValue::TransferRate(
                self.rate_limit_mib_per_second,
            ),
            SettingsSelector::ParallelTransfers => SettingsValue::ParallelTransfers(
                self.max_parallel_transfers,
            ),
            SettingsSelector::TerminalFont | SettingsSelector::TerminalFontSize => {
                SettingsValue::TerminalFontSize(self.terminal_font_size)
            },
        }
    }

    /// What a setting is shown as.
    pub fn settings_value_label(&self, selector: SettingsSelector) -> (r: SettingsLabel)
        ensures
            if selector == SettingsSelector::TerminalFont {
                r == SettingsLabel::Text(self.terminal_font_family)
            } else {
                is_label(r, value_key(self.value_of(selector)), value_text(self.value_of(selector)))
            },
    {
        if selector == SettingsSelector::TerminalFont {
            return SettingsLabel::Text(self.terminal_font_family.clone());
        }
        let value = self.settings_value(selector);
        match key_of_value(value) {
            Some(key) => return SettingsLabel::Key(key),
            None => (),
        }
        match value {
            SettingsValue::TerminalFontSize(size) => {
                let mut text = u64_text(size as u64);
                text.append(" pt");
                SettingsLabel::Text(text)
            },
            SettingsValue::TransferRate(rate) => {
                let mut text = u64_text(rate as u64);
                text.append(" MiB/s");
                SettingsLabel::Text(text)
            },
            SettingsValue::ParallelTransfers(count) => SettingsLabel::Text(u64_text(count as u64)),
            _ => SettingsLabel::Text(String::new()),
        }
    }

    /// The position of the selected row in a setting's menu, and how many rows there are.
    pub open spec fn selected_row(self, selector: SettingsSelector, families: Seq<Seq<char>>) -> (
        int,
        int,
    ) {
        if selector == SettingsSelector::TerminalFont {
            (first_index(families, is_text(self.terminal_font_family@)), families.len() as int)
        } else {
            (
                first_index(selector.entries(), has_value(self.value_of(selector))),
                selector.entries().len() as int,
            )
        }
    }

    /// Opens a setting's menu, or closes it; says how the menu is scrolled. `families` are the
    /// fonts to choose from.
    pub fn toggle_settings_selector(
        &mut self,
        selector: SettingsSelector,
        families: &Vec<String>,
    ) -> (r: SelectorScroll)
        ensures
            ({
                let closes = old(self).open_selector == Some(selector);
                let row = old(self).selected_row(selector, views(families@));
                &&& *final(self) == (SettingsState {
                    open_selector: if closes {
                        None
                    } else {
                        Some(selector)
                    },
                    ..*old(self)
                })
                &&& r == if closes {
                    SelectorScroll::Nothing
                } else {
                    scroll_to(row.0, row.1 as usize)
                }
            }),
    {
        let closes = match self.open_selector {
            Some(open) => open == selector,
            None => false,
        };
        if closes {
            self.open_selector = None;
            return SelectorScroll::Nothing;
        }
        self.open_selector = Some(selector);
        if selector == SettingsSelector::TerminalFont {
            let ghost all = views(families@);
            let ghost wanted = is_text(self.terminal_font_family@);
            let mut i: usize = 0;
            assert(all.len() == families@.len());
            while i < families.len() && !text_eq(
                families[i].as_str(),
                self.terminal_font_family.as_str(),
            )
                invariant
                    i <= families@.len(),
                    all == views(families@),
                    wanted == is_text(self.terminal_font_family@),
                    forall|k: int| 0 <= k < i ==> !wanted(#[trigger] all[k]),
                decreases families@.len() - i,
            {
                assert(!wanted(all[i as int]));
                i = i + 1;
            }
            proof {
                if i < families@.len() {
                    assert(wanted(all[i as int]));
                }
                first_index_is(all, wanted, i as int);
            }
            scroll_for(i, families.len())
        } else {
            let value = self.settings_value(selector);
            let options = selector.options();
            let ghost wanted = has_value(value);
            let mut i: usize = 0;
            while i < options.len() && options[i].value != value
                invariant
                    i <= options@.len(),
                    wanted == has_value(value),
                    forall|k: int| 0 <= k < i ==> !wanted(#[trigger] options@[k]),
                decreases options@.len() - i,
            {
                assert(!wanted(options@[i as int]));
                i = i + 1;
            }
            proof {
                if i < options@.len() {
                    assert(wanted(options@[i as int]));
                }
                first_index_is(options@, wanted, i as int);
            }
            scroll_for(i, options.len())
        }
    }

    /// Closes the menu that is open; says whether one was.
    pub fn dismiss_settings_selector(&mut self) -> (r: bool)
        ensures
            r == (old(self).open_selector is Some),
            *final(self) == (SettingsState { open_selector: None, ..*old(self) }),
    {
        let was_open = self.open_selector.is_some();
        self.open_selector = None;
        was_open
    }

    /// The settings that are numbers.
    pub open spec fn numbers(self) -> SettingsNumbers {
        SettingsNumbers {
            terminal_font_size: self.terminal_font_size,
            rate_limit_mib_per_second: self.rate_limit_mib_per_second,
            max_parallel_transfers: self.max_parallel_transfers,
        }
    }

    /// The settings that are numbers, with a value that was chosen in its place.
    pub open spec fn numbers_with(self, value: SettingsValue) -> SettingsNumbers {
        match value {
            SettingsValue::TerminalFontSize(size) => SettingsNumbers {
                terminal_font_size: size,
                ..self.numbers()
            },
            SettingsValue::TransferRate(rate) => SettingsNumbers {
                rate_limit_mib_per_second: rate,
                ..self.numbers()
            },
            SettingsValue::ParallelTransfers(count) => SettingsNumbers {
                max_parallel_transfers: count,
                ..self.numbers()
            },
            _ => self.numbers(),
        }
    }

    /// The settings that are numbers, with a value that was chosen in its place: what is to be
    /// brought into the ranges that are allowed before the value is taken over.
    pub fn chosen_numbers(&self, value: SettingsValue) -> (r: SettingsNumbers)
        ensures
            r == self.numbers_with(value),
    {
        let numbers = SettingsNumbers {
            terminal_font_size: self.terminal_font_size,
            rate_limit_mib_per_second: self.rate_limit_mib_per_second,
            max_parallel_transfers: self.max_parallel_transfers,
        };
        match value {
            SettingsValue::TerminalFontSize(size) => SettingsNumbers {
                terminal_font_size: size,
                ..numbers
            },
            SettingsValue::TransferRate(rate) => SettingsNumbers {
                rate_limit_mib_per_second: rate,
                ..numbers
            },
            SettingsValue::ParallelTransfers(count) => SettingsNumbers {
                max_parallel_transfers: count,
                ..numbers
            },
            _ => numbers,
        }
    }

    /// The settings with a value taken over and the menu closed. The size of the font is taken
    /// from `normalized`, and so are both numbers of the transfers where one of them was chosen.
    pub open spec fn applied(
        self,
        value: SettingsValue,
        normalized: SettingsNumbers,
    ) -> SettingsState {
        match value {
            SettingsValue::Language(mode) => SettingsState {
                open_selector: None,
                language_mode: mode,
                ..self
            },
            SettingsValue::Theme(mode) => SettingsState {
                open_selector: None,
                theme_mode: mode,
                ..self
            },
            SettingsValue::TabLayout(layout) => SettingsState {
                open_selector: None,
                tab_layout: layout,
                ..self
            },
            SettingsValue::TerminalFontSize(_) => SettingsState {
                open_selector: None,
                terminal_font_size: normalized.terminal_font_size,
                ..self
            },
            SettingsValue::TransferRate(_) | SettingsValue::ParallelTransfers(_) => SettingsState {
                open_selector: None,
                rate_limit_mib_per_second: normalized.rate_limit_mib_per_second,
                max_parallel_transfers: normalized.max_parallel_transfers,
                ..self
            },
        }
    }

    /// Takes a value over and closes the menu; says what else is to be done. `normalized` are the
    /// numbers with that value, brought into the ranges that are allowed.
    pub fn apply_settings_value(
        &mut self,
        value: SettingsValue,
        normalized: SettingsNumbers,
    ) -> (r: SettingsChange)
        ensures
            *final(self) == old(self).applied(value, normalized),
            r == match value {
                SettingsValue::Language(_) => SettingsChange::Language,
                SettingsValue::Theme(_) => SettingsChange::Theme,
                SettingsValue::TabLayout(_) => SettingsChange::Plain,
                SettingsValue::TerminalFontSize(_) => SettingsChange::Plain,
                SettingsValue::TransferRate(_) => SettingsChange::RateLimit,
                SettingsValue::ParallelTransfers(_) => SettingsChange::StartTransfers,
            },
    {
        self.open_selector = None;
        match value {
            SettingsValue::Language(mode) => {
                self.language_mode = mode;
                SettingsChange::Language
            },
            SettingsValue::Theme(mode) => {
                self.theme_mode = mode;
                SettingsChange::Theme
            },
            SettingsValue::TabLayout(layout) => {
                self.tab_layout = layout;
                SettingsChange::Plain
            },
            SettingsValue::TerminalFontSize(_) => {
                self.terminal_font_size = normalized.terminal_font_size;
                SettingsChange::Plain
            },
            SettingsValue::TransferRate(_) => {
                self.rate_limit_mib_per_second = normalized.rate_limit_mib_per_second;
                self.max_parallel_transfers = normalized.max_parallel_transfers;
                SettingsChange::RateLimit
            },
            SettingsValue::ParallelTransfers(_) => {
                self.rate_limit_mib_per_second = normalized.rate_limit_mib_per_second;
                self.max_parallel_transfers = normalized.max_parallel_transfers;
                SettingsChange::StartTransfers
            },
        }
    }

    /// Takes a font over and closes the menu.
    pub fn set_terminal_font_family(&mut self, family: String)
        ensures
            *final(self) == (SettingsState {
                open_selector: None,
                terminal_font_family: family,
                ..*old(self)
            }),
    {
        self.open_selector = None;
        self.terminal_font_family = family;
    }

    /// The rows of a setting's menu: what each is shown as, and whether it is selected.
    pub fn settings_menu_rows(&self, selector: SettingsSelector) -> (r: Vec<(SettingsLabel, bool)>)
        ensures
            r@.len() == selector.entries().len(),
            forall|i: int|
                0 <= i < r@.len() ==> is_label(
                    (#[trigger] r@[i]).0,
                    value_key(selector.entries()[i].value),
                    selector.entries()[i].label@,
                ) && r@[i].1 == (selector.entries()[i].value == self.value_of(selector)),
    {
        let options = selector.options();
        let mut rows: Vec<(SettingsLabel, bool)> = Vec::new();
        if selector == SettingsSelector::TerminalFont {
            return rows;
        }
        let value = self.settings_value(selector);
        let mut i: usize = 0;
        while i < options.len()
            invariant
                i <= options@.len(),
                options@ == selector.entries(),
                value == self.value_of(selector),
                rows@.len() == i,
                forall|k: int|
                    0 <= k < i ==> is_label(
                        (#[trigger] rows@[k]).0,
                        value_key(options@[k].value),
                        options@[k].label@,
                    ) && rows@[k].1 == (options@[k].value == value),
            decreases options@.len() - i,
        {
            rows.push((settings_option_label(&options[i]), options[i].value == value));
            i = i + 1;
        }
        rows
    }
}

/// Choosing an entry of a menu, where its value and the other numbers are allowed as they are,
/// makes its value the setting's, and no other setting changes.
pub proof fn chosen_value_is_shown(
    before: SettingsState,
    after: SettingsState,
    selector: SettingsSelector,
    i: int,
)
    requires
        0 <= i < selector.entries().len(),
        ({
            let value = selector.entries()[i].value;
            after == before.applied(value, before.numbers_with(value))
        }),
    ensures
        after.value_of(selector) == selector.entries()[i].value,
        forall|other: SettingsSelector|
            other != selector && other != SettingsSelector::TerminalFont ==> after.value_of(other)
                == #[trigger] before.value_of(other),
{
}

/// Whatever numbers are allowed, choosing a value changes no setting but its own, where the numbers
/// of the transfers count as one.
pub proof fn other_settings_stay(
    before: SettingsState,
    value: SettingsValue,
    normalized: SettingsNumbers,
)
    ensures
        ({
            let after = before.applied(value, normalized);
            &&& after.terminal_font_family == before.terminal_font_family
            &&& value !is Language ==> after.language_mode == before.language_mode
            &&& value !is Theme ==> after.theme_mode == before.theme_mode
            &&& value !is TabLayout ==> after.tab_layout == before.tab_layout
            &&& value !is TerminalFontSize ==> after.terminal_font_size
                == before.terminal_font_size
            &&& value !is TransferRate && value !is ParallelTransfers
                ==> after.rate_limit_mib_per_second == before.rate_limit_mib_per_second
                && after.max_parallel_transfers == before.max_parallel_transfers
        }),
{
}

/// A row of the settings: the key of its name, its setting, and whether a line is drawn below.
#[derive(Clone, Copy, Debug, PartialEq, Eq)]
pub struct SettingsRow {
    pub label_key: &'static str,
    pub selector: SettingsSelector,
    pub divided: bool,
}

/// The rows under "appearance".
pub open spec fn appearance_list() -> Seq<SettingsRow> {
    seq![
        SettingsRow {
            label_key: "settings-language",
            selector: SettingsSelector::Language,
            divided: true,
        },
        SettingsRow {
            label_key: "settings-theme",
            selector: SettingsSelector::Theme,
            divided: true,
        },
        SettingsRow {
            label_key: "settings-tab-layout",
            selector: SettingsSelector::TabLayout,
            divided: false,
        },
    ]
}

/// The rows under "terminal".
pub open spec fn terminal_list() -> Seq<SettingsRow> {
    seq![
        SettingsRow {
            label_key: "settings-font",
            selector: SettingsSelector::TerminalFont,
            divided: true,
        },
        SettingsRow {
            label_key: "settings-font-size",
            selector: SettingsSelector::TerminalFontSize,
            divided: false,
        },
    ]
}

/// The rows under "transfers".
pub open spec fn transfer_list() -> Seq<SettingsRow> {
    seq![
        SettingsRow {
            label_key: "settings-speed-limit",
            selector: SettingsSelector::TransferRate,
            divided: true,
        },
        SettingsRow {
            label_key: "settings-parallel-files",
            selector: SettingsSelector::ParallelTransfers,
            divided: false,
        },
    ]
}

/// The rows under "appearance".
pub fn appearance_rows() -> (r: Vec<SettingsRow>)
    ensures
        r@ == appearance_list(),
{
    let mut rows: Vec<SettingsRow> = Vec::new();
    rows.push(
        SettingsRow {
            label_key: "settings-language",
            selector: SettingsSelector::Language,
            divided: true,
        },
    );
    rows.push(
        SettingsRow {
            label_key: "settings-theme",
            selector: SettingsSelector::Theme,
            divided: true,
        },
    );
    rows.push(
        SettingsRow {
            label_key: "settings-tab-layout",
            selector: SettingsSelector::TabLayout,
            divided: false,
        },
    );
    rows
}

/// The rows under "terminal".
pub fn terminal_rows() -> (r: Vec<SettingsRow>)
    ensures
        r@ == terminal_list(),
{
    let mut rows: Vec<SettingsRow> = Vec::new();
    rows.push(
        SettingsRow {
            label_key: "settings-font",
            selector: SettingsSelector::TerminalFont,
            divided: true,
        },
    );
    rows.push(
        SettingsRow {
            label_key: "settings-font-size",
            selector: SettingsSelector::TerminalFontSize,
            divided: false,
        },
    );
    rows
}

/// The rows under "transfers".
pub fn transfer_rows() -> (r: Vec<SettingsRow>)
    ensures
        r@ == transfer_list(),
{
    let mut rows: Vec<SettingsRow> = Vec::new();
    rows.push(
        SettingsRow {
            label_key: "settings-speed-limit",
            selector: SettingsSelector::TransferRate,
            divided: true,
        },
    );
    rows.push(
        SettingsRow {
            label_key: "settings-parallel-files",
            selector: SettingsSelector::ParallelTransfers,
            divided: false,
        },
    );
    rows
}

/// Every setting has a row.
pub proof fn every_setting_has_a_row(selector: SettingsSelector)
    ensures
        exists|i: int|
            0 <= i < (appearance_list() + terminal_list() + transfer_list()).len() && (
            #[trigger] (appearance_list() + terminal_list() + transfer_list())[i]).selector
                == selector,
{
    let rows = appearance_list() + terminal_list() + transfer_list();
    let i: int = match selector {
        SettingsSelector::Language => 0,
        SettingsSelector::Theme => 1,
        SettingsSelector::TabLayout => 2,
        SettingsSelector::TerminalFont => 3,
        SettingsSelector::TerminalFontSize => 4,
        SettingsSelector::TransferRate => 5,
        SettingsSelector::ParallelTransfers => 6,
    };
    assert(rows[i].selector == selector);
}

/// The key of what the field for a secret says while it is empty.
pub fn credential_placeholder_key(kind: &CredentialPromptKind) -> (r: &'static str)
    ensures
        r == match *kind {
            CredentialPromptKind::Password => "credential-password",
            CredentialPromptKind::PrivateKeyPassphrase { .. } => "credential-passphrase",
            CredentialPromptKind::ProxyPassword => "field-proxy-password",
        },
{
    match kind {
        CredentialPromptKind::Password => "credential-password",
        CredentialPromptKind::PrivateKeyPassphrase { .. } => "credential-passphrase",
        CredentialPromptKind::ProxyPassword => "field-proxy-password",
    }
}

/// The key of what the field for a new file's name says while it is empty.
pub fn create_placeholder_key(kind: SftpCreateKind) -> (r: &'static str)
    ensures
        r == match kind {
            SftpCreateKind::File => "sftp-file-name",
            SftpCreateKind::Directory => "sftp-folder-name",
        },
{
    match kind {
        SftpCreateKind::File => "sftp-file-name",
        SftpCreateKind::Directory => "sftp-folder-name",
    }
}

/// The keys of what the fields of the profile editor say while they are empty, in their order.
pub open spec fn editor_placeholders() -> Seq<&'static str> {
    seq![
        "field-name",
        "field-host",
        "field-port",
        "field-username",
        "field-private-key",
        "field-proxy-host",
        "field-proxy-port",
        "field-proxy-username",
        "field-proxy-password",
        "field-proxy-command",
        "sidebar-search-placeholder",
    ]
}

/// The keys of what the fields of the profile editor say while they are empty.
pub fn editor_placeholder_keys() -> (r: Vec<&'static str>)
    ensures
        r@ == editor_placeholders(),
{
    let mut keys: Vec<&'static str> = Vec::new();
    keys.push("field-name");
    keys.push("field-host");
    keys.push("field-port");
    keys.push("field-username");
    keys.push("field-private-key");
    keys.push("field-proxy-host");
    keys.push("field-proxy-port");
    keys.push("field-proxy-username");
    keys.push("field-proxy-password");
    keys.push("field-proxy-command");
    keys.push("sidebar-search-placeholder");
    keys
}

/// A session after the language has changed: a local one says anew why it has no remote files.
pub open spec fn relabelled<S>(session: Session<S>, text: String) -> Session<S> {
    if session.kind == TerminalSessionKind::Local {
        Session { sftp_availability: SftpAvailability::Unavailable(text), ..session }
    } else {
        session
    }
}

/// Tells the local sessions in a new language why they have no remote files.
pub fn relabel_local_sessions<S>(sessions: &mut Vec<Session<S>>, text: &String)
    ensures
        final(sessions)@ == old(sessions)@.map_values(
            |session: Session<S>| relabelled(session, *text),
        ),
{
    let ghost before = sessions@;
    let mut i: usize = 0;
    while i < sessions.len()
        invariant
            i <= sessions@.len(),
            sessions@.len() == before.len(),
            forall|k: int| 0 <= k < i ==> (#[trigger] sessions@[k]) == relabelled(before[k], *text),
            forall|k: int| i <= k < before.len() ==> (#[trigger] sessions@[k]) == before[k],
        decreases sessions@.len() - i,
    {
        if sessions[i].kind == TerminalSessionKind::Local {
            sessions[i].sftp_availability = SftpAvailability::Unavailable(text.clone());
        }
        i = i + 1;
    }
    assert(sessions@ =~= before.map_values(|session: Session<S>| relabelled(session, *text)));
}

/// A choice is taken over as it was made, a number as it was brought into its range; and the menu
/// is closed.
pub proof fn choice_is_taken_over(
    before: SettingsState,
    value: SettingsValue,
    normalized: SettingsNumbers,
)
    ensures
        ({
            let after = before.applied(value, normalized);
            &&& after.open_selector is None
            &&& value matches SettingsValue::Language(mode) ==> after.language_mode == mode
            &&& value matches SettingsValue::Theme(mode) ==> after.theme_mode == mode
            &&& value matches SettingsValue::TabLayout(layout) ==> after.tab_layout == layout
            &&& value is TerminalFontSize ==> after.terminal_font_size
                == normalized.terminal_font_size
            &&& value is TransferRate || value is ParallelTransfers
                ==> after.rate_limit_mib_per_second == normalized.rate_limit_mib_per_second
                && after.max_parallel_transfers == normalized.max_parallel_transfers
        }),
        ({
            let numbers = before.numbers_with(value);
            &&& numbers.terminal_font_size == (if let SettingsValue::TerminalFontSize(size)
                = value {
                size
            } else {
                before.terminal_font_size
            })
            &&& numbers.rate_limit_mib_per_second == (if let SettingsValue::TransferRate(rate)
                = value {
                rate
            } else {
                before.rate_limit_mib_per_second
            })
            &&& numbers.max_parallel_transfers == (if let SettingsValue::ParallelTransfers(count)
                = value {
                count
            } else {
                before.max_parallel_transfers
            })
        }),
{
}

/// A change of the language says anew, in local sessions alone, why there are no remote files.
pub proof fn only_local_sessions_are_relabelled<S>(session: Session<S>, text: String)
    ensures
        session.kind == TerminalSessionKind::Ssh ==> relabelled(session, text) == session,
        session.kind == TerminalSessionKind::Local ==> relabelled(session, text).sftp_availability
            == SftpAvailability::Unavailable(text),
        relabelled(session, text).id == session.id,
        relabelled(session, text).connection_state == session.connection_state,
        relabelled(session, text).transfers == session.transfers,
{
}

} // verus!
