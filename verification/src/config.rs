//! What the user can set: status bars, colours, editor and GitHub account.

use crate::text;
use vstd::prelude::*;
use vstd::string::*;

verus! {

/// The configuration as a whole.
#[derive(Clone)]
pub struct Config {
    pub statusbar: StatusBarConfig,
    pub auth: AuthConfig,
    pub external_editor: String,
    pub ui: UiConfig,
}

/// Background colours.
#[derive(Clone)]
pub struct UiConfig {
    pub terminal_bg: String,
    pub sidebar_bg: String,
    pub upper_statusbar_bg: String,
    pub lower_statusbar_bg: String,
}

/// The GitHub account and where updates come from.
#[derive(Clone)]
pub struct AuthConfig {
    pub github_client_id: Option<String>,
    pub personal_access_token: Option<String>,
    pub scope: String,
    pub update_url: String,
}

/// The items of the two status bars.
#[derive(Clone)]
pub struct StatusBarConfig {
    pub upper: Vec<StatusBarItem>,
    pub lower: Vec<StatusBarItem>,
}

/// One item of a status bar.
#[derive(Clone)]
pub struct StatusBarItem {
    pub type_: ItemType,
    pub label: Option<String>,
    pub action: Option<ActionType>,
    pub command: Option<String>,
    pub color: Option<String>,
    pub hover_color: Option<String>,
    pub condition: Option<ConditionType>,
    pub width: Option<u16>,
}

/// What an item of a status bar shows.
#[derive(Clone, Copy, PartialEq, Eq, Structural, Debug)]
pub enum ItemType {
    Button,
    Spacer,
    SystemStats,
    GitInfo,
    TimeAndScroll,
    SelectedCommandInfo,
}

/// What a click on an item does.
#[derive(Clone, Copy, PartialEq, Eq, Structural, Debug)]
pub enum ActionType {
    ToggleMenu,
    CopySelection,
    SendCommand,
    Quit,
    ShowSettingsModal,
    FetchGists,
}

/// When an item is shown.
#[derive(Clone, Copy, PartialEq, Eq, Structural, Debug)]
pub enum ConditionType {
    HasGit,
    HasSelection,
}

pub ghost struct ConfigView {
    pub statusbar: StatusBarView,
    pub auth: AuthView,
    pub external_editor: Seq<char>,
    pub ui: UiView,
}

pub ghost struct UiView {
    pub terminal_bg: Seq<char>,
    pub sidebar_bg: Seq<char>,
    pub upper_statusbar_bg: Seq<char>,
    pub lower_statusbar_bg: Seq<char>,
}

pub ghost struct AuthView {
    pub github_client_id: Option<Seq<char>>,
    pub personal_access_token: Option<Seq<char>>,
    pub scope: Seq<char>,
    pub update_url: Seq<char>,
}

pub ghost struct StatusBarView {
    pub upper: Seq<ItemView>,
    pub lower: Seq<ItemView>,
}

pub ghost struct ItemView {
    pub type_: ItemType,
    pub label: Option<Seq<char>>,
    pub action: Option<ActionType>,
    pub command: Option<Seq<char>>,
    pub color: Option<Seq<char>>,
    pub hover_color: Option<Seq<char>>,
    pub condition: Option<ConditionType>,
    pub width: Option<u16>,
}

impl View for StatusBarItem {
    type V = ItemView;

    open spec fn view(&self) -> ItemView {
        ItemView {
            type_: self.type_,
            label: text::opt_text(self.label),
            action: self.action,
            command: text::opt_text(self.command),
            color: text::opt_text(self.color),
            hover_color: text::opt_text(self.hover_color),
            condition: self.condition,
            width: self.width,
        }
    }
}

/// The items that a sequence of status bar items holds.
pub open spec fn item_views(v: Seq<StatusBarItem>) -> Seq<ItemView> {
    v.map_values(|i: StatusBarItem| i@)
}

impl View for StatusBarConfig {
    type V = StatusBarView;

    open spec fn view(&self) -> StatusBarView {
        StatusBarView { upper: item_views(self.upper@), lower: item_views(self.lower@) }
    }
}

impl View for AuthConfig {
    type V = AuthView;

    open spec fn view(&self) -> AuthView {
        AuthView {
            github_client_id: text::opt_text(self.github_client_id),
            personal_access_token: text::opt_text(self.personal_access_token),
            scope: self.scope@,
            update_url: self.update_url@,
        }
    }
}

impl View for UiConfig {
    type V = UiView;

    open spec fn view(&self) -> UiView {
        UiView {
            terminal_bg: self.terminal_bg@,
            sidebar_bg: self.sidebar_bg@,
            upper_statusbar_bg: self.upper_statusbar_bg@,
            lower_statusbar_bg: self.lower_statusbar_bg@,
        }
    }
}

impl View for Config {
    type V = ConfigView;

    open spec fn view(&self) -> ConfigView {
        ConfigView {
            statusbar: self.statusbar@,
            auth: self.auth@,
            external_editor: self.external_editor@,
            ui: self.ui@,
        }
    }
}

impl Default for ItemType {
    fn default() -> (r: ItemType)
        ensures
            r == ItemType::Button,
    {
        ItemType::Button
    }
}

impl Default for UiConfig {
    fn default() -> (r: UiConfig)
        ensures
            r@.terminal_bg.len() == 0,
            r@.sidebar_bg.len() == 0,
            r@.upper_statusbar_bg.len() == 0,
            r@.lower_statusbar_bg.len() == 0,
    {
        UiConfig {
            terminal_bg: String::new(),
            sidebar_bg: String::new(),
            upper_statusbar_bg: String::new(),
            lower_statusbar_bg: String::new(),
        }
    }
}

impl Default for AuthConfig {
    fn default() -> (r: AuthConfig)
        ensures
            r@.github_client_id is None,
            r@.personal_access_token is None,
            r@.scope.len() == 0,
            r@.update_url.len() == 0,
    {
        AuthConfig {
            github_client_id: None,
            personal_access_token: None,
            scope: String::new(),
            update_url: String::new(),
        }
    }
}

impl Default for StatusBarConfig {
    fn default() -> (r: StatusBarConfig)
        ensures
            r@.upper.len() == 0,
            r@.lower.len() == 0,
    {
        StatusBarConfig { upper: Vec::new(), lower: Vec::new() }
    }
}

impl Default for Config {
    fn default() -> (r: Config)
        ensures
            r@.statusbar.upper.len() == 0,
            r@.statusbar.lower.len() == 0,
            r@.auth.github_client_id is None,
            r@.auth.personal_access_token is None,
            r@.auth.scope.len() == 0,
            r@.auth.update_url.len() == 0,
            r@.external_editor.len() == 0,
            r@.ui.terminal_bg.len() == 0,
            r@.ui.sidebar_bg.len() == 0,
            r@.ui.upper_statusbar_bg.len() == 0,
            r@.ui.lower_statusbar_bg.len() == 0,
    {
        Config {
            statusbar: StatusBarConfig::default(),
            auth: AuthConfig::default(),
            external_editor: String::new(),
            ui: UiConfig::default(),
        }
    }
}

/// The background of the terminal where none is set.
pub fn default_terminal_bg() -> (r: String)
    ensures
        r@ == "#000000"@,
{
    "#000000".to_owned()
}

/// The background of the sidebar where none is set.
pub fn default_sidebar_bg() -> (r: String)
    ensures
        r@ == "#000000"@,
{
    "#000000".to_owned()
}

/// The background of a status bar where none is set.
pub fn default_statusbar_bg() -> (r: String)
    ensures
        r@ == "#000000"@,
{
    "#000000".to_owned()
}

/// The editor where none is set.
pub fn default_editor() -> (r: String)
    ensures
        r@ == "nano"@,
{
    "nano".to_owned()
}

/// The token of the configuration that serves as a login: one that is neither
/// empty nor the placeholder of a fresh configuration.
pub open spec fn usable_token(token: Option<Seq<char>>) -> Option<Seq<char>> {
    match token {
        Some(t) if t.len() > 0 && t != "YOUR_TOKEN_HERE"@ => Some(t),
        _ => None,
    }
}

/// The token of the configuration that serves as a login.
pub fn login_token(auth: &AuthConfig) -> (r: Option<String>)
    ensures
        text::opt_text(r) == usable_token(auth@.personal_access_token),
{
    match &auth.personal_access_token {
        Some(t) => if !t.as_str().is_empty() && !text::same_text(t.as_str(), "YOUR_TOKEN_HERE") {
            Some(t.clone())
        } else {
            None
        },
        None => None,
    }
}

/// The configuration that is written where there is none.
pub const DEFAULT_CONFIG: &'static str = r##"
external_editor = "nano"

[ui]
terminal_bg = "#000000"
sidebar_bg = "#000000"
upper_statusbar_bg = "#000000"
lower_statusbar_bg = "#000000"

[auth]
scope = "gist"
personal_access_token = "YOUR_TOKEN_HERE"

[statusbar]
[[statusbar.upper]]
label = " ≡ MENU "
action = "toggle_menu"
color = "green"
hover_color = "light_green"

[[statusbar.upper]]
label = " COPY "
action = "copy_selection"
color = "cyan"
hover_color = "light_cyan"
condition = "has_selection"

[[statusbar.upper]]
type_ = "selected_command_info"

[[statusbar.upper]]
label = " CLEAR "
action = "send_command"
command = "clear\r"
color = "dark_gray"
hover_color = "gray"

[[statusbar.upper]]
type_ = "time_and_scroll"
width = 30

[[statusbar.lower]]
label = " STATUS "
action = "send_command"
command = "git status\r"
color = "cyan"
hover_color = "light_cyan"
condition = "has_git"

[[statusbar.lower]]
label = " DIFF "
action = "send_command"
command = "git diff\r"
color = "blue"
hover_color = "light_blue"
condition = "has_git"

[[statusbar.lower]]
label = " SHOW "
action = "send_command"
command = "git show\r"
color = "magenta"
hover_color = "light_magenta"
condition = "has_git"

[[statusbar.lower]]
label = " HISTORY "
action = "send_command"
command = "git log --oneline -n 20\r"
color = "orange"
hover_color = "light_orange"
condition = "has_git"

[[statusbar.lower]]
type_ = "git_info"

[[statusbar.lower]]
type_ = "system_stats"
width = 25

[[statusbar.lower]]
type_ = "spacer"
width = 1

[[statusbar.lower]]
label = " SETTINGS "
action = "show_settings_modal"
color = "magenta"
hover_color = "light_magenta"

[[statusbar.lower]]
label = " GISTS "
action = "fetch_gists"
color = "yellow"
hover_color = "light_yellow"

[[statusbar.lower]]
label = " EXIT "
action = "quit"
color = "red"
hover_color = "light_red"
"##;

/// How far the search for a configuration file got.
pub enum ConfigFile {
    /// There is no place for a configuration.
    NoPlace,
    /// The file is not there; its directory may be.
    Missing { dir_exists: bool },
    /// The file is there and cannot be read or understood.
    Unusable,
    /// The file holds a configuration.
    Loaded,
}

/// What is done about the configuration.
#[derive(Clone, Copy, PartialEq, Eq, Structural, Debug)]
pub struct ConfigPlan {
    pub create_dir: bool,
    pub write_default: bool,
    pub use_default: bool,
}

/// Decides what is done about the configuration: one that was loaded is used,
/// and a missing one is written for the next time.
pub fn config_plan(found: &ConfigFile) -> (r: ConfigPlan)
    ensures
        r.use_default == !(found is Loaded),
        r.write_default == found is Missing,
        r.create_dir == (*found matches ConfigFile::Missing { dir_exists } && !dir_exists),
{
    match found {
        ConfigFile::NoPlace => ConfigPlan {
            create_dir: false,
            write_default: false,
            use_default: true,
        },
        ConfigFile::Missing { dir_exists } => ConfigPlan {
            create_dir: !*dir_exists,
            write_default: true,
            use_default: true,
        },
        ConfigFile::Unusable => ConfigPlan {
            create_dir: false,
            write_default: false,
            use_default: true,
        },
        ConfigFile::Loaded => ConfigPlan {
            create_dir: false,
            write_default: false,
            use_default: false,
        },
    }
}

/// A token serves as a login unless it is empty or the placeholder of a fresh
/// configuration; it is then used as it stands.
pub proof fn law_token_is_used_as_it_stands(token: Seq<char>)
    ensures
        usable_token(None) is None,
        token.len() == 0 || token == "YOUR_TOKEN_HERE"@ ==> usable_token(Some(token)) is None,
        token.len() > 0 && token != "YOUR_TOKEN_HERE"@ ==> usable_token(Some(token)) == Some(token),
{
}

} // verus!
