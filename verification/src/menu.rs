//! The menu of the tray icon: its items for a configuration, what a click
//! on an item means, and when the indicators are refreshed.
use vstd::prelude::*;

use crate::config::{ActionConfig, ActionType, Config};
use crate::text::{owned, str_eq};

verus! {

pub const MENU_QUIT: &'static str = "quit";

pub const MENU_AUTOSTART: &'static str = "autostart";

pub const MENU_EDIT_CONFIG: &'static str = "edit_config";

pub const MENU_RELOAD_CONFIG: &'static str = "reload_config";

pub const MENU_GRANT_ADMIN: &'static str = "grant_admin";

/// One item of the menu.
#[derive(Debug, Clone)]
pub enum MenuEntry {
    /// A disabled item that heads a group of actions.
    Header { label: String },
    /// An action item; `index` is the action's place in the configuration.
    Action { label: String, index: usize },
    /// The iOS simulator route action, shown with a check mark or a cross.
    IosSimRoute { label: String, index: usize },
    Separator,
    EditConfig,
    ReloadConfig,
    GrantAdmin,
    /// The "Launch at Login" check item.
    Autostart,
    Quit,
}

/// The item that the `i`-th action becomes.
pub open spec fn action_entry(a: ActionConfig, i: int, e: MenuEntry) -> bool {
    match a.action_type {
        ActionType::Header => e matches MenuEntry::Header { label } && label@ == a.label@,
        ActionType::IosSimRoute => e matches MenuEntry::IosSimRoute { label, index } && label@
            == a.label@ && index == i,
        _ => e matches MenuEntry::Action { label, index } && label@ == a.label@ && index == i,
    }
}

/// The fixed items after the actions.
pub open spec fn system_entries() -> Seq<MenuEntry> {
    seq![
        MenuEntry::Separator,
        MenuEntry::EditConfig,
        MenuEntry::ReloadConfig,
        MenuEntry::Separator,
        MenuEntry::GrantAdmin,
        MenuEntry::Autostart,
        MenuEntry::Separator,
        MenuEntry::Quit,
    ]
}

/// The menu for a configuration: one item per action, in order, then the
/// configuration, administrator, login and quit items.
pub fn build_menu(config: &Config) -> (r: Vec<MenuEntry>)
    ensures
        r@.len() == config.actions@.len() + 8,
        forall|i: int|
            0 <= i < config.actions@.len() ==> action_entry(config.actions@[i], i, #[trigger] r@[i]),
        r@.skip(config.actions@.len() as int) == system_entries(),
{
    let actions = &config.actions;
    let mut out: Vec<MenuEntry> = Vec::new();
    let mut i: usize = 0;
    while i < actions.len()
        invariant
            i <= actions@.len(),
            out@.len() == i,
            forall|j: int| 0 <= j < i ==> action_entry(actions@[j], j, #[trigger] out@[j]),
        decreases actions@.len() - i,
    {
        let a = &actions[i];
        let label = owned(a.label.as_str());
        let e = match a.action_type {
            ActionType::Header => MenuEntry::Header { label },
            ActionType::IosSimRoute => MenuEntry::IosSimRoute { label, index: i },
            _ => MenuEntry::Action { label, index: i },
        };
        out.push(e);
        i = i + 1;
    }
    let ghost n = out@.len();
    out.push(MenuEntry::Separator);
    out.push(MenuEntry::EditConfig);
    out.push(MenuEntry::ReloadConfig);
    out.push(MenuEntry::Separator);
    out.push(MenuEntry::GrantAdmin);
    out.push(MenuEntry::Autostart);
    out.push(MenuEntry::Separator);
    out.push(MenuEntry::Quit);
    assert(out@.skip(n as int) =~= system_entries());
    out
}

/// What a click on a menu item asks for.
#[derive(Debug, Clone, Copy, PartialEq, Eq, Structural)]
pub enum MenuCommand {
    Quit,
    ToggleAutostart,
    EditConfig,
    ReloadConfig,
    GrantAdmin,
    /// Run the action at this index of the configuration.
    RunAction(usize),
    /// The click is for nothing known.
    Ignore,
}

/// The command for a click on the item `id`. `action_index` is the action
/// that the item was built for, if it is an action item; `action_count` is
/// the number of configured actions.
pub fn handle_menu_event(id: &str, action_index: Option<usize>, action_count: usize) -> (r:
    MenuCommand)
    ensures
        r == if id@ == MENU_QUIT@ {
            MenuCommand::Quit
        } else if id@ == MENU_AUTOSTART@ {
            MenuCommand::ToggleAutostart
        } else if id@ == MENU_EDIT_CONFIG@ {
            MenuCommand::EditConfig
        } else if id@ == MENU_RELOAD_CONFIG@ {
            MenuCommand::ReloadConfig
        } else if id@ == MENU_GRANT_ADMIN@ {
            MenuCommand::GrantAdmin
        } else {
            match action_index {
                Some(i) => if i < action_count {
                    MenuCommand::RunAction(i)
                } else {
                    MenuCommand::Ignore
                },
                None => MenuCommand::Ignore,
            }
        },
{
    if str_eq(id, MENU_QUIT) {
        return MenuCommand::Quit;
    }
    if str_eq(id, MENU_AUTOSTART) {
        return MenuCommand::ToggleAutostart;
    }
    if str_eq(id, MENU_EDIT_CONFIG) {
        return MenuCommand::EditConfig;
    }
    if str_eq(id, MENU_RELOAD_CONFIG) {
        return MenuCommand::ReloadConfig;
    }
    if str_eq(id, MENU_GRANT_ADMIN) {
        return MenuCommand::GrantAdmin;
    }
    match action_index {
        Some(i) => if i < action_count {
            MenuCommand::RunAction(i)
        } else {
            MenuCommand::Ignore
        },
        None => MenuCommand::Ignore,
    }
}

/// After an action ran, the route indicators are refreshed only when it
/// succeeded and toggled the iOS simulator route.
pub fn refresh_after_action(action_type: ActionType, succeeded: bool) -> (r: bool)
    ensures
        r == (succeeded && action_type == ActionType::IosSimRoute),
{
    succeeded && action_type == ActionType::IosSimRoute
}

/// An indicator is redrawn only when its state differs from the one shown.
pub fn indicator_stale(shown: Option<bool>, current: bool) -> (r: bool)
    ensures
        r == (shown != Some(current)),
{
    match shown {
        Some(s) => s != current,
        None => true,
    }
}

/// The indicators are polled again once the poll interval has passed.
pub fn poll_due(elapsed_secs: u64, interval_secs: u64) -> (r: bool)
    ensures
        r == (elapsed_secs >= interval_secs),
{
    elapsed_secs >= interval_secs
}

} // verus!
