//! The quick actions of the menu: what each configured action does.
use vstd::prelude::*;

use crate::config::{ActionConfig, ActionType};
use crate::text::owned;

verus! {

/// The effect of running an action.
#[derive(Debug, Clone)]
pub enum ActionEffect {
    /// Run the command with `sh -c`.
    RunShell(String),
    /// Apply the configured hosts entries to `/etc/hosts`.
    ApplyHosts,
    /// Remove the managed block from `/etc/hosts`.
    ClearHosts,
    /// Nothing: the item is a heading.
    Nothing,
    /// Toggle the iOS simulator route in `/etc/hosts`.
    ToggleIosSimRoute,
    /// Toggle the Android emulator's system proxy.
    ToggleAndroidProxy,
}

/// What running `action` does, by its type.
pub fn execute(action: &ActionConfig) -> (r: ActionEffect)
    ensures
        match action.action_type {
            ActionType::Shell => r matches ActionEffect::RunShell(c) && c@ == action.command@,
            ActionType::HostsApply => r is ApplyHosts,
            ActionType::HostsClear => r is ClearHosts,
            ActionType::Header => r is Nothing,
            ActionType::IosSimRoute => r is ToggleIosSimRoute,
            ActionType::AndroidSimProxy => r is ToggleAndroidProxy,
        },
{
    match action.action_type {
        ActionType::Shell => ActionEffect::RunShell(owned(action.command.as_str())),
        ActionType::HostsApply => ActionEffect::ApplyHosts,
        ActionType::HostsClear => ActionEffect::ClearHosts,
        ActionType::Header => ActionEffect::Nothing,
        ActionType::IosSimRoute => ActionEffect::ToggleIosSimRoute,
        ActionType::AndroidSimProxy => ActionEffect::ToggleAndroidProxy,
    }
}

} // verus!
