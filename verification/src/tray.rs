//! The decisions behind the tray icon: what a click does to the main
//! window, what an entry of the menu stands for, and the bookkeeping of the
//! request that the system stay awake.

use crate::text::bytes_eq;
use vstd::prelude::*;
use vstd::string::StringSliceAdditionalSpecFns;

verus! {

/// What to ask of the system's power management.
#[derive(Clone, Copy, PartialEq, Eq, Structural, Debug)]
pub enum PowerRequest {
    /// Keep the system awake.
    StayAwake,
    /// Let the system sleep as it would.
    AllowSleep,
}

/// Whether the system has been asked to stay awake.
#[derive(Clone, Copy, PartialEq, Eq, Structural, Debug)]
pub struct PreventSleep {
    pub enabled: bool,
}

impl PreventSleep {
    pub fn new() -> (state: PreventSleep)
        ensures
            !state.enabled,
    {
        PreventSleep { enabled: false }
    }

    /// What to ask for when the menu entry is chosen: the opposite of what holds.
    pub fn toggle_request(&self) -> (request: PowerRequest)
        ensures
            request == if self.enabled {
                PowerRequest::AllowSleep
            } else {
                PowerRequest::StayAwake
            },
    {
        if self.enabled {
            PowerRequest::AllowSleep
        } else {
            PowerRequest::StayAwake
        }
    }

    /// Takes note of how the request went: the state changes only where the
    /// system granted it.
    pub fn toggle_prevent_sleep(&mut self, granted: bool)
        ensures
            final(self).enabled == if granted {
                !old(self).enabled
            } else {
                old(self).enabled
            },
    {
        if granted {
            self.enabled = !self.enabled;
        }
    }
}

/// What to ask for when the application quits: that the system may sleep
/// again, where it was asked to stay awake.
pub fn cleanup_prevent_sleep(state: &PreventSleep) -> (request: Option<PowerRequest>)
    ensures
        request == if state.enabled {
            Some(PowerRequest::AllowSleep)
        } else {
            None::<PowerRequest>
        },
{
    if state.enabled {
        Some(PowerRequest::AllowSleep)
    } else {
        None
    }
}

/// What a click on the tray icon does to the main window.
#[derive(Clone, Copy, PartialEq, Eq, Structural, Debug)]
pub enum WindowAction {
    Hide,
    ShowAndActivate,
}

/// A click hides the window that is in front of the user, and brings up any other.
pub fn handle_tray_click(is_visible: bool, is_minimized: bool, is_focused: bool) -> (action:
    WindowAction)
    ensures
        action == if is_visible && !is_minimized && is_focused {
            WindowAction::Hide
        } else {
            WindowAction::ShowAndActivate
        },
{
    if is_visible && !is_minimized && is_focused {
        WindowAction::Hide
    } else {
        WindowAction::ShowAndActivate
    }
}

/// What an entry of the tray menu stands for.
#[derive(Clone, Copy, PartialEq, Eq, Structural, Debug)]
pub enum TrayAction {
    OpenWebsite,
    OpenDesktop,
    VddSettings,
    RestartUserMode,
    ShowToolbar,
    LogConsole,
    PreventSleep,
    DebugPage,
    CheckUpdate,
    About,
    Quit,
    Unknown,
}

pub open spec fn tray_action(menu_id: Seq<u8>) -> TrayAction {
    if menu_id == "open_website".spec_bytes() {
        TrayAction::OpenWebsite
    } else if menu_id == "open_desktop".spec_bytes() {
        TrayAction::OpenDesktop
    } else if menu_id == "vdd_settings".spec_bytes() {
        TrayAction::VddSettings
    } else if menu_id == "restart_user_mode".spec_bytes() {
        TrayAction::RestartUserMode
    } else if menu_id == "show_toolbar".spec_bytes() {
        TrayAction::ShowToolbar
    } else if menu_id == "log_console".spec_bytes() {
        TrayAction::LogConsole
    } else if menu_id == "prevent_sleep".spec_bytes() {
        TrayAction::PreventSleep
    } else if menu_id == "debug_page".spec_bytes() {
        TrayAction::DebugPage
    } else if menu_id == "check_update".spec_bytes() {
        TrayAction::CheckUpdate
    } else if menu_id == "about".spec_bytes() {
        TrayAction::About
    } else if menu_id == "quit".spec_bytes() {
        TrayAction::Quit
    } else {
        TrayAction::Unknown
    }
}

/// Reads the action off the identifier of a menu entry.
pub fn handle_tray_menu_event(menu_id: &[u8]) -> (action: TrayAction)
    ensures
        action == tray_action(menu_id@),
{
    if bytes_eq(menu_id, "open_website".as_bytes()) {
        TrayAction::OpenWebsite
    } else if bytes_eq(menu_id, "open_desktop".as_bytes()) {
        TrayAction::OpenDesktop
    } else if bytes_eq(menu_id, "vdd_settings".as_bytes()) {
        TrayAction::VddSettings
    } else if bytes_eq(menu_id, "restart_user_mode".as_bytes()) {
        TrayAction::RestartUserMode
    } else if bytes_eq(menu_id, "show_toolbar".as_bytes()) {
        TrayAction::ShowToolbar
    } else if bytes_eq(menu_id, "log_console".as_bytes()) {
        TrayAction::LogConsole
    } else if bytes_eq(menu_id, "prevent_sleep".as_bytes()) {
        TrayAction::PreventSleep
    } else if bytes_eq(menu_id, "debug_page".as_bytes()) {
        TrayAction::DebugPage
    } else if bytes_eq(menu_id, "check_update".as_bytes()) {
        TrayAction::CheckUpdate
    } else if bytes_eq(menu_id, "about".as_bytes()) {
        TrayAction::About
    } else if bytes_eq(menu_id, "quit".as_bytes()) {
        TrayAction::Quit
    } else {
        TrayAction::Unknown
    }
}

/// The words that the tray icon shows when the pointer rests on it.
pub fn tray_tooltip(is_admin: bool) -> (words: &'static str)
    ensures
        words.spec_bytes() == if is_admin {
            "Sunshine GUI (管理员)".spec_bytes()
        } else {
            "Sunshine GUI".spec_bytes()
        },
{
    if is_admin {
        "Sunshine GUI (管理员)"
    } else {
        "Sunshine GUI"
    }
}

} // verus!
