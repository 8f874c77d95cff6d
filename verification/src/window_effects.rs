//! Selection of a window visual effect from its style name.
//!
//! The effect names accepted from the UI form a closed enumeration; any
//! unrecognized name maps to the no-op variant, which callers treat as
//! clearing the effects.

use vstd::prelude::*;

use crate::text::str_eq;

verus! {

/// The window visual effects the shell can apply, plus the no-op
/// variant for unrecognized names.
#[derive(Debug, Clone, Copy, PartialEq, Eq, Structural)]
pub enum WindowEffect {
    Sidebar,
    HeaderView,
    Sheet,
    Menu,
    Popover,
    HudWindow,
    Titlebar,
    Selection,
    ContentBackground,
    WindowBackground,
    Clear,
}

/// The total mapping from a style name to the effect it selects.
pub open spec fn effect_for(name: Seq<char>) -> WindowEffect {
    if name == "sidebar"@ {
        WindowEffect::Sidebar
    } else if name == "header"@ {
        WindowEffect::HeaderView
    } else if name == "sheet"@ {
        WindowEffect::Sheet
    } else if name == "menu"@ {
        WindowEffect::Menu
    } else if name == "popover"@ {
        WindowEffect::Popover
    } else if name == "hudWindow"@ {
        WindowEffect::HudWindow
    } else if name == "titlebar"@ {
        WindowEffect::Titlebar
    } else if name == "selection"@ {
        WindowEffect::Selection
    } else if name == "contentBackground"@ {
        WindowEffect::ContentBackground
    } else if name == "windowBackground"@ {
        WindowEffect::WindowBackground
    } else {
        WindowEffect::Clear
    }
}

/// Selects the effect for a style name; every name selects something,
/// unrecognized ones the no-op variant.
pub fn effect_for_name(name: &str) -> (r: WindowEffect)
    ensures
        r == effect_for(name@),
{
    if str_eq(name, "sidebar") {
        WindowEffect::Sidebar
    } else if str_eq(name, "header") {
        WindowEffect::HeaderView
    } else if str_eq(name, "sheet") {
        WindowEffect::Sheet
    } else if str_eq(name, "menu") {
        WindowEffect::Menu
    } else if str_eq(name, "popover") {
        WindowEffect::Popover
    } else if str_eq(name, "hudWindow") {
        WindowEffect::HudWindow
    } else if str_eq(name, "titlebar") {
        WindowEffect::Titlebar
    } else if str_eq(name, "selection") {
        WindowEffect::Selection
    } else if str_eq(name, "contentBackground") {
        WindowEffect::ContentBackground
    } else if str_eq(name, "windowBackground") {
        WindowEffect::WindowBackground
    } else {
        WindowEffect::Clear
    }
}

} // verus!
