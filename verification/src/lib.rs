//! Plugin-manifest handling and tray-panel decisions for the OpenUsage tray app.
//!
//! - [`text`]: the string operations the manifest rules are written in
//!   (Unicode whitespace trimming, prefix tests, equality).
//! - [`manifest`]: the plugin manifest types and their rules: link
//!   sanitizing, the weekly-metric candidate, the settings that are ignored.
//! - [`entry_path`]: the check that a plugin's entry script stays inside the
//!   plugin directory.
//! - [`plugin`]: a loaded plugin (checked manifest, entry script, icon as a
//!   `data:` url) and the order in which plugins are listed.
//! - [`panel`]: the tray-panel state machine (show/hide/toggle and the
//!   reopen guard after a focus-loss hide).
use vstd::prelude::*;

pub mod text;
pub mod manifest;
pub mod entry_path;
pub mod plugin;
pub mod panel;

verus! {

} // verus!
