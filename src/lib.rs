//! Window and keyboard-layout tracking for a desktop panel: the decisions of a
//! compositor-protocol client and of the panel around it, stated and proved
//! over plain values. Connections, threads, files and widgets stay with the
//! caller.

pub mod text;

pub mod toplevel_state;
pub mod registry;
pub mod bridge;
pub mod keymap;
pub mod dispatch;

pub mod show_desktop;
pub mod icons;
pub mod taskbar;
pub mod pinned;
pub mod locales;
pub mod launcher;
pub mod wifi;
