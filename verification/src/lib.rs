//! Popup menus for system tray icons, with the icon and pointer logic that
//! the native tray backends share.
//!
//! The menu model ([`PopupMenu`] and its entries) is built here; a native
//! backend turns it into a [`MenuPlan`], performs the plan's steps with the
//! platform's menu API, and maps the platform's answer back to an [`ItemId`]
//! with the plan's selection table.

pub mod entry;
pub mod event;
pub mod icon;
pub mod linux;
pub mod macos;
pub mod menu;
pub mod windows;

pub use entry::{
    AsEntry, CheckEntry, CheckModel, Divider, EntryKind, EntryModel, ItemId, PopupMenu,
    SubMenu, SubMenuModel, TextEntry, TextModel,
};
pub use menu::{Backend, MenuOp, MenuPlan, OpModel};
