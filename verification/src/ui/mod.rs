//! UI framework: entities, widgets and dialogs.

pub mod dialog;
pub mod dialog_flags;
pub mod entity;
pub mod vtable_tags;
pub mod widget;
