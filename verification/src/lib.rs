//! Rustify UI: the state, ordering and parsing rules behind a UI toolkit that
//! composes DOM views with GPU regions, each stated as a contract and proved.

pub mod binding;
pub mod catalog;
pub mod clipboard;
pub mod diagnostics;
pub mod draft;
pub mod drag;
pub mod files;
pub mod form;
pub mod gpu;
pub mod i18n;
pub mod job;
pub mod listeners;
pub mod mount;
pub mod overlay;
pub mod region;
pub mod report;
pub mod router;
pub mod scheduler;
pub mod selection;
pub mod shortcut;
pub mod strings;
pub mod task;
pub mod text;
pub mod theme;
pub mod toast;
pub mod unicode;
