//! The stages of the catalogue, from directory discovery to the printed pages.

pub mod collect;
pub mod command;
pub mod descriptor;
pub mod dirs;
pub mod entry;
pub mod icon;
pub mod page;
pub mod text;
