//! A fixed catalog of Neovim keyboard shortcuts, searchable by description.
//!
//! [`Categories::new`] builds the catalog, [`Categories::select`] restricts
//! it to what a query matches, and [`Categories::get_tables`] lays the
//! result out as tables, one for each category.

pub mod catalog;
pub mod category;
pub mod laws;
pub mod query;
pub mod shortcut;
pub mod table;
pub mod text;

pub use crate::catalog::Categories;
pub use crate::category::ShortcutsCategory;
pub use crate::shortcut::Shortcut;
