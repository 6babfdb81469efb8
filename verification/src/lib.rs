//! An in-memory to-do list.
//!
//! [`TodoManager`] owns a sequence of [`Todo`] items. It numbers them 1, 2, 3,
//! ... as they are added, stores their titles trimmed, and lets an item be
//! toggled between pending and completed. What the list holds is described by
//! [`model::ManagerView`], and every operation is specified against it.

pub mod error;
pub mod laws;
pub mod manager;
pub mod menu;
pub mod model;
pub mod number;
pub mod text;
pub mod todo;

pub use error::{LookupError, ValidationError};
pub use manager::TodoManager;
pub use menu::MenuChoice;
pub use model::ManagerView;
pub use todo::{Todo, TodoView};
