//! A verified core for a terminal task-list manager.
//!
//! The library owns the in-memory data model (named lists of checkable
//! tasks), the selection and mode state, the CRUD and navigation
//! operations with their validation and selection-repair rules, the
//! key-input dispatcher, and the textual persistence format. Terminal
//! rendering and file handling live outside the library and talk to it
//! through plain values.

pub mod app;
pub mod input;
pub mod laws;
pub mod model;
pub mod persist;
mod strutil;

pub use app::App;
pub use input::handle_input;
pub use input::InputOutcome;
pub use input::KeyInput;
pub use input::KeyKind;
pub use model::AppMode;
pub use model::List;
pub use model::OpError;
pub use model::Task;
pub use persist::load_lists;
pub use persist::parse_lists;
pub use persist::render_lists;
