//! Editing core of a terminal-based text editor.
//!
//! The crate owns the in-memory text buffer, the cursor, the visible
//! window over the document, a generation-stamped cache of syntax
//! highlighting, the translation of input events into editor commands,
//! render planning, and the load/save text codec.  Terminal I/O and the
//! file system stay outside; the highlighting collaborator is called
//! through a narrow trusted boundary.

pub mod buffer;
pub mod cursor;
pub mod dispatch;
pub mod highlight;
pub mod persist;
pub mod render;
pub mod session;
pub mod startup;
pub mod viewport;
