//! Line attribution for an editor: which revision last changed the line under
//! the cursor, kept fresh while the buffer is edited, and rendered through a
//! small template language.

pub mod blame;
pub mod commit;
pub mod date;
pub mod decoration;
pub mod handler;
pub mod handler_laws;
pub mod line;
pub mod store;
pub mod template;
pub mod template_laws;
pub mod text;
pub mod time;
