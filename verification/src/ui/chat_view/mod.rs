//! The message-history pane of one open chat.

pub mod batch_laws;
pub mod compose_laws;
pub mod effect;
pub mod history;
pub mod index_laws;
pub mod laws;
pub mod live_laws;
pub mod markup;
pub mod menu;
pub mod mirror;
pub mod model;
pub mod names;
pub mod paging;
pub mod reading;
pub mod row_laws;
pub mod rows;
pub mod state;
pub mod view;
pub mod voice_row;

pub use view::ChatView;
