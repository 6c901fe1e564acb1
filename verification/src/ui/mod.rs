//! What the views show and how they react, without any widget.

pub mod chat_list;
pub mod chat_view;
pub mod login;
