//! The items behind the rows of the two lists, chats and messages.

pub mod chat_object;
pub mod kind;
pub mod measure;
pub mod message_laws;
pub mod message_object;
pub mod send_status;


pub use chat_object::ChatObject;
pub use message_object::MessageObject;
