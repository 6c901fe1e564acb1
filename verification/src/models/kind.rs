//! Discriminants of a message's content kind, one per variant of
//! [`crate::models::message_object::MessageKind`].

use vstd::prelude::*;

verus! {

pub const TEXT: i32 = 0;

pub const PHOTO: i32 = 1;

pub const DOCUMENT: i32 = 2;

pub const VOICE: i32 = 3;

pub const STICKER: i32 = 4;

pub const VIDEO: i32 = 5;

pub const OTHER: i32 = 6;

} // verus!
