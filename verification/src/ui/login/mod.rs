//! The login pages: phone number, code, two-factor password and QR sign-in.

pub mod entry;
pub mod qr;
