//! Padding of the last, partial block of a message.
pub mod pkcs7;
pub mod traits;
pub mod zeropad;
