//! AES-128 in software, with the ECB, CBC and CTR modes of operation, PKCS#7 and zero
//! padding, and the CBC padding oracle attack, verified with Verus.
pub mod aes_spec;
pub mod attacks;
pub mod gf;
pub mod hw;
pub mod modes;
pub mod padding;
pub mod traits;
