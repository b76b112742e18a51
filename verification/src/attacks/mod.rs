//! Attacks on the modes of operation.
pub mod padding_oracle;
