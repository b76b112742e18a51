//! Block cipher modes of operation.
pub mod cbc;
pub mod ctr;
pub mod ecb;
pub mod helpers;
pub mod traits;
