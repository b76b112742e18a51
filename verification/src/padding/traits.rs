//! The padding interface.
use vstd::prelude::*;

verus! {

/// Why a padded block was refused.
#[derive(Debug)]
pub enum PaddingError {
    InvalidPadding(&'static str),
}

/// A way to pad the last block of a message to `SIZE` bytes and to take the padding off
/// again.
pub trait Padding<const SIZE: usize> {
    /// The padded block of a partial block.
    spec fn pad_spec(partial: Seq<u8>) -> Seq<u8>;

    /// The blocks that `remove_padding` accepts as input.
    spec fn removable(last_block: Seq<u8>) -> bool;

    /// The length of the message in a padded block, or why the block is refused.
    spec fn remove_padding_spec(last_block: Seq<u8>) -> Result<usize, PaddingError>;

    /// Pads a partial block to a full block.
    fn pad_block(partial: &[u8]) -> (block: [u8; SIZE])
        requires
            partial@.len() <= SIZE,
        ensures
            block@ == Self::pad_spec(partial@),
    ;

    /// Whether `remove_padding` accepts the block as input.
    fn can_remove(last_block: &[u8; SIZE]) -> (b: bool)
        ensures
            b == Self::removable(last_block@),
    ;

    /// Returns how many bytes of the padded block belong to the message.
    fn remove_padding(last_block: &[u8; SIZE]) -> (r: Result<usize, PaddingError>)
        requires
            Self::removable(last_block@),
        ensures
            r == Self::remove_padding_spec(last_block@),
            r matches Ok(n) ==> n <= SIZE,
    ;
}

} // verus!
