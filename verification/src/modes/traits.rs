//! The interfaces of the modes of operation. Output goes to a byte vector that the
//! caller hands in.
use vstd::prelude::*;

use crate::padding::traits::{Padding, PaddingError};
use crate::traits::{AESDecoder, AESEncoder};

verus! {

/// Why a decoder refused to finish.
#[derive(Debug)]
pub enum ModeError {
    /// The input ended inside a block; this many bytes of it were left over.
    PartialBlock(usize),
    /// The last block did not hold valid padding.
    Padding(PaddingError),
}

/// A block cipher mode that encrypts.
pub trait BlockCipherEncoderMode<Encoder: AESEncoder, PaddingStrategy: Padding<16>>: Sized {
    /// Takes more plaintext, writes the ciphertext of every block it completes and
    /// returns how many plaintext bytes those blocks hold.
    fn write_bytes(&mut self, data: &[u8], writer: &mut Vec<u8>) -> usize
        requires
            data@.len() + 16 <= usize::MAX,
    ;

    /// Pads and encrypts what is left of the plaintext, and returns how many bytes it wrote.
    fn finalise(self, writer: &mut Vec<u8>) -> usize;
}

/// A block cipher mode that decrypts.
pub trait BlockCipherDecoderMode<Decoder: AESDecoder, PaddingStrategy: Padding<16>>: Sized {
    /// Whether `finalise` can be called: the padding strategy accepts the block it would
    /// look at.
    spec fn can_finalise(&self) -> bool;

    /// Tells whether `finalise` can be called now.
    fn can_finalise_now(&self) -> (b: bool)
        ensures
            b == self.can_finalise(),
    ;

    /// Takes more ciphertext, writes the plaintext it can, and returns how many
    /// ciphertext bytes the blocks it completed hold.
    fn write_bytes(&mut self, data: &[u8], writer: &mut Vec<u8>) -> usize
        requires
            data@.len() + 16 <= usize::MAX,
    ;

    /// Writes what is left of the plaintext and returns how many bytes that was.
    fn finalise(self, writer: &mut Vec<u8>) -> Result<usize, ModeError>
        requires
            self.can_finalise(),
    ;
}

/// A stream cipher mode that encrypts.
pub trait StreamCipherEncoderMode<Encoder: AESEncoder>: Sized {
    /// Encrypts `data`, writes the ciphertext and returns how many bytes it took.
    fn write_bytes(&mut self, data: &[u8], writer: &mut Vec<u8>) -> usize;

    /// Ends the stream.
    fn finalise(self, writer: &mut Vec<u8>) -> usize;
}

/// A stream cipher mode that decrypts.
pub trait StreamCipherDecoderMode<Decoder: AESDecoder>: Sized {
    /// Decrypts `data`, writes the plaintext and returns how many bytes it took.
    fn write_bytes(&mut self, data: &[u8], writer: &mut Vec<u8>) -> usize;

    /// Ends the stream.
    fn finalise(self, writer: &mut Vec<u8>) -> usize;
}

} // verus!
