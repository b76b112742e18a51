//! PKCS#7 padding: a block is filled up with copies of the number of bytes added.
use vstd::prelude::*;

use crate::padding::traits::{Padding, PaddingError};

verus! {

/// PKCS#7 padding of blocks of `SIZE` bytes.
pub struct PCKCS7Padding<const SIZE: usize> {}

/// The PKCS#7 padding of a partial block to `size` bytes: `size - len` copies of the byte
/// `size - len` (taken modulo 256, as a byte).
pub open spec fn pkcs7_pad(partial: Seq<u8>, size: nat) -> Seq<u8> {
    partial + Seq::new((size - partial.len()) as nat, |i: int| (size - partial.len()) as u8)
}

/// What PKCS#7 `remove_padding` answers for a block: the length of the message in it,
/// or why the block is refused. The last byte tells how many bytes of padding there are.
pub open spec fn pkcs7_unpad(block: Seq<u8>) -> Result<usize, PaddingError> {
    let size = block.len();
    let n = block[size - 1];
    if n == 0 {
        Err(PaddingError::InvalidPadding("Zero padding is not allowed"))
    } else if n > size {
        Err(PaddingError::InvalidPadding("Padding len greater than block len"))
    } else if exists|j: int| size - n <= j < size && block[j] != n {
        Err(PaddingError::InvalidPadding("Padding is not of expected length"))
    } else {
        Ok((size - n) as usize)
    }
}

impl<const SIZE: usize> Padding<SIZE> for PCKCS7Padding<SIZE> {
    open spec fn pad_spec(partial: Seq<u8>) -> Seq<u8> {
        pkcs7_pad(partial, SIZE as nat)
    }

    /// The last byte of the block is read, so the block must have one.
    open spec fn removable(last_block: Seq<u8>) -> bool {
        last_block.len() >= 1
    }

    open spec fn remove_padding_spec(last_block: Seq<u8>) -> Result<usize, PaddingError> {
        pkcs7_unpad(last_block)
    }

    fn pad_block(plaintext: &[u8]) -> (block: [u8; SIZE]) {
        let plaintext_len = plaintext.len();
        let padding_len = SIZE - plaintext_len;
        let mut slice = [padding_len as u8; SIZE];
        let mut i: usize = 0;
        while i < plaintext_len
            invariant
                plaintext_len == plaintext@.len() <= SIZE,
                slice@.len() == SIZE,
                padding_len == SIZE - plaintext_len,
                i <= plaintext_len,
                forall|j: int| 0 <= j < i ==> slice@[j] == plaintext@[j],
                forall|j: int| i <= j < SIZE ==> slice@[j] == padding_len as u8,
            decreases plaintext_len - i,
        {
            slice[i] = plaintext[i];
            i = i + 1;
        }
        assert(slice@ =~= pkcs7_pad(plaintext@, SIZE as nat));
        slice
    }

    fn can_remove(last_block: &[u8; SIZE]) -> (b: bool) {
        SIZE >= 1
    }

    fn remove_padding(last_block: &[u8; SIZE]) -> (r: Result<usize, PaddingError>)
        ensures
            (r is Ok) == (1 <= last_block@[SIZE - 1] <= SIZE && forall|j: int|
                SIZE - last_block@[SIZE - 1] <= j < SIZE ==> #[trigger] last_block@[j]
                    == last_block@[SIZE - 1]),
            r matches Ok(m) ==> m == SIZE - last_block@[SIZE - 1] && forall|j: int|
                m <= j < SIZE ==> #[trigger] last_block@[j] == SIZE - m,
    {
        let padding_len = last_block[SIZE - 1];
        if padding_len == 0 {
            return Err(PaddingError::InvalidPadding("Zero padding is not allowed"));
        }
        if padding_len as usize > SIZE {
            return Err(PaddingError::InvalidPadding("Padding len greater than block len"));
        }
        let plaintext_len = SIZE - padding_len as usize;
        let mut i = plaintext_len;
        while i < SIZE
            invariant
                plaintext_len <= i <= SIZE,
                last_block@.len() == SIZE,
                plaintext_len == SIZE - padding_len,
                padding_len == last_block@[SIZE - 1],
                forall|j: int| plaintext_len <= j < i ==> last_block@[j] == padding_len,
            decreases SIZE - i,
        {
            if last_block[i] != padding_len {
                return Err(PaddingError::InvalidPadding("Padding is not of expected length"));
            }
            i = i + 1;
        }
        Ok(plaintext_len)
    }
}

/// Removing the PKCS#7 padding of a padded partial block gives back the length of the
/// partial block, when the number of padding bytes fits in a byte.
pub proof fn lemma_pkcs7_unpad_pad(partial: Seq<u8>, size: nat)
    requires
        partial.len() < size,
        size - partial.len() <= 255,
    ensures
        pkcs7_unpad(pkcs7_pad(partial, size)) == Ok::<usize, PaddingError>(partial.len() as usize),
{
    let b = pkcs7_pad(partial, size);
    let n = (size - partial.len()) as u8;
    assert(b[size - 1] == n);
    assert(forall|j: int| size - n <= j < size ==> b[j] == n);
}

/// A block is accepted exactly when its last byte `n` lies between 1 and the block size
/// and the last `n` bytes all equal `n`; what is accepted is the length of the bytes
/// before them, and padding those bytes again gives back the block.
pub proof fn lemma_pkcs7_unpad_accepts(block: Seq<u8>)
    requires
        1 <= block.len() <= usize::MAX,
    ensures
        (pkcs7_unpad(block) is Ok) == (1 <= block.last() <= block.len() && forall|j: int|
            block.len() - block.last() <= j < block.len() ==> #[trigger] block[j]
                == block.last()),
        pkcs7_unpad(block) matches Ok(m) ==> {
            &&& m == block.len() - block.last()
            &&& forall|j: int| m <= j < block.len() ==> #[trigger] block[j] == block.len() - m
            &&& pkcs7_pad(block.take(m as int), block.len()) == block
        },
{
    let size = block.len();
    let n = block.last();
    if 1 <= n <= size && forall|j: int| size - n <= j < size ==> #[trigger] block[j] == n {
        let m = (size - n) as int;
        assert(pkcs7_unpad(block) == Ok::<usize, PaddingError>(m as usize));
        assert(pkcs7_pad(block.take(m), size) =~= block);
    } else if 1 <= n <= size {
        let j = choose|j: int| size - n <= j < size && block[j] != n;
        assert(size - n <= j < size && block[j] != n);
        assert(pkcs7_unpad(block) is Err);
    }
}

} // verus!
