//! Zero padding: a block is filled up with zero bytes.
use vstd::prelude::*;

use crate::padding::traits::{Padding, PaddingError};

verus! {

/// Zero padding of blocks of `SIZE` bytes.
pub struct ZeroPadding<const SIZE: usize> {}

/// The zero padding of a partial block to `size` bytes.
pub open spec fn zero_pad(partial: Seq<u8>, size: nat) -> Seq<u8> {
    partial + Seq::new((size - partial.len()) as nat, |i: int| 0u8)
}

/// The length of `block` without its trailing zero bytes.
pub open spec fn trimmed_len(block: Seq<u8>) -> nat
    decreases block.len(),
{
    if block.len() == 0 {
        0
    } else if block.last() != 0 {
        block.len()
    } else {
        trimmed_len(block.drop_last())
    }
}

impl<const SIZE: usize> Padding<SIZE> for ZeroPadding<SIZE> {
    open spec fn pad_spec(partial: Seq<u8>) -> Seq<u8> {
        zero_pad(partial, SIZE as nat)
    }

    /// A block of zeros only has no message byte to find.
    open spec fn removable(last_block: Seq<u8>) -> bool {
        exists|j: int| 0 <= j < last_block.len() && last_block[j] != 0
    }

    open spec fn remove_padding_spec(last_block: Seq<u8>) -> Result<usize, PaddingError> {
        Ok(trimmed_len(last_block) as usize)
    }

    fn pad_block(plaintext: &[u8]) -> (block: [u8; SIZE]) {
        let plaintext_len = plaintext.len();
        let mut slice = [0u8; SIZE];
        let mut i: usize = 0;
        while i < plaintext_len
            invariant
                plaintext_len == plaintext@.len() <= SIZE,
                slice@.len() == SIZE,
                i <= plaintext_len,
                forall|j: int| 0 <= j < i ==> slice@[j] == plaintext@[j],
                forall|j: int| i <= j < SIZE ==> slice@[j] == 0u8,
            decreases plaintext_len - i,
        {
            slice[i] = plaintext[i];
            i = i + 1;
        }
        assert(slice@ =~= zero_pad(plaintext@, SIZE as nat));
        slice
    }

    fn can_remove(last_block: &[u8; SIZE]) -> (b: bool) {
        let mut i: usize = 0;
        while i < SIZE
            invariant
                i <= SIZE,
                last_block@.len() == SIZE,
                forall|j: int| 0 <= j < i ==> last_block@[j] == 0,
            decreases SIZE - i,
        {
            if last_block[i] != 0 {
                return true;
            }
            i = i + 1;
        }
        false
    }

    fn remove_padding(last_block: &[u8; SIZE]) -> (r: Result<usize, PaddingError>) {
        let mut i: usize = SIZE - 1;
        proof {
            assert(last_block@.take(SIZE as int) =~= last_block@);
        }
        while last_block[i] == 0
            invariant
                i < SIZE,
                last_block@.len() == SIZE,
                exists|j: int| 0 <= j <= i && last_block@[j] != 0,
                trimmed_len(last_block@) == trimmed_len(last_block@.take(i + 1)),
            decreases i,
        {
            proof {
                let t = last_block@.take(i + 1);
                assert(t.drop_last() =~= last_block@.take(i as int));
            }
            i = i - 1;
        }
        proof {
            assert(last_block@.take(i + 1).last() == last_block@[i as int]);
        }
        Ok(i + 1)
    }
}

/// Removing the zero padding of a padded partial block gives back the length of the
/// partial block, when its last byte is not zero.
pub proof fn lemma_zero_unpad_pad(partial: Seq<u8>, size: nat)
    requires
        0 < partial.len() <= size,
        partial.last() != 0,
    ensures
        exists|j: int| 0 <= j < size && #[trigger] zero_pad(partial, size)[j] != 0,
        trimmed_len(zero_pad(partial, size)) == partial.len(),
{
    let b = zero_pad(partial, size);
    assert(b[partial.len() - 1] != 0);
    lemma_trimmed_len_of_padded(partial, size, size as int);
    assert(b.take(size as int) =~= b);
}

proof fn lemma_trimmed_len_of_padded(partial: Seq<u8>, size: nat, n: int)
    requires
        0 < partial.len() <= n <= size,
        partial.last() != 0,
    ensures
        trimmed_len(zero_pad(partial, size).take(n)) == partial.len(),
    decreases n,
{
    let b = zero_pad(partial, size).take(n);
    if n == partial.len() {
        assert(b.last() == partial.last());
    } else {
        assert(b.last() == 0);
        assert(b.drop_last() =~= zero_pad(partial, size).take(n - 1));
        lemma_trimmed_len_of_padded(partial, size, n - 1);
    }
}

} // verus!
