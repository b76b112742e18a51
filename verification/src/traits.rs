//! Operations on 16-byte blocks and the round structure of an AES-128 block cipher.
use vstd::prelude::*;

use crate::aes_spec::xor_bytes;

verus! {

/// Lowercase hexadecimal digit of a value below 16.
pub open spec fn hex_digit(n: u8) -> char {
    if n < 10 {
        (48 + n) as char
    } else {
        (87 + n) as char
    }
}

/// Lowercase hexadecimal rendering of bytes, two digits per byte.
pub open spec fn hex_string(bytes: Seq<u8>) -> Seq<char>
    decreases bytes.len(),
{
    if bytes.len() == 0 {
        Seq::empty()
    } else {
        hex_string(bytes.drop_last()) + seq![
            hex_digit(bytes.last() >> 4u8),
            hex_digit(bytes.last() & 0x0fu8),
        ]
    }
}

fn hex_digit_str(n: u8) -> (s: &'static str)
    requires
        n < 16,
    ensures
        s@ == seq![hex_digit(n)],
{
    proof {
        reveal_strlit("0");
        reveal_strlit("1");
        reveal_strlit("2");
        reveal_strlit("3");
        reveal_strlit("4");
        reveal_strlit("5");
        reveal_strlit("6");
        reveal_strlit("7");
        reveal_strlit("8");
        reveal_strlit("9");
        reveal_strlit("a");
        reveal_strlit("b");
        reveal_strlit("c");
        reveal_strlit("d");
        reveal_strlit("e");
        reveal_strlit("f");
    }
    if n == 0 {
        "0"
    } else if n == 1 {
        "1"
    } else if n == 2 {
        "2"
    } else if n == 3 {
        "3"
    } else if n == 4 {
        "4"
    } else if n == 5 {
        "5"
    } else if n == 6 {
        "6"
    } else if n == 7 {
        "7"
    } else if n == 8 {
        "8"
    } else if n == 9 {
        "9"
    } else if n == 10 {
        "a"
    } else if n == 11 {
        "b"
    } else if n == 12 {
        "c"
    } else if n == 13 {
        "d"
    } else if n == 14 {
        "e"
    } else {
        "f"
    }
}

/// Operations on a cipher block of `SIZE` bytes.
pub trait BlockOp<const SIZE: usize>: Sized {
    /// The bytes of the block.
    spec fn bytes(&self) -> Seq<u8>;

    /// The block as lowercase hexadecimal.
    fn display(&self) -> (s: String)
        ensures
            s@ == hex_string(self.bytes()),
    ;

    /// The block holding the given bytes.
    fn from_slice(slice: &[u8; SIZE]) -> (b: Self)
        ensures
            b.bytes() == slice@,
    ;

    /// The bytes of the block.
    fn to_slice(self) -> (b: [u8; SIZE])
        ensures
            b@ == self.bytes(),
    ;

    /// Bytewise xor of two blocks.
    fn xor(&self, other: &Self) -> (r: Self)
        ensures
            r.bytes() == xor_bytes(self.bytes(), other.bytes()),
    ;

    /// The block size in bytes.
    fn size() -> (n: usize)
        ensures
            n == SIZE,
    ;
}

impl<const SIZE: usize> BlockOp<SIZE> for [u8; SIZE] {
    open spec fn bytes(&self) -> Seq<u8> {
        self@
    }

    fn display(&self) -> (s: String) {
        let mut s = String::new();
        let mut i: usize = 0;
        while i < SIZE
            invariant
                i <= SIZE,
                self@.len() == SIZE,
                s@ == hex_string(self@.take(i as int)),
            decreases SIZE - i,
        {
            let b = self[i];
            assert(b >> 4u8 < 16u8 && b & 0x0fu8 < 16u8) by (bit_vector);
            s.append(hex_digit_str(b >> 4u8));
            s.append(hex_digit_str(b & 0x0fu8));
            assert(self@.take(i + 1).drop_last() =~= self@.take(i as int));
            i = i + 1;
        }
        assert(self@.take(SIZE as int) =~= self@);
        s
    }

    fn from_slice(slice: &[u8; SIZE]) -> (b: Self)
        ensures
            b == *slice,
    {
        *slice
    }

    fn to_slice(self) -> (b: [u8; SIZE])
        ensures
            b == self,
    {
        self
    }

    fn xor(&self, other: &Self) -> (r: Self) {
        let mut r = [0u8; SIZE];
        let mut i: usize = 0;
        while i < SIZE
            invariant
                i <= SIZE,
                r@.len() == SIZE,
                self@.len() == SIZE,
                other@.len() == SIZE,
                forall|j: int| 0 <= j < i ==> r@[j] == self@[j] ^ other@[j],
            decreases SIZE - i,
        {
            r[i] = self[i] ^ other[i];
            i = i + 1;
        }
        assert(r@ =~= xor_bytes(self@, other@));
        assert(r.bytes() == xor_bytes(self.bytes(), other.bytes()));
        r
    }

    fn size() -> (n: usize) {
        SIZE
    }
}

/// A block of `SIZE` bytes that can be copied and operated on.
pub trait Blockable<const SIZE: usize>: Copy + BlockOp<SIZE> {}

impl<const SIZE: usize, T: Copy + BlockOp<SIZE>> Blockable<SIZE> for T {}

/// An AES-128 encoder, given by its rounds and its key schedule.
pub trait AESEncoder: Sized {
    /// What the initial round computes.
    spec fn first_round_spec(state: Seq<u8>, rkey: Seq<u8>) -> Seq<u8>;

    /// What an inner round computes.
    spec fn round_spec(state: Seq<u8>, rkey: Seq<u8>) -> Seq<u8>;

    /// What the final round computes.
    spec fn final_round_spec(state: Seq<u8>, rkey: Seq<u8>) -> Seq<u8>;

    /// The eleven round keys of a cipher key.
    spec fn round_keys_spec(key: Seq<u8>) -> Seq<Seq<u8>>;

    /// The initial round: the state combined with the first round key.
    fn do_first_round(plaintext: [u8; 16], rkey: &[u8; 16]) -> (r: [u8; 16])
        ensures
            r@ == Self::first_round_spec(plaintext@, rkey@),
    ;

    /// An inner round with the round key `rkey`.
    fn do_round(state: [u8; 16], rkey: &[u8; 16]) -> (r: [u8; 16])
        ensures
            r@ == Self::round_spec(state@, rkey@),
    ;

    /// The final round with the last round key.
    fn do_final_round(state: [u8; 16], rkey: &[u8; 16]) -> (r: [u8; 16])
        ensures
            r@ == Self::final_round_spec(state@, rkey@),
    ;

    /// The eleven round keys of `key`, in the order the rounds use them.
    fn gen_keys(key: [u8; 16]) -> (keys: [[u8; 16]; 11])
        ensures
            Self::round_keys_spec(key@).len() == 11,
            forall|i: int| 0 <= i < 11 ==> #[trigger] keys[i]@ == Self::round_keys_spec(key@)[i],
    ;

    /// Encrypts one block.
    fn encrypt(plaintext: [u8; 16], key: [u8; 16]) -> (c: [u8; 16])
        ensures
            ({
                let ks = Self::round_keys_spec(key@);
                let s0 = Self::first_round_spec(plaintext@, ks[0]);
                let s1 = Self::round_spec(s0, ks[1]);
                let s2 = Self::round_spec(s1, ks[2]);
                let s3 = Self::round_spec(s2, ks[3]);
                let s4 = Self::round_spec(s3, ks[4]);
                let s5 = Self::round_spec(s4, ks[5]);
                let s6 = Self::round_spec(s5, ks[6]);
                let s7 = Self::round_spec(s6, ks[7]);
                let s8 = Self::round_spec(s7, ks[8]);
                let s9 = Self::round_spec(s8, ks[9]);
                c@ == Self::final_round_spec(s9, ks[10])
            }),
    {
        let keys = Self::gen_keys(key);
        let ghost ks = Self::round_keys_spec(key@);
        let first_rkey = keys[0];
        let mut state = Self::do_first_round(plaintext, &first_rkey);
        let ghost mut states: Seq<Seq<u8>> = seq![state@];
        let mut i: usize = 1;
        while i < 10
            invariant
                1 <= i <= 10,
                ks == Self::round_keys_spec(key@),
                ks.len() == 11,
                forall|j: int| 0 <= j < 11 ==> #[trigger] keys[j]@ == ks[j],
                states.len() == i,
                states[0] == Self::first_round_spec(plaintext@, ks[0]),
                forall|j: int| 0 < j < i ==> #[trigger] states[j] == Self::round_spec(states[j - 1], ks[j]),
                state@ == states[i - 1],
            decreases 10 - i,
        {
            let rkey = keys[i];
            state = Self::do_round(state, &rkey);
            proof {
                states = states.push(state@);
            }
            i = i + 1;
        }
        let last_rkey = keys[10];
        Self::do_final_round(state, &last_rkey)
    }
}

/// An AES-128 decoder, given by its rounds and its key schedule.
pub trait AESDecoder: Sized {
    /// What the initial round computes.
    spec fn first_round_spec(state: Seq<u8>, rkey: Seq<u8>) -> Seq<u8>;

    /// What an inner round computes.
    spec fn round_spec(state: Seq<u8>, rkey: Seq<u8>) -> Seq<u8>;

    /// What the final round computes.
    spec fn final_round_spec(state: Seq<u8>, rkey: Seq<u8>) -> Seq<u8>;

    /// The eleven round keys of a cipher key.
    spec fn round_keys_spec(key: Seq<u8>) -> Seq<Seq<u8>>;

    /// The initial round: the state combined with the first round key.
    fn do_first_round(ciphertext: [u8; 16], rkey: &[u8; 16]) -> (r: [u8; 16])
        ensures
            r@ == Self::first_round_spec(ciphertext@, rkey@),
    ;

    /// An inner round with the round key `rkey`.
    fn do_round(state: [u8; 16], rkey: &[u8; 16]) -> (r: [u8; 16])
        ensures
            r@ == Self::round_spec(state@, rkey@),
    ;

    /// The final round with the last round key.
    fn do_final_round(state: [u8; 16], rkey: &[u8; 16]) -> (r: [u8; 16])
        ensures
            r@ == Self::final_round_spec(state@, rkey@),
    ;

    /// The eleven round keys of `key`, in the order the rounds use them.
    fn gen_keys(key: [u8; 16]) -> (keys: [[u8; 16]; 11])
        ensures
            Self::round_keys_spec(key@).len() == 11,
            forall|i: int| 0 <= i < 11 ==> #[trigger] keys[i]@ == Self::round_keys_spec(key@)[i],
    ;

    /// Decrypts one block.
    fn decrypt(ciphertext: [u8; 16], key: [u8; 16]) -> (p: [u8; 16])
        ensures
            ({
                let ks = Self::round_keys_spec(key@);
                let s0 = Self::first_round_spec(ciphertext@, ks[0]);
                let s1 = Self::round_spec(s0, ks[1]);
                let s2 = Self::round_spec(s1, ks[2]);
                let s3 = Self::round_spec(s2, ks[3]);
                let s4 = Self::round_spec(s3, ks[4]);
                let s5 = Self::round_spec(s4, ks[5]);
                let s6 = Self::round_spec(s5, ks[6]);
                let s7 = Self::round_spec(s6, ks[7]);
                let s8 = Self::round_spec(s7, ks[8]);
                let s9 = Self::round_spec(s8, ks[9]);
                p@ == Self::final_round_spec(s9, ks[10])
            }),
    {
        let keys = Self::gen_keys(key);
        let ghost ks = Self::round_keys_spec(key@);
        let first_rkey = keys[0];
        let mut state = Self::do_first_round(ciphertext, &first_rkey);
        let ghost mut states: Seq<Seq<u8>> = seq![state@];
        let mut i: usize = 1;
        while i < 10
            invariant
                1 <= i <= 10,
                ks == Self::round_keys_spec(key@),
                ks.len() == 11,
                forall|j: int| 0 <= j < 11 ==> #[trigger] keys[j]@ == ks[j],
                states.len() == i,
                states[0] == Self::first_round_spec(ciphertext@, ks[0]),
                forall|j: int| 0 < j < i ==> #[trigger] states[j] == Self::round_spec(states[j - 1], ks[j]),
                state@ == states[i - 1],
            decreases 10 - i,
        {
            let rkey = keys[i];
            state = Self::do_round(state, &rkey);
            proof {
                states = states.push(state@);
            }
            i = i + 1;
        }
        let last_rkey = keys[10];
        Self::do_final_round(state, &last_rkey)
    }
}

/// What `E::encrypt` computes: the initial round, nine inner rounds and the final round
/// of the encoder `E`, with the eleven round keys of `key`.
#[verifier::opaque]
pub open spec fn encrypt_spec<E: AESEncoder>(plaintext: Seq<u8>, key: Seq<u8>) -> Seq<u8> {
    let ks = E::round_keys_spec(key);
    let s0 = E::first_round_spec(plaintext, ks[0]);
    let s1 = E::round_spec(s0, ks[1]);
    let s2 = E::round_spec(s1, ks[2]);
    let s3 = E::round_spec(s2, ks[3]);
    let s4 = E::round_spec(s3, ks[4]);
    let s5 = E::round_spec(s4, ks[5]);
    let s6 = E::round_spec(s5, ks[6]);
    let s7 = E::round_spec(s6, ks[7]);
    let s8 = E::round_spec(s7, ks[8]);
    let s9 = E::round_spec(s8, ks[9]);
    E::final_round_spec(s9, ks[10])
}

/// What `D::decrypt` computes: the initial round, nine inner rounds and the final round
/// of the decoder `D`, with the eleven round keys of `key`.
#[verifier::opaque]
pub open spec fn decrypt_spec<D: AESDecoder>(ciphertext: Seq<u8>, key: Seq<u8>) -> Seq<u8> {
    let ks = D::round_keys_spec(key);
    let s0 = D::first_round_spec(ciphertext, ks[0]);
    let s1 = D::round_spec(s0, ks[1]);
    let s2 = D::round_spec(s1, ks[2]);
    let s3 = D::round_spec(s2, ks[3]);
    let s4 = D::round_spec(s3, ks[4]);
    let s5 = D::round_spec(s4, ks[5]);
    let s6 = D::round_spec(s5, ks[6]);
    let s7 = D::round_spec(s6, ks[7]);
    let s8 = D::round_spec(s7, ks[8]);
    let s9 = D::round_spec(s8, ks[9]);
    D::final_round_spec(s9, ks[10])
}

} // verus!
