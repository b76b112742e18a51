//! Counter mode: the plaintext is xored with a key stream made of the encryptions of
//! successive counter blocks. The last 8 bytes of the counter block are a big-endian
//! 64-bit counter that wraps around.
use std::marker::PhantomData;
use vstd::prelude::*;

use crate::aes_spec::{lemma_xor_bytes_cancel, xor_bytes};
use crate::modes::helpers::write_all;
use crate::modes::traits::StreamCipherEncoderMode;
use crate::traits::{encrypt_spec, AESEncoder, BlockOp};

verus! {

/// The big-endian value of the first 8 bytes of `b`.
pub open spec fn be_u64(b: Seq<u8>) -> u64 {
    ((b[0] as u64) << 56u64) | ((b[1] as u64) << 48u64) | ((b[2] as u64) << 40u64) | ((
    b[3] as u64) << 32u64) | ((b[4] as u64) << 24u64) | ((b[5] as u64) << 16u64) | ((
    b[6] as u64) << 8u64) | (b[7] as u64)
}

/// The big-endian bytes of `v`.
pub open spec fn be_bytes(v: u64) -> Seq<u8> {
    seq![
        (v >> 56u64) as u8,
        (v >> 48u64) as u8,
        (v >> 40u64) as u8,
        (v >> 32u64) as u8,
        (v >> 24u64) as u8,
        (v >> 16u64) as u8,
        (v >> 8u64) as u8,
        v as u8,
    ]
}

/// The counter value of a counter block: its last 8 bytes, big-endian.
pub open spec fn counter_value(block: Seq<u8>) -> u64 {
    be_u64(block.skip(8))
}

/// The next counter block: the first 8 bytes kept, the counter plus one (wrapping).
pub open spec fn inc_counter(block: Seq<u8>) -> Seq<u8> {
    block.take(8) + be_bytes(counter_value(block).wrapping_add(1u64))
}

/// The state of counter mode: the counter block, how many bytes of the current key
/// stream block are used, and the current key stream block.
pub type CtrState = (Seq<u8>, nat, Seq<u8>);

/// The state after one byte: when the key stream block is used up, the counter moves
/// on and the next key stream block is its encryption.
pub open spec fn ctr_step<E: AESEncoder>(key: Seq<u8>, st: CtrState) -> CtrState {
    if st.1 + 1 == 16 {
        let c = inc_counter(st.0);
        (c, 0, encrypt_spec::<E>(c, key))
    } else {
        (st.0, st.1 + 1, st.2)
    }
}

/// The state after `n` bytes.
pub open spec fn ctr_advance<E: AESEncoder>(key: Seq<u8>, st: CtrState, n: nat) -> CtrState
    decreases n,
{
    if n == 0 {
        st
    } else {
        ctr_step::<E>(key, ctr_advance::<E>(key, st, (n - 1) as nat))
    }
}

/// The next `n` bytes of the key stream.
pub open spec fn ctr_keystream<E: AESEncoder>(key: Seq<u8>, st: CtrState, n: nat) -> Seq<u8>
    decreases n,
{
    if n == 0 {
        Seq::empty()
    } else {
        let s = ctr_advance::<E>(key, st, (n - 1) as nat);
        ctr_keystream::<E>(key, st, (n - 1) as nat).push(s.2[s.1 as int])
    }
}

/// Counter mode encryption.
pub struct CTREncrypt<Encoder: AESEncoder> {
    key: [u8; 16],
    encoder: PhantomData<Encoder>,
    iv_ctr: [u8; 16],
    used_bytes: usize,
    key_stream: [u8; 16],
}

impl<Encoder: AESEncoder> CTREncrypt<Encoder> {
    #[verifier::type_invariant]
    spec fn wf(self) -> bool {
        self.used_bytes < 16
    }

    /// The cipher key.
    pub closed spec fn key(self) -> Seq<u8> {
        self.key@
    }

    /// The counter block, the bytes used of the key stream block, and the key stream block.
    pub closed spec fn state(self) -> CtrState {
        (self.iv_ctr@, self.used_bytes as nat, self.key_stream@)
    }

    /// A counter mode encoder whose first counter block follows `iv`.
    pub fn new(key: [u8; 16], iv: [u8; 16]) -> (e: Self)
        ensures
            e.key() == key@,
            e.state() == (inc_counter(iv@), 0nat, encrypt_spec::<Encoder>(inc_counter(iv@), key@)),
            e.state().0.len() == 16,
            e.state().2.len() == 16,
    {
        let mut encoder = Self {
            key,
            encoder: PhantomData,
            iv_ctr: iv.to_slice(),
            used_bytes: 0,
            key_stream: [0; 16],
        };
        // generate the first block: the counter starts from the iv
        encoder.make_next_block();
        encoder
    }

    /// Moves to the next counter block and encrypts it into the key stream block.
    pub fn make_next_block(&mut self)
        ensures
            final(self).key() == old(self).key(),
            final(self).state().0.len() == 16,
            final(self).state().2.len() == 16,
            final(self).state() == (
                inc_counter(old(self).state().0),
                old(self).state().1,
                encrypt_spec::<Encoder>(inc_counter(old(self).state().0), old(self).key()),
            ),
    {
        proof {
            use_type_invariant(&*self);
        }
        self.increment_key();
        self.key_stream = Encoder::encrypt(self.iv_ctr, self.key);
        proof {
            reveal(encrypt_spec);
        }
    }

    /// Adds one to the big-endian counter in the last 8 bytes of the counter block.
    pub fn increment_key(&mut self)
        ensures
            final(self).key() == old(self).key(),
            final(self).state().0.len() == 16,
            final(self).state().2.len() == 16,
            final(self).state() == (
                inc_counter(old(self).state().0),
                old(self).state().1,
                old(self).state().2,
            ),
    {
        proof {
            use_type_invariant(&*self);
        }
        let b = self.iv_ctr;
        // the counter is big-endian
        let mut ctr: u64 = ((b[8] as u64) << 56u64) | ((b[9] as u64) << 48u64) | ((
        b[10] as u64) << 40u64) | ((b[11] as u64) << 32u64) | ((b[12] as u64) << 24u64) | ((
        b[13] as u64) << 16u64) | ((b[14] as u64) << 8u64) | (b[15] as u64);
        assert(ctr == counter_value(b@));
        ctr = ctr.wrapping_add(1);
        let mut next = b;
        next[8] = (#[verifier::truncate] ((ctr >> 56u64) as u8));
        next[9] = (#[verifier::truncate] ((ctr >> 48u64) as u8));
        next[10] = (#[verifier::truncate] ((ctr >> 40u64) as u8));
        next[11] = (#[verifier::truncate] ((ctr >> 32u64) as u8));
        next[12] = (#[verifier::truncate] ((ctr >> 24u64) as u8));
        next[13] = (#[verifier::truncate] ((ctr >> 16u64) as u8));
        next[14] = (#[verifier::truncate] ((ctr >> 8u64) as u8));
        next[15] = (#[verifier::truncate] (ctr as u8));
        assert(next@ =~= inc_counter(b@));
        self.iv_ctr = next;
    }
}

impl<Encoder: AESEncoder> StreamCipherEncoderMode<Encoder> for CTREncrypt<Encoder> {
    fn write_bytes(&mut self, data: &[u8], writer: &mut Vec<u8>) -> (n: usize)
        ensures
            n == data@.len(),
            final(writer)@ == old(writer)@ + xor_bytes(
                data@,
                ctr_keystream::<Encoder>(old(self).key(), old(self).state(), data@.len()),
            ),
            final(self).key() == old(self).key(),
            final(self).state().0.len() == 16,
            final(self).state().2.len() == 16,
            final(self).state() == ctr_advance::<Encoder>(
                old(self).key(),
                old(self).state(),
                data@.len(),
            ),
    {
        let ghost key = self.key@;
        let ghost st = self.state();
        let mut i: usize = 0;
        while i < data.len()
            invariant
                i <= data@.len(),
                key == self.key@,
                key == old(self).key(),
                st == old(self).state(),
                self.state() == ctr_advance::<Encoder>(key, st, i as nat),
                writer@ == old(writer)@ + xor_bytes(
                    data@.take(i as int),
                    ctr_keystream::<Encoder>(key, st, i as nat),
                ),
                ctr_keystream::<Encoder>(key, st, i as nat).len() == i,
            decreases data@.len() - i,
        {
            proof {
                use_type_invariant(&*self);
            }
            let key_stream_offset = self.used_bytes;
            let ciphertext = data[i] ^ self.key_stream[key_stream_offset];
            let ghost before = writer@;
            write_all(writer, [ciphertext].as_slice());
            let next = self.used_bytes + 1;
            if next == 16 {
                self.make_next_block();
                self.used_bytes = 0;
            } else {
                self.used_bytes = next;
            }
            proof {
                assert(writer@ =~= before.push(ciphertext));
                assert(data@.take(i + 1).drop_last() =~= data@.take(i as int));
            }
            i = i + 1;
            proof {
                assert(writer@ =~= old(writer)@ + xor_bytes(
                    data@.take(i as int),
                    ctr_keystream::<Encoder>(key, st, i as nat),
                ));
            }
        }
        assert(data@.take(i as int) =~= data@);
        data.len()
    }

    fn finalise(self, writer: &mut Vec<u8>) -> (n: usize)
        ensures
            n == 0,
            final(writer)@ == old(writer)@,
    {
        0
    }
}

/// The key stream has the length asked for.
pub proof fn lemma_ctr_keystream_len<E: AESEncoder>(key: Seq<u8>, st: CtrState, n: nat)
    ensures
        ctr_keystream::<E>(key, st, n).len() == n,
    decreases n,
{
    if n > 0 {
        lemma_ctr_keystream_len::<E>(key, st, (n - 1) as nat);
    }
}

/// Going `n + m` bytes forward is going `n` bytes and then `m` bytes forward, and the
/// key stream of `n + m` bytes is that of the first `n` followed by that of the next `m`.
pub proof fn lemma_ctr_split<E: AESEncoder>(key: Seq<u8>, st: CtrState, n: nat, m: nat)
    ensures
        ctr_advance::<E>(key, st, n + m) == ctr_advance::<E>(
            key,
            ctr_advance::<E>(key, st, n),
            m,
        ),
        ctr_keystream::<E>(key, st, n + m) == ctr_keystream::<E>(key, st, n) + ctr_keystream::<E>(
            key,
            ctr_advance::<E>(key, st, n),
            m,
        ),
    decreases m,
{
    if m == 0 {
        assert(ctr_keystream::<E>(key, st, n) + ctr_keystream::<E>(
            key,
            ctr_advance::<E>(key, st, n),
            0,
        ) =~= ctr_keystream::<E>(key, st, n));
    } else {
        lemma_ctr_split::<E>(key, st, n, (m - 1) as nat);
        assert((n + m - 1) as nat == n + (m - 1) as nat);
        assert(ctr_keystream::<E>(key, st, n + m) =~= ctr_keystream::<E>(key, st, n)
            + ctr_keystream::<E>(key, ctr_advance::<E>(key, st, n), m));
    }
}

/// Xoring a concatenation with a concatenated key stream is xoring the parts.
pub proof fn lemma_xor_bytes_concat(a: Seq<u8>, b: Seq<u8>, ka: Seq<u8>, kb: Seq<u8>)
    requires
        a.len() == ka.len(),
        b.len() == kb.len(),
    ensures
        xor_bytes(a + b, ka + kb) == xor_bytes(a, ka) + xor_bytes(b, kb),
{
    assert(xor_bytes(a + b, ka + kb) =~= xor_bytes(a, ka) + xor_bytes(b, kb));
}

/// Writing `a` and then `b` to a counter mode encoder writes what writing `a + b` at
/// once writes, and leaves the same state.
pub proof fn lemma_ctr_write_split<E: AESEncoder>(
    key: Seq<u8>,
    st: CtrState,
    a: Seq<u8>,
    b: Seq<u8>,
)
    ensures
        xor_bytes(a, ctr_keystream::<E>(key, st, a.len())) + xor_bytes(
            b,
            ctr_keystream::<E>(key, ctr_advance::<E>(key, st, a.len()), b.len()),
        ) == xor_bytes(a + b, ctr_keystream::<E>(key, st, (a + b).len())),
        ctr_advance::<E>(key, ctr_advance::<E>(key, st, a.len()), b.len()) == ctr_advance::<E>(
            key,
            st,
            (a + b).len(),
        ),
{
    lemma_ctr_split::<E>(key, st, a.len(), b.len());
    lemma_ctr_keystream_len::<E>(key, st, a.len());
    lemma_ctr_keystream_len::<E>(key, ctr_advance::<E>(key, st, a.len()), b.len());
    lemma_xor_bytes_concat(
        a,
        b,
        ctr_keystream::<E>(key, st, a.len()),
        ctr_keystream::<E>(key, ctr_advance::<E>(key, st, a.len()), b.len()),
    );
}

/// Counter mode undoes itself: encrypting the ciphertext from the same state (the same
/// key and IV) gives back the plaintext.
pub proof fn lemma_ctr_involution<E: AESEncoder>(key: Seq<u8>, st: CtrState, data: Seq<u8>)
    ensures
        xor_bytes(
            xor_bytes(data, ctr_keystream::<E>(key, st, data.len())),
            ctr_keystream::<E>(key, st, data.len()),
        ) == data,
{
    lemma_ctr_keystream_len::<E>(key, st, data.len());
    lemma_xor_bytes_cancel(data, ctr_keystream::<E>(key, st, data.len()));
}

/// The counter of the next counter block is one more (wrapping) than the counter of
/// this one, and the first 8 bytes are kept.
pub proof fn lemma_inc_counter(block: Seq<u8>)
    requires
        block.len() == 16,
    ensures
        inc_counter(block).len() == 16,
        inc_counter(block).take(8) == block.take(8),
        counter_value(inc_counter(block)) == counter_value(block).wrapping_add(1u64),
{
    let v = counter_value(block).wrapping_add(1u64);
    let c = inc_counter(block);
    assert(c.skip(8) =~= be_bytes(v));
    assert(c.take(8) =~= block.take(8));
    let b = be_bytes(v);
    let r = be_u64(b);
    assert(r == v) by (bit_vector)
        requires
            r == ((((v >> 56u64) as u8) as u64) << 56u64) | ((((v >> 48u64) as u8) as u64)
                << 48u64) | ((((v >> 40u64) as u8) as u64) << 40u64) | ((((v >> 32u64) as u8)
                as u64) << 32u64) | ((((v >> 24u64) as u8) as u64) << 24u64) | ((((v
                >> 16u64) as u8) as u64) << 16u64) | ((((v >> 8u64) as u8) as u64) << 8u64) | ((
            v as u8) as u64),
    ;
}

} // verus!
