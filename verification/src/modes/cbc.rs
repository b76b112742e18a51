//! Cipher block chaining mode: every plaintext block is xored with the previous
//! ciphertext block (the IV for the first) before it is encrypted.
use std::marker::PhantomData;
use vstd::prelude::*;

use crate::aes_spec::{lemma_xor_bytes_cancel_left, xor_bytes};
use crate::modes::ecb::whole_blocks_len;
use crate::modes::helpers::{write_all, PartialBlockHelper};
use crate::modes::traits::{BlockCipherDecoderMode, BlockCipherEncoderMode, ModeError};
use crate::hw::{
    lemma_decrypt_encrypt, lemma_hw_encrypt_len, HWAesDecoder,
    HWAesEncoder,
};
use crate::padding::pkcs7::{pkcs7_pad, PCKCS7Padding};
use crate::padding::traits::Padding;
use crate::traits::{decrypt_spec, encrypt_spec, AESDecoder, AESEncoder, BlockOp};

verus! {

/// The CBC encryption of the whole blocks of `data`, chained from `prev`.
pub open spec fn cbc_encrypt_blocks<E: AESEncoder>(data: Seq<u8>, key: Seq<u8>, prev: Seq<u8>) -> Seq<
    u8,
>
    decreases data.len(),
{
    if data.len() < 16 {
        Seq::empty()
    } else {
        let c = encrypt_spec::<E>(xor_bytes(prev, data.take(16)), key);
        c + cbc_encrypt_blocks::<E>(data.skip(16), key, c)
    }
}

/// The last ciphertext block after CBC encryption of the whole blocks of `data`,
/// chained from `prev` (`prev` itself when there is no whole block).
pub open spec fn cbc_encrypt_chain<E: AESEncoder>(data: Seq<u8>, key: Seq<u8>, prev: Seq<u8>) -> Seq<
    u8,
>
    decreases data.len(),
{
    if data.len() < 16 {
        prev
    } else {
        let c = encrypt_spec::<E>(xor_bytes(prev, data.take(16)), key);
        cbc_encrypt_chain::<E>(data.skip(16), key, c)
    }
}

/// The CBC decryption of the whole blocks of `data`, chained from `prev`.
pub open spec fn cbc_decrypt_blocks<D: AESDecoder>(data: Seq<u8>, key: Seq<u8>, prev: Seq<u8>) -> Seq<
    u8,
>
    decreases data.len(),
{
    if data.len() < 16 {
        Seq::empty()
    } else {
        xor_bytes(prev, decrypt_spec::<D>(data.take(16), key)) + cbc_decrypt_blocks::<D>(
            data.skip(16),
            key,
            data.take(16),
        )
    }
}

/// The last whole ciphertext block of `data` (`prev` when there is none).
pub open spec fn last_whole_block(data: Seq<u8>, prev: Seq<u8>) -> Seq<u8>
    decreases data.len(),
{
    if data.len() < 16 {
        prev
    } else {
        last_whole_block(data.skip(16), data.take(16))
    }
}

/// CBC encryption. The bytes of an unfinished block are kept until more data
/// completes it, or until `finalise` pads it.
pub struct CBCEncrypt<Encoder: AESEncoder, PaddingStrategy: Padding<16>> {
    key: [u8; 16],
    partial_block: [u8; 16],
    partial_len: usize,
    encoder: PhantomData<Encoder>,
    padding: PhantomData<PaddingStrategy>,
    last_ciphertext: [u8; 16],
}

impl<Encoder: AESEncoder, PaddingStrategy: Padding<16>> CBCEncrypt<Encoder, PaddingStrategy> {
    #[verifier::type_invariant]
    spec fn wf(self) -> bool {
        self.partial_len < 16
    }

    /// The cipher key.
    pub closed spec fn key(self) -> Seq<u8> {
        self.key@
    }

    /// The plaintext bytes not yet encrypted.
    pub closed spec fn pending(self) -> Seq<u8> {
        self.partial_block@.take(self.partial_len as int)
    }

    /// The block the next plaintext block is chained to: the last ciphertext block
    /// written, or the IV.
    pub closed spec fn chain(self) -> Seq<u8> {
        self.last_ciphertext@
    }

    pub fn new(key: [u8; 16], iv: [u8; 16]) -> (e: Self)
        ensures
            e.key() == key@,
            e.pending() == Seq::<u8>::empty(),
            e.chain() == iv@,
    {
        let e = Self {
            key,
            partial_block: [0; 16],
            partial_len: 0,
            encoder: PhantomData,
            padding: PhantomData,
            last_ciphertext: iv.to_slice(),
        };
        assert(e.pending() =~= Seq::<u8>::empty());
        e
    }
}

impl<Encoder: AESEncoder, PaddingStrategy: Padding<16>> BlockCipherEncoderMode<
    Encoder,
    PaddingStrategy,
> for CBCEncrypt<Encoder, PaddingStrategy> {
    fn write_bytes(&mut self, data: &[u8], writer: &mut Vec<u8>) -> (written: usize)
        ensures
            ({
                let all = old(self).pending() + data@;
                &&& final(writer)@ == old(writer)@ + cbc_encrypt_blocks::<Encoder>(
                    all,
                    old(self).key(),
                    old(self).chain(),
                )
                &&& final(self).chain() == cbc_encrypt_chain::<Encoder>(
                    all,
                    old(self).key(),
                    old(self).chain(),
                )
                &&& written == whole_blocks_len(all.len())
                &&& final(self).pending() == all.skip(written as int)
                &&& final(self).key() == old(self).key()
            }),
    {
        proof {
            use_type_invariant(&*self);
        }
        let ghost all = self.pending() + data@;
        let ghost key = self.key@;
        let ghost iv = self.last_ciphertext@;
        let mut helper = PartialBlockHelper::new(self.partial_block, self.partial_len, data);
        let mut written: usize = 0;
        assert(all.skip(0) =~= all);
        loop
            invariant_except_break
                helper.pending() + helper.rest() == all.skip(written as int),
            invariant
                helper.pending().len() < 16,
                helper.partial_len() < 16,
                helper.partial_block().len() == 16,
                all == old(self).pending() + data@,
                key == self.key@,
                iv == old(self).chain(),
                self.partial_len < 16,
                all.len() <= data@.len() + 16 <= usize::MAX,
                written <= all.len(),
                written % 16 == 0,
                old(writer)@ + cbc_encrypt_blocks::<Encoder>(all, key, iv) == writer@
                    + cbc_encrypt_blocks::<Encoder>(
                    all.skip(written as int),
                    key,
                    self.last_ciphertext@,
                ),
                cbc_encrypt_chain::<Encoder>(all, key, iv) == cbc_encrypt_chain::<Encoder>(
                    all.skip(written as int),
                    key,
                    self.last_ciphertext@,
                ),
            ensures
                helper.pending() == all.skip(written as int),
                helper.pending().len() < 16,
            decreases all.len() - written,
        {
            let ghost rem = helper.pending() + helper.rest();
            let ghost before = writer@;
            let ghost prev = self.last_ciphertext@;
            match helper.take() {
                Some(chunk) => {
                    let block: [u8; 16] = self.last_ciphertext.xor(&chunk);
                    self.last_ciphertext = Encoder::encrypt(block, self.key);
                    proof {
                        reveal(encrypt_spec);
                    }
                    write_all(writer, self.last_ciphertext.as_slice());
                    proof {
                        assert(rem.skip(16) =~= all.skip(written + 16));
                        assert(writer@ + cbc_encrypt_blocks::<Encoder>(
                            rem.skip(16),
                            key,
                            self.last_ciphertext@,
                        ) =~= before + cbc_encrypt_blocks::<Encoder>(rem, key, prev));
                    }
                    written = written + 16;
                },
                None => {
                    break ;
                },
            }
        }
        let (partial_block, partial_len) = helper.into_partial();
        self.partial_block = partial_block;
        self.partial_len = partial_len;
        proof {
            let rem = all.skip(written as int);
            assert(cbc_encrypt_blocks::<Encoder>(rem, key, self.last_ciphertext@)
                =~= Seq::<u8>::empty());
            assert(writer@ =~= old(writer)@ + cbc_encrypt_blocks::<Encoder>(all, key, iv));
            assert(written == whole_blocks_len(all.len()));
        }
        written
    }

    fn finalise(self, writer: &mut Vec<u8>) -> (written: usize)
        ensures
            self.pending().len() == 0 ==> final(writer)@ == old(writer)@ && written == 0,
            self.pending().len() > 0 ==> final(writer)@ == old(writer)@ + encrypt_spec::<Encoder>(
                xor_bytes(PaddingStrategy::pad_spec(self.pending()), self.chain()),
                self.key(),
            ) && written == 16,
    {
        proof {
            use_type_invariant(&self);
        }
        if self.partial_len == 0 {
            return 0;
        }
        let final_block = PaddingStrategy::pad_block(
            vstd::slice::slice_subrange(self.partial_block.as_slice(), 0, self.partial_len),
        );
        let ciphertext = Encoder::encrypt(final_block.xor(&self.last_ciphertext), self.key);
        proof {
            reveal(encrypt_spec);
        }
        write_all(writer, ciphertext.as_slice());
        16
    }
}

/// CBC decryption. The padding of the last block is not taken off.
pub struct CBCDecrypt<Decoder: AESDecoder, PaddingStrategy: Padding<16>> {
    key: [u8; 16],
    partial_block: [u8; 16],
    partial_len: usize,
    encoder: PhantomData<Decoder>,
    padding: PhantomData<PaddingStrategy>,
    last_ciphertext: [u8; 16],
}

impl<Decoder: AESDecoder, PaddingStrategy: Padding<16>> CBCDecrypt<Decoder, PaddingStrategy> {
    #[verifier::type_invariant]
    spec fn wf(self) -> bool {
        self.partial_len < 16
    }

    /// The cipher key.
    pub closed spec fn key(self) -> Seq<u8> {
        self.key@
    }

    /// The ciphertext bytes of the unfinished block.
    pub closed spec fn pending(self) -> Seq<u8> {
        self.partial_block@.take(self.partial_len as int)
    }

    /// The block the next ciphertext block is chained to: the last ciphertext block
    /// read, or the IV.
    pub closed spec fn chain(self) -> Seq<u8> {
        self.last_ciphertext@
    }

    pub fn new(key: [u8; 16], iv: [u8; 16]) -> (d: Self)
        ensures
            d.key() == key@,
            d.pending() == Seq::<u8>::empty(),
            d.chain() == iv@,
    {
        let d = Self {
            key,
            partial_block: [0; 16],
            partial_len: 0,
            encoder: PhantomData,
            padding: PhantomData,
            last_ciphertext: iv.to_slice(),
        };
        assert(d.pending() =~= Seq::<u8>::empty());
        d
    }
}

impl<Decoder: AESDecoder, PaddingStrategy: Padding<16>> BlockCipherDecoderMode<
    Decoder,
    PaddingStrategy,
> for CBCDecrypt<Decoder, PaddingStrategy> {
    open spec fn can_finalise(&self) -> bool {
        true
    }

    fn can_finalise_now(&self) -> (b: bool) {
        true
    }

    fn write_bytes(&mut self, data: &[u8], writer: &mut Vec<u8>) -> (written: usize)
        ensures
            ({
                let all = old(self).pending() + data@;
                &&& final(writer)@ == old(writer)@ + cbc_decrypt_blocks::<Decoder>(
                    all,
                    old(self).key(),
                    old(self).chain(),
                )
                &&& final(self).chain() == last_whole_block(all, old(self).chain())
                &&& written == whole_blocks_len(all.len())
                &&& final(self).pending() == all.skip(written as int)
                &&& final(self).key() == old(self).key()
            }),
    {
        proof {
            use_type_invariant(&*self);
        }
        let ghost all = self.pending() + data@;
        let ghost key = self.key@;
        let ghost iv = self.last_ciphertext@;
        let mut helper = PartialBlockHelper::new(self.partial_block, self.partial_len, data);
        let mut written: usize = 0;
        assert(all.skip(0) =~= all);
        loop
            invariant_except_break
                helper.pending() + helper.rest() == all.skip(written as int),
            invariant
                helper.pending().len() < 16,
                helper.partial_len() < 16,
                helper.partial_block().len() == 16,
                all == old(self).pending() + data@,
                key == self.key@,
                iv == old(self).chain(),
                self.partial_len < 16,
                all.len() <= data@.len() + 16 <= usize::MAX,
                written <= all.len(),
                written % 16 == 0,
                old(writer)@ + cbc_decrypt_blocks::<Decoder>(all, key, iv) == writer@
                    + cbc_decrypt_blocks::<Decoder>(
                    all.skip(written as int),
                    key,
                    self.last_ciphertext@,
                ),
                last_whole_block(all, iv) == last_whole_block(
                    all.skip(written as int),
                    self.last_ciphertext@,
                ),
            ensures
                helper.pending() == all.skip(written as int),
                helper.pending().len() < 16,
            decreases all.len() - written,
        {
            let ghost rem = helper.pending() + helper.rest();
            let ghost before = writer@;
            let ghost prev = self.last_ciphertext@;
            match helper.take() {
                Some(chunk) => {
                    let plaintext = Decoder::decrypt(chunk, self.key);
                    proof {
                        reveal(decrypt_spec);
                    }
                    let xored: [u8; 16] = self.last_ciphertext.xor(&plaintext);
                    self.last_ciphertext = chunk;
                    write_all(writer, xored.as_slice());
                    proof {
                        assert(rem.skip(16) =~= all.skip(written + 16));
                        assert(writer@ + cbc_decrypt_blocks::<Decoder>(
                            rem.skip(16),
                            key,
                            self.last_ciphertext@,
                        ) =~= before + cbc_decrypt_blocks::<Decoder>(rem, key, prev));
                    }
                    written = written + 16;
                },
                None => {
                    break ;
                },
            }
        }
        let (partial_block, partial_len) = helper.into_partial();
        self.partial_block = partial_block;
        self.partial_len = partial_len;
        proof {
            let rem = all.skip(written as int);
            assert(cbc_decrypt_blocks::<Decoder>(rem, key, self.last_ciphertext@)
                =~= Seq::<u8>::empty());
            assert(writer@ =~= old(writer)@ + cbc_decrypt_blocks::<Decoder>(all, key, iv));
            assert(written == whole_blocks_len(all.len()));
        }
        written
    }

    fn finalise(self, writer: &mut Vec<u8>) -> (r: Result<usize, ModeError>)
        ensures
            final(writer)@ == old(writer)@,
            self.pending().len() == 0 ==> r == Ok::<usize, ModeError>(0),
            self.pending().len() != 0 ==> r == Err::<usize, ModeError>(
                ModeError::PartialBlock(self.pending().len() as usize),
            ),
    {
        proof {
            use_type_invariant(&self);
        }
        if self.partial_len == 0 {
            return Ok(0);
        }
        Err(ModeError::PartialBlock(self.partial_len))
    }
}

/// The whole blocks of `x` and `x` cut down to them encrypt, and chain, the same.
pub proof fn lemma_cbc_encrypt_whole<E: AESEncoder>(x: Seq<u8>, key: Seq<u8>, prev: Seq<u8>)
    ensures
        ({
            let t = x.take(whole_blocks_len(x.len()) as int);
            &&& cbc_encrypt_blocks::<E>(x, key, prev) == cbc_encrypt_blocks::<E>(t, key, prev)
            &&& cbc_encrypt_chain::<E>(x, key, prev) == cbc_encrypt_chain::<E>(t, key, prev)
        }),
    decreases x.len(),
{
    let w = whole_blocks_len(x.len());
    if x.len() < 16 {
        assert(x.take(w as int) =~= Seq::<u8>::empty());
    } else {
        let t = x.take(w as int);
        assert(t.take(16) =~= x.take(16));
        assert(t.skip(16) =~= x.skip(16).take(whole_blocks_len(x.skip(16).len()) as int));
        let c = encrypt_spec::<E>(xor_bytes(prev, x.take(16)), key);
        lemma_cbc_encrypt_whole::<E>(x.skip(16), key, c);
    }
}

/// CBC encryption of a concatenation, when the first part is made of whole blocks: the
/// second part is chained to the last ciphertext block of the first.
pub proof fn lemma_cbc_encrypt_concat<E: AESEncoder>(
    x: Seq<u8>,
    y: Seq<u8>,
    key: Seq<u8>,
    prev: Seq<u8>,
)
    requires
        x.len() % 16 == 0,
    ensures
        cbc_encrypt_blocks::<E>(x + y, key, prev) == cbc_encrypt_blocks::<E>(x, key, prev)
            + cbc_encrypt_blocks::<E>(y, key, cbc_encrypt_chain::<E>(x, key, prev)),
        cbc_encrypt_chain::<E>(x + y, key, prev) == cbc_encrypt_chain::<E>(
            y,
            key,
            cbc_encrypt_chain::<E>(x, key, prev),
        ),
    decreases x.len(),
{
    if x.len() == 0 {
        assert(x + y =~= y);
        assert(cbc_encrypt_blocks::<E>(x, key, prev) =~= Seq::<u8>::empty());
    } else {
        assert((x + y).take(16) =~= x.take(16));
        assert((x + y).skip(16) =~= x.skip(16) + y);
        let c = encrypt_spec::<E>(xor_bytes(prev, x.take(16)), key);
        lemma_cbc_encrypt_concat::<E>(x.skip(16), y, key, c);
    }
}

/// CBC decryption of a concatenation, when the first part is made of whole blocks: the
/// second part is chained to the last ciphertext block of the first.
pub proof fn lemma_cbc_decrypt_concat<D: AESDecoder>(
    x: Seq<u8>,
    y: Seq<u8>,
    key: Seq<u8>,
    prev: Seq<u8>,
)
    requires
        x.len() % 16 == 0,
    ensures
        cbc_decrypt_blocks::<D>(x + y, key, prev) == cbc_decrypt_blocks::<D>(x, key, prev)
            + cbc_decrypt_blocks::<D>(y, key, last_whole_block(x, prev)),
        last_whole_block(x + y, prev) == last_whole_block(y, last_whole_block(x, prev)),
    decreases x.len(),
{
    if x.len() == 0 {
        assert(x + y =~= y);
        assert(cbc_decrypt_blocks::<D>(x, key, prev) =~= Seq::<u8>::empty());
    } else {
        assert((x + y).take(16) =~= x.take(16));
        assert((x + y).skip(16) =~= x.skip(16) + y);
        lemma_cbc_decrypt_concat::<D>(x.skip(16), y, key, x.take(16));
    }
}

pub proof fn lemma_cbc_encrypt_len(x: Seq<u8>, key: Seq<u8>, prev: Seq<u8>)
    ensures
        cbc_encrypt_blocks::<HWAesEncoder>(x, key, prev).len() == whole_blocks_len(x.len()),
    decreases x.len(),
{
    if x.len() >= 16 {
        let c = encrypt_spec::<HWAesEncoder>(xor_bytes(prev, x.take(16)), key);
        lemma_cbc_encrypt_len(x.skip(16), key, c);
        lemma_hw_encrypt_len(xor_bytes(prev, x.take(16)), key);
    }
}

/// CBC decryption undoes CBC encryption on the whole blocks, and ends on the same
/// chaining block.
pub proof fn lemma_cbc_decrypt_encrypt(x: Seq<u8>, key: Seq<u8>, prev: Seq<u8>)
    requires
        key.len() == 16,
        prev.len() == 16,
    ensures
        cbc_decrypt_blocks::<HWAesDecoder>(cbc_encrypt_blocks::<HWAesEncoder>(x, key, prev), key, prev)
            == x.take(whole_blocks_len(x.len()) as int),
        last_whole_block(cbc_encrypt_blocks::<HWAesEncoder>(x, key, prev), prev)
            == cbc_encrypt_chain::<HWAesEncoder>(x, key, prev),
    decreases x.len(),
{
    let ct = cbc_encrypt_blocks::<HWAesEncoder>(x, key, prev);
    if x.len() < 16 {
        assert(x.take(0) =~= Seq::<u8>::empty());
    } else {
        let b = xor_bytes(prev, x.take(16));
        let c = encrypt_spec::<HWAesEncoder>(b, key);
        let rest = cbc_encrypt_blocks::<HWAesEncoder>(x.skip(16), key, c);
        lemma_hw_encrypt_len(b, key);
        lemma_cbc_encrypt_len(x.skip(16), key, c);
        assert(ct.take(16) =~= c);
        assert(ct.skip(16) =~= rest);
        lemma_decrypt_encrypt(b, key);
        lemma_xor_bytes_cancel_left(prev, x.take(16));
        lemma_cbc_decrypt_encrypt(x.skip(16), key, c);
        assert(x.take(16) + x.skip(16).take(whole_blocks_len(x.skip(16).len()) as int) =~= x.take(
            whole_blocks_len(x.len()) as int,
        ));
    }
}

/// Writing `a` and then `b` to a CBC encoder writes what writing `a + b` at once writes,
/// and leaves the same partial block and chaining block.
pub proof fn lemma_cbc_write_split<E: AESEncoder>(
    pending: Seq<u8>,
    a: Seq<u8>,
    b: Seq<u8>,
    key: Seq<u8>,
    iv: Seq<u8>,
)
    ensures
        ({
            let all_a = pending + a;
            let rest_a = all_a.skip(whole_blocks_len(all_a.len()) as int);
            let chain_a = cbc_encrypt_chain::<E>(all_a, key, iv);
            let all = pending + (a + b);
            &&& cbc_encrypt_blocks::<E>(all_a, key, iv) + cbc_encrypt_blocks::<E>(
                rest_a + b,
                key,
                chain_a,
            ) == cbc_encrypt_blocks::<E>(all, key, iv)
            &&& cbc_encrypt_chain::<E>(rest_a + b, key, chain_a) == cbc_encrypt_chain::<E>(
                all,
                key,
                iv,
            )
            &&& (rest_a + b).skip(whole_blocks_len((rest_a + b).len()) as int) == all.skip(
                whole_blocks_len(all.len()) as int,
            )
        }),
{
    let all_a = pending + a;
    let w = whole_blocks_len(all_a.len());
    let head = all_a.take(w as int);
    let rest_a = all_a.skip(w as int);
    let all = pending + (a + b);
    assert(all =~= head + (rest_a + b));
    lemma_cbc_encrypt_whole::<E>(all_a, key, iv);
    lemma_cbc_encrypt_concat::<E>(head, rest_a + b, key, iv);
    let r = rest_a + b;
    let wr = whole_blocks_len(r.len());
    assert(whole_blocks_len(all.len()) == w + wr);
    assert(r.skip(wr as int) =~= all.skip((w + wr) as int));
}

/// What a CBC encoder writes for `message` over a `write_bytes` and a `finalise`.
pub open spec fn cbc_encrypt_message<E: AESEncoder, P: Padding<16>>(
    message: Seq<u8>,
    key: Seq<u8>,
    iv: Seq<u8>,
) -> Seq<u8> {
    let rest = message.skip(whole_blocks_len(message.len()) as int);
    cbc_encrypt_blocks::<E>(message, key, iv) + if rest.len() == 0 {
        Seq::<u8>::empty()
    } else {
        encrypt_spec::<E>(
            xor_bytes(P::pad_spec(rest), cbc_encrypt_chain::<E>(message, key, iv)),
            key,
        )
    }
}

/// CBC with PKCS#7 padding: the CBC decoder, fed what the encoder wrote for `message`
/// under the same key and IV, writes the message followed by its padding bytes (the
/// decoder does not take padding off).
pub proof fn lemma_cbc_roundtrip(message: Seq<u8>, key: Seq<u8>, iv: Seq<u8>)
    requires
        key.len() == 16,
        iv.len() == 16,
    ensures
        ({
            let c = cbc_encrypt_message::<HWAesEncoder, PCKCS7Padding<16>>(message, key, iv);
            let w = whole_blocks_len(message.len());
            let rest = message.skip(w as int);
            &&& c.len() % 16 == 0
            &&& cbc_decrypt_blocks::<HWAesDecoder>(c, key, iv) == if rest.len() == 0 {
                message
            } else {
                message.take(w as int) + pkcs7_pad(rest, 16)
            }
        }),
{
    let w = whole_blocks_len(message.len());
    let rest = message.skip(w as int);
    let head = message.take(w as int);
    let body = cbc_encrypt_blocks::<HWAesEncoder>(message, key, iv);
    let chain = cbc_encrypt_chain::<HWAesEncoder>(message, key, iv);
    let c = cbc_encrypt_message::<HWAesEncoder, PCKCS7Padding<16>>(message, key, iv);
    lemma_cbc_encrypt_len(message, key, iv);
    lemma_cbc_decrypt_encrypt(message, key, iv);
    lemma_cbc_chain_len(message, key, iv);
    if rest.len() == 0 {
        assert(c =~= body);
        assert(head =~= message);
    } else {
        let p = pkcs7_pad(rest, 16);
        let e = encrypt_spec::<HWAesEncoder>(xor_bytes(p, chain), key);
        assert(c == body + e);
        lemma_hw_encrypt_len(xor_bytes(p, chain), key);
        lemma_cbc_decrypt_concat::<HWAesDecoder>(body, e, key, iv);
        assert(e.take(16) =~= e);
        assert(e.skip(16) =~= Seq::<u8>::empty());
        assert(cbc_decrypt_blocks::<HWAesDecoder>(e.skip(16), key, e.take(16)) =~= Seq::<
            u8,
        >::empty());
        lemma_decrypt_encrypt(xor_bytes(p, chain), key);
        lemma_xor_bytes_cancel_left(chain, p);
        assert(cbc_decrypt_blocks::<HWAesDecoder>(e, key, chain) =~= p);
    }
}

/// The chaining block stays a block of 16 bytes.
pub proof fn lemma_cbc_chain_len(x: Seq<u8>, key: Seq<u8>, prev: Seq<u8>)
    requires
        prev.len() == 16,
    ensures
        cbc_encrypt_chain::<HWAesEncoder>(x, key, prev).len() == 16,
    decreases x.len(),
{
    if x.len() >= 16 {
        let c = encrypt_spec::<HWAesEncoder>(xor_bytes(prev, x.take(16)), key);
        lemma_hw_encrypt_len(xor_bytes(prev, x.take(16)), key);
        lemma_cbc_chain_len(x.skip(16), key, c);
    }
}

/// The whole blocks of `x` and `x` cut down to them decrypt, and chain, the same.
pub proof fn lemma_cbc_decrypt_whole<D: AESDecoder>(x: Seq<u8>, key: Seq<u8>, prev: Seq<u8>)
    ensures
        ({
            let t = x.take(whole_blocks_len(x.len()) as int);
            &&& cbc_decrypt_blocks::<D>(x, key, prev) == cbc_decrypt_blocks::<D>(t, key, prev)
            &&& last_whole_block(x, prev) == last_whole_block(t, prev)
        }),
    decreases x.len(),
{
    let w = whole_blocks_len(x.len());
    if x.len() < 16 {
        assert(x.take(w as int) =~= Seq::<u8>::empty());
    } else {
        let t = x.take(w as int);
        assert(t.take(16) =~= x.take(16));
        assert(t.skip(16) =~= x.skip(16).take(whole_blocks_len(x.skip(16).len()) as int));
        lemma_cbc_decrypt_whole::<D>(x.skip(16), key, x.take(16));
    }
}

/// Writing `a` and then `b` to a CBC decoder writes what writing `a + b` at once writes,
/// and leaves the same partial block and chaining block.
pub proof fn lemma_cbc_decrypt_write_split<D: AESDecoder>(
    pending: Seq<u8>,
    a: Seq<u8>,
    b: Seq<u8>,
    key: Seq<u8>,
    iv: Seq<u8>,
)
    ensures
        ({
            let all_a = pending + a;
            let rest_a = all_a.skip(whole_blocks_len(all_a.len()) as int);
            let chain_a = last_whole_block(all_a, iv);
            let all = pending + (a + b);
            &&& cbc_decrypt_blocks::<D>(all_a, key, iv) + cbc_decrypt_blocks::<D>(
                rest_a + b,
                key,
                chain_a,
            ) == cbc_decrypt_blocks::<D>(all, key, iv)
            &&& last_whole_block(rest_a + b, chain_a) == last_whole_block(all, iv)
            &&& (rest_a + b).skip(whole_blocks_len((rest_a + b).len()) as int) == all.skip(
                whole_blocks_len(all.len()) as int,
            )
        }),
{
    let all_a = pending + a;
    let w = whole_blocks_len(all_a.len());
    let head = all_a.take(w as int);
    let rest_a = all_a.skip(w as int);
    let all = pending + (a + b);
    assert(all =~= head + (rest_a + b));
    lemma_cbc_decrypt_whole::<D>(all_a, key, iv);
    lemma_cbc_decrypt_concat::<D>(head, rest_a + b, key, iv);
    let r = rest_a + b;
    let wr = whole_blocks_len(r.len());
    assert(whole_blocks_len(all.len()) == w + wr);
    assert(r.skip(wr as int) =~= all.skip((w + wr) as int));
}

/// The CBC decryption of the whole blocks of `x`, chained from a block of 16 bytes, has
/// as many bytes as those blocks.
pub proof fn lemma_cbc_decrypt_len<D: AESDecoder>(x: Seq<u8>, key: Seq<u8>, prev: Seq<u8>)
    requires
        prev.len() == 16,
    ensures
        cbc_decrypt_blocks::<D>(x, key, prev).len() == whole_blocks_len(x.len()),
    decreases x.len(),
{
    if x.len() >= 16 {
        lemma_cbc_decrypt_len::<D>(x.skip(16), key, x.take(16));
        assert(whole_blocks_len(x.len()) == 16 + whole_blocks_len(x.skip(16).len())) by {
            assert(x.len() % 16 == (x.len() - 16) as nat % 16);
        }
    }
}

} // verus!
