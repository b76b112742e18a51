//! Electronic codebook mode: every block is encrypted on its own.
use std::marker::PhantomData;
use vstd::prelude::*;

use crate::modes::helpers::{write_all, write_prefix, PartialBlockHelper};
use crate::modes::traits::{BlockCipherDecoderMode, BlockCipherEncoderMode, ModeError};
use crate::padding::pkcs7::PCKCS7Padding;
use crate::padding::traits::Padding;
use crate::hw::{lemma_decrypt_encrypt, lemma_hw_encrypt_len, HWAesDecoder, HWAesEncoder};
use crate::padding::pkcs7::{lemma_pkcs7_unpad_pad, pkcs7_pad, pkcs7_unpad};
use crate::padding::traits::PaddingError;
use crate::traits::{decrypt_spec, encrypt_spec, AESDecoder, AESEncoder};

verus! {

/// The ECB encryption of the whole blocks of `data` (a trailing partial block is left out).
pub open spec fn ecb_encrypt_blocks<E: AESEncoder>(data: Seq<u8>, key: Seq<u8>) -> Seq<u8>
    decreases data.len(),
{
    if data.len() < 16 {
        Seq::empty()
    } else {
        encrypt_spec::<E>(data.take(16), key) + ecb_encrypt_blocks::<E>(data.skip(16), key)
    }
}

/// The ECB decryption of the whole blocks of `data` (a trailing partial block is left out).
pub open spec fn ecb_decrypt_blocks<D: AESDecoder>(data: Seq<u8>, key: Seq<u8>) -> Seq<u8>
    decreases data.len(),
{
    if data.len() < 16 {
        Seq::empty()
    } else {
        decrypt_spec::<D>(data.take(16), key) + ecb_decrypt_blocks::<D>(data.skip(16), key)
    }
}

/// The number of bytes in the whole blocks of `n` bytes.
pub open spec fn whole_blocks_len(n: nat) -> nat {
    (n - n % 16) as nat
}

/// The bytes of an optional block, none if there is no block.
pub open spec fn held_bytes(held: Option<Seq<u8>>) -> Seq<u8> {
    match held {
        Some(b) => b,
        None => Seq::empty(),
    }
}

/// ECB encryption. The bytes of an unfinished block are kept until more data
/// completes it, or until `finalise` pads it.
pub struct ECBEncrypt<Encoder: AESEncoder, PaddingStrategy: Padding<16>> {
    key: [u8; 16],
    partial_block: [u8; 16],
    partial_len: usize,
    encoder: PhantomData<Encoder>,
    padding: PhantomData<PaddingStrategy>,
}

impl<Encoder: AESEncoder, PaddingStrategy: Padding<16>> ECBEncrypt<Encoder, PaddingStrategy> {
    #[verifier::type_invariant]
    spec fn wf(self) -> bool {
        self.partial_len < 16
    }

    /// The cipher key.
    pub closed spec fn key(self) -> Seq<u8> {
        self.key@
    }

    /// The plaintext bytes not yet encrypted.
    pub closed spec fn pending(self) -> Seq<u8> {
        self.partial_block@.take(self.partial_len as int)
    }

    pub fn new(key: [u8; 16]) -> (e: Self)
        ensures
            e.key() == key@,
            e.pending() == Seq::<u8>::empty(),
    {
        let e = Self {
            key,
            partial_block: [0; 16],
            partial_len: 0,
            encoder: PhantomData,
            padding: PhantomData,
        };
        assert(e.pending() =~= Seq::<u8>::empty());
        e
    }
}

impl<Encoder: AESEncoder, PaddingStrategy: Padding<16>> BlockCipherEncoderMode<
    Encoder,
    PaddingStrategy,
> for ECBEncrypt<Encoder, PaddingStrategy> {
    fn write_bytes(&mut self, data: &[u8], writer: &mut Vec<u8>) -> (written: usize)
        ensures
            ({
                let all = old(self).pending() + data@;
                &&& final(writer)@ == old(writer)@ + ecb_encrypt_blocks::<Encoder>(
                    all,
                    old(self).key(),
                )
                &&& written == whole_blocks_len(all.len())
                &&& final(self).pending() == all.skip(written as int)
                &&& final(self).key() == old(self).key()
            }),
    {
        proof {
            use_type_invariant(&*self);
        }
        let ghost all = self.pending() + data@;
        let ghost key = self.key@;
        let mut helper = PartialBlockHelper::new(self.partial_block, self.partial_len, data);
        let mut written: usize = 0;
        assert(all.skip(0) =~= all);
        loop
            invariant_except_break
                helper.pending() + helper.rest() == all.skip(written as int),
            invariant
                helper.pending().len() < 16,
                helper.partial_len() < 16,
                helper.partial_block().len() == 16,
                all == old(self).pending() + data@,
                key == self.key@,
                all.len() <= data@.len() + 16 <= usize::MAX,
                written <= all.len(),
                written % 16 == 0,
                old(writer)@ + ecb_encrypt_blocks::<Encoder>(all, key) == writer@
                    + ecb_encrypt_blocks::<Encoder>(all.skip(written as int), key),
            ensures
                helper.pending() == all.skip(written as int),
                helper.pending().len() < 16,
            decreases all.len() - written,
        {
            let ghost rem = helper.pending() + helper.rest();
            match helper.take() {
                Some(chunk) => {
                    let ciphertext = Encoder::encrypt(chunk, self.key);
                    proof {
                        reveal(encrypt_spec);
                    }
                    write_all(writer, ciphertext.as_slice());
                    proof {
                        assert(rem.skip(16) =~= all.skip(written + 16));
                        assert(writer@ + ecb_encrypt_blocks::<Encoder>(rem.skip(16), key) =~= old(
                            writer,
                        )@ + ecb_encrypt_blocks::<Encoder>(all, key));
                    }
                    written = written + 16;
                },
                None => {
                    break ;
                },
            }
        }
        let (partial_block, partial_len) = helper.into_partial();
        self.partial_block = partial_block;
        self.partial_len = partial_len;
        proof {
            let rem = all.skip(written as int);
            assert(ecb_encrypt_blocks::<Encoder>(rem, key) =~= Seq::<u8>::empty());
            assert(writer@ =~= old(writer)@ + ecb_encrypt_blocks::<Encoder>(all, key));
            assert(written == whole_blocks_len(all.len()));
        }
        written
    }

    fn finalise(self, writer: &mut Vec<u8>) -> (written: usize)
        ensures
            self.pending().len() == 0 ==> final(writer)@ == old(writer)@ && written == 0,
            self.pending().len() > 0 ==> final(writer)@ == old(writer)@ + encrypt_spec::<Encoder>(
                PaddingStrategy::pad_spec(self.pending()),
                self.key(),
            ) && written == 16,
    {
        proof {
            use_type_invariant(&self);
        }
        if self.partial_len == 0 {
            return 0;
        }
        let final_block = PaddingStrategy::pad_block(
            vstd::slice::slice_subrange(self.partial_block.as_slice(), 0, self.partial_len),
        );
        let encoded = Encoder::encrypt(final_block, self.key);
        proof {
            reveal(encrypt_spec);
        }
        write_all(writer, encoded.as_slice());
        16
    }
}

/// ECB decryption. The plaintext of the last whole block is held back until more data
/// arrives or `finalise` takes its padding off.
pub struct ECBDecrypt<Decoder: AESDecoder, PaddingStrategy: Padding<16>> {
    key: [u8; 16],
    partial_block: [u8; 16],
    partial_len: usize,
    encoder: PhantomData<Decoder>,
    padding: PhantomData<PaddingStrategy>,
    last_full_block: Option<[u8; 16]>,
}

impl<Decoder: AESDecoder, PaddingStrategy: Padding<16>> ECBDecrypt<Decoder, PaddingStrategy> {
    #[verifier::type_invariant]
    spec fn wf(self) -> bool {
        self.partial_len < 16
    }

    /// The cipher key.
    pub closed spec fn key(self) -> Seq<u8> {
        self.key@
    }

    /// The ciphertext bytes of the unfinished block.
    pub closed spec fn pending(self) -> Seq<u8> {
        self.partial_block@.take(self.partial_len as int)
    }

    /// The plaintext of the last whole block, not written yet.
    pub closed spec fn held(self) -> Option<Seq<u8>> {
        match self.last_full_block {
            Some(b) => Some(b@),
            None => None,
        }
    }

    pub fn new(key: [u8; 16]) -> (d: Self)
        ensures
            d.key() == key@,
            d.pending() == Seq::<u8>::empty(),
            d.held() == None::<Seq<u8>>,
    {
        let d = Self {
            key,
            partial_block: [0; 16],
            partial_len: 0,
            encoder: PhantomData,
            padding: PhantomData,
            last_full_block: None,
        };
        assert(d.pending() =~= Seq::<u8>::empty());
        d
    }
}

impl<Decoder: AESDecoder, PaddingStrategy: Padding<16>> BlockCipherDecoderMode<
    Decoder,
    PaddingStrategy,
> for ECBDecrypt<Decoder, PaddingStrategy> {
    open spec fn can_finalise(&self) -> bool {
        self.pending().len() == 0 ==> match self.held() {
            Some(h) => PaddingStrategy::removable(h),
            None => true,
        }
    }

    fn can_finalise_now(&self) -> (b: bool) {
        proof {
            use_type_invariant(self);
        }
        if self.partial_len != 0 {
            return true;
        }
        match &self.last_full_block {
            Some(h) => PaddingStrategy::can_remove(h),
            None => true,
        }
    }

    fn write_bytes(&mut self, data: &[u8], writer: &mut Vec<u8>) -> (written: usize)
        ensures
            ({
                let all = old(self).pending() + data@;
                let stream = held_bytes(old(self).held()) + ecb_decrypt_blocks::<Decoder>(
                    all,
                    old(self).key(),
                );
                &&& written == whole_blocks_len(all.len())
                &&& final(self).pending() == all.skip(written as int)
                &&& final(self).key() == old(self).key()
                &&& written == 0 ==> final(writer)@ == old(writer)@ && final(self).held() == old(
                    self,
                ).held()
                &&& written > 0 ==> final(writer)@ == old(writer)@ + stream.take(stream.len() - 16)
                    && final(self).held() == Some(stream.skip(stream.len() - 16))
            }),
    {
        proof {
            use_type_invariant(&*self);
        }
        let ghost all = self.pending() + data@;
        let ghost key = self.key@;
        let ghost old_held = self.held();
        let mut helper = PartialBlockHelper::new(self.partial_block, self.partial_len, data);
        let mut written: usize = 0;
        assert(all.skip(0) =~= all);
        loop
            invariant_except_break
                helper.pending() + helper.rest() == all.skip(written as int),
            invariant
                helper.pending().len() < 16,
                helper.partial_len() < 16,
                helper.partial_block().len() == 16,
                all == old(self).pending() + data@,
                key == self.key@,
                old_held == old(self).held(),
                self.partial_len < 16,
                writer@.len() >= old(writer)@.len(),
                all.len() <= data@.len() + 16 <= usize::MAX,
                written <= all.len(),
                written % 16 == 0,
                written == 0 ==> writer@ == old(writer)@ && self.held() == old_held,
                written > 0 ==> self.held() is Some && self.held()->0.len() == 16,
                old(writer)@ + held_bytes(old_held) + ecb_decrypt_blocks::<Decoder>(all, key)
                    == writer@ + held_bytes(self.held()) + ecb_decrypt_blocks::<Decoder>(
                    all.skip(written as int),
                    key,
                ),
            ensures
                helper.pending() == all.skip(written as int),
                helper.pending().len() < 16,
            decreases all.len() - written,
        {
            let ghost rem = helper.pending() + helper.rest();
            let ghost before = writer@ + held_bytes(self.held());
            match helper.take() {
                Some(chunk) => {
                    let plaintext = Decoder::decrypt(chunk, self.key);
                    proof {
                        reveal(decrypt_spec);
                    }
                    if let Some(last_full_block) = self.last_full_block {
                        write_all(writer, last_full_block.as_slice());
                    }
                    self.last_full_block = Some(plaintext);
                    proof {
                        assert(rem.skip(16) =~= all.skip(written + 16));
                        assert(writer@ + held_bytes(self.held()) =~= before + plaintext@);
                        assert(writer@ + held_bytes(self.held()) + ecb_decrypt_blocks::<Decoder>(
                            rem.skip(16),
                            key,
                        ) =~= before + ecb_decrypt_blocks::<Decoder>(rem, key));
                    }
                    written = written + 16;
                },
                None => {
                    break ;
                },
            }
        }
        let (partial_block, partial_len) = helper.into_partial();
        self.partial_block = partial_block;
        self.partial_len = partial_len;
        proof {
            let rem = all.skip(written as int);
            let stream = held_bytes(old_held) + ecb_decrypt_blocks::<Decoder>(all, key);
            assert(ecb_decrypt_blocks::<Decoder>(rem, key) =~= Seq::<u8>::empty());
            assert(old(writer)@ + stream =~= writer@ + held_bytes(self.held()));
            if written > 0 {
                let lhs = old(writer)@ + stream;
                let h = held_bytes(self.held());
                assert(lhs.len() == writer@.len() + 16);
                assert(writer@ =~= lhs.take(lhs.len() - 16));
                assert(lhs.take(lhs.len() - 16) =~= old(writer)@ + stream.take(stream.len() - 16));
                assert(h =~= lhs.skip(lhs.len() - 16));
                assert(lhs.skip(lhs.len() - 16) =~= stream.skip(stream.len() - 16));
                assert(held_bytes(self.held()) =~= stream.skip(stream.len() - 16));
            }
            assert(written == whole_blocks_len(all.len()));
        }
        written
    }

    fn finalise(self, writer: &mut Vec<u8>) -> (r: Result<usize, ModeError>)
        ensures
            self.pending().len() != 0 ==> r == Err::<usize, ModeError>(
                ModeError::PartialBlock(self.pending().len() as usize),
            ) && final(writer)@ == old(writer)@,
            self.pending().len() == 0 ==> match self.held() {
                None => r == Ok::<usize, ModeError>(0) && final(writer)@ == old(writer)@,
                Some(h) => match PaddingStrategy::remove_padding_spec(h) {
                    Ok(n) => r == Ok::<usize, ModeError>(n) && final(writer)@ == old(writer)@
                        + h.take(n as int),
                    Err(e) => r == Err::<usize, ModeError>(ModeError::Padding(e))
                        && final(writer)@ == old(writer)@,
                },
            },
    {
        proof {
            use_type_invariant(&self);
        }
        if self.partial_len != 0 {
            return Err(ModeError::PartialBlock(self.partial_len));
        }
        if let Some(last_full_block) = self.last_full_block {
            let plaintext_len = match PaddingStrategy::remove_padding(&last_full_block) {
                Ok(n) => n,
                Err(e) => {
                    return Err(ModeError::Padding(e));
                },
            };
            write_prefix(writer, &last_full_block, plaintext_len);
            return Ok(plaintext_len);
        }
        Ok(0)
    }
}

/// The whole blocks of `x` and `x` cut down to them encrypt the same.
pub proof fn lemma_ecb_encrypt_whole<E: AESEncoder>(x: Seq<u8>, key: Seq<u8>)
    ensures
        ecb_encrypt_blocks::<E>(x, key) == ecb_encrypt_blocks::<E>(
            x.take(whole_blocks_len(x.len()) as int),
            key,
        ),
    decreases x.len(),
{
    let w = whole_blocks_len(x.len());
    if x.len() < 16 {
        assert(x.take(w as int) =~= Seq::<u8>::empty());
    } else {
        let t = x.take(w as int);
        assert(t.take(16) =~= x.take(16));
        assert(t.skip(16) =~= x.skip(16).take(whole_blocks_len(x.skip(16).len()) as int));
        lemma_ecb_encrypt_whole::<E>(x.skip(16), key);
    }
}

/// ECB encryption of a concatenation is the concatenation of the encryptions, when the
/// first part is made of whole blocks.
pub proof fn lemma_ecb_encrypt_concat<E: AESEncoder>(x: Seq<u8>, y: Seq<u8>, key: Seq<u8>)
    requires
        x.len() % 16 == 0,
    ensures
        ecb_encrypt_blocks::<E>(x + y, key) == ecb_encrypt_blocks::<E>(x, key)
            + ecb_encrypt_blocks::<E>(y, key),
    decreases x.len(),
{
    if x.len() == 0 {
        assert(x + y =~= y);
        assert(ecb_encrypt_blocks::<E>(x, key) =~= Seq::<u8>::empty());
    } else {
        assert((x + y).take(16) =~= x.take(16));
        assert((x + y).skip(16) =~= x.skip(16) + y);
        lemma_ecb_encrypt_concat::<E>(x.skip(16), y, key);
    }
}

/// ECB decryption of a concatenation is the concatenation of the decryptions, when the
/// first part is made of whole blocks.
pub proof fn lemma_ecb_decrypt_concat<D: AESDecoder>(x: Seq<u8>, y: Seq<u8>, key: Seq<u8>)
    requires
        x.len() % 16 == 0,
    ensures
        ecb_decrypt_blocks::<D>(x + y, key) == ecb_decrypt_blocks::<D>(x, key)
            + ecb_decrypt_blocks::<D>(y, key),
    decreases x.len(),
{
    if x.len() == 0 {
        assert(x + y =~= y);
        assert(ecb_decrypt_blocks::<D>(x, key) =~= Seq::<u8>::empty());
    } else {
        assert((x + y).take(16) =~= x.take(16));
        assert((x + y).skip(16) =~= x.skip(16) + y);
        lemma_ecb_decrypt_concat::<D>(x.skip(16), y, key);
    }
}

pub proof fn lemma_ecb_encrypt_len(x: Seq<u8>, key: Seq<u8>)
    ensures
        ecb_encrypt_blocks::<HWAesEncoder>(x, key).len() == whole_blocks_len(x.len()),
    decreases x.len(),
{
    if x.len() >= 16 {
        lemma_ecb_encrypt_len(x.skip(16), key);
        lemma_hw_encrypt_len(x.take(16), key);
    }
}

/// ECB decryption undoes ECB encryption on the whole blocks.
pub proof fn lemma_ecb_decrypt_encrypt(x: Seq<u8>, key: Seq<u8>)
    requires
        key.len() == 16,
    ensures
        ecb_decrypt_blocks::<HWAesDecoder>(ecb_encrypt_blocks::<HWAesEncoder>(x, key), key)
            == x.take(whole_blocks_len(x.len()) as int),
    decreases x.len(),
{
    let c = ecb_encrypt_blocks::<HWAesEncoder>(x, key);
    if x.len() < 16 {
        assert(x.take(0) =~= Seq::<u8>::empty());
    } else {
        let e = encrypt_spec::<HWAesEncoder>(x.take(16), key);
        let rest = ecb_encrypt_blocks::<HWAesEncoder>(x.skip(16), key);
        lemma_hw_encrypt_len(x.take(16), key);
        lemma_ecb_encrypt_len(x.skip(16), key);
        assert(c.take(16) =~= e);
        assert(c.skip(16) =~= rest);
        lemma_decrypt_encrypt(x.take(16), key);
        lemma_ecb_decrypt_encrypt(x.skip(16), key);
        assert(x.take(16) + x.skip(16).take(whole_blocks_len(x.skip(16).len()) as int) =~= x.take(
            whole_blocks_len(x.len()) as int,
        ));
    }
}

/// Writing `a` and then `b` to an ECB encoder writes what writing `a + b` at once
/// writes, and leaves the same partial block.
pub proof fn lemma_ecb_write_split<E: AESEncoder>(
    pending: Seq<u8>,
    a: Seq<u8>,
    b: Seq<u8>,
    key: Seq<u8>,
)
    ensures
        ({
            let all_a = pending + a;
            let rest_a = all_a.skip(whole_blocks_len(all_a.len()) as int);
            let all = pending + (a + b);
            &&& ecb_encrypt_blocks::<E>(all_a, key) + ecb_encrypt_blocks::<E>(rest_a + b, key)
                == ecb_encrypt_blocks::<E>(all, key)
            &&& (rest_a + b).skip(whole_blocks_len((rest_a + b).len()) as int) == all.skip(
                whole_blocks_len(all.len()) as int,
            )
        }),
{
    let all_a = pending + a;
    let w = whole_blocks_len(all_a.len());
    let head = all_a.take(w as int);
    let rest_a = all_a.skip(w as int);
    let all = pending + (a + b);
    assert(all =~= head + (rest_a + b));
    lemma_ecb_encrypt_whole::<E>(all_a, key);
    lemma_ecb_encrypt_concat::<E>(head, rest_a + b, key);
    let r = rest_a + b;
    let wr = whole_blocks_len(r.len());
    assert(whole_blocks_len(all.len()) == w + wr);
    assert(r.skip(wr as int) =~= all.skip((w + wr) as int));
}

/// What an ECB encoder writes for `message` over a `write_bytes` and a `finalise`.
pub open spec fn ecb_encrypt_message<E: AESEncoder, P: Padding<16>>(message: Seq<u8>, key: Seq<u8>) -> Seq<
    u8,
> {
    let rest = message.skip(whole_blocks_len(message.len()) as int);
    ecb_encrypt_blocks::<E>(message, key) + if rest.len() == 0 {
        Seq::<u8>::empty()
    } else {
        encrypt_spec::<E>(P::pad_spec(rest), key)
    }
}

/// ECB with PKCS#7 padding gives back the message: the ECB decoder, fed what the
/// encoder wrote for `message`, holds back the last block, whose padding comes off to
/// leave exactly the rest of the message. A message of whole blocks gets no padding
/// block, so its last block would be read as padding: it is left out here.
pub proof fn lemma_ecb_roundtrip(message: Seq<u8>, key: Seq<u8>)
    requires
        key.len() == 16,
        message.len() % 16 != 0,
    ensures
        ({
            let c = ecb_encrypt_message::<HWAesEncoder, PCKCS7Padding<16>>(message, key);
            let stream = ecb_decrypt_blocks::<HWAesDecoder>(c, key);
            let last = stream.skip(stream.len() - 16);
            let n = message.len() % 16;
            &&& c.len() == whole_blocks_len(message.len()) + 16
            &&& stream.len() == c.len()
            &&& pkcs7_unpad(last) == Ok::<usize, PaddingError>(n as usize)
            &&& stream.take(stream.len() - 16) + last.take(n as int) == message
        }),
{
    let w = whole_blocks_len(message.len());
    let rest = message.skip(w as int);
    let head = message.take(w as int);
    let e = encrypt_spec::<HWAesEncoder>(pkcs7_pad(rest, 16), key);
    let c = ecb_encrypt_message::<HWAesEncoder, PCKCS7Padding<16>>(message, key);
    lemma_hw_encrypt_len(pkcs7_pad(rest, 16), key);
    lemma_ecb_encrypt_len(message, key);
    lemma_ecb_encrypt_whole::<HWAesEncoder>(message, key);
    let body = ecb_encrypt_blocks::<HWAesEncoder>(message, key);
    assert(c == body + e);
    lemma_ecb_decrypt_concat::<HWAesDecoder>(body, e, key);
    lemma_ecb_decrypt_encrypt(message, key);
    assert(e.take(16) =~= e);
    assert(e.skip(16) =~= Seq::<u8>::empty());
    assert(pkcs7_pad(rest, 16).len() == 16);
    lemma_decrypt_encrypt(pkcs7_pad(rest, 16), key);
    let stream = ecb_decrypt_blocks::<HWAesDecoder>(c, key);
    assert(ecb_decrypt_blocks::<HWAesDecoder>(e.skip(16), key) =~= Seq::<u8>::empty());
    assert(ecb_decrypt_blocks::<HWAesDecoder>(e, key) =~= decrypt_spec::<HWAesDecoder>(
        e.take(16),
        key,
    ) + ecb_decrypt_blocks::<HWAesDecoder>(e.skip(16), key));
    assert(ecb_decrypt_blocks::<HWAesDecoder>(e, key) =~= pkcs7_pad(rest, 16));
    assert(stream =~= head + pkcs7_pad(rest, 16));
    lemma_pkcs7_unpad_pad(rest, 16);
    assert(stream.take(stream.len() - 16) =~= head);
    assert(stream.skip(stream.len() - 16) =~= pkcs7_pad(rest, 16));
    assert(pkcs7_pad(rest, 16).take(rest.len() as int) =~= rest);
    assert(head + rest =~= message);
}

/// The whole blocks of `x` and `x` cut down to them decrypt the same.
pub proof fn lemma_ecb_decrypt_whole<D: AESDecoder>(x: Seq<u8>, key: Seq<u8>)
    ensures
        ecb_decrypt_blocks::<D>(x, key) == ecb_decrypt_blocks::<D>(
            x.take(whole_blocks_len(x.len()) as int),
            key,
        ),
    decreases x.len(),
{
    let w = whole_blocks_len(x.len());
    if x.len() < 16 {
        assert(x.take(w as int) =~= Seq::<u8>::empty());
    } else {
        let t = x.take(w as int);
        assert(t.take(16) =~= x.take(16));
        assert(t.skip(16) =~= x.skip(16).take(whole_blocks_len(x.skip(16).len()) as int));
        lemma_ecb_decrypt_whole::<D>(x.skip(16), key);
    }
}

/// Writing `a` and then `b` to an ECB decoder yields the plaintext (written, plus held
/// back) that writing `a + b` at once yields, and leaves the same partial block.
pub proof fn lemma_ecb_decrypt_write_split<D: AESDecoder>(
    pending: Seq<u8>,
    a: Seq<u8>,
    b: Seq<u8>,
    key: Seq<u8>,
)
    ensures
        ({
            let all_a = pending + a;
            let rest_a = all_a.skip(whole_blocks_len(all_a.len()) as int);
            let all = pending + (a + b);
            &&& ecb_decrypt_blocks::<D>(all_a, key) + ecb_decrypt_blocks::<D>(rest_a + b, key)
                == ecb_decrypt_blocks::<D>(all, key)
            &&& (rest_a + b).skip(whole_blocks_len((rest_a + b).len()) as int) == all.skip(
                whole_blocks_len(all.len()) as int,
            )
        }),
{
    let all_a = pending + a;
    let w = whole_blocks_len(all_a.len());
    let head = all_a.take(w as int);
    let rest_a = all_a.skip(w as int);
    let all = pending + (a + b);
    assert(all =~= head + (rest_a + b));
    lemma_ecb_decrypt_whole::<D>(all_a, key);
    lemma_ecb_decrypt_concat::<D>(head, rest_a + b, key);
    let r = rest_a + b;
    let wr = whole_blocks_len(r.len());
    assert(whole_blocks_len(all.len()) == w + wr);
    assert(r.skip(wr as int) =~= all.skip((w + wr) as int));
}

} // verus!
