//! The CBC padding oracle attack: with an oracle that tells whether a ciphertext
//! decrypts to a block with valid PKCS#7 padding, recover the plaintext of a block byte
//! by byte, from the last byte to the first.
use vstd::prelude::*;

use crate::aes_spec::{lemma_xor_bytes_cancel, xor_bytes};
use crate::gf::lemma_xor_cancel_left;
use crate::hw::{lemma_hw_decrypt_len, HWAesDecoder};
use crate::traits::decrypt_spec;
use crate::modes::cbc::{cbc_decrypt_blocks, lemma_cbc_decrypt_len, CBCDecrypt};
use crate::modes::traits::BlockCipherDecoderMode;
use crate::padding::pkcs7::{lemma_pkcs7_unpad_accepts, pkcs7_unpad, PCKCS7Padding};
use crate::padding::traits::Padding;

verus! {

/// The padding oracle of a CBC decoder: decrypts `guess` under `key` and `iv` into
/// `decoded`, and tells whether `guess` is a whole number of blocks whose last decrypted
/// block has valid PKCS#7 padding. An empty guess, which the decoder finishes without
/// error, is accepted.
pub fn padding_oracle(guess: &[u8], decoded: &mut Vec<u8>, key: [u8; 16], iv: [u8; 16]) -> (ok:
    bool)
    requires
        guess@.len() + 16 <= usize::MAX,
    ensures
        final(decoded)@ == old(decoded)@ + cbc_decrypt_blocks::<HWAesDecoder>(
            guess@,
            key@,
            iv@,
        ),
        ok == (guess@.len() == 0 || (guess@.len() % 16 == 0 && pkcs7_valid(
            cbc_decrypt_blocks::<HWAesDecoder>(guess@, key@, iv@).skip(guess@.len() - 16),
        ))),
        guess@.len() > 0 ==> (ok == ({
            let b = cbc_decrypt_blocks::<HWAesDecoder>(guess@, key@, iv@).skip(
                guess@.len() - 16,
            );
            &&& guess@.len() % 16 == 0
            &&& 1 <= b[15] <= 16
            &&& forall|j: int| 16 - b[15] <= j < 16 ==> #[trigger] b[j] == b[15]
        })),
{
    let mut decoder: CBCDecrypt<HWAesDecoder, PCKCS7Padding<16>> = CBCDecrypt::new(key, iv);
    decoder.write_bytes(guess, decoded);
    proof {
        assert(Seq::<u8>::empty() + guess@ =~= guess@);
        lemma_cbc_decrypt_len::<HWAesDecoder>(guess@, key@, iv@);
    }
    let finished = decoder.finalise(decoded);
    if finished.is_err() {
        return false;
    }
    if guess.len() == 0 {
        return true;
    }
    let len = decoded.len();
    let mut last = [0u8; 16];
    let mut t: usize = 0;
    while t < 16
        invariant
            t <= 16,
            16 <= len == decoded@.len(),
            forall|u: int| 0 <= u < t ==> last@[u] == decoded@[len - 16 + u],
        decreases 16 - t,
    {
        last[t] = decoded[len - 16 + t];
        t = t + 1;
    }
    proof {
        let plain = cbc_decrypt_blocks::<HWAesDecoder>(guess@, key@, iv@);
        assert(plain.len() == guess@.len());
        assert(last@ =~= plain.skip(guess@.len() - 16));
        lemma_pkcs7_valid_bytes(last@);
    }
    PCKCS7Padding::<16>::remove_padding(&last).is_ok()
}

/// The oracle answered `answer` when asked about `bytes`.
pub open spec fn answered<Oracle: Fn(&[u8]) -> bool>(
    oracle: Oracle,
    bytes: Seq<u8>,
    answer: bool,
) -> bool {
    exists|g: &[u8]| g@ == bytes && #[trigger] call_ensures(oracle, (g,), answer)
}

/// The 32 bytes the oracle is asked about: the forged first block, the ciphertext block
/// under attack, and zero bytes after them.
pub open spec fn query(block: Seq<u8>, c2: Seq<u8>) -> Seq<u8> {
    block + c2 + Seq::new((32 - block.len() - c2.len()) as nat, |i: int| 0u8)
}

/// The first block forged to recover byte `index`: the bytes of `c1` before `index`,
/// `v` at `index`, and after it the bytes that decrypt, under the intermediate block
/// `inter`, to the padding value `c1.len() - index`.
pub open spec fn forged_block(c1: Seq<u8>, inter: Seq<u8>, index: int, v: u8) -> Seq<u8> {
    Seq::new(
        c1.len(),
        |j: int|
            if j < index {
                c1[j]
            } else if j == index {
                v
            } else {
                inter[j] ^ ((c1.len() - index) as u8)
            },
    )
}

/// The value tried for byte `index` at the `k`-th attempt (counting from 1): the byte
/// of `c1` plus `k`, wrapping.
pub open spec fn candidate(c1: Seq<u8>, index: int, k: int) -> u8 {
    ((c1[index] + k) % 256) as u8
}

/// The search for byte `index` of the intermediate block `inter` took `tries` attempts:
/// the oracle refused the earlier candidates and accepted the last one, which the
/// byte `inter[index]` turns into the padding value.
pub open spec fn byte_found<Oracle: Fn(&[u8]) -> bool>(
    oracle: Oracle,
    c1: Seq<u8>,
    c2: Seq<u8>,
    inter: Seq<u8>,
    index: int,
    tries: int,
) -> bool {
    &&& 1 <= tries <= 256
    &&& inter[index] == candidate(c1, index, tries) ^ ((c1.len() - index) as u8)
    &&& answered(
        oracle,
        query(forged_block(c1, inter, index, candidate(c1, index, tries)), c2),
        true,
    )
    &&& forall|k: int|
        1 <= k < tries ==> answered(
            oracle,
            query(#[trigger] forged_block(c1, inter, index, candidate(c1, index, k)), c2),
            false,
        )
}

/// The searches for bytes `from..` of the block succeeded, with `tries[i]` attempts for
/// byte `i`.
pub open spec fn bytes_found<Oracle: Fn(&[u8]) -> bool>(
    oracle: Oracle,
    c1: Seq<u8>,
    c2: Seq<u8>,
    inter: Seq<u8>,
    tries: Seq<int>,
    from: int,
) -> bool {
    &&& inter.len() == c1.len()
    &&& tries.len() == c1.len()
    &&& forall|i: int|
        from <= i < c1.len() ==> #[trigger] byte_found(oracle, c1, c2, inter, i, tries[i])
}

/// The number of attempts of the searches for bytes `from..`.
pub open spec fn total_tries(tries: Seq<int>, from: int) -> int
    decreases tries.len() - from,
{
    if from >= tries.len() {
        0
    } else {
        tries[from] + total_tries(tries, from + 1)
    }
}

/// The search for byte `index` failed: after the bytes after it were found, the oracle
/// refused all 256 candidates.
pub open spec fn byte_not_found<Oracle: Fn(&[u8]) -> bool>(
    oracle: Oracle,
    c1: Seq<u8>,
    c2: Seq<u8>,
    inter: Seq<u8>,
    tries: Seq<int>,
    index: int,
) -> bool {
    &&& 0 <= index < c1.len()
    &&& bytes_found(oracle, c1, c2, inter, tries, index + 1)
    &&& forall|k: int|
        1 <= k <= 256 ==> answered(
            oracle,
            query(#[trigger] forged_block(c1, inter, index, candidate(c1, index, k)), c2),
            false,
        )
}

/// The search for byte `index` fails, after the bytes after it were found.
pub open spec fn search_failed_at<Oracle: Fn(&[u8]) -> bool>(
    oracle: Oracle,
    c1: Seq<u8>,
    c2: Seq<u8>,
    index: int,
) -> bool {
    exists|inter: Seq<u8>, tries: Seq<int>| byte_not_found(oracle, c1, c2, inter, tries, index)
}

/// Runs the padding oracle attack on the ciphertext block `c2`, whose predecessor is
/// `c1`. Returns the plaintext and the number of oracle calls, or, when for some byte the
/// oracle accepts none of the 256 values, the index of that byte.
pub fn try_padding_oracle_attack<const SIZE: usize, Oracle: Fn(&[u8]) -> bool>(
    c1: [u8; SIZE],
    c2: [u8; SIZE],
    oracle: Oracle,
) -> (r: Result<([u8; SIZE], u64), usize>)
    requires
        SIZE <= 16,
        forall|g: &[u8]| #[trigger] call_requires(oracle, (g,)),
    ensures
        r matches Ok((p2, attempts)) ==> exists|tries: Seq<int>|
            bytes_found(oracle, c1@, c2@, xor_bytes(p2@, c1@), tries, 0) && attempts
                == total_tries(tries, 0),
        r matches Ok((p2, attempts)) ==> SIZE <= attempts <= 256 * SIZE,
        r matches Err(index) ==> search_failed_at(oracle, c1@, c2@, index as int),
{
    let mut attempts: u64 = 0;
    let mut c1_prime = c1;
    let mut p2: [u8; SIZE] = [0u8; SIZE];
    let mut intermediate: [u8; SIZE] = [0; SIZE];
    let ghost mut tries: Seq<int> = Seq::new(SIZE as nat, |i: int| 1int);
    let mut index: usize = SIZE;
    while index > 0
        invariant
            index <= SIZE <= 16,
            c1@.len() == SIZE,
            c2@.len() == SIZE,
            c1_prime@.len() == SIZE,
            p2@.len() == SIZE,
            intermediate@.len() == SIZE,
            forall|g: &[u8]| #[trigger] call_requires(oracle, (g,)),
            tries.len() == SIZE,
            bytes_found(oracle, c1@, c2@, intermediate@, tries, index as int),
            forall|i: int| index <= i < SIZE ==> p2@[i] == intermediate@[i] ^ c1@[i],
            forall|i: int| 0 <= i < index ==> c1_prime@[i] == c1@[i],
            attempts == total_tries(tries, index as int),
            SIZE - index <= attempts <= 256 * (SIZE - index),
        decreases index,
    {
        index = index - 1;
        let padding_bytes = (SIZE - index) as u8;
        let mut i = index + 1;
        while i < SIZE
            invariant
                index < i <= SIZE <= 16,
                c1_prime@.len() == SIZE,
                padding_bytes == (SIZE - index) as u8,
                forall|j: int| 0 <= j <= index ==> c1_prime@[j] == c1@[j],
                forall|j: int| index < j < i ==> c1_prime@[j] == intermediate@[j] ^ padding_bytes,
            decreases SIZE - i,
        {
            // make recovered bytes decrypt to the desired padding value
            c1_prime[i] = intermediate[i] ^ padding_bytes;
            i = i + 1;
        }
        let mut found = false;
        let mut count: usize = 0;
        let ghost inter = intermediate@;
        let ghost attempts_before = attempts;
        while count < 256
            invariant_except_break
                intermediate@ == inter,
                !found,
                forall|k: int|
                    1 <= k <= count ==> answered(
                        oracle,
                        query(
                            #[trigger] forged_block(
                                c1@,
                                inter,
                                index as int,
                                candidate(c1@, index as int, k),
                            ),
                            c2@,
                        ),
                        false,
                    ),
            invariant
                count <= 256,
                index < SIZE <= 16,
                c1@.len() == SIZE,
                c2@.len() == SIZE,
                c1_prime@.len() == SIZE,
                p2@.len() == SIZE,
                intermediate@.len() == SIZE,
                padding_bytes == (SIZE - index) as u8,
                inter.len() == SIZE,
                attempts == attempts_before + count,
                SIZE - 1 - index <= attempts_before <= 256 * (SIZE - 1 - index),
                forall|i: int| index < i < SIZE ==> p2@[i] == inter[i] ^ c1@[i],
                forall|g: &[u8]| #[trigger] call_requires(oracle, (g,)),
                forall|j: int| 0 <= j < index ==> c1_prime@[j] == c1@[j],
                forall|j: int| index < j < SIZE ==> c1_prime@[j] == inter[j] ^ padding_bytes,
                c1_prime@[index as int] == candidate(c1@, index as int, count as int),
            ensures
                found ==> 1 <= count <= 256 && intermediate@ == inter.update(
                    index as int,
                    candidate(c1@, index as int, count as int) ^ padding_bytes,
                ) && p2@[index as int] == intermediate@[index as int] ^ c1@[index as int]
                    && answered(
                    oracle,
                    query(
                        forged_block(
                            c1@,
                            inter,
                            index as int,
                            candidate(c1@, index as int, count as int),
                        ),
                        c2@,
                    ),
                    true,
                ) && forall|k: int|
                    1 <= k < count ==> answered(
                        oracle,
                        query(
                            #[trigger] forged_block(
                                c1@,
                                inter,
                                index as int,
                                candidate(c1@, index as int, k),
                            ),
                            c2@,
                        ),
                        false,
                    ),
                !found ==> count == 256 && intermediate@ == inter && forall|k: int|
                    1 <= k <= 256 ==> answered(
                        oracle,
                        query(
                            #[trigger] forged_block(
                                c1@,
                                inter,
                                index as int,
                                candidate(c1@, index as int, k),
                            ),
                            c2@,
                        ),
                        false,
                    ),
            decreases 256 - count,
        {
            c1_prime[index] = c1_prime[index].wrapping_add(1);
            count = count + 1;
            proof {
                assert(c1_prime@[index as int] == candidate(c1@, index as int, count as int)) by {
                    assert(c1@[index as int] + count - 1 >= 0);
                }
            }
            let mut guess = [0u8; 32];
            let mut j: usize = 0;
            while j < SIZE
                invariant
                    j <= SIZE <= 16,
                    guess@.len() == 32,
                    c1_prime@.len() == SIZE,
                    c2@.len() == SIZE,
                    forall|t: int| 0 <= t < j ==> guess@[t] == c1_prime@[t],
                    forall|t: int| 0 <= t < j ==> guess@[SIZE + t] == c2@[t],
                    forall|t: int| 2 * SIZE <= t < 32 ==> guess@[t] == 0u8,
                decreases SIZE - j,
            {
                guess[j] = c1_prime[j];
                guess[SIZE + j] = c2[j];
                j = j + 1;
            }
            proof {
                assert(c1_prime@ =~= forged_block(
                    c1@,
                    inter,
                    index as int,
                    candidate(c1@, index as int, count as int),
                ));
                assert(guess@ =~= query(c1_prime@, c2@));
            }
            let g = guess.as_slice();
            let padding_ok = oracle(g);
            attempts = attempts + 1;
            if padding_ok {
                intermediate[index] = c1_prime[index] ^ padding_bytes;
                p2[index] = intermediate[index] ^ c1[index];
                found = true;
                break ;
            }
        }
        if !found {
            proof {
                assert(byte_not_found(oracle, c1@, c2@, inter, tries, index as int));
                assert(search_failed_at(oracle, c1@, c2@, index as int));
            }
            return Err(index);
        }
        proof {
            lemma_bytes_found_update(
                oracle,
                c1@,
                c2@,
                inter,
                tries,
                index as int + 1,
                index as int,
                intermediate@[index as int],
                count as int,
            );
            lemma_total_tries_update(tries, index as int + 1, index as int, count as int);
            let forged = forged_block(
                c1@,
                intermediate@,
                index as int,
                candidate(c1@, index as int, count as int),
            );
            assert(forged =~= forged_block(
                c1@,
                inter,
                index as int,
                candidate(c1@, index as int, count as int),
            ));
            assert forall|k: int| 1 <= k < count implies answered(
                oracle,
                query(
                    #[trigger] forged_block(
                        c1@,
                        intermediate@,
                        index as int,
                        candidate(c1@, index as int, k),
                    ),
                    c2@,
                ),
                false,
            ) by {
                assert(forged_block(c1@, intermediate@, index as int, candidate(c1@, index as int, k))
                    =~= forged_block(c1@, inter, index as int, candidate(c1@, index as int, k)));
            }
            tries = tries.update(index as int, count as int);
            assert(byte_found(oracle, c1@, c2@, intermediate@, index as int, tries[index as int]));
        }
    }
    proof {
        assert(forall|i: int| 0 <= i < SIZE ==> p2@[i] == intermediate@[i] ^ c1@[i]);
        assert(p2@ =~= xor_bytes(intermediate@, c1@));
        lemma_xor_bytes_cancel(intermediate@, c1@);
    }
    Ok((p2, attempts))
}

/// Recovers the plaintext of the ciphertext block `c2`, whose predecessor is `c1`, with a
/// padding oracle, byte by byte from the last to the first. Returns the plaintext and the
/// number of oracle calls. The oracle must not refuse all 256 values of some byte.
pub fn do_padding_oracle_attack<const SIZE: usize, Oracle: Fn(&[u8]) -> bool>(
    c1: [u8; SIZE],
    c2: [u8; SIZE],
    oracle: Oracle,
) -> (r: ([u8; SIZE], u64))
    requires
        SIZE <= 16,
        forall|g: &[u8]| #[trigger] call_requires(oracle, (g,)),
        !block_not_recovered(oracle, c1@, c2@),
    ensures
        exists|tries: Seq<int>|
            bytes_found(oracle, c1@, c2@, xor_bytes(r.0@, c1@), tries, 0) && r.1 == total_tries(
                tries,
                0,
            ),
        SIZE <= r.1 <= 256 * SIZE,
{
    match try_padding_oracle_attack(c1, c2, oracle) {
        Ok(found) => found,
        Err(index) => {
            proof {
                let (inter, tries) = choose|inter: Seq<u8>, tries: Seq<int>|
                    byte_not_found(oracle, c1@, c2@, inter, tries, index as int);
                assert(block_not_recovered(oracle, c1@, c2@));
            }
            unreached()
        },
    }
}

/// Finding the bytes `from..` does not depend on the intermediate byte at an earlier
/// position, nor on the number of tries recorded for it.
proof fn lemma_bytes_found_update<Oracle: Fn(&[u8]) -> bool>(
    oracle: Oracle,
    c1: Seq<u8>,
    c2: Seq<u8>,
    inter: Seq<u8>,
    tries: Seq<int>,
    from: int,
    index: int,
    x: u8,
    t: int,
)
    requires
        bytes_found(oracle, c1, c2, inter, tries, from),
        0 <= index < from <= c1.len(),
    ensures
        bytes_found(oracle, c1, c2, inter.update(index, x), tries.update(index, t), from),
{
    let inter2 = inter.update(index, x);
    let tries2 = tries.update(index, t);
    assert forall|i: int| from <= i < c1.len() implies #[trigger] byte_found(
        oracle,
        c1,
        c2,
        inter2,
        i,
        tries2[i],
    ) by {
        assert(byte_found(oracle, c1, c2, inter, i, tries[i]));
        assert(forged_block(c1, inter2, i, candidate(c1, i, tries[i])) =~= forged_block(
            c1,
            inter,
            i,
            candidate(c1, i, tries[i]),
        ));
        assert forall|k: int| 1 <= k < tries2[i] implies answered(
            oracle,
            query(#[trigger] forged_block(c1, inter2, i, candidate(c1, i, k)), c2),
            false,
        ) by {
            assert(forged_block(c1, inter2, i, candidate(c1, i, k)) =~= forged_block(
                c1,
                inter,
                i,
                candidate(c1, i, k),
            ));
        }
    }
}

/// The total of the tries for bytes `from..` does not depend on an earlier entry.
proof fn lemma_total_tries_update(tries: Seq<int>, from: int, index: int, t: int)
    requires
        0 <= index < from,
        index < tries.len(),
    ensures
        total_tries(tries.update(index, t), from) == total_tries(tries, from),
    decreases tries.len() - from,
{
    if from < tries.len() {
        lemma_total_tries_update(tries, from + 1, index, t);
    }
}

/// Block `j` (of `size` bytes) of `bytes`.
pub open spec fn block_at(bytes: Seq<u8>, j: int, size: int) -> Seq<u8> {
    bytes.subrange(size * j, size * j + size)
}

/// The block that ciphertext block `j` is chained to: the IV for the first block, else
/// the ciphertext block before it.
pub open spec fn chained_block(ciphertext: Seq<u8>, iv: Seq<u8>, j: int) -> Seq<u8> {
    if j == 0 {
        iv
    } else {
        block_at(ciphertext, j - 1, iv.len() as int)
    }
}

/// The attack on the ciphertext block `c2`, chained to `c1`, succeeded with the
/// plaintext `plain`.
pub open spec fn block_recovered<Oracle: Fn(&[u8]) -> bool>(
    oracle: Oracle,
    c1: Seq<u8>,
    c2: Seq<u8>,
    plain: Seq<u8>,
) -> bool {
    exists|tries: Seq<int>| bytes_found(oracle, c1, c2, xor_bytes(plain, c1), tries, 0)
}

/// The attack on the ciphertext block `c2`, chained to `c1`, fails: for some byte the
/// oracle refuses all 256 values.
pub open spec fn block_not_recovered<Oracle: Fn(&[u8]) -> bool>(
    oracle: Oracle,
    c1: Seq<u8>,
    c2: Seq<u8>,
) -> bool {
    exists|inter: Seq<u8>, tries: Seq<int>, index: int|
        byte_not_found(oracle, c1, c2, inter, tries, index)
}

/// Blocks `j` and after start past the end of block `i`, for `i < j`.
proof fn lemma_block_order(size: int, i: int, j: int)
    by (nonlinear_arith)
    requires
        0 <= i < j,
        0 <= size,
    ensures
        size * i + size <= size * j,
{
}

/// Copies block `j` of `bytes` out.
fn copy_block<const SIZE: usize>(bytes: &[u8], j: usize) -> (b: [u8; SIZE])
    requires
        SIZE * j + SIZE <= bytes@.len(),
    ensures
        b@ == block_at(bytes@, j as int, SIZE as int),
{
    let mut b = [0u8; SIZE];
    let len = bytes.len();
    let start = SIZE * j;
    let mut t: usize = 0;
    while t < SIZE
        invariant
            t <= SIZE,
            b@.len() == SIZE,
            start == SIZE * j,
            len == bytes@.len(),
            start + SIZE <= len,
            forall|u: int| 0 <= u < t ==> b@[u] == bytes@[start + u],
        decreases SIZE - t,
    {
        b[t] = bytes[start + t];
        t = t + 1;
    }
    assert(b@ =~= block_at(bytes@, j as int, SIZE as int));
    b
}

/// Recovers the plaintext of a CBC ciphertext of whole blocks with a padding oracle,
/// block by block from the last to the first. The oracle must not refuse all 256 values
/// of a byte in the attack on any block.
pub fn padding_oracle_attack_helper<const SIZE: usize, Oracle: Fn(&[u8]) -> bool + Copy>(
    ciphertext: &[u8],
    iv: &[u8; SIZE],
    oracle: Oracle,
) -> (plaintext: Vec<u8>)
    requires
        1 <= SIZE <= 16,
        ciphertext@.len() as int % SIZE as int == 0,
        ciphertext@.len() >= SIZE,
        forall|g: &[u8]| #[trigger] call_requires(oracle, (g,)),
        forall|j: int|
            0 <= j < ciphertext@.len() as int / SIZE as int ==> !#[trigger] block_not_recovered(
                oracle,
                chained_block(ciphertext@, iv@, j),
                block_at(ciphertext@, j, SIZE as int),
            ),
    ensures
        plaintext@.len() == ciphertext@.len(),
        forall|j: int|
            0 <= j < ciphertext@.len() as int / SIZE as int ==> #[trigger] block_recovered(
                oracle,
                chained_block(ciphertext@, iv@, j),
                block_at(ciphertext@, j, SIZE as int),
                block_at(plaintext@, j, SIZE as int),
            ),
{
    let len = ciphertext.len();
    let n = len / SIZE;
    proof {
        vstd::arithmetic::div_mod::lemma_fundamental_div_mod(len as int, SIZE as int);
    }
    let mut plaintext: Vec<u8> = Vec::new();
    let mut k: usize = 0;
    while k < len
        invariant
            k <= len == ciphertext@.len(),
            plaintext@.len() == k,
        decreases len - k,
    {
        plaintext.push(0u8);
        k = k + 1;
    }
    let mut j: usize = n;
    while j > 0
        invariant
            1 <= SIZE <= 16,
            n == ciphertext@.len() as int / SIZE as int,
            SIZE * n == ciphertext@.len(),
            iv@.len() == SIZE,
            ciphertext@.len() <= usize::MAX,
            j <= n,
            plaintext@.len() == ciphertext@.len(),
            forall|g: &[u8]| #[trigger] call_requires(oracle, (g,)),
            forall|i: int|
                0 <= i < n ==> !#[trigger] block_not_recovered(
                    oracle,
                    chained_block(ciphertext@, iv@, i),
                    block_at(ciphertext@, i, SIZE as int),
                ),
            forall|i: int|
                j <= i < n ==> #[trigger] block_recovered(
                    oracle,
                    chained_block(ciphertext@, iv@, i),
                    block_at(ciphertext@, i, SIZE as int),
                    block_at(plaintext@, i, SIZE as int),
                ),
        decreases j,
    {
        j = j - 1;
        proof {
            lemma_block_order(SIZE as int, j as int, n as int);
            if j > 0 {
                lemma_block_order(SIZE as int, j - 1, j as int);
            }
        }
        let c1 = if j == 0 {
            *iv
        } else {
            copy_block(ciphertext, j - 1)
        };
        let c2 = copy_block(ciphertext, j);
        assert(c1@ == chained_block(ciphertext@, iv@, j as int));
        assert(!block_not_recovered(
            oracle,
            chained_block(ciphertext@, iv@, j as int),
            block_at(ciphertext@, j as int, SIZE as int),
        ));
        let (p2, _attempts) = do_padding_oracle_attack(c1, c2, oracle);
        let ghost before = plaintext@;
        let start = SIZE * j;
        let mut t: usize = 0;
        while t < SIZE
            invariant
                t <= SIZE,
                p2@.len() == SIZE,
                start == SIZE * j,
                start + SIZE <= plaintext@.len() == before.len() <= usize::MAX,
                forall|u: int| 0 <= u < t ==> plaintext@[start + u] == p2@[u],
                forall|u: int|
                    0 <= u < before.len() && !(start <= u < start + t) ==> plaintext@[u]
                        == before[u],
            decreases SIZE - t,
        {
            plaintext.set(start + t, p2[t]);
            t = t + 1;
        }
        proof {
            assert(block_at(plaintext@, j as int, SIZE as int) =~= p2@);
            assert forall|i: int| j <= i < n implies #[trigger] block_recovered(
                oracle,
                chained_block(ciphertext@, iv@, i),
                block_at(ciphertext@, i, SIZE as int),
                block_at(plaintext@, i, SIZE as int),
            ) by {
                if i > j {
                    lemma_block_order(SIZE as int, j as int, i);
                    lemma_block_order(SIZE as int, i, n as int);
                    assert(block_at(plaintext@, i, SIZE as int) =~= block_at(
                        before,
                        i,
                        SIZE as int,
                    ));
                }
            }
        }
    }
    plaintext
}

/// The block has valid PKCS#7 padding.
pub open spec fn pkcs7_valid(block: Seq<u8>) -> bool {
    pkcs7_unpad(block) is Ok
}

/// A block has valid PKCS#7 padding exactly when its last byte `n` lies between 1 and the
/// block size and the last `n` bytes all equal `n`.
pub proof fn lemma_pkcs7_valid_bytes(block: Seq<u8>)
    requires
        1 <= block.len() <= usize::MAX,
    ensures
        pkcs7_valid(block) == (1 <= block.last() <= block.len() && forall|j: int|
            block.len() - block.last() <= j < block.len() ==> #[trigger] block[j]
                == block.last()),
{
    lemma_pkcs7_unpad_accepts(block);
}

/// The oracle is a padding oracle for the ciphertext block `c2`, whose decryption by
/// the block cipher (before the xor of CBC) is `inter`: it accepts a query made of a
/// first block and `c2` exactly when `inter` xored with the first block has valid padding.
pub open spec fn honest_oracle<Oracle: Fn(&[u8]) -> bool>(
    oracle: Oracle,
    c2: Seq<u8>,
    inter: Seq<u8>,
) -> bool {
    forall|g: &[u8], a: bool|
        #[trigger] call_ensures(oracle, (g,), a) && g@ == query(g@.take(c2.len() as int), c2)
            ==> a == pkcs7_valid(xor_bytes(inter, g@.take(c2.len() as int)))
}

/// For the last byte, no candidate that comes before the one which decrypts to the
/// padding byte 1 gives valid padding (a plaintext ending in, say, 2 2 lets an earlier
/// candidate decrypt to a valid padding of length 2).
pub open spec fn no_early_false_positive(c1: Seq<u8>, inter: Seq<u8>) -> bool {
    let last = c1.len() - 1;
    forall|k: int|
        1 <= k <= 256 && pkcs7_valid(
            xor_bytes(inter, #[trigger] forged_block(c1, inter, last, candidate(c1, last, k))),
        ) ==> exists|k0: int| 1 <= k0 <= k && candidate(c1, last, k0) == inter[last] ^ 1u8
}

proof fn lemma_xor_solve(a: u8, v: u8, p: u8)
    requires
        a ^ v == p,
    ensures
        v ^ p == a,
{
    assert(v ^ p == a) by (bit_vector)
        requires
            a ^ v == p,
    ;
}

/// What an honest oracle answers about a query.
proof fn lemma_honest_answer<Oracle: Fn(&[u8]) -> bool>(
    oracle: Oracle,
    c2: Seq<u8>,
    inter: Seq<u8>,
    block: Seq<u8>,
    a: bool,
)
    requires
        honest_oracle(oracle, c2, inter),
        block.len() == c2.len() <= 16,
        answered(oracle, query(block, c2), a),
    ensures
        a == pkcs7_valid(xor_bytes(inter, block)),
{
    let g = choose|g: &[u8]| g@ == query(block, c2) && #[trigger] call_ensures(oracle, (g,), a);
    assert(g@.take(c2.len() as int) =~= block);
}

/// Which candidate the search for byte `index` must find, given the bytes after it.
pub open spec fn true_candidate(inter: Seq<u8>, index: int) -> u8 {
    inter[index] ^ ((inter.len() - index) as u8)
}

/// The true candidate gives valid padding, once the bytes after it are right.
proof fn lemma_true_candidate_valid(c1: Seq<u8>, x: Seq<u8>, inter: Seq<u8>, index: int)
    requires
        c1.len() <= 16,
        x.len() == c1.len(),
        inter.len() == c1.len(),
        0 <= index < c1.len(),
        forall|j: int| index < j < c1.len() ==> x[j] == inter[j],
    ensures
        pkcs7_valid(xor_bytes(inter, forged_block(c1, x, index, true_candidate(inter, index)))),
{
    let n = c1.len();
    let pad = (n - index) as u8;
    let d = xor_bytes(inter, forged_block(c1, x, index, true_candidate(inter, index)));
    assert forall|j: int| index <= j < n implies d[j] == pad by {
        lemma_xor_cancel_left(inter[j], pad);
    }
    assert(d[n - 1] == pad);
}

/// With an honest oracle, the byte a search finds is the byte of `inter`, once the bytes
/// after it are right (for the last byte, when no false positive comes first).
proof fn lemma_found_byte_correct<Oracle: Fn(&[u8]) -> bool>(
    oracle: Oracle,
    c1: Seq<u8>,
    c2: Seq<u8>,
    inter: Seq<u8>,
    x: Seq<u8>,
    index: int,
    tries: int,
)
    requires
        c1.len() <= 16,
        c2.len() == c1.len(),
        inter.len() == c1.len(),
        x.len() == c1.len(),
        0 <= index < c1.len(),
        honest_oracle(oracle, c2, inter),
        no_early_false_positive(c1, inter),
        forall|j: int| index < j < c1.len() ==> x[j] == inter[j],
        byte_found(oracle, c1, c2, x, index, tries),
    ensures
        x[index] == inter[index],
{
    let n = c1.len() as int;
    let pad = (n - index) as u8;
    let v = candidate(c1, index, tries);
    let f = forged_block(c1, x, index, v);
    lemma_honest_answer(oracle, c2, inter, f, true);
    let d = xor_bytes(inter, f);
    if index < n - 1 {
        assert forall|j: int| index < j < n implies d[j] == pad by {
            lemma_xor_cancel_left(inter[j], pad);
        }
        assert(d[n - 1] == pad);
        assert(d[index] == pad);
        lemma_xor_solve(inter[index], v, pad);
        assert(x[index] == v ^ pad);
    } else {
        assert(forged_block(c1, x, n - 1, candidate(c1, n - 1, tries)) =~= forged_block(
            c1,
            inter,
            n - 1,
            candidate(c1, n - 1, tries),
        ));
        let last = c1.len() - 1;
        assert(last == n - 1);
        let k0 = choose|k0: int| 1 <= k0 <= tries && candidate(c1, last, k0) == inter[last] ^ 1u8;
        if k0 < tries {
            let f0 = forged_block(c1, x, n - 1, candidate(c1, n - 1, k0));
            assert(answered(oracle, query(f0, c2), false));
            lemma_honest_answer(oracle, c2, inter, f0, false);
            lemma_true_candidate_valid(c1, x, inter, n - 1);
            assert(f0 =~= forged_block(c1, x, n - 1, true_candidate(inter, n - 1)));
        }
        lemma_xor_cancel_left(inter[n - 1], 1u8);
        lemma_xor_solve(inter[n - 1], v, 1u8);
        assert(x[n - 1] == v ^ 1u8);
    }
}

/// With an honest oracle, the bytes `from..` that the searches found are those of `inter`.
proof fn lemma_found_bytes_correct<Oracle: Fn(&[u8]) -> bool>(
    oracle: Oracle,
    c1: Seq<u8>,
    c2: Seq<u8>,
    inter: Seq<u8>,
    x: Seq<u8>,
    tries: Seq<int>,
    from: int,
)
    requires
        c1.len() <= 16,
        c2.len() == c1.len(),
        inter.len() == c1.len(),
        0 <= from <= c1.len(),
        honest_oracle(oracle, c2, inter),
        no_early_false_positive(c1, inter),
        bytes_found(oracle, c1, c2, x, tries, from),
    ensures
        forall|j: int| from <= j < c1.len() ==> x[j] == inter[j],
    decreases c1.len() - from,
{
    if from < c1.len() {
        lemma_found_bytes_correct(oracle, c1, c2, inter, x, tries, from + 1);
        assert(byte_found(oracle, c1, c2, x, from, tries[from]));
        lemma_found_byte_correct(oracle, c1, c2, inter, x, from, tries[from]);
    }
}

/// The padding oracle attack works: with a padding oracle for the ciphertext block `c2`
/// (whose block decryption is `inter`), chained to `c1`, and no false positive ahead of
/// the true last byte, the attack cannot fail, and the plaintext it recovers is the CBC
/// plaintext `inter xor c1`.
pub proof fn lemma_attack_recovers_plaintext<Oracle: Fn(&[u8]) -> bool>(
    oracle: Oracle,
    c1: Seq<u8>,
    c2: Seq<u8>,
    inter: Seq<u8>,
)
    requires
        c1.len() <= 16,
        c2.len() == c1.len(),
        inter.len() == c1.len(),
        honest_oracle(oracle, c2, inter),
        no_early_false_positive(c1, inter),
    ensures
        !block_not_recovered(oracle, c1, c2),
        forall|p2: Seq<u8>|
            p2.len() == c1.len() && #[trigger] block_recovered(oracle, c1, c2, p2) ==> p2
                == xor_bytes(inter, c1),
{
    if block_not_recovered(oracle, c1, c2) {
        let (x, tries, index) = choose|x: Seq<u8>, tries: Seq<int>, index: int|
            byte_not_found(oracle, c1, c2, x, tries, index);
        lemma_found_bytes_correct(oracle, c1, c2, inter, x, tries, index + 1);
        let v = true_candidate(inter, index);
        let k = if (v - c1[index]) % 256 == 0 {
            256
        } else {
            (v - c1[index]) % 256
        };
        assert(candidate(c1, index, k) == v);
        let f = forged_block(c1, x, index, v);
        assert(answered(oracle, query(f, c2), false));
        lemma_honest_answer(oracle, c2, inter, f, false);
        lemma_true_candidate_valid(c1, x, inter, index);
    }
    assert forall|p2: Seq<u8>|
        p2.len() == c1.len() && #[trigger] block_recovered(oracle, c1, c2, p2) implies p2
        == xor_bytes(inter, c1) by {
        let tries = choose|tries: Seq<int>|
            bytes_found(oracle, c1, c2, xor_bytes(p2, c1), tries, 0);
        lemma_found_bytes_correct(oracle, c1, c2, inter, xor_bytes(p2, c1), tries, 0);
        assert(xor_bytes(p2, c1) =~= inter);
        lemma_xor_bytes_cancel(p2, c1);
    }
}

/// `padding_oracle` is a padding oracle: asked about two blocks, it accepts exactly when
/// the block decryption of the second block, xored with the first block, has valid
/// PKCS#7 padding (so it is an honest oracle for the second block, with that block
/// decryption as the intermediate block).
pub proof fn lemma_padding_oracle_honest(guess: Seq<u8>, key: Seq<u8>, iv: Seq<u8>)
    requires
        guess.len() == 32,
        iv.len() == 16,
    ensures
        cbc_decrypt_blocks::<HWAesDecoder>(guess, key, iv).skip(guess.len() - 16) == xor_bytes(
            decrypt_spec::<HWAesDecoder>(guess.skip(16), key),
            guess.take(16),
        ),
{
    let first = guess.take(16);
    let second = guess.skip(16);
    assert(second.take(16) =~= second);
    assert(second.skip(16).len() == 0);
    let tail = cbc_decrypt_blocks::<HWAesDecoder>(second, key, first);
    let none = cbc_decrypt_blocks::<HWAesDecoder>(second.skip(16), key, second.take(16));
    assert(none == Seq::<u8>::empty());
    assert(tail == xor_bytes(first, decrypt_spec::<HWAesDecoder>(second.take(16), key)) + none);
    assert(tail =~= xor_bytes(first, decrypt_spec::<HWAesDecoder>(second, key)));
    let head = xor_bytes(iv, decrypt_spec::<HWAesDecoder>(first, key));
    assert(cbc_decrypt_blocks::<HWAesDecoder>(guess, key, iv) == head + tail);
    assert((head + tail).skip(16) =~= tail);
    lemma_hw_decrypt_len(second, key);
    let d = decrypt_spec::<HWAesDecoder>(second, key);
    assert forall|i: int| 0 <= i < 16 implies #[trigger] xor_bytes(first, d)[i] == xor_bytes(
        d,
        first,
    )[i] by {
        let a = first[i];
        let b = d[i];
        assert(a ^ b == b ^ a) by (bit_vector);
    }
    assert(xor_bytes(first, d) =~= xor_bytes(d, first));
}

/// An oracle that answers as `padding_oracle` does, under `key` and `iv`, is an honest
/// padding oracle for every ciphertext block `c2`, with the block decryption of `c2` as
/// the intermediate block; so the attack on such an oracle recovers the CBC plaintext.
pub proof fn lemma_padding_oracle_closure_honest<Oracle: Fn(&[u8]) -> bool>(
    oracle: Oracle,
    key: Seq<u8>,
    iv: Seq<u8>,
    c2: Seq<u8>,
)
    requires
        iv.len() == 16,
        c2.len() == 16,
        forall|g: &[u8], a: bool|
            #[trigger] call_ensures(oracle, (g,), a) ==> a == (g@.len() == 0 || (g@.len() % 16
                == 0 && pkcs7_valid(
                cbc_decrypt_blocks::<HWAesDecoder>(g@, key, iv).skip(g@.len() - 16),
            ))),
    ensures
        honest_oracle(oracle, c2, decrypt_spec::<HWAesDecoder>(c2, key)),
{
    let inter = decrypt_spec::<HWAesDecoder>(c2, key);
    assert forall|g: &[u8], a: bool|
        #[trigger] call_ensures(oracle, (g,), a) && g@ == query(
            g@.take(c2.len() as int),
            c2,
        ) implies a == pkcs7_valid(xor_bytes(inter, g@.take(c2.len() as int))) by {
        assert(g@.len() == 32);
        assert(g@.skip(16) =~= c2);
        lemma_padding_oracle_honest(g@, key, iv);
    }
}

} // verus!
