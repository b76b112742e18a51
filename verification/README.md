# AES-128 with verified modes of operation

A library crate, verified with Verus:

- `gf`, `aes_spec`: the AES-128 block cipher (FIPS-197) as mathematical functions on
  byte sequences, with the proof that decryption undoes encryption.
- `hw`: `HWAesEncoder` and `HWAesDecoder`, the rounds of the AES instruction set
  (AESENC, AESENCLAST, AESDEC, AESDECLAST, AESIMC, AESKEYGENASSIST) computed byte by byte.
- `traits`: blocks of any size (`BlockOp`) and the round structure of an encoder and a
  decoder.
- `padding`: PKCS#7 and zero padding, for blocks of any size.
- `modes`: ECB, CBC and CTR over a stream of writes, each write appending its output
  to a byte vector; `helpers` cuts the stream into blocks of any size.
- `attacks`: `padding_oracle`, which answers whether a CBC ciphertext decrypts to a last
  block with valid PKCS#7 padding, and the padding oracle attack on blocks of up to 16
  bytes, with the proofs that `padding_oracle` is an honest padding oracle and that an
  honest padding oracle lets the attack recover the plaintext.

`app/` is the demonstration program (printing, I/O errors). `tests/` hold known-answer
tests from FIPS-197 and NIST SP 800-38A and round-trip tests.
