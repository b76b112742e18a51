//! Byte-level arithmetic of AES: the S-box, its inverse, and multiplication in GF(2^8)
//! by the constants that MixColumns and InvMixColumns use.
use vstd::prelude::*;

verus! {

/// The AES S-box (SubBytes on one byte).
pub open spec fn sbox(x: u8) -> u8 {
    match x {
        0u8 => 0x63u8,
        1u8 => 0x7cu8,
        2u8 => 0x77u8,
        3u8 => 0x7bu8,
        4u8 => 0xf2u8,
        5u8 => 0x6bu8,
        6u8 => 0x6fu8,
        7u8 => 0xc5u8,
        8u8 => 0x30u8,
        9u8 => 0x01u8,
        10u8 => 0x67u8,
        11u8 => 0x2bu8,
        12u8 => 0xfeu8,
        13u8 => 0xd7u8,
        14u8 => 0xabu8,
        15u8 => 0x76u8,
        16u8 => 0xcau8,
        17u8 => 0x82u8,
        18u8 => 0xc9u8,
        19u8 => 0x7du8,
        20u8 => 0xfau8,
        21u8 => 0x59u8,
        22u8 => 0x47u8,
        23u8 => 0xf0u8,
        24u8 => 0xadu8,
        25u8 => 0xd4u8,
        26u8 => 0xa2u8,
        27u8 => 0xafu8,
        28u8 => 0x9cu8,
        29u8 => 0xa4u8,
        30u8 => 0x72u8,
        31u8 => 0xc0u8,
        32u8 => 0xb7u8,
        33u8 => 0xfdu8,
        34u8 => 0x93u8,
        35u8 => 0x26u8,
        36u8 => 0x36u8,
        37u8 => 0x3fu8,
        38u8 => 0xf7u8,
        39u8 => 0xccu8,
        40u8 => 0x34u8,
        41u8 => 0xa5u8,
        42u8 => 0xe5u8,
        43u8 => 0xf1u8,
        44u8 => 0x71u8,
        45u8 => 0xd8u8,
        46u8 => 0x31u8,
        47u8 => 0x15u8,
        48u8 => 0x04u8,
        49u8 => 0xc7u8,
        50u8 => 0x23u8,
        51u8 => 0xc3u8,
        52u8 => 0x18u8,
        53u8 => 0x96u8,
        54u8 => 0x05u8,
        55u8 => 0x9au8,
        56u8 => 0x07u8,
        57u8 => 0x12u8,
        58u8 => 0x80u8,
        59u8 => 0xe2u8,
        60u8 => 0xebu8,
        61u8 => 0x27u8,
        62u8 => 0xb2u8,
        63u8 => 0x75u8,
        64u8 => 0x09u8,
        65u8 => 0x83u8,
        66u8 => 0x2cu8,
        67u8 => 0x1au8,
        68u8 => 0x1bu8,
        69u8 => 0x6eu8,
        70u8 => 0x5au8,
        71u8 => 0xa0u8,
        72u8 => 0x52u8,
        73u8 => 0x3bu8,
        74u8 => 0xd6u8,
        75u8 => 0xb3u8,
        76u8 => 0x29u8,
        77u8 => 0xe3u8,
        78u8 => 0x2fu8,
        79u8 => 0x84u8,
        80u8 => 0x53u8,
        81u8 => 0xd1u8,
        82u8 => 0x00u8,
        83u8 => 0xedu8,
        84u8 => 0x20u8,
        85u8 => 0xfcu8,
        86u8 => 0xb1u8,
        87u8 => 0x5bu8,
        88u8 => 0x6au8,
        89u8 => 0xcbu8,
        90u8 => 0xbeu8,
        91u8 => 0x39u8,
        92u8 => 0x4au8,
        93u8 => 0x4cu8,
        94u8 => 0x58u8,
        95u8 => 0xcfu8,
        96u8 => 0xd0u8,
        97u8 => 0xefu8,
        98u8 => 0xaau8,
        99u8 => 0xfbu8,
        100u8 => 0x43u8,
        101u8 => 0x4du8,
        102u8 => 0x33u8,
        103u8 => 0x85u8,
        104u8 => 0x45u8,
        105u8 => 0xf9u8,
        106u8 => 0x02u8,
        107u8 => 0x7fu8,
        108u8 => 0x50u8,
        109u8 => 0x3cu8,
        110u8 => 0x9fu8,
        111u8 => 0xa8u8,
        112u8 => 0x51u8,
        113u8 => 0xa3u8,
        114u8 => 0x40u8,
        115u8 => 0x8fu8,
        116u8 => 0x92u8,
        117u8 => 0x9du8,
        118u8 => 0x38u8,
        119u8 => 0xf5u8,
        120u8 => 0xbcu8,
        121u8 => 0xb6u8,
        122u8 => 0xdau8,
        123u8 => 0x21u8,
        124u8 => 0x10u8,
        125u8 => 0xffu8,
        126u8 => 0xf3u8,
        127u8 => 0xd2u8,
        128u8 => 0xcdu8,
        129u8 => 0x0cu8,
        130u8 => 0x13u8,
        131u8 => 0xecu8,
        132u8 => 0x5fu8,
        133u8 => 0x97u8,
        134u8 => 0x44u8,
        135u8 => 0x17u8,
        136u8 => 0xc4u8,
        137u8 => 0xa7u8,
        138u8 => 0x7eu8,
        139u8 => 0x3du8,
        140u8 => 0x64u8,
        141u8 => 0x5du8,
        142u8 => 0x19u8,
        143u8 => 0x73u8,
        144u8 => 0x60u8,
        145u8 => 0x81u8,
        146u8 => 0x4fu8,
        147u8 => 0xdcu8,
        148u8 => 0x22u8,
        149u8 => 0x2au8,
        150u8 => 0x90u8,
        151u8 => 0x88u8,
        152u8 => 0x46u8,
        153u8 => 0xeeu8,
        154u8 => 0xb8u8,
        155u8 => 0x14u8,
        156u8 => 0xdeu8,
        157u8 => 0x5eu8,
        158u8 => 0x0bu8,
        159u8 => 0xdbu8,
        160u8 => 0xe0u8,
        161u8 => 0x32u8,
        162u8 => 0x3au8,
        163u8 => 0x0au8,
        164u8 => 0x49u8,
        165u8 => 0x06u8,
        166u8 => 0x24u8,
        167u8 => 0x5cu8,
        168u8 => 0xc2u8,
        169u8 => 0xd3u8,
        170u8 => 0xacu8,
        171u8 => 0x62u8,
        172u8 => 0x91u8,
        173u8 => 0x95u8,
        174u8 => 0xe4u8,
        175u8 => 0x79u8,
        176u8 => 0xe7u8,
        177u8 => 0xc8u8,
        178u8 => 0x37u8,
        179u8 => 0x6du8,
        180u8 => 0x8du8,
        181u8 => 0xd5u8,
        182u8 => 0x4eu8,
        183u8 => 0xa9u8,
        184u8 => 0x6cu8,
        185u8 => 0x56u8,
        186u8 => 0xf4u8,
        187u8 => 0xeau8,
        188u8 => 0x65u8,
        189u8 => 0x7au8,
        190u8 => 0xaeu8,
        191u8 => 0x08u8,
        192u8 => 0xbau8,
        193u8 => 0x78u8,
        194u8 => 0x25u8,
        195u8 => 0x2eu8,
        196u8 => 0x1cu8,
        197u8 => 0xa6u8,
        198u8 => 0xb4u8,
        199u8 => 0xc6u8,
        200u8 => 0xe8u8,
        201u8 => 0xddu8,
        202u8 => 0x74u8,
        203u8 => 0x1fu8,
        204u8 => 0x4bu8,
        205u8 => 0xbdu8,
        206u8 => 0x8bu8,
        207u8 => 0x8au8,
        208u8 => 0x70u8,
        209u8 => 0x3eu8,
        210u8 => 0xb5u8,
        211u8 => 0x66u8,
        212u8 => 0x48u8,
        213u8 => 0x03u8,
        214u8 => 0xf6u8,
        215u8 => 0x0eu8,
        216u8 => 0x61u8,
        217u8 => 0x35u8,
        218u8 => 0x57u8,
        219u8 => 0xb9u8,
        220u8 => 0x86u8,
        221u8 => 0xc1u8,
        222u8 => 0x1du8,
        223u8 => 0x9eu8,
        224u8 => 0xe1u8,
        225u8 => 0xf8u8,
        226u8 => 0x98u8,
        227u8 => 0x11u8,
        228u8 => 0x69u8,
        229u8 => 0xd9u8,
        230u8 => 0x8eu8,
        231u8 => 0x94u8,
        232u8 => 0x9bu8,
        233u8 => 0x1eu8,
        234u8 => 0x87u8,
        235u8 => 0xe9u8,
        236u8 => 0xceu8,
        237u8 => 0x55u8,
        238u8 => 0x28u8,
        239u8 => 0xdfu8,
        240u8 => 0x8cu8,
        241u8 => 0xa1u8,
        242u8 => 0x89u8,
        243u8 => 0x0du8,
        244u8 => 0xbfu8,
        245u8 => 0xe6u8,
        246u8 => 0x42u8,
        247u8 => 0x68u8,
        248u8 => 0x41u8,
        249u8 => 0x99u8,
        250u8 => 0x2du8,
        251u8 => 0x0fu8,
        252u8 => 0xb0u8,
        253u8 => 0x54u8,
        254u8 => 0xbbu8,
        _ => 0x16u8,
    }
}

/// The inverse AES S-box (InvSubBytes on one byte).
pub open spec fn inv_sbox(x: u8) -> u8 {
    match x {
        0u8 => 0x52u8,
        1u8 => 0x09u8,
        2u8 => 0x6au8,
        3u8 => 0xd5u8,
        4u8 => 0x30u8,
        5u8 => 0x36u8,
        6u8 => 0xa5u8,
        7u8 => 0x38u8,
        8u8 => 0xbfu8,
        9u8 => 0x40u8,
        10u8 => 0xa3u8,
        11u8 => 0x9eu8,
        12u8 => 0x81u8,
        13u8 => 0xf3u8,
        14u8 => 0xd7u8,
        15u8 => 0xfbu8,
        16u8 => 0x7cu8,
        17u8 => 0xe3u8,
        18u8 => 0x39u8,
        19u8 => 0x82u8,
        20u8 => 0x9bu8,
        21u8 => 0x2fu8,
        22u8 => 0xffu8,
        23u8 => 0x87u8,
        24u8 => 0x34u8,
        25u8 => 0x8eu8,
        26u8 => 0x43u8,
        27u8 => 0x44u8,
        28u8 => 0xc4u8,
        29u8 => 0xdeu8,
        30u8 => 0xe9u8,
        31u8 => 0xcbu8,
        32u8 => 0x54u8,
        33u8 => 0x7bu8,
        34u8 => 0x94u8,
        35u8 => 0x32u8,
        36u8 => 0xa6u8,
        37u8 => 0xc2u8,
        38u8 => 0x23u8,
        39u8 => 0x3du8,
        40u8 => 0xeeu8,
        41u8 => 0x4cu8,
        42u8 => 0x95u8,
        43u8 => 0x0bu8,
        44u8 => 0x42u8,
        45u8 => 0xfau8,
        46u8 => 0xc3u8,
        47u8 => 0x4eu8,
        48u8 => 0x08u8,
        49u8 => 0x2eu8,
        50u8 => 0xa1u8,
        51u8 => 0x66u8,
        52u8 => 0x28u8,
        53u8 => 0xd9u8,
        54u8 => 0x24u8,
        55u8 => 0xb2u8,
        56u8 => 0x76u8,
        57u8 => 0x5bu8,
        58u8 => 0xa2u8,
        59u8 => 0x49u8,
        60u8 => 0x6du8,
        61u8 => 0x8bu8,
        62u8 => 0xd1u8,
        63u8 => 0x25u8,
        64u8 => 0x72u8,
        65u8 => 0xf8u8,
        66u8 => 0xf6u8,
        67u8 => 0x64u8,
        68u8 => 0x86u8,
        69u8 => 0x68u8,
        70u8 => 0x98u8,
        71u8 => 0x16u8,
        72u8 => 0xd4u8,
        73u8 => 0xa4u8,
        74u8 => 0x5cu8,
        75u8 => 0xccu8,
        76u8 => 0x5du8,
        77u8 => 0x65u8,
        78u8 => 0xb6u8,
        79u8 => 0x92u8,
        80u8 => 0x6cu8,
        81u8 => 0x70u8,
        82u8 => 0x48u8,
        83u8 => 0x50u8,
        84u8 => 0xfdu8,
        85u8 => 0xedu8,
        86u8 => 0xb9u8,
        87u8 => 0xdau8,
        88u8 => 0x5eu8,
        89u8 => 0x15u8,
        90u8 => 0x46u8,
        91u8 => 0x57u8,
        92u8 => 0xa7u8,
        93u8 => 0x8du8,
        94u8 => 0x9du8,
        95u8 => 0x84u8,
        96u8 => 0x90u8,
        97u8 => 0xd8u8,
        98u8 => 0xabu8,
        99u8 => 0x00u8,
        100u8 => 0x8cu8,
        101u8 => 0xbcu8,
        102u8 => 0xd3u8,
        103u8 => 0x0au8,
        104u8 => 0xf7u8,
        105u8 => 0xe4u8,
        106u8 => 0x58u8,
        107u8 => 0x05u8,
        108u8 => 0xb8u8,
        109u8 => 0xb3u8,
        110u8 => 0x45u8,
        111u8 => 0x06u8,
        112u8 => 0xd0u8,
        113u8 => 0x2cu8,
        114u8 => 0x1eu8,
        115u8 => 0x8fu8,
        116u8 => 0xcau8,
        117u8 => 0x3fu8,
        118u8 => 0x0fu8,
        119u8 => 0x02u8,
        120u8 => 0xc1u8,
        121u8 => 0xafu8,
        122u8 => 0xbdu8,
        123u8 => 0x03u8,
        124u8 => 0x01u8,
        125u8 => 0x13u8,
        126u8 => 0x8au8,
        127u8 => 0x6bu8,
        128u8 => 0x3au8,
        129u8 => 0x91u8,
        130u8 => 0x11u8,
        131u8 => 0x41u8,
        132u8 => 0x4fu8,
        133u8 => 0x67u8,
        134u8 => 0xdcu8,
        135u8 => 0xeau8,
        136u8 => 0x97u8,
        137u8 => 0xf2u8,
        138u8 => 0xcfu8,
        139u8 => 0xceu8,
        140u8 => 0xf0u8,
        141u8 => 0xb4u8,
        142u8 => 0xe6u8,
        143u8 => 0x73u8,
        144u8 => 0x96u8,
        145u8 => 0xacu8,
        146u8 => 0x74u8,
        147u8 => 0x22u8,
        148u8 => 0xe7u8,
        149u8 => 0xadu8,
        150u8 => 0x35u8,
        151u8 => 0x85u8,
        152u8 => 0xe2u8,
        153u8 => 0xf9u8,
        154u8 => 0x37u8,
        155u8 => 0xe8u8,
        156u8 => 0x1cu8,
        157u8 => 0x75u8,
        158u8 => 0xdfu8,
        159u8 => 0x6eu8,
        160u8 => 0x47u8,
        161u8 => 0xf1u8,
        162u8 => 0x1au8,
        163u8 => 0x71u8,
        164u8 => 0x1du8,
        165u8 => 0x29u8,
        166u8 => 0xc5u8,
        167u8 => 0x89u8,
        168u8 => 0x6fu8,
        169u8 => 0xb7u8,
        170u8 => 0x62u8,
        171u8 => 0x0eu8,
        172u8 => 0xaau8,
        173u8 => 0x18u8,
        174u8 => 0xbeu8,
        175u8 => 0x1bu8,
        176u8 => 0xfcu8,
        177u8 => 0x56u8,
        178u8 => 0x3eu8,
        179u8 => 0x4bu8,
        180u8 => 0xc6u8,
        181u8 => 0xd2u8,
        182u8 => 0x79u8,
        183u8 => 0x20u8,
        184u8 => 0x9au8,
        185u8 => 0xdbu8,
        186u8 => 0xc0u8,
        187u8 => 0xfeu8,
        188u8 => 0x78u8,
        189u8 => 0xcdu8,
        190u8 => 0x5au8,
        191u8 => 0xf4u8,
        192u8 => 0x1fu8,
        193u8 => 0xddu8,
        194u8 => 0xa8u8,
        195u8 => 0x33u8,
        196u8 => 0x88u8,
        197u8 => 0x07u8,
        198u8 => 0xc7u8,
        199u8 => 0x31u8,
        200u8 => 0xb1u8,
        201u8 => 0x12u8,
        202u8 => 0x10u8,
        203u8 => 0x59u8,
        204u8 => 0x27u8,
        205u8 => 0x80u8,
        206u8 => 0xecu8,
        207u8 => 0x5fu8,
        208u8 => 0x60u8,
        209u8 => 0x51u8,
        210u8 => 0x7fu8,
        211u8 => 0xa9u8,
        212u8 => 0x19u8,
        213u8 => 0xb5u8,
        214u8 => 0x4au8,
        215u8 => 0x0du8,
        216u8 => 0x2du8,
        217u8 => 0xe5u8,
        218u8 => 0x7au8,
        219u8 => 0x9fu8,
        220u8 => 0x93u8,
        221u8 => 0xc9u8,
        222u8 => 0x9cu8,
        223u8 => 0xefu8,
        224u8 => 0xa0u8,
        225u8 => 0xe0u8,
        226u8 => 0x3bu8,
        227u8 => 0x4du8,
        228u8 => 0xaeu8,
        229u8 => 0x2au8,
        230u8 => 0xf5u8,
        231u8 => 0xb0u8,
        232u8 => 0xc8u8,
        233u8 => 0xebu8,
        234u8 => 0xbbu8,
        235u8 => 0x3cu8,
        236u8 => 0x83u8,
        237u8 => 0x53u8,
        238u8 => 0x99u8,
        239u8 => 0x61u8,
        240u8 => 0x17u8,
        241u8 => 0x2bu8,
        242u8 => 0x04u8,
        243u8 => 0x7eu8,
        244u8 => 0xbau8,
        245u8 => 0x77u8,
        246u8 => 0xd6u8,
        247u8 => 0x26u8,
        248u8 => 0xe1u8,
        249u8 => 0x69u8,
        250u8 => 0x14u8,
        251u8 => 0x63u8,
        252u8 => 0x55u8,
        253u8 => 0x21u8,
        254u8 => 0x0cu8,
        _ => 0x7du8,
    }
}

/// Multiplication by `x` (that is, by 2) in GF(2^8) modulo x^8 + x^4 + x^3 + x + 1.
pub open spec fn xtime(a: u8) -> u8 {
    if a & 0x80u8 == 0 {
        a << 1u8
    } else {
        (a << 1u8) ^ 0x1bu8
    }
}

/// Multiplication by 2 in GF(2^8).
pub open spec fn mul2(a: u8) -> u8 {
    xtime(a)
}

/// Multiplication by 3 in GF(2^8).
pub open spec fn mul3(a: u8) -> u8 {
    xtime(a) ^ a
}

/// Multiplication by 9 in GF(2^8).
pub open spec fn mul9(a: u8) -> u8 {
    xtime(xtime(xtime(a))) ^ a
}

/// Multiplication by 11 in GF(2^8).
pub open spec fn mul11(a: u8) -> u8 {
    xtime(xtime(xtime(a))) ^ xtime(a) ^ a
}

/// Multiplication by 13 in GF(2^8).
pub open spec fn mul13(a: u8) -> u8 {
    xtime(xtime(xtime(a))) ^ xtime(xtime(a)) ^ a
}

/// Multiplication by 14 in GF(2^8).
pub open spec fn mul14(a: u8) -> u8 {
    xtime(xtime(xtime(a))) ^ xtime(xtime(a)) ^ xtime(a)
}

/// First byte of MixColumns applied to the column `(a0, a1, a2, a3)`; the other
/// bytes are the same function of the rotated column.
pub open spec fn mix0(a0: u8, a1: u8, a2: u8, a3: u8) -> u8 {
    mul2(a0) ^ mul3(a1) ^ a2 ^ a3
}

/// First byte of InvMixColumns applied to the column `(a0, a1, a2, a3)`.
pub open spec fn inv_mix0(a0: u8, a1: u8, a2: u8, a3: u8) -> u8 {
    mul14(a0) ^ mul11(a1) ^ mul13(a2) ^ mul9(a3)
}

/// Product of two elements of GF(2^8) modulo x^8 + x^4 + x^3 + x + 1.
pub open spec fn gf_mul(a: u8, b: u8) -> u8 {
    let a1 = xtime(a);
    let a2 = xtime(a1);
    let a3 = xtime(a2);
    let a4 = xtime(a3);
    let a5 = xtime(a4);
    let a6 = xtime(a5);
    let a7 = xtime(a6);
    (if b & 0x01u8 == 0 { 0u8 } else { a }) ^ (if b & 0x02u8 == 0 { 0u8 } else { a1 }) ^ (if b
        & 0x04u8 == 0 { 0u8 } else { a2 }) ^ (if b & 0x08u8 == 0 { 0u8 } else { a3 }) ^ (if b
        & 0x10u8 == 0 { 0u8 } else { a4 }) ^ (if b & 0x20u8 == 0 { 0u8 } else { a5 }) ^ (if b
        & 0x40u8 == 0 { 0u8 } else { a6 }) ^ (if b & 0x80u8 == 0 { 0u8 } else { a7 })
}

/// Rotation of a byte left by `k` bits.
pub open spec fn rotl8(b: u8, k: u8) -> u8 {
    (b << k) | (b >> (8 - k) as u8)
}

/// The affine transformation of the S-box (FIPS-197, 5.1.1).
pub open spec fn affine(b: u8) -> u8 {
    b ^ rotl8(b, 1) ^ rotl8(b, 2) ^ rotl8(b, 3) ^ rotl8(b, 4) ^ 0x63u8
}

/// The inverse of the affine transformation.
pub open spec fn inv_affine(s: u8) -> u8 {
    rotl8(s, 1) ^ rotl8(s, 3) ^ rotl8(s, 6) ^ 0x05u8
}

/// The S-box table is the FIPS-197 definition: the affine transformation of the
/// multiplicative inverse in GF(2^8), with 0 mapped to 0 before the transformation.
#[verifier::rlimit(100)]
pub proof fn lemma_sbox_definition(x: u8)
    ensures
        affine(inv_affine(sbox(x))) == sbox(x),
        x == 0 ==> inv_affine(sbox(x)) == 0,
        x != 0 ==> gf_mul(x, inv_affine(sbox(x))) == 1,
{
    let s = sbox(x);
    let b = inv_affine(s);
    assert(affine(inv_affine(s)) == s) by (bit_vector);
    assert(x == 0 ==> b == 0) by (bit_vector)
        requires
            s == sbox(x),
            b == inv_affine(s),
    ;
    let a1 = xtime(x);
    let a2 = xtime(a1);
    let a3 = xtime(a2);
    let a4 = xtime(a3);
    let a5 = xtime(a4);
    let a6 = xtime(a5);
    let a7 = xtime(a6);
    let p = gf_mul(x, b);
    assert(p == (if b & 0x01u8 == 0 { 0u8 } else { x }) ^ (if b & 0x02u8 == 0 { 0u8 } else { a1 })
        ^ (if b & 0x04u8 == 0 { 0u8 } else { a2 }) ^ (if b & 0x08u8 == 0 { 0u8 } else { a3 }) ^ (
    if b & 0x10u8 == 0 { 0u8 } else { a4 }) ^ (if b & 0x20u8 == 0 { 0u8 } else { a5 }) ^ (if b
        & 0x40u8 == 0 { 0u8 } else { a6 }) ^ (if b & 0x80u8 == 0 { 0u8 } else { a7 }));
    assert(x != 0 ==> p == 1) by (bit_vector)
        requires
            s == sbox(x),
            b == inv_affine(s),
            a1 == xtime(x),
            a2 == xtime(a1),
            a3 == xtime(a2),
            a4 == xtime(a3),
            a5 == xtime(a4),
            a6 == xtime(a5),
            a7 == xtime(a6),
            p == (if b & 0x01u8 == 0 { 0u8 } else { x }) ^ (if b & 0x02u8 == 0 { 0u8 } else { a1 })
                ^ (if b & 0x04u8 == 0 { 0u8 } else { a2 }) ^ (if b & 0x08u8 == 0 { 0u8 } else { a3 })
                ^ (if b & 0x10u8 == 0 { 0u8 } else { a4 }) ^ (if b & 0x20u8 == 0 { 0u8 } else { a5 })
                ^ (if b & 0x40u8 == 0 { 0u8 } else { a6 }) ^ (if b & 0x80u8 == 0 { 0u8 } else { a7 }),
    ;
}

/// The inverse S-box undoes the S-box.
#[verifier::rlimit(50)]
pub proof fn lemma_inv_sbox_sbox(x: u8)
    ensures
        inv_sbox(sbox(x)) == x,
{
    let y = sbox(x);
    assert(inv_sbox(y) == x) by (bit_vector)
        requires
            y == sbox(x),
    ;
}

/// Xoring a byte twice with the same value gives it back.
pub proof fn lemma_xor_cancel(x: u8, y: u8)
    ensures
        (x ^ y) ^ y == x,
{
    assert((x ^ y) ^ y == x) by (bit_vector);
}

/// Xor with the same value on both sides cancels, in either order.
pub proof fn lemma_xor_cancel_left(x: u8, y: u8)
    ensures
        x ^ (x ^ y) == y,
        x ^ (y ^ x) == y,
{
    assert(x ^ (x ^ y) == y) by (bit_vector);
    assert(x ^ (y ^ x) == y) by (bit_vector);
}

/// Multiplication by a constant distributes over addition (xor) in GF(2^8).
pub proof fn lemma_mul_linear(x: u8, y: u8)
    ensures
        mul2(x ^ y) == mul2(x) ^ mul2(y),
        mul3(x ^ y) == mul3(x) ^ mul3(y),
        mul9(x ^ y) == mul9(x) ^ mul9(y),
        mul11(x ^ y) == mul11(x) ^ mul11(y),
        mul13(x ^ y) == mul13(x) ^ mul13(y),
        mul14(x ^ y) == mul14(x) ^ mul14(y),
{
    assert(mul2(x ^ y) == mul2(x) ^ mul2(y)) by (bit_vector);
    assert(mul3(x ^ y) == mul3(x) ^ mul3(y)) by (bit_vector);
    assert(mul9(x ^ y) == mul9(x) ^ mul9(y)) by (bit_vector);
    assert(mul11(x ^ y) == mul11(x) ^ mul11(y)) by (bit_vector);
    assert(mul13(x ^ y) == mul13(x) ^ mul13(y)) by (bit_vector);
    assert(mul14(x ^ y) == mul14(x) ^ mul14(y)) by (bit_vector);
}

/// The products of the InvMixColumns matrix with the MixColumns matrix, one
/// column of the identity at a time.
proof fn lemma_inv_mix_coefficients(x: u8)
    ensures
        mul14(mul2(x)) ^ mul11(x) ^ mul13(x) ^ mul9(mul3(x)) == x,
        mul14(mul3(x)) ^ mul11(mul2(x)) ^ mul13(x) ^ mul9(x) == 0,
        mul14(x) ^ mul11(mul3(x)) ^ mul13(mul2(x)) ^ mul9(x) == 0,
        mul14(x) ^ mul11(x) ^ mul13(mul3(x)) ^ mul9(mul2(x)) == 0,
{
    assert(mul14(mul2(x)) ^ mul11(x) ^ mul13(x) ^ mul9(mul3(x)) == x) by (bit_vector);
    assert(mul14(mul3(x)) ^ mul11(mul2(x)) ^ mul13(x) ^ mul9(x) == 0) by (bit_vector);
    assert(mul14(x) ^ mul11(mul3(x)) ^ mul13(mul2(x)) ^ mul9(x) == 0) by (bit_vector);
    assert(mul14(x) ^ mul11(x) ^ mul13(mul3(x)) ^ mul9(mul2(x)) == 0) by (bit_vector);
}

/// InvMixColumns undoes MixColumns on one column (first byte; the others follow by
/// rotating the column).
pub proof fn lemma_inv_mix_mix(a0: u8, a1: u8, a2: u8, a3: u8)
    ensures
        inv_mix0(
            mix0(a0, a1, a2, a3),
            mix0(a1, a2, a3, a0),
            mix0(a2, a3, a0, a1),
            mix0(a3, a0, a1, a2),
        ) == a0,
{
    lemma_inv_mix_coefficients(a0);
    lemma_inv_mix_coefficients(a1);
    lemma_inv_mix_coefficients(a2);
    lemma_inv_mix_coefficients(a3);
    let b0 = mix0(a0, a1, a2, a3);
    let b1 = mix0(a1, a2, a3, a0);
    let b2 = mix0(a2, a3, a0, a1);
    let b3 = mix0(a3, a0, a1, a2);
    lemma_mul_linear(mul2(a0) ^ mul3(a1) ^ a2, a3);
    lemma_mul_linear(mul2(a0) ^ mul3(a1), a2);
    lemma_mul_linear(mul2(a0), mul3(a1));
    lemma_mul_linear(mul2(a1) ^ mul3(a2) ^ a3, a0);
    lemma_mul_linear(mul2(a1) ^ mul3(a2), a3);
    lemma_mul_linear(mul2(a1), mul3(a2));
    lemma_mul_linear(mul2(a2) ^ mul3(a3) ^ a0, a1);
    lemma_mul_linear(mul2(a2) ^ mul3(a3), a0);
    lemma_mul_linear(mul2(a2), mul3(a3));
    lemma_mul_linear(mul2(a3) ^ mul3(a0) ^ a1, a2);
    lemma_mul_linear(mul2(a3) ^ mul3(a0), a1);
    lemma_mul_linear(mul2(a3), mul3(a0));
    let p00 = mul14(mul2(a0));
    let p01 = mul14(mul3(a1));
    let p02 = mul14(a2);
    let p03 = mul14(a3);
    let p10 = mul11(a0);
    let p11 = mul11(mul2(a1));
    let p12 = mul11(mul3(a2));
    let p13 = mul11(a3);
    let p20 = mul13(a0);
    let p21 = mul13(a1);
    let p22 = mul13(mul2(a2));
    let p23 = mul13(mul3(a3));
    let p30 = mul9(mul3(a0));
    let p31 = mul9(a1);
    let p32 = mul9(a2);
    let p33 = mul9(mul2(a3));
    let q0 = mul14(b0);
    let q1 = mul11(b1);
    let q2 = mul13(b2);
    let q3 = mul9(b3);
    assert(q0 == p00 ^ p01 ^ p02 ^ p03);
    assert(q1 == p11 ^ p12 ^ p13 ^ p10);
    assert(q2 == p22 ^ p23 ^ p20 ^ p21);
    assert(q3 == p33 ^ p30 ^ p31 ^ p32);
    let r = inv_mix0(b0, b1, b2, b3);
    assert(r == a0) by (bit_vector)
        requires
            r == q0 ^ q1 ^ q2 ^ q3,
            q0 == p00 ^ p01 ^ p02 ^ p03,
            q1 == p11 ^ p12 ^ p13 ^ p10,
            q2 == p22 ^ p23 ^ p20 ^ p21,
            q3 == p33 ^ p30 ^ p31 ^ p32,
            p00 ^ p10 ^ p20 ^ p30 == a0,
            p01 ^ p11 ^ p21 ^ p31 == 0,
            p02 ^ p12 ^ p22 ^ p32 == 0,
            p03 ^ p13 ^ p23 ^ p33 == 0,
    ;
}

/// InvMixColumns is linear: on one column it maps a xor of columns to the xor of the images.
pub proof fn lemma_inv_mix_linear(a0: u8, a1: u8, a2: u8, a3: u8, k0: u8, k1: u8, k2: u8, k3: u8)
    ensures
        inv_mix0(a0 ^ k0, a1 ^ k1, a2 ^ k2, a3 ^ k3) == inv_mix0(a0, a1, a2, a3) ^ inv_mix0(
            k0,
            k1,
            k2,
            k3,
        ),
{
    lemma_mul_linear(a0, k0);
    lemma_mul_linear(a1, k1);
    lemma_mul_linear(a2, k2);
    lemma_mul_linear(a3, k3);
    let l = inv_mix0(a0 ^ k0, a1 ^ k1, a2 ^ k2, a3 ^ k3);
    let x0 = mul14(a0);
    let x1 = mul11(a1);
    let x2 = mul13(a2);
    let x3 = mul9(a3);
    let y0 = mul14(k0);
    let y1 = mul11(k1);
    let y2 = mul13(k2);
    let y3 = mul9(k3);
    let ra = inv_mix0(a0, a1, a2, a3);
    let rk = inv_mix0(k0, k1, k2, k3);
    assert(l == ra ^ rk) by (bit_vector)
        requires
            l == (x0 ^ y0) ^ (x1 ^ y1) ^ (x2 ^ y2) ^ (x3 ^ y3),
            ra == x0 ^ x1 ^ x2 ^ x3,
            rk == y0 ^ y1 ^ y2 ^ y3,
    ;
}

/// Looks one byte up in the S-box.
pub fn sub_byte(x: u8) -> (y: u8)
    ensures
        y == sbox(x),
{
    match x {
        0u8 => 0x63u8,
        1u8 => 0x7cu8,
        2u8 => 0x77u8,
        3u8 => 0x7bu8,
        4u8 => 0xf2u8,
        5u8 => 0x6bu8,
        6u8 => 0x6fu8,
        7u8 => 0xc5u8,
        8u8 => 0x30u8,
        9u8 => 0x01u8,
        10u8 => 0x67u8,
        11u8 => 0x2bu8,
        12u8 => 0xfeu8,
        13u8 => 0xd7u8,
        14u8 => 0xabu8,
        15u8 => 0x76u8,
        16u8 => 0xcau8,
        17u8 => 0x82u8,
        18u8 => 0xc9u8,
        19u8 => 0x7du8,
        20u8 => 0xfau8,
        21u8 => 0x59u8,
        22u8 => 0x47u8,
        23u8 => 0xf0u8,
        24u8 => 0xadu8,
        25u8 => 0xd4u8,
        26u8 => 0xa2u8,
        27u8 => 0xafu8,
        28u8 => 0x9cu8,
        29u8 => 0xa4u8,
        30u8 => 0x72u8,
        31u8 => 0xc0u8,
        32u8 => 0xb7u8,
        33u8 => 0xfdu8,
        34u8 => 0x93u8,
        35u8 => 0x26u8,
        36u8 => 0x36u8,
        37u8 => 0x3fu8,
        38u8 => 0xf7u8,
        39u8 => 0xccu8,
        40u8 => 0x34u8,
        41u8 => 0xa5u8,
        42u8 => 0xe5u8,
        43u8 => 0xf1u8,
        44u8 => 0x71u8,
        45u8 => 0xd8u8,
        46u8 => 0x31u8,
        47u8 => 0x15u8,
        48u8 => 0x04u8,
        49u8 => 0xc7u8,
        50u8 => 0x23u8,
        51u8 => 0xc3u8,
        52u8 => 0x18u8,
        53u8 => 0x96u8,
        54u8 => 0x05u8,
        55u8 => 0x9au8,
        56u8 => 0x07u8,
        57u8 => 0x12u8,
        58u8 => 0x80u8,
        59u8 => 0xe2u8,
        60u8 => 0xebu8,
        61u8 => 0x27u8,
        62u8 => 0xb2u8,
        63u8 => 0x75u8,
        64u8 => 0x09u8,
        65u8 => 0x83u8,
        66u8 => 0x2cu8,
        67u8 => 0x1au8,
        68u8 => 0x1bu8,
        69u8 => 0x6eu8,
        70u8 => 0x5au8,
        71u8 => 0xa0u8,
        72u8 => 0x52u8,
        73u8 => 0x3bu8,
        74u8 => 0xd6u8,
        75u8 => 0xb3u8,
        76u8 => 0x29u8,
        77u8 => 0xe3u8,
        78u8 => 0x2fu8,
        79u8 => 0x84u8,
        80u8 => 0x53u8,
        81u8 => 0xd1u8,
        82u8 => 0x00u8,
        83u8 => 0xedu8,
        84u8 => 0x20u8,
        85u8 => 0xfcu8,
        86u8 => 0xb1u8,
        87u8 => 0x5bu8,
        88u8 => 0x6au8,
        89u8 => 0xcbu8,
        90u8 => 0xbeu8,
        91u8 => 0x39u8,
        92u8 => 0x4au8,
        93u8 => 0x4cu8,
        94u8 => 0x58u8,
        95u8 => 0xcfu8,
        96u8 => 0xd0u8,
        97u8 => 0xefu8,
        98u8 => 0xaau8,
        99u8 => 0xfbu8,
        100u8 => 0x43u8,
        101u8 => 0x4du8,
        102u8 => 0x33u8,
        103u8 => 0x85u8,
        104u8 => 0x45u8,
        105u8 => 0xf9u8,
        106u8 => 0x02u8,
        107u8 => 0x7fu8,
        108u8 => 0x50u8,
        109u8 => 0x3cu8,
        110u8 => 0x9fu8,
        111u8 => 0xa8u8,
        112u8 => 0x51u8,
        113u8 => 0xa3u8,
        114u8 => 0x40u8,
        115u8 => 0x8fu8,
        116u8 => 0x92u8,
        117u8 => 0x9du8,
        118u8 => 0x38u8,
        119u8 => 0xf5u8,
        120u8 => 0xbcu8,
        121u8 => 0xb6u8,
        122u8 => 0xdau8,
        123u8 => 0x21u8,
        124u8 => 0x10u8,
        125u8 => 0xffu8,
        126u8 => 0xf3u8,
        127u8 => 0xd2u8,
        128u8 => 0xcdu8,
        129u8 => 0x0cu8,
        130u8 => 0x13u8,
        131u8 => 0xecu8,
        132u8 => 0x5fu8,
        133u8 => 0x97u8,
        134u8 => 0x44u8,
        135u8 => 0x17u8,
        136u8 => 0xc4u8,
        137u8 => 0xa7u8,
        138u8 => 0x7eu8,
        139u8 => 0x3du8,
        140u8 => 0x64u8,
        141u8 => 0x5du8,
        142u8 => 0x19u8,
        143u8 => 0x73u8,
        144u8 => 0x60u8,
        145u8 => 0x81u8,
        146u8 => 0x4fu8,
        147u8 => 0xdcu8,
        148u8 => 0x22u8,
        149u8 => 0x2au8,
        150u8 => 0x90u8,
        151u8 => 0x88u8,
        152u8 => 0x46u8,
        153u8 => 0xeeu8,
        154u8 => 0xb8u8,
        155u8 => 0x14u8,
        156u8 => 0xdeu8,
        157u8 => 0x5eu8,
        158u8 => 0x0bu8,
        159u8 => 0xdbu8,
        160u8 => 0xe0u8,
        161u8 => 0x32u8,
        162u8 => 0x3au8,
        163u8 => 0x0au8,
        164u8 => 0x49u8,
        165u8 => 0x06u8,
        166u8 => 0x24u8,
        167u8 => 0x5cu8,
        168u8 => 0xc2u8,
        169u8 => 0xd3u8,
        170u8 => 0xacu8,
        171u8 => 0x62u8,
        172u8 => 0x91u8,
        173u8 => 0x95u8,
        174u8 => 0xe4u8,
        175u8 => 0x79u8,
        176u8 => 0xe7u8,
        177u8 => 0xc8u8,
        178u8 => 0x37u8,
        179u8 => 0x6du8,
        180u8 => 0x8du8,
        181u8 => 0xd5u8,
        182u8 => 0x4eu8,
        183u8 => 0xa9u8,
        184u8 => 0x6cu8,
        185u8 => 0x56u8,
        186u8 => 0xf4u8,
        187u8 => 0xeau8,
        188u8 => 0x65u8,
        189u8 => 0x7au8,
        190u8 => 0xaeu8,
        191u8 => 0x08u8,
        192u8 => 0xbau8,
        193u8 => 0x78u8,
        194u8 => 0x25u8,
        195u8 => 0x2eu8,
        196u8 => 0x1cu8,
        197u8 => 0xa6u8,
        198u8 => 0xb4u8,
        199u8 => 0xc6u8,
        200u8 => 0xe8u8,
        201u8 => 0xddu8,
        202u8 => 0x74u8,
        203u8 => 0x1fu8,
        204u8 => 0x4bu8,
        205u8 => 0xbdu8,
        206u8 => 0x8bu8,
        207u8 => 0x8au8,
        208u8 => 0x70u8,
        209u8 => 0x3eu8,
        210u8 => 0xb5u8,
        211u8 => 0x66u8,
        212u8 => 0x48u8,
        213u8 => 0x03u8,
        214u8 => 0xf6u8,
        215u8 => 0x0eu8,
        216u8 => 0x61u8,
        217u8 => 0x35u8,
        218u8 => 0x57u8,
        219u8 => 0xb9u8,
        220u8 => 0x86u8,
        221u8 => 0xc1u8,
        222u8 => 0x1du8,
        223u8 => 0x9eu8,
        224u8 => 0xe1u8,
        225u8 => 0xf8u8,
        226u8 => 0x98u8,
        227u8 => 0x11u8,
        228u8 => 0x69u8,
        229u8 => 0xd9u8,
        230u8 => 0x8eu8,
        231u8 => 0x94u8,
        232u8 => 0x9bu8,
        233u8 => 0x1eu8,
        234u8 => 0x87u8,
        235u8 => 0xe9u8,
        236u8 => 0xceu8,
        237u8 => 0x55u8,
        238u8 => 0x28u8,
        239u8 => 0xdfu8,
        240u8 => 0x8cu8,
        241u8 => 0xa1u8,
        242u8 => 0x89u8,
        243u8 => 0x0du8,
        244u8 => 0xbfu8,
        245u8 => 0xe6u8,
        246u8 => 0x42u8,
        247u8 => 0x68u8,
        248u8 => 0x41u8,
        249u8 => 0x99u8,
        250u8 => 0x2du8,
        251u8 => 0x0fu8,
        252u8 => 0xb0u8,
        253u8 => 0x54u8,
        254u8 => 0xbbu8,
        _ => 0x16u8,
    }
}

/// Looks one byte up in the inverse S-box.
pub fn inv_sub_byte(x: u8) -> (y: u8)
    ensures
        y == inv_sbox(x),
{
    match x {
        0u8 => 0x52u8,
        1u8 => 0x09u8,
        2u8 => 0x6au8,
        3u8 => 0xd5u8,
        4u8 => 0x30u8,
        5u8 => 0x36u8,
        6u8 => 0xa5u8,
        7u8 => 0x38u8,
        8u8 => 0xbfu8,
        9u8 => 0x40u8,
        10u8 => 0xa3u8,
        11u8 => 0x9eu8,
        12u8 => 0x81u8,
        13u8 => 0xf3u8,
        14u8 => 0xd7u8,
        15u8 => 0xfbu8,
        16u8 => 0x7cu8,
        17u8 => 0xe3u8,
        18u8 => 0x39u8,
        19u8 => 0x82u8,
        20u8 => 0x9bu8,
        21u8 => 0x2fu8,
        22u8 => 0xffu8,
        23u8 => 0x87u8,
        24u8 => 0x34u8,
        25u8 => 0x8eu8,
        26u8 => 0x43u8,
        27u8 => 0x44u8,
        28u8 => 0xc4u8,
        29u8 => 0xdeu8,
        30u8 => 0xe9u8,
        31u8 => 0xcbu8,
        32u8 => 0x54u8,
        33u8 => 0x7bu8,
        34u8 => 0x94u8,
        35u8 => 0x32u8,
        36u8 => 0xa6u8,
        37u8 => 0xc2u8,
        38u8 => 0x23u8,
        39u8 => 0x3du8,
        40u8 => 0xeeu8,
        41u8 => 0x4cu8,
        42u8 => 0x95u8,
        43u8 => 0x0bu8,
        44u8 => 0x42u8,
        45u8 => 0xfau8,
        46u8 => 0xc3u8,
        47u8 => 0x4eu8,
        48u8 => 0x08u8,
        49u8 => 0x2eu8,
        50u8 => 0xa1u8,
        51u8 => 0x66u8,
        52u8 => 0x28u8,
        53u8 => 0xd9u8,
        54u8 => 0x24u8,
        55u8 => 0xb2u8,
        56u8 => 0x76u8,
        57u8 => 0x5bu8,
        58u8 => 0xa2u8,
        59u8 => 0x49u8,
        60u8 => 0x6du8,
        61u8 => 0x8bu8,
        62u8 => 0xd1u8,
        63u8 => 0x25u8,
        64u8 => 0x72u8,
        65u8 => 0xf8u8,
        66u8 => 0xf6u8,
        67u8 => 0x64u8,
        68u8 => 0x86u8,
        69u8 => 0x68u8,
        70u8 => 0x98u8,
        71u8 => 0x16u8,
        72u8 => 0xd4u8,
        73u8 => 0xa4u8,
        74u8 => 0x5cu8,
        75u8 => 0xccu8,
        76u8 => 0x5du8,
        77u8 => 0x65u8,
        78u8 => 0xb6u8,
        79u8 => 0x92u8,
        80u8 => 0x6cu8,
        81u8 => 0x70u8,
        82u8 => 0x48u8,
        83u8 => 0x50u8,
        84u8 => 0xfdu8,
        85u8 => 0xedu8,
        86u8 => 0xb9u8,
        87u8 => 0xdau8,
        88u8 => 0x5eu8,
        89u8 => 0x15u8,
        90u8 => 0x46u8,
        91u8 => 0x57u8,
        92u8 => 0xa7u8,
        93u8 => 0x8du8,
        94u8 => 0x9du8,
        95u8 => 0x84u8,
        96u8 => 0x90u8,
        97u8 => 0xd8u8,
        98u8 => 0xabu8,
        99u8 => 0x00u8,
        100u8 => 0x8cu8,
        101u8 => 0xbcu8,
        102u8 => 0xd3u8,
        103u8 => 0x0au8,
        104u8 => 0xf7u8,
        105u8 => 0xe4u8,
        106u8 => 0x58u8,
        107u8 => 0x05u8,
        108u8 => 0xb8u8,
        109u8 => 0xb3u8,
        110u8 => 0x45u8,
        111u8 => 0x06u8,
        112u8 => 0xd0u8,
        113u8 => 0x2cu8,
        114u8 => 0x1eu8,
        115u8 => 0x8fu8,
        116u8 => 0xcau8,
        117u8 => 0x3fu8,
        118u8 => 0x0fu8,
        119u8 => 0x02u8,
        120u8 => 0xc1u8,
        121u8 => 0xafu8,
        122u8 => 0xbdu8,
        123u8 => 0x03u8,
        124u8 => 0x01u8,
        125u8 => 0x13u8,
        126u8 => 0x8au8,
        127u8 => 0x6bu8,
        128u8 => 0x3au8,
        129u8 => 0x91u8,
        130u8 => 0x11u8,
        131u8 => 0x41u8,
        132u8 => 0x4fu8,
        133u8 => 0x67u8,
        134u8 => 0xdcu8,
        135u8 => 0xeau8,
        136u8 => 0x97u8,
        137u8 => 0xf2u8,
        138u8 => 0xcfu8,
        139u8 => 0xceu8,
        140u8 => 0xf0u8,
        141u8 => 0xb4u8,
        142u8 => 0xe6u8,
        143u8 => 0x73u8,
        144u8 => 0x96u8,
        145u8 => 0xacu8,
        146u8 => 0x74u8,
        147u8 => 0x22u8,
        148u8 => 0xe7u8,
        149u8 => 0xadu8,
        150u8 => 0x35u8,
        151u8 => 0x85u8,
        152u8 => 0xe2u8,
        153u8 => 0xf9u8,
        154u8 => 0x37u8,
        155u8 => 0xe8u8,
        156u8 => 0x1cu8,
        157u8 => 0x75u8,
        158u8 => 0xdfu8,
        159u8 => 0x6eu8,
        160u8 => 0x47u8,
        161u8 => 0xf1u8,
        162u8 => 0x1au8,
        163u8 => 0x71u8,
        164u8 => 0x1du8,
        165u8 => 0x29u8,
        166u8 => 0xc5u8,
        167u8 => 0x89u8,
        168u8 => 0x6fu8,
        169u8 => 0xb7u8,
        170u8 => 0x62u8,
        171u8 => 0x0eu8,
        172u8 => 0xaau8,
        173u8 => 0x18u8,
        174u8 => 0xbeu8,
        175u8 => 0x1bu8,
        176u8 => 0xfcu8,
        177u8 => 0x56u8,
        178u8 => 0x3eu8,
        179u8 => 0x4bu8,
        180u8 => 0xc6u8,
        181u8 => 0xd2u8,
        182u8 => 0x79u8,
        183u8 => 0x20u8,
        184u8 => 0x9au8,
        185u8 => 0xdbu8,
        186u8 => 0xc0u8,
        187u8 => 0xfeu8,
        188u8 => 0x78u8,
        189u8 => 0xcdu8,
        190u8 => 0x5au8,
        191u8 => 0xf4u8,
        192u8 => 0x1fu8,
        193u8 => 0xddu8,
        194u8 => 0xa8u8,
        195u8 => 0x33u8,
        196u8 => 0x88u8,
        197u8 => 0x07u8,
        198u8 => 0xc7u8,
        199u8 => 0x31u8,
        200u8 => 0xb1u8,
        201u8 => 0x12u8,
        202u8 => 0x10u8,
        203u8 => 0x59u8,
        204u8 => 0x27u8,
        205u8 => 0x80u8,
        206u8 => 0xecu8,
        207u8 => 0x5fu8,
        208u8 => 0x60u8,
        209u8 => 0x51u8,
        210u8 => 0x7fu8,
        211u8 => 0xa9u8,
        212u8 => 0x19u8,
        213u8 => 0xb5u8,
        214u8 => 0x4au8,
        215u8 => 0x0du8,
        216u8 => 0x2du8,
        217u8 => 0xe5u8,
        218u8 => 0x7au8,
        219u8 => 0x9fu8,
        220u8 => 0x93u8,
        221u8 => 0xc9u8,
        222u8 => 0x9cu8,
        223u8 => 0xefu8,
        224u8 => 0xa0u8,
        225u8 => 0xe0u8,
        226u8 => 0x3bu8,
        227u8 => 0x4du8,
        228u8 => 0xaeu8,
        229u8 => 0x2au8,
        230u8 => 0xf5u8,
        231u8 => 0xb0u8,
        232u8 => 0xc8u8,
        233u8 => 0xebu8,
        234u8 => 0xbbu8,
        235u8 => 0x3cu8,
        236u8 => 0x83u8,
        237u8 => 0x53u8,
        238u8 => 0x99u8,
        239u8 => 0x61u8,
        240u8 => 0x17u8,
        241u8 => 0x2bu8,
        242u8 => 0x04u8,
        243u8 => 0x7eu8,
        244u8 => 0xbau8,
        245u8 => 0x77u8,
        246u8 => 0xd6u8,
        247u8 => 0x26u8,
        248u8 => 0xe1u8,
        249u8 => 0x69u8,
        250u8 => 0x14u8,
        251u8 => 0x63u8,
        252u8 => 0x55u8,
        253u8 => 0x21u8,
        254u8 => 0x0cu8,
        _ => 0x7du8,
    }
}

/// Multiplies a byte by 2 in GF(2^8).
pub fn xtime_byte(a: u8) -> (r: u8)
    ensures
        r == xtime(a),
{
    if a & 0x80u8 == 0 {
        a << 1u8
    } else {
        (a << 1u8) ^ 0x1bu8
    }
}

/// MixColumns on one column: returns its first byte.
pub fn mix_byte(a0: u8, a1: u8, a2: u8, a3: u8) -> (r: u8)
    ensures
        r == mix0(a0, a1, a2, a3),
{
    xtime_byte(a0) ^ (xtime_byte(a1) ^ a1) ^ a2 ^ a3
}

/// InvMixColumns on one column: returns its first byte.
pub fn inv_mix_byte(a0: u8, a1: u8, a2: u8, a3: u8) -> (r: u8)
    ensures
        r == inv_mix0(a0, a1, a2, a3),
{
    let x0 = xtime_byte(a0);
    let xx0 = xtime_byte(x0);
    let m14 = xtime_byte(xx0) ^ xx0 ^ x0;
    let x1 = xtime_byte(a1);
    let xx1 = xtime_byte(x1);
    let m11 = xtime_byte(xx1) ^ x1 ^ a1;
    let x2 = xtime_byte(a2);
    let xx2 = xtime_byte(x2);
    let m13 = xtime_byte(xx2) ^ xx2 ^ a2;
    let x3 = xtime_byte(a3);
    let xx3 = xtime_byte(x3);
    let m9 = xtime_byte(xx3) ^ a3;
    m14 ^ m11 ^ m13 ^ m9
}

} // verus!
