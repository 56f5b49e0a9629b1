use rdenticon::hash::{hash_substring_u32, into_nibbles};

const SAMPLE: [u8; 20] = [
    129, 81, 50, 93, 205, 186, 233, 224, 255, 149, 249, 249, 101, 132, 50, 219, 237, 253, 178, 9,
];

#[test]
fn nibbles_of_a_hash() {
    assert_eq!(into_nibbles([0u8; 20]), [0u8; 40]);
    assert_eq!(into_nibbles([0xff; 20]), [15u8; 40]);
    assert_eq!(
        into_nibbles(SAMPLE),
        [
            8, 1, 5, 1, 3, 2, 5, 13, 12, 13, 11, 10, 14, 9, 14, 0, 15, 15, 9, 5, 15, 9, 15, 9, 6,
            5, 8, 4, 3, 2, 13, 11, 14, 13, 15, 13, 11, 2, 0, 9
        ]
    );
}

#[test]
fn high_nibble_comes_first() {
    let mut hash = [0u8; 20];
    hash[0] = 0xa5;
    hash[19] = 0x3c;
    let nibbles = into_nibbles(hash);
    assert_eq!(nibbles[0], 0xa);
    assert_eq!(nibbles[1], 0x5);
    assert_eq!(nibbles[38], 0x3);
    assert_eq!(nibbles[39], 0xc);
}

#[test]
fn hue_seed_of_the_sample() {
    let nibbles = into_nibbles(SAMPLE);
    assert_eq!(hash_substring_u32::<7>(&nibbles, 33), 0xdfdb209);
    assert_eq!(hash_substring_u32::<7>(&nibbles, 33), 234_729_993);
}

#[test]
fn runs_of_every_length() {
    let nibbles = into_nibbles(SAMPLE);
    assert_eq!(hash_substring_u32::<0>(&nibbles, 0), 0);
    assert_eq!(hash_substring_u32::<0>(&nibbles, 40), 0);
    assert_eq!(hash_substring_u32::<1>(&nibbles, 0), 0x8);
    assert_eq!(hash_substring_u32::<1>(&nibbles, 39), 0x9);
    assert_eq!(hash_substring_u32::<2>(&nibbles, 0), 0x81);
    assert_eq!(hash_substring_u32::<2>(&nibbles, 1), 0x15);
    assert_eq!(hash_substring_u32::<3>(&nibbles, 2), 0x513);
    assert_eq!(hash_substring_u32::<4>(&nibbles, 36), 0xb209);
    assert_eq!(hash_substring_u32::<8>(&nibbles, 0), 0x8151325d);
    assert_eq!(hash_substring_u32::<8>(&nibbles, 32), 0xedfdb209);
}

#[test]
fn greatest_and_least_runs() {
    let ones = into_nibbles([0xff; 20]);
    assert_eq!(hash_substring_u32::<7>(&ones, 33), 0xfff_ffff);
    assert_eq!(hash_substring_u32::<8>(&ones, 32), u32::MAX);
    let zeros = into_nibbles([0; 20]);
    assert_eq!(hash_substring_u32::<7>(&zeros, 33), 0);
}
