use sha3::Digest;
use sha3sum::mode::INVALID_MODE;
use sha3sum::{run_test, Mode, Sponge};

fn hash(mode: Mode, data: &[u8]) -> String {
    let mut sponge = Sponge::new(mode);
    sponge.absorb(data);
    sponge.squeeze()
}

fn all_modes() -> Vec<Mode> {
    vec![
        Mode::Sha3_224(144),
        Mode::Sha3_256(136),
        Mode::Sha3_384(104),
        Mode::Sha3_512(72),
    ]
}

fn rate_of(mode: Mode) -> usize {
    match mode {
        Mode::Sha3_224(r) | Mode::Sha3_256(r) | Mode::Sha3_384(r) | Mode::Sha3_512(r) => r,
    }
}

fn to_hex(bytes: &[u8]) -> String {
    let mut s = String::new();
    for b in bytes {
        s.push_str(&format!("{:02x}", b));
    }
    s
}

fn independent_hash(mode: Mode, data: &[u8]) -> String {
    match mode {
        Mode::Sha3_224(_) => to_hex(&sha3::Sha3_224::digest(data)),
        Mode::Sha3_256(_) => to_hex(&sha3::Sha3_256::digest(data)),
        Mode::Sha3_384(_) => to_hex(&sha3::Sha3_384::digest(data)),
        Mode::Sha3_512(_) => to_hex(&sha3::Sha3_512::digest(data)),
    }
}

#[test]
fn empty_input_224() {
    assert_eq!(
        hash(Mode::Sha3_224(144), b""),
        "6b4e03423667dbb73b6e15454f0eb1abd4597f9a1b078e3f5b5a6bc7"
    );
}

#[test]
fn empty_input_256() {
    assert_eq!(
        hash(Mode::Sha3_256(136), b""),
        "a7ffc6f8bf1ed76651c14756a061d662f580ff4de43b49fa82d80a4b80f8434a"
    );
}

#[test]
fn empty_input_384() {
    assert_eq!(
        hash(Mode::Sha3_384(104), b""),
        "0c63a75b845e4f7d01107d852e4c2485c51a50aaaa94fc61995e71bbee983a2ac3713831264adb47fb6bd1e058d5f004"
    );
}

#[test]
fn empty_input_512() {
    assert_eq!(
        hash(Mode::Sha3_512(72), b""),
        "a69f73cca23a9ac5c8b567dc185a756e97c982164fe25859e0d1dcc1475c80a615b2123af1f5f94c11e3e9402c3ac558f500199d95b6d3e301758586281dcd26"
    );
}

#[test]
fn single_a_256() {
    assert_eq!(
        hash(Mode::Sha3_256(136), b"a"),
        "80084bf2fba02475726feb2cab2d8215eab14bc6bdd8bfb2c8151257032ecd8b"
    );
}

#[test]
fn single_a_all_modes_match_independent_implementation() {
    for mode in all_modes() {
        assert_eq!(hash(mode, b"a"), independent_hash(mode, b"a"));
    }
}

#[test]
fn abc_vectors() {
    assert_eq!(
        hash(Mode::Sha3_224(144), b"abc"),
        "e642824c3f8cf24ad09234ee7d3c766fc9a3a5168d0c94ad73b46fdf"
    );
    assert_eq!(
        hash(Mode::Sha3_256(136), b"abc"),
        "3a985da74fe225b2045c172d6bd390bd855f086e3e9d525b46bfe24511431532"
    );
    assert_eq!(
        hash(Mode::Sha3_384(104), b"abc"),
        "ec01498288516fc926459f58e2c6ad8df9b473cb0fc08c2596da7cf0e49be4b298d88cea927ac7f539f1edf228376d25"
    );
    assert_eq!(
        hash(Mode::Sha3_512(72), b"abc"),
        "b751850b1a57168a5693cd924b6b096e08f621827444f70d884f5d0240d2712e10e116e9192af3c91a7ec57647e3934057340b4cf408d5a56592f8274eec53f0"
    );
}

#[test]
fn digest_length_is_fixed_per_mode() {
    let expected = [56usize, 64, 96, 128];
    for (mode, len) in all_modes().into_iter().zip(expected) {
        for n in [0usize, 1, 71, 72, 73, 143, 144, 145, 500] {
            let data = vec![0x5au8; n];
            let digest = hash(mode, &data);
            assert_eq!(digest.len(), len);
            assert!(digest.chars().all(|c| c.is_ascii_hexdigit() && !c.is_ascii_uppercase()));
        }
    }
}

#[test]
fn input_of_exactly_one_block_differs_from_empty() {
    for mode in all_modes() {
        let data = vec![0u8; rate_of(mode)];
        let full = hash(mode, &data);
        assert_ne!(full, hash(mode, b""));
        assert_eq!(full, independent_hash(mode, &data));
    }
}

#[test]
fn padding_edges_match_independent_implementation() {
    for mode in all_modes() {
        let rate = rate_of(mode);
        for n in [rate - 2, rate - 1, rate, rate + 1, 2 * rate - 1, 2 * rate, 2 * rate + 3] {
            let data: Vec<u8> = (0..n).map(|i| (i * 31 + 7) as u8).collect();
            assert_eq!(hash(mode, &data), independent_hash(mode, &data));
        }
    }
}

#[test]
fn single_bit_flip_changes_digest() {
    for mode in all_modes() {
        let message = b"abc".to_vec();
        let mut flipped = message.clone();
        flipped[1] ^= 0x10;
        assert_ne!(hash(mode, &message), hash(mode, &flipped));
    }
    assert_ne!(hash(Mode::Sha3_256(136), &[0x61]), hash(Mode::Sha3_256(136), &[0x60]));
}

#[test]
fn hashing_twice_gives_same_digest() {
    for mode in all_modes() {
        let data = b"The quick brown fox jumps over the lazy dog";
        assert_eq!(hash(mode, data), hash(mode, data));
    }
}

#[test]
fn quick_brown_fox_256() {
    assert_eq!(
        hash(Mode::Sha3_256(136), b"The quick brown fox jumps over the lazy dog"),
        "69070dda01975c8c120c3aada1b282394e7f032fa9cf32f4cb2259a0897dfc04"
    );
}

#[test]
fn mode_selectors_are_parsed() {
    assert!(matches!(Mode::try_from(&"224".to_string()), Ok(Mode::Sha3_224(144))));
    assert!(matches!(Mode::try_from(&"256".to_string()), Ok(Mode::Sha3_256(136))));
    assert!(matches!(Mode::try_from(&"384".to_string()), Ok(Mode::Sha3_384(104))));
    assert!(matches!(Mode::try_from(&"512".to_string()), Ok(Mode::Sha3_512(72))));
}

#[test]
fn unknown_mode_selector_is_rejected() {
    for bad in ["", "128", "2240", "22", "sha256", " 256"] {
        assert_eq!(Mode::try_from(&bad.to_string()), Err(INVALID_MODE));
    }
}

#[test]
fn default_mode_is_224() {
    assert_eq!(Mode::default(), Mode::Sha3_224(144));
}

#[test]
fn self_test_passes() {
    assert!(run_test());
}
