use vstd::prelude::*;
use vstd::string::StringExecFns;

pub mod bits;
pub mod keccak;
pub mod mode;
pub mod sponge;

pub use mode::Mode;
pub use sponge::Sponge;

verus! {

use crate::sponge::sha3_hex;

/// Published SHA3-224 digest of the empty message.
pub const EMPTY_SHA3_224: &'static str = "6b4e03423667dbb73b6e15454f0eb1abd4597f9a1b078e3f5b5a6bc7";

/// Published SHA3-256 digest of the empty message.
pub const EMPTY_SHA3_256: &'static str =
    "a7ffc6f8bf1ed76651c14756a061d662f580ff4de43b49fa82d80a4b80f8434a";

/// Published SHA3-384 digest of the empty message.
pub const EMPTY_SHA3_384: &'static str =
    "0c63a75b845e4f7d01107d852e4c2485c51a50aaaa94fc61995e71bbee983a2ac3713831264adb47fb6bd1e058d5f004";

/// Published SHA3-512 digest of the empty message.
pub const EMPTY_SHA3_512: &'static str =
    "a69f73cca23a9ac5c8b567dc185a756e97c982164fe25859e0d1dcc1475c80a615b2123af1f5f94c11e3e9402c3ac558f500199d95b6d3e301758586281dcd26";

/// Hashes the empty message under `mode` and compares the digest with `expected`.
fn empty_digest_matches(mode: Mode, expected: &'static str) -> (r: bool)
    requires
        mode.wf(),
    ensures
        r == (sha3_hex(mode, Seq::empty()) == expected@),
{
    let mut sponge = Sponge::new(mode);
    let empty: Vec<u8> = Vec::new();
    sponge.absorb(empty.as_slice());
    assert(empty@ =~= Seq::<u8>::empty());
    let digest = sponge.squeeze();
    digest == String::from_str(expected)
}

/// Self-test: hashes the empty message in every mode and reports whether each
/// digest equals the published one.
pub fn run_test() -> (r: bool)
    ensures
        r == (sha3_hex(Mode::Sha3_224(144), Seq::empty()) == EMPTY_SHA3_224@ && sha3_hex(
            Mode::Sha3_256(136),
            Seq::empty(),
        ) == EMPTY_SHA3_256@ && sha3_hex(Mode::Sha3_384(104), Seq::empty()) == EMPTY_SHA3_384@
            && sha3_hex(Mode::Sha3_512(72), Seq::empty()) == EMPTY_SHA3_512@),
{
    let a = empty_digest_matches(Mode::Sha3_224(144), EMPTY_SHA3_224);
    let b = empty_digest_matches(Mode::Sha3_256(136), EMPTY_SHA3_256);
    let c = empty_digest_matches(Mode::Sha3_384(104), EMPTY_SHA3_384);
    let d = empty_digest_matches(Mode::Sha3_512(72), EMPTY_SHA3_512);
    a && b && c && d
}

} // verus!
