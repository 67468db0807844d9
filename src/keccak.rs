use vstd::prelude::*;

verus! {

// The state is modelled as 25 lanes; lane (x, y) of the 5x5 grid sits at index
// x + 5 * y. Lanes are kept in a most-significant-bit-first orientation, the
// mirror image of the standard's, so the standard's left rotations appear here
// as right rotations and every byte is bit-mirrored on its way in and out.

/// Coordinate remap through which the rotation-offset table is indexed.
pub const CAM: [usize; 5] = [2, 3, 4, 0, 1];

/// Rotation offsets, indexed as `RHO_TABLE[CAM[x]][CAM[y]]`.
pub const RHO_TABLE: [[u64; 5]; 5] = [
    [21, 120, 28, 55, 153],
    [136, 78, 91, 276, 231],
    [105, 210, 0, 36, 3],
    [45, 66, 1, 300, 10],
    [15, 253, 190, 6, 171],
];

/// Round constants, one per round, in the mirrored lane orientation.
pub const IOTA_TABLE: [u64; 24] = [
    9223372036854775808,
    4684025087442026496,
    5836946592048873473,
    281479271677953,
    15060318628903649280,
    9223372041149743104,
    9295711110164381697,
    10376575016438333441,
    5836665117072162816,
    1224979098644774912,
    10376575020733300736,
    5764607527329202176,
    15060318633198616576,
    15060037153926938625,
    10448632610476261377,
    13835339530258874369,
    4611967493404098561,
    72057594037927937,
    5764888998010945536,
    5764607527329202177,
    9295711110164381697,
    72339069014638593,
    9223372041149743104,
    1153202983878524929,
];

/// Number of lanes in the state.
pub const LANES: usize = 25;

/// Number of rounds of the permutation.
pub const ROUNDS: usize = 24;

/// Index of lane (x, y) in the flat state.
pub open spec fn lane_index(x: int, y: int) -> int {
    x + 5 * y
}

/// `w` rotated right by `n` bits (modulo 64).
pub open spec fn rotr(w: u64, n: u64) -> u64 {
    let k = (n % 64) as u64;
    if k == 0 {
        w
    } else {
        (w >> k) | (w << ((64 - k) as u64))
    }
}

/// Rotates `w` right by `n` bits; amounts of 64 or more wrap around.
pub fn rotate_right(w: u64, n: u64) -> (r: u64)
    ensures
        r == rotr(w, n),
{
    let k: u64 = n % 64;
    if k == 0 {
        w
    } else {
        (w >> k) | (w << (64 - k))
    }
}

/// XOR of the five lanes of column `x`.
pub open spec fn column_parity(s: Seq<u64>, x: int) -> u64 {
    s[lane_index(x, 0)] ^ s[lane_index(x, 1)] ^ s[lane_index(x, 2)] ^ s[lane_index(x, 3)]
        ^ s[lane_index(x, 4)]
}

/// The value that theta folds into every lane of column `x`.
pub open spec fn theta_effect(s: Seq<u64>, x: int) -> u64 {
    column_parity(s, (x + 4) % 5) ^ rotr(column_parity(s, (x + 1) % 5), 1)
}

/// Theta: each lane absorbs the parities of the two neighbouring columns.
#[verifier::opaque]
pub open spec fn theta_step(s: Seq<u64>) -> Seq<u64> {
    Seq::new(25, |i: int| s[i] ^ theta_effect(s, i % 5))
}

/// The rotation amount applied by rho to lane (x, y).
pub open spec fn rho_offset(x: int, y: int) -> u64 {
    RHO_TABLE[CAM[x] as int][CAM[y] as int]
}

/// Rho: every lane is rotated by its own offset.
#[verifier::opaque]
pub open spec fn rho_step(s: Seq<u64>) -> Seq<u64> {
    Seq::new(25, |i: int| rotr(s[i], rho_offset(i % 5, i / 5)))
}

/// Pi: lane ((x + 3y) mod 5, x) moves to (x, y).
#[verifier::opaque]
pub open spec fn pi_step(s: Seq<u64>) -> Seq<u64> {
    Seq::new(25, |i: int| s[lane_index((i % 5 + 3 * (i / 5)) % 5, i % 5)])
}

/// Chi: the non-linear mix of each lane with its two right-hand row neighbours.
#[verifier::opaque]
pub open spec fn chi_step(s: Seq<u64>) -> Seq<u64> {
    Seq::new(
        25,
        |i: int|
            s[i] ^ (!s[lane_index((i % 5 + 1) % 5, i / 5)] & s[lane_index((i % 5 + 2) % 5, i / 5)]),
    )
}

/// Iota: lane (0, 0) absorbs the round constant.
#[verifier::opaque]
pub open spec fn iota_step(s: Seq<u64>, round: int) -> Seq<u64> {
    s.update(0, s[0] ^ IOTA_TABLE[round])
}

/// One full round of the permutation.
pub open spec fn round(s: Seq<u64>, r: int) -> Seq<u64> {
    iota_step(chi_step(pi_step(rho_step(theta_step(s)))), r)
}

/// The first `n` rounds applied in order.
pub open spec fn rounds(s: Seq<u64>, n: nat) -> Seq<u64>
    decreases n,
{
    if n == 0 {
        s
    } else {
        round(rounds(s, (n - 1) as nat), n - 1)
    }
}

/// Keccak-f[1600]: all 24 rounds.
pub open spec fn keccak_f(s: Seq<u64>) -> Seq<u64> {
    rounds(s, 24)
}

} // verus!
