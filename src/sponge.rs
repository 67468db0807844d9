use vstd::prelude::*;

use vstd::arithmetic::div_mod::{
    lemma_fundamental_div_mod, lemma_fundamental_div_mod_converse, lemma_mod_pos_bound,
};

use crate::bits::{
    be_word, hex_of, lane_byte, mirror_byte, push_hex_byte, read_be_word, reverse_byte,
    static_reverse_u64_bits,
};
use crate::keccak::{
    chi_step, column_parity, iota_step, keccak_f, lane_index, pi_step, rho_offset, rho_step,
    rotate_right, rotr, round, rounds, theta_effect, theta_step, CAM, IOTA_TABLE, LANES,
    RHO_TABLE, ROUNDS,
};
use crate::mode::Mode;

verus! {

/// Length of the padded message: the next multiple of `rate` strictly above `n`.
pub open spec fn padded_len(n: nat, rate: nat) -> nat {
    (n / rate + 1) * rate
}

/// Byte `j` of the padded, bit-mirrored message: mirrored data, then the
/// mirrored domain suffix `0x60` at the end of the data, zeros, and the
/// mirrored closing bit `0x01` in the last byte; `0x61` where the suffix and
/// the closing bit share one byte.
pub open spec fn pad_byte(data: Seq<u8>, rate: nat, j: int) -> u8 {
    let n = data.len() as int;
    if j < n {
        mirror_byte(data[j])
    } else if j == n && data.len() % rate == rate - 1 {
        0x61
    } else if j == n {
        0x60
    } else if j == padded_len(data.len(), rate) - 1 {
        0x01
    } else {
        0
    }
}

/// The whole padded, bit-mirrored message.
pub open spec fn padded(data: Seq<u8>, rate: nat) -> Seq<u8> {
    Seq::new(padded_len(data.len(), rate), |j: int| pad_byte(data, rate, j))
}

/// XOR of one block into the first `rate / 8` lanes, eight big-endian bytes per lane.
pub open spec fn xor_block(s: Seq<u64>, block: Seq<u8>, rate: nat) -> Seq<u64> {
    Seq::new(
        25,
        |i: int|
            if i < rate / 8 {
                s[i] ^ be_word(block.subrange(8 * i, 8 * i + 8))
            } else {
                s[i]
            },
    )
}

/// The state after the first `k` blocks of the padded message `p` have each
/// been folded in and permuted.
pub open spec fn absorb_blocks(s: Seq<u64>, p: Seq<u8>, rate: nat, k: nat) -> Seq<u64>
    decreases k,
{
    if k == 0 {
        s
    } else {
        let prev = absorb_blocks(s, p, rate, (k - 1) as nat);
        keccak_f(xor_block(prev, p.subrange((k - 1) * rate, (k * rate) as int), rate))
    }
}

/// The state after absorbing all of `data`, padding block included.
pub open spec fn absorb_all(s: Seq<u64>, data: Seq<u8>, rate: nat) -> Seq<u64> {
    absorb_blocks(s, padded(data, rate), rate, data.len() / rate + 1)
}

/// Byte `j` of the output stream: lanes in order, each big-endian, every byte mirrored.
pub open spec fn output_bytes(s: Seq<u64>, n: nat) -> Seq<u8> {
    Seq::new(n, |j: int| mirror_byte(lane_byte(s[j / 8], j % 8)))
}

/// The hexadecimal digest squeezed from a final state.
pub open spec fn digest_hex(s: Seq<u64>, mode: Mode) -> Seq<char> {
    hex_of(output_bytes(s, mode.digest_bytes()))
}

/// The all-zero initial state.
pub open spec fn zero_state() -> Seq<u64> {
    Seq::new(25, |i: int| 0u64)
}

/// The SHA3 digest of `data` under `mode`, as lowercase hexadecimal.
pub open spec fn sha3_hex(mode: Mode, data: Seq<u8>) -> Seq<char> {
    digest_hex(absorb_all(zero_state(), data, mode.rate()), mode)
}

/// The block that a message whose length is a multiple of the rate ends with:
/// the mirrored suffix, zeros, and the mirrored closing bit.
pub open spec fn padding_block(rate: nat) -> Seq<u8> {
    Seq::new(rate, |j: int| if j == 0 { 0x60u8 } else if j == rate - 1 { 0x01u8 } else { 0u8 })
}

/// The digest always has the digest width in hexadecimal characters: 56, 64,
/// 96 or 128 for the 224, 256, 384 and 512-bit modes, whatever the input.
pub proof fn lemma_digest_length(mode: Mode, data: Seq<u8>)
    ensures
        sha3_hex(mode, data).len() == mode.digest_hex_len(),
        sha3_hex(mode, data).len() == match mode {
            Mode::Sha3_224(_) => 56nat,
            Mode::Sha3_256(_) => 64nat,
            Mode::Sha3_384(_) => 96nat,
            Mode::Sha3_512(_) => 128nat,
        },
{
}

/// A message whose length is a multiple of the rate is followed by one whole
/// extra block of padding, which is absorbed and permuted like any other.
pub proof fn lemma_full_padding_block(s: Seq<u64>, data: Seq<u8>, rate: nat)
    requires
        rate >= 2,
        data.len() % rate == 0,
    ensures
        padded(data, rate).len() == data.len() + rate,
        padded(data, rate).subrange(data.len() as int, (data.len() + rate) as int) == padding_block(rate),
        absorb_all(s, data, rate) == keccak_f(
            xor_block(
                absorb_blocks(s, padded(data, rate), rate, data.len() / rate),
                padding_block(rate),
                rate,
            ),
        ),
{
    let n = data.len();
    let k = n / rate;
    lemma_fundamental_div_mod(n as int, rate as int);
    assert(n == k * rate) by (nonlinear_arith)
        requires
            n == rate * k + 0,
    ;
    lemma_final_block(n, rate, k);
    assert(padded(data, rate).subrange(n as int, (n + rate) as int) =~= padding_block(rate));
    assert((k + 1) * rate == k * rate + rate) by (nonlinear_arith);
}

/// The digest is a function of the mode and the input alone: two sponges
/// started fresh in the same mode and fed the same bytes give the same digest.
pub proof fn lemma_digest_deterministic(mode: Mode, a: Seq<u8>, b: Seq<u8>)
    requires
        a == b,
    ensures
        digest_hex(absorb_all(zero_state(), a, mode.rate()), mode) == digest_hex(
            absorb_all(zero_state(), b, mode.rate()),
            mode,
        ),
        sha3_hex(mode, a) == sha3_hex(mode, b),
{
}

/// Writing out all `rate / 8` lanes and cutting the hexadecimal text to the
/// digest length gives the digest.
pub proof fn lemma_digest_is_truncated_stream(s: Seq<u64>, mode: Mode)
    requires
        mode.wf(),
    ensures
        hex_of(output_bytes(s, 8 * (mode.rate() / 8))).subrange(0, mode.digest_hex_len() as int)
            == digest_hex(s, mode),
{
    assert(hex_of(output_bytes(s, 8 * (mode.rate() / 8))).subrange(0, mode.digest_hex_len() as int)
        =~= digest_hex(s, mode));
}

/// Mirrors every byte of `bytes` in place.
fn reverse_bits_in_place(bytes: &mut Vec<u8>)
    ensures
        final(bytes)@ == old(bytes)@.map_values(|b: u8| mirror_byte(b)),
{
    let n = bytes.len();
    for i in 0..n
        invariant
            n == old(bytes)@.len(),
            bytes@.len() == n,
            forall|j: int| 0 <= j < i ==> bytes@[j] == mirror_byte(old(bytes)@[j]),
            forall|j: int| i <= j < n ==> bytes@[j] == old(bytes)@[j],
    {
        let b = reverse_byte(bytes[i]);
        bytes.set(i, b);
    }
    assert(bytes@ =~= old(bytes)@.map_values(|b: u8| mirror_byte(b)));
}

/// Mirrored domain-separation suffix, written just after the data.
const SHA_SUFFIX: u8 = 0x60;

/// The padded length lies strictly above the message length.
proof fn lemma_padded_len_bound(n: nat, rate: nat)
    requires
        rate > 0,
    ensures
        n < padded_len(n, rate),
{
    let q = (n / rate) as int;
    lemma_fundamental_div_mod(n as int, rate as int);
    lemma_mod_pos_bound(n as int, rate as int);
    assert((q + 1) * rate == rate * q + rate) by (nonlinear_arith);
}

/// Where `k` whole blocks leave less than one block of data, the data ends in
/// block `k`, which is the last block of the padded message.
proof fn lemma_final_block(n: nat, rate: nat, k: nat)
    requires
        rate > 0,
        k * rate <= n,
        n < k * rate + rate,
    ensures
        n / rate == k,
        n % rate == n - k * rate,
        padded_len(n, rate) == k * rate + rate,
{
    lemma_fundamental_div_mod_converse(n as int, rate as int, k as int, n - k * rate);
    assert((k + 1) * rate == k * rate + rate) by (nonlinear_arith);
}

/// The block of the padded, bit-mirrored message that starts at `pos`: the
/// data read from there, zero-filled, mirrored, and padded where the data
/// runs out before the block is full.
fn load_block(data: &[u8], pos: usize, rate: usize) -> (block: Vec<u8>)
    requires
        rate > 0,
        pos <= data@.len(),
        pos + rate <= padded_len(data@.len(), rate as nat),
        pos + rate > data@.len() ==> data@.len() % (rate as nat) == data@.len() - pos
            && padded_len(data@.len(), rate as nat) == pos + rate,
    ensures
        block@ == padded(data@, rate as nat).subrange(pos as int, pos + rate),
{
    let n = data.len();
    let mut block: Vec<u8> = Vec::new();
    for j in 0..rate
        invariant
            n == data@.len(),
            pos <= n,
            block@.len() == j,
            forall|i: int| 0 <= i < j ==> block@[i] == if pos + i < n { data@[pos + i] } else { 0u8 },
    {
        if j < n - pos {
            block.push(data[pos + j]);
        } else {
            block.push(0);
        }
    }
    reverse_bits_in_place(&mut block);
    assert(mirror_byte(0) == 0) by (bit_vector);
    if n - pos < rate {
        // The data ran out inside this block: it is the last one.
        let p = n - pos;
        if p == rate - 1 {
            block.set(p, SHA_SUFFIX + 1);
        } else {
            block.set(p, SHA_SUFFIX);
            block.set(rate - 1, 1);
        }
    }
    assert(block@ =~= padded(data@, rate as nat).subrange(pos as int, pos + rate));
    block
}

/// A SHA3 sponge: one mode bound to one 1600-bit state.
pub struct Sponge {
    mode: Mode,
    state: [u64; 25],
}

impl Sponge {
    /// The mode the sponge was created with.
    pub closed spec fn spec_mode(&self) -> Mode {
        self.mode
    }

    /// The 25 lanes of the state; lane (x, y) at index x + 5 * y.
    pub closed spec fn lanes(&self) -> Seq<u64> {
        self.state@
    }

    /// A fresh sponge with an all-zero state.
    pub fn new(mode: Mode) -> (s: Self)
        ensures
            s.spec_mode() == mode,
            s.lanes() == zero_state(),
    {
        let s = Sponge { mode, state: [0; 25] };
        assert(s.state@ =~= zero_state());
        s
    }

    /// Theta step, in place.
    fn theta(&mut self)
        ensures
            final(self).mode == old(self).mode,
            final(self).state@ == theta_step(old(self).state@),
    {
        let s = self.state;
        let mut c: [u64; 5] = [0; 5];
        for x in 0..5
            invariant
                forall|j: int| 0 <= j < x ==> c@[j] == column_parity(s@, j),
        {
            c[x] = s[x] ^ s[x + 5] ^ s[x + 10] ^ s[x + 15] ^ s[x + 20];
        }
        let mut d: [u64; 5] = [0; 5];
        for x in 0..5
            invariant
                forall|j: int| 0 <= j < 5 ==> c@[j] == column_parity(s@, j),
                forall|j: int| 0 <= j < x ==> d@[j] == theta_effect(s@, j),
        {
            d[x] = c[(x + 4) % 5] ^ rotate_right(c[(x + 1) % 5], 1);
        }
        for i in 0..LANES
            invariant
                self.mode == old(self).mode,
                s == old(self).state,
                forall|j: int| 0 <= j < 5 ==> d@[j] == theta_effect(s@, j),
                forall|j: int| 0 <= j < i ==> self.state@[j] == s@[j] ^ theta_effect(s@, j % 5),
                forall|j: int| i <= j < 25 ==> self.state@[j] == s@[j],
        {
            self.state[i] = self.state[i] ^ d[i % 5];
        }
        reveal(theta_step);
        assert(self.state@ =~= theta_step(s@));
    }

    /// Rho step, in place.
    fn rho(&mut self)
        ensures
            final(self).mode == old(self).mode,
            final(self).state@ == rho_step(old(self).state@),
    {
        let s = self.state;
        for i in 0..LANES
            invariant
                self.mode == old(self).mode,
                s == old(self).state,
                forall|j: int| 0 <= j < i ==> self.state@[j] == rotr(s@[j], rho_offset(j % 5, j / 5)),
                forall|j: int| i <= j < 25 ==> self.state@[j] == s@[j],
        {
            let x = i % 5;
            let y = i / 5;
            self.state[i] = rotate_right(self.state[i], RHO_TABLE[CAM[x]][CAM[y]]);
        }
        reveal(rho_step);
        assert(self.state@ =~= rho_step(s@));
    }

    /// Pi step: the lanes change places.
    fn pi(&mut self)
        ensures
            final(self).mode == old(self).mode,
            final(self).state@ == pi_step(old(self).state@),
    {
        let s = self.state;
        let mut new_state: [u64; 25] = [0; 25];
        for i in 0..LANES
            invariant
                forall|j: int| 0 <= j < i ==> new_state@[j] == s@[lane_index((j % 5 + 3 * (j / 5)) % 5, j % 5)],
        {
            let x = i % 5;
            let y = i / 5;
            new_state[i] = s[(x + 3 * y) % 5 + 5 * x];
        }
        self.state = new_state;
        reveal(pi_step);
        assert(self.state@ =~= pi_step(s@));
    }

    /// Chi step, the non-linear one.
    fn chi(&mut self)
        ensures
            final(self).mode == old(self).mode,
            final(self).state@ == chi_step(old(self).state@),
    {
        let s = self.state;
        let mut new_state: [u64; 25] = [0; 25];
        for i in 0..LANES
            invariant
                forall|j: int| 0 <= j < i ==> new_state@[j] == s@[j] ^ (!s@[lane_index((j % 5 + 1) % 5, j / 5)] & s@[lane_index((j % 5 + 2) % 5, j / 5)]),
        {
            let x = i % 5;
            let y = i / 5;
            new_state[i] = s[i] ^ (!s[(x + 1) % 5 + 5 * y] & s[(x + 2) % 5 + 5 * y]);
        }
        self.state = new_state;
        reveal(chi_step);
        assert(self.state@ =~= chi_step(s@));
    }

    /// Iota step for round `round`.
    fn iota(&mut self, round: usize)
        requires
            round < 24,
        ensures
            final(self).mode == old(self).mode,
            final(self).state@ == iota_step(old(self).state@, round as int),
    {
        self.state[0] = self.state[0] ^ IOTA_TABLE[round];
        reveal(iota_step);
        assert(self.state@ =~= iota_step(old(self).state@, round as int));
    }

    /// Applies the full 24-round permutation to the state.
    fn permute(&mut self)
        ensures
            final(self).mode == old(self).mode,
            final(self).state@ == keccak_f(old(self).state@),
    {
        let ghost s0 = self.state@;
        for r in 0..ROUNDS
            invariant
                self.mode == old(self).mode,
                s0 == old(self).state@,
                self.state@ == rounds(s0, r as nat),
        {
            self.theta();
            self.rho();
            self.pi();
            self.chi();
            self.iota(r);
            assert(self.state@ == round(rounds(s0, r as nat), r as int));
        }
    }
    /// XORs the first `rate / 8` eight-byte big-endian words of `block` into
    /// the lanes with the same index.
    fn fold_block(&mut self, block: &Vec<u8>, rate: usize)
        requires
            rate <= 200,
            rate <= block@.len(),
        ensures
            final(self).mode == old(self).mode,
            final(self).state@ == xor_block(old(self).state@, block@, rate as nat),
    {
        let lanes = rate / 8;
        for lane in 0..lanes
            invariant
                lanes == rate / 8,
                lanes <= 25,
                rate <= block@.len(),
                self.mode == old(self).mode,
                forall|j: int|
                    0 <= j < lane ==> self.state@[j] == old(self).state@[j] ^ be_word(
                        block@.subrange(8 * j, 8 * j + 8),
                    ),
                forall|j: int| lane <= j < 25 ==> self.state@[j] == old(self).state@[j],
        {
            let w = read_be_word(block.as_slice(), lane * 8);
            self.state[lane] = self.state[lane] ^ w;
        }
        assert(self.state@ =~= xor_block(old(self).state@, block@, rate as nat));
    }

    /// Absorbs the whole of `data`: every full block, then the padded final
    /// block, each folded in and followed by one permutation. A message whose
    /// length is a multiple of the rate gets a final block of padding alone.
    pub fn absorb(&mut self, data: &[u8])
        requires
            old(self).spec_mode().wf(),
        ensures
            final(self).spec_mode() == old(self).spec_mode(),
            final(self).lanes() == absorb_all(old(self).lanes(), data@, old(self).spec_mode().rate()),
    {
        let rate = self.mode.bit_rate();
        let n = data.len();
        let ghost s0 = self.state@;
        let ghost p = padded(data@, rate as nat);
        let mut pos: usize = 0;
        let ghost mut k: nat = 0;
        proof {
            lemma_padded_len_bound(n as nat, rate as nat);
        }
        while rate <= n - pos
            invariant
                rate as nat == self.mode.rate(),
                self.mode == old(self).mode,
                self.mode.wf(),
                n == data@.len(),
                n < padded_len(n as nat, rate as nat),
                p == padded(data@, rate as nat),
                s0 == old(self).state@,
                pos <= n,
                pos == k * rate,
                self.state@ == absorb_blocks(s0, p, rate as nat, k),
            decreases n - pos,
        {
            let block = load_block(data, pos, rate);
            self.fold_block(&block, rate);
            self.permute();
            proof {
                assert((k + 1) * rate == k * rate + rate) by (nonlinear_arith);
                k = k + 1;
            }
            pos = pos + rate;
        }
        proof {
            lemma_final_block(n as nat, rate as nat, k);
        }
        let block = load_block(data, pos, rate);
        self.fold_block(&block, rate);
        self.permute();
        proof {
            assert((k + 1) * rate == k * rate + rate) by (nonlinear_arith);
        }
    }

    /// Squeezes the digest out of the final state as lowercase hexadecimal.
    /// Every byte of every lane is mirrored, the lanes are written out in
    /// order, big-endian, and the result is cut to the mode's digest length.
    /// The sponge is consumed.
    pub fn squeeze(self) -> (r: String)
        ensures
            r@ == digest_hex(self.lanes(), self.spec_mode()),
            r@.len() == self.spec_mode().digest_hex_len(),
    {
        let mut state = self.state;
        for i in 0..LANES
            invariant
                forall|j: int, b: int|
                    0 <= j < i && 0 <= b < 8 ==> #[trigger] lane_byte(state@[j], b)
                        == mirror_byte(lane_byte(self.state@[j], b)),
                forall|j: int| i <= j < 25 ==> state@[j] == self.state@[j],
        {
            state[i] = static_reverse_u64_bits(state[i]);
        }
        let n = self.mode.digest_len();
        let mut out = String::new();
        for j in 0..n
            invariant
                n == self.spec_mode().digest_bytes(),
                n <= 64,
                forall|l: int, b: int|
                    0 <= l < 25 && 0 <= b < 8 ==> #[trigger] lane_byte(state@[l], b)
                        == mirror_byte(lane_byte(self.state@[l], b)),
                out@ == hex_of(output_bytes(self.state@, j as nat)),
        {
            let w = state[j / 8];
            let b = (w >> ((56 - 8 * (j % 8)) as u64)) as u8;
            assert(b == lane_byte(state@[(j / 8) as int], (j % 8) as int));
            push_hex_byte(&mut out, b);
            assert(output_bytes(self.state@, (j + 1) as nat) =~= output_bytes(self.state@, j as nat).push(b));
            assert(hex_of(output_bytes(self.state@, (j + 1) as nat)) =~= hex_of(output_bytes(self.state@, j as nat)) + hex_of(seq![b]));
        }
        out
    }
}

} // verus!
