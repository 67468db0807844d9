use vstd::prelude::*;

verus! {

/// Bit `k` of `b` (0 is the least significant).
pub open spec fn bit(b: u8, k: u8) -> bool {
    (b >> k) & 1 == 1
}

/// `b` with the order of its eight bits reversed.
pub open spec fn mirror_byte(b: u8) -> u8 {
    ((b & 0x01) << 7u8) | ((b & 0x02) << 5u8) | ((b & 0x04) << 3u8) | ((b & 0x08) << 1u8) | ((b
        & 0x10) >> 1u8) | ((b & 0x20) >> 3u8) | ((b & 0x40) >> 5u8) | ((b & 0x80) >> 7u8)
}

/// Bit `k` of a mirrored byte is bit `7 - k` of the input byte, and mirroring
/// twice gives the byte back.
pub proof fn lemma_mirror_byte(b: u8)
    ensures
        forall|k: u8| k < 8 ==> bit(#[trigger] mirror_byte(b), k) == bit(b, (7 - k) as u8),
        mirror_byte(mirror_byte(b)) == b,
{
    assert(forall|k: u8|
        k < 8 ==> bit(#[trigger] mirror_byte(b), k) == bit(b, (7 - k) as u8)) by (bit_vector);
    assert(mirror_byte(mirror_byte(b)) == b) by (bit_vector);
}

/// Reverses the bits of one byte.
pub fn reverse_byte(b: u8) -> (r: u8)
    ensures
        r == mirror_byte(b),
{
    ((b & 0x01) << 7u8) | ((b & 0x02) << 5u8) | ((b & 0x04) << 3u8) | ((b & 0x08) << 1u8) | ((b
        & 0x10) >> 1u8) | ((b & 0x20) >> 3u8) | ((b & 0x40) >> 5u8) | ((b & 0x80) >> 7u8)
}

/// The big-endian word made of eight bytes.
pub open spec fn word8(b0: u8, b1: u8, b2: u8, b3: u8, b4: u8, b5: u8, b6: u8, b7: u8) -> u64 {
    ((b0 as u64) << 56u64) | ((b1 as u64) << 48u64) | ((b2 as u64) << 40u64) | ((b3 as u64)
        << 32u64) | ((b4 as u64) << 24u64) | ((b5 as u64) << 16u64) | ((b6 as u64) << 8u64) | (
    b7 as u64)
}

/// The big-endian word made of the first eight bytes of `s`.
pub open spec fn be_word(s: Seq<u8>) -> u64 {
    word8(s[0], s[1], s[2], s[3], s[4], s[5], s[6], s[7])
}

/// Byte `k` (0 is the most significant) of the big-endian encoding of `w`.
pub open spec fn lane_byte(w: u64, k: int) -> u8 {
    (w >> ((56 - 8 * k) as u64)) as u8
}

/// Reading the bytes of a big-endian word gives back the bytes it was made of.
pub proof fn lemma_word8_bytes(b0: u8, b1: u8, b2: u8, b3: u8, b4: u8, b5: u8, b6: u8, b7: u8)
    ensures
        lane_byte(word8(b0, b1, b2, b3, b4, b5, b6, b7), 0) == b0,
        lane_byte(word8(b0, b1, b2, b3, b4, b5, b6, b7), 1) == b1,
        lane_byte(word8(b0, b1, b2, b3, b4, b5, b6, b7), 2) == b2,
        lane_byte(word8(b0, b1, b2, b3, b4, b5, b6, b7), 3) == b3,
        lane_byte(word8(b0, b1, b2, b3, b4, b5, b6, b7), 4) == b4,
        lane_byte(word8(b0, b1, b2, b3, b4, b5, b6, b7), 5) == b5,
        lane_byte(word8(b0, b1, b2, b3, b4, b5, b6, b7), 6) == b6,
        lane_byte(word8(b0, b1, b2, b3, b4, b5, b6, b7), 7) == b7,
{
    let w = word8(b0, b1, b2, b3, b4, b5, b6, b7);
    assert((w >> 56u64) as u8 == b0) by (bit_vector)
        requires
            w == word8(b0, b1, b2, b3, b4, b5, b6, b7),
    ;
    assert((w >> 48u64) as u8 == b1) by (bit_vector)
        requires
            w == word8(b0, b1, b2, b3, b4, b5, b6, b7),
    ;
    assert((w >> 40u64) as u8 == b2) by (bit_vector)
        requires
            w == word8(b0, b1, b2, b3, b4, b5, b6, b7),
    ;
    assert((w >> 32u64) as u8 == b3) by (bit_vector)
        requires
            w == word8(b0, b1, b2, b3, b4, b5, b6, b7),
    ;
    assert((w >> 24u64) as u8 == b4) by (bit_vector)
        requires
            w == word8(b0, b1, b2, b3, b4, b5, b6, b7),
    ;
    assert((w >> 16u64) as u8 == b5) by (bit_vector)
        requires
            w == word8(b0, b1, b2, b3, b4, b5, b6, b7),
    ;
    assert((w >> 8u64) as u8 == b6) by (bit_vector)
        requires
            w == word8(b0, b1, b2, b3, b4, b5, b6, b7),
    ;
    assert((w >> 0u64) as u8 == b7) by (bit_vector)
        requires
            w == word8(b0, b1, b2, b3, b4, b5, b6, b7),
    ;
}

/// Reads the big-endian word stored in `buf[start..start + 8]`.
pub fn read_be_word(buf: &[u8], start: usize) -> (r: u64)
    requires
        start + 8 <= buf@.len(),
    ensures
        r == be_word(buf@.subrange(start as int, start + 8)),
{
    ((buf[start] as u64) << 56u64) | ((buf[start + 1] as u64) << 48u64) | ((buf[start + 2] as u64)
        << 40u64) | ((buf[start + 3] as u64) << 32u64) | ((buf[start + 4] as u64) << 24u64) | ((buf[
    start + 5] as u64) << 16u64) | ((buf[start + 6] as u64) << 8u64) | (buf[start + 7] as u64)
}

/// Mirrors every byte of a lane, keeping the bytes in place.
pub fn static_reverse_u64_bits(number: u64) -> (r: u64)
    ensures
        forall|k: int| 0 <= k < 8 ==> lane_byte(r, k) == mirror_byte(lane_byte(number, k)),
{
    let b0 = reverse_byte((number >> 56u64) as u8);
    let b1 = reverse_byte((number >> 48u64) as u8);
    let b2 = reverse_byte((number >> 40u64) as u8);
    let b3 = reverse_byte((number >> 32u64) as u8);
    let b4 = reverse_byte((number >> 24u64) as u8);
    let b5 = reverse_byte((number >> 16u64) as u8);
    let b6 = reverse_byte((number >> 8u64) as u8);
    let b7 = reverse_byte(number as u8);
    proof {
        lemma_word8_bytes(b0, b1, b2, b3, b4, b5, b6, b7);
        assert(lane_byte(number, 7) == (number >> 0u64) as u8);
        assert((number >> 0u64) == number) by (bit_vector);
    }
    ((b0 as u64) << 56u64) | ((b1 as u64) << 48u64) | ((b2 as u64) << 40u64) | ((b3 as u64)
        << 32u64) | ((b4 as u64) << 24u64) | ((b5 as u64) << 16u64) | ((b6 as u64) << 8u64) | (
    b7 as u64)
}

/// The lowercase hexadecimal digit of a value below 16.
pub open spec fn hex_digit(v: u8) -> char {
    seq!['0', '1', '2', '3', '4', '5', '6', '7', '8', '9', 'a', 'b', 'c', 'd', 'e', 'f'][v as int]
}

/// Two lowercase hexadecimal digits per byte, high nibble first.
pub open spec fn hex_of(b: Seq<u8>) -> Seq<char> {
    Seq::new(
        2 * b.len(),
        |i: int|
            if i % 2 == 0 {
                hex_digit(b[i / 2] >> 4u8)
            } else {
                hex_digit(b[i / 2] & 0x0f)
            },
    )
}


/// The lowercase hexadecimal digit of a value below 16, as a one-character string.
fn hex_digit_str(v: u8) -> (r: &'static str)
    requires
        v < 16,
    ensures
        r@ == seq![hex_digit(v)],
{
    if v == 0 {
        proof {
            reveal_strlit("0");
        }
        "0"
    } else if v == 1 {
        proof {
            reveal_strlit("1");
        }
        "1"
    } else if v == 2 {
        proof {
            reveal_strlit("2");
        }
        "2"
    } else if v == 3 {
        proof {
            reveal_strlit("3");
        }
        "3"
    } else if v == 4 {
        proof {
            reveal_strlit("4");
        }
        "4"
    } else if v == 5 {
        proof {
            reveal_strlit("5");
        }
        "5"
    } else if v == 6 {
        proof {
            reveal_strlit("6");
        }
        "6"
    } else if v == 7 {
        proof {
            reveal_strlit("7");
        }
        "7"
    } else if v == 8 {
        proof {
            reveal_strlit("8");
        }
        "8"
    } else if v == 9 {
        proof {
            reveal_strlit("9");
        }
        "9"
    } else if v == 10 {
        proof {
            reveal_strlit("a");
        }
        "a"
    } else if v == 11 {
        proof {
            reveal_strlit("b");
        }
        "b"
    } else if v == 12 {
        proof {
            reveal_strlit("c");
        }
        "c"
    } else if v == 13 {
        proof {
            reveal_strlit("d");
        }
        "d"
    } else if v == 14 {
        proof {
            reveal_strlit("e");
        }
        "e"
    } else {
        proof {
            reveal_strlit("f");
        }
        "f"
    }
}

/// Appends the two lowercase hexadecimal digits of `b`, high nibble first.
pub fn push_hex_byte(out: &mut String, b: u8)
    ensures
        final(out)@ == old(out)@ + hex_of(seq![b]),
{
    let hi = b >> 4u8;
    let lo = b & 0x0f;
    assert(hi < 16 && lo < 16) by (bit_vector)
        requires
            hi == b >> 4u8,
            lo == b & 0x0f,
    ;
    out.append(hex_digit_str(hi));
    out.append(hex_digit_str(lo));
    assert(hex_of(seq![b]) =~= seq![hex_digit(hi), hex_digit(lo)]);
}

} // verus!
