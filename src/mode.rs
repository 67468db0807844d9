use vstd::prelude::*;
use vstd::string::StrSliceExecFns;

verus! {

/// A SHA3 digest width. Each variant carries its rate: the number of bytes
/// absorbed per permutation call.
#[derive(Debug, Clone, Copy, PartialEq, Eq, Structural)]
pub enum Mode {
    Sha3_224(usize),
    Sha3_256(usize),
    Sha3_384(usize),
    Sha3_512(usize),
}

impl Mode {
    /// The rate carried by the variant, in bytes.
    pub open spec fn rate(self) -> nat {
        match self {
            Mode::Sha3_224(r) => r as nat,
            Mode::Sha3_256(r) => r as nat,
            Mode::Sha3_384(r) => r as nat,
            Mode::Sha3_512(r) => r as nat,
        }
    }

    /// The rate that the standard fixes for the digest width.
    pub open spec fn standard_rate(self) -> nat {
        match self {
            Mode::Sha3_224(_) => 144,
            Mode::Sha3_256(_) => 136,
            Mode::Sha3_384(_) => 104,
            Mode::Sha3_512(_) => 72,
        }
    }

    /// Digest length in bits.
    pub open spec fn digest_bits(self) -> nat {
        match self {
            Mode::Sha3_224(_) => 224,
            Mode::Sha3_256(_) => 256,
            Mode::Sha3_384(_) => 384,
            Mode::Sha3_512(_) => 512,
        }
    }

    /// Digest length in bytes.
    pub open spec fn digest_bytes(self) -> nat {
        self.digest_bits() / 8
    }

    /// Digest length in hexadecimal characters.
    pub open spec fn digest_hex_len(self) -> nat {
        self.digest_bits() / 4
    }

    /// A mode is well formed when it carries the rate of its digest width.
    pub open spec fn wf(self) -> bool {
        self.rate() == self.standard_rate()
    }

    /// The rate carried by the variant.
    pub fn bit_rate(&self) -> (r: usize)
        ensures
            r as nat == self.rate(),
    {
        match self {
            Mode::Sha3_224(r) => *r,
            Mode::Sha3_256(r) => *r,
            Mode::Sha3_384(r) => *r,
            Mode::Sha3_512(r) => *r,
        }
    }

    /// Digest length in bytes.
    pub fn digest_len(&self) -> (r: usize)
        ensures
            r as nat == self.digest_bytes(),
    {
        match self {
            Mode::Sha3_224(_) => 28,
            Mode::Sha3_256(_) => 32,
            Mode::Sha3_384(_) => 48,
            Mode::Sha3_512(_) => 64,
        }
    }
}

/// Error returned for a selector that names no mode.
pub const INVALID_MODE: &'static str = "Invalid mode selected";

/// The mode that a selector names: `"224"`, `"256"`, `"384"` or `"512"`,
/// each with the rate of its width. Matching ignores case, and since the
/// selectors are made of digits alone, that is an exact match.
pub open spec fn selected_mode(s: Seq<char>) -> Option<Mode> {
    if s == seq!['2', '2', '4'] {
        Some(Mode::Sha3_224(144))
    } else if s == seq!['2', '5', '6'] {
        Some(Mode::Sha3_256(136))
    } else if s == seq!['3', '8', '4'] {
        Some(Mode::Sha3_384(104))
    } else if s == seq!['5', '1', '2'] {
        Some(Mode::Sha3_512(72))
    } else {
        None
    }
}

/// What `Mode::try_from` returns for a selector.
pub open spec fn parse_mode(s: Seq<char>) -> Result<Mode, &'static str> {
    match selected_mode(s) {
        Some(m) => Ok(m),
        None => Err(INVALID_MODE),
    }
}

impl<'a> TryFrom<&'a String> for Mode {
    type Error = &'static str;

    fn try_from(value: &'a String) -> (r: Result<Mode, &'static str>) {
        let s = value.as_str();
        if s.unicode_len() != 3 {
            return Err(INVALID_MODE);
        }
        let c0 = s.get_char(0);
        let c1 = s.get_char(1);
        let c2 = s.get_char(2);
        assert(s@ =~= seq![c0, c1, c2]);
        if c0 == '2' && c1 == '2' && c2 == '4' {
            Ok(Mode::Sha3_224(144))
        } else if c0 == '2' && c1 == '5' && c2 == '6' {
            Ok(Mode::Sha3_256(136))
        } else if c0 == '3' && c1 == '8' && c2 == '4' {
            Ok(Mode::Sha3_384(104))
        } else if c0 == '5' && c1 == '1' && c2 == '2' {
            Ok(Mode::Sha3_512(72))
        } else {
            Err(INVALID_MODE)
        }
    }
}

impl<'a> vstd::std_specs::convert::TryFromSpecImpl<&'a String> for Mode {
    open spec fn obeys_try_from_spec() -> bool {
        true
    }

    open spec fn try_from_spec(v: &'a String) -> Result<Mode, &'static str> {
        parse_mode(v@)
    }
}

impl Default for Mode {
    /// The 224-bit mode.
    fn default() -> (m: Mode)
        ensures
            m == Mode::Sha3_224(144),
    {
        Mode::Sha3_224(144)
    }
}

/// Every mode that a selector names carries its standard rate.
pub proof fn lemma_selected_mode_wf(s: Seq<char>)
    ensures
        selected_mode(s) is Some ==> selected_mode(s)->0.wf(),
{
}

} // verus!
