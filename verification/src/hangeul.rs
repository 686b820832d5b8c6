//! Symbol tables and block algebra: the three phonemic slots of a Hangul
//! syllable (initial consonant, vowel, optional final consonant) and the
//! synthesis of a syllable block character from their numeric offsets.

use vstd::prelude::*;

verus! {

/// Code point of the first composed Hangul syllable block.
pub const BLOCK_START: u32 = 0xAC00;
/// Code point base of the standalone (compatibility) consonant letters.
pub const CONSONANT_START: u32 = 0x3130;
/// Code point of the first standalone vowel letter.
pub const VOWEL_START: u32 = 0x314F;

/// Number of final slots per (initial, vowel) pair.
pub const NUM_FINALS: u32 = 28;
/// Number of vowels.
pub const NUM_VOWELS: u32 = 21;

/// Blocks spanned by one initial: 21 vowels times 28 finals.
pub const CHARS_PER_INITIAL: u32 = 588;
/// Blocks spanned by one vowel: 28 finals.
pub const CHARS_PER_VOWEL: u32 = 28;

/// Relies on char::from_u32: every value below the surrogate range
/// (0xD800) is a valid Unicode scalar value, so the conversion succeeds
/// and returns the character with exactly that code point.
#[verifier::external_body]
fn char_from_code(code: u32) -> (c: char)
    requires
        code < 0xD800,
    ensures
        c as u32 == code,
{
    char::from_u32(code).expect("a code point below 0xD800 is a valid scalar")
}

/// The 19 initial consonants, including the tensed (geminate) variants.
#[derive(Debug, Clone, Copy, PartialEq, Eq, Structural, Hash)]
pub enum Initial {
    G,
    Gg,
    N,
    D,
    Dd,
    R,
    M,
    B,
    Bb,
    S,
    Ss,
    Ieung,
    J,
    Jj,
    Ch,
    K,
    P,
    T,
    H,
}

impl Initial {
    /// Offset of this consonant in the initial slot of a syllable block.
    pub open spec fn spec_offset(self) -> u32 {
        match self {
            Initial::G => 0,
            Initial::Gg => 1,
            Initial::N => 2,
            Initial::D => 3,
            Initial::Dd => 4,
            Initial::R => 5,
            Initial::M => 6,
            Initial::B => 7,
            Initial::Bb => 8,
            Initial::S => 9,
            Initial::Ss => 10,
            Initial::Ieung => 11,
            Initial::J => 12,
            Initial::Jj => 13,
            Initial::Ch => 14,
            Initial::K => 15,
            Initial::T => 16,
            Initial::P => 17,
            Initial::H => 18,
        }
    }

    pub fn offset(&self) -> (r: u32)
        ensures
            r == self.spec_offset(),
    {
        match *self {
            Initial::G => 0,
            Initial::Gg => 1,
            Initial::N => 2,
            Initial::D => 3,
            Initial::Dd => 4,
            Initial::R => 5,
            Initial::M => 6,
            Initial::B => 7,
            Initial::Bb => 8,
            Initial::S => 9,
            Initial::Ss => 10,
            Initial::Ieung => 11,
            Initial::J => 12,
            Initial::Jj => 13,
            Initial::Ch => 14,
            Initial::K => 15,
            Initial::T => 16,
            Initial::P => 17,
            Initial::H => 18,
        }
    }

    /// Offset of this consonant among the standalone consonant letters.
    /// This offset space differs from the block-synthesis one and the two
    /// must not be conflated.
    pub open spec fn spec_char_offset(self) -> u32 {
        match self {
            Initial::G => 1,
            Initial::Gg => 2,
            Initial::N => 4,
            Initial::D => 7,
            Initial::Dd => 8,
            Initial::R => 9,
            Initial::M => 17,
            Initial::B => 18,
            Initial::Bb => 19,
            Initial::S => 21,
            Initial::Ss => 22,
            Initial::Ieung => 23,
            Initial::J => 24,
            Initial::Jj => 25,
            Initial::Ch => 26,
            Initial::K => 27,
            Initial::T => 28,
            Initial::P => 29,
            Initial::H => 30,
        }
    }

    fn char_offset(&self) -> (r: u32)
        ensures
            r == self.spec_char_offset(),
    {
        match *self {
            Initial::G => 1,
            Initial::Gg => 2,
            Initial::N => 4,
            Initial::D => 7,
            Initial::Dd => 8,
            Initial::R => 9,
            Initial::M => 17,
            Initial::B => 18,
            Initial::Bb => 19,
            Initial::S => 21,
            Initial::Ss => 22,
            Initial::Ieung => 23,
            Initial::J => 24,
            Initial::Jj => 25,
            Initial::Ch => 26,
            Initial::K => 27,
            Initial::T => 28,
            Initial::P => 29,
            Initial::H => 30,
        }
    }

    /// Code point of this consonant rendered as a standalone letter.
    pub open spec fn spec_letter_code(self) -> u32 {
        (CONSONANT_START + self.spec_char_offset()) as u32
    }

    /// This consonant rendered as a standalone (non-block) letter.
    pub fn as_char(&self) -> (c: char)
        ensures
            c as u32 == self.spec_letter_code(),
    {
        proof {
            assert(self.spec_char_offset() <= 30);
        }
        let code: u32 = CONSONANT_START + self.char_offset();
        char_from_code(code)
    }
}

/// The 21 vowels and diphthongs.
#[derive(Debug, Clone, Copy, PartialEq, Eq, Structural, Hash)]
pub enum Vowel {
    A,
    Ae,
    Ya,
    Yae,
    Eo,
    E,
    Yeo,
    Ye,
    O,
    Wa,
    Wae,
    Oe,
    Yo,
    U,
    Weo,
    We,
    Wi,
    Yu,
    Y,
    Yi,
    I,
}

impl Vowel {
    /// Offset of this vowel in the vowel slot of a syllable block; the
    /// standalone vowel letters use the same offsets.
    pub open spec fn spec_offset(self) -> u32 {
        match self {
            Vowel::A => 0,
            Vowel::Ae => 1,
            Vowel::Ya => 2,
            Vowel::Yae => 3,
            Vowel::Eo => 4,
            Vowel::E => 5,
            Vowel::Yeo => 6,
            Vowel::Ye => 7,
            Vowel::O => 8,
            Vowel::Wa => 9,
            Vowel::Wae => 10,
            Vowel::Oe => 11,
            Vowel::Yo => 12,
            Vowel::U => 13,
            Vowel::Weo => 14,
            Vowel::We => 15,
            Vowel::Wi => 16,
            Vowel::Yu => 17,
            Vowel::Y => 18,
            Vowel::Yi => 19,
            Vowel::I => 20,
        }
    }

    pub fn offset(&self) -> (r: u32)
        ensures
            r == self.spec_offset(),
    {
        match *self {
            Vowel::A => 0,
            Vowel::Ae => 1,
            Vowel::Ya => 2,
            Vowel::Yae => 3,
            Vowel::Eo => 4,
            Vowel::E => 5,
            Vowel::Yeo => 6,
            Vowel::Ye => 7,
            Vowel::O => 8,
            Vowel::Wa => 9,
            Vowel::Wae => 10,
            Vowel::Oe => 11,
            Vowel::Yo => 12,
            Vowel::U => 13,
            Vowel::Weo => 14,
            Vowel::We => 15,
            Vowel::Wi => 16,
            Vowel::Yu => 17,
            Vowel::Y => 18,
            Vowel::Yi => 19,
            Vowel::I => 20,
        }
    }

    /// Code point of this vowel rendered as a standalone letter.
    pub open spec fn spec_letter_code(self) -> u32 {
        (VOWEL_START + self.spec_offset()) as u32
    }

    /// This vowel rendered as a standalone (non-block) letter.
    pub fn as_char(&self) -> (c: char)
        ensures
            c as u32 == self.spec_letter_code(),
    {
        proof {
            assert(self.spec_offset() <= 20);
        }
        let code: u32 = VOWEL_START + self.offset();
        char_from_code(code)
    }
}

/// The 28 values of the final slot: offset 0 is "no final", offsets 1..=27
/// are the simple and compound trailing consonants.
#[derive(Debug, Clone, Copy, PartialEq, Eq, Structural, Hash)]
pub enum Final {
    Empty,
    G,
    Gg,
    Gs,
    N,
    Nj,
    Nh,
    D,
    L,
    Lg,
    Lm,
    Lb,
    Ls,
    Lt,
    Lp,
    Lh,
    M,
    B,
    Bs,
    S,
    Ss,
    Ieung,
    J,
    Ch,
    K,
    T,
    P,
    H,
}

impl Final {
    /// Offset of this final in the final slot of a syllable block.
    pub open spec fn spec_offset(self) -> u32 {
        match self {
            Final::Empty => 0,
            Final::G => 1,
            Final::Gg => 2,
            Final::Gs => 3,
            Final::N => 4,
            Final::Nj => 5,
            Final::Nh => 6,
            Final::D => 7,
            Final::L => 8,
            Final::Lg => 9,
            Final::Lm => 10,
            Final::Lb => 11,
            Final::Ls => 12,
            Final::Lt => 13,
            Final::Lp => 14,
            Final::Lh => 15,
            Final::M => 16,
            Final::B => 17,
            Final::Bs => 18,
            Final::S => 19,
            Final::Ss => 20,
            Final::Ieung => 21,
            Final::J => 22,
            Final::Ch => 23,
            Final::K => 24,
            Final::T => 25,
            Final::P => 26,
            Final::H => 27,
        }
    }

    pub fn offset(&self) -> (r: u32)
        ensures
            r == self.spec_offset(),
    {
        match *self {
            Final::Empty => 0,
            Final::G => 1,
            Final::Gg => 2,
            Final::Gs => 3,
            Final::N => 4,
            Final::Nj => 5,
            Final::Nh => 6,
            Final::D => 7,
            Final::L => 8,
            Final::Lg => 9,
            Final::Lm => 10,
            Final::Lb => 11,
            Final::Ls => 12,
            Final::Lt => 13,
            Final::Lp => 14,
            Final::Lh => 15,
            Final::M => 16,
            Final::B => 17,
            Final::Bs => 18,
            Final::S => 19,
            Final::Ss => 20,
            Final::Ieung => 21,
            Final::J => 22,
            Final::Ch => 23,
            Final::K => 24,
            Final::T => 25,
            Final::P => 26,
            Final::H => 27,
        }
    }

    /// Offset of this final among the standalone consonant letters.
    pub open spec fn spec_char_offset(self) -> u32 {
        match self {
            Final::Empty => 0,
            Final::G => 1,
            Final::Gg => 2,
            Final::Gs => 3,
            Final::N => 4,
            Final::Nj => 5,
            Final::Nh => 6,
            Final::D => 7,
            Final::L => 9,
            Final::Lg => 10,
            Final::Lm => 11,
            Final::Lb => 12,
            Final::Ls => 13,
            Final::Lt => 14,
            Final::Lp => 15,
            Final::Lh => 16,
            Final::M => 17,
            Final::B => 18,
            Final::Bs => 20,
            Final::S => 21,
            Final::Ss => 22,
            Final::Ieung => 23,
            Final::J => 24,
            Final::Ch => 26,
            Final::K => 27,
            Final::T => 28,
            Final::P => 29,
            Final::H => 30,
        }
    }

    fn char_offset(&self) -> (r: u32)
        ensures
            r == self.spec_char_offset(),
    {
        match *self {
            Final::Empty => 0,
            Final::G => 1,
            Final::Gg => 2,
            Final::Gs => 3,
            Final::N => 4,
            Final::Nj => 5,
            Final::Nh => 6,
            Final::D => 7,
            Final::L => 9,
            Final::Lg => 10,
            Final::Lm => 11,
            Final::Lb => 12,
            Final::Ls => 13,
            Final::Lt => 14,
            Final::Lp => 15,
            Final::Lh => 16,
            Final::M => 17,
            Final::B => 18,
            Final::Bs => 20,
            Final::S => 21,
            Final::Ss => 22,
            Final::Ieung => 23,
            Final::J => 24,
            Final::Ch => 26,
            Final::K => 27,
            Final::T => 28,
            Final::P => 29,
            Final::H => 30,
        }
    }

    /// Code point of this final rendered as a standalone letter.
    pub open spec fn spec_letter_code(self) -> u32 {
        (CONSONANT_START + self.spec_char_offset()) as u32
    }

    /// This final rendered as a standalone (non-block) letter.
    pub fn as_char(&self) -> (c: char)
        ensures
            c as u32 == self.spec_letter_code(),
    {
        proof {
            assert(self.spec_char_offset() <= 30);
        }
        let code: u32 = CONSONANT_START + self.char_offset();
        char_from_code(code)
    }

    /// How a trailing consonant is split when a vowel follows it: the part
    /// kept as the final of the closing block, and the consonant promoted
    /// to the initial of the next block.  A compound final splits into its
    /// two components; a simple final is promoted whole.  `Empty` never
    /// reaches this table; it maps to itself with the zero consonant.
    pub open spec fn spec_split(self) -> (Final, Initial) {
        match self {
            Final::Empty => (Final::Empty, Initial::Ieung),
            Final::G => (Final::Empty, Initial::G),
            Final::Gg => (Final::Empty, Initial::Gg),
            Final::Gs => (Final::G, Initial::S),
            Final::N => (Final::Empty, Initial::N),
            Final::Nj => (Final::N, Initial::J),
            Final::Nh => (Final::N, Initial::H),
            Final::D => (Final::Empty, Initial::D),
            Final::L => (Final::Empty, Initial::R),
            Final::Lg => (Final::L, Initial::G),
            Final::Lm => (Final::L, Initial::M),
            Final::Lb => (Final::L, Initial::B),
            Final::Ls => (Final::L, Initial::S),
            Final::Lt => (Final::L, Initial::T),
            Final::Lp => (Final::L, Initial::P),
            Final::Lh => (Final::L, Initial::H),
            Final::M => (Final::Empty, Initial::M),
            Final::B => (Final::Empty, Initial::B),
            Final::Bs => (Final::B, Initial::S),
            Final::S => (Final::Empty, Initial::S),
            Final::Ss => (Final::Empty, Initial::Ss),
            Final::Ieung => (Final::Empty, Initial::Ieung),
            Final::J => (Final::Empty, Initial::J),
            Final::Ch => (Final::Empty, Initial::Ch),
            Final::K => (Final::Empty, Initial::K),
            Final::T => (Final::Empty, Initial::T),
            Final::P => (Final::Empty, Initial::P),
            Final::H => (Final::Empty, Initial::H),
        }
    }

    /// Split this final for resyllabification; see [`Final::spec_split`].
    pub fn split(&self) -> (r: (Final, Initial))
        ensures
            r == self.spec_split(),
    {
        match *self {
            Final::Empty => (Final::Empty, Initial::Ieung),
            Final::G => (Final::Empty, Initial::G),
            Final::Gg => (Final::Empty, Initial::Gg),
            Final::Gs => (Final::G, Initial::S),
            Final::N => (Final::Empty, Initial::N),
            Final::Nj => (Final::N, Initial::J),
            Final::Nh => (Final::N, Initial::H),
            Final::D => (Final::Empty, Initial::D),
            Final::L => (Final::Empty, Initial::R),
            Final::Lg => (Final::L, Initial::G),
            Final::Lm => (Final::L, Initial::M),
            Final::Lb => (Final::L, Initial::B),
            Final::Ls => (Final::L, Initial::S),
            Final::Lt => (Final::L, Initial::T),
            Final::Lp => (Final::L, Initial::P),
            Final::Lh => (Final::L, Initial::H),
            Final::M => (Final::Empty, Initial::M),
            Final::B => (Final::Empty, Initial::B),
            Final::Bs => (Final::B, Initial::S),
            Final::S => (Final::Empty, Initial::S),
            Final::Ss => (Final::Empty, Initial::Ss),
            Final::Ieung => (Final::Empty, Initial::Ieung),
            Final::J => (Final::Empty, Initial::J),
            Final::Ch => (Final::Empty, Initial::Ch),
            Final::K => (Final::Empty, Initial::K),
            Final::T => (Final::Empty, Initial::T),
            Final::P => (Final::Empty, Initial::P),
            Final::H => (Final::Empty, Initial::H),
        }
    }
}

/// Transient aggregate of the three slots of one syllable; synthesized to
/// a single character and immediately appended to output.
#[derive(Debug, Clone, Copy, PartialEq, Eq, Structural, Hash)]
pub struct Block {
    pub initial: Initial,
    pub vowel: Vowel,
    pub fin: Final,
}

impl Block {
    /// The code point this block synthesizes to:
    /// `BLOCK_START + initial * 588 + vowel * 28 + final`.
    pub open spec fn spec_code(self) -> u32 {
        (BLOCK_START + self.initial.spec_offset() * CHARS_PER_INITIAL
            + self.vowel.spec_offset() * CHARS_PER_VOWEL + self.fin.spec_offset()) as u32
    }

    pub fn from_parts(init: Initial, vowel: Vowel, fin: Final) -> (b: Block)
        ensures
            b == (Block { initial: init, vowel: vowel, fin: fin }),
    {
        Block { initial: init, vowel: vowel, fin: fin }
    }

    /// Synthesize the composed syllable character.  For every combination
    /// of the three enums the code point lies in the assigned Hangul
    /// syllable range, so this is total.
    pub fn combine(&self) -> (c: char)
        ensures
            c as u32 == self.spec_code(),
            BLOCK_START <= c as u32,
            (c as u32) < BLOCK_START + 11172,
    {
        proof {
            assert(self.initial.spec_offset() <= 18);
            assert(self.vowel.spec_offset() <= 20);
            assert(self.fin.spec_offset() <= 27);
        }
        let mut code: u32 = BLOCK_START;
        code += self.initial.offset() * CHARS_PER_INITIAL;
        code += self.vowel.offset() * CHARS_PER_VOWEL;
        code += self.fin.offset();
        char_from_code(code)
    }
}

/// Shorthand for the character of the block assembled from the given slots.
pub open spec fn spec_block_code(ini: Initial, vow: Vowel, fin: Final) -> u32 {
    (Block { initial: ini, vowel: vow, fin: fin }).spec_code()
}

/// The initial consonant with the given block-synthesis offset; inverse of
/// [`Initial::spec_offset`] on 0..=18.
pub open spec fn initial_from_offset(u: u32) -> Initial {
    if u == 0 {
        Initial::G
    } else if u == 1 {
        Initial::Gg
    } else if u == 2 {
        Initial::N
    } else if u == 3 {
        Initial::D
    } else if u == 4 {
        Initial::Dd
    } else if u == 5 {
        Initial::R
    } else if u == 6 {
        Initial::M
    } else if u == 7 {
        Initial::B
    } else if u == 8 {
        Initial::Bb
    } else if u == 9 {
        Initial::S
    } else if u == 10 {
        Initial::Ss
    } else if u == 11 {
        Initial::Ieung
    } else if u == 12 {
        Initial::J
    } else if u == 13 {
        Initial::Jj
    } else if u == 14 {
        Initial::Ch
    } else if u == 15 {
        Initial::K
    } else if u == 16 {
        Initial::T
    } else if u == 17 {
        Initial::P
    } else {
        Initial::H
    }
}

/// The vowel with the given offset; inverse of [`Vowel::spec_offset`] on
/// 0..=20.
pub open spec fn vowel_from_offset(u: u32) -> Vowel {
    if u == 0 {
        Vowel::A
    } else if u == 1 {
        Vowel::Ae
    } else if u == 2 {
        Vowel::Ya
    } else if u == 3 {
        Vowel::Yae
    } else if u == 4 {
        Vowel::Eo
    } else if u == 5 {
        Vowel::E
    } else if u == 6 {
        Vowel::Yeo
    } else if u == 7 {
        Vowel::Ye
    } else if u == 8 {
        Vowel::O
    } else if u == 9 {
        Vowel::Wa
    } else if u == 10 {
        Vowel::Wae
    } else if u == 11 {
        Vowel::Oe
    } else if u == 12 {
        Vowel::Yo
    } else if u == 13 {
        Vowel::U
    } else if u == 14 {
        Vowel::Weo
    } else if u == 15 {
        Vowel::We
    } else if u == 16 {
        Vowel::Wi
    } else if u == 17 {
        Vowel::Yu
    } else if u == 18 {
        Vowel::Y
    } else if u == 19 {
        Vowel::Yi
    } else {
        Vowel::I
    }
}

/// Round trip through the block algebra: the scalar synthesized from any
/// (initial, vowel) pair with no final decodes back to the same pair, and
/// its final slot decodes to zero.
pub proof fn lemma_block_roundtrip(ini: Initial, vow: Vowel)
    ensures
        ({
            let code = spec_block_code(ini, vow, Final::Empty);
            &&& initial_from_offset((((code - BLOCK_START) / 588) as u32)) == ini
            &&& vowel_from_offset(((((code - BLOCK_START) % 588) / 28) as u32)) == vow
            &&& (code - BLOCK_START) % 28 == 0
        }),
{
    let a = ini.spec_offset() as int;
    let b = vow.spec_offset() as int;
    let code = spec_block_code(ini, vow, Final::Empty);
    assert(0 <= a <= 18);
    assert(0 <= b <= 20);
    assert(code - BLOCK_START == a * 588 + b * 28);
    assert((a * 588 + b * 28) / 588 == a) by (nonlinear_arith)
        requires
            0 <= a <= 18,
            0 <= b <= 20,
    ;
    assert((a * 588 + b * 28) % 588 == b * 28) by (nonlinear_arith)
        requires
            0 <= a <= 18,
            0 <= b <= 20,
    ;
    assert((b * 28) / 28 == b) by (nonlinear_arith)
        requires
            0 <= b <= 20,
    ;
    assert((a * 588 + b * 28) % 28 == 0) by (nonlinear_arith)
        requires
            0 <= a <= 18,
            0 <= b <= 20,
    ;
}

} // verus!
