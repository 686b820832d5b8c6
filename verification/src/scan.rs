//! Lexical scanners: greedy, longest-match recognizers that consume a
//! prefix of the remaining input and yield a symbol together with the
//! number of characters consumed.

use vstd::prelude::*;
use vstd::string::StrSliceExecFns;

use crate::hangeul::Final;
use crate::hangeul::Initial;
use crate::hangeul::Vowel;

verus! {

/// The suffix of `s` starting at character index `i`.
pub open spec fn rest(s: Seq<char>, i: int) -> Seq<char> {
    s.subrange(i, s.len() as int)
}

/// Collect the characters of a string slice into a vector.
pub(crate) fn str_chars(text: &str) -> (v: Vec<char>)
    ensures
        v@ == text@,
{
    let n = text.unicode_len();
    let mut v: Vec<char> = Vec::new();
    let mut i: usize = 0;
    while i < n
        invariant
            n == text@.len(),
            i <= n,
            v@ == text@.subrange(0, i as int),
        decreases n - i,
    {
        let c = text.get_char(i);
        v.push(c);
        i += 1;
        proof {
            assert(v@ =~= text@.subrange(0, i as int));
        }
    }
    proof {
        assert(text@.subrange(0, n as int) =~= text@);
    }
    v
}

/// The initial-consonant token at the start of `s`, with the number of
/// characters it spans.  Every token is one ASCII letter except the
/// aspirated affricate `ch`; a `c` without a following `h` matches
/// nothing.  `r` and `l` both denote the liquid consonant; case picks the
/// tensed variants.
pub open spec fn spec_read_initial(s: Seq<char>) -> Option<(Initial, int)> {
    if s.len() == 0 {
        None
    } else if s[0] == 'g' {
        Some((Initial::G, 1))
    } else if s[0] == 'G' {
        Some((Initial::Gg, 1))
    } else if s[0] == 'n' {
        Some((Initial::N, 1))
    } else if s[0] == 'd' {
        Some((Initial::D, 1))
    } else if s[0] == 'D' {
        Some((Initial::Dd, 1))
    } else if s[0] == 'r' {
        Some((Initial::R, 1))
    } else if s[0] == 'l' {
        Some((Initial::R, 1))
    } else if s[0] == 'm' {
        Some((Initial::M, 1))
    } else if s[0] == 'b' {
        Some((Initial::B, 1))
    } else if s[0] == 'B' {
        Some((Initial::Bb, 1))
    } else if s[0] == 's' {
        Some((Initial::S, 1))
    } else if s[0] == 'S' {
        Some((Initial::Ss, 1))
    } else if s[0] == 'x' {
        Some((Initial::Ieung, 1))
    } else if s[0] == 'j' {
        Some((Initial::J, 1))
    } else if s[0] == 'J' {
        Some((Initial::Jj, 1))
    } else if s[0] == 'c' {
        if s.len() >= 2 && s[1] == 'h' {
            Some((Initial::Ch, 2))
        } else {
            None
        }
    } else if s[0] == 'k' {
        Some((Initial::K, 1))
    } else if s[0] == 't' {
        Some((Initial::T, 1))
    } else if s[0] == 'p' {
        Some((Initial::P, 1))
    } else if s[0] == 'h' {
        Some((Initial::H, 1))
    } else {
        None
    }
}

/// The vowel token at the start of `s`, with the number of characters it
/// spans.  Greedy over up to 3 letters: a longer valid token always wins
/// over a shorter one starting at the same position.
pub open spec fn spec_read_vowel(s: Seq<char>) -> Option<(Vowel, int)> {
    if s.len() == 0 {
        None
    } else if s[0] == 'i' {
        Some((Vowel::I, 1))
    } else if s[0] == 'a' {
        if s.len() >= 2 && s[1] == 'e' {
            Some((Vowel::Ae, 2))
        } else {
            Some((Vowel::A, 1))
        }
    } else if s[0] == 'e' {
        if s.len() >= 2 && s[1] == 'o' {
            Some((Vowel::Eo, 2))
        } else {
            Some((Vowel::E, 1))
        }
    } else if s[0] == 'o' {
        if s.len() >= 2 && s[1] == 'e' {
            Some((Vowel::Oe, 2))
        } else {
            Some((Vowel::O, 1))
        }
    } else if s[0] == 'u' {
        Some((Vowel::U, 1))
    } else if s[0] == 'y' {
        if s.len() >= 2 && s[1] == 'a' {
            if s.len() >= 3 && s[2] == 'e' {
                Some((Vowel::Yae, 3))
            } else {
                Some((Vowel::Ya, 2))
            }
        } else if s.len() >= 2 && s[1] == 'e' {
            if s.len() >= 3 && s[2] == 'o' {
                Some((Vowel::Yeo, 3))
            } else {
                Some((Vowel::Ye, 2))
            }
        } else if s.len() >= 2 && s[1] == 'o' {
            Some((Vowel::Yo, 2))
        } else if s.len() >= 2 && s[1] == 'u' {
            Some((Vowel::Yu, 2))
        } else if s.len() >= 2 && s[1] == 'i' {
            Some((Vowel::Yi, 2))
        } else {
            Some((Vowel::Y, 1))
        }
    } else if s[0] == 'w' {
        if s.len() >= 2 && s[1] == 'a' {
            if s.len() >= 3 && s[2] == 'e' {
                Some((Vowel::Wae, 3))
            } else {
                Some((Vowel::Wa, 2))
            }
        } else if s.len() >= 2 && s[1] == 'e' {
            if s.len() >= 3 && s[2] == 'o' {
                Some((Vowel::Weo, 3))
            } else {
                Some((Vowel::We, 2))
            }
        } else if s.len() >= 2 && s[1] == 'i' {
            Some((Vowel::Wi, 2))
        } else {
            None
        }
    } else {
        None
    }
}

/// The final-consonant token at the start of `s`.  It begins with an
/// initial-consonant token; the tensed stops and the tensed affricate can
/// never close a syllable, so they fail here even though the initial
/// scanner accepts them.  A consonant that can begin a compound final
/// consumes one more fixed letter where that forms a known compound.
pub open spec fn spec_read_final(s: Seq<char>) -> Option<(Final, int)> {
    match spec_read_initial(s) {
        None => None,
        Some((ini, n)) => match ini {
            Initial::G => if n < s.len() && s[n] == 's' {
                Some((Final::Gs, n + 1))
            } else {
                Some((Final::G, n))
            },
            Initial::Gg => Some((Final::Gg, n)),
            Initial::N => if n < s.len() && s[n] == 'j' {
                Some((Final::Nj, n + 1))
            } else if n < s.len() && s[n] == 'h' {
                Some((Final::Nh, n + 1))
            } else {
                Some((Final::N, n))
            },
            Initial::D => Some((Final::D, n)),
            Initial::Dd => None,
            Initial::R => if n < s.len() && s[n] == 'g' {
                Some((Final::Lg, n + 1))
            } else if n < s.len() && s[n] == 'm' {
                Some((Final::Lm, n + 1))
            } else if n < s.len() && s[n] == 'b' {
                Some((Final::Lb, n + 1))
            } else if n < s.len() && s[n] == 's' {
                Some((Final::Ls, n + 1))
            } else if n < s.len() && s[n] == 't' {
                Some((Final::Lt, n + 1))
            } else if n < s.len() && s[n] == 'p' {
                Some((Final::Lp, n + 1))
            } else if n < s.len() && s[n] == 'h' {
                Some((Final::Lh, n + 1))
            } else {
                Some((Final::L, n))
            },
            Initial::M => Some((Final::M, n)),
            Initial::B => if n < s.len() && s[n] == 's' {
                Some((Final::Bs, n + 1))
            } else {
                Some((Final::B, n))
            },
            Initial::Bb => None,
            Initial::S => Some((Final::S, n)),
            Initial::Ss => Some((Final::Ss, n)),
            Initial::Ieung => Some((Final::Ieung, n)),
            Initial::J => Some((Final::J, n)),
            Initial::Jj => None,
            Initial::Ch => Some((Final::Ch, n)),
            Initial::K => Some((Final::K, n)),
            Initial::T => Some((Final::T, n)),
            Initial::P => Some((Final::P, n)),
            Initial::H => Some((Final::H, n)),
        },
    }
}

/// A successful scan consumes at least one character and no more than the
/// input holds.
pub proof fn lemma_read_initial_len(s: Seq<char>)
    ensures
        spec_read_initial(s) matches Some((ini, n)) ==> 1 <= n <= s.len(),
{
}

/// A successful vowel scan consumes between one and three characters.
pub proof fn lemma_read_vowel_len(s: Seq<char>)
    ensures
        spec_read_vowel(s) matches Some((v, n)) ==> 1 <= n <= s.len() && n <= 3,
{
}

/// A successful final scan consumes at least one character and no more
/// than the input holds.
pub proof fn lemma_read_final_len(s: Seq<char>)
    ensures
        spec_read_final(s) matches Some((f, n)) ==> 1 <= n <= s.len(),
{
    lemma_read_initial_len(s);
}

/// The initial-consonant token at index `i` of `v`.
pub(crate) fn scan_initial(v: &Vec<char>, i: usize) -> (r: Option<(Initial, usize)>)
    requires
        i <= v@.len(),
    ensures
        ({
            let s = rest(v@, i as int);
            match r {
                Some((ini, n)) => spec_read_initial(s) == Some((ini, n as int)),
                None => spec_read_initial(s) is None,
            }
        }),
{
    if i >= v.len() {
        return None;
    }
    let c = v[i];
    match c {
        'g' => Some((Initial::G, 1)),
        'G' => Some((Initial::Gg, 1)),
        'n' => Some((Initial::N, 1)),
        'd' => Some((Initial::D, 1)),
        'D' => Some((Initial::Dd, 1)),
        'r' => Some((Initial::R, 1)),
        'l' => Some((Initial::R, 1)),
        'm' => Some((Initial::M, 1)),
        'b' => Some((Initial::B, 1)),
        'B' => Some((Initial::Bb, 1)),
        's' => Some((Initial::S, 1)),
        'S' => Some((Initial::Ss, 1)),
        'x' => Some((Initial::Ieung, 1)),
        'j' => Some((Initial::J, 1)),
        'J' => Some((Initial::Jj, 1)),
        'c' => {
            if i + 1 < v.len() && v[i + 1] == 'h' {
                Some((Initial::Ch, 2))
            } else {
                None
            }
        },
        'k' => Some((Initial::K, 1)),
        't' => Some((Initial::T, 1)),
        'p' => Some((Initial::P, 1)),
        'h' => Some((Initial::H, 1)),
        _ => None,
    }
}

/// The vowel token at index `i` of `v`.
pub(crate) fn scan_vowel(v: &Vec<char>, i: usize) -> (r: Option<(Vowel, usize)>)
    requires
        i <= v@.len(),
    ensures
        ({
            let s = rest(v@, i as int);
            match r {
                Some((vow, n)) => spec_read_vowel(s) == Some((vow, n as int)),
                None => spec_read_vowel(s) is None,
            }
        }),
{
    let len = v.len();
    if i >= len {
        return None;
    }
    let c = v[i];
    match c {
        'i' => Some((Vowel::I, 1)),
        'a' => {
            if i + 1 < len && v[i + 1] == 'e' {
                Some((Vowel::Ae, 2))
            } else {
                Some((Vowel::A, 1))
            }
        },
        'e' => {
            if i + 1 < len && v[i + 1] == 'o' {
                Some((Vowel::Eo, 2))
            } else {
                Some((Vowel::E, 1))
            }
        },
        'o' => {
            if i + 1 < len && v[i + 1] == 'e' {
                Some((Vowel::Oe, 2))
            } else {
                Some((Vowel::O, 1))
            }
        },
        'u' => Some((Vowel::U, 1)),
        'y' => {
            if i + 1 < len && v[i + 1] == 'a' {
                if i + 2 < len && v[i + 2] == 'e' {
                    Some((Vowel::Yae, 3))
                } else {
                    Some((Vowel::Ya, 2))
                }
            } else if i + 1 < len && v[i + 1] == 'e' {
                if i + 2 < len && v[i + 2] == 'o' {
                    Some((Vowel::Yeo, 3))
                } else {
                    Some((Vowel::Ye, 2))
                }
            } else if i + 1 < len && v[i + 1] == 'o' {
                Some((Vowel::Yo, 2))
            } else if i + 1 < len && v[i + 1] == 'u' {
                Some((Vowel::Yu, 2))
            } else if i + 1 < len && v[i + 1] == 'i' {
                Some((Vowel::Yi, 2))
            } else {
                Some((Vowel::Y, 1))
            }
        },
        'w' => {
            if i + 1 < len && v[i + 1] == 'a' {
                if i + 2 < len && v[i + 2] == 'e' {
                    Some((Vowel::Wae, 3))
                } else {
                    Some((Vowel::Wa, 2))
                }
            } else if i + 1 < len && v[i + 1] == 'e' {
                if i + 2 < len && v[i + 2] == 'o' {
                    Some((Vowel::Weo, 3))
                } else {
                    Some((Vowel::We, 2))
                }
            } else if i + 1 < len && v[i + 1] == 'i' {
                Some((Vowel::Wi, 2))
            } else {
                None
            }
        },
        _ => None,
    }
}

/// The final-consonant token at index `i` of `v`.
pub(crate) fn scan_final(v: &Vec<char>, i: usize) -> (r: Option<(Final, usize)>)
    requires
        i <= v@.len(),
    ensures
        ({
            let s = rest(v@, i as int);
            match r {
                Some((fin, n)) => spec_read_final(s) == Some((fin, n as int)),
                None => spec_read_final(s) is None,
            }
        }),
{
    let n = v.len();
    let (first, flen) = match scan_initial(v, i) {
        Some(p) => p,
        None => {
            return None;
        },
    };
    proof {
        lemma_read_initial_len(rest(v@, i as int));
        assert(i + flen <= n);
    }
    let j = i + flen;
    let next: Option<char> = if j < v.len() {
        Some(v[j])
    } else {
        None
    };
    let r: Option<(Final, usize)> = match (first, next) {
        (Initial::G, Some('s')) => Some((Final::Gs, flen + 1)),
        (Initial::G, _) => Some((Final::G, flen)),
        (Initial::Gg, _) => Some((Final::Gg, flen)),
        (Initial::N, Some('j')) => Some((Final::Nj, flen + 1)),
        (Initial::N, Some('h')) => Some((Final::Nh, flen + 1)),
        (Initial::N, _) => Some((Final::N, flen)),
        (Initial::D, _) => Some((Final::D, flen)),
        (Initial::Dd, _) => None,
        (Initial::R, Some('g')) => Some((Final::Lg, flen + 1)),
        (Initial::R, Some('m')) => Some((Final::Lm, flen + 1)),
        (Initial::R, Some('b')) => Some((Final::Lb, flen + 1)),
        (Initial::R, Some('s')) => Some((Final::Ls, flen + 1)),
        (Initial::R, Some('t')) => Some((Final::Lt, flen + 1)),
        (Initial::R, Some('p')) => Some((Final::Lp, flen + 1)),
        (Initial::R, Some('h')) => Some((Final::Lh, flen + 1)),
        (Initial::R, _) => Some((Final::L, flen)),
        (Initial::M, _) => Some((Final::M, flen)),
        (Initial::B, Some('s')) => Some((Final::Bs, flen + 1)),
        (Initial::B, _) => Some((Final::B, flen)),
        (Initial::Bb, _) => None,
        (Initial::S, _) => Some((Final::S, flen)),
        (Initial::Ss, _) => Some((Final::Ss, flen)),
        (Initial::Ieung, _) => Some((Final::Ieung, flen)),
        (Initial::J, _) => Some((Final::J, flen)),
        (Initial::Jj, _) => None,
        (Initial::Ch, _) => Some((Final::Ch, flen)),
        (Initial::K, _) => Some((Final::K, flen)),
        (Initial::T, _) => Some((Final::T, flen)),
        (Initial::P, _) => Some((Final::P, flen)),
        (Initial::H, _) => Some((Final::H, flen)),
    };
    r
}

/// Reads a vowel from the start of the given romaja text, together with
/// the number of characters read.
pub fn read_vowel(text: &str) -> (r: Option<(Vowel, usize)>)
    ensures
        ({
            match r {
                Some((vow, n)) => spec_read_vowel(text@) == Some((vow, n as int)),
                None => spec_read_vowel(text@) is None,
            }
        }),
{
    let v = str_chars(text);
    proof {
        assert(rest(v@, 0) =~= text@);
    }
    scan_vowel(&v, 0)
}

/// Reads an initial consonant from the start of the given romaja text,
/// together with the number of characters read.
pub fn read_initial(text: &str) -> (r: Option<(Initial, usize)>)
    ensures
        ({
            match r {
                Some((ini, n)) => spec_read_initial(text@) == Some((ini, n as int)),
                None => spec_read_initial(text@) is None,
            }
        }),
{
    let v = str_chars(text);
    proof {
        assert(rest(v@, 0) =~= text@);
    }
    scan_initial(&v, 0)
}

/// Reads a final consonant combination from the start of the given romaja
/// text, together with the number of characters read.
pub fn read_final(text: &str) -> (r: Option<(Final, usize)>)
    ensures
        ({
            match r {
                Some((fin, n)) => spec_read_final(text@) == Some((fin, n as int)),
                None => spec_read_final(text@) is None,
            }
        }),
{
    let v = str_chars(text);
    proof {
        assert(rest(v@, 0) =~= text@);
    }
    scan_final(&v, 0)
}

/// The romaja spelling of each vowel.
pub open spec fn vowel_token(v: Vowel) -> Seq<char> {
    match v {
        Vowel::A => seq!['a'],
        Vowel::Ae => seq!['a', 'e'],
        Vowel::Ya => seq!['y', 'a'],
        Vowel::Yae => seq!['y', 'a', 'e'],
        Vowel::Eo => seq!['e', 'o'],
        Vowel::E => seq!['e'],
        Vowel::Yeo => seq!['y', 'e', 'o'],
        Vowel::Ye => seq!['y', 'e'],
        Vowel::O => seq!['o'],
        Vowel::Wa => seq!['w', 'a'],
        Vowel::Wae => seq!['w', 'a', 'e'],
        Vowel::Oe => seq!['o', 'e'],
        Vowel::Yo => seq!['y', 'o'],
        Vowel::U => seq!['u'],
        Vowel::Weo => seq!['w', 'e', 'o'],
        Vowel::We => seq!['w', 'e'],
        Vowel::Wi => seq!['w', 'i'],
        Vowel::Yu => seq!['y', 'u'],
        Vowel::Y => seq!['y'],
        Vowel::Yi => seq!['y', 'i'],
        Vowel::I => seq!['i'],
    }
}

/// Soundness of the vowel scanner: what it returns is a vowel of the
/// alphabet whose spelling stands at the start of the input, and the
/// consumed length is that spelling's length.
pub proof fn lemma_vowel_token_sound(s: Seq<char>)
    ensures
        spec_read_vowel(s) matches Some((v, n)) ==> {
            &&& vowel_token(v).len() == n
            &&& forall|k: int| 0 <= k < n ==> s[k] == vowel_token(v)[k]
        },
{
    if s.len() > 0 {
        match spec_read_vowel(s) {
            Some((v, n)) => {
                let t = vowel_token(v);
                assert forall|k: int| 0 <= k < n implies s[k] == t[k] by {
                    assert(t[0] == s[0]);
                    if k == 1 {
                        assert(t[1] == s[1]);
                    }
                    if k == 2 {
                        assert(t[2] == s[2]);
                    }
                }
            },
            None => {},
        }
    }
}

/// Longest-match invariant of the vowel scanner: whenever the spelling of
/// any vowel token stands at the start of the input, the scanner commits
/// to a token at least that long — it never stops at a strict prefix of a
/// valid token whose full sequence is present.
pub proof fn lemma_vowel_longest_match(s: Seq<char>, w: Vowel)
    requires
        vowel_token(w).len() <= s.len(),
        forall|k: int| 0 <= k < vowel_token(w).len() ==> s[k] == vowel_token(w)[k],
    ensures
        spec_read_vowel(s) is Some,
        spec_read_vowel(s)->Some_0.1 >= vowel_token(w).len(),
{
    let t = vowel_token(w);
    assert(s[0] == t[0]);
    if t.len() >= 2 {
        assert(s[1] == t[1]);
    }
    if t.len() >= 3 {
        assert(s[2] == t[2]);
    }
}

} // verus!
