//! Validating conversion: the same assembler as the lossy engine, but any
//! character that no scanner accepts, and any consonant that never
//! receives its vowel, aborts the conversion with an error carrying the
//! exact character offset of the failure.  A boundary-aware entry point
//! splits the input at caller-chosen break characters, converts each run
//! independently, and re-offsets error positions to the original string.

use vstd::prelude::*;

use crate::engine::block_char;
use crate::engine::chars_to_string;
use crate::engine::extract;
use crate::hangeul::Final;
use crate::hangeul::Initial;
use crate::hangeul::Vowel;
use crate::hangeul::Block;
use crate::scan::lemma_read_final_len;
use crate::scan::lemma_read_initial_len;
use crate::scan::lemma_read_vowel_len;
use crate::scan::rest;
use crate::scan::scan_final;
use crate::scan::scan_initial;
use crate::scan::scan_vowel;
use crate::scan::spec_read_final;
use crate::scan::spec_read_initial;
use crate::scan::spec_read_vowel;
use crate::scan::str_chars;

verus! {

broadcast use vstd::utf8::char_u32_cast;

/// Mathematical model of a conversion error, with the position as an
/// unbounded integer.
pub enum SpecDeroError {
    InvalidConsonant { letter: char, position: int },
    InvalidVowel { letter: char, position: int },
    InvalidLetter { letter: char, position: int },
    MissingFinalVowel { position: int },
}

impl SpecDeroError {
    /// The character offset at which the error was raised.
    pub open spec fn position(self) -> int {
        match self {
            SpecDeroError::InvalidConsonant { position, .. } => position,
            SpecDeroError::InvalidVowel { position, .. } => position,
            SpecDeroError::InvalidLetter { position, .. } => position,
            SpecDeroError::MissingFinalVowel { position } => position,
        }
    }

    /// The same error with its position moved right by `k`.
    pub open spec fn shift(self, k: int) -> SpecDeroError {
        match self {
            SpecDeroError::InvalidConsonant { letter, position } => SpecDeroError::InvalidConsonant {
                letter,
                position: position + k,
            },
            SpecDeroError::InvalidVowel { letter, position } => SpecDeroError::InvalidVowel {
                letter,
                position: position + k,
            },
            SpecDeroError::InvalidLetter { letter, position } => SpecDeroError::InvalidLetter {
                letter,
                position: position + k,
            },
            SpecDeroError::MissingFinalVowel { position } => SpecDeroError::MissingFinalVowel {
                position: position + k,
            },
        }
    }
}

/// A failed validating conversion: the kind of failure and the character
/// offset (not byte offset) in the input at which it occurred.  The
/// entry points here report `InvalidLetter` (no token fits at the
/// position) and `MissingFinalVowel` (a consonant was read but no vowel
/// ever followed it); `InvalidConsonant` and `InvalidVowel` name the
/// failures of the individual scanners.
#[derive(Debug, Copy, Clone, PartialEq, Eq, Structural)]
pub enum DeromanizeError {
    InvalidConsonant { letter: char, position: usize },
    InvalidVowel { letter: char, position: usize },
    InvalidLetter { letter: char, position: usize },
    MissingFinalVowel { position: usize },
}

impl View for DeromanizeError {
    type V = SpecDeroError;

    open spec fn view(&self) -> SpecDeroError {
        match *self {
            DeromanizeError::InvalidConsonant { letter, position } => SpecDeroError::InvalidConsonant {
                letter,
                position: position as int,
            },
            DeromanizeError::InvalidVowel { letter, position } => SpecDeroError::InvalidVowel {
                letter,
                position: position as int,
            },
            DeromanizeError::InvalidLetter { letter, position } => SpecDeroError::InvalidLetter {
                letter,
                position: position as int,
            },
            DeromanizeError::MissingFinalVowel { position } => SpecDeroError::MissingFinalVowel {
                position: position as int,
            },
        }
    }
}

impl DeromanizeError {
    /// The character offset at which the error was raised.
    pub fn position(self) -> (r: usize)
        ensures
            r as int == self@.position(),
    {
        match self {
            DeromanizeError::InvalidConsonant { position, .. } => position,
            DeromanizeError::InvalidVowel { position, .. } => position,
            DeromanizeError::InvalidLetter { position, .. } => position,
            DeromanizeError::MissingFinalVowel { position } => position,
        }
    }

    /// The same error re-offset into the coordinates of an enclosing
    /// string, for callers that validated an inner segment.
    pub fn offset(self, offset: usize) -> (r: DeromanizeError)
        requires
            self@.position() + offset <= usize::MAX,
        ensures
            r@ == self@.shift(offset as int),
    {
        match self {
            DeromanizeError::InvalidConsonant { position, letter } => DeromanizeError::InvalidConsonant {
                position: position + offset,
                letter,
            },
            DeromanizeError::InvalidVowel { position, letter } => DeromanizeError::InvalidVowel {
                position: position + offset,
                letter,
            },
            DeromanizeError::InvalidLetter { position, letter } => DeromanizeError::InvalidLetter {
                position: position + offset,
                letter,
            },
            DeromanizeError::MissingFinalVowel { position } => DeromanizeError::MissingFinalVowel {
                position: position + offset,
            },
        }
    }
}

/// The states of the validating assembler; `AfterInitial` remembers where
/// its consonant token began, so that a missing vowel is reported at the
/// consonant's own position.
pub enum StrictState {
    Empty,
    AfterInitial(Initial, int),
    AfterVowel(Initial, Vowel),
    AfterFinal(Initial, Vowel, Final),
}

/// Measure used for termination: the one transition that consumes no
/// input steps from `AfterFinal` back to `Empty`.
pub open spec fn strict_rank(st: StrictState) -> int {
    match st {
        StrictState::Empty => 0,
        _ => 1,
    }
}

/// Prefix one emitted character onto the output of a successful run.
pub open spec fn prepend(x: char, r: Result<Seq<char>, SpecDeroError>) -> Result<
    Seq<char>,
    SpecDeroError,
> {
    match r {
        Ok(o) => Ok(seq![x] + o),
        Err(e) => Err(e),
    }
}

/// What the validating assembler produces from state `st` at offset `i`
/// of the input `s`.
pub open spec fn spec_validate_run(st: StrictState, s: Seq<char>, i: int) -> Result<
    Seq<char>,
    SpecDeroError,
>
    decreases s.len() - i, strict_rank(st),
    when 0 <= i <= s.len()
{
    match st {
        StrictState::Empty => {
            if i == s.len() {
                Ok(Seq::empty())
            } else {
                match spec_read_initial(rest(s, i)) {
                    Some((ini, n)) => spec_validate_run(StrictState::AfterInitial(ini, i), s, i + n),
                    None => match spec_read_vowel(rest(s, i)) {
                        Some((vow, n)) => spec_validate_run(
                            StrictState::AfterVowel(Initial::Ieung, vow),
                            s,
                            i + n,
                        ),
                        None => Err(SpecDeroError::InvalidLetter { letter: s[i], position: i }),
                    },
                }
            }
        },
        StrictState::AfterInitial(ini, p) => {
            match spec_read_vowel(rest(s, i)) {
                Some((vow, n)) => spec_validate_run(StrictState::AfterVowel(ini, vow), s, i + n),
                None => Err(SpecDeroError::MissingFinalVowel { position: p }),
            }
        },
        StrictState::AfterVowel(ini, vow) => {
            if i == s.len() {
                Ok(seq![block_char(ini, vow, Final::Empty)])
            } else {
                match spec_read_final(rest(s, i)) {
                    Some((fin, n)) => spec_validate_run(
                        StrictState::AfterFinal(ini, vow, fin),
                        s,
                        i + n,
                    ),
                    None => match spec_read_vowel(rest(s, i)) {
                        Some((nvow, n)) => prepend(
                            block_char(ini, vow, Final::Empty),
                            spec_validate_run(
                                StrictState::AfterVowel(Initial::Ieung, nvow),
                                s,
                                i + n,
                            ),
                        ),
                        None => match spec_read_initial(rest(s, i)) {
                            Some((nini, n)) => prepend(
                                block_char(ini, vow, Final::Empty),
                                spec_validate_run(StrictState::AfterInitial(nini, i), s, i + n),
                            ),
                            None => Err(
                                SpecDeroError::InvalidLetter { letter: s[i], position: i },
                            ),
                        },
                    },
                }
            }
        },
        StrictState::AfterFinal(ini, vow, fin) => {
            match spec_read_vowel(rest(s, i)) {
                Some((nvow, n)) => {
                    let (kept, promoted) = fin.spec_split();
                    prepend(
                        block_char(ini, vow, kept),
                        spec_validate_run(StrictState::AfterVowel(promoted, nvow), s, i + n),
                    )
                },
                None => prepend(
                    block_char(ini, vow, fin),
                    spec_validate_run(StrictState::Empty, s, i),
                ),
            }
        },
    }
}

/// The validating conversion of a whole input.
pub open spec fn spec_validated(s: Seq<char>) -> Result<Seq<char>, SpecDeroError> {
    spec_validate_run(StrictState::Empty, s, 0)
}

/// Every error of the validating run points at a character of the input:
/// its position is a character offset in `0 .. s.len()`.
proof fn lemma_validate_run_err_pos(st: StrictState, s: Seq<char>, i: int)
    requires
        0 <= i <= s.len(),
        st matches StrictState::AfterInitial(ini, p) ==> 0 <= p < i,
    ensures
        spec_validate_run(st, s, i) matches Err(e) ==> 0 <= e.position() < s.len(),
        spec_validate_run(st, s, i) matches Err(SpecDeroError::InvalidLetter {
            letter,
            position,
        }) ==> s[position] == letter,
    decreases s.len() - i, strict_rank(st),
{
    match st {
        StrictState::Empty => {
            if i == s.len() {
            } else {
                match spec_read_initial(rest(s, i)) {
                    Some((ini, n)) => {
                        lemma_read_initial_len(rest(s, i));
                        lemma_validate_run_err_pos(StrictState::AfterInitial(ini, i), s, i + n);
                    },
                    None => match spec_read_vowel(rest(s, i)) {
                        Some((vow, n)) => {
                            lemma_read_vowel_len(rest(s, i));
                            lemma_validate_run_err_pos(
                                StrictState::AfterVowel(Initial::Ieung, vow),
                                s,
                                i + n,
                            );
                        },
                        None => {},
                    },
                }
            }
        },
        StrictState::AfterInitial(ini, p) => {
            match spec_read_vowel(rest(s, i)) {
                Some((vow, n)) => {
                    lemma_read_vowel_len(rest(s, i));
                    lemma_validate_run_err_pos(StrictState::AfterVowel(ini, vow), s, i + n);
                },
                None => {},
            }
        },
        StrictState::AfterVowel(ini, vow) => {
            if i == s.len() {
            } else {
                match spec_read_final(rest(s, i)) {
                    Some((fin, n)) => {
                        lemma_read_final_len(rest(s, i));
                        lemma_validate_run_err_pos(StrictState::AfterFinal(ini, vow, fin), s, i + n);
                    },
                    None => match spec_read_vowel(rest(s, i)) {
                        Some((nvow, n)) => {
                            lemma_read_vowel_len(rest(s, i));
                            lemma_validate_run_err_pos(
                                StrictState::AfterVowel(Initial::Ieung, nvow),
                                s,
                                i + n,
                            );
                        },
                        None => match spec_read_initial(rest(s, i)) {
                            Some((nini, n)) => {
                                lemma_read_initial_len(rest(s, i));
                                lemma_validate_run_err_pos(
                                    StrictState::AfterInitial(nini, i),
                                    s,
                                    i + n,
                                );
                            },
                            None => {},
                        },
                    },
                }
            }
        },
        StrictState::AfterFinal(ini, vow, fin) => {
            match spec_read_vowel(rest(s, i)) {
                Some((nvow, n)) => {
                    lemma_read_vowel_len(rest(s, i));
                    let (kept, promoted) = fin.spec_split();
                    lemma_validate_run_err_pos(StrictState::AfterVowel(promoted, nvow), s, i + n);
                },
                None => {
                    lemma_validate_run_err_pos(StrictState::Empty, s, i);
                },
            }
        },
    }
}

/// Error positions of the validating conversion are character offsets of
/// the input: whenever it fails, the reported position indexes a
/// character of `s`, and for an unrecognized letter it indexes exactly
/// the character the error names.
pub proof fn lemma_validated_error_position(s: Seq<char>)
    ensures
        spec_validated(s) matches Err(e) ==> 0 <= e.position() < s.len(),
        spec_validated(s) matches Err(SpecDeroError::InvalidLetter { letter, position })
            ==> s[position] == letter,
{
    lemma_validate_run_err_pos(StrictState::Empty, s, 0);
}

/// Exec-side state of the validating assembler.
enum RunState {
    Empty,
    AfterInitial(Initial, usize),
    AfterVowel(Initial, Vowel),
    AfterFinal(Initial, Vowel, Final),
}

impl RunState {
    /// The ghost state this exec state stands for.
    spec fn view_state(&self) -> StrictState {
        match *self {
            RunState::Empty => StrictState::Empty,
            RunState::AfterInitial(ini, p) => StrictState::AfterInitial(ini, p as int),
            RunState::AfterVowel(ini, vow) => StrictState::AfterVowel(ini, vow),
            RunState::AfterFinal(ini, vow, fin) => StrictState::AfterFinal(ini, vow, fin),
        }
    }
}

/// Append the output of a successful run to what was already emitted.
pub open spec fn glue(out: Seq<char>, r: Result<Seq<char>, SpecDeroError>) -> Result<
    Seq<char>,
    SpecDeroError,
> {
    match r {
        Ok(o) => Ok(out + o),
        Err(e) => Err(e),
    }
}

/// Run the validating assembler over the characters of `v`.
#[verifier::rlimit(100)]
pub(crate) fn validate_chars(v: &Vec<char>) -> (r: Result<Vec<char>, DeromanizeError>)
    ensures
        r matches Ok(out) ==> spec_validated(v@) == Ok::<Seq<char>, SpecDeroError>(out@),
        r matches Err(e) ==> spec_validated(v@) == Err::<Seq<char>, SpecDeroError>(e@),
{
    let n: usize = v.len();
    let mut out: Vec<char> = Vec::new();
    let mut state = RunState::Empty;
    let mut i: usize = 0;
    while i < n
        invariant
            n == v@.len(),
            i <= n,
            spec_validated(v@) == glue(out@, spec_validate_run(state.view_state(), v@, i as int)),
        decreases n - i, strict_rank(state.view_state()),
    {
        let ghost i0: int = i as int;
        let ghost out0 = out@;
        let ghost s0 = rest(v@, i0);
        match state {
            RunState::Empty => {
                if let Some((ini, tok)) = scan_initial(v, i) {
                    proof {
                        lemma_read_initial_len(s0);
                    }
                    state = RunState::AfterInitial(ini, i);
                    i += tok;
                } else if let Some((vow, tok)) = scan_vowel(v, i) {
                    proof {
                        lemma_read_vowel_len(s0);
                    }
                    state = RunState::AfterVowel(Initial::Ieung, vow);
                    i += tok;
                } else {
                    let c = v[i];
                    return Err(DeromanizeError::InvalidLetter { letter: c, position: i });
                }
            },
            RunState::AfterInitial(ini, p) => {
                if let Some((vow, tok)) = scan_vowel(v, i) {
                    proof {
                        lemma_read_vowel_len(s0);
                    }
                    state = RunState::AfterVowel(ini, vow);
                    i += tok;
                } else {
                    return Err(DeromanizeError::MissingFinalVowel { position: p });
                }
            },
            RunState::AfterVowel(ini, vow) => {
                if let Some((fin, tok)) = scan_final(v, i) {
                    proof {
                        lemma_read_final_len(s0);
                    }
                    state = RunState::AfterFinal(ini, vow, fin);
                    i += tok;
                } else if let Some((nvow, tok)) = scan_vowel(v, i) {
                    proof {
                        lemma_read_vowel_len(s0);
                    }
                    let b = Block::from_parts(ini, vow, Final::Empty).combine();
                    out.push(b);
                    state = RunState::AfterVowel(Initial::Ieung, nvow);
                    i += tok;
                    proof {
                        assert(b == block_char(ini, vow, Final::Empty));
                        assert(out@ =~= out0 + seq![b]);
                        let r2 = spec_validate_run(state.view_state(), v@, i as int);
                        match r2 {
                            Ok(o) => {
                                assert(out0 + (seq![b] + o) =~= (out0 + seq![b]) + o);
                            },
                            Err(_) => {},
                        }
                    }
                } else if let Some((nini, tok)) = scan_initial(v, i) {
                    proof {
                        lemma_read_initial_len(s0);
                    }
                    let b = Block::from_parts(ini, vow, Final::Empty).combine();
                    out.push(b);
                    state = RunState::AfterInitial(nini, i);
                    i += tok;
                    proof {
                        assert(b == block_char(ini, vow, Final::Empty));
                        assert(out@ =~= out0 + seq![b]);
                        let r2 = spec_validate_run(state.view_state(), v@, i as int);
                        match r2 {
                            Ok(o) => {
                                assert(out0 + (seq![b] + o) =~= (out0 + seq![b]) + o);
                            },
                            Err(_) => {},
                        }
                    }
                } else {
                    let c = v[i];
                    return Err(DeromanizeError::InvalidLetter { letter: c, position: i });
                }
            },
            RunState::AfterFinal(ini, vow, fin) => {
                if let Some((nvow, tok)) = scan_vowel(v, i) {
                    proof {
                        lemma_read_vowel_len(s0);
                    }
                    let (kept, promoted) = fin.split();
                    let b = Block::from_parts(ini, vow, kept).combine();
                    out.push(b);
                    state = RunState::AfterVowel(promoted, nvow);
                    i += tok;
                    proof {
                        assert(b == block_char(ini, vow, kept));
                        assert(out@ =~= out0 + seq![b]);
                        let r2 = spec_validate_run(state.view_state(), v@, i as int);
                        match r2 {
                            Ok(o) => {
                                assert(out0 + (seq![b] + o) =~= (out0 + seq![b]) + o);
                            },
                            Err(_) => {},
                        }
                    }
                } else {
                    let b = Block::from_parts(ini, vow, fin).combine();
                    out.push(b);
                    state = RunState::Empty;
                    proof {
                        assert(b == block_char(ini, vow, fin));
                        assert(out@ =~= out0 + seq![b]);
                        let r2 = spec_validate_run(state.view_state(), v@, i as int);
                        match r2 {
                            Ok(o) => {
                                assert(out0 + (seq![b] + o) =~= (out0 + seq![b]) + o);
                            },
                            Err(_) => {},
                        }
                    }
                }
            },
        }
    }
    match state {
        RunState::Empty => {
            proof {
                assert(out@ =~= out@ + Seq::<char>::empty());
            }
            Ok(out)
        },
        RunState::AfterInitial(_, p) => {
            proof {
                assert(spec_read_vowel(rest(v@, n as int)) is None);
            }
            Err(DeromanizeError::MissingFinalVowel { position: p })
        },
        RunState::AfterVowel(ini, vow) => {
            let ghost out0 = out@;
            let b = Block::from_parts(ini, vow, Final::Empty).combine();
            out.push(b);
            proof {
                assert(b == block_char(ini, vow, Final::Empty));
                assert(out@ =~= out0 + seq![b]);
            }
            Ok(out)
        },
        RunState::AfterFinal(ini, vow, fin) => {
            let ghost out0 = out@;
            let b = Block::from_parts(ini, vow, fin).combine();
            out.push(b);
            proof {
                let tail = rest(v@, n as int);
                assert(tail.len() == 0);
                assert(spec_read_vowel(tail) is None);
                assert(spec_validate_run(StrictState::Empty, v@, n as int) == Ok::<
                    Seq<char>,
                    SpecDeroError,
                >(Seq::empty()));
                assert(seq![b] + Seq::<char>::empty() =~= seq![b]);
                assert(out@ =~= out0 + seq![b]);
            }
            Ok(out)
        },
    }
}

/// Re-offset a segment's error into whole-string coordinates; a
/// successful segment passes through unchanged.
pub open spec fn shift_err(r: Result<Seq<char>, SpecDeroError>, k: int) -> Result<
    Seq<char>,
    SpecDeroError,
> {
    match r {
        Ok(o) => Ok(o),
        Err(e) => Err(e.shift(k)),
    }
}

/// Boundary-aware segmentation from offset `i` on: `breaks[k]` says
/// whether character `k` is a boundary.  Boundary characters are copied
/// through; each maximal run of non-boundary characters (the current one
/// beginning at `start`, if any) is validated on its own, with its error
/// positions re-offset by the run's start.
pub open spec fn spec_words_run(
    s: Seq<char>,
    breaks: Seq<bool>,
    i: int,
    start: Option<int>,
) -> Result<Seq<char>, SpecDeroError>
    decreases s.len() - i,
    when 0 <= i <= s.len() && breaks.len() == s.len() && (start matches Some(st) ==> 0 <= st <= i)
{
    if i == s.len() {
        match start {
            None => Ok(Seq::empty()),
            Some(st) => shift_err(spec_validated(s.subrange(st, s.len() as int)), st),
        }
    } else if breaks[i] {
        let flushed = match start {
            None => Ok(Seq::empty()),
            Some(st) => shift_err(spec_validated(s.subrange(st, i)), st),
        };
        match flushed {
            Err(e) => Err(e),
            Ok(o) => match spec_words_run(s, breaks, i + 1, None) {
                Err(e) => Err(e),
                Ok(r2) => Ok(o + seq![s[i]] + r2),
            },
        }
    } else {
        match start {
            None => spec_words_run(s, breaks, i + 1, Some(i)),
            Some(_) => spec_words_run(s, breaks, i + 1, start),
        }
    }
}

/// The boundary-aware conversion of a whole input.
pub open spec fn spec_deromanize_words(s: Seq<char>, breaks: Seq<bool>) -> Result<
    Seq<char>,
    SpecDeroError,
> {
    spec_words_run(s, breaks, 0, None)
}

/// The ghost value of an exec run-start marker.
pub open spec fn opt_view(o: Option<usize>) -> Option<int> {
    match o {
        None => None,
        Some(st) => Some(st as int),
    }
}

/// Run the boundary-aware conversion over the characters of `v`.
#[verifier::rlimit(100)]
fn words_chars(v: &Vec<char>, breaks: &Vec<bool>) -> (r: Result<Vec<char>, DeromanizeError>)
    requires
        breaks@.len() == v@.len(),
    ensures
        r matches Ok(out) ==> spec_deromanize_words(v@, breaks@) == Ok::<Seq<char>, SpecDeroError>(
            out@,
        ),
        r matches Err(e) ==> spec_deromanize_words(v@, breaks@) == Err::<Seq<char>, SpecDeroError>(
            e@,
        ),
{
    let n: usize = v.len();
    let mut out: Vec<char> = Vec::new();
    let mut start: Option<usize> = None;
    let mut i: usize = 0;
    while i < n
        invariant
            n == v@.len(),
            breaks@.len() == v@.len(),
            i <= n,
            start matches Some(st) ==> st <= i,
            spec_deromanize_words(v@, breaks@) == glue(
                out@,
                spec_words_run(v@, breaks@, i as int, opt_view(start)),
            ),
        decreases n - i,
    {
        let ghost out0 = out@;
        let ghost i0: int = i as int;
        let ghost start0 = opt_view(start);
        if breaks[i] {
            let ghost mut flushed_out: Seq<char> = Seq::empty();
            if let Some(st) = start {
                let part = extract(v, st, i);
                match validate_chars(&part) {
                    Ok(mut conv) => {
                        proof {
                            flushed_out = conv@;
                        }
                        out.append(&mut conv);
                        proof {
                            assert(out@ =~= out0 + flushed_out);
                        }
                    },
                    Err(e) => {
                        proof {
                            lemma_validated_error_position(part@);
                        }
                        return Err(e.offset(st));
                    },
                }
            }
            let ghost out1 = out@;
            let c = v[i];
            out.push(c);
            i += 1;
            start = None;
            proof {
                assert(out@ =~= out1 + seq![c]);
                assert(out1 =~= out0 + flushed_out);
                let r2 = spec_words_run(v@, breaks@, i as int, None);
                match r2 {
                    Ok(o2) => {
                        assert(out0 + (flushed_out + seq![c] + o2) =~= (out1 + seq![c]) + o2);
                    },
                    Err(_) => {},
                }
            }
        } else {
            if start.is_none() {
                start = Some(i);
            }
            i += 1;
        }
    }
    if let Some(st) = start {
        let ghost out0 = out@;
        let part = extract(v, st, n);
        match validate_chars(&part) {
            Ok(mut conv) => {
                let ghost conv0 = conv@;
                out.append(&mut conv);
                proof {
                    assert(out@ =~= out0 + conv0);
                }
                Ok(out)
            },
            Err(e) => {
                proof {
                    lemma_validated_error_position(part@);
                }
                Err(e.offset(st))
            },
        }
    } else {
        proof {
            assert(out@ =~= out@ + Seq::<char>::empty());
        }
        Ok(out)
    }
}

/// Boundary-aware conversion: the caller's predicate picks the break
/// characters (whitespace, punctuation, already-composed Hangul); each
/// run between breaks is validated independently and errors carry
/// character offsets of the original string.  The result is pinned, for
/// whatever answers the predicate gave, by [`spec_deromanize_words`].
pub fn deromanize<F: Fn(char) -> bool>(text: &str, is_break_char: F) -> (r: Result<
    String,
    DeromanizeError,
>)
    requires
        forall|c: char| is_break_char.requires((c,)),
    ensures
        exists|breaks: Seq<bool>|
            #![trigger spec_deromanize_words(text@, breaks)]
            {
                &&& breaks.len() == text@.len()
                &&& (forall|k: int|
                    0 <= k < breaks.len() ==> call_ensures(is_break_char, (text@[k],), breaks[k]))
                &&& (r matches Ok(out) ==> spec_deromanize_words(text@, breaks) == Ok::<
                    Seq<char>,
                    SpecDeroError,
                >(out@))
                &&& (r matches Err(e) ==> spec_deromanize_words(text@, breaks) == Err::<
                    Seq<char>,
                    SpecDeroError,
                >(e@))
            },
{
    let v = str_chars(text);
    let n: usize = v.len();
    let mut breaks: Vec<bool> = Vec::new();
    let mut j: usize = 0;
    while j < n
        invariant
            n == v@.len(),
            v@ == text@,
            j <= n,
            breaks@.len() == j as int,
            forall|k: int| 0 <= k < j ==> call_ensures(is_break_char, (v@[k],), breaks@[k]),
            forall|c: char| is_break_char.requires((c,)),
        decreases n - j,
    {
        let c = v[j];
        let b = is_break_char(c);
        breaks.push(b);
        j += 1;
    }
    match words_chars(&v, &breaks) {
        Ok(out) => Ok(chars_to_string(&out)),
        Err(e) => Err(e),
    }
}

/// Helper for [`lemma_all_breaks_identity`], generalized over the scan
/// offset.
proof fn lemma_words_run_all_breaks(s: Seq<char>, breaks: Seq<bool>, i: int)
    requires
        breaks.len() == s.len(),
        0 <= i <= s.len(),
        forall|k: int| 0 <= k < s.len() ==> breaks[k],
    ensures
        spec_words_run(s, breaks, i, None) == Ok::<Seq<char>, SpecDeroError>(rest(s, i)),
    decreases s.len() - i,
{
    if i == s.len() {
        assert(rest(s, i) =~= Seq::<char>::empty());
    } else {
        assert(breaks[i]);
        lemma_words_run_all_breaks(s, breaks, i + 1);
        assert(Seq::<char>::empty() + seq![s[i]] + rest(s, i + 1) =~= rest(s, i));
    }
}

/// A string made only of boundary characters — whitespace, punctuation —
/// converts to itself: the boundary-aware conversion returns the input
/// unchanged.
pub proof fn lemma_all_breaks_identity(s: Seq<char>, breaks: Seq<bool>)
    requires
        breaks.len() == s.len(),
        forall|k: int| 0 <= k < s.len() ==> breaks[k],
    ensures
        spec_deromanize_words(s, breaks) == Ok::<Seq<char>, SpecDeroError>(s),
{
    lemma_words_run_all_breaks(s, breaks, 0);
    assert(rest(s, 0) =~= s);
}

/// Helper for [`lemma_words_error_position`], generalized over the scan
/// state.
proof fn lemma_words_run_err_pos(s: Seq<char>, breaks: Seq<bool>, i: int, start: Option<int>)
    requires
        breaks.len() == s.len(),
        0 <= i <= s.len(),
        start matches Some(st) ==> 0 <= st <= i,
    ensures
        spec_words_run(s, breaks, i, start) matches Err(e) ==> 0 <= e.position() < s.len(),
        spec_words_run(s, breaks, i, start) matches Err(SpecDeroError::InvalidLetter {
            letter,
            position,
        }) ==> s[position] == letter,
    decreases s.len() - i,
{
    if i == s.len() {
        match start {
            None => {},
            Some(st) => {
                let part = s.subrange(st, s.len() as int);
                lemma_validated_error_position(part);
                match spec_validated(part) {
                    Err(SpecDeroError::InvalidLetter { letter, position }) => {
                        assert(part[position] == s[st + position]);
                    },
                    _ => {},
                }
            },
        }
    } else if breaks[i] {
        match start {
            None => {},
            Some(st) => {
                let part = s.subrange(st, i);
                lemma_validated_error_position(part);
                match spec_validated(part) {
                    Err(SpecDeroError::InvalidLetter { letter, position }) => {
                        assert(part[position] == s[st + position]);
                    },
                    _ => {},
                }
            },
        }
        lemma_words_run_err_pos(s, breaks, i + 1, None);
    } else {
        match start {
            None => {
                lemma_words_run_err_pos(s, breaks, i + 1, Some(i));
            },
            Some(_) => {
                lemma_words_run_err_pos(s, breaks, i + 1, start);
            },
        }
    }
}

/// Error positions of the boundary-aware conversion are character
/// offsets of the original input: whenever it fails, the reported
/// position indexes a character of `s`, whatever the break pattern.
pub proof fn lemma_words_error_position(s: Seq<char>, breaks: Seq<bool>)
    requires
        breaks.len() == s.len(),
    ensures
        spec_deromanize_words(s, breaks) matches Err(e) ==> 0 <= e.position() < s.len(),
        spec_deromanize_words(s, breaks) matches Err(SpecDeroError::InvalidLetter {
            letter,
            position,
        }) ==> s[position] == letter,
{
    lemma_words_run_err_pos(s, breaks, 0, None);
}

/// Validating conversion of the whole text: succeeds exactly when every
/// character is part of a romaja token and every consonant receives its
/// vowel; fails with the kind and character offset of the first problem.
pub fn deromanize_validated(text: &str) -> (r: Result<String, DeromanizeError>)
    ensures
        r matches Ok(out) ==> spec_validated(text@) == Ok::<Seq<char>, SpecDeroError>(out@),
        r matches Err(e) ==> spec_validated(text@) == Err::<Seq<char>, SpecDeroError>(e@),
{
    let v = str_chars(text);
    match validate_chars(&v) {
        Ok(out) => Ok(chars_to_string(&out)),
        Err(e) => Err(e),
    }
}

} // verus!
