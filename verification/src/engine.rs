//! Syllable assembler: drives the scanners left to right over the input,
//! buffers a pending syllable, resolves the final-consonant / next-initial
//! ambiguity by one token of lookahead, and emits completed blocks.  This
//! is the lossy engine: characters outside the romaja alphabet are copied
//! through verbatim, and a consonant that cannot open a syllable is
//! emitted as a standalone letter.

use vstd::prelude::*;

use crate::hangeul::Block;
use crate::hangeul::Final;
use crate::hangeul::Initial;
use crate::hangeul::Vowel;
use crate::scan::lemma_read_final_len;
use crate::scan::lemma_read_initial_len;
use crate::scan::lemma_read_vowel_len;
use crate::scan::rest;
use crate::scan::scan_final;
use crate::scan::scan_initial;
use crate::scan::scan_vowel;
use crate::scan::spec_read_final;
use crate::scan::spec_read_initial;
use crate::scan::spec_read_vowel;
use crate::scan::str_chars;
use vstd::string::StringExecFns;

verus! {

broadcast use vstd::utf8::char_u32_cast;

/// Relies on String::from_iter (through `collect`): returns the string
/// holding exactly the given characters in order.
#[verifier::external_body]
pub(crate) fn chars_to_string(v: &Vec<char>) -> (s: String)
    ensures
        s@ == v@,
{
    v.iter().collect()
}

/// The character of the syllable block assembled from the three slots.
pub open spec fn block_char(ini: Initial, vow: Vowel, fin: Final) -> char {
    (Block { initial: ini, vowel: vow, fin: fin }).spec_code() as char
}

/// The standalone letter of an initial consonant that never got a vowel.
pub open spec fn letter_char(ini: Initial) -> char {
    ini.spec_letter_code() as char
}

/// The states of the assembler.
#[derive(Debug, Clone, Copy)]
pub enum DeroState {
    Empty,
    AfterInitial(Initial),
    AfterVowel(Initial, Vowel),
    AfterFinal(Initial, Vowel, Final),
}

/// Measure used for termination: the transitions that consume no input
/// all step from a pending state back to `Empty`.
pub open spec fn state_rank(state: DeroState) -> int {
    match state {
        DeroState::Empty => 0,
        _ => 1,
    }
}

/// What the assembler emits from state `state` on the remaining input `s`.
pub open spec fn spec_run(state: DeroState, s: Seq<char>) -> Seq<char>
    decreases s.len(), state_rank(state),
{
    match state {
        DeroState::Empty => {
            if s.len() == 0 {
                Seq::empty()
            } else {
                match spec_read_initial(s) {
                    Some((ini, n)) => spec_run(
                        DeroState::AfterInitial(ini),
                        s.subrange(n, s.len() as int),
                    ),
                    None => match spec_read_vowel(s) {
                        Some((vow, n)) => spec_run(
                            DeroState::AfterVowel(Initial::Ieung, vow),
                            s.subrange(n, s.len() as int),
                        ),
                        None => seq![s[0]] + spec_run(
                            DeroState::Empty,
                            s.subrange(1, s.len() as int),
                        ),
                    },
                }
            }
        },
        DeroState::AfterInitial(ini) => {
            match spec_read_vowel(s) {
                Some((vow, n)) => spec_run(
                    DeroState::AfterVowel(ini, vow),
                    s.subrange(n, s.len() as int),
                ),
                None => seq![letter_char(ini)] + spec_run(DeroState::Empty, s),
            }
        },
        DeroState::AfterVowel(ini, vow) => {
            match spec_read_final(s) {
                Some((fin, n)) => spec_run(
                    DeroState::AfterFinal(ini, vow, fin),
                    s.subrange(n, s.len() as int),
                ),
                None => match spec_read_vowel(s) {
                    Some((nvow, n)) => seq![block_char(ini, vow, Final::Empty)] + spec_run(
                        DeroState::AfterVowel(Initial::Ieung, nvow),
                        s.subrange(n, s.len() as int),
                    ),
                    None => match spec_read_initial(s) {
                        Some((nini, n)) => seq![block_char(ini, vow, Final::Empty)] + spec_run(
                            DeroState::AfterInitial(nini),
                            s.subrange(n, s.len() as int),
                        ),
                        None => {
                            if s.len() == 0 {
                                seq![block_char(ini, vow, Final::Empty)]
                            } else {
                                seq![block_char(ini, vow, Final::Empty), s[0]] + spec_run(
                                    DeroState::Empty,
                                    s.subrange(1, s.len() as int),
                                )
                            }
                        },
                    },
                },
            }
        },
        DeroState::AfterFinal(ini, vow, fin) => {
            match spec_read_vowel(s) {
                Some((nvow, n)) => {
                    let (kept, promoted) = fin.spec_split();
                    seq![block_char(ini, vow, kept)] + spec_run(
                        DeroState::AfterVowel(promoted, nvow),
                        s.subrange(n, s.len() as int),
                    )
                },
                None => seq![block_char(ini, vow, fin)] + spec_run(DeroState::Empty, s),
            }
        },
    }
}

/// The lossy conversion of the whole input.
pub open spec fn spec_deromanize(s: Seq<char>) -> Seq<char> {
    spec_run(DeroState::Empty, s)
}

/// Run the assembler over the characters of `v` and collect its output.
#[verifier::rlimit(100)]
pub(crate) fn derom_chars(v: &Vec<char>) -> (out: Vec<char>)
    ensures
        out@ == spec_deromanize(v@),
{
    let n: usize = v.len();
    let mut out: Vec<char> = Vec::new();
    let mut state = DeroState::Empty;
    let mut i: usize = 0;
    proof {
        assert(rest(v@, 0) =~= v@);
    }
    while i < n
        invariant
            n == v@.len(),
            i <= n,
            spec_deromanize(v@) == out@ + spec_run(state, rest(v@, i as int)),
        decreases n - i, state_rank(state),
    {
        let ghost i0: int = i as int;
        let ghost out0 = out@;
        let ghost s0 = rest(v@, i0);
        match state {
            DeroState::Empty => {
                if let Some((ini, tok)) = scan_initial(v, i) {
                    proof {
                        lemma_read_initial_len(s0);
                    }
                    i += tok;
                    state = DeroState::AfterInitial(ini);
                    proof {
                        assert(s0.subrange(tok as int, s0.len() as int) =~= rest(v@, i as int));
                    }
                } else if let Some((vow, tok)) = scan_vowel(v, i) {
                    proof {
                        lemma_read_vowel_len(s0);
                    }
                    i += tok;
                    state = DeroState::AfterVowel(Initial::Ieung, vow);
                    proof {
                        assert(s0.subrange(tok as int, s0.len() as int) =~= rest(v@, i as int));
                    }
                } else {
                    let c = v[i];
                    out.push(c);
                    i += 1;
                    proof {
                        assert(s0[0] == v@[i0]);
                        assert(s0.subrange(1, s0.len() as int) =~= rest(v@, i as int));
                        assert(out0 + (seq![c] + spec_run(DeroState::Empty, rest(v@, i as int)))
                            =~= (out0 + seq![c]) + spec_run(DeroState::Empty, rest(v@, i as int)));
                        assert(out@ =~= out0 + seq![c]);
                    }
                }
            },
            DeroState::AfterInitial(ini) => {
                if let Some((vow, tok)) = scan_vowel(v, i) {
                    proof {
                        lemma_read_vowel_len(s0);
                    }
                    i += tok;
                    state = DeroState::AfterVowel(ini, vow);
                    proof {
                        assert(s0.subrange(tok as int, s0.len() as int) =~= rest(v@, i as int));
                    }
                } else {
                    let c = ini.as_char();
                    out.push(c);
                    state = DeroState::Empty;
                    proof {
                        assert(c == letter_char(ini));
                        assert(out0 + (seq![c] + spec_run(DeroState::Empty, s0))
                            =~= (out0 + seq![c]) + spec_run(DeroState::Empty, s0));
                        assert(out@ =~= out0 + seq![c]);
                    }
                }
            },
            DeroState::AfterVowel(ini, vow) => {
                if let Some((fin, tok)) = scan_final(v, i) {
                    proof {
                        lemma_read_final_len(s0);
                    }
                    i += tok;
                    state = DeroState::AfterFinal(ini, vow, fin);
                    proof {
                        assert(s0.subrange(tok as int, s0.len() as int) =~= rest(v@, i as int));
                    }
                } else if let Some((nvow, tok)) = scan_vowel(v, i) {
                    proof {
                        lemma_read_vowel_len(s0);
                    }
                    let b = Block::from_parts(ini, vow, Final::Empty).combine();
                    out.push(b);
                    i += tok;
                    state = DeroState::AfterVowel(Initial::Ieung, nvow);
                    proof {
                        assert(b == block_char(ini, vow, Final::Empty));
                        assert(s0.subrange(tok as int, s0.len() as int) =~= rest(v@, i as int));
                        assert(out0 + (seq![b] + spec_run(state, rest(v@, i as int)))
                            =~= (out0 + seq![b]) + spec_run(state, rest(v@, i as int)));
                        assert(out@ =~= out0 + seq![b]);
                    }
                } else if let Some((nini, tok)) = scan_initial(v, i) {
                    proof {
                        lemma_read_initial_len(s0);
                    }
                    let b = Block::from_parts(ini, vow, Final::Empty).combine();
                    out.push(b);
                    i += tok;
                    state = DeroState::AfterInitial(nini);
                    proof {
                        assert(b == block_char(ini, vow, Final::Empty));
                        assert(s0.subrange(tok as int, s0.len() as int) =~= rest(v@, i as int));
                        assert(out0 + (seq![b] + spec_run(state, rest(v@, i as int)))
                            =~= (out0 + seq![b]) + spec_run(state, rest(v@, i as int)));
                        assert(out@ =~= out0 + seq![b]);
                    }
                } else {
                    let b = Block::from_parts(ini, vow, Final::Empty).combine();
                    out.push(b);
                    let c = v[i];
                    out.push(c);
                    i += 1;
                    state = DeroState::Empty;
                    proof {
                        assert(b == block_char(ini, vow, Final::Empty));
                        assert(s0[0] == v@[i0]);
                        assert(s0.subrange(1, s0.len() as int) =~= rest(v@, i as int));
                        assert(out0 + (seq![b, c] + spec_run(DeroState::Empty, rest(v@, i as int)))
                            =~= ((out0 + seq![b, c]) + spec_run(
                            DeroState::Empty,
                            rest(v@, i as int),
                        )));
                        assert(out@ =~= out0 + seq![b, c]);
                    }
                }
            },
            DeroState::AfterFinal(ini, vow, fin) => {
                if let Some((nvow, tok)) = scan_vowel(v, i) {
                    proof {
                        lemma_read_vowel_len(s0);
                    }
                    let (kept, promoted) = fin.split();
                    let b = Block::from_parts(ini, vow, kept).combine();
                    out.push(b);
                    i += tok;
                    state = DeroState::AfterVowel(promoted, nvow);
                    proof {
                        assert(b == block_char(ini, vow, kept));
                        assert(s0.subrange(tok as int, s0.len() as int) =~= rest(v@, i as int));
                        assert(out0 + (seq![b] + spec_run(state, rest(v@, i as int)))
                            =~= (out0 + seq![b]) + spec_run(state, rest(v@, i as int)));
                        assert(out@ =~= out0 + seq![b]);
                    }
                } else {
                    let b = Block::from_parts(ini, vow, fin).combine();
                    out.push(b);
                    state = DeroState::Empty;
                    proof {
                        assert(b == block_char(ini, vow, fin));
                        assert(out0 + (seq![b] + spec_run(DeroState::Empty, s0))
                            =~= (out0 + seq![b]) + spec_run(DeroState::Empty, s0));
                        assert(out@ =~= out0 + seq![b]);
                    }
                }
            },
        }
    }
    let ghost tail = rest(v@, n as int);
    proof {
        assert(tail =~= Seq::<char>::empty());
    }
    match state {
        DeroState::Empty => {
            proof {
                assert(spec_run(DeroState::Empty, tail) =~= Seq::<char>::empty());
                assert(out@ =~= out@ + Seq::<char>::empty());
            }
        },
        DeroState::AfterInitial(ini) => {
            let c = ini.as_char();
            out.push(c);
            proof {
                assert(c == letter_char(ini));
                assert(spec_run(DeroState::Empty, tail) =~= Seq::<char>::empty());
                assert(spec_run(DeroState::AfterInitial(ini), tail) =~= seq![c]);
            }
        },
        DeroState::AfterVowel(ini, vow) => {
            let b = Block::from_parts(ini, vow, Final::Empty).combine();
            out.push(b);
            proof {
                assert(b == block_char(ini, vow, Final::Empty));
                assert(spec_run(DeroState::AfterVowel(ini, vow), tail) =~= seq![b]);
            }
        },
        DeroState::AfterFinal(ini, vow, fin) => {
            let b = Block::from_parts(ini, vow, fin).combine();
            out.push(b);
            proof {
                assert(b == block_char(ini, vow, fin));
                assert(spec_run(DeroState::Empty, tail) =~= Seq::<char>::empty());
                assert(spec_run(DeroState::AfterFinal(ini, vow, fin), tail) =~= seq![b]);
            }
        },
    }
    out
}

/// Converts as much of the given romaja-containing text to Hangul as
/// possible; characters outside the alphabet pass through unchanged.
pub fn deromanize(text: &str) -> (s: String)
    ensures
        s@ == spec_deromanize(text@),
{
    let v = str_chars(text);
    let out = derom_chars(&v);
    chars_to_string(&out)
}

/// Converts as much of the given romaja-containing text to Hangul as
/// possible, appending the result to `s`.
pub fn deromanize_into(text: &str, s: &mut String)
    ensures
        final(s)@ == old(s)@ + spec_deromanize(text@),
{
    let v = str_chars(text);
    let out = derom_chars(&v);
    let tail = chars_to_string(&out);
    s.append(tail.as_str());
}

/// Index of the first occurrence of `c` in `s`, if any.
pub open spec fn spec_find(s: Seq<char>, c: char) -> Option<int>
    decreases s.len(),
{
    if s.len() == 0 {
        None
    } else if s[0] == c {
        Some(0)
    } else {
        match spec_find(s.subrange(1, s.len() as int), c) {
            Some(j) => Some(j + 1),
            None => None,
        }
    }
}

/// `spec_find` returns the least index holding `c`, or reports that no
/// index does.
pub proof fn lemma_find_props(s: Seq<char>, c: char)
    ensures
        match spec_find(s, c) {
            Some(j) => 0 <= j < s.len() && s[j] == c && (forall|k: int| 0 <= k < j ==> s[k] != c),
            None => forall|k: int| 0 <= k < s.len() ==> s[k] != c,
        },
    decreases s.len(),
{
    if s.len() == 0 {
    } else if s[0] == c {
    } else {
        let sub = s.subrange(1, s.len() as int);
        lemma_find_props(sub, c);
        match spec_find(sub, c) {
            Some(j) => {
                assert(s[j + 1] == sub[j]);
                assert forall|k: int| 0 <= k < j + 1 implies s[k] != c by {
                    if k > 0 {
                        assert(sub[k - 1] == s[k]);
                    }
                }
            },
            None => {
                assert forall|k: int| 0 <= k < s.len() implies s[k] != c by {
                    if k > 0 {
                        assert(sub[k - 1] == s[k]);
                    }
                }
            },
        }
    }
}

/// If `c` stands at index `j` and nowhere earlier, then `j` is where
/// `spec_find` points.
pub proof fn lemma_find_at(s: Seq<char>, c: char, j: int)
    requires
        0 <= j < s.len(),
        s[j] == c,
        forall|k: int| 0 <= k < j ==> s[k] != c,
    ensures
        spec_find(s, c) == Some(j),
{
    lemma_find_props(s, c);
    match spec_find(s, c) {
        None => {
            assert(s[j] != c);
        },
        Some(j2) => {
            if j2 < j {
                assert(s[j2] != c);
            } else if j2 > j {
                assert(s[j] != c);
            }
        },
    }
}

/// First occurrence of `c` in `v` at or after `from`.
fn find_char(v: &Vec<char>, from: usize, c: char) -> (r: Option<usize>)
    requires
        from <= v@.len(),
    ensures
        match r {
            Some(j) => from <= j < v@.len() && spec_find(rest(v@, from as int), c) == Some(
                j - from,
            ),
            None => spec_find(rest(v@, from as int), c) is None,
        },
{
    let n: usize = v.len();
    let ghost s = rest(v@, from as int);
    let mut j: usize = from;
    while j < n
        invariant
            n == v@.len(),
            from <= j <= n,
            s == rest(v@, from as int),
            forall|k: int| from <= k < j ==> v@[k] != c,
        decreases n - j,
    {
        if v[j] == c {
            proof {
                assert(s[j - from] == v@[j as int]);
                assert forall|k: int| 0 <= k < j - from implies s[k] != c by {
                    assert(s[k] == v@[k + from]);
                }
                lemma_find_at(s, c, j - from);
            }
            return Some(j);
        }
        j += 1;
    }
    proof {
        lemma_find_props(s, c);
        match spec_find(s, c) {
            Some(j2) => {
                assert(s[j2] == v@[j2 + from]);
                assert(false);
            },
            None => {},
        }
    }
    None
}

/// Copy of the characters of `v` between `from` and `to`.
pub(crate) fn extract(v: &Vec<char>, from: usize, to: usize) -> (r: Vec<char>)
    requires
        from <= to <= v@.len(),
    ensures
        r@ == v@.subrange(from as int, to as int),
{
    let mut r: Vec<char> = Vec::new();
    let mut j: usize = from;
    while j < to
        invariant
            from <= j <= to <= v@.len(),
            r@ == v@.subrange(from as int, j as int),
        decreases to - j,
    {
        r.push(v[j]);
        j += 1;
        proof {
            assert(r@ =~= v@.subrange(from as int, j as int));
        }
    }
    r
}

/// The conversion with bracket escapes: text up to the first `[` is
/// converted; the span from there to the next `]` is copied verbatim; the
/// remainder is processed the same way.  An unterminated `[` leaves all
/// following text verbatim.
pub open spec fn spec_escaped(s: Seq<char>) -> Seq<char>
    decreases s.len(),
{
    match spec_find(s, '[') {
        None => spec_deromanize(s),
        Some(a) => {
            proof {
                lemma_find_props(s, '[');
            }
            let head = spec_deromanize(s.subrange(0, a));
            let tail = s.subrange(a + 1, s.len() as int);
            match spec_find(tail, ']') {
                None => head + tail,
                Some(b) => {
                    proof {
                        lemma_find_props(tail, ']');
                    }
                    head + tail.subrange(0, b) + spec_escaped(
                        tail.subrange(b + 1, tail.len() as int),
                    )
                },
            }
        },
    }
}

/// Converts as much of the given romaja-containing text to Hangul as
/// possible, ignoring all text between square brackets.
pub fn deromanize_escaped(text: &str) -> (s: String)
    ensures
        s@ == spec_escaped(text@),
{
    let v = str_chars(text);
    let n: usize = v.len();
    let mut out: Vec<char> = Vec::new();
    let mut i: usize = 0;
    proof {
        assert(rest(v@, 0) =~= v@);
    }
    loop
        invariant_except_break
            n == v@.len(),
            i <= n,
            spec_escaped(v@) == out@ + spec_escaped(rest(v@, i as int)),
        ensures
            out@ == spec_escaped(v@),
        decreases n - i,
    {
        let ghost s0 = rest(v@, i as int);
        let ghost out0 = out@;
        match find_char(&v, i, '[') {
            None => {
                let part = extract(&v, i, n);
                proof {
                    assert(part@ =~= s0);
                }
                let mut conv = derom_chars(&part);
                out.append(&mut conv);
                proof {
                    assert(out@ =~= out0 + spec_deromanize(s0));
                }
                break;
            },
            Some(a) => {
                let part = extract(&v, i, a);
                let mut conv = derom_chars(&part);
                out.append(&mut conv);
                let ghost head = spec_deromanize(s0.subrange(0, a - i));
                let ghost tail = s0.subrange(a - i + 1, s0.len() as int);
                proof {
                    assert(part@ =~= s0.subrange(0, a - i));
                    assert(tail =~= rest(v@, a + 1));
                }
                match find_char(&v, a + 1, ']') {
                    None => {
                        let mut verbatim = extract(&v, a + 1, n);
                        out.append(&mut verbatim);
                        proof {
                            assert(spec_find(tail, ']') is None);
                            assert(spec_escaped(s0) == head + tail);
                            assert(out@ =~= (out0 + head) + tail);
                            assert(out0 + (head + tail) =~= (out0 + head) + tail);
                        }
                        break;
                    },
                    Some(b) => {
                        let mut mid = extract(&v, a + 1, b);
                        out.append(&mut mid);
                        i = b + 1;
                        proof {
                            assert(spec_find(tail, ']') == Some(b - (a + 1)));
                            assert(tail.subrange(0, b - (a + 1)) =~= v@.subrange(a + 1, b as int));
                            assert(tail.subrange(b - (a + 1) + 1, tail.len() as int) =~= rest(
                                v@,
                                i as int,
                            ));
                            assert(spec_escaped(s0) == head + tail.subrange(0, b - (a + 1))
                                + spec_escaped(rest(v@, i as int)));
                            assert(out@ =~= (out0 + head) + tail.subrange(0, b - (a + 1)));
                            assert(out0 + (head + tail.subrange(0, b - (a + 1)) + spec_escaped(
                                rest(v@, i as int),
                            )) =~= out@ + spec_escaped(rest(v@, i as int)));
                        }
                    },
                }
            },
        }
    }
    chars_to_string(&out)
}

/// Escaped spans: when the input splits as `a [ b ] c` around the first
/// bracket pair, the conversion converts `a`, copies `b` through
/// untouched, and continues with `c`.
pub proof fn lemma_escaped_bracket(a: Seq<char>, b: Seq<char>, c: Seq<char>)
    requires
        !a.contains('['),
        !b.contains(']'),
    ensures
        spec_escaped(a + seq!['['] + b + seq![']'] + c) == spec_deromanize(a) + b + spec_escaped(
            c,
        ),
{
    let s = a + seq!['['] + b + seq![']'] + c;
    let al = a.len() as int;
    let bl = b.len() as int;
    assert(s[al] == '[');
    assert forall|k: int| 0 <= k < al implies s[k] != '[' by {
        assert(s[k] == a[k]);
        if a[k] == '[' {
            assert(a.contains('['));
        }
    }
    lemma_find_at(s, '[', al);
    let tail = s.subrange(al + 1, s.len() as int);
    assert(tail =~= b + seq![']'] + c);
    assert(tail[bl] == ']');
    assert forall|k: int| 0 <= k < bl implies tail[k] != ']' by {
        assert(tail[k] == b[k]);
        if b[k] == ']' {
            assert(b.contains(']'));
        }
    }
    lemma_find_at(tail, ']', bl);
    assert(s.subrange(0, al) =~= a);
    assert(tail.subrange(0, bl) =~= b);
    assert(tail.subrange(bl + 1, tail.len() as int) =~= c);
}

/// An unterminated opening bracket: everything after the `[` is copied
/// verbatim.
pub proof fn lemma_escaped_unterminated(a: Seq<char>, b: Seq<char>)
    requires
        !a.contains('['),
        !b.contains(']'),
    ensures
        spec_escaped(a + seq!['['] + b) == spec_deromanize(a) + b,
{
    let s = a + seq!['['] + b;
    let al = a.len() as int;
    assert(s[al] == '[');
    assert forall|k: int| 0 <= k < al implies s[k] != '[' by {
        assert(s[k] == a[k]);
        if a[k] == '[' {
            assert(a.contains('['));
        }
    }
    lemma_find_at(s, '[', al);
    let tail = s.subrange(al + 1, s.len() as int);
    assert(tail =~= b);
    lemma_find_props(tail, ']');
    match spec_find(tail, ']') {
        Some(j) => {
            assert(b[j] == ']');
            assert(b.contains(']'));
        },
        None => {},
    }
    assert(s.subrange(0, al) =~= a);
}

/// The letters of the romaja alphabet: every character that can begin an
/// initial-consonant or vowel token, together with `c`, which begins the
/// two-letter `ch`.
pub open spec fn is_romaja_letter(c: char) -> bool {
    ||| c == 'g'
    ||| c == 'G'
    ||| c == 'n'
    ||| c == 'd'
    ||| c == 'D'
    ||| c == 'r'
    ||| c == 'l'
    ||| c == 'm'
    ||| c == 'b'
    ||| c == 'B'
    ||| c == 's'
    ||| c == 'S'
    ||| c == 'x'
    ||| c == 'j'
    ||| c == 'J'
    ||| c == 'c'
    ||| c == 'k'
    ||| c == 't'
    ||| c == 'p'
    ||| c == 'h'
    ||| c == 'a'
    ||| c == 'e'
    ||| c == 'i'
    ||| c == 'o'
    ||| c == 'u'
    ||| c == 'w'
    ||| c == 'y'
}

/// Text without a single letter of the romaja alphabet — whitespace,
/// punctuation, digits, already-composed Hangul — passes through the
/// lossy conversion unchanged.
pub proof fn lemma_passthrough(s: Seq<char>)
    requires
        forall|k: int| 0 <= k < s.len() ==> !is_romaja_letter(s[k]),
    ensures
        spec_deromanize(s) == s,
    decreases s.len(),
{
    if s.len() == 0 {
        assert(spec_deromanize(s) =~= s);
    } else {
        assert(!is_romaja_letter(s[0]));
        assert(spec_read_initial(s) is None);
        assert(spec_read_vowel(s) is None);
        let sub = s.subrange(1, s.len() as int);
        assert forall|k: int| 0 <= k < sub.len() implies !is_romaja_letter(sub[k]) by {
            assert(sub[k] == s[k + 1]);
        }
        lemma_passthrough(sub);
        assert(seq![s[0]] + sub =~= s);
    }
}

} // verus!
