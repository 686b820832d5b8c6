//! Input history for interactive front ends: a bounded list of past
//! inputs that drops blank entries, collapses immediate repeats, and
//! forgets the oldest entry when full.

use std::collections::VecDeque;
use vstd::prelude::*;

use crate::engine::chars_to_string;
use crate::engine::extract;
use crate::scan::str_chars;

verus! {

/// The characters with the Unicode `White_Space` property: what counts
/// as blank when an entry is trimmed.
pub open spec fn is_space_char(c: char) -> bool {
    ||| c == ' '
    ||| c == '\t'
    ||| c == '\n'
    ||| c == '\u{B}'
    ||| c == '\u{C}'
    ||| c == '\r'
    ||| c == '\u{85}'
    ||| c == '\u{A0}'
    ||| c == '\u{1680}'
    ||| c == '\u{2000}'
    ||| c == '\u{2001}'
    ||| c == '\u{2002}'
    ||| c == '\u{2003}'
    ||| c == '\u{2004}'
    ||| c == '\u{2005}'
    ||| c == '\u{2006}'
    ||| c == '\u{2007}'
    ||| c == '\u{2008}'
    ||| c == '\u{2009}'
    ||| c == '\u{200A}'
    ||| c == '\u{2028}'
    ||| c == '\u{2029}'
    ||| c == '\u{202F}'
    ||| c == '\u{205F}'
    ||| c == '\u{3000}'
}

fn is_space(c: char) -> (r: bool)
    ensures
        r == is_space_char(c),
{
    match c {
        ' ' | '\t' | '\n' | '\u{B}' | '\u{C}' | '\r' | '\u{85}' | '\u{A0}' | '\u{1680}'
            | '\u{2000}' | '\u{2001}' | '\u{2002}' | '\u{2003}' | '\u{2004}' | '\u{2005}'
            | '\u{2006}' | '\u{2007}' | '\u{2008}' | '\u{2009}' | '\u{200A}' | '\u{2028}'
            | '\u{2029}' | '\u{202F}' | '\u{205F}' | '\u{3000}' => true,
        _ => false,
    }
}

/// `s` without its leading whitespace.
pub open spec fn drop_leading(s: Seq<char>) -> Seq<char>
    decreases s.len(),
{
    if s.len() > 0 && is_space_char(s[0]) {
        drop_leading(s.subrange(1, s.len() as int))
    } else {
        s
    }
}

/// `s` without its trailing whitespace.
pub open spec fn drop_trailing(s: Seq<char>) -> Seq<char>
    decreases s.len(),
{
    if s.len() > 0 && is_space_char(s[s.len() - 1]) {
        drop_trailing(s.subrange(0, s.len() - 1))
    } else {
        s
    }
}

/// `s` without leading and trailing whitespace.
pub open spec fn spec_trim(s: Seq<char>) -> Seq<char> {
    drop_trailing(drop_leading(s))
}

/// When everything before `lo` is whitespace and `lo` itself is not (or
/// is the end), dropping leading whitespace is cutting at `lo`.
proof fn lemma_drop_leading_at(s: Seq<char>, lo: int)
    requires
        0 <= lo <= s.len(),
        forall|k: int| 0 <= k < lo ==> is_space_char(s[k]),
        lo < s.len() ==> !is_space_char(s[lo]),
    ensures
        drop_leading(s) == s.subrange(lo, s.len() as int),
    decreases lo,
{
    if lo == 0 {
        assert(s.subrange(0, s.len() as int) =~= s);
    } else {
        assert(is_space_char(s[0]));
        let sub = s.subrange(1, s.len() as int);
        assert forall|k: int| 0 <= k < lo - 1 implies is_space_char(sub[k]) by {
            assert(sub[k] == s[k + 1]);
        }
        lemma_drop_leading_at(sub, lo - 1);
        assert(sub.subrange(lo - 1, sub.len() as int) =~= s.subrange(lo, s.len() as int));
    }
}

/// When everything from `hi` on is whitespace and the character before
/// `hi` is not (or `hi` is the start), dropping trailing whitespace is
/// cutting at `hi`.
proof fn lemma_drop_trailing_at(s: Seq<char>, hi: int)
    requires
        0 <= hi <= s.len(),
        forall|k: int| hi <= k < s.len() ==> is_space_char(s[k]),
        hi > 0 ==> !is_space_char(s[hi - 1]),
    ensures
        drop_trailing(s) == s.subrange(0, hi),
    decreases s.len() - hi,
{
    if hi == s.len() {
        if s.len() > 0 {
            assert(!is_space_char(s[s.len() - 1]));
        }
        assert(s.subrange(0, s.len() as int) =~= s);
    } else {
        assert(is_space_char(s[s.len() - 1]));
        let sub = s.subrange(0, s.len() - 1);
        assert forall|k: int| hi <= k < sub.len() implies is_space_char(sub[k]) by {
            assert(sub[k] == s[k]);
        }
        lemma_drop_trailing_at(sub, hi);
        assert(sub.subrange(0, hi) =~= s.subrange(0, hi));
    }
}

/// The given text with leading and trailing whitespace removed.
fn trim_string(text: &str) -> (r: String)
    ensures
        r@ == spec_trim(text@),
{
    let v = str_chars(text);
    let n: usize = v.len();
    let mut lo: usize = 0;
    while lo < n && is_space(v[lo])
        invariant
            n == v@.len(),
            lo <= n,
            forall|k: int| 0 <= k < lo ==> is_space_char(v@[k]),
        decreases n - lo,
    {
        lo += 1;
    }
    let mut hi: usize = n;
    while hi > lo && is_space(v[hi - 1])
        invariant
            n == v@.len(),
            lo <= hi <= n,
            forall|k: int| hi <= k < n ==> is_space_char(v@[k]),
        decreases hi,
    {
        hi -= 1;
    }
    let part = extract(&v, lo, hi);
    proof {
        lemma_drop_leading_at(v@, lo as int);
        let mid = v@.subrange(lo as int, n as int);
        assert forall|k: int| hi - lo <= k < mid.len() implies is_space_char(mid[k]) by {
            assert(mid[k] == v@[k + lo]);
        }
        if hi > lo {
            assert(mid[hi - lo - 1] == v@[hi - 1]);
        }
        lemma_drop_trailing_at(mid, hi - lo);
        assert(mid.subrange(0, hi - lo) =~= v@.subrange(lo as int, hi as int));
    }
    chars_to_string(&part)
}

/// How one entry changes the history list: a blank entry and an
/// immediate repeat of the newest entry are dropped; otherwise the entry
/// is appended, displacing the oldest one when the list is full.
pub open spec fn spec_push(entries: Seq<Seq<char>>, cap: nat, t: Seq<char>) -> Seq<Seq<char>> {
    if t.len() == 0 {
        entries
    } else if entries.len() > 0 && entries.last() == t {
        entries
    } else if entries.len() == cap && entries.len() > 0 {
        entries.subrange(1, entries.len() as int).push(t)
    } else {
        entries.push(t)
    }
}

/// A bounded history of past inputs, newest last.
pub struct History {
    max_len: usize,
    inputs: VecDeque<String>,
}

impl History {
    /// The stored entries, newest last.
    pub closed spec fn entries(&self) -> Seq<Seq<char>> {
        self.inputs@.map_values(|s: String| s@)
    }

    /// The bound the history was created with.
    pub closed spec fn capacity(&self) -> nat {
        self.max_len as nat
    }

    /// An empty history that will hold at most `max_len` entries.
    pub fn new(max_len: usize) -> (h: History)
        ensures
            h.entries() == Seq::<Seq<char>>::empty(),
            h.capacity() == max_len as nat,
    {
        let h = History { max_len: max_len, inputs: VecDeque::new() };
        proof {
            assert(h.entries() =~= Seq::<Seq<char>>::empty());
        }
        h
    }

    /// How many entries are stored.
    pub fn len(&self) -> (r: usize)
        ensures
            r == self.entries().len(),
    {
        self.inputs.len()
    }

    /// Record one input: trimmed of whitespace, dropped when blank or
    /// equal to the newest entry, and displacing the oldest entry when
    /// the history is full.
    pub fn push(&mut self, input: &str)
        ensures
            final(self).capacity() == old(self).capacity(),
            final(self).entries() == spec_push(
                old(self).entries(),
                old(self).capacity(),
                spec_trim(input@),
            ),
    {
        let trimmed = trim_string(input);
        if trimmed.as_str().is_empty() {
            return ;
        }
        let push = {
            let len = self.len();
            if len == 0 {
                true
            } else {
                let last = self.get(len - 1).unwrap();
                *last != trimmed
            }
        };
        if push {
            let ghost entries0 = self.entries();
            if self.len() == self.max_len {
                self.inputs.pop_front();
                proof {
                    if entries0.len() > 0 {
                        assert(self.entries() =~= entries0.subrange(1, entries0.len() as int));
                    } else {
                        assert(self.entries() =~= entries0);
                    }
                }
            }
            let ghost entries1 = self.entries();
            self.inputs.push_back(trimmed);
            proof {
                assert(self.entries() =~= entries1.push(trimmed@));
            }
        }
    }

    /// Whether the history holds no entries.
    pub fn is_empty(&self) -> (r: bool)
        ensures
            r == (self.entries().len() == 0),
    {
        self.inputs.len() == 0
    }

    /// The entry at `index`, oldest first, if the index is in range.
    pub fn get(&self, index: usize) -> (r: Option<&String>)
        ensures
            match r {
                Some(s) => index < self.entries().len() && s@ == self.entries()[index as int],
                None => index >= self.entries().len(),
            },
    {
        if index < self.inputs.len() {
            Some(&self.inputs[index])
        } else {
            None
        }
    }
}

} // verus!
