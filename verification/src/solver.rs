//! The contest solver: a small tokenizer over a byte buffer and the search
//! for the first occurrence of "ABC" in the subject line, answered as a
//! one-based position or minus one.

use vstd::prelude::*;
use vstd::string::*;
use std::collections::VecDeque;
use crate::text::{ascii_chars, int_str, i64_to_string, parse_i64, parsed_i64, string_from_ascii};

verus! {

/// Whether every byte is ASCII, so that each byte is one character.
pub open spec fn ascii_only(s: Seq<u8>) -> bool {
    forall|i: int| 0 <= i < s.len() ==> s[i] < 128
}

/// How the raw input is cut into tokens.
#[allow(non_camel_case_types)]
#[derive(Clone, Copy, PartialEq, Eq, Structural, Debug)]
pub enum Separation {
    LINE,
    WORD,
    CHAR,
}

/// The separator byte of a separation mode; the character mode uses none.
pub open spec fn sep_byte(sep: Separation) -> u8 {
    match sep {
        Separation::LINE => 10,
        Separation::WORD => 32,
        Separation::CHAR => 0,
    }
}

/// The bytes before the first occurrence of `b`, or the whole sequence when
/// `b` does not occur.
pub open spec fn token_of(s: Seq<u8>, b: u8) -> Seq<u8>
    decreases s.len(),
{
    if s.len() == 0 {
        Seq::empty()
    } else if s[0] == b {
        Seq::empty()
    } else {
        seq![s[0]] + token_of(s.drop_first(), b)
    }
}

/// What remains after the token and the separator that ended it are
/// consumed; empty when `b` does not occur.
pub open spec fn rest_of(s: Seq<u8>, b: u8) -> Seq<u8>
    decreases s.len(),
{
    if s.len() == 0 {
        s
    } else if s[0] == b {
        s.drop_first()
    } else {
        rest_of(s.drop_first(), b)
    }
}

proof fn lemma_token_len(s: Seq<u8>, b: u8)
    ensures
        token_of(s, b).len() <= s.len(),
        rest_of(s, b).len() <= s.len(),
    decreases s.len(),
{
    if s.len() > 0 && s[0] != b {
        lemma_token_len(s.drop_first(), b);
    }
}

/// The token that the next read returns: for the character mode one byte as
/// a character; otherwise the bytes before the next separator, unless the
/// buffer is exhausted.
pub open spec fn spec_next_str(sep: Separation, buf: Seq<u8>) -> Option<Seq<char>> {
    if buf.len() == 0 {
        None
    } else {
        match sep {
            Separation::CHAR => Some(seq![buf[0] as char]),
            _ => Some(ascii_chars(token_of(buf, sep_byte(sep)))),
        }
    }
}

/// The buffer left behind by the next read.
pub open spec fn spec_next_rest(sep: Separation, buf: Seq<u8>) -> Seq<u8> {
    if buf.len() == 0 {
        buf
    } else {
        match sep {
            Separation::CHAR => buf.drop_first(),
            _ => rest_of(buf, sep_byte(sep)),
        }
    }
}

/// What the next read parses to, when the token is a decimal integer.
pub open spec fn spec_next_i64(sep: Separation, buf: Seq<u8>) -> Option<i64> {
    match spec_next_str(sep, buf) {
        Option::None => None,
        Option::Some(t) => match parsed_i64(t) {
            Option::Some(v) => Some(v as i64),
            Option::None => None,
        },
    }
}

/// A cursor over the raw input bytes, cut into tokens by a separation mode.
pub struct Input {
    pub sep: Separation,
    pub buffer: VecDeque<u8>,
}

impl Input {
    /// Reads the next token: `None` exactly when the buffer is exhausted.
    pub fn next_str(&mut self) -> (r: Option<String>)
        requires
            ascii_only(old(self).buffer@),
        ensures
            final(self).sep == old(self).sep,
            ascii_only(final(self).buffer@),
            final(self).buffer@ == spec_next_rest(old(self).sep, old(self).buffer@),
            match r {
                Option::Some(s) => spec_next_str(old(self).sep, old(self).buffer@) == Option::Some(
                    s@,
                ),
                Option::None => spec_next_str(old(self).sep, old(self).buffer@) is None,
            },
    {
        let s: u8 = match self.sep {
            Separation::LINE => 10,
            Separation::WORD => 32,
            Separation::CHAR => {
                return match self.buffer.pop_front() {
                    None => None,
                    Some(x) => {
                        let mut one: Vec<u8> = Vec::new();
                        one.push(x);
                        let st = string_from_ascii(one);
                        proof {
                            assert(st@ =~= seq![old(self).buffer@[0] as char]);
                        }
                        Some(st)
                    },
                };
            },
        };
        if self.buffer.len() == 0 {
            return None;
        }
        let ghost buf0 = self.buffer@;
        let mut result_bytes: Vec<u8> = Vec::new();
        loop
            invariant_except_break
                token_of(buf0, s) == result_bytes@ + token_of(self.buffer@, s),
                rest_of(buf0, s) == rest_of(self.buffer@, s),
            invariant
                self.sep == old(self).sep,
                ascii_only(self.buffer@),
                ascii_only(result_bytes@),
            ensures
                self.sep == old(self).sep,
                ascii_only(self.buffer@),
                ascii_only(result_bytes@),
                result_bytes@ == token_of(buf0, s),
                self.buffer@ == rest_of(buf0, s),
            decreases self.buffer@.len(),
        {
            let ghost before = self.buffer@;
            match self.buffer.pop_front() {
                Some(v) => {
                    if v == s {
                        proof {
                            assert(token_of(before, s) =~= Seq::<u8>::empty());
                            assert(result_bytes@ =~= token_of(buf0, s));
                            assert(rest_of(before, s) =~= self.buffer@);
                        }
                        break ;
                    }
                    result_bytes.push(v);
                    proof {
                        assert(before.drop_first() =~= self.buffer@);
                        assert(token_of(before, s) =~= seq![v] + token_of(self.buffer@, s));
                        assert(result_bytes@ + token_of(self.buffer@, s) =~= token_of(buf0, s));
                    }
                },
                _ => {
                    proof {
                        assert(token_of(before, s) =~= Seq::<u8>::empty());
                        assert(result_bytes@ =~= token_of(buf0, s));
                        assert(rest_of(before, s) =~= self.buffer@);
                    }
                    break ;
                },
            }
        }
        let st = string_from_ascii(result_bytes);
        return Some(st);
    }

    /// Reads the next token and parses it as a decimal integer; the caller
    /// promises that the token, if any, is one.
    pub fn next_i64(&mut self) -> (r: Option<i64>)
        requires
            ascii_only(old(self).buffer@),
            match spec_next_str(old(self).sep, old(self).buffer@) {
                Option::Some(t) => parsed_i64(t) is Some,
                Option::None => true,
            },
        ensures
            final(self).sep == old(self).sep,
            ascii_only(final(self).buffer@),
            final(self).buffer@ == spec_next_rest(old(self).sep, old(self).buffer@),
            r == spec_next_i64(old(self).sep, old(self).buffer@),
    {
        let v = match self.next_str() {
            None => {
                return None;
            },
            Some(v) => v,
        };
        match parse_i64(v.as_str()) {
            Some(n) => Some(n),
            None => {
                proof {
                    assert(false);
                }
                None
            },
        }
    }
}

/// Wraps raw input bytes into a token cursor.
pub fn input(buf: Vec<u8>, sep: Separation) -> (inp: Input)
    requires
        ascii_only(buf@),
    ensures
        inp.sep == sep,
        inp.buffer@ == buf@,
{
    let mut q: VecDeque<u8> = VecDeque::new();
    let n = buf.len();
    let mut i: usize = 0;
    while i < n
        invariant
            0 <= i <= n,
            n == buf@.len(),
            q@ == buf@.take(i as int),
        decreases n - i,
    {
        q.push_back(buf[i]);
        i = i + 1;
    }
    proof {
        assert(q@ =~= buf@);
    }
    Input { sep: sep, buffer: q }
}

/// Whether "ABC" occurs in `s` starting at position `i`.
pub open spec fn has_abc_at(s: Seq<char>, i: int) -> bool {
    &&& 0 <= i
    &&& i + 3 <= s.len()
    &&& s[i] == 'A'
    &&& s[i + 1] == 'B'
    &&& s[i + 2] == 'C'
}

/// The one-based position of the first occurrence of "ABC" at or after `i`,
/// or minus one when there is none.
pub open spec fn first_abc_from(s: Seq<char>, i: int) -> int
    recommends
        0 <= i,
    decreases s.len() - i,
{
    if i < 0 || i + 3 > s.len() {
        -1
    } else if has_abc_at(s, i) {
        i + 1
    } else {
        first_abc_from(s, i + 1)
    }
}

/// The answer for a subject line: the one-based position of the first
/// occurrence of "ABC", or minus one when the line has none.
pub open spec fn abc_answer(s: Seq<char>) -> int {
    first_abc_from(s, 0)
}

proof fn lemma_first_abc_found(s: Seq<char>, i: int, j0: int)
    requires
        0 <= i <= j0,
        has_abc_at(s, j0),
        forall|j: int| i <= j < j0 ==> !has_abc_at(s, j),
    ensures
        first_abc_from(s, i) == j0 + 1,
    decreases j0 - i,
{
    if i < j0 {
        lemma_first_abc_found(s, i + 1, j0);
    }
}

proof fn lemma_first_abc_absent(s: Seq<char>, i: int)
    requires
        0 <= i,
        forall|j: int| i <= j && j + 3 <= s.len() ==> !has_abc_at(s, j),
    ensures
        first_abc_from(s, i) == -1,
    decreases s.len() - i,
{
    if i + 3 <= s.len() {
        lemma_first_abc_absent(s, i + 1);
    }
}

/// The subject line of the raw input: the token after the first line.
pub open spec fn spec_subject_line(data: Seq<u8>) -> Seq<char> {
    match spec_next_str(Separation::LINE, spec_next_rest(Separation::LINE, data)) {
        Option::Some(t) => t,
        Option::None => Seq::empty(),
    }
}

/// Scans `line` for the first occurrence of "ABC": its one-based position,
/// or minus one when there is none.
pub fn first_abc_position(line: &str) -> (ans: i32)
    requires
        line@.len() <= i32::MAX,
    ensures
        ans == abc_answer(line@),
{
    let n = line.unicode_len();
    let ghost lc = line@;
    let mut p: u8 = 0;
    let mut k: usize = 0;
    while k < n
        invariant
            lc == line@,
            0 <= k <= n,
            n == lc.len(),
            n <= i32::MAX,
            0 <= p <= 2,
            (p == 1) <==> (k >= 1 && lc[k - 1] == 'A'),
            (p == 2) <==> (k >= 2 && lc[k - 2] == 'A' && lc[k - 1] == 'B'),
            forall|j: int| 0 <= j && j + 3 <= k ==> !has_abc_at(lc, j),
        ensures
            (k < n && has_abc_at(lc, k - 2) && forall|j: int|
                0 <= j && j + 3 <= k ==> !has_abc_at(lc, j)) || (k == n && forall|j: int|
                0 <= j && j + 3 <= n ==> !has_abc_at(lc, j)),
        decreases n - k,
    {
        let c = line.get_char(k);
        if p == 2 && c == 'C' {
            proof {
                assert(has_abc_at(lc, k - 2));
            }
            break ;
        }
        if c == 'A' {
            p = 1;
        } else if p == 1 && c == 'B' {
            p = 2;
        } else {
            p = 0;
        }
        k = k + 1;
    }
    if k < n {
        // The first occurrence ends at `k`, so it starts at `k - 2`,
        // one-based `k - 1`.
        proof {
            lemma_first_abc_found(lc, 0, k - 2);
        }
        (k as i32) - 1
    } else {
        proof {
            lemma_first_abc_absent(lc, 0);
        }
        -1
    }
}

/// Solves one raw input: skips the leading count line, finds the first
/// occurrence of "ABC" in the subject line, and renders the answer as a
/// decimal line.
pub fn solve(data: Vec<u8>) -> (out: String)
    requires
        ascii_only(data@),
        data@.len() <= i32::MAX,
        match spec_next_str(Separation::LINE, data@) {
            Option::Some(t) => parsed_i64(t) is Some,
            Option::None => true,
        },
    ensures
        out@ == int_str(abc_answer(spec_subject_line(data@))) + seq!['\n'],
{
    let ghost data0 = data@;
    let mut inp = input(data, Separation::LINE);
    let _ = inp.next_i64();
    let line = match inp.next_str() {
        Some(v) => v,
        _ => String::new(),
    };
    proof {
        assert(line@ == spec_subject_line(data0));
        lemma_token_len(data0, 10);
        lemma_token_len(rest_of(data0, 10), 10);
    }
    let ans = first_abc_position(line.as_str());
    let mut out = i64_to_string(ans as i64);
    out.append("\n");
    proof {
        reveal_strlit("\n");
        assert(out@ =~= int_str(abc_answer(spec_subject_line(data0))) + seq!['\n']);
    }
    out
}

} // verus!
