//! Text as a sequence of characters: reading it out of a string, and the
//! scans that the parser is built from.

use super::grammar::{in_run, is_whitespace, run_len, Run};
use vstd::prelude::*;

verus! {

/// `String::push` of the standard library appends the character to the end
/// of the string.
pub assume_specification[ String::push ](s: &mut String, ch: char)
    ensures
        final(s)@ == old(s)@.push(ch),
;

/// The characters of `s`, in order.
pub fn chars_of(s: &str) -> (v: Vec<char>)
    ensures
        v@ == s@,
{
    let mut v: Vec<char> = Vec::new();
    for c in it: s.chars()
        invariant
            v@ == it.seq().take(it.index()),
            it.seq() == s@,
    {
        v.push(c);
    }
    v
}

/// Whether `a` and `b` hold the same characters.
pub fn same_text(a: &str, b: &str) -> (r: bool)
    ensures
        r == (a@ == b@),
{
    let x = a.as_bytes();
    let y = b.as_bytes();
    proof {
        vstd::utf8::encode_utf8_decode_utf8(a@);
        vstd::utf8::encode_utf8_decode_utf8(b@);
    }
    if x.len() != y.len() {
        return false;
    }
    let mut i: usize = 0;
    while i < x.len()
        invariant
            i <= x.len() == y.len(),
            x@ == vstd::utf8::encode_utf8(a@),
            y@ == vstd::utf8::encode_utf8(b@),
            forall|k: int| 0 <= k < i ==> x[k] == y[k],
        decreases x.len() - i,
    {
        if x[i] != y[i] {
            assert(x@[i as int] != y@[i as int]);
            return false;
        }
        i = i + 1;
    }
    assert(x@ =~= y@);
    true
}

/// What is left of `s` from its character `from` on.
pub(crate) fn rest_of(s: &str, from: usize, len: usize) -> (rest: &str)
    requires
        from <= len,
        len == s@.len(),
    ensures
        rest@ == s@.skip(from as int),
{
    s.substring_char(from, len)
}

/// How positions in a text and the texts that are left at them go together.
pub proof fn lemma_skip(text: Seq<char>, p: int, n: int)
    requires
        0 <= p,
        0 <= n,
        p + n <= text.len(),
    ensures
        text.skip(0) == text,
        text.skip(p).len() == text.len() - p,
        text.skip(p).skip(n) == text.skip(p + n),
        text.skip(p).take(n) == text.subrange(p, p + n),
        n > 0 ==> text.skip(p)[0] == text[p],
        n < text.skip(p).len() ==> text.skip(p)[n] == text[p + n],
{
    assert(text.skip(0) =~= text);
    assert(text.skip(p).skip(n) =~= text.skip(p + n));
    assert(text.skip(p).take(n) =~= text.subrange(p, p + n));
}

/// A run never reaches beyond the text.
pub proof fn lemma_run_len_bound(run: Run, s: Seq<char>)
    ensures
        run_len(run, s) <= s.len(),
        run_len(run, s) < s.len() ==> !in_run(run, s[run_len(run, s) as int]),
        forall|i: int| 0 <= i < run_len(run, s) ==> in_run(run, #[trigger] s[i]),
    decreases s.len(),
{
    if s.len() > 0 && in_run(run, s[0]) {
        let t = s.skip(1);
        lemma_run_len_bound(run, t);
        assert forall|i: int| 0 <= i < run_len(run, s) implies in_run(run, #[trigger] s[i]) by {
            if i > 0 {
                assert(s[i] == t[i - 1]);
            }
        }
        if run_len(run, s) < s.len() {
            assert(s[run_len(run, s) as int] == t[run_len(run, t) as int]);
        }
    }
}

/// Whether `c` is white space.
pub fn char_is_whitespace(c: char) -> (b: bool)
    ensures
        b == is_whitespace(c),
{
    let n: u32 = c as u32;
    (0x09 <= n && n <= 0x0d) || n == 0x20 || n == 0x85 || n == 0xa0 || n == 0x1680 || (0x2000 <= n
        && n <= 0x200a) || n == 0x2028 || n == 0x2029 || n == 0x202f || n == 0x205f || n == 0x3000
}

/// Whether `c` may stand in a run of the given kind.
pub fn char_in_run(run: Run, c: char) -> (b: bool)
    ensures
        b == in_run(run, c),
{
    match run {
        Run::Token => c >= '0' && c <= '9',
        Run::Variable => c != '=' && c != ',' && !char_is_whitespace(c),
        Run::Class => c != ',' && c != '\n',
        Run::Newlines => c == '\n',
    }
}

/// The place where the run that begins at `pos` ends.
pub(crate) fn run_end(text: &[char], pos: usize, run: Run) -> (end: usize)
    requires
        pos <= text.len(),
    ensures
        end == pos + run_len(run, text@.skip(pos as int)),
        pos <= end <= text.len(),
{
    let mut p: usize = pos;
    while p < text.len() && char_in_run(run, text[p])
        invariant
            pos <= p <= text.len(),
            p + run_len(run, text@.skip(p as int)) == pos + run_len(run, text@.skip(pos as int)),
        decreases text.len() - p,
    {
        proof {
            lemma_skip(text@, p as int, 1);
        }
        p = p + 1;
    }
    proof {
        if p < text.len() {
            lemma_skip(text@, p as int, 1);
        }
    }
    p
}

/// The characters of `text` from `from` up to `to`, as a string.
pub(crate) fn copy_range(text: &[char], from: usize, to: usize) -> (out: String)
    requires
        from <= to <= text.len(),
    ensures
        out@ == text@.subrange(from as int, to as int),
{
    let mut out = String::new();
    let mut p: usize = from;
    while p < to
        invariant
            from <= p <= to <= text.len(),
            out@ == text@.subrange(from as int, p as int),
        decreases to - p,
    {
        out.push(text[p]);
        p = p + 1;
        assert(out@ =~= text@.subrange(from as int, p as int));
    }
    out
}

} // verus!
