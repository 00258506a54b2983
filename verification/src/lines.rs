//! Splitting text into lines and into pieces, and the passage between
//! strings and the character sequences the parser works on.

use vstd::prelude::*;
use vstd::slice::{slice_subrange, slice_to_vec};
use crate::text::{first_of, find_first_of, CharClass};

verus! {

/// `line` without one carriage return at its end.
pub open spec fn without_carriage_return(line: Seq<char>) -> Seq<char> {
    if line.len() > 0 && line.last() == '\r' {
        line.drop_last()
    } else {
        line
    }
}

/// The lines of a document. A line ends at a line feed; a carriage return
/// directly before that line feed belongs to the line ending. The last line
/// needs no line ending, and no empty line follows a final line ending.
pub open spec fn lines_of(s: Seq<char>) -> Seq<Seq<char>>
    decreases s.len(),
{
    let k = first_of(s, CharClass::Only('\n')) as int;
    if s.len() == 0 {
        Seq::empty()
    } else if 0 <= k < s.len() {
        seq![without_carriage_return(s.take(k))] + lines_of(s.skip(k + 1))
    } else {
        seq![s]
    }
}

/// The pieces of `s` between the occurrences of `sep`; one more piece than
/// there are separators.
pub open spec fn pieces_of(s: Seq<char>, sep: char) -> Seq<Seq<char>>
    decreases s.len(),
{
    let k = first_of(s, CharClass::Only(sep)) as int;
    if 0 <= k < s.len() {
        seq![s.take(k)] + pieces_of(s.skip(k + 1), sep)
    } else {
        seq![s]
    }
}

/// The texts in `v`, each as a sequence of characters.
pub open spec fn texts(v: Seq<Vec<char>>) -> Seq<Seq<char>> {
    v.map_values(|t: Vec<char>| t@)
}

/// The pieces in `v`, each as a sequence of characters.
pub open spec fn pieces(v: Seq<&[char]>) -> Seq<Seq<char>> {
    v.map_values(|p: &[char]| p@)
}

/// Splits a document into its lines.
pub fn split_lines(s: &[char]) -> (r: Vec<Vec<char>>)
    ensures
        texts(r@) == lines_of(s@),
{
    let mut out: Vec<Vec<char>> = Vec::new();
    let mut start: usize = 0;
    proof {
        assert(s@.skip(0) == s@);
    }
    while start < s.len()
        invariant
            start <= s.len(),
            texts(out@) + lines_of(s@.skip(start as int)) == lines_of(s@),
        decreases s.len() - start,
    {
        let rest = slice_subrange(s, start, s.len());
        let k = find_first_of(rest, CharClass::Only('\n'));
        if k >= rest.len() {
            out.push(slice_to_vec(rest));
            start = s.len();
        } else {
            let end = if k > 0 && rest[k - 1] == '\r' {
                k - 1
            } else {
                k
            };
            let line = slice_subrange(rest, 0, end);
            out.push(slice_to_vec(line));
            proof {
                assert(line@ == without_carriage_return(rest@.take(k as int)));
                assert(rest@.skip(k + 1) == s@.skip(start + k + 1));
            }
            start = start + k + 1;
        }
    }
    out
}

/// Splits `s` at each occurrence of `sep`.
pub fn split_on(s: &[char], sep: char) -> (r: Vec<&[char]>)
    ensures
        pieces(r@) == pieces_of(s@, sep),
{
    let mut out: Vec<&[char]> = Vec::new();
    let mut start: usize = 0;
    proof {
        assert(s@.skip(0) == s@);
    }
    loop
        invariant_except_break
            start <= s.len(),
            pieces(out@) + pieces_of(s@.skip(start as int), sep) == pieces_of(s@, sep),
        ensures
            pieces(out@) == pieces_of(s@, sep),
        decreases s.len() - start,
    {
        let rest = slice_subrange(s, start, s.len());
        let k = find_first_of(rest, CharClass::Only(sep));
        if k >= rest.len() {
            out.push(rest);
            break;
        }
        let piece = slice_subrange(rest, 0, k);
        out.push(piece);
        proof {
            assert(rest@.skip(k + 1) == s@.skip(start + k + 1));
        }
        start = start + k + 1;
    }
    out
}

/// The characters of a string.
pub fn to_chars(s: &str) -> (r: Vec<char>)
    ensures
        r@ == s@,
{
    let mut out: Vec<char> = Vec::new();
    for c in it: s.chars()
        invariant
            out@ == it.seq().take(it.index() as int),
            it.seq() == s@,
    {
        out.push(c);
    }
    out
}

/// Appends the characters of `s` to `out`.
pub fn push_str(out: &mut Vec<char>, s: &str)
    ensures
        final(out)@ == old(out)@ + s@,
{
    let ghost start = out@;
    for c in it: s.chars()
        invariant
            out@ == start + it.seq().take(it.index() as int),
            it.seq() == s@,
    {
        out.push(c);
    }
}

/// Appends the characters of `s` to `out`.
pub fn push_chars(out: &mut Vec<char>, s: &[char])
    ensures
        final(out)@ == old(out)@ + s@,
{
    out.extend_from_slice(s);
}

/// Collects characters into a string with `String::from_iter`: the string
/// holds exactly the characters of `s`, in their order.
#[verifier::external_body]
pub(crate) fn collect_string(s: &[char]) -> (r: String)
    ensures
        r@ == s@,
{
    String::from_iter(s.iter())
}

} // verus!
