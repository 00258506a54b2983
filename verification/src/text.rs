//! Character classes and the text operations the parser is built from,
//! each given as a function on sequences of characters together with the
//! executable function that computes it.

use vstd::prelude::*;
use vstd::slice::slice_subrange;

verus! {

/// White space: the code points that carry Unicode's `White_Space` property.
pub open spec fn is_white_space(c: char) -> bool {
    let n = c as u32;
    ||| 0x09 <= n <= 0x0D
    ||| n == 0x20
    ||| n == 0x85
    ||| n == 0xA0
    ||| n == 0x1680
    ||| 0x2000 <= n <= 0x200A
    ||| n == 0x2028
    ||| n == 0x2029
    ||| n == 0x202F
    ||| n == 0x205F
    ||| n == 0x3000
}

/// A set of characters that text is stripped of or searched for.
#[derive(Clone, Copy, Debug)]
pub enum CharClass {
    /// Every white-space character.
    WhiteSpace,
    /// One character.
    Only(char),
    /// Either of two characters.
    Either(char, char),
}

impl CharClass {
    /// Whether `c` belongs to the class.
    pub open spec fn holds(self, c: char) -> bool {
        match self {
            CharClass::WhiteSpace => is_white_space(c),
            CharClass::Only(a) => c == a,
            CharClass::Either(a, b) => c == a || c == b,
        }
    }

    /// Tells whether `c` belongs to the class.
    pub fn test(&self, c: char) -> (r: bool)
        ensures
            r == self.holds(c),
    {
        match self {
            CharClass::WhiteSpace => white_space(c),
            CharClass::Only(a) => c == *a,
            CharClass::Either(a, b) => c == *a || c == *b,
        }
    }
}

/// Number of characters of `class` at the start of `s`.
pub open spec fn leading(s: Seq<char>, class: CharClass) -> nat
    decreases s.len(),
{
    if s.len() > 0 && class.holds(s[0]) {
        1 + leading(s.drop_first(), class)
    } else {
        0
    }
}

/// Number of characters of `class` at the end of `s`.
pub open spec fn trailing(s: Seq<char>, class: CharClass) -> nat
    decreases s.len(),
{
    if s.len() > 0 && class.holds(s.last()) {
        1 + trailing(s.drop_last(), class)
    } else {
        0
    }
}

/// `s` without the characters of `class` at its start.
pub open spec fn stripped_start(s: Seq<char>, class: CharClass) -> Seq<char> {
    s.skip(leading(s, class) as int)
}

/// `s` without the characters of `class` at its end.
pub open spec fn stripped_end(s: Seq<char>, class: CharClass) -> Seq<char> {
    s.take(s.len() - trailing(s, class))
}

/// `s` without the characters of `class` at its start and at its end.
pub open spec fn stripped(s: Seq<char>, class: CharClass) -> Seq<char> {
    stripped_end(stripped_start(s, class), class)
}

/// `s` without its leading white space.
pub open spec fn trimmed_start(s: Seq<char>) -> Seq<char> {
    stripped_start(s, CharClass::WhiteSpace)
}

/// `s` without leading and trailing white space.
pub open spec fn trimmed(s: Seq<char>) -> Seq<char> {
    stripped(s, CharClass::WhiteSpace)
}

/// Whether `s` holds white space only; the empty text is blank.
pub open spec fn is_blank(s: Seq<char>) -> bool {
    forall|i: int| 0 <= i < s.len() ==> is_white_space(#[trigger] s[i])
}

/// Position of the first character of `class` in `s`, or the length of `s`
/// where it holds none.
pub open spec fn first_of(s: Seq<char>, class: CharClass) -> nat
    decreases s.len(),
{
    if s.len() > 0 && !class.holds(s[0]) {
        1 + first_of(s.drop_first(), class)
    } else {
        0
    }
}

/// The leading run of `class` in `s` ends at `n`: every character before `n`
/// is of the class, and `n` is the end of `s` or holds another character.
pub proof fn lemma_leading(s: Seq<char>, class: CharClass, n: int)
    requires
        0 <= n <= s.len(),
        forall|j: int| 0 <= j < n ==> class.holds(#[trigger] s[j]),
        n < s.len() ==> !class.holds(s[n]),
    ensures
        leading(s, class) == n,
    decreases n,
{
    if n > 0 {
        let rest = s.drop_first();
        assert forall|j: int| 0 <= j < n - 1 implies class.holds(#[trigger] rest[j]) by {}
        lemma_leading(rest, class, n - 1);
    }
}

/// What `leading` counts: a run of the class, ended by another character or
/// by the end of `s`.
pub proof fn lemma_leading_run(s: Seq<char>, class: CharClass)
    ensures
        leading(s, class) <= s.len(),
        forall|j: int| 0 <= j < leading(s, class) ==> class.holds(#[trigger] s[j]),
        leading(s, class) < s.len() ==> !class.holds(s[leading(s, class) as int]),
    decreases s.len(),
{
    if s.len() > 0 && class.holds(s[0]) {
        let rest = s.drop_first();
        lemma_leading_run(rest, class);
        assert forall|j: int| 0 <= j < leading(s, class) implies class.holds(#[trigger] s[j]) by {
            if j > 0 {
                assert(s[j] == rest[j - 1]);
            }
        }
    }
}

/// The trailing run of `class` in `s` starts at `n`.
pub proof fn lemma_trailing(s: Seq<char>, class: CharClass, n: int)
    requires
        0 <= n <= s.len(),
        forall|j: int| n <= j < s.len() ==> class.holds(#[trigger] s[j]),
        n > 0 ==> !class.holds(s[n - 1]),
    ensures
        trailing(s, class) == s.len() - n,
    decreases s.len() - n,
{
    if n < s.len() {
        lemma_trailing(s.drop_last(), class, n);
    }
}

/// What `trailing` counts.
pub proof fn lemma_trailing_run(s: Seq<char>, class: CharClass)
    ensures
        trailing(s, class) <= s.len(),
        forall|j: int| s.len() - trailing(s, class) <= j < s.len() ==> class.holds(#[trigger] s[j]),
        trailing(s, class) < s.len() ==> !class.holds(s[s.len() - trailing(s, class) - 1]),
    decreases s.len(),
{
    if s.len() > 0 && class.holds(s.last()) {
        let rest = s.drop_last();
        lemma_trailing_run(rest, class);
        assert forall|j: int| s.len() - trailing(s, class) <= j < s.len() implies class.holds(
            #[trigger] s[j],
        ) by {
            if j < s.len() - 1 {
                assert(s[j] == rest[j]);
            }
        }
    }
}

/// Stripping `s` of `class` leaves the part from `a` to `b`: everything
/// before `a` and from `b` on is of the class, and the part is empty or has
/// another character at each end.
pub proof fn lemma_stripped(s: Seq<char>, class: CharClass, a: int, b: int)
    requires
        0 <= a <= b <= s.len(),
        forall|j: int| 0 <= j < a ==> class.holds(#[trigger] s[j]),
        forall|j: int| b <= j < s.len() ==> class.holds(#[trigger] s[j]),
        a < b ==> !class.holds(s[a]) && !class.holds(s[b - 1]),
    ensures
        stripped(s, class) == s.subrange(a, b),
{
    if a < b {
        lemma_leading(s, class, a);
        let rest = s.skip(a);
        assert forall|j: int| b - a <= j < rest.len() implies class.holds(#[trigger] rest[j]) by {
            assert(rest[j] == s[j + a]);
        }
        lemma_trailing(rest, class, b - a);
        assert(rest.take(b - a) == s.subrange(a, b));
    } else {
        lemma_leading_run(s, class);
        let n = leading(s, class) as int;
        if n < s.len() {
            assert(class.holds(s[n]));
        }
        let rest = s.skip(n);
        assert(rest.len() == 0);
        assert(stripped(s, class) == Seq::<char>::empty());
        assert(s.subrange(a, b) == Seq::<char>::empty());
    }
}

/// What stripping leaves: the part of `s` between the leading and the
/// trailing run of `class`, or nothing where `s` holds `class` only.
pub proof fn lemma_stripped_part(s: Seq<char>, class: CharClass) -> (part: (int, int))
    ensures
        0 <= part.0 <= part.1 <= s.len(),
        stripped(s, class) == s.subrange(part.0, part.1),
        forall|j: int| 0 <= j < part.0 ==> class.holds(#[trigger] s[j]),
        forall|j: int| part.1 <= j < s.len() ==> class.holds(#[trigger] s[j]),
        part.0 < part.1 ==> !class.holds(s[part.0]) && !class.holds(s[part.1 - 1]),
        part.0 == part.1 ==> part.0 == s.len(),
{
    lemma_leading_run(s, class);
    lemma_trailing_run(s, class);
    let a = leading(s, class) as int;
    let b = s.len() - trailing(s, class);
    if a < s.len() {
        assert(!class.holds(s[a]));
        assert(a < b);
        lemma_stripped(s, class, a, b);
        (a, b)
    } else {
        lemma_stripped(s, class, a, a);
        (a, a)
    }
}

/// The first character of `class` in `s` stands at `n`, or `n` is the length
/// of `s` and `s` holds none.
pub proof fn lemma_first_of(s: Seq<char>, class: CharClass, n: int)
    requires
        0 <= n <= s.len(),
        forall|j: int| 0 <= j < n ==> !class.holds(#[trigger] s[j]),
        n < s.len() ==> class.holds(s[n]),
    ensures
        first_of(s, class) == n,
    decreases n,
{
    if n > 0 {
        let rest = s.drop_first();
        assert forall|j: int| 0 <= j < n - 1 implies !class.holds(#[trigger] rest[j]) by {}
        lemma_first_of(rest, class, n - 1);
    }
}

/// What `first_of` finds.
pub proof fn lemma_first_of_found(s: Seq<char>, class: CharClass)
    ensures
        first_of(s, class) <= s.len(),
        forall|j: int| 0 <= j < first_of(s, class) ==> !class.holds(#[trigger] s[j]),
        first_of(s, class) < s.len() ==> class.holds(s[first_of(s, class) as int]),
    decreases s.len(),
{
    if s.len() > 0 && !class.holds(s[0]) {
        let rest = s.drop_first();
        lemma_first_of_found(rest, class);
        assert forall|j: int| 0 <= j < first_of(s, class) implies !class.holds(#[trigger] s[j]) by {
            if j > 0 {
                assert(s[j] == rest[j - 1]);
            }
        }
    }
}

/// The decimal digit for `d`.
pub open spec fn digit(d: nat) -> char
    recommends
        d < 10,
{
    (0x30 + d) as char
}

/// `n` in decimal notation.
pub open spec fn decimal(n: nat) -> Seq<char>
    decreases n,
{
    if n < 10 {
        seq![digit(n)]
    } else {
        decimal(n / 10).push(digit(n % 10))
    }
}

/// Tells whether `c` is white space.
pub fn white_space(c: char) -> (r: bool)
    ensures
        r == is_white_space(c),
{
    let n: u32 = c as u32;
    (0x09 <= n && n <= 0x0D) || n == 0x20 || n == 0x85 || n == 0xA0 || n == 0x1680 || (0x2000 <= n
        && n <= 0x200A) || n == 0x2028 || n == 0x2029 || n == 0x202F || n == 0x205F || n == 0x3000
}

/// Counts the characters of `class` at the start of `s`.
pub fn count_leading(s: &[char], class: CharClass) -> (n: usize)
    ensures
        n == leading(s@, class),
        n <= s@.len(),
{
    let mut i: usize = 0;
    while i < s.len() && class.test(s[i])
        invariant
            i <= s.len(),
            forall|j: int| 0 <= j < i ==> class.holds(#[trigger] s@[j]),
        decreases s.len() - i,
    {
        i += 1;
    }
    proof {
        lemma_leading(s@, class, i as int);
    }
    i
}

/// Counts the characters of `class` at the end of `s`.
pub fn count_trailing(s: &[char], class: CharClass) -> (n: usize)
    ensures
        n == trailing(s@, class),
        n <= s@.len(),
{
    let mut i: usize = s.len();
    while i > 0 && class.test(s[i - 1])
        invariant
            i <= s.len(),
            forall|j: int| i <= j < s.len() ==> class.holds(#[trigger] s@[j]),
        decreases i,
    {
        i -= 1;
    }
    proof {
        lemma_trailing(s@, class, i as int);
    }
    s.len() - i
}

/// Strips the characters of `class` from the start of `s`.
pub fn strip_start(s: &[char], class: CharClass) -> (r: &[char])
    ensures
        r@ == stripped_start(s@, class),
{
    let n = count_leading(s, class);
    slice_subrange(s, n, s.len())
}

/// Strips the characters of `class` from the end of `s`.
pub fn strip_end(s: &[char], class: CharClass) -> (r: &[char])
    ensures
        r@ == stripped_end(s@, class),
{
    let n = count_trailing(s, class);
    slice_subrange(s, 0, s.len() - n)
}

/// Strips the characters of `class` from both ends of `s`.
pub fn strip(s: &[char], class: CharClass) -> (r: &[char])
    ensures
        r@ == stripped(s@, class),
{
    strip_end(strip_start(s, class), class)
}

/// Strips the leading white space.
pub fn trim_start(s: &[char]) -> (r: &[char])
    ensures
        r@ == trimmed_start(s@),
{
    strip_start(s, CharClass::WhiteSpace)
}

/// Strips leading and trailing white space.
pub fn trim(s: &[char]) -> (r: &[char])
    ensures
        r@ == trimmed(s@),
{
    strip(s, CharClass::WhiteSpace)
}

/// Finds the first character of `class`; the length of `s` where there is
/// none.
pub fn find_first_of(s: &[char], class: CharClass) -> (n: usize)
    ensures
        n == first_of(s@, class),
        n <= s@.len(),
{
    let mut i: usize = 0;
    while i < s.len() && !class.test(s[i])
        invariant
            i <= s.len(),
            forall|j: int| 0 <= j < i ==> !class.holds(#[trigger] s@[j]),
        decreases s.len() - i,
    {
        i += 1;
    }
    proof {
        lemma_first_of(s@, class, i as int);
    }
    i
}

/// Tells whether `c` occurs in `s`.
pub fn contains_char(s: &[char], c: char) -> (r: bool)
    ensures
        r == s@.contains(c),
{
    let n = find_first_of(s, CharClass::Only(c));
    proof {
        lemma_first_of_found(s@, CharClass::Only(c));
    }
    n < s.len()
}

/// Appends `n` in decimal notation.
pub fn push_decimal(out: &mut Vec<char>, n: usize)
    ensures
        final(out)@ == old(out)@ + decimal(n as nat),
    decreases n,
{
    if n >= 10 {
        push_decimal(out, n / 10);
    }
    let d: u8 = (n % 10) as u8;
    out.push((0x30u8 + d) as char);
}

} // verus!
