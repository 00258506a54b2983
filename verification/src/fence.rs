//! Fenced blocks: how a block that lies between two fence lines is found
//! among the lines that follow.

use vstd::prelude::*;
use crate::element::is_code_fence;
use crate::lines::texts;
use crate::text::{trim, trimmed};

verus! {

/// The two kinds of fenced block.
#[derive(Clone, Copy, Debug)]
pub enum Fence {
    /// Code, fenced by lines that start with three backticks.
    Code,
    /// Mathematics, fenced by lines that hold two dollar signs and nothing
    /// else but white space round them.
    Math,
}

/// Whether `line` is a fence of the given kind.
pub open spec fn is_fence(kind: Fence, line: Seq<char>) -> bool {
    match kind {
        Fence::Code => is_code_fence(line),
        Fence::Math => trimmed(line) == seq!['$', '$'],
    }
}

/// Position of the first fence among `lines`, or their number where none
/// of them is a fence.
pub open spec fn first_fence(kind: Fence, lines: Seq<Seq<char>>) -> nat
    decreases lines.len(),
{
    if lines.len() > 0 && !is_fence(kind, lines[0]) {
        1 + first_fence(kind, lines.drop_first())
    } else {
        0
    }
}

/// The lines inside the block: those between the first fence and the next,
/// or all that follow the first fence where no second one comes. None
/// where `lines` holds no fence.
pub open spec fn fenced_lines(kind: Fence, lines: Seq<Seq<char>>) -> Seq<Seq<char>> {
    let open = first_fence(kind, lines) as int;
    let after = lines.skip(open + 1);
    after.take(first_fence(kind, after) as int)
}

/// Whether a second fence closes the block.
pub open spec fn is_closed(kind: Fence, lines: Seq<Seq<char>>) -> bool {
    let open = first_fence(kind, lines) as int;
    open + 1 + first_fence(kind, lines.skip(open + 1)) < lines.len()
}

/// Number of lines that the block takes: everything up to the closing
/// fence and that fence too, or every line where the block is not closed.
pub open spec fn fenced_len(kind: Fence, lines: Seq<Seq<char>>) -> nat {
    let open = first_fence(kind, lines) as int;
    if is_closed(kind, lines) {
        (open + first_fence(kind, lines.skip(open + 1)) + 2) as nat
    } else {
        lines.len()
    }
}

/// The first fence among `lines` stands at `n`, or `n` is their number and
/// none of them is a fence.
pub proof fn lemma_first_fence(kind: Fence, lines: Seq<Seq<char>>, n: int)
    requires
        0 <= n <= lines.len(),
        forall|j: int| 0 <= j < n ==> !is_fence(kind, #[trigger] lines[j]),
        n < lines.len() ==> is_fence(kind, lines[n]),
    ensures
        first_fence(kind, lines) == n,
    decreases n,
{
    if n > 0 {
        let rest = lines.drop_first();
        assert forall|j: int| 0 <= j < n - 1 implies !is_fence(kind, #[trigger] rest[j]) by {}
        lemma_first_fence(kind, rest, n - 1);
    }
}

/// Tells whether `line` is a fence of the given kind.
pub fn fence(kind: Fence, line: &[char]) -> (r: bool)
    ensures
        r == is_fence(kind, line@),
{
    match kind {
        Fence::Code => line.len() >= 3 && line[0] == '`' && line[1] == '`' && line[2] == '`',
        Fence::Math => {
            let t = trim(line);
            let r = t.len() == 2 && t[0] == '$' && t[1] == '$';
            proof {
                if r {
                    assert(t@ == seq!['$', '$']);
                }
            }
            r
        },
    }
}

/// Finds the first fence at or after `from`; the number of lines where
/// there is none.
pub fn find_fence(kind: Fence, lines: &[Vec<char>], from: usize) -> (r: usize)
    requires
        from <= lines@.len(),
    ensures
        from <= r <= lines@.len(),
        r - from == first_fence(kind, texts(lines@).skip(from as int)),
{
    let mut i: usize = from;
    while i < lines.len() && !fence(kind, lines[i].as_slice())
        invariant
            from <= i <= lines.len(),
            forall|j: int| from <= j < i ==> !is_fence(kind, #[trigger] texts(lines@)[j]),
        decreases lines.len() - i,
    {
        i += 1;
    }
    proof {
        let rest = texts(lines@).skip(from as int);
        assert forall|j: int| 0 <= j < i - from implies !is_fence(kind, #[trigger] rest[j]) by {}
        lemma_first_fence(kind, rest, i - from);
    }
    i
}

} // verus!
