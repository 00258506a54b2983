//! The table of contents: a list of the headings of a page, nested by
//! their levels, and an anchor on every heading for its entry to point to.

use vstd::prelude::*;
use crate::converter::MarkdownConverter;
use crate::lines::{collect_string, push_chars, push_str, texts, to_chars};
use crate::pattern::{
    captures_all, group, group_text, group_texts, interleave, interleaved, match_texts,
    pattern_captures, pattern_compiles, pattern_gaps, split,
};

verus! {

/// A heading in HTML: its level in the first group, its text in the
/// second.
pub const HEADING_PATTERN: &'static str = r"<h([1-6])>(.*?)</h[1-6]>";

/// What opens the table of contents.
pub const CONTENTS_HEAD: &'static str =
    "<div class=\"table-of-contents\">\n<h2>Table of Contents</h2>\n<ul>\n";

/// What closes the table of contents.
pub const CONTENTS_TAIL: &'static str = "</ul>\n</div>\n";

/// `s` in lower case, as the standard library's `str::to_lowercase` maps
/// it.
pub uninterp spec fn lowercased(s: Seq<char>) -> Seq<char>;

/// The level of a matched heading: the digit in its first group. The
/// pattern lets only the digits 1 to 6 through; any other text counts as
/// level 1.
pub open spec fn level_of(groups: Seq<Option<Seq<char>>>) -> nat {
    let t = group_text(groups, 1);
    if t.len() == 1 && '1' <= t[0] <= '6' {
        (t[0] as u32 - 0x30) as nat
    } else {
        1
    }
}

/// The anchor of a heading: its text in lower case, with a hyphen for each
/// space.
pub open spec fn anchor_of(text: Seq<char>) -> Seq<char> {
    lowercased(text).map_values(
        |c: char|
            if c == ' ' {
                '-'
            } else {
                c
            },
    )
}

/// `s`, `n` times in a row.
pub open spec fn repeated(s: Seq<char>, n: nat) -> Seq<char>
    decreases n,
{
    if n == 0 {
        Seq::empty()
    } else {
        s + repeated(s, (n - 1) as nat)
    }
}

/// The entry of a heading in the table of contents.
pub open spec fn entry_html(groups: Seq<Option<Seq<char>>>) -> Seq<char> {
    "<li><a href=\"#"@ + anchor_of(group_text(groups, 2)) + "\">"@ + group_text(groups, 2)
        + "</a></li>\n"@
}

/// The lists that open or close between an entry of level `current` and
/// one of level `level`: one for each level of difference.
pub open spec fn level_change(current: nat, level: nat) -> Seq<char> {
    if level > current {
        repeated("<ul>\n"@, (level - current) as nat)
    } else {
        repeated("</ul>\n"@, (current - level) as nat)
    }
}

/// The entries for `heads`, met at level `current`, and the closing of
/// every list below the first level that is open after them.
pub open spec fn entries_html(heads: Seq<Seq<Option<Seq<char>>>>, current: nat) -> Seq<char>
    decreases heads.len(),
{
    if heads.len() == 0 {
        level_change(current, 1)
    } else {
        let level = level_of(heads[0]);
        level_change(current, level) + entry_html(heads[0]) + entries_html(
            heads.drop_first(),
            level,
        )
    }
}

/// A heading with its anchor. The closing tag takes the level of the
/// opening one.
pub open spec fn anchored_heading(groups: Seq<Option<Seq<char>>>) -> Seq<char> {
    "<h"@ + group_text(groups, 1) + " id=\""@ + anchor_of(group_text(groups, 2)) + "\">"@
        + group_text(groups, 2) + "</h"@ + group_text(groups, 1) + ">"@
}

/// A page with its table of contents: the table, then the page with an
/// anchor on each heading.
pub open spec fn with_contents(html: Seq<char>) -> Seq<char> {
    let heads = pattern_captures(HEADING_PATTERN@, html);
    CONTENTS_HEAD@ + entries_html(heads, 1) + CONTENTS_TAIL@ + interleaved(
        pattern_gaps(HEADING_PATTERN@, html),
        heads.map_values(|groups: Seq<Option<Seq<char>>>| anchored_heading(groups)),
    )
}

/// Repeating once more.
pub proof fn lemma_repeated_more(s: Seq<char>, n: nat)
    ensures
        repeated(s, n + 1) == repeated(s, n) + s,
    decreases n,
{
    if n == 0 {
        reveal_with_fuel(repeated, 2);
    } else {
        lemma_repeated_more(s, (n - 1) as nat);
    }
}

/// `str::to_lowercase`: the lower case of `s`.
#[verifier::external_body]
pub(crate) fn lowercase(s: &[char]) -> (r: Vec<char>)
    ensures
        r@ == lowercased(s@),
{
    String::from_iter(s.iter()).to_lowercase().chars().collect()
}

/// Makes the anchor of a heading.
pub fn anchor(text: &[char]) -> (r: Vec<char>)
    ensures
        r@ == anchor_of(text@),
{
    let lower = lowercase(text);
    let mut out: Vec<char> = Vec::new();
    let mut i: usize = 0;
    while i < lower.len()
        invariant
            i <= lower.len(),
            out@ == anchor_of(text@).take(i as int),
            lower@ == lowercased(text@),
        decreases lower.len() - i,
    {
        let c = lower[i];
        out.push(if c == ' ' {
            '-'
        } else {
            c
        });
        proof {
            assert(anchor_of(text@).take(i + 1) == anchor_of(text@).take(i as int).push(
                anchor_of(text@)[i as int],
            ));
        }
        i += 1;
    }
    out
}

/// Reads the level of a matched heading.
pub fn heading_level(groups: &Vec<Option<Vec<char>>>) -> (r: usize)
    ensures
        r == level_of(group_texts(groups@)),
        1 <= r <= 6,
{
    let t = group(groups, 1);
    if t.len() == 1 && '1' <= t[0] && t[0] <= '6' {
        (t[0] as u32 - 0x30) as usize
    } else {
        1
    }
}

/// Appends the lists that open or close between two levels.
pub fn push_level_change(out: &mut Vec<char>, current: usize, level: usize)
    ensures
        final(out)@ == old(out)@ + level_change(current as nat, level as nat),
{
    let ghost before = out@;
    let mut at: usize = current;
    if level > current {
        while level > at
            invariant
                current <= at <= level,
                out@ == before + repeated("<ul>\n"@, (at - current) as nat),
            decreases level - at,
        {
            proof {
                lemma_repeated_more("<ul>\n"@, (at - current) as nat);
            }
            push_str(out, "<ul>\n");
            at += 1;
        }
    } else {
        while level < at
            invariant
                level <= at <= current,
                out@ == before + repeated("</ul>\n"@, (current - at) as nat),
            decreases at - level,
        {
            proof {
                lemma_repeated_more("</ul>\n"@, (current - at) as nat);
            }
            push_str(out, "</ul>\n");
            at -= 1;
        }
    }
}

/// Appends the entry of a heading in the table of contents.
pub fn push_entry(out: &mut Vec<char>, groups: &Vec<Option<Vec<char>>>)
    ensures
        final(out)@ == old(out)@ + entry_html(group_texts(groups@)),
{
    let text = group(groups, 2);
    let id = anchor(text);
    push_str(out, "<li><a href=\"#");
    push_chars(out, id.as_slice());
    push_str(out, "\">");
    push_chars(out, text);
    push_str(out, "</a></li>\n");
}

/// Renders a heading with its anchor.
pub fn anchor_heading(groups: &Vec<Option<Vec<char>>>) -> (r: Vec<char>)
    ensures
        r@ == anchored_heading(group_texts(groups@)),
{
    let level = group(groups, 1);
    let text = group(groups, 2);
    let id = anchor(text);
    let mut out: Vec<char> = Vec::new();
    push_str(&mut out, "<h");
    push_chars(&mut out, level);
    push_str(&mut out, " id=\"");
    push_chars(&mut out, id.as_slice());
    push_str(&mut out, "\">");
    push_chars(&mut out, text);
    push_str(&mut out, "</h");
    push_chars(&mut out, level);
    push_str(&mut out, ">");
    out
}

impl MarkdownConverter {
    /// Puts a table of contents before a page and an anchor on each of its
    /// headings.
    pub fn generate_table_of_contents(&self, html: &str) -> (r: String)
        requires
            pattern_compiles(HEADING_PATTERN@),
        ensures
            r@ == with_contents(html@),
    {
        let text = to_chars(html);
        let found = captures_all(HEADING_PATTERN, text.as_slice());
        let gaps = split(HEADING_PATTERN, text.as_slice());
        let ghost heads = match_texts(found@);
        let mut out: Vec<char> = Vec::new();
        let mut reps: Vec<Vec<char>> = Vec::new();
        let mut current: usize = 1;
        let mut i: usize = 0;
        push_str(&mut out, CONTENTS_HEAD);
        proof {
            assert(heads.skip(0) == heads);
        }
        while i < found.len()
            invariant
                i <= found.len(),
                heads == match_texts(found@),
                1 <= current <= 6,
                reps.len() == i,
                forall|j: int|
                    0 <= j < i ==> (#[trigger] reps@[j])@ == anchored_heading(heads[j]),
                out@ + entries_html(heads.skip(i as int), current as nat) == CONTENTS_HEAD@
                    + entries_html(heads, 1),
            decreases found.len() - i,
        {
            let level = heading_level(&found[i]);
            proof {
                assert(heads.skip(i as int).drop_first() == heads.skip(i + 1));
            }
            push_level_change(&mut out, current, level);
            current = level;
            push_entry(&mut out, &found[i]);
            reps.push(anchor_heading(&found[i]));
            i += 1;
        }
        push_level_change(&mut out, current, 1);
        push_str(&mut out, CONTENTS_TAIL);
        proof {
            assert(texts(reps@) == heads.map_values(
                |groups: Seq<Option<Seq<char>>>| anchored_heading(groups),
            ));
        }
        let body = interleave(&gaps, &reps);
        push_chars(&mut out, body.as_slice());
        collect_string(out.as_slice())
    }
}

} // verus!
