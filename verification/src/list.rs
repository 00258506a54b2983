//! The list sub-parser: a run of item lines becomes one list, with a
//! nested list wherever the indentation grows beyond that of the line that
//! opened the list.

use vstd::prelude::*;
use vstd::slice::slice_subrange;
use crate::element::{
    is_ordered_item, is_unordered_item, ordered_item, unordered_item, ORDERED_LIST_PATTERN,
};
use crate::inline::{inline_html, inline_patterns_compile};
use crate::lines::{push_chars, push_str, texts};
use crate::parser::MarkdownParser;
use crate::pattern::pattern_compiles;
use crate::text::{
    count_leading, find_first_of, first_of, leading, trim, trim_start, trimmed, trimmed_start,
    CharClass,
};

verus! {

/// One level of list nesting.
#[derive(Clone, Copy, Debug)]
pub struct ListFrame {
    /// Whether the list at this level is numbered.
    pub ordered: bool,
    /// The indentation width of the items at this level.
    pub indent: usize,
}

/// One step of the markup of a list.
pub enum ListEvent {
    /// A list opens; `true` for a numbered one.
    Open(bool),
    /// The innermost open list closes; `true` for a numbered one.
    Close(bool),
    /// An item with its formatted text.
    Item(Seq<char>),
}

/// The indentation width of a line: the number of white-space characters
/// at its start, rounded down to an even number.
pub open spec fn indent_width(line: Seq<char>) -> nat {
    leading(line, CharClass::WhiteSpace) / 2 * 2
}

/// Whether `line` goes on with a list: after its indentation it starts
/// with the marker of an item, a number and a full stop in a numbered list,
/// `-` or `*` in another, and white space follows the marker.
pub open spec fn is_item(line: Seq<char>, ordered: bool) -> bool {
    if ordered {
        is_ordered_item(line)
    } else {
        is_unordered_item(line)
    }
}

/// The character that ends the marker of an item: the full stop in a
/// numbered list, `-` or `*` in another.
pub open spec fn marker_end(ordered: bool) -> CharClass {
    if ordered {
        CharClass::Only('.')
    } else {
        CharClass::Either('-', '*')
    }
}

/// The text of an item before formatting: what follows the marker, without
/// the white space round it. The marker ends at the first full stop of the
/// line in a numbered list, at the first `-` or `*` in another; a line
/// without one has an empty text.
pub open spec fn item_text(line: Seq<char>, ordered: bool) -> Seq<char> {
    let t = trimmed_start(line);
    let k = first_of(t, marker_end(ordered)) as int;
    if k + 1 <= t.len() {
        trimmed(t.skip(k + 1))
    } else {
        Seq::empty()
    }
}

/// The frame of the outermost list: as wide as the line that opens the
/// list.
pub open spec fn base_frame(lines: Seq<Seq<char>>, ordered: bool) -> ListFrame {
    ListFrame {
        ordered,
        indent: if lines.len() > 0 {
            indent_width(lines[0]) as usize
        } else {
            0
        },
    }
}

/// Number of lines at the start of `lines` that go on with a list.
pub open spec fn item_run(lines: Seq<Seq<char>>, ordered: bool) -> nat
    decreases lines.len(),
{
    if lines.len() > 0 && is_item(lines[0], ordered) {
        1 + item_run(lines.drop_first(), ordered)
    } else {
        0
    }
}

/// Number of lines that a list takes from `lines`: the opening line and
/// the lines after it up to the first that does not go on with the list.
pub open spec fn list_len(lines: Seq<Seq<char>>, ordered: bool) -> nat {
    if lines.len() == 0 {
        0
    } else {
        1 + item_run(lines.drop_first(), ordered)
    }
}

/// The frames are ordered by indentation, the outermost first, and no two
/// share a width.
pub open spec fn strictly_nested(stack: Seq<ListFrame>) -> bool {
    forall|i: int, j: int| 0 <= i < j < stack.len() ==> stack[i].indent < stack[j].indent
}

/// The lists that close before an item of width `width`: every frame but
/// the outermost, from the innermost outwards, that is wider than the item.
/// The outermost list stays open to the end of the run, and an item that is
/// narrower than it joins it.
pub open spec fn closed_for(stack: Seq<ListFrame>, width: nat) -> Seq<ListEvent>
    decreases stack.len(),
{
    if stack.len() > 1 && stack.last().indent > width {
        seq![ListEvent::Close(stack.last().ordered)] + closed_for(stack.drop_last(), width)
    } else {
        Seq::empty()
    }
}

/// The frames that stay open for an item of width `width`.
pub open spec fn kept_for(stack: Seq<ListFrame>, width: nat) -> Seq<ListFrame>
    decreases stack.len(),
{
    if stack.len() > 1 && stack.last().indent > width {
        kept_for(stack.drop_last(), width)
    } else {
        stack
    }
}

/// What precedes an item of width `width`: a new list where the item is
/// wider than the innermost open list, and else the closing of every list
/// that is wider than the item.
pub open spec fn step_events(stack: Seq<ListFrame>, width: nat, ordered: bool) -> Seq<ListEvent> {
    if stack.len() > 0 && width > stack.last().indent {
        seq![ListEvent::Open(ordered)]
    } else {
        closed_for(stack, width)
    }
}

/// The open frames after an item of width `width`.
pub open spec fn step_stack(stack: Seq<ListFrame>, width: nat, ordered: bool) -> Seq<ListFrame> {
    if stack.len() > 0 && width > stack.last().indent {
        stack.push(ListFrame { ordered, indent: width as usize })
    } else {
        kept_for(stack, width)
    }
}

/// The closing of every open list, the innermost first.
pub open spec fn closings(stack: Seq<ListFrame>) -> Seq<ListEvent>
    decreases stack.len(),
{
    if stack.len() > 0 {
        seq![ListEvent::Close(stack.last().ordered)] + closings(stack.drop_last())
    } else {
        Seq::empty()
    }
}

/// The markup steps for the item lines `items`, met with `stack` open, up
/// to the closing of the last open list.
pub open spec fn item_events(items: Seq<Seq<char>>, ordered: bool, stack: Seq<ListFrame>) -> Seq<
    ListEvent,
>
    decreases items.len(),
{
    if items.len() == 0 {
        closings(stack)
    } else {
        let width = indent_width(items[0]);
        step_events(stack, width, ordered) + seq![
            ListEvent::Item(inline_html(item_text(items[0], ordered))),
        ] + item_events(items.drop_first(), ordered, step_stack(stack, width, ordered))
    }
}

/// The markup steps of the list that starts at the first of `lines`.
pub open spec fn list_events(lines: Seq<Seq<char>>, ordered: bool) -> Seq<ListEvent> {
    seq![ListEvent::Open(ordered)] + item_events(
        lines.take(list_len(lines, ordered) as int),
        ordered,
        seq![base_frame(lines, ordered)],
    )
}

/// The tag that opens a list.
pub open spec fn open_tag(ordered: bool) -> Seq<char> {
    if ordered {
        "<ol>\n"@
    } else {
        "<ul>\n"@
    }
}

/// The tag that closes a list.
pub open spec fn close_tag(ordered: bool) -> Seq<char> {
    if ordered {
        "</ol>\n"@
    } else {
        "</ul>\n"@
    }
}

/// The HTML of one markup step.
pub open spec fn event_html(event: ListEvent) -> Seq<char> {
    match event {
        ListEvent::Open(ordered) => open_tag(ordered),
        ListEvent::Close(ordered) => close_tag(ordered),
        ListEvent::Item(text) => "<li>"@ + text + "</li>\n"@,
    }
}

/// The HTML of a sequence of markup steps.
pub open spec fn events_html(events: Seq<ListEvent>) -> Seq<char>
    decreases events.len(),
{
    if events.len() == 0 {
        Seq::empty()
    } else {
        event_html(events[0]) + events_html(events.drop_first())
    }
}

/// The HTML of the list that starts at the first of `lines`.
pub open spec fn list_html(lines: Seq<Seq<char>>, ordered: bool) -> Seq<char> {
    events_html(list_events(lines, ordered))
}

/// The HTML of steps in a row is the HTML of each in a row.
pub proof fn lemma_events_html_concat(a: Seq<ListEvent>, b: Seq<ListEvent>)
    ensures
        events_html(a + b) == events_html(a) + events_html(b),
    decreases a.len(),
{
    if a.len() > 0 {
        assert((a + b).drop_first() == a.drop_first() + b);
        lemma_events_html_concat(a.drop_first(), b);
    }
}

/// The HTML of a single step.
pub proof fn lemma_events_html_one(e: ListEvent)
    ensures
        events_html(seq![e]) == event_html(e),
{
    reveal_with_fuel(events_html, 2);
}

/// The item lines at the start of `lines` end at `n`.
pub proof fn lemma_item_run(lines: Seq<Seq<char>>, ordered: bool, n: int)
    requires
        0 <= n <= lines.len(),
        forall|j: int| 0 <= j < n ==> is_item(#[trigger] lines[j], ordered),
    ensures
        item_run(lines, ordered) >= n,
        n == lines.len() || !is_item(lines[n], ordered) ==> item_run(lines, ordered) == n,
        item_run(lines, ordered) <= lines.len(),
    decreases lines.len(),
{
    if lines.len() > 0 {
        let rest = lines.drop_first();
        if n > 0 {
            assert forall|j: int| 0 <= j < n - 1 implies is_item(#[trigger] rest[j], ordered) by {}
            lemma_item_run(rest, ordered, n - 1);
        } else {
            lemma_item_run(rest, ordered, 0);
        }
    }
}

/// Closing the lists that are wider than an item leaves the frames ordered,
/// and leaves the outermost frame open.
pub proof fn lemma_kept_for(stack: Seq<ListFrame>, width: nat)
    requires
        strictly_nested(stack),
    ensures
        strictly_nested(kept_for(stack, width)),
        kept_for(stack, width).len() <= stack.len(),
        kept_for(stack, width) == stack.take(kept_for(stack, width).len() as int),
        stack.len() > 0 ==> kept_for(stack, width).len() > 0,
    decreases stack.len(),
{
    if stack.len() > 1 && stack.last().indent > width {
        let rest = stack.drop_last();
        lemma_kept_for(rest, width);
        assert(rest.take(kept_for(rest, width).len() as int) == stack.take(
            kept_for(rest, width).len() as int,
        ));
    } else {
        assert(stack.take(stack.len() as int) == stack);
    }
}

/// An item leaves the open frames ordered by indentation, with no two of
/// the same width, whether it opens a list or closes some.
pub proof fn lemma_step_stack(stack: Seq<ListFrame>, width: nat, ordered: bool)
    requires
        strictly_nested(stack),
        width <= usize::MAX,
    ensures
        strictly_nested(step_stack(stack, width, ordered)),
{
    lemma_kept_for(stack, width);
}

/// Tells whether `line` goes on with a list.
pub fn is_list_item(line: &[char], ordered: bool) -> (r: bool)
    requires
        ordered ==> pattern_compiles(ORDERED_LIST_PATTERN@),
    ensures
        r == is_item(line@, ordered),
{
    if ordered {
        ordered_item(line)
    } else {
        unordered_item(line)
    }
}

/// Cuts the text of an item out of its line.
pub fn item_content(line: &[char], ordered: bool) -> (r: &[char])
    ensures
        r@ == item_text(line@, ordered),
{
    let t = trim_start(line);
    let marker = if ordered {
        CharClass::Only('.')
    } else {
        CharClass::Either('-', '*')
    };
    let k = find_first_of(t, marker);
    if k < t.len() {
        trim(slice_subrange(t, k + 1, t.len()))
    } else {
        slice_subrange(t, 0, 0)
    }
}

/// Appends the tag that opens a list.
pub fn push_open_tag(out: &mut Vec<char>, ordered: bool)
    ensures
        final(out)@ == old(out)@ + open_tag(ordered),
{
    if ordered {
        push_str(out, "<ol>\n");
    } else {
        push_str(out, "<ul>\n");
    }
}

/// Appends the tag that closes a list.
pub fn push_close_tag(out: &mut Vec<char>, ordered: bool)
    ensures
        final(out)@ == old(out)@ + close_tag(ordered),
{
    if ordered {
        push_str(out, "</ol>\n");
    } else {
        push_str(out, "</ul>\n");
    }
}

/// Closes every list but the outermost that is wider than an item of width
/// `width`.
pub fn close_wider(out: &mut Vec<char>, stack: &mut Vec<ListFrame>, width: usize)
    ensures
        final(out)@ == old(out)@ + events_html(closed_for(old(stack)@, width as nat)),
        final(stack)@ == kept_for(old(stack)@, width as nat),
{
    let ghost before = out@;
    let ghost frames = stack@;
    let ghost mut done: Seq<ListEvent> = Seq::empty();
    while stack.len() > 1 && stack[stack.len() - 1].indent > width
        invariant
            out@ == before + events_html(done),
            done + closed_for(stack@, width as nat) == closed_for(frames, width as nat),
            kept_for(stack@, width as nat) == kept_for(frames, width as nat),
        decreases stack.len(),
    {
        let frame = stack[stack.len() - 1];
        proof {
            lemma_events_html_concat(done, seq![ListEvent::Close(frame.ordered)]);
            lemma_events_html_one(ListEvent::Close(frame.ordered));
            done = done + seq![ListEvent::Close(frame.ordered)];
        }
        push_close_tag(out, frame.ordered);
        stack.pop();
    }
}

/// Closes every open list, the innermost first.
pub fn close_all(out: &mut Vec<char>, stack: &mut Vec<ListFrame>)
    ensures
        final(out)@ == old(out)@ + events_html(closings(old(stack)@)),
        final(stack)@.len() == 0,
{
    let ghost before = out@;
    let ghost frames = stack@;
    let ghost mut done: Seq<ListEvent> = Seq::empty();
    while stack.len() > 0
        invariant
            out@ == before + events_html(done),
            done + closings(stack@) == closings(frames),
        decreases stack.len(),
    {
        let frame = stack[stack.len() - 1];
        proof {
            lemma_events_html_concat(done, seq![ListEvent::Close(frame.ordered)]);
            lemma_events_html_one(ListEvent::Close(frame.ordered));
            done = done + seq![ListEvent::Close(frame.ordered)];
        }
        push_close_tag(out, frame.ordered);
        stack.pop();
    }
}

impl MarkdownParser {
    /// Renders the list that starts at the first of `lines` and tells how
    /// many lines it took. The first line is an item whatever it holds, so
    /// that a list never takes less than the line that opened it, and the
    /// outermost list is as wide as that line.
    pub fn parse_list(&self, lines: &[Vec<char>], ordered: bool) -> (r: (Vec<char>, usize))
        requires
            inline_patterns_compile(),
            ordered ==> pattern_compiles(ORDERED_LIST_PATTERN@),
        ensures
            r.0@ == list_html(texts(lines@), ordered),
            r.1 == list_len(texts(lines@), ordered),
            r.1 <= lines@.len(),
            lines@.len() > 0 ==> r.1 >= 1,
    {
        let ghost all = texts(lines@);
        let ghost n = list_len(all, ordered) as int;
        let ghost items = all.take(n);
        let mut out: Vec<char> = Vec::new();
        let mut stack: Vec<ListFrame> = Vec::new();
        let mut consumed: usize = 0;
        let base = if lines.len() > 0 {
            count_leading(lines[0].as_slice(), CharClass::WhiteSpace) / 2 * 2
        } else {
            0
        };
        push_open_tag(&mut out, ordered);
        stack.push(ListFrame { ordered, indent: base });
        let ghost mut done: Seq<ListEvent> = seq![ListEvent::Open(ordered)];
        proof {
            lemma_events_html_one(ListEvent::Open(ordered));
            if all.len() > 0 {
                lemma_item_run(all.drop_first(), ordered, 0);
            }
            assert(items.skip(0) == items);
        }
        while consumed < lines.len()
            invariant
                inline_patterns_compile(),
                ordered ==> pattern_compiles(ORDERED_LIST_PATTERN@),
                all == texts(lines@),
                n == list_len(all, ordered),
                items == all.take(n),
                consumed <= n <= lines.len(),
                forall|j: int| 1 <= j < consumed ==> is_item(#[trigger] all[j], ordered),
                stack.len() > 0,
                strictly_nested(stack@),
                out@ == events_html(done),
                done + item_events(items.skip(consumed as int), ordered, stack@) == list_events(
                    all,
                    ordered,
                ),
            ensures
                consumed == n,
                n <= lines.len(),
                n == list_len(texts(lines@), ordered),
                out@ == events_html(done),
                done + closings(stack@) == list_events(texts(lines@), ordered),
            decreases lines.len() - consumed,
        {
            let line = lines[consumed].as_slice();
            proof {
                let rest = all.drop_first();
                assert forall|j: int| 0 <= j < consumed - 1 implies is_item(
                    #[trigger] rest[j],
                    ordered,
                ) by {}
                if consumed > 0 {
                    lemma_item_run(rest, ordered, consumed - 1);
                }
            }
            if consumed > 0 && !is_list_item(line, ordered) {
                break;
            }
            let width = count_leading(line, CharClass::WhiteSpace) / 2 * 2;
            let ghost frames = stack@;
            let ghost rest = items.skip(consumed as int);
            proof {
                if consumed > 0 {
                    let tail = all.drop_first();
                    assert forall|j: int| 0 <= j < consumed implies is_item(
                        #[trigger] tail[j],
                        ordered,
                    ) by {}
                    lemma_item_run(tail, ordered, consumed as int);
                }
                assert(rest.drop_first() == items.skip(consumed + 1));
            }
            if width > stack[stack.len() - 1].indent {
                push_open_tag(&mut out, ordered);
                stack.push(ListFrame { ordered, indent: width });
                proof {
                    lemma_events_html_concat(done, seq![ListEvent::Open(ordered)]);
                    lemma_events_html_one(ListEvent::Open(ordered));
                    done = done + seq![ListEvent::Open(ordered)];
                }
            } else {
                close_wider(&mut out, &mut stack, width);
                proof {
                    lemma_events_html_concat(done, closed_for(frames, width as nat));
                    lemma_kept_for(frames, width as nat);
                    done = done + closed_for(frames, width as nat);
                }
            }
            let text = self.parse_inline(item_content(line, ordered));
            push_str(&mut out, "<li>");
            push_chars(&mut out, text.as_slice());
            push_str(&mut out, "</li>\n");
            proof {
                let item = ListEvent::Item(text@);
                lemma_events_html_concat(done, seq![item]);
                lemma_events_html_one(item);
                done = done + seq![item];
            }
            consumed += 1;
        }
        proof {
            lemma_events_html_concat(done, closings(stack@));
        }
        close_all(&mut out, &mut stack);
        (out, consumed)
    }
}

} // verus!
