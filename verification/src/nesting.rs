//! What holds of the markup of every list: its tags nest, as many lists
//! close as open, and every line taken is one item.

use vstd::prelude::*;
use crate::inline::{inline_html, is_plain};
use crate::text::{
    is_white_space, leading, lemma_first_of, lemma_leading, lemma_stripped, trimmed_start,
    CharClass,
};
use crate::list::{
    base_frame, close_tag, closed_for, closings, events_html, indent_width, is_item, item_events,
    item_text, kept_for, lemma_events_html_concat, lemma_events_html_one, lemma_item_run,
    list_events, list_html, list_len, open_tag, step_events, step_stack, ListEvent, ListFrame,
};

verus! {

/// The lists left open after `events`, read with the lists `open` open, the
/// innermost last. `None` where a step closes a list that is not the
/// innermost open one, or where an item stands outside every list.
pub open spec fn open_after(events: Seq<ListEvent>, open: Seq<bool>) -> Option<Seq<bool>>
    decreases events.len(),
{
    if events.len() == 0 {
        Some(open)
    } else {
        match events[0] {
            ListEvent::Open(ordered) => open_after(events.drop_first(), open.push(ordered)),
            ListEvent::Close(ordered) => if open.len() > 0 && open.last() == ordered {
                open_after(events.drop_first(), open.drop_last())
            } else {
                None
            },
            ListEvent::Item(_) => if open.len() > 0 {
                open_after(events.drop_first(), open)
            } else {
                None
            },
        }
    }
}

/// Every list that opens closes again, an inner list before the list
/// around it, and every item stands in a list.
pub open spec fn well_nested(events: Seq<ListEvent>) -> bool {
    open_after(events, Seq::empty()) == Some(Seq::<bool>::empty())
}

/// Number of lists that `events` opens.
pub open spec fn opens(events: Seq<ListEvent>) -> nat
    decreases events.len(),
{
    if events.len() == 0 {
        0
    } else {
        (if events[0] is Open {
            1nat
        } else {
            0nat
        }) + opens(events.drop_first())
    }
}

/// Number of lists that `events` closes.
pub open spec fn closes(events: Seq<ListEvent>) -> nat
    decreases events.len(),
{
    if events.len() == 0 {
        0
    } else {
        (if events[0] is Close {
            1nat
        } else {
            0nat
        }) + closes(events.drop_first())
    }
}

/// Number of items in `events`.
pub open spec fn item_count(events: Seq<ListEvent>) -> nat
    decreases events.len(),
{
    if events.len() == 0 {
        0
    } else {
        (if events[0] is Item {
            1nat
        } else {
            0nat
        }) + item_count(events.drop_first())
    }
}

/// The kinds of the open lists, the outermost first.
pub open spec fn kinds(stack: Seq<ListFrame>) -> Seq<bool> {
    stack.map_values(|f: ListFrame| f.ordered)
}

/// The items of the lines `lines`, one after the other.
pub open spec fn items_html(lines: Seq<Seq<char>>, ordered: bool) -> Seq<char>
    decreases lines.len(),
{
    if lines.len() == 0 {
        Seq::empty()
    } else {
        "<li>"@ + inline_html(item_text(lines[0], ordered)) + "</li>\n"@ + items_html(
            lines.drop_first(),
            ordered,
        )
    }
}

/// Reading two sequences of steps in a row.
pub proof fn lemma_open_after_concat(a: Seq<ListEvent>, b: Seq<ListEvent>, open: Seq<bool>)
    ensures
        open_after(a + b, open) == match open_after(a, open) {
            Some(then) => open_after(b, then),
            None => None,
        },
    decreases a.len(),
{
    if a.len() == 0 {
        assert(a + b == b);
    } else {
        assert((a + b).drop_first() == a.drop_first() + b);
        assert((a + b)[0] == a[0]);
        match a[0] {
            ListEvent::Open(ordered) => {
                lemma_open_after_concat(a.drop_first(), b, open.push(ordered));
            },
            ListEvent::Close(ordered) => {
                if open.len() > 0 && open.last() == ordered {
                    lemma_open_after_concat(a.drop_first(), b, open.drop_last());
                }
            },
            ListEvent::Item(_) => {
                if open.len() > 0 {
                    lemma_open_after_concat(a.drop_first(), b, open);
                }
            },
        }
    }
}

/// Counting over two sequences of steps in a row.
pub proof fn lemma_counts_concat(a: Seq<ListEvent>, b: Seq<ListEvent>)
    ensures
        opens(a + b) == opens(a) + opens(b),
        closes(a + b) == closes(a) + closes(b),
        item_count(a + b) == item_count(a) + item_count(b),
    decreases a.len(),
{
    if a.len() == 0 {
        assert(a + b == b);
    } else {
        assert((a + b).drop_first() == a.drop_first() + b);
        assert((a + b)[0] == a[0]);
        lemma_counts_concat(a.drop_first(), b);
    }
}

/// Counting a single step.
pub proof fn lemma_counts_one(e: ListEvent)
    ensures
        opens(seq![e]) == if e is Open { 1nat } else { 0nat },
        closes(seq![e]) == if e is Close { 1nat } else { 0nat },
        item_count(seq![e]) == if e is Item { 1nat } else { 0nat },
{
    assert(seq![e].drop_first() == Seq::<ListEvent>::empty());
    reveal_with_fuel(opens, 2);
    reveal_with_fuel(closes, 2);
    reveal_with_fuel(item_count, 2);
}

/// Steps that nest close as many lists as they open, but for the lists
/// that were open before them and those that they leave open.
pub proof fn lemma_nesting_counts(events: Seq<ListEvent>, open: Seq<bool>)
    requires
        open_after(events, open) is Some,
    ensures
        opens(events) + open.len() == closes(events) + open_after(events, open).unwrap().len(),
    decreases events.len(),
{
    if events.len() > 0 {
        match events[0] {
            ListEvent::Open(ordered) => {
                lemma_nesting_counts(events.drop_first(), open.push(ordered));
            },
            ListEvent::Close(ordered) => {
                lemma_nesting_counts(events.drop_first(), open.drop_last());
            },
            ListEvent::Item(_) => {
                lemma_nesting_counts(events.drop_first(), open);
            },
        }
    }
}

/// Closing the lists that are wider than an item closes them from the
/// innermost outwards and leaves the others open, the outermost among them.
pub proof fn lemma_closed_for_nests(stack: Seq<ListFrame>, width: nat)
    ensures
        open_after(closed_for(stack, width), kinds(stack)) == Some(kinds(kept_for(stack, width))),
        opens(closed_for(stack, width)) == 0,
        item_count(closed_for(stack, width)) == 0,
        stack.len() > 0 ==> kept_for(stack, width).len() > 0,
    decreases stack.len(),
{
    if stack.len() > 1 && stack.last().indent > width {
        let rest = stack.drop_last();
        lemma_closed_for_nests(rest, width);
        let first = seq![ListEvent::Close(stack.last().ordered)];
        assert(closed_for(stack, width) == first + closed_for(rest, width));
        assert((first + closed_for(rest, width)).drop_first() == closed_for(rest, width));
        assert(kinds(stack).drop_last() == kinds(rest));
        lemma_counts_concat(first, closed_for(rest, width));
        lemma_counts_one(first[0]);
    }
}

/// Closing every open list closes them from the innermost outwards.
pub proof fn lemma_closings_nest(stack: Seq<ListFrame>)
    ensures
        open_after(closings(stack), kinds(stack)) == Some(Seq::<bool>::empty()),
        opens(closings(stack)) == 0,
        item_count(closings(stack)) == 0,
    decreases stack.len(),
{
    if stack.len() > 0 {
        let rest = stack.drop_last();
        lemma_closings_nest(rest);
        let first = seq![ListEvent::Close(stack.last().ordered)];
        assert((first + closings(rest)).drop_first() == closings(rest));
        assert(kinds(stack).drop_last() == kinds(rest));
        lemma_counts_concat(first, closings(rest));
        lemma_counts_one(first[0]);
    } else {
        assert(kinds(stack) == Seq::<bool>::empty());
    }
}

/// The steps for a run of item lines nest, whatever lists are open when
/// the run starts, as long as one is.
pub proof fn lemma_item_events_nest(items: Seq<Seq<char>>, ordered: bool, stack: Seq<ListFrame>)
    requires
        stack.len() > 0,
    ensures
        open_after(item_events(items, ordered, stack), kinds(stack)) == Some(Seq::<bool>::empty()),
        item_count(item_events(items, ordered, stack)) == items.len(),
    decreases items.len(),
{
    if items.len() == 0 {
        lemma_closings_nest(stack);
    } else {
        let width = indent_width(items[0]);
        let step = step_events(stack, width, ordered);
        let then = step_stack(stack, width, ordered);
        let item = seq![ListEvent::Item(inline_html(item_text(items[0], ordered)))];
        let rest = item_events(items.drop_first(), ordered, then);
        lemma_closed_for_nests(stack, width);
        if width > stack.last().indent {
            assert(step.drop_first() == Seq::<ListEvent>::empty());
            assert(kinds(then) == kinds(stack).push(ordered));
            reveal_with_fuel(open_after, 2);
            lemma_counts_one(step[0]);
        }
        assert(open_after(step, kinds(stack)) == Some(kinds(then)));
        assert(item_count(step) == 0);
        assert(then.len() > 0);
        lemma_item_events_nest(items.drop_first(), ordered, then);
        assert(open_after(item, kinds(then)) == Some(kinds(then))) by {
            assert(item.drop_first() == Seq::<ListEvent>::empty());
            reveal_with_fuel(open_after, 2);
        }
        lemma_open_after_concat(step, item, kinds(stack));
        lemma_open_after_concat(step + item, rest, kinds(stack));
        lemma_counts_concat(step, item);
        lemma_counts_concat(step + item, rest);
        lemma_counts_one(item[0]);
    }
}

/// In the markup of every list the tags nest: each list that opens closes
/// again, a nested list before the list around it, and every item stands
/// in a list.
pub proof fn lemma_list_well_nested(lines: Seq<Seq<char>>, ordered: bool)
    ensures
        well_nested(list_events(lines, ordered)),
{
    let start = seq![base_frame(lines, ordered)];
    let items = lines.take(list_len(lines, ordered) as int);
    let first = seq![ListEvent::Open(ordered)];
    lemma_item_events_nest(items, ordered, start);
    assert(kinds(start) == Seq::<bool>::empty().push(ordered));
    assert(open_after(first, Seq::empty()) == Some(kinds(start))) by {
        assert(first.drop_first() == Seq::<ListEvent>::empty());
        reveal_with_fuel(open_after, 2);
    }
    lemma_open_after_concat(first, item_events(items, ordered, start), Seq::empty());
}

/// In the markup of every list as many lists close as open.
pub proof fn lemma_list_balanced(lines: Seq<Seq<char>>, ordered: bool)
    ensures
        opens(list_events(lines, ordered)) == closes(list_events(lines, ordered)),
        opens(list_events(lines, ordered)) >= 1,
{
    lemma_list_well_nested(lines, ordered);
    lemma_nesting_counts(list_events(lines, ordered), Seq::empty());
}

/// The markup of every list holds one item for each line that the list
/// takes.
pub proof fn lemma_list_item_per_line(lines: Seq<Seq<char>>, ordered: bool)
    ensures
        item_count(list_events(lines, ordered)) == list_len(lines, ordered),
{
    let start = seq![base_frame(lines, ordered)];
    if lines.len() > 0 {
        lemma_item_run(lines.drop_first(), ordered, 0);
    }
    let items = lines.take(list_len(lines, ordered) as int);
    let first = seq![ListEvent::Open(ordered)];
    lemma_item_events_nest(items, ordered, start);
    lemma_counts_concat(first, item_events(items, ordered, start));
    lemma_counts_one(first[0]);
}

/// The steps for item lines that are no wider than the outermost list, met
/// with that list alone open: the items, then the end of that list.
pub proof fn lemma_flat_items(items: Seq<Seq<char>>, base: ListFrame)
    requires
        forall|i: int| 0 <= i < items.len() ==> indent_width(#[trigger] items[i]) <= base.indent,
    ensures
        events_html(item_events(items, base.ordered, seq![base])) == items_html(
            items,
            base.ordered,
        ) + close_tag(base.ordered),
    decreases items.len(),
{
    let ordered = base.ordered;
    let stack = seq![base];
    if items.len() == 0 {
        assert(stack.drop_last() == Seq::<ListFrame>::empty());
        reveal_with_fuel(closings, 2);
        lemma_events_html_one(ListEvent::Close(ordered));
    } else {
        let rest = items.drop_first();
        let width = indent_width(items[0]);
        let item = ListEvent::Item(inline_html(item_text(items[0], ordered)));
        assert forall|i: int| 0 <= i < rest.len() implies indent_width(#[trigger] rest[i])
            <= base.indent by {
            assert(rest[i] == items[i + 1]);
        }
        lemma_flat_items(rest, base);
        assert(step_events(stack, width, ordered) == Seq::<ListEvent>::empty());
        assert(step_stack(stack, width, ordered) == stack);
        assert(item_events(items, ordered, stack) == seq![item] + item_events(rest, ordered, stack));
        lemma_events_html_concat(seq![item], item_events(rest, ordered, stack));
        lemma_events_html_one(item);
    }
}

/// A run of item lines of which none is wider than the first becomes one
/// list that holds one item for each line: the opening tag, the items in
/// the order of the lines, and the closing tag.
pub proof fn lemma_flat_list(lines: Seq<Seq<char>>, ordered: bool)
    requires
        lines.len() > 0,
        indent_width(lines[0]) <= usize::MAX,
        forall|i: int|
            0 <= i < lines.len() ==> indent_width(#[trigger] lines[i]) <= indent_width(lines[0]),
        forall|i: int| 1 <= i < lines.len() ==> is_item(#[trigger] lines[i], ordered),
    ensures
        list_len(lines, ordered) == lines.len(),
        list_html(lines, ordered) == open_tag(ordered) + items_html(lines, ordered) + close_tag(
            ordered,
        ),
{
    let tail = lines.drop_first();
    assert forall|i: int| 0 <= i < tail.len() implies is_item(#[trigger] tail[i], ordered) by {
        assert(tail[i] == lines[i + 1]);
    }
    lemma_item_run(tail, ordered, tail.len() as int);
    assert(lines.take(lines.len() as int) == lines);
    let first = seq![ListEvent::Open(ordered)];
    let base = base_frame(lines, ordered);
    lemma_flat_items(lines, base);
    lemma_events_html_concat(first, item_events(lines, ordered, seq![base]));
    lemma_events_html_one(ListEvent::Open(ordered));
}

/// Whether `line` is indented by `indent` white-space characters and then
/// holds `-` or `*` and a space.
pub open spec fn is_marked(line: Seq<char>, indent: nat) -> bool {
    &&& line.len() >= indent + 2
    &&& forall|j: int| 0 <= j < indent ==> is_white_space(#[trigger] line[j])
    &&& (line[indent as int] == '-' || line[indent as int] == '*')
    &&& line[indent as int + 1] == ' '
}

/// A line that holds `-` or `*` and a space after its indentation is an
/// item, and its indentation is what stands before the marker.
pub proof fn lemma_marked_line(line: Seq<char>, indent: nat)
    requires
        is_marked(line, indent),
    ensures
        is_item(line, false),
        leading(line, CharClass::WhiteSpace) == indent,
{
    lemma_leading(line, CharClass::WhiteSpace, indent as int);
}

/// A run of lines that all hold `-` or `*` and a space after the same
/// indentation becomes one list with one item for each line.
pub proof fn lemma_marked_run(lines: Seq<Seq<char>>, indent: nat)
    requires
        lines.len() > 0,
        indent <= usize::MAX,
        forall|i: int| 0 <= i < lines.len() ==> is_marked(#[trigger] lines[i], indent),
    ensures
        list_len(lines, false) == lines.len(),
        list_html(lines, false) == "<ul>\n"@ + items_html(lines, false) + "</ul>\n"@,
{
    assert forall|i: int| 0 <= i < lines.len() implies indent_width(#[trigger] lines[i]) == indent
        / 2 * 2 && is_item(lines[i], false) by {
        lemma_marked_line(lines[i], indent);
    }
    lemma_flat_list(lines, false);
}

/// Whether `text` can stand in an item as it is: it is not empty, has no
/// white space at its ends and holds no character of inline markup.
pub open spec fn is_plain_text(text: Seq<char>) -> bool {
    &&& text.len() > 0
    &&& !is_white_space(text[0])
    &&& !is_white_space(text.last())
    &&& is_plain(text)
}

/// The items of lines that each hold a marker and a space after `indent`
/// characters of indentation, with what follows the space as their text.
pub open spec fn plain_items_html(lines: Seq<Seq<char>>, indent: nat) -> Seq<char>
    decreases lines.len(),
{
    if lines.len() == 0 {
        Seq::empty()
    } else {
        "<li>"@ + lines[0].skip(indent as int + 2) + "</li>\n"@ + plain_items_html(
            lines.drop_first(),
            indent,
        )
    }
}

/// The formatted text of a marked line with plain text behind the marker
/// is that text.
pub proof fn lemma_plain_item(line: Seq<char>, indent: nat)
    requires
        is_marked(line, indent),
        is_plain_text(line.skip(indent as int + 2)),
    ensures
        inline_html(item_text(line, false)) == line.skip(indent as int + 2),
{
    let text = line.skip(indent as int + 2);
    lemma_marked_line(line, indent);
    let t = trimmed_start(line);
    assert(t == line.skip(indent as int));
    assert(t[0] == line[indent as int]);
    lemma_first_of(t, CharClass::Either('-', '*'), 0);
    let after = t.skip(1);
    assert(after[0] == ' ');
    assert(after[1] == text[0]);
    assert(after.last() == text.last());
    lemma_stripped(after, CharClass::WhiteSpace, 1, after.len() as int);
    assert(after.subrange(1, after.len() as int) == text);
}

/// The items of marked lines with plain text are the texts, each in its
/// item.
pub proof fn lemma_plain_items(lines: Seq<Seq<char>>, indent: nat)
    requires
        forall|i: int|
            0 <= i < lines.len() ==> is_marked(#[trigger] lines[i], indent) && is_plain_text(
                lines[i].skip(indent as int + 2),
            ),
    ensures
        items_html(lines, false) == plain_items_html(lines, indent),
    decreases lines.len(),
{
    if lines.len() > 0 {
        let rest = lines.drop_first();
        assert forall|i: int| 0 <= i < rest.len() implies is_marked(#[trigger] rest[i], indent)
            && is_plain_text(rest[i].skip(indent as int + 2)) by {
            assert(rest[i] == lines[i + 1]);
        }
        lemma_plain_items(rest, indent);
        lemma_plain_item(lines[0], indent);
    }
}

/// A run of lines that all hold `-` or `*`, a space and plain text after
/// the same indentation becomes one list that holds the texts, one item
/// for each line and in the order of the lines.
pub proof fn lemma_plain_run(lines: Seq<Seq<char>>, indent: nat)
    requires
        lines.len() > 0,
        indent <= usize::MAX,
        forall|i: int|
            0 <= i < lines.len() ==> is_marked(#[trigger] lines[i], indent) && is_plain_text(
                lines[i].skip(indent as int + 2),
            ),
    ensures
        list_len(lines, false) == lines.len(),
        list_html(lines, false) == "<ul>\n"@ + plain_items_html(lines, indent) + "</ul>\n"@,
{
    lemma_marked_run(lines, indent);
    lemma_plain_items(lines, indent);
}

} // verus!
