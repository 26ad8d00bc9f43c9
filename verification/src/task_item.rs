use vstd::prelude::*;
use vstd::string::*;
use vstd::utf8::*;
use crate::config::surf_parsing::{capture_spans, spans_in_text, spans_view, names_view, regex_capture_spans, ConfigRegex};
use crate::print::{
    lemma_painted_basic_reads_as, lemma_plain_reads_as, lemma_reads_as_concat, no_escape, paint_black, paint_green,
    painted_basic, strip_escapes,
};
use crate::highlight::{code_highlight, highlight_code_block, highlighted_by_line, lemma_highlighted_reads_as, MarkdownStatic};
use crate::text::{byte_substring, concat2, push_all, chars_of, string_from_chars, str_eq};

verus! {

broadcast use vstd::string::group_string_axioms;

/// `Clone` of std's `Range`, which a derived `Clone` of a struct holding a range calls. The
/// clone is a copy of both bounds, which nothing here relies on.
pub assume_specification<Idx: Clone>[<std::ops::Range<Idx> as Clone>::clone](r: &std::ops::Range<Idx>) -> std::ops::Range<Idx>;

/// A task item of a markdown note: a line such as `  - [x] write the tests`.
#[derive(Clone, Debug, PartialEq, Eq)]
pub struct TaskItem {
    pub file_name: String,
    pub title: String,
    pub completed: bool,
    pub nested_level: usize,
    pub checkmark_offsets_in_string: std::ops::Range<usize>,
    pub self_index: usize,
    pub next_index: Option<usize>,
}

/// The names of the groups that the task item regular expression captures, in the order in
/// which their spans are read.
pub open spec fn task_groups() -> Seq<Seq<char>> {
    seq!["whitespace"@, "checkmark"@, "task_text"@]
}

/// True when every match holds a span for each of the three groups.
pub open spec fn all_groups_present(spans: Seq<Seq<Option<(usize, usize)>>>) -> bool {
    forall|m: int, k: int| 0 <= m < spans.len() && 0 <= k < 3 ==> spans[m].len() == 3 && #[trigger] spans[m][k] is Some
}

/// The text of a checkmark: `x` for a completed task, a space otherwise.
pub open spec fn checkmark_text(completed: bool) -> Seq<char> {
    if completed {
        seq!['x']
    } else {
        seq![' ']
    }
}

/// True when `item` is the task item that the match with group spans `caps`, the
/// `index`-th match in a text with UTF-8 encoding `bytes` of file `file_name`, describes.
pub open spec fn task_item_of_match(
    item: TaskItem,
    file_name: Seq<char>,
    bytes: Seq<u8>,
    caps: Seq<Option<(usize, usize)>>,
    index: int,
) -> bool {
    let (ws, we) = caps[0]->Some_0;
    let (cs, ce) = caps[1]->Some_0;
    let (ts, te) = caps[2]->Some_0;
    &&& item.file_name@ == file_name
    &&& item.title@ == decode_utf8(bytes.subrange(ts as int, te as int))
    &&& item.completed == (decode_utf8(bytes.subrange(cs as int, ce as int)) == seq!['x'])
    &&& item.nested_level == (we - ws) / 2
    &&& item.checkmark_offsets_in_string.start == cs
    &&& item.checkmark_offsets_in_string.end == ce
    &&& item.self_index == index
    &&& item.next_index is None
}

/// `"  "` repeated `n` times.
pub open spec fn indent(n: nat) -> Seq<char>
    decreases n,
{
    if n == 0 {
        Seq::empty()
    } else {
        indent((n - 1) as nat) + seq![' ', ' ']
    }
}

/// The indentation that a task item is shown with.
pub open spec fn display_indent(item: TaskItem, indented: bool) -> Seq<char> {
    if indented {
        indent(item.nested_level as nat)
    } else {
        Seq::empty()
    }
}

/// True when `s` shows `item` for the terminal: indentation when `indented`, a green `✓` for a
/// completed task, the title as highlighted (`title`) and a space painted black.
pub open spec fn task_shown(item: TaskItem, indented: bool, title: Seq<char>, s: Seq<char>) -> bool {
    exists|symbol: Seq<char>, space: Seq<char>| {
        &&& (if item.completed {
            painted_basic(symbol, seq!['✓'], 32)
        } else {
            symbol == seq![' ']
        })
        &&& painted_basic(space, seq![' '], 30)
        &&& s == display_indent(item, indented) + seq!['['] + symbol + seq![']', ' '] + title + seq![' ']
            + space
    }
}

/// A task item as plain text: indentation, `[✓]` or `[ ]`, the title and two spaces.
pub open spec fn mono_display(item: TaskItem, indented: bool) -> Seq<char> {
    display_indent(item, indented) + seq!['['] + (if item.completed {
        seq!['✓']
    } else {
        seq![' ']
    }) + seq![']', ' '] + item.title@ + seq![' ', ' ']
}

/// The text of a file with UTF-8 encoding of `content` after the checkmark at bytes
/// `start..end` is set for a task that was `completed` before and no longer is, or the other
/// way round.
pub open spec fn toggled_text(content: Seq<char>, completed: bool, start: int, end: int) -> Seq<char> {
    let b = encode_utf8(content);
    decode_utf8(b.subrange(0, start)) + checkmark_text(!completed) + decode_utf8(
        b.subrange(end, b.len() as int),
    )
}

/// True when the checkmark span of `item` lies inside `content` at character boundaries.
pub open spec fn checkmark_in(content: Seq<char>, item: TaskItem) -> bool {
    let b = encode_utf8(content);
    let r = item.checkmark_offsets_in_string;
    &&& r.start <= r.end <= b.len()
    &&& is_char_boundary(b, r.start as int)
    &&& is_char_boundary(b, r.end as int)
}

fn indent_chars(out: &mut Vec<char>, n: usize)
    ensures
        final(out)@ == old(out)@ + indent(n as nat),
{
    let mut i: usize = 0;
    while i < n
        invariant
            i <= n,
            out@ == old(out)@ + indent(i as nat),
        decreases n - i,
    {
        out.push(' ');
        out.push(' ');
        assert(out@ =~= old(out)@ + indent((i + 1) as nat));
        i = i + 1;
    }
}

impl TaskItem {
    /// The task item that a match with complete group spans `caps` describes.
    pub fn from_spans(file_name: &str, input: &str, caps: &Vec<Option<(usize, usize)>>, index: usize) -> (item: TaskItem)
        requires
            caps@.len() == 3,
            forall|k: int| 0 <= k < 3 ==> #[trigger] caps@[k] is Some,
            spans_in_text(seq![caps@], input.spec_bytes(), 3),
        ensures
            task_item_of_match(item, file_name@, input.spec_bytes(), caps@, index as int),
    {
        assert(seq![caps@][0] == caps@);
        let (ws, we) = caps[0].unwrap();
        let (cs, ce) = caps[1].unwrap();
        let (ts, te) = caps[2].unwrap();
        proof {
            assert(seq![caps@][0][0] == caps@[0]);
            assert(seq![caps@][0][1] == caps@[1]);
            assert(seq![caps@][0][2] == caps@[2]);
        }
        let title = byte_substring(input, ts, te);
        let checkmark = byte_substring(input, cs, ce);
        proof {
            reveal_strlit("x");
        }
        let completed = str_eq(checkmark.as_str(), "x");
        assert("x"@ == seq!['x']);
        assert(ws <= we);
        TaskItem {
            file_name: String::from_str(file_name),
            title,
            completed,
            nested_level: (we - ws) / 2,
            checkmark_offsets_in_string: cs..ce,
            self_index: index,
            next_index: None,
        }
    }

    /// The task items that the matches with complete group spans `spans` describe, in order.
    pub fn items_from_spans(file_name: &str, input: &str, spans: &Vec<Vec<Option<(usize, usize)>>>) -> (items: Vec<TaskItem>)
        requires
            all_groups_present(spans_view(spans@)),
            spans_in_text(spans_view(spans@), input.spec_bytes(), 3),
        ensures
            items@.len() == spans@.len(),
            forall|i: int|
                0 <= i < items@.len() ==> task_item_of_match(
                    #[trigger] items@[i],
                    file_name@,
                    input.spec_bytes(),
                    spans@[i]@,
                    i,
                ),
    {
        let mut items: Vec<TaskItem> = Vec::new();
        let mut i: usize = 0;
        while i < spans.len()
            invariant
                i <= spans@.len(),
                all_groups_present(spans_view(spans@)),
                spans_in_text(spans_view(spans@), input.spec_bytes(), 3),
                items@.len() == i,
                forall|j: int|
                    0 <= j < i ==> task_item_of_match(
                        #[trigger] items@[j],
                        file_name@,
                        input.spec_bytes(),
                        spans@[j]@,
                        j,
                    ),
            decreases spans@.len() - i,
        {
            let caps = &spans[i];
            proof {
                assert(spans_view(spans@)[i as int] == caps@);
                assert(spans_view(spans@)[i as int][0] is Some);
                assert forall|k: int| 0 <= k < 3 implies #[trigger] caps@[k] is Some by {
                    assert(spans_view(spans@)[i as int][k] is Some);
                }
                assert forall|m: int, k: int|
                    0 <= m < 1 && 0 <= k < seq![caps@][m].len() implies (seq![caps@][m].len() == 3 && (
                    #[trigger] seq![caps@][m][k] matches Some((s, e)) ==> s <= e <= input.spec_bytes().len()
                        && is_char_boundary(input.spec_bytes(), s as int) && is_char_boundary(
                        input.spec_bytes(),
                        e as int,
                    ))) by {
                    assert(seq![caps@][m] == spans_view(spans@)[i as int]);
                }
            }
            let item = TaskItem::from_spans(file_name, input, caps, i);
            items.push(item);
            i = i + 1;
        }
        items
    }

    /// The task items that the task item regular expression finds in `input`, the text of
    /// file `file_name`, in order; `None` when some match lacks one of the groups
    /// `whitespace`, `checkmark` and `task_text`.
    pub fn parse_string(file_name: &str, input: &str, regex: &ConfigRegex) -> (r: Option<Vec<TaskItem>>)
        requires
            regex.wf(),
        ensures
            r is Some <==> (regex_capture_spans(regex.pattern_view(), input@, task_groups()) matches Some(spans)
                && all_groups_present(spans)),
            r matches Some(items) ==> (regex_capture_spans(regex.pattern_view(), input@, task_groups()) matches Some(spans)
                && items@.len() == spans.len() && forall|i: int|
                0 <= i < items@.len() ==> task_item_of_match(
                    #[trigger] items@[i],
                    file_name@,
                    input.spec_bytes(),
                    spans[i],
                    i,
                )),
    {
        let mut groups: Vec<String> = Vec::new();
        groups.push(String::from_str("whitespace"));
        groups.push(String::from_str("checkmark"));
        groups.push(String::from_str("task_text"));
        proof {
            reveal_strlit("whitespace");
            reveal_strlit("checkmark");
            reveal_strlit("task_text");
            assert(names_view(groups@) =~= task_groups());
        }
        let spans = match capture_spans(regex.as_str(), input, &groups) {
            Some(s) => s,
            None => {
                return None;
            },
        };
        let mut m: usize = 0;
        while m < spans.len()
            invariant
                m <= spans@.len(),
                Some(spans_view(spans@)) == regex_capture_spans(regex.pattern_view(), input@, task_groups()),
                spans_in_text(spans_view(spans@), input.spec_bytes(), 3),
                forall|j: int, k: int| 0 <= j < m && 0 <= k < 3 ==> spans_view(spans@)[j].len() == 3 && #[trigger] spans_view(spans@)[j][k] is Some,
            decreases spans@.len() - m,
        {
            if spans[m].len() != 3 || spans[m][0].is_none() || spans[m][1].is_none() || spans[m][2].is_none() {
                proof {
                    let k: int = if spans@[m as int]@.len() != 3 { 0 } else if spans@[m as int]@[0] is None { 0 } else if spans@[m as int]@[1] is None { 1 } else { 2 };
                    assert(!(spans_view(spans@)[m as int].len() == 3 && spans_view(spans@)[m as int][k] is Some));
                }
                return None;
            }
            m = m + 1;
        }
        assert(all_groups_present(spans_view(spans@)));
        let items = TaskItem::items_from_spans(file_name, input, &spans);
        Some(items)
    }

    /// The task item shown as plain text, indented by its nesting level when `indented`.
    pub fn skim_display_mono(&self, indented: bool) -> (s: String)
        ensures
            s@ == mono_display(*self, indented),
    {
        let mut out: Vec<char> = Vec::new();
        if indented {
            indent_chars(&mut out, self.nested_level);
        }
        out.push('[');
        if self.completed {
            out.push('✓');
        } else {
            out.push(' ');
        }
        out.push(']');
        out.push(' ');
        let title = chars_of(self.title.as_str());
        push_all(&mut out, &title);
        out.push(' ');
        out.push(' ');
        assert(out@ =~= mono_display(*self, indented));
        string_from_chars(&out)
    }

    /// The task item for the terminal: indentation, a green `✓` for a completed task, the
    /// title as highlighted by the caller and a space painted black.
    pub fn skim_display_titled(&self, indented: bool, highlighted_title: &str) -> (s: String)
        ensures
            task_shown(*self, indented, highlighted_title@, s@),
    {
        let mut out: Vec<char> = Vec::new();
        if indented {
            indent_chars(&mut out, self.nested_level);
        }
        proof {
            reveal_strlit("✓");
            reveal_strlit(" ");
        }
        let symbol = if self.completed {
            paint_green("✓")
        } else {
            String::from_str(" ")
        };
        let space = paint_black(" ");
        out.push('[');
        let sym = chars_of(symbol.as_str());
        push_all(&mut out, &sym);
        out.push(']');
        out.push(' ');
        let title = chars_of(highlighted_title);
        push_all(&mut out, &title);
        out.push(' ');
        let sp = chars_of(space.as_str());
        push_all(&mut out, &sp);
        assert(out@ =~= display_indent(*self, indented) + seq!['['] + symbol@ + seq![']', ' ']
            + highlighted_title@ + seq![' '] + space@);
        assert(" "@ == seq![' ']);
        assert("✓"@ == seq!['✓']);
        assert(if self.completed {
            painted_basic(symbol@, seq!['✓'], 32)
        } else {
            symbol@ == seq![' ']
        });
        assert(painted_basic(space@, seq![' '], 30));
        string_from_chars(&out)
    }

    /// A copy of the task item.
    pub fn duplicate(&self) -> (r: TaskItem)
        ensures
            r == *self,
    {
        TaskItem {
            file_name: self.file_name.clone(),
            title: self.title.clone(),
            completed: self.completed,
            nested_level: self.nested_level,
            checkmark_offsets_in_string: self.checkmark_offsets_in_string.start..self.checkmark_offsets_in_string.end,
            self_index: self.self_index,
            next_index: self.next_index,
        }
    }

    /// The task item with its state flipped between done and not done.
    pub fn toggled(self) -> (r: TaskItem)
        ensures
            r == (TaskItem { completed: !self.completed, ..self }),
    {
        TaskItem { completed: !self.completed, ..self }
    }

    /// The text `content` of the item's note with its checkmark toggled: `x` in place of the
    /// space of an open item, a space in place of the `x` of a completed one.
    pub fn toggled_content(&self, content: &str) -> (r: String)
        requires
            checkmark_in(content@, *self),
        ensures
            r@ == toggled_text(
                content@,
                self.completed,
                self.checkmark_offsets_in_string.start as int,
                self.checkmark_offsets_in_string.end as int,
            ),
    {
        let start = self.checkmark_offsets_in_string.start;
        let end = self.checkmark_offsets_in_string.end;
        let n = content.as_bytes().len();
        proof {
            encode_utf8_valid_utf8(content@);
            is_char_boundary_start_end_of_seq(content.spec_bytes());
        }
        let before = byte_substring(content, 0, start);
        let after = byte_substring(content, end, n);
        proof {
            reveal_strlit("x");
            reveal_strlit(" ");
        }
        let mark = if self.completed {
            " "
        } else {
            "x"
        };
        let head = concat2(before.as_str(), mark);
        concat2(head.as_str(), after.as_str())
    }
}

proof fn lemma_encode_concat(a: Seq<char>, b: Seq<char>)
    ensures
        encode_utf8(a + b) == encode_utf8(a) + encode_utf8(b),
    decreases a.len(),
{
    if a.len() == 0 {
        assert(a + b =~= b);
        assert(encode_utf8(a) + encode_utf8(b) =~= encode_utf8(b));
    } else {
        assert((a + b).drop_first() =~= a.drop_first() + b);
        assert((a + b)[0] == a[0]);
        lemma_encode_concat(a.drop_first(), b);
        assert(encode_utf8(a + b) =~= encode_utf8(a) + encode_utf8(b));
    }
}

/// Flipping a task's checkmark twice gives back the text of its file: after the first flip
/// the checkmark is one byte long, and flipping the task in its new state at that byte
/// restores the checkmark that stood there before.
pub proof fn lemma_toggle_twice_restores(content: Seq<char>, completed: bool, start: int, end: int)
    requires
        0 <= start <= end <= encode_utf8(content).len(),
        is_char_boundary(encode_utf8(content), start),
        is_char_boundary(encode_utf8(content), end),
        decode_utf8(encode_utf8(content).subrange(start, end)) == checkmark_text(completed),
    ensures
        toggled_text(toggled_text(content, completed, start, end), !completed, start, start + 1)
            == content,
{
    let b = encode_utf8(content);
    encode_utf8_valid_utf8(content);
    is_char_boundary_start_end_of_seq(b);
    let a_bytes = b.subrange(0, start);
    let c_bytes = b.subrange(end, b.len() as int);
    crate::lines::lemma_valid_subrange(b, 0, start);
    crate::lines::lemma_valid_subrange(b, end, b.len() as int);
    let a = decode_utf8(a_bytes);
    let c = decode_utf8(c_bytes);
    let t = checkmark_text(!completed);
    decode_utf8_encode_utf8(a_bytes);
    decode_utf8_encode_utf8(c_bytes);
    let once = a + t + c;
    lemma_encode_concat(a + t, c);
    lemma_encode_concat(a, t);
    let t_bytes = encode_utf8(t);
    assert(t_bytes.len() == 1) by {
        reveal_with_fuel(encode_utf8, 2);
        assert(t.drop_first() =~= Seq::<char>::empty());
    }
    let b2 = encode_utf8(once);
    assert(b2 == a_bytes + t_bytes + c_bytes);
    assert(b2.subrange(0, start) =~= a_bytes);
    assert(b2.subrange(start + 1, b2.len() as int) =~= c_bytes);
    // the text before the flip, cut at the checkmark
    decode_utf8_split(b, start);
    let rest = b.subrange(start, b.len() as int);
    crate::lines::lemma_valid_subrange(b, start, b.len() as int);
    assert(is_char_boundary(rest, end - start)) by {
        if end == start {
            is_char_boundary_start_end_of_seq(rest);
        } else if end == b.len() {
            is_char_boundary_start_end_of_seq(rest);
            assert(rest.len() == end - start);
        } else {
            is_char_boundary_iff_not_is_continuation_byte(b, end);
            is_char_boundary_iff_not_is_continuation_byte(rest, end - start);
        }
    }
    decode_utf8_split(rest, end - start);
    assert(rest.subrange(0, end - start) =~= b.subrange(start, end));
    assert(rest.subrange(end - start, rest.len() as int) =~= c_bytes);
    encode_utf8_decode_utf8(content);
    assert(content =~= a + checkmark_text(completed) + c);
}

/// True when `s` shows `item` for the terminal with its title as the highlighter rendered it
/// (or as it is, when no syntax applies).
pub open spec fn task_shown_highlighted(item: TaskItem, indented: bool, s: Seq<char>) -> bool {
    exists|t: Seq<char>| (t == item.title@ || highlighted_by_line(item.title@, t)) && task_shown(item, indented, t, s)
}

proof fn lemma_indent_plain(n: nat)
    ensures
        no_escape(indent(n)),
    decreases n,
{
    if n > 0 {
        lemma_indent_plain((n - 1) as nat);
        let a = indent((n - 1) as nat);
        assert forall|i: int| 0 <= i < indent(n).len() implies indent(n)[i] != '\u{1b}' by {
            if i >= a.len() {
                assert(indent(n)[i] == seq![' ', ' '][i - a.len()]);
            } else {
                assert(indent(n)[i] == a[i]);
            }
        }
    }
}

/// With its colors taken out, a task item shown in colors (its title highlighted as
/// markdown) reads as its plain display, when its title holds no escape character.
#[verifier::rlimit(40)]
pub proof fn lemma_task_display_reads_plain(item: TaskItem, indented: bool, s: Seq<char>)
    requires
        task_shown_highlighted(item, indented, s),
        no_escape(item.title@),
    ensures
        strip_escapes(s) == mono_display(item, indented),
{
    let t = choose|t: Seq<char>| (t == item.title@ || highlighted_by_line(item.title@, t)) && task_shown(item, indented, t, s);
    if t == item.title@ {
        lemma_plain_reads_as(t);
    } else {
        lemma_highlighted_reads_as(item.title@, t);
    }
    let (symbol, space) = choose|symbol: Seq<char>, space: Seq<char>| {
        &&& (if item.completed {
            painted_basic(symbol, seq!['✓'], 32)
        } else {
            symbol == seq![' ']
        })
        &&& painted_basic(space, seq![' '], 30)
        &&& s == display_indent(item, indented) + seq!['['] + symbol + seq![']', ' '] + t + seq![' ']
            + space
    };
    let mark = if item.completed { seq!['✓'] } else { seq![' '] };
    assert(no_escape(mark));
    if item.completed {
        lemma_painted_basic_reads_as(symbol, seq!['✓'], 32);
    } else {
        lemma_plain_reads_as(symbol);
    }
    assert(no_escape(seq![' ']));
    lemma_painted_basic_reads_as(space, seq![' '], 30);
    let ind = display_indent(item, indented);
    if indented {
        lemma_indent_plain(item.nested_level as nat);
    } else {
        assert(no_escape(ind));
    }
    lemma_plain_reads_as(ind);
    assert(no_escape(seq!['[']));
    assert(no_escape(seq![']', ' ']));
    lemma_plain_reads_as(seq!['[']);
    lemma_plain_reads_as(seq![']', ' ']);
    lemma_plain_reads_as(seq![' ']);
    lemma_reads_as_concat(ind, ind, seq!['['], seq!['[']);
    lemma_reads_as_concat(ind + seq!['['], ind + seq!['['], symbol, mark);
    lemma_reads_as_concat(ind + seq!['['] + symbol, ind + seq!['['] + mark, seq![']', ' '], seq![']', ' ']);
    lemma_reads_as_concat(
        ind + seq!['['] + symbol + seq![']', ' '],
        ind + seq!['['] + mark + seq![']', ' '],
        t,
        item.title@,
    );
    lemma_reads_as_concat(
        ind + seq!['['] + symbol + seq![']', ' '] + t,
        ind + seq!['['] + mark + seq![']', ' '] + item.title@,
        seq![' '],
        seq![' '],
    );
    lemma_reads_as_concat(
        ind + seq!['['] + symbol + seq![']', ' '] + t + seq![' '],
        ind + seq!['['] + mark + seq![']', ' '] + item.title@ + seq![' '],
        space,
        seq![' '],
    );
    assert(ind + seq!['['] + mark + seq![']', ' '] + item.title@ + seq![' '] + seq![' '] =~= mono_display(item, indented));
}

impl TaskItem {
    /// The task item for the terminal (see [`TaskItem::skim_display_titled`]), its title
    /// highlighted as markdown (see [`code_highlight`]); `None` when the highlighter fails,
    /// which it cannot on an empty title.
    pub fn skim_display(&self, indented: bool, md_static: &MarkdownStatic) -> (r: Option<String>)
        ensures
            match code_highlight(*md_static, "markdown"@, self.title@) {
                Some(h) => r matches Some(s) && task_shown(*self, indented, h, s@),
                None => r is None,
            },
            r matches Some(s) ==> task_shown_highlighted(*self, indented, s@),
            self.title@.len() == 0 ==> (r matches Some(s) && task_shown(*self, indented, Seq::empty(), s@)),
    {
        match highlight_code_block(self.title.as_str(), "markdown", md_static) {
            Some(title) => {
                let s = self.skim_display_titled(indented, title.as_str());
                assert(task_shown(*self, indented, title@, s@));
                assert(title@ == self.title@ || highlighted_by_line(self.title@, title@));
                assert(task_shown_highlighted(*self, indented, s@));
                assert(self.title@.len() == 0 ==> title@ =~= Seq::<char>::empty());
                Some(s)
            },
            None => None,
        }
    }
}

} // verus!
