use vstd::prelude::*;
use syntect::easy::HighlightLines;
use syntect::highlighting::Theme;
use syntect::parsing::{SyntaxReference, SyntaxSet};
use crate::text::{chars_of, decimal, push_all, string_from_chars};
use crate::print::{
    lemma_decimal_no_m, lemma_escape_reads_empty, lemma_plain_reads_as, lemma_reads_as_concat, no_escape, no_m,
    reads_as,
};

verus! {

broadcast use vstd::string::group_string_axioms;

#[verifier::external_type_specification]
#[verifier::external_body]
pub struct ExSyntaxSet(SyntaxSet);

#[verifier::external_type_specification]
#[verifier::external_body]
pub struct ExSyntaxReference(SyntaxReference);

#[verifier::external_type_specification]
#[verifier::external_body]
pub struct ExTheme(Theme);

#[verifier::external_type_specification]
#[verifier::external_body]
pub struct ExHighlightLines<'a>(HighlightLines<'a>);

/// The syntax definitions, the markdown syntax among them, and the theme with which texts are
/// highlighted, loaded once for the whole run.
#[derive(Clone, Copy)]
pub struct MarkdownStatic {
    pub syntax_set: &'static SyntaxSet,
    pub markdown: &'static SyntaxReference,
    pub theme: &'static Theme,
}

/// Whether the syntax set holds a syntax named by `token`, as
/// `SyntaxSet::find_syntax_by_token` finds it: a function of the set and the token.
pub uninterp spec fn syntax_found(set: SyntaxSet, token: Seq<char>) -> bool;

/// The syntax that `SyntaxSet::find_syntax_by_token` finds in the set for `token`.
pub uninterp spec fn found_syntax(set: SyntaxSet, token: Seq<char>) -> SyntaxReference;

/// `syntect`'s `SyntaxSet::find_syntax_by_token`: the syntax named by a token such as `rust`
/// or `md`, if the set has one.
#[verifier::external_body]
fn find_syntax<'a>(syntax_set: &'a SyntaxSet, token: &str) -> (r: Option<&'a SyntaxReference>)
    ensures
        r is Some <==> syntax_found(*syntax_set, token@),
        r matches Some(syntax) ==> *syntax == found_syntax(*syntax_set, token@),
{
    syntax_set.find_syntax_by_token(token)
}

/// The fresh highlighter that `HighlightLines::new` makes for the syntax and the theme.
pub uninterp spec fn highlighter_for(syntax: SyntaxReference, theme: Theme) -> HighlightLines<'static>;

/// `syntect`'s `HighlightLines::new`: a highlighter for one text in the syntax and theme.
#[verifier::external_body]
fn new_highlighter(syntax: &SyntaxReference, theme: &'static Theme) -> (h: HighlightLines<'static>)
    ensures
        h == highlighter_for(*syntax, *theme),
{
    HighlightLines::new(syntax, theme)
}

/// A color as its red, green and blue parts.
pub type Rgb = (u8, u8, u8);

/// One styled piece of a line as `syntect::util::as_24_bit_terminal_escaped` writes it with
/// backgrounds: the escape that sets the background color, the escape that sets the text
/// color, then the piece's text.
pub open spec fn escaped_piece(bg: Rgb, fg: Rgb, text: Seq<char>) -> Seq<char> {
    "\x1b[48;2;"@ + decimal(bg.0 as nat) + ";"@ + decimal(bg.1 as nat) + ";"@ + decimal(bg.2 as nat) + "m"@
        + "\x1b[38;2;"@ + decimal(fg.0 as nat) + ";"@ + decimal(fg.1 as nat) + ";"@ + decimal(fg.2 as nat)
        + "m"@ + text
}

/// The texts of styled pieces.
pub open spec fn piece_texts(pieces: Seq<(Rgb, Rgb, Seq<char>)>) -> Seq<Seq<char>> {
    pieces.map_values(|p: (Rgb, Rgb, Seq<char>)| p.2)
}

/// Styled pieces, each written with its colors (see [`escaped_piece`]).
pub open spec fn piece_escapes(pieces: Seq<(Rgb, Rgb, Seq<char>)>) -> Seq<Seq<char>> {
    pieces.map_values(|p: (Rgb, Rgb, Seq<char>)| escaped_piece(p.0, p.1, p.2))
}

/// True when `out` is `line` cut into pieces, in order, each written with some colors (see
/// [`escaped_piece`]).
pub open spec fn escaped_line(line: Seq<char>, out: Seq<char>) -> bool {
    exists|pieces: Seq<(Rgb, Rgb, Seq<char>)>|
        #[trigger] piece_texts(pieces).flatten() == line && piece_escapes(pieces).flatten() == out
}

/// What [`highlight_line_escaped`] gives for `line` from a highlighter in the state `h`: the
/// line's styled pieces written with their colors, or `None` when the syntax definition fails
/// on it. A function of the highlighter's state, the line and the syntax set.
pub uninterp spec fn line_highlight(h: HighlightLines<'static>, line: Seq<char>, set: SyntaxSet) -> Option<Seq<char>>;

/// The state that a highlighter in the state `h` is left in after `line`.
pub uninterp spec fn after_line(h: HighlightLines<'static>, line: Seq<char>, set: SyntaxSet) -> HighlightLines<'static>;

/// `syntect`'s `HighlightLines::highlight_line` on the next line of the text, its styled
/// pieces written by `util::as_24_bit_terminal_escaped` with backgrounds; `None` when the
/// syntax definition fails on the line. The pieces' texts make up the line, as `syntect`
/// documents; their colors are what the theme gives the line in the highlighter's state.
#[verifier::external_body]
fn highlight_line_escaped(h: &mut HighlightLines<'static>, line: &str, syntax_set: &SyntaxSet) -> (r: Option<String>)
    ensures
        r matches Some(s) ==> escaped_line(line@, s@),
        match r {
            Some(s) => line_highlight(*old(h), line@, *syntax_set) == Some(s@),
            None => line_highlight(*old(h), line@, *syntax_set) is None,
        },
        *final(h) == after_line(*old(h), line@, *syntax_set),
{
    h.highlight_line(line, syntax_set).ok().map(|ranges| syntect::util::as_24_bit_terminal_escaped(&ranges[..], true))
}

/// The lines highlighted one after the other by a highlighter that starts in the state `h`,
/// joined; `None` as soon as one line fails.
pub open spec fn lines_highlight(h: HighlightLines<'static>, lines: Seq<Seq<char>>, set: SyntaxSet) -> Option<Seq<char>>
    decreases lines.len(),
{
    if lines.len() == 0 {
        Some(Seq::empty())
    } else {
        match line_highlight(h, lines[0], set) {
            None => None,
            Some(p) => match lines_highlight(after_line(h, lines[0], set), lines.drop_first(), set) {
                None => None,
                Some(rest) => Some(p + rest),
            },
        }
    }
}

/// `input` highlighted as markdown with the loaded syntaxes and theme.
pub open spec fn markdown_highlight(md: MarkdownStatic, input: Seq<char>) -> Option<Seq<char>> {
    lines_highlight(highlighter_for(*md.markdown, *md.theme), lines_with_endings(input), *md.syntax_set)
}

/// `input` highlighted as the syntax that `token` names, with the loaded syntaxes and theme;
/// `input` as it is when no syntax has that name.
pub open spec fn code_highlight(md: MarkdownStatic, token: Seq<char>, input: Seq<char>) -> Option<Seq<char>> {
    if syntax_found(*md.syntax_set, token) {
        lines_highlight(
            highlighter_for(found_syntax(*md.syntax_set, token), *md.theme),
            lines_with_endings(input),
            *md.syntax_set,
        )
    } else {
        Some(input)
    }
}

/// The lines of `s`, each with the newline that ends it (the last may have none), as
/// `syntect::util::LinesWithEndings` yields them: no line is empty and together they make `s`.
pub open spec fn lines_with_endings(s: Seq<char>) -> Seq<Seq<char>>
    decreases s.len(),
{
    if s.len() == 0 {
        Seq::empty()
    } else {
        let rest = lines_with_endings(s.drop_last());
        if rest.len() == 0 || rest.last().last() == '\n' {
            rest.push(seq![s.last()])
        } else {
            rest.update(rest.len() - 1, rest.last().push(s.last()))
        }
    }
}

/// The lines of `s` with their endings (see [`lines_with_endings`]).
pub fn split_lines_with_endings(s: &str) -> (v: Vec<String>)
    ensures
        v@.map_values(|l: String| l@) == lines_with_endings(s@),
{
    let cs = chars_of(s);
    let mut lines: Vec<Vec<char>> = Vec::new();
    let mut i: usize = 0;
    while i < cs.len()
        invariant
            cs@ == s@,
            i <= cs@.len(),
            lines@.map_values(|l: Vec<char>| l@) == lines_with_endings(cs@.take(i as int)),
            forall|k: int| 0 <= k < lines@.len() ==> (#[trigger] lines@[k])@.len() > 0,
        decreases cs@.len() - i,
    {
        let ghost before = lines@.map_values(|l: Vec<char>| l@);
        assert(cs@.take(i + 1).drop_last() =~= cs@.take(i as int));
        let c = cs[i];
        let n = lines.len();
        if n == 0 || lines[n - 1][lines[n - 1].len() - 1] == '\n' {
            let mut line: Vec<char> = Vec::new();
            line.push(c);
            lines.push(line);
            assert(lines@.map_values(|l: Vec<char>| l@) =~= before.push(seq![c]));
        } else {
            let mut last = lines.pop().unwrap();
            last.push(c);
            lines.push(last);
            assert(lines@.map_values(|l: Vec<char>| l@) =~= before.update(n - 1, before[n - 1].push(c)));
        }
        i = i + 1;
    }
    assert(cs@.take(cs@.len() as int) =~= cs@);
    let mut v: Vec<String> = Vec::new();
    let mut k: usize = 0;
    while k < lines.len()
        invariant
            k <= lines@.len(),
            v@.len() == k,
            forall|j: int| 0 <= j < k ==> (#[trigger] v@[j])@ == lines@[j]@,
        decreases lines@.len() - k,
    {
        let line = string_from_chars(&lines[k]);
        v.push(line);
        k = k + 1;
    }
    assert(v@.map_values(|l: String| l@) =~= lines@.map_values(|l: Vec<char>| l@));
    v
}

/// True when `out` is made of one highlighted piece for each line of `input`, in order, each
/// the line cut into pieces and written with colors (see [`escaped_line`]).
pub open spec fn highlighted_by_line(input: Seq<char>, out: Seq<char>) -> bool {
    exists|pieces: Seq<Seq<char>>| {
        &&& pieces.len() == lines_with_endings(input).len()
        &&& out == pieces.flatten()
        &&& forall|k: int| 0 <= k < pieces.len() ==> escaped_line(lines_with_endings(input)[k], #[trigger] pieces[k])
    }
}

fn highlight_lines(h: &mut HighlightLines<'static>, input: &str, syntax_set: &SyntaxSet) -> (r: Option<String>)
    ensures
        match r {
            Some(s) => lines_highlight(*old(h), lines_with_endings(input@), *syntax_set) == Some(s@),
            None => lines_highlight(*old(h), lines_with_endings(input@), *syntax_set) is None,
        },
        r matches Some(s) ==> highlighted_by_line(input@, s@),
        input@.len() == 0 ==> (r matches Some(s) && s@.len() == 0),
{
    let lines = split_lines_with_endings(input);
    assert(input@.len() == 0 ==> lines_with_endings(input@) =~= Seq::<Seq<char>>::empty());
    let ghost all = lines_with_endings(input@);
    let ghost h0 = *h;
    let mut out: Vec<char> = Vec::new();
    let ghost mut pieces: Seq<Seq<char>> = Seq::empty();
    let mut i: usize = 0;
    assert(all.skip(0) =~= all);
    assert forall|t: Seq<char>| out@ + t == t by {
        assert(out@ + t =~= t);
    }
    while i < lines.len()
        invariant
            i <= lines@.len(),
            lines@.map_values(|l: String| l@) == all,
            all == lines_with_endings(input@),
            h0 == *old(h),
            input@.len() == 0 ==> lines@.len() == 0,
            pieces.len() == i,
            out@ == pieces.flatten(),
            forall|k: int| 0 <= k < i ==> escaped_line(all[k], #[trigger] pieces[k]),
            lines_highlight(h0, all, *syntax_set) == match lines_highlight(*h, all.skip(i as int), *syntax_set) {
                None => None,
                Some(rest) => Some(out@ + rest),
            },
        decreases lines@.len() - i,
    {
        assert(lines@[i as int]@ == all[i as int]);
        assert(all.skip(i as int).drop_first() =~= all.skip(i + 1));
        assert(all.skip(i as int)[0] == all[i as int]);
        let ghost hb = *h;
        match highlight_line_escaped(h, lines[i].as_str(), syntax_set) {
            Some(piece) => {
                let cs = chars_of(piece.as_str());
                proof {
                    pieces.lemma_flatten_push(cs@);
                    pieces = pieces.push(cs@);
                    assert forall|t: Seq<char>| out@ + (cs@ + t) == (out@ + cs@) + t by {
                        assert(out@ + (cs@ + t) =~= (out@ + cs@) + t);
                    }
                }
                push_all(&mut out, &cs);
            },
            None => {
                assert(lines_highlight(hb, all.skip(i as int), *syntax_set) is None);
                assert(lines_highlight(h0, all, *syntax_set) is None);
                return None;
            },
        }
        i = i + 1;
    }
    assert(all.skip(i as int) =~= Seq::<Seq<char>>::empty());
    assert(out@ + Seq::<char>::empty() =~= out@);
    let s = string_from_chars(&out);
    assert(input@.len() == 0 ==> pieces =~= Seq::<Seq<char>>::empty());
    assert(highlighted_by_line(input@, s@));
    Some(s)
}

/// `input` highlighted as the syntax that `syntax_desc` names, line by line, for the
/// terminal; `input` as it is when no syntax has that name; `None` when the syntax definition
/// fails on a line. An empty `input` has no line, and comes back empty.
pub fn highlight_code_block(input: &str, syntax_desc: &str, md_static: &MarkdownStatic) -> (r: Option<String>)
    ensures
        match r {
            Some(s) => code_highlight(*md_static, syntax_desc@, input@) == Some(s@),
            None => code_highlight(*md_static, syntax_desc@, input@) is None,
        },
        r matches Some(s) ==> s@ == input@ || highlighted_by_line(input@, s@),
        input@.len() == 0 ==> (r matches Some(s) && s@.len() == 0),
{
    match find_syntax(md_static.syntax_set, syntax_desc) {
        Some(syntax) => {
            let mut h = new_highlighter(syntax, md_static.theme);
            highlight_lines(&mut h, input, md_static.syntax_set)
        },
        None => Some(String::from_str(input)),
    }
}

/// `input` highlighted as markdown, line by line, for the terminal; `None` when the syntax
/// definition fails on a line. An empty `input` has no line, and comes back empty.
pub fn highlight_markdown(input: &str, md_static: &MarkdownStatic) -> (r: Option<String>)
    ensures
        match r {
            Some(s) => markdown_highlight(*md_static, input@) == Some(s@),
            None => markdown_highlight(*md_static, input@) is None,
        },
        r matches Some(s) ==> highlighted_by_line(input@, s@),
        input@.len() == 0 ==> (r matches Some(s) && s@.len() == 0),
{
    let mut h = new_highlighter(md_static.markdown, md_static.theme);
    highlight_lines(&mut h, input, md_static.syntax_set)
}

/// Texts that read as `ys`, one by one, read as `ys` joined.
pub proof fn lemma_flatten_reads_as(xs: Seq<Seq<char>>, ys: Seq<Seq<char>>)
    requires
        xs.len() == ys.len(),
        forall|k: int| 0 <= k < xs.len() ==> reads_as(#[trigger] xs[k], ys[k]),
    ensures
        reads_as(xs.flatten(), ys.flatten()),
    decreases xs.len(),
{
    if xs.len() == 0 {
        lemma_plain_reads_as(Seq::<char>::empty());
    } else {
        assert(reads_as(xs[0], ys[0]));
        assert forall|k: int| 0 <= k < xs.drop_first().len() implies reads_as(
            #[trigger] xs.drop_first()[k],
            ys.drop_first()[k],
        ) by {
            assert(reads_as(xs[k + 1], ys[k + 1]));
        }
        lemma_flatten_reads_as(xs.drop_first(), ys.drop_first());
        lemma_reads_as_concat(xs[0], ys[0], xs.drop_first().flatten(), ys.drop_first().flatten());
    }
}

/// The parts of a text without escapes hold none.
pub proof fn lemma_flatten_no_escape(xs: Seq<Seq<char>>)
    requires
        no_escape(xs.flatten()),
    ensures
        forall|k: int| 0 <= k < xs.len() ==> no_escape(#[trigger] xs[k]),
    decreases xs.len(),
{
    if xs.len() > 0 {
        let f = xs.flatten();
        assert(f == xs[0] + xs.drop_first().flatten());
        assert forall|i: int| 0 <= i < xs[0].len() implies xs[0][i] != '\u{1b}' by {
            assert(f[i] == xs[0][i]);
        }
        assert forall|i: int| 0 <= i < xs.drop_first().flatten().len() implies xs.drop_first().flatten()[i]
            != '\u{1b}' by {
            assert(f[xs[0].len() + i] == xs.drop_first().flatten()[i]);
        }
        lemma_flatten_no_escape(xs.drop_first());
        assert forall|k: int| 0 <= k < xs.len() implies no_escape(#[trigger] xs[k]) by {
            if k > 0 {
                assert(xs[k] == xs.drop_first()[k - 1]);
            }
        }
    }
}

/// The lines of a text, with their endings, make up the text.
pub proof fn lemma_lines_flatten(s: Seq<char>)
    ensures
        lines_with_endings(s).flatten() == s,
    decreases s.len(),
{
    if s.len() > 0 {
        let rest = lines_with_endings(s.drop_last());
        lemma_lines_flatten(s.drop_last());
        if rest.len() == 0 || rest.last().last() == '\n' {
            rest.lemma_flatten_push(seq![s.last()]);
        } else {
            let front = rest.drop_last();
            assert(rest =~= front.push(rest.last()));
            front.lemma_flatten_push(rest.last());
            let upd = rest.update(rest.len() - 1, rest.last().push(s.last()));
            assert(upd =~= front.push(rest.last().push(s.last())));
            front.lemma_flatten_push(rest.last().push(s.last()));
        }
        assert(s.drop_last().push(s.last()) =~= s);
    }
}

proof fn lemma_no_m_concat(a: Seq<char>, b: Seq<char>)
    requires
        no_m(a),
        no_m(b),
    ensures
        no_m(a + b),
{
    assert forall|i: int| 0 <= i < (a + b).len() implies (a + b)[i] != 'm' by {
        if i >= a.len() {
            assert((a + b)[i] == b[i - a.len()]);
        }
    }
}

/// The code of a 24-bit color escape after its `48;2;` or `38;2;`: the three parts.
spec fn color_digits(c: Rgb) -> Seq<char> {
    decimal(c.0 as nat) + seq![';'] + decimal(c.1 as nat) + seq![';'] + decimal(c.2 as nat)
}

proof fn lemma_color_digits_no_m(c: Rgb)
    ensures
        no_m(color_digits(c)),
{
    lemma_decimal_no_m(c.0 as nat);
    lemma_decimal_no_m(c.1 as nat);
    lemma_decimal_no_m(c.2 as nat);
    assert(no_m(seq![';']));
    lemma_no_m_concat(decimal(c.0 as nat), seq![';']);
    lemma_no_m_concat(decimal(c.0 as nat) + seq![';'], decimal(c.1 as nat));
    lemma_no_m_concat(decimal(c.0 as nat) + seq![';'] + decimal(c.1 as nat), seq![';']);
    lemma_no_m_concat(decimal(c.0 as nat) + seq![';'] + decimal(c.1 as nat) + seq![';'], decimal(c.2 as nat));
}

proof fn lemma_piece_layout(
    l1: Seq<char>,
    l2: Seq<char>,
    e: Seq<char>,
    p1: Seq<char>,
    p2: Seq<char>,
    x: Seq<char>,
    y: Seq<char>,
    m: Seq<char>,
    text: Seq<char>,
)
    requires
        l1 == e + p1,
        l2 == e + p2,
    ensures
        l1 + x + m + l2 + y + m + text == (e + (p1 + x) + m) + (e + (p2 + y) + m) + text,
{
    assert(l1 + x + m + l2 + y + m + text =~= (e + (p1 + x) + m) + (e + (p2 + y) + m) + text);
}

proof fn lemma_digits_layout(a: Seq<char>, d0: Seq<char>, s: Seq<char>, d1: Seq<char>, d2: Seq<char>)
    ensures
        a + d0 + s + d1 + s + d2 == a + (d0 + s + d1 + s + d2),
{
    assert(a + d0 + s + d1 + s + d2 =~= a + (d0 + s + d1 + s + d2));
}

/// A styled piece reads as its text, when that holds no escape.
pub proof fn lemma_escaped_piece_reads(bg: Rgb, fg: Rgb, text: Seq<char>)
    requires
        no_escape(text),
    ensures
        reads_as(escaped_piece(bg, fg, text), text),
{
    let e = seq!['\u{1b}', '['];
    let p1 = seq!['4', '8', ';', '2', ';'];
    let p2 = seq!['3', '8', ';', '2', ';'];
    let c1 = p1 + color_digits(bg);
    let c2 = p2 + color_digits(fg);
    let e1 = e + c1 + seq!['m'];
    let e2 = e + c2 + seq!['m'];
    assert(escaped_piece(bg, fg, text) == e1 + e2 + text) by {
        reveal_strlit("\x1b[48;2;");
        reveal_strlit("\x1b[38;2;");
        reveal_strlit(";");
        reveal_strlit("m");
        assert("\x1b[48;2;"@ =~= e + p1);
        assert("\x1b[38;2;"@ =~= e + p2);
        assert(";"@ =~= seq![';']);
        assert("m"@ =~= seq!['m']);
        let s = seq![';'];
        lemma_digits_layout("\x1b[48;2;"@, decimal(bg.0 as nat), s, decimal(bg.1 as nat), decimal(bg.2 as nat));
        lemma_digits_layout(
            "\x1b[48;2;"@ + decimal(bg.0 as nat) + s + decimal(bg.1 as nat) + s + decimal(bg.2 as nat) + "m"@
                + "\x1b[38;2;"@,
            decimal(fg.0 as nat),
            s,
            decimal(fg.1 as nat),
            decimal(fg.2 as nat),
        );
        lemma_piece_layout(
            "\x1b[48;2;"@,
            "\x1b[38;2;"@,
            e,
            p1,
            p2,
            color_digits(bg),
            color_digits(fg),
            seq!['m'],
            text,
        );
    }
    assert(no_m(c1)) by {
        lemma_color_digits_no_m(bg);
        assert(no_m(p1));
        lemma_no_m_concat(p1, color_digits(bg));
    }
    assert(no_m(c2)) by {
        lemma_color_digits_no_m(fg);
        assert(no_m(p2));
        lemma_no_m_concat(p2, color_digits(fg));
    }
    lemma_escape_reads_empty(c1);
    lemma_escape_reads_empty(c2);
    lemma_plain_reads_as(text);
    lemma_reads_as_concat(e1, Seq::empty(), e2, Seq::empty());
    lemma_reads_as_concat(e1 + e2, Seq::<char>::empty() + Seq::<char>::empty(), text, text);
    assert(Seq::<char>::empty() + Seq::<char>::empty() + text =~= text);
}

/// A line written as styled pieces reads as the line, when that holds no escape.
pub proof fn lemma_escaped_line_reads(line: Seq<char>, out: Seq<char>)
    requires
        no_escape(line),
        escaped_line(line, out),
    ensures
        reads_as(out, line),
{
    let pieces = choose|pieces: Seq<(Rgb, Rgb, Seq<char>)>|
        #[trigger] piece_texts(pieces).flatten() == line && piece_escapes(pieces).flatten() == out;
    lemma_flatten_no_escape(piece_texts(pieces));
    assert forall|k: int| 0 <= k < piece_escapes(pieces).len() implies reads_as(
        #[trigger] piece_escapes(pieces)[k],
        piece_texts(pieces)[k],
    ) by {
        assert(no_escape(piece_texts(pieces)[k]));
        lemma_escaped_piece_reads(pieces[k].0, pieces[k].1, pieces[k].2);
    }
    lemma_flatten_reads_as(piece_escapes(pieces), piece_texts(pieces));
}

/// Highlighted text reads as the text highlighted, when that holds no escape: highlighting
/// adds colors and nothing else.
pub proof fn lemma_highlighted_reads_as(input: Seq<char>, out: Seq<char>)
    requires
        no_escape(input),
        highlighted_by_line(input, out),
    ensures
        reads_as(out, input),
{
    let lines = lines_with_endings(input);
    let pieces = choose|pieces: Seq<Seq<char>>| {
        &&& pieces.len() == lines_with_endings(input).len()
        &&& out == pieces.flatten()
        &&& forall|k: int| 0 <= k < pieces.len() ==> escaped_line(lines_with_endings(input)[k], #[trigger] pieces[k])
    };
    lemma_lines_flatten(input);
    lemma_flatten_no_escape(lines);
    assert forall|k: int| 0 <= k < pieces.len() implies reads_as(#[trigger] pieces[k], lines[k]) by {
        assert(no_escape(lines[k]));
        lemma_escaped_line_reads(lines[k], pieces[k]);
    }
    lemma_flatten_reads_as(pieces, lines);
}

} // verus!
