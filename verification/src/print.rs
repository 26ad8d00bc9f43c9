use vstd::prelude::*;
use colored::Colorize;
use crate::text::{concat2, decimal};

verus! {

/// True when `s` holds no escape character.
pub open spec fn no_escape(s: Seq<char>) -> bool {
    forall|i: int| 0 <= i < s.len() ==> s[i] != '\u{1b}'
}

/// True when `out` is `s` between the terminal escape sequence that sets graphic rendition
/// `code` and the one that resets it.
pub open spec fn styled(out: Seq<char>, s: Seq<char>, code: Seq<char>) -> bool {
    exists|inner: Seq<char>|
        out == seq!['\u{1b}', '['] + code + seq!['m'] + inner + seq!['\u{1b}', '[', '0', 'm'] && (
        no_escape(s) ==> inner == s)
}

/// The foreground code of one of the sixteen basic terminal colors: 30 to 37 and 90 to 97.
pub open spec fn basic_fg_code(code: Seq<char>) -> bool {
    exists|k: nat| (30 <= k <= 37 || 90 <= k <= 97) && code == decimal(k)
}

/// The 24-bit foreground code for red `r`, green `g` and blue `b`.
pub open spec fn truecolor_code(r: u8, g: u8, b: u8) -> Seq<char> {
    seq!['3', '8', ';', '2', ';'] + decimal(r as nat) + seq![';'] + decimal(g as nat) + seq![';']
        + decimal(b as nat)
}

/// True when `out` is `s` painted in a 24-bit color as a terminal library may render it: left
/// plain when coloring is off, in the 24-bit color when the terminal announces support for it,
/// in the closest basic color otherwise.
pub open spec fn painted_truecolor(out: Seq<char>, s: Seq<char>, r: u8, g: u8, b: u8) -> bool {
    ||| out == s
    ||| styled(out, s, truecolor_code(r, g, b))
    ||| exists|code: Seq<char>| basic_fg_code(code) && styled(out, s, code)
}

/// True when `out` is `s` painted in the basic color with foreground code `code`, or left plain
/// when coloring is off.
pub open spec fn painted_basic(out: Seq<char>, s: Seq<char>, code: nat) -> bool {
    out == s || styled(out, s, decimal(code))
}

/// The text of `s` with its terminal escape sequences taken out: each runs from an escape
/// character up to and including the next `m`. `in_seq` tells whether `s` starts inside one.
pub open spec fn strip_from(s: Seq<char>, in_seq: bool) -> Seq<char>
    decreases s.len(),
{
    if s.len() == 0 {
        Seq::empty()
    } else if in_seq {
        strip_from(s.drop_first(), s[0] != 'm')
    } else if s[0] == '\u{1b}' {
        strip_from(s.drop_first(), true)
    } else {
        seq![s[0]] + strip_from(s.drop_first(), false)
    }
}

/// Whether reading `s` from the state `in_seq` ends inside an escape sequence.
pub open spec fn ends_in_seq(s: Seq<char>, in_seq: bool) -> bool
    decreases s.len(),
{
    if s.len() == 0 {
        in_seq
    } else if in_seq {
        ends_in_seq(s.drop_first(), s[0] != 'm')
    } else {
        ends_in_seq(s.drop_first(), s[0] == '\u{1b}')
    }
}

/// The text of `s` as a terminal shows it, its escape sequences taken out.
pub open spec fn strip_escapes(s: Seq<char>) -> Seq<char> {
    strip_from(s, false)
}

/// True when `s` reads, escapes taken out, as `text`, and leaves no escape sequence open.
pub open spec fn reads_as(s: Seq<char>, text: Seq<char>) -> bool {
    strip_from(s, false) == text && !ends_in_seq(s, false)
}

/// Taking escapes out of two texts one after the other.
pub proof fn lemma_strip_concat(a: Seq<char>, b: Seq<char>, st: bool)
    ensures
        strip_from(a + b, st) == strip_from(a, st) + strip_from(b, ends_in_seq(a, st)),
        ends_in_seq(a + b, st) == ends_in_seq(b, ends_in_seq(a, st)),
    decreases a.len(),
{
    if a.len() == 0 {
        assert(a + b =~= b);
    } else {
        assert((a + b).drop_first() =~= a.drop_first() + b);
        assert((a + b)[0] == a[0]);
        let next = if st { a[0] != 'm' } else { a[0] == '\u{1b}' };
        lemma_strip_concat(a.drop_first(), b, next);
        if !st && a[0] != '\u{1b}' {
            assert(seq![a[0]] + strip_from(a.drop_first(), false) + strip_from(b, ends_in_seq(a.drop_first(), false))
                =~= seq![a[0]] + (strip_from(a.drop_first(), false) + strip_from(b, ends_in_seq(a.drop_first(), false))));
        }
    }
}

/// Two texts that read as `x` and `y` read, one after the other, as `x + y`.
pub proof fn lemma_reads_as_concat(a: Seq<char>, x: Seq<char>, b: Seq<char>, y: Seq<char>)
    requires
        reads_as(a, x),
        reads_as(b, y),
    ensures
        reads_as(a + b, x + y),
{
    lemma_strip_concat(a, b, false);
}

/// A text without escapes reads as itself.
pub proof fn lemma_plain_reads_as(t: Seq<char>)
    requires
        no_escape(t),
    ensures
        reads_as(t, t),
    decreases t.len(),
{
    if t.len() > 0 {
        assert(t[0] != '\u{1b}');
        assert(no_escape(t.drop_first()));
        lemma_plain_reads_as(t.drop_first());
        assert(seq![t[0]] + t.drop_first() =~= t);
    } else {
        assert(t =~= Seq::<char>::empty());
    }
}

/// True when `x` holds no `m`.
pub open spec fn no_m(x: Seq<char>) -> bool {
    forall|i: int| 0 <= i < x.len() ==> x[i] != 'm'
}

proof fn lemma_inside_seq(x: Seq<char>)
    requires
        no_m(x),
    ensures
        strip_from(x, true) == Seq::<char>::empty(),
        ends_in_seq(x, true),
    decreases x.len(),
{
    if x.len() > 0 {
        assert(no_m(x.drop_first()));
        lemma_inside_seq(x.drop_first());
    }
}

/// An escape sequence `ESC [ code m` reads as nothing.
pub proof fn lemma_escape_reads_empty(code: Seq<char>)
    requires
        no_m(code),
    ensures
        reads_as(seq!['\u{1b}', '['] + code + seq!['m'], Seq::<char>::empty()),
{
    let x = seq!['['] + code;
    assert(no_m(x));
    lemma_inside_seq(x);
    let e = seq!['\u{1b}'] + x + seq!['m'];
    assert(seq!['\u{1b}', '['] + code + seq!['m'] =~= e);
    lemma_strip_concat(seq!['\u{1b}'] + x, seq!['m'], false);
    lemma_strip_concat(seq!['\u{1b}'], x, false);
    assert(strip_from(seq!['\u{1b}'], false) == Seq::<char>::empty()) by {
        reveal_with_fuel(strip_from, 2);
        assert(seq!['\u{1b}'].drop_first() =~= Seq::<char>::empty());
    }
    assert(ends_in_seq(seq!['\u{1b}'], false)) by {
        reveal_with_fuel(ends_in_seq, 2);
        assert(seq!['\u{1b}'].drop_first() =~= Seq::<char>::empty());
    }
    assert(strip_from(seq!['m'], true) == Seq::<char>::empty()) by {
        reveal_with_fuel(strip_from, 2);
        assert(seq!['m'].drop_first() =~= Seq::<char>::empty());
    }
    assert(!ends_in_seq(seq!['m'], true)) by {
        reveal_with_fuel(ends_in_seq, 2);
        assert(seq!['m'].drop_first() =~= Seq::<char>::empty());
    }
}

/// A decimal numeral holds no `m`.
pub proof fn lemma_decimal_no_m(n: nat)
    ensures
        no_m(decimal(n)),
        no_escape(decimal(n)),
    decreases n,
{
    if n >= 10 {
        lemma_decimal_no_m(n / 10);
    }
}

proof fn lemma_styled_reads_as(out: Seq<char>, s: Seq<char>, code: Seq<char>)
    requires
        no_m(code),
        no_escape(s),
        styled(out, s, code),
    ensures
        reads_as(out, s),
{
    let inner = choose|inner: Seq<char>|
        out == seq!['\u{1b}', '['] + code + seq!['m'] + inner + seq!['\u{1b}', '[', '0', 'm'] && (no_escape(s)
            ==> inner == s);
    let open_seq = seq!['\u{1b}', '['] + code + seq!['m'];
    let reset = seq!['\u{1b}', '['] + seq!['0'] + seq!['m'];
    assert(reset =~= seq!['\u{1b}', '[', '0', 'm']);
    assert(no_m(seq!['0']));
    lemma_escape_reads_empty(code);
    lemma_escape_reads_empty(seq!['0']);
    lemma_plain_reads_as(s);
    lemma_reads_as_concat(open_seq, Seq::empty(), s, s);
    lemma_reads_as_concat(open_seq + s, Seq::<char>::empty() + s, reset, Seq::empty());
    assert(Seq::<char>::empty() + s + Seq::<char>::empty() =~= s);
}

/// Painted text reads as the text painted, when that holds no escape.
pub proof fn lemma_painted_reads_as(out: Seq<char>, s: Seq<char>, r: u8, g: u8, b: u8)
    requires
        no_escape(s),
        painted_truecolor(out, s, r, g, b),
    ensures
        reads_as(out, s),
{
    if out == s {
        lemma_plain_reads_as(s);
    } else if styled(out, s, truecolor_code(r, g, b)) {
        lemma_decimal_no_m(r as nat);
        lemma_decimal_no_m(g as nat);
        lemma_decimal_no_m(b as nat);
        let c = truecolor_code(r, g, b);
        assert forall|i: int| 0 <= i < c.len() implies c[i] != 'm' by {
            let p1 = seq!['3', '8', ';', '2', ';'];
            let p2 = p1 + decimal(r as nat) + seq![';'];
            let p3 = p2 + decimal(g as nat) + seq![';'];
            if i < p1.len() {
            } else if i < p1.len() + decimal(r as nat).len() {
                assert(c[i] == decimal(r as nat)[i - p1.len()]);
            } else if i < p2.len() {
            } else if i < p2.len() + decimal(g as nat).len() {
                assert(c[i] == decimal(g as nat)[i - p2.len()]);
            } else if i < p3.len() {
            } else {
                assert(c[i] == decimal(b as nat)[i - p3.len()]);
            }
        }
        lemma_styled_reads_as(out, s, c);
    } else {
        let code = choose|code: Seq<char>| basic_fg_code(code) && styled(out, s, code);
        let k = choose|k: nat| (30 <= k <= 37 || 90 <= k <= 97) && code == decimal(k);
        lemma_decimal_no_m(k);
        lemma_styled_reads_as(out, s, code);
    }
}

/// Text painted in a basic color reads as the text painted, when that holds no escape.
pub proof fn lemma_painted_basic_reads_as(out: Seq<char>, s: Seq<char>, code: nat)
    requires
        no_escape(s),
        painted_basic(out, s, code),
    ensures
        reads_as(out, s),
{
    if out == s {
        lemma_plain_reads_as(s);
    } else {
        lemma_decimal_no_m(code);
        lemma_styled_reads_as(out, s, decimal(code));
    }
}

/// `colored`'s `truecolor`, displayed: `s` painted in the color (`r`, `g`, `b`). Whether and
/// how it is painted depends on the environment (`NO_COLOR`, `CLICOLOR`, `COLORTERM`, a
/// terminal on standard output), so only what holds of every outcome is stated.
#[verifier::external_body]
pub(crate) fn paint_truecolor(s: &str, r: u8, g: u8, b: u8) -> (out: String)
    ensures
        painted_truecolor(out@, s@, r, g, b),
{
    s.truecolor(r, g, b).to_string()
}

/// `colored`'s `green`, displayed: `s` in foreground color 32, or plain when coloring is off.
#[verifier::external_body]
pub(crate) fn paint_green(s: &str) -> (out: String)
    ensures
        painted_basic(out@, s@, 32),
{
    s.green().to_string()
}

/// `colored`'s `black`, displayed: `s` in foreground color 30, or plain when coloring is off.
#[verifier::external_body]
pub(crate) fn paint_black(s: &str) -> (out: String)
    ensures
        painted_basic(out@, s@, 30),
{
    s.black().to_string()
}

/// True when `s` shows `tok_1` painted cyan, a space, and `tok_2` painted magenta.
pub open spec fn two_tokens(s: Seq<char>, tok_1: Seq<char>, tok_2: Seq<char>) -> bool {
    exists|a: Seq<char>, b: Seq<char>|
        painted_truecolor(a, tok_1, 0, 255, 255) && painted_truecolor(b, tok_2, 255, 0, 255) && s == a
            + seq![' '] + b
}

/// Two tokens for the terminal, the first in cyan and the second in magenta, with a space
/// between them.
pub fn format_two_tokens(tok_1: &str, tok_2: &str) -> (s: String)
    ensures
        two_tokens(s@, tok_1@, tok_2@),
{
    let first = paint_truecolor(tok_1, 0, 255, 255);
    let second = paint_truecolor(tok_2, 255, 0, 255);
    let with_space = concat2(first.as_str(), " ");
    let s = concat2(with_space.as_str(), second.as_str());
    proof {
        reveal_strlit(" ");
    }
    assert(s@ == first@ + seq![' '] + second@);
    s
}

} // verus!
