use vstd::prelude::*;
use comfy_table::presets::UTF8_FULL;
use comfy_table::{Cell, Color, ContentArrangement, Table};
use crate::note::Note;
use crate::print::{format_two_tokens, paint_truecolor, painted_truecolor, two_tokens};
use crate::text::concat2;

verus! {

broadcast use vstd::string::group_string_axioms;

#[verifier::external_type_specification]
#[verifier::external_body]
pub struct ExTable(Table);

/// The color of the second cell of a row of a listing table.
#[derive(Clone, Copy, PartialEq, Eq)]
pub enum RowColor {
    Cyan,
    DarkYellow,
}

/// A row of a listing table: a plain first cell, and a second cell in a color.
pub type TableRow = (Seq<char>, Seq<char>, RowColor);

/// The width that a table is drawn in.
pub uninterp spec fn table_width(t: Table) -> u16;

/// The texts of the header cells of a table.
pub uninterp spec fn table_header(t: Table) -> Seq<Seq<char>>;

/// The rows of a table, in the order they were added.
pub uninterp spec fn table_rows(t: Table) -> Seq<TableRow>;

/// `comfy_table`'s drawing of a table in the full UTF-8 style with dynamic content
/// arrangement at `width` columns, its header cells in blue above `rows`; `styled` tells
/// whether the cells' colors are written. A function of these values.
pub uninterp spec fn table_text(width: u16, header: Seq<Seq<char>>, rows: Seq<TableRow>, styled: bool) -> Seq<char>;

/// `comfy_table`'s `Table`, made with `Table::new`, the full UTF-8 style, dynamic content
/// arrangement, the given width, and a header of two cells in blue.
#[verifier::external_body]
fn new_table(width: u16, first_header: &str, second_header: &str) -> (t: Table)
    ensures
        table_width(t) == width,
        table_header(t) == seq![first_header@, second_header@],
        table_rows(t) == Seq::<TableRow>::empty(),
{
    let mut t = Table::new();
    t.load_style(UTF8_FULL).set_content_arrangement(ContentArrangement::Dynamic).set_width(width);
    t.set_header(vec![Cell::new(first_header).fg(Color::Blue), Cell::new(second_header).fg(Color::Blue)]);
    t
}

/// `comfy_table`'s `Table::add_row` with a plain cell and a cell in cyan.
#[verifier::external_body]
fn add_row_cyan(t: &mut Table, first: &str, second: &str)
    ensures
        table_width(*final(t)) == table_width(*old(t)),
        table_header(*final(t)) == table_header(*old(t)),
        table_rows(*final(t)) == table_rows(*old(t)).push((first@, second@, RowColor::Cyan)),
{
    t.add_row(vec![Cell::new(first), Cell::new(second).fg(Color::Cyan)]);
}

/// `comfy_table`'s `Table::add_row` with a plain cell and a cell in dark yellow.
#[verifier::external_body]
fn add_row_dark_yellow(t: &mut Table, first: &str, second: &str)
    ensures
        table_width(*final(t)) == table_width(*old(t)),
        table_header(*final(t)) == table_header(*old(t)),
        table_rows(*final(t)) == table_rows(*old(t)).push((first@, second@, RowColor::DarkYellow)),
{
    t.add_row(vec![Cell::new(first), Cell::new(second).fg(Color::DarkYellow)]);
}

/// `comfy_table`'s rendering of a table (its `Display`). Whether the cells' colors are written
/// depends on whether standard output is a terminal, so the text is one of the two drawings.
#[verifier::external_body]
fn render_table(t: &Table) -> (s: String)
    ensures
        exists|styled: bool| s@ == #[trigger] table_text(table_width(*t), table_header(*t), table_rows(*t), styled),
{
    t.to_string()
}

/// The row that lists `note`: its name, then `tag` in cyan for a tag (a note without a file)
/// or `note` in dark yellow.
pub open spec fn listing_row(note: Note) -> TableRow {
    if note.spec_file_path() is None {
        (note.spec_name(), "tag"@, RowColor::Cyan)
    } else {
        (note.spec_name(), "note"@, RowColor::DarkYellow)
    }
}

/// The rows that list `notes`, in order.
pub open spec fn listing_rows(notes: Seq<Note>) -> Seq<TableRow> {
    notes.map_values(|n: Note| listing_row(n))
}

/// The table that lists `notes`, 80 columns wide under the header `Name`, `Type`, drawn with
/// or without its colors.
pub open spec fn listing_table(notes: Seq<Note>, styled: bool) -> Seq<char> {
    table_text(80, seq!["Name"@, "Type"@], listing_rows(notes), styled)
}

/// The listing of `notes` for the details preview: empty when there are none, else a table
/// 80 columns wide with the header `Name`, `Type` and one row for each note in order (see
/// [`listing_row`]), followed by a newline.
pub fn listing_text(notes: &Vec<Note>) -> (s: String)
    ensures
        notes@.len() == 0 ==> s@.len() == 0,
        notes@.len() > 0 ==> exists|styled: bool| s@ == #[trigger] listing_table(notes@, styled) + "\n"@,
{
    if notes.len() == 0 {
        return String::new();
    }
    let mut table = new_table(80, "Name", "Type");
    let mut i: usize = 0;
    while i < notes.len()
        invariant
            i <= notes.len(),
            table_width(table) == 80,
            table_header(table) == seq!["Name"@, "Type"@],
            table_rows(table) == listing_rows(notes@.take(i as int)),
        decreases notes.len() - i,
    {
        let note = &notes[i];
        let name = note.name();
        if note.is_tag() {
            add_row_cyan(&mut table, name.as_str(), "tag");
        } else {
            add_row_dark_yellow(&mut table, name.as_str(), "note");
        }
        assert(listing_rows(notes@.take(i + 1)) =~= listing_rows(notes@.take(i as int)).push(
            listing_row(notes@[i as int]),
        ));
        i = i + 1;
    }
    assert(notes@.take(i as int) =~= notes@);
    let rendered = render_table(&table);
    let s = concat2(rendered.as_str(), "\n");
    let ghost styled = choose|styled: bool| rendered@ == #[trigger] table_text(table_width(table), table_header(table), table_rows(table), styled);
    assert(s@ == listing_table(notes@, styled) + "\n"@);
    s
}

/// The text of a failed database query, from the error as `Debug` writes it: `db err `
/// followed by it, painted red.
pub fn db_error_text(debug: &str) -> (s: String)
    ensures
        painted_truecolor(s@, "db err "@ + debug@, 255, 0, 0),
{
    let msg = concat2("db err ", debug);
    paint_truecolor(msg.as_str(), 255, 0, 0)
}

/// A section of the details preview: the heading `tag`, a newline, the listing and a newline;
/// nothing when the listing is empty.
pub open spec fn section_of(listing: Seq<char>, tag: Seq<char>) -> Seq<char> {
    if listing.len() == 0 {
        Seq::empty()
    } else {
        tag + seq!['\n'] + listing + seq!['\n']
    }
}

/// A section of the details preview under heading `tag` (see [`section_of`]).
pub fn section_text(listing: &str, tag: &str) -> (s: String)
    ensures
        s@ == section_of(listing@, tag@),
{
    if listing.unicode_len() == 0 {
        return String::new();
    }
    let a = concat2(tag, "\n");
    let b = concat2(a.as_str(), listing);
    proof {
        reveal_strlit("\n");
    }
    concat2(b.as_str(), "\n")
}

/// The kind of a note as the details preview names it.
pub open spec fn kind_label(n: Note) -> Seq<char> {
    if n is Tag {
        "it's a tag:"@
    } else {
        "it's a note:"@
    }
}

/// The details preview of `note`: its kind and name as two tokens, an empty line, the
/// section of notes linking to it, the section of notes it links to, and the body of its
/// file as the preview command printed it, when there is one.
pub fn details_text(note: &Note, linked_by: &str, links_to: &str, body: Option<&str>) -> (s: String)
    ensures
        exists|title: Seq<char>| {
            &&& two_tokens(title, kind_label(*note), note.spec_name())
            &&& s@ == title + seq!['\n', '\n'] + linked_by@ + links_to@ + match body {
                Some(b) => b@,
                None => Seq::empty(),
            }
        },
{
    let name = note.name();
    let title = if note.is_tag() {
        format_two_tokens("it's a tag:", name.as_str())
    } else {
        format_two_tokens("it's a note:", name.as_str())
    };
    let a = concat2(title.as_str(), "\n\n");
    let b = concat2(a.as_str(), linked_by);
    let c = concat2(b.as_str(), links_to);
    let s = match body {
        Some(text) => concat2(c.as_str(), text),
        None => c,
    };
    proof {
        reveal_strlit("\n\n");
        assert("\n\n"@ == seq!['\n', '\n']);
        assert(two_tokens(title@, kind_label(*note), note.spec_name()));
    }
    assert(s@ == title@ + seq!['\n', '\n'] + linked_by@ + links_to@ + match body {
        Some(b) => b@,
        None => Seq::empty(),
    });
    s
}

} // verus!
