use vstd::prelude::*;
use vstd::utf8::*;
use vstd::string::*;

verus! {

/// The line and column, both counted from one, at which an editor shows a byte of a text.
#[derive(Debug, Clone, Copy, PartialEq, Eq)]
pub struct EditorPosition {
    pub line: usize,
    pub column: usize,
}

/// Number of newline bytes in `b`.
pub open spec fn newline_count(b: Seq<u8>) -> nat
    decreases b.len(),
{
    if b.len() == 0 {
        0
    } else {
        newline_count(b.drop_last()) + if b.last() == 10u8 { 1nat } else { 0nat }
    }
}

/// Index just past the last newline byte of `b`, or 0 when `b` holds no newline.
pub open spec fn line_start_of(b: Seq<u8>) -> int
    decreases b.len(),
{
    if b.len() == 0 {
        0
    } else if b.last() == 10u8 {
        b.len() as int
    } else {
        line_start_of(b.drop_last())
    }
}

/// Number of bytes of `b` that begin a UTF-8 encoded character.
pub open spec fn char_starts(b: Seq<u8>) -> nat
    decreases b.len(),
{
    if b.len() == 0 {
        0
    } else {
        char_starts(b.drop_last()) + if is_continuation_byte(b.last()) { 0nat } else { 1nat }
    }
}

/// How many bytes at the front of a text of `len` bytes can start a new line before the
/// byte at `offset`: a newline that ends the text opens no line of its own.
pub open spec fn scanned_len(len: int, offset: int) -> int {
    if offset < len {
        offset
    } else if len > 0 {
        len - 1
    } else {
        0
    }
}

/// The position of byte `offset` in a text with UTF-8 encoding `b`: the line is one more than
/// the number of newlines that open a line at or before `offset`, and the column is one more
/// than the number of characters between the start of that line and `offset`.
pub open spec fn position_of(b: Seq<u8>, offset: int) -> (int, int) {
    let scanned = b.subrange(0, scanned_len(b.len() as int, offset));
    (
        1 + newline_count(scanned) as int,
        1 + decode_utf8(b.subrange(line_start_of(scanned), offset)).len() as int,
    )
}

proof fn lemma_line_start_bounds(b: Seq<u8>)
    ensures
        0 <= line_start_of(b) <= b.len(),
        newline_count(b) <= b.len(),
        line_start_of(b) > 0 ==> b[line_start_of(b) - 1] == 10u8,
    decreases b.len(),
{
    if b.len() > 0 {
        lemma_line_start_bounds(b.drop_last());
    }
}

proof fn lemma_char_starts_concat(a: Seq<u8>, c: Seq<u8>)
    ensures
        char_starts(a + c) == char_starts(a) + char_starts(c),
    decreases c.len(),
{
    if c.len() == 0 {
        assert(a + c =~= a);
    } else {
        lemma_char_starts_concat(a, c.drop_last());
        assert((a + c).drop_last() =~= a + c.drop_last());
    }
}

/// The characters that a valid UTF-8 sequence decodes to are as many as its bytes that are not
/// continuation bytes.
proof fn lemma_decode_len_char_starts(b: Seq<u8>)
    requires
        valid_utf8(b),
    ensures
        decode_utf8(b).len() == char_starts(b),
    decreases b.len(),
{
    if b.len() > 0 {
        let l = length_of_first_scalar(b);
        let head = b.subrange(0, l);
        let rest = pop_first_scalar(b);
        assert(b =~= head + rest);
        lemma_char_starts_concat(head, rest);
        reveal_with_fuel(char_starts, 5);
        assert(head.drop_last().drop_last().drop_last().drop_last().len() == 0 || l < 4);
        assert(char_starts(head) == 1) by {
            if l == 1 {
                assert(head.drop_last().len() == 0);
            } else if l == 2 {
                assert(head.drop_last().drop_last().len() == 0);
                assert(head.drop_last().last() == b[0]);
            } else if l == 3 {
                assert(head.drop_last().drop_last().drop_last().len() == 0);
                assert(head.drop_last().drop_last().last() == b[0]);
                assert(head.drop_last().last() == b[1]);
            } else {
                assert(head.drop_last().drop_last().drop_last().drop_last().len() == 0);
                assert(head.drop_last().drop_last().drop_last().last() == b[0]);
                assert(head.drop_last().drop_last().last() == b[1]);
                assert(head.drop_last().last() == b[2]);
            }
        }
        lemma_decode_len_char_starts(rest);
    }
}

/// A valid UTF-8 sequence decodes to no more characters than it has bytes.
pub proof fn lemma_decode_len_le(b: Seq<u8>)
    requires
        valid_utf8(b),
    ensures
        decode_utf8(b).len() <= b.len(),
    decreases b.len(),
{
    lemma_decode_len_char_starts(b);
    lemma_char_starts_le(b);
}

proof fn lemma_char_starts_le(b: Seq<u8>)
    ensures
        char_starts(b) <= b.len(),
    decreases b.len(),
{
    if b.len() > 0 {
        lemma_char_starts_le(b.drop_last());
    }
}

/// In valid UTF-8, the byte after a one-byte character starts a character.
proof fn lemma_boundary_after_ascii(b: Seq<u8>, p: int)
    requires
        valid_utf8(b),
        0 <= p < b.len(),
        is_char_boundary(b, p),
        is_leading_byte_width_1(b[p]),
    ensures
        is_char_boundary(b, p + 1),
    decreases b.len(),
{
    reveal_with_fuel(is_char_boundary, 2);
    let l = length_of_first_scalar(b);
    let rest = pop_first_scalar(b);
    if p == 0 {
        assert(l == 1);
        assert(is_char_boundary(rest, 0));
    } else {
        assert(is_char_boundary(rest, p - l));
        assert(rest[p - l] == b[p]);
        lemma_boundary_after_ascii(rest, p - l);
    }
}

/// Bytes `start..end` of valid UTF-8, cut at character boundaries, are valid UTF-8.
pub proof fn lemma_valid_subrange(b: Seq<u8>, start: int, end: int)
    requires
        valid_utf8(b),
        0 <= start <= end <= b.len(),
        is_char_boundary(b, start),
        is_char_boundary(b, end),
    ensures
        valid_utf8(b.subrange(start, end)),
{
    let prefix = b.subrange(0, end);
    valid_utf8_split(b, end);
    if start == end {
        is_char_boundary_start_end_of_seq(prefix);
        assert(prefix.len() == end);
    } else {
        is_char_boundary_iff_not_is_continuation_byte(b, start);
        is_char_boundary_iff_not_is_continuation_byte(prefix, start);
    }
    valid_utf8_split(prefix, start);
    assert(prefix.subrange(start, prefix.len() as int) =~= b.subrange(start, end));
}

/// The editor position of the byte at `byte_offset` in `initial_contents`.
pub fn find_position(initial_contents: &str, byte_offset: usize) -> (pos: EditorPosition)
    requires
        byte_offset <= initial_contents.spec_bytes().len() < usize::MAX,
        is_char_boundary(initial_contents.spec_bytes(), byte_offset as int),
    ensures
        (pos.line as int, pos.column as int) == position_of(
            initial_contents.spec_bytes(),
            byte_offset as int,
        ),
{
    let bytes = initial_contents.as_bytes();
    let ghost b = bytes@;
    proof {
        encode_utf8_valid_utf8(initial_contents@);
        is_char_boundary_start_end_of_seq(b);
    }
    let n = bytes.len();
    let limit = if byte_offset < n {
        byte_offset
    } else if n > 0 {
        n - 1
    } else {
        0
    };
    let mut i: usize = 0;
    let mut count: usize = 0;
    let mut start: usize = 0;
    while i < limit
        invariant
            b == bytes@,
            n == b.len(),
            valid_utf8(b),
            limit <= byte_offset <= n < usize::MAX,
            limit < n || limit == 0,
            0 <= i <= limit,
            count == newline_count(b.subrange(0, i as int)),
            start == line_start_of(b.subrange(0, i as int)),
            count <= i,
            start <= i,
            is_char_boundary(b, start as int),
        decreases limit - i,
    {
        let ghost prev = b.subrange(0, i as int);
        assert(b.subrange(0, i + 1).drop_last() =~= prev);
        if bytes[i] == 10u8 {
            proof {
                is_char_boundary_iff_not_is_continuation_byte(b, i as int);
                lemma_boundary_after_ascii(b, i as int);
            }
            count = count + 1;
            start = i + 1;
        }
        i = i + 1;
    }
    let mut j: usize = start;
    let mut chars: usize = 0;
    while j < byte_offset
        invariant
            b == bytes@,
            n == b.len(),
            start <= j <= byte_offset <= n < usize::MAX,
            chars == char_starts(b.subrange(start as int, j as int)),
            chars <= j - start,
        decreases byte_offset - j,
    {
        assert(b.subrange(start as int, j + 1).drop_last() =~= b.subrange(start as int, j as int));
        let byte = bytes[j];
        if !(0x80u8 <= byte && byte <= 0xbfu8) {
            chars = chars + 1;
        }
        j = j + 1;
    }
    proof {
        lemma_valid_subrange(b, start as int, byte_offset as int);
        lemma_decode_len_char_starts(b.subrange(start as int, byte_offset as int));
    }
    EditorPosition { line: count + 1, column: chars + 1 }
}

} // verus!
