//! The text encoding: one record per line. A vertex record is a line that,
//! once trimmed, starts with the word `vertex` and white space; the tokens
//! that follow are its coordinates.

use crate::stl::VertexError;
use vstd::prelude::*;

verus! {

/// The characters that separate tokens: the Unicode property `White_Space`.
pub open spec fn is_whitespace(c: char) -> bool {
    let u = c as u32;
    ||| 0x09 <= u <= 0x0d
    ||| u == 0x20
    ||| u == 0x85
    ||| u == 0xa0
    ||| u == 0x1680
    ||| 0x2000 <= u <= 0x200a
    ||| u == 0x2028
    ||| u == 0x2029
    ||| u == 0x202f
    ||| u == 0x205f
    ||| u == 0x3000
}

/// Tells whether `c` separates tokens.
pub fn char_is_whitespace(c: char) -> (white: bool)
    ensures
        white == is_whitespace(c),
{
    let u: u32 = c as u32;
    (0x09 <= u && u <= 0x0d) || u == 0x20 || u == 0x85 || u == 0xa0 || u == 0x1680 || (0x2000 <= u
        && u <= 0x200a) || u == 0x2028 || u == 0x2029 || u == 0x202f || u == 0x205f || u == 0x3000
}

/// The first position at or after `from` that holds no white space.
pub open spec fn skip_whitespace(s: Seq<char>, from: int) -> int
    decreases s.len() - from,
{
    if 0 <= from < s.len() && is_whitespace(s[from]) {
        skip_whitespace(s, from + 1)
    } else {
        from
    }
}

/// The first position at or after `from` that holds white space, or the end.
pub open spec fn skip_token(s: Seq<char>, from: int) -> int
    decreases s.len() - from,
{
    if 0 <= from < s.len() && !is_whitespace(s[from]) {
        skip_token(s, from + 1)
    } else {
        from
    }
}

/// The word that opens a vertex record.
pub open spec fn keyword() -> Seq<char> {
    seq!['v', 'e', 'r', 't', 'e', 'x']
}

/// Whether a line is a vertex record: after leading white space comes the
/// keyword, then white space, then at least one more token. A keyword that
/// runs on into other characters opens no record.
pub open spec fn is_vertex_record(s: Seq<char>) -> bool {
    let start = skip_whitespace(s, 0);
    &&& start + 6 < s.len()
    &&& s.subrange(start, start + 6) == keyword()
    &&& is_whitespace(s[start + 6])
    &&& skip_whitespace(s, start + 6) < s.len()
}

/// What a line holds, as far as vertices go.
pub enum LineContent {
    /// No vertex record.
    Other,
    /// A vertex record with fewer than three coordinate tokens.
    Incomplete,
    /// A vertex record and its first three coordinate tokens.
    Coordinates(Seq<char>, Seq<char>, Seq<char>),
}

/// What the line `s` holds. Tokens after the third are not looked at.
pub open spec fn line_content(s: Seq<char>) -> LineContent {
    if !is_vertex_record(s) {
        LineContent::Other
    } else {
        let b1 = skip_whitespace(s, skip_whitespace(s, 0) + 6);
        let e1 = skip_token(s, b1);
        let b2 = skip_whitespace(s, e1);
        let e2 = skip_token(s, b2);
        let b3 = skip_whitespace(s, e2);
        let e3 = skip_token(s, b3);
        if b2 >= s.len() || b3 >= s.len() {
            LineContent::Incomplete
        } else {
            LineContent::Coordinates(s.subrange(b1, e1), s.subrange(b2, e2), s.subrange(b3, e3))
        }
    }
}

/// What a line holds, with the coordinate tokens borrowed from the line.
#[derive(Clone, Copy, Debug)]
pub enum VertexLine<'a> {
    /// No vertex record.
    Other,
    /// A vertex record with fewer than three coordinate tokens.
    Incomplete,
    /// A vertex record and its first three coordinate tokens.
    Coordinates(&'a str, &'a str, &'a str),
}

impl<'a> View for VertexLine<'a> {
    type V = LineContent;

    open spec fn view(&self) -> LineContent {
        match *self {
            VertexLine::Other => LineContent::Other,
            VertexLine::Incomplete => LineContent::Incomplete,
            VertexLine::Coordinates(x, y, z) => LineContent::Coordinates(x@, y@, z@),
        }
    }
}

/// Walks over white space from `from`.
fn pass_whitespace(line: &str, len: usize, from: usize) -> (to: usize)
    requires
        len == line@.len(),
        from <= len,
    ensures
        to == skip_whitespace(line@, from as int),
        from <= to <= len,
{
    let mut i: usize = from;
    while i < len
        invariant
            len == line@.len(),
            from <= i <= len,
            skip_whitespace(line@, i as int) == skip_whitespace(line@, from as int),
        decreases len - i,
    {
        let c: char = line.get_char(i);
        if !char_is_whitespace(c) {
            return i;
        }
        i = i + 1;
    }
    i
}

/// Walks over one token from `from`.
fn pass_token(line: &str, len: usize, from: usize) -> (to: usize)
    requires
        len == line@.len(),
        from <= len,
    ensures
        to == skip_token(line@, from as int),
        from <= to <= len,
{
    let mut i: usize = from;
    while i < len
        invariant
            len == line@.len(),
            from <= i <= len,
            skip_token(line@, i as int) == skip_token(line@, from as int),
        decreases len - i,
    {
        let c: char = line.get_char(i);
        if char_is_whitespace(c) {
            return i;
        }
        i = i + 1;
    }
    i
}

/// Tells whether the keyword stands at `at`.
fn keyword_at(line: &str, len: usize, at: usize) -> (found: bool)
    requires
        len == line@.len(),
        at + 6 <= len,
    ensures
        found == (line@.subrange(at as int, at + 6) == keyword()),
{
    let found: bool = line.get_char(at) == 'v' && line.get_char(at + 1) == 'e' && line.get_char(
        at + 2,
    ) == 'r' && line.get_char(at + 3) == 't' && line.get_char(at + 4) == 'e' && line.get_char(
        at + 5,
    ) == 'x';
    proof {
        let word = line@.subrange(at as int, at + 6);
        assert(word.len() == 6);
        assert(word[0] == line@[at + 0] && word[1] == line@[at + 1] && word[2] == line@[at + 2]
            && word[3] == line@[at + 3] && word[4] == line@[at + 4] && word[5] == line@[at + 5]);
        assert(keyword()[0] == 'v' && keyword()[1] == 'e' && keyword()[2] == 'r' && keyword()[3]
            == 't' && keyword()[4] == 'e' && keyword()[5] == 'x');
        if found {
            assert(word =~= keyword());
        }
    }
    found
}

/// Finds the vertex record of a line and its first three coordinate tokens.
pub fn scan_vertex_line<'a>(line: &'a str) -> (found: VertexLine<'a>)
    ensures
        found@ == line_content(line@),
{
    let len: usize = line.unicode_len();
    let start: usize = pass_whitespace(line, len, 0);
    if len - start <= 6 {
        return VertexLine::Other;
    }
    if !keyword_at(line, len, start) {
        return VertexLine::Other;
    }
    if !char_is_whitespace(line.get_char(start + 6)) {
        return VertexLine::Other;
    }
    let b1: usize = pass_whitespace(line, len, start + 6);
    if b1 >= len {
        return VertexLine::Other;
    }
    let e1: usize = pass_token(line, len, b1);
    let b2: usize = pass_whitespace(line, len, e1);
    if b2 >= len {
        return VertexLine::Incomplete;
    }
    let e2: usize = pass_token(line, len, b2);
    let b3: usize = pass_whitespace(line, len, e2);
    if b3 >= len {
        return VertexLine::Incomplete;
    }
    let e3: usize = pass_token(line, len, b3);
    VertexLine::Coordinates(
        line.substring_char(b1, e1),
        line.substring_char(b2, e2),
        line.substring_char(b3, e3),
    )
}

/// The vertex records among the first `n` lines, in the order of the lines.
/// Lines that hold no record are passed over; an incomplete record takes its
/// place in the sequence and does not end it.
pub open spec fn records(lines: Seq<Seq<char>>, n: int) -> Seq<LineContent>
    decreases n,
{
    if n <= 0 {
        Seq::empty()
    } else {
        match line_content(lines[n - 1]) {
            LineContent::Other => records(lines, n - 1),
            found => records(lines, n - 1).push(found),
        }
    }
}

/// The characters of each line.
pub open spec fn line_views(lines: Seq<&str>) -> Seq<Seq<char>> {
    Seq::new(lines.len(), |i: int| lines[i]@)
}

/// The views of a list of records.
pub open spec fn record_views(found: Seq<VertexLine>) -> Seq<LineContent> {
    Seq::new(found.len(), |i: int| found[i]@)
}

/// Finds the vertex records of a file in text encoding, given line by line:
/// for each record, in order, its three coordinate tokens, or the mark of an
/// incomplete record.
pub fn process_ascii_iter<'a>(lines: &[&'a str]) -> (found: Vec<VertexLine<'a>>)
    ensures
        record_views(found@) == records(line_views(lines@), lines@.len() as int),
{
    let mut found: Vec<VertexLine<'a>> = Vec::new();
    let mut n: usize = 0;
    assert(record_views(found@) =~= records(line_views(lines@), 0));
    while n < lines.len()
        invariant
            n <= lines@.len(),
            record_views(found@) == records(line_views(lines@), n as int),
        decreases lines@.len() - n,
    {
        let ghost before = found@;
        let line: VertexLine<'a> = scan_vertex_line(lines[n]);
        assert(line_views(lines@)[n as int] == lines@[n as int]@);
        match line {
            VertexLine::Other => {},
            _ => {
                found.push(line);
                assert(record_views(found@) =~= record_views(before).push(line@));
            },
        }
        n = n + 1;
    }
    found
}

/// What a vertex record yields once its three coordinate tokens have been
/// read as numbers: `None` stands for a token that is no number.
pub open spec fn vertex_of_coordinates(x: Option<u32>, y: Option<u32>, z: Option<u32>) -> Result<
    [u32; 3],
    VertexError,
> {
    if x.is_some() && y.is_some() && z.is_some() {
        Ok([x.unwrap(), y.unwrap(), z.unwrap()])
    } else {
        Err(VertexError::InvalidCoordinate)
    }
}

/// Completes a vertex record from the outcome of reading each of its three
/// coordinate tokens as a single-precision number.
pub fn vertex_from_coordinates(x: Option<u32>, y: Option<u32>, z: Option<u32>) -> (vertex: Result<
    [u32; 3],
    VertexError,
>)
    ensures
        vertex == vertex_of_coordinates(x, y, z),
{
    match (x, y, z) {
        (Some(x), Some(y), Some(z)) => Ok([x, y, z]),
        _ => Err(VertexError::InvalidCoordinate),
    }
}

} // verus!
