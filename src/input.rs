//! Where the lines to search come from: standard input or a file. Reading is
//! done by implementations of `Input` outside this library; the library
//! chooses the source and cuts the text into lines.

use vstd::prelude::*;

verus! {

/// Why a source could not be read.
#[derive(Clone, Copy, Debug, PartialEq, Eq, Structural)]
pub enum InputFailure {
    NotFound,
    PermissionDenied,
    Other,
}

/// A producer of the lines to search, read once.
pub trait Input {
    fn input(&self) -> Result<Vec<String>, InputFailure>;
}

/// The source to read: standard input, or the file at a path.
#[derive(Clone, Debug)]
pub enum InputSource {
    Standard,
    File { path: String },
}

/// The source for an optional file path: standard input when there is none.
pub fn select_source(file: Option<String>) -> (r: InputSource)
    ensures
        file is None ==> r is Standard,
        file matches Some(p) ==> r matches InputSource::File { path } && path == p,
{
    match file {
        None => InputSource::Standard,
        Some(path) => InputSource::File { path },
    }
}

/// A line as read: without its `\n`, and without a `\r` just before that `\n`.
pub open spec fn strip_cr(piece: Seq<char>) -> Seq<char> {
    if piece.len() > 0 && piece.last() == '\r' {
        piece.drop_last()
    } else {
        piece
    }
}

/// The lines of `s` from `start`, looking for the next `\n` from `i`. Every
/// `\n` ends a line; text after the last one is a last line of its own.
pub open spec fn lines_from(s: Seq<char>, start: int, i: int) -> Seq<Seq<char>>
    decreases s.len() - i,
{
    if start < 0 || start > i || i >= s.len() {
        if 0 <= start < s.len() {
            seq![s.subrange(start, s.len() as int)]
        } else {
            seq![]
        }
    } else if s[i] == '\n' {
        seq![strip_cr(s.subrange(start, i))] + lines_from(s, i + 1, i + 1)
    } else {
        lines_from(s, start, i + 1)
    }
}

/// The lines of a text, as a line reader yields them.
pub open spec fn text_lines(s: Seq<char>) -> Seq<Seq<char>> {
    lines_from(s, 0, 0)
}

/// Cuts a text into lines: each `\n` ends a line and is dropped with a `\r`
/// just before it; a last line without `\n` is kept as it is.
pub fn split_lines(text: &str) -> (r: Vec<String>)
    ensures
        crate::text::views(r@) == text_lines(text@),
{
    let s = crate::text::chars_of(text);
    let n = s.len();
    let mut r: Vec<String> = Vec::new();
    let mut current: Vec<char> = Vec::new();
    let mut start: usize = 0;
    let mut i: usize = 0;
    while i < n
        invariant
            s@ == text@,
            n == s@.len(),
            start <= i <= n,
            current@ == s@.subrange(start as int, i as int),
            crate::text::views(r@) + lines_from(s@, start as int, i as int) == text_lines(s@),
        decreases n - i,
    {
        if s[i] == '\n' {
            let ghost piece = s@.subrange(start as int, i as int);
            let ghost prev = r@;
            let len = current.len();
            if len > 0 && current[len - 1] == '\r' {
                current.pop();
                assert(current@ =~= strip_cr(piece));
            }
            r.push(crate::text::string_of(&current));
            assert(crate::text::views(r@) =~= crate::text::views(prev).push(strip_cr(piece)));
            assert(crate::text::views(r@) + lines_from(s@, i + 1, i + 1) =~= crate::text::views(prev)
                + lines_from(s@, start as int, i as int));
            current = Vec::new();
            i = i + 1;
            start = i;
            assert(current@ =~= s@.subrange(start as int, i as int));
        } else {
            current.push(s[i]);
            assert(current@ =~= s@.subrange(start as int, i + 1));
            i = i + 1;
        }
    }
    let ghost prev = r@;
    if start < n {
        r.push(crate::text::string_of(&current));
        assert(crate::text::views(r@) =~= crate::text::views(prev).push(s@.subrange(start as int, n as int)));
    }
    assert(crate::text::views(r@) =~= text_lines(s@));
    r
}

} // verus!
