//! Word utilities: splitting on a delimiter, the words that two sentences do
//! not share, and merging two names chunk by chunk.

use vstd::prelude::*;
use vstd::string::StrSliceExecFns;
use crate::search::filter_seq;
use crate::text::{chars_of, contains_seq, str_contains, string_of};

verus! {

/// `[p]` when `p` is not empty, and nothing otherwise.
pub open spec fn nonempty_piece(p: Seq<char>) -> Seq<Seq<char>> {
    if p.len() == 0 {
        seq![]
    } else {
        seq![p]
    }
}

/// The non-empty pieces of `s` after `start`, scanning for the delimiter `d`
/// from position `i`: each occurrence, leftmost first and not overlapping the
/// previous one, ends a piece.
pub open spec fn scan_pieces(s: Seq<char>, d: Seq<char>, start: int, i: int) -> Seq<Seq<char>>
    decreases s.len() - i,
{
    if d.len() == 0 || start < 0 || start > i || i + d.len() > s.len() {
        nonempty_piece(s.subrange(start, s.len() as int))
    } else if s.subrange(i, i + d.len()) == d {
        nonempty_piece(s.subrange(start, i)) + scan_pieces(s, d, i + d.len(), i + d.len())
    } else {
        scan_pieces(s, d, start, i + 1)
    }
}

/// The non-empty pieces of `s` between occurrences of `d`. The empty
/// delimiter occurs between any two characters, so it yields each character.
pub open spec fn split_words(s: Seq<char>, d: Seq<char>) -> Seq<Seq<char>> {
    if d.len() == 0 {
        s.map_values(|c: char| seq![c])
    } else {
        scan_pieces(s, d, 0, 0)
    }
}

pub open spec fn str_views(v: Seq<&str>) -> Seq<Seq<char>> {
    v.map_values(|p: &str| p@)
}

fn occurs_at(s: &Vec<char>, d: &Vec<char>, i: usize) -> (r: bool)
    requires
        i + d@.len() <= s@.len(),
    ensures
        r == (s@.subrange(i as int, i + d@.len()) == d@),
{
    let sl = s.len();
    let mut j: usize = 0;
    while j < d.len()
        invariant
            sl == s@.len(),
            i + d@.len() <= s@.len(),
            j <= d@.len(),
            forall|k: int| 0 <= k < j ==> s@[i + k] == d@[k],
        decreases d@.len() - j,
    {
        if s[i + j] != d[j] {
            assert(s@.subrange(i as int, i + d@.len())[j as int] != d@[j as int]);
            return false;
        }
        j = j + 1;
    }
    assert(s@.subrange(i as int, i + d@.len()) =~= d@);
    true
}

/// Splits `string` on `delimeter` and drops the empty pieces.
pub fn split_string<'a>(string: &'a str, delimeter: &str) -> (r: Vec<&'a str>)
    ensures
        str_views(r@) == split_words(string@, delimeter@),
{
    let s = chars_of(string);
    let d = chars_of(delimeter);
    let n = s.len();
    let dl = d.len();
    let mut r: Vec<&'a str> = Vec::new();
    if dl == 0 {
        let mut i: usize = 0;
        while i < n
            invariant
                i <= n,
                n == string@.len(),
                str_views(r@) == string@.subrange(0, i as int).map_values(|c: char| seq![c]),
            decreases n - i,
        {
            let piece = string.substring_char(i, i + 1);
            let ghost prev = r@;
            r.push(piece);
            assert(str_views(r@) =~= str_views(prev).push(piece@));
            assert(piece@ =~= seq![string@[i as int]]);
            assert(string@.subrange(0, i + 1).map_values(|c: char| seq![c]) =~= string@.subrange(
                0,
                i as int,
            ).map_values(|c: char| seq![c]).push(seq![string@[i as int]]));
            i = i + 1;
        }
        assert(string@.subrange(0, n as int) =~= string@);
        return r;
    }
    let mut start: usize = 0;
    let mut i: usize = 0;
    while dl <= n && i <= n - dl
        invariant
            s@ == string@,
            d@ == delimeter@,
            n == s@.len(),
            dl == d@.len(),
            dl > 0,
            start <= i <= n,
            str_views(r@) + scan_pieces(s@, d@, start as int, i as int) == scan_pieces(s@, d@, 0, 0),
        decreases n - i,
    {
        let ghost prev = r@;
        if occurs_at(&s, &d, i) {
            if start < i {
                let piece = string.substring_char(start, i);
                r.push(piece);
                assert(str_views(r@) =~= str_views(prev).push(piece@));
                assert(str_views(prev).push(piece@) =~= str_views(prev) + nonempty_piece(s@.subrange(start as int, i as int)));
            } else {
                assert(nonempty_piece(s@.subrange(start as int, i as int)) =~= Seq::<Seq<char>>::empty());
            }
            assert(str_views(r@) + scan_pieces(s@, d@, (i + dl) as int, (i + dl) as int) =~= str_views(prev) + scan_pieces(s@, d@, start as int, i as int));
            i = i + dl;
            start = i;
        } else {
            i = i + 1;
        }
    }
    let ghost prev = r@;
    if start < n {
        let piece = string.substring_char(start, n);
        r.push(piece);
        assert(str_views(r@) =~= str_views(prev).push(piece@));
    }
    assert(str_views(r@) =~= scan_pieces(s@, d@, 0, 0));
    r
}

/// The words of each sentence that do not occur anywhere in the other one.
#[derive(Debug, PartialEq)]
pub struct Differences<'a> {
    pub only_in_first: Vec<&'a str>,
    pub only_in_second: Vec<&'a str>,
}

/// The words of `words` (split on spaces) that do not occur as text in `other`.
pub open spec fn words_missing_from(words: Seq<char>, other: Seq<char>) -> Seq<Seq<char>> {
    filter_seq(split_words(words, seq![' ']), |w: Seq<char>| !contains_seq(other, w))
}

fn missing_words<'a>(words: &Vec<&'a str>, other: &str) -> (r: Vec<&'a str>)
    ensures
        str_views(r@) == filter_seq(str_views(words@), |w: Seq<char>| !contains_seq(other@, w)),
{
    let ghost keep = |w: Seq<char>| !contains_seq(other@, w);
    let mut r: Vec<&'a str> = Vec::new();
    let mut i: usize = 0;
    while i < words.len()
        invariant
            i <= words@.len(),
            keep == (|w: Seq<char>| !contains_seq(other@, w)),
            str_views(r@) == filter_seq(str_views(words@).subrange(0, i as int), keep),
        decreases words@.len() - i,
    {
        let ghost prev = r@;
        assert(str_views(words@).subrange(0, i + 1).drop_last() =~= str_views(words@).subrange(0, i as int));
        let w = words[i];
        if !str_contains(other, w) {
            r.push(w);
            assert(str_views(r@) =~= str_views(prev).push(w@));
        }
        i = i + 1;
    }
    assert(str_views(words@).subrange(0, words@.len() as int) =~= str_views(words@));
    r
}

/// The words (split on spaces) of each sentence that do not occur as text in
/// the other sentence, each list in its sentence's order.
pub fn find_differences<'a>(first_string: &'a str, second_string: &'a str) -> (r: Differences<'a>)
    ensures
        str_views(r.only_in_first@) == words_missing_from(first_string@, second_string@),
        str_views(r.only_in_second@) == words_missing_from(second_string@, first_string@),
{
    let first_words = split_string(first_string, " ");
    let second_words = split_string(second_string, " ");
    proof {
        reveal_strlit(" ");
        assert(" "@ =~= seq![' ']);
    }
    Differences {
        only_in_first: missing_words(&first_words, second_string),
        only_in_second: missing_words(&second_words, first_string),
    }
}

pub open spec fn is_vowel(c: char) -> bool {
    c == 'a' || c == 'e' || c == 'i' || c == 'o' || c == 'u'
}

/// The merge of `x` from `i` with `y` from `j`, `x` having the turn. A turn
/// takes one chunk: its first character, then every character up to the next
/// lowercase vowel. When the name whose turn it is runs out, the rest of the
/// other one follows.
pub open spec fn merged(x: Seq<char>, i: int, y: Seq<char>, j: int, at_chunk_start: bool) -> Seq<char>
    decreases 2 * ((x.len() - i) + (y.len() - j)) + (if at_chunk_start { 0int } else { 1int }),
{
    if i < 0 || j < 0 || i >= x.len() || j > y.len() {
        y.subrange(j, y.len() as int)
    } else if !at_chunk_start && is_vowel(x[i]) {
        merged(y, j, x, i, true)
    } else {
        seq![x[i]] + merged(x, i + 1, y, j, false)
    }
}

/// The two names merged chunk by chunk, the first name first.
pub open spec fn merge_of(first: Seq<char>, second: Seq<char>) -> Seq<char> {
    merged(first, 0, second, 0, true)
}

/// Merges two names by alternating their chunks, starting with the first
/// name; a chunk runs from a character up to the next lowercase vowel.
pub fn merge_names(first_name: &str, second_name: &str) -> (r: String)
    ensures
        r@ == merge_of(first_name@, second_name@),
{
    let a = chars_of(first_name);
    let b = chars_of(second_name);
    let mut out: Vec<char> = Vec::new();
    let mut ia: usize = 0;
    let mut ib: usize = 0;
    let mut turn_a = true;
    let mut at_start = true;
    while (turn_a && ia < a.len()) || (!turn_a && ib < b.len())
        invariant
            ia <= a@.len(),
            ib <= b@.len(),
            out@ + (if turn_a {
                merged(a@, ia as int, b@, ib as int, at_start)
            } else {
                merged(b@, ib as int, a@, ia as int, at_start)
            }) == merge_of(a@, b@),
        decreases 2 * ((a@.len() - ia) + (b@.len() - ib)) + (if at_start { 0int } else { 1int }),
    {
        let c = if turn_a { a[ia] } else { b[ib] };
        let vowel = c == 'a' || c == 'e' || c == 'i' || c == 'o' || c == 'u';
        if !at_start && vowel {
            turn_a = !turn_a;
            at_start = true;
        } else {
            let ghost prev = out@;
            out.push(c);
            assert(out@ =~= prev + seq![c]);
            if turn_a {
                ia = ia + 1;
            } else {
                ib = ib + 1;
            }
            at_start = false;
        }
    }
    let ghost prev = out@;
    if turn_a {
        while ib < b.len()
            invariant
                ib <= b@.len(),
                out@ + b@.subrange(ib as int, b@.len() as int) == merge_of(a@, b@),
            decreases b@.len() - ib,
        {
            let ghost before = out@;
            out.push(b[ib]);
            assert(out@ + b@.subrange(ib + 1, b@.len() as int) =~= before + b@.subrange(ib as int, b@.len() as int));
            ib = ib + 1;
        }
    } else {
        while ia < a.len()
            invariant
                ia <= a@.len(),
                out@ + a@.subrange(ia as int, a@.len() as int) == merge_of(a@, b@),
            decreases a@.len() - ia,
        {
            let ghost before = out@;
            out.push(a[ia]);
            assert(out@ + a@.subrange(ia + 1, a@.len() as int) =~= before + a@.subrange(ia as int, a@.len() as int));
            ia = ia + 1;
        }
    }
    assert(out@ =~= merge_of(a@, b@));
    string_of(&out)
}

} // verus!
