//! Line filtering: classification of a needle as literal text or as a regular
//! expression, the four matching strategies, and the laws that relate them.

use vstd::prelude::*;
use regex::Regex;
use vstd::string::{StringExecFns, StringSliceAdditionalSpecFns};
use crate::output::{plan_from, plan_segments, spans_ordered, Segment};
use crate::text::{contains_seq, lower_of, lowercase, str_contains, views};

verus! {

#[verifier::external_type_specification]
#[verifier::external_body]
pub struct ExRegex(Regex);

/// Whether the regex engine accepts `p` as a pattern.
pub uninterp spec fn pattern_compiles(p: Seq<char>) -> bool;

/// Whether the pattern compiled from `p` matches somewhere in `line`.
pub uninterp spec fn pattern_finds(p: Seq<char>, line: Seq<char>) -> bool;

/// How a needle is read: as plain text, or as a regular expression.
#[derive(Clone, Copy, Debug, PartialEq, Eq, Structural)]
pub enum MatchKind {
    Literal,
    Pattern,
}

/// The four ways of selecting lines, by match kind and inversion.
#[derive(Clone, Copy, Debug, PartialEq, Eq, Structural)]
pub enum Strategy {
    NormalString,
    NormalStringInvert,
    RegexString,
    RegexStringInvert,
}

/// A compiled regular expression together with the text it was compiled from.
/// Only `compile` builds one, so `re` is always the compilation of `source`.
struct CompiledPattern {
    re: Regex,
    source: String,
}

/// Relies on `regex::Regex::new`: it succeeds exactly when the engine accepts `p`.
#[verifier::external_body]
fn compile(p: &str) -> (r: Option<CompiledPattern>)
    ensures
        r.is_some() == pattern_compiles(p@),
        r matches Some(c) ==> c.source@ == p@,
{
    match Regex::new(p) {
        Ok(re) => Some(CompiledPattern { re, source: p.to_string() }),
        Err(_) => None,
    }
}

impl CompiledPattern {
    /// Relies on `regex::Regex::is_match`: whether the pattern matches anywhere in `line`.
    #[verifier::external_body]
    fn is_match(&self, line: &str) -> (r: bool)
        ensures
            r == pattern_finds(self.source@, line@),
    {
        self.re.is_match(line)
    }
}

/// The byte spans of the successive non-overlapping matches of the pattern
/// compiled from `p` in `line`, leftmost first.
pub uninterp spec fn match_spans(p: Seq<char>, line: Seq<char>) -> Seq<(usize, usize)>;

/// The pattern that matches `s` as literal text, as `regex::escape` writes it.
pub uninterp spec fn escaped(s: Seq<char>) -> Seq<char>;

/// Relies on `regex::escape`: the result depends on the characters alone.
#[verifier::external_body]
fn escape(s: &str) -> (r: String)
    ensures
        r@ == escaped(s@),
{
    regex::escape(s)
}

impl CompiledPattern {
    /// Relies on `regex::Regex::find_iter`: successive non-overlapping matches,
    /// each with `start <= end`, on offsets within the line.
    #[verifier::external_body]
    fn spans(&self, line: &str) -> (r: Vec<(usize, usize)>)
        ensures
            r@ == match_spans(self.source@, line@),
            spans_ordered(r@, line.spec_bytes().len() as usize as int),
    {
        self.re.find_iter(line).map(|m| (m.start(), m.end())).collect()
    }
}

/// Finds the occurrences of a needle in lines, for highlighting.
pub struct Highlighter {
    compiled: CompiledPattern,
}

impl Highlighter {
    /// The pattern text that this highlighter looks for.
    pub closed spec fn pattern(&self) -> Seq<char> {
        self.compiled.source@
    }

    /// The plain and highlighted segments of `line`: each match of the
    /// pattern highlighted, the text around the matches plain.
    pub fn segments(&self, line: &str) -> (r: Vec<Segment>)
        ensures
            r@ == plan_from(
                match_spans(self.pattern(), line@),
                0,
                line.spec_bytes().len() as usize as int,
            ),
    {
        let spans = self.compiled.spans(line);
        plan_segments(line.len(), &spans)
    }
}

/// The pattern text that highlights a needle: the needle itself when the
/// engine accepts it, its escaped form otherwise, behind the inline
/// case-insensitivity modifier when `ignore_case` is set.
pub open spec fn highlight_text(needle: Seq<char>, ignore_case: bool) -> Seq<char> {
    let body = if pattern_compiles(needle) {
        needle
    } else {
        escaped(needle)
    };
    if ignore_case {
        "(?i)"@ + body
    } else {
        body
    }
}

/// A highlighter for `needle`, read as the search reads it; `None` only if
/// the engine rejects the pattern text that it builds.
pub fn highlighter_for(needle: &str, ignore_case: bool) -> (r: Option<Highlighter>)
    ensures
        r is Some <==> pattern_compiles(highlight_text(needle@, ignore_case)),
        r matches Some(h) ==> h.pattern() == highlight_text(needle@, ignore_case),
{
    let body = match compile(needle) {
        Some(_) => String::from_str(needle),
        None => escape(needle),
    };
    let text = if ignore_case {
        String::from_str("(?i)").concat(body.as_str())
    } else {
        body
    };
    match compile(text.as_str()) {
        Some(compiled) => Some(Highlighter { compiled }),
        None => None,
    }
}

/// The lines of `s` for which `keep` holds, in their original order.
pub open spec fn filter_seq(s: Seq<Seq<char>>, keep: spec_fn(Seq<char>) -> bool) -> Seq<Seq<char>>
    decreases s.len(),
{
    if s.len() == 0 {
        seq![]
    } else {
        let rest = filter_seq(s.drop_last(), keep);
        if keep(s.last()) {
            rest.push(s.last())
        } else {
            rest
        }
    }
}

/// The lines of `lines` whose flag in `hits` differs from `invert`, in order.
pub open spec fn pick(lines: Seq<Seq<char>>, hits: Seq<bool>, invert: bool) -> Seq<Seq<char>>
    decreases lines.len(),
{
    if lines.len() == 0 || hits.len() == 0 {
        seq![]
    } else {
        let rest = pick(lines.drop_last(), hits.drop_last(), invert);
        if hits.last() != invert {
            rest.push(lines.last())
        } else {
            rest
        }
    }
}

/// The literal predicate: the needle occurs in the line, both lowercased when
/// `ignore_case` is set.
pub open spec fn literal_hit(needle: Seq<char>, ignore_case: bool, line: Seq<char>) -> bool {
    if ignore_case {
        contains_seq(lower_of(line), lower_of(needle))
    } else {
        contains_seq(line, needle)
    }
}

/// The pattern text handed to the engine: the needle, behind the inline
/// case-insensitivity modifier when `ignore_case` is set.
pub open spec fn pattern_text(needle: Seq<char>, ignore_case: bool) -> Seq<char> {
    if ignore_case {
        "(?i)"@ + needle
    } else {
        needle
    }
}

/// The pattern predicate. Should the engine reject the modified pattern, the
/// needle is searched as literal text, as classification does.
pub open spec fn regex_hit(needle: Seq<char>, ignore_case: bool, line: Seq<char>) -> bool {
    let p = pattern_text(needle, ignore_case);
    if pattern_compiles(p) {
        pattern_finds(p, line)
    } else {
        literal_hit(needle, ignore_case, line)
    }
}

/// Whether `strategy` keeps `line`.
pub open spec fn keeps(strategy: Strategy, needle: Seq<char>, ignore_case: bool, line: Seq<char>) -> bool {
    match strategy {
        Strategy::NormalString => literal_hit(needle, ignore_case, line),
        Strategy::NormalStringInvert => !literal_hit(needle, ignore_case, line),
        Strategy::RegexString => regex_hit(needle, ignore_case, line),
        Strategy::RegexStringInvert => !regex_hit(needle, ignore_case, line),
    }
}

/// What `strategy` returns on `lines`.
pub open spec fn strategy_result(
    strategy: Strategy,
    lines: Seq<Seq<char>>,
    needle: Seq<char>,
    ignore_case: bool,
) -> Seq<Seq<char>> {
    filter_seq(lines, |l: Seq<char>| keeps(strategy, needle, ignore_case, l))
}

/// The kind of a needle: a pattern when the engine accepts it, literal text otherwise.
pub open spec fn kind_of(needle: Seq<char>) -> MatchKind {
    if pattern_compiles(needle) {
        MatchKind::Pattern
    } else {
        MatchKind::Literal
    }
}

/// The strategy for a kind and an inversion flag.
pub open spec fn strategy_for(kind: MatchKind, invert: bool) -> Strategy {
    match (kind, invert) {
        (MatchKind::Literal, false) => Strategy::NormalString,
        (MatchKind::Literal, true) => Strategy::NormalStringInvert,
        (MatchKind::Pattern, false) => Strategy::RegexString,
        (MatchKind::Pattern, true) => Strategy::RegexStringInvert,
    }
}

/// What a whole search returns.
pub open spec fn search_result(
    lines: Seq<Seq<char>>,
    needle: Seq<char>,
    ignore_case: bool,
    invert: bool,
) -> Seq<Seq<char>> {
    strategy_result(strategy_for(kind_of(needle), invert), lines, needle, ignore_case)
}

proof fn lemma_pick_filters(
    lines: Seq<Seq<char>>,
    hits: Seq<bool>,
    invert: bool,
    hit: spec_fn(Seq<char>) -> bool,
    keep: spec_fn(Seq<char>) -> bool,
)
    requires
        hits.len() == lines.len(),
        forall|i: int| 0 <= i < lines.len() ==> hits[i] == hit(#[trigger] lines[i]),
        forall|l: Seq<char>| #[trigger] keep(l) == (hit(l) != invert),
    ensures
        pick(lines, hits, invert) == filter_seq(lines, keep),
    decreases lines.len(),
{
    if lines.len() > 0 {
        let (l2, h2) = (lines.drop_last(), hits.drop_last());
        assert forall|i: int| 0 <= i < l2.len() implies h2[i] == hit(#[trigger] l2[i]) by {
            assert(lines[i] == l2[i]);
        }
        lemma_pick_filters(l2, h2, invert, hit, keep);
        assert(hits.last() == hit(lines.last()));
    }
}

proof fn lemma_filter_same(
    lines: Seq<Seq<char>>,
    p: spec_fn(Seq<char>) -> bool,
    q: spec_fn(Seq<char>) -> bool,
)
    requires
        forall|l: Seq<char>| #[trigger] p(l) == q(l),
    ensures
        filter_seq(lines, p) == filter_seq(lines, q),
    decreases lines.len(),
{
    if lines.len() > 0 {
        lemma_filter_same(lines.drop_last(), p, q);
    }
}

/// Keeps the lines whose flag in `hits` differs from `invert`, in their order.
pub fn select_lines(lines: Vec<String>, hits: &Vec<bool>, invert: bool) -> (r: Vec<String>)
    requires
        hits@.len() == lines@.len(),
    ensures
        views(r@) == pick(views(lines@), hits@, invert),
{
    let mut r: Vec<String> = Vec::new();
    let mut i: usize = 0;
    while i < lines.len()
        invariant
            i <= lines@.len(),
            hits@.len() == lines@.len(),
            views(r@) == pick(views(lines@).subrange(0, i as int), hits@.subrange(0, i as int), invert),
        decreases lines@.len() - i,
    {
        let ghost prev = r@;
        let ghost ls = views(lines@).subrange(0, i + 1);
        let ghost hs = hits@.subrange(0, i + 1);
        assert(ls.drop_last() =~= views(lines@).subrange(0, i as int));
        assert(hs.drop_last() =~= hits@.subrange(0, i as int));
        if hits[i] != invert {
            r.push(lines[i].clone());
            assert(views(r@) =~= views(prev).push(lines@[i as int]@));
        }
        i = i + 1;
    }
    assert(views(lines@).subrange(0, lines@.len() as int) =~= views(lines@));
    assert(hits@.subrange(0, lines@.len() as int) =~= hits@);
    r
}

/// For each line, whether it holds the needle as literal text.
fn literal_hits(lines: &Vec<String>, needle: &str, ignore_case: bool) -> (r: Vec<bool>)
    ensures
        r@.len() == lines@.len(),
        forall|i: int|
            0 <= i < lines@.len() ==> r@[i] == literal_hit(needle@, ignore_case, #[trigger] lines@[i]@),
{
    let mut r: Vec<bool> = Vec::new();
    let folded_needle = lowercase(needle);
    let mut i: usize = 0;
    while i < lines.len()
        invariant
            i <= lines@.len(),
            r@.len() == i,
            folded_needle@ == lower_of(needle@),
            forall|j: int|
                0 <= j < i ==> r@[j] == literal_hit(needle@, ignore_case, #[trigger] lines@[j]@),
        decreases lines@.len() - i,
    {
        let hit = if ignore_case {
            let folded_line = lowercase(lines[i].as_str());
            str_contains(folded_line.as_str(), folded_needle.as_str())
        } else {
            str_contains(lines[i].as_str(), needle)
        };
        r.push(hit);
        i = i + 1;
    }
    r
}

/// For each line, whether the needle read as a pattern matches it. The pattern
/// is compiled once, and reused for every line.
fn regex_hits(lines: &Vec<String>, needle: &str, ignore_case: bool) -> (r: Vec<bool>)
    ensures
        r@.len() == lines@.len(),
        forall|i: int|
            0 <= i < lines@.len() ==> r@[i] == regex_hit(needle@, ignore_case, #[trigger] lines@[i]@),
{
    let text = if ignore_case {
        String::from_str("(?i)").concat(needle)
    } else {
        String::from_str(needle)
    };
    match compile(text.as_str()) {
        Some(compiled) => {
            let mut r: Vec<bool> = Vec::new();
            let mut i: usize = 0;
            while i < lines.len()
                invariant
                    i <= lines@.len(),
                    r@.len() == i,
                    compiled.source@ == pattern_text(needle@, ignore_case),
                    pattern_compiles(pattern_text(needle@, ignore_case)),
                    forall|j: int|
                        0 <= j < i ==> r@[j] == regex_hit(needle@, ignore_case, #[trigger] lines@[j]@),
                decreases lines@.len() - i,
            {
                r.push(compiled.is_match(lines[i].as_str()));
                i = i + 1;
            }
            r
        },
        None => literal_hits(lines, needle, ignore_case),
    }
}

/// A way of selecting lines by a needle.
pub trait Needle {
    spec fn keeps_line(&self, needle: Seq<char>, ignore_case: bool, line: Seq<char>) -> bool;

    /// The lines that this strategy keeps, in their original order.
    fn find_lines(&self, lines: Vec<String>, needle: &str, ignore_case: bool) -> (r: Vec<String>)
        ensures
            views(r@) == filter_seq(
                views(lines@),
                |l: Seq<char>| self.keeps_line(needle@, ignore_case, l),
            ),
    ;
}

impl Needle for Strategy {
    open spec fn keeps_line(&self, needle: Seq<char>, ignore_case: bool, line: Seq<char>) -> bool {
        keeps(*self, needle, ignore_case, line)
    }

    fn find_lines(&self, lines: Vec<String>, needle: &str, ignore_case: bool) -> (r: Vec<String>) {
        let (hits, invert) = match self {
            Strategy::NormalString => (literal_hits(&lines, needle, ignore_case), false),
            Strategy::NormalStringInvert => (literal_hits(&lines, needle, ignore_case), true),
            Strategy::RegexString => (regex_hits(&lines, needle, ignore_case), false),
            Strategy::RegexStringInvert => (regex_hits(&lines, needle, ignore_case), true),
        };
        let ghost hit = |l: Seq<char>|
            if *self == Strategy::NormalString || *self == Strategy::NormalStringInvert {
                literal_hit(needle@, ignore_case, l)
            } else {
                regex_hit(needle@, ignore_case, l)
            };
        let ghost keep = |l: Seq<char>| self.keeps_line(needle@, ignore_case, l);
        proof {
            let vl = views(lines@);
            assert forall|i: int| 0 <= i < vl.len() implies hits@[i] == hit(#[trigger] vl[i]) by {
                assert(vl[i] == lines@[i]@);
            }
            lemma_pick_filters(vl, hits@, invert, hit, keep);
        }
        select_lines(lines, &hits, invert)
    }
}

/// Classifies a needle: a pattern when the regex engine accepts it, literal
/// text otherwise. A rejected pattern is not an error.
pub fn classify(needle: &str) -> (r: MatchKind)
    ensures
        r == kind_of(needle@),
{
    match compile(needle) {
        Some(_) => MatchKind::Pattern,
        None => MatchKind::Literal,
    }
}

/// The strategy for a kind of needle and an inversion flag.
pub fn select_strategy(kind: MatchKind, invert: bool) -> (r: Strategy)
    ensures
        r == strategy_for(kind, invert),
{
    match (kind, invert) {
        (MatchKind::Literal, false) => Strategy::NormalString,
        (MatchKind::Literal, true) => Strategy::NormalStringInvert,
        (MatchKind::Pattern, false) => Strategy::RegexString,
        (MatchKind::Pattern, true) => Strategy::RegexStringInvert,
    }
}

/// Searches `lines` for `needle`: classifies the needle, picks the strategy
/// for it and for `invert_match`, and returns the lines it keeps, in order.
pub fn search_lines(lines: Vec<String>, needle: &str, ignore_case: bool, invert_match: bool) -> (r: Vec<String>)
    ensures
        views(r@) == search_result(views(lines@), needle@, ignore_case, invert_match),
{
    let strategy = select_strategy(classify(needle), invert_match);
    let ghost vl = views(lines@);
    let r = strategy.find_lines(lines, needle, ignore_case);
    proof {
        lemma_filter_same(
            vl,
            |l: Seq<char>| strategy.keeps_line(needle@, ignore_case, l),
            |l: Seq<char>| keeps(strategy, needle@, ignore_case, l),
        );
    }
    r
}

proof fn lemma_filter_members(lines: Seq<Seq<char>>, p: spec_fn(Seq<char>) -> bool)
    ensures
        forall|x: Seq<char>|
            #[trigger] filter_seq(lines, p).contains(x) <==> (lines.contains(x) && p(x)),
    decreases lines.len(),
{
    if lines.len() > 0 {
        let init = lines.drop_last();
        lemma_filter_members(init, p);
        assert(lines =~= init.push(lines.last()));
        assert forall|x: Seq<char>| #[trigger] lines.contains(x) <==> (init.contains(x) || x == lines.last()) by {
            if lines.contains(x) {
                let k = choose|k: int| 0 <= k < lines.len() && lines[k] == x;
                if k < init.len() {
                    assert(init[k] == x);
                }
            }
            if init.contains(x) {
                let k = choose|k: int| 0 <= k < init.len() && init[k] == x;
                assert(lines[k] == x);
            }
            if x == lines.last() {
                assert(lines[lines.len() - 1] == x);
            }
        }
        let rest = filter_seq(init, p);
        assert forall|x: Seq<char>| #[trigger] rest.push(lines.last()).contains(x) <==> (rest.contains(x) || x == lines.last()) by {
            let pushed = rest.push(lines.last());
            if pushed.contains(x) {
                let k = choose|k: int| 0 <= k < pushed.len() && pushed[k] == x;
                if k < rest.len() {
                    assert(rest[k] == x);
                }
            }
            if rest.contains(x) {
                let k = choose|k: int| 0 <= k < rest.len() && rest[k] == x;
                assert(pushed[k] == x);
            }
            if x == lines.last() {
                assert(pushed[pushed.len() - 1] == x);
            }
        }
    }
}

proof fn lemma_filter_split(
    lines: Seq<Seq<char>>,
    p: spec_fn(Seq<char>) -> bool,
    q: spec_fn(Seq<char>) -> bool,
)
    requires
        forall|l: Seq<char>| #[trigger] q(l) == !p(l),
    ensures
        filter_seq(lines, p).to_multiset().add(filter_seq(lines, q).to_multiset())
            =~= lines.to_multiset(),
    decreases lines.len(),
{
    broadcast use vstd::seq_lib::group_to_multiset_ensures;

    if lines.len() == 0 {
        assert(filter_seq(lines, p) =~= Seq::<Seq<char>>::empty());
        assert(filter_seq(lines, q) =~= Seq::<Seq<char>>::empty());
    } else {
        let init = lines.drop_last();
        lemma_filter_split(init, p, q);
        assert(lines =~= init.push(lines.last()));
    }
}

/// A literal, case-sensitive search keeps exactly the lines that contain the
/// needle as a contiguous run of characters, in their original order.
pub proof fn lemma_literal_search_exact(lines: Seq<Seq<char>>, needle: Seq<char>)
    ensures
        strategy_result(Strategy::NormalString, lines, needle, false) == filter_seq(
            lines,
            |l: Seq<char>| contains_seq(l, needle),
        ),
        forall|x: Seq<char>|
            #[trigger] strategy_result(Strategy::NormalString, lines, needle, false).contains(x)
                <==> (lines.contains(x) && contains_seq(x, needle)),
{
    let p = |l: Seq<char>| contains_seq(l, needle);
    lemma_filter_same(lines, |l: Seq<char>| keeps(Strategy::NormalString, needle, false, l), p);
    lemma_filter_members(lines, p);
}

/// A strategy and its inverse split the input: together they hold every line
/// as often as the input does, and no line is kept by both. This holds of the
/// literal pair and of the pattern pair.
pub proof fn lemma_partition(lines: Seq<Seq<char>>, needle: Seq<char>, ignore_case: bool)
    ensures
        strategy_result(Strategy::NormalString, lines, needle, ignore_case).to_multiset().add(
            strategy_result(Strategy::NormalStringInvert, lines, needle, ignore_case).to_multiset(),
        ) == lines.to_multiset(),
        forall|x: Seq<char>|
            !(#[trigger] strategy_result(Strategy::NormalString, lines, needle, ignore_case).contains(x)
                && strategy_result(Strategy::NormalStringInvert, lines, needle, ignore_case).contains(x)),
        strategy_result(Strategy::RegexString, lines, needle, ignore_case).to_multiset().add(
            strategy_result(Strategy::RegexStringInvert, lines, needle, ignore_case).to_multiset(),
        ) == lines.to_multiset(),
        forall|x: Seq<char>|
            !(#[trigger] strategy_result(Strategy::RegexString, lines, needle, ignore_case).contains(x)
                && strategy_result(Strategy::RegexStringInvert, lines, needle, ignore_case).contains(x)),
{
    let lp = |l: Seq<char>| keeps(Strategy::NormalString, needle, ignore_case, l);
    let lq = |l: Seq<char>| keeps(Strategy::NormalStringInvert, needle, ignore_case, l);
    let rp = |l: Seq<char>| keeps(Strategy::RegexString, needle, ignore_case, l);
    let rq = |l: Seq<char>| keeps(Strategy::RegexStringInvert, needle, ignore_case, l);
    lemma_filter_split(lines, lp, lq);
    lemma_filter_split(lines, rp, rq);
    lemma_filter_members(lines, lp);
    lemma_filter_members(lines, lq);
    lemma_filter_members(lines, rp);
    lemma_filter_members(lines, rq);
}

/// Two needles with the same lowercase form select the same lines in a
/// case-insensitive literal search, plain or inverted. An uppercased needle
/// is such a needle wherever lowercasing undoes the uppercasing.
pub proof fn lemma_case_insensitive_needles(lines: Seq<Seq<char>>, m: Seq<char>, n: Seq<char>)
    requires
        lower_of(m) == lower_of(n),
    ensures
        strategy_result(Strategy::NormalString, lines, m, true) == strategy_result(
            Strategy::NormalString,
            lines,
            n,
            true,
        ),
        strategy_result(Strategy::NormalStringInvert, lines, m, true) == strategy_result(
            Strategy::NormalStringInvert,
            lines,
            n,
            true,
        ),
{
    lemma_filter_same(
        lines,
        |l: Seq<char>| keeps(Strategy::NormalString, m, true, l),
        |l: Seq<char>| keeps(Strategy::NormalString, n, true, l),
    );
    lemma_filter_same(
        lines,
        |l: Seq<char>| keeps(Strategy::NormalStringInvert, m, true, l),
        |l: Seq<char>| keeps(Strategy::NormalStringInvert, n, true, l),
    );
}

/// A needle that the regex engine rejects is classified as literal text, and
/// the search looks for its raw characters.
pub proof fn lemma_rejected_pattern_is_literal(
    lines: Seq<Seq<char>>,
    needle: Seq<char>,
    ignore_case: bool,
    invert: bool,
)
    requires
        !pattern_compiles(needle),
    ensures
        kind_of(needle) == MatchKind::Literal,
        search_result(lines, needle, ignore_case, invert) == filter_seq(
            lines,
            |l: Seq<char>| literal_hit(needle, ignore_case, l) != invert,
        ),
{
    lemma_filter_same(
        lines,
        |l: Seq<char>| keeps(strategy_for(MatchKind::Literal, invert), needle, ignore_case, l),
        |l: Seq<char>| literal_hit(needle, ignore_case, l) != invert,
    );
}

/// Searching no lines yields no lines, whatever the needle and flags.
pub proof fn lemma_empty_input(needle: Seq<char>, ignore_case: bool, invert: bool)
    ensures
        search_result(Seq::empty(), needle, ignore_case, invert) == Seq::<Seq<char>>::empty(),
{
    assert(search_result(Seq::empty(), needle, ignore_case, invert) =~= Seq::<Seq<char>>::empty());
}

} // verus!
