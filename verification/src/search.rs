//! The search strategy's logic: find the first match on every line of a
//! file, format each matched line, and assemble the file's output block.
//!
//! The block is emitted if and only if some line matched: the painted
//! path, a newline, the formatted matched lines joined by newlines, and
//! a final newline. A file with no match produces no output at all.

use vstd::prelude::*;

verus! {

use crate::format::{format_line, is_formatted};
use crate::paint::{esc_green, paint_green, painted};
use crate::pattern::{first_match, Matcher};
use crate::text::{extend_bytes, join_lines, join_nl, split_lines, split_lines_spec, views,
    lemma_split_line_lens};

/// One match: the 1-based number of the line it is on and the byte range
/// of the matched text within that line.
#[derive(Clone, Copy, Debug, PartialEq, Eq, Structural)]
pub struct MatchRecord {
    pub lineno: usize,
    pub start: usize,
    pub end: usize,
}

/// The matches that pattern `pat` has in `lines`: one record per line
/// with a match, in line order, holding the line's 1-based number and
/// the byte range of its first match.
pub open spec fn matches_of(pat: Seq<char>, lines: Seq<Seq<u8>>) -> Seq<MatchRecord>
    decreases lines.len(),
{
    if lines.len() == 0 {
        Seq::empty()
    } else {
        matches_of(pat, lines.drop_last()) + match first_match(pat, lines.last()) {
            Option::Some(m) => seq![
                (MatchRecord { lineno: lines.len() as usize, start: m.0, end: m.1 }),
            ],
            Option::None => Seq::empty(),
        }
    }
}

/// `h` points into `lines`: a line that exists, and a byte range that
/// lies within it.
pub open spec fn hit_in_bounds(lines: Seq<Seq<u8>>, h: MatchRecord) -> bool {
    &&& 1 <= h.lineno <= lines.len()
    &&& h.start <= h.end <= lines[h.lineno - 1].len()
}

/// `h` records a first match of `pat` on the line it points to.
pub open spec fn matched_at(pat: Seq<char>, lines: Seq<Seq<u8>>, h: MatchRecord) -> bool {
    &&& 1 <= h.lineno <= lines.len()
    &&& first_match(pat, lines[h.lineno - 1]) == Some((h.start, h.end))
}

/// Every recorded match points at an existing line — line numbers are a
/// subset of {1, ..., lines.len()} — records a first match of `pat` on
/// exactly that line, and line numbers strictly increase through the
/// record sequence.
pub proof fn lemma_match_line_numbers(pat: Seq<char>, lines: Seq<Seq<u8>>)
    requires
        lines.len() <= usize::MAX,
    ensures
        forall|k: int| 0 <= k < matches_of(pat, lines).len() ==> matched_at(
            pat,
            lines,
            #[trigger] matches_of(pat, lines)[k],
        ),
        forall|k1: int, k2: int|
            0 <= k1 < k2 < matches_of(pat, lines).len() ==> (#[trigger] matches_of(
                pat,
                lines,
            )[k1]).lineno < (#[trigger] matches_of(pat, lines)[k2]).lineno,
    decreases lines.len(),
{
    if lines.len() == 0 {
    } else {
        let prefix = lines.drop_last();
        lemma_match_line_numbers(pat, prefix);
        assert forall|k: int| 0 <= k < matches_of(pat, lines).len() implies matched_at(
            pat,
            lines,
            #[trigger] matches_of(pat, lines)[k],
        ) by {
            if k < matches_of(pat, prefix).len() {
                let h = matches_of(pat, prefix)[k];
                assert(matched_at(pat, prefix, h));
                assert(prefix[h.lineno - 1] == lines[h.lineno - 1]);
            }
        }
        assert forall|k1: int, k2: int|
            0 <= k1 < k2 < matches_of(pat, lines).len() implies (#[trigger] matches_of(
            pat,
            lines,
        )[k1]).lineno < (#[trigger] matches_of(pat, lines)[k2]).lineno by {
            let n = matches_of(pat, prefix).len();
            if k2 < n {
            } else {
                assert(matched_at(pat, prefix, matches_of(pat, prefix)[k1]));
                assert(matches_of(pat, lines)[k1].lineno <= prefix.len());
            }
        }
    }
}

/// Scans every line for a first match of `m`'s pattern, returning the
/// match records in line order.
pub fn find_in_lines(m: &Matcher, lines: &Vec<Vec<u8>>) -> (r: Vec<MatchRecord>)
    ensures
        r@ == matches_of(m.pattern(), views(lines@)),
        forall|k: int| 0 <= k < r@.len() ==> hit_in_bounds(views(lines@), #[trigger] r@[k]),
{
    let mut r: Vec<MatchRecord> = Vec::new();
    let mut i: usize = 0;
    proof {
        assert(views(lines@).take(0) =~= Seq::<Seq<u8>>::empty());
    }
    while i < lines.len()
        invariant
            i <= lines@.len(),
            r@ == matches_of(m.pattern(), views(lines@).take(i as int)),
            forall|k: int| 0 <= k < r@.len() ==> hit_in_bounds(views(lines@), #[trigger] r@[k]),
        decreases lines@.len() - i,
    {
        let line: &Vec<u8> = &lines[i];
        let ghost pre = views(lines@).take(i as int);
        proof {
            assert(views(lines@).take(i + 1).drop_last() =~= pre);
            assert(views(lines@).take(i + 1).last() == line@);
        }
        match m.find_first(line) {
            Some(p) => {
                let h = MatchRecord { lineno: i + 1, start: p.0, end: p.1 };
                r.push(h);
                proof {
                    assert(views(lines@)[h.lineno - 1] == line@);
                }
            },
            None => {},
        }
        i = i + 1;
    }
    proof {
        assert(views(lines@).take(lines@.len() as int) =~= views(lines@));
    }
    r
}

/// Formats each recorded match against the line it points to.
pub fn render_matches(lines: &Vec<Vec<u8>>, hits: &Vec<MatchRecord>) -> (r: Vec<Vec<u8>>)
    requires
        forall|k: int| 0 <= k < hits@.len() ==> hit_in_bounds(views(lines@), #[trigger] hits@[k]),
        forall|k: int| 0 <= k < lines@.len() ==> (#[trigger] lines@[k])@.len() < usize::MAX,
    ensures
        r@.len() == hits@.len(),
        forall|k: int| 0 <= k < hits@.len() ==> is_formatted(
            views(lines@)[hits@[k].lineno - 1],
            hits@[k].lineno as nat,
            hits@[k].start as int,
            hits@[k].end as int,
            (#[trigger] r@[k])@,
        ),
{
    let mut r: Vec<Vec<u8>> = Vec::new();
    let mut i: usize = 0;
    while i < hits.len()
        invariant
            i <= hits@.len(),
            r@.len() == i,
            forall|k: int| 0 <= k < hits@.len() ==> hit_in_bounds(
                views(lines@),
                #[trigger] hits@[k],
            ),
            forall|k: int| 0 <= k < lines@.len() ==> (#[trigger] lines@[k])@.len() < usize::MAX,
            forall|k: int| 0 <= k < i ==> is_formatted(
                views(lines@)[hits@[k].lineno - 1],
                hits@[k].lineno as nat,
                hits@[k].start as int,
                hits@[k].end as int,
                (#[trigger] r@[k])@,
            ),
        decreases hits@.len() - i,
    {
        let h = hits[i];
        proof {
            assert(hit_in_bounds(views(lines@), hits@[i as int]));
            assert(views(lines@)[h.lineno - 1] == lines@[h.lineno - 1]@);
        }
        let line: &Vec<u8> = &lines[h.lineno - 1];
        let f = format_line(line, h.lineno, h.start, h.end);
        r.push(f);
        i = i + 1;
    }
    r
}

/// The output block that `search_file` owes when at least one line
/// matched: the painted path, a newline, the formatted matched lines
/// joined by newlines, and a final newline.
pub open spec fn block_shape(
    pat: Seq<char>,
    path: Seq<u8>,
    lines: Seq<Seq<u8>>,
    out: Seq<u8>,
) -> bool {
    exists|fmts: Seq<Vec<u8>>, path_p: Seq<u8>|
        {
            let hits = matches_of(pat, lines);
            &&& fmts.len() == hits.len()
            &&& (forall|k: int| 0 <= k < hits.len() ==> is_formatted(
                lines[hits[k].lineno - 1],
                hits[k].lineno as nat,
                hits[k].start as int,
                hits[k].end as int,
                (#[trigger] fmts[k])@,
            ))
            &&& #[trigger] painted(esc_green(), path, path_p)
            &&& out == path_p + seq![10u8] + #[trigger] join_nl(fmts) + seq![10u8]
        }
}

/// Searches the lines of one file and returns the file's whole output
/// block: empty exactly when no line matched, else the painted path and
/// the formatted matched lines.
pub fn search_file(m: &Matcher, path: &Vec<u8>, lines: &Vec<Vec<u8>>) -> (out: Vec<u8>)
    requires
        forall|k: int| 0 <= k < lines@.len() ==> (#[trigger] lines@[k])@.len() < usize::MAX,
    ensures
        matches_of(m.pattern(), views(lines@)).len() == 0 ==> out@ == Seq::<u8>::empty(),
        matches_of(m.pattern(), views(lines@)).len() > 0 ==> out@.len() > 0,
        matches_of(m.pattern(), views(lines@)).len() > 0 ==> block_shape(
            m.pattern(),
            path@,
            views(lines@),
            out@,
        ),
{
    let hits = find_in_lines(m, lines);
    if hits.len() == 0 {
        let out: Vec<u8> = Vec::new();
        proof {
            assert(out@ =~= Seq::<u8>::empty());
        }
        return out;
    }
    let fmts = render_matches(lines, &hits);
    let joined = join_lines(&fmts);
    let path_p = paint_green(path);
    let mut out: Vec<u8> = Vec::new();
    extend_bytes(&mut out, &path_p);
    out.push(10u8);
    extend_bytes(&mut out, &joined);
    out.push(10u8);
    proof {
        assert(out@ =~= path_p@ + seq![10u8] + join_nl(fmts@) + seq![10u8]);
        assert(block_shape(m.pattern(), path@, views(lines@), out@));
    }
    out
}

/// Searches one file's whole content: splits it into lines, then runs
/// `search_file`. This is the strategy's computational core: what it
/// returns is what a strategy writes for the file.
pub fn search_input(m: &Matcher, path: &Vec<u8>, input: &Vec<u8>) -> (out: Vec<u8>)
    requires
        input@.len() < usize::MAX,
    ensures
        matches_of(m.pattern(), split_lines_spec(input@)).len() == 0 ==> out@
            == Seq::<u8>::empty(),
        matches_of(m.pattern(), split_lines_spec(input@)).len() > 0 ==> out@.len() > 0,
        matches_of(m.pattern(), split_lines_spec(input@)).len() > 0 ==> block_shape(
            m.pattern(),
            path@,
            split_lines_spec(input@),
            out@,
        ),
{
    let lines = split_lines(input);
    proof {
        lemma_split_line_lens(input@);
        assert forall|k: int| 0 <= k < lines@.len() implies (#[trigger] lines@[k])@.len()
            < usize::MAX by {
            assert(views(lines@)[k] == lines@[k]@);
            assert(split_lines_spec(input@)[k].len() <= input@.len());
        }
    }
    search_file(m, path, &lines)
}

} // verus!
