//! The line formatter: a pure mapping from a matched line, its 1-based
//! line number and the match's byte range to one display line.
//!
//! Layout: the line number painted blue and right-aligned to width 6, a
//! colon, the display column painted cyan and left-aligned to width 3, a
//! space, then the line's prefix, the matched bytes painted red, and the
//! suffix, verbatim. The display column is 1 plus the number of
//! characters (not bytes) before the match.

use vstd::prelude::*;

verus! {

use crate::paint::{esc_blue, esc_cyan, esc_red, paint_blue, paint_cyan, paint_red, painted};
use crate::text::{
    char_count, char_count_upto, dec_digits, extend_bytes, pad_left, pad_left_spec, pad_right,
    pad_right_spec, sub_vec, to_decimal,
};

/// The 1-based column, counted in characters, at which a match starting
/// at byte `start` of `line` is displayed.
pub open spec fn display_column(line: Seq<u8>, start: int) -> nat {
    char_count(line.subrange(0, start)) + 1
}

/// The display line assembled from already painted fragments: the
/// painted line number right-aligned to width 6, `:`, the painted column
/// left-aligned to width 3, a space, then the prefix, the painted match
/// and the suffix of `line`.
pub open spec fn rendered(
    line: Seq<u8>,
    start: int,
    end: int,
    num_p: Seq<u8>,
    col_p: Seq<u8>,
    match_p: Seq<u8>,
) -> Seq<u8> {
    pad_left_spec(num_p, 6) + seq![58u8] + pad_right_spec(col_p, 3) + seq![32u8]
        + line.subrange(0, start) + match_p + line.subrange(end, line.len() as int)
}

/// `out` is a correct formatting of the match `[start, end)` on `line`
/// numbered `lineno`: its fragments are the decimal line number painted
/// blue, the decimal display column painted cyan and the matched bytes
/// painted red, assembled by `rendered`.
pub open spec fn is_formatted(line: Seq<u8>, lineno: nat, start: int, end: int, out: Seq<u8>) -> bool {
    exists|num_p: Seq<u8>, col_p: Seq<u8>, match_p: Seq<u8>|
        painted(esc_blue(), dec_digits(lineno), num_p)
        && painted(esc_cyan(), dec_digits(display_column(line, start)), col_p)
        && painted(esc_red(), line.subrange(start, end), match_p)
        && out == rendered(line, start, end, num_p, col_p, match_p)
}

/// Formatting is a pure function of the matched line, the line number,
/// the match range and the three painting outcomes: two display lines
/// assembled from the same values are the same string. (The painting
/// itself is the one non-functional input: whether styling applies is
/// the terminal's business, not the formatter's.)
pub proof fn lemma_format_deterministic(
    line: Seq<u8>,
    start: int,
    end: int,
    num_p: Seq<u8>,
    col_p: Seq<u8>,
    match_p: Seq<u8>,
    out1: Seq<u8>,
    out2: Seq<u8>,
)
    requires
        out1 == rendered(line, start, end, num_p, col_p, match_p),
        out2 == rendered(line, start, end, num_p, col_p, match_p),
    ensures
        out1 == out2,
{
}

/// Formats one matched line for display. Pure but for the painting,
/// which may or may not apply styling; everything else about the result
/// is pinned by `is_formatted`.
pub fn format_line(line: &Vec<u8>, lineno: usize, start: usize, end: usize) -> (out: Vec<u8>)
    requires
        start <= end <= line@.len(),
        line@.len() < usize::MAX,
        lineno >= 1,
    ensures
        is_formatted(line@, lineno as nat, start as int, end as int, out@),
{
    let num = to_decimal(lineno);
    let cc = char_count_upto(line, start);
    proof {
        assert(line@.take(start as int) =~= line@.subrange(0, start as int));
    }
    let col = to_decimal(cc + 1);
    let prefix = sub_vec(line, 0, start);
    let matched = sub_vec(line, start, end);
    let suffix = sub_vec(line, end, line.len());
    let num_p = paint_blue(&num);
    let col_p = paint_cyan(&col);
    let match_p = paint_red(&matched);
    let mut out = pad_left(&num_p, 6);
    out.push(58u8);
    let col_pad = pad_right(&col_p, 3);
    extend_bytes(&mut out, &col_pad);
    out.push(32u8);
    extend_bytes(&mut out, &prefix);
    extend_bytes(&mut out, &match_p);
    extend_bytes(&mut out, &suffix);
    proof {
        assert(out@ =~= rendered(
            line@,
            start as int,
            end as int,
            num_p@,
            col_p@,
            match_p@,
        ));
        assert(painted(esc_cyan(), dec_digits(display_column(line@, start as int)), col_p@));
        assert(is_formatted(line@, lineno as nat, start as int, end as int, out@));
    }
    out
}

} // verus!
