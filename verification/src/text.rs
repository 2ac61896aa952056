//! Byte-level text helpers: UTF-8 character counting, decimal rendering,
//! padding, and concatenation. A line of text is handled as its UTF-8
//! bytes; a "character" is a byte at which a UTF-8 code point starts.

use vstd::prelude::*;

verus! {

/// True for the bytes at which a UTF-8 code point starts (everything but
/// the continuation bytes `0b10xx_xxxx`).
pub open spec fn is_char_start(b: u8) -> bool {
    b < 128 || b >= 192
}

/// The number of UTF-8 code points that start within `s`. On the encoding
/// of a string this is the string's character count.
pub open spec fn char_count(s: Seq<u8>) -> nat
    decreases s.len(),
{
    if s.len() == 0 {
        0
    } else {
        char_count(s.drop_last()) + if is_char_start(s.last()) {
            1nat
        } else {
            0nat
        }
    }
}

/// Counts the characters that start in `v[..upto]`.
pub fn char_count_upto(v: &Vec<u8>, upto: usize) -> (n: usize)
    requires
        upto <= v.len(),
    ensures
        n == char_count(v@.take(upto as int)),
        n <= upto,
{
    let mut n: usize = 0;
    let mut i: usize = 0;
    while i < upto
        invariant
            i <= upto <= v@.len(),
            n == char_count(v@.take(i as int)),
            n <= i,
        decreases upto - i,
    {
        let b = v[i];
        proof {
            assert(v@.take(i + 1).drop_last() =~= v@.take(i as int));
            assert(v@.take(i + 1).last() == v@[i as int]);
        }
        if b < 128 || b >= 192 {
            n = n + 1;
        }
        i = i + 1;
    }
    n
}

/// Appends a copy of `src` to `dst`.
pub fn extend_bytes(dst: &mut Vec<u8>, src: &Vec<u8>)
    ensures
        final(dst)@ == old(dst)@ + src@,
{
    let mut j: usize = 0;
    while j < src.len()
        invariant
            j <= src@.len(),
            dst@ == old(dst)@ + src@.take(j as int),
        decreases src@.len() - j,
    {
        dst.push(src[j]);
        proof {
            assert(src@.take(j + 1) =~= src@.take(j as int) + seq![src@[j as int]]);
        }
        j = j + 1;
    }
    proof {
        assert(src@.take(src@.len() as int) =~= src@);
    }
}

/// Copies the bytes `v[lo..hi]` out into a fresh vector.
pub fn sub_vec(v: &Vec<u8>, lo: usize, hi: usize) -> (r: Vec<u8>)
    requires
        lo <= hi <= v.len(),
    ensures
        r@ == v@.subrange(lo as int, hi as int),
{
    let mut r: Vec<u8> = Vec::new();
    let mut j: usize = lo;
    while j < hi
        invariant
            lo <= j <= hi <= v@.len(),
            r@ == v@.subrange(lo as int, j as int),
        decreases hi - j,
    {
        r.push(v[j]);
        proof {
            assert(v@.subrange(lo as int, j + 1) =~= v@.subrange(lo as int, j as int)
                + seq![v@[j as int]]);
        }
        j = j + 1;
    }
    r
}

/// The decimal digits of `n`, most significant first, as ASCII bytes.
pub open spec fn dec_digits(n: nat) -> Seq<u8>
    decreases n,
{
    if n < 10 {
        seq![(48 + n) as u8]
    } else {
        dec_digits(n / 10) + seq![(48 + n % 10) as u8]
    }
}

/// Renders `n` in decimal, as its ASCII digits.
pub fn to_decimal(n: usize) -> (r: Vec<u8>)
    ensures
        r@ == dec_digits(n as nat),
{
    let mut out: Vec<u8> = Vec::new();
    let mut m: usize = n;
    out.push((48 + m % 10) as u8);
    m = m / 10;
    while m > 0
        invariant
            out@.len() >= 1,
            m > 0 ==> dec_digits(n as nat) == dec_digits(m as nat) + out@,
            m == 0 ==> dec_digits(n as nat) == out@,
        decreases m,
    {
        let d: u8 = (48 + m % 10) as u8;
        let ghost prev = out@;
        out.insert(0, d);
        proof {
            assert(out@ =~= seq![d] + prev);
            assert(dec_digits(m as nat) == dec_digits((m / 10) as nat) + seq![d] || m < 10);
            if m < 10 {
                assert(dec_digits(m as nat) == seq![d]);
            }
        }
        m = m / 10;
    }
    out
}

/// `n` space bytes.
pub open spec fn spaces(n: nat) -> Seq<u8>
    decreases n,
{
    if n == 0 {
        Seq::empty()
    } else {
        spaces((n - 1) as nat) + seq![32u8]
    }
}

/// `s` padded on the left with spaces up to width `w` (right alignment);
/// unchanged if it is already that wide.
pub open spec fn pad_left_spec(s: Seq<u8>, w: nat) -> Seq<u8> {
    if s.len() >= w {
        s
    } else {
        spaces((w - s.len()) as nat) + s
    }
}

/// `s` padded on the right with spaces up to width `w` (left alignment);
/// unchanged if it is already that wide.
pub open spec fn pad_right_spec(s: Seq<u8>, w: nat) -> Seq<u8> {
    if s.len() >= w {
        s
    } else {
        s + spaces((w - s.len()) as nat)
    }
}

/// Right-aligns `v` in a field of `w` spaces.
pub fn pad_left(v: &Vec<u8>, w: usize) -> (r: Vec<u8>)
    ensures
        r@ == pad_left_spec(v@, w as nat),
{
    let mut r: Vec<u8> = Vec::new();
    if v.len() < w {
        let pad = w - v.len();
        let mut i: usize = 0;
        while i < pad
            invariant
                i <= pad,
                r@ == spaces(i as nat),
            decreases pad - i,
        {
            r.push(32u8);
            i = i + 1;
        }
    }
    extend_bytes(&mut r, v);
    r
}

/// Left-aligns `v` in a field of `w` spaces.
pub fn pad_right(v: &Vec<u8>, w: usize) -> (r: Vec<u8>)
    ensures
        r@ == pad_right_spec(v@, w as nat),
{
    let mut r: Vec<u8> = Vec::new();
    extend_bytes(&mut r, v);
    if v.len() < w {
        let pad = w - v.len();
        let mut i: usize = 0;
        while i < pad
            invariant
                i <= pad,
                r@ == v@ + spaces(i as nat),
            decreases pad - i,
        {
            r.push(32u8);
            i = i + 1;
        }
    }
    proof {
        if v@.len() >= w {
            assert(r@ =~= v@);
        }
    }
    r
}

/// The views of a sequence of byte vectors.
pub open spec fn views(s: Seq<Vec<u8>>) -> Seq<Seq<u8>> {
    s.map_values(|v: Vec<u8>| v@)
}

/// `s` without one trailing carriage return, if it ends in one.
pub open spec fn strip_cr(s: Seq<u8>) -> Seq<u8> {
    if s.len() > 0 && s.last() == 13 {
        s.drop_last()
    } else {
        s
    }
}

/// The index of the first newline byte in `s`, or `s.len()` if there is
/// none.
pub open spec fn first_nl(s: Seq<u8>) -> int
    decreases s.len(),
{
    if s.len() == 0 {
        0
    } else if s[0] == 10 {
        0
    } else {
        1 + first_nl(s.subrange(1, s.len() as int))
    }
}

pub proof fn lemma_first_nl(s: Seq<u8>)
    ensures
        0 <= first_nl(s) <= s.len(),
        first_nl(s) < s.len() ==> s[first_nl(s)] == 10,
        forall|j: int| 0 <= j < first_nl(s) ==> s[j] != 10,
    decreases s.len(),
{
    if s.len() == 0 {
    } else if s[0] == 10 {
    } else {
        let t = s.subrange(1, s.len() as int);
        lemma_first_nl(t);
        assert forall|j: int| 0 <= j < first_nl(s) implies s[j] != 10 by {
            if j >= 1 {
                assert(t[j - 1] == s[j]);
            }
        }
        if first_nl(s) < s.len() {
            assert(t[first_nl(s) - 1] == s[first_nl(s)]);
        }
    }
}

pub proof fn lemma_first_nl_none(s: Seq<u8>)
    requires
        forall|j: int| 0 <= j < s.len() ==> s[j] != 10,
    ensures
        first_nl(s) == s.len(),
    decreases s.len(),
{
    if s.len() == 0 {
    } else {
        let t = s.subrange(1, s.len() as int);
        assert forall|j: int| 0 <= j < t.len() implies t[j] != 10 by {
            assert(t[j] == s[j + 1]);
        }
        lemma_first_nl_none(t);
    }
}

pub proof fn lemma_first_nl_concat(a: Seq<u8>, b: Seq<u8>)
    requires
        forall|j: int| 0 <= j < a.len() ==> a[j] != 10,
    ensures
        first_nl(a + seq![10u8] + b) == a.len(),
    decreases a.len(),
{
    let s = a + seq![10u8] + b;
    if a.len() == 0 {
        assert(s[0] == 10);
    } else {
        assert(s[0] == a[0]);
        let t = a.subrange(1, a.len() as int);
        assert forall|j: int| 0 <= j < t.len() implies t[j] != 10 by {
            assert(t[j] == a[j + 1]);
        }
        lemma_first_nl_concat(t, b);
        assert(s.subrange(1, s.len() as int) =~= t + seq![10u8] + b);
    }
}

/// The lines of `s`: maximal stretches between newline bytes, each
/// newline-terminated line with one trailing carriage return stripped, a
/// final unterminated stretch kept verbatim, and no final empty line when
/// `s` ends in a newline.
pub open spec fn split_lines_spec(s: Seq<u8>) -> Seq<Seq<u8>>
    decreases s.len(),
{
    if s.len() == 0 {
        Seq::empty()
    } else {
        let k = first_nl(s);
        if 0 <= k && k < s.len() {
            seq![strip_cr(s.subrange(0, k))] + split_lines_spec(
                s.subrange(k + 1, s.len() as int),
            )
        } else {
            seq![s]
        }
    }
}

pub proof fn lemma_split_step(a: Seq<u8>, b: Seq<u8>)
    requires
        forall|j: int| 0 <= j < a.len() ==> a[j] != 10,
    ensures
        split_lines_spec(a + seq![10u8] + b) == seq![strip_cr(a)] + split_lines_spec(b),
{
    let s = a + seq![10u8] + b;
    lemma_first_nl_concat(a, b);
    assert(s.subrange(0, a.len() as int) =~= a);
    assert(s.subrange(a.len() as int + 1, s.len() as int) =~= b);
}

pub proof fn lemma_split_whole(a: Seq<u8>)
    requires
        forall|j: int| 0 <= j < a.len() ==> a[j] != 10,
        a.len() > 0,
    ensures
        split_lines_spec(a) == seq![a],
{
    lemma_first_nl_none(a);
}

/// Every line is at most as long as the text it was split from.
pub proof fn lemma_split_line_lens(s: Seq<u8>)
    ensures
        forall|k: int| 0 <= k < split_lines_spec(s).len()
            ==> (#[trigger] split_lines_spec(s)[k]).len() <= s.len(),
    decreases s.len(),
{
    if s.len() == 0 {
    } else {
        let k = first_nl(s);
        lemma_first_nl(s);
        if k < s.len() {
            let rest = s.subrange(k + 1, s.len() as int);
            lemma_split_line_lens(rest);
            assert forall|j: int| 0 <= j < split_lines_spec(s).len() implies (
            #[trigger] split_lines_spec(s)[j]).len() <= s.len() by {
                if j >= 1 {
                    assert(split_lines_spec(s)[j] == split_lines_spec(rest)[j - 1]);
                }
            }
        }
    }
}

/// Splits `input` into its lines: stretches between newline bytes, each
/// newline-terminated line losing one trailing carriage return, a final
/// unterminated stretch kept verbatim.
pub fn split_lines(input: &Vec<u8>) -> (r: Vec<Vec<u8>>)
    ensures
        views(r@) == split_lines_spec(input@),
{
    let mut r: Vec<Vec<u8>> = Vec::new();
    let mut cur: Vec<u8> = Vec::new();
    let mut i: usize = 0;
    proof {
        assert(views(r@) =~= Seq::<Seq<u8>>::empty());
        assert(cur@ + input@.subrange(0, input@.len() as int) =~= input@);
        assert(views(r@) + split_lines_spec(input@) =~= split_lines_spec(input@));
    }
    while i < input.len()
        invariant
            i <= input@.len(),
            forall|j: int| 0 <= j < cur@.len() ==> cur@[j] != 10,
            split_lines_spec(input@) == views(r@) + split_lines_spec(
                cur@ + input@.subrange(i as int, input@.len() as int),
            ),
        decreases input@.len() - i,
    {
        let b = input[i];
        let ghost tail = input@.subrange(i as int, input@.len() as int);
        let ghost tail1 = input@.subrange(i + 1, input@.len() as int);
        if b == 10 {
            let mut line = cur;
            cur = Vec::new();
            let ghost a = line@;
            proof {
                assert(a + tail =~= a + seq![10u8] + tail1);
                lemma_split_step(a, tail1);
            }
            if line.len() > 0 && line[line.len() - 1] == 13 {
                line.pop();
            }
            proof {
                assert(line@ == strip_cr(a));
            }
            let ghost prev = r@;
            r.push(line);
            proof {
                assert(views(r@) =~= views(prev) + seq![strip_cr(a)]);
                assert(Seq::<u8>::empty() + tail1 =~= tail1);
                assert(split_lines_spec(input@) =~= views(r@) + split_lines_spec(
                    cur@ + tail1,
                ));
            }
        } else {
            let ghost oc = cur@;
            cur.push(b);
            proof {
                assert(cur@ + tail1 =~= oc + tail);
            }
        }
        i = i + 1;
    }
    proof {
        assert(cur@ + input@.subrange(input@.len() as int, input@.len() as int) =~= cur@);
    }
    if cur.len() > 0 {
        proof {
            lemma_split_whole(cur@);
        }
        r.push(cur);
    }
    proof {
        assert(views(r@) =~= split_lines_spec(input@));
    }
    r
}

/// The members of `s` joined by single newline bytes.
pub open spec fn join_nl(s: Seq<Vec<u8>>) -> Seq<u8>
    decreases s.len(),
{
    if s.len() == 0 {
        Seq::empty()
    } else if s.len() == 1 {
        s[0]@
    } else {
        join_nl(s.drop_last()) + seq![10u8] + s.last()@
    }
}

/// Joins `pieces` with single newline bytes.
pub fn join_lines(pieces: &Vec<Vec<u8>>) -> (r: Vec<u8>)
    ensures
        r@ == join_nl(pieces@),
{
    let mut r: Vec<u8> = Vec::new();
    if pieces.len() == 0 {
        return r;
    }
    extend_bytes(&mut r, &pieces[0]);
    let mut i: usize = 1;
    while i < pieces.len()
        invariant
            1 <= i <= pieces@.len(),
            r@ == join_nl(pieces@.take(i as int)),
        decreases pieces@.len() - i,
    {
        r.push(10u8);
        extend_bytes(&mut r, &pieces[i]);
        proof {
            assert(pieces@.take(i + 1).drop_last() =~= pieces@.take(i as int));
            assert(pieces@.take(i + 1).last() == pieces@[i as int]);
        }
        i = i + 1;
    }
    proof {
        assert(pieces@.take(pieces@.len() as int) =~= pieces@);
    }
    r
}

} // verus!
