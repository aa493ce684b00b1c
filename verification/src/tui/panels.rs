//! Text layout used by the panels: splitting log messages into fixed-width pieces and
//! counting wrapped lines.

use vstd::prelude::*;
use crate::text::{chars_of, string_of};

verus! {

/// `s` cut into consecutive pieces of `width` characters, the last one possibly shorter;
/// no piece for the empty text.
pub open spec fn chunks(s: Seq<char>, width: nat) -> Seq<Seq<char>>
    decreases s.len(),
{
    if s.len() == 0 || width == 0 {
        Seq::<Seq<char>>::empty()
    } else if s.len() <= width {
        seq![s]
    } else {
        seq![s.take(width as int)] + chunks(s.skip(width as int), width)
    }
}

/// Splits `s` into pieces of at most `width` characters, in order (no pieces for the
/// empty text, whatever the width).
pub fn char_chunks(s: &str, width: usize) -> (r: Vec<String>)
    requires
        width > 0 || s@.len() == 0,
    ensures
        r@.map_values(|x: String| x@) == chunks(s@, width as nat),
{
    let chars = chars_of(s);
    let n = chars.len();
    let mut r: Vec<String> = Vec::new();
    let mut start: usize = 0;
    proof {
        assert(s@.skip(0) =~= s@);
        assert(r@.map_values(|x: String| x@) =~= Seq::<Seq<char>>::empty());
        assert(Seq::<Seq<char>>::empty() + chunks(s@, width as nat) =~= chunks(s@, width as nat));
    }
    while start < n
        invariant
            width > 0 || n == 0,
            n == chars@.len(),
            chars@ == s@,
            start <= n,
            r@.map_values(|x: String| x@) + chunks(s@.skip(start as int), width as nat) == chunks(s@, width as nat),
        decreases n - start,
    {
        let rest = n - start;
        let end = if rest <= width { n } else { start + width };
        let piece = string_of(&chars.as_slice()[start..end]);
        let ghost before = r@.map_values(|x: String| x@);
        let ghost t = s@.skip(start as int);
        r.push(piece);
        proof {
            assert(chars@.subrange(start as int, end as int) =~= t.take((end - start) as int));
            assert(r@.map_values(|x: String| x@) =~= before.push(piece@));
            if rest <= width {
                assert(t.take((end - start) as int) =~= t);
                assert(s@.skip(end as int) =~= Seq::<char>::empty());
                assert(chunks(t, width as nat) == seq![t]);
            } else {
                assert(t.skip(width as int) =~= s@.skip(end as int));
            }
            assert(before.push(piece@) + chunks(s@.skip(end as int), width as nat) =~= before + chunks(t, width as nat));
        }
        start = end;
    }
    proof {
        assert(s@.skip(n as int) =~= Seq::<char>::empty());
        assert(r@.map_values(|x: String| x@) + Seq::<Seq<char>>::empty() =~= r@.map_values(|x: String| x@));
    }
    r
}

/// How many rows a line of `w` display columns takes at `width` columns: at least one,
/// at most `u16::MAX`.
pub open spec fn rows_of(w: nat, width: nat) -> nat {
    if w == 0 {
        1
    } else {
        let q = (w + width - 1) / (width as int);
        if q > u16::MAX { u16::MAX as nat } else { q as nat }
    }
}

/// The rows that lines of the given display widths take at `width` columns, summed with
/// saturation at `u16::MAX`.
pub open spec fn total_rows(widths: Seq<usize>, width: nat) -> nat
    decreases widths.len(),
{
    if widths.len() == 0 {
        0
    } else {
        let s = total_rows(widths.drop_last(), width) + rows_of(widths.last() as nat, width);
        if s > u16::MAX { u16::MAX as nat } else { s }
    }
}

/// The number of rows that lines of the given display widths take once wrapped at
/// `visible_width` columns; with no width at all, one row per line (at most `u16::MAX`).
pub fn wrapped_line_count(widths: &[usize], visible_width: u16) -> (r: u16)
    ensures
        r == if visible_width == 0 {
            if widths@.len() > u16::MAX { u16::MAX as nat } else { widths@.len() }
        } else {
            total_rows(widths@, visible_width as nat)
        },
{
    let n = widths.len();
    if visible_width == 0 {
        return if n > u16::MAX as usize { u16::MAX } else { n as u16 };
    }
    let width = visible_width as usize;
    let mut total: u16 = 0;
    let mut i: usize = 0;
    while i < n
        invariant
            n == widths@.len(),
            width == visible_width as usize,
            width > 0,
            i <= n,
            total == total_rows(widths@.take(i as int), width as nat),
        decreases n - i,
    {
        let w = widths[i];
        let rows: u16 = if w == 0 {
            1
        } else {
            let q = if w % width == 0 {
                w / width
            } else {
                proof {
                    assert(w / width < w) by (nonlinear_arith)
                        requires
                            width > 1,
                            w >= 1;
                }
                w / width + 1
            };
            proof {
                assert((w + width - 1) / (width as int) == q) by (nonlinear_arith)
                    requires
                        width > 0,
                        q == w / width + if w % width == 0 { 0int } else { 1int },
                        w >= 1;
            }
            if q > u16::MAX as usize { u16::MAX } else { q as u16 }
        };
        proof {
            assert(widths@.take(i + 1).drop_last() =~= widths@.take(i as int));
            assert(widths@.take(i + 1).last() == w);
        }
        total = total.saturating_add(rows);
        i = i + 1;
    }
    proof {
        assert(widths@.take(n as int) =~= widths@);
    }
    total
}

} // verus!
