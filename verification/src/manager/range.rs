//! Parsing of a server offset range written as `[START,END]`.

use vstd::prelude::*;
use crate::text::{
    chars_of, trim, trim_bounds, fields, split_bounds, parse_u32, parse_u32_in, decimal, all_ws, lemma_trim_padded,
    lemma_digit_not_mark, lemma_parse_decimal, lemma_decimal_reads_back, lemma_fields_extend, lemma_fields_sep,
};
use crate::manager::errors::ManagerError;

verus! {

/// The text between the brackets of `[...]` after trimming, if the trimmed text has them.
pub open spec fn bracketed(raw: Seq<char>) -> Option<Seq<char>> {
    let t = trim(raw);
    if t.len() >= 2 && t[0] == '[' && t[t.len() - 1] == ']' {
        Some(t.subrange(1, t.len() - 1))
    } else {
        None
    }
}

/// The range that [`parse_server_range`] accepts `raw` as, if it accepts it.
pub open spec fn range_value(raw: Seq<char>) -> Option<(u32, u32)> {
    match bracketed(raw) {
        None => None,
        Some(inner) => {
            let f = fields(inner, ',');
            if f.len() != 2 {
                None
            } else {
                match (parse_u32(trim(f[0])), parse_u32(trim(f[1]))) {
                    (Some(a), Some(b)) => Some((a, b)),
                    _ => None,
                }
            }
        },
    }
}

/// Parses a `[START,END]` string into a server offset range: surrounding whitespace is
/// ignored, the text between the brackets must hold exactly two comma-separated values,
/// and each value (trimmed) must be a 32-bit unsigned number.
pub fn parse_server_range(raw: &str) -> (r: Result<(u32, u32), ManagerError>)
    ensures
        match range_value(raw@) {
            Some(v) => r == Ok::<(u32, u32), ManagerError>(v),
            None => r is Err,
        },
        match bracketed(raw@) {
            None => r matches Err(ManagerError::InvalidRangeFormat { raw: x }) && x@ == raw@,
            Some(inner) => {
                let f = fields(inner, ',');
                if f.len() != 2 {
                    r matches Err(ManagerError::RangeValueCount { count: c }) && c == f.len()
                } else {
                    match (parse_u32(trim(f[0])), parse_u32(trim(f[1]))) {
                        (None, _) => r matches Err(ManagerError::InvalidStartValue),
                        (Some(_), None) => r matches Err(ManagerError::InvalidEndValue),
                        (Some(a), Some(b)) => r == Ok::<(u32, u32), ManagerError>((a, b)),
                    }
                }
            },
        },
{
    let s = chars_of(raw);
    let n = s.len();
    let (a, b) = trim_bounds(&s, 0, n);
    proof {
        assert(s@.subrange(0, n as int) =~= raw@);
    }
    let ghost t = s@.subrange(a as int, b as int);
    if b - a < 2 || s[a] != '[' || s[b - 1] != ']' {
        return Err(ManagerError::InvalidRangeFormat { raw: raw.to_owned() });
    }
    let lo = a + 1;
    let hi = b - 1;
    proof {
        assert(s@.subrange(lo as int, hi as int) =~= t.subrange(1, t.len() - 1));
    }
    let parts = split_bounds(&s, lo, hi, ',');
    if parts.len() != 2 {
        return Err(ManagerError::RangeValueCount { count: parts.len() });
    }
    let (p0, q0) = parts[0];
    let (p1, q1) = parts[1];
    let (x0, y0) = trim_bounds(&s, p0, q0);
    let (x1, y1) = trim_bounds(&s, p1, q1);
    let start = match parse_u32_in(&s, x0, y0) {
        Some(v) => v,
        None => return Err(ManagerError::InvalidStartValue),
    };
    let end = match parse_u32_in(&s, x1, y1) {
        Some(v) => v,
        None => return Err(ManagerError::InvalidEndValue),
    };
    Ok((start, end))
}

/// A range written `[start,end]` in decimal, with any whitespace before and after the
/// brackets and around each number.
pub open spec fn range_text(start: u32, end: u32, w: Seq<Seq<char>>) -> Seq<char> {
    w[0] + "["@ + w[1] + decimal(start as nat) + w[2] + ","@ + w[3] + decimal(end as nat) + w[4] + "]"@ + w[5]
}

proof fn lemma_padded_number(w1: Seq<char>, n: u32, w2: Seq<char>)
    requires
        all_ws(w1),
        all_ws(w2),
    ensures
        parse_u32(trim(w1 + decimal(n as nat) + w2)) == Some(n),
        !(w1 + decimal(n as nat) + w2).contains(','),
{
    let d = decimal(n as nat);
    lemma_decimal_reads_back(n as nat);
    lemma_digit_not_mark(d[0]);
    lemma_digit_not_mark(d.last());
    lemma_trim_padded(w1, d, w2);
    lemma_parse_decimal(n);
    let p = w1 + d + w2;
    if p.contains(',') {
        let i = choose|i: int| 0 <= i < p.len() && p[i] == ',';
        if i < w1.len() {
            assert(p[i] == w1[i]);
        } else if i < w1.len() + d.len() {
            assert(p[i] == d[i - w1.len()]);
            lemma_digit_not_mark(d[i - w1.len()]);
        } else {
            assert(p[i] == w2[i - w1.len() - d.len()]);
        }
    }
}

/// A range written `[start,end]`, with any whitespace around the brackets and around each
/// number, reads back as `(start, end)`.
pub proof fn law_range_text_round_trip(start: u32, end: u32, w: Seq<Seq<char>>)
    requires
        w.len() == 6,
        forall|i: int| 0 <= i < 6 ==> all_ws(#[trigger] w[i]),
    ensures
        range_value(range_text(start, end, w)) == Some((start, end)),
{
    reveal_strlit("[");
    reveal_strlit(",");
    reveal_strlit("]");
    assert(all_ws(w[0]) && all_ws(w[1]) && all_ws(w[2]) && all_ws(w[3]) && all_ws(w[4]) && all_ws(w[5]));
    let p = w[1] + decimal(start as nat) + w[2];
    let q = w[3] + decimal(end as nat) + w[4];
    lemma_padded_number(w[1], start, w[2]);
    lemma_padded_number(w[3], end, w[4]);
    let inner = p.push(',') + q;
    let core = "["@ + inner + "]"@;
    assert(range_text(start, end, w) =~= w[0] + core + w[5]);
    lemma_trim_padded(w[0], core, w[5]);
    assert(core.subrange(1, core.len() - 1) =~= inner);
    let e = Seq::<char>::empty();
    lemma_fields_extend(e, p, ',');
    assert(e + p =~= p);
    assert(fields(p, ',') =~= seq![p]);
    lemma_fields_sep(p, ',');
    lemma_fields_extend(p.push(','), q, ',');
    assert(fields(inner, ',') =~= seq![p, q]);
}

} // verus!
