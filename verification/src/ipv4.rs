//! IPv4 addresses and networks: dotted-quad text, network arithmetic, and parsing of
//! `a.b.c.d/len` subnets through `ipnet`.

use vstd::prelude::*;
use vstd::arithmetic::power2::{pow2, lemma_pow2_pos, lemma_pow2_adds, lemma_pow2_unfold};
use crate::text::{
    decimal, push_decimal, push_char, all_digits, digits_value, fields, split_bounds,
    parse_u32_in, parse_u32, is_digit,
};

verus! {

/// Dotted-quad notation of an address, as `Ipv4Addr`'s `Display` writes it.
pub open spec fn ipv4_text(a: u32) -> Seq<char> {
    decimal((a / 0x100_0000) as nat) + seq!['.'] + decimal(((a / 0x1_0000) % 256) as nat) + seq!['.']
        + decimal(((a / 0x100) % 256) as nat) + seq!['.'] + decimal((a % 256) as nat)
}

/// The address with the four given octets, most significant first.
pub open spec fn from_octets(a: nat, b: nat, c: nat, d: nat) -> nat {
    a * 0x100_0000 + b * 0x1_0000 + c * 0x100 + d
}

/// Whether `p` is a valid octet in dotted-quad notation: one to three digits, no leading
/// zero, value at most 255.
pub open spec fn octet_ok(p: Seq<char>) -> bool {
    1 <= p.len() <= 3 && all_digits(p) && !(p.len() > 1 && p[0] == '0') && digits_value(p) <= 255
}

/// What parsing `s` as an `Ipv4Addr` yields: exactly four dot-separated octets.
pub open spec fn parse_ipv4(s: Seq<char>) -> Option<u32> {
    let f = fields(s, '.');
    if f.len() == 4 && octet_ok(f[0]) && octet_ok(f[1]) && octet_ok(f[2]) && octet_ok(f[3]) {
        Some(from_octets(digits_value(f[0]), digits_value(f[1]), digits_value(f[2]), digits_value(f[3])) as u32)
    } else {
        None
    }
}

/// Writes `a` in dotted-quad notation.
pub fn format_ipv4(a: u32) -> (r: String)
    ensures
        r@ == ipv4_text(a),
{
    let mut s = String::new();
    push_decimal(&mut s, (a / 0x100_0000) as u64);
    push_char(&mut s, '.');
    push_decimal(&mut s, ((a / 0x1_0000) % 256) as u64);
    push_char(&mut s, '.');
    push_decimal(&mut s, ((a / 0x100) % 256) as u64);
    push_char(&mut s, '.');
    push_decimal(&mut s, (a % 256) as u64);
    proof {
        assert(s@ =~= ipv4_text(a));
    }
    s
}

fn octet_value(s: &Vec<char>, lo: usize, hi: usize) -> (r: Option<u32>)
    requires
        lo <= hi <= s@.len(),
    ensures
        match r {
            Some(v) => octet_ok(s@.subrange(lo as int, hi as int)) && v == digits_value(s@.subrange(lo as int, hi as int)),
            None => !octet_ok(s@.subrange(lo as int, hi as int)),
        },
{
    let ghost p = s@.subrange(lo as int, hi as int);
    if hi - lo < 1 || hi - lo > 3 {
        return None;
    }
    if s[lo] == '+' {
        proof {
            assert(!is_digit(p[0]));
        }
        return None;
    }
    if hi - lo > 1 && s[lo] == '0' {
        return None;
    }
    match parse_u32_in(s, lo, hi) {
        Some(v) => {
            proof {
                assert(p[0] != '+');
            }
            if v <= 255 {
                Some(v)
            } else {
                None
            }
        },
        None => {
            proof {
                assert(p[0] != '+');
            }
            None
        },
    }
}

/// Parses dotted-quad text as `Ipv4Addr`'s `FromStr` does.
pub fn parse_ipv4_text(text: &str) -> (r: Option<u32>)
    ensures
        r == parse_ipv4(text@),
{
    let s = crate::text::chars_of(text);
    let n = s.len();
    let parts = split_bounds(&s, 0, n, '.');
    proof {
        assert(s@.subrange(0, n as int) =~= text@);
    }
    if parts.len() != 4 {
        return None;
    }
    let (a0, b0) = parts[0];
    let (a1, b1) = parts[1];
    let (a2, b2) = parts[2];
    let (a3, b3) = parts[3];
    let o0 = octet_value(&s, a0, b0);
    let o1 = octet_value(&s, a1, b1);
    let o2 = octet_value(&s, a2, b2);
    let o3 = octet_value(&s, a3, b3);
    proof {
        let f = fields(text@, '.');
        assert(s@.subrange(parts@[0].0 as int, parts@[0].1 as int) == f[0]);
        assert(s@.subrange(parts@[1].0 as int, parts@[1].1 as int) == f[1]);
        assert(s@.subrange(parts@[2].0 as int, parts@[2].1 as int) == f[2]);
        assert(s@.subrange(parts@[3].0 as int, parts@[3].1 as int) == f[3]);
    }
    match (o0, o1, o2, o3) {
        (Some(v0), Some(v1), Some(v2), Some(v3)) => {
            Some(v0 * 0x100_0000 + v1 * 0x1_0000 + v2 * 0x100 + v3)
        },
        _ => None,
    }
}

} // verus!

verus! {

/// An IPv4 network given by an address and a prefix length (the address need not be
/// the network address itself; see [`Ipv4Net::trunc`]).
#[derive(Clone, Copy, Debug, PartialEq, Eq, Structural)]
pub struct Ipv4Net {
    pub addr: u32,
    pub prefix_len: u8,
}

/// Number of addresses in a network with prefix length `p`.
pub open spec fn block_size(p: nat) -> nat {
    pow2((32 - p) as nat)
}

/// The network address of `addr` under prefix length `p`: the host bits cleared.
pub open spec fn network_of(addr: u32, p: nat) -> nat {
    (addr as int - (addr as int) % (block_size(p) as int)) as nat
}

/// Text of a network: address, `/`, prefix length.
pub open spec fn net_text(n: Ipv4Net) -> Seq<char> {
    ipv4_text(n.addr) + seq!['/'] + decimal(n.prefix_len as nat)
}

pub proof fn lemma_block_bounds(p: nat)
    requires
        p <= 32,
    ensures
        1 <= block_size(p) <= 0x1_0000_0000,
        0x1_0000_0000int % (block_size(p) as int) == 0,
{
    lemma_pow2_pos((32 - p) as nat);
    lemma_pow2_adds((32 - p) as nat, p);
    vstd::arithmetic::power2::lemma2_to64();
    vstd::arithmetic::power2::lemma_pow2_pos(p);
    let b = block_size(p) as int;
    let q = pow2(p) as int;
    assert(b * q == 0x1_0000_0000);
    vstd::arithmetic::div_mod::lemma_mod_multiples_basic(q, b);
    assert((q * b) % b == 0);
    assert(q * b == b * q) by (nonlinear_arith);
    assert(q >= 1);
    assert(b <= b * q) by (nonlinear_arith)
        requires q >= 1, b >= 1;
}

/// The network address and the whole block after it stay within the address space.
pub proof fn lemma_network_fits(addr: u32, p: nat)
    requires
        p <= 32,
    ensures
        network_of(addr, p) + block_size(p) <= 0x1_0000_0000,
        network_of(addr, p) <= addr,
{
    lemma_block_bounds(p);
    let b = block_size(p) as int;
    let a = addr as int;
    let x = a - a % b;
    vstd::arithmetic::div_mod::lemma_fundamental_div_mod(a, b);
    vstd::arithmetic::div_mod::lemma_fundamental_div_mod(0x1_0000_0000, b);
    let qx = a / b;
    let qy = 0x1_0000_0000int / b;
    assert(x == b * qx);
    assert(0x1_0000_0000 == b * qy);
    assert(a % b >= 0) by {
        vstd::arithmetic::div_mod::lemma_mod_pos_bound(a, b);
    }
    assert(x < 0x1_0000_0000);
    assert(qx < qy) by (nonlinear_arith)
        requires x == b * qx, 0x1_0000_0000 == b * qy, x < 0x1_0000_0000, b >= 1;
    assert(x + b <= 0x1_0000_0000) by (nonlinear_arith)
        requires x == b * qx, 0x1_0000_0000 == b * qy, qx < qy, b >= 1;
}

/// A prefix length between 1 and 31 leaves a block of at least two and at most 2^31
/// addresses.
pub proof fn lemma_block_host_range(p: nat)
    requires
        1 <= p <= 31,
    ensures
        2 <= block_size(p) <= 0x8000_0000,
{
    vstd::arithmetic::power2::lemma2_to64();
    vstd::arithmetic::power2::lemma_pow2_unfold(1);
    if 32 - p > 1 {
        vstd::arithmetic::power2::lemma_pow2_strictly_increases(1, (32 - p) as nat);
    }
    if 32 - p < 31 {
        vstd::arithmetic::power2::lemma_pow2_strictly_increases((32 - p) as nat, 31);
    }
}

/// `pow2(32 - p)` computed by doubling.
pub fn block_of(p: u8) -> (r: u64)
    requires
        p <= 32,
    ensures
        r == block_size(p as nat),
{
    let k = 32 - p;
    let mut r: u64 = 1;
    let mut i: u8 = 0;
    proof {
        vstd::arithmetic::power2::lemma2_to64();
    }
    while i < k
        invariant
            k == 32 - p,
            i <= k,
            r == pow2(i as nat),
            r <= 0x1_0000_0000,
        decreases k - i,
    {
        proof {
            lemma_pow2_unfold((i + 1) as nat);
            vstd::arithmetic::power2::lemma_pow2_strictly_increases((i + 1) as nat, 33);
            vstd::arithmetic::power2::lemma2_to64();
            if i + 1 == 32 {
            } else {
                vstd::arithmetic::power2::lemma_pow2_strictly_increases((i + 1) as nat, 32);
            }
        }
        r = r * 2;
        i = i + 1;
    }
    r
}

impl Ipv4Net {
    /// The prefix length is at most 32.
    pub open spec fn wf(&self) -> bool {
        self.prefix_len <= 32
    }

    /// The network address (`ipnet`'s `Ipv4Net::network`).
    pub fn network(&self) -> (r: u32)
        requires
            self.wf(),
        ensures
            r == network_of(self.addr, self.prefix_len as nat),
    {
        let b = block_of(self.prefix_len);
        proof {
            lemma_block_bounds(self.prefix_len as nat);
        }
        let a = self.addr as u64;
        proof {
            vstd::arithmetic::div_mod::lemma_mod_decreases(a as nat, b as nat);
            lemma_network_fits(self.addr, self.prefix_len as nat);
        }
        (a - a % b) as u32
    }

    /// The same network with its address replaced by the network address
    /// (`ipnet`'s `Ipv4Net::trunc`).
    pub fn trunc(&self) -> (r: Ipv4Net)
        requires
            self.wf(),
        ensures
            r.wf(),
            r.prefix_len == self.prefix_len,
            r.addr == network_of(self.addr, self.prefix_len as nat),
    {
        Ipv4Net { addr: self.network(), prefix_len: self.prefix_len }
    }

    /// `address/prefix`, as `ipnet`'s `Display` writes it.
    pub fn to_text(&self) -> (r: String)
        ensures
            r@ == net_text(*self),
    {
        let mut s = format_ipv4(self.addr);
        push_char(&mut s, '/');
        push_decimal(&mut s, self.prefix_len as u64);
        s
    }
}

/// An octet as `ipnet`'s parser reads it: one to three digits (leading zeros allowed),
/// value below 256.
pub open spec fn net_octet_ok(p: Seq<char>) -> bool {
    1 <= p.len() <= 3 && all_digits(p) && digits_value(p) <= 255
}

/// A prefix length as `ipnet`'s parser reads it: one or two digits, value at most 32.
pub open spec fn net_prefix_ok(p: Seq<char>) -> bool {
    1 <= p.len() <= 2 && all_digits(p) && digits_value(p) <= 32
}

/// What `ipnet` makes of `s` as an `Ipv4Net`: the text must be exactly four octets
/// separated by `.`, then `/` and a prefix length; the result is the address and the
/// prefix length.
pub open spec fn ipnet_parse(s: Seq<char>) -> Option<(u32, u8)> {
    let halves = fields(s, '/');
    if halves.len() == 2 {
        let f = fields(halves[0], '.');
        if f.len() == 4 && net_octet_ok(f[0]) && net_octet_ok(f[1]) && net_octet_ok(f[2])
            && net_octet_ok(f[3]) && net_prefix_ok(halves[1]) {
            Some((
                from_octets(digits_value(f[0]), digits_value(f[1]), digits_value(f[2]), digits_value(f[3])) as u32,
                digits_value(halves[1]) as u8,
            ))
        } else {
            None
        }
    } else {
        None
    }
}

/// Calls `<ipnet::Ipv4Net as FromStr>::from_str`. Claimed: the result is
/// [`ipnet_parse`] of the text. The parser reads the text as bytes till its end: an
/// address of four octets of at most three digits below 256 each, separated by `.`; a
/// `/`; a prefix length of at most two digits below 33. Any other byte, a non-ASCII
/// character among them, makes it fail.
#[verifier::external_body]
pub fn parse_ipv4_net(s: &str) -> (r: Option<Ipv4Net>)
    ensures
        r == (match ipnet_parse(s@) {
            Some(v) => Some(Ipv4Net { addr: v.0, prefix_len: v.1 }),
            None => None,
        }),
{
    match s.parse::<ipnet::Ipv4Net>() {
        Ok(n) => Some(Ipv4Net { addr: u32::from(n.addr()), prefix_len: n.prefix_len() }),
        Err(_) => None,
    }
}

} // verus!

verus! {

proof fn lemma_octet_text(o: nat)
    requires
        o < 256,
    ensures
        octet_ok(decimal(o)),
        digits_value(decimal(o)) == o,
        !decimal(o).contains('.'),
{
    crate::text::lemma_decimal_reads_back(o);
    let d = decimal(o);
    if d.contains('.') {
        let i = choose|i: int| 0 <= i < d.len() && d[i] == '.';
        assert(is_digit(d[i]));
    }
}

/// An address written in dotted-quad notation reads back as the same address.
pub proof fn law_ipv4_text_round_trip(a: u32)
    ensures
        parse_ipv4(ipv4_text(a)) == Some(a),
{
    let o0 = a / 0x100_0000;
    let o1 = (a / 0x1_0000) % 256;
    let o2 = (a / 0x100) % 256;
    let o3 = a % 256;
    assert(o0 < 256) by (bit_vector)
        requires
            o0 == a / 0x100_0000,
    ;
    assert(o0 * 0x100_0000 + o1 * 0x1_0000 + o2 * 0x100 + o3 == a) by (bit_vector)
        requires
            o0 == a / 0x100_0000,
            o1 == (a / 0x1_0000) % 256,
            o2 == (a / 0x100) % 256,
            o3 == a % 256,
    ;
    let d0 = decimal(o0 as nat);
    let d1 = decimal(o1 as nat);
    let d2 = decimal(o2 as nat);
    let d3 = decimal(o3 as nat);
    lemma_octet_text(o0 as nat);
    lemma_octet_text(o1 as nat);
    lemma_octet_text(o2 as nat);
    lemma_octet_text(o3 as nat);
    let e = Seq::<char>::empty();
    crate::text::lemma_fields_extend(e, d0, '.');
    assert(e + d0 =~= d0);
    assert(fields(d0, '.') =~= seq![d0]);
    let p1 = d0.push('.');
    crate::text::lemma_fields_sep(d0, '.');
    crate::text::lemma_fields_extend(p1, d1, '.');
    assert(fields(p1 + d1, '.') =~= seq![d0, d1]);
    let p2 = (p1 + d1).push('.');
    crate::text::lemma_fields_sep(p1 + d1, '.');
    crate::text::lemma_fields_extend(p2, d2, '.');
    assert(fields(p2 + d2, '.') =~= seq![d0, d1, d2]);
    let p3 = (p2 + d2).push('.');
    crate::text::lemma_fields_sep(p2 + d2, '.');
    crate::text::lemma_fields_extend(p3, d3, '.');
    assert(fields(p3 + d3, '.') =~= seq![d0, d1, d2, d3]);
    assert(ipv4_text(a) =~= p3 + d3);
}

proof fn lemma_concat_lacks(x: Seq<char>, y: Seq<char>, c: char)
    requires
        !x.contains(c),
        !y.contains(c),
    ensures
        !(x + y).contains(c),
{
    if (x + y).contains(c) {
        let i = choose|i: int| 0 <= i < (x + y).len() && (x + y)[i] == c;
        if i < x.len() {
            assert(x[i] == c);
        } else {
            assert(y[i - x.len()] == c);
        }
    }
}

proof fn lemma_decimal_lacks_slash(n: nat)
    ensures
        !decimal(n).contains('/'),
{
    crate::text::lemma_decimal_reads_back(n);
    let d = decimal(n);
    if d.contains('/') {
        let i = choose|i: int| 0 <= i < d.len() && d[i] == '/';
        assert(is_digit(d[i]));
    }
}

proof fn lemma_ipv4_text_lacks_slash(a: u32)
    ensures
        !ipv4_text(a).contains('/'),
{
    let dot = seq!['.'];
    assert(!dot.contains('/')) by {
        if dot.contains('/') {
            let i = choose|i: int| 0 <= i < dot.len() && dot[i] == '/';
            assert(dot[i] == '.');
        }
    }
    let d0 = decimal((a / 0x100_0000) as nat);
    let d1 = decimal(((a / 0x1_0000) % 256) as nat);
    let d2 = decimal(((a / 0x100) % 256) as nat);
    let d3 = decimal((a % 256) as nat);
    lemma_decimal_lacks_slash((a / 0x100_0000) as nat);
    lemma_decimal_lacks_slash(((a / 0x1_0000) % 256) as nat);
    lemma_decimal_lacks_slash(((a / 0x100) % 256) as nat);
    lemma_decimal_lacks_slash((a % 256) as nat);
    lemma_concat_lacks(d0, dot, '/');
    lemma_concat_lacks(d0 + dot, d1, '/');
    lemma_concat_lacks(d0 + dot + d1, dot, '/');
    lemma_concat_lacks(d0 + dot + d1 + dot, d2, '/');
    lemma_concat_lacks(d0 + dot + d1 + dot + d2, dot, '/');
    lemma_concat_lacks(d0 + dot + d1 + dot + d2 + dot, d3, '/');
}

/// A network written as `address/prefix` (the text the manager stores for its subnet)
/// reads back through `ipnet` as the same address and prefix length.
pub proof fn law_net_text_round_trip(n: Ipv4Net)
    requires
        n.wf(),
    ensures
        ipnet_parse(net_text(n)) == Some((n.addr, n.prefix_len)),
{
    let t = ipv4_text(n.addr);
    let d = decimal(n.prefix_len as nat);
    law_ipv4_text_round_trip(n.addr);
    lemma_ipv4_text_lacks_slash(n.addr);
    lemma_decimal_lacks_slash(n.prefix_len as nat);
    crate::text::lemma_decimal_reads_back(n.prefix_len as nat);
    let e = Seq::<char>::empty();
    crate::text::lemma_fields_extend(e, t, '/');
    assert(e + t =~= t);
    assert(fields(t, '/') =~= seq![t]);
    crate::text::lemma_fields_sep(t, '/');
    crate::text::lemma_fields_extend(t.push('/'), d, '/');
    assert(net_text(n) =~= t.push('/') + d);
    assert(fields(net_text(n), '/') =~= seq![t, d]);
}

} // verus!
