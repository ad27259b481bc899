//! Dotted-quad IPv4 address text (`a.b.c.d`), read the way the standard
//! library's `Ipv4Addr` reads it: exactly four decimal components separated
//! by `.`, each of one to three digits, at most 255, and without a leading
//! zero unless the component is `0` itself.
use vstd::prelude::*;
use vstd::utf8::encode_utf8;

verus! {

/// ASCII `.`
pub const DOT: u8 = 46;

/// ASCII `0`
pub const ZERO: u8 = 48;

/// ASCII `9`
pub const NINE: u8 = 57;

/// Whether `c` is an ASCII decimal digit.
pub open spec fn is_digit(c: u8) -> bool {
    ZERO <= c <= NINE
}

/// The number that the decimal digits `d` spell.
pub open spec fn decimal_value(d: Seq<u8>) -> int
    decreases d.len(),
{
    if d.len() == 0 {
        0
    } else {
        decimal_value(d.drop_last()) * 10 + (d.last() - ZERO)
    }
}

/// Whether `d` is one valid component of a dotted quad.
pub open spec fn is_octet(d: Seq<u8>) -> bool {
    &&& 1 <= d.len() <= 3
    &&& forall|i: int| 0 <= i < d.len() ==> is_digit(#[trigger] d[i])
    &&& d.len() > 1 ==> d[0] != ZERO
    &&& decimal_value(d) <= 255
}

/// `b` cut at every `.`: the pieces in order, dots removed (one more piece
/// than there are dots).
pub open spec fn split_dots(b: Seq<u8>) -> Seq<Seq<u8>>
    decreases b.len(),
{
    if b.len() == 0 {
        seq![seq![]]
    } else {
        let prev = split_dots(b.drop_last());
        if b.last() == DOT {
            prev.push(seq![])
        } else {
            prev.update(prev.len() - 1, prev.last().push(b.last()))
        }
    }
}

/// The address that the text `b` denotes, as a host-order `u32` whose most
/// significant byte is the first component; `None` when `b` is not a dotted quad.
pub open spec fn spec_parse_ipv4(b: Seq<u8>) -> Option<u32> {
    let parts = split_dots(b);
    if parts.len() == 4 && is_octet(parts[0]) && is_octet(parts[1]) && is_octet(parts[2])
        && is_octet(parts[3]) {
        Some(
            (decimal_value(parts[0]) * 16777216 + decimal_value(parts[1]) * 65536 + decimal_value(
                parts[2],
            ) * 256 + decimal_value(parts[3])) as u32,
        )
    } else {
        None
    }
}

/// The first `vals.len()` pieces are components whose values are `vals`.
pub open spec fn octets_read(parts: Seq<Seq<u8>>, vals: Seq<u32>) -> bool {
    forall|k: int|
        0 <= k < vals.len() ==> is_octet(#[trigger] parts[k]) && decimal_value(parts[k])
            == vals[k]
}

proof fn lemma_split_dots_nonempty(b: Seq<u8>)
    ensures
        split_dots(b).len() >= 1,
    decreases b.len(),
{
    if b.len() > 0 {
        lemma_split_dots_nonempty(b.drop_last());
    }
}

/// The pieces of a prefix of `b`: all but the last are pieces of `b`, and the
/// last one begins the piece of `b` at the same position.
proof fn lemma_split_dots_prefix(b: Seq<u8>, n: int)
    requires
        0 <= n <= b.len(),
    ensures
        split_dots(b.subrange(0, n)).len() >= 1,
        split_dots(b).len() >= split_dots(b.subrange(0, n)).len(),
        forall|k: int|
            0 <= k < split_dots(b.subrange(0, n)).len() - 1 ==> split_dots(b)[k] == split_dots(
                b.subrange(0, n),
            )[k],
        ({
            let p = split_dots(b.subrange(0, n));
            let q = split_dots(b)[p.len() - 1];
            p.last().len() <= q.len() && p.last() == q.subrange(0, p.last().len() as int)
        }),
    decreases b.len(),
{
    lemma_split_dots_nonempty(b.subrange(0, n));
    lemma_split_dots_nonempty(b);
    if n == b.len() {
        assert(b.subrange(0, n) =~= b);
        let p = split_dots(b);
        assert(p.last() =~= p.last().subrange(0, p.last().len() as int));
    } else {
        let c = b.drop_last();
        assert(c.subrange(0, n) =~= b.subrange(0, n));
        lemma_split_dots_prefix(c, n);
        lemma_split_dots_nonempty(c);
        let p = split_dots(b.subrange(0, n));
        let prev = split_dots(c);
        let q = prev[p.len() - 1];
        if b.last() != DOT && p.len() == prev.len() {
            let q2 = prev.last().push(b.last());
            assert(q2.subrange(0, p.last().len() as int) =~= q.subrange(
                0,
                p.last().len() as int,
            ));
        }
    }
}

/// Reads the dotted-quad address in `s`.
pub fn parse_ipv4(s: &str) -> (r: Option<u32>)
    ensures
        r == spec_parse_ipv4(encode_utf8(s@)),
{
    let b = s.as_bytes();
    let ghost bs = b@;
    assert(bs == encode_utf8(s@));
    let mut vals: Vec<u32> = Vec::new();
    let mut cur_len: usize = 0;
    let mut cur_val: u32 = 0;
    let mut cur_first: u8 = 0;
    let mut i: usize = 0;
    assert(bs.subrange(0, 0) =~= Seq::<u8>::empty());
    while i < b.len()
        invariant
            bs == b@,
            bs == encode_utf8(s@),
            i <= bs.len(),
            split_dots(bs.subrange(0, i as int)).len() == vals.len() + 1,
            vals.len() <= 3,
            octets_read(split_dots(bs.subrange(0, i as int)), vals@),
            ({
                let cur = split_dots(bs.subrange(0, i as int))[vals.len() as int];
                &&& cur.len() == cur_len
                &&& cur_len <= 3
                &&& forall|j: int| 0 <= j < cur.len() ==> is_digit(#[trigger] cur[j])
                &&& decimal_value(cur) == cur_val
                &&& cur_len > 0 ==> cur[0] == cur_first
            }),
            cur_len == 0 ==> cur_val == 0,
            cur_len <= 1 ==> cur_val <= 9,
            cur_len <= 2 ==> cur_val <= 99,
            cur_val <= 999,
        decreases bs.len() - i,
    {
        let c = b[i];
        let ghost p = split_dots(bs.subrange(0, i as int));
        let ghost p2 = split_dots(bs.subrange(0, i + 1));
        assert(bs.subrange(0, i + 1).drop_last() =~= bs.subrange(0, i as int));
        proof {
            lemma_split_dots_nonempty(bs.subrange(0, i as int));
            lemma_split_dots_prefix(bs, i + 1);
        }
        if c == DOT {
            if !(cur_len >= 1 && (cur_len == 1 || cur_first != ZERO) && cur_val <= 255) {
                assert(!is_octet(p2[vals.len() as int]));
                assert(split_dots(bs)[vals.len() as int] == p2[vals.len() as int]);
                assert(spec_parse_ipv4(bs) is None);
                return None;
            }
            if vals.len() == 3 {
                assert(p2.len() == 5);
                return None;
            }
            let ghost old_vals = vals@;
            vals.push(cur_val);
            cur_len = 0;
            cur_val = 0;
            assert forall|k: int| 0 <= k < vals@.len() implies is_octet(#[trigger] p2[k])
                && decimal_value(p2[k]) == vals@[k] by {
                if k < old_vals.len() {
                    assert(p2[k] == p[k]);
                    assert(vals@[k] == old_vals[k]);
                }
            }
            assert(octets_read(p2, vals@));
            assert(p2[vals.len() as int] =~= Seq::<u8>::empty());
        } else if ZERO <= c && c <= NINE {
            if cur_len == 3 {
                assert(p2.last().len() == 4);
                return None;
            }
            if cur_len == 0 {
                cur_first = c;
            }
            let ghost cur = p.last();
            assert(bs.subrange(0, i + 1).last() == c);
            assert(p2 == p.update(p.len() - 1, p.last().push(c)));
            assert(p2.last().drop_last() =~= cur);
            assert forall|k: int| 0 <= k < vals@.len() implies is_octet(#[trigger] p2[k])
                && decimal_value(p2[k]) == vals@[k] by {
                assert(p2[k] == p[k]);
            }
            assert(octets_read(p2, vals@));
            cur_val = cur_val * 10 + (c - ZERO) as u32;
            cur_len = cur_len + 1;
            assert forall|j: int| 0 <= j < p2.last().len() implies is_digit(
                #[trigger] p2.last()[j],
            ) by {
                if j < cur.len() {
                    assert(p2.last()[j] == cur[j]);
                }
            }
        } else {
            let ghost q = split_dots(bs)[vals.len() as int];
            assert(p2.last()[p2.last().len() - 1] == c);
            assert(q[p2.last().len() - 1] == c);
            assert(!is_octet(q));
            assert(spec_parse_ipv4(bs) is None);
            return None;
        }
        i = i + 1;
    }
    assert(bs.subrange(0, i as int) =~= bs);
    if vals.len() == 3 && cur_len >= 1 && (cur_len == 1 || cur_first != ZERO) && cur_val <= 255 {
        Some(vals[0] * 16777216 + vals[1] * 65536 + vals[2] * 256 + cur_val)
    } else {
        None
    }
}

/// The decimal digits of `n` in ASCII, without leading zeros.
pub open spec fn decimal_ascii(n: nat) -> Seq<u8>
    decreases n,
{
    if n < 10 {
        seq![(n + 48) as u8]
    } else {
        decimal_ascii(n / 10).push((n % 10 + 48) as u8)
    }
}

/// The dotted-quad text of the address `v` (host order, most significant
/// byte first).
pub open spec fn dotted_quad(v: u32) -> Seq<u8> {
    decimal_ascii((v >> 24u32) as nat) + seq![DOT] + decimal_ascii(((v >> 16u32) & 0xff) as nat)
        + seq![DOT] + decimal_ascii(((v >> 8u32) & 0xff) as nat) + seq![DOT] + decimal_ascii(
        (v & 0xff) as nat,
    )
}

/// Digits only, and no leading zero unless the text is a single digit.
pub open spec fn is_canonical_number(d: Seq<u8>) -> bool {
    &&& d.len() >= 1
    &&& forall|i: int| 0 <= i < d.len() ==> is_digit(#[trigger] d[i])
    &&& d.len() > 1 ==> d[0] != ZERO
}

proof fn lemma_decimal_ascii(n: nat)
    ensures
        is_canonical_number(decimal_ascii(n)),
        decimal_value(decimal_ascii(n)) == n,
        n < 10 ==> decimal_ascii(n).len() == 1,
        n < 100 ==> decimal_ascii(n).len() <= 2,
        n < 1000 ==> decimal_ascii(n).len() <= 3,
        n >= 1 ==> decimal_ascii(n)[0] != ZERO,
    decreases n,
{
    let t = decimal_ascii(n);
    if n < 10 {
        assert(t.drop_last() =~= Seq::<u8>::empty());
        assert(decimal_value(t) == decimal_value(t.drop_last()) * 10 + (t.last() - ZERO));
    } else {
        lemma_decimal_ascii(n / 10);
        vstd::arithmetic::div_mod::lemma_fundamental_div_mod(n as int, 10);
        assert(t.drop_last() =~= decimal_ascii(n / 10));
        assert(t.last() == (n % 10 + 48) as u8);
        assert(decimal_value(t) == decimal_value(t.drop_last()) * 10 + (t.last() - ZERO));
        assert forall|i: int| 0 <= i < t.len() implies is_digit(#[trigger] t[i]) by {
            if i < t.len() - 1 {
                assert(t[i] == decimal_ascii(n / 10)[i]);
            }
        }
        assert(t[0] == decimal_ascii(n / 10)[0]);
    }
}

proof fn lemma_canonical_number(d: Seq<u8>)
    requires
        is_canonical_number(d),
    ensures
        d == decimal_ascii(decimal_value(d) as nat),
        decimal_value(d) >= 0,
        d[0] != ZERO ==> decimal_value(d) >= 1,
        d.len() >= 2 ==> decimal_value(d) >= 10,
    decreases d.len(),
{
    if d.len() == 1 {
        assert(d.drop_last() =~= Seq::<u8>::empty());
        assert(is_digit(d[0]));
        assert(decimal_value(d) == decimal_value(d.drop_last()) * 10 + (d.last() - ZERO));
        assert(decimal_value(d) == d[0] - ZERO);
        assert(decimal_ascii(decimal_value(d) as nat) =~= d);
    } else {
        let e = d.drop_last();
        assert(e[0] == d[0]);
        assert forall|i: int| 0 <= i < e.len() implies is_digit(#[trigger] e[i]) by {
            assert(e[i] == d[i]);
        }
        lemma_canonical_number(e);
        let v = decimal_value(d);
        assert(is_digit(d[d.len() - 1]));
        assert(v == decimal_value(e) * 10 + (d.last() - ZERO));
        vstd::arithmetic::div_mod::lemma_fundamental_div_mod(v, 10);
        assert(v / 10 == decimal_value(e)) by {
            vstd::arithmetic::div_mod::lemma_fundamental_div_mod_converse(
                v,
                10,
                decimal_value(e),
                d.last() - ZERO,
            );
        }
        assert(v % 10 == d.last() - ZERO) by {
            vstd::arithmetic::div_mod::lemma_fundamental_div_mod_converse(
                v,
                10,
                decimal_value(e),
                d.last() - ZERO,
            );
        }
        assert(decimal_ascii(v as nat) =~= d);
    }
}

/// `parts` joined with dots.
pub open spec fn join_dots(parts: Seq<Seq<u8>>) -> Seq<u8>
    decreases parts.len(),
{
    if parts.len() <= 1 {
        if parts.len() == 1 {
            parts[0]
        } else {
            seq![]
        }
    } else {
        join_dots(parts.drop_last()) + seq![DOT] + parts.last()
    }
}

proof fn lemma_join_split(b: Seq<u8>)
    ensures
        join_dots(split_dots(b)) == b,
    decreases b.len(),
{
    lemma_split_dots_nonempty(b);
    if b.len() > 0 {
        let c = b.drop_last();
        lemma_join_split(c);
        lemma_split_dots_nonempty(c);
        let p = split_dots(c);
        if b.last() == DOT {
            assert(split_dots(b).drop_last() =~= p);
            assert(b =~= c + seq![DOT] + Seq::<u8>::empty());
        } else {
            let q = p.update(p.len() - 1, p.last().push(b.last()));
            if p.len() == 1 {
                assert(b =~= p[0].push(b.last()));
            } else {
                assert(q.drop_last() =~= p.drop_last());
                assert(c == join_dots(p.drop_last()) + seq![DOT] + p.last());
                assert(b =~= c.push(b.last()));
                assert(b =~= join_dots(p.drop_last()) + seq![DOT] + p.last().push(b.last()));
                assert(join_dots(q) == join_dots(q.drop_last()) + seq![DOT] + q.last());
            }
        }
    }
}

proof fn lemma_split_no_dot(s: Seq<u8>, t: Seq<u8>)
    requires
        forall|i: int| 0 <= i < t.len() ==> #[trigger] t[i] != DOT,
    ensures
        split_dots(s + t) == split_dots(s).update(
            split_dots(s).len() - 1,
            split_dots(s).last() + t,
        ),
    decreases t.len(),
{
    lemma_split_dots_nonempty(s);
    if t.len() == 0 {
        assert(s + t =~= s);
        assert(split_dots(s).last() + t =~= split_dots(s).last());
        assert(split_dots(s).update(split_dots(s).len() - 1, split_dots(s).last()) =~= split_dots(
            s,
        ));
    } else {
        let u = t.drop_last();
        assert forall|i: int| 0 <= i < u.len() implies #[trigger] u[i] != DOT by {
            assert(u[i] == t[i]);
        }
        lemma_split_no_dot(s, u);
        assert((s + t).drop_last() =~= s + u);
        assert((s + t).last() == t.last());
        assert(t[t.len() - 1] != DOT);
        let p = split_dots(s);
        assert((p.last() + u).push(t.last()) =~= p.last() + t);
    }
}

proof fn lemma_split_quad(a: Seq<u8>, b: Seq<u8>, c: Seq<u8>, d: Seq<u8>)
    requires
        forall|i: int| 0 <= i < a.len() ==> #[trigger] a[i] != DOT,
        forall|i: int| 0 <= i < b.len() ==> #[trigger] b[i] != DOT,
        forall|i: int| 0 <= i < c.len() ==> #[trigger] c[i] != DOT,
        forall|i: int| 0 <= i < d.len() ==> #[trigger] d[i] != DOT,
    ensures
        split_dots(a + seq![DOT] + b + seq![DOT] + c + seq![DOT] + d) == seq![a, b, c, d],
{
    let e = Seq::<u8>::empty();
    assert(split_dots(e) == seq![e]);
    lemma_split_no_dot(e, a);
    assert(e + a =~= a);
    assert(split_dots(a) =~= seq![a]);
    let s1 = a + seq![DOT];
    assert(s1.drop_last() =~= a);
    assert(split_dots(s1) =~= seq![a, e]);
    lemma_split_no_dot(s1, b);
    assert(split_dots(s1 + b) =~= seq![a, b]);
    let s2 = s1 + b + seq![DOT];
    assert(s2.drop_last() =~= s1 + b);
    assert(split_dots(s2) =~= seq![a, b, e]);
    lemma_split_no_dot(s2, c);
    assert(split_dots(s2 + c) =~= seq![a, b, c]);
    let s3 = s2 + c + seq![DOT];
    assert(s3.drop_last() =~= s2 + c);
    assert(split_dots(s3) =~= seq![a, b, c, e]);
    lemma_split_no_dot(s3, d);
    assert(split_dots(s3 + d) =~= seq![a, b, c, d]);
    assert(a + seq![DOT] + b + seq![DOT] + c + seq![DOT] + d =~= s3 + d);
}

proof fn lemma_digits_no_dot(d: Seq<u8>)
    requires
        forall|i: int| 0 <= i < d.len() ==> is_digit(#[trigger] d[i]),
    ensures
        forall|i: int| 0 <= i < d.len() ==> #[trigger] d[i] != DOT,
{
}

/// A text reads as an address exactly when it is that address's canonical
/// dotted quad: four decimal numbers without leading zeros, one per byte
/// from the most significant, separated by dots.
pub proof fn lemma_parse_ipv4_canonical(b: Seq<u8>, v: u32)
    ensures
        spec_parse_ipv4(b) == Some(v) <==> b == dotted_quad(v),
{
    let x0 = (v >> 24u32) as nat;
    let x1 = ((v >> 16u32) & 0xff) as nat;
    let x2 = ((v >> 8u32) & 0xff) as nat;
    let x3 = (v & 0xff) as nat;
    assert((v >> 24u32) < 256 && ((v >> 16u32) & 0xff) < 256 && ((v >> 8u32) & 0xff) < 256 && (v
        & 0xff) < 256 && (v >> 24u32) * 16777216 + ((v >> 16u32) & 0xff) * 65536 + ((v >> 8u32)
        & 0xff) * 256 + (v & 0xff) == v) by (bit_vector);
    lemma_decimal_ascii(x0);
    lemma_decimal_ascii(x1);
    lemma_decimal_ascii(x2);
    lemma_decimal_ascii(x3);
    let (d0, d1, d2, d3) = (decimal_ascii(x0), decimal_ascii(x1), decimal_ascii(x2), decimal_ascii(
        x3,
    ));
    if b == dotted_quad(v) {
        lemma_digits_no_dot(d0);
        lemma_digits_no_dot(d1);
        lemma_digits_no_dot(d2);
        lemma_digits_no_dot(d3);
        lemma_split_quad(d0, d1, d2, d3);
        let parts = split_dots(b);
        assert(parts[0] == d0 && parts[1] == d1 && parts[2] == d2 && parts[3] == d3);
        assert(is_octet(d0) && is_octet(d1) && is_octet(d2) && is_octet(d3));
    }
    if spec_parse_ipv4(b) == Some(v) {
        let parts = split_dots(b);
        let (p0, p1, p2, p3) = (parts[0], parts[1], parts[2], parts[3]);
        lemma_canonical_number(p0);
        lemma_canonical_number(p1);
        lemma_canonical_number(p2);
        lemma_canonical_number(p3);
        let a0 = decimal_value(p0);
        let a1 = decimal_value(p1);
        let a2 = decimal_value(p2);
        let a3 = decimal_value(p3);
        let w0 = a0 as u32;
        let w1 = a1 as u32;
        let w2 = a2 as u32;
        let w3 = a3 as u32;
        assert(v == w0 * 16777216 + w1 * 65536 + w2 * 256 + w3);
        assert((v >> 24u32) == w0 && ((v >> 16u32) & 0xff) == w1 && ((v >> 8u32) & 0xff) == w2
            && (v & 0xff) == w3) by (bit_vector)
            requires
                w0 < 256,
                w1 < 256,
                w2 < 256,
                w3 < 256,
                v == w0 * 16777216 + w1 * 65536 + w2 * 256 + w3,
        ;
        lemma_join_split(b);
        assert(parts =~= seq![p0, p1, p2, p3]);
        assert(seq![p0, p1, p2, p3].drop_last() =~= seq![p0, p1, p2]);
        assert(seq![p0, p1, p2].drop_last() =~= seq![p0, p1]);
        assert(seq![p0, p1].drop_last() =~= seq![p0]);
        assert(join_dots(seq![p0]) == p0);
        assert(join_dots(seq![p0, p1]) == p0 + seq![DOT] + p1);
        assert(join_dots(seq![p0, p1, p2]) == p0 + seq![DOT] + p1 + seq![DOT] + p2);
        assert(join_dots(seq![p0, p1, p2, p3]) == p0 + seq![DOT] + p1 + seq![DOT] + p2 + seq![DOT]
            + p3);
        assert(b == p0 + seq![DOT] + p1 + seq![DOT] + p2 + seq![DOT] + p3);
    }
}

} // verus!
