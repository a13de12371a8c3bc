//! The sandbox's network address: a dotted-quad IPv4 value, with verified
//! parsing of engine-reported text and canonical rendering.

use vstd::prelude::*;

use crate::Error;
use crate::output::{bytes_to_string, utf8_decode};
use crate::text::{
    dec_digits, dec_u64, digit_val, digits_val, is_digit, lemma_dec_digits_are_digits,
    lemma_dec_digits_len, lemma_dec_digits_no_leading_zero, lemma_digits_val_of_dec, trim_spaces,
    trim_whitespace,
};

verus! {

/// An IPv4 address, one field per octet, most significant first.
#[derive(Clone, Copy, PartialEq, Eq, Structural, Debug)]
pub struct Ipv4Addr {
    pub o0: u8,
    pub o1: u8,
    pub o2: u8,
    pub o3: u8,
}

/// A valid dotted-quad octet: one to three decimal digits, no leading
/// zero (zero itself is the single digit `0`), value at most 255.
pub open spec fn valid_octet(p: Seq<char>) -> bool {
    &&& 1 <= p.len() <= 3
    &&& forall|i: int| 0 <= i < p.len() ==> is_digit(#[trigger] p[i])
    &&& p.len() > 1 ==> digit_val(p[0]) >= 1
    &&& digits_val(p) <= 255
}

/// No character of `s` is a dot.
pub open spec fn dot_free(s: Seq<char>) -> bool {
    forall|i: int| 0 <= i < s.len() ==> s[i] != '.'
}

/// The longest dot-free prefix of `s`.
pub open spec fn until_dot(s: Seq<char>) -> Seq<char>
    decreases s.len(),
{
    if s.len() == 0 || s[0] == '.' {
        Seq::empty()
    } else {
        seq![s[0]] + until_dot(s.drop_first())
    }
}

/// Shape of `until_dot`: it is the prefix of `s` up to the first dot.
pub proof fn lemma_until_dot(s: Seq<char>)
    ensures
        until_dot(s).len() <= s.len(),
        until_dot(s) == s.take(until_dot(s).len() as int),
        dot_free(until_dot(s)),
        until_dot(s).len() < s.len() ==> s[until_dot(s).len() as int] == '.',
    decreases s.len(),
{
    if s.len() == 0 || s[0] == '.' {
        assert(s.take(0) =~= Seq::<char>::empty());
    } else {
        lemma_until_dot(s.drop_first());
        let u = until_dot(s);
        let v = until_dot(s.drop_first());
        assert forall|i: int| 0 <= i < u.len() implies u[i] == s[i] by {
            if i > 0 {
                assert(u[i] == v[i - 1]);
                assert(v[i - 1] == s.drop_first()[i - 1]);
            }
        }
        assert(u =~= s.take(u.len() as int));
        if u.len() < s.len() {
            assert(s[u.len() as int] == s.drop_first()[v.len() as int]);
        }
    }
}

/// Reading text assembled as `part . rest` with a dot-free `part` finds
/// exactly that part before the first dot, and `rest` after it.
pub proof fn lemma_until_dot_concat(a: Seq<char>, b: Seq<char>)
    requires
        dot_free(a),
    ensures
        until_dot(a + seq!['.'] + b) == a,
        (a + seq!['.'] + b).skip(a.len() as int + 1) == b,
    decreases a.len(),
{
    let s = a + seq!['.'] + b;
    assert(s.skip(a.len() as int + 1) =~= b);
    if a.len() == 0 {
        assert(s[0] == '.');
        assert(until_dot(s) =~= a);
    } else {
        assert(s[0] == a[0]);
        assert(s.drop_first() =~= a.drop_first() + seq!['.'] + b);
        assert forall|i: int| 0 <= i < a.drop_first().len() implies a.drop_first()[i] != '.' by {
            assert(a.drop_first()[i] == a[i + 1]);
        }
        lemma_until_dot_concat(a.drop_first(), b);
        assert(until_dot(s) == seq![s[0]] + a.drop_first());
        assert(seq![s[0]] + a.drop_first() =~= a);
    }
}

/// A scan that saw no dot before position `e`, and a dot or the end at
/// `e`, has found the `until_dot` prefix.
proof fn lemma_until_dot_scan(t: Seq<char>, e: int)
    requires
        0 <= e <= t.len(),
        forall|k: int| 0 <= k < e ==> t[k] != '.',
        e < t.len() ==> t[e] == '.',
    ensures
        until_dot(t) == t.take(e),
    decreases t.len(),
{
    if e == 0 {
        assert(t.take(0) =~= Seq::<char>::empty());
    } else {
        assert(t[0] != '.');
        assert forall|k: int| 0 <= k < e - 1 implies t.drop_first()[k] != '.' by {
            assert(t.drop_first()[k] == t[k + 1]);
        }
        if e - 1 < t.drop_first().len() {
            assert(t.drop_first()[e - 1] == t[e]);
        }
        lemma_until_dot_scan(t.drop_first(), e - 1);
        assert(until_dot(t) == seq![t[0]] + t.drop_first().take(e - 1));
        assert(seq![t[0]] + t.drop_first().take(e - 1) =~= t.take(e));
    }
}

/// The dotted-quad reading of `s`: four valid octets separated by single
/// dots, and nothing else. `None` for any other shape.
pub open spec fn parse_quad(s: Seq<char>) -> Option<Ipv4Addr> {
    let p0 = until_dot(s);
    if p0.len() == s.len() {
        None
    } else {
        let r0 = s.skip(p0.len() as int + 1);
        let p1 = until_dot(r0);
        if p1.len() == r0.len() {
            None
        } else {
            let r1 = r0.skip(p1.len() as int + 1);
            let p2 = until_dot(r1);
            if p2.len() == r1.len() {
                None
            } else {
                let p3 = r1.skip(p2.len() as int + 1);
                if dot_free(p3) && valid_octet(p0) && valid_octet(p1) && valid_octet(p2)
                    && valid_octet(p3) {
                    Some(
                        Ipv4Addr {
                            o0: digits_val(p0) as u8,
                            o1: digits_val(p1) as u8,
                            o2: digits_val(p2) as u8,
                            o3: digits_val(p3) as u8,
                        },
                    )
                } else {
                    None
                }
            }
        }
    }
}

/// Scans forward from `from` to the next dot (or the end of `s`).
fn find_part_end(s: &str, from: usize) -> (end: usize)
    requires
        from <= s@.len(),
    ensures
        from <= end <= s@.len(),
        until_dot(s@.skip(from as int)) == s@.subrange(from as int, end as int),
        end < s@.len() ==> s@[end as int] == '.',
{
    let n: usize = s.unicode_len();
    let mut j: usize = from;
    loop
        invariant
            from <= j <= n,
            n == s@.len(),
            forall|k: int| from <= k < j ==> s@[k] != '.',
        ensures
            from <= j <= n,
            n == s@.len(),
            forall|k: int| from <= k < j ==> s@[k] != '.',
            j < n ==> s@[j as int] == '.',
        decreases n - j,
    {
        if j == n {
            break;
        }
        let c = s.get_char(j);
        if c == '.' {
            break;
        }
        j = j + 1;
    }
    proof {
        let t = s@.skip(from as int);
        assert forall|k: int| 0 <= k < j - from implies t[k] != '.' by {
            assert(t[k] == s@[from + k]);
        }
        if j - from < t.len() {
            assert(t[j - from] == s@[j as int]);
        }
        lemma_until_dot_scan(t, j - from);
        assert(t.take(j - from) =~= s@.subrange(from as int, j as int));
    }
    j
}

/// Reads one octet out of `s` between `from` and `to`.
fn parse_octet(s: &str, from: usize, to: usize) -> (r: Option<u8>)
    requires
        from <= to <= s@.len(),
    ensures
        match r {
            Some(v) => valid_octet(s@.subrange(from as int, to as int)) && v as nat == digits_val(
                s@.subrange(from as int, to as int),
            ),
            None => !valid_octet(s@.subrange(from as int, to as int)),
        },
{
    let ghost p = s@.subrange(from as int, to as int);
    let len: usize = to - from;
    if len == 0 || len > 3 {
        return None;
    }
    let mut val: u32 = 0;
    let mut j: usize = 0;
    while j < len
        invariant
            0 <= j <= len <= 3,
            from <= to <= s@.len(),
            len == to - from,
            p == s@.subrange(from as int, to as int),
            p.len() == len,
            forall|k: int| 0 <= k < j ==> is_digit(#[trigger] p[k]),
            val as nat == digits_val(p.take(j as int)),
            val <= 999,
            j == 0 ==> val == 0,
            j == 1 ==> val <= 9,
            j == 2 ==> val <= 99,
        decreases len - j,
    {
        let c = s.get_char(from + j);
        proof {
            assert(p[j as int] == s@[from + j]);
        }
        let u = c as u32;
        if u < 48 || u > 57 {
            proof {
                assert(!is_digit(p[j as int]));
            }
            return None;
        }
        proof {
            assert(p.take(j as int + 1).drop_last() =~= p.take(j as int));
            assert(p.take(j as int + 1).last() == p[j as int]);
        }
        val = val * 10 + (u - 48);
        j = j + 1;
    }
    proof {
        assert(p.take(len as int) =~= p);
    }
    if len > 1 {
        let c0 = s.get_char(from);
        proof {
            assert(p[0] == s@[from as int]);
        }
        if c0 as u32 == 48 {
            proof {
                assert(digit_val(p[0]) == 0);
            }
            return None;
        }
        proof {
            assert(digit_val(p[0]) >= 1);
        }
    }
    if val > 255 {
        return None;
    }
    Some(val as u8)
}

/// Parses dotted-quad text; accepts exactly the shape `parse_quad` does.
pub fn parse_ipv4(s: &str) -> (r: Option<Ipv4Addr>)
    ensures
        r == parse_quad(s@),
{
    let n: usize = s.unicode_len();
    proof {
        assert(s@.skip(0) =~= s@);
    }
    let e0 = find_part_end(s, 0);
    if e0 == n {
        return None;
    }
    let ghost r0 = s@.skip(e0 as int + 1);
    let e1 = find_part_end(s, e0 + 1);
    proof {
        assert(s@.skip(e0 as int + 1) =~= r0);
        assert(s@.subrange(e0 as int + 1, e1 as int) =~= r0.take(e1 - (e0 + 1)));
        assert(until_dot(r0).len() == e1 - (e0 + 1));
    }
    if e1 == n {
        proof {
            assert(until_dot(r0).len() == r0.len());
        }
        return None;
    }
    let ghost r1 = r0.skip((e1 - e0) as int);
    proof {
        assert(r1 =~= s@.skip(e1 as int + 1));
    }
    let e2 = find_part_end(s, e1 + 1);
    proof {
        assert(s@.subrange(e1 as int + 1, e2 as int) =~= r1.take(e2 - (e1 + 1)));
        assert(until_dot(r1).len() == e2 - (e1 + 1));
    }
    if e2 == n {
        proof {
            assert(until_dot(r1).len() == r1.len());
        }
        return None;
    }
    let ghost p3 = r1.skip((e2 - e1) as int);
    proof {
        assert(p3 =~= s@.skip(e2 as int + 1));
        assert(p3 =~= s@.subrange(e2 as int + 1, n as int));
    }
    let e3 = find_part_end(s, e2 + 1);
    if e3 < n {
        proof {
            assert(s@[e3 as int] == '.');
            assert(p3[e3 - (e2 + 1)] == s@[e3 as int]);
            assert(!dot_free(p3));
        }
        return None;
    }
    proof {
        assert(s@.subrange(e2 as int + 1, e3 as int) == until_dot(p3));
        lemma_until_dot(p3);
        assert(until_dot(p3).len() == p3.len());
        assert(until_dot(p3) =~= p3);
        assert(dot_free(p3));
    }
    let v0 = parse_octet(s, 0, e0);
    let v1 = parse_octet(s, e0 + 1, e1);
    let v2 = parse_octet(s, e1 + 1, e2);
    let v3 = parse_octet(s, e2 + 1, n);
    match (v0, v1, v2, v3) {
        (Some(a), Some(b), Some(c), Some(d)) => Some(Ipv4Addr { o0: a, o1: b, o2: c, o3: d }),
        _ => None,
    }
}

/// The canonical text of `a`: four decimal octets joined by dots.
pub open spec fn ipv4_chars(a: Ipv4Addr) -> Seq<char> {
    dec_digits(a.o0 as nat) + seq!['.'] + dec_digits(a.o1 as nat) + seq!['.'] + dec_digits(
        a.o2 as nat,
    ) + seq!['.'] + dec_digits(a.o3 as nat)
}

/// Renders `a` as dotted-quad text.
pub fn ipv4_string(a: &Ipv4Addr) -> (r: String)
    ensures
        r@ == ipv4_chars(*a),
{
    proof {
        reveal_strlit(".");
        assert("."@ =~= seq!['.']);
    }
    let mut r = dec_u64(a.o0 as u64);
    r.append(".");
    let d1 = dec_u64(a.o1 as u64);
    r.append(d1.as_str());
    r.append(".");
    let d2 = dec_u64(a.o2 as u64);
    r.append(d2.as_str());
    r.append(".");
    let d3 = dec_u64(a.o3 as u64);
    r.append(d3.as_str());
    r
}

/// The canonical rendering of a small number is a valid, dot-free octet
/// whose value reads back as that number.
proof fn lemma_octet_rendering(v: nat)
    requires
        v <= 255,
    ensures
        valid_octet(dec_digits(v)),
        digits_val(dec_digits(v)) == v,
        dot_free(dec_digits(v)),
{
    lemma_dec_digits_len(v);
    lemma_dec_digits_are_digits(v);
    lemma_digits_val_of_dec(v);
    if dec_digits(v).len() > 1 {
        lemma_dec_digits_no_leading_zero(v);
    }
    assert forall|i: int| 0 <= i < dec_digits(v).len() implies dec_digits(v)[i] != '.' by {
        if dec_digits(v)[i] == '.' {
            assert(dec_digits(v)[i] as u32 == 46);
        }
    }
}

/// Rendering an address and reading the text back yields the address: the
/// text handed out for an address denotes exactly that address.
#[verifier::rlimit(100)]
#[verifier::spinoff_prover]
pub proof fn lemma_ipv4_round_trip(a: Ipv4Addr)
    ensures
        parse_quad(ipv4_chars(a)) == Some(a),
{
    let d0 = dec_digits(a.o0 as nat);
    let d1 = dec_digits(a.o1 as nat);
    let d2 = dec_digits(a.o2 as nat);
    let d3 = dec_digits(a.o3 as nat);
    lemma_octet_rendering(a.o0 as nat);
    lemma_octet_rendering(a.o1 as nat);
    lemma_octet_rendering(a.o2 as nat);
    lemma_octet_rendering(a.o3 as nat);
    let s = ipv4_chars(a);
    let x1 = d1 + seq!['.'] + d2 + seq!['.'] + d3;
    let x2 = d2 + seq!['.'] + d3;
    assert(s =~= d0 + seq!['.'] + x1);
    lemma_until_dot_concat(d0, x1);
    let p0 = until_dot(s);
    assert(p0 == d0);
    assert(p0.len() < s.len());
    let r0 = s.skip(p0.len() as int + 1);
    assert(r0 == x1);
    assert(x1 =~= d1 + seq!['.'] + x2);
    lemma_until_dot_concat(d1, x2);
    let p1 = until_dot(r0);
    assert(p1 == d1);
    assert(p1.len() < r0.len());
    let r1 = r0.skip(p1.len() as int + 1);
    assert(r1 == x2);
    lemma_until_dot_concat(d2, d3);
    let p2 = until_dot(r1);
    assert(p2 == d2);
    assert(p2.len() < r1.len());
    let p3 = r1.skip(p2.len() as int + 1);
    assert(p3 == d3);
    assert(dot_free(p3));
    assert(valid_octet(p0) && valid_octet(p1) && valid_octet(p2) && valid_octet(p3));
    assert(digits_val(p0) as u8 == a.o0);
    assert(digits_val(p1) as u8 == a.o1);
    assert(digits_val(p2) as u8 == a.o2);
    assert(digits_val(p3) as u8 == a.o3);
    assert(parse_quad(s) == Some(a));
}

/// Reads the engine-reported network address: decodes the raw metadata
/// query output as text, trims surrounding whitespace, and parses the
/// dotted-quad address. Fails with an encoding error exactly where the
/// bytes are not valid text, and with an address error exactly where the
/// trimmed text is not a dotted quad.
pub fn resolve_address(raw: Vec<u8>) -> (r: Result<Ipv4Addr, Error>)
    ensures
        match r {
            Ok(a) => utf8_decode(raw@) is Some && parse_quad(
                trim_spaces(utf8_decode(raw@).unwrap()),
            ) == Some(a),
            Err(e) => match e {
                Error::Encoding => utf8_decode(raw@) is None,
                Error::AddressParse => utf8_decode(raw@) is Some && parse_quad(
                    trim_spaces(utf8_decode(raw@).unwrap()),
                ) is None,
                _ => false,
            },
        },
{
    let text = match bytes_to_string(raw) {
        Some(s) => s,
        None => {
            return Err(Error::Encoding);
        },
    };
    let trimmed = trim_whitespace(text.as_str());
    match parse_ipv4(trimmed.as_str()) {
        Some(a) => Ok(a),
        None => Err(Error::AddressParse),
    }
}

} // verus!
