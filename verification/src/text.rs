//! Character-sequence utilities shared by the output and naming logic:
//! trimming of trailing newline noise, whitespace trimming, decimal
//! rendering of integers, and joining words with spaces.

use vstd::prelude::*;

verus! {

/// A trailing-noise character: line feed or carriage return.
pub open spec fn is_newline(c: char) -> bool {
    c == '\n' || c == '\r'
}

/// `s` with every trailing line feed / carriage return removed.
pub open spec fn trim_newlines(s: Seq<char>) -> Seq<char>
    decreases s.len(),
{
    if s.len() > 0 && is_newline(s.last()) {
        trim_newlines(s.drop_last())
    } else {
        s
    }
}

/// Trimming only ever removes trailing newline characters: a sequence that
/// does not end in one is returned unchanged.
pub proof fn lemma_trim_newlines_clean(s: Seq<char>)
    requires
        s.len() == 0 || !is_newline(s.last()),
    ensures
        trim_newlines(s) == s,
{
}

/// Appending nothing but newline characters does not change the trimmed
/// value: captured output differing only in trailing newline noise compares
/// equal after trimming.
pub proof fn lemma_trim_newlines_absorbs_tail(s: Seq<char>, t: Seq<char>)
    requires
        forall|i: int| 0 <= i < t.len() ==> is_newline(t[i]),
    ensures
        trim_newlines(s + t) == trim_newlines(s),
    decreases t.len(),
{
    if t.len() == 0 {
        assert(s + t =~= s);
    } else {
        assert((s + t).last() == t.last());
        assert((s + t).drop_last() =~= s + t.drop_last());
        lemma_trim_newlines_absorbs_tail(s, t.drop_last());
    }
}

/// Removes every trailing `'\n'` and `'\r'` from `s`.
pub fn trim_trailing_newlines(s: &str) -> (r: String)
    ensures
        r@ == trim_newlines(s@),
{
    let n: usize = s.unicode_len();
    let mut k: usize = n;
    proof {
        assert(s@.take(n as int) =~= s@);
    }
    loop
        invariant
            k <= n,
            n == s@.len(),
            trim_newlines(s@) == trim_newlines(s@.take(k as int)),
        ensures
            k <= s@.len(),
            trim_newlines(s@) == s@.take(k as int),
        decreases k,
    {
        if k == 0 {
            proof {
                assert(s@.take(0) =~= Seq::<char>::empty());
            }
            break;
        }
        let c = s.get_char(k - 1);
        if c != '\n' && c != '\r' {
            proof {
                assert(s@.take(k as int).last() == c);
            }
            break;
        }
        proof {
            assert(s@.take(k as int).last() == c);
            assert(s@.take(k as int).drop_last() =~= s@.take(k as int - 1));
        }
        k = k - 1;
    }
    let t = s.substring_char(0, k);
    proof {
        assert(t@ =~= s@.take(k as int));
    }
    t.to_owned()
}

/// Content written into a sandbox and read back compares equal after
/// trimming: whatever trailing newline noise the reading command adds,
/// trimming the captured output returns exactly the content, provided
/// the content itself does not end in a newline.
pub proof fn lemma_read_back_exact(contents: Seq<char>, noise: Seq<char>)
    requires
        contents.len() == 0 || !is_newline(contents.last()),
        forall|i: int| 0 <= i < noise.len() ==> is_newline(noise[i]),
    ensures
        trim_newlines(contents + noise) == contents,
{
    lemma_trim_newlines_absorbs_tail(contents, noise);
    lemma_trim_newlines_clean(contents);
}

/// An ASCII whitespace character.
pub open spec fn is_space(c: char) -> bool {
    c == ' ' || c == '\t' || c == '\n' || c == '\r' || c == '\u{b}' || c == '\u{c}'
}

/// `s` with every trailing ASCII whitespace character removed.
pub open spec fn trim_space_end(s: Seq<char>) -> Seq<char>
    decreases s.len(),
{
    if s.len() > 0 && is_space(s.last()) {
        trim_space_end(s.drop_last())
    } else {
        s
    }
}

/// `s` with every leading ASCII whitespace character removed.
pub open spec fn trim_space_start(s: Seq<char>) -> Seq<char>
    decreases s.len(),
{
    if s.len() > 0 && is_space(s[0]) {
        trim_space_start(s.drop_first())
    } else {
        s
    }
}

/// `s` with ASCII whitespace removed from both ends.
pub open spec fn trim_spaces(s: Seq<char>) -> Seq<char> {
    trim_space_start(trim_space_end(s))
}

/// Removes ASCII whitespace from both ends of `s`.
pub fn trim_whitespace(s: &str) -> (r: String)
    ensures
        r@ == trim_spaces(s@),
{
    let n: usize = s.unicode_len();
    let mut hi: usize = n;
    proof {
        assert(s@.take(n as int) =~= s@);
    }
    loop
        invariant
            hi <= n,
            n == s@.len(),
            trim_space_end(s@) == trim_space_end(s@.take(hi as int)),
        ensures
            hi <= s@.len(),
            trim_space_end(s@) == s@.take(hi as int),
        decreases hi,
    {
        if hi == 0 {
            proof {
                assert(s@.take(0) =~= Seq::<char>::empty());
            }
            break;
        }
        let c = s.get_char(hi - 1);
        let u = c as u32;
        if !(u == 32 || u == 9 || u == 10 || u == 13 || u == 11 || u == 12) {
            proof {
                assert(s@.take(hi as int).last() == c);
                assert(!is_space(c));
            }
            break;
        }
        proof {
            assert(s@.take(hi as int).last() == c);
            assert(is_space(c));
            assert(s@.take(hi as int).drop_last() =~= s@.take(hi as int - 1));
        }
        hi = hi - 1;
    }
    let mut lo: usize = 0;
    loop
        invariant
            lo <= hi <= s@.len(),
            trim_space_end(s@) == s@.take(hi as int),
            trim_space_start(s@.take(hi as int)) == trim_space_start(
                s@.subrange(lo as int, hi as int),
            ),
        ensures
            lo <= hi <= s@.len(),
            trim_spaces(s@) == s@.subrange(lo as int, hi as int),
        decreases hi - lo,
    {
        if lo == hi {
            proof {
                assert(s@.subrange(lo as int, hi as int) =~= Seq::<char>::empty());
            }
            break;
        }
        let c = s.get_char(lo);
        let u = c as u32;
        if !(u == 32 || u == 9 || u == 10 || u == 13 || u == 11 || u == 12) {
            proof {
                assert(s@.subrange(lo as int, hi as int)[0] == c);
                assert(!is_space(c));
            }
            break;
        }
        proof {
            assert(s@.subrange(lo as int, hi as int)[0] == c);
            assert(is_space(c));
            assert(s@.subrange(lo as int, hi as int).drop_first() =~= s@.subrange(
                lo as int + 1,
                hi as int,
            ));
        }
        lo = lo + 1;
    }
    let t = s.substring_char(lo, hi);
    proof {
        assert(t@ =~= s@.subrange(lo as int, hi as int));
    }
    t.to_owned()
}

/// The decimal digit character for `d` (meaningful for `d < 10`).
pub open spec fn digit_char(d: nat) -> char {
    if d == 0 {
        '0'
    } else if d == 1 {
        '1'
    } else if d == 2 {
        '2'
    } else if d == 3 {
        '3'
    } else if d == 4 {
        '4'
    } else if d == 5 {
        '5'
    } else if d == 6 {
        '6'
    } else if d == 7 {
        '7'
    } else if d == 8 {
        '8'
    } else {
        '9'
    }
}

/// Whether `c` is a decimal digit character.
pub open spec fn is_digit(c: char) -> bool {
    48 <= c as u32 && c as u32 <= 57
}

/// The numeric value of a decimal digit character.
pub open spec fn digit_val(c: char) -> nat {
    ((c as u32) - 48) as nat
}

/// The canonical decimal rendering of `n`: no sign, no leading zeros
/// (except for the single digit of zero itself).
pub open spec fn dec_digits(n: nat) -> Seq<char>
    decreases n,
{
    if n < 10 {
        seq![digit_char(n)]
    } else {
        dec_digits(n / 10).push(digit_char(n % 10))
    }
}

/// Every character of a decimal rendering is a digit, and its value is
/// strictly below 58, so in particular it is never `'.'`.
pub proof fn lemma_dec_digits_are_digits(n: nat)
    ensures
        forall|i: int| 0 <= i < dec_digits(n).len() ==> is_digit(#[trigger] dec_digits(n)[i]),
    decreases n,
{
    if n < 10 {
        lemma_digit_char_val(n);
        assert(dec_digits(n) == seq![digit_char(n)]);
        assert(dec_digits(n)[0] == digit_char(n));
    } else {
        lemma_digit_char_val(n % 10);
        lemma_dec_digits_are_digits(n / 10);
        assert(dec_digits(n) == dec_digits(n / 10).push(digit_char(n % 10)));
        assert forall|i: int| 0 <= i < dec_digits(n).len() implies is_digit(
            #[trigger] dec_digits(n)[i],
        ) by {
            if i < dec_digits(n / 10).len() {
                assert(dec_digits(n)[i] == dec_digits(n / 10)[i]);
            } else {
                assert(dec_digits(n)[i] == digit_char(n % 10));
            }
        }
    }
}

/// A decimal rendering is never empty, and has one digit exactly for
/// numbers below ten.
pub proof fn lemma_dec_digits_len(n: nat)
    ensures
        dec_digits(n).len() >= 1,
        n < 10 ==> dec_digits(n).len() == 1,
        n < 100 ==> dec_digits(n).len() <= 2,
        n < 1000 ==> dec_digits(n).len() <= 3,
    decreases n,
{
    if n >= 10 {
        lemma_dec_digits_len(n / 10);
    }
}

/// A multi-digit decimal rendering never starts with a zero digit.
pub proof fn lemma_dec_digits_no_leading_zero(n: nat)
    requires
        n >= 1,
    ensures
        digit_val(dec_digits(n)[0]) >= 1,
    decreases n,
{
    if n < 10 {
        lemma_digit_char_val(n);
    } else {
        lemma_dec_digits_no_leading_zero(n / 10);
        assert(dec_digits(n)[0] == dec_digits(n / 10)[0]);
    }
}

/// The digit characters carry exactly the values they stand for.
pub proof fn lemma_digit_char_val(d: nat)
    requires
        d < 10,
    ensures
        is_digit(digit_char(d)),
        digit_val(digit_char(d)) == d,
{
    if d == 0 {
        assert('0' as u32 == 48);
    } else if d == 1 {
        assert('1' as u32 == 49);
    } else if d == 2 {
        assert('2' as u32 == 50);
    } else if d == 3 {
        assert('3' as u32 == 51);
    } else if d == 4 {
        assert('4' as u32 == 52);
    } else if d == 5 {
        assert('5' as u32 == 53);
    } else if d == 6 {
        assert('6' as u32 == 54);
    } else if d == 7 {
        assert('7' as u32 == 55);
    } else if d == 8 {
        assert('8' as u32 == 56);
    } else {
        assert('9' as u32 == 57);
    }
}

/// The decimal value of a digit sequence, most significant digit first.
pub open spec fn digits_val(s: Seq<char>) -> nat
    decreases s.len(),
{
    if s.len() == 0 {
        0
    } else {
        digits_val(s.drop_last()) * 10 + digit_val(s.last())
    }
}

/// Reading back a decimal rendering gives the number it was made from;
/// in particular distinct numbers render distinctly.
pub proof fn lemma_digits_val_of_dec(n: nat)
    ensures
        digits_val(dec_digits(n)) == n,
    decreases n,
{
    if n < 10 {
        lemma_digit_char_val(n);
        assert(dec_digits(n) == seq![digit_char(n)]);
        assert(dec_digits(n).drop_last() =~= Seq::<char>::empty());
        assert(digits_val(Seq::<char>::empty()) == 0);
        assert(dec_digits(n).last() == digit_char(n));
        assert(digits_val(dec_digits(n)) == digits_val(dec_digits(n).drop_last()) * 10 + digit_val(
            dec_digits(n).last(),
        ));
    } else {
        lemma_digit_char_val(n % 10);
        lemma_digits_val_of_dec(n / 10);
        assert(dec_digits(n).drop_last() =~= dec_digits(n / 10));
        assert(dec_digits(n).last() == digit_char(n % 10));
        assert(digits_val(dec_digits(n)) == digits_val(dec_digits(n).drop_last()) * 10 + digit_val(
            dec_digits(n).last(),
        ));
    }
}

/// Renders `n` in decimal.
pub fn dec_u64(n: u64) -> (r: String)
    ensures
        r@ == dec_digits(n as nat),
    decreases n,
{
    let table = "0123456789";
    proof {
        reveal_strlit("0123456789");
    }
    if n < 10 {
        let d = table.substring_char(n as usize, n as usize + 1);
        proof {
            assert(d@ =~= seq![digit_char(n as nat)]);
        }
        d.to_owned()
    } else {
        let rest = dec_u64(n / 10);
        let m: u64 = n % 10;
        let d = table.substring_char(m as usize, m as usize + 1);
        proof {
            assert(d@ =~= seq![digit_char((n % 10) as nat)]);
            assert(dec_digits(n as nat) =~= dec_digits((n / 10) as nat) + seq![
                digit_char((n % 10) as nat),
            ]);
        }
        rest.concat(d)
    }
}

/// The words of `parts` joined by single spaces.
pub open spec fn join_spaces(parts: Seq<Seq<char>>) -> Seq<char>
    decreases parts.len(),
{
    if parts.len() == 0 {
        Seq::empty()
    } else if parts.len() == 1 {
        parts[0]
    } else {
        join_spaces(parts.drop_last()) + seq![' '] + parts.last()
    }
}

/// Joins the strings of `parts` with single spaces.
pub fn join_with_spaces(parts: &Vec<String>) -> (r: String)
    ensures
        r@ == join_spaces(parts.deep_view()),
{
    let mut r = String::new();
    let mut i: usize = 0;
    while i < parts.len()
        invariant
            i <= parts.len(),
            parts.deep_view().len() == parts@.len(),
            r@ == join_spaces(parts.deep_view().take(i as int)),
        decreases parts.len() - i,
    {
        if i > 0 {
            r.append(" ");
            proof {
                reveal_strlit(" ");
                assert(" "@ =~= seq![' ']);
            }
        }
        r.append(parts[i].as_str());
        proof {
            assert(parts.deep_view()[i as int] == parts@[i as int]@);
            assert(parts.deep_view().take(i as int + 1).drop_last() =~= parts.deep_view().take(
                i as int,
            ));
            assert(parts.deep_view().take(i as int + 1).last() == parts.deep_view()[i as int]);
        }
        i = i + 1;
    }
    proof {
        assert(parts.deep_view().take(parts@.len() as int) =~= parts.deep_view());
    }
    r
}

} // verus!
