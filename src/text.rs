//! Character-level helpers shared by the parsers and the editors: decimal
//! digits, number rendering, and moving between `String` and `Vec<char>`.

use vstd::prelude::*;
use vstd::std_specs::iter::IteratorSpec;

verus! {

broadcast use vstd::string::group_string_axioms;

/// Whether `c` is one of the ASCII digits `0`..`9`.
pub open spec fn is_digit(c: char) -> bool {
    '0' <= c && c <= '9'
}

/// The value of an ASCII digit.
pub open spec fn digit_value(c: char) -> int {
    (c as int) - ('0' as int)
}

/// Whether `s` is a non-empty run of ASCII digits.
pub open spec fn all_digits(s: Seq<char>) -> bool {
    s.len() > 0 && forall|i: int| 0 <= i < s.len() ==> is_digit(#[trigger] s[i])
}

/// The number that a run of decimal digits spells, most significant first.
pub open spec fn digits_value(s: Seq<char>) -> int
    decreases s.len(),
{
    if s.len() == 0 {
        0
    } else {
        digits_value(s.drop_last()) * 10 + digit_value(s.last())
    }
}

/// The character of the decimal digit `d`.
pub open spec fn digit_char(d: int) -> char {
    (('0' as int) + d) as char
}

/// The shortest decimal spelling of `n`.
pub open spec fn decimal_digits(n: nat) -> Seq<char>
    decreases n,
{
    if n < 10 {
        seq![digit_char(n as int)]
    } else {
        decimal_digits(n / 10).push(digit_char((n % 10) as int))
    }
}

/// The decimal spelling of `v`, with a leading `-` when it is negative.
pub open spec fn decimal_string(v: int) -> Seq<char> {
    if v < 0 {
        seq!['-'] + decimal_digits((-v) as nat)
    } else {
        decimal_digits(v as nat)
    }
}

/// A run of digits never spells less than any of its prefixes.
pub proof fn lemma_digits_prefix_le(s: Seq<char>, k: int)
    requires
        all_digits(s),
        0 <= k <= s.len(),
    ensures
        0 <= digits_value(s.subrange(0, k)) <= digits_value(s),
    decreases s.len(),
{
    if k < s.len() {
        let t = s.drop_last();
        if t.len() > 0 {
            assert(all_digits(t)) by {
                assert forall|i: int| 0 <= i < t.len() implies is_digit(#[trigger] t[i]) by {
                    assert(t[i] == s[i]);
                }
            }
            lemma_digits_prefix_le(t, k);
            assert(t.subrange(0, k) =~= s.subrange(0, k));
        } else {
            assert(s.subrange(0, k) =~= Seq::<char>::empty());
        }
        assert(is_digit(s[s.len() - 1]));
    } else {
        assert(s.subrange(0, k) =~= s);
        lemma_digits_nonneg(s);
    }
}

/// A run of digits spells a number that is not negative.
pub proof fn lemma_digits_nonneg(s: Seq<char>)
    requires
        forall|i: int| 0 <= i < s.len() ==> is_digit(#[trigger] s[i]),
    ensures
        digits_value(s) >= 0,
    decreases s.len(),
{
    if s.len() > 0 {
        let t = s.drop_last();
        assert forall|i: int| 0 <= i < t.len() implies is_digit(#[trigger] t[i]) by {
            assert(t[i] == s[i]);
        }
        lemma_digits_nonneg(t);
        assert(is_digit(s[s.len() - 1]));
    }
}

/// The number spelled by `cs[lo..hi]`, if that is a run of digits whose value
/// is at most `limit`.
pub fn parse_decimal(cs: &Vec<char>, lo: usize, hi: usize, limit: u64) -> (r: Option<u64>)
    requires
        lo <= hi <= cs.len(),
    ensures
        r == (if all_digits(cs@.subrange(lo as int, hi as int)) && digits_value(
            cs@.subrange(lo as int, hi as int),
        ) <= limit {
            Some(digits_value(cs@.subrange(lo as int, hi as int)) as u64)
        } else {
            None::<u64>
        }),
        r is Some ==> r->0 == digits_value(cs@.subrange(lo as int, hi as int)),
{
    let ghost s = cs@.subrange(lo as int, hi as int);
    if lo == hi {
        return None;
    }
    let mut v: u64 = 0;
    let mut i: usize = lo;
    while i < hi
        invariant
            lo <= i <= hi <= cs.len(),
            s == cs@.subrange(lo as int, hi as int),
            forall|j: int| 0 <= j < i - lo ==> is_digit(#[trigger] s[j]),
            v == digits_value(s.subrange(0, i - lo)),
            v <= limit,
        decreases hi - i,
    {
        let c = cs[i];
        assert(c == s[i - lo]);
        if !('0' <= c && c <= '9') {
            return None;
        }
        let d = (c as u32 - '0' as u32) as u64;
        let ghost p = s.subrange(0, i - lo + 1);
        assert(p.drop_last() =~= s.subrange(0, i - lo));
        assert(digits_value(p) == v * 10 + d);
        if d > limit {
            proof {
                if all_digits(s) {
                    lemma_digits_prefix_le(s, i - lo + 1);
                    lemma_digits_nonneg(s.subrange(0, i - lo));
                }
            }
            return None;
        }
        if v > (limit - d) / 10 {
            proof {
                assert(v * 10 + d > limit) by (nonlinear_arith)
                    requires
                        v > (limit - d) / 10,
                        d <= limit,
                ;
                if all_digits(s) {
                    lemma_digits_prefix_le(s, i - lo + 1);
                }
            }
            return None;
        }
        assert(v * 10 + d <= limit) by (nonlinear_arith)
            requires
                v <= (limit - d) / 10,
                d <= limit,
        ;
        v = v * 10 + d;
        i = i + 1;
    }
    assert(s.subrange(0, hi - lo) =~= s);
    Some(v)
}

/// The decimal digits of `n`, most significant first.
pub fn decimal_chars(n: u64) -> (r: Vec<char>)
    ensures
        r@ == decimal_digits(n as nat),
{
    let mut q = n;
    let mut out: Vec<char> = Vec::new();
    while q >= 10
        invariant
            decimal_digits(n as nat) == decimal_digits(q as nat) + out@,
        decreases q,
    {
        let d = (q % 10) as u8;
        let c = (48u8 + d) as char;
        assert(c == digit_char((q % 10) as int));
        let ghost old_out = out@;
        out.insert(0, c);
        assert(out@ =~= seq![c] + old_out);
        assert(decimal_digits(q as nat) == decimal_digits((q / 10) as nat).push(c));
        assert(decimal_digits((q / 10) as nat).push(c) + old_out =~= decimal_digits((q / 10) as nat)
            + out@);
        q = q / 10;
    }
    let c = (48u8 + q as u8) as char;
    assert(decimal_digits(q as nat) == seq![c]);
    let ghost old_out = out@;
    out.insert(0, c);
    assert(out@ =~= seq![c] + old_out);
    out
}

/// The decimal spelling of `v`, with a leading `-` when it is negative.
pub fn format_i64(v: i64) -> (r: String)
    ensures
        r@ == decimal_string(v as int),
{
    let mut s = String::new();
    let magnitude: u64 = if v < 0 {
        push_char(&mut s, '-');
        (-(v as i128)) as u64
    } else {
        v as u64
    };
    let digits = decimal_chars(magnitude);
    let mut i: usize = 0;
    let ghost head = s@;
    while i < digits.len()
        invariant
            i <= digits.len(),
            s@ == head + digits@.subrange(0, i as int),
        decreases digits.len() - i,
    {
        push_char(&mut s, digits[i]);
        assert(head + digits@.subrange(0, i + 1) =~= (head + digits@.subrange(0, i as int)).push(
            digits@[i as int],
        ));
        i = i + 1;
    }
    assert(digits@.subrange(0, digits.len() as int) =~= digits@);
    proof {
        if v >= 0 {
            assert(head =~= Seq::<char>::empty());
            assert(s@ =~= digits@);
        }
    }
    s
}

/// Relies on `String::push`: the character is appended at the end.
#[verifier::external_body]
fn push_char(s: &mut String, c: char)
    ensures
        final(s)@ == old(s)@.push(c),
{
    s.push(c);
}

/// The characters of `s`, in order.
pub fn chars_of(s: &str) -> (r: Vec<char>)
    ensures
        r@ == s@,
{
    let mut it = s.chars();
    let mut r: Vec<char> = Vec::new();
    loop
        invariant_except_break
            it.obeys_prophetic_iter_laws(),
            s@ == r@ + it.remaining(),
            it.decrease() is Some,
        ensures
            s@ == r@,
        decreases it.decrease()->0,
    {
        let ghost before = it;
        match it.next() {
            Some(c) => {
                r.push(c);
            },
            None => {
                assert(before.remaining().len() == 0);
                assert(s@ =~= r@);
                break;
            },
        }
    }
    r
}

/// A string holding exactly the characters of `v`.
pub fn string_of(v: &Vec<char>) -> (r: String)
    ensures
        r@ == v@,
{
    let mut r = String::new();
    let mut i: usize = 0;
    while i < v.len()
        invariant
            i <= v.len(),
            r@ == v@.subrange(0, i as int),
        decreases v.len() - i,
    {
        push_char(&mut r, v[i]);
        proof {
            assert(v@.subrange(0, i as int).push(v@[i as int]) =~= v@.subrange(0, i + 1));
        }
        i = i + 1;
    }
    proof {
        assert(v@.subrange(0, v.len() as int) =~= v@);
    }
    r
}

} // verus!
