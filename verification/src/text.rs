use vstd::prelude::*;
use vstd::string::StrSliceExecFns;
use vstd::string::StringExecFns;

verus! {

/// The name and value of one string pair, as character sequences.
pub open spec fn kv(p: (String, String)) -> (Seq<char>, Seq<char>) {
    (p.0@, p.1@)
}

/// True when `s` begins with the prefix `p`.
pub open spec fn starts_with(s: Seq<char>, p: Seq<char>) -> bool {
    p.len() <= s.len() && s.subrange(0, p.len() as int) == p
}

/// Compares two strings character by character.
pub fn str_eq(a: &str, b: &str) -> (r: bool)
    ensures
        r == (a@ == b@),
{
    let alen = a.unicode_len();
    let blen = b.unicode_len();
    if alen != blen {
        return false;
    }
    let mut i: usize = 0;
    while i < alen
        invariant
            alen == a@.len(),
            alen == b@.len(),
            i <= alen,
            forall|j: int| 0 <= j < i ==> a@[j] == b@[j],
        decreases alen - i,
    {
        if a.get_char(i) != b.get_char(i) {
            return false;
        }
        i += 1;
    }
    proof {
        assert(a@ =~= b@);
    }
    true
}

/// Removes the prefix `p` from `s`, returning the remainder as an owned
/// string, or `None` when `s` does not begin with `p`.
pub fn strip_prefix_owned(s: &str, p: &str) -> (r: Option<String>)
    ensures
        match r {
            Some(t) => starts_with(s@, p@) && t@ == s@.skip(p@.len() as int),
            None => !starts_with(s@, p@),
        },
{
    let slen = s.unicode_len();
    let plen = p.unicode_len();
    if plen > slen {
        return None;
    }
    let mut i: usize = 0;
    while i < plen
        invariant
            slen == s@.len(),
            plen == p@.len(),
            plen <= slen,
            i <= plen,
            forall|j: int| 0 <= j < i ==> s@[j] == p@[j],
        decreases plen - i,
    {
        if s.get_char(i) != p.get_char(i) {
            proof {
                assert(s@.subrange(0, p@.len() as int)[i as int] == s@[i as int]);
            }
            return None;
        }
        i += 1;
    }
    proof {
        assert(s@.subrange(0, p@.len() as int) =~= p@);
        assert(s@.subrange(plen as int, slen as int) =~= s@.skip(p@.len() as int));
    }
    Some(s.substring_char(plen, slen).to_owned())
}

/// True when `c` is an ASCII decimal digit.
pub open spec fn is_digit(c: char) -> bool {
    '0' as int <= c as int <= '9' as int
}

/// True when every character of `s` is an ASCII decimal digit.
pub open spec fn all_digits(s: Seq<char>) -> bool {
    forall|i: int| 0 <= i < s.len() ==> is_digit(#[trigger] s[i])
}

/// The non-negative integer denoted by a sequence of decimal digits, most
/// significant first.
pub open spec fn dec_value(s: Seq<char>) -> int
    decreases s.len(),
{
    if s.len() == 0 {
        0
    } else {
        dec_value(s.drop_last()) * 10 + (s.last() as int - '0' as int)
    }
}

/// What `str::parse::<i64>` accepts and returns: an optional sign followed by
/// one or more ASCII digits, denoting a value within the range of `i64`.
pub open spec fn parse_i64_spec(s: Seq<char>) -> Option<int> {
    if s.len() > 0 && s[0] == '-' {
        parse_i64_magnitude(s.skip(1), true)
    } else if s.len() > 0 && s[0] == '+' {
        parse_i64_magnitude(s.skip(1), false)
    } else {
        parse_i64_magnitude(s, false)
    }
}

/// The signed value of a digit string, when it is one and the value fits in
/// `i64`.
pub open spec fn parse_i64_magnitude(digits: Seq<char>, negative: bool) -> Option<int> {
    if digits.len() == 0 || !all_digits(digits) {
        None
    } else if negative && -dec_value(digits) >= i64::MIN {
        Some(-dec_value(digits))
    } else if !negative && dec_value(digits) <= i64::MAX {
        Some(dec_value(digits))
    } else {
        None
    }
}

/// A digit string denotes a non-negative value.
proof fn lemma_dec_value_nonneg(s: Seq<char>)
    requires
        all_digits(s),
    ensures
        dec_value(s) >= 0,
    decreases s.len(),
{
    if s.len() > 0 {
        assert(all_digits(s.drop_last())) by {
            assert(forall|i: int| 0 <= i < s.len() - 1 ==> s.drop_last()[i] == s[i]);
        }
        lemma_dec_value_nonneg(s.drop_last());
    }
}

/// Extending a digit string on the right cannot shrink its value.
proof fn lemma_dec_value_prefix(s: Seq<char>, k: int)
    requires
        all_digits(s),
        0 <= k <= s.len(),
    ensures
        dec_value(s.take(k)) <= dec_value(s),
    decreases s.len() - k,
{
    if k < s.len() {
        lemma_dec_value_prefix(s, k + 1);
        assert(s.take(k + 1).drop_last() =~= s.take(k));
        assert(all_digits(s.take(k))) by {
            assert(forall|i: int| 0 <= i < k ==> s.take(k)[i] == s[i]);
        }
        lemma_dec_value_nonneg(s.take(k));
        assert(dec_value(s.take(k)) <= dec_value(s.take(k)) * 10) by (nonlinear_arith)
            requires dec_value(s.take(k)) >= 0;
        assert(s.take(k + 1).last() == s[k]);
        assert(dec_value(s.take(k)) <= dec_value(s.take(k + 1)));
    } else {
        assert(s.take(k) =~= s);
    }
}

/// Parses a string exactly as `str::parse::<i64>` does: an optional `+` or
/// `-` sign followed by one or more ASCII digits, rejecting anything else and
/// any value outside the range of `i64`.
pub fn parse_i64(s: &str) -> (r: Option<i64>)
    ensures
        match r {
            Some(v) => parse_i64_spec(s@) == Some(v as int),
            None => parse_i64_spec(s@) is None,
        },
{
    let len = s.unicode_len();
    if len == 0 {
        return None;
    }
    let c0 = s.get_char(0);
    let negative = c0 == '-';
    let start: usize = if c0 == '-' || c0 == '+' {
        1
    } else {
        0
    };
    if start == len {
        return None;
    }
    let ghost digits: Seq<char> = s@.skip(start as int);
    let limit: u64 = if negative {
        9223372036854775808
    } else {
        9223372036854775807
    };
    let mut acc: u64 = 0;
    let mut i: usize = start;
    while i < len
        invariant
            len == s@.len(),
            start <= i <= len,
            start < len,
            start <= 1,
            digits == s@.skip(start as int),
            negative ==> s@[0] == '-',
            !negative && start == 1 ==> s@[0] == '+',
            start == 0 ==> !(s@[0] == '-' || s@[0] == '+'),
            limit == if negative { 9223372036854775808u64 } else { 9223372036854775807u64 },
            all_digits(digits.take(i - start)),
            acc == dec_value(digits.take(i - start)),
            acc <= limit,
        decreases len - i,
    {
        let c = s.get_char(i);
        let cv = c as u32;
        if cv < 48 || cv > 57 {
            proof {
                assert(digits[i - start] == s@[i as int]);
                assert(!is_digit(digits[i - start]));
                assert(!all_digits(digits));
            }
            return None;
        }
        let d = (cv - 48) as u64;
        proof {
            assert(is_digit(s@[i as int]));
            assert(digits.take(i + 1 - start).drop_last() =~= digits.take(i - start));
            assert(digits.take(i + 1 - start).last() == s@[i as int]);
        }
        if acc > limit / 10 || (acc == limit / 10 && d > limit % 10) {
            proof {
                let taken = digits.take(i + 1 - start);
                assert(dec_value(taken) == acc * 10 + d);
                assert(dec_value(taken) > limit);
                if all_digits(digits) {
                    lemma_dec_value_prefix(digits, i + 1 - start);
                    assert(dec_value(digits) > limit);
                }
                assert(s@.skip(0) =~= s@);
                assert(parse_i64_spec(s@) == parse_i64_magnitude(digits, negative));
            }
            return None;
        }
        acc = acc * 10 + d;
        i += 1;
    }
    proof {
        assert(digits.take(len - start) =~= digits);
        assert(all_digits(digits));
        assert(dec_value(digits) == acc);
        assert(s@.skip(0) =~= s@);
        assert(parse_i64_spec(s@) == parse_i64_magnitude(digits, negative));
    }
    if negative {
        if acc == 9223372036854775808 {
            Some(i64::MIN)
        } else {
            Some(-(acc as i64))
        }
    } else {
        Some(acc as i64)
    }
}

/// The decimal rendering of a digit value.
pub open spec fn digit_char(d: int) -> char {
    if d == 0 { '0' }
    else if d == 1 { '1' }
    else if d == 2 { '2' }
    else if d == 3 { '3' }
    else if d == 4 { '4' }
    else if d == 5 { '5' }
    else if d == 6 { '6' }
    else if d == 7 { '7' }
    else if d == 8 { '8' }
    else { '9' }
}

/// The decimal rendering of a non-negative integer, most significant digit
/// first and without leading zeros.
pub open spec fn dec_digits(n: nat) -> Seq<char>
    decreases n,
{
    if n < 10 {
        seq![digit_char(n as int)]
    } else {
        dec_digits(n / 10).push(digit_char((n % 10) as int))
    }
}

/// A one-character string for a digit value.
fn digit_to_str(d: u64) -> (r: &'static str)
    requires
        d < 10,
    ensures
        r@ =~= seq![digit_char(d as int)],
{
    if d == 0 { proof { reveal_strlit("0"); } "0" }
    else if d == 1 { proof { reveal_strlit("1"); } "1" }
    else if d == 2 { proof { reveal_strlit("2"); } "2" }
    else if d == 3 { proof { reveal_strlit("3"); } "3" }
    else if d == 4 { proof { reveal_strlit("4"); } "4" }
    else if d == 5 { proof { reveal_strlit("5"); } "5" }
    else if d == 6 { proof { reveal_strlit("6"); } "6" }
    else if d == 7 { proof { reveal_strlit("7"); } "7" }
    else if d == 8 { proof { reveal_strlit("8"); } "8" }
    else { proof { reveal_strlit("9"); } "9" }
}

/// Appends the decimal rendering of `n` to `out`.
fn push_decimal(out: &mut String, n: u64)
    ensures
        final(out)@ == old(out)@ + dec_digits(n as nat),
    decreases n,
{
    if n < 10 {
        let s = digit_to_str(n);
        out.append(s);
    } else {
        push_decimal(out, n / 10);
        let s = digit_to_str(n % 10);
        out.append(s);
        proof {
            assert(old(out)@ + dec_digits((n / 10) as nat) + seq![
                digit_char((n % 10) as int),
            ] =~= old(out)@ + dec_digits(n as nat));
        }
    }
}

/// Renders `n` in decimal, most significant digit first and without leading
/// zeros: the one digit string that denotes `n`.
pub fn u64_to_string(n: u64) -> (s: String)
    ensures
        s@ == dec_digits(n as nat),
        all_digits(s@),
        s@.len() >= 1,
        dec_value(s@) == n as int,
        s@.len() > 1 ==> s@[0] != '0',
{
    let mut s = String::new();
    push_decimal(&mut s, n);
    proof {
        assert(Seq::<char>::empty() + dec_digits(n as nat) =~= dec_digits(n as nat));
        lemma_dec_digits_value(n as nat);
    }
    s
}

/// The decimal rendering of an integer is made of digits, has no leading
/// zero, and parses back to the integer it renders.
pub proof fn lemma_dec_digits_value(n: nat)
    ensures
        all_digits(dec_digits(n)),
        dec_digits(n).len() >= 1,
        dec_value(dec_digits(n)) == n,
        n >= 10 ==> dec_digits(n).len() >= 2,
        dec_digits(n)[0] != '0' || n < 10,
    decreases n,
{
    if n < 10 {
        assert(dec_digits(n) =~= seq![digit_char(n as int)]);
        assert(dec_value(dec_digits(n)) == dec_value(
            dec_digits(n).drop_last(),
        ) * 10 + (dec_digits(n).last() as int - '0' as int));
        assert(dec_digits(n).drop_last() =~= Seq::<char>::empty());
    } else {
        lemma_dec_digits_value(n / 10);
        assert(dec_digits(n).drop_last() =~= dec_digits(n / 10));
        assert(dec_digits(n).last() == digit_char((n % 10) as int));
        assert(dec_digits(n)[0] == dec_digits(n / 10)[0]);
    }
}

} // verus!
