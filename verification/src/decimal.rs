//! Base-10 text: rendering unsigned integers as digit strings and reading
//! them back. The rendered text is what the CSV rows are built from, so the
//! key facts proved here are that rendered digits never contain a separator
//! and that rendering and reading are inverses.

use vstd::arithmetic::div_mod::*;
use vstd::prelude::*;

verus! {

/// The digit character for a value between 0 and 9.
pub open spec fn dec_digit(d: int) -> char {
    if d == 0 {
        '0'
    } else if d == 1 {
        '1'
    } else if d == 2 {
        '2'
    } else if d == 3 {
        '3'
    } else if d == 4 {
        '4'
    } else if d == 5 {
        '5'
    } else if d == 6 {
        '6'
    } else if d == 7 {
        '7'
    } else if d == 8 {
        '8'
    } else {
        '9'
    }
}

/// The value of a digit character, or -1 for any other character.
pub open spec fn digit_val(c: char) -> int {
    if c == '0' {
        0
    } else if c == '1' {
        1
    } else if c == '2' {
        2
    } else if c == '3' {
        3
    } else if c == '4' {
        4
    } else if c == '5' {
        5
    } else if c == '6' {
        6
    } else if c == '7' {
        7
    } else if c == '8' {
        8
    } else if c == '9' {
        9
    } else {
        -1
    }
}

pub open spec fn is_digit(c: char) -> bool {
    digit_val(c) >= 0
}

pub open spec fn all_digits(s: Seq<char>) -> bool {
    forall|k: int| 0 <= k < s.len() ==> is_digit(#[trigger] s[k])
}

/// The digits of `n` in base 10, most significant first; empty for 0.
pub open spec fn dec_rep(n: int) -> Seq<char>
    decreases n,
{
    if n <= 0 {
        Seq::empty()
    } else {
        dec_rep(n / 10).push(dec_digit(n % 10))
    }
}

/// The usual decimal rendering of a non-negative `n`: "0" for 0, the plain
/// digits otherwise.
pub open spec fn dec_str(n: int) -> Seq<char> {
    if n <= 0 {
        seq!['0']
    } else {
        dec_rep(n)
    }
}

/// The number a digit string denotes.
pub open spec fn dec_value(s: Seq<char>) -> int
    decreases s.len(),
{
    if s.len() == 0 {
        0
    } else {
        dec_value(s.drop_last()) * 10 + digit_val(s.last())
    }
}

/// How often `c` occurs in `s`.
pub open spec fn count_char(s: Seq<char>, c: char) -> int
    decreases s.len(),
{
    if s.len() == 0 {
        0int
    } else {
        count_char(s.drop_last(), c) + if s.last() == c {
            1int
        } else {
            0int
        }
    }
}

/// One more than the number of commas: how many comma-separated fields
/// a line has.
pub open spec fn field_count(s: Seq<char>) -> int {
    count_char(s, ',') + 1
}

/// Character counts add up over concatenation.
pub proof fn lemma_count_char_concat(a: Seq<char>, b: Seq<char>, c: char)
    ensures
        count_char(a + b, c) == count_char(a, c) + count_char(b, c),
    decreases b.len(),
{
    if b.len() == 0 {
        assert(a + b =~= a);
    } else {
        lemma_count_char_concat(a, b.drop_last(), c);
        assert((a + b).drop_last() =~= a + b.drop_last());
        assert((a + b).last() == b.last());
    }
}

/// A string without `c` has no occurrence of `c` to count.
pub proof fn lemma_count_char_absent(s: Seq<char>, c: char)
    requires
        forall|k: int| 0 <= k < s.len() ==> s[k] != c,
    ensures
        count_char(s, c) == 0,
    decreases s.len(),
{
    if s.len() > 0 {
        lemma_count_char_absent(s.drop_last(), c);
    }
}

/// Every character of a decimal rendering is a digit.
pub proof fn lemma_dec_rep_digits(n: int)
    ensures
        all_digits(dec_rep(n)),
    decreases n,
{
    if n > 0 {
        lemma_dec_rep_digits(n / 10);
        lemma_mod_bound(n, 10);
    }
}

pub proof fn lemma_dec_str_digits(n: int)
    ensures
        all_digits(dec_str(n)),
        dec_str(n).len() > 0,
{
    lemma_dec_rep_digits(n);
    if n > 0 {
        assert(dec_rep(n).len() > 0);
    }
}

/// Digit strings contain no separator characters.
pub proof fn lemma_digits_no_separator(s: Seq<char>)
    requires
        all_digits(s),
    ensures
        count_char(s, ',') == 0,
        count_char(s, '\n') == 0,
{
    assert(forall|k: int| 0 <= k < s.len() ==> s[k] != ',' && s[k] != '\n');
    lemma_count_char_absent(s, ',');
    lemma_count_char_absent(s, '\n');
}

/// Reading back a rendered number gives the number again.
pub proof fn lemma_dec_rep_value(n: int)
    requires
        n >= 0,
    ensures
        dec_value(dec_rep(n)) == n,
    decreases n,
{
    if n > 0 {
        lemma_dec_rep_value(n / 10);
        lemma_fundamental_div_mod(n, 10);
        assert(dec_rep(n).drop_last() =~= dec_rep(n / 10));
        lemma_mod_bound(n, 10);
    }
}

/// Rendering then reading is the identity on non-negative numbers.
pub proof fn lemma_dec_round_trip(n: int)
    requires
        n >= 0,
    ensures
        dec_value(dec_str(n)) == n,
{
    if n == 0 {
        assert(seq!['0'].drop_last() =~= Seq::<char>::empty());
        assert(dec_value(Seq::<char>::empty()) == 0);
        assert(dec_value(seq!['0']) == dec_value(seq!['0'].drop_last()) * 10 + digit_val('0'));
    } else {
        lemma_dec_rep_value(n);
    }
}

/// Powers of ten.
pub open spec fn pow10(k: int) -> int
    decreases k,
{
    if k <= 0 {
        1
    } else {
        10 * pow10(k - 1)
    }
}

pub proof fn lemma_pow10_positive(k: int)
    ensures
        pow10(k) >= 1,
    decreases k,
{
    if k > 0 {
        lemma_pow10_positive(k - 1);
    }
}

/// The value of a digit string is non-negative.
pub proof fn lemma_dec_value_nonneg(s: Seq<char>)
    requires
        all_digits(s),
    ensures
        dec_value(s) >= 0,
    decreases s.len(),
{
    if s.len() > 0 {
        lemma_dec_value_nonneg(s.drop_last());
    }
}

/// Concatenation shifts the left part by a power of ten.
pub proof fn lemma_dec_value_concat(a: Seq<char>, b: Seq<char>)
    ensures
        dec_value(a + b) == dec_value(a) * pow10(b.len() as int) + dec_value(b),
    decreases b.len(),
{
    if b.len() == 0 {
        assert(a + b =~= a);
    } else {
        lemma_dec_value_concat(a, b.drop_last());
        assert((a + b).drop_last() =~= a + b.drop_last());
        assert((a + b).last() == b.last());
        assert(dec_value(a + b) == (dec_value(a) * pow10(b.len() - 1) + dec_value(b.drop_last()))
            * 10 + digit_val(b.last()));
        assert((dec_value(a) * pow10(b.len() - 1)) * 10 == dec_value(a) * (pow10(b.len() - 1)
            * 10)) by (nonlinear_arith);
        assert(pow10(b.len() - 1) * 10 == pow10(b.len() as int));
    }
}

/// A digit string is worth at least any of its prefixes.
pub proof fn lemma_dec_value_prefix(s: Seq<char>, k: int)
    requires
        all_digits(s),
        0 <= k <= s.len(),
    ensures
        dec_value(s) >= dec_value(s.subrange(0, k)),
{
    let a = s.subrange(0, k);
    let b = s.subrange(k, s.len() as int);
    assert(s =~= a + b);
    lemma_dec_value_concat(a, b);
    lemma_pow10_positive(b.len() as int);
    assert(all_digits(a));
    assert(all_digits(b)) by {
        assert(forall|j: int| 0 <= j < b.len() ==> b[j] == s[k + j]);
    }
    lemma_dec_value_nonneg(a);
    lemma_dec_value_nonneg(b);
    assert(dec_value(a) * pow10(b.len() as int) >= dec_value(a) * 1) by (nonlinear_arith)
        requires
            pow10(b.len() as int) >= 1,
            dec_value(a) >= 0,
    ;
}

/// The digit value of a character, if it is a digit.
pub fn digit_of(c: char) -> (r: Option<u8>)
    ensures
        r is Some <==> is_digit(c),
        r is Some ==> r->Some_0 as int == digit_val(c),
{
    match c {
        '0' => Some(0),
        '1' => Some(1),
        '2' => Some(2),
        '3' => Some(3),
        '4' => Some(4),
        '5' => Some(5),
        '6' => Some(6),
        '7' => Some(7),
        '8' => Some(8),
        '9' => Some(9),
        _ => None,
    }
}

/// Append the digit character for `d` to `s`.
fn push_digit(s: &mut String, d: u8)
    requires
        d < 10,
    ensures
        final(s)@ == old(s)@ + seq![dec_digit(d as int)],
{
    let t: &str = match d {
        0 => "0",
        1 => "1",
        2 => "2",
        3 => "3",
        4 => "4",
        5 => "5",
        6 => "6",
        7 => "7",
        8 => "8",
        _ => "9",
    };
    proof {
        reveal_strlit("0");
        reveal_strlit("1");
        reveal_strlit("2");
        reveal_strlit("3");
        reveal_strlit("4");
        reveal_strlit("5");
        reveal_strlit("6");
        reveal_strlit("7");
        reveal_strlit("8");
        reveal_strlit("9");
        assert(t@ =~= seq![dec_digit(d as int)]);
    }
    s.append(t);
}

/// Append the digits of `n` (nothing for 0) to `s`.
fn push_dec_rep(s: &mut String, n: u128)
    ensures
        final(s)@ == old(s)@ + dec_rep(n as int),
    decreases n,
{
    if n > 0 {
        push_dec_rep(s, n / 10);
        push_digit(s, (n % 10) as u8);
        proof {
            assert(s@ =~= old(s)@ + dec_rep(n as int));
        }
    } else {
        proof {
            assert(s@ =~= old(s)@ + dec_rep(0));
        }
    }
}

/// Append the decimal rendering of `n` to `s`.
pub fn push_dec(s: &mut String, n: u128)
    ensures
        final(s)@ == old(s)@ + dec_str(n as int),
{
    if n == 0 {
        push_digit(s, 0);
    } else {
        push_dec_rep(s, n);
    }
}

/// The digit part of integer text: std's unsigned parsing accepts one
/// leading '+' before the digits.
pub open spec fn parse_digits(s: Seq<char>) -> Seq<char> {
    if s.len() > 0 && s[0] == '+' {
        s.skip(1)
    } else {
        s
    }
}

/// What std's u64 parsing makes of `s`: its value when `s` is an optional
/// '+' followed by at least one digit and the value fits, nothing else.
pub open spec fn parsed_u64(s: Seq<char>) -> Option<u64> {
    let d = parse_digits(s);
    if d.len() > 0 && all_digits(d) && dec_value(d) <= u64::MAX {
        Some(dec_value(d) as u64)
    } else {
        None
    }
}

/// Read a u64 from the characters [from, to) of `s`, exactly as
/// `parsed_u64` describes.
pub fn parse_u64_range(s: &str, from: usize, to: usize) -> (r: Option<u64>)
    requires
        from <= to <= s@.len(),
    ensures
        r == parsed_u64(s@.subrange(from as int, to as int)),
{
    let ghost seg = s@.subrange(from as int, to as int);
    let start: usize = if from < to && s.get_char(from) == '+' {
        from + 1
    } else {
        from
    };
    let ghost d = parse_digits(seg);
    proof {
        assert(d =~= s@.subrange(start as int, to as int));
    }
    if start >= to {
        return None;
    }
    let mut val: u64 = 0;
    let mut k: usize = start;
    while k < to
        invariant
            from <= start <= k <= to <= s@.len(),
            start < to,
            seg == s@.subrange(from as int, to as int),
            d == parse_digits(seg),
            d == s@.subrange(start as int, to as int),
            all_digits(s@.subrange(start as int, k as int)),
            val as int == dec_value(s@.subrange(start as int, k as int)),
        decreases to - k,
    {
        let c = s.get_char(k);
        match digit_of(c) {
            None => {
                proof {
                    assert(d[k - start] == s@[k as int]);
                    assert(!is_digit(d[k - start]));
                }
                return None;
            },
            Some(dg) => {
                let ghost pre = s@.subrange(start as int, k as int + 1);
                proof {
                    assert(pre.drop_last() =~= s@.subrange(start as int, k as int));
                    assert(pre.last() == s@[k as int]);
                    assert(dec_value(pre) == (val as int) * 10 + dg as int);
                    assert(all_digits(pre)) by {
                        assert(forall|j: int|
                            0 <= j < pre.len() - 1 ==> pre[j] == s@.subrange(
                                start as int,
                                k as int,
                            )[j]);
                    }
                }
                let m = match val.checked_mul(10) {
                    Some(m) => m,
                    None => {
                        proof {
                            if all_digits(d) {
                                assert(pre =~= d.subrange(0, k as int + 1 - start));
                                lemma_dec_value_prefix(d, k as int + 1 - start);
                            }
                        }
                        return None;
                    },
                };
                let nv = match m.checked_add(dg as u64) {
                    Some(v) => v,
                    None => {
                        proof {
                            if all_digits(d) {
                                assert(pre =~= d.subrange(0, k as int + 1 - start));
                                lemma_dec_value_prefix(d, k as int + 1 - start);
                            }
                        }
                        return None;
                    },
                };
                val = nv;
            },
        }
        k = k + 1;
    }
    proof {
        assert(s@.subrange(start as int, to as int) =~= s@.subrange(start as int, k as int));
    }
    Some(val)
}

/// Rendering a number and reading the text back, as std's u64 parsing
/// would, yields the number again.
pub proof fn lemma_render_parse_round_trip(n: int)
    requires
        0 <= n <= u64::MAX,
    ensures
        parsed_u64(dec_str(n)) == Some(n as u64),
{
    lemma_dec_str_digits(n);
    assert(digit_val('+') == -1);
    assert(dec_str(n)[0] != '+');
    assert(parse_digits(dec_str(n)) == dec_str(n));
    lemma_dec_round_trip(n);
}

} // verus!
