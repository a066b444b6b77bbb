use vstd::prelude::*;

verus! {

/// The decimal digit character for a value below ten.
pub open spec fn digit_char(d: int) -> char {
    if d == 0 {
        '0'
    } else if d == 1 {
        '1'
    } else if d == 2 {
        '2'
    } else if d == 3 {
        '3'
    } else if d == 4 {
        '4'
    } else if d == 5 {
        '5'
    } else if d == 6 {
        '6'
    } else if d == 7 {
        '7'
    } else if d == 8 {
        '8'
    } else {
        '9'
    }
}

/// The value of a decimal digit character, or -1 for any other character.
pub open spec fn digit_val(c: char) -> int {
    if c == '0' {
        0
    } else if c == '1' {
        1
    } else if c == '2' {
        2
    } else if c == '3' {
        3
    } else if c == '4' {
        4
    } else if c == '5' {
        5
    } else if c == '6' {
        6
    } else if c == '7' {
        7
    } else if c == '8' {
        8
    } else if c == '9' {
        9
    } else {
        -1
    }
}

pub open spec fn is_digit(c: char) -> bool {
    digit_val(c) >= 0
}

pub open spec fn all_digits(s: Seq<char>) -> bool {
    forall|i: int| 0 <= i < s.len() ==> is_digit(#[trigger] s[i])
}

/// The decimal text of a natural number, without sign or leading zeros.
pub open spec fn nat_text(n: nat) -> Seq<char>
    decreases n,
{
    if n < 10 {
        seq![digit_char(n as int)]
    } else {
        nat_text(n / 10).push(digit_char((n % 10) as int))
    }
}

/// The decimal text of an integer: a minus sign for negatives, then digits.
pub open spec fn int_text(i: int) -> Seq<char> {
    if i < 0 {
        seq!['-'] + nat_text((-i) as nat)
    } else {
        nat_text(i as nat)
    }
}

/// The number denoted by a sequence of decimal digits (0 when empty).
pub open spec fn digits_val(s: Seq<char>) -> int
    decreases s.len(),
{
    if s.len() == 0 {
        0
    } else {
        digits_val(s.drop_last()) * 10 + digit_val(s.last())
    }
}

/// Shape of an optionally signed (`-` or `+`), non-empty decimal numeral.
pub open spec fn numeral_shape(s: Seq<char>) -> bool {
    if s.len() >= 1 && (s[0] == '-' || s[0] == '+') {
        s.len() >= 2 && all_digits(s.skip(1))
    } else {
        s.len() >= 1 && all_digits(s)
    }
}

/// The integer denoted by an optionally signed numeral.
pub open spec fn numeral_val(s: Seq<char>) -> int {
    if s.len() >= 1 && s[0] == '-' {
        -digits_val(s.skip(1))
    } else if s.len() >= 1 && s[0] == '+' {
        digits_val(s.skip(1))
    } else {
        digits_val(s)
    }
}

fn digit_to_char(d: u64) -> (r: char)
    requires
        d < 10,
    ensures
        r == digit_char(d as int),
{
    if d == 0 {
        '0'
    } else if d == 1 {
        '1'
    } else if d == 2 {
        '2'
    } else if d == 3 {
        '3'
    } else if d == 4 {
        '4'
    } else if d == 5 {
        '5'
    } else if d == 6 {
        '6'
    } else if d == 7 {
        '7'
    } else if d == 8 {
        '8'
    } else {
        '9'
    }
}

/// The digit value of a character, when it is a decimal digit.
pub fn char_digit(c: char) -> (r: Option<u8>)
    ensures
        match r {
            Some(d) => digit_val(c) == d as int && d < 10,
            None => !is_digit(c),
        },
{
    if c == '0' {
        Some(0)
    } else if c == '1' {
        Some(1)
    } else if c == '2' {
        Some(2)
    } else if c == '3' {
        Some(3)
    } else if c == '4' {
        Some(4)
    } else if c == '5' {
        Some(5)
    } else if c == '6' {
        Some(6)
    } else if c == '7' {
        Some(7)
    } else if c == '8' {
        Some(8)
    } else if c == '9' {
        Some(9)
    } else {
        None
    }
}

fn push_digits(n: u64, out: &mut Vec<char>)
    ensures
        final(out)@ == old(out)@ + nat_text(n as nat),
    decreases n,
{
    if n < 10 {
        out.push(digit_to_char(n));
        proof {
            assert(final(out)@ =~= old(out)@ + nat_text(n as nat));
        }
    } else {
        push_digits(n / 10, out);
        out.push(digit_to_char(n % 10));
        proof {
            assert(final(out)@ =~= old(out)@ + nat_text(n as nat));
        }
    }
}

/// The decimal text of an integer.
pub fn format_i64(n: i64) -> (r: Vec<char>)
    ensures
        r@ == int_text(n as int),
{
    let mut out: Vec<char> = Vec::new();
    if n >= 0 {
        push_digits(n as u64, &mut out);
        proof {
            assert(out@ =~= int_text(n as int));
        }
    } else {
        out.push('-');
        let m128: i128 = -(n as i128);
        proof {
            assert(0 < m128 <= 0x8000_0000_0000_0000i128);
        }
        let m: u64 = m128 as u64;
        push_digits(m, &mut out);
        proof {
            assert(m as nat == (-(n as int)) as nat);
            assert(out@ =~= int_text(n as int));
        }
    }
    out
}

proof fn lemma_digits_val_snoc(s: Seq<char>, c: char)
    ensures
        digits_val(s.push(c)) == digits_val(s) * 10 + digit_val(c),
{
    assert(s.push(c).drop_last() =~= s);
    assert(s.push(c).last() == c);
}

proof fn lemma_digits_val_nonneg(s: Seq<char>)
    requires
        all_digits(s),
    ensures
        digits_val(s) >= 0,
    decreases s.len(),
{
    if s.len() > 0 {
        assert(all_digits(s.drop_last()));
        lemma_digits_val_nonneg(s.drop_last());
        assert(is_digit(s.last()));
    }
}

proof fn lemma_digits_val_prefix(s: Seq<char>, i: int)
    requires
        all_digits(s),
        0 <= i <= s.len(),
    ensures
        digits_val(s) >= digits_val(s.subrange(0, i)),
        digits_val(s.subrange(0, i)) >= 0,
    decreases s.len() - i,
{
    assert(all_digits(s.subrange(0, i)));
    lemma_digits_val_nonneg(s.subrange(0, i));
    if i < s.len() {
        lemma_digits_val_prefix(s, i + 1);
        assert(s.subrange(0, i + 1).drop_last() =~= s.subrange(0, i));
        assert(s.subrange(0, i + 1).last() == s[i]);
        assert(is_digit(s[i]));
        assert(digits_val(s.subrange(0, i + 1)) == digits_val(s.subrange(0, i)) * 10 + digit_val(
            s[i],
        ));
    } else {
        assert(s.subrange(0, i) =~= s);
    }
}

/// The decimal text of a natural number consists of digits and denotes
/// that number: printing and reading an integer are mutual inverses.
pub proof fn lemma_nat_text_val(n: nat)
    ensures
        all_digits(nat_text(n)),
        digits_val(nat_text(n)) == n,
        nat_text(n).len() >= 1,
        nat_text(n)[0] != '-',
        nat_text(n)[0] != '+',
    decreases n,
{
    if n < 10 {
        assert(digits_val(nat_text(n)) == digits_val(Seq::<char>::empty()) * 10 + digit_val(
            digit_char(n as int),
        )) by {
            assert(nat_text(n).drop_last() =~= Seq::<char>::empty());
        }
    } else {
        lemma_nat_text_val(n / 10);
        lemma_digits_val_snoc(nat_text(n / 10), digit_char((n % 10) as int));
        assert(all_digits(nat_text(n))) by {
            let t = nat_text(n / 10);
            let w = t.push(digit_char((n % 10) as int));
            assert(forall|i: int| 0 <= i < t.len() ==> w[i] == t[i]);
            assert(is_digit(w[t.len() as int]));
        }
        assert(n / 10 * 10 + n % 10 == n);
    }
}

/// Reading an integer's printed text yields the integer back.
pub proof fn lemma_int_text_round_trip(n: int)
    ensures
        numeral_shape(int_text(n)),
        numeral_val(int_text(n)) == n,
{
    if n < 0 {
        lemma_nat_text_val((-n) as nat);
        let s = int_text(n);
        assert(s[0] == '-');
        assert(s.skip(1) =~= nat_text((-n) as nat));
    } else {
        lemma_nat_text_val(n as nat);
        let s = int_text(n);
        assert(s[0] != '-' && s[0] != '+');
    }
}

/// Parses an optionally signed decimal numeral as a 64-bit integer.
/// Returns the value exactly when the text has numeral shape and its value
/// fits; leading zeros are accepted.
pub fn parse_i64(s: &[char]) -> (r: Option<i64>)
    ensures
        match r {
            Some(n) => numeral_shape(s@) && numeral_val(s@) == n as int,
            None => !(numeral_shape(s@) && i64::MIN <= numeral_val(s@) <= i64::MAX),
        },
{
    let n = s.len();
    if n == 0 {
        return None;
    }
    let neg = s[0] == '-';
    let signed = neg || s[0] == '+';
    let start: usize = if signed { 1 } else { 0 };
    if start >= n {
        return None;
    }
    let ghost digits = if signed { s@.skip(1) } else { s@ };
    let mut acc: i128 = 0;
    let bound: i128 = 9223372036854775807i128 + 1;
    let mut i: usize = start;
    while i < n
        invariant
            start <= i <= n,
            n == s@.len(),
            neg == (s@[0] == '-'),
            signed == (s@[0] == '-' || s@[0] == '+'),
            start == if signed { 1int } else { 0int },
            digits == if signed { s@.skip(1) } else { s@ },
            all_digits(digits.subrange(0, i - start)),
            acc == digits_val(digits.subrange(0, i - start)),
            0 <= acc <= bound,
            bound == 0x8000_0000_0000_0000i128,
        decreases n - i,
    {
        let c = s[i];
        match char_digit(c) {
            Some(d) => {
                proof {
                    assert(digits[i - start] == s@[i as int]);
                    assert(digits.subrange(0, i - start + 1).drop_last() =~= digits.subrange(
                        0,
                        i - start,
                    ));
                    assert(digits.subrange(0, i - start + 1).last() == digits[i - start]);
                    assert(all_digits(digits.subrange(0, i - start + 1))) by {
                        let pre = digits.subrange(0, i - start);
                        let post = digits.subrange(0, i - start + 1);
                        assert(forall|j: int| 0 <= j < pre.len() ==> post[j] == pre[j]);
                        assert(is_digit(post[post.len() - 1]));
                    }
                }
                acc = acc * 10 + (d as i128);
                proof {
                    assert(acc == digits_val(digits.subrange(0, i - start + 1)));
                }
                if acc > bound {
                    proof {
                        if numeral_shape(s@) {
                            assert(all_digits(digits));
                            lemma_digits_val_prefix(digits, i - start + 1);
                            assert(digits.subrange(0, digits.len() as int) =~= digits);
                            assert(digits_val(digits) >= acc);
                            assert(numeral_val(s@) == if neg {
                                -digits_val(digits)
                            } else {
                                digits_val(digits)
                            });
                        }
                    }
                    return None;
                }
            },
            None => {
                proof {
                    assert(digits[i - start] == s@[i as int]);
                    assert(!all_digits(digits));
                }
                return None;
            },
        }
        i = i + 1;
    }
    proof {
        assert(digits.subrange(0, digits.len() as int) =~= digits);
        assert(all_digits(digits));
        assert(acc == digits_val(digits));
        assert(numeral_shape(s@));
    }
    if neg {
        let v: i64 = (0i128 - acc) as i64;
        Some(v)
    } else {
        if acc > bound - 1 {
            return None;
        }
        Some(acc as i64)
    }
}

} // verus!
