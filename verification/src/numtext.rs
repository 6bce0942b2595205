//! Decimal text: rendering integers as decimal strings and parsing decimal
//! strings back into integers. These are the textual halves of the Chicken
//! value model: string concatenation renders numbers, and numeric coercion
//! parses strings.

use vstd::prelude::*;
use vstd::std_specs::iter::IteratorSpec;
use vstd::string::StringExecFns;

verus! {

/// The character for one decimal digit.
pub open spec fn digit_char(d: int) -> char {
    if d == 0 {
        '0'
    } else if d == 1 {
        '1'
    } else if d == 2 {
        '2'
    } else if d == 3 {
        '3'
    } else if d == 4 {
        '4'
    } else if d == 5 {
        '5'
    } else if d == 6 {
        '6'
    } else if d == 7 {
        '7'
    } else if d == 8 {
        '8'
    } else {
        '9'
    }
}

/// The canonical decimal rendering of a natural number, without sign and
/// without leading zeros (except for zero itself, rendered as "0").
pub open spec fn dec_nat(n: nat) -> Seq<char>
    decreases n,
{
    if n < 10 {
        seq![digit_char(n as int)]
    } else {
        dec_nat(n / 10).push(digit_char((n % 10) as int))
    }
}

/// The canonical decimal rendering of an integer: a leading '-' for negative
/// numbers, and the digits of the absolute value.
pub open spec fn dec_int(n: int) -> Seq<char> {
    if n < 0 {
        seq!['-'] + dec_nat((-n) as nat)
    } else {
        dec_nat(n as nat)
    }
}

/// The exec form of [`digit_char`].
fn digit_to_char(d: u128) -> (c: char)
    requires
        d < 10,
    ensures
        c == digit_char(d as int),
{
    if d == 0 {
        '0'
    } else if d == 1 {
        '1'
    } else if d == 2 {
        '2'
    } else if d == 3 {
        '3'
    } else if d == 4 {
        '4'
    } else if d == 5 {
        '5'
    } else if d == 6 {
        '6'
    } else if d == 7 {
        '7'
    } else if d == 8 {
        '8'
    } else {
        '9'
    }
}

/// Renders a natural number as decimal text.
fn nat_to_string(m0: u128) -> (r: String)
    ensures
        r@ == dec_nat(m0 as nat),
{
    let mut digits: Vec<char> = Vec::new();
    let mut m: u128 = m0;
    while m >= 10
        invariant
            dec_nat(m0 as nat) == dec_nat(m as nat) + digits@.reverse(),
        decreases m,
    {
        let d = m % 10;
        digits.push(digit_to_char(d));
        proof {
            assert(dec_nat(m as nat) == dec_nat(m as nat / 10).push(digit_char((m as nat % 10) as int)));
            assert(digits@.reverse() =~= seq![digit_char(d as int)] + digits@.subrange(
                0,
                digits@.len() - 1,
            ).reverse());
            assert(dec_nat(m as nat / 10) + digits@.reverse() =~= dec_nat(m as nat)
                + digits@.subrange(0, digits@.len() - 1).reverse());
        }
        m = m / 10;
    }
    let mut r = String::new();
    r.push(digit_to_char(m));
    proof {
        assert(dec_nat(m as nat) =~= seq![digit_char(m as int)]);
        assert(r@ =~= dec_nat(m0 as nat).subrange(0, 1));
    }
    let n = digits.len();
    let mut i: usize = 0;
    while i < n
        invariant
            n == digits@.len(),
            i <= n,
            dec_nat(m0 as nat).len() == n + 1,
            forall|j: int| 0 <= j < n ==> digits@[j] == dec_nat(m0 as nat)[n - j],
            r@ == dec_nat(m0 as nat).subrange(0, 1 + i),
        decreases n - i,
    {
        r.push(digits[n - 1 - i]);
        proof {
            assert(r@ =~= dec_nat(m0 as nat).subrange(0, 1 + i + 1));
        }
        i = i + 1;
    }
    proof {
        assert(r@ =~= dec_nat(m0 as nat));
    }
    r
}

/// Renders a signed machine integer as decimal text, matching [`dec_int`].
pub fn num_to_string(n: isize) -> (r: String)
    ensures
        r@ == dec_int(n as int),
{
    if n < 0 {
        let wide: i128 = n as i128;
        let mag: u128 = (-wide) as u128;
        let digits = nat_to_string(mag);
        let mut r = String::new();
        r.push('-');
        let r = r.concat(digits.as_str());
        proof {
            assert(r@ =~= dec_int(n as int));
        }
        r
    } else {
        nat_to_string(n as u128)
    }
}

/// Renders an unsigned machine integer as decimal text.
pub fn index_to_string(n: usize) -> (r: String)
    ensures
        r@ == dec_nat(n as nat),
{
    nat_to_string(n as u128)
}

/// Whether a character is a decimal digit.
pub open spec fn is_digit(c: char) -> bool {
    48 <= c as u32 && c as u32 <= 57
}

/// The numeric value of a decimal digit character.
pub open spec fn digit_val(c: char) -> int {
    c as u32 - 48
}

/// Whether every character of a sequence is a decimal digit.
pub open spec fn all_digits(s: Seq<char>) -> bool {
    forall|i: int| 0 <= i < s.len() ==> is_digit(s[i])
}

/// The value of a sequence of decimal digit characters.
pub open spec fn digits_val(s: Seq<char>) -> int
    decreases s.len(),
{
    if s.len() == 0 {
        0
    } else {
        digits_val(s.drop_last()) * 10 + digit_val(s.last())
    }
}

/// The value of a string as a signed decimal integer: an optional sign
/// followed by at least one digit, with no surrounding whitespace. This is
/// exactly the grammar that numeric coercion of string values accepts.
pub open spec fn parse_int(s: Seq<char>) -> Option<int> {
    if s.len() > 0 && (s[0] == '+' || s[0] == '-') {
        let body = s.skip(1);
        if body.len() > 0 && all_digits(body) {
            if s[0] == '-' {
                Some(-digits_val(body))
            } else {
                Some(digits_val(body))
            }
        } else {
            None
        }
    } else {
        if s.len() > 0 && all_digits(s) {
            Some(digits_val(s))
        } else {
            None
        }
    }
}

pub proof fn lemma_digits_val_nonneg(s: Seq<char>)
    requires
        all_digits(s),
    ensures
        digits_val(s) >= 0,
    decreases s.len(),
{
    if s.len() > 0 {
        assert(all_digits(s.drop_last()));
        lemma_digits_val_nonneg(s.drop_last());
    }
}

/// A longer digit string never has a smaller value: the value of the whole
/// is at least the value of any prefix.
pub proof fn lemma_digits_val_prefix(s: Seq<char>, k: int)
    requires
        all_digits(s),
        0 <= k <= s.len(),
    ensures
        digits_val(s) >= digits_val(s.take(k)),
    decreases s.len() - k,
{
    if k == s.len() {
        assert(s.take(k) =~= s);
    } else {
        assert(s.take(k + 1).drop_last() =~= s.take(k));
        assert(all_digits(s.take(k)));
        lemma_digits_val_nonneg(s.take(k));
        assert(digits_val(s.take(k + 1)) == digits_val(s.take(k)) * 10 + digit_val(s.take(k + 1).last()));
        assert(is_digit(s[k]));
        lemma_digits_val_prefix(s, k + 1);
    }
}

/// The characters of a string, in order, as a vector.
pub fn str_chars_vec(s: &str) -> (r: Vec<char>)
    ensures
        r@ == s@,
{
    let mut it = s.chars();
    let mut r: Vec<char> = Vec::new();
    loop
        invariant_except_break
            r@ + it.remaining() == s@,
        ensures
            r@ == s@,
        decreases s@.len() - r@.len(),
    {
        match it.next() {
            Some(c) => {
                r.push(c);
            },
            None => {
                proof {
                    assert(r@ =~= s@);
                }
                break ;
            },
        }
    }
    r
}

/// Parses a string as a signed decimal machine integer, exactly as numeric
/// coercion of string values demands: [`parse_int`] must accept it and its
/// value must fit in the machine word.
pub fn parse_num(s: &str) -> (r: Option<isize>)
    ensures
        r is Some <==> (parse_int(s@) is Some && isize::MIN <= parse_int(s@)->0 <= isize::MAX),
        r is Some ==> r->0 as int == parse_int(s@)->0,
{
    let v = str_chars_vec(s);
    let n = v.len();
    if n == 0 {
        return None;
    }
    let first = v[0];
    let neg = first == '-';
    let start: usize = if first == '-' || first == '+' {
        1
    } else {
        0
    };
    if n == start {
        return None;
    }
    let ghost body = s@.skip(start as int);
    // The value accumulates downward so that the most negative machine word
    // is still representable along the way.
    let mut acc: isize = 0;
    let mut i: usize = start;
    while i < n
        invariant
            v@ == s@,
            n == s@.len(),
            start <= i <= n,
            start < n,
            start == 0 || start == 1,
            start == 1 ==> (s@[0] == '-' || s@[0] == '+'),
            start == 0 ==> !(s@[0] == '-' || s@[0] == '+'),
            neg == (s@[0] == '-'),
            body == s@.skip(start as int),
            all_digits(body.take(i - start)),
            acc as int == -digits_val(body.take(i - start)),
        decreases n - i,
    {
        let c = v[i];
        let u = c as u32;
        if u < 48 || u > 57 {
            proof {
                if start == 0 {
                    assert(body =~= s@);
                }
                assert(body[i - start] == c);
                assert(!is_digit(body[i - start]));
                assert(!all_digits(body));
                assert(body.len() > 0);
                if start == 1 {
                    assert(s@[0] == '+' || s@[0] == '-');
                    assert(body == s@.skip(1));
                    assert(parse_int(s@) is None);
                } else {
                    assert(!(s@[0] == '+' || s@[0] == '-'));
                    assert(parse_int(s@) is None);
                }
            }
            return None;
        }
        let d = (u - 48) as isize;
        proof {
            assert(body[i - start] == c);
            assert(is_digit(body[i - start]));
            let pref = body.take(i - start + 1);
            assert(pref.drop_last() =~= body.take(i - start));
            assert(pref.last() == body[i - start]);
            assert forall|j: int| 0 <= j < pref.len() implies is_digit(pref[j]) by {
                if j < i - start {
                    assert(pref[j] == body.take(i - start)[j]);
                } else {
                    assert(pref[j] == body[i - start]);
                }
            }
        }
        let next = match acc.checked_mul(10) {
            Some(a) => a.checked_sub(d),
            None => None,
        };
        match next {
            Some(a) => {
                acc = a;
            },
            None => {
                // The prefix alone is already outside the machine range, so
                // the whole number is too.
                proof {
                    if start == 0 {
                        assert(body =~= s@);
                    }
                    let pref = body.take(i - start + 1);
                    lemma_digits_val_nonneg(body.take(i - start));
                    assert(all_digits(pref));
                    assert(digits_val(pref) == digits_val(body.take(i - start)) * 10 + digit_val(body[i - start]));
                    assert(digits_val(pref) > -(isize::MIN as int));
                    if all_digits(body) {
                        lemma_digits_val_prefix(body, i - start + 1);
                        assert(body.take(body.len() as int) =~= body);
                        assert(digits_val(body) >= digits_val(pref));
                        assert(parse_int(s@) is Some ==> (parse_int(s@)->0 == digits_val(body)
                            || parse_int(s@)->0 == -digits_val(body)));
                    } else {
                        assert(parse_int(s@) is None);
                    }
                }
                return None;
            },
        }
        i = i + 1;
    }
    proof {
        assert(body.take(n - start) =~= body);
        assert(acc as int == -digits_val(body));
        lemma_digits_val_nonneg(body);
        if start == 1 {
            assert(parse_int(s@) == Some(if s@[0] == '-' { -digits_val(body) } else { digits_val(body) }));
        } else {
            assert(body =~= s@);
            assert(parse_int(s@) == Some(digits_val(body)));
        }
    }
    if neg {
        Some(acc)
    } else {
        let zero: isize = 0;
        match zero.checked_sub(acc) {
            Some(a) => Some(a),
            None => None,
        }
    }
}

} // verus!
