use vstd::prelude::*;
use crate::token::chars_of;

verus! {

pub open spec fn is_digit(c: char) -> bool {
    '0' <= c && c <= '9'
}

pub open spec fn all_digits(s: Seq<char>) -> bool {
    forall|i: int| 0 <= i < s.len() ==> is_digit(#[trigger] s[i])
}

/// The number that a run of decimal digits stands for.
pub open spec fn digits_value(s: Seq<char>) -> nat
    decreases s.len(),
{
    if s.len() == 0 {
        0
    } else {
        digits_value(s.drop_last()) * 10 + (s.last() as nat - 48) as nat
    }
}

/// The integer written in `s` in decimal, with an optional `+` or `-` sign, if it
/// fits in 64 signed bits.
pub open spec fn int_value(s: Seq<char>) -> Option<i64> {
    let neg = s.len() > 0 && s[0] == '-';
    let body = if s.len() > 0 && (s[0] == '-' || s[0] == '+') {
        s.drop_first()
    } else {
        s
    };
    let v: int = if neg {
        -digits_value(body)
    } else {
        digits_value(body) as int
    };
    if body.len() > 0 && all_digits(body) && i64::MIN <= v <= i64::MAX {
        Some(v as i64)
    } else {
        None
    }
}

pub proof fn lemma_digits_value_grows(s: Seq<char>, k: int)
    requires
        0 <= k <= s.len(),
        all_digits(s),
    ensures
        digits_value(s.take(k)) <= digits_value(s),
    decreases s.len() - k,
{
    if k < s.len() {
        lemma_digits_value_grows(s, k + 1);
        assert(s.take(k + 1).drop_last() =~= s.take(k));
        assert(is_digit(s[k]));
    } else {
        assert(s.take(k) =~= s);
    }
}

/// Reads a decimal integer as `i64::from_str` does.
pub fn parse_int(s: &str) -> (r: Option<i64>)
    ensures
        r == int_value(s@),
{
    let cs = chars_of(s);
    let n = cs.len();
    let neg = n > 0 && cs[0] == '-';
    let start: usize = if n > 0 && (cs[0] == '-' || cs[0] == '+') {
        1
    } else {
        0
    };
    let ghost body = if n > 0 && (cs@[0] == '-' || cs@[0] == '+') {
        s@.drop_first()
    } else {
        s@
    };
    assert(body =~= cs@.skip(start as int));
    if start >= n {
        return None;
    }
    let limit: u64 = if neg {
        0x8000_0000_0000_0000
    } else {
        0x7fff_ffff_ffff_ffff
    };
    let mut acc: u64 = 0;
    let mut i: usize = start;
    while i < n
        invariant
            start <= i <= n,
            n == cs.len(),
            cs@ == s@,
            body == cs@.skip(start as int),
            body == (if s@.len() > 0 && (s@[0] == '-' || s@[0] == '+') {
                s@.drop_first()
            } else {
                s@
            }),
            neg == (s@.len() > 0 && s@[0] == '-'),
            limit == (if neg {
                0x8000_0000_0000_0000u64
            } else {
                0x7fff_ffff_ffff_ffffu64
            }),
            forall|j: int| 0 <= j < i - start ==> is_digit(#[trigger] body[j]),
            acc == digits_value(body.take(i - start)),
            acc <= limit,
        decreases n - i,
    {
        let c = cs[i];
        assert(body[i - start] == c);
        if !('0' <= c && c <= '9') {
            assert(!is_digit(body[i - start]));
            return None;
        }
        let d: u64 = (c as u32 - 48) as u64;
        assert(d <= 9);
        assert(d == c as nat - 48);
        proof {
            assert(body.take(i + 1 - start).drop_last() =~= body.take(i - start));
        }
        if acc > (limit - d) / 10 {
            proof {
                assert(acc * 10 + d > limit) by (nonlinear_arith)
                    requires
                        acc > (limit - d) / 10,
                        d <= 9,
                        d <= limit,
                ;
                let k = i + 1 - start;
                if all_digits(body) {
                    lemma_digits_value_grows(body, k);
                }
            }
            return None;
        }
        acc = acc * 10 + d;
        i = i + 1;
    }
    assert(body.take(n - start) =~= body);
    if neg {
        if acc == 0x8000_0000_0000_0000 {
            Some(i64::MIN)
        } else {
            Some(-(acc as i64))
        }
    } else {
        Some(acc as i64)
    }
}

pub open spec fn is_e(c: char) -> bool {
    c == 'e' || c == 'E'
}

/// The index of the first `e` or `E` in `s`, or its length.
pub open spec fn exp_index(s: Seq<char>) -> int
    decreases s.len(),
{
    if s.len() == 0 || is_e(s[0]) {
        0
    } else {
        1 + exp_index(s.drop_first())
    }
}

/// The index of the first `.` in `s`, or its length.
pub open spec fn dot_index(s: Seq<char>) -> int
    decreases s.len(),
{
    if s.len() == 0 || s[0] == '.' {
        0
    } else {
        1 + dot_index(s.drop_first())
    }
}

/// `Digit+`, `Digit+ '.' Digit*` or `Digit* '.' Digit+`.
pub open spec fn is_mantissa(m: Seq<char>) -> bool {
    let d = dot_index(m);
    if d >= m.len() {
        m.len() > 0 && all_digits(m)
    } else {
        m.len() >= 2 && all_digits(m.take(d)) && all_digits(m.skip(d + 1))
    }
}

/// `e Sign? Digit+`, with `e` in either case.
pub open spec fn is_exponent(x: Seq<char>) -> bool {
    x.len() > 0 && is_e(x[0]) && strip_sign(x.drop_first()).len() > 0 && all_digits(
        strip_sign(x.drop_first()),
    )
}

/// A mantissa and an optional exponent. The mantissa holds no `e`, so it ends
/// at the first one.
pub open spec fn is_number(b: Seq<char>) -> bool {
    let k = exp_index(b);
    is_mantissa(b.take(k)) && (k >= b.len() || is_exponent(b.skip(k)))
}

pub open spec fn lower_char(c: char) -> char {
    if 'A' <= c && c <= 'Z' {
        ((c as u32) + 32) as char
    } else {
        c
    }
}

pub open spec fn ascii_lower(s: Seq<char>) -> Seq<char> {
    s.map_values(|c: char| lower_char(c))
}

pub open spec fn strip_sign(s: Seq<char>) -> Seq<char> {
    if s.len() > 0 && (s[0] == '+' || s[0] == '-') {
        s.drop_first()
    } else {
        s
    }
}

/// Whether `f64::from_str` accepts `s`: an optional sign, then a number, or
/// `inf`, `infinity` or `nan` in any case.
pub open spec fn float_literal(s: Seq<char>) -> bool {
    let b = strip_sign(s);
    let word = ascii_lower(b);
    is_number(b) || word == "inf"@ || word == "infinity"@ || word == "nan"@
}

/// The answer that a yes/no word gives, case aside.
pub open spec fn bool_word(s: Seq<char>) -> Option<bool> {
    let w = ascii_lower(s);
    if w == "true"@ || w == "t"@ || w == "yes"@ || w == "y"@ {
        Some(true)
    } else if w == "false"@ || w == "f"@ || w == "no"@ || w == "n"@ {
        Some(false)
    } else {
        None
    }
}

/// The index of the first `e` or `E` in `cs[lo..]`, or `cs.len()`.
fn find_exp(cs: &Vec<char>, lo: usize) -> (r: usize)
    requires
        lo <= cs.len(),
    ensures
        r - lo == exp_index(cs@.subrange(lo as int, cs.len() as int)),
        lo <= r <= cs.len(),
        r < cs.len() ==> is_e(cs@[r as int]),
{
    let n = cs.len();
    let mut i = lo;
    while i < n && !(cs[i] == 'e' || cs[i] == 'E')
        invariant
            lo <= i <= n,
            n == cs.len(),
            exp_index(cs@.subrange(lo as int, n as int)) == (i - lo) + exp_index(
                cs@.subrange(i as int, n as int),
            ),
        decreases n - i,
    {
        assert(cs@.subrange(i as int, n as int).drop_first() =~= cs@.subrange(i + 1, n as int));
        i = i + 1;
    }
    i
}

/// The index of the first `.` in `cs[lo..hi]`, or `hi`.
fn find_dot(cs: &Vec<char>, lo: usize, hi: usize) -> (r: usize)
    requires
        lo <= hi <= cs.len(),
    ensures
        r - lo == dot_index(cs@.subrange(lo as int, hi as int)),
        lo <= r <= hi,
{
    let mut i = lo;
    while i < hi && cs[i] != '.'
        invariant
            lo <= i <= hi,
            hi <= cs.len(),
            dot_index(cs@.subrange(lo as int, hi as int)) == (i - lo) + dot_index(
                cs@.subrange(i as int, hi as int),
            ),
        decreases hi - i,
    {
        assert(cs@.subrange(i as int, hi as int).drop_first() =~= cs@.subrange(i + 1, hi as int));
        i = i + 1;
    }
    i
}

/// Whether `cs[lo..hi]` is all decimal digits.
fn digits_between(cs: &Vec<char>, lo: usize, hi: usize) -> (r: bool)
    requires
        lo <= hi <= cs.len(),
    ensures
        r == all_digits(cs@.subrange(lo as int, hi as int)),
{
    let mut i = lo;
    while i < hi
        invariant
            lo <= i <= hi,
            hi <= cs.len(),
            forall|j: int| lo <= j < i ==> is_digit(#[trigger] cs@[j]),
        decreases hi - i,
    {
        if !('0' <= cs[i] && cs[i] <= '9') {
            assert(cs@.subrange(lo as int, hi as int)[i - lo] == cs@[i as int]);
            return false;
        }
        i = i + 1;
    }
    assert forall|j: int| 0 <= j < hi - lo implies is_digit(
        #[trigger] cs@.subrange(lo as int, hi as int)[j],
    ) by {
        assert(cs@.subrange(lo as int, hi as int)[j] == cs@[lo + j]);
    }
    true
}

/// Whether `b` is a number: a mantissa and an optional exponent.
fn number_between(b: &Vec<char>) -> (r: bool)
    ensures
        r == is_number(b@),
{
    let n = b.len();
    assert(b@.subrange(0, n as int) =~= b@);
    let k = find_exp(b, 0);
    let ghost m = b@.take(k as int);
    assert(m =~= b@.subrange(0, k as int));
    let d = find_dot(b, 0, k);
    let mant = if d >= k {
        k > 0 && digits_between(b, 0, k)
    } else {
        assert(m.take(d as int) =~= b@.subrange(0, d as int));
        assert(m.skip(d + 1) =~= b@.subrange(d + 1, k as int));
        k >= 2 && digits_between(b, 0, d) && digits_between(b, d + 1, k)
    };
    if !mant {
        return false;
    }
    if k >= n {
        return true;
    }
    let ghost x = b@.skip(k as int);
    assert(x.drop_first() =~= b@.subrange(k + 1, n as int));
    assert(x[0] == b@[k as int]);
    let mut j = k + 1;
    if j < n && (b[j] == '+' || b[j] == '-') {
        j = j + 1;
    }
    assert(strip_sign(x.drop_first()) =~= b@.subrange(j as int, n as int));
    j < n && digits_between(b, j, n)
}

/// The characters of `s` with ASCII capitals made small.
pub fn lower_chars(s: &Vec<char>) -> (r: Vec<char>)
    ensures
        r@ == ascii_lower(s@),
{
    let mut out: Vec<char> = Vec::new();
    let mut i: usize = 0;
    while i < s.len()
        invariant
            i <= s.len(),
            out@ == ascii_lower(s@.take(i as int)),
        decreases s.len() - i,
    {
        let c = s[i];
        let l = if 'A' <= c && c <= 'Z' {
            ((c as u8) + 32) as char
        } else {
            c
        };
        assert(l == lower_char(c));
        out.push(l);
        i = i + 1;
        assert(out@ =~= ascii_lower(s@.take(i as int)));
    }
    assert(s@.take(i as int) =~= s@);
    out
}

/// Whether two character sequences are the same.
pub fn same_chars(a: &Vec<char>, b: &Vec<char>) -> (r: bool)
    ensures
        r == (a@ == b@),
{
    if a.len() != b.len() {
        return false;
    }
    let mut i: usize = 0;
    while i < a.len()
        invariant
            i <= a.len(),
            a.len() == b.len(),
            forall|j: int| 0 <= j < i ==> a@[j] == b@[j],
        decreases a.len() - i,
    {
        if a[i] != b[i] {
            return false;
        }
        i = i + 1;
    }
    assert(a@ =~= b@);
    true
}

fn is_word(w: &Vec<char>, lit: &str) -> (r: bool)
    ensures
        r == (w@ == lit@),
{
    let l = chars_of(lit);
    same_chars(w, &l)
}

/// Whether `f64::from_str` accepts `s`.
pub fn is_float_literal(s: &str) -> (r: bool)
    ensures
        r == float_literal(s@),
{
    let cs = chars_of(s);
    let mut body: Vec<char> = Vec::new();
    let start: usize = if cs.len() > 0 && (cs[0] == '+' || cs[0] == '-') {
        1
    } else {
        0
    };
    let mut j: usize = start;
    while j < cs.len()
        invariant
            start <= j <= cs.len(),
            body@ == cs@.subrange(start as int, j as int),
        decreases cs.len() - j,
    {
        body.push(cs[j]);
        j = j + 1;
        assert(body@ =~= cs@.subrange(start as int, j as int));
    }
    assert(body@ =~= strip_sign(s@));
    if number_between(&body) {
        return true;
    }
    let w = lower_chars(&body);
    is_word(&w, "inf") || is_word(&w, "infinity") || is_word(&w, "nan")
}

/// The answer of a yes/no word: `true`, `t`, `yes`, `y` or `false`, `f`, `no`,
/// `n`, in any case.
pub fn parse_bool(s: &str) -> (r: Option<bool>)
    ensures
        r == bool_word(s@),
{
    let w = lower_chars(&chars_of(s));
    if is_word(&w, "true") || is_word(&w, "t") || is_word(&w, "yes") || is_word(&w, "y") {
        Some(true)
    } else if is_word(&w, "false") || is_word(&w, "f") || is_word(&w, "no") || is_word(&w, "n") {
        Some(false)
    } else {
        None
    }
}

} // verus!
