//! Character-level helpers: decimal numbers to and from text, and the
//! conversions between `String` and a vector of characters.

use vstd::prelude::*;

verus! {

/// The characters of a string, in order.
pub(crate) fn chars_of(s: &str) -> (r: Vec<char>)
    ensures
        r@ == s@,
{
    let n = s.unicode_len();
    let mut v: Vec<char> = Vec::new();
    let mut i: usize = 0;
    while i < n
        invariant
            i <= n,
            n == s@.len(),
            v@ == s@.take(i as int),
        decreases n - i,
    {
        v.push(s.get_char(i));
        i = i + 1;
        assert(v@ =~= s@.take(i as int));
    }
    assert(v@ =~= s@);
    v
}

/// Relies on `str::contains` with a `&str` pattern: true when `pat` occurs
/// as a contiguous run of `s`.
#[verifier::external_body]
pub(crate) fn str_contains(s: &str, pat: &str) -> (r: bool)
    ensures
        r == occurs_in(pat@, s@),
{
    s.contains(pat)
}

/// `needle` occurs as a contiguous run of `hay`.
pub open spec fn occurs_in(needle: Seq<char>, hay: Seq<char>) -> bool {
    exists|i: int| 0 <= i && i + needle.len() <= hay.len() && #[trigger] hay.subrange(i, i + needle.len()) == needle
}

pub open spec fn is_digit(c: char) -> bool {
    '0' <= c && c <= '9'
}

pub open spec fn digit_value(c: char) -> nat {
    (c as nat - '0' as nat) as nat
}

pub open spec fn digit_char(d: nat) -> char {
    ((d % 10) + '0' as nat) as char
}

pub open spec fn all_digits(s: Seq<char>) -> bool {
    forall|i: int| 0 <= i < s.len() ==> is_digit(#[trigger] s[i])
}

/// The value of a run of decimal digits, most significant first.
pub open spec fn digits_value(s: Seq<char>) -> nat
    decreases s.len(),
{
    if s.len() == 0 {
        0
    } else {
        digits_value(s.drop_last()) * 10 + digit_value(s.last())
    }
}

/// The shortest decimal spelling of `n`.
pub open spec fn decimal(n: nat) -> Seq<char>
    decreases n,
{
    if n < 10 {
        seq![digit_char(n)]
    } else {
        decimal(n / 10).push(digit_char(n % 10))
    }
}

/// The decimal spelling of an integer, with `-` before a negative one.
pub open spec fn signed_decimal(n: int) -> Seq<char> {
    if n < 0 {
        seq!['-'] + decimal((-n) as nat)
    } else {
        decimal(n as nat)
    }
}

/// The decimal spelling of `n` with zeros in front up to `width` characters.
pub open spec fn padded(n: nat, width: nat) -> Seq<char> {
    let d = decimal(n);
    if d.len() >= width {
        d
    } else {
        Seq::new((width - d.len()) as nat, |i: int| '0') + d
    }
}

/// What `u32`'s `FromStr` accepts: an optional `+`, then one or more ASCII
/// digits whose value fits in a `u32`.
pub open spec fn u32_of_text(s: Seq<char>) -> Option<u32> {
    let body = if s.len() > 0 && s[0] == '+' { s.drop_first() } else { s };
    if body.len() > 0 && all_digits(body) && digits_value(body) <= u32::MAX {
        Some(digits_value(body) as u32)
    } else {
        None
    }
}

proof fn lemma_digits_value_grows(s: Seq<char>, i: int)
    requires
        0 <= i <= s.len(),
        all_digits(s),
    ensures
        digits_value(s.subrange(0, i)) <= digits_value(s),
    decreases s.len() - i,
{
    if i < s.len() {
        lemma_digits_value_grows(s, i + 1);
        let p = s.subrange(0, i + 1);
        assert(p.drop_last() =~= s.subrange(0, i));
    } else {
        assert(s.subrange(0, i) =~= s);
    }
}

/// Reads the decimal digits `s[from..to]` as a number no larger than `limit`.
fn digits_upto(s: &Vec<char>, from: usize, to: usize, limit: u64) -> (r: Option<u64>)
    requires
        from <= to <= s@.len(),
        limit <= u32::MAX,
    ensures
        r == (if all_digits(s@.subrange(from as int, to as int))
            && digits_value(s@.subrange(from as int, to as int)) <= limit {
            Some(digits_value(s@.subrange(from as int, to as int)) as u64)
        } else {
            None
        }),
{
    let ghost body = s@.subrange(from as int, to as int);
    let mut acc: u64 = 0;
    let mut i: usize = from;
    while i < to
        invariant
            from <= i <= to,
            to <= s@.len(),
            body == s@.subrange(from as int, to as int),
            all_digits(body.subrange(0, i - from)),
            acc == digits_value(body.subrange(0, i - from)),
            acc <= limit,
            limit <= u32::MAX,
        decreases to - i,
    {
        let c = s[i];
        if !('0' <= c && c <= '9') {
            assert(!is_digit(body[i - from]));
            return None;
        }
        let ghost p = body.subrange(0, i - from + 1);
        assert(p.drop_last() =~= body.subrange(0, i - from));
        assert(acc * 10 <= 42949672950) by (nonlinear_arith)
            requires
                acc <= 4294967295,
        ;
        let next: u64 = acc * 10 + (c as u64 - '0' as u64);
        i = i + 1;
        if next > limit {
            proof {
                if all_digits(body) {
                    lemma_digits_value_grows(body, i - from);
                }
            }
            return None;
        }
        acc = next;
    }
    assert(body.subrange(0, i - from) =~= body);
    Some(acc)
}

/// Parses text as `u32`'s `FromStr` does.
pub fn parse_u32(s: &str) -> (r: Option<u32>)
    ensures
        r == u32_of_text(s@),
{
    let cs = chars_of(s);
    let from: usize = if cs.len() > 0 && cs[0] == '+' { 1 } else { 0 };
    let ghost body = if s@.len() > 0 && s@[0] == '+' { s@.drop_first() } else { s@ };
    assert(body =~= cs@.subrange(from as int, cs@.len() as int));
    if from >= cs.len() {
        return None;
    }
    match digits_upto(&cs, from, cs.len(), 4294967295) {
        Some(v) => Some(v as u32),
        None => None,
    }
}

/// The index of the first `.` of `s`, or its length when there is none.
pub open spec fn first_dot(s: Seq<char>) -> int
    decreases s.len(),
{
    if s.len() == 0 || s[0] == '.' {
        0
    } else {
        1 + first_dot(s.drop_first())
    }
}

/// The value of the digit at `i`, zero past the end.
pub open spec fn digit_at(s: Seq<char>, i: int) -> int {
    if 0 <= i < s.len() {
        digit_value(s[i]) as int
    } else {
        0
    }
}

/// A decimal price (an optional sign, digits, an optional `.` and more
/// digits, at least one digit in all; no exponent) in hundredths, rounded
/// to the nearest hundredth with halves away from zero. The whole part must
/// fit in a `u32`.
pub open spec fn cents_of_text(s: Seq<char>) -> Option<i64> {
    let signed = s.len() > 0 && (s[0] == '-' || s[0] == '+');
    let body = if signed { s.drop_first() } else { s };
    let k = first_dot(body);
    let whole = body.take(k);
    let frac = if k < body.len() { body.skip(k + 1) } else { seq![] };
    if whole.len() + frac.len() > 0 && all_digits(whole) && all_digits(frac) && digits_value(whole) <= u32::MAX {
        let up: int = if frac.len() > 2 && digit_value(frac[2]) >= 5 { 1 } else { 0 };
        let c = digits_value(whole) * 100 + digit_at(frac, 0) * 10 + digit_at(frac, 1) + up;
        Some((if s.len() > 0 && s[0] == '-' { -c } else { c }) as i64)
    } else {
        None
    }
}

proof fn lemma_first_dot(s: Seq<char>, m: int)
    requires
        0 <= m <= s.len(),
        forall|j: int| 0 <= j < m ==> s[j] != '.',
        m == s.len() || s[m] == '.',
    ensures
        first_dot(s) == m,
    decreases m,
{
    if m > 0 {
        let t = s.drop_first();
        assert forall|j: int| 0 <= j < m - 1 implies t[j] != '.' by {
            assert(t[j] == s[j + 1]);
        }
        lemma_first_dot(t, m - 1);
    }
}

/// Whether `s[from..to]` is all decimal digits.
fn all_digits_between(s: &Vec<char>, from: usize, to: usize) -> (r: bool)
    requires
        from <= to <= s@.len(),
    ensures
        r == all_digits(s@.subrange(from as int, to as int)),
{
    let mut i: usize = from;
    while i < to
        invariant
            from <= i <= to,
            to <= s@.len(),
            forall|j: int| from <= j < i ==> is_digit(s@[j]),
        decreases to - i,
    {
        if !('0' <= s[i] && s[i] <= '9') {
            assert(!is_digit(s@.subrange(from as int, to as int)[i - from]));
            return false;
        }
        i = i + 1;
    }
    assert forall|j: int| 0 <= j < to - from implies is_digit(#[trigger] s@.subrange(from as int, to as int)[j]) by {
        assert(s@.subrange(from as int, to as int)[j] == s@[from + j]);
    }
    true
}

/// The value of the digit `off` places after `from`, zero at or past `to`.
fn digit_or_zero(s: &Vec<char>, from: usize, off: usize, to: usize) -> (r: i64)
    requires
        from <= to <= s@.len(),
        off < to - from ==> is_digit(s@[from + off]),
    ensures
        r == digit_at(s@.subrange(from as int, to as int), off as int),
        0 <= r <= 9,
{
    if off < to - from {
        (s[from + off] as u32 - '0' as u32) as i64
    } else {
        0
    }
}

/// Reads a decimal price in hundredths, rounded half away from zero.
pub fn parse_cents(s: &str) -> (r: Option<i64>)
    ensures
        r == cents_of_text(s@),
{
    let cs = chars_of(s);
    let n = cs.len();
    let signed = n > 0 && (cs[0] == '-' || cs[0] == '+');
    let neg = n > 0 && cs[0] == '-';
    let start: usize = if signed { 1 } else { 0 };
    let ghost body = if signed { s@.drop_first() } else { s@ };
    assert(body =~= cs@.subrange(start as int, n as int));
    let mut k: usize = start;
    while k < n && cs[k] != '.'
        invariant
            start <= k <= n,
            n == cs@.len(),
            forall|j: int| start <= j < k ==> cs@[j] != '.',
        decreases n - k,
    {
        k = k + 1;
    }
    proof {
        assert forall|j: int| 0 <= j < k - start implies body[j] != '.' by {
            assert(body[j] == cs@[start + j]);
        }
        lemma_first_dot(body, k - start);
        assert(body.take(k - start) =~= cs@.subrange(start as int, k as int));
        if k < n {
            assert(body.skip(k - start + 1) =~= cs@.subrange(k + 1, n as int));
        } else {
            assert(cs@.subrange(n as int, n as int) =~= seq![]);
        }
    }
    let fstart: usize = if k < n { k + 1 } else { n };
    let ghost frac = cs@.subrange(fstart as int, n as int);
    if k - start + (n - fstart) == 0 {
        return None;
    }
    if !all_digits_between(&cs, fstart, n) {
        return None;
    }
    let whole = match digits_upto(&cs, start, k, 4294967295) {
        Some(w) => w,
        None => return None,
    };
    assert(n - fstart > 0 ==> is_digit(frac[0]));
    assert(n - fstart > 1 ==> is_digit(frac[1]));
    assert(n - fstart > 2 ==> is_digit(frac[2]));
    let d0 = digit_or_zero(&cs, fstart, 0, n);
    let d1 = digit_or_zero(&cs, fstart, 1, n);
    let d2 = digit_or_zero(&cs, fstart, 2, n);
    let up: i64 = if n - fstart > 2 && d2 >= 5 { 1 } else { 0 };
    let c: i64 = whole as i64 * 100 + d0 * 10 + d1 + up;
    Some(if neg { -c } else { c })
}

/// The one-character text of a decimal digit.
fn digit_str(d: u64) -> (r: &'static str)
    requires
        d < 10,
    ensures
        r@ == seq![digit_char(d as nat)],
{
    proof {
        reveal_strlit("0");
        reveal_strlit("1");
        reveal_strlit("2");
        reveal_strlit("3");
        reveal_strlit("4");
        reveal_strlit("5");
        reveal_strlit("6");
        reveal_strlit("7");
        reveal_strlit("8");
        reveal_strlit("9");
    }
    let r = match d {
        0 => "0",
        1 => "1",
        2 => "2",
        3 => "3",
        4 => "4",
        5 => "5",
        6 => "6",
        7 => "7",
        8 => "8",
        _ => "9",
    };
    assert(r@ =~= seq![digit_char(d as nat)]);
    r
}

/// Appends the digits of `n`, most significant first.
fn push_decimal(out: &mut String, n: u64)
    ensures
        final(out)@ == old(out)@ + decimal(n as nat),
    decreases n,
{
    if n >= 10 {
        push_decimal(out, n / 10);
    }
    out.append(digit_str(n % 10));
    proof {
        assert(digit_char((n % 10) as nat) == digit_char(n as nat));
    }
}

/// The decimal spelling of an unsigned integer.
pub fn format_u64(n: u64) -> (r: String)
    ensures
        r@ == decimal(n as nat),
{
    let mut v = String::new();
    push_decimal(&mut v, n);
    assert(v@ =~= decimal(n as nat));
    v
}

/// The decimal spelling of a signed integer.
pub fn format_i64(n: i64) -> (r: String)
    ensures
        r@ == signed_decimal(n as int),
{
    let mut v = String::new();
    let mag: u64 = if n < 0 {
        proof {
            reveal_strlit("-");
        }
        v.append("-");
        (0i128 - n as i128) as u64
    } else {
        n as u64
    };
    push_decimal(&mut v, mag);
    assert(v@ =~= signed_decimal(n as int));
    v
}

/// The decimal spelling of `n`, padded with zeros to `width` characters.
pub fn format_padded(n: u64, width: usize) -> (r: String)
    ensures
        r@ == padded(n as nat, width as nat),
{
    let d = format_u64(n);
    let len = d.as_str().unicode_len();
    if len >= width {
        return d;
    }
    proof {
        reveal_strlit("0");
    }
    let mut v = String::new();
    let pad: usize = width - len;
    let mut k: usize = 0;
    while k < pad
        invariant
            k <= pad,
            v@ =~= Seq::new(k as nat, |i: int| '0'),
        decreases pad - k,
    {
        proof {
            reveal_strlit("0");
        }
        v.append("0");
        k = k + 1;
        assert(v@ =~= Seq::new(k as nat, |i: int| '0'));
    }
    v.append(d.as_str());
    v
}

} // verus!
