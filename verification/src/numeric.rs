//! The numeric coercer: turns a raw feed value (a JSON number's text, or a
//! free-form string) into a validated decimal, and decides strict positivity.
//!
//! A value is numeric when it has the shape
//! `sign? (digits | digits '.' digits? | '.' digits) (('e'|'E') sign? digits)?`.
//! The value is strictly positive when its sign is not `-` and some digit of
//! the mantissa is non-zero; the exponent cannot change either fact.

use vstd::prelude::*;

verus! {

/// One loosely-typed value of a raw feed: a JSON number (carried as its
/// decimal text), a JSON string, JSON null, or anything else.
#[derive(Debug)]
pub enum RawValue {
    Num(String),
    Str(String),
    Null,
    Other,
}

/// Why a raw value could not be coerced to a decimal.
#[derive(Debug)]
pub enum CoercionError {
    /// The text of a number or string value is not in the numeric shape.
    NotNumeric,
    /// The value is neither a number nor a string.
    UnsupportedType,
}

/// A validated decimal: its text is in the numeric shape.
#[derive(Debug, Clone)]
pub struct Decimal {
    pub text: String,
}

pub open spec fn is_digit(c: char) -> bool {
    '0' <= c && c <= '9'
}

/// Length of the run of digits at the front of `s`.
pub open spec fn digits_len(s: Seq<char>) -> int
    decreases s.len(),
{
    if s.len() > 0 && is_digit(s[0]) {
        1 + digits_len(s.skip(1))
    } else {
        0
    }
}

/// 1 when `s` opens with an explicit sign, else 0.
pub open spec fn sign_len(s: Seq<char>) -> int {
    if s.len() > 0 && (s[0] == '-' || s[0] == '+') {
        1
    } else {
        0
    }
}

/// `t` is a whole exponent part: `e` or `E`, an optional sign, then digits.
pub open spec fn exp_ok(t: Seq<char>) -> bool {
    t.len() >= 1 && (t[0] == 'e' || t[0] == 'E') && {
        let u = t.skip(1 + sign_len(t.skip(1)));
        u.len() > 0 && digits_len(u) == u.len()
    }
}

/// `s` is numeric: an optional sign, a mantissa with at least one digit and
/// at most one point, and an optional exponent.
pub open spec fn is_numeric_text(s: Seq<char>) -> bool {
    let g = sign_len(s);
    let d1 = digits_len(s.skip(g));
    if g + d1 == s.len() {
        d1 > 0
    } else if s[g + d1] == '.' {
        let d2 = digits_len(s.skip(g + d1 + 1));
        let m = g + d1 + 1 + d2;
        d1 + d2 > 0 && (m == s.len() || exp_ok(s.skip(m)))
    } else {
        d1 > 0 && exp_ok(s.skip(g + d1))
    }
}

/// Index just past the mantissa of `s`: past the integer digits, and past the
/// point and fraction digits when a point follows the integer digits.
pub open spec fn mantissa_end(s: Seq<char>) -> int {
    let g = sign_len(s);
    let d1 = digits_len(s.skip(g));
    if g + d1 < s.len() && s[g + d1] == '.' {
        g + d1 + 1 + digits_len(s.skip(g + d1 + 1))
    } else {
        g + d1
    }
}

/// The numeric text denotes a value strictly greater than zero: no `-` sign,
/// and a non-zero digit somewhere in the mantissa.
pub open spec fn numeric_positive(s: Seq<char>) -> bool {
    is_numeric_text(s) && !(s.len() > 0 && s[0] == '-') && exists|i: int|
        sign_len(s) <= i < mantissa_end(s) && is_digit(#[trigger] s[i]) && s[i] != '0'
}

impl Decimal {
    pub open spec fn wf(&self) -> bool {
        is_numeric_text(self.text@)
    }

    pub open spec fn positive(&self) -> bool {
        numeric_positive(self.text@)
    }
}

/// A raw value coerces when it is a number or a string whose text is numeric.
pub open spec fn coercible(v: RawValue) -> bool {
    match v {
        RawValue::Num(t) => is_numeric_text(t@),
        RawValue::Str(t) => is_numeric_text(t@),
        RawValue::Null => false,
        RawValue::Other => false,
    }
}

/// The text a coercible raw value carries.
pub open spec fn coerced_text(v: RawValue) -> Seq<char> {
    match v {
        RawValue::Num(t) => t@,
        RawValue::Str(t) => t@,
        RawValue::Null => Seq::empty(),
        RawValue::Other => Seq::empty(),
    }
}

proof fn lemma_digits_len_is(s: Seq<char>, k: int)
    requires
        0 <= k <= s.len(),
        forall|i: int| 0 <= i < k ==> is_digit(#[trigger] s[i]),
        k < s.len() ==> !is_digit(s[k]),
    ensures
        digits_len(s) == k,
    decreases s.len(),
{
    if s.len() > 0 && is_digit(s[0]) {
        assert forall|i: int| 0 <= i < k - 1 implies is_digit(#[trigger] s.skip(1)[i]) by {
            assert(s.skip(1)[i] == s[i + 1]);
        }
        if k - 1 < s.skip(1).len() {
            assert(s.skip(1)[k - 1] == s[k]);
        }
        lemma_digits_len_is(s.skip(1), k - 1);
    }
}

proof fn lemma_skip_skip(s: Seq<char>, a: int, b: int)
    requires
        0 <= a,
        0 <= b,
        a + b <= s.len(),
    ensures
        s.skip(a).skip(b) == s.skip(a + b),
{
    assert(s.skip(a).skip(b) =~= s.skip(a + b));
}

pub(crate) fn exec_is_digit(c: char) -> (r: bool)
    ensures
        r == is_digit(c),
{
    '0' <= c && c <= '9'
}

/// Count of digits in `s` from index `from` on.
fn digits_span(s: &str, from: usize, len: usize) -> (n: usize)
    requires
        len == s@.len(),
        from <= len,
    ensures
        from + n <= len,
        n == digits_len(s@.skip(from as int)),
{
    let mut j: usize = from;
    while j < len && exec_is_digit(s.get_char(j))
        invariant
            len == s@.len(),
            from <= j <= len,
            forall|i: int| from <= i < j ==> is_digit(#[trigger] s@[i]),
        decreases len - j,
    {
        j = j + 1;
    }
    proof {
        let t = s@.skip(from as int);
        assert forall|i: int| 0 <= i < j - from implies is_digit(#[trigger] t[i]) by {
            assert(t[i] == s@[from + i]);
        }
        if j - from < t.len() {
            assert(t[j - from] == s@[j as int]);
        }
        lemma_digits_len_is(t, j - from);
    }
    j - from
}

/// 1 when the char at `from` is an explicit sign, else 0.
fn sign_span(s: &str, from: usize, len: usize) -> (n: usize)
    requires
        len == s@.len(),
        from <= len,
    ensures
        n == sign_len(s@.skip(from as int)),
        from + n <= len,
{
    proof {
        if (from as int) < len {
            assert(s@.skip(from as int)[0] == s@[from as int]);
        }
    }
    if from < len {
        let c = s.get_char(from);
        if c == '-' || c == '+' {
            1
        } else {
            0
        }
    } else {
        0
    }
}

/// Whether `s` from index `from` on is a whole exponent part.
fn exp_check(s: &str, from: usize, len: usize) -> (r: bool)
    requires
        len == s@.len(),
        from <= len,
    ensures
        r == exp_ok(s@.skip(from as int)),
{
    proof {
        if (from as int) < len {
            assert(s@.skip(from as int)[0] == s@[from as int]);
        }
    }
    if from >= len {
        return false;
    }
    let c = s.get_char(from);
    if !(c == 'e' || c == 'E') {
        return false;
    }
    proof {
        lemma_skip_skip(s@, from as int, 1);
    }
    let gs = sign_span(s, from + 1, len);
    proof {
        lemma_skip_skip(s@, from as int, 1 + gs);
    }
    let d = digits_span(s, from + 1 + gs, len);
    d > 0 && from + 1 + gs + d == len
}

/// Whether `s` as a whole is numeric text.
pub fn check_numeric(s: &str) -> (r: bool)
    ensures
        r == is_numeric_text(s@),
{
    let len = s.unicode_len();
    proof {
        assert(s@.skip(0) =~= s@);
    }
    let g = sign_span(s, 0, len);
    let d1 = digits_span(s, g, len);
    if g + d1 == len {
        return d1 > 0;
    }
    let c = s.get_char(g + d1);
    if c == '.' {
        let d2 = digits_span(s, g + d1 + 1, len);
        let m = g + d1 + 1 + d2;
        if d1 + d2 == 0 {
            return false;
        }
        if m == len {
            return true;
        }
        exp_check(s, m, len)
    } else {
        d1 > 0 && exp_check(s, g + d1, len)
    }
}

/// Whether `s` is numeric text denoting a strictly positive value.
pub fn check_positive(s: &str) -> (r: bool)
    ensures
        r == numeric_positive(s@),
{
    if !check_numeric(s) {
        return false;
    }
    let len = s.unicode_len();
    proof {
        assert(s@.skip(0) =~= s@);
    }
    if len > 0 && s.get_char(0) == '-' {
        return false;
    }
    let g = sign_span(s, 0, len);
    let d1 = digits_span(s, g, len);
    let m: usize;
    if g + d1 < len && s.get_char(g + d1) == '.' {
        let d2 = digits_span(s, g + d1 + 1, len);
        m = g + d1 + 1 + d2;
    } else {
        m = g + d1;
    }
    assert(m == mantissa_end(s@));
    let mut i: usize = g;
    while i < m
        invariant
            len == s@.len(),
            m <= len,
            g == sign_len(s@),
            m == mantissa_end(s@),
            g <= i <= m,
            is_numeric_text(s@),
            !(s@.len() > 0 && s@[0] == '-'),
            forall|j: int| g <= j < i ==> !(is_digit(#[trigger] s@[j]) && s@[j] != '0'),
        decreases m - i,
    {
        let c = s.get_char(i);
        if exec_is_digit(c) && c != '0' {
            proof {
                let w = i as int;
                assert(sign_len(s@) <= w < mantissa_end(s@) && is_digit(s@[w]) && s@[w] != '0');
                assert(exists|j: int|
                    sign_len(s@) <= j < mantissa_end(s@) && is_digit(#[trigger] s@[j]) && s@[j]
                        != '0');
            }
            return true;
        }
        i = i + 1;
    }
    false
}

/// Coerce one raw value: numbers and numeric strings yield their decimal,
/// anything else is an error.
pub fn coerce(v: &RawValue) -> (r: Result<Decimal, CoercionError>)
    ensures
        coercible(*v) ==> (r matches Ok(d) && d.wf() && d.text@ == coerced_text(*v)),
        !coercible(*v) ==> r matches Err(_),
        r matches Err(e) ==> !coercible(*v) && (e == CoercionError::UnsupportedType <==> (*v
            is Null || *v is Other)),
{
    match v {
        RawValue::Num(t) => {
            if check_numeric(t.as_str()) {
                Ok(Decimal { text: t.clone() })
            } else {
                Err(CoercionError::NotNumeric)
            }
        },
        RawValue::Str(t) => {
            if check_numeric(t.as_str()) {
                Ok(Decimal { text: t.clone() })
            } else {
                Err(CoercionError::NotNumeric)
            }
        },
        RawValue::Null => Err(CoercionError::UnsupportedType),
        RawValue::Other => Err(CoercionError::UnsupportedType),
    }
}

impl Decimal {
    /// Whether this decimal denotes a strictly positive value.
    pub fn is_positive(&self) -> (r: bool)
        ensures
            r == self.positive(),
    {
        check_positive(self.text.as_str())
    }
}

} // verus!
