//! One record's JSON object, as the classifier reads it: its top-level
//! fields, with strings and number texts kept as text.
use vstd::prelude::*;
use vstd::arithmetic::div_mod::lemma_basic_div;
use serde_json::Value;

verus! {

/// The value of one top-level field. Numbers keep their decimal text; arrays
/// and objects are not looked into.
pub enum JsonField {
    Str(String),
    Num(String),
    Bool(bool),
    Null,
    Nested,
}

pub enum JsonFieldView {
    Str(Seq<char>),
    Num(Seq<char>),
    Bool(bool),
    Null,
    Nested,
}

impl View for JsonField {
    type V = JsonFieldView;

    open spec fn view(&self) -> JsonFieldView {
        match self {
            JsonField::Str(s) => JsonFieldView::Str(s@),
            JsonField::Num(s) => JsonFieldView::Num(s@),
            JsonField::Bool(b) => JsonFieldView::Bool(*b),
            JsonField::Null => JsonFieldView::Null,
            JsonField::Nested => JsonFieldView::Nested,
        }
    }
}

/// Why a record is not a JSON object.
#[derive(Clone, Copy, Debug, PartialEq, Eq, Structural)]
pub enum JsonError {
    /// The text is not JSON.
    Syntax,
    /// The text is JSON, but not an object.
    NotObject,
}

pub type FieldsView = Seq<(Seq<char>, JsonFieldView)>;

pub open spec fn fields_view(fields: Seq<(String, JsonField)>) -> FieldsView {
    fields.map_values(|kv: (String, JsonField)| (kv.0@, kv.1@))
}

/// The top-level fields that serde_json reads from `text`.
pub uninterp spec fn json_object_of(text: Seq<u8>) -> Result<FieldsView, JsonError>;

/// Relies on serde_json::from_slice into a serde_json::Value, and on
/// serde_json's Display of a Number for the text of a number: the record is
/// parsed as JSON, and the fields of a top-level object are handed back.
#[verifier::external_body]
pub(crate) fn parse_object(text: &[u8]) -> (r: Result<Vec<(String, JsonField)>, JsonError>)
    ensures
        match r {
            Ok(fields) => json_object_of(text@) == Ok::<FieldsView, JsonError>(fields_view(fields@)),
            Err(e) => json_object_of(text@) == Err::<FieldsView, JsonError>(e),
        },
{
    match serde_json::from_slice::<Value>(text) {
        Ok(Value::Object(map)) => Ok(map
            .into_iter()
            .map(|(k, v)| (k, match v {
                Value::String(s) => JsonField::Str(s),
                Value::Number(n) => JsonField::Num(n.to_string()),
                Value::Bool(b) => JsonField::Bool(b),
                Value::Null => JsonField::Null,
                Value::Array(_) | Value::Object(_) => JsonField::Nested,
            }))
            .collect()),
        Ok(_) => Err(JsonError::NotObject),
        Err(_) => Err(JsonError::Syntax),
    }
}

/// The first field named `key`, if any.
pub open spec fn lookup(fields: FieldsView, key: Seq<char>) -> Option<JsonFieldView>
    decreases fields.len(),
{
    if fields.len() == 0 {
        None
    } else if fields[0].0 == key {
        Some(fields[0].1)
    } else {
        lookup(fields.skip(1), key)
    }
}

pub fn find_field<'a>(fields: &'a Vec<(String, JsonField)>, key: &String) -> (r: Option<&'a JsonField>)
    ensures
        match r {
            Some(f) => lookup(fields_view(fields@), key@) == Some(f@),
            None => lookup(fields_view(fields@), key@) is None,
        },
{
    let ghost all = fields_view(fields@);
    assert(all.skip(0) =~= all);
    let mut i: usize = 0;
    while i < fields.len()
        invariant
            i <= fields@.len(),
            all == fields_view(fields@),
            lookup(all, key@) == lookup(all.skip(i as int), key@),
        decreases fields@.len() - i,
    {
        proof {
            assert(all.skip(i as int).skip(1) =~= all.skip(i as int + 1));
        }
        if fields[i].0 == *key {
            return Some(&fields[i].1);
        }
        i = i + 1;
    }
    None
}

/// The characters of `s`, one by one.
pub fn chars_of(s: &str) -> (r: Vec<char>)
    ensures
        r@ == s@,
{
    let mut out: Vec<char> = Vec::new();
    for c in it: s.chars()
        invariant
            out@ == it.seq().take(it.index() as int),
            it.seq() == s@,
    {
        out.push(c);
    }
    out
}

pub open spec fn is_digit(c: char) -> bool {
    '0' <= c && c <= '9'
}

pub open spec fn all_digits(s: Seq<char>) -> bool {
    forall|i: int| 0 <= i < s.len() ==> is_digit(#[trigger] s[i])
}

pub open spec fn digit_value(c: char) -> nat {
    (c as u32 - '0' as u32) as nat
}

/// The number that a run of decimal digits writes.
pub open spec fn digits_value(s: Seq<char>) -> nat
    decreases s.len(),
{
    if s.len() == 0 {
        0
    } else {
        digits_value(s.drop_last()) * 10 + digit_value(s.last())
    }
}

pub open spec fn pow10(n: nat) -> nat
    decreases n,
{
    if n == 0 {
        1
    } else {
        10 * pow10((n - 1) as nat)
    }
}

/// A count: a non-empty run of digits whose value fits in 64 bits.
pub open spec fn count_of(t: Seq<char>) -> Option<u64> {
    if t.len() > 0 && all_digits(t) && digits_value(t) <= u64::MAX {
        Some(digits_value(t) as u64)
    } else {
        None
    }
}

/// Index of the first `c` in `s`, or the length of `s`.
pub open spec fn index_of(s: Seq<char>, c: char) -> nat
    decreases s.len(),
{
    if s.len() == 0 {
        0
    } else if s[0] == c {
        0
    } else {
        1 + index_of(s.skip(1), c)
    }
}

/// Index of the first exponent mark (`e` or `E`), or the length of `s`.
pub open spec fn exponent_index(s: Seq<char>) -> nat
    decreases s.len(),
{
    if s.len() == 0 {
        0
    } else if s[0] == 'e' || s[0] == 'E' {
        0
    } else {
        1 + exponent_index(s.skip(1))
    }
}

/// The exponent written after the mark: an optional sign, then digits.
pub open spec fn exponent_of(x: Seq<char>) -> Option<int> {
    let signed = x.len() > 0 && (x[0] == '+' || x[0] == '-');
    let digits = if signed { x.skip(1) } else { x };
    if digits.len() > 0 && all_digits(digits) {
        if signed && x[0] == '-' {
            Some(-digits_value(digits))
        } else {
            Some(digits_value(digits) as int)
        }
    } else {
        None
    }
}

/// `m` times ten to the `shift`, rounded toward zero.
pub open spec fn scaled(m: nat, shift: int) -> nat {
    if shift >= 0 {
        m * pow10(shift as nat)
    } else {
        m / pow10((-shift) as nat)
    }
}

/// A non-negative decimal number of seconds, `digits[.digits][(e|E)[+|-]digits]`,
/// read as whole nanoseconds (further digits dropped). The digits before the
/// exponent, read as one integer, must fit in 64 bits, and so must the result.
pub open spec fn nanos_of(t: Seq<char>) -> Option<u64> {
    let e = exponent_index(t);
    let mant = t.take(e as int);
    let d = index_of(mant, '.');
    let int_part = mant.take(d as int);
    let has_dot = d < mant.len();
    let frac = if has_dot { mant.skip(d + 1 as int) } else { Seq::<char>::empty() };
    let exp = if e < t.len() { exponent_of(t.skip(e + 1 as int)) } else { Some(0int) };
    let m = digits_value(int_part + frac);
    if int_part.len() > 0 && all_digits(int_part) && (has_dot ==> frac.len() > 0) && all_digits(frac)
        && exp is Some && m <= u64::MAX && scaled(m, exp->0 - frac.len() + 9) <= u64::MAX {
        Some(scaled(m, exp->0 - frac.len() + 9) as u64)
    } else {
        None
    }
}

proof fn lemma_digits_value_step(s: Seq<char>, k: int)
    requires
        0 <= k < s.len(),
    ensures
        digits_value(s.take(k + 1)) == digits_value(s.take(k)) * 10 + digit_value(s[k]),
{
    assert(s.take(k + 1).drop_last() =~= s.take(k));
}

proof fn lemma_pow10_positive(n: nat)
    ensures
        pow10(n) >= 1,
    decreases n,
{
    if n > 0 {
        lemma_pow10_positive((n - 1) as nat);
    }
}

proof fn lemma_pow10_monotone(a: nat, b: nat)
    requires
        a <= b,
    ensures
        pow10(a) <= pow10(b),
    decreases b,
{
    if a < b {
        lemma_pow10_monotone(a, (b - 1) as nat);
        lemma_pow10_positive((b - 1) as nat);
    }
}

proof fn lemma_pow10_twenty()
    ensures
        pow10(20) == 100000000000000000000nat,
{
    reveal_with_fuel(pow10, 21);
}

/// The value of `t[lo..hi]`, a run of digits, capped at `cap`.
fn digits_capped(t: &Vec<char>, lo: usize, hi: usize, cap: u128) -> (r: u128)
    requires
        lo <= hi <= t@.len(),
        all_digits(t@.subrange(lo as int, hi as int)),
        cap <= 0x1_0000_0000_0000_0000_0000_0000_0000u128,
    ensures
        r as int == if digits_value(t@.subrange(lo as int, hi as int)) <= cap {
            digits_value(t@.subrange(lo as int, hi as int)) as int
        } else {
            cap as int
        },
{
    let ghost run = t@.subrange(lo as int, hi as int);
    let mut acc: u128 = 0;
    let mut k: usize = lo;
    while k < hi
        invariant
            lo <= k <= hi <= t@.len(),
            run == t@.subrange(lo as int, hi as int),
            all_digits(run),
            cap <= 0x1_0000_0000_0000_0000_0000_0000_0000u128,
            acc as int == if digits_value(run.take(k - lo)) <= cap {
                digits_value(run.take(k - lo)) as int
            } else {
                cap as int
            },
        decreases hi - k,
    {
        let c = t[k];
        proof {
            assert(run[k - lo] == c);
            assert(is_digit(run[k - lo]));
            lemma_digits_value_step(run, k - lo);
        }
        let d = (c as u32 - '0' as u32) as u128;
        acc = acc * 10 + d;
        if acc > cap {
            acc = cap;
        }
        k = k + 1;
    }
    proof {
        assert(run.take(hi - lo) =~= run);
    }
    acc
}

/// Reads a count field's number text.
pub fn parse_count(t: &Vec<char>) -> (r: Option<u64>)
    ensures
        r == count_of(t@),
{
    let n = t.len();
    if n == 0 {
        return None;
    }
    let mut i: usize = 0;
    while i < n
        invariant
            i <= n == t@.len(),
            all_digits(t@.take(i as int)),
        decreases n - i,
    {
        if !('0' <= t[i] && t[i] <= '9') {
            assert(!all_digits(t@));
            return None;
        }
        i = i + 1;
    }
    assert(t@.subrange(0, n as int) =~= t@);
    let v = digits_capped(t, 0, n, 0x1_0000_0000_0000_0000u128);
    if v > u64::MAX as u128 {
        None
    } else {
        Some(v as u64)
    }
}

fn pow10_exec(k: u32) -> (r: u128)
    requires
        k < 20,
    ensures
        r == pow10(k as nat),
{
    let mut r: u128 = 1;
    let mut i: u32 = 0;
    while i < k
        invariant
            i <= k < 20,
            r == pow10(i as nat),
        decreases k - i,
    {
        proof {
            lemma_pow10_monotone(i as nat, 19);
            reveal_with_fuel(pow10, 20);
        }
        r = r * 10;
        i = i + 1;
    }
    r
}

/// Index of the first character of `t[from..]` that satisfies the test, or `t.len()`.
fn scan_exponent_mark(t: &Vec<char>) -> (r: usize)
    ensures
        r == exponent_index(t@),
{
    assert(t@.skip(0) =~= t@);
    let mut i: usize = 0;
    while i < t.len()
        invariant
            i <= t@.len(),
            exponent_index(t@) == i + exponent_index(t@.skip(i as int)),
        decreases t@.len() - i,
    {
        proof {
            assert(t@.skip(i as int).skip(1) =~= t@.skip(i as int + 1));
        }
        if t[i] == 'e' || t[i] == 'E' {
            return i;
        }
        i = i + 1;
    }
    i
}

fn scan_dot(t: &Vec<char>, end: usize) -> (r: usize)
    requires
        end <= t@.len(),
    ensures
        r == index_of(t@.take(end as int), '.'),
{
    let ghost s = t@.take(end as int);
    assert(s.skip(0) =~= s);
    let mut i: usize = 0;
    while i < end
        invariant
            i <= end <= t@.len(),
            s == t@.take(end as int),
            index_of(s, '.') == i + index_of(s.skip(i as int), '.'),
        decreases end - i,
    {
        proof {
            assert(s.skip(i as int).skip(1) =~= s.skip(i as int + 1));
            assert(s.skip(i as int)[0] == t@[i as int]);
        }
        if t[i] == '.' {
            return i;
        }
        i = i + 1;
    }
    proof {
        assert(s.skip(i as int).len() == 0);
    }
    i
}

/// Whether `t[lo..hi]` is all digits.
fn check_digits(t: &Vec<char>, lo: usize, hi: usize) -> (r: bool)
    requires
        lo <= hi <= t@.len(),
    ensures
        r == all_digits(t@.subrange(lo as int, hi as int)),
{
    let mut i: usize = lo;
    while i < hi
        invariant
            lo <= i <= hi <= t@.len(),
            all_digits(t@.subrange(lo as int, i as int)),
        decreases hi - i,
    {
        if !('0' <= t[i] && t[i] <= '9') {
            assert(t@.subrange(lo as int, hi as int)[i - lo] == t@[i as int]);
            return false;
        }
        assert(forall|j: int| 0 <= j < i - lo ==> t@.subrange(lo as int, i as int + 1)[j] == t@.subrange(lo as int, i as int)[j]);
        i = i + 1;
    }
    true
}

/// Reads a time field's number text as nanoseconds.
pub fn parse_nanos(t: &Vec<char>) -> (r: Option<u64>)
    ensures
        r == nanos_of(t@),
{
    let n = t.len();
    let e = scan_exponent_mark(t);
    let ghost mant = t@.take(e as int);
    proof {
        lemma_index_bound(t@, 'e');
        lemma_index_bound(mant, '.');
    }
    let d = scan_dot(t, e);
    let has_dot = d < e;
    let frac_lo = if has_dot { d + 1 } else { e };
    let ghost int_part = mant.take(d as int);
    let ghost frac = if has_dot { mant.skip(d + 1 as int) } else { Seq::<char>::empty() };
    proof {
        assert(int_part =~= t@.subrange(0, d as int));
        assert(frac =~= t@.subrange(frac_lo as int, e as int));
    }
    if d == 0 || !check_digits(t, 0, d) || (has_dot && frac_lo == e) || !check_digits(t, frac_lo, e) {
        return None;
    }
    // the digits before the exponent, read as one integer
    let mut digits: Vec<char> = Vec::new();
    let mut k: usize = 0;
    while k < e
        invariant
            k <= e <= n == t@.len(),
            d <= e,
            frac_lo <= e,
            has_dot ==> frac_lo == d + 1,
            !has_dot ==> frac_lo == e && d == e,
            digits@ == if k <= d { t@.subrange(0, k as int) } else {
                t@.subrange(0, d as int) + t@.subrange(frac_lo as int, k as int)
            },
        decreases e - k,
    {
        if k != d {
            digits.push(t[k]);
        }
        proof {
            if k < d {
                assert(t@.subrange(0, k as int + 1) =~= t@.subrange(0, k as int).push(t@[k as int]));
            } else if k == d {
                assert(t@.subrange(frac_lo as int, k as int + 1) =~= Seq::<char>::empty());
                assert(t@.subrange(0, d as int) + Seq::<char>::empty() =~= t@.subrange(0, d as int));
            } else {
                assert(t@.subrange(0, d as int) + t@.subrange(frac_lo as int, k as int + 1)
                    =~= (t@.subrange(0, d as int) + t@.subrange(frac_lo as int, k as int)).push(t@[k as int]));
            }
        }
        k = k + 1;
    }
    proof {
        if !has_dot {
            assert(digits@ =~= int_part + frac);
        } else {
            assert(digits@ =~= int_part + frac);
        }
        assert(digits@.subrange(0, digits@.len() as int) =~= digits@);
        assert forall|j: int| 0 <= j < digits@.len() implies is_digit(#[trigger] digits@[j]) by {
            if j < int_part.len() {
                assert(digits@[j] == int_part[j]);
            } else {
                assert(digits@[j] == frac[j - int_part.len()]);
            }
        }
    }
    let m = digits_capped(&digits, 0, digits.len(), 0x1_0000_0000_0000_0000u128);
    if m > u64::MAX as u128 {
        return None;
    }
    // the exponent, its magnitude capped far beyond any that can matter
    let cap: u128 = 0x1_0000_0000_0000_0000_0000u128;
    let mut negative = false;
    let mut exp_mag: u128 = 0;
    if e < n {
        let ghost x = t@.skip(e + 1 as int);
        let signed = e + 1 < n && (t[e + 1] == '+' || t[e + 1] == '-');
        let lo = if signed { e + 2 } else { e + 1 };
        proof {
            let xd = if signed { x.skip(1) } else { x };
            assert(xd =~= t@.subrange(lo as int, n as int));
        }
        if lo == n || !check_digits(t, lo, n) {
            return None;
        }
        negative = signed && t[e + 1] == '-';
        exp_mag = digits_capped(t, lo, n, cap);
    }
    let ghost exp: int = if e < n { exponent_of(t@.skip(e + 1 as int))->0 } else { 0 };
    let ghost real_shift: int = exp - frac.len() + 9;
    let frac_len = (e - frac_lo) as i128;
    let signed_exp: i128 = if negative { 0 - (exp_mag as i128) } else { exp_mag as i128 };
    let shift: i128 = signed_exp - frac_len + 9;
    proof {
        assert(frac.len() == e - frac_lo);
        lemma_pow10_twenty();
    }
    if m == 0 {
        proof {
            if real_shift < 0 {
                lemma_pow10_positive((-real_shift) as nat);
                lemma_basic_div(0, pow10((-real_shift) as nat) as int);
            } else {
                assert(0 * pow10(real_shift as nat) == 0);
            }
        }
        return Some(0);
    }
    if shift >= 20 {
        proof {
            lemma_pow10_monotone(20, real_shift as nat);
            assert(m * pow10(real_shift as nat) >= pow10(real_shift as nat)) by (nonlinear_arith)
                requires m >= 1;
        }
        return None;
    }
    if shift <= -20 {
        proof {
            lemma_pow10_monotone(20, (-real_shift) as nat);
            lemma_basic_div(m as int, pow10((-real_shift) as nat) as int);
        }
        return Some(0);
    }
    if shift >= 0 {
        let p = pow10_exec(shift as u32);
        proof {
            assert(real_shift == shift);
            lemma_pow10_monotone(shift as nat, 19);
            reveal_with_fuel(pow10, 20);
            assert(m * p <= 0xffff_ffff_ffff_ffffu128 * 10000000000000000000u128) by (nonlinear_arith)
                requires m <= 0xffff_ffff_ffff_ffffu128, p <= 10000000000000000000u128;
        }
        let v = m * p;
        if v > u64::MAX as u128 {
            None
        } else {
            Some(v as u64)
        }
    } else {
        let p = pow10_exec((0 - shift) as u32);
        proof {
            assert(real_shift == shift);
            lemma_pow10_positive((-shift) as nat);
            assert(m / p <= m) by (nonlinear_arith)
                requires p >= 1;
        }
        Some((m / p) as u64)
    }
}

proof fn lemma_index_bound(s: Seq<char>, c: char)
    ensures
        index_of(s, c) <= s.len(),
        exponent_index(s) <= s.len(),
    decreases s.len(),
{
    if s.len() > 0 {
        lemma_index_bound(s.skip(1), c);
    }
}

} // verus!
