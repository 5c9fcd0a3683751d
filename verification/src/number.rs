//! Numeric literal classification and validation: integers that fit 64 bits,
//! decimals within double precision, arbitrary-precision decimals, and
//! literals carrying an explicit numeric type that are range-checked at build
//! time.

use vstd::prelude::*;

use crate::model::NumberType;
use crate::model::NumberValue;
use crate::model::NumberValueView;
use crate::model::spec_number_type_name;
use crate::text::chars_to_string;
use crate::text::dec_chars;
use crate::text::find_char;
use crate::text::is_digit;
use crate::text::push_chars;
use crate::text::push_str;
use crate::text::spec_contains_char;
use crate::text::spec_dec;
use crate::text::spec_digit_val;
use crate::text::spec_find_char;
use crate::text::spec_is_digit;
use crate::text::spec_lower;
use crate::text::spec_trim;
use crate::text::str_to_chars;
use crate::text::subrange_chars;
use crate::text::to_lower_chars;
use crate::text::trim_chars;

verus! {

/// Whether `bigdecimal::BigDecimal::from_str` accepts the literal. The exact
/// grammar (signs, underscore separators, exponents) lives in that crate; the
/// name stands for its acceptance condition.
pub uninterp spec fn decimal_literal_ok(s: Seq<char>) -> bool;

/// Relies on `bigdecimal::BigDecimal::from_str`: whether it accepts a literal
/// depends on the literal's characters alone, and an empty literal is always
/// refused.
#[verifier::external_body]
fn check_decimal_literal(s: &str) -> (r: bool)
    ensures
        r == decimal_literal_ok(s@),
        s@.len() == 0 ==> r == false,
{
    <bigdecimal::BigDecimal as core::str::FromStr>::from_str(s).is_ok()
}

/// True when every character is an ASCII decimal digit.
pub open spec fn spec_all_digits(s: Seq<char>) -> bool {
    forall|i: int| 0 <= i < s.len() ==> spec_is_digit(s[i])
}

/// Value of a digit string read in base ten.
pub open spec fn spec_digits_val(s: Seq<char>) -> int
    decreases s.len(),
{
    if s.len() == 0 {
        0
    } else {
        spec_digits_val(s.drop_last()) * 10 + spec_digit_val(s.last())
    }
}

/// The integer denoted by a literal: an optional sign (`-` only where
/// `allow_neg`) followed by at least one digit.
pub open spec fn spec_parse_int(s: Seq<char>, allow_neg: bool) -> Option<int> {
    if s.len() == 0 {
        None
    } else if s[0] == '-' {
        if !allow_neg {
            None
        } else {
            let ds = s.drop_first();
            if ds.len() == 0 || !spec_all_digits(ds) {
                None
            } else {
                Some(-spec_digits_val(ds))
            }
        }
    } else if s[0] == '+' {
        let ds = s.drop_first();
        if ds.len() == 0 || !spec_all_digits(ds) {
            None
        } else {
            Some(spec_digits_val(ds))
        }
    } else {
        if !spec_all_digits(s) {
            None
        } else {
            Some(spec_digits_val(s))
        }
    }
}

/// The integer denoted by a literal, where it lies within `[min, max]`.
pub open spec fn spec_parse_int_in(s: Seq<char>, allow_neg: bool, min: int, max: int) -> Option<
    int,
> {
    match spec_parse_int(s, allow_neg) {
        Some(v) => if min <= v <= max {
            Some(v)
        } else {
            None
        },
        None => None,
    }
}

/// Digit-string values are non-negative and grow along prefixes.
pub proof fn lemma_digits_val_bounds(s: Seq<char>)
    requires
        spec_all_digits(s),
    ensures
        spec_digits_val(s) >= 0,
        forall|k: int| 0 <= k <= s.len() ==> #[trigger] spec_digits_val(s.take(k))
            <= spec_digits_val(s),
    decreases s.len(),
{
    if s.len() == 0 {
        assert(forall|k: int| 0 <= k <= s.len() ==> s.take(k) =~= s);
    } else {
        assert(spec_all_digits(s.drop_last()));
        lemma_digits_val_bounds(s.drop_last());
        assert(spec_digit_val(s.last()) >= 0);
        assert forall|k: int| 0 <= k <= s.len() implies #[trigger] spec_digits_val(s.take(k))
            <= spec_digits_val(s) by {
            if k == s.len() {
                assert(s.take(k) =~= s);
            } else {
                assert(s.take(k) =~= s.drop_last().take(k));
            }
        }
    }
}

/// Parses an integer literal, `None` on any malformed literal or one whose
/// value lies outside `[min, max]`.
pub fn parse_int_in_range(s: &Vec<char>, allow_neg: bool, min: i128, max: i128) -> (r: Option<
    i128,
>)
    requires
        min <= 0 <= max,
        -min <= u64::MAX,
        max <= u64::MAX,
    ensures
        match spec_parse_int_in(s@, allow_neg, min as int, max as int) {
            Some(v) => r matches Some(x) && x as int == v,
            None => r is None,
        },
{
    let n = s.len();
    if n == 0 {
        return None;
    }
    let first = s[0];
    let neg = first == '-';
    if neg && !allow_neg {
        return None;
    }
    let start: usize = if first == '-' || first == '+' {
        1
    } else {
        0
    };
    if start == n {
        return None;
    }
    proof {
        assert(s@.skip(0) =~= s@);
        assert(s@.drop_first() =~= s@.skip(1));
    }
    let ghost ds = s@.skip(start as int);
    let bound: u128 = if neg {
        (-min) as u128
    } else {
        max as u128
    };
    proof {
        assert(bound as int == if neg {
            -min as int
        } else {
            max as int
        });
    }
    let mut mag: u128 = 0;
    let mut i: usize = start;
    while i < n
        invariant
            n == s@.len(),
            start <= i <= n,
            start < n,
            min <= 0 <= max,
            neg == (s@[0] == '-'),
            !neg || allow_neg,
            start == 1 <==> (s@[0] == '-' || s@[0] == '+'),
            start <= 1,
            ds == s@.skip(start as int),
            start == 1 ==> ds == s@.drop_first(),
            start == 0 ==> ds == s@,
            bound as int == (if neg {
                -min as int
            } else {
                max as int
            }),
            spec_all_digits(s@.subrange(start as int, i as int)),
            mag as int == spec_digits_val(s@.subrange(start as int, i as int)),
            mag <= bound,
            bound <= u64::MAX + 1,
        decreases n - i,
    {
        let c = s[i];
        if !is_digit(c) {
            proof {
                assert(ds[i - start] == s@[i as int]);
                assert(!spec_is_digit(ds[i - start]));
                assert(!spec_all_digits(ds));
            }
            return None;
        }
        let d = (c as u32 - 48) as u128;
        mag = mag * 10 + d;
        i = i + 1;
        proof {
            assert(s@.subrange(start as int, i as int).drop_last() =~= s@.subrange(
                start as int,
                i - 1,
            ));
            assert(s@.subrange(start as int, i as int).last() == s@[i - 1]);
        }
        if mag > bound {
            proof {
                let pre = s@.subrange(start as int, i as int);
                if spec_all_digits(ds) {
                    assert(ds.take(i - start) =~= pre);
                    lemma_digits_val_bounds(ds);
                    assert(spec_digits_val(ds) >= spec_digits_val(pre));
                    assert(spec_digits_val(ds) > bound as int);
                    if neg {
                        assert(-spec_digits_val(ds) < min as int);
                    } else {
                        assert(spec_digits_val(ds) > max as int);
                    }
                }
            }
            return None;
        }
    }
    proof {
        assert(s@.subrange(start as int, n as int) =~= ds);
        if neg {
            assert(bound as int == -min);
        } else {
            assert(bound as int == max);
        }
    }
    if neg {
        Some(-(mag as i128))
    } else {
        Some(mag as i128)
    }
}

/// Canonical decimal text of an integer: the digits of its magnitude with a
/// leading `-` when negative.
pub open spec fn spec_int_canon(v: int) -> Seq<char> {
    if v < 0 {
        seq!['-'] + spec_dec((-v) as nat)
    } else {
        spec_dec(v as nat)
    }
}

/// Renders an integer in canonical decimal text.
pub fn int_canon_chars(v: i128) -> (r: Vec<char>)
    requires
        -v <= u64::MAX,
        v <= u64::MAX,
    ensures
        r@ == spec_int_canon(v as int),
{
    if v < 0 {
        let mut out: Vec<char> = Vec::new();
        out.push('-');
        let d = dec_chars((-v) as u64);
        push_chars(&mut out, &d);
        proof {
            assert(out@ =~= spec_int_canon(v as int));
        }
        out
    } else {
        dec_chars(v as u64)
    }
}

/// Number of significant digits before any exponent marker: digit characters
/// counted from the first non-zero digit on; leading zeros are not
/// significant. `seen` records whether a non-zero digit came before.
pub open spec fn spec_sig_digits_from(s: Seq<char>, seen: bool) -> int
    decreases s.len(),
{
    if s.len() == 0 {
        0
    } else if s[0] == 'e' || s[0] == 'E' {
        0
    } else if spec_is_digit(s[0]) {
        if s[0] == '0' && !seen {
            spec_sig_digits_from(s.drop_first(), seen)
        } else {
            1 + spec_sig_digits_from(s.drop_first(), true)
        }
    } else {
        spec_sig_digits_from(s.drop_first(), seen)
    }
}

/// The significant digits of a plain decimal literal: its digits before any
/// exponent marker, leading zeros skipped.
pub open spec fn spec_sig_digits(s: Seq<char>) -> int {
    spec_sig_digits_from(s, false)
}

/// Counts the significant digits of a literal: digits up to its exponent
/// marker, leading zeros skipped.
pub fn count_significant_digits(s: &str) -> (r: usize)
    ensures
        r == spec_sig_digits(s@),
{
    let chars = str_to_chars(s);
    count_significant_digits_chars(&chars)
}

/// [`count_significant_digits`] over character vectors.
pub fn count_significant_digits_chars(s: &Vec<char>) -> (r: usize)
    ensures
        r == spec_sig_digits(s@),
{
    let n = s.len();
    let mut acc: usize = 0;
    let mut seen = false;
    let mut i: usize = 0;
    proof {
        assert(s@.skip(0) =~= s@);
    }
    while i < n
        invariant
            n == s@.len(),
            i <= n,
            acc <= i,
            spec_sig_digits(s@) == acc + spec_sig_digits_from(s@.skip(i as int), seen),
        decreases n - i,
    {
        let c = s[i];
        proof {
            assert(s@.skip(i as int)[0] == s@[i as int]);
            assert(s@.skip(i as int).drop_first() =~= s@.skip(i + 1));
        }
        if c == 'e' || c == 'E' {
            proof {
                assert(spec_sig_digits_from(s@.skip(i as int), seen) == 0);
            }
            return acc;
        }
        if is_digit(c) {
            if c == '0' && !seen {
            } else {
                acc = acc + 1;
                seen = true;
            }
        }
        i = i + 1;
    }
    proof {
        assert(s@.skip(n as int) =~= Seq::<char>::empty());
    }
    acc
}

/// A literal looks like an integer when it has no decimal point and no
/// exponent marker.
pub open spec fn spec_looks_like_integer(s: Seq<char>) -> bool {
    !spec_contains_char(s, '.') && !spec_contains_char(s, 'e') && !spec_contains_char(s, 'E')
}

/// Tests whether the literal has neither a decimal point nor an exponent.
pub fn looks_like_integer(s: &str) -> (r: bool)
    ensures
        r == spec_looks_like_integer(s@),
{
    let chars = str_to_chars(s);
    looks_like_integer_chars(&chars)
}

/// [`looks_like_integer`] over character vectors.
pub fn looks_like_integer_chars(s: &Vec<char>) -> (r: bool)
    ensures
        r == spec_looks_like_integer(s@),
{
    let n = s.len();
    let a = find_char(s, '.');
    let b = find_char(s, 'e');
    let c = find_char(s, 'E');
    a == n && b == n && c == n
}

/// A decimal literal needs arbitrary precision when it carries more than
/// fifteen significant digits.
pub open spec fn spec_needs_big_decimal(s: Seq<char>) -> bool {
    spec_sig_digits(s) > 15
}

/// Tests whether the literal exceeds double precision's fifteen reliable
/// significant digits.
pub fn requires_big_decimal_precision(s: &str) -> (r: bool)
    ensures
        r == spec_needs_big_decimal(s@),
{
    let c = count_significant_digits(s);
    c > 15
}

/// The mantissa is digits with at most one point, and at least one digit.
pub open spec fn spec_mantissa_ok(m: Seq<char>) -> bool {
    let dot = spec_find_char(m, '.');
    if dot == m.len() {
        m.len() > 0 && spec_all_digits(m)
    } else {
        let before = m.take(dot);
        let after = m.skip(dot + 1);
        spec_all_digits(before) && spec_all_digits(after) && !spec_contains_char(after, '.')
            && before.len() + after.len() > 0
    }
}

/// The exponent is an optional sign followed by at least one digit.
pub open spec fn spec_exponent_ok(e: Seq<char>) -> bool {
    let d = if e.len() > 0 && (e[0] == '+' || e[0] == '-') {
        e.drop_first()
    } else {
        e
    };
    d.len() > 0 && spec_all_digits(d)
}

/// A well-formed decimal literal: an optional sign, a mantissa of digits with
/// at most one point, and an optional exponent.
pub open spec fn spec_float_literal_ok(s: Seq<char>) -> bool {
    let t = if s.len() > 0 && (s[0] == '+' || s[0] == '-') {
        s.drop_first()
    } else {
        s
    };
    let e1 = spec_find_char(t, 'e');
    let e2 = spec_find_char(t, 'E');
    let e = if e1 < e2 {
        e1
    } else {
        e2
    };
    if e == t.len() {
        spec_mantissa_ok(t)
    } else {
        spec_mantissa_ok(t.take(e)) && spec_exponent_ok(t.skip(e + 1))
    }
}

/// Tests whether every character of `s` is a digit.
fn all_digits_chars(s: &Vec<char>) -> (r: bool)
    ensures
        r == spec_all_digits(s@),
{
    let n = s.len();
    let mut i: usize = 0;
    while i < n
        invariant
            n == s@.len(),
            i <= n,
            forall|j: int| 0 <= j < i ==> spec_is_digit(s@[j]),
        decreases n - i,
    {
        if !is_digit(s[i]) {
            return false;
        }
        i = i + 1;
    }
    true
}

/// Tests whether the characters form a well-formed decimal literal.
pub fn is_float_literal(s: &Vec<char>) -> (r: bool)
    ensures
        r == spec_float_literal_ok(s@),
{
    let n = s.len();
    let start: usize = if n > 0 && (s[0] == '+' || s[0] == '-') {
        1
    } else {
        0
    };
    let t = subrange_chars(s, start, n);
    proof {
        if start == 0 {
            assert(t@ =~= s@);
        } else {
            assert(t@ =~= s@.drop_first());
        }
    }
    let tn = t.len();
    let e1 = find_char(&t, 'e');
    let e2 = find_char(&t, 'E');
    let e = if e1 < e2 {
        e1
    } else {
        e2
    };
    let m = subrange_chars(&t, 0, e);
    proof {
        assert(m@ =~= t@.take(e as int));
        if e == tn {
            assert(m@ =~= t@);
        }
    }
    let mantissa_ok = {
        let dot = find_char(&m, '.');
        if dot == m.len() {
            m.len() > 0 && all_digits_chars(&m)
        } else {
            let before = subrange_chars(&m, 0, dot);
            let after = subrange_chars(&m, dot + 1, m.len());
            proof {
                assert(before@ =~= m@.take(dot as int));
                assert(after@ =~= m@.skip(dot as int + 1));
            }
            let after_dot = find_char(&after, '.');
            all_digits_chars(&before) && all_digits_chars(&after) && after_dot == after.len()
                && before.len() + after.len() > 0
        }
    };
    if e == tn {
        mantissa_ok
    } else {
        let ex = subrange_chars(&t, e + 1, tn);
        proof {
            assert(ex@ =~= t@.skip(e as int + 1));
        }
        let exn = ex.len();
        let dstart: usize = if exn > 0 && (ex[0] == '+' || ex[0] == '-') {
            1
        } else {
            0
        };
        let d = subrange_chars(&ex, dstart, exn);
        proof {
            if dstart == 0 {
                assert(d@ =~= ex@);
            } else {
                assert(d@ =~= ex@.drop_first());
            }
        }
        mantissa_ok && d.len() > 0 && all_digits_chars(&d)
    }
}

/// Canonical text of a decimal literal: a zero supplied around a bare point,
/// and `.0` appended to a literal with neither point nor exponent, so that
/// the emitted constant reads as a decimal.
pub open spec fn spec_float_canon(s: Seq<char>) -> Seq<char> {
    let sg: Seq<char> = if s.len() > 0 && (s[0] == '+' || s[0] == '-') {
        seq![s[0]]
    } else {
        Seq::empty()
    };
    let r = s.skip(sg.len() as int);
    let a: Seq<char> = if r.len() > 0 && r[0] == '.' {
        seq!['0'] + r
    } else {
        r
    };
    let b: Seq<char> = if a.len() > 0 && a.last() == '.' {
        a.push('0')
    } else {
        a
    };
    let c: Seq<char> = if !spec_contains_char(b, '.') && !spec_contains_char(b, 'e')
        && !spec_contains_char(b, 'E') {
        b + ".0"@
    } else {
        b
    };
    sg + c
}

/// Renders a decimal literal in canonical text.
pub fn float_canon_chars(s: &Vec<char>) -> (r: Vec<char>)
    ensures
        r@ == spec_float_canon(s@),
{
    let n = s.len();
    let start: usize = if n > 0 && (s[0] == '+' || s[0] == '-') {
        1
    } else {
        0
    };
    let mut a: Vec<char> = Vec::new();
    if start < n && s[start] == '.' {
        a.push('0');
    }
    let rest = subrange_chars(s, start, n);
    push_chars(&mut a, &rest);
    proof {
        let sg: Seq<char> = if start == 1 {
            seq![s@[0]]
        } else {
            Seq::<char>::empty()
        };
        assert(rest@ =~= s@.skip(sg.len() as int));
    }
    let mut b = a;
    if b.len() > 0 && b[b.len() - 1] == '.' {
        b.push('0');
    }
    let p = find_char(&b, '.');
    let q = find_char(&b, 'e');
    let w = find_char(&b, 'E');
    let bn = b.len();
    let mut c = b;
    if p == bn && q == bn && w == bn {
        push_str(&mut c, ".0");
    }
    let mut out: Vec<char> = Vec::new();
    if start == 1 {
        out.push(s[0]);
    }
    push_chars(&mut out, &c);
    proof {
        assert(out@ =~= spec_float_canon(s@));
    }
    out
}

/// Escapes backslashes and double quotes for inclusion in an emitted string
/// literal.
pub open spec fn spec_escape_literal_char(c: char) -> Seq<char> {
    if c == '\\' {
        seq!['\\', '\\']
    } else if c == '"' {
        seq!['\\', '"']
    } else {
        seq![c]
    }
}

/// [`escape_literal`]'s result.
pub open spec fn spec_escape_literal(s: Seq<char>) -> Seq<char>
    decreases s.len(),
{
    if s.len() == 0 {
        Seq::empty()
    } else {
        spec_escape_literal(s.drop_last()) + spec_escape_literal_char(s.last())
    }
}

/// Escapes backslashes and double quotes in a literal.
pub fn escape_literal(s: &str) -> (r: String)
    ensures
        r@ == spec_escape_literal(s@),
{
    let chars = str_to_chars(s);
    let out = escape_literal_chars(&chars);
    chars_to_string(&out)
}

/// [`escape_literal`] over character vectors.
pub fn escape_literal_chars(s: &Vec<char>) -> (r: Vec<char>)
    ensures
        r@ == spec_escape_literal(s@),
{
    let n = s.len();
    let mut out: Vec<char> = Vec::new();
    let mut i: usize = 0;
    while i < n
        invariant
            n == s@.len(),
            i <= n,
            out@ == spec_escape_literal(s@.take(i as int)),
        decreases n - i,
    {
        let c = s[i];
        if c == '\\' {
            out.push('\\');
            out.push('\\');
        } else if c == '"' {
            out.push('\\');
            out.push('"');
        } else {
            out.push(c);
        }
        i = i + 1;
        proof {
            assert(s@.take(i as int).drop_last() =~= s@.take(i - 1));
            assert(out@ =~= spec_escape_literal(s@.take(i - 1)) + spec_escape_literal_char(
                s@[i - 1],
            ));
        }
    }
    proof {
        assert(s@.take(n as int) =~= s@);
    }
    out
}


/// Error text for an empty numeric literal.
pub open spec fn spec_msg_empty_number() -> Seq<char> {
    "Number literal cannot be empty"@
}

/// Error text for a literal that no numeric form accepts.
pub open spec fn spec_msg_invalid_number(lit: Seq<char>) -> Seq<char> {
    "Invalid number literal '"@ + lit + "'"@
}

/// Error text for an unknown explicit type name.
pub open spec fn spec_msg_unsupported_type(name: Seq<char>) -> Seq<char> {
    "Unsupported number type '"@ + name + "'"@
}

/// Error text for an integer literal outside its explicit type's range.
pub open spec fn spec_msg_does_not_fit(lit: Seq<char>, ty: NumberType) -> Seq<char> {
    "'"@ + lit + "' does not fit in "@ + spec_number_type_name(ty)
}

/// Error text for a malformed decimal literal under an explicit float type.
pub open spec fn spec_msg_not_float(lit: Seq<char>, ty: NumberType) -> Seq<char> {
    "'"@ + lit + "' is not a valid "@ + spec_number_type_name(ty) + " literal"@
}

/// Classification of a literal as an arbitrary-precision decimal: accepted
/// exactly when the decimal parser accepts it.
pub open spec fn spec_big(lit: Seq<char>) -> Result<NumberValueView, Seq<char>> {
    if decimal_literal_ok(lit) {
        Ok(NumberValueView::BigDecimal(lit))
    } else {
        Err(spec_msg_invalid_number(lit))
    }
}

/// The signed range of an explicit integer type, `None` for float types.
pub open spec fn spec_type_range(ty: NumberType) -> Option<(bool, int, int)> {
    match ty {
        NumberType::I8 => Some((true, -128int, 127int)),
        NumberType::I16 => Some((true, -32768int, 32767int)),
        NumberType::I32 => Some((true, -2147483648int, 2147483647int)),
        NumberType::I64 => Some((true, -9223372036854775808int, 9223372036854775807int)),
        NumberType::U8 => Some((false, 0int, 255int)),
        NumberType::U16 => Some((false, 0int, 65535int)),
        NumberType::U32 => Some((false, 0int, 4294967295int)),
        NumberType::U64 => Some((false, 0int, 18446744073709551615int)),
        NumberType::F32 => None,
        NumberType::F64 => None,
    }
}

/// Validation of a trimmed literal against one explicit numeric type:
/// integers are range-checked, floats grammar-checked, and the canonical
/// literal text is kept.
pub open spec fn spec_explicit_of_type(lit: Seq<char>, ty: NumberType) -> Result<
    NumberValueView,
    Seq<char>,
> {
    match spec_type_range(ty) {
        Some((allow_neg, min, max)) => match spec_parse_int_in(lit, allow_neg, min, max) {
            Some(v) => Ok(NumberValueView::Typed { literal: spec_int_canon(v), ty }),
            None => Err(spec_msg_does_not_fit(lit, ty)),
        },
        None => if spec_float_literal_ok(lit) {
            Ok(NumberValueView::Typed { literal: spec_float_canon(lit), ty })
        } else {
            Err(spec_msg_not_float(lit, ty))
        },
    }
}

/// The explicit numeric type named by a (trimmed, lower-cased) hint.
pub open spec fn spec_type_of_hint(h: Seq<char>) -> Option<NumberType> {
    if h == "i8"@ {
        Some(NumberType::I8)
    } else if h == "i16"@ {
        Some(NumberType::I16)
    } else if h == "i32"@ {
        Some(NumberType::I32)
    } else if h == "i64"@ {
        Some(NumberType::I64)
    } else if h == "u8"@ {
        Some(NumberType::U8)
    } else if h == "u16"@ {
        Some(NumberType::U16)
    } else if h == "u32"@ {
        Some(NumberType::U32)
    } else if h == "u64"@ {
        Some(NumberType::U64)
    } else if h == "f32"@ {
        Some(NumberType::F32)
    } else if h == "f64"@ {
        Some(NumberType::F64)
    } else {
        None
    }
}

/// Validation of a literal against an explicit type hint.
pub open spec fn spec_parse_explicit(lit: Seq<char>, hint: Seq<char>) -> Result<
    NumberValueView,
    Seq<char>,
> {
    let h = spec_lower(spec_trim(hint));
    if h == "bigdecimal"@ {
        spec_big(lit)
    } else {
        match spec_type_of_hint(h) {
            Some(ty) => spec_explicit_of_type(spec_trim(lit), ty),
            None => Err(spec_msg_unsupported_type(h)),
        }
    }
}

/// Classification of a numeric literal by the precision policy: integers that
/// fit 64 signed bits stay integers; decimals of more than fifteen
/// significant digits need arbitrary precision; other well-formed decimals
/// are double-precision constants; anything else must at least be a valid
/// arbitrary-precision decimal.
pub open spec fn spec_parse_number(s: Seq<char>, t: Option<Seq<char>>) -> Result<
    NumberValueView,
    Seq<char>,
> {
    let lit = spec_trim(s);
    if lit.len() == 0 {
        Err(spec_msg_empty_number())
    } else {
        match t {
            Some(h) => spec_parse_explicit(lit, h),
            None => if spec_looks_like_integer(lit) {
                match spec_parse_int_in(
                    lit,
                    true,
                    -9223372036854775808int,
                    9223372036854775807int,
                ) {
                    Some(v) => Ok(NumberValueView::Int(v as i64)),
                    None => spec_big(lit),
                }
            } else if spec_needs_big_decimal(lit) {
                spec_big(lit)
            } else if spec_float_literal_ok(lit) {
                Ok(NumberValueView::Float(lit))
            } else {
                spec_big(lit)
            },
        }
    }
}

/// Validates a literal as an arbitrary-precision decimal, keeping the
/// literal text itself.
pub fn parse_big_decimal(lit: &Vec<char>) -> (r: Result<NumberValue, String>)
    ensures
        match r {
            Ok(v) => spec_big(lit@) == Ok::<NumberValueView, Seq<char>>(v@),
            Err(e) => spec_big(lit@) == Err::<NumberValueView, Seq<char>>(e@),
        },
{
    let text = chars_to_string(lit);
    if check_decimal_literal(text.as_str()) {
        Ok(NumberValue::BigDecimal(text))
    } else {
        let mut msg: Vec<char> = Vec::new();
        push_str(&mut msg, "Invalid number literal '");
        push_chars(&mut msg, lit);
        push_str(&mut msg, "'");
        proof {
            assert(msg@ =~= spec_msg_invalid_number(lit@));
        }
        Err(chars_to_string(&msg))
    }
}

/// Validates a trimmed literal against one explicit numeric type.
fn explicit_of_type(lit: &Vec<char>, ty: NumberType) -> (r: Result<NumberValue, String>)
    ensures
        match r {
            Ok(v) => spec_explicit_of_type(lit@, ty) == Ok::<NumberValueView, Seq<char>>(v@),
            Err(e) => spec_explicit_of_type(lit@, ty) == Err::<NumberValueView, Seq<char>>(e@),
        },
{
    let range: Option<(bool, i128, i128)> = match ty {
        NumberType::I8 => Some((true, -128i128, 127i128)),
        NumberType::I16 => Some((true, -32768i128, 32767i128)),
        NumberType::I32 => Some((true, -2147483648i128, 2147483647i128)),
        NumberType::I64 => Some((true, -9223372036854775808i128, 9223372036854775807i128)),
        NumberType::U8 => Some((false, 0i128, 255i128)),
        NumberType::U16 => Some((false, 0i128, 65535i128)),
        NumberType::U32 => Some((false, 0i128, 4294967295i128)),
        NumberType::U64 => Some((false, 0i128, 18446744073709551615i128)),
        NumberType::F32 => None,
        NumberType::F64 => None,
    };
    match range {
        Some((allow_neg, min, max)) => {
            match parse_int_in_range(lit, allow_neg, min, max) {
                Some(v) => {
                    let canon = int_canon_chars(v);
                    Ok(NumberValue::Typed { literal: chars_to_string(&canon), ty })
                },
                None => {
                    let mut msg: Vec<char> = Vec::new();
                    push_str(&mut msg, "'");
                    push_chars(&mut msg, lit);
                    push_str(&mut msg, "' does not fit in ");
                    push_str(&mut msg, ty.as_str());
                    proof {
                        assert(msg@ =~= spec_msg_does_not_fit(lit@, ty));
                    }
                    Err(chars_to_string(&msg))
                },
            }
        },
        None => {
            if is_float_literal(lit) {
                let canon = float_canon_chars(lit);
                Ok(NumberValue::Typed { literal: chars_to_string(&canon), ty })
            } else {
                let mut msg: Vec<char> = Vec::new();
                push_str(&mut msg, "'");
                push_chars(&mut msg, lit);
                push_str(&mut msg, "' is not a valid ");
                push_str(&mut msg, ty.as_str());
                push_str(&mut msg, " literal");
                proof {
                    assert(msg@ =~= spec_msg_not_float(lit@, ty));
                }
                Err(chars_to_string(&msg))
            }
        },
    }
}

/// Validates a literal against an explicit type hint such as `i32`, `f64` or
/// `bigdecimal`; build fails on a literal outside the type's range.
pub fn parse_explicit_number(literal: &str, type_hint: &str) -> (r: Result<NumberValue, String>)
    ensures
        match r {
            Ok(v) => spec_parse_explicit(literal@, type_hint@) == Ok::<
                NumberValueView,
                Seq<char>,
            >(v@),
            Err(e) => spec_parse_explicit(literal@, type_hint@) == Err::<
                NumberValueView,
                Seq<char>,
            >(e@),
        },
{
    let hint_chars = str_to_chars(type_hint);
    let trimmed_hint = trim_chars(&hint_chars);
    let h = to_lower_chars(&trimmed_hint);
    let hs = chars_to_string(&h);
    let lit_chars = str_to_chars(literal);
    if crate::text::str_eq(hs.as_str(), "bigdecimal") {
        return parse_big_decimal(&lit_chars);
    }
    let ty: Option<NumberType> = if crate::text::str_eq(hs.as_str(), "i8") {
        Some(NumberType::I8)
    } else if crate::text::str_eq(hs.as_str(), "i16") {
        Some(NumberType::I16)
    } else if crate::text::str_eq(hs.as_str(), "i32") {
        Some(NumberType::I32)
    } else if crate::text::str_eq(hs.as_str(), "i64") {
        Some(NumberType::I64)
    } else if crate::text::str_eq(hs.as_str(), "u8") {
        Some(NumberType::U8)
    } else if crate::text::str_eq(hs.as_str(), "u16") {
        Some(NumberType::U16)
    } else if crate::text::str_eq(hs.as_str(), "u32") {
        Some(NumberType::U32)
    } else if crate::text::str_eq(hs.as_str(), "u64") {
        Some(NumberType::U64)
    } else if crate::text::str_eq(hs.as_str(), "f32") {
        Some(NumberType::F32)
    } else if crate::text::str_eq(hs.as_str(), "f64") {
        Some(NumberType::F64)
    } else {
        None
    };
    match ty {
        Some(ty) => {
            let trimmed_lit = trim_chars(&lit_chars);
            explicit_of_type(&trimmed_lit, ty)
        },
        None => {
            let mut msg: Vec<char> = Vec::new();
            push_str(&mut msg, "Unsupported number type '");
            push_chars(&mut msg, &h);
            push_str(&mut msg, "'");
            proof {
                assert(msg@ =~= spec_msg_unsupported_type(spec_lower(spec_trim(type_hint@))));
            }
            Err(chars_to_string(&msg))
        },
    }
}

/// Classifies a numeric literal, optionally under an explicit type hint.
/// Fifteen or fewer significant decimal digits resolve to a double-precision
/// constant, sixteen or more to an arbitrary-precision decimal; integer
/// literals stay integers where they fit 64 signed bits.
pub fn parse_number_value(text: &str, explicit_type: Option<&str>) -> (r: Result<NumberValue, String>)
    ensures
        ({
            let m = spec_parse_number(
                text@,
                match explicit_type {
                    Some(h) => Some(h@),
                    None => None,
                },
            );
            match r {
                Ok(v) => m == Ok::<NumberValueView, Seq<char>>(v@),
                Err(e) => m == Err::<NumberValueView, Seq<char>>(e@),
            }
        }),
{
    let chars = str_to_chars(text);
    let lit = trim_chars(&chars);
    if lit.len() == 0 {
        let mut msg: Vec<char> = Vec::new();
        push_str(&mut msg, "Number literal cannot be empty");
        return Err(chars_to_string(&msg));
    }
    match explicit_type {
        Some(hint) => {
            let lit_str = chars_to_string(&lit);
            parse_explicit_number(lit_str.as_str(), hint)
        },
        None => {
            if looks_like_integer_chars(&lit) {
                match parse_int_in_range(
                    &lit,
                    true,
                    -9223372036854775808i128,
                    9223372036854775807i128,
                ) {
                    Some(v) => Ok(NumberValue::Int(v as i64)),
                    None => parse_big_decimal(&lit),
                }
            } else {
                let digits = count_significant_digits_chars(&lit);
                if digits > 15 {
                    parse_big_decimal(&lit)
                } else if is_float_literal(&lit) {
                    Ok(NumberValue::Float(chars_to_string(&lit)))
                } else {
                    parse_big_decimal(&lit)
                }
            }
        },
    }
}

/// The precision policy: a plain decimal literal of more than fifteen
/// significant digits resolves to an arbitrary-precision decimal, one of
/// fifteen or fewer well-formed digits to a double-precision constant; a
/// pure integer literal resolves to a 64-bit integer where it fits and to an
/// arbitrary-precision decimal otherwise.
pub proof fn lemma_precision_policy(s: Seq<char>)
    requires
        spec_trim(s).len() > 0,
    ensures
        ({
            let lit = spec_trim(s);
            &&& (!spec_looks_like_integer(lit) && spec_sig_digits(lit) > 15 ==> spec_parse_number(
                s,
                None,
            ) == spec_big(lit))
            &&& (!spec_looks_like_integer(lit) && spec_sig_digits(lit) <= 15
                && spec_float_literal_ok(lit) ==> spec_parse_number(s, None) == Ok::<
                NumberValueView,
                Seq<char>,
            >(NumberValueView::Float(lit)))
            &&& ((spec_looks_like_integer(lit) && spec_parse_int_in(
                lit,
                true,
                -9223372036854775808int,
                9223372036854775807int,
            ) is Some) ==> spec_parse_number(s, None) == Ok::<NumberValueView, Seq<char>>(
                NumberValueView::Int(
                    spec_parse_int_in(
                        lit,
                        true,
                        -9223372036854775808int,
                        9223372036854775807int,
                    )->Some_0 as i64,
                ),
            ))
            &&& (spec_looks_like_integer(lit) && spec_parse_int_in(
                lit,
                true,
                -9223372036854775808int,
                9223372036854775807int,
            ) is None ==> spec_parse_number(s, None) == spec_big(lit))
        }),
{
}

} // verus!
