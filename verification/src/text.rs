//! Character-level text utilities shared by the parser, the analysis and the
//! code emitters: identifier sanitizing, ASCII case mapping, trimming,
//! escaping, and decimal rendering of counters.

use vstd::prelude::*;

verus! {

/// True for the characters kept verbatim by [`sanitize_identifier`]:
/// ASCII letters, ASCII digits and `_`.
pub open spec fn spec_ident_char(c: char) -> bool {
    let u = c as u32;
    (48 <= u && u <= 57) || (65 <= u && u <= 90) || (97 <= u && u <= 122) || c == '_'
}

/// One character of [`sanitize_identifier`]'s result.
pub open spec fn spec_sanitize_char(c: char) -> char {
    if spec_ident_char(c) {
        c
    } else {
        '_'
    }
}

/// The result of [`sanitize_identifier`]: every character that is not an
/// ASCII letter, an ASCII digit or `_` becomes `_`.
pub open spec fn spec_sanitize(s: Seq<char>) -> Seq<char> {
    s.map_values(|c: char| spec_sanitize_char(c))
}

/// ASCII upper-case image of one character.
pub open spec fn spec_upper_char(c: char) -> char {
    let u = c as u32;
    if 97 <= u && u <= 122 {
        ((u - 32) as u8) as char
    } else {
        c
    }
}

/// ASCII upper-case image of a text.
pub open spec fn spec_upper(s: Seq<char>) -> Seq<char> {
    s.map_values(|c: char| spec_upper_char(c))
}

/// ASCII whitespace as trimmed from text nodes and literals.
pub open spec fn spec_is_space(c: char) -> bool {
    c == ' ' || c == '\t' || c == '\n' || c == '\r'
}

/// Number of leading whitespace characters.
pub open spec fn spec_trim_start_len(s: Seq<char>) -> int
    decreases s.len(),
{
    if s.len() == 0 {
        0
    } else if spec_is_space(s[0]) {
        1 + spec_trim_start_len(s.drop_first())
    } else {
        0
    }
}

/// Number of trailing whitespace characters.
pub open spec fn spec_trim_end_len(s: Seq<char>) -> int
    decreases s.len(),
{
    if s.len() == 0 {
        0
    } else if spec_is_space(s[s.len() - 1]) {
        1 + spec_trim_end_len(s.drop_last())
    } else {
        0
    }
}

/// The text with leading and trailing ASCII whitespace removed.
pub open spec fn spec_trim(s: Seq<char>) -> Seq<char> {
    if spec_trim_start_len(s) == s.len() {
        Seq::empty()
    } else {
        s.subrange(spec_trim_start_len(s), s.len() - spec_trim_end_len(s))
    }
}

/// Collects the characters of a string slice into a vector.
pub fn str_to_chars(s: &str) -> (v: Vec<char>)
    ensures
        v@ == s@,
{
    let n = s.unicode_len();
    let mut v: Vec<char> = Vec::new();
    let mut i: usize = 0;
    while i < n
        invariant
            n == s@.len(),
            i <= n,
            v@ == s@.take(i as int),
        decreases n - i,
    {
        v.push(s.get_char(i));
        i = i + 1;
        proof {
            assert(v@ =~= s@.take(i as int));
        }
    }
    proof {
        assert(v@ =~= s@);
    }
    v
}

/// Relies on `String: FromIterator<char>`: collecting characters yields the
/// string whose characters are exactly those collected, in order.
#[verifier::external_body]
pub(crate) fn chars_to_string(v: &Vec<char>) -> (s: String)
    ensures
        s@ == v@,
{
    v.iter().collect()
}

/// Compares two string slices character by character.
pub fn str_eq(a: &str, b: &str) -> (r: bool)
    ensures
        r == (a@ == b@),
{
    let na = a.unicode_len();
    let nb = b.unicode_len();
    if na != nb {
        proof {
            assert(a@ != b@);
        }
        return false;
    }
    let mut i: usize = 0;
    while i < na
        invariant
            na == a@.len(),
            na == b@.len(),
            i <= na,
            forall|j: int| 0 <= j < i ==> a@[j] == b@[j],
        decreases na - i,
    {
        if a.get_char(i) != b.get_char(i) {
            return false;
        }
        i = i + 1;
    }
    proof {
        assert(a@ =~= b@);
    }
    true
}

/// Appends every character of `s` to `out`.
pub fn push_str(out: &mut Vec<char>, s: &str)
    ensures
        final(out)@ == old(out)@ + s@,
{
    let n = s.unicode_len();
    let mut i: usize = 0;
    while i < n
        invariant
            n == s@.len(),
            i <= n,
            out@ == old(out)@ + s@.take(i as int),
        decreases n - i,
    {
        out.push(s.get_char(i));
        i = i + 1;
        proof {
            assert(old(out)@ + s@.take(i as int) =~= (old(out)@ + s@.take(i - 1)).push(
                s@[i - 1],
            ));
        }
    }
    proof {
        assert(old(out)@ + s@.take(n as int) =~= old(out)@ + s@);
    }
}

/// Appends every character of `s` to `out`.
pub fn push_chars(out: &mut Vec<char>, s: &Vec<char>)
    ensures
        final(out)@ == old(out)@ + s@,
{
    let n = s.len();
    let mut i: usize = 0;
    while i < n
        invariant
            n == s@.len(),
            i <= n,
            out@ == old(out)@ + s@.take(i as int),
        decreases n - i,
    {
        out.push(s[i]);
        i = i + 1;
        proof {
            assert(old(out)@ + s@.take(i as int) =~= (old(out)@ + s@.take(i - 1)).push(
                s@[i - 1],
            ));
        }
    }
    proof {
        assert(old(out)@ + s@.take(n as int) =~= old(out)@ + s@);
    }
}

/// `n` spaces, used for indentation.
pub open spec fn spec_spaces(n: nat) -> Seq<char> {
    Seq::new(n, |i: int| ' ')
}

/// Appends `n` spaces to `out`.
pub fn push_spaces(out: &mut Vec<char>, n: usize)
    ensures
        final(out)@ == old(out)@ + spec_spaces(n as nat),
{
    let mut i: usize = 0;
    while i < n
        invariant
            i <= n,
            out@ == old(out)@ + spec_spaces(i as nat),
        decreases n - i,
    {
        out.push(' ');
        i = i + 1;
        proof {
            assert(old(out)@ + spec_spaces(i as nat) =~= (old(out)@ + spec_spaces(
                (i - 1) as nat,
            )).push(' '));
        }
    }
}

/// True when `c` is an ASCII decimal digit.
pub open spec fn spec_is_digit(c: char) -> bool {
    48 <= c as u32 && c as u32 <= 57
}

/// Numeric value of a digit character.
pub open spec fn spec_digit_val(c: char) -> int {
    c as u32 - 48
}

/// Tests whether `c` is an ASCII decimal digit.
pub fn is_digit(c: char) -> (r: bool)
    ensures
        r == spec_is_digit(c),
{
    let u = c as u32;
    48 <= u && u <= 57
}

/// Sanitizes a name into identifier shape: every character that is not an
/// ASCII letter, an ASCII digit or an underscore is replaced by `_`.
pub fn sanitize_identifier(s: &str) -> (r: String)
    ensures
        r@ == spec_sanitize(s@),
{
    let chars = str_to_chars(s);
    let out = sanitize_chars(&chars);
    chars_to_string(&out)
}

/// [`sanitize_identifier`] over character vectors.
pub fn sanitize_chars(s: &Vec<char>) -> (r: Vec<char>)
    ensures
        r@ == spec_sanitize(s@),
{
    let n = s.len();
    let mut out: Vec<char> = Vec::new();
    let mut i: usize = 0;
    while i < n
        invariant
            n == s@.len(),
            i <= n,
            out@.len() == i,
            forall|j: int| 0 <= j < i ==> out@[j] == spec_sanitize_char(s@[j]),
        decreases n - i,
    {
        let c = s[i];
        let u = c as u32;
        if (48 <= u && u <= 57) || (65 <= u && u <= 90) || (97 <= u && u <= 122) || c == '_' {
            out.push(c);
        } else {
            out.push('_');
        }
        i = i + 1;
    }
    proof {
        assert(out@ =~= spec_sanitize(s@));
    }
    out
}

/// ASCII upper-case image of the text.
pub fn to_upper_chars(s: &Vec<char>) -> (r: Vec<char>)
    ensures
        r@ == spec_upper(s@),
{
    let n = s.len();
    let mut out: Vec<char> = Vec::new();
    let mut i: usize = 0;
    while i < n
        invariant
            n == s@.len(),
            i <= n,
            out@.len() == i,
            forall|j: int| 0 <= j < i ==> out@[j] == spec_upper_char(s@[j]),
        decreases n - i,
    {
        let c = s[i];
        let u = c as u32;
        if 97 <= u && u <= 122 {
            out.push(((u - 32) as u8) as char);
        } else {
            out.push(c);
        }
        i = i + 1;
    }
    proof {
        assert(out@ =~= spec_upper(s@));
    }
    out
}

/// Trims leading and trailing ASCII whitespace.
pub fn trim_chars(s: &Vec<char>) -> (r: Vec<char>)
    ensures
        r@ == spec_trim(s@),
{
    let n = s.len();
    let mut start: usize = 0;
    while start < n && is_space_char(s[start])
        invariant
            n == s@.len(),
            start <= n,
            forall|j: int| 0 <= j < start ==> spec_is_space(s@[j]),
        decreases n - start,
    {
        start = start + 1;
    }
    proof {
        lemma_trim_start_exact(s@, start as int);
    }
    if start == n {
        let r: Vec<char> = Vec::new();
        proof {
            assert(r@ =~= spec_trim(s@));
        }
        return r;
    }
    let mut end: usize = n;
    while end > start && is_space_char(s[end - 1])
        invariant
            n == s@.len(),
            start <= end <= n,
            forall|j: int| end <= j < n ==> spec_is_space(s@[j]),
        decreases end,
    {
        end = end - 1;
    }
    proof {
        assert(end > start) by {
            if end == start {
                assert(spec_is_space(s@[start as int]));
            }
        }
        lemma_trim_end_exact(s@, end as int);
    }
    let mut out: Vec<char> = Vec::new();
    let mut i: usize = start;
    while i < end
        invariant
            n == s@.len(),
            start <= i <= end <= n,
            out@ == s@.subrange(start as int, i as int),
        decreases end - i,
    {
        out.push(s[i]);
        i = i + 1;
        proof {
            assert(s@.subrange(start as int, i as int) =~= s@.subrange(start as int, i - 1).push(
                s@[i - 1],
            ));
        }
    }
    proof {
        assert(out@ =~= spec_trim(s@));
    }
    out
}

/// Tests whether `c` is ASCII whitespace.
pub fn is_space_char(c: char) -> (r: bool)
    ensures
        r == spec_is_space(c),
{
    c == ' ' || c == '\t' || c == '\n' || c == '\r'
}

/// Where every character before `k` is whitespace and the one at `k` is not,
/// the leading-whitespace count is exactly `k`.
pub proof fn lemma_trim_start_exact(s: Seq<char>, k: int)
    requires
        0 <= k <= s.len(),
        forall|j: int| 0 <= j < k ==> spec_is_space(s[j]),
        k < s.len() ==> !spec_is_space(s[k]),
    ensures
        spec_trim_start_len(s) == k,
    decreases k,
{
    if k == 0 {
    } else {
        lemma_trim_start_exact(s.drop_first(), k - 1);
    }
}

/// Where every character from `k` on is whitespace and the one before `k` is
/// not, the trailing-whitespace count is exactly `s.len() - k`.
pub proof fn lemma_trim_end_exact(s: Seq<char>, k: int)
    requires
        0 <= k <= s.len(),
        forall|j: int| k <= j < s.len() ==> spec_is_space(s[j]),
        k > 0 ==> !spec_is_space(s[k - 1]),
    ensures
        spec_trim_end_len(s) == s.len() - k,
    decreases s.len() - k,
{
    if k == s.len() {
    } else {
        lemma_trim_end_exact(s.drop_last(), k);
    }
}


/// The leading-whitespace count is within bounds.
pub proof fn lemma_trim_start_bound(s: Seq<char>)
    ensures
        0 <= spec_trim_start_len(s) <= s.len(),
        forall|j: int| 0 <= j < spec_trim_start_len(s) ==> spec_is_space(s[j]),
        spec_trim_start_len(s) < s.len() ==> !spec_is_space(s[spec_trim_start_len(s)]),
    decreases s.len(),
{
    if s.len() > 0 && spec_is_space(s[0]) {
        lemma_trim_start_bound(s.drop_first());
        assert(forall|j: int|
            1 <= j < spec_trim_start_len(s) ==> s[j] == s.drop_first()[j - 1] && spec_is_space(
                s[j],
            ));
    }
}

/// Decimal digits of `n`, most significant first.
pub open spec fn spec_dec(n: nat) -> Seq<char>
    decreases n,
{
    if n < 10 {
        seq![((n + 48) as u8) as char]
    } else {
        spec_dec(n / 10).push(((n % 10 + 48) as u8) as char)
    }
}

/// Renders `n` in decimal.
pub fn dec_chars(n: u64) -> (r: Vec<char>)
    ensures
        r@ == spec_dec(n as nat),
    decreases n,
{
    if n < 10 {
        let mut r: Vec<char> = Vec::new();
        r.push(((n + 48) as u8) as char);
        proof {
            assert(r@ =~= spec_dec(n as nat));
        }
        r
    } else {
        let mut r = dec_chars(n / 10);
        r.push(((n % 10 + 48) as u8) as char);
        r
    }
}


/// ASCII lower-case image of one character.
pub open spec fn spec_lower_char(c: char) -> char {
    let u = c as u32;
    if 65 <= u && u <= 90 {
        ((u + 32) as u8) as char
    } else {
        c
    }
}

/// ASCII lower-case image of a text.
pub open spec fn spec_lower(s: Seq<char>) -> Seq<char> {
    s.map_values(|c: char| spec_lower_char(c))
}

/// ASCII lower-case image of the text.
pub fn to_lower_chars(s: &Vec<char>) -> (r: Vec<char>)
    ensures
        r@ == spec_lower(s@),
{
    let n = s.len();
    let mut out: Vec<char> = Vec::new();
    let mut i: usize = 0;
    while i < n
        invariant
            n == s@.len(),
            i <= n,
            out@.len() == i,
            forall|j: int| 0 <= j < i ==> out@[j] == spec_lower_char(s@[j]),
        decreases n - i,
    {
        let c = s[i];
        let u = c as u32;
        if 65 <= u && u <= 90 {
            out.push(((u + 32) as u8) as char);
        } else {
            out.push(c);
        }
        i = i + 1;
    }
    proof {
        assert(out@ =~= spec_lower(s@));
    }
    out
}

/// Index of the first occurrence of `c`, or the length when absent.
pub open spec fn spec_find_char(s: Seq<char>, c: char) -> int
    decreases s.len(),
{
    if s.len() == 0 {
        0
    } else if s[0] == c {
        0
    } else {
        1 + spec_find_char(s.drop_first(), c)
    }
}

/// The first-occurrence index is in bounds, hits `c`, and nothing before it
/// is `c`.
pub proof fn lemma_find_char_props(s: Seq<char>, c: char)
    ensures
        0 <= spec_find_char(s, c) <= s.len(),
        spec_find_char(s, c) < s.len() ==> s[spec_find_char(s, c)] == c,
        forall|j: int| 0 <= j < spec_find_char(s, c) ==> s[j] != c,
    decreases s.len(),
{
    if s.len() > 0 && s[0] != c {
        lemma_find_char_props(s.drop_first(), c);
        assert(forall|j: int|
            1 <= j < spec_find_char(s, c) ==> s[j] == s.drop_first()[j - 1] && s[j] != c);
    }
}

/// True when `c` occurs in `s`.
pub open spec fn spec_contains_char(s: Seq<char>, c: char) -> bool {
    exists|i: int| 0 <= i < s.len() && s[i] == c
}

/// Finds the first occurrence of `c`, or returns the length when absent.
pub fn find_char(s: &Vec<char>, c: char) -> (r: usize)
    ensures
        r == spec_find_char(s@, c),
        r <= s@.len(),
        (r < s@.len()) == spec_contains_char(s@, c),
        r < s@.len() ==> s@[r as int] == c,
        forall|j: int| 0 <= j < r ==> s@[j] != c,
{
    proof {
        lemma_find_char_props(s@, c);
    }
    let n = s.len();
    let mut i: usize = 0;
    while i < n
        invariant
            n == s@.len(),
            i <= n,
            forall|j: int| 0 <= j < i ==> s@[j] != c,
        decreases n - i,
    {
        if s[i] == c {
            proof {
                assert(spec_find_char(s@, c) == i) by {
                    lemma_find_char_exact(s@, c, i as int);
                }
            }
            return i;
        }
        i = i + 1;
    }
    proof {
        assert(spec_find_char(s@, c) == n) by {
            lemma_find_char_exact(s@, c, n as int);
        }
    }
    n
}

/// Where nothing before `k` is `c` and `k` is either the length or hits `c`,
/// the first occurrence is exactly `k`.
pub proof fn lemma_find_char_exact(s: Seq<char>, c: char, k: int)
    requires
        0 <= k <= s.len(),
        forall|j: int| 0 <= j < k ==> s[j] != c,
        k < s.len() ==> s[k] == c,
    ensures
        spec_find_char(s, c) == k,
    decreases k,
{
    if k > 0 {
        lemma_find_char_exact(s.drop_first(), c, k - 1);
    }
}

/// Copies a subrange of `s`.
pub fn subrange_chars(s: &Vec<char>, from: usize, to: usize) -> (r: Vec<char>)
    requires
        from <= to <= s@.len(),
    ensures
        r@ == s@.subrange(from as int, to as int),
{
    let mut out: Vec<char> = Vec::new();
    let mut i: usize = from;
    while i < to
        invariant
            from <= i <= to <= s@.len(),
            out@ == s@.subrange(from as int, i as int),
        decreases to - i,
    {
        out.push(s[i]);
        i = i + 1;
        proof {
            assert(s@.subrange(from as int, i as int) =~= s@.subrange(from as int, i - 1).push(
                s@[i - 1],
            ));
        }
    }
    out
}

} // verus!
