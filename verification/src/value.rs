//! Classification of raw text values: a pure reference (`@type/key`), an
//! interpolated string with embedded references, or plain text. The
//! classification happens at value construction, not in a later pass.

use vstd::prelude::*;

use crate::model::InterpolationPart;
use crate::model::InterpolationPartView;
use crate::model::ResourceValue;
use crate::model::ResourceValueView;
use crate::text::chars_to_string;
use crate::text::find_char;
use crate::text::spec_find_char;
use crate::text::str_to_chars;
use crate::text::subrange_chars;

verus! {

/// Number of occurrences of `c`.
pub open spec fn spec_count_char(s: Seq<char>, c: char) -> int
    decreases s.len(),
{
    if s.len() == 0 {
        0int
    } else {
        (if s[0] == c {
            1int
        } else {
            0int
        }) + spec_count_char(s.drop_first(), c)
    }
}

/// Counts the occurrences of `c`.
pub fn count_char(s: &Vec<char>, c: char) -> (r: usize)
    ensures
        r == spec_count_char(s@, c),
{
    let n = s.len();
    let mut acc: usize = 0;
    let mut i: usize = 0;
    proof {
        assert(s@.skip(0) =~= s@);
    }
    while i < n
        invariant
            n == s@.len(),
            i <= n,
            acc <= i,
            spec_count_char(s@, c) == acc + spec_count_char(s@.skip(i as int), c),
        decreases n - i,
    {
        proof {
            assert(s@.skip(i as int)[0] == s@[i as int]);
            assert(s@.skip(i as int).drop_first() =~= s@.skip(i + 1));
        }
        if s[i] == c {
            acc = acc + 1;
        }
        i = i + 1;
    }
    proof {
        assert(s@.skip(n as int) =~= Seq::<char>::empty());
    }
    acc
}

/// Whether `char::is_alphanumeric` accepts the character. The Unicode
/// alphabetic and numeric classes live in std; the name stands for their
/// union.
pub uninterp spec fn char_alphanumeric(c: char) -> bool;

/// Relies on `char::is_alphanumeric`: the result depends on the character
/// alone; every ASCII letter and digit is alphanumeric, and no other ASCII
/// character is.
#[verifier::external_body]
fn is_alphanumeric_char(c: char) -> (r: bool)
    ensures
        r == char_alphanumeric(c),
        ((48 <= c as u32 && c as u32 <= 57) || (65 <= c as u32 && c as u32 <= 90) || (97
            <= c as u32 && c as u32 <= 122)) ==> r,
        ((c as u32) < 128 && !((48 <= c as u32 && c as u32 <= 57) || (65 <= c as u32 && c as u32
            <= 90) || (97 <= c as u32 && c as u32 <= 122))) ==> !r,
{
    c.is_alphanumeric()
}

/// A character that may stand in a reference key: alphanumeric, underscore
/// or slash.
pub open spec fn spec_key_char(c: char) -> bool {
    char_alphanumeric(c) || c == '_' || c == '/'
}

/// Length of the leading run of key characters.
pub open spec fn spec_key_run(s: Seq<char>) -> int
    decreases s.len(),
{
    if s.len() == 0 {
        0
    } else if spec_key_char(s[0]) {
        1 + spec_key_run(s.drop_first())
    } else {
        0
    }
}

/// Where every character before `k` is a key character and `k` is the length
/// or a non-key character, the leading run is exactly `k`.
proof fn lemma_key_run_exact(s: Seq<char>, k: int)
    requires
        0 <= k <= s.len(),
        forall|j: int| 0 <= j < k ==> spec_key_char(s[j]),
        k < s.len() ==> !spec_key_char(s[k]),
    ensures
        spec_key_run(s) == k,
    decreases k,
{
    if k > 0 {
        lemma_key_run_exact(s.drop_first(), k - 1);
    }
}

/// Measures the leading run of key characters.
pub fn key_run(s: &Vec<char>) -> (r: usize)
    ensures
        r == spec_key_run(s@),
        r <= s@.len(),
{
    let n = s.len();
    let mut i: usize = 0;
    while i < n
        invariant
            n == s@.len(),
            i <= n,
            forall|j: int| 0 <= j < i ==> spec_key_char(s@[j]),
        decreases n - i,
    {
        let c = s[i];
        let is_key = is_alphanumeric_char(c) || c == '_' || c == '/';
        if !is_key {
            proof {
                lemma_key_run_exact(s@, i as int);
            }
            return i;
        }
        i = i + 1;
    }
    proof {
        lemma_key_run_exact(s@, n as int);
    }
    n
}

/// The decomposition of a text into alternating literal segments and
/// references: at each `@`, the text up to the next `/` names the target
/// type, the key runs through alphanumerics, underscores and slashes, and a
/// `@` with no following `/` stays a literal `@`.
pub open spec fn spec_interp_parts(s: Seq<char>) -> Seq<InterpolationPartView>
    decreases s.len(),
    via spec_interp_parts_decreases
{
    if s.len() == 0 {
        Seq::empty()
    } else {
        let at = spec_find_char(s, '@');
        if at == s.len() {
            seq![InterpolationPartView::Text(s)]
        } else {
            let pre: Seq<InterpolationPartView> = if at > 0 {
                seq![InterpolationPartView::Text(s.take(at))]
            } else {
                Seq::empty()
            };
            let after = s.skip(at + 1);
            let sl = spec_find_char(after, '/');
            if sl == after.len() {
                pre + seq![InterpolationPartView::Text("@"@)] + spec_interp_parts(after)
            } else {
                let ty = after.take(sl);
                let tail = after.skip(sl + 1);
                let run = spec_key_run(tail);
                let key0 = tail.take(run);
                let trailing = key0.len() > 0 && key0.last() == '/';
                let key = if trailing {
                    key0.drop_last()
                } else {
                    key0
                };
                let consumed = if trailing {
                    run - 1
                } else {
                    run
                };
                pre + seq![
                    InterpolationPartView::Reference { resource_type: ty, key: key },
                ] + spec_interp_parts(tail.skip(consumed))
            }
        }
    }
}

#[via_fn]
proof fn spec_interp_parts_decreases(s: Seq<char>) {
    if s.len() > 0 {
        crate::text::lemma_find_char_props(s, '@');
        let at = spec_find_char(s, '@');
        if at < s.len() {
            let after = s.skip(at + 1);
            crate::text::lemma_find_char_props(after, '/');
            let sl = spec_find_char(after, '/');
            if sl < after.len() {
                let tail = after.skip(sl + 1);
                lemma_key_run_bounds(tail);
            }
        }
    }
}

/// The leading key run is never longer than the text.
proof fn lemma_key_run_bounds(s: Seq<char>)
    ensures
        0 <= spec_key_run(s) <= s.len(),
    decreases s.len(),
{
    if s.len() > 0 && spec_key_char(s[0]) {
        lemma_key_run_bounds(s.drop_first());
    }
}

/// The classification of a raw text value: a pure reference when the whole
/// text is one `@type/key` with no whitespace, an interpolated string when a
/// `@` occurs anywhere, plain text otherwise.
pub open spec fn spec_parse_string_value(s: Seq<char>) -> ResourceValueView {
    let pure = s.len() > 0 && s[0] == '@' && !crate::text::spec_contains_char(s, ' ')
        && spec_count_char(s, '@') == 1 && spec_find_char(s.skip(1), '/') < s.len() - 1;
    if pure {
        let rest = s.skip(1);
        let sl = spec_find_char(rest, '/');
        ResourceValueView::Reference { resource_type: rest.take(sl), key: rest.skip(sl + 1) }
    } else if crate::text::spec_contains_char(s, '@') {
        ResourceValueView::InterpolatedString(spec_interp_parts(s))
    } else {
        ResourceValueView::String(s)
    }
}

/// Appends every part of `src` to `dst`.
fn extend_parts(dst: &mut Vec<InterpolationPart>, src: Vec<InterpolationPart>)
    ensures
        final(dst)@.map_values(|p: InterpolationPart| p@) == old(dst)@.map_values(
            |p: InterpolationPart| p@,
        ) + src@.map_values(|p: InterpolationPart| p@),
{
    let n = src.len();
    let ghost srcv = src@;
    let mut i: usize = 0;
    let mut src = src;
    while i < n
        invariant
            n == srcv.len(),
            i <= n,
            src@ == srcv.skip(i as int),
            dst@.map_values(|p: InterpolationPart| p@) == old(dst)@.map_values(
                |p: InterpolationPart| p@,
            ) + srcv.take(i as int).map_values(|p: InterpolationPart| p@),
        decreases n - i,
    {
        let x = src.remove(0);
        proof {
            assert(x == srcv[i as int]);
            assert(src@ =~= srcv.skip(i + 1));
        }
        dst.push(x);
        i = i + 1;
        proof {
            lemma_map_parts_push(srcv.take(i - 1), srcv[i - 1]);
            assert(srcv.take(i as int) =~= srcv.take(i - 1).push(srcv[i - 1]));
            lemma_map_parts_push_whole(
                old(dst)@.map_values(|p: InterpolationPart| p@),
                srcv.take(i - 1).map_values(|p: InterpolationPart| p@),
                x@,
            );
        }
    }
    proof {
        assert(srcv.take(n as int) =~= srcv);
    }
}

/// Mapping distributes over an appended element.
proof fn lemma_map_parts_push(s: Seq<InterpolationPart>, x: InterpolationPart)
    ensures
        s.push(x).map_values(|p: InterpolationPart| p@) == s.map_values(
            |p: InterpolationPart| p@,
        ).push(x@),
{
    assert(s.push(x).map_values(|p: InterpolationPart| p@) =~= s.map_values(
        |p: InterpolationPart| p@,
    ).push(x@));
}

/// Appending one view to a concatenation appends it to the right operand.
proof fn lemma_map_parts_push_whole(
    a: Seq<InterpolationPartView>,
    b: Seq<InterpolationPartView>,
    x: InterpolationPartView,
)
    ensures
        (a + b).push(x) == a + b.push(x),
{
    assert((a + b).push(x) =~= a + b.push(x));
}

/// Splits a text into its literal and reference segments.
fn interp_parts(s: &Vec<char>) -> (parts: Vec<InterpolationPart>)
    ensures
        parts@.map_values(|p: InterpolationPart| p@) == spec_interp_parts(s@),
    decreases s@.len(),
{
    let mut parts: Vec<InterpolationPart> = Vec::new();
    let n = s.len();
    if n == 0 {
        proof {
            assert(parts@.map_values(|p: InterpolationPart| p@) =~= spec_interp_parts(s@));
        }
        return parts;
    }
    let at = find_char(s, '@');
    if at == n {
        let text = chars_to_string(s);
        parts.push(InterpolationPart::Text(text));
        proof {
            assert(parts@.map_values(|p: InterpolationPart| p@) =~= spec_interp_parts(s@));
        }
        return parts;
    }
    if at > 0 {
        let pre = subrange_chars(s, 0, at);
        parts.push(InterpolationPart::Text(chars_to_string(&pre)));
    }
    let after = subrange_chars(s, at + 1, n);
    proof {
        assert(after@ =~= s@.skip(at + 1));
    }
    let sl = find_char(&after, '/');
    if sl == after.len() {
        parts.push(InterpolationPart::Text("@".to_owned()));
        let rest = interp_parts(&after);
        extend_parts(&mut parts, rest);
        proof {
            assert(parts@.map_values(|p: InterpolationPart| p@) =~= spec_interp_parts(s@));
        }
        parts
    } else {
        let ty = subrange_chars(&after, 0, sl);
        proof {
            assert(ty@ =~= after@.take(sl as int));
        }
        let tail = subrange_chars(&after, sl + 1, after.len());
        proof {
            assert(tail@ =~= after@.skip(sl + 1));
        }
        let run = key_run(&tail);
        let trailing = run > 0 && tail[run - 1] == '/';
        let keylen: usize = if trailing {
            run - 1
        } else {
            run
        };
        let key = subrange_chars(&tail, 0, keylen);
        proof {
            let key0 = tail@.take(run as int);
            if trailing {
                assert(key0.last() == tail@[run - 1]);
                assert(key@ =~= key0.drop_last());
            } else {
                if run > 0 {
                    assert(key0.last() == tail@[run - 1]);
                }
                assert(key@ =~= key0);
            }
        }
        parts.push(
            InterpolationPart::Reference {
                resource_type: chars_to_string(&ty),
                key: chars_to_string(&key),
            },
        );
        let remaining = subrange_chars(&tail, keylen, tail.len());
        proof {
            assert(remaining@ =~= tail@.skip(keylen as int));
        }
        let rest = interp_parts(&remaining);
        extend_parts(&mut parts, rest);
        proof {
            assert(parts@.map_values(|p: InterpolationPart| p@) =~= spec_interp_parts(s@));
        }
        parts
    }
}

impl ResourceValue {
    /// Classifies a raw text value: a pure `@type/key` reference, an
    /// interpolated string around embedded references, or plain text.
    pub fn parse_string_value(s: &str) -> (r: ResourceValue)
        ensures
            r@ == spec_parse_string_value(s@),
    {
        let chars = str_to_chars(s);
        let n = chars.len();
        let has_at = find_char(&chars, '@') < n;
        let pure = n > 0 && chars[0] == '@' && find_char(&chars, ' ') == n && count_char(
            &chars,
            '@',
        ) == 1;
        if pure {
            let rest = subrange_chars(&chars, 1, n);
            proof {
                assert(rest@ =~= s@.skip(1));
            }
            let sl = find_char(&rest, '/');
            if sl < rest.len() {
                let ty = subrange_chars(&rest, 0, sl);
                let key = subrange_chars(&rest, sl + 1, rest.len());
                proof {
                    assert(ty@ =~= s@.skip(1).take(sl as int));
                    assert(key@ =~= s@.skip(1).skip(sl + 1));
                }
                return ResourceValue::Reference {
                    resource_type: chars_to_string(&ty),
                    key: chars_to_string(&key),
                };
            }
        }
        if has_at {
            let parts = interp_parts(&chars);
            ResourceValue::InterpolatedString(parts)
        } else {
            ResourceValue::String(s.to_owned())
        }
    }
}

} // verus!
