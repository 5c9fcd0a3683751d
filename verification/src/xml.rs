//! A character-level scanner for the declaration files' XML subset: start,
//! empty and end tags with double-quoted attributes, text nodes (trimmed),
//! comments, processing instructions and doctype declarations (both skipped).
//! Malformed input yields the position at which scanning stopped.

use vstd::prelude::*;

use crate::text::chars_to_string;
use crate::text::spec_find_char;
use crate::text::spec_is_space;
use crate::text::spec_trim;
use crate::text::spec_trim_start_len;
use crate::text::subrange_chars;
use crate::text::trim_chars;

verus! {

/// One scanned event.
#[derive(Debug, Clone)]
pub enum XmlEvent {
    /// An opening tag with its attributes in source order.
    Start { name: String, attrs: Vec<(String, String)> },
    /// A self-closing tag with its attributes in source order.
    Empty { name: String, attrs: Vec<(String, String)> },
    /// A closing tag.
    End { name: String },
    /// A non-empty text node, trimmed of surrounding whitespace.
    Text { text: String },
}

/// Ghost view of an event.
pub enum XmlEventView {
    Start { name: Seq<char>, attrs: Seq<(Seq<char>, Seq<char>)> },
    Empty { name: Seq<char>, attrs: Seq<(Seq<char>, Seq<char>)> },
    End { name: Seq<char> },
    Text { text: Seq<char> },
}

/// View of an attribute list.
pub open spec fn spec_attrs_view(attrs: Seq<(String, String)>) -> Seq<(Seq<char>, Seq<char>)> {
    attrs.map_values(|a: (String, String)| (a.0@, a.1@))
}

impl View for XmlEvent {
    type V = XmlEventView;

    open spec fn view(&self) -> XmlEventView {
        match self {
            XmlEvent::Start { name, attrs } => XmlEventView::Start {
                name: name@,
                attrs: spec_attrs_view(attrs@),
            },
            XmlEvent::Empty { name, attrs } => XmlEventView::Empty {
                name: name@,
                attrs: spec_attrs_view(attrs@),
            },
            XmlEvent::End { name } => XmlEventView::End { name: name@ },
            XmlEvent::Text { text } => XmlEventView::Text { text: text@ },
        }
    }
}

/// View of an event list.
pub open spec fn spec_events_view(evs: Seq<XmlEvent>) -> Seq<XmlEventView> {
    evs.map_values(|e: XmlEvent| e@)
}

/// A character that may stand in a tag name: anything but whitespace and the
/// tag delimiters.
pub open spec fn spec_name_char(c: char) -> bool {
    !spec_is_space(c) && c != '/' && c != '>' && c != '<'
}

/// A character that may stand in an attribute name.
pub open spec fn spec_attr_name_char(c: char) -> bool {
    !spec_is_space(c) && c != '=' && c != '/' && c != '>' && c != '<' && c != '"'
}

/// Length of the leading run of characters satisfying `spec_name_char`.
pub open spec fn spec_name_run(s: Seq<char>) -> int
    decreases s.len(),
{
    if s.len() == 0 {
        0
    } else if spec_name_char(s[0]) {
        1 + spec_name_run(s.drop_first())
    } else {
        0
    }
}

/// Length of the leading run of characters satisfying `spec_attr_name_char`.
pub open spec fn spec_attr_name_run(s: Seq<char>) -> int
    decreases s.len(),
{
    if s.len() == 0 {
        0
    } else if spec_attr_name_char(s[0]) {
        1 + spec_attr_name_run(s.drop_first())
    } else {
        0
    }
}

/// The leading name run is within bounds, covers name characters only, and
/// stops at the first non-name character.
pub proof fn lemma_name_run_props(s: Seq<char>)
    ensures
        0 <= spec_name_run(s) <= s.len(),
        forall|j: int| 0 <= j < spec_name_run(s) ==> spec_name_char(s[j]),
        spec_name_run(s) < s.len() ==> !spec_name_char(s[spec_name_run(s)]),
    decreases s.len(),
{
    if s.len() > 0 && spec_name_char(s[0]) {
        lemma_name_run_props(s.drop_first());
        assert forall|j: int| 1 <= j < spec_name_run(s) implies spec_name_char(s[j]) by {
            assert(s.drop_first()[j - 1] == s[j]);
        }
    }
}

/// The leading attribute-name run is within bounds and stops at the first
/// excluded character.
pub proof fn lemma_attr_name_run_props(s: Seq<char>)
    ensures
        0 <= spec_attr_name_run(s) <= s.len(),
        forall|j: int| 0 <= j < spec_attr_name_run(s) ==> spec_attr_name_char(s[j]),
        spec_attr_name_run(s) < s.len() ==> !spec_attr_name_char(s[spec_attr_name_run(s)]),
    decreases s.len(),
{
    if s.len() > 0 && spec_attr_name_char(s[0]) {
        lemma_attr_name_run_props(s.drop_first());
        assert forall|j: int| 1 <= j < spec_attr_name_run(s) implies spec_attr_name_char(s[j]) by {
            assert(s.drop_first()[j - 1] == s[j]);
        }
    }
}

/// Measures the leading tag-name run starting at `from`.
fn name_run_from(s: &Vec<char>, from: usize) -> (r: usize)
    requires
        from <= s@.len(),
    ensures
        r == spec_name_run(s@.skip(from as int)),
        from + r <= s@.len(),
{
    let ghost sub = s@.skip(from as int);
    let n = s.len();
    let mut i: usize = from;
    while i < n
        invariant
            n == s@.len(),
            from <= i <= n,
            sub == s@.skip(from as int),
            forall|j: int| 0 <= j < i - from ==> spec_name_char(sub[j]),
        decreases n - i,
    {
        let c = s[i];
        let keep = !crate::text::is_space_char(c) && c != '/' && c != '>' && c != '<';
        proof {
            assert(sub[i - from] == s@[i as int]);
        }
        if !keep {
            proof {
                lemma_run_exact_name(sub, i - from);
            }
            return i - from;
        }
        i = i + 1;
    }
    proof {
        lemma_run_exact_name(sub, n - from);
    }
    n - from
}

proof fn lemma_run_exact_name(s: Seq<char>, k: int)
    requires
        0 <= k <= s.len(),
        forall|j: int| 0 <= j < k ==> spec_name_char(s[j]),
        k < s.len() ==> !spec_name_char(s[k]),
    ensures
        spec_name_run(s) == k,
    decreases k,
{
    if k > 0 {
        lemma_run_exact_name(s.drop_first(), k - 1);
    }
}

/// Measures the leading attribute-name run starting at `from`.
fn attr_name_run_from(s: &Vec<char>, from: usize) -> (r: usize)
    requires
        from <= s@.len(),
    ensures
        r == spec_attr_name_run(s@.skip(from as int)),
        from + r <= s@.len(),
{
    let ghost sub = s@.skip(from as int);
    let n = s.len();
    let mut i: usize = from;
    while i < n
        invariant
            n == s@.len(),
            from <= i <= n,
            sub == s@.skip(from as int),
            forall|j: int| 0 <= j < i - from ==> spec_attr_name_char(sub[j]),
        decreases n - i,
    {
        let c = s[i];
        let keep = !crate::text::is_space_char(c) && c != '=' && c != '/' && c != '>' && c != '<'
            && c != '"';
        proof {
            assert(sub[i - from] == s@[i as int]);
        }
        if !keep {
            proof {
                lemma_run_exact_attr(sub, i - from);
            }
            return i - from;
        }
        i = i + 1;
    }
    proof {
        lemma_run_exact_attr(sub, n - from);
    }
    n - from
}

proof fn lemma_run_exact_attr(s: Seq<char>, k: int)
    requires
        0 <= k <= s.len(),
        forall|j: int| 0 <= j < k ==> spec_attr_name_char(s[j]),
        k < s.len() ==> !spec_attr_name_char(s[k]),
    ensures
        spec_attr_name_run(s) == k,
    decreases k,
{
    if k > 0 {
        lemma_run_exact_attr(s.drop_first(), k - 1);
    }
}

/// Counts the whitespace characters starting at `from`.
fn space_run_from(s: &Vec<char>, from: usize) -> (r: usize)
    requires
        from <= s@.len(),
    ensures
        r == spec_trim_start_len(s@.skip(from as int)),
        from + r <= s@.len(),
{
    let ghost sub = s@.skip(from as int);
    let n = s.len();
    let mut i: usize = from;
    while i < n
        invariant
            n == s@.len(),
            from <= i <= n,
            sub == s@.skip(from as int),
            forall|j: int| 0 <= j < i - from ==> spec_is_space(sub[j]),
        decreases n - i,
    {
        let c = s[i];
        proof {
            assert(sub[i - from] == s@[i as int]);
        }
        if !crate::text::is_space_char(c) {
            proof {
                crate::text::lemma_trim_start_exact(sub, i - from);
            }
            return i - from;
        }
        i = i + 1;
    }
    proof {
        crate::text::lemma_trim_start_exact(sub, n - from);
    }
    n - from
}

/// Index (within `s`) of the first occurrence of `c` at or after `from`, or
/// the length when absent.
fn find_char_from(s: &Vec<char>, from: usize, c: char) -> (r: usize)
    requires
        from <= s@.len(),
    ensures
        r == from + spec_find_char(s@.skip(from as int), c),
        from <= r <= s@.len(),
        r < s@.len() ==> s@[r as int] == c,
        forall|j: int| from <= j < r ==> s@[j] != c,
{
    let ghost sub = s@.skip(from as int);
    proof {
        crate::text::lemma_find_char_props(sub, c);
    }
    let n = s.len();
    let mut i: usize = from;
    while i < n
        invariant
            n == s@.len(),
            from <= i <= n,
            sub == s@.skip(from as int),
            forall|j: int| from <= j < i ==> s@[j] != c,
        decreases n - i,
    {
        proof {
            assert(sub[i - from] == s@[i as int]);
        }
        if s[i] == c {
            proof {
                assert(forall|j: int| 0 <= j < i - from ==> sub[j] == s@[j + from] && sub[j] != c);
                crate::text::lemma_find_char_exact(sub, c, i - from);
            }
            return i;
        }
        i = i + 1;
    }
    proof {
        assert(forall|j: int| 0 <= j < n - from ==> sub[j] == s@[j + from] && sub[j] != c);
        crate::text::lemma_find_char_exact(sub, c, n - from);
    }
    n
}

/// Index of the first position `j` at or after `from` where `pat` occurs as a
/// sub-sequence, or the length when absent.
pub open spec fn spec_find_sub(s: Seq<char>, from: int, pat: Seq<char>) -> int
    decreases s.len() - from,
{
    if pat.len() == 0 || from + pat.len() > s.len() {
        s.len() as int
    } else if s.subrange(from, from + pat.len() as int) == pat {
        from
    } else {
        spec_find_sub(s, from + 1, pat)
    }
}

/// The first sub-sequence occurrence is within bounds and is an occurrence.
pub proof fn lemma_find_sub_props(s: Seq<char>, from: int, pat: Seq<char>)
    requires
        0 <= from <= s.len(),
        pat.len() > 0,
    ensures
        from <= spec_find_sub(s, from, pat) <= s.len(),
        spec_find_sub(s, from, pat) + pat.len() <= s.len() ==> s.subrange(
            spec_find_sub(s, from, pat),
            spec_find_sub(s, from, pat) + pat.len() as int,
        ) == pat,
        spec_find_sub(s, from, pat) + pat.len() > s.len() ==> spec_find_sub(s, from, pat)
            == s.len(),
    decreases s.len() - from,
{
    if from + pat.len() <= s.len() && s.subrange(from, from + pat.len() as int) != pat {
        lemma_find_sub_props(s, from + 1, pat);
    }
}

/// Finds the first occurrence of `pat` at or after `from`.
pub fn find_sub_from(s: &Vec<char>, from: usize, pat: &Vec<char>) -> (r: usize)
    requires
        from <= s@.len(),
        pat@.len() > 0,
    ensures
        r == spec_find_sub(s@, from as int, pat@),
        from <= r <= s@.len(),
{
    proof {
        lemma_find_sub_props(s@, from as int, pat@);
    }
    let n = s.len();
    let m = pat.len();
    if m > n || from > n - m {
        proof {
            assert(spec_find_sub(s@, from as int, pat@) == s@.len());
        }
        return n;
    }
    let mut i: usize = from;
    while i <= n - m
        invariant
            n == s@.len(),
            m == pat@.len(),
            0 < m <= n,
            from <= i <= n - m + 1,
            spec_find_sub(s@, from as int, pat@) == spec_find_sub(s@, i as int, pat@),
        decreases n - i,
    {
        let piece = subrange_chars(s, i, i + m);
        let ps = chars_to_string(&piece);
        let qs = chars_to_string(pat);
        if crate::text::str_eq(ps.as_str(), qs.as_str()) {
            proof {
                assert(s@.subrange(i as int, i + m) == pat@);
            }
            return i;
        }
        proof {
            assert(s@.subrange(i as int, i + m) != pat@);
        }
        i = i + 1;
    }
    proof {
        assert(spec_find_sub(s@, i as int, pat@) == s@.len());
    }
    n
}


/// Outcome of parsing an attribute list: the attributes, whether the tag was
/// self-closing, and the position just past the closing delimiter.
pub enum AttrsResultView {
    Attrs { attrs: Seq<(Seq<char>, Seq<char>)>, empty_tag: bool, next: int },
    Fail(int),
}

/// Parses `name="value"` pairs from `pos` up to `>` or `/>`.
pub open spec fn spec_parse_attrs(s: Seq<char>, pos: int) -> AttrsResultView
    decreases s.len() - pos,
    via spec_parse_attrs_decreases
{
    if pos < 0 || pos > s.len() {
        AttrsResultView::Fail(pos)
    } else {
        let p = pos + spec_trim_start_len(s.skip(pos));
        if p >= s.len() {
            AttrsResultView::Fail(p)
        } else if s[p] == '>' {
            AttrsResultView::Attrs { attrs: Seq::empty(), empty_tag: false, next: p + 1 }
        } else if s[p] == '/' {
            if p + 1 < s.len() && s[p + 1] == '>' {
                AttrsResultView::Attrs { attrs: Seq::empty(), empty_tag: true, next: p + 2 }
            } else {
                AttrsResultView::Fail(p)
            }
        } else {
            let run = spec_attr_name_run(s.skip(p));
            if run == 0 {
                AttrsResultView::Fail(p)
            } else {
                let name = s.subrange(p, p + run);
                let q = p + run + spec_trim_start_len(s.skip(p + run));
                if q >= s.len() || s[q] != '=' {
                    AttrsResultView::Fail(q)
                } else {
                    let v = q + 1 + spec_trim_start_len(s.skip(q + 1));
                    if v >= s.len() || s[v] != '"' {
                        AttrsResultView::Fail(v)
                    } else {
                        let e = v + 1 + spec_find_char(s.skip(v + 1), '"');
                        if e >= s.len() {
                            AttrsResultView::Fail(v)
                        } else {
                            let value = s.subrange(v + 1, e);
                            match spec_parse_attrs(s, e + 1) {
                                AttrsResultView::Attrs { attrs, empty_tag, next } => {
                                    AttrsResultView::Attrs {
                                        attrs: seq![(name, value)] + attrs,
                                        empty_tag,
                                        next,
                                    }
                                },
                                AttrsResultView::Fail(x) => AttrsResultView::Fail(x),
                            }
                        }
                    }
                }
            }
        }
    }
}

#[via_fn]
proof fn spec_parse_attrs_decreases(s: Seq<char>, pos: int) {
    if 0 <= pos <= s.len() {
        crate::text::lemma_trim_start_bound(s.skip(pos));
        let p = pos + spec_trim_start_len(s.skip(pos));
        if p < s.len() && s[p] != '>' && s[p] != '/' {
            lemma_attr_name_run_props(s.skip(p));
            let run = spec_attr_name_run(s.skip(p));
            if run > 0 {
                crate::text::lemma_trim_start_bound(s.skip(p + run));
                let q = p + run + spec_trim_start_len(s.skip(p + run));
                if q < s.len() && s[q] == '=' {
                    crate::text::lemma_trim_start_bound(s.skip(q + 1));
                    let v = q + 1 + spec_trim_start_len(s.skip(q + 1));
                    if v < s.len() && s[v] == '"' {
                        crate::text::lemma_find_char_props(s.skip(v + 1), '"');
                    }
                }
            }
        }
    }
}

/// An accepted attribute list ends past its starting position and within the
/// text; a refused one reports a position within the text.
pub proof fn lemma_parse_attrs_props(s: Seq<char>, pos: int)
    requires
        0 <= pos <= s.len(),
    ensures
        match spec_parse_attrs(s, pos) {
            AttrsResultView::Attrs { next, .. } => pos < next <= s.len(),
            AttrsResultView::Fail(x) => 0 <= x <= s.len(),
        },
    decreases s.len() - pos,
{
    crate::text::lemma_trim_start_bound(s.skip(pos));
    let p = pos + spec_trim_start_len(s.skip(pos));
    if p < s.len() && s[p] != '>' && s[p] != '/' {
        lemma_attr_name_run_props(s.skip(p));
        let run = spec_attr_name_run(s.skip(p));
        if run > 0 {
            crate::text::lemma_trim_start_bound(s.skip(p + run));
            let q = p + run + spec_trim_start_len(s.skip(p + run));
            if q < s.len() && s[q] == '=' {
                crate::text::lemma_trim_start_bound(s.skip(q + 1));
                let v = q + 1 + spec_trim_start_len(s.skip(q + 1));
                if v < s.len() && s[v] == '"' {
                    crate::text::lemma_find_char_props(s.skip(v + 1), '"');
                    let e = v + 1 + spec_find_char(s.skip(v + 1), '"');
                    if e < s.len() {
                        lemma_parse_attrs_props(s, e + 1);
                    }
                }
            }
        }
    }
}

/// One scanning step.
pub enum StepView {
    /// End of input.
    Done,
    /// An event, and the position where scanning resumes.
    Event(XmlEventView, int),
    /// Skipped markup (comment, declaration), and the resume position.
    Skip(int),
    /// Malformed input at the given position.
    Fail(int),
}

/// The event found at position `i`, if any.
pub open spec fn spec_step(s: Seq<char>, i: int) -> StepView {
    if i < 0 || i >= s.len() {
        StepView::Done
    } else if s[i] != '<' {
        let j = i + spec_find_char(s.skip(i), '<');
        let txt = spec_trim(s.subrange(i, j));
        if txt.len() == 0 {
            StepView::Skip(j)
        } else {
            StepView::Event(XmlEventView::Text { text: txt }, j)
        }
    } else if i + 1 >= s.len() {
        StepView::Fail(i)
    } else if s[i + 1] == '?' {
        let k = spec_find_sub(s, i + 2, "?>"@);
        if k + 2 <= s.len() {
            StepView::Skip(k + 2)
        } else {
            StepView::Fail(i)
        }
    } else if s[i + 1] == '!' {
        if i + 3 < s.len() && s[i + 2] == '-' && s[i + 3] == '-' {
            let k = spec_find_sub(s, i + 4, "-->"@);
            if k + 3 <= s.len() {
                StepView::Skip(k + 3)
            } else {
                StepView::Fail(i)
            }
        } else {
            let j = i + 2 + spec_find_char(s.skip(i + 2), '>');
            if j < s.len() {
                StepView::Skip(j + 1)
            } else {
                StepView::Fail(i)
            }
        }
    } else if s[i + 1] == '/' {
        let j = i + 2 + spec_find_char(s.skip(i + 2), '>');
        if j < s.len() {
            StepView::Event(XmlEventView::End { name: spec_trim(s.subrange(i + 2, j)) }, j + 1)
        } else {
            StepView::Fail(i)
        }
    } else {
        let run = spec_name_run(s.skip(i + 1));
        if run == 0 {
            StepView::Fail(i + 1)
        } else {
            let name = s.subrange(i + 1, i + 1 + run);
            match spec_parse_attrs(s, i + 1 + run) {
                AttrsResultView::Attrs { attrs, empty_tag, next } => {
                    if empty_tag {
                        StepView::Event(XmlEventView::Empty { name, attrs }, next)
                    } else {
                        StepView::Event(XmlEventView::Start { name, attrs }, next)
                    }
                },
                AttrsResultView::Fail(x) => StepView::Fail(x),
            }
        }
    }
}

/// A step always advances: events and skips resume strictly later, and
/// failures report a position within the text.
pub proof fn lemma_step_props(s: Seq<char>, i: int)
    requires
        0 <= i <= s.len(),
    ensures
        match spec_step(s, i) {
            StepView::Done => true,
            StepView::Event(_, j) => i < j <= s.len(),
            StepView::Skip(j) => i < j <= s.len(),
            StepView::Fail(x) => 0 <= x <= s.len(),
        },
{
    if i < s.len() {
        if s[i] != '<' {
            crate::text::lemma_find_char_props(s.skip(i), '<');
            assert(s.skip(i)[0] == s[i]);
            assert(spec_find_char(s.skip(i), '<') >= 1);
        } else if i + 1 < s.len() {
            if s[i + 1] == '?' {
                assert("?>"@.len() == 2) by {
                    reveal_strlit("?>");
                }
                lemma_find_sub_props(s, i + 2, "?>"@);
            } else if s[i + 1] == '!' {
                if i + 3 < s.len() && s[i + 2] == '-' && s[i + 3] == '-' {
                    assert("-->"@.len() == 3) by {
                        reveal_strlit("-->");
                    }
                    lemma_find_sub_props(s, i + 4, "-->"@);
                } else {
                    crate::text::lemma_find_char_props(s.skip(i + 2), '>');
                }
            } else if s[i + 1] == '/' {
                crate::text::lemma_find_char_props(s.skip(i + 2), '>');
            } else {
                lemma_name_run_props(s.skip(i + 1));
                let run = spec_name_run(s.skip(i + 1));
                if run > 0 {
                    lemma_parse_attrs_props(s, i + 1 + run);
                }
            }
        }
    }
}

/// The events of the text from position `i` on, or the position of the first
/// malformed construct.
pub open spec fn spec_tokenize(s: Seq<char>, i: int) -> Result<Seq<XmlEventView>, int>
    decreases s.len() - i,
    via spec_tokenize_decreases
{
    match spec_step(s, i) {
        StepView::Done => Ok(Seq::empty()),
        StepView::Fail(x) => Err(x),
        StepView::Skip(j) => spec_tokenize(s, j),
        StepView::Event(e, j) => match spec_tokenize(s, j) {
            Ok(rest) => Ok(seq![e] + rest),
            Err(x) => Err(x),
        },
    }
}

#[via_fn]
proof fn spec_tokenize_decreases(s: Seq<char>, i: int) {
    if 0 <= i <= s.len() {
        lemma_step_props(s, i);
    } else if i < 0 {
        assert(spec_step(s, i) is Done);
    } else {
        assert(spec_step(s, i) is Done);
    }
}


/// Executable outcome of attribute parsing.
enum AttrsOutcome {
    Attrs { attrs: Vec<(String, String)>, empty_tag: bool, next: usize },
    Fail(usize),
}

impl View for AttrsOutcome {
    type V = AttrsResultView;

    closed spec fn view(&self) -> AttrsResultView {
        match self {
            AttrsOutcome::Attrs { attrs, empty_tag, next } => AttrsResultView::Attrs {
                attrs: spec_attrs_view(attrs@),
                empty_tag: *empty_tag,
                next: *next as int,
            },
            AttrsOutcome::Fail(x) => AttrsResultView::Fail(*x as int),
        }
    }
}

/// Parses `name="value"` pairs up to `>` or `/>`.
fn parse_attrs(s: &Vec<char>, pos: usize) -> (r: AttrsOutcome)
    requires
        pos <= s@.len(),
    ensures
        r@ == spec_parse_attrs(s@, pos as int),
    decreases s@.len() - pos,
{
    let n = s.len();
    let p = pos + space_run_from(s, pos);
    proof {
        assert(spec_attrs_view(Seq::<(String, String)>::empty()) =~= Seq::<
            (Seq<char>, Seq<char>),
        >::empty());
    }
    if p >= n {
        return AttrsOutcome::Fail(p);
    }
    if s[p] == '>' {
        return AttrsOutcome::Attrs { attrs: Vec::new(), empty_tag: false, next: p + 1 };
    }
    if s[p] == '/' {
        if p + 1 < n && s[p + 1] == '>' {
            return AttrsOutcome::Attrs { attrs: Vec::new(), empty_tag: true, next: p + 2 };
        }
        return AttrsOutcome::Fail(p);
    }
    let run = attr_name_run_from(s, p);
    if run == 0 {
        return AttrsOutcome::Fail(p);
    }
    let name = subrange_chars(s, p, p + run);
    let q = p + run + space_run_from(s, p + run);
    if q >= n || s[q] != '=' {
        return AttrsOutcome::Fail(q);
    }
    let v = q + 1 + space_run_from(s, q + 1);
    if v >= n || s[v] != '"' {
        return AttrsOutcome::Fail(v);
    }
    let e = find_char_from(s, v + 1, '"');
    if e >= n {
        return AttrsOutcome::Fail(v);
    }
    let value = subrange_chars(s, v + 1, e);
    match parse_attrs(s, e + 1) {
        AttrsOutcome::Attrs { attrs, empty_tag, next } => {
            let mut out: Vec<(String, String)> = Vec::new();
            out.push((chars_to_string(&name), chars_to_string(&value)));
            extend_attrs(&mut out, attrs);
            proof {
                assert(spec_attrs_view(out@) =~= seq![(name@, value@)] + spec_attrs_of(
                    spec_parse_attrs(s@, e + 1),
                ));
            }
            AttrsOutcome::Attrs { attrs: out, empty_tag, next }
        },
        AttrsOutcome::Fail(x) => AttrsOutcome::Fail(x),
    }
}

/// The attribute list of an accepted outcome.
pub open spec fn spec_attrs_of(r: AttrsResultView) -> Seq<(Seq<char>, Seq<char>)> {
    match r {
        AttrsResultView::Attrs { attrs, .. } => attrs,
        AttrsResultView::Fail(_) => Seq::empty(),
    }
}

/// Appends every attribute of `src` to `dst`.
fn extend_attrs(dst: &mut Vec<(String, String)>, src: Vec<(String, String)>)
    ensures
        spec_attrs_view(final(dst)@) == spec_attrs_view(old(dst)@) + spec_attrs_view(src@),
{
    let n = src.len();
    let ghost srcv = src@;
    let mut i: usize = 0;
    let mut src = src;
    while i < n
        invariant
            n == srcv.len(),
            i <= n,
            src@ == srcv.skip(i as int),
            spec_attrs_view(dst@) == spec_attrs_view(old(dst)@) + spec_attrs_view(
                srcv.take(i as int),
            ),
        decreases n - i,
    {
        let x = src.remove(0);
        proof {
            assert(x == srcv[i as int]);
            assert(src@ =~= srcv.skip(i + 1));
        }
        let ghost dprev = dst@;
        dst.push(x);
        i = i + 1;
        proof {
            assert(srcv.take(i as int) =~= srcv.take(i - 1).push(srcv[i - 1]));
            assert(spec_attrs_view(srcv.take(i - 1).push(srcv[i - 1])) =~= spec_attrs_view(
                srcv.take(i - 1),
            ).push((srcv[i - 1].0@, srcv[i - 1].1@)));
            assert(spec_attrs_view(dprev.push(x)) =~= spec_attrs_view(dprev).push((x.0@, x.1@)));
            assert(spec_attrs_view(old(dst)@) + spec_attrs_view(srcv.take(i - 1)).push(
                (x.0@, x.1@),
            ) =~= (spec_attrs_view(old(dst)@) + spec_attrs_view(srcv.take(i - 1))).push(
                (x.0@, x.1@),
            ));
        }
    }
    proof {
        assert(srcv.take(n as int) =~= srcv);
    }
}

/// Executable scanning step.
enum Step {
    Done,
    Event(XmlEvent, usize),
    Skip(usize),
    Fail(usize),
}

impl View for Step {
    type V = StepView;

    closed spec fn view(&self) -> StepView {
        match self {
            Step::Done => StepView::Done,
            Step::Event(e, j) => StepView::Event(e@, *j as int),
            Step::Skip(j) => StepView::Skip(*j as int),
            Step::Fail(x) => StepView::Fail(*x as int),
        }
    }
}

/// Scans the event at position `i`.
fn step(s: &Vec<char>, i: usize) -> (r: Step)
    requires
        i <= s@.len(),
    ensures
        r@ == spec_step(s@, i as int),
        r is Event ==> i < r->Event_1 <= s@.len(),
        r is Skip ==> i < r->Skip_0 <= s@.len(),
    decreases s@.len() - i,
{
    proof {
        lemma_step_props(s@, i as int);
    }
    let n = s.len();
    if i >= n {
        return Step::Done;
    }
    if s[i] != '<' {
        let j = find_char_from(s, i, '<');
        let piece = subrange_chars(s, i, j);
        let txt = trim_chars(&piece);
        if txt.len() == 0 {
            return Step::Skip(j);
        }
        return Step::Event(XmlEvent::Text { text: chars_to_string(&txt) }, j);
    }
    if i + 1 >= n {
        return Step::Fail(i);
    }
    if s[i + 1] == '?' {
        let pat = crate::text::str_to_chars("?>");
        proof {
            reveal_strlit("?>");
        }
        let k = find_sub_from(s, i + 2, &pat);
        if k <= n - 2 {
            return Step::Skip(k + 2);
        }
        return Step::Fail(i);
    }
    if s[i + 1] == '!' {
        if n - i > 3 && s[i + 2] == '-' && s[i + 3] == '-' {
            let pat = crate::text::str_to_chars("-->");
            proof {
                reveal_strlit("-->");
            }
            let k = find_sub_from(s, i + 4, &pat);
            if k <= n - 3 {
                return Step::Skip(k + 3);
            }
            return Step::Fail(i);
        }
        let j = find_char_from(s, i + 2, '>');
        if j < n {
            return Step::Skip(j + 1);
        }
        return Step::Fail(i);
    }
    if s[i + 1] == '/' {
        let j = find_char_from(s, i + 2, '>');
        if j < n {
            let piece = subrange_chars(s, i + 2, j);
            let name = trim_chars(&piece);
            return Step::Event(XmlEvent::End { name: chars_to_string(&name) }, j + 1);
        }
        return Step::Fail(i);
    }
    let run = name_run_from(s, i + 1);
    if run == 0 {
        return Step::Fail(i + 1);
    }
    let name = subrange_chars(s, i + 1, i + 1 + run);
    match parse_attrs(s, i + 1 + run) {
        AttrsOutcome::Attrs { attrs, empty_tag, next } => {
            proof {
                lemma_parse_attrs_props(s@, i + 1 + run);
            }
            if empty_tag {
                Step::Event(XmlEvent::Empty { name: chars_to_string(&name), attrs }, next)
            } else {
                Step::Event(XmlEvent::Start { name: chars_to_string(&name), attrs }, next)
            }
        },
        AttrsOutcome::Fail(x) => Step::Fail(x),
    }
}

/// Appends every event of `src` to `dst`.
fn extend_events(dst: &mut Vec<XmlEvent>, src: Vec<XmlEvent>)
    ensures
        spec_events_view(final(dst)@) == spec_events_view(old(dst)@) + spec_events_view(src@),
{
    let n = src.len();
    let ghost srcv = src@;
    let mut i: usize = 0;
    let mut src = src;
    while i < n
        invariant
            n == srcv.len(),
            i <= n,
            src@ == srcv.skip(i as int),
            spec_events_view(dst@) == spec_events_view(old(dst)@) + spec_events_view(
                srcv.take(i as int),
            ),
        decreases n - i,
    {
        let x = src.remove(0);
        proof {
            assert(x == srcv[i as int]);
            assert(src@ =~= srcv.skip(i + 1));
        }
        let ghost dprev = dst@;
        dst.push(x);
        i = i + 1;
        proof {
            assert(srcv.take(i as int) =~= srcv.take(i - 1).push(srcv[i - 1]));
            assert(spec_events_view(srcv.take(i - 1).push(srcv[i - 1])) =~= spec_events_view(
                srcv.take(i - 1),
            ).push(srcv[i - 1]@));
            assert(spec_events_view(dprev.push(x)) =~= spec_events_view(dprev).push(x@));
            assert(spec_events_view(old(dst)@) + spec_events_view(srcv.take(i - 1)).push(x@)
                =~= (spec_events_view(old(dst)@) + spec_events_view(srcv.take(i - 1))).push(x@));
        }
    }
    proof {
        assert(srcv.take(n as int) =~= srcv);
    }
}

/// Scans all events from position `i` on.
fn tokenize_from(s: &Vec<char>, i: usize) -> (r: Result<Vec<XmlEvent>, usize>)
    requires
        i <= s@.len(),
    ensures
        match r {
            Ok(evs) => spec_tokenize(s@, i as int) == Ok::<Seq<XmlEventView>, int>(
                spec_events_view(evs@),
            ),
            Err(x) => spec_tokenize(s@, i as int) == Err::<Seq<XmlEventView>, int>(x as int),
        },
    decreases s@.len() - i,
{
    match step(s, i) {
        Step::Done => {
            let evs: Vec<XmlEvent> = Vec::new();
            proof {
                assert(spec_events_view(evs@) =~= Seq::<XmlEventView>::empty());
            }
            Ok(evs)
        },
        Step::Fail(x) => Err(x),
        Step::Skip(j) => tokenize_from(s, j),
        Step::Event(e, j) => {
            match tokenize_from(s, j) {
                Ok(rest) => {
                    let ghost ev = e@;
                    let mut evs: Vec<XmlEvent> = Vec::new();
                    evs.push(e);
                    extend_events(&mut evs, rest);
                    proof {
                        assert(spec_events_view(seq![e]) =~= seq![ev]);
                        assert(spec_events_view(evs@) =~= seq![ev] + spec_tokenize(
                            s@,
                            j as int,
                        )->Ok_0);
                    }
                    Ok(evs)
                },
                Err(x) => Err(x),
            }
        },
    }
}

/// Scans a whole text into its events, or reports the position of the first
/// malformed construct.
pub fn tokenize(s: &Vec<char>) -> (r: Result<Vec<XmlEvent>, usize>)
    ensures
        match r {
            Ok(evs) => spec_tokenize(s@, 0) == Ok::<Seq<XmlEventView>, int>(
                spec_events_view(evs@),
            ),
            Err(x) => spec_tokenize(s@, 0) == Err::<Seq<XmlEventView>, int>(x as int),
        },
{
    tokenize_from(s, 0)
}


/// The value of the first attribute named `name`, if any.
pub open spec fn spec_attr_value(attrs: Seq<(Seq<char>, Seq<char>)>, name: Seq<char>) -> Option<
    Seq<char>,
>
    decreases attrs.len(),
{
    if attrs.len() == 0 {
        None
    } else if attrs[0].0 == name {
        Some(attrs[0].1)
    } else {
        spec_attr_value(attrs.drop_first(), name)
    }
}

/// Looks up the first attribute named `name`.
pub fn attr_value(attrs: &Vec<(String, String)>, name: &str) -> (r: Option<String>)
    ensures
        match r {
            Some(v) => spec_attr_value(spec_attrs_view(attrs@), name@) == Some(v@),
            None => spec_attr_value(spec_attrs_view(attrs@), name@) is None,
        },
{
    let ghost av = spec_attrs_view(attrs@);
    let n = attrs.len();
    let mut i: usize = 0;
    proof {
        assert(av.skip(0) =~= av);
    }
    while i < n
        invariant
            n == attrs@.len(),
            av == spec_attrs_view(attrs@),
            i <= n,
            spec_attr_value(av, name@) == spec_attr_value(av.skip(i as int), name@),
        decreases n - i,
    {
        proof {
            assert(av.skip(i as int)[0] == av[i as int]);
            assert(av.skip(i as int).drop_first() =~= av.skip(i + 1));
        }
        if crate::text::str_eq(attrs[i].0.as_str(), name) {
            let v = (&attrs[i].1).clone();
            proof {
                assert(v@ == attrs@[i as int].1@);
            }
            return Some(v);
        }
        i = i + 1;
    }
    proof {
        assert(av.skip(n as int) =~= Seq::<(Seq<char>, Seq<char>)>::empty());
    }
    None
}

} // verus!
