//! Resource keys: a namespace path plus a leaf name, with a total order that
//! makes graph iteration deterministic.

use vstd::prelude::*;

use crate::text::chars_to_string;
use crate::text::str_to_chars;

verus! {

use core::cmp::Ordering;

/// Splits a text at every `/`, keeping empty segments.
pub open spec fn spec_split_all(s: Seq<char>) -> Seq<Seq<char>>
    decreases s.len(),
{
    if s.len() == 0 {
        seq![Seq::empty()]
    } else {
        let rest = spec_split_all(s.drop_last());
        if s.last() == '/' {
            rest.push(Seq::empty())
        } else {
            rest.update(rest.len() - 1, rest.last().push(s.last()))
        }
    }
}

/// True for a segment that survives path splitting.
pub open spec fn spec_nonempty_seg(seg: Seq<char>) -> bool {
    seg.len() > 0
}

/// The non-empty `/`-separated segments of a path.
pub open spec fn spec_path_segments(s: Seq<char>) -> Seq<Seq<char>> {
    spec_split_all(s).filter(|seg: Seq<char>| spec_nonempty_seg(seg))
}

/// Namespace part of a path: all non-empty segments but the last.
pub open spec fn spec_path_namespace(s: Seq<char>) -> Seq<Seq<char>> {
    let parts = spec_path_segments(s);
    if parts.len() == 0 {
        Seq::empty()
    } else {
        parts.drop_last()
    }
}

/// Name part of a path: the last non-empty segment, or empty.
pub open spec fn spec_path_name(s: Seq<char>) -> Seq<char> {
    let parts = spec_path_segments(s);
    if parts.len() == 0 {
        Seq::empty()
    } else {
        parts.last()
    }
}

/// Joins segments with `/`.
pub open spec fn spec_join_slash(parts: Seq<Seq<char>>) -> Seq<char>
    decreases parts.len(),
{
    if parts.len() == 0 {
        Seq::empty()
    } else if parts.len() == 1 {
        parts[0]
    } else {
        spec_join_slash(parts.drop_last()) + seq!['/'] + parts.last()
    }
}

/// The fully qualified name of a key: namespace segments and the name joined
/// with `/`.
pub open spec fn spec_full_name(namespace: Seq<Seq<char>>, name: Seq<char>) -> Seq<char> {
    if namespace.len() == 0 {
        name
    } else {
        spec_join_slash(namespace) + seq!['/'] + name
    }
}

/// A key under which a resource is stored: the ordered namespace path that
/// encloses the declaration, and the declaration's own name.
#[derive(Debug, Clone)]
pub struct ResourceKey {
    pub namespace: Vec<String>,
    pub name: String,
}

/// Content equality of keys: equal namespace and equal name.
pub open spec fn spec_key_eq(a: &ResourceKey, b: &ResourceKey) -> bool {
    a.namespace.deep_view() == b.namespace.deep_view() && a.name@ == b.name@
}

/// Total order on texts: shorter prefixes first, otherwise first differing
/// character decides.
pub open spec fn spec_chars_cmp(a: Seq<char>, b: Seq<char>) -> Ordering
    decreases a.len(),
{
    if a.len() == 0 && b.len() == 0 {
        Ordering::Equal
    } else if a.len() == 0 {
        Ordering::Less
    } else if b.len() == 0 {
        Ordering::Greater
    } else if (a[0] as u32) < (b[0] as u32) {
        Ordering::Less
    } else if (a[0] as u32) > (b[0] as u32) {
        Ordering::Greater
    } else {
        spec_chars_cmp(a.drop_first(), b.drop_first())
    }
}

/// Lexicographic order on segment lists.
pub open spec fn spec_segs_cmp(a: Seq<Seq<char>>, b: Seq<Seq<char>>) -> Ordering
    decreases a.len(),
{
    if a.len() == 0 && b.len() == 0 {
        Ordering::Equal
    } else if a.len() == 0 {
        Ordering::Less
    } else if b.len() == 0 {
        Ordering::Greater
    } else {
        match spec_chars_cmp(a[0], b[0]) {
            Ordering::Equal => spec_segs_cmp(a.drop_first(), b.drop_first()),
            ord => ord,
        }
    }
}

/// Total order on keys: namespace first, then name.
pub open spec fn spec_key_cmp(a: &ResourceKey, b: &ResourceKey) -> Ordering {
    match spec_segs_cmp(a.namespace.deep_view(), b.namespace.deep_view()) {
        Ordering::Equal => spec_chars_cmp(a.name@, b.name@),
        ord => ord,
    }
}

impl ResourceKey {
    /// Builds a key directly from its parts.
    pub fn new(namespace: Vec<String>, name: &str) -> (k: ResourceKey)
        ensures
            k.namespace.deep_view() == namespace.deep_view(),
            k.name@ == name@,
    {
        ResourceKey { namespace, name: name.to_owned() }
    }

    /// Derives a key from a slash-delimited path: the last non-empty segment
    /// is the name, the preceding ones the namespace.
    pub fn from_path(path: &str) -> (k: ResourceKey)
        ensures
            k.namespace.deep_view() == spec_path_namespace(path@),
            k.name@ == spec_path_name(path@),
    {
        let chars = str_to_chars(path);
        let mut parts = split_nonempty(&chars);
        if parts.len() == 0 {
            let empty = chars_to_string(&Vec::new());
            ResourceKey { namespace: Vec::new(), name: empty }
        } else {
            let name = parts.pop().unwrap();
            proof {
                assert(parts.deep_view() =~= spec_path_namespace(path@));
            }
            ResourceKey { namespace: parts, name }
        }
    }

    /// The fully qualified `/`-joined name.
    pub fn full_name(&self) -> (r: String)
        ensures
            r@ == spec_full_name(self.namespace.deep_view(), self.name@),
    {
        let mut out: Vec<char> = Vec::new();
        let n = self.namespace.len();
        let mut i: usize = 0;
        while i < n
            invariant
                n == self.namespace.len(),
                i <= n,
                i == 0 ==> out@ == Seq::<char>::empty(),
                i > 0 ==> out@ == spec_join_slash(self.namespace.deep_view().take(i as int)),
            decreases n - i,
        {
            if i > 0 {
                out.push('/');
            }
            crate::text::push_str(&mut out, self.namespace[i].as_str());
            i = i + 1;
            proof {
                let dv = self.namespace.deep_view();
                assert(dv.take(i as int).drop_last() =~= dv.take(i - 1));
                assert(dv.take(i as int).last() == dv[i - 1]);
                if i > 1 {
                    assert(out@ =~= spec_join_slash(dv.take(i - 1)) + seq!['/'] + dv[i - 1]);
                }
            }
        }
        if n > 0 {
            out.push('/');
        }
        crate::text::push_str(&mut out, self.name.as_str());
        proof {
            assert(self.namespace.deep_view().take(n as int) =~= self.namespace.deep_view());
            assert(out@ =~= spec_full_name(self.namespace.deep_view(), self.name@));
        }
        chars_to_string(&out)
    }

    /// Three-way comparison along the key order.
    pub fn compare(&self, other: &ResourceKey) -> (r: Ordering)
        ensures
            r == spec_key_cmp(self, other),
    {
        let n1 = self.namespace.len();
        let n2 = other.namespace.len();
        proof {
            assert(self.namespace.deep_view().skip(0) =~= self.namespace.deep_view());
            assert(other.namespace.deep_view().skip(0) =~= other.namespace.deep_view());
        }
        let mut i: usize = 0;
        loop
            invariant
                n1 == self.namespace.len(),
                n2 == other.namespace.len(),
                i <= n1,
                i <= n2,
                forall|j: int| 0 <= j < i ==> self.namespace.deep_view()[j]
                    == other.namespace.deep_view()[j],
                spec_key_cmp(self, other) == (match spec_segs_cmp(
                    self.namespace.deep_view().skip(i as int),
                    other.namespace.deep_view().skip(i as int),
                ) {
                    Ordering::Equal => spec_chars_cmp(self.name@, other.name@),
                    ord => ord,
                }),
            decreases n1 - i,
        {
            proof {
                lemma_segs_cmp_skip(self.namespace.deep_view(), other.namespace.deep_view(),
                    i as int);
            }
            if i >= n1 || i >= n2 {
                proof {
                    assert(self.namespace.deep_view().skip(i as int).len() == n1 - i);
                    assert(other.namespace.deep_view().skip(i as int).len() == n2 - i);
                }
                if i < n2 {
                    return Ordering::Less;
                }
                if i < n1 {
                    return Ordering::Greater;
                }
                return str_cmp(self.name.as_str(), other.name.as_str());
            }
            let c = str_cmp(self.namespace[i].as_str(), other.namespace[i].as_str());
            proof {
                let sa = self.namespace.deep_view().skip(i as int);
                let sb = other.namespace.deep_view().skip(i as int);
                assert(sa[0] == self.namespace.deep_view()[i as int]);
                assert(sb[0] == other.namespace.deep_view()[i as int]);
                assert(sa.drop_first() =~= self.namespace.deep_view().skip(i + 1));
                assert(sb.drop_first() =~= other.namespace.deep_view().skip(i + 1));
            }
            match c {
                Ordering::Equal => {
                    proof {
                        lemma_chars_cmp_eq(self.namespace.deep_view()[i as int],
                            other.namespace.deep_view()[i as int]);
                    }
                    i = i + 1;
                },
                ord => {
                    return ord;
                },
            }
        }
    }
}

/// Advancing past an equal head leaves the comparison unchanged.
proof fn lemma_segs_cmp_skip(a: Seq<Seq<char>>, b: Seq<Seq<char>>, i: int)
    requires
        0 <= i <= a.len(),
        0 <= i <= b.len(),
        forall|j: int| 0 <= j < i ==> a[j] == b[j],
    ensures
        spec_segs_cmp(a, b) == spec_segs_cmp(a.skip(i), b.skip(i)),
    decreases i,
{
    if i == 0 {
        assert(a.skip(0) =~= a);
        assert(b.skip(0) =~= b);
    } else {
        assert(a.len() > 0 && b.len() > 0);
        assert(a[0] == b[0]);
        assert(spec_chars_cmp(a[0], b[0]) == Ordering::Equal) by {
            lemma_chars_cmp_self(a[0]);
        }
        lemma_segs_cmp_skip(a.drop_first(), b.drop_first(), i - 1);
        assert(a.drop_first().skip(i - 1) =~= a.skip(i));
        assert(b.drop_first().skip(i - 1) =~= b.skip(i));
    }
}

/// A text compares equal to itself.
proof fn lemma_chars_cmp_self(a: Seq<char>)
    ensures
        spec_chars_cmp(a, a) == Ordering::Equal,
    decreases a.len(),
{
    if a.len() > 0 {
        lemma_chars_cmp_self(a.drop_first());
    }
}

/// Three-way comparison of string slices along the character order.
pub fn str_cmp(a: &str, b: &str) -> (r: Ordering)
    ensures
        r == spec_chars_cmp(a@, b@),
{
    let na = a.unicode_len();
    let nb = b.unicode_len();
    proof {
        assert(a@.skip(0) =~= a@);
        assert(b@.skip(0) =~= b@);
    }
    let mut i: usize = 0;
    loop
        invariant
            na == a@.len(),
            nb == b@.len(),
            i <= na,
            i <= nb,
            spec_chars_cmp(a@, b@) == spec_chars_cmp(a@.skip(i as int), b@.skip(i as int)),
        decreases na - i,
    {
        if i >= na || i >= nb {
            if i < nb {
                return Ordering::Less;
            }
            if i < na {
                return Ordering::Greater;
            }
            return Ordering::Equal;
        }
        let ca = a.get_char(i) as u32;
        let cb = b.get_char(i) as u32;
        proof {
            let sa = a@.skip(i as int);
            let sb = b@.skip(i as int);
            assert(sa[0] == a@[i as int]);
            assert(sb[0] == b@[i as int]);
            assert(sa.drop_first() =~= a@.skip(i + 1));
            assert(sb.drop_first() =~= b@.skip(i + 1));
        }
        if ca < cb {
            return Ordering::Less;
        }
        if ca > cb {
            return Ordering::Greater;
        }
        proof {
            assert(a@[i as int] as u32 == b@[i as int] as u32);
            vstd::utf8::char_u32_cast(a@[i as int], a@[i as int] as u32);
            vstd::utf8::char_u32_cast(b@[i as int], b@[i as int] as u32);
            assert(a@[i as int] == b@[i as int]);
        }
        i = i + 1;
    }
}

/// Splits a path into its non-empty `/`-separated segments.
pub fn split_nonempty(chars: &Vec<char>) -> (parts: Vec<String>)
    ensures
        parts.deep_view() == spec_path_segments(chars@),
{
    let n = chars.len();
    let mut parts: Vec<String> = Vec::new();
    let mut cur: Vec<char> = Vec::new();
    let mut i: usize = 0;
    while i < n
        invariant
            n == chars@.len(),
            i <= n,
            parts.deep_view() == spec_split_all(chars@.take(i as int)).drop_last().filter(
                |seg: Seq<char>| spec_nonempty_seg(seg),
            ),
            cur@ == spec_split_all(chars@.take(i as int)).last(),
            spec_split_all(chars@.take(i as int)).len() > 0,
        decreases n - i,
    {
        let c = chars[i];
        proof {
            assert(chars@.take(i + 1).drop_last() =~= chars@.take(i as int));
            assert(chars@.take(i + 1).last() == chars@[i as int]);
        }
        if c == '/' {
            proof {
                let prev = spec_split_all(chars@.take(i as int));
                lemma_filter_push(prev.drop_last(), prev.last());
                assert(prev.drop_last().push(prev.last()) =~= prev);
                assert(spec_split_all(chars@.take(i + 1)).drop_last() =~= prev);
            }
            if cur.len() > 0 {
                let seg = chars_to_string(&cur);
                parts.push(seg);
                proof {
                    assert(parts.deep_view() =~= spec_split_all(chars@.take(i + 1)).drop_last()
                        .filter(|seg: Seq<char>| spec_nonempty_seg(seg)));
                }
            } else {
                proof {
                    assert(parts.deep_view() =~= spec_split_all(chars@.take(i + 1)).drop_last()
                        .filter(|seg: Seq<char>| spec_nonempty_seg(seg)));
                }
            }
            cur = Vec::new();
        } else {
            cur.push(c);
            proof {
                let prev = spec_split_all(chars@.take(i as int));
                let nxt = spec_split_all(chars@.take(i + 1));
                assert(nxt == prev.update(prev.len() - 1, prev.last().push(chars@[i as int])));
                assert(nxt.drop_last() =~= prev.drop_last());
                assert(nxt.last() == prev.last().push(chars@[i as int]));
            }
        }
        i = i + 1;
    }
    proof {
        assert(chars@.take(n as int) =~= chars@);
    }
    if cur.len() > 0 {
        let seg = chars_to_string(&cur);
        parts.push(seg);
        proof {
            let all = spec_split_all(chars@);
            lemma_filter_push(all.drop_last(), all.last());
            assert(all.drop_last().push(all.last()) =~= all);
            assert(parts.deep_view() =~= spec_path_segments(chars@));
        }
    } else {
        proof {
            let all = spec_split_all(chars@);
            lemma_filter_push(all.drop_last(), all.last());
            assert(all.drop_last().push(all.last()) =~= all);
            assert(parts.deep_view() =~= spec_path_segments(chars@));
        }
    }
    parts
}

/// Filtering a sequence extended by one element keeps the element exactly
/// when the predicate holds of it.
pub proof fn lemma_filter_push(s: Seq<Seq<char>>, x: Seq<char>)
    ensures
        s.push(x).filter(|seg: Seq<char>| spec_nonempty_seg(seg)) == (if spec_nonempty_seg(x) {
            s.filter(|seg: Seq<char>| spec_nonempty_seg(seg)).push(x)
        } else {
            s.filter(|seg: Seq<char>| spec_nonempty_seg(seg))
        }),
{
    reveal_with_fuel(Seq::filter, 2);
    assert(s.push(x).drop_last() =~= s);
    assert(s.push(x).last() == x);
}

impl PartialEq for ResourceKey {
    /// Two keys are equal exactly when namespace and name match.
    fn eq(&self, other: &ResourceKey) -> (r: bool) {
        if self.namespace.len() != other.namespace.len() {
            proof {
                assert(self.namespace.deep_view().len() != other.namespace.deep_view().len());
            }
            return false;
        }
        let n = self.namespace.len();
        let mut i: usize = 0;
        while i < n
            invariant
                n == self.namespace.len(),
                n == other.namespace.len(),
                i <= n,
                forall|j: int| 0 <= j < i ==> self.namespace.deep_view()[j]
                    == other.namespace.deep_view()[j],
            decreases n - i,
        {
            if !crate::text::str_eq(self.namespace[i].as_str(), other.namespace[i].as_str()) {
                proof {
                    assert(self.namespace.deep_view()[i as int] == self.namespace@[i as int]@);
                    assert(other.namespace.deep_view()[i as int] == other.namespace@[i as int]@);
                    assert(self.namespace.deep_view() != other.namespace.deep_view());
                }
                return false;
            }
            i = i + 1;
        }
        proof {
            assert(self.namespace.deep_view() =~= other.namespace.deep_view());
        }
        crate::text::str_eq(self.name.as_str(), other.name.as_str())
    }
}

impl Eq for ResourceKey {

}

impl vstd::std_specs::cmp::PartialEqSpecImpl for ResourceKey {
    open spec fn obeys_eq_spec() -> bool {
        true
    }

    open spec fn eq_spec(&self, other: &ResourceKey) -> bool {
        spec_key_eq(self, other)
    }
}

impl PartialOrd for ResourceKey {
    /// Keys are totally ordered: namespace lexicographically, then name.
    fn partial_cmp(&self, other: &ResourceKey) -> (r: Option<Ordering>) {
        let c = self.compare(other);
        proof {
            lemma_key_cmp_consistent(self, other);
        }
        Some(c)
    }
}

impl vstd::std_specs::cmp::PartialOrdSpecImpl for ResourceKey {
    open spec fn obeys_partial_cmp_spec() -> bool {
        true
    }

    open spec fn partial_cmp_spec(&self, other: &ResourceKey) -> Option<Ordering> {
        Some(spec_key_cmp(self, other))
    }
}

/// The key order is consistent with key equality: the comparison returns
/// `Equal` exactly on keys with equal namespace and equal name.
pub proof fn lemma_key_cmp_consistent(a: &ResourceKey, b: &ResourceKey)
    ensures
        (spec_key_cmp(a, b) == Ordering::Equal) <==> spec_key_eq(a, b),
{
    lemma_segs_cmp_eq(a.namespace.deep_view(), b.namespace.deep_view());
    lemma_chars_cmp_eq(a.name@, b.name@);
}

proof fn lemma_chars_cmp_eq(a: Seq<char>, b: Seq<char>)
    ensures
        (spec_chars_cmp(a, b) == Ordering::Equal) <==> a == b,
    decreases a.len(),
{
    if a.len() > 0 && b.len() > 0 {
        vstd::utf8::char_u32_cast(a[0], a[0] as u32);
        vstd::utf8::char_u32_cast(b[0], b[0] as u32);
        lemma_chars_cmp_eq(a.drop_first(), b.drop_first());
        if a[0] == b[0] && a.drop_first() == b.drop_first() {
            assert(a =~= b) by {
                assert(forall|j: int|
                    1 <= j < a.len() ==> a[j] == a.drop_first()[j - 1] && b[j] == b.drop_first()[j - 1]);
            }
        }
        if a == b {
            assert(a.drop_first() =~= b.drop_first());
        }
    } else {
        if a.len() == 0 && b.len() == 0 {
            assert(a =~= b);
        }
    }
}

proof fn lemma_segs_cmp_eq(a: Seq<Seq<char>>, b: Seq<Seq<char>>)
    ensures
        (spec_segs_cmp(a, b) == Ordering::Equal) <==> a == b,
    decreases a.len(),
{
    if a.len() > 0 && b.len() > 0 {
        lemma_chars_cmp_eq(a[0], b[0]);
        lemma_segs_cmp_eq(a.drop_first(), b.drop_first());
        if a[0] == b[0] && a.drop_first() == b.drop_first() {
            assert(a =~= b) by {
                assert(forall|j: int|
                    1 <= j < a.len() ==> a[j] == a.drop_first()[j - 1] && b[j] == b.drop_first()[j - 1]);
            }
        }
        if a == b {
            assert(a.drop_first() =~= b.drop_first());
        }
    } else {
        if a.len() == 0 && b.len() == 0 {
            assert(a =~= b);
        }
    }
}

/// Two keys with equal namespace and equal name are equal under `==`,
/// however each was constructed.
pub proof fn lemma_key_equality(a: &ResourceKey, b: &ResourceKey)
    requires
        a.namespace.deep_view() == b.namespace.deep_view(),
        a.name@ == b.name@,
    ensures
        vstd::std_specs::cmp::PartialEqSpec::eq_spec(a, b),
{
}


/// Ghost view of a key.
pub struct ResourceKeyView {
    pub namespace: Seq<Seq<char>>,
    pub name: Seq<char>,
}

impl View for ResourceKey {
    type V = ResourceKeyView;

    open spec fn view(&self) -> ResourceKeyView {
        ResourceKeyView { namespace: self.namespace.deep_view(), name: self.name@ }
    }
}

/// The key order flips under swapped arguments.
pub proof fn lemma_chars_cmp_flip(a: Seq<char>, b: Seq<char>)
    ensures
        (spec_chars_cmp(a, b) == Ordering::Less) <==> (spec_chars_cmp(b, a) == Ordering::Greater),
    decreases a.len(),
{
    if a.len() > 0 && b.len() > 0 {
        lemma_chars_cmp_flip(a.drop_first(), b.drop_first());
    }
}

proof fn lemma_segs_cmp_flip(a: Seq<Seq<char>>, b: Seq<Seq<char>>)
    ensures
        (spec_segs_cmp(a, b) == Ordering::Less) <==> (spec_segs_cmp(b, a) == Ordering::Greater),
    decreases a.len(),
{
    if a.len() > 0 && b.len() > 0 {
        lemma_chars_cmp_flip(a[0], b[0]);
        lemma_chars_cmp_eq(a[0], b[0]);
        lemma_chars_cmp_eq(b[0], a[0]);
        lemma_segs_cmp_flip(a.drop_first(), b.drop_first());
    }
}

/// One key compares greater than another exactly when the other compares
/// less than it.
pub proof fn lemma_key_cmp_flip(a: &ResourceKey, b: &ResourceKey)
    ensures
        (spec_key_cmp(a, b) == Ordering::Greater) <==> (spec_key_cmp(b, a) == Ordering::Less),
{
    lemma_segs_cmp_flip(a.namespace.deep_view(), b.namespace.deep_view());
    lemma_segs_cmp_flip(b.namespace.deep_view(), a.namespace.deep_view());
    lemma_segs_cmp_eq(a.namespace.deep_view(), b.namespace.deep_view());
    lemma_segs_cmp_eq(b.namespace.deep_view(), a.namespace.deep_view());
    lemma_chars_cmp_flip(a.name@, b.name@);
    lemma_chars_cmp_flip(b.name@, a.name@);
    lemma_chars_cmp_eq(a.name@, b.name@);
    lemma_chars_cmp_eq(b.name@, a.name@);
}

/// The flip law on key views: one key compares greater than another exactly
/// when the other compares less than it.
pub proof fn lemma_key_view_cmp_flip(a: ResourceKeyView, b: ResourceKeyView)
    ensures
        (spec_key_view_cmp(a, b) == Ordering::Greater) <==> (spec_key_view_cmp(b, a)
            == Ordering::Less),
{
    lemma_segs_cmp_flip(a.namespace, b.namespace);
    lemma_segs_cmp_flip(b.namespace, a.namespace);
    lemma_segs_cmp_eq(a.namespace, b.namespace);
    lemma_segs_cmp_eq(b.namespace, a.namespace);
    lemma_chars_cmp_flip(a.name, b.name);
    lemma_chars_cmp_flip(b.name, a.name);
    lemma_chars_cmp_eq(a.name, b.name);
    lemma_chars_cmp_eq(b.name, a.name);
}

/// The key order on views.
pub open spec fn spec_key_view_cmp(a: ResourceKeyView, b: ResourceKeyView) -> Ordering {
    match spec_segs_cmp(a.namespace, b.namespace) {
        Ordering::Equal => spec_chars_cmp(a.name, b.name),
        ord => ord,
    }
}


/// The character order is transitive.
pub proof fn lemma_chars_cmp_trans(a: Seq<char>, b: Seq<char>, c: Seq<char>)
    requires
        spec_chars_cmp(a, b) == Ordering::Less,
        spec_chars_cmp(b, c) == Ordering::Less,
    ensures
        spec_chars_cmp(a, c) == Ordering::Less,
    decreases a.len(),
{
    if a.len() > 0 && b.len() > 0 && c.len() > 0 {
        if a[0] as u32 == b[0] as u32 && b[0] as u32 == c[0] as u32 {
            lemma_chars_cmp_trans(a.drop_first(), b.drop_first(), c.drop_first());
        }
    }
}

/// The segment order is transitive.
proof fn lemma_segs_cmp_trans(a: Seq<Seq<char>>, b: Seq<Seq<char>>, c: Seq<Seq<char>>)
    requires
        spec_segs_cmp(a, b) == Ordering::Less,
        spec_segs_cmp(b, c) == Ordering::Less,
    ensures
        spec_segs_cmp(a, c) == Ordering::Less,
    decreases a.len(),
{
    if a.len() > 0 && b.len() > 0 && c.len() > 0 {
        lemma_chars_cmp_eq(a[0], b[0]);
        lemma_chars_cmp_eq(b[0], c[0]);
        lemma_chars_cmp_eq(a[0], c[0]);
        match (spec_chars_cmp(a[0], b[0]), spec_chars_cmp(b[0], c[0])) {
            (Ordering::Equal, Ordering::Equal) => {
                lemma_segs_cmp_trans(a.drop_first(), b.drop_first(), c.drop_first());
            },
            (Ordering::Equal, Ordering::Less) => {
                assert(spec_chars_cmp(a[0], c[0]) == Ordering::Less);
            },
            (Ordering::Less, Ordering::Equal) => {
                assert(spec_chars_cmp(a[0], c[0]) == Ordering::Less);
            },
            (Ordering::Less, Ordering::Less) => {
                lemma_chars_cmp_trans(a[0], b[0], c[0]);
            },
            _ => {},
        }
    }
}

/// The key order is transitive.
pub proof fn lemma_key_view_cmp_trans(a: ResourceKeyView, b: ResourceKeyView, c: ResourceKeyView)
    requires
        spec_key_view_cmp(a, b) == Ordering::Less,
        spec_key_view_cmp(b, c) == Ordering::Less,
    ensures
        spec_key_view_cmp(a, c) == Ordering::Less,
{
    lemma_segs_cmp_eq(a.namespace, b.namespace);
    lemma_segs_cmp_eq(b.namespace, c.namespace);
    lemma_segs_cmp_eq(a.namespace, c.namespace);
    match (spec_segs_cmp(a.namespace, b.namespace), spec_segs_cmp(b.namespace, c.namespace)) {
        (Ordering::Equal, Ordering::Equal) => {
            lemma_chars_cmp_trans(a.name, b.name, c.name);
        },
        (Ordering::Less, Ordering::Less) => {
            lemma_segs_cmp_trans(a.namespace, b.namespace, c.namespace);
        },
        _ => {},
    }
}

} // verus!
