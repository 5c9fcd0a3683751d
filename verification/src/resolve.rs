//! Reference resolution at generation time: a recursive string resolver with
//! cycle detection. A visited set keyed by `type:key` guards the recursion; a
//! reference seen again mid-resolution is circular and resolves to nothing,
//! and interpolation then substitutes a literal `@key` placeholder rather
//! than failing the build.

use vstd::prelude::*;

use crate::graph::ResourceGraph;
use crate::graph::spec_graph_lookup;
use crate::key::ResourceKey;
use crate::key::ResourceKeyView;
use crate::key::spec_full_name;
use crate::key::spec_path_name;
use crate::key::spec_path_namespace;
use crate::model::InterpolationPartView;
use crate::model::ResourceKindView;
use crate::model::ResourceValueView;
use crate::text::chars_to_string;
use crate::text::push_chars;
use crate::text::push_str;
use crate::text::spec_sanitize;
use crate::text::spec_upper;
use crate::text::str_to_chars;

verus! {

/// The registry name of a node's kind.
pub open spec fn spec_kind_name(kind: ResourceKindView) -> Seq<char> {
    match kind {
        ResourceKindView::String => "string"@,
        ResourceKindView::Number => "number"@,
        ResourceKindView::Bool => "bool"@,
        ResourceKindView::Color => "color"@,
        ResourceKindView::Url => "url"@,
        ResourceKindView::Dimension => "dimension"@,
        ResourceKindView::Array(_) => "array"@,
        ResourceKindView::Template => "template"@,
        ResourceKindView::Custom(n) => n,
    }
}

/// The visited-set key of a reference: `type:key`.
pub open spec fn spec_ref_key(ty: Seq<char>, key: Seq<char>) -> Seq<char> {
    ty + seq![':'] + key
}

/// The resolved text of a reference: look up the target of `ty` named by the
/// key path; a missing target, a mismatched kind, an exhausted budget or a
/// revisited reference resolves to nothing.
pub open spec fn spec_resolve(
    g: Seq<(ResourceKeyView, Seq<crate::model::ResourceNodeView>)>,
    ty: Seq<char>,
    keypath: Seq<char>,
    visited: Seq<Seq<char>>,
    fuel: nat,
) -> Option<Seq<char>>
    decreases fuel, 0int, 0int,
{
    if fuel == 0 {
        None
    } else if visited.contains(spec_ref_key(ty, keypath)) {
        None
    } else {
        let kv = ResourceKeyView {
            namespace: spec_path_namespace(keypath),
            name: spec_path_name(keypath),
        };
        match spec_graph_lookup(g, kv) {
            None => None,
            Some(nodes) => {
                if nodes.len() > 0 && spec_kind_name(nodes[0].kind) == ty {
                    spec_extract(
                        g,
                        nodes[0].value,
                        visited.push(spec_ref_key(ty, keypath)),
                        (fuel - 1) as nat,
                    )
                } else {
                    None
                }
            },
        }
    }
}

/// The text a value resolves to: plain strings are themselves, references
/// and interpolations resolve recursively, other kinds resolve to nothing.
pub open spec fn spec_extract(
    g: Seq<(ResourceKeyView, Seq<crate::model::ResourceNodeView>)>,
    v: ResourceValueView,
    visited: Seq<Seq<char>>,
    fuel: nat,
) -> Option<Seq<char>>
    decreases fuel, 2int, 0int,
{
    match v {
        ResourceValueView::String(s) => Some(s),
        ResourceValueView::Reference { resource_type, key } => spec_resolve(
            g,
            resource_type,
            key,
            visited,
            fuel,
        ),
        ResourceValueView::InterpolatedString(parts) => Some(
            spec_resolve_parts(g, parts, visited, fuel),
        ),
        _ => None,
    }
}

/// The text of an interpolation: literal segments verbatim; each reference's
/// resolved text, or the `@key` placeholder where resolution found a cycle or
/// no target.
pub open spec fn spec_resolve_parts(
    g: Seq<(ResourceKeyView, Seq<crate::model::ResourceNodeView>)>,
    parts: Seq<InterpolationPartView>,
    visited: Seq<Seq<char>>,
    fuel: nat,
) -> Seq<char>
    decreases fuel, 1int, parts.len(),
{
    if parts.len() == 0 {
        Seq::empty()
    } else {
        let head: Seq<char> = match parts[0] {
            InterpolationPartView::Text(t) => t,
            InterpolationPartView::Reference { resource_type, key } => {
                match spec_resolve(g, resource_type, key, visited, fuel) {
                    Some(t) => t,
                    None => seq!['@'] + key,
                }
            },
        };
        head + spec_resolve_parts(g, parts.drop_first(), visited, fuel)
    }
}

/// Copies a visited set.
fn clone_visited(v: &Vec<String>) -> (r: Vec<String>)
    ensures
        r.deep_view() == v.deep_view(),
{
    let n = v.len();
    let mut out: Vec<String> = Vec::new();
    let mut i: usize = 0;
    while i < n
        invariant
            n == v@.len(),
            i <= n,
            out@.len() == i,
            forall|j: int| 0 <= j < i ==> out.deep_view()[j] == v.deep_view()[j],
        decreases n - i,
    {
        out.push(v[i].clone());
        i = i + 1;
        proof {
            assert(out.deep_view()[i - 1] == out@[i - 1]@);
            assert(v.deep_view()[i - 1] == v@[i - 1]@);
        }
    }
    proof {
        assert(out.deep_view() =~= v.deep_view());
    }
    out
}

/// Tests membership in the visited set.
fn visited_contains(v: &Vec<String>, key: &Vec<char>) -> (r: bool)
    ensures
        r == v.deep_view().contains(key@),
{
    let n = v.len();
    let mut i: usize = 0;
    while i < n
        invariant
            n == v@.len(),
            i <= n,
            forall|j: int| 0 <= j < i ==> v.deep_view()[j] != key@,
        decreases n - i,
    {
        let ks = chars_to_string(key);
        if crate::text::str_eq(v[i].as_str(), ks.as_str()) {
            proof {
                assert(v.deep_view()[i as int] == key@);
            }
            return true;
        }
        proof {
            assert(v.deep_view()[i as int] == v@[i as int]@);
        }
        i = i + 1;
    }
    proof {
        if v.deep_view().contains(key@) {
            let j = choose|j: int| 0 <= j < v.deep_view().len() && v.deep_view()[j] == key@;
            assert(false);
        }
    }
    false
}

/// The registry name of a node's kind.
pub fn kind_name(kind: &crate::model::ResourceKind) -> (r: String)
    ensures
        r@ == spec_kind_name(kind@),
{
    match kind {
        crate::model::ResourceKind::String => "string".to_owned(),
        crate::model::ResourceKind::Number => "number".to_owned(),
        crate::model::ResourceKind::Bool => "bool".to_owned(),
        crate::model::ResourceKind::Color => "color".to_owned(),
        crate::model::ResourceKind::Url => "url".to_owned(),
        crate::model::ResourceKind::Dimension => "dimension".to_owned(),
        crate::model::ResourceKind::Array(_) => "array".to_owned(),
        crate::model::ResourceKind::Template => "template".to_owned(),
        crate::model::ResourceKind::Custom(n) => n.clone(),
    }
}

/// Resolves `@ty/key` against the graph with a recursion budget: `None` on a
/// missing or mismatched target, a revisited reference, or an exhausted
/// budget. Termination is by the budget; the visited set makes a circular
/// chain resolve to nothing rather than loop.
pub fn resolve_with_fuel(
    graph: &ResourceGraph,
    ty: &str,
    keypath: &str,
    visited: &Vec<String>,
    fuel: usize,
) -> (r: Option<String>)
    requires
        graph.wf(),
    ensures
        match r {
            Some(t) => spec_resolve(graph@, ty@, keypath@, visited.deep_view(), fuel as nat)
                == Some(t@),
            None => spec_resolve(graph@, ty@, keypath@, visited.deep_view(), fuel as nat)
                is None,
        },
    decreases fuel, 0int, 0int,
{
    if fuel == 0 {
        return None;
    }
    let mut refkey: Vec<char> = Vec::new();
    push_str(&mut refkey, ty);
    refkey.push(':');
    push_str(&mut refkey, keypath);
    proof {
        assert(refkey@ =~= spec_ref_key(ty@, keypath@));
    }
    if visited_contains(visited, &refkey) {
        return None;
    }
    let key = ResourceKey::from_path(keypath);
    match graph.get_all(&key) {
        None => None,
        Some(nodes) => {
            if nodes.len() == 0 {
                return None;
            }
            let kn = kind_name(&nodes[0].kind);
            if !crate::text::str_eq(kn.as_str(), ty) {
                return None;
            }
            proof {
                assert(nodes@.map_values(|x: crate::model::ResourceNode| x@)[0]
                    == nodes@[0]@);
            }
            let mut v2 = clone_visited(visited);
            v2.push(chars_to_string(&refkey));
            proof {
                assert(v2.deep_view() =~= visited.deep_view().push(
                    spec_ref_key(ty@, keypath@),
                ));
            }
            extract_with_fuel(graph, &nodes[0].value, &v2, fuel - 1)
        },
    }
}

/// Resolves a value to its text with a recursion budget.
pub fn extract_with_fuel(
    graph: &ResourceGraph,
    value: &crate::model::ResourceValue,
    visited: &Vec<String>,
    fuel: usize,
) -> (r: Option<String>)
    requires
        graph.wf(),
    ensures
        match r {
            Some(t) => spec_extract(graph@, value@, visited.deep_view(), fuel as nat) == Some(
                t@,
            ),
            None => spec_extract(graph@, value@, visited.deep_view(), fuel as nat) is None,
        },
    decreases fuel, 2int, 0int,
{
    match value {
        crate::model::ResourceValue::String(s) => Some(s.clone()),
        crate::model::ResourceValue::Reference { resource_type, key } => resolve_with_fuel(
            graph,
            resource_type.as_str(),
            key.as_str(),
            visited,
            fuel,
        ),
        crate::model::ResourceValue::InterpolatedString(parts) => {
            Some(resolve_parts_with_fuel(graph, parts, visited, fuel))
        },
        _ => None,
    }
}

/// Resolves an interpolation's segments to one text with a recursion budget:
/// a reference that resolves to nothing is substituted by its `@key`
/// placeholder.
pub fn resolve_parts_with_fuel(
    graph: &ResourceGraph,
    parts: &Vec<crate::model::InterpolationPart>,
    visited: &Vec<String>,
    fuel: usize,
) -> (r: String)
    requires
        graph.wf(),
    ensures
        r@ == spec_resolve_parts(
            graph@,
            parts@.map_values(|p: crate::model::InterpolationPart| p@),
            visited.deep_view(),
            fuel as nat,
        ),
    decreases fuel, 1int, parts@.len(),
{
    let ghost pv = parts@.map_values(|p: crate::model::InterpolationPart| p@);
    let n = parts.len();
    let mut out: Vec<char> = Vec::new();
    let mut i: usize = 0;
    proof {
        assert(pv.skip(0) =~= pv);
        assert(out@ + spec_resolve_parts(graph@, pv, visited.deep_view(), fuel as nat)
            =~= spec_resolve_parts(graph@, pv, visited.deep_view(), fuel as nat));
    }
    while i < n
        invariant
            n == parts@.len(),
            pv == parts@.map_values(|p: crate::model::InterpolationPart| p@),
            graph.wf(),
            i <= n,
            spec_resolve_parts(graph@, pv, visited.deep_view(), fuel as nat) == out@
                + spec_resolve_parts(
                graph@,
                pv.skip(i as int),
                visited.deep_view(),
                fuel as nat,
            ),
        decreases n - i,
    {
        proof {
            assert(pv.skip(i as int)[0] == pv[i as int]);
            assert(pv[i as int] == parts@[i as int]@);
            assert(pv.skip(i as int).drop_first() =~= pv.skip(i + 1));
        }
        match &parts[i] {
            crate::model::InterpolationPart::Text(t) => {
                push_str(&mut out, t.as_str());
            },
            crate::model::InterpolationPart::Reference { resource_type, key } => {
                match resolve_with_fuel(
                    graph,
                    resource_type.as_str(),
                    key.as_str(),
                    visited,
                    fuel,
                ) {
                    Some(t) => {
                        push_str(&mut out, t.as_str());
                    },
                    None => {
                        out.push('@');
                        push_str(&mut out, key.as_str());
                    },
                }
            },
        }
        i = i + 1;
    }
    proof {
        assert(pv.skip(n as int) =~= Seq::<InterpolationPartView>::empty());
        assert(out@ + Seq::<char>::empty() =~= out@);
    }
    chars_to_string(&out)
}

/// Resolves a value against the graph with a budget that the graph's own key
/// count makes sufficient: every successful hop visits a new key.
pub fn resolve_string_value(graph: &ResourceGraph, ty: &str, keypath: &str) -> (r: Option<String>)
    requires
        graph.wf(),
    ensures
        match r {
            Some(t) => spec_resolve(graph@, ty@, keypath@, Seq::empty(), graph@.len()) == Some(
                t@,
            ),
            None => spec_resolve(graph@, ty@, keypath@, Seq::empty(), graph@.len()) is None,
        },
{
    let fuel = graph.len();
    let visited: Vec<String> = Vec::new();
    proof {
        assert(visited.deep_view() =~= Seq::<Seq<char>>::empty());
    }
    resolve_with_fuel(graph, ty, keypath, &visited, fuel)
}

/// The emitted path of a reference target: namespace segments as modules, the
/// leaf as an upper-case constant, optionally under a crate prefix.
pub open spec fn spec_reference_path(
    ty: Seq<char>,
    keypath: Seq<char>,
    use_crate_prefix: bool,
) -> Seq<char> {
    let prefix: Seq<char> = if use_crate_prefix {
        "crate::"@ + ty
    } else {
        ty
    };
    let mods = spec_path_namespace(keypath).map_values(|s: Seq<char>| spec_sanitize(s));
    let leaf = spec_upper(spec_sanitize(spec_path_name(keypath)));
    if mods.len() == 0 {
        prefix + "::"@ + leaf
    } else {
        prefix + "::"@ + spec_join_colons(mods) + "::"@ + leaf
    }
}

/// Segments joined with `::`.
pub open spec fn spec_join_colons(parts: Seq<Seq<char>>) -> Seq<char>
    decreases parts.len(),
{
    if parts.len() == 0 {
        Seq::empty()
    } else if parts.len() == 1 {
        parts[0]
    } else {
        spec_join_colons(parts.drop_last()) + "::"@ + parts.last()
    }
}

/// Renders the emitted path of a reference target, such as the `ty::ns::NAME`
/// constant a pure reference compiles to.
pub fn resolve_reference_path(resource_type: &str, key: &str, use_crate_prefix: bool) -> (r:
    String)
    ensures
        r@ == spec_reference_path(resource_type@, key@, use_crate_prefix),
{
    let mut out: Vec<char> = Vec::new();
    if use_crate_prefix {
        push_str(&mut out, "crate::");
    }
    push_str(&mut out, resource_type);
    push_str(&mut out, "::");
    let chars = str_to_chars(key);
    let mut parts = crate::key::split_nonempty(&chars);
    let ghost segs = crate::key::spec_path_segments(key@);
    if parts.len() == 0 {
        let leafc = str_to_chars("");
        let san = crate::text::sanitize_chars(&leafc);
        let upper = crate::text::to_upper_chars(&san);
        push_chars(&mut out, &upper);
        proof {
            reveal_strlit("");
            assert(""@ =~= Seq::<char>::empty());
            assert(spec_sanitize(Seq::<char>::empty()) =~= Seq::<char>::empty());
            assert(spec_upper(Seq::<char>::empty()) =~= Seq::<char>::empty());
            assert(spec_path_namespace(key@).map_values(|s: Seq<char>| spec_sanitize(s)).len()
                == 0);
            assert(out@ =~= spec_reference_path(resource_type@, key@, use_crate_prefix));
        }
        return chars_to_string(&out);
    }
    let leaf = parts.pop().unwrap();
    let ghost mods = spec_path_namespace(key@).map_values(|s: Seq<char>| spec_sanitize(s));
    proof {
        assert(parts.deep_view() =~= spec_path_namespace(key@));
    }
    let n = parts.len();
    let mut i: usize = 0;
    let ghost mid = out@;
    while i < n
        invariant
            n == parts@.len(),
            parts.deep_view() == spec_path_namespace(key@),
            mods == spec_path_namespace(key@).map_values(|s: Seq<char>| spec_sanitize(s)),
            i <= n,
            i == 0 ==> out@ == mid,
            i > 0 ==> out@ == mid + spec_join_colons(mods.take(i as int)),
        decreases n - i,
    {
        if i > 0 {
            push_str(&mut out, "::");
        }
        let segc = str_to_chars(parts[i].as_str());
        let san = crate::text::sanitize_chars(&segc);
        push_chars(&mut out, &san);
        i = i + 1;
        proof {
            assert(mods[i - 1] == spec_sanitize(parts.deep_view()[i - 1]));
            assert(mods.take(i as int).drop_last() =~= mods.take(i - 1));
            assert(mods.take(i as int).last() == mods[i - 1]);
            if i > 1 {
                assert(out@ =~= mid + (spec_join_colons(mods.take(i - 1)) + "::"@ + mods[i
                    - 1]));
            }
        }
    }
    proof {
        assert(mods.take(n as int) =~= mods);
    }
    if n > 0 {
        push_str(&mut out, "::");
    }
    let leafc = str_to_chars(leaf.as_str());
    let san = crate::text::sanitize_chars(&leafc);
    let upper = crate::text::to_upper_chars(&san);
    push_chars(&mut out, &upper);
    proof {
        assert(leaf@ == spec_path_name(key@));
        assert(out@ =~= spec_reference_path(resource_type@, key@, use_crate_prefix));
    }
    chars_to_string(&out)
}


/// A reference already on the resolution path resolves to nothing: a circular
/// chain terminates and yields the placeholder substitution instead of
/// looping.
pub proof fn lemma_cycle_resolves_to_none(
    g: Seq<(ResourceKeyView, Seq<crate::model::ResourceNodeView>)>,
    ty: Seq<char>,
    keypath: Seq<char>,
    visited: Seq<Seq<char>>,
    fuel: nat,
)
    requires
        visited.contains(spec_ref_key(ty, keypath)),
    ensures
        spec_resolve(g, ty, keypath, visited, fuel) is None,
{
}


/// The references a value carries: the target of a pure reference, or each
/// reference embedded in an interpolated string.
pub open spec fn spec_part_refs(parts: Seq<InterpolationPartView>) -> Seq<(Seq<char>, Seq<char>)>
    decreases parts.len(),
{
    if parts.len() == 0 {
        Seq::empty()
    } else {
        (match parts[0] {
            InterpolationPartView::Reference { resource_type, key } => seq![(resource_type, key)],
            InterpolationPartView::Text(_) => Seq::empty(),
        }) + spec_part_refs(parts.drop_first())
    }
}

/// The references a value carries.
pub open spec fn spec_value_refs(v: ResourceValueView) -> Seq<(Seq<char>, Seq<char>)> {
    match v {
        ResourceValueView::Reference { resource_type, key } => seq![(resource_type, key)],
        ResourceValueView::InterpolatedString(parts) => spec_part_refs(parts),
        _ => Seq::empty(),
    }
}

/// Whether a reference has a target: its key path is present and the primary
/// definition there has the referenced kind.
pub open spec fn spec_ref_ok(
    g: Seq<(ResourceKeyView, Seq<crate::model::ResourceNodeView>)>,
    ty: Seq<char>,
    keypath: Seq<char>,
) -> bool {
    let kv = ResourceKeyView {
        namespace: spec_path_namespace(keypath),
        name: spec_path_name(keypath),
    };
    match spec_graph_lookup(g, kv) {
        Some(nodes) => nodes.len() > 0 && spec_kind_name(nodes[0].kind) == ty,
        None => false,
    }
}

/// The message reported for one unresolved reference.
pub open spec fn spec_unresolved_msg(
    holder_kind: Seq<char>,
    holder: Seq<char>,
    ty: Seq<char>,
    keypath: Seq<char>,
) -> Seq<char> {
    "Unresolved reference in "@ + holder_kind + seq!['.'] + holder + ": @"@ + ty + seq!['/']
        + keypath + " does not exist"@
}

/// The messages for a holder's unresolved references, in order.
pub open spec fn spec_msgs_for(
    g: Seq<(ResourceKeyView, Seq<crate::model::ResourceNodeView>)>,
    holder_kind: Seq<char>,
    holder: Seq<char>,
    refs: Seq<(Seq<char>, Seq<char>)>,
) -> Seq<Seq<char>>
    decreases refs.len(),
{
    if refs.len() == 0 {
        Seq::empty()
    } else {
        (if spec_ref_ok(g, refs[0].0, refs[0].1) {
            Seq::empty()
        } else {
            seq![spec_unresolved_msg(holder_kind, holder, refs[0].0, refs[0].1)]
        }) + spec_msgs_for(g, holder_kind, holder, refs.drop_first())
    }
}

/// The reference-integrity report: for each key in order, the unresolved
/// references of its primary definition.
pub open spec fn spec_validate_references(
    g: Seq<(ResourceKeyView, Seq<crate::model::ResourceNodeView>)>,
    i: int,
) -> Seq<Seq<char>>
    decreases g.len() - i,
{
    if i < 0 || i >= g.len() {
        Seq::empty()
    } else {
        (if g[i].1.len() > 0 {
            spec_msgs_for(
                g,
                spec_kind_name(g[i].1[0].kind),
                spec_full_name(g[i].0.namespace, g[i].0.name),
                spec_value_refs(g[i].1[0].value),
            )
        } else {
            Seq::empty()
        }) + spec_validate_references(g, i + 1)
    }
}

/// Collects the references a value carries.
fn collect_value_refs(v: &crate::model::ResourceValue) -> (r: Vec<(String, String)>)
    ensures
        r@.map_values(|p: (String, String)| (p.0@, p.1@)) == spec_value_refs(v@),
{
    let mut out: Vec<(String, String)> = Vec::new();
    match v {
        crate::model::ResourceValue::Reference { resource_type, key } => {
            out.push((resource_type.clone(), key.clone()));
            proof {
                assert(out@.map_values(|p: (String, String)| (p.0@, p.1@)) =~= spec_value_refs(
                    v@,
                ));
            }
        },
        crate::model::ResourceValue::InterpolatedString(parts) => {
            let ghost pv = parts@.map_values(|p: crate::model::InterpolationPart| p@);
            let n = parts.len();
            let mut i: usize = 0;
            proof {
                assert(pv.skip(0) =~= pv);
                assert(out@.map_values(|p: (String, String)| (p.0@, p.1@)) =~= Seq::<
                    (Seq<char>, Seq<char>),
                >::empty());
            }
            while i < n
                invariant
                    n == parts@.len(),
                    pv == parts@.map_values(|p: crate::model::InterpolationPart| p@),
                    i <= n,
                    spec_part_refs(pv) == out@.map_values(|p: (String, String)| (p.0@, p.1@))
                        + spec_part_refs(pv.skip(i as int)),
                decreases n - i,
            {
                proof {
                    assert(pv.skip(i as int)[0] == pv[i as int]);
                    assert(pv[i as int] == parts@[i as int]@);
                    assert(pv.skip(i as int).drop_first() =~= pv.skip(i + 1));
                }
                match &parts[i] {
                    crate::model::InterpolationPart::Reference { resource_type, key } => {
                        let ghost oprev = out@;
                        out.push((resource_type.clone(), key.clone()));
                        proof {
                            assert(out@.map_values(|p: (String, String)| (p.0@, p.1@))
                                =~= oprev.map_values(|p: (String, String)| (p.0@, p.1@)).push(
                                (out@.last().0@, out@.last().1@),
                            ));
                            assert(oprev.map_values(|p: (String, String)| (p.0@, p.1@)) + (seq![
                                (out@.last().0@, out@.last().1@),
                            ] + spec_part_refs(pv.skip(i + 1))) =~= out@.map_values(
                                |p: (String, String)| (p.0@, p.1@),
                            ) + spec_part_refs(pv.skip(i + 1)));
                        }
                    },
                    crate::model::InterpolationPart::Text(_) => {
                        proof {
                            assert(Seq::<(Seq<char>, Seq<char>)>::empty() + spec_part_refs(
                                pv.skip(i + 1),
                            ) =~= spec_part_refs(pv.skip(i + 1)));
                        }
                    },
                }
                i = i + 1;
            }
            proof {
                assert(pv.skip(n as int) =~= Seq::<InterpolationPartView>::empty());
                assert(out@.map_values(|p: (String, String)| (p.0@, p.1@)) + Seq::<
                    (Seq<char>, Seq<char>),
                >::empty() =~= out@.map_values(|p: (String, String)| (p.0@, p.1@)));
            }
        },
        _ => {
            proof {
                assert(out@.map_values(|p: (String, String)| (p.0@, p.1@)) =~= Seq::<
                    (Seq<char>, Seq<char>),
                >::empty());
            }
        },
    }
    out
}

/// Tests whether a reference has a target of the right kind.
fn ref_ok(graph: &ResourceGraph, ty: &str, keypath: &str) -> (r: bool)
    ensures
        r == spec_ref_ok(graph@, ty@, keypath@),
{
    let key = ResourceKey::from_path(keypath);
    match graph.get_all(&key) {
        Some(nodes) => {
            if nodes.len() == 0 {
                return false;
            }
            proof {
                assert(nodes@.map_values(|x: crate::model::ResourceNode| x@)[0] == nodes@[0]@);
            }
            let kn = kind_name(&nodes[0].kind);
            crate::text::str_eq(kn.as_str(), ty)
        },
        None => false,
    }
}

/// Validates reference integrity: every reference of every primary
/// definition must name an existing target of its kind; each violation
/// yields one message naming the holder and the reference.
pub fn validate_references(graph: &ResourceGraph) -> (r: Vec<String>)
    ensures
        r.deep_view() == spec_validate_references(graph@, 0),
{
    let ghost gv = graph@;
    let entries = graph.nodes();
    let n = entries.len();
    let mut out: Vec<String> = Vec::new();
    let mut i: usize = 0;
    proof {
        assert(out.deep_view() =~= Seq::<Seq<char>>::empty());
        assert(out.deep_view() + spec_validate_references(gv, 0) =~= spec_validate_references(
            gv,
            0,
        ));
    }
    while i < n
        invariant
            n == entries@.len(),
            gv == crate::graph::spec_graph_view(entries@),
            gv == graph@,
            i <= n,
            spec_validate_references(gv, 0) == out.deep_view() + spec_validate_references(
                gv,
                i as int,
            ),
        decreases n - i,
    {
        proof {
            assert(gv[i as int] == crate::graph::spec_entry_view(entries@[i as int]));
        }
        let entry = &entries[i];
        if entry.1.len() > 0 {
            proof {
                assert(gv[i as int].1[0] == entry.1@[0]@);
            }
            let holder_kind = kind_name(&entry.1[0].kind);
            let holder = entry.0.full_name();
            let refs = collect_value_refs(&entry.1[0].value);
            let ghost rv = refs@.map_values(|p: (String, String)| (p.0@, p.1@));
            let m = refs.len();
            let mut j: usize = 0;
            let ghost obase = out.deep_view();
            proof {
                assert(rv.skip(0) =~= rv);
                assert(obase + spec_msgs_for(gv, holder_kind@, holder@, rv) =~= obase
                    + spec_msgs_for(gv, holder_kind@, holder@, rv));
            }
            while j < m
                invariant
                    m == refs@.len(),
                    rv == refs@.map_values(|p: (String, String)| (p.0@, p.1@)),
                    gv == graph@,
                    j <= m,
                    obase + spec_msgs_for(gv, holder_kind@, holder@, rv) == out.deep_view()
                        + spec_msgs_for(gv, holder_kind@, holder@, rv.skip(j as int)),
                decreases m - j,
            {
                proof {
                    assert(rv.skip(j as int)[0] == rv[j as int]);
                    assert(rv[j as int] == (refs@[j as int].0@, refs@[j as int].1@));
                    assert(rv.skip(j as int).drop_first() =~= rv.skip(j + 1));
                }
                if !ref_ok(graph, refs[j].0.as_str(), refs[j].1.as_str()) {
                    let mut msg: Vec<char> = Vec::new();
                    push_str(&mut msg, "Unresolved reference in ");
                    push_str(&mut msg, holder_kind.as_str());
                    msg.push('.');
                    push_str(&mut msg, holder.as_str());
                    push_str(&mut msg, ": @");
                    push_str(&mut msg, refs[j].0.as_str());
                    msg.push('/');
                    push_str(&mut msg, refs[j].1.as_str());
                    push_str(&mut msg, " does not exist");
                    proof {
                        assert(msg@ =~= spec_unresolved_msg(
                            holder_kind@,
                            holder@,
                            rv[j as int].0,
                            rv[j as int].1,
                        ));
                    }
                    let ghost oprev = out.deep_view();
                    let ghost oprev_raw = out@;
                    out.push(chars_to_string(&msg));
                    proof {
                        assert forall|t: int|
                            0 <= t < out@.len() implies #[trigger] out.deep_view()[t] == (
                        if t < oprev_raw.len() {
                            oprev[t]
                        } else {
                            msg@
                        }) by {
                            assert(out.deep_view()[t] == out@[t]@);
                            if t < oprev_raw.len() {
                                assert(out@[t] == oprev_raw[t]);
                                assert(oprev[t] == oprev_raw[t]@);
                            }
                        }
                        assert(out.deep_view() =~= oprev.push(msg@));
                        assert(oprev + (seq![msg@] + spec_msgs_for(gv, holder_kind@, holder@,
                            rv.skip(j + 1))) =~= oprev.push(msg@) + spec_msgs_for(gv,
                            holder_kind@, holder@, rv.skip(j + 1)));
                    }
                } else {
                    proof {
                        assert(Seq::<Seq<char>>::empty() + spec_msgs_for(gv, holder_kind@,
                            holder@, rv.skip(j + 1)) =~= spec_msgs_for(gv, holder_kind@,
                            holder@, rv.skip(j + 1)));
                    }
                }
                j = j + 1;
            }
            proof {
                assert(rv.skip(m as int) =~= Seq::<(Seq<char>, Seq<char>)>::empty());
                assert(out.deep_view() + Seq::<Seq<char>>::empty() =~= out.deep_view());
                assert(spec_msgs_for(gv, holder_kind@, holder@, rv.skip(m as int)) =~= Seq::<
                    Seq<char>,
                >::empty());
            }
        }
        i = i + 1;
        proof {
            assert(spec_validate_references(gv, 0) =~= out.deep_view()
                + spec_validate_references(gv, i as int));
        }
    }
    proof {
        assert(out.deep_view() + Seq::<Seq<char>>::empty() =~= out.deep_view());
    }
    out
}

} // verus!
