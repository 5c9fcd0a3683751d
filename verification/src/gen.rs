//! Code generation: walks the graph's keys in order, emits grouping modules
//! mirroring the namespace hierarchy with each leaf's primary definition, and
//! annotates duplicated keys as deprecated — the first occurrence wins and
//! later definitions are never emitted as named entries.

use vstd::prelude::*;

use crate::graph::ResourceGraph;
use crate::key::ResourceKey;
use crate::key::ResourceKeyView;
use crate::model::ResourceNode;
use crate::model::ResourceNodeView;
use crate::model::ResourceValue;
use crate::model::ResourceValueView;
use crate::resolve::spec_resolve;
use crate::resolve::spec_resolve_parts;
use crate::text::chars_to_string;
use crate::text::push_chars;
use crate::text::push_str;
use crate::text::spec_sanitize;
use crate::text::spec_spaces;
use crate::types::spec_const_line;
use crate::types::spec_number_emit;
use crate::types::spec_quoted;
use crate::types::spec_template_emit;

verus! {

/// Emitted text of one plain string constant.
pub fn emit_string_constant(code: &mut Vec<char>, const_name: &str, value: &str, indent: usize)
    ensures
        final(code)@ == old(code)@ + spec_const_line(
            indent as nat,
            const_name@,
            "&str"@,
            spec_quoted(value@),
        ),
{
    let q = crate::types::quoted_chars(value);
    crate::types::push_const_line(code, indent, const_name, "&str", &q);
}

/// Emitted text of a constant that names another resource's emitted constant.
pub fn emit_reference_constant(
    code: &mut Vec<char>,
    const_name: &str,
    resource_type: &str,
    key: &str,
    indent: usize,
)
    ensures
        final(code)@ == old(code)@ + spec_const_line(
            indent as nat,
            const_name@,
            "&str"@,
            crate::resolve::spec_reference_path(resource_type@, key@, true),
        ),
{
    let target = crate::resolve::resolve_reference_path(resource_type, key, true);
    let tc = crate::text::str_to_chars(target.as_str());
    crate::types::push_const_line(code, indent, const_name, "&str", &tc);
}

/// The deprecation annotation placed above a duplicated key's constant,
/// quoting the duplicate warning's message.
pub open spec fn spec_dup_annotation(
    indent: nat,
    key: ResourceKeyView,
    nodes: Seq<ResourceNodeView>,
) -> Seq<char> {
    spec_spaces(indent) + "#[deprecated(note = \""@ + crate::types::spec_escape_text(
        crate::analysis::spec_dup_message(key, nodes),
    ) + "\")]\n"@
}

/// The emitted code of one leaf: its primary definition's constant or
/// callable, resolved where the value references other resources, under a
/// deprecation annotation when later definitions were dropped.
pub open spec fn spec_emit_leaf(
    g: Seq<(ResourceKeyView, Seq<ResourceNodeView>)>,
    key: ResourceKeyView,
    nodes: Seq<ResourceNodeView>,
    indent: nat,
) -> Seq<char> {
    let ann: Seq<char> = if nodes.len() > 1 {
        spec_dup_annotation(indent, key, nodes)
    } else {
        Seq::empty()
    };
    let body: Seq<char> = if nodes.len() == 0 {
        Seq::empty()
    } else {
        match nodes[0].value {
            ResourceValueView::String(s) => spec_const_line(
                indent,
                key.name,
                "&str"@,
                spec_quoted(s),
            ),
            ResourceValueView::Reference { resource_type, key: target } => {
                match spec_resolve(g, resource_type, target, Seq::empty(), g.len()) {
                    Some(t) => spec_const_line(indent, key.name, "&str"@, spec_quoted(t)),
                    None => spec_const_line(
                        indent,
                        key.name,
                        "&str"@,
                        crate::resolve::spec_reference_path(resource_type, target, true),
                    ),
                }
            },
            ResourceValueView::InterpolatedString(parts) => spec_const_line(
                indent,
                key.name,
                "&str"@,
                spec_quoted(spec_resolve_parts(g, parts, Seq::empty(), g.len())),
            ),
            ResourceValueView::Number(nv) => spec_number_emit(indent, key.name, nv),
            ResourceValueView::Bool(b) => spec_const_line(indent, key.name, "bool"@, (if b {
                "true"@
            } else {
                "false"@
            })),
            ResourceValueView::Color(c) => spec_const_line(
                indent,
                key.name,
                "&str"@,
                spec_quoted(c),
            ),
            ResourceValueView::Url(u) => spec_const_line(indent, key.name, "&str"@, spec_quoted(u)),
            ResourceValueView::Dimension(d) => spec_const_line(
                indent,
                key.name,
                "&str"@,
                spec_quoted(d),
            ),
            ResourceValueView::Template { text, params } => spec_template_emit(
                indent,
                key.name,
                text,
                params,
            ),
            _ => Seq::empty(),
        }
    };
    ann + body
}

/// Emits one leaf.
fn emit_leaf(
    out: &mut Vec<char>,
    graph: &ResourceGraph,
    key: &ResourceKey,
    nodes: &Vec<ResourceNode>,
    indent: usize,
)
    requires
        graph.wf(),
    ensures
        final(out)@ == old(out)@ + spec_emit_leaf(
            graph@,
            key@,
            nodes@.map_values(|n: ResourceNode| n@),
            indent as nat,
        ),
{
    let ghost nv = nodes@.map_values(|n: ResourceNode| n@);
    if nodes.len() > 1 {
        crate::text::push_spaces(out, indent);
        push_str(out, "#[deprecated(note = \"");
        let message = crate::analysis::dup_message(key, nodes);
        crate::types::push_escaped(out, message.as_str());
        push_str(out, "\")]\n");
        proof {
            assert(out@ =~= old(out)@ + spec_dup_annotation(indent as nat, key@, nv));
        }
    }
    if nodes.len() == 0 {
        proof {
            assert(out@ =~= old(out)@ + spec_emit_leaf(graph@, key@, nv, indent as nat));
        }
        return;
    }
    proof {
        assert(nv[0] == nodes@[0]@);
    }
    let ghost mid = out@;
    match &nodes[0].value {
        ResourceValue::String(s) => {
            emit_string_constant(out, key.name.as_str(), s.as_str(), indent);
        },
        ResourceValue::Reference { resource_type, key: target } => {
            match crate::resolve::resolve_string_value(
                graph,
                resource_type.as_str(),
                target.as_str(),
            ) {
                Some(t) => {
                    emit_string_constant(out, key.name.as_str(), t.as_str(), indent);
                },
                None => {
                    emit_reference_constant(
                        out,
                        key.name.as_str(),
                        resource_type.as_str(),
                        target.as_str(),
                        indent,
                    );
                },
            }
        },
        ResourceValue::InterpolatedString(parts) => {
            let visited: Vec<String> = Vec::new();
            proof {
                assert(visited.deep_view() =~= Seq::<Seq<char>>::empty());
            }
            let t = crate::resolve::resolve_parts_with_fuel(graph, parts, &visited, graph.len());
            emit_string_constant(out, key.name.as_str(), t.as_str(), indent);
        },
        ResourceValue::Number(_) => {
            let h = crate::types::NumberTypeHandler;
            match h.emit_rust(key, &nodes[0], indent) {
                Some(code) => {
                    push_str(out, code.as_str());
                },
                None => {},
            }
        },
        ResourceValue::Bool(_) => {
            let h = crate::types::BoolType;
            match h.emit_rust(key, &nodes[0], indent) {
                Some(code) => {
                    push_str(out, code.as_str());
                },
                None => {},
            }
        },
        ResourceValue::Color(_) => {
            let h = crate::types::ColorType;
            match h.emit_rust(key, &nodes[0], indent) {
                Some(code) => {
                    push_str(out, code.as_str());
                },
                None => {},
            }
        },
        ResourceValue::Url(_) => {
            let h = crate::types::UrlType;
            match h.emit_rust(key, &nodes[0], indent) {
                Some(code) => {
                    push_str(out, code.as_str());
                },
                None => {},
            }
        },
        ResourceValue::Dimension(_) => {
            let h = crate::types::DimensionType;
            match h.emit_rust(key, &nodes[0], indent) {
                Some(code) => {
                    push_str(out, code.as_str());
                },
                None => {},
            }
        },
        ResourceValue::Template { .. } => {
            let h = crate::types::TemplateType;
            match h.emit_rust(key, &nodes[0], indent) {
                Some(code) => {
                    push_str(out, code.as_str());
                },
                None => {},
            }
        },
        _ => {},
    }
    proof {
        assert(out@ =~= old(out)@ + spec_emit_leaf(graph@, key@, nv, indent as nat));
    }
}

/// The indentation of a construct at namespace depth `m` inside the root
/// module; depths past any sane nesting stay at one level.
pub open spec fn spec_indent_of(m: nat) -> nat {
    if m < 1000000 {
        4 * (m + 1)
    } else {
        4
    }
}

/// The indentation of a construct at namespace depth `m`.
pub fn indent_of(m: usize) -> (r: usize)
    ensures
        r == spec_indent_of(m as nat),
{
    if m < 1000000 {
        4 * (m + 1)
    } else {
        4
    }
}

/// The number of leading namespace segments two paths share.
pub open spec fn spec_common_prefix(a: Seq<Seq<char>>, b: Seq<Seq<char>>) -> int
    decreases a.len(),
{
    if a.len() == 0 || b.len() == 0 {
        0
    } else if a[0] == b[0] {
        1 + spec_common_prefix(a.drop_first(), b.drop_first())
    } else {
        0
    }
}

/// The closing braces from depth `from` down to depth `to`.
pub open spec fn spec_close_mods(from: int, to: int) -> Seq<char>
    decreases from - to,
{
    if from <= to {
        Seq::empty()
    } else {
        spec_spaces(spec_indent_of((from - 1) as nat)) + "}\n"@ + spec_close_mods(from - 1, to)
    }
}

/// The opening module headers for the segments of `ns` from depth `from` on.
pub open spec fn spec_open_mods(ns: Seq<Seq<char>>, from: int) -> Seq<char>
    decreases ns.len() - from,
{
    if from < 0 || from >= ns.len() {
        Seq::empty()
    } else {
        spec_spaces(spec_indent_of(from as nat)) + "pub mod "@ + spec_sanitize(ns[from])
            + " {\n"@ + spec_open_mods(ns, from + 1)
    }
}

/// The emitted body of the namespaced module: the graph's keys in order, each
/// under the grouping modules of its namespace path.
pub open spec fn spec_emit_entries(
    g: Seq<(ResourceKeyView, Seq<ResourceNodeView>)>,
    i: int,
    prev: Seq<Seq<char>>,
) -> Seq<char>
    decreases g.len() - i,
{
    if i < 0 || i >= g.len() {
        spec_close_mods(prev.len() as int, 0)
    } else {
        let ns = g[i].0.namespace;
        let c = spec_common_prefix(prev, ns);
        spec_close_mods(prev.len() as int, c) + spec_open_mods(ns, c) + spec_emit_leaf(
            g,
            g[i].0,
            g[i].1,
            spec_indent_of(ns.len()),
        ) + spec_emit_entries(g, i + 1, ns)
    }
}

/// The namespaced module: every resource under modules mirroring its
/// namespace path, keys in order, primary definitions only.
pub open spec fn spec_r_module(g: Seq<(ResourceKeyView, Seq<ResourceNodeView>)>) -> Seq<char> {
    "pub mod r {\n"@ + spec_emit_entries(g, 0, Seq::empty()) + "}\n"@
}

/// Splitting a run of closing braces at any middle depth.
proof fn lemma_close_split(from: int, mid: int, to: int)
    requires
        to <= mid <= from,
    ensures
        spec_close_mods(from, to) == spec_close_mods(from, mid) + spec_close_mods(mid, to),
    decreases from - mid,
{
    if from == mid {
        assert(spec_close_mods(from, mid) =~= Seq::<char>::empty());
        assert(spec_close_mods(from, to) =~= spec_close_mods(from, mid) + spec_close_mods(
            mid,
            to,
        ));
    } else {
        lemma_close_split(from - 1, mid, to);
        assert(spec_close_mods(from, to) =~= spec_close_mods(from, mid) + spec_close_mods(
            mid,
            to,
        ));
    }
}

/// Builds the closing braces from depth `from` down to depth `to`.
fn closes_chunk(from: usize, to: usize) -> (r: Vec<char>)
    requires
        to <= from,
    ensures
        r@ == spec_close_mods(from as int, to as int),
{
    let mut out: Vec<char> = Vec::new();
    let mut d = from;
    proof {
        assert(out@ =~= spec_close_mods(from as int, from as int));
    }
    while d > to
        invariant
            to <= d <= from,
            out@ == spec_close_mods(from as int, d as int),
        decreases d,
    {
        d = d - 1;
        crate::text::push_spaces(&mut out, indent_of(d));
        push_str(&mut out, "}
");
        proof {
            lemma_close_split(from as int, d + 1, d as int);
            assert(spec_close_mods(d + 1, d as int) =~= spec_spaces(spec_indent_of(d as nat))
                + "}\n"@ + spec_close_mods(d as int, d as int));
            assert(spec_close_mods(d as int, d as int) =~= Seq::<char>::empty());
            assert(out@ =~= spec_close_mods(from as int, d + 1) + spec_close_mods(
                d + 1,
                d as int,
            ));
        }
    }
    out
}

/// Builds the opening module headers for the segments of `ns` from `c` on.
fn opens_chunk(ns: &Vec<String>, c: usize) -> (r: Vec<char>)
    requires
        c <= ns@.len(),
    ensures
        r@ == spec_open_mods(ns.deep_view(), c as int),
{
    let ghost nv = ns.deep_view();
    let m = ns.len();
    let mut out: Vec<char> = Vec::new();
    let mut e = c;
    while e < m
        invariant
            c <= e <= m,
            m == ns@.len(),
            nv == ns.deep_view(),
            spec_open_mods(nv, c as int) == out@ + spec_open_mods(nv, e as int),
        decreases m - e,
    {
        crate::text::push_spaces(&mut out, indent_of(e));
        push_str(&mut out, "pub mod ");
        let segc = crate::text::str_to_chars(ns[e].as_str());
        let san = crate::text::sanitize_chars(&segc);
        push_chars(&mut out, &san);
        push_str(&mut out, " {
");
        proof {
            assert(nv[e as int] == ns@[e as int]@);
        }
        e = e + 1;
        proof {
            assert(spec_open_mods(nv, c as int) =~= out@ + spec_open_mods(nv, e as int));
        }
    }
    out
}

/// Emits the namespaced `r` module from the graph: nested grouping modules
/// mirror each key's namespace path, every leaf holds its primary
/// definition's code, and duplicated keys are annotated as deprecated.
#[verifier::rlimit(100)]
#[verifier::spinoff_prover]
pub fn generate_r_module(graph: &ResourceGraph) -> (r: String)
    requires
        graph.wf(),
    ensures
        r@ == spec_r_module(graph@),
{
    let ghost gv = graph@;
    let entries = graph.nodes();
    let n = entries.len();
    let mut out: Vec<char> = Vec::new();
    push_str(&mut out, "pub mod r {
");
    let mut prev: Vec<String> = Vec::new();
    let mut i: usize = 0;
    proof {
        assert(prev.deep_view() =~= Seq::<Seq<char>>::empty());
        assert("pub mod r {\n"@ + spec_emit_entries(gv, 0, Seq::empty()) =~= out@
            + spec_emit_entries(gv, i as int, prev.deep_view()));
    }
    while i < n
        invariant
            n == entries@.len(),
            gv == crate::graph::spec_graph_view(entries@),
            gv == graph@,
            graph.wf(),
            i <= n,
            prev@.len() == prev.deep_view().len(),
            "pub mod r {\n"@ + spec_emit_entries(gv, 0, Seq::empty()) == out@
                + spec_emit_entries(gv, i as int, prev.deep_view()),
        decreases n - i,
    {
        proof {
            assert(gv[i as int] == crate::graph::spec_entry_view(entries@[i as int]));
        }
        let ns = &entries[i].0.namespace;
        let m = ns.len();
        let pl = prev.len();
        let mut c: usize = 0;
        while c < pl && c < m && crate::text::str_eq(prev[c].as_str(), ns[c].as_str())
            invariant
                pl == prev@.len(),
                m == ns@.len(),
                c <= pl,
                c <= m,
                forall|j: int| 0 <= j < c ==> prev.deep_view()[j] == ns.deep_view()[j],
            decreases pl - c,
        {
            proof {
                assert(prev.deep_view()[c as int] == prev@[c as int]@);
                assert(ns.deep_view()[c as int] == ns@[c as int]@);
            }
            c = c + 1;
        }
        proof {
            if c < pl && c < m {
                assert(prev.deep_view()[c as int] == prev@[c as int]@);
                assert(ns.deep_view()[c as int] == ns@[c as int]@);
            }
            lemma_common_prefix_exact(prev.deep_view(), ns.deep_view(), c as int);
            assert(ns.deep_view() == gv[i as int].0.namespace);
        }
        let closes = closes_chunk(pl, c);
        push_chars(&mut out, &closes);
        let opens = opens_chunk(ns, c);
        push_chars(&mut out, &opens);
        emit_leaf(&mut out, graph, &entries[i].0, &entries[i].1, indent_of(m));
        let mut new_prev: Vec<String> = Vec::new();
        let mut t: usize = 0;
        while t < m
            invariant
                m == ns@.len(),
                t <= m,
                new_prev@.len() == t,
                forall|j: int| 0 <= j < t ==> new_prev.deep_view()[j] == ns.deep_view()[j],
            decreases m - t,
        {
            new_prev.push(ns[t].clone());
            t = t + 1;
            proof {
                assert(new_prev.deep_view()[t - 1] == new_prev@[t - 1]@);
                assert(ns.deep_view()[t - 1] == ns@[t - 1]@);
            }
        }
        proof {
            assert(new_prev.deep_view() =~= ns.deep_view());
        }
        let ghost prevv = prev.deep_view();
        prev = new_prev;
        i = i + 1;
        proof {
            assert(spec_emit_entries(gv, i - 1, prevv) =~= spec_close_mods(
                prevv.len() as int,
                c as int,
            ) + spec_open_mods(gv[i - 1].0.namespace, c as int) + spec_emit_leaf(
                gv,
                gv[i - 1].0,
                gv[i - 1].1,
                spec_indent_of(gv[i - 1].0.namespace.len()),
            ) + spec_emit_entries(gv, i as int, gv[i - 1].0.namespace));
            assert("pub mod r {\n"@ + spec_emit_entries(gv, 0, Seq::empty()) =~= out@
                + spec_emit_entries(gv, i as int, prev.deep_view()));
        }
    }
    let pl = prev.len();
    let closes = closes_chunk(pl, 0);
    push_chars(&mut out, &closes);
    push_str(&mut out, "}
");
    proof {
        assert(out@ =~= spec_r_module(gv));
    }
    chars_to_string(&out)
}

/// Where segments agree below `k` and differ at `k` (or one path ends), the
/// common prefix is exactly `k`.
proof fn lemma_common_prefix_exact(a: Seq<Seq<char>>, b: Seq<Seq<char>>, k: int)
    requires
        0 <= k <= a.len(),
        0 <= k <= b.len(),
        forall|j: int| 0 <= j < k ==> a[j] == b[j],
        k < a.len() && k < b.len() ==> a[k] != b[k],
    ensures
        spec_common_prefix(a, b) == k,
    decreases k,
{
    if k > 0 {
        lemma_common_prefix_exact(a.drop_first(), b.drop_first(), k - 1);
    }
}

} // verus!
