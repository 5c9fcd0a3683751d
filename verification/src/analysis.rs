//! Validation of the resource graph: every key defined more than once yields
//! exactly one message naming the key, the definition count, the primary file
//! and the remaining files — a warning by default, or an error that halts the
//! build when duplicates are treated strictly.

use vstd::prelude::*;

use crate::graph::ResourceGraph;
use crate::key::ResourceKey;
use crate::key::ResourceKeyView;
use crate::key::spec_full_name;
use crate::model::ResourceNode;
use crate::model::ResourceNodeView;
use crate::text::chars_to_string;
use crate::text::push_chars;
use crate::text::push_str;
use crate::text::spec_dec;

verus! {

/// A validation error; strict duplicate handling produces these.
#[derive(Debug)]
pub struct AnalysisError {
    pub message: String,
    pub key: Option<ResourceKey>,
}

impl AnalysisError {
    /// Bundles a message with the key it speaks of.
    pub fn new(message: &str, key: Option<ResourceKey>) -> (r: AnalysisError)
        ensures
            r.message@ == message@,
            match (&r.key, key) {
                (Some(a), Some(b)) => a@ == b@,
                (None, None) => true,
                _ => false,
            },
    {
        AnalysisError { message: message.to_owned(), key }
    }
}

/// A validation warning; the build proceeds past these.
#[derive(Debug)]
pub struct AnalysisWarning {
    pub message: String,
    pub key: Option<ResourceKey>,
}

impl AnalysisWarning {
    /// Bundles a message with the key it speaks of.
    pub fn new(message: &str, key: Option<ResourceKey>) -> (r: AnalysisWarning)
        ensures
            r.message@ == message@,
            match (&r.key, key) {
                (Some(a), Some(b)) => a@ == b@,
                (None, None) => true,
                _ => false,
            },
    {
        AnalysisWarning { message: message.to_owned(), key }
    }
}

/// The outcome of validation: warnings allow the build to proceed, errors
/// halt it before generation.
#[derive(Debug)]
pub struct AnalysisResult {
    pub warnings: Vec<AnalysisWarning>,
    pub errors: Vec<AnalysisError>,
}

impl AnalysisResult {
    /// Whether validation found nothing to report.
    pub fn is_empty(&self) -> (r: bool)
        ensures
            r == (self.warnings@.len() == 0 && self.errors@.len() == 0),
    {
        self.warnings.len() == 0 && self.errors.len() == 0
    }
}

/// Validation options threaded through the pipeline.
#[derive(Debug, Clone, Copy, PartialEq, Eq, Structural)]
pub struct ValidationOptions {
    /// When set, duplicate definitions halt the build instead of warning.
    pub treat_duplicates_as_errors: bool,
}

impl Default for ValidationOptions {
    /// By default duplicates warn and the first definition wins.
    fn default() -> (r: ValidationOptions)
        ensures
            r.treat_duplicates_as_errors == false,
    {
        ValidationOptions { treat_duplicates_as_errors: false }
    }
}

/// A comma-joined file list.
pub open spec fn spec_join_comma(files: Seq<Seq<char>>) -> Seq<char>
    decreases files.len(),
{
    if files.len() == 0 {
        Seq::empty()
    } else if files.len() == 1 {
        files[0]
    } else {
        spec_join_comma(files.drop_last()) + ", "@ + files.last()
    }
}

/// The files of a definition list, in discovery order.
pub open spec fn spec_node_files(nodes: Seq<ResourceNodeView>) -> Seq<Seq<char>> {
    nodes.map_values(|n: ResourceNodeView| n.origin.file)
}

/// The message reported for one duplicated key: the key, how many files
/// define it, the file whose definition wins, and the others.
pub open spec fn spec_dup_message(key: ResourceKeyView, nodes: Seq<ResourceNodeView>) -> Seq<
    char,
> {
    "Duplicate resource key '"@ + spec_full_name(key.namespace, key.name)
        + "' defined in "@ + spec_dec(nodes.len()) + " files. Using '"@ + spec_node_files(
        nodes,
    )[0] + "' (first occurrence). Duplicates in: "@ + spec_join_comma(
        spec_node_files(nodes).drop_first(),
    )
}

/// The duplicate reports of a graph: one per key with more than one
/// definition, in key order.
pub open spec fn spec_dup_reports(g: Seq<(ResourceKeyView, Seq<ResourceNodeView>)>) -> Seq<
    (ResourceKeyView, Seq<char>),
>
    decreases g.len(),
{
    if g.len() == 0 {
        Seq::empty()
    } else {
        let rest = spec_dup_reports(g.drop_first());
        if g[0].1.len() > 1 {
            seq![(g[0].0, spec_dup_message(g[0].0, g[0].1))] + rest
        } else {
            rest
        }
    }
}

/// The reports of a warning list.
pub open spec fn spec_warnings_view(ws: Seq<AnalysisWarning>) -> Seq<
    (Option<ResourceKeyView>, Seq<char>),
> {
    ws.map_values(
        |w: AnalysisWarning|
            (
                match w.key {
                    Some(k) => Some(k@),
                    None => None,
                },
                w.message@,
            ),
    )
}

/// The reports of an error list.
pub open spec fn spec_errors_view(es: Seq<AnalysisError>) -> Seq<
    (Option<ResourceKeyView>, Seq<char>),
> {
    es.map_values(
        |e: AnalysisError|
            (
                match e.key {
                    Some(k) => Some(k@),
                    None => None,
                },
                e.message@,
            ),
    )
}

/// The duplicate reports wrapped as keyed reports.
pub open spec fn spec_keyed_reports(rs: Seq<(ResourceKeyView, Seq<char>)>) -> Seq<
    (Option<ResourceKeyView>, Seq<char>),
> {
    rs.map_values(|r: (ResourceKeyView, Seq<char>)| (Some(r.0), r.1))
}

/// Builds the message for one duplicated key.
pub fn dup_message(key: &ResourceKey, nodes: &Vec<ResourceNode>) -> (r: String)
    requires
        nodes@.len() > 1,
    ensures
        r@ == spec_dup_message(key@, nodes@.map_values(|n: ResourceNode| n@)),
{
    let ghost nv = nodes@.map_values(|n: ResourceNode| n@);
    let mut out: Vec<char> = Vec::new();
    push_str(&mut out, "Duplicate resource key '");
    let full = key.full_name();
    push_str(&mut out, full.as_str());
    push_str(&mut out, "' defined in ");
    let d = crate::text::dec_chars(nodes.len() as u64);
    push_chars(&mut out, &d);
    push_str(&mut out, " files. Using '");
    push_str(&mut out, nodes[0].origin.file.as_str());
    proof {
        assert(spec_node_files(nv)[0] == nodes@[0]@.origin.file);
    }
    push_str(&mut out, "' (first occurrence). Duplicates in: ");
    let n = nodes.len();
    let mut i: usize = 1;
    let ghost mid = out@;
    while i < n
        invariant
            n == nodes@.len(),
            nv == nodes@.map_values(|n: ResourceNode| n@),
            1 <= i <= n,
            out@ == mid + spec_join_comma(spec_node_files(nv).subrange(1, i as int)),
        decreases n - i,
    {
        if i > 1 {
            push_str(&mut out, ", ");
        }
        push_str(&mut out, nodes[i].origin.file.as_str());
        i = i + 1;
        proof {
            let fs = spec_node_files(nv);
            assert(fs[i - 1] == nodes@[i - 1]@.origin.file);
            assert(fs.subrange(1, i as int).drop_last() =~= fs.subrange(1, i - 1));
            assert(fs.subrange(1, i as int).last() == fs[i - 1]);
            assert(out@ =~= mid + spec_join_comma(fs.subrange(1, i as int)));
        }
    }
    proof {
        assert(spec_node_files(nv).subrange(1, n as int) =~= spec_node_files(nv).drop_first());
        assert(out@ =~= spec_dup_message(key@, nv));
    }
    chars_to_string(&out)
}

/// Validates the graph under the default options: duplicates warn.
pub fn validate(graph: &ResourceGraph) -> (r: AnalysisResult)
    ensures
        spec_warnings_view(r.warnings@) == spec_keyed_reports(spec_dup_reports(graph@)),
        r.errors@.len() == 0,
{
    validate_with_options(graph, ValidationOptions { treat_duplicates_as_errors: false })
}

/// Validates the graph: for every key with more than one definition, one
/// report naming the key, the definition count, the primary file and the
/// other files — warnings by default, errors under strict duplicate
/// handling.
pub fn validate_with_options(graph: &ResourceGraph, options: ValidationOptions) -> (r:
    AnalysisResult)
    ensures
        !options.treat_duplicates_as_errors ==> spec_warnings_view(r.warnings@)
            == spec_keyed_reports(spec_dup_reports(graph@)) && r.errors@.len() == 0,
        options.treat_duplicates_as_errors ==> spec_errors_view(r.errors@)
            == spec_keyed_reports(spec_dup_reports(graph@)) && r.warnings@.len() == 0,
{
    let ghost gv = graph@;
    let entries = graph.nodes();
    let n = entries.len();
    let mut warnings: Vec<AnalysisWarning> = Vec::new();
    let mut errors: Vec<AnalysisError> = Vec::new();
    let mut i: usize = 0;
    proof {
        assert(gv.skip(0) =~= gv);
        assert(spec_warnings_view(warnings@) =~= Seq::<
            (Option<ResourceKeyView>, Seq<char>),
        >::empty());
        assert(spec_errors_view(errors@) =~= Seq::<
            (Option<ResourceKeyView>, Seq<char>),
        >::empty());
    }
    while i < n
        invariant
            n == entries@.len(),
            gv == crate::graph::spec_graph_view(entries@),
            gv == graph@,
            i <= n,
            !options.treat_duplicates_as_errors ==> errors@.len() == 0 && spec_keyed_reports(
                spec_dup_reports(gv),
            ) == spec_warnings_view(warnings@) + spec_keyed_reports(
                spec_dup_reports(gv.skip(i as int)),
            ),
            options.treat_duplicates_as_errors ==> warnings@.len() == 0 && spec_keyed_reports(
                spec_dup_reports(gv),
            ) == spec_errors_view(errors@) + spec_keyed_reports(
                spec_dup_reports(gv.skip(i as int)),
            ),
        decreases n - i,
    {
        proof {
            assert(gv.skip(i as int)[0] == gv[i as int]);
            assert(gv[i as int] == crate::graph::spec_entry_view(entries@[i as int]));
            assert(gv.skip(i as int).drop_first() =~= gv.skip(i + 1));
        }
        let entry = &entries[i];
        if entry.1.len() > 1 {
            let message = dup_message(&entry.0, &entry.1);
            let key_copy = ResourceKey { namespace: entry.0.namespace.clone(), name: entry.0.name.clone() };
            proof {
                assert(key_copy@ == entry.0@) by {
                    assert(key_copy.namespace@ == entry.0.namespace@);
                    assert(key_copy.namespace.deep_view() =~= entry.0.namespace.deep_view());
                }
            }
            if options.treat_duplicates_as_errors {
                let ghost eprev = errors@;
                errors.push(AnalysisError { message, key: Some(key_copy) });
                proof {
                    assert(spec_errors_view(errors@) =~= spec_errors_view(eprev).push(
                        (Some(entries@[i as int].0@), errors@.last().message@),
                    ));
                    assert(spec_errors_view(eprev) + (seq![
                        (
                            Some::<ResourceKeyView>(entries@[i as int].0@),
                            errors@.last().message@,
                        ),
                    ] + spec_keyed_reports(spec_dup_reports(gv.skip(i + 1)))) =~= (
                    spec_errors_view(eprev).push(
                        (Some(entries@[i as int].0@), errors@.last().message@),
                    )) + spec_keyed_reports(spec_dup_reports(gv.skip(i + 1))));
                    assert(spec_keyed_reports(
                        seq![(gv[i as int].0, spec_dup_message(gv[i as int].0, gv[i as int].1))]
                            + spec_dup_reports(gv.skip(i + 1)),
                    ) =~= seq![
                        (
                            Some::<ResourceKeyView>(entries@[i as int].0@),
                            errors@.last().message@,
                        ),
                    ] + spec_keyed_reports(spec_dup_reports(gv.skip(i + 1))));
                }
            } else {
                let ghost wprev = warnings@;
                warnings.push(AnalysisWarning { message, key: Some(key_copy) });
                proof {
                    assert(spec_warnings_view(warnings@) =~= spec_warnings_view(wprev).push(
                        (Some(entries@[i as int].0@), warnings@.last().message@),
                    ));
                    assert(spec_warnings_view(wprev) + (seq![
                        (
                            Some::<ResourceKeyView>(entries@[i as int].0@),
                            warnings@.last().message@,
                        ),
                    ] + spec_keyed_reports(spec_dup_reports(gv.skip(i + 1)))) =~= (
                    spec_warnings_view(wprev).push(
                        (Some(entries@[i as int].0@), warnings@.last().message@),
                    )) + spec_keyed_reports(spec_dup_reports(gv.skip(i + 1))));
                    assert(spec_keyed_reports(
                        seq![(gv[i as int].0, spec_dup_message(gv[i as int].0, gv[i as int].1))]
                            + spec_dup_reports(gv.skip(i + 1)),
                    ) =~= seq![
                        (
                            Some::<ResourceKeyView>(entries@[i as int].0@),
                            warnings@.last().message@,
                        ),
                    ] + spec_keyed_reports(spec_dup_reports(gv.skip(i + 1))));
                }
            }
        }
        i = i + 1;
    }
    proof {
        assert(gv.skip(n as int) =~= Seq::<(ResourceKeyView, Seq<ResourceNodeView>)>::empty());
        if options.treat_duplicates_as_errors {
            assert(spec_errors_view(errors@) + Seq::<
                (Option<ResourceKeyView>, Seq<char>),
            >::empty() =~= spec_errors_view(errors@));
        } else {
            assert(spec_warnings_view(warnings@) + Seq::<
                (Option<ResourceKeyView>, Seq<char>),
            >::empty() =~= spec_warnings_view(warnings@));
        }
    }
    AnalysisResult { warnings, errors }
}


/// The build errors of one declaration: an explicitly typed numeric literal
/// that its type refuses yields the validation message.
pub open spec fn spec_resource_number_errors(r: crate::parse::ParsedResourceView) -> Seq<
    Seq<char>,
> {
    match r.value {
        crate::parse::ScalarValueView::Number { value, explicit_type } => match explicit_type {
            Some(t) => match crate::number::spec_parse_number(value, Some(t)) {
                Err(m) => seq![m],
                Ok(_) => Seq::empty(),
            },
            None => Seq::empty(),
        },
        _ => Seq::empty(),
    }
}

/// The typed-literal errors of one file's declarations, in order.
pub open spec fn spec_file_number_errors(
    rs: Seq<crate::parse::ParsedResourceView>,
    i: int,
) -> Seq<Seq<char>>
    decreases rs.len() - i,
{
    if i < 0 || i >= rs.len() {
        Seq::empty()
    } else {
        spec_resource_number_errors(rs[i]) + spec_file_number_errors(rs, i + 1)
    }
}

/// The typed-literal errors of a batch of parsed files, in order.
pub open spec fn spec_number_errors(
    fs: Seq<crate::parse::ParsedResourceFileView>,
    i: int,
) -> Seq<Seq<char>>
    decreases fs.len() - i,
{
    if i < 0 || i >= fs.len() {
        Seq::empty()
    } else {
        spec_file_number_errors(fs[i].resources, 0) + spec_number_errors(fs, i + 1)
    }
}

/// Validates every explicitly typed numeric literal against its type's range:
/// each literal that does not fit yields one error naming the literal and the
/// type, and the build halts before generation.
pub fn validate_typed_literals(files: &Vec<crate::parse::ParsedResourceFile>) -> (r: Vec<
    AnalysisError,
>)
    ensures
        spec_errors_view(r@) == spec_number_errors(
            files@.map_values(|f: crate::parse::ParsedResourceFile| f@),
            0,
        ).map_values(|m: Seq<char>| (None::<ResourceKeyView>, m)),
{
    let ghost fv = files@.map_values(|f: crate::parse::ParsedResourceFile| f@);
    let n = files.len();
    let mut out: Vec<AnalysisError> = Vec::new();
    let mut i: usize = 0;
    proof {
        assert(spec_errors_view(out@) =~= Seq::<(Option<ResourceKeyView>, Seq<char>)>::empty());
        assert(spec_number_errors(fv, 0).map_values(|m: Seq<char>| (None::<ResourceKeyView>, m))
            =~= spec_errors_view(out@) + spec_number_errors(fv, 0).map_values(
            |m: Seq<char>| (None::<ResourceKeyView>, m),
        ));
    }
    while i < n
        invariant
            n == files@.len(),
            fv == files@.map_values(|f: crate::parse::ParsedResourceFile| f@),
            i <= n,
            spec_number_errors(fv, 0).map_values(|m: Seq<char>| (None::<ResourceKeyView>, m))
                == spec_errors_view(out@) + spec_number_errors(fv, i as int).map_values(
                |m: Seq<char>| (None::<ResourceKeyView>, m),
            ),
        decreases n - i,
    {
        proof {
            assert(fv[i as int] == files@[i as int]@);
        }
        let ghost rv = fv[i as int].resources;
        let m = files[i].resources.len();
        let mut j: usize = 0;
        proof {
            assert(rv.len() == m);
        }
        while j < m
            invariant
                m == files@[i as int].resources@.len(),
                i < n,
                n == files@.len(),
                fv == files@.map_values(|f: crate::parse::ParsedResourceFile| f@),
                rv == fv[i as int].resources,
                j <= m,
                spec_number_errors(fv, 0).map_values(
                    |m: Seq<char>| (None::<ResourceKeyView>, m),
                ) == spec_errors_view(out@) + spec_file_number_errors(rv, j as int).map_values(
                    |m: Seq<char>| (None::<ResourceKeyView>, m),
                ) + spec_number_errors(fv, i + 1).map_values(
                    |m: Seq<char>| (None::<ResourceKeyView>, m),
                ),
            decreases m - j,
        {
            proof {
                assert(rv[j as int] == files@[i as int].resources@[j as int]@);
            }
            let resource = &files[i].resources[j];
            match &resource.value {
                crate::parse::ScalarValue::Number { value, explicit_type } => {
                    match explicit_type {
                        Some(t) => {
                            match crate::number::parse_number_value(
                                value.as_str(),
                                Some(t.as_str()),
                            ) {
                                Err(message) => {
                                    let ghost oprev = out@;
                                    out.push(AnalysisError { message, key: None });
                                    proof {
                                        let g = |m: Seq<char>|
                                            (None::<ResourceKeyView>, m);
                                        assert(spec_errors_view(out@) =~= spec_errors_view(
                                            oprev,
                                        ).push((None::<ResourceKeyView>, out@.last().message@)));
                                        assert(spec_resource_number_errors(rv[j as int])
                                            =~= seq![out@.last().message@]);
                                        assert((spec_resource_number_errors(rv[j as int])
                                            + spec_file_number_errors(rv, j + 1)).map_values(g)
                                            =~= seq![
                                            (
                                                None::<ResourceKeyView>,
                                                out@.last().message@,
                                            ),
                                        ] + spec_file_number_errors(rv, j + 1).map_values(g));
                                        assert(spec_errors_view(oprev) + (seq![
                                            (
                                                None::<ResourceKeyView>,
                                                out@.last().message@,
                                            ),
                                        ] + spec_file_number_errors(rv, j + 1).map_values(g))
                                            + spec_number_errors(fv, i + 1).map_values(g)
                                            =~= spec_errors_view(out@)
                                            + spec_file_number_errors(rv, j + 1).map_values(g)
                                            + spec_number_errors(fv, i + 1).map_values(g));
                                    }
                                },
                                Ok(_) => {
                                    proof {
                                        let g = |m: Seq<char>|
                                            (None::<ResourceKeyView>, m);
                                        assert(spec_resource_number_errors(rv[j as int]).len()
                                            == 0);
                                        assert((spec_resource_number_errors(rv[j as int])
                                            + spec_file_number_errors(rv, j + 1)).map_values(g)
                                            =~= spec_file_number_errors(rv, j + 1).map_values(
                                            g,
                                        ));
                                    }
                                },
                            }
                        },
                        None => {
                            proof {
                                let g = |m: Seq<char>| (None::<ResourceKeyView>, m);
                                assert(spec_resource_number_errors(rv[j as int]).len() == 0);
                                assert((spec_resource_number_errors(rv[j as int])
                                    + spec_file_number_errors(rv, j + 1)).map_values(g)
                                    =~= spec_file_number_errors(rv, j + 1).map_values(g));
                            }
                        },
                    }
                },
                _ => {
                    proof {
                        let g = |m: Seq<char>| (None::<ResourceKeyView>, m);
                        assert(spec_resource_number_errors(rv[j as int]).len() == 0);
                        assert((spec_resource_number_errors(rv[j as int])
                            + spec_file_number_errors(rv, j + 1)).map_values(g)
                            =~= spec_file_number_errors(rv, j + 1).map_values(g));
                    }
                },
            }
            j = j + 1;
        }
        proof {
            let g = |m: Seq<char>| (None::<ResourceKeyView>, m);
            assert(spec_file_number_errors(rv, m as int).map_values(g) =~= Seq::<
                (Option<ResourceKeyView>, Seq<char>),
            >::empty());
            assert(spec_errors_view(out@) + Seq::<
                (Option<ResourceKeyView>, Seq<char>),
            >::empty() + spec_number_errors(fv, i + 1).map_values(g) =~= spec_errors_view(out@)
                + spec_number_errors(fv, i + 1).map_values(g));
        }
        i = i + 1;
    }
    proof {
        let g = |m: Seq<char>| (None::<ResourceKeyView>, m);
        assert(spec_number_errors(fv, n as int).map_values(g) =~= Seq::<
            (Option<ResourceKeyView>, Seq<char>),
        >::empty());
        assert(spec_errors_view(out@) + Seq::<
            (Option<ResourceKeyView>, Seq<char>),
        >::empty() =~= spec_errors_view(out@));
    }
    out
}

} // verus!
