//! Pipeline orchestration: loading, parsing, graph construction, analysis and
//! generation, each stage depending only on the previous one. The whole build
//! is a function of the input files and the plan: building twice from the
//! same inputs yields the same text.

use vstd::prelude::*;

use crate::analysis::AnalysisResult;
use crate::analysis::ValidationOptions;
use crate::analysis::spec_dup_reports;
use crate::builder::ResourceGraphBuilder;
use crate::builder::spec_ingest_files;
use crate::gen::generate_r_module;
use crate::gen::spec_r_module;
use crate::graph::ResourceGraph;
use crate::key::ResourceKeyView;
use crate::key::spec_full_name;
use crate::loader::BuildPlan;
use crate::loader::LoaderError;
use crate::loader::spec_load_resources;
use crate::model::ResourceNodeView;
use crate::parse::ParserError;
use crate::reader::parse_raw_files;
use crate::reader::spec_parse_raw_files;
use crate::text::chars_to_string;
use crate::text::push_chars;
use crate::text::push_str;
use crate::types::spec_const_name;

verus! {

/// What stopped the pipeline before analysis.
#[derive(Debug)]
pub enum PipelineError {
    /// Loading failed: a missing strict directory or an empty one.
    Input(LoaderError),
    /// A declaration file is malformed.
    Parsing(ParserError),
}

/// The pipeline's product: the graph and the analysis over it.
pub struct PipelineOutput {
    pub graph: ResourceGraph,
    pub analysis_result: AnalysisResult,
}

/// The files the pipeline parses from the given directory listings.
pub open spec fn spec_pipeline_parsed(
    plan_dir: Seq<char>,
    profile: Seq<char>,
    main_listing: Option<Seq<(Seq<char>, Seq<char>)>>,
    tests_listing: Option<Seq<(Seq<char>, Seq<char>)>>,
) -> Result<Seq<crate::parse::ParsedResourceFileView>, ()> {
    match spec_load_resources(plan_dir, profile, main_listing, tests_listing) {
        Err(_) => Err(()),
        Ok(files) => match spec_parse_raw_files(files) {
            Err(_) => Err(()),
            Ok(parsed) => Ok(parsed),
        },
    }
}

/// The graph the pipeline builds from the given directory listings.
pub open spec fn spec_pipeline_graph(
    plan_dir: Seq<char>,
    profile: Seq<char>,
    main_listing: Option<Seq<(Seq<char>, Seq<char>)>>,
    tests_listing: Option<Seq<(Seq<char>, Seq<char>)>>,
) -> Result<Seq<(ResourceKeyView, Seq<ResourceNodeView>)>, ()> {
    match spec_load_resources(plan_dir, profile, main_listing, tests_listing) {
        Err(_) => Err(()),
        Ok(files) => match spec_parse_raw_files(files) {
            Err(_) => Err(()),
            Ok(parsed) => Ok(
                spec_ingest_files(Seq::empty(), parsed, crate::types::spec_default_registry()),
            ),
        },
    }
}

/// Runs the pipeline through analysis under the default options.
pub fn build_graph(
    plan: &BuildPlan,
    main_listing: Option<Vec<(String, String)>>,
    tests_listing: Option<Vec<(String, String)>>,
) -> (r: Result<PipelineOutput, PipelineError>)
    ensures
        match r {
            Ok(out) => out.graph.wf() && spec_pipeline_graph(
                plan.resources_dir@,
                plan.profile@,
                match &main_listing {
                    Some(l) => Some(crate::loader::spec_listing_view(l@)),
                    None => None,
                },
                match &tests_listing {
                    Some(l) => Some(crate::loader::spec_listing_view(l@)),
                    None => None,
                },
            ) == Ok::<Seq<(ResourceKeyView, Seq<ResourceNodeView>)>, ()>(out.graph@)
                && crate::analysis::spec_warnings_view(out.analysis_result.warnings@)
                == crate::analysis::spec_keyed_reports(spec_dup_reports(out.graph@)) && ({
                let parsed = spec_pipeline_parsed(
                    plan.resources_dir@,
                    plan.profile@,
                    match &main_listing {
                        Some(l) => Some(crate::loader::spec_listing_view(l@)),
                        None => None,
                    },
                    match &tests_listing {
                        Some(l) => Some(crate::loader::spec_listing_view(l@)),
                        None => None,
                    },
                );
                parsed is Ok && crate::analysis::spec_errors_view(out.analysis_result.errors@)
                    == crate::analysis::spec_number_errors(parsed->Ok_0, 0).map_values(
                    |m: Seq<char>| (None::<ResourceKeyView>, m),
                )
            }),
            Err(_) => spec_pipeline_graph(
                plan.resources_dir@,
                plan.profile@,
                match &main_listing {
                    Some(l) => Some(crate::loader::spec_listing_view(l@)),
                    None => None,
                },
                match &tests_listing {
                    Some(l) => Some(crate::loader::spec_listing_view(l@)),
                    None => None,
                },
            ) is Err,
        },
{
    build_graph_with_options(
        plan,
        main_listing,
        tests_listing,
        ValidationOptions { treat_duplicates_as_errors: false },
    )
}

/// Runs the pipeline through analysis: load, parse, build the graph and
/// validate it under the given options.
pub fn build_graph_with_options(
    plan: &BuildPlan,
    main_listing: Option<Vec<(String, String)>>,
    tests_listing: Option<Vec<(String, String)>>,
    validation_options: ValidationOptions,
) -> (r: Result<PipelineOutput, PipelineError>)
    ensures
        match r {
            Ok(out) => out.graph.wf() && spec_pipeline_graph(
                plan.resources_dir@,
                plan.profile@,
                match &main_listing {
                    Some(l) => Some(crate::loader::spec_listing_view(l@)),
                    None => None,
                },
                match &tests_listing {
                    Some(l) => Some(crate::loader::spec_listing_view(l@)),
                    None => None,
                },
            ) == Ok::<Seq<(ResourceKeyView, Seq<ResourceNodeView>)>, ()>(out.graph@) && ({
                let parsed = spec_pipeline_parsed(
                    plan.resources_dir@,
                    plan.profile@,
                    match &main_listing {
                        Some(l) => Some(crate::loader::spec_listing_view(l@)),
                        None => None,
                    },
                    match &tests_listing {
                        Some(l) => Some(crate::loader::spec_listing_view(l@)),
                        None => None,
                    },
                );
                let numbers = crate::analysis::spec_number_errors(
                    parsed->Ok_0,
                    0,
                ).map_values(|m: Seq<char>| (None::<ResourceKeyView>, m));
                parsed is Ok && (if validation_options.treat_duplicates_as_errors {
                    crate::analysis::spec_errors_view(out.analysis_result.errors@)
                        == crate::analysis::spec_keyed_reports(spec_dup_reports(out.graph@))
                        + numbers && out.analysis_result.warnings@.len() == 0
                } else {
                    crate::analysis::spec_warnings_view(out.analysis_result.warnings@)
                        == crate::analysis::spec_keyed_reports(spec_dup_reports(out.graph@))
                        && crate::analysis::spec_errors_view(out.analysis_result.errors@)
                        == numbers
                })
            }),
            Err(_) => spec_pipeline_graph(
                plan.resources_dir@,
                plan.profile@,
                match &main_listing {
                    Some(l) => Some(crate::loader::spec_listing_view(l@)),
                    None => None,
                },
                match &tests_listing {
                    Some(l) => Some(crate::loader::spec_listing_view(l@)),
                    None => None,
                },
            ) is Err,
        },
{
    let ghost mlv: Option<Seq<(Seq<char>, Seq<char>)>> = match &main_listing {
        Some(l) => Some(crate::loader::spec_listing_view(l@)),
        None => None,
    };
    let ghost tlv: Option<Seq<(Seq<char>, Seq<char>)>> = match &tests_listing {
        Some(l) => Some(crate::loader::spec_listing_view(l@)),
        None => None,
    };
    let raw_files = match crate::loader::load_resources(plan, main_listing, tests_listing) {
        Ok(files) => files,
        Err(e) => {
            return Err(PipelineError::Input(e));
        },
    };
    let parsed_files = match parse_raw_files(&raw_files) {
        Ok(parsed) => parsed,
        Err(e) => {
            return Err(PipelineError::Parsing(e));
        },
    };
    let graph = ResourceGraphBuilder::from_parsed_files(&parsed_files);
    let mut analysis_result = crate::analysis::validate_with_options(&graph, validation_options);
    let number_errors = crate::analysis::validate_typed_literals(&parsed_files);
    let ghost parsedv = parsed_files@.map_values(|f: crate::parse::ParsedResourceFile| f@);
    let ghost numbers = crate::analysis::spec_number_errors(parsedv, 0).map_values(
        |m: Seq<char>| (None::<ResourceKeyView>, m),
    );
    let ghost base = crate::analysis::spec_errors_view(analysis_result.errors@);
    let ghost extra = crate::analysis::spec_errors_view(number_errors@);
    let ghost wsnap = analysis_result.warnings@;
    proof {
        assert(extra == numbers);
        assert(base + extra.take(0) =~= base);
    }
    let k = number_errors.len();
    let mut t: usize = 0;
    while t < k
        invariant
            k == number_errors@.len(),
            analysis_result.warnings@ == wsnap,
            extra == crate::analysis::spec_errors_view(number_errors@),
            extra == numbers,
            numbers == crate::analysis::spec_number_errors(parsedv, 0).map_values(
                |m: Seq<char>| (None::<ResourceKeyView>, m),
            ),
            t <= k,
            crate::analysis::spec_errors_view(analysis_result.errors@) == base + extra.take(
                t as int,
            ),
        decreases k - t,
    {
        proof {
            assert(extra.len() == k);
            assert(extra[t as int] == (
                match number_errors@[t as int].key {
                    Some(kk) => Some(kk@),
                    None => None,
                },
                number_errors@[t as int].message@,
            ));
            let g = |m: Seq<char>| (None::<ResourceKeyView>, m);
            assert(numbers == crate::analysis::spec_number_errors(parsedv, 0).map_values(g));
            let nth = crate::analysis::spec_number_errors(parsedv, 0)[t as int];
            assert(numbers[t as int] == g(nth));
        }
        let ghost eprev = analysis_result.errors@;
        analysis_result.errors.push(
            crate::analysis::AnalysisError {
                message: number_errors[t].message.clone(),
                key: None,
            },
        );
        t = t + 1;
        proof {
            assert(crate::analysis::spec_errors_view(analysis_result.errors@)
                =~= crate::analysis::spec_errors_view(eprev).push(
                (None::<ResourceKeyView>, analysis_result.errors@.last().message@),
            ));
            assert(extra.take(t as int) =~= extra.take(t - 1).push(extra[t - 1]));
            assert((base + extra.take(t - 1)).push(extra[t - 1]) =~= base + extra.take(
                t as int,
            ));
        }
    }
    proof {
        assert(extra.take(k as int) =~= extra);
        assert(crate::analysis::spec_errors_view(analysis_result.errors@) =~= base + extra);
        let parsed_spec = spec_pipeline_parsed(plan.resources_dir@, plan.profile@, mlv, tlv);
        assert(parsed_spec == Ok::<Seq<crate::parse::ParsedResourceFileView>, ()>(parsedv));
        if !validation_options.treat_duplicates_as_errors {
            assert(base =~= Seq::<(Option<ResourceKeyView>, Seq<char>)>::empty());
            assert(base + extra =~= extra);
        }
    }
    Ok(PipelineOutput { graph, analysis_result })
}

/// The fixed scaffolding around the generated modules.
pub open spec fn spec_r_struct() -> Seq<char> {
    "\npub struct R;\n\nimpl Default for R {\n    fn default() -> Self {\n        Self::new()\n    }\n}\n\nimpl R {\n    #[must_use]\n    pub const fn new() -> Self {\n        Self\n    }\n}\n"@
}

/// The generated code for a graph with no resources.
pub fn generate_empty_code() -> (r: String)
    ensures
        r@ == spec_r_struct(),
{
    "\npub struct R;\n\nimpl Default for R {\n    fn default() -> Self {\n        Self::new()\n    }\n}\n\nimpl R {\n    #[must_use]\n    pub const fn new() -> Self {\n        Self\n    }\n}\n".to_owned()
}

/// Whether a leaf joins the flat surface: templates become callables and are
/// not re-exported as constants.
pub open spec fn spec_flat_eligible(nodes: Seq<ResourceNodeView>) -> bool {
    nodes.len() > 0 && !(nodes[0].value is Template) && !(nodes[0].value is StringArray) && !(
    nodes[0].value is IntArray) && !(nodes[0].value is FloatArray)
}

/// The full names of the graph's keys, in key order.
pub open spec fn spec_graph_paths(g: Seq<(ResourceKeyView, Seq<ResourceNodeView>)>) -> Seq<
    Seq<char>,
> {
    g.map_values(
        |e: (ResourceKeyView, Seq<ResourceNodeView>)| spec_full_name(e.0.namespace, e.0.name),
    )
}

/// One flat re-export line.
pub open spec fn spec_flat_line(
    key: ResourceKeyView,
    alias: Seq<char>,
) -> Seq<char> {
    let mods = key.namespace.map_values(|s: Seq<char>| crate::text::spec_sanitize(s));
    let target: Seq<char> = if mods.len() == 0 {
        spec_const_name(key.name)
    } else {
        crate::resolve::spec_join_colons(mods) + "::"@ + spec_const_name(key.name)
    };
    "    pub use super::r::"@ + target + " as "@ + alias + ";\n"@
}

/// The flat module's lines, one per eligible key, in key order.
pub open spec fn spec_flat_lines(
    g: Seq<(ResourceKeyView, Seq<ResourceNodeView>)>,
    paths: Seq<Seq<char>>,
    i: int,
) -> Seq<char>
    decreases g.len() - i,
{
    if i < 0 || i >= g.len() {
        Seq::empty()
    } else {
        let line: Seq<char> = if spec_flat_eligible(g[i].1) {
            spec_flat_line(
                g[i].0,
                crate::flat::spec_alias_of(paths, spec_full_name(g[i].0.namespace, g[i].0.name)),
            )
        } else {
            Seq::empty()
        };
        line + spec_flat_lines(g, paths, i + 1)
    }
}

/// The flat re-export surface over the namespaced module.
pub open spec fn spec_flat_module(g: Seq<(ResourceKeyView, Seq<ResourceNodeView>)>) -> Seq<
    char,
> {
    "pub mod flat {\n"@ + spec_flat_lines(g, spec_graph_paths(g), 0) + "}\n"@
}

/// Emits the flat re-export surface: each eligible resource under its minimal
/// unique alias.
pub fn generate_flat_module(graph: &ResourceGraph) -> (r: String)
    requires
        graph.wf(),
    ensures
        r@ == spec_flat_module(graph@),
{
    let ghost gv = graph@;
    let entries = graph.nodes();
    let n = entries.len();
    let mut paths: Vec<String> = Vec::new();
    let mut i: usize = 0;
    while i < n
        invariant
            n == entries@.len(),
            gv == crate::graph::spec_graph_view(entries@),
            i <= n,
            paths@.len() == i,
            forall|j: int|
                0 <= j < i ==> paths.deep_view()[j] == spec_graph_paths(gv)[j],
        decreases n - i,
    {
        proof {
            assert(gv[i as int] == crate::graph::spec_entry_view(entries@[i as int]));
        }
        let full = entries[i].0.full_name();
        paths.push(full);
        i = i + 1;
        proof {
            assert(paths.deep_view()[i - 1] == paths@[i - 1]@);
            assert(spec_graph_paths(gv)[i - 1] == spec_full_name(
                gv[i - 1].0.namespace,
                gv[i - 1].0.name,
            ));
        }
    }
    proof {
        assert(paths.deep_view() =~= spec_graph_paths(gv));
    }
    let mut out: Vec<char> = Vec::new();
    push_str(&mut out, "pub mod flat {\n");
    let ghost mid = out@;
    let mut k: usize = 0;
    while k < n
        invariant
            n == entries@.len(),
            gv == crate::graph::spec_graph_view(entries@),
            graph.wf(),
            gv == graph@,
            paths.deep_view() == spec_graph_paths(gv),
            k <= n,
            mid + spec_flat_lines(gv, spec_graph_paths(gv), 0) == out@ + spec_flat_lines(
                gv,
                spec_graph_paths(gv),
                k as int,
            ),
        decreases n - k,
    {
        proof {
            assert(gv[k as int] == crate::graph::spec_entry_view(entries@[k as int]));
        }
        let entry = &entries[k];
        let eligible = entry.1.len() > 0 && match &entry.1[0].value {
            crate::model::ResourceValue::Template { .. } => false,
            crate::model::ResourceValue::StringArray(_) => false,
            crate::model::ResourceValue::IntArray(_) => false,
            crate::model::ResourceValue::FloatArray(_) => false,
            _ => true,
        };
        proof {
            if entry.1@.len() > 0 {
                assert(gv[k as int].1[0] == entry.1@[0]@);
            }
        }
        if eligible {
            let full = entry.0.full_name();
            let alias = crate::flat::alias_of(&paths, full.as_str());
            let ghost base = out@;
            push_str(&mut out, "    pub use super::r::");
            let m = entry.0.namespace.len();
            let ghost mods = gv[k as int].0.namespace.map_values(
                |s: Seq<char>| crate::text::spec_sanitize(s),
            );
            let mut j: usize = 0;
            let ghost mid2 = out@;
            while j < m
                invariant
                    m == entry.0.namespace@.len(),
                    mods == gv[k as int].0.namespace.map_values(
                        |s: Seq<char>| crate::text::spec_sanitize(s),
                    ),
                    gv[k as int].0.namespace == entry.0.namespace.deep_view(),
                    j <= m,
                    j == 0 ==> out@ == mid2,
                    j > 0 ==> out@ == mid2 + crate::resolve::spec_join_colons(
                        mods.take(j as int),
                    ),
                decreases m - j,
            {
                if j > 0 {
                    push_str(&mut out, "::");
                }
                let segc = crate::text::str_to_chars(entry.0.namespace[j].as_str());
                let san = crate::text::sanitize_chars(&segc);
                push_chars(&mut out, &san);
                j = j + 1;
                proof {
                    assert(entry.0.namespace.deep_view()[j - 1] == entry.0.namespace@[j - 1]@);
                    assert(mods[j - 1] == crate::text::spec_sanitize(
                        entry.0.namespace.deep_view()[j - 1],
                    ));
                    assert(mods.take(j as int).drop_last() =~= mods.take(j - 1));
                    assert(mods.take(j as int).last() == mods[j - 1]);
                    if j > 1 {
                        assert(out@ =~= mid2 + (crate::resolve::spec_join_colons(
                            mods.take(j - 1),
                        ) + "::"@ + mods[j - 1]));
                    }
                }
            }
            proof {
                assert(mods.take(m as int) =~= mods);
            }
            if m > 0 {
                push_str(&mut out, "::");
            }
            crate::types::push_const_name(&mut out, entry.0.name.as_str());
            push_str(&mut out, " as ");
            push_str(&mut out, alias.as_str());
            push_str(&mut out, ";\n");
            proof {
                assert(full@ == spec_full_name(gv[k as int].0.namespace, gv[k as int].0.name));
                assert(out@ =~= base + spec_flat_line(gv[k as int].0, crate::flat::spec_alias_of(
                    spec_graph_paths(gv),
                    spec_full_name(gv[k as int].0.namespace, gv[k as int].0.name),
                )));
            }
        }
        k = k + 1;
        proof {
            assert(mid + spec_flat_lines(gv, spec_graph_paths(gv), 0) =~= out@
                + spec_flat_lines(gv, spec_graph_paths(gv), k as int));
        }
    }
    push_str(&mut out, "}\n");
    proof {
        assert(out@ =~= spec_flat_module(gv));
    }
    chars_to_string(&out)
}

/// The whole generated text: the scaffolding, the namespaced hierarchy and
/// the flat surface.
pub open spec fn spec_generated_code(g: Seq<(ResourceKeyView, Seq<ResourceNodeView>)>) -> Seq<
    char,
> {
    spec_r_struct() + spec_r_module(g) + spec_flat_module(g)
}

/// Generates the whole output text for a graph.
pub fn generate_code(graph: &ResourceGraph) -> (r: String)
    requires
        graph.wf(),
    ensures
        r@ == spec_generated_code(graph@),
{
    let mut out: Vec<char> = Vec::new();
    let scaffolding = generate_empty_code();
    push_str(&mut out, scaffolding.as_str());
    let r_module = generate_r_module(graph);
    push_str(&mut out, r_module.as_str());
    let flat_module = generate_flat_module(graph);
    push_str(&mut out, flat_module.as_str());
    proof {
        assert(out@ =~= spec_generated_code(graph@));
    }
    chars_to_string(&out)
}

/// The generation stage's product: the output text and the warnings to print.
pub struct OutputArtifacts {
    pub rust: String,
    pub warnings: Vec<String>,
}

/// Runs generation over a validated graph: the text and the duplicate
/// warnings' messages.
pub fn emit(graph: &ResourceGraph, analysis_warnings: &Vec<crate::analysis::AnalysisWarning>) -> (
    r: OutputArtifacts)
    requires
        graph.wf(),
    ensures
        r.rust@ == spec_generated_code(graph@),
        r.warnings.deep_view() == crate::analysis::spec_warnings_view(
            analysis_warnings@,
        ).map_values(|w: (Option<ResourceKeyView>, Seq<char>)| w.1),
{
    let rust = generate_code(graph);
    let ghost wv = crate::analysis::spec_warnings_view(analysis_warnings@);
    let n = analysis_warnings.len();
    let mut warnings: Vec<String> = Vec::new();
    let mut i: usize = 0;
    while i < n
        invariant
            n == analysis_warnings@.len(),
            wv == crate::analysis::spec_warnings_view(analysis_warnings@),
            i <= n,
            warnings@.len() == i,
            forall|j: int| 0 <= j < i ==> (#[trigger] warnings.deep_view()[j]) == wv[j].1,
        decreases n - i,
    {
        let ghost wprev_dv = warnings.deep_view();
        let ghost wprev = warnings@;
        warnings.push(analysis_warnings[i].message.clone());
        i = i + 1;
        proof {
            assert(wv[i - 1].1 == analysis_warnings@[i - 1].message@);
            assert forall|j: int|
                0 <= j < i implies (#[trigger] warnings.deep_view()[j]) == wv[j].1 by {
                assert(warnings.deep_view()[j] == warnings@[j]@);
                if j < i - 1 {
                    assert(warnings@[j] == wprev[j]);
                    assert(wprev_dv[j] == wprev[j]@);
                } else {
                    assert(warnings@[j]@ == analysis_warnings@[i - 1].message@);
                }
            }
        }
    }
    proof {
        let f = |w: (Option<ResourceKeyView>, Seq<char>)| w.1;
        assert(warnings.deep_view() =~= wv.map_values(f)) by {
            assert(forall|j: int| 0 <= j < wv.len() ==> #[trigger] wv.map_values(f)[j] == f(
                wv[j],
            ));
        }
        assert(wv.map_values(f) == wv.map_values(
            |w: (Option<ResourceKeyView>, Seq<char>)| w.1,
        ));
    }
    OutputArtifacts { rust, warnings }
}

/// What stopped a build.
#[derive(Debug)]
pub enum BuildError {
    /// Loading or parsing failed.
    Pipeline(PipelineError),
    /// Analysis reported errors: duplicates under strict handling.
    Analysis(Vec<crate::analysis::AnalysisError>),
}

/// The view of an optional directory listing.
pub open spec fn spec_listing_opt(l: &Option<Vec<(String, String)>>) -> Option<
    Seq<(Seq<char>, Seq<char>)>,
> {
    match l {
        Some(v) => Some(crate::loader::spec_listing_view(v@)),
        None => None,
    }
}

/// The typed-literal error reports of the pipeline's parsed files.
pub open spec fn spec_pipeline_number_reports(
    plan_dir: Seq<char>,
    profile: Seq<char>,
    main_listing: Option<Seq<(Seq<char>, Seq<char>)>>,
    tests_listing: Option<Seq<(Seq<char>, Seq<char>)>>,
) -> Seq<(Option<ResourceKeyView>, Seq<char>)> {
    crate::analysis::spec_number_errors(
        spec_pipeline_parsed(plan_dir, profile, main_listing, tests_listing)->Ok_0,
        0,
    ).map_values(|m: Seq<char>| (None::<ResourceKeyView>, m))
}

/// Builds from the plan and the directory listings under the default
/// validation options: success yields the generated text with the duplicate
/// warnings to print; loading or parsing failures fail the pipeline, and
/// typed-literal range errors fail analysis.
pub fn build_with_plan(
    plan: &BuildPlan,
    main_listing: Option<Vec<(String, String)>>,
    tests_listing: Option<Vec<(String, String)>>,
) -> (r: Result<OutputArtifacts, BuildError>)
    ensures
        ({
            let pg = spec_pipeline_graph(
                plan.resources_dir@,
                plan.profile@,
                spec_listing_opt(&main_listing),
                spec_listing_opt(&tests_listing),
            );
            let numbers = spec_pipeline_number_reports(
                plan.resources_dir@,
                plan.profile@,
                spec_listing_opt(&main_listing),
                spec_listing_opt(&tests_listing),
            );
            match r {
                Ok(artifacts) => pg matches Ok(g) && artifacts.rust@ == spec_generated_code(g)
                    && numbers.len() == 0 && artifacts.warnings.deep_view()
                    == crate::analysis::spec_keyed_reports(spec_dup_reports(g)).map_values(
                    |w: (Option<ResourceKeyView>, Seq<char>)| w.1,
                ),
                Err(BuildError::Pipeline(_)) => pg is Err,
                Err(BuildError::Analysis(errs)) => pg is Ok
                    && crate::analysis::spec_errors_view(errs@) == numbers
                    && crate::analysis::spec_errors_view(errs@).len() > 0,
            }
        }),
{
    let ghost mlv = spec_listing_opt(&main_listing);
    let ghost tlv = spec_listing_opt(&tests_listing);
    let r = build_with_plan_and_options(
        plan,
        main_listing,
        tests_listing,
        ValidationOptions { treat_duplicates_as_errors: false },
    );
    proof {
        let numbers = spec_pipeline_number_reports(plan.resources_dir@, plan.profile@, mlv, tlv);
        assert(Seq::<(Option<ResourceKeyView>, Seq<char>)>::empty() + numbers =~= numbers);
    }
    r
}

/// Builds from the plan and the directory listings: the pipeline through
/// analysis, then generation. Loading and parsing failures fail the build
/// before analysis; analysis errors (typed-literal range failures, and
/// duplicates under strict handling) halt it before generation, carrying
/// exactly the analysis reports; otherwise the generated text and the
/// duplicate warnings come back. The output is a function of the listings,
/// the plan and the options alone: two builds from the same inputs yield
/// identical text.
pub fn build_with_plan_and_options(
    plan: &BuildPlan,
    main_listing: Option<Vec<(String, String)>>,
    tests_listing: Option<Vec<(String, String)>>,
    validation_options: ValidationOptions,
) -> (r: Result<OutputArtifacts, BuildError>)
    ensures
        ({
            let pg = spec_pipeline_graph(
                plan.resources_dir@,
                plan.profile@,
                spec_listing_opt(&main_listing),
                spec_listing_opt(&tests_listing),
            );
            let numbers = spec_pipeline_number_reports(
                plan.resources_dir@,
                plan.profile@,
                spec_listing_opt(&main_listing),
                spec_listing_opt(&tests_listing),
            );
            match r {
                Ok(artifacts) => pg matches Ok(g) && artifacts.rust@ == spec_generated_code(g)
                    && numbers.len() == 0 && (
                if validation_options.treat_duplicates_as_errors {
                    spec_dup_reports(g).len() == 0 && artifacts.warnings@.len() == 0
                } else {
                    artifacts.warnings.deep_view() == crate::analysis::spec_keyed_reports(
                        spec_dup_reports(g),
                    ).map_values(|w: (Option<ResourceKeyView>, Seq<char>)| w.1)
                }),
                Err(BuildError::Pipeline(_)) => pg is Err,
                Err(BuildError::Analysis(errs)) => pg matches Ok(g)
                    && crate::analysis::spec_errors_view(errs@) == (
                if validation_options.treat_duplicates_as_errors {
                    crate::analysis::spec_keyed_reports(spec_dup_reports(g))
                } else {
                    Seq::empty()
                }) + numbers && crate::analysis::spec_errors_view(errs@).len() > 0,
            }
        }),
{
    let ghost mlv = spec_listing_opt(&main_listing);
    let ghost tlv = spec_listing_opt(&tests_listing);
    let pipeline_output = match build_graph_with_options(
        plan,
        main_listing,
        tests_listing,
        validation_options,
    ) {
        Ok(out) => out,
        Err(e) => {
            return Err(BuildError::Pipeline(e));
        },
    };
    if pipeline_output.analysis_result.errors.len() > 0 {
        proof {
            let numbers = spec_pipeline_number_reports(
                plan.resources_dir@,
                plan.profile@,
                mlv,
                tlv,
            );
            let ev = crate::analysis::spec_errors_view(pipeline_output.analysis_result.errors@);
            assert(ev.len() == pipeline_output.analysis_result.errors@.len());
            if !validation_options.treat_duplicates_as_errors {
                assert(Seq::<(Option<ResourceKeyView>, Seq<char>)>::empty() + numbers
                    =~= numbers);
            }
        }
        return Err(BuildError::Analysis(pipeline_output.analysis_result.errors));
    }
    proof {
        assert(crate::analysis::spec_errors_view(
            pipeline_output.analysis_result.errors@,
        ).len() == 0);
        let parsed_spec = spec_pipeline_parsed(plan.resources_dir@, plan.profile@, mlv, tlv);
        let numbers = crate::analysis::spec_number_errors(parsed_spec->Ok_0, 0).map_values(
            |m: Seq<char>| (None::<ResourceKeyView>, m),
        );
        assert(numbers.len() == 0);
        if validation_options.treat_duplicates_as_errors {
            assert(crate::analysis::spec_keyed_reports(
                spec_dup_reports(pipeline_output.graph@),
            ).len() == 0);
        }
    }
    let artifacts = emit(&pipeline_output.graph, &pipeline_output.analysis_result.warnings);
    proof {
        let wv = crate::analysis::spec_warnings_view(pipeline_output.analysis_result.warnings@);
        assert(artifacts.warnings.deep_view().len() == wv.len());
        if validation_options.treat_duplicates_as_errors {
            assert(wv.len() == 0);
            assert(artifacts.warnings@.len() == artifacts.warnings.deep_view().len());
        }
    }
    Ok(artifacts)
}

} // verus!
