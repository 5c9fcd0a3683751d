//! The graph builder: consumes every file's parsed declarations and builds
//! the unified resource graph, dispatching each declaration to the handler
//! registered for its kind. Every definition is retained, duplicates
//! included.

use vstd::prelude::*;

use crate::graph::ResourceGraph;
use crate::graph::spec_graph_insert;
use crate::key::ResourceKey;
use crate::key::ResourceKeyView;
use crate::key::spec_path_name;
use crate::key::spec_path_namespace;
use crate::model::ResourceNodeView;
use crate::model::ResourceOrigin;
use crate::model::ResourceOriginView;
use crate::parse::ParsedResourceFile;
use crate::parse::ParsedResourceFileView;
use crate::parse::ParsedResourceView;
use crate::parse::ResourceKind;
use crate::types::TypeHandler;
use crate::types::TypeRegistry;
use crate::types::spec_build_node;
use crate::types::spec_find_handler;

verus! {

/// The registry name a parsed kind dispatches to.
pub open spec fn spec_kind_type_name(kind: ResourceKind) -> Seq<char> {
    match kind {
        ResourceKind::String => "string"@,
        ResourceKind::Number => "number"@,
        ResourceKind::Bool => "bool"@,
        ResourceKind::Color => "color"@,
        ResourceKind::Url => "url"@,
        ResourceKind::Dimension => "dimension"@,
        ResourceKind::Array => "array"@,
        ResourceKind::Template => "template"@,
    }
}

/// The registry name a parsed kind dispatches to.
pub fn kind_type_name(kind: &ResourceKind) -> (r: &'static str)
    ensures
        r@ == spec_kind_type_name(*kind),
{
    match kind {
        ResourceKind::String => "string",
        ResourceKind::Number => "number",
        ResourceKind::Bool => "bool",
        ResourceKind::Color => "color",
        ResourceKind::Url => "url",
        ResourceKind::Dimension => "dimension",
        ResourceKind::Array => "array",
        ResourceKind::Template => "template",
    }
}

/// The graph after one declaration: its handler builds the node and the node
/// joins the graph under the declaration's key; declarations with no handler
/// or no matching shape are dropped.
pub open spec fn spec_ingest_resource(
    g: Seq<(ResourceKeyView, Seq<ResourceNodeView>)>,
    r: ParsedResourceView,
    path: Seq<char>,
    is_test: bool,
    hs: Seq<TypeHandler>,
) -> Seq<(ResourceKeyView, Seq<ResourceNodeView>)> {
    let key = ResourceKeyView {
        namespace: spec_path_namespace(r.name),
        name: spec_path_name(r.name),
    };
    let origin = ResourceOriginView { file: path, line: None, profile: None, is_test };
    match spec_find_handler(hs, spec_kind_type_name(r.kind)) {
        None => g,
        Some(h) => match spec_build_node(&h, r.value, r.kind, origin) {
            None => g,
            Some(node) => spec_graph_insert(g, key, node),
        },
    }
}

/// The graph after a list of declarations.
pub open spec fn spec_ingest_resources(
    g: Seq<(ResourceKeyView, Seq<ResourceNodeView>)>,
    rs: Seq<ParsedResourceView>,
    path: Seq<char>,
    is_test: bool,
    hs: Seq<TypeHandler>,
) -> Seq<(ResourceKeyView, Seq<ResourceNodeView>)>
    decreases rs.len(),
{
    if rs.len() == 0 {
        g
    } else {
        spec_ingest_resources(
            spec_ingest_resource(g, rs[0], path, is_test, hs),
            rs.drop_first(),
            path,
            is_test,
            hs,
        )
    }
}

/// The graph after a list of parsed files.
pub open spec fn spec_ingest_files(
    g: Seq<(ResourceKeyView, Seq<ResourceNodeView>)>,
    fs: Seq<ParsedResourceFileView>,
    hs: Seq<TypeHandler>,
) -> Seq<(ResourceKeyView, Seq<ResourceNodeView>)>
    decreases fs.len(),
{
    if fs.len() == 0 {
        g
    } else {
        spec_ingest_files(
            spec_ingest_resources(g, fs[0].resources, fs[0].path, fs[0].is_test, hs),
            fs.drop_first(),
            hs,
        )
    }
}

/// Builds the resource graph from parsed files, one pass, append-only.
pub struct ResourceGraphBuilder {
    pub graph: ResourceGraph,
    pub registry: TypeRegistry,
}

impl ResourceGraphBuilder {
    /// A builder over the default registry.
    pub fn new() -> (r: ResourceGraphBuilder)
        ensures
            r.graph@ == Seq::<(ResourceKeyView, Seq<ResourceNodeView>)>::empty(),
            r.graph.wf(),
            r.registry@ == crate::types::spec_default_registry(),
    {
        ResourceGraphBuilder { graph: ResourceGraph::new(), registry: TypeRegistry::new_default() }
    }

    /// A builder over a caller-supplied registry.
    pub fn with_registry(registry: TypeRegistry) -> (r: ResourceGraphBuilder)
        ensures
            r.graph@ == Seq::<(ResourceKeyView, Seq<ResourceNodeView>)>::empty(),
            r.graph.wf(),
            r.registry@ == registry@,
    {
        ResourceGraphBuilder { graph: ResourceGraph::new(), registry }
    }

    /// Folds one parsed file's declarations into the graph.
    pub fn ingest_file(&mut self, file: &ParsedResourceFile)
        requires
            old(self).graph.wf(),
        ensures
            final(self).graph.wf(),
            final(self).graph@ == spec_ingest_resources(
                old(self).graph@,
                file@.resources,
                file@.path,
                file@.is_test,
                old(self).registry@,
            ),
            final(self).registry@ == old(self).registry@,
    {
        let ghost rv = file@.resources;
        let n = file.resources.len();
        let mut i: usize = 0;
        proof {
            assert(rv.skip(0) =~= rv);
        }
        while i < n
            invariant
                n == file.resources@.len(),
                rv == file@.resources,
                i <= n,
                self.graph.wf(),
                self.registry@ == old(self).registry@,
                spec_ingest_resources(
                    old(self).graph@,
                    rv,
                    file@.path,
                    file@.is_test,
                    self.registry@,
                ) == spec_ingest_resources(
                    self.graph@,
                    rv.skip(i as int),
                    file@.path,
                    file@.is_test,
                    self.registry@,
                ),
            decreases n - i,
        {
            proof {
                assert(rv.skip(i as int)[0] == rv[i as int]);
                assert(rv[i as int] == file.resources@[i as int]@);
                assert(rv.skip(i as int).drop_first() =~= rv.skip(i + 1));
            }
            let resource = &file.resources[i];
            let key = ResourceKey::from_path(resource.name.as_str());
            let origin = ResourceOrigin::new(file.path.as_str(), file.is_test);
            let handler_name = kind_type_name(&resource.kind);
            match self.registry.find_by_name(handler_name) {
                Some(handler) => {
                    match handler.build_node(resource, origin) {
                        Some(node) => {
                            self.graph.insert(key, node);
                        },
                        None => {},
                    }
                },
                None => {},
            }
            i = i + 1;
        }
        proof {
            assert(rv.skip(n as int) =~= Seq::<ParsedResourceView>::empty());
        }
    }

    /// Builds a graph from every file's declarations, over the default
    /// registry.
    pub fn from_parsed_files(files: &Vec<ParsedResourceFile>) -> (r: ResourceGraph)
        ensures
            r.wf(),
            r@ == spec_ingest_files(
                Seq::empty(),
                files@.map_values(|f: ParsedResourceFile| f@),
                crate::types::spec_default_registry(),
            ),
    {
        let ghost fv = files@.map_values(|f: ParsedResourceFile| f@);
        let mut builder = ResourceGraphBuilder::new();
        let n = files.len();
        let mut i: usize = 0;
        proof {
            assert(fv.skip(0) =~= fv);
        }
        while i < n
            invariant
                n == files@.len(),
                fv == files@.map_values(|f: ParsedResourceFile| f@),
                i <= n,
                builder.graph.wf(),
                builder.registry@ == crate::types::spec_default_registry(),
                spec_ingest_files(Seq::empty(), fv, crate::types::spec_default_registry())
                    == spec_ingest_files(builder.graph@, fv.skip(i as int), builder.registry@),
            decreases n - i,
        {
            proof {
                assert(fv.skip(i as int)[0] == fv[i as int]);
                assert(fv[i as int] == files@[i as int]@);
                assert(fv.skip(i as int).drop_first() =~= fv.skip(i + 1));
            }
            builder.ingest_file(&files[i]);
            i = i + 1;
        }
        proof {
            assert(fv.skip(n as int) =~= Seq::<ParsedResourceFileView>::empty());
        }
        builder.graph
    }
}

} // verus!
