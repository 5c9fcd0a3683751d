//! The streaming parser: an event-driven state machine that turns one file's
//! text into an ordered list of flat declarations, tracking the current tag,
//! the namespace stack, an explicit numeric-type capture, and the template
//! sub-state for both template dialects (a `template` element with typed
//! children, and a `template` attribute with `param` children).

use vstd::prelude::*;

use crate::key::spec_full_name;
use crate::loader::RawResourceFile;
use crate::loader::RawResourceFileView;
use crate::parse::ParsedResourceFile;
use crate::parse::ParsedResourceFileView;
use crate::parse::ParserError;
use crate::model::TemplateParam;
use crate::model::TemplateParamValue;
use crate::model::TemplateParamValueView;
use crate::model::TemplateParamView;
use crate::parse::ParsedResource;
use crate::parse::ParsedResourceView;
use crate::parse::ResourceKind;
use crate::parse::ScalarValue;
use crate::parse::ScalarValueView;
use crate::templates::TemplateState;
use crate::templates::TemplateStateView;
use crate::templates::spec_finalize_template;
use crate::templates::spec_param_type;
use crate::text::chars_to_string;
use crate::text::push_chars;
use crate::text::push_str;
use crate::text::spec_trim;
use crate::text::str_eq;
use crate::text::str_to_chars;
use crate::text::trim_chars;
use crate::xml::XmlEvent;
use crate::xml::XmlEventView;
use crate::xml::attr_value;
use crate::xml::spec_attr_value;
use crate::xml::spec_attrs_view;

verus! {

/// Parser state carried across events.
pub struct ParserState {
    /// The tag whose content is being read.
    pub current_tag: String,
    /// The (namespace-qualified) name of the open declaration.
    pub current_name: Option<String>,
    /// The stack of enclosing grouping-tag names.
    pub namespace_stack: Vec<String>,
    /// The `type` attribute of an open numeric declaration.
    pub current_number_type: Option<String>,
    /// Parameters collected inside an open `template` element.
    pub template_params: Vec<TemplateParam>,
    /// Body text collected inside an open `template` element.
    pub template_text: String,
    /// Whether a `template` element is open.
    pub in_template: bool,
    /// Sub-state of an open template-attribute declaration.
    pub template_state: TemplateState,
    /// Whether a string declaration carrying a `template` attribute is open.
    pub in_string_template: bool,
}

/// Ghost view of the parser state.
pub struct ParserStateView {
    pub current_tag: Seq<char>,
    pub current_name: Option<Seq<char>>,
    pub namespace_stack: Seq<Seq<char>>,
    pub current_number_type: Option<Seq<char>>,
    pub template_params: Seq<TemplateParamView>,
    pub template_text: Seq<char>,
    pub in_template: bool,
    pub template_state: TemplateStateView,
    pub in_string_template: bool,
}

impl View for ParserState {
    type V = ParserStateView;

    open spec fn view(&self) -> ParserStateView {
        ParserStateView {
            current_tag: self.current_tag@,
            current_name: match &self.current_name {
                Some(n) => Some(n@),
                None => None,
            },
            namespace_stack: self.namespace_stack.deep_view(),
            current_number_type: match &self.current_number_type {
                Some(t) => Some(t@),
                None => None,
            },
            template_params: self.template_params@.map_values(|p: TemplateParam| p@),
            template_text: self.template_text@,
            in_template: self.in_template,
            template_state: self.template_state@,
            in_string_template: self.in_string_template,
        }
    }
}

/// The initial parser state.
pub open spec fn spec_initial_state() -> ParserStateView {
    ParserStateView {
        current_tag: Seq::empty(),
        current_name: None,
        namespace_stack: Seq::empty(),
        current_number_type: None,
        template_params: Seq::empty(),
        template_text: Seq::empty(),
        in_template: false,
        template_state: TemplateStateView { template_string: None, parameters: Seq::empty() },
        in_string_template: false,
    }
}

impl ParserState {
    /// A fresh state for one file.
    pub fn new() -> (r: ParserState)
        ensures
            r@ == spec_initial_state(),
    {
        let r = ParserState {
            current_tag: String::new(),
            current_name: None,
            namespace_stack: Vec::new(),
            current_number_type: None,
            template_params: Vec::new(),
            template_text: String::new(),
            in_template: false,
            template_state: TemplateState::new(),
            in_string_template: false,
        };
        proof {
            assert(r@.namespace_stack =~= Seq::<Seq<char>>::empty());
            assert(r@.template_params =~= Seq::<TemplateParamView>::empty());
        }
        r
    }
}

/// The parameter kind a tag declares inside a `template` element, if any.
pub open spec fn spec_param_kind(tag: Seq<char>, number_type: Option<Seq<char>>) -> Option<
    TemplateParamValueView,
> {
    if tag == "string"@ {
        Some(TemplateParamValueView::String)
    } else if tag == "number"@ || tag == "int"@ || tag == "float"@ {
        Some(TemplateParamValueView::Number { explicit_type: number_type })
    } else if tag == "bool"@ {
        Some(TemplateParamValueView::Bool)
    } else if tag == "color"@ {
        Some(TemplateParamValueView::Color)
    } else {
        None
    }
}

/// Whether the tag names a numeric declaration.
pub open spec fn spec_is_number_tag(tag: Seq<char>) -> bool {
    tag == "number"@ || tag == "int"@ || tag == "float"@
}

/// The state after an opening (or self-closing) tag.
pub open spec fn spec_handle_start(
    st: ParserStateView,
    tag: Seq<char>,
    attrs: Seq<(Seq<char>, Seq<char>)>,
) -> ParserStateView {
    let st0 = ParserStateView { current_tag: tag, ..st };
    if tag == "ns"@ {
        let pushed = match spec_attr_value(attrs, "name"@) {
            Some(n) => st0.namespace_stack.push(n),
            None => st0.namespace_stack,
        };
        ParserStateView { namespace_stack: pushed, current_name: None, ..st0 }
    } else {
        let st1 = if tag == "template"@ {
            ParserStateView {
                in_template: true,
                template_params: Seq::empty(),
                template_text: Seq::empty(),
                ..st0
            }
        } else {
            st0
        };
        let number_type = if spec_is_number_tag(tag) {
            spec_attr_value(attrs, "type"@)
        } else {
            None
        };
        let param_name = match spec_attr_value(attrs, "name"@) {
            Some(n) => Some(spec_full_name(st1.namespace_stack, n)),
            None => None,
        };
        if st1.in_template && tag != "template"@ && param_name is Some && spec_param_kind(
            tag,
            number_type,
        ) is Some {
            ParserStateView {
                template_params: st1.template_params.push(
                    TemplateParamView {
                        name: param_name->Some_0,
                        value: spec_param_kind(tag, number_type)->Some_0,
                    },
                ),
                current_tag: "template"@,
                ..st1
            }
        } else if tag == "string"@ && !st1.in_template && spec_attr_value(
            attrs,
            "template"@,
        ) is Some {
            ParserStateView {
                in_string_template: true,
                template_state: TemplateStateView {
                    template_string: Some(spec_attr_value(attrs, "template"@)->Some_0),
                    parameters: st1.template_state.parameters,
                },
                current_name: param_name,
                current_number_type: None,
                ..st1
            }
        } else if tag == "param"@ && st1.in_string_template {
            match (spec_attr_value(attrs, "name"@), spec_attr_value(attrs, "type"@)) {
                (Some(n), Some(t)) => ParserStateView {
                    template_state: TemplateStateView {
                        template_string: st1.template_state.template_string,
                        parameters: st1.template_state.parameters.push(
                            TemplateParamView { name: n, value: spec_param_type(t) },
                        ),
                    },
                    ..st1
                },
                _ => st1,
            }
        } else {
            ParserStateView { current_number_type: number_type, current_name: param_name, ..st1 }
        }
    }
}

/// The state and the declaration (if one completes) after a text node.
pub open spec fn spec_handle_text(st: ParserStateView, text: Seq<char>) -> (
    ParserStateView,
    Option<ParsedResourceView>,
) {
    if st.in_template {
        if st.current_tag == "template"@ && text.len() > 0 {
            (
                ParserStateView { template_text: st.template_text + text + seq![' '], ..st },
                None,
            )
        } else {
            (st, None)
        }
    } else if st.in_string_template {
        (st, None)
    } else {
        match st.current_name {
            Some(name) => {
                if st.current_tag == "string"@ {
                    (
                        st,
                        Some(
                            ParsedResourceView {
                                name,
                                kind: ResourceKind::String,
                                value: ScalarValueView::Text(text),
                            },
                        ),
                    )
                } else if spec_is_number_tag(st.current_tag) {
                    (
                        st,
                        Some(
                            ParsedResourceView {
                                name,
                                kind: ResourceKind::Number,
                                value: ScalarValueView::Number {
                                    value: text,
                                    explicit_type: st.current_number_type,
                                },
                            },
                        ),
                    )
                } else if st.current_tag == "bool"@ {
                    if text == "true"@ {
                        (
                            st,
                            Some(
                                ParsedResourceView {
                                    name,
                                    kind: ResourceKind::Bool,
                                    value: ScalarValueView::Bool(true),
                                },
                            ),
                        )
                    } else if text == "false"@ {
                        (
                            st,
                            Some(
                                ParsedResourceView {
                                    name,
                                    kind: ResourceKind::Bool,
                                    value: ScalarValueView::Bool(false),
                                },
                            ),
                        )
                    } else {
                        (st, None)
                    }
                } else if st.current_tag == "color"@ {
                    (
                        st,
                        Some(
                            ParsedResourceView {
                                name,
                                kind: ResourceKind::Color,
                                value: ScalarValueView::Color(text),
                            },
                        ),
                    )
                } else if st.current_tag == "url"@ {
                    (
                        st,
                        Some(
                            ParsedResourceView {
                                name,
                                kind: ResourceKind::Url,
                                value: ScalarValueView::Url(text),
                            },
                        ),
                    )
                } else if st.current_tag == "dimension"@ {
                    (
                        st,
                        Some(
                            ParsedResourceView {
                                name,
                                kind: ResourceKind::Dimension,
                                value: ScalarValueView::Dimension(text),
                            },
                        ),
                    )
                } else if st.current_tag == "template"@ && text.len() > 0 {
                    (
                        ParserStateView {
                            template_text: st.template_text + text + seq![' '],
                            ..st
                        },
                        None,
                    )
                } else {
                    (st, None)
                }
            },
            None => (st, None),
        }
    }
}

/// Whether the tag names a scalar declaration.
pub open spec fn spec_is_scalar_tag(tag: Seq<char>) -> bool {
    tag == "string"@ || spec_is_number_tag(tag) || tag == "bool"@ || tag == "color"@
}

/// Whether the tag closes an open declaration.
pub open spec fn spec_clears_name(tag: Seq<char>) -> bool {
    spec_is_scalar_tag(tag) || tag == "template"@ || tag == "url"@ || tag == "dimension"@
}

/// The state and the declaration (if one completes) after a closing tag.
pub open spec fn spec_handle_end(st: ParserStateView, tag: Seq<char>) -> (
    ParserStateView,
    Option<ParsedResourceView>,
) {
    if tag == "ns"@ {
        let popped = if st.namespace_stack.len() > 0 {
            st.namespace_stack.drop_last()
        } else {
            st.namespace_stack
        };
        (ParserStateView { namespace_stack: popped, ..st }, None)
    } else if tag == "template"@ && st.current_name is Some {
        let pr = ParsedResourceView {
            name: st.current_name->Some_0,
            kind: ResourceKind::Template,
            value: ScalarValueView::Template {
                text: spec_trim(st.template_text),
                params: st.template_params,
            },
        };
        (
            ParserStateView {
                in_template: false,
                template_params: Seq::empty(),
                template_text: Seq::empty(),
                current_name: None,
                ..st
            },
            Some(pr),
        )
    } else if tag == "string"@ && st.in_string_template {
        let r = match spec_finalize_template(st.template_state) {
            Some(v) => match st.current_name {
                Some(n) => Some(
                    ParsedResourceView { name: n, kind: ResourceKind::Template, value: v },
                ),
                None => None,
            },
            None => None,
        };
        (
            ParserStateView {
                template_state: TemplateStateView {
                    template_string: None,
                    parameters: Seq::empty(),
                },
                in_string_template: false,
                current_name: None,
                current_tag: Seq::empty(),
                ..st
            },
            r,
        )
    } else if st.in_template && spec_is_scalar_tag(tag) {
        (ParserStateView { current_name: None, ..st }, None)
    } else {
        let st1 = if spec_clears_name(tag) {
            ParserStateView { current_name: None, ..st }
        } else {
            st
        };
        let st2 = if spec_is_number_tag(tag) {
            ParserStateView { current_number_type: None, ..st1 }
        } else {
            st1
        };
        (ParserStateView { current_tag: Seq::empty(), ..st2 }, None)
    }
}

/// The declarations produced by folding the handlers over the events.
pub open spec fn spec_parse_events(evs: Seq<XmlEventView>, st: ParserStateView) -> Seq<
    ParsedResourceView,
>
    decreases evs.len(),
{
    if evs.len() == 0 {
        Seq::empty()
    } else {
        let rest = evs.drop_first();
        match evs[0] {
            XmlEventView::Start { name, attrs } => spec_parse_events(
                rest,
                spec_handle_start(st, name, attrs),
            ),
            XmlEventView::Empty { name, attrs } => spec_parse_events(
                rest,
                spec_handle_start(st, name, attrs),
            ),
            XmlEventView::Text { text } => {
                let (st2, r) = spec_handle_text(st, text);
                (match r {
                    Some(pr) => seq![pr],
                    None => Seq::empty(),
                }) + spec_parse_events(rest, st2)
            },
            XmlEventView::End { name } => {
                let (st2, r) = spec_handle_end(st, name);
                (match r {
                    Some(pr) => seq![pr],
                    None => Seq::empty(),
                }) + spec_parse_events(rest, st2)
            },
        }
    }
}


/// Joins the namespace stack and a local name into the qualified name.
fn qualify(ns: &Vec<String>, name: &str) -> (r: String)
    ensures
        r@ == spec_full_name(ns.deep_view(), name@),
{
    let mut out: Vec<char> = Vec::new();
    let n = ns.len();
    let mut i: usize = 0;
    while i < n
        invariant
            n == ns.len(),
            i <= n,
            i == 0 ==> out@ == Seq::<char>::empty(),
            i > 0 ==> out@ == crate::key::spec_join_slash(ns.deep_view().take(i as int)),
        decreases n - i,
    {
        if i > 0 {
            out.push('/');
        }
        push_str(&mut out, ns[i].as_str());
        i = i + 1;
        proof {
            let dv = ns.deep_view();
            assert(dv.take(i as int).drop_last() =~= dv.take(i - 1));
            assert(dv.take(i as int).last() == dv[i - 1]);
            if i > 1 {
                assert(out@ =~= crate::key::spec_join_slash(dv.take(i - 1)) + seq!['/'] + dv[i
                    - 1]);
            }
        }
    }
    if n > 0 {
        out.push('/');
    }
    push_str(&mut out, name);
    proof {
        assert(ns.deep_view().take(n as int) =~= ns.deep_view());
        assert(out@ =~= spec_full_name(ns.deep_view(), name@));
    }
    chars_to_string(&out)
}

/// Applies an opening (or self-closing) tag to the state: grouping tags push
/// a namespace level, `template` opens template accumulation, typed tags
/// inside a template declare parameters, and other named tags open a
/// declaration.
pub fn handle_start(state: &mut ParserState, name: &String, attrs: &Vec<(String, String)>)
    ensures
        final(state)@ == spec_handle_start(old(state)@, name@, spec_attrs_view(attrs@)),
{
    let ghost av = spec_attrs_view(attrs@);
    state.current_tag = name.clone();
    if str_eq(name.as_str(), "ns") {
        match attr_value(attrs, "name") {
            Some(ns_name) => {
                let ghost prev = state.namespace_stack.deep_view();
                state.namespace_stack.push(ns_name);
                proof {
                    assert(state.namespace_stack.deep_view() =~= prev.push(
                        spec_attr_value(av, "name"@)->Some_0,
                    ));
                }
            },
            None => {},
        }
        state.current_name = None;
        return;
    }
    if str_eq(name.as_str(), "template") {
        state.in_template = true;
        state.template_params = Vec::new();
        state.template_text = String::new();
        proof {
            assert(state.template_params@.map_values(|p: TemplateParam| p@) =~= Seq::<
                TemplateParamView,
            >::empty());
        }
    }
    let is_number_tag = str_eq(name.as_str(), "number") || str_eq(name.as_str(), "int") || str_eq(
        name.as_str(),
        "float",
    );
    let number_type = if is_number_tag {
        attr_value(attrs, "type")
    } else {
        None
    };
    let name_attr = attr_value(attrs, "name");
    let param_name: Option<String> = match &name_attr {
        Some(n) => Some(qualify(&state.namespace_stack, n.as_str())),
        None => None,
    };
    if state.in_template && !str_eq(name.as_str(), "template") {
        let param_kind: Option<TemplateParamValue> = if str_eq(name.as_str(), "string") {
            Some(TemplateParamValue::String)
        } else if is_number_tag {
            let et: Option<String> = match &number_type {
                Some(t) => Some(t.clone()),
                None => None,
            };
            Some(TemplateParamValue::Number { explicit_type: et })
        } else if str_eq(name.as_str(), "bool") {
            Some(TemplateParamValue::Bool)
        } else if str_eq(name.as_str(), "color") {
            Some(TemplateParamValue::Color)
        } else {
            None
        };
        if param_kind.is_some() && param_name.is_some() {
            let pn = match param_name {
                Some(x) => x,
                None => String::new(),
            };
            let pk = match param_kind {
                Some(x) => x,
                None => TemplateParamValue::String,
            };
            let ghost prev = state.template_params@;
            state.template_params.push(TemplateParam { name: pn, value: pk });
            state.current_tag = "template".to_owned();
            proof {
                let f = |p: TemplateParam| p@;
                assert(state.template_params@.map_values(f) =~= prev.map_values(f).push(
                    f(state.template_params@.last()),
                ));
            }
            return;
        }
    }
    if str_eq(name.as_str(), "string") && !state.in_template {
        match attr_value(attrs, "template") {
            Some(t) => {
                state.in_string_template = true;
                crate::templates::handle_template_attribute(t.as_str(), &mut state.template_state);
                state.current_name = param_name;
                state.current_number_type = None;
                return;
            },
            None => {},
        }
    }
    if str_eq(name.as_str(), "param") && state.in_string_template {
        match (attr_value(attrs, "name"), attr_value(attrs, "type")) {
            (Some(n), Some(t)) => {
                crate::templates::handle_param_tag(
                    n.as_str(),
                    t.as_str(),
                    &mut state.template_state,
                );
                return;
            },
            _ => {
                return;
            },
        }
    }
    state.current_number_type = number_type;
    state.current_name = param_name;
}

/// Applies a text node to the state: template bodies accumulate, open scalar
/// declarations complete into a parsed resource (boolean parse failures are
/// silently dropped).
pub fn handle_text(state: &mut ParserState, text: &String) -> (r: Option<ParsedResource>)
    ensures
        ({
            let (st2, pr) = spec_handle_text(old(state)@, text@);
            final(state)@ == st2 && (match r {
                Some(x) => pr == Some(x@),
                None => pr is None,
            })
        }),
{
    if state.in_template {
        if str_eq(state.current_tag.as_str(), "template") && text.unicode_len() > 0 {
            state.template_text.append(text.as_str());
            state.template_text.append(" ");
            proof {
                reveal_strlit(" ");
                assert(" "@ =~= seq![' ']);
                assert(state.template_text@ =~= old(state)@.template_text + text@ + seq![' ']);
            }
        }
        return None;
    }
    if state.in_string_template {
        return None;
    }
    let name = match &state.current_name {
        Some(n) => n.clone(),
        None => {
            return None;
        },
    };
    if str_eq(state.current_tag.as_str(), "string") {
        return Some(ParsedResource {
            name,
            kind: ResourceKind::String,
            value: ScalarValue::Text(text.clone()),
        });
    }
    if str_eq(state.current_tag.as_str(), "number") || str_eq(state.current_tag.as_str(), "int")
        || str_eq(state.current_tag.as_str(), "float") {
        let et: Option<String> = match &state.current_number_type {
            Some(t) => Some(t.clone()),
            None => None,
        };
        return Some(ParsedResource {
            name,
            kind: ResourceKind::Number,
            value: ScalarValue::Number { value: text.clone(), explicit_type: et },
        });
    }
    if str_eq(state.current_tag.as_str(), "bool") {
        if str_eq(text.as_str(), "true") {
            return Some(ParsedResource {
                name,
                kind: ResourceKind::Bool,
                value: ScalarValue::Bool(true),
            });
        }
        if str_eq(text.as_str(), "false") {
            return Some(ParsedResource {
                name,
                kind: ResourceKind::Bool,
                value: ScalarValue::Bool(false),
            });
        }
        return None;
    }
    if str_eq(state.current_tag.as_str(), "color") {
        return Some(ParsedResource {
            name,
            kind: ResourceKind::Color,
            value: ScalarValue::Color(text.clone()),
        });
    }
    if str_eq(state.current_tag.as_str(), "url") {
        return Some(ParsedResource {
            name,
            kind: ResourceKind::Url,
            value: ScalarValue::Url(text.clone()),
        });
    }
    if str_eq(state.current_tag.as_str(), "dimension") {
        return Some(ParsedResource {
            name,
            kind: ResourceKind::Dimension,
            value: ScalarValue::Dimension(text.clone()),
        });
    }
    if str_eq(state.current_tag.as_str(), "template") && text.unicode_len() > 0 {
        state.template_text.append(text.as_str());
        state.template_text.append(" ");
        proof {
            reveal_strlit(" ");
            assert(" "@ =~= seq![' ']);
            assert(state.template_text@ =~= old(state)@.template_text + text@ + seq![' ']);
        }
        return None;
    }
    None
}

/// Applies a closing tag to the state: grouping tags pop a namespace level,
/// a closing `template` element or template-attribute declaration completes
/// into one template resource, and other closing tags clear the open
/// declaration.
pub fn handle_end(state: &mut ParserState, name: &String) -> (r: Option<ParsedResource>)
    ensures
        ({
            let (st2, pr) = spec_handle_end(old(state)@, name@);
            final(state)@ == st2 && (match r {
                Some(x) => pr == Some(x@),
                None => pr is None,
            })
        }),
{
    if str_eq(name.as_str(), "ns") {
        let ghost prev = state.namespace_stack.deep_view();
        if state.namespace_stack.len() > 0 {
            state.namespace_stack.pop();
            proof {
                assert(state.namespace_stack.deep_view() =~= prev.drop_last());
            }
        }
        return None;
    }
    let is_number_tag = str_eq(name.as_str(), "number") || str_eq(name.as_str(), "int") || str_eq(
        name.as_str(),
        "float",
    );
    let is_scalar_tag = str_eq(name.as_str(), "string") || is_number_tag || str_eq(
        name.as_str(),
        "bool",
    ) || str_eq(name.as_str(), "color");
    if str_eq(name.as_str(), "template") && state.current_name.is_some() {
        let rname = match &state.current_name {
            Some(n) => n.clone(),
            None => String::new(),
        };
        let text_chars = str_to_chars(state.template_text.as_str());
        let trimmed = trim_chars(&text_chars);
        let mut params: Vec<TemplateParam> = Vec::new();
        core::mem::swap(&mut params, &mut state.template_params);
        state.in_template = false;
        state.template_text = String::new();
        state.current_name = None;
        proof {
            assert(state.template_params@.map_values(|p: TemplateParam| p@) =~= Seq::<
                TemplateParamView,
            >::empty());
        }
        return Some(ParsedResource {
            name: rname,
            kind: ResourceKind::Template,
            value: ScalarValue::Template { text: chars_to_string(&trimmed), params },
        });
    }
    if str_eq(name.as_str(), "string") && state.in_string_template {
        let finalized = crate::templates::finalize_template(&state.template_state);
        let r: Option<ParsedResource> = match (finalized, &state.current_name) {
            (Some(v), Some(n)) => Some(ParsedResource {
                name: n.clone(),
                kind: ResourceKind::Template,
                value: v,
            }),
            _ => None,
        };
        state.template_state.reset();
        state.in_string_template = false;
        state.current_name = None;
        state.current_tag = String::new();
        return r;
    }
    if state.in_template && is_scalar_tag {
        state.current_name = None;
        return None;
    }
    if is_scalar_tag || str_eq(name.as_str(), "template") || str_eq(name.as_str(), "url")
        || str_eq(name.as_str(), "dimension") {
        state.current_name = None;
    }
    if is_number_tag {
        state.current_number_type = None;
    }
    state.current_tag = String::new();
    None
}


/// The message of a parse failure at a scan position.
pub open spec fn spec_xml_error_msg(pos: int) -> Seq<char> {
    "XML error at position "@ + crate::text::spec_dec(pos as nat)
}

/// One file's parse outcome: its declarations in document order, or the
/// message placing the first malformed construct.
pub open spec fn spec_parse_file(f: RawResourceFileView) -> Result<
    ParsedResourceFileView,
    Seq<char>,
> {
    match crate::xml::spec_tokenize(f.contents, 0) {
        Ok(evs) => Ok(
            ParsedResourceFileView {
                path: f.path,
                is_test: f.is_test,
                resources: spec_parse_events(evs, spec_initial_state()),
            },
        ),
        Err(p) => Err(spec_xml_error_msg(p)),
    }
}

/// Parses one preprocessed file into its ordered declarations.
pub fn parse_single_file(raw: &RawResourceFile) -> (r: Result<ParsedResourceFile, ParserError>)
    ensures
        match r {
            Ok(pf) => spec_parse_file(raw@) == Ok::<ParsedResourceFileView, Seq<char>>(pf@),
            Err(ParserError::Xml { path, message }) => path@ == raw.path@ && spec_parse_file(
                raw@,
            ) == Err::<ParsedResourceFileView, Seq<char>>(message@),
        },
{
    let chars = str_to_chars(raw.contents.as_str());
    let events = match crate::xml::tokenize(&chars) {
        Ok(evs) => evs,
        Err(p) => {
            let mut msg: Vec<char> = Vec::new();
            push_str(&mut msg, "XML error at position ");
            let d = crate::text::dec_chars(p as u64);
            push_chars(&mut msg, &d);
            proof {
                assert(msg@ =~= spec_xml_error_msg(p as int));
            }
            return Err(
                ParserError::Xml { path: raw.path.clone(), message: chars_to_string(&msg) },
            );
        },
    };
    let ghost evsv = crate::xml::spec_events_view(events@);
    let n = events.len();
    let mut state = ParserState::new();
    let mut resources: Vec<ParsedResource> = Vec::new();
    let mut i: usize = 0;
    proof {
        assert(evsv.skip(0) =~= evsv);
        assert(resources@.map_values(|x: ParsedResource| x@) =~= Seq::<
            ParsedResourceView,
        >::empty());
    }
    while i < n
        invariant
            n == events@.len(),
            evsv == crate::xml::spec_events_view(events@),
            i <= n,
            spec_parse_events(evsv, spec_initial_state()) == resources@.map_values(
                |x: ParsedResource| x@,
            ) + spec_parse_events(evsv.skip(i as int), state@),
        decreases n - i,
    {
        proof {
            assert(evsv.skip(i as int)[0] == evsv[i as int]);
            assert(evsv[i as int] == events@[i as int]@);
            assert(evsv.skip(i as int).drop_first() =~= evsv.skip(i + 1));
        }
        let produced: Option<ParsedResource> = match &events[i] {
            XmlEvent::Start { name, attrs } => {
                handle_start(&mut state, name, attrs);
                None
            },
            XmlEvent::Empty { name, attrs } => {
                handle_start(&mut state, name, attrs);
                None
            },
            XmlEvent::Text { text } => handle_text(&mut state, text),
            XmlEvent::End { name } => handle_end(&mut state, name),
        };
        match produced {
            Some(pr) => {
                let ghost rprev = resources@;
                resources.push(pr);
                proof {
                    let g = |x: ParsedResource| x@;
                    assert(resources@.map_values(g) =~= rprev.map_values(g).push(
                        resources@.last()@,
                    ));
                    assert(rprev.map_values(g).push(resources@.last()@) =~= rprev.map_values(g)
                        + seq![resources@.last()@]);
                    assert(rprev.map_values(g) + (seq![resources@.last()@]
                        + spec_parse_events(evsv.skip(i + 1), state@)) =~= (rprev.map_values(g)
                        + seq![resources@.last()@]) + spec_parse_events(
                        evsv.skip(i + 1),
                        state@,
                    ));
                }
            },
            None => {
                proof {
                    assert(Seq::<ParsedResourceView>::empty() + spec_parse_events(
                        evsv.skip(i + 1),
                        state@,
                    ) =~= spec_parse_events(evsv.skip(i + 1), state@));
                }
            },
        }
        i = i + 1;
    }
    proof {
        assert(evsv.skip(n as int) =~= Seq::<XmlEventView>::empty());
        assert(resources@.map_values(|x: ParsedResource| x@) + Seq::<
            ParsedResourceView,
        >::empty() =~= resources@.map_values(|x: ParsedResource| x@));
    }
    Ok(ParsedResourceFile { path: raw.path.clone(), is_test: raw.is_test, resources })
}

/// The batch parse outcome: every file's declarations, or the first file that
/// fails with its message.
pub open spec fn spec_parse_raw_files(files: Seq<RawResourceFileView>) -> Result<
    Seq<ParsedResourceFileView>,
    (Seq<char>, Seq<char>),
>
    decreases files.len(),
{
    if files.len() == 0 {
        Ok(Seq::empty())
    } else {
        match spec_parse_file(files[0]) {
            Ok(pf) => match spec_parse_raw_files(files.drop_first()) {
                Ok(rest) => Ok(seq![pf] + rest),
                Err(e) => Err(e),
            },
            Err(m) => Err((files[0].path, m)),
        }
    }
}

/// Parses a batch of preprocessed files; one file's failure aborts the batch
/// with that file's error.
pub fn parse_raw_files(raw_files: &Vec<RawResourceFile>) -> (r: Result<
    Vec<ParsedResourceFile>,
    ParserError,
>)
    ensures
        ({
            let m = spec_parse_raw_files(raw_files@.map_values(|f: RawResourceFile| f@));
            match r {
                Ok(parsed) => m matches Ok(ps) && parsed@.map_values(
                    |p: ParsedResourceFile| p@,
                ) == ps,
                Err(ParserError::Xml { path, message }) => m matches Err(e) && e.0 == path@
                    && e.1 == message@,
            }
        }),
{
    let ghost fv = raw_files@.map_values(|f: RawResourceFile| f@);
    let n = raw_files.len();
    let mut out: Vec<ParsedResourceFile> = Vec::new();
    let mut i: usize = 0;
    proof {
        assert(fv.skip(0) =~= fv);
        assert(out@.map_values(|p: ParsedResourceFile| p@) =~= Seq::<
            ParsedResourceFileView,
        >::empty());
    }
    while i < n
        invariant
            n == raw_files@.len(),
            fv == raw_files@.map_values(|f: RawResourceFile| f@),
            i <= n,
            ({
                let acc = out@.map_values(|p: ParsedResourceFile| p@);
                match spec_parse_raw_files(fv.skip(i as int)) {
                    Ok(rest) => spec_parse_raw_files(fv) == Ok::<
                        Seq<ParsedResourceFileView>,
                        (Seq<char>, Seq<char>),
                    >(acc + rest),
                    Err(e) => spec_parse_raw_files(fv) == Err::<
                        Seq<ParsedResourceFileView>,
                        (Seq<char>, Seq<char>),
                    >(e),
                }
            }),
        decreases n - i,
    {
        proof {
            assert(fv.skip(i as int)[0] == fv[i as int]);
            assert(fv[i as int] == raw_files@[i as int]@);
            assert(fv.skip(i as int).drop_first() =~= fv.skip(i + 1));
        }
        match parse_single_file(&raw_files[i]) {
            Ok(pf) => {
                let ghost oprev = out@;
                out.push(pf);
                proof {
                    let g = |p: ParsedResourceFile| p@;
                    assert(out@.map_values(g) =~= oprev.map_values(g).push(out@.last()@));
                    if spec_parse_raw_files(fv.skip(i + 1)) is Ok {
                        assert(oprev.map_values(g) + (seq![out@.last()@]
                            + spec_parse_raw_files(fv.skip(i + 1))->Ok_0) =~= (oprev.map_values(
                            g,
                        ).push(out@.last()@)) + spec_parse_raw_files(fv.skip(i + 1))->Ok_0);
                    }
                }
            },
            Err(e) => {
                return Err(e);
            },
        }
        i = i + 1;
    }
    proof {
        assert(fv.skip(n as int) =~= Seq::<RawResourceFileView>::empty());
        assert(out@.map_values(|p: ParsedResourceFile| p@) + Seq::<
            ParsedResourceFileView,
        >::empty() =~= out@.map_values(|p: ParsedResourceFile| p@));
    }
    Ok(out)
}

} // verus!
