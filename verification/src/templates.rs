//! Template sub-state for the attribute dialect: a `template` attribute on a
//! string declaration carries the body, and nested `param` elements declare
//! the typed parameters in order.

use vstd::prelude::*;

use crate::model::TemplateParam;
use crate::model::TemplateParamValue;
use crate::model::TemplateParamValueView;
use crate::model::TemplateParamView;
use crate::parse::ScalarValue;
use crate::parse::ScalarValueView;

verus! {

/// Template state carried while the surrounding declaration is open.
pub struct TemplateState {
    /// The template body, from the `template` attribute.
    pub template_string: Option<String>,
    /// The parameters declared so far, in order.
    pub parameters: Vec<TemplateParam>,
}

/// Ghost view of the template state.
pub struct TemplateStateView {
    pub template_string: Option<Seq<char>>,
    pub parameters: Seq<TemplateParamView>,
}

impl View for TemplateState {
    type V = TemplateStateView;

    open spec fn view(&self) -> TemplateStateView {
        TemplateStateView {
            template_string: match &self.template_string {
                Some(t) => Some(t@),
                None => None,
            },
            parameters: self.parameters@.map_values(|p: TemplateParam| p@),
        }
    }
}

impl TemplateState {
    /// An empty template state.
    pub fn new() -> (r: TemplateState)
        ensures
            r@ == (TemplateStateView { template_string: None, parameters: Seq::empty() }),
    {
        let r = TemplateState { template_string: None, parameters: Vec::new() };
        proof {
            assert(r@.parameters =~= Seq::<TemplateParamView>::empty());
        }
        r
    }

    /// Clears the state for the next declaration.
    pub fn reset(&mut self)
        ensures
            final(self)@ == (TemplateStateView {
                template_string: None,
                parameters: Seq::empty(),
            }),
    {
        self.template_string = None;
        self.parameters = Vec::new();
        proof {
            assert(self@.parameters =~= Seq::<TemplateParamView>::empty());
        }
    }
}

/// The parameter type named by a `param` element's `type` attribute; unknown
/// names fall back to string.
pub open spec fn spec_param_type(t: Seq<char>) -> TemplateParamValueView {
    let l = crate::text::spec_lower(t);
    if l == "string"@ {
        TemplateParamValueView::String
    } else if l == "int"@ {
        TemplateParamValueView::Number { explicit_type: None }
    } else if l == "float"@ {
        TemplateParamValueView::Number { explicit_type: Some("f64"@) }
    } else if l == "bool"@ {
        TemplateParamValueView::Bool
    } else {
        TemplateParamValueView::String
    }
}

/// Records a `template` attribute's body in the state.
pub fn handle_template_attribute(attr_value: &str, state: &mut TemplateState)
    ensures
        final(state)@ == (TemplateStateView {
            template_string: Some(attr_value@),
            parameters: old(state)@.parameters,
        }),
{
    state.template_string = Some(attr_value.to_owned());
}

/// Records one `param` element: its name, and its type (string, int, float
/// or bool; unknown names fall back to string).
pub fn handle_param_tag(name: &str, type_str: &str, state: &mut TemplateState)
    ensures
        final(state)@ == (TemplateStateView {
            template_string: old(state)@.template_string,
            parameters: old(state)@.parameters.push(
                TemplateParamView { name: name@, value: spec_param_type(type_str@) },
            ),
        }),
{
    let tc = crate::text::str_to_chars(type_str);
    let lc = crate::text::to_lower_chars(&tc);
    let ls = crate::text::chars_to_string(&lc);
    let value: TemplateParamValue = if crate::text::str_eq(ls.as_str(), "string") {
        TemplateParamValue::String
    } else if crate::text::str_eq(ls.as_str(), "int") {
        TemplateParamValue::Number { explicit_type: None }
    } else if crate::text::str_eq(ls.as_str(), "float") {
        TemplateParamValue::Number { explicit_type: Some("f64".to_owned()) }
    } else if crate::text::str_eq(ls.as_str(), "bool") {
        TemplateParamValue::Bool
    } else {
        TemplateParamValue::String
    };
    let ghost prev = state.parameters@;
    state.parameters.push(TemplateParam { name: name.to_owned(), value });
    proof {
        assert(state.parameters@.map_values(|p: TemplateParam| p@) =~= prev.map_values(
            |p: TemplateParam| p@,
        ).push(TemplateParamView { name: name@, value: spec_param_type(type_str@) }));
    }
}

/// The finalized template value, where a body was declared and is non-empty.
pub open spec fn spec_finalize_template(st: TemplateStateView) -> Option<ScalarValueView> {
    match st.template_string {
        Some(t) => if t.len() > 0 {
            Some(ScalarValueView::Template { text: t, params: st.parameters })
        } else {
            None
        },
        None => None,
    }
}

/// Closes the open template: a declared, non-empty body yields a template
/// value with the parameters in declaration order.
pub fn finalize_template(state: &TemplateState) -> (r: Option<ScalarValue>)
    ensures
        match r {
            Some(v) => spec_finalize_template(state@) == Some(v@),
            None => spec_finalize_template(state@) is None,
        },
{
    match &state.template_string {
        Some(template_str) => {
            if template_str.unicode_len() > 0 {
                let mut params: Vec<TemplateParam> = Vec::new();
                let n = state.parameters.len();
                let mut i: usize = 0;
                while i < n
                    invariant
                        n == state.parameters@.len(),
                        i <= n,
                        params@.map_values(|p: TemplateParam| p@) == state.parameters@.take(
                            i as int,
                        ).map_values(|p: TemplateParam| p@),
                    decreases n - i,
                {
                    let ghost pprev = params@;
                    params.push(clone_param(&state.parameters[i]));
                    i = i + 1;
                    proof {
                        let f = |p: TemplateParam| p@;
                        assert(state.parameters@.take(i as int) =~= state.parameters@.take(
                            i - 1,
                        ).push(state.parameters@[i - 1]));
                        assert(state.parameters@.take(i - 1).push(
                            state.parameters@[i - 1],
                        ).map_values(f) =~= state.parameters@.take(i - 1).map_values(f).push(
                            f(state.parameters@[i - 1]),
                        ));
                        assert(pprev.push(params@[i - 1]).map_values(f) =~= pprev.map_values(
                            f,
                        ).push(f(params@[i - 1])));
                    }
                }
                proof {
                    assert(state.parameters@.take(n as int) =~= state.parameters@);
                }
                Some(ScalarValue::Template { text: template_str.clone(), params })
            } else {
                None
            }
        },
        None => None,
    }
}

/// Copies one template parameter.
pub fn clone_param(p: &TemplateParam) -> (r: TemplateParam)
    ensures
        r@ == p@,
{
    TemplateParam {
        name: p.name.clone(),
        value: match &p.value {
            TemplateParamValue::String => TemplateParamValue::String,
            TemplateParamValue::Number { explicit_type } => TemplateParamValue::Number {
                explicit_type: match explicit_type {
                    Some(t) => Some(t.clone()),
                    None => None,
                },
            },
            TemplateParamValue::Bool => TemplateParamValue::Bool,
            TemplateParamValue::Color => TemplateParamValue::Color,
        },
    }
}

} // verus!
