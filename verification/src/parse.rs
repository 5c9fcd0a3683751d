//! The parser's output model: one file's ordered, flat resource declarations,
//! each with its (namespace-qualified) name, kind and raw scalar value.

use vstd::prelude::*;

use crate::model::TemplateParam;
use crate::model::TemplateParamView;

verus! {

/// The kind of a parsed declaration, as given by its tag.
#[derive(Debug, Clone, PartialEq, Eq, Structural)]
pub enum ResourceKind {
    String,
    Number,
    Bool,
    Color,
    Url,
    Dimension,
    Array,
    Template,
}

/// The raw value carried by one parsed declaration.
#[derive(Debug, Clone)]
pub enum ScalarValue {
    /// Text content.
    Text(String),
    /// A numeric literal, with the optional explicit type attribute.
    Number { value: String, explicit_type: Option<String> },
    /// A boolean.
    Bool(bool),
    /// A color literal.
    Color(String),
    /// A URL.
    Url(String),
    /// A dimension with its unit.
    Dimension(String),
    /// An array of item texts, with its element kind's name.
    Array { kind: String, items: Vec<String> },
    /// A template body with its declared parameters in order.
    Template { text: String, params: Vec<TemplateParam> },
}

/// Ghost view of a scalar value.
pub enum ScalarValueView {
    Text(Seq<char>),
    Number { value: Seq<char>, explicit_type: Option<Seq<char>> },
    Bool(bool),
    Color(Seq<char>),
    Url(Seq<char>),
    Dimension(Seq<char>),
    Array { kind: Seq<char>, items: Seq<Seq<char>> },
    Template { text: Seq<char>, params: Seq<TemplateParamView> },
}

impl View for ScalarValue {
    type V = ScalarValueView;

    open spec fn view(&self) -> ScalarValueView {
        match self {
            ScalarValue::Text(s) => ScalarValueView::Text(s@),
            ScalarValue::Number { value, explicit_type } => ScalarValueView::Number {
                value: value@,
                explicit_type: match explicit_type {
                    Some(t) => Some(t@),
                    None => None,
                },
            },
            ScalarValue::Bool(b) => ScalarValueView::Bool(*b),
            ScalarValue::Color(s) => ScalarValueView::Color(s@),
            ScalarValue::Url(s) => ScalarValueView::Url(s@),
            ScalarValue::Dimension(s) => ScalarValueView::Dimension(s@),
            ScalarValue::Array { kind, items } => ScalarValueView::Array {
                kind: kind@,
                items: items.deep_view(),
            },
            ScalarValue::Template { text, params } => ScalarValueView::Template {
                text: text@,
                params: params@.map_values(|p: TemplateParam| p@),
            },
        }
    }
}

impl ScalarValue {
    /// The text of a textual or numeric value.
    pub fn as_text(&self) -> (r: Option<&str>)
        ensures
            match r {
                Some(t) => (self@ matches ScalarValueView::Text(s) && s == t@) || (
                self@ matches ScalarValueView::Number { value, .. } && value == t@),
                None => !(self@ is Text) && !(self@ is Number),
            },
    {
        match self {
            ScalarValue::Text(value) => Some(value.as_str()),
            ScalarValue::Number { value, .. } => Some(value.as_str()),
            _ => None,
        }
    }

    /// The literal of a numeric value.
    pub fn as_number(&self) -> (r: Option<&str>)
        ensures
            match r {
                Some(t) => self@ matches ScalarValueView::Number { value, .. } && value == t@,
                None => !(self@ is Number),
            },
    {
        match self {
            ScalarValue::Number { value, .. } => Some(value.as_str()),
            _ => None,
        }
    }

    /// The explicit type attribute of a numeric value.
    pub fn number_explicit_type(&self) -> (r: Option<&str>)
        ensures
            match r {
                Some(t) => self@ matches ScalarValueView::Number { explicit_type, .. }
                    && explicit_type == Some(t@),
                None => self@ is Number ==> (self@ matches ScalarValueView::Number {
                    explicit_type,
                    ..
                } && explicit_type is None),
            },
    {
        match self {
            ScalarValue::Number { explicit_type, .. } => match explicit_type {
                Some(t) => Some(t.as_str()),
                None => None,
            },
            _ => None,
        }
    }

    /// The text of a color value.
    pub fn as_color(&self) -> (r: Option<&str>)
        ensures
            match r {
                Some(t) => self@ matches ScalarValueView::Color(s) && s == t@,
                None => !(self@ is Color),
            },
    {
        match self {
            ScalarValue::Color(value) => Some(value.as_str()),
            _ => None,
        }
    }

    /// The flag of a boolean value.
    pub fn as_bool(&self) -> (r: Option<bool>)
        ensures
            match r {
                Some(b) => self@ == ScalarValueView::Bool(b),
                None => !(self@ is Bool),
            },
    {
        match self {
            ScalarValue::Bool(value) => Some(*value),
            _ => None,
        }
    }
}

/// One parsed declaration: its qualified name, kind and raw value.
#[derive(Debug, Clone)]
pub struct ParsedResource {
    pub name: String,
    pub kind: ResourceKind,
    pub value: ScalarValue,
}

/// Ghost view of a parsed declaration.
pub struct ParsedResourceView {
    pub name: Seq<char>,
    pub kind: ResourceKind,
    pub value: ScalarValueView,
}

impl View for ParsedResource {
    type V = ParsedResourceView;

    open spec fn view(&self) -> ParsedResourceView {
        ParsedResourceView { name: self.name@, kind: self.kind, value: self.value@ }
    }
}

impl ParsedResource {
    /// A string declaration.
    pub fn string(name: &str, value: &str) -> (r: ParsedResource)
        ensures
            r@ == (ParsedResourceView {
                name: name@,
                kind: ResourceKind::String,
                value: ScalarValueView::Text(value@),
            }),
    {
        ParsedResource {
            name: name.to_owned(),
            kind: ResourceKind::String,
            value: ScalarValue::Text(value.to_owned()),
        }
    }

    /// A numeric declaration, with its optional explicit type.
    pub fn number(name: &str, value: &str, explicit_type: Option<String>) -> (r: ParsedResource)
        ensures
            r@ == (ParsedResourceView {
                name: name@,
                kind: ResourceKind::Number,
                value: ScalarValueView::Number {
                    value: value@,
                    explicit_type: match explicit_type {
                        Some(t) => Some(t@),
                        None => None,
                    },
                },
            }),
    {
        ParsedResource {
            name: name.to_owned(),
            kind: ResourceKind::Number,
            value: ScalarValue::Number { value: value.to_owned(), explicit_type },
        }
    }

    /// A boolean declaration.
    pub fn bool(name: &str, value: bool) -> (r: ParsedResource)
        ensures
            r@ == (ParsedResourceView {
                name: name@,
                kind: ResourceKind::Bool,
                value: ScalarValueView::Bool(value),
            }),
    {
        ParsedResource {
            name: name.to_owned(),
            kind: ResourceKind::Bool,
            value: ScalarValue::Bool(value),
        }
    }
}

/// One parsed file: its path, whether it came from the test-only directory,
/// and its declarations in document order.
#[derive(Debug, Clone)]
pub struct ParsedResourceFile {
    pub path: String,
    pub is_test: bool,
    pub resources: Vec<ParsedResource>,
}

/// Ghost view of a parsed file.
pub struct ParsedResourceFileView {
    pub path: Seq<char>,
    pub is_test: bool,
    pub resources: Seq<ParsedResourceView>,
}

impl View for ParsedResourceFile {
    type V = ParsedResourceFileView;

    open spec fn view(&self) -> ParsedResourceFileView {
        ParsedResourceFileView {
            path: self.path@,
            is_test: self.is_test,
            resources: self.resources@.map_values(|r: ParsedResource| r@),
        }
    }
}

impl ParsedResourceFile {
    /// Bundles a file's declarations with their origin.
    pub fn new(path: &str, is_test: bool, resources: Vec<ParsedResource>) -> (r:
        ParsedResourceFile)
        ensures
            r@ == (ParsedResourceFileView {
                path: path@,
                is_test,
                resources: resources@.map_values(|x: ParsedResource| x@),
            }),
    {
        ParsedResourceFile { path: path.to_owned(), is_test, resources }
    }
}

/// A parse failure: the file, and a message placing the malformed construct.
#[derive(Debug)]
pub enum ParserError {
    Xml { path: String, message: String },
}

} // verus!
