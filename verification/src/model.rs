//! The resource data model: kinds, typed values, nodes and their origins,
//! together with ghost views used by the contracts.

use vstd::prelude::*;

verus! {

/// The kind of a resource, driving dispatch to the matching type handler.
#[derive(Debug, Clone)]
pub enum ResourceKind {
    String,
    Number,
    Bool,
    Color,
    Url,
    Dimension,
    /// An array kind, carrying its element kind's name.
    Array(String),
    Template,
    /// An extension kind, carrying the handler's name.
    Custom(String),
}

/// Ghost view of a resource kind.
pub enum ResourceKindView {
    String,
    Number,
    Bool,
    Color,
    Url,
    Dimension,
    Array(Seq<char>),
    Template,
    Custom(Seq<char>),
}

impl View for ResourceKind {
    type V = ResourceKindView;

    open spec fn view(&self) -> ResourceKindView {
        match self {
            ResourceKind::String => ResourceKindView::String,
            ResourceKind::Number => ResourceKindView::Number,
            ResourceKind::Bool => ResourceKindView::Bool,
            ResourceKind::Color => ResourceKindView::Color,
            ResourceKind::Url => ResourceKindView::Url,
            ResourceKind::Dimension => ResourceKindView::Dimension,
            ResourceKind::Array(e) => ResourceKindView::Array(e@),
            ResourceKind::Template => ResourceKindView::Template,
            ResourceKind::Custom(n) => ResourceKindView::Custom(n@),
        }
    }
}

impl PartialEq for ResourceKind {
    /// Two kinds are equal when they are the same variant, with equal names
    /// for array and extension kinds.
    fn eq(&self, other: &ResourceKind) -> (r: bool) {
        match (self, other) {
            (ResourceKind::String, ResourceKind::String) => true,
            (ResourceKind::Number, ResourceKind::Number) => true,
            (ResourceKind::Bool, ResourceKind::Bool) => true,
            (ResourceKind::Color, ResourceKind::Color) => true,
            (ResourceKind::Url, ResourceKind::Url) => true,
            (ResourceKind::Dimension, ResourceKind::Dimension) => true,
            (ResourceKind::Array(a), ResourceKind::Array(b)) => crate::text::str_eq(
                a.as_str(),
                b.as_str(),
            ),
            (ResourceKind::Template, ResourceKind::Template) => true,
            (ResourceKind::Custom(a), ResourceKind::Custom(b)) => crate::text::str_eq(
                a.as_str(),
                b.as_str(),
            ),
            _ => false,
        }
    }
}

impl Eq for ResourceKind {

}

impl vstd::std_specs::cmp::PartialEqSpecImpl for ResourceKind {
    open spec fn obeys_eq_spec() -> bool {
        true
    }

    open spec fn eq_spec(&self, other: &ResourceKind) -> bool {
        self@ == other@
    }
}

/// An exact numeric type requested through a declaration's `type` attribute.
#[derive(Debug, Clone, Copy, PartialEq, Eq, Structural)]
pub enum NumberType {
    I8,
    I16,
    I32,
    I64,
    U8,
    U16,
    U32,
    U64,
    F32,
    F64,
}

impl NumberType {
    /// The Rust spelling of the type.
    pub fn as_str(&self) -> (r: &'static str)
        ensures
            r@ == spec_number_type_name(*self),
    {
        let r = match self {
            NumberType::I8 => "i8",
            NumberType::I16 => "i16",
            NumberType::I32 => "i32",
            NumberType::I64 => "i64",
            NumberType::U8 => "u8",
            NumberType::U16 => "u16",
            NumberType::U32 => "u32",
            NumberType::U64 => "u64",
            NumberType::F32 => "f32",
            NumberType::F64 => "f64",
        };
        proof {
            reveal_strlit_all();
        }
        r
    }
}

/// The Rust spelling of an explicit numeric type.
pub open spec fn spec_number_type_name(t: NumberType) -> Seq<char> {
    match t {
        NumberType::I8 => seq!['i', '8'],
        NumberType::I16 => seq!['i', '1', '6'],
        NumberType::I32 => seq!['i', '3', '2'],
        NumberType::I64 => seq!['i', '6', '4'],
        NumberType::U8 => seq!['u', '8'],
        NumberType::U16 => seq!['u', '1', '6'],
        NumberType::U32 => seq!['u', '3', '2'],
        NumberType::U64 => seq!['u', '6', '4'],
        NumberType::F32 => seq!['f', '3', '2'],
        NumberType::F64 => seq!['f', '6', '4'],
    }
}

proof fn reveal_strlit_all()
    ensures
        "i8"@ == seq!['i', '8'],
        "i16"@ == seq!['i', '1', '6'],
        "i32"@ == seq!['i', '3', '2'],
        "i64"@ == seq!['i', '6', '4'],
        "u8"@ == seq!['u', '8'],
        "u16"@ == seq!['u', '1', '6'],
        "u32"@ == seq!['u', '3', '2'],
        "u64"@ == seq!['u', '6', '4'],
        "f32"@ == seq!['f', '3', '2'],
        "f64"@ == seq!['f', '6', '4'],
{
    reveal_strlit("i8");
    reveal_strlit("i16");
    reveal_strlit("i32");
    reveal_strlit("i64");
    reveal_strlit("u8");
    reveal_strlit("u16");
    reveal_strlit("u32");
    reveal_strlit("u64");
    reveal_strlit("f32");
    reveal_strlit("f64");
    assert("i8"@ =~= seq!['i', '8']);
    assert("i16"@ =~= seq!['i', '1', '6']);
    assert("i32"@ =~= seq!['i', '3', '2']);
    assert("i64"@ =~= seq!['i', '6', '4']);
    assert("u8"@ =~= seq!['u', '8']);
    assert("u16"@ =~= seq!['u', '1', '6']);
    assert("u32"@ =~= seq!['u', '3', '2']);
    assert("u64"@ =~= seq!['u', '6', '4']);
    assert("f32"@ =~= seq!['f', '3', '2']);
    assert("f64"@ =~= seq!['f', '6', '4']);
}

/// A parsed numeric value, classified by the precision policy.
#[derive(Debug, Clone)]
pub enum NumberValue {
    /// An integer literal that fits a 64-bit signed integer.
    Int(i64),
    /// A decimal literal of at most fifteen significant digits, kept as its
    /// literal text.
    Float(String),
    /// A literal that needs arbitrary precision, kept as its literal text.
    BigDecimal(String),
    /// A literal carrying an explicit numeric type, validated to fit it.
    Typed { literal: String, ty: NumberType },
}

/// Ghost view of a numeric value.
pub enum NumberValueView {
    Int(i64),
    Float(Seq<char>),
    BigDecimal(Seq<char>),
    Typed { literal: Seq<char>, ty: NumberType },
}

impl View for NumberValue {
    type V = NumberValueView;

    open spec fn view(&self) -> NumberValueView {
        match self {
            NumberValue::Int(i) => NumberValueView::Int(*i),
            NumberValue::Float(s) => NumberValueView::Float(s@),
            NumberValue::BigDecimal(s) => NumberValueView::BigDecimal(s@),
            NumberValue::Typed { literal, ty } => NumberValueView::Typed {
                literal: literal@,
                ty: *ty,
            },
        }
    }
}

/// One segment of an interpolated string: literal text, or a reference to
/// another resource.
#[derive(Debug, Clone)]
pub enum InterpolationPart {
    /// Literal text.
    Text(String),
    /// A reference to the resource of `resource_type` named `key`.
    Reference { resource_type: String, key: String },
}

/// Ghost view of an interpolation segment.
pub enum InterpolationPartView {
    Text(Seq<char>),
    Reference { resource_type: Seq<char>, key: Seq<char> },
}

impl View for InterpolationPart {
    type V = InterpolationPartView;

    open spec fn view(&self) -> InterpolationPartView {
        match self {
            InterpolationPart::Text(s) => InterpolationPartView::Text(s@),
            InterpolationPart::Reference { resource_type, key } => {
                InterpolationPartView::Reference { resource_type: resource_type@, key: key@ }
            },
        }
    }
}

/// The declared type of one template parameter.
#[derive(Debug, Clone)]
pub enum TemplateParamValue {
    String,
    Number { explicit_type: Option<String> },
    Bool,
    Color,
}

/// Ghost view of a template parameter type.
pub enum TemplateParamValueView {
    String,
    Number { explicit_type: Option<Seq<char>> },
    Bool,
    Color,
}

impl View for TemplateParamValue {
    type V = TemplateParamValueView;

    open spec fn view(&self) -> TemplateParamValueView {
        match self {
            TemplateParamValue::String => TemplateParamValueView::String,
            TemplateParamValue::Number { explicit_type } => TemplateParamValueView::Number {
                explicit_type: match explicit_type {
                    Some(t) => Some(t@),
                    None => None,
                },
            },
            TemplateParamValue::Bool => TemplateParamValueView::Bool,
            TemplateParamValue::Color => TemplateParamValueView::Color,
        }
    }
}

/// A named, typed template parameter in declaration order.
#[derive(Debug, Clone)]
pub struct TemplateParam {
    pub name: String,
    pub value: TemplateParamValue,
}

/// Ghost view of a template parameter.
pub struct TemplateParamView {
    pub name: Seq<char>,
    pub value: TemplateParamValueView,
}

impl View for TemplateParam {
    type V = TemplateParamView;

    open spec fn view(&self) -> TemplateParamView {
        TemplateParamView { name: self.name@, value: self.value@ }
    }
}

/// A resource's value.
#[derive(Debug, Clone)]
pub enum ResourceValue {
    /// A plain text constant.
    String(String),
    /// A numeric constant.
    Number(NumberValue),
    /// A boolean constant.
    Bool(bool),
    /// A color literal kept as text (`#RRGGBB` or `#AARRGGBB`).
    Color(String),
    /// A URL kept as text.
    Url(String),
    /// A dimension with its unit, kept as text.
    Dimension(String),
    /// An ordered array of strings.
    StringArray(Vec<String>),
    /// An ordered array of 64-bit integers.
    IntArray(Vec<i64>),
    /// An ordered array of decimal literals, kept as text.
    FloatArray(Vec<String>),
    /// A value that points at another resource instead of holding a literal.
    Reference { resource_type: String, key: String },
    /// A string with embedded references, resolved at generation time.
    InterpolatedString(Vec<InterpolationPart>),
    /// A parametric template producing a callable.
    Template { text: String, params: Vec<TemplateParam> },
}

/// Ghost view of a resource value.
pub enum ResourceValueView {
    String(Seq<char>),
    Number(NumberValueView),
    Bool(bool),
    Color(Seq<char>),
    Url(Seq<char>),
    Dimension(Seq<char>),
    StringArray(Seq<Seq<char>>),
    IntArray(Seq<i64>),
    FloatArray(Seq<Seq<char>>),
    Reference { resource_type: Seq<char>, key: Seq<char> },
    InterpolatedString(Seq<InterpolationPartView>),
    Template { text: Seq<char>, params: Seq<TemplateParamView> },
}

impl View for ResourceValue {
    type V = ResourceValueView;

    open spec fn view(&self) -> ResourceValueView {
        match self {
            ResourceValue::String(s) => ResourceValueView::String(s@),
            ResourceValue::Number(n) => ResourceValueView::Number(n@),
            ResourceValue::Bool(b) => ResourceValueView::Bool(*b),
            ResourceValue::Color(s) => ResourceValueView::Color(s@),
            ResourceValue::Url(s) => ResourceValueView::Url(s@),
            ResourceValue::Dimension(s) => ResourceValueView::Dimension(s@),
            ResourceValue::StringArray(v) => ResourceValueView::StringArray(v.deep_view()),
            ResourceValue::IntArray(v) => ResourceValueView::IntArray(v@),
            ResourceValue::FloatArray(v) => ResourceValueView::FloatArray(v.deep_view()),
            ResourceValue::Reference { resource_type, key } => ResourceValueView::Reference {
                resource_type: resource_type@,
                key: key@,
            },
            ResourceValue::InterpolatedString(parts) => ResourceValueView::InterpolatedString(
                parts@.map_values(|p: InterpolationPart| p@),
            ),
            ResourceValue::Template { text, params } => ResourceValueView::Template {
                text: text@,
                params: params@.map_values(|p: TemplateParam| p@),
            },
        }
    }
}

/// Where a declaration came from: its file, and whether that file belongs to
/// the test-only resource directory.
#[derive(Debug, Clone)]
pub struct ResourceOrigin {
    pub file: String,
    pub line: Option<u32>,
    pub profile: Option<String>,
    pub is_test: bool,
}

/// Ghost view of an origin.
pub struct ResourceOriginView {
    pub file: Seq<char>,
    pub line: Option<u32>,
    pub profile: Option<Seq<char>>,
    pub is_test: bool,
}

impl View for ResourceOrigin {
    type V = ResourceOriginView;

    open spec fn view(&self) -> ResourceOriginView {
        ResourceOriginView {
            file: self.file@,
            line: self.line,
            profile: match &self.profile {
                Some(p) => Some(p@),
                None => None,
            },
            is_test: self.is_test,
        }
    }
}

impl ResourceOrigin {
    /// An origin with only the file and the test flag set.
    pub fn new(file: &str, is_test: bool) -> (r: ResourceOrigin)
        ensures
            r@ == (ResourceOriginView { file: file@, line: None, profile: None, is_test }),
    {
        ResourceOrigin { file: file.to_owned(), line: None, profile: None, is_test }
    }
}

/// One definition of a resource: its kind, its value and its origin.
/// Immutable once built.
#[derive(Debug, Clone)]
pub struct ResourceNode {
    pub kind: ResourceKind,
    pub value: ResourceValue,
    pub origin: ResourceOrigin,
}

/// Ghost view of a node.
pub struct ResourceNodeView {
    pub kind: ResourceKindView,
    pub value: ResourceValueView,
    pub origin: ResourceOriginView,
}

impl View for ResourceNode {
    type V = ResourceNodeView;

    open spec fn view(&self) -> ResourceNodeView {
        ResourceNodeView { kind: self.kind@, value: self.value@, origin: self.origin@ }
    }
}

} // verus!
