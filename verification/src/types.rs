//! Per-kind resource type handlers and their registry: each handler owns
//! value construction from a parsed declaration and code emission for its
//! kind. Adding a resource kind means adding one handler; the pipeline does
//! not change.

use vstd::prelude::*;

use crate::key::ResourceKey;
use crate::model::NumberValue;
use crate::model::ResourceKind;
use crate::model::ResourceNode;
use crate::model::ResourceNodeView;
use crate::model::ResourceOrigin;
use crate::model::ResourceValueView;
use crate::model::ResourceValue;
use crate::model::spec_number_type_name;
use crate::number::spec_parse_number;
use crate::parse::ParsedResource;
use crate::parse::ScalarValue;
use crate::parse::ScalarValueView;
use crate::text::chars_to_string;
use crate::text::push_chars;
use crate::text::push_str;
use crate::text::spec_sanitize;
use crate::text::spec_spaces;
use crate::text::spec_upper;
use crate::text::str_to_chars;
use crate::value::spec_parse_string_value;

verus! {

/// Escapes a text for inclusion in an emitted string literal: backslashes,
/// double quotes, newlines, carriage returns and tabs.
pub open spec fn spec_escape_text_char(c: char) -> Seq<char> {
    if c == '\\' {
        seq!['\\', '\\']
    } else if c == '"' {
        seq!['\\', '"']
    } else if c == '\n' {
        seq!['\\', 'n']
    } else if c == '\r' {
        seq!['\\', 'r']
    } else if c == '\t' {
        seq!['\\', 't']
    } else {
        seq![c]
    }
}

/// The escaped text.
pub open spec fn spec_escape_text(s: Seq<char>) -> Seq<char>
    decreases s.len(),
{
    if s.len() == 0 {
        Seq::empty()
    } else {
        spec_escape_text(s.drop_last()) + spec_escape_text_char(s.last())
    }
}

/// Appends the escaped text to `out`.
pub fn push_escaped(out: &mut Vec<char>, s: &str)
    ensures
        final(out)@ == old(out)@ + spec_escape_text(s@),
{
    let chars = str_to_chars(s);
    let n = chars.len();
    let mut i: usize = 0;
    while i < n
        invariant
            n == chars@.len(),
            chars@ == s@,
            i <= n,
            out@ == old(out)@ + spec_escape_text(s@.take(i as int)),
        decreases n - i,
    {
        let c = chars[i];
        if c == '\\' {
            out.push('\\');
            out.push('\\');
        } else if c == '"' {
            out.push('\\');
            out.push('"');
        } else if c == '\n' {
            out.push('\\');
            out.push('n');
        } else if c == '\r' {
            out.push('\\');
            out.push('r');
        } else if c == '\t' {
            out.push('\\');
            out.push('t');
        } else {
            out.push(c);
        }
        i = i + 1;
        proof {
            assert(s@.take(i as int).drop_last() =~= s@.take(i - 1));
            assert(out@ =~= old(out)@ + (spec_escape_text(s@.take(i - 1))
                + spec_escape_text_char(s@[i - 1])));
        }
    }
    proof {
        assert(s@.take(n as int) =~= s@);
    }
}

/// The emitted constant name of a key: its sanitized name in upper case.
pub open spec fn spec_const_name(name: Seq<char>) -> Seq<char> {
    spec_upper(spec_sanitize(name))
}

/// Appends the emitted constant name of `name`.
pub fn push_const_name(out: &mut Vec<char>, name: &str)
    ensures
        final(out)@ == old(out)@ + spec_const_name(name@),
{
    let chars = str_to_chars(name);
    let sanitized = crate::text::sanitize_chars(&chars);
    let upper = crate::text::to_upper_chars(&sanitized);
    push_chars(out, &upper);
}

/// One scalar constant line: `pub const NAME: ty = value;` with indentation.
pub open spec fn spec_const_line(
    indent: nat,
    name: Seq<char>,
    ty: Seq<char>,
    value: Seq<char>,
) -> Seq<char> {
    spec_spaces(indent) + "pub const "@ + spec_const_name(name) + ": "@ + ty + " = "@ + value
        + ";\n"@
}

/// Appends one scalar constant line.
pub fn push_const_line(out: &mut Vec<char>, indent: usize, name: &str, ty: &str, value: &Vec<char>)
    ensures
        final(out)@ == old(out)@ + spec_const_line(indent as nat, name@, ty@, value@),
{
    crate::text::push_spaces(out, indent);
    push_str(out, "pub const ");
    push_const_name(out, name);
    push_str(out, ": ");
    push_str(out, ty);
    push_str(out, " = ");
    push_chars(out, value);
    push_str(out, ";\n");
    proof {
        assert(out@ =~= old(out)@ + spec_const_line(indent as nat, name@, ty@, value@));
    }
}

/// A quoted, escaped string literal.
pub open spec fn spec_quoted(s: Seq<char>) -> Seq<char> {
    seq!['"'] + spec_escape_text(s) + seq!['"']
}

/// Builds a quoted, escaped string literal.
pub fn quoted_chars(s: &str) -> (r: Vec<char>)
    ensures
        r@ == spec_quoted(s@),
{
    let mut out: Vec<char> = Vec::new();
    out.push('"');
    push_escaped(&mut out, s);
    out.push('"');
    proof {
        assert(out@ =~= spec_quoted(s@));
    }
    out
}

/// The handler for plain string declarations.
pub struct StringType;

/// The handler for numeric declarations.
pub struct NumberTypeHandler;

/// The handler for boolean declarations.
pub struct BoolType;

/// The handler for color declarations.
pub struct ColorType;

/// The handler for URL declarations.
pub struct UrlType;

/// The handler for dimension declarations.
pub struct DimensionType;

/// The handler for template declarations.
pub struct TemplateType;

impl StringType {
    /// The handler's name.
    pub fn name(&self) -> (r: &'static str)
        ensures
            r@ == "string"@,
    {
        "string"
    }

    /// The tags this handler accepts.
    pub fn xml_tags(&self) -> (r: &'static [&'static str])
        ensures
            r@.len() == 1,
            r@[0]@ == "string"@,
    {
        &["string"]
    }

    /// The kind this handler owns.
    pub fn resource_kind(&self) -> (r: ResourceKind)
        ensures
            r@ is String,
    {
        ResourceKind::String
    }

    /// Builds a string node: the raw text is classified into a plain string,
    /// a pure reference or an interpolated string at construction time.
    pub fn build_node(&self, parsed: &ParsedResource, origin: ResourceOrigin) -> (r: Option<
        ResourceNode,
    >)
        ensures
            match r {
                Some(node) => parsed.value@ matches ScalarValueView::Text(t) && node@.kind
                    is String && node@.value == spec_parse_string_value(t) && node@.origin
                    == origin@,
                None => !(parsed.value@ is Text),
            },
    {
        match &parsed.value {
            ScalarValue::Text(value) => Some(
                ResourceNode {
                    kind: ResourceKind::String,
                    value: ResourceValue::parse_string_value(value.as_str()),
                    origin,
                },
            ),
            _ => None,
        }
    }

    /// Emits a plain string constant; references and interpolations are
    /// resolved by the generation layer instead.
    pub fn emit_rust(&self, key: &ResourceKey, node: &ResourceNode, indent: usize) -> (r: Option<
        String,
    >)
        ensures
            match r {
                Some(code) => node@.value matches ResourceValueView::String(s) && code@
                    == spec_const_line(indent as nat, key@.name, "&str"@, spec_quoted(s)),
                None => !(node@.value is String),
            },
    {
        match &node.value {
            ResourceValue::String(value) => {
                let mut out: Vec<char> = Vec::new();
                let q = quoted_chars(value.as_str());
                push_const_line(&mut out, indent, key.name.as_str(), "&str", &q);
                proof {
                    assert(out@ =~= spec_const_line(
                        indent as nat,
                        key@.name,
                        "&str"@,
                        spec_quoted(value@),
                    ));
                }
                Some(chars_to_string(&out))
            },
            _ => None,
        }
    }
}

impl BoolType {
    /// The handler's name.
    pub fn name(&self) -> (r: &'static str)
        ensures
            r@ == "bool"@,
    {
        "bool"
    }

    /// The tags this handler accepts.
    pub fn xml_tags(&self) -> (r: &'static [&'static str])
        ensures
            r@.len() == 1,
            r@[0]@ == "bool"@,
    {
        &["bool"]
    }

    /// The kind this handler owns.
    pub fn resource_kind(&self) -> (r: ResourceKind)
        ensures
            r@ is Bool,
    {
        ResourceKind::Bool
    }

    /// Builds a boolean node.
    pub fn build_node(&self, parsed: &ParsedResource, origin: ResourceOrigin) -> (r: Option<
        ResourceNode,
    >)
        ensures
            match r {
                Some(node) => parsed.value@ matches ScalarValueView::Bool(b) && node@.kind
                    is Bool && node@.value == ResourceValueView::Bool(b) && node@.origin
                    == origin@,
                None => !(parsed.value@ is Bool),
            },
    {
        match &parsed.value {
            ScalarValue::Bool(value) => Some(
                ResourceNode {
                    kind: ResourceKind::Bool,
                    value: ResourceValue::Bool(*value),
                    origin,
                },
            ),
            _ => None,
        }
    }

    /// Emits a boolean constant.
    pub fn emit_rust(&self, key: &ResourceKey, node: &ResourceNode, indent: usize) -> (r: Option<
        String,
    >)
        ensures
            match r {
                Some(code) => node@.value matches ResourceValueView::Bool(b) && code@
                    == spec_const_line(indent as nat, key@.name, "bool"@, (if b {
                    "true"@
                } else {
                    "false"@
                })),
                None => !(node@.value is Bool),
            },
    {
        match &node.value {
            ResourceValue::Bool(value) => {
                let mut out: Vec<char> = Vec::new();
                let v = if *value {
                    str_to_chars("true")
                } else {
                    str_to_chars("false")
                };
                push_const_line(&mut out, indent, key.name.as_str(), "bool", &v);
                Some(chars_to_string(&out))
            },
            _ => None,
        }
    }
}

impl ColorType {
    /// The handler's name.
    pub fn name(&self) -> (r: &'static str)
        ensures
            r@ == "color"@,
    {
        "color"
    }

    /// The tags this handler accepts.
    pub fn xml_tags(&self) -> (r: &'static [&'static str])
        ensures
            r@.len() == 1,
            r@[0]@ == "color"@,
    {
        &["color"]
    }

    /// The kind this handler owns.
    pub fn resource_kind(&self) -> (r: ResourceKind)
        ensures
            r@ is Color,
    {
        ResourceKind::Color
    }

    /// Builds a color node, keeping the literal text.
    pub fn build_node(&self, parsed: &ParsedResource, origin: ResourceOrigin) -> (r: Option<
        ResourceNode,
    >)
        ensures
            match r {
                Some(node) => parsed.value@ matches ScalarValueView::Color(c) && node@.kind
                    is Color && node@.value == ResourceValueView::Color(c) && node@.origin
                    == origin@,
                None => !(parsed.value@ is Color),
            },
    {
        match &parsed.value {
            ScalarValue::Color(value) => Some(
                ResourceNode {
                    kind: ResourceKind::Color,
                    value: ResourceValue::Color(value.clone()),
                    origin,
                },
            ),
            _ => None,
        }
    }

    /// Emits a color constant as its literal text.
    pub fn emit_rust(&self, key: &ResourceKey, node: &ResourceNode, indent: usize) -> (r: Option<
        String,
    >)
        ensures
            match r {
                Some(code) => node@.value matches ResourceValueView::Color(c) && code@
                    == spec_const_line(indent as nat, key@.name, "&str"@, spec_quoted(c)),
                None => !(node@.value is Color),
            },
    {
        match &node.value {
            ResourceValue::Color(value) => {
                let mut out: Vec<char> = Vec::new();
                let q = quoted_chars(value.as_str());
                push_const_line(&mut out, indent, key.name.as_str(), "&str", &q);
                Some(chars_to_string(&out))
            },
            _ => None,
        }
    }
}

impl UrlType {
    /// The handler's name.
    pub fn name(&self) -> (r: &'static str)
        ensures
            r@ == "url"@,
    {
        "url"
    }

    /// The tags this handler accepts.
    pub fn xml_tags(&self) -> (r: &'static [&'static str])
        ensures
            r@.len() == 1,
            r@[0]@ == "url"@,
    {
        &["url"]
    }

    /// The kind this handler owns.
    pub fn resource_kind(&self) -> (r: ResourceKind)
        ensures
            r@ is Url,
    {
        ResourceKind::Url
    }

    /// Builds a URL node, keeping the text.
    pub fn build_node(&self, parsed: &ParsedResource, origin: ResourceOrigin) -> (r: Option<
        ResourceNode,
    >)
        ensures
            match r {
                Some(node) => parsed.value@ matches ScalarValueView::Url(u) && node@.kind is Url
                    && node@.value == ResourceValueView::Url(u) && node@.origin == origin@,
                None => !(parsed.value@ is Url),
            },
    {
        match &parsed.value {
            ScalarValue::Url(value) => Some(
                ResourceNode {
                    kind: ResourceKind::Url,
                    value: ResourceValue::Url(value.clone()),
                    origin,
                },
            ),
            _ => None,
        }
    }

    /// Emits a URL constant as its text.
    pub fn emit_rust(&self, key: &ResourceKey, node: &ResourceNode, indent: usize) -> (r: Option<
        String,
    >)
        ensures
            match r {
                Some(code) => node@.value matches ResourceValueView::Url(u) && code@
                    == spec_const_line(indent as nat, key@.name, "&str"@, spec_quoted(u)),
                None => !(node@.value is Url),
            },
    {
        match &node.value {
            ResourceValue::Url(value) => {
                let mut out: Vec<char> = Vec::new();
                let q = quoted_chars(value.as_str());
                push_const_line(&mut out, indent, key.name.as_str(), "&str", &q);
                Some(chars_to_string(&out))
            },
            _ => None,
        }
    }
}

impl DimensionType {
    /// The handler's name.
    pub fn name(&self) -> (r: &'static str)
        ensures
            r@ == "dimension"@,
    {
        "dimension"
    }

    /// The tags this handler accepts.
    pub fn xml_tags(&self) -> (r: &'static [&'static str])
        ensures
            r@.len() == 1,
            r@[0]@ == "dimension"@,
    {
        &["dimension"]
    }

    /// The kind this handler owns.
    pub fn resource_kind(&self) -> (r: ResourceKind)
        ensures
            r@ is Dimension,
    {
        ResourceKind::Dimension
    }

    /// Builds a dimension node, keeping the text with its unit.
    pub fn build_node(&self, parsed: &ParsedResource, origin: ResourceOrigin) -> (r: Option<
        ResourceNode,
    >)
        ensures
            match r {
                Some(node) => parsed.value@ matches ScalarValueView::Dimension(d) && node@.kind
                    is Dimension && node@.value == ResourceValueView::Dimension(d)
                    && node@.origin == origin@,
                None => !(parsed.value@ is Dimension),
            },
    {
        match &parsed.value {
            ScalarValue::Dimension(value) => Some(
                ResourceNode {
                    kind: ResourceKind::Dimension,
                    value: ResourceValue::Dimension(value.clone()),
                    origin,
                },
            ),
            _ => None,
        }
    }

    /// Emits a dimension constant as its text.
    pub fn emit_rust(&self, key: &ResourceKey, node: &ResourceNode, indent: usize) -> (r: Option<
        String,
    >)
        ensures
            match r {
                Some(code) => node@.value matches ResourceValueView::Dimension(d) && code@
                    == spec_const_line(indent as nat, key@.name, "&str"@, spec_quoted(d)),
                None => !(node@.value is Dimension),
            },
    {
        match &node.value {
            ResourceValue::Dimension(value) => {
                let mut out: Vec<char> = Vec::new();
                let q = quoted_chars(value.as_str());
                push_const_line(&mut out, indent, key.name.as_str(), "&str", &q);
                Some(chars_to_string(&out))
            },
            _ => None,
        }
    }
}

/// The emitted text of a numeric constant.
pub open spec fn spec_number_emit(
    indent: nat,
    name: Seq<char>,
    v: crate::model::NumberValueView,
) -> Seq<char> {
    match v {
        crate::model::NumberValueView::Int(i) => spec_const_line(
            indent,
            name,
            "i64"@,
            crate::number::spec_int_canon(i as int),
        ),
        crate::model::NumberValueView::Float(lit) => spec_const_line(
            indent,
            name,
            "f64"@,
            crate::number::spec_float_canon(lit),
        ),
        crate::model::NumberValueView::BigDecimal(raw) => spec_spaces(indent) + "pub static "@
            + spec_const_name(name) + ": std::sync::LazyLock<r_resources::BigDecimal> = std::sync::LazyLock::new(|| {\n"@
            + spec_spaces(indent) + "    r_resources::BigDecimal::from_str(\""@
            + crate::number::spec_escape_literal(raw) + "\").expect(\"valid decimal literal\")\n"@
            + spec_spaces(indent) + "});\n"@,
        crate::model::NumberValueView::Typed { literal, ty } => spec_const_line(
            indent,
            name,
            spec_number_type_name(ty),
            literal,
        ),
    }
}

impl NumberTypeHandler {
    /// The handler's name.
    pub fn name(&self) -> (r: &'static str)
        ensures
            r@ == "number"@,
    {
        "number"
    }

    /// The tags this handler accepts.
    pub fn xml_tags(&self) -> (r: &'static [&'static str])
        ensures
            r@.len() == 3,
            r@[0]@ == "number"@,
            r@[1]@ == "int"@,
            r@[2]@ == "float"@,
    {
        &["number", "int", "float"]
    }

    /// The kind this handler owns.
    pub fn resource_kind(&self) -> (r: ResourceKind)
        ensures
            r@ is Number,
    {
        ResourceKind::Number
    }

    /// Builds a numeric node by classifying the literal; literals that no
    /// numeric form accepts yield no node.
    pub fn build_node(&self, parsed: &ParsedResource, origin: ResourceOrigin) -> (r: Option<
        ResourceNode,
    >)
        ensures
            match r {
                Some(node) => parsed.value@ matches ScalarValueView::Number {
                    value,
                    explicit_type,
                } && spec_parse_number(value, explicit_type) matches Ok(nv) && node@.kind
                    is Number && node@.value == ResourceValueView::Number(nv) && node@.origin
                    == origin@,
                None => !(parsed.value@ is Number) || (parsed.value@
                    matches ScalarValueView::Number { value, explicit_type }
                    && spec_parse_number(value, explicit_type) is Err),
            },
    {
        match &parsed.value {
            ScalarValue::Number { value, explicit_type } => {
                let et: Option<&str> = match explicit_type {
                    Some(t) => Some(t.as_str()),
                    None => None,
                };
                match crate::number::parse_number_value(value.as_str(), et) {
                    Ok(nv) => Some(
                        ResourceNode {
                            kind: ResourceKind::Number,
                            value: ResourceValue::Number(nv),
                            origin,
                        },
                    ),
                    Err(_) => None,
                }
            },
            _ => None,
        }
    }

    /// Emits a numeric constant: integers as 64-bit constants, decimals as
    /// double-precision constants, arbitrary-precision decimals as lazily
    /// parsed statics, and explicitly typed literals at their exact type.
    pub fn emit_rust(&self, key: &ResourceKey, node: &ResourceNode, indent: usize) -> (r: Option<
        String,
    >)
        ensures
            match r {
                Some(code) => node@.value matches ResourceValueView::Number(nv) && code@
                    == spec_number_emit(indent as nat, key@.name, nv),
                None => !(node@.value is Number),
            },
    {
        match &node.value {
            ResourceValue::Number(nv) => {
                let mut out: Vec<char> = Vec::new();
                match nv {
                    NumberValue::Int(i) => {
                        let v = crate::number::int_canon_chars(*i as i128);
                        push_const_line(&mut out, indent, key.name.as_str(), "i64", &v);
                    },
                    NumberValue::Float(lit) => {
                        let chars = str_to_chars(lit.as_str());
                        let v = crate::number::float_canon_chars(&chars);
                        push_const_line(&mut out, indent, key.name.as_str(), "f64", &v);
                    },
                    NumberValue::BigDecimal(raw) => {
                        crate::text::push_spaces(&mut out, indent);
                        push_str(&mut out, "pub static ");
                        push_const_name(&mut out, key.name.as_str());
                        push_str(
                            &mut out,
                            ": std::sync::LazyLock<r_resources::BigDecimal> = std::sync::LazyLock::new(|| {\n",
                        );
                        crate::text::push_spaces(&mut out, indent);
                        push_str(&mut out, "    r_resources::BigDecimal::from_str(\"");
                        let esc = crate::number::escape_literal(raw.as_str());
                        push_str(&mut out, esc.as_str());
                        push_str(&mut out, "\").expect(\"valid decimal literal\")\n");
                        crate::text::push_spaces(&mut out, indent);
                        push_str(&mut out, "});\n");
                        proof {
                            assert(out@ =~= spec_number_emit(indent as nat, key@.name, nv@));
                        }
                    },
                    NumberValue::Typed { literal, ty } => {
                        let v = str_to_chars(literal.as_str());
                        push_const_line(&mut out, indent, key.name.as_str(), ty.as_str(), &v);
                    },
                }
                Some(chars_to_string(&out))
            },
            _ => None,
        }
    }
}


/// Length of the leading run of ASCII digits.
pub open spec fn spec_digit_run(s: Seq<char>) -> int
    decreases s.len(),
{
    if s.len() == 0 {
        0
    } else if crate::text::spec_is_digit(s[0]) {
        1 + spec_digit_run(s.drop_first())
    } else {
        0
    }
}

/// The leading digit run is within bounds, covers digits only, and stops at
/// the first non-digit.
pub proof fn lemma_digit_run_props(s: Seq<char>)
    ensures
        0 <= spec_digit_run(s) <= s.len(),
        forall|j: int| 0 <= j < spec_digit_run(s) ==> crate::text::spec_is_digit(s[j]),
        spec_digit_run(s) < s.len() ==> !crate::text::spec_is_digit(s[spec_digit_run(s)]),
    decreases s.len(),
{
    if s.len() > 0 && crate::text::spec_is_digit(s[0]) {
        lemma_digit_run_props(s.drop_first());
        assert forall|j: int|
            1 <= j < spec_digit_run(s) implies crate::text::spec_is_digit(s[j]) by {
            assert(s.drop_first()[j - 1] == s[j]);
        }
    }
}

/// Measures the leading digit run starting at `from`.
fn digit_run_from(s: &Vec<char>, from: usize) -> (r: usize)
    requires
        from <= s@.len(),
    ensures
        r == spec_digit_run(s@.skip(from as int)),
        from + r <= s@.len(),
{
    let ghost sub = s@.skip(from as int);
    let n = s.len();
    let mut i: usize = from;
    while i < n
        invariant
            n == s@.len(),
            from <= i <= n,
            sub == s@.skip(from as int),
            forall|j: int| 0 <= j < i - from ==> crate::text::spec_is_digit(sub[j]),
        decreases n - i,
    {
        proof {
            assert(sub[i - from] == s@[i as int]);
        }
        if !crate::text::is_digit(s[i]) {
            proof {
                lemma_digit_run_exact(sub, i - from);
            }
            return i - from;
        }
        i = i + 1;
    }
    proof {
        lemma_digit_run_exact(sub, n - from);
    }
    n - from
}

proof fn lemma_digit_run_exact(s: Seq<char>, k: int)
    requires
        0 <= k <= s.len(),
        forall|j: int| 0 <= j < k ==> crate::text::spec_is_digit(s[j]),
        k < s.len() ==> !crate::text::spec_is_digit(s[k]),
    ensures
        spec_digit_run(s) == k,
    decreases k,
{
    if k > 0 {
        lemma_digit_run_exact(s.drop_first(), k - 1);
    }
}

/// A placeholder's conversion letter.
pub open spec fn spec_conv_char(c: char) -> bool {
    c == 's' || c == 'd' || c == 'f' || c == 'x' || c == 'X'
}

/// Whether a positional placeholder (`%N$s`-style) occurs in the text.
pub open spec fn spec_has_placeholder(s: Seq<char>) -> bool
    decreases s.len(),
    via spec_has_placeholder_decreases
{
    if s.len() == 0 {
        false
    } else if s[0] == '%' {
        let d = spec_digit_run(s.drop_first());
        let after = 1 + d;
        if d > 0 && after < s.len() && s[after] == '$' {
            if after + 1 < s.len() && spec_conv_char(s[after + 1]) {
                true
            } else {
                spec_has_placeholder(s.skip(after + 1))
            }
        } else {
            spec_has_placeholder(s.skip(if d > 0 {
                after
            } else {
                1
            }))
        }
    } else {
        spec_has_placeholder(s.drop_first())
    }
}

#[via_fn]
proof fn spec_has_placeholder_decreases(s: Seq<char>) {
    if s.len() > 0 && s[0] == '%' {
        lemma_digit_run_props(s.drop_first());
    }
}

/// The set of indices named by positional placeholders in the text, those
/// that fit 64 bits.
pub open spec fn spec_placeholder_set(s: Seq<char>) -> Set<int>
    decreases s.len(),
    via spec_placeholder_set_decreases
{
    if s.len() == 0 {
        Set::empty()
    } else if s[0] == '%' {
        let d = spec_digit_run(s.drop_first());
        let after = 1 + d;
        if d > 0 && after < s.len() && s[after] == '$' {
            let num = crate::number::spec_digits_val(s.subrange(1, after));
            let rest = spec_placeholder_set(s.skip(after + 1));
            if after + 1 < s.len() && spec_conv_char(s[after + 1]) && num <= u64::MAX {
                rest.insert(num)
            } else {
                rest
            }
        } else {
            spec_placeholder_set(s.skip(if d > 0 {
                after
            } else {
                1
            }))
        }
    } else {
        spec_placeholder_set(s.drop_first())
    }
}

#[via_fn]
proof fn spec_placeholder_set_decreases(s: Seq<char>) {
    if s.len() > 0 && s[0] == '%' {
        lemma_digit_run_props(s.drop_first());
    }
}

/// Tests whether the text holds a positional placeholder such as `%1$s`.
pub fn contains_template_placeholders(text: &str) -> (r: bool)
    ensures
        r == spec_has_placeholder(text@),
{
    let chars = str_to_chars(text);
    contains_placeholders_chars(&chars)
}

/// [`contains_template_placeholders`] over character vectors.
pub fn contains_placeholders_chars(s: &Vec<char>) -> (r: bool)
    ensures
        r == spec_has_placeholder(s@),
{
    let n = s.len();
    let mut i: usize = 0;
    proof {
        assert(s@.skip(0) =~= s@);
    }
    while i < n
        invariant
            n == s@.len(),
            i <= n,
            spec_has_placeholder(s@) == spec_has_placeholder(s@.skip(i as int)),
        decreases n - i,
    {
        proof {
            assert(s@.skip(i as int)[0] == s@[i as int]);
            assert(s@.skip(i as int).drop_first() =~= s@.skip(i + 1));
        }
        if s[i] == '%' {
            let d = digit_run_from(s, i + 1);
            proof {
                assert(s@.skip(i as int).drop_first() =~= s@.skip(i + 1));
                assert(spec_digit_run(s@.skip(i as int).drop_first()) == spec_digit_run(
                    s@.skip(i + 1),
                ));
            }
            let after = i + 1 + d;
            if d > 0 && after < n && s[after] == '$' {
                proof {
                    assert(s@.skip(i as int)[1 + d] == s@[after as int]);
                }
                if after + 1 < n {
                    let c = s[after + 1];
                    proof {
                        assert(s@.skip(i as int)[1 + d + 1] == s@[after + 1]);
                    }
                    if c == 's' || c == 'd' || c == 'f' || c == 'x' || c == 'X' {
                        return true;
                    }
                }
                proof {
                    assert(s@.skip(i as int).skip(1 + d + 1) =~= s@.skip(after + 1));
                }
                i = after + 1;
            } else {
                proof {
                    if d > 0 {
                        assert(s@.skip(i as int).skip(1 + d) =~= s@.skip(after as int));
                    } else {
                        assert(s@.skip(i as int).skip(1) =~= s@.skip(i + 1));
                    }
                }
                if d > 0 {
                    i = after;
                } else {
                    i = i + 1;
                }
            }
        } else {
            i = i + 1;
        }
    }
    proof {
        assert(s@.skip(n as int) =~= Seq::<char>::empty());
    }
    false
}


/// The integer set denoted by a list of indices.
pub open spec fn spec_seen_set(v: Seq<u64>) -> Set<int> {
    v.map_values(|x: u64| x as int).to_set()
}

/// Counts the distinct indices named by positional placeholders.
pub fn count_placeholders(template: &str) -> (r: usize)
    ensures
        r == spec_placeholder_set(template@).len(),
{
    let s = str_to_chars(template);
    let n = s.len();
    let mut seen: Vec<u64> = Vec::new();
    let mut i: usize = 0;
    proof {
        assert(s@.skip(0) =~= s@);
        assert(seen@.map_values(|x: u64| x as int) =~= Seq::<int>::empty());
        assert(spec_seen_set(seen@) =~= Set::<int>::empty());
        assert(spec_placeholder_set(s@) =~= spec_seen_set(seen@).union(
            spec_placeholder_set(s@.skip(0)),
        ));
    }
    while i < n
        invariant
            n == s@.len(),
            s@ == template@,
            i <= n,
            seen@.no_duplicates(),
            spec_placeholder_set(s@) == spec_seen_set(seen@).union(
                spec_placeholder_set(s@.skip(i as int)),
            ),
        decreases n - i,
    {
        proof {
            assert(s@.skip(i as int)[0] == s@[i as int]);
            assert(s@.skip(i as int).drop_first() =~= s@.skip(i + 1));
        }
        if s[i] == '%' {
            let d = digit_run_from(&s, i + 1);
            proof {
                assert(spec_digit_run(s@.skip(i as int).drop_first()) == spec_digit_run(
                    s@.skip(i + 1),
                ));
            }
            let after = i + 1 + d;
            if d > 0 && after < n && s[after] == '$' {
                proof {
                    assert(s@.skip(i as int)[1 + d] == s@[after as int]);
                    assert(s@.skip(i as int).skip(1 + d + 1) =~= s@.skip(after + 1));
                    assert(s@.skip(i as int).subrange(1, 1 + d) =~= s@.subrange(
                        i + 1,
                        after as int,
                    ));
                }
                let digits = crate::text::subrange_chars(&s, i + 1, after);
                let num_opt = crate::number::parse_int_in_range(
                    &digits,
                    false,
                    0i128,
                    18446744073709551615i128,
                );
                proof {
                    lemma_digit_run_props(s@.skip(i + 1));
                    assert(forall|j: int|
                        0 <= j < d ==> s@.skip(i + 1)[j] == s@[i + 1 + j]
                            && crate::text::spec_is_digit(#[trigger] s@.skip(i + 1)[j]));
                    assert(forall|j: int|
                        0 <= j < digits@.len() ==> crate::text::spec_is_digit(
                            #[trigger] digits@[j],
                        ));
                    assert(crate::number::spec_all_digits(digits@));
                    crate::number::lemma_digits_val_bounds(digits@);
                    assert(crate::number::spec_parse_int(digits@, false) == Some(
                        crate::number::spec_digits_val(digits@),
                    ));
                }
                let mut conv_ok = false;
                if after + 1 < n {
                    let c = s[after + 1];
                    proof {
                        assert(s@.skip(i as int)[1 + d + 1] == s@[after + 1]);
                    }
                    conv_ok = c == 's' || c == 'd' || c == 'f' || c == 'x' || c == 'X';
                }
                match num_opt {
                    Some(numv) if conv_ok => {
                        let num = numv as u64;
                        let mut present = false;
                        let m = seen.len();
                        let mut j: usize = 0;
                        while j < m
                            invariant
                                m == seen@.len(),
                                j <= m,
                                num as int == crate::number::spec_digits_val(digits@),
                                present == exists|t: int| 0 <= t < j && seen@[t] == num,
                            decreases m - j,
                        {
                            if seen[j] == num {
                                present = true;
                            }
                            j = j + 1;
                        }
                        let ghost oldseen = seen@;
                        if !present {
                            seen.push(num);
                            proof {
                                assert(seen@.drop_last() =~= oldseen);
                                assert(!oldseen.contains(num));
                                assert(seen@.no_duplicates()) by {
                                    assert(forall|a: int, b: int|
                                        0 <= a < b < seen@.len() ==> seen@[a] != seen@[b]);
                                }
                                assert(seen@.map_values(|x: u64| x as int) =~= oldseen.map_values(
                                    |x: u64| x as int,
                                ).push(num as int));
                                oldseen.map_values(|x: u64| x as int).lemma_push_to_set_commute(
                                    num as int,
                                );
                                assert(spec_seen_set(seen@) =~= spec_seen_set(oldseen).insert(
                                    num as int,
                                ));
                            }
                        } else {
                            proof {
                                assert(oldseen.contains(num));
                                assert(spec_seen_set(oldseen).contains(num as int)) by {
                                    let t = choose|t: int|
                                        0 <= t < oldseen.len() && oldseen[t] == num;
                                    assert(oldseen.map_values(|x: u64| x as int)[t] == num as int);
                                    assert(oldseen.map_values(|x: u64| x as int).contains(
                                        num as int,
                                    ));
                                }
                                let rest = spec_placeholder_set(s@.skip(after + 1));
                                assert(spec_seen_set(seen@).union(rest.insert(num as int))
                                    =~= spec_seen_set(seen@).union(rest));
                            }
                        }
                        proof {
                            assert(spec_placeholder_set(s@) =~= spec_seen_set(seen@).union(
                                spec_placeholder_set(s@.skip(after + 1)),
                            ));
                        }
                    },
                    _ => {
                        proof {
                            assert(spec_placeholder_set(s@) =~= spec_seen_set(seen@).union(
                                spec_placeholder_set(s@.skip(after + 1)),
                            ));
                        }
                    },
                }
                i = after + 1;
            } else {
                proof {
                    if d > 0 {
                        assert(s@.skip(i as int).skip(1 + d) =~= s@.skip(after as int));
                    } else {
                        assert(s@.skip(i as int).skip(1) =~= s@.skip(i + 1));
                    }
                }
                if d > 0 {
                    i = after;
                } else {
                    i = i + 1;
                }
            }
        } else {
            i = i + 1;
        }
    }
    proof {
        assert(s@.skip(n as int) =~= Seq::<char>::empty());
        assert(spec_placeholder_set(s@.skip(n as int)) =~= Set::<int>::empty());
        assert(spec_placeholder_set(s@) =~= spec_seen_set(seen@));
        let f = |x: u64| x as int;
        assert(vstd::relations::injective(f)) by {
            assert forall|a: u64, b: u64| #[trigger] f(a) == #[trigger] f(b) implies a == b by {
                assert(f(a) == a as int);
                assert(f(b) == b as int);
            }
        }
        seen@.lemma_no_duplicates_injective(f);
        assert(seen@.map_values(f) == seen@.map_values(|x: u64| x as int));
        seen@.map_values(f).unique_seq_to_set();
        assert(spec_seen_set(seen@) == seen@.map_values(|x: u64| x as int).to_set());
    }
    seen.len()
}


/// The text with every non-overlapping occurrence of `pat` replaced by
/// `rep`, scanning left to right.
pub open spec fn spec_replace(s: Seq<char>, pat: Seq<char>, rep: Seq<char>) -> Seq<char>
    decreases s.len(),
    via spec_replace_decreases
{
    if pat.len() == 0 {
        s
    } else {
        let f = crate::xml::spec_find_sub(s, 0, pat);
        if f + pat.len() > s.len() {
            s
        } else {
            s.take(f) + rep + spec_replace(s.skip(f + pat.len()), pat, rep)
        }
    }
}

#[via_fn]
proof fn spec_replace_decreases(s: Seq<char>, pat: Seq<char>, rep: Seq<char>) {
    if pat.len() > 0 {
        crate::xml::lemma_find_sub_props(s, 0, pat);
    }
}

/// Replaces every occurrence of `pat` by `rep`, scanning left to right.
pub fn replace_chars(s: &Vec<char>, pat: &Vec<char>, rep: &Vec<char>) -> (r: Vec<char>)
    requires
        pat@.len() > 0,
    ensures
        r@ == spec_replace(s@, pat@, rep@),
    decreases s@.len(),
{
    proof {
        crate::xml::lemma_find_sub_props(s@, 0, pat@);
    }
    let n = s.len();
    let m = pat.len();
    let f = crate::xml::find_sub_from(s, 0, pat);
    if m > n || f > n - m {
        let mut out: Vec<char> = Vec::new();
        push_chars(&mut out, s);
        proof {
            assert(out@ =~= s@);
        }
        return out;
    }
    let mut out = crate::text::subrange_chars(s, 0, f);
    push_chars(&mut out, rep);
    let tail = crate::text::subrange_chars(s, f + m, n);
    proof {
        assert(tail@ =~= s@.skip(f + m));
    }
    let rest = replace_chars(&tail, pat, rep);
    push_chars(&mut out, &rest);
    proof {
        assert(out@ =~= spec_replace(s@, pat@, rep@));
    }
    out
}

/// The named-placeholder pattern of one parameter: `{name}`.
pub open spec fn spec_brace_pat(name: Seq<char>) -> Seq<char> {
    seq!['{'] + name + seq!['}']
}

/// One character with braces doubled, so that a brace that is not one of the
/// inserted placeholders stays literal text inside the emitted format string.
pub open spec fn spec_double_brace_char(c: char) -> Seq<char> {
    if c == '{' {
        seq!['{', '{']
    } else if c == '}' {
        seq!['}', '}']
    } else {
        seq![c]
    }
}

/// The text with every brace doubled.
pub open spec fn spec_double_braces(s: Seq<char>) -> Seq<char>
    decreases s.len(),
{
    if s.len() == 0 {
        Seq::empty()
    } else {
        spec_double_braces(s.drop_last()) + spec_double_brace_char(s.last())
    }
}

/// Doubles every brace of the text.
pub fn double_braces_chars(s: &Vec<char>) -> (r: Vec<char>)
    ensures
        r@ == spec_double_braces(s@),
{
    let n = s.len();
    let mut out: Vec<char> = Vec::new();
    let mut i: usize = 0;
    while i < n
        invariant
            n == s@.len(),
            i <= n,
            out@ == spec_double_braces(s@.take(i as int)),
        decreases n - i,
    {
        let c = s[i];
        if c == '{' {
            out.push('{');
            out.push('{');
        } else if c == '}' {
            out.push('}');
            out.push('}');
        } else {
            out.push(c);
        }
        i = i + 1;
        proof {
            assert(s@.take(i as int).drop_last() =~= s@.take(i - 1));
            assert(out@ =~= spec_double_braces(s@.take(i - 1)) + spec_double_brace_char(
                s@[i - 1],
            ));
        }
    }
    proof {
        assert(s@.take(n as int) =~= s@);
    }
    out
}

/// The (brace-doubled) template body with each declared parameter's doubled
/// `{name}` placeholder replaced, in declaration order, by `{}`; a brace that
/// belongs to no declared parameter stays doubled, literal text in the
/// emitted format string.
pub open spec fn spec_fold_named(text: Seq<char>, params: Seq<crate::model::TemplateParamView>) -> Seq<char>
    decreases params.len(),
{
    if params.len() == 0 {
        text
    } else {
        spec_fold_named(
            spec_replace(text, spec_double_braces(spec_brace_pat(params[0].name)), "{}"@),
            params.drop_first(),
        )
    }
}

/// The Rust parameter type of one declared template parameter.
pub open spec fn spec_param_rust_type(v: crate::model::TemplateParamValueView) -> Seq<char> {
    match v {
        crate::model::TemplateParamValueView::String => "&str"@,
        crate::model::TemplateParamValueView::Bool => "bool"@,
        crate::model::TemplateParamValueView::Color => "&str"@,
        crate::model::TemplateParamValueView::Number { explicit_type } => match explicit_type {
            None => "i64"@,
            Some(t) => {
                if t == "bigdecimal"@ {
                    "r_resources::BigDecimal"@
                } else if t == "i8"@ || t == "i16"@ || t == "i32"@ || t == "i64"@ || t == "u8"@
                    || t == "u16"@ || t == "u32"@ || t == "u64"@ || t == "f32"@ || t == "f64"@ {
                    t
                } else {
                    "i64"@
                }
            },
        },
    }
}

/// The Rust parameter type of one declared template parameter.
pub fn param_rust_type(v: &crate::model::TemplateParamValue) -> (r: String)
    ensures
        r@ == spec_param_rust_type(v@),
{
    match v {
        crate::model::TemplateParamValue::String => "&str".to_owned(),
        crate::model::TemplateParamValue::Bool => "bool".to_owned(),
        crate::model::TemplateParamValue::Color => "&str".to_owned(),
        crate::model::TemplateParamValue::Number { explicit_type } => match explicit_type {
            None => "i64".to_owned(),
            Some(t) => {
                if crate::text::str_eq(t.as_str(), "bigdecimal") {
                    "r_resources::BigDecimal".to_owned()
                } else if crate::text::str_eq(t.as_str(), "i8") || crate::text::str_eq(
                    t.as_str(),
                    "i16",
                ) || crate::text::str_eq(t.as_str(), "i32") || crate::text::str_eq(
                    t.as_str(),
                    "i64",
                ) || crate::text::str_eq(t.as_str(), "u8") || crate::text::str_eq(
                    t.as_str(),
                    "u16",
                ) || crate::text::str_eq(t.as_str(), "u32") || crate::text::str_eq(
                    t.as_str(),
                    "u64",
                ) || crate::text::str_eq(t.as_str(), "f32") || crate::text::str_eq(
                    t.as_str(),
                    "f64",
                ) {
                    t.clone()
                } else {
                    "i64".to_owned()
                }
            },
        },
    }
}

/// The signature parameter list of a template's declared parameters.
pub open spec fn spec_params_sig(params: Seq<crate::model::TemplateParamView>) -> Seq<char>
    decreases params.len(),
{
    if params.len() == 0 {
        Seq::empty()
    } else if params.len() == 1 {
        spec_sanitize(params[0].name) + ": "@ + spec_param_rust_type(params[0].value)
    } else {
        spec_params_sig(params.drop_last()) + ", "@ + spec_sanitize(params.last().name) + ": "@
            + spec_param_rust_type(params.last().value)
    }
}

/// The argument list naming a template's declared parameters.
pub open spec fn spec_params_args(params: Seq<crate::model::TemplateParamView>) -> Seq<char>
    decreases params.len(),
{
    if params.len() == 0 {
        Seq::empty()
    } else if params.len() == 1 {
        spec_sanitize(params[0].name)
    } else {
        spec_params_args(params.drop_last()) + ", "@ + spec_sanitize(params.last().name)
    }
}

/// The emitted callable for a template with declared parameters.
pub open spec fn spec_template_fn_named(
    indent: nat,
    name: Seq<char>,
    text: Seq<char>,
    params: Seq<crate::model::TemplateParamView>,
) -> Seq<char> {
    spec_spaces(indent) + "pub fn "@ + spec_sanitize(name) + "("@ + spec_params_sig(params)
        + ") -> String {\n"@ + spec_spaces(indent) + "    format!(\""@ + spec_escape_text(
        spec_fold_named(spec_double_braces(text), params),
    ) + "\", "@ + spec_params_args(params) + ")\n"@ + spec_spaces(indent) + "}\n"@
}


/// The positional pattern `%N$c`.
pub open spec fn spec_pos_pat(n: nat, c: char) -> Seq<char> {
    seq!['%'] + crate::text::spec_dec(n) + seq!['$', c]
}

/// The template body with positional placeholders `%N$s` and `%N$d` replaced
/// by `{}`, for indices one through `upto`.
pub open spec fn spec_fold_pos(text: Seq<char>, upto: nat) -> Seq<char>
    decreases upto,
{
    if upto == 0 {
        text
    } else {
        spec_replace(
            spec_replace(spec_fold_pos(text, (upto - 1) as nat), spec_pos_pat(upto, 's'), "{}"@),
            spec_pos_pat(upto, 'd'),
            "{}"@,
        )
    }
}

/// The signature parameter list `arg1: &str, ...` of a positional template.
pub open spec fn spec_pos_sig(n: nat) -> Seq<char>
    decreases n,
{
    if n == 0 {
        Seq::empty()
    } else if n == 1 {
        "arg1: &str"@
    } else {
        spec_pos_sig((n - 1) as nat) + ", arg"@ + crate::text::spec_dec(n) + ": &str"@
    }
}

/// The argument list `arg1, ...` of a positional template.
pub open spec fn spec_pos_args(n: nat) -> Seq<char>
    decreases n,
{
    if n == 0 {
        Seq::empty()
    } else if n == 1 {
        "arg1"@
    } else {
        spec_pos_args((n - 1) as nat) + ", arg"@ + crate::text::spec_dec(n)
    }
}

/// The emitted callable for a positional template.
pub open spec fn spec_template_fn_pos(
    indent: nat,
    name: Seq<char>,
    text: Seq<char>,
    count: nat,
) -> Seq<char> {
    spec_spaces(indent) + "pub fn "@ + spec_sanitize(name) + "("@ + spec_pos_sig(count)
        + ") -> String {\n"@ + spec_spaces(indent) + "    format!(\""@ + spec_escape_text(
        spec_fold_pos(spec_double_braces(text), count),
    ) + "\", "@ + spec_pos_args(count) + ")\n"@ + spec_spaces(indent) + "}\n"@
}

/// The emitted code of a template node: a callable over its declared
/// parameters, a callable over its positional placeholders, or a plain
/// constant when it has neither.
pub open spec fn spec_template_emit(
    indent: nat,
    name: Seq<char>,
    text: Seq<char>,
    params: Seq<crate::model::TemplateParamView>,
) -> Seq<char> {
    if params.len() > 0 {
        spec_template_fn_named(indent, name, text, params)
    } else {
        let count = spec_placeholder_set(text).len();
        if count == 0 {
            spec_const_line(indent, name, "&str"@, spec_quoted(text))
        } else {
            spec_template_fn_pos(indent, name, text, count)
        }
    }
}

impl TemplateType {
    /// The handler's name.
    pub fn name(&self) -> (r: &'static str)
        ensures
            r@ == "template"@,
    {
        "template"
    }

    /// The tags this handler accepts.
    pub fn xml_tags(&self) -> (r: &'static [&'static str])
        ensures
            r@.len() == 1,
            r@[0]@ == "template"@,
    {
        &["template"]
    }

    /// The kind this handler owns.
    pub fn resource_kind(&self) -> (r: ResourceKind)
        ensures
            r@ is Template,
    {
        ResourceKind::Template
    }

    /// Builds a template node from a template declaration, or from a string
    /// declaration whose text carries positional placeholders.
    pub fn build_node(&self, parsed: &ParsedResource, origin: ResourceOrigin) -> (r: Option<
        ResourceNode,
    >)
        ensures
            match r {
                Some(node) => node@.origin == origin@ && node@.kind is Template && (
                match parsed.value@ {
                    ScalarValueView::Template { text, params } => node@.value
                        == (ResourceValueView::Template { text, params }),
                    ScalarValueView::Text(t) => (parsed.kind
                        == crate::parse::ResourceKind::Template || spec_has_placeholder(t))
                        && node@.value == (ResourceValueView::Template {
                        text: t,
                        params: Seq::empty(),
                    }),
                    _ => false,
                }),
                None => match parsed.value@ {
                    ScalarValueView::Text(t) => parsed.kind
                        != crate::parse::ResourceKind::Template && !spec_has_placeholder(t),
                    ScalarValueView::Template { .. } => false,
                    _ => true,
                },
            },
    {
        match &parsed.value {
            ScalarValue::Template { text, params } => {
                let mut ps: Vec<crate::model::TemplateParam> = Vec::new();
                let n = params.len();
                let mut i: usize = 0;
                while i < n
                    invariant
                        n == params@.len(),
                        i <= n,
                        ps@.map_values(|p: crate::model::TemplateParam| p@) == params@.take(
                            i as int,
                        ).map_values(|p: crate::model::TemplateParam| p@),
                    decreases n - i,
                {
                    let ghost prev = ps@;
                    ps.push(crate::templates::clone_param(&params[i]));
                    i = i + 1;
                    proof {
                        let f = |p: crate::model::TemplateParam| p@;
                        assert(params@.take(i as int) =~= params@.take(i - 1).push(
                            params@[i - 1],
                        ));
                        assert(params@.take(i - 1).push(params@[i - 1]).map_values(f)
                            =~= params@.take(i - 1).map_values(f).push(f(params@[i - 1])));
                        assert(prev.push(ps@[i - 1]).map_values(f) =~= prev.map_values(f).push(
                            f(ps@[i - 1]),
                        ));
                    }
                }
                proof {
                    assert(params@.take(n as int) =~= params@);
                }
                Some(
                    ResourceNode {
                        kind: ResourceKind::Template,
                        value: ResourceValue::Template { text: text.clone(), params: ps },
                        origin,
                    },
                )
            },
            ScalarValue::Text(value) => {
                let is_template = match parsed.kind {
                    crate::parse::ResourceKind::Template => true,
                    _ => contains_template_placeholders(value.as_str()),
                };
                if is_template {
                    let node = ResourceNode {
                        kind: ResourceKind::Template,
                        value: ResourceValue::Template { text: value.clone(), params: Vec::new() },
                        origin,
                    };
                    proof {
                        assert(node@.value->Template_params =~= Seq::<
                            crate::model::TemplateParamView,
                        >::empty());
                    }
                    Some(node)
                } else {
                    None
                }
            },
            _ => None,
        }
    }

    /// Emits a template: a callable formatting its declared parameters, a
    /// callable over positional placeholders, or a plain constant when there
    /// is neither.
    pub fn emit_rust(&self, key: &ResourceKey, node: &ResourceNode, indent: usize) -> (r: Option<
        String,
    >)
        ensures
            match r {
                Some(code) => node@.value matches ResourceValueView::Template { text, params }
                    && code@ == spec_template_emit(indent as nat, key@.name, text, params),
                None => !(node@.value is Template),
            },
    {
        match &node.value {
            ResourceValue::Template { text, params } => {
                let ghost pv = params@.map_values(|p: crate::model::TemplateParam| p@);
                if params.len() > 0 {
                    Some(emit_named_template(key, text, params, indent))
                } else {
                    let count = count_placeholders(text.as_str());
                    proof {
                        assert(pv =~= Seq::<crate::model::TemplateParamView>::empty());
                    }
                    if count == 0 {
                        let mut out: Vec<char> = Vec::new();
                        let q = quoted_chars(text.as_str());
                        push_const_line(&mut out, indent, key.name.as_str(), "&str", &q);
                        Some(chars_to_string(&out))
                    } else {
                        Some(emit_positional_template(key, text, count, indent))
                    }
                }
            },
            _ => None,
        }
    }
}

/// Emits the callable of a template with declared parameters.
fn emit_named_template(
    key: &ResourceKey,
    text: &String,
    params: &Vec<crate::model::TemplateParam>,
    indent: usize,
) -> (r: String)
    requires
        params@.len() > 0,
    ensures
        r@ == spec_template_fn_named(
            indent as nat,
            key@.name,
            text@,
            params@.map_values(|p: crate::model::TemplateParam| p@),
        ),
{
    let ghost pv = params@.map_values(|p: crate::model::TemplateParam| p@);
    let mut out: Vec<char> = Vec::new();
    crate::text::push_spaces(&mut out, indent);
    push_str(&mut out, "pub fn ");
    let namec = str_to_chars(key.name.as_str());
    let sanitized = crate::text::sanitize_chars(&namec);
    push_chars(&mut out, &sanitized);
    push_str(&mut out, "(");
    let n = params.len();
    let ghost mid0 = out@;
    let mut i: usize = 0;
    while i < n
        invariant
            n == params@.len(),
            pv == params@.map_values(|p: crate::model::TemplateParam| p@),
            i <= n,
            out@ == mid0 + spec_params_sig(pv.take(i as int)),
        decreases n - i,
    {
        if i > 0 {
            push_str(&mut out, ", ");
        }
        let pn = str_to_chars(params[i].name.as_str());
        let pns = crate::text::sanitize_chars(&pn);
        push_chars(&mut out, &pns);
        push_str(&mut out, ": ");
        let ty = param_rust_type(&params[i].value);
        push_str(&mut out, ty.as_str());
        i = i + 1;
        proof {
            assert(pv[i - 1] == params@[i - 1]@);
            assert(pv.take(i as int).drop_last() =~= pv.take(i - 1));
            assert(pv.take(i as int).last() == pv[i - 1]);
            assert(out@ =~= mid0 + spec_params_sig(pv.take(i as int)));
        }
    }
    proof {
        assert(pv.take(n as int) =~= pv);
    }
    push_str(&mut out, ") -> String {\n");
    crate::text::push_spaces(&mut out, indent);
    push_str(&mut out, "    format!(\"");
    let textc = str_to_chars(text.as_str());
    let mut acc = double_braces_chars(&textc);
    let mut j: usize = 0;
    proof {
        assert(pv.skip(0) =~= pv);
    }
    while j < n
        invariant
            n == params@.len(),
            pv == params@.map_values(|p: crate::model::TemplateParam| p@),
            j <= n,
            spec_fold_named(spec_double_braces(text@), pv) == spec_fold_named(
                acc@,
                pv.skip(j as int),
            ),
        decreases n - j,
    {
        proof {
            assert(pv.skip(j as int)[0] == pv[j as int]);
            assert(pv[j as int] == params@[j as int]@);
            assert(pv.skip(j as int).drop_first() =~= pv.skip(j + 1));
        }
        let mut pat: Vec<char> = Vec::new();
        pat.push('{');
        push_str(&mut pat, params[j].name.as_str());
        pat.push('}');
        proof {
            assert(pat@ =~= spec_brace_pat(pv[j as int].name));
        }
        let pat2 = double_braces_chars(&pat);
        proof {
            assert(pat@.len() > 0);
            assert(pat2@.len() > 0);
        }
        let rep = str_to_chars("{}");
        acc = replace_chars(&acc, &pat2, &rep);
        j = j + 1;
    }
    proof {
        assert(pv.skip(n as int) =~= Seq::<crate::model::TemplateParamView>::empty());
    }
    let accs = chars_to_string(&acc);
    push_escaped(&mut out, accs.as_str());
    push_str(&mut out, "\", ");
    let mut k: usize = 0;
    let ghost mid = out@;
    while k < n
        invariant
            n == params@.len(),
            pv == params@.map_values(|p: crate::model::TemplateParam| p@),
            k <= n,
            out@ == mid + spec_params_args(pv.take(k as int)),
        decreases n - k,
    {
        if k > 0 {
            push_str(&mut out, ", ");
        }
        let pn = str_to_chars(params[k].name.as_str());
        let pns = crate::text::sanitize_chars(&pn);
        push_chars(&mut out, &pns);
        k = k + 1;
        proof {
            assert(pv[k - 1] == params@[k - 1]@);
            assert(pv.take(k as int).drop_last() =~= pv.take(k - 1));
            assert(pv.take(k as int).last() == pv[k - 1]);
            assert(out@ =~= mid + spec_params_args(pv.take(k as int)));
        }
    }
    proof {
        assert(pv.take(n as int) =~= pv);
    }
    push_str(&mut out, ")\n");
    crate::text::push_spaces(&mut out, indent);
    push_str(&mut out, "}\n");
    proof {
        assert(out@ =~= spec_template_fn_named(indent as nat, key@.name, text@, pv));
    }
    chars_to_string(&out)
}

/// Emits the callable of a positional template.
fn emit_positional_template(key: &ResourceKey, text: &String, count: usize, indent: usize) -> (r:
    String)
    requires
        count > 0,
    ensures
        r@ == spec_template_fn_pos(indent as nat, key@.name, text@, count as nat),
{
    let mut out: Vec<char> = Vec::new();
    crate::text::push_spaces(&mut out, indent);
    push_str(&mut out, "pub fn ");
    let namec = str_to_chars(key.name.as_str());
    let sanitized = crate::text::sanitize_chars(&namec);
    push_chars(&mut out, &sanitized);
    push_str(&mut out, "(");
    let mut k: usize = 0;
    let ghost mid0 = out@;
    proof {
        reveal_strlit("arg1: &str");
        reveal_strlit("arg");
        reveal_strlit(": &str");
        reveal_strlit(", arg");
        reveal_strlit("1");
        assert(crate::text::spec_dec(1nat) =~= "1"@);
        assert("arg"@ + "1"@ + ": &str"@ =~= "arg1: &str"@);
    }
    while k < count
        invariant
            0 <= k <= count,
            out@ == mid0 + spec_pos_sig(k as nat),
            "arg"@ + "1"@ + ": &str"@ == "arg1: &str"@,
            crate::text::spec_dec(1nat) == "1"@,
        decreases count - k,
    {
        if k > 0 {
            push_str(&mut out, ", ");
        }
        push_str(&mut out, "arg");
        let d = crate::text::dec_chars((k + 1) as u64);
        push_chars(&mut out, &d);
        push_str(&mut out, ": &str");
        k = k + 1;
        proof {
            if k == 1 {
                assert(out@ =~= mid0 + spec_pos_sig(1nat));
            } else {
                assert(", "@ + "arg"@ =~= ", arg"@) by {
                    reveal_strlit(", arg");
                    reveal_strlit(", ");
                    reveal_strlit("arg");
                }
                assert(out@ =~= mid0 + spec_pos_sig(k as nat));
            }
        }
    }
    push_str(&mut out, ") -> String {\n");
    crate::text::push_spaces(&mut out, indent);
    push_str(&mut out, "    format!(\"");
    let textc = str_to_chars(text.as_str());
    let mut acc = double_braces_chars(&textc);
    let mut j: usize = 0;
    while j < count
        invariant
            0 <= j <= count,
            acc@ == spec_fold_pos(spec_double_braces(text@), j as nat),
        decreases count - j,
    {
        let mut pat_s: Vec<char> = Vec::new();
        pat_s.push('%');
        let d = crate::text::dec_chars((j + 1) as u64);
        push_chars(&mut pat_s, &d);
        pat_s.push('$');
        pat_s.push('s');
        proof {
            assert(pat_s@ =~= spec_pos_pat((j + 1) as nat, 's'));
        }
        let rep = str_to_chars("{}");
        acc = replace_chars(&acc, &pat_s, &rep);
        let mut pat_d: Vec<char> = Vec::new();
        pat_d.push('%');
        let d2 = crate::text::dec_chars((j + 1) as u64);
        push_chars(&mut pat_d, &d2);
        pat_d.push('$');
        pat_d.push('d');
        proof {
            assert(pat_d@ =~= spec_pos_pat((j + 1) as nat, 'd'));
        }
        acc = replace_chars(&acc, &pat_d, &rep);
        j = j + 1;
    }
    let accs = chars_to_string(&acc);
    push_escaped(&mut out, accs.as_str());
    push_str(&mut out, "\", ");
    let mut a: usize = 0;
    let ghost mid2 = out@;
    proof {
        reveal_strlit("arg1");
        reveal_strlit("arg");
        reveal_strlit("1");
        assert(crate::text::spec_dec(1nat) =~= "1"@);
        assert("arg"@ + "1"@ =~= "arg1"@);
    }
    while a < count
        invariant
            0 <= a <= count,
            out@ == mid2 + spec_pos_args(a as nat),
            "arg"@ + "1"@ == "arg1"@,
            crate::text::spec_dec(1nat) == "1"@,
        decreases count - a,
    {
        if a > 0 {
            push_str(&mut out, ", ");
        }
        push_str(&mut out, "arg");
        let d = crate::text::dec_chars((a + 1) as u64);
        push_chars(&mut out, &d);
        a = a + 1;
        proof {
            if a == 1 {
                assert(out@ =~= mid2 + spec_pos_args(1nat));
            } else {
                assert(", "@ + "arg"@ =~= ", arg"@) by {
                    reveal_strlit(", arg");
                    reveal_strlit(", ");
                    reveal_strlit("arg");
                }
                assert(out@ =~= mid2 + spec_pos_args(a as nat));
            }
        }
    }
    push_str(&mut out, ")\n");
    crate::text::push_spaces(&mut out, indent);
    push_str(&mut out, "}\n");
    proof {
        assert(out@ =~= spec_template_fn_pos(indent as nat, key@.name, text@, count as nat));
    }
    chars_to_string(&out)
}


/// One registered handler.
pub enum TypeHandler {
    String(StringType),
    Number(NumberTypeHandler),
    Bool(BoolType),
    Color(ColorType),
    Url(UrlType),
    Dimension(DimensionType),
    Template(TemplateType),
}

/// The name a handler registers under.
pub open spec fn spec_handler_name(h: &TypeHandler) -> Seq<char> {
    match h {
        TypeHandler::String(_) => "string"@,
        TypeHandler::Number(_) => "number"@,
        TypeHandler::Bool(_) => "bool"@,
        TypeHandler::Color(_) => "color"@,
        TypeHandler::Url(_) => "url"@,
        TypeHandler::Dimension(_) => "dimension"@,
        TypeHandler::Template(_) => "template"@,
    }
}

impl TypeHandler {
    /// The handler's name.
    pub fn name(&self) -> (r: &'static str)
        ensures
            r@ == spec_handler_name(self),
    {
        match self {
            TypeHandler::String(h) => h.name(),
            TypeHandler::Number(h) => h.name(),
            TypeHandler::Bool(h) => h.name(),
            TypeHandler::Color(h) => h.name(),
            TypeHandler::Url(h) => h.name(),
            TypeHandler::Dimension(h) => h.name(),
            TypeHandler::Template(h) => h.name(),
        }
    }

    /// Builds a node for this handler's kind; a declaration of another shape
    /// yields no node.
    pub fn build_node(&self, parsed: &ParsedResource, origin: ResourceOrigin) -> (r: Option<
        ResourceNode,
    >)
        ensures
            match r {
                Some(node) => spec_build_node(self, parsed@.value, parsed.kind, origin@)
                    == Some(node@),
                None => spec_build_node(self, parsed@.value, parsed.kind, origin@) is None,
            },
    {
        match self {
            TypeHandler::String(h) => h.build_node(parsed, origin),
            TypeHandler::Number(h) => h.build_node(parsed, origin),
            TypeHandler::Bool(h) => h.build_node(parsed, origin),
            TypeHandler::Color(h) => h.build_node(parsed, origin),
            TypeHandler::Url(h) => h.build_node(parsed, origin),
            TypeHandler::Dimension(h) => h.build_node(parsed, origin),
            TypeHandler::Template(h) => h.build_node(parsed, origin),
        }
    }
}

/// The node a handler builds from a parsed value.
pub open spec fn spec_build_node(
    h: &TypeHandler,
    v: ScalarValueView,
    kind: crate::parse::ResourceKind,
    origin: crate::model::ResourceOriginView,
) -> Option<ResourceNodeView> {
    match h {
        TypeHandler::String(_) => match v {
            ScalarValueView::Text(t) => Some(
                ResourceNodeView {
                    kind: crate::model::ResourceKindView::String,
                    value: spec_parse_string_value(t),
                    origin,
                },
            ),
            _ => None,
        },
        TypeHandler::Number(_) => match v {
            ScalarValueView::Number { value, explicit_type } => match spec_parse_number(
                value,
                explicit_type,
            ) {
                Ok(nv) => Some(
                    ResourceNodeView {
                        kind: crate::model::ResourceKindView::Number,
                        value: ResourceValueView::Number(nv),
                        origin,
                    },
                ),
                Err(_) => None,
            },
            _ => None,
        },
        TypeHandler::Bool(_) => match v {
            ScalarValueView::Bool(b) => Some(
                ResourceNodeView {
                    kind: crate::model::ResourceKindView::Bool,
                    value: ResourceValueView::Bool(b),
                    origin,
                },
            ),
            _ => None,
        },
        TypeHandler::Color(_) => match v {
            ScalarValueView::Color(c) => Some(
                ResourceNodeView {
                    kind: crate::model::ResourceKindView::Color,
                    value: ResourceValueView::Color(c),
                    origin,
                },
            ),
            _ => None,
        },
        TypeHandler::Url(_) => match v {
            ScalarValueView::Url(u) => Some(
                ResourceNodeView {
                    kind: crate::model::ResourceKindView::Url,
                    value: ResourceValueView::Url(u),
                    origin,
                },
            ),
            _ => None,
        },
        TypeHandler::Dimension(_) => match v {
            ScalarValueView::Dimension(d) => Some(
                ResourceNodeView {
                    kind: crate::model::ResourceKindView::Dimension,
                    value: ResourceValueView::Dimension(d),
                    origin,
                },
            ),
            _ => None,
        },
        TypeHandler::Template(_) => match v {
            ScalarValueView::Template { text, params } => Some(
                ResourceNodeView {
                    kind: crate::model::ResourceKindView::Template,
                    value: ResourceValueView::Template { text, params },
                    origin,
                },
            ),
            ScalarValueView::Text(t) => {
                if kind == crate::parse::ResourceKind::Template || spec_has_placeholder(t) {
                    Some(
                        ResourceNodeView {
                            kind: crate::model::ResourceKindView::Template,
                            value: ResourceValueView::Template {
                                text: t,
                                params: Seq::empty(),
                            },
                            origin,
                        },
                    )
                } else {
                    None
                }
            },
            _ => None,
        },
    }
}

/// The first handler registered under `name`, if any.
pub open spec fn spec_find_handler(hs: Seq<TypeHandler>, name: Seq<char>) -> Option<TypeHandler>
    decreases hs.len(),
{
    if hs.len() == 0 {
        None
    } else if spec_handler_name(&hs[0]) == name {
        Some(hs[0])
    } else {
        spec_find_handler(hs.drop_first(), name)
    }
}

/// The registry of type handlers, the pipeline's extension point.
pub struct TypeRegistry {
    handlers: Vec<TypeHandler>,
}

impl View for TypeRegistry {
    type V = Seq<TypeHandler>;

    closed spec fn view(&self) -> Seq<TypeHandler> {
        self.handlers@
    }
}

impl TypeRegistry {
    /// An empty registry.
    pub fn new() -> (r: TypeRegistry)
        ensures
            r@ == Seq::<TypeHandler>::empty(),
    {
        let r = TypeRegistry { handlers: Vec::new() };
        proof {
            assert(r@ =~= Seq::<TypeHandler>::empty());
        }
        r
    }

    /// Registers one handler.
    pub fn register(&mut self, h: TypeHandler)
        ensures
            final(self)@ == old(self)@.push(h),
    {
        self.handlers.push(h);
    }

    /// Looks up the first handler registered under `name`.
    pub fn find_by_name(&self, name: &str) -> (r: Option<&TypeHandler>)
        ensures
            match r {
                Some(h) => spec_find_handler(self@, name@) == Some(*h),
                None => spec_find_handler(self@, name@) is None,
            },
    {
        let ghost hv = self@;
        let n = self.handlers.len();
        let mut i: usize = 0;
        proof {
            assert(hv.skip(0) =~= hv);
        }
        while i < n
            invariant
                n == self.handlers@.len(),
                hv == self@,
                i <= n,
                spec_find_handler(hv, name@) == spec_find_handler(hv.skip(i as int), name@),
            decreases n - i,
        {
            proof {
                assert(hv.skip(i as int)[0] == hv[i as int]);
                assert(hv.skip(i as int).drop_first() =~= hv.skip(i + 1));
            }
            let hn = self.handlers[i].name();
            if crate::text::str_eq(hn, name) {
                return Some(&self.handlers[i]);
            }
            i = i + 1;
        }
        proof {
            assert(hv.skip(n as int) =~= Seq::<TypeHandler>::empty());
        }
        None
    }

    /// The registered handler count.
    pub fn len(&self) -> (r: usize)
        ensures
            r == self@.len(),
    {
        self.handlers.len()
    }

    /// The default registry: one handler for each built-in kind.
    pub fn new_default() -> (r: TypeRegistry)
        ensures
            r@ == spec_default_registry(),
    {
        let mut r = TypeRegistry::new();
        r.register(TypeHandler::String(StringType));
        r.register(TypeHandler::Number(NumberTypeHandler));
        r.register(TypeHandler::Bool(BoolType));
        r.register(TypeHandler::Color(ColorType));
        r.register(TypeHandler::Url(UrlType));
        r.register(TypeHandler::Dimension(DimensionType));
        r.register(TypeHandler::Template(TemplateType));
        proof {
            assert(r@ =~= spec_default_registry());
        }
        r
    }
}

/// The default handler list: one handler for each built-in kind.
pub open spec fn spec_default_registry() -> Seq<TypeHandler> {
    seq![
        TypeHandler::String(StringType),
        TypeHandler::Number(NumberTypeHandler),
        TypeHandler::Bool(BoolType),
        TypeHandler::Color(ColorType),
        TypeHandler::Url(UrlType),
        TypeHandler::Dimension(DimensionType),
        TypeHandler::Template(TemplateType),
    ]
}

impl Default for TypeRegistry {
    /// The default registry: one handler for each built-in kind.
    fn default() -> (r: TypeRegistry) {
        TypeRegistry::new_default()
    }
}

} // verus!
