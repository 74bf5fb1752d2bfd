//! The endpoint model: methods, path templates, declared parameter types and
//! body, as read from an endpoint descriptor.
use vstd::prelude::*;

use crate::buffer::push_char;
use crate::error::CodegenError;
use crate::names::{mod_path, parse_mod_path, pascal_case_of, wrapper_type_name};
use crate::template::{
    Segment,
    SegmentV,
    segs_view,
    strs_view,
    param_names,
    parse_template,
    parse_segments,
    segment_params,
};

verus! {

/// The HTTP verbs an endpoint can be called with.
#[derive(Debug, Clone, Copy, PartialEq, Eq, Structural)]
pub enum HttpMethod {
    Head,
    Get,
    Post,
    Put,
    Delete,
}

/// The width of a declared numeric parameter.
#[derive(Debug, Clone, Copy, PartialEq, Eq, Structural)]
pub enum NumberKind {
    Long,
    Int,
    Short,
    Byte,
    Double,
    Float,
}

/// A declared parameter type.
#[derive(Debug, Clone)]
pub enum Type {
    Bool,
    Number(NumberKind),
    Str,
    Bin,
    /// A choice among fixed values; it has no host representation.
    Enum,
    /// A list of values; it has no host representation.
    List,
    /// A time value; it has no host representation.
    Time,
    /// A custom type, generated as a wrapper named after it.
    Other(String),
}

pub enum TypeV {
    Bool,
    Number(NumberKind),
    Str,
    Bin,
    Enum,
    List,
    Time,
    Other(Seq<char>),
}

impl View for Type {
    type V = TypeV;

    open spec fn view(&self) -> TypeV {
        match self {
            Type::Bool => TypeV::Bool,
            Type::Number(k) => TypeV::Number(*k),
            Type::Str => TypeV::Str,
            Type::Bin => TypeV::Bin,
            Type::Enum => TypeV::Enum,
            Type::List => TypeV::List,
            Type::Time => TypeV::Time,
            Type::Other(n) => TypeV::Other(n@),
        }
    }
}

/// The type a parameter has in generated code.
#[derive(Debug, Clone)]
pub enum HostType {
    Bool,
    I64,
    I32,
    I16,
    U8,
    F32,
    Text,
    Bytes,
    /// A generated wrapper type of this name.
    Wrapper(String),
}

pub enum HostTypeV {
    Bool,
    I64,
    I32,
    I16,
    U8,
    F32,
    Text,
    Bytes,
    Wrapper(Seq<char>),
}

impl View for HostType {
    type V = HostTypeV;

    open spec fn view(&self) -> HostTypeV {
        match self {
            HostType::Bool => HostTypeV::Bool,
            HostType::I64 => HostTypeV::I64,
            HostType::I32 => HostTypeV::I32,
            HostType::I16 => HostTypeV::I16,
            HostType::U8 => HostTypeV::U8,
            HostType::F32 => HostTypeV::F32,
            HostType::Text => HostTypeV::Text,
            HostType::Bytes => HostTypeV::Bytes,
            HostType::Wrapper(n) => HostTypeV::Wrapper(n@),
        }
    }
}

/// The host representation of a declared type, or `None` where it has none.
pub open spec fn host_of(t: TypeV) -> Option<HostTypeV> {
    match t {
        TypeV::Bool => Some(HostTypeV::Bool),
        TypeV::Number(NumberKind::Long) => Some(HostTypeV::I64),
        TypeV::Number(NumberKind::Int) => Some(HostTypeV::I32),
        TypeV::Number(NumberKind::Short) => Some(HostTypeV::I16),
        TypeV::Number(NumberKind::Byte) => Some(HostTypeV::U8),
        TypeV::Number(NumberKind::Double) => Some(HostTypeV::F32),
        TypeV::Number(NumberKind::Float) => Some(HostTypeV::F32),
        TypeV::Str => Some(HostTypeV::Text),
        TypeV::Bin => Some(HostTypeV::Bytes),
        TypeV::Other(n) => Some(HostTypeV::Wrapper(pascal_case_of(n))),
        _ => None,
    }
}

/// The source text of a host type.
pub open spec fn host_type_text(h: HostTypeV) -> Seq<char> {
    match h {
        HostTypeV::Bool => "bool"@,
        HostTypeV::I64 => "i64"@,
        HostTypeV::I32 => "i32"@,
        HostTypeV::I16 => "i16"@,
        HostTypeV::U8 => "u8"@,
        HostTypeV::F32 => "f32"@,
        HostTypeV::Text => "String"@,
        HostTypeV::Bytes => "Vec<u8>"@,
        HostTypeV::Wrapper(n) => n,
    }
}

impl Type {
    /// Maps a declared type to its host representation; a type without one
    /// is an error rather than a silent omission.
    pub fn host_type(&self) -> (r: Result<HostType, CodegenError>)
        ensures
            match r {
                Ok(h) => host_of(self@) == Some(h@),
                Err(e) => host_of(self@) is None && e == CodegenError::UnmappedType,
            },
    {
        match self {
            Type::Bool => Ok(HostType::Bool),
            Type::Number(NumberKind::Long) => Ok(HostType::I64),
            Type::Number(NumberKind::Int) => Ok(HostType::I32),
            Type::Number(NumberKind::Short) => Ok(HostType::I16),
            Type::Number(NumberKind::Byte) => Ok(HostType::U8),
            Type::Number(NumberKind::Double) => Ok(HostType::F32),
            Type::Number(NumberKind::Float) => Ok(HostType::F32),
            Type::Str => Ok(HostType::Text),
            Type::Bin => Ok(HostType::Bytes),
            Type::Other(n) => Ok(HostType::Wrapper(wrapper_type_name(n.as_str()))),
            _ => Err(CodegenError::UnmappedType),
        }
    }

    /// A copy with the same view.
    pub fn copy(&self) -> (r: Type)
        ensures
            r@ == self@,
    {
        match self {
            Type::Bool => Type::Bool,
            Type::Number(k) => Type::Number(*k),
            Type::Str => Type::Str,
            Type::Bin => Type::Bin,
            Type::Enum => Type::Enum,
            Type::List => Type::List,
            Type::Time => Type::Time,
            Type::Other(n) => Type::Other(n.clone()),
        }
    }
}

impl HostType {
    /// The source text naming this type.
    pub fn text(&self) -> (r: String)
        ensures
            r@ == host_type_text(self@),
    {
        match self {
            HostType::Bool => "bool".to_owned(),
            HostType::I64 => "i64".to_owned(),
            HostType::I32 => "i32".to_owned(),
            HostType::I16 => "i16".to_owned(),
            HostType::U8 => "u8".to_owned(),
            HostType::F32 => "f32".to_owned(),
            HostType::Text => "String".to_owned(),
            HostType::Bytes => "Vec<u8>".to_owned(),
            HostType::Wrapper(n) => n.clone(),
        }
    }
}

/// The request body an endpoint accepts.
#[derive(Debug, Clone)]
pub struct Body {
    pub required: bool,
    pub description: String,
}

pub struct BodyV {
    pub required: bool,
    pub description: Seq<char>,
}

impl View for Body {
    type V = BodyV;

    open spec fn view(&self) -> BodyV {
        BodyV { required: self.required, description: self.description@ }
    }
}

impl Body {
    pub fn copy(&self) -> (r: Body)
        ensures
            r@ == self@,
    {
        Body { required: self.required, description: self.description.clone() }
    }
}

/// A path template with its parsed segments.
#[derive(Debug, Clone)]
pub struct UrlPath {
    pub template: String,
    pub segments: Vec<Segment>,
}

pub struct UrlPathV {
    pub template: Seq<char>,
    pub segments: Seq<SegmentV>,
}

impl View for UrlPath {
    type V = UrlPathV;

    open spec fn view(&self) -> UrlPathV {
        UrlPathV { template: self.template@, segments: segs_view(self.segments@) }
    }
}

/// The shape of a path: its parameter names in order.
pub open spec fn shape(p: UrlPathV) -> Seq<Seq<char>> {
    param_names(p.segments)
}

pub open spec fn paths_view(v: Seq<UrlPath>) -> Seq<UrlPathV> {
    v.map_values(|p: UrlPath| p@)
}

impl UrlPath {
    /// The segments agree with the template.
    pub open spec fn wf(&self) -> bool {
        parse_template(self.template@) == Some(segs_view(self.segments@))
    }

    /// Parses a path template.
    pub fn parse(template: &str) -> (r: Result<UrlPath, CodegenError>)
        ensures
            match r {
                Ok(p) => p.wf() && p.template@ == template@,
                Err(e) => parse_template(template@) is None && e == CodegenError::TemplateSyntax,
            },
    {
        let segments = parse_segments(template)?;
        Ok(UrlPath { template: template.to_owned(), segments })
    }

    /// The parameter names of this path, in order: its shape.
    pub fn params(&self) -> (r: Vec<String>)
        ensures
            strs_view(r@) == shape(self@),
    {
        segment_params(&self.segments)
    }

    pub fn copy(&self) -> (r: UrlPath)
        ensures
            r@ == self@,
    {
        let mut segments: Vec<Segment> = Vec::new();
        let mut i: usize = 0;
        while i < self.segments.len()
            invariant
                i <= self.segments@.len(),
                segs_view(segments@) == segs_view(self.segments@).take(i as int),
            decreases self.segments@.len() - i,
        {
            let s = match &self.segments[i] {
                Segment::Literal(t) => Segment::Literal(t.clone()),
                Segment::Param(n) => Segment::Param(n.clone()),
            };
            assert(s@ == self.segments@[i as int]@);
            let ghost before = segments@;
            segments.push(s);
            proof {
                assert(segs_view(segments@) =~= segs_view(before).push(s@));
                assert(segs_view(segments@) =~= segs_view(self.segments@).take(i + 1));
            }
            i = i + 1;
        }
        proof {
            assert(segs_view(self.segments@).take(self.segments@.len() as int) =~= segs_view(
                self.segments@,
            ));
        }
        UrlPath { template: self.template.clone(), segments }
    }
}

/// The paths of an endpoint and the declared types of their parameters.
#[derive(Debug, Clone)]
pub struct Url {
    pub paths: Vec<UrlPath>,
    pub parts: Vec<(String, Type)>,
}

pub open spec fn parts_view(v: Seq<(String, Type)>) -> Seq<(Seq<char>, TypeV)> {
    v.map_values(|p: (String, Type)| (p.0@, p.1@))
}

/// One REST operation.
#[derive(Debug, Clone)]
pub struct Endpoint {
    pub name: Option<String>,
    pub documentation: String,
    pub methods: Vec<HttpMethod>,
    pub url: Url,
    pub body: Option<Body>,
}

pub struct EndpointV {
    pub name: Option<Seq<char>>,
    pub documentation: Seq<char>,
    pub methods: Seq<HttpMethod>,
    pub paths: Seq<UrlPathV>,
    pub parts: Seq<(Seq<char>, TypeV)>,
    pub body: Option<BodyV>,
}

impl View for Endpoint {
    type V = EndpointV;

    open spec fn view(&self) -> EndpointV {
        EndpointV {
            name: match self.name {
                Some(n) => Some(n@),
                None => None,
            },
            documentation: self.documentation@,
            methods: self.methods@,
            paths: paths_view(self.url.paths@),
            parts: parts_view(self.url.parts@),
            body: match self.body {
                Some(b) => Some(b@),
                None => None,
            },
        }
    }
}

/// The characters of a documentation text inside an inner doc comment:
/// every line break starts a new `//! ` line.
pub open spec fn doc_text(d: Seq<char>) -> Seq<char>
    decreases d.len(),
{
    if d.len() == 0 {
        seq![]
    } else {
        doc_text(d.drop_last()) + if d.last() == '\n' {
            "\n//! "@
        } else {
            seq![d.last()]
        }
    }
}

/// The inner doc comment for a documentation text.
pub open spec fn doc_comment(d: Seq<char>) -> Seq<char> {
    "//! "@ + doc_text(d) + "\n"@
}

fn copy_methods(v: &Vec<HttpMethod>) -> (r: Vec<HttpMethod>)
    ensures
        r@ == v@,
{
    let mut out: Vec<HttpMethod> = Vec::new();
    let mut i: usize = 0;
    while i < v.len()
        invariant
            i <= v@.len(),
            out@ == v@.take(i as int),
        decreases v@.len() - i,
    {
        out.push(v[i]);
        proof {
            assert(out@ =~= v@.take(i + 1));
        }
        i = i + 1;
    }
    proof {
        assert(v@.take(v@.len() as int) =~= v@);
    }
    out
}

pub fn copy_paths(v: &Vec<UrlPath>) -> (r: Vec<UrlPath>)
    ensures
        paths_view(r@) == paths_view(v@),
{
    let mut out: Vec<UrlPath> = Vec::new();
    let mut i: usize = 0;
    while i < v.len()
        invariant
            i <= v@.len(),
            paths_view(out@) == paths_view(v@.take(i as int)),
        decreases v@.len() - i,
    {
        let p = v[i].copy();
        let ghost before = out@;
        out.push(p);
        proof {
            assert(paths_view(out@) =~= paths_view(before).push(p@));
            assert(v@.take(i + 1) =~= v@.take(i as int).push(v@[i as int]));
            assert(paths_view(out@) =~= paths_view(v@.take(i + 1)));
        }
        i = i + 1;
    }
    proof {
        assert(v@.take(v@.len() as int) =~= v@);
    }
    out
}

fn copy_parts(v: &Vec<(String, Type)>) -> (r: Vec<(String, Type)>)
    ensures
        parts_view(r@) == parts_view(v@),
{
    let mut out: Vec<(String, Type)> = Vec::new();
    let mut i: usize = 0;
    while i < v.len()
        invariant
            i <= v@.len(),
            parts_view(out@) == parts_view(v@.take(i as int)),
        decreases v@.len() - i,
    {
        let p = (v[i].0.clone(), v[i].1.copy());
        let ghost before = out@;
        out.push(p);
        proof {
            assert(parts_view(out@) =~= parts_view(before).push((p.0@, p.1@)));
            assert(v@.take(i + 1) =~= v@.take(i as int).push(v@[i as int]));
            assert(parts_view(out@) =~= parts_view(v@.take(i + 1)));
        }
        i = i + 1;
    }
    proof {
        assert(v@.take(v@.len() as int) =~= v@);
    }
    out
}

impl Endpoint {
    /// The inner doc comment holding this endpoint's documentation.
    pub fn get_doc(&self) -> (r: String)
        ensures
            r@ == doc_comment(self.documentation@),
    {
        let d = self.documentation.as_str();
        let n = d.unicode_len();
        let mut out = "//! ".to_owned();
        let mut i: usize = 0;
        while i < n
            invariant
                n == d@.len(),
                d@ == self.documentation@,
                i <= n,
                out@ == "//! "@ + doc_text(d@.take(i as int)),
            decreases n - i,
        {
            let c = d.get_char(i);
            proof {
                assert(d@.take(i + 1).drop_last() =~= d@.take(i as int));
                assert(d@.take(i + 1).last() == c);
            }
            if c == '\n' {
                out.append("\n//! ");
            } else {
                out.append(char_string(c).as_str());
            }
            proof {
                assert(out@ =~= "//! "@ + doc_text(d@.take(i + 1)));
            }
            i = i + 1;
        }
        proof {
            assert(d@.take(n as int) =~= d@);
        }
        out.append("\n");
        out
    }

    /// The module path of this endpoint's name; an endpoint without a name
    /// has none.
    pub fn get_mod_path(&self) -> (r: Result<Vec<String>, CodegenError>)
        ensures
            match r {
                Ok(v) => mod_path(
                    match self.name {
                        Some(n) => n@,
                        None => seq![],
                    },
                ) == Some(strs_view(v@)),
                Err(e) => mod_path(
                    match self.name {
                        Some(n) => n@,
                        None => seq![],
                    },
                ) is None && e == CodegenError::ModPathParse,
            },
    {
        match &self.name {
            Some(n) => parse_mod_path(n.as_str()),
            None => {
                proof {
                    reveal_strlit("");
                }
                assert(""@ =~= Seq::<char>::empty());
                parse_mod_path("")
            },
        }
    }

    /// A copy with the same view.
    pub fn copy(&self) -> (r: Endpoint)
        ensures
            r@ == self@,
    {
        Endpoint {
            name: match &self.name {
                Some(n) => Some(n.clone()),
                None => None,
            },
            documentation: self.documentation.clone(),
            methods: copy_methods(&self.methods),
            url: Url { paths: copy_paths(&self.url.paths), parts: copy_parts(&self.url.parts) },
            body: match &self.body {
                Some(b) => Some(b.copy()),
                None => None,
            },
        }
    }
}

fn char_string(c: char) -> (r: String)
    ensures
        r@ == seq![c],
{
    let mut s = String::new();
    push_char(&mut s, c);
    s
}

/// Whether two strings hold the same characters.
pub fn str_eq(a: &str, b: &str) -> (r: bool)
    ensures
        r == (a@ == b@),
{
    let n = a.unicode_len();
    if n != b.unicode_len() {
        return false;
    }
    let mut i: usize = 0;
    while i < n
        invariant
            n == a@.len(),
            n == b@.len(),
            i <= n,
            forall|j: int| 0 <= j < i ==> a@[j] == b@[j],
        decreases n - i,
    {
        if a.get_char(i) != b.get_char(i) {
            return false;
        }
        i = i + 1;
    }
    assert(a@ =~= b@);
    true
}

/// The HTTP verb a descriptor names, in upper case, or `None`.
pub open spec fn method_named(s: Seq<char>) -> Option<HttpMethod> {
    if s == "HEAD"@ {
        Some(HttpMethod::Head)
    } else if s == "GET"@ {
        Some(HttpMethod::Get)
    } else if s == "POST"@ {
        Some(HttpMethod::Post)
    } else if s == "PUT"@ {
        Some(HttpMethod::Put)
    } else if s == "DELETE"@ {
        Some(HttpMethod::Delete)
    } else {
        None
    }
}

/// Reads an HTTP verb as a descriptor writes it.
pub fn parse_method(s: &str) -> (r: Option<HttpMethod>)
    ensures
        r == method_named(s@),
{
    if str_eq(s, "HEAD") {
        Some(HttpMethod::Head)
    } else if str_eq(s, "GET") {
        Some(HttpMethod::Get)
    } else if str_eq(s, "POST") {
        Some(HttpMethod::Post)
    } else if str_eq(s, "PUT") {
        Some(HttpMethod::Put)
    } else if str_eq(s, "DELETE") {
        Some(HttpMethod::Delete)
    } else {
        None
    }
}

/// The declared type a descriptor's type name stands for; a name outside
/// the fixed set is a custom type.
pub open spec fn type_named(s: Seq<char>) -> TypeV {
    if s == "boolean"@ {
        TypeV::Bool
    } else if s == "long"@ {
        TypeV::Number(NumberKind::Long)
    } else if s == "integer"@ {
        TypeV::Number(NumberKind::Int)
    } else if s == "short"@ {
        TypeV::Number(NumberKind::Short)
    } else if s == "byte"@ {
        TypeV::Number(NumberKind::Byte)
    } else if s == "double"@ {
        TypeV::Number(NumberKind::Double)
    } else if s == "float"@ {
        TypeV::Number(NumberKind::Float)
    } else if s == "string"@ {
        TypeV::Str
    } else if s == "binary"@ {
        TypeV::Bin
    } else if s == "enum"@ {
        TypeV::Enum
    } else if s == "list"@ {
        TypeV::List
    } else if s == "time"@ {
        TypeV::Time
    } else {
        TypeV::Other(s)
    }
}

/// Reads a type name as a descriptor writes it.
pub fn parse_type(s: &str) -> (r: Type)
    ensures
        r@ == type_named(s@),
{
    if str_eq(s, "boolean") {
        Type::Bool
    } else if str_eq(s, "long") {
        Type::Number(NumberKind::Long)
    } else if str_eq(s, "integer") {
        Type::Number(NumberKind::Int)
    } else if str_eq(s, "short") {
        Type::Number(NumberKind::Short)
    } else if str_eq(s, "byte") {
        Type::Number(NumberKind::Byte)
    } else if str_eq(s, "double") {
        Type::Number(NumberKind::Double)
    } else if str_eq(s, "float") {
        Type::Number(NumberKind::Float)
    } else if str_eq(s, "string") {
        Type::Str
    } else if str_eq(s, "binary") {
        Type::Bin
    } else if str_eq(s, "enum") {
        Type::Enum
    } else if str_eq(s, "list") {
        Type::List
    } else if str_eq(s, "time") {
        Type::Time
    } else {
        Type::Other(s.to_owned())
    }
}

} // verus!
