//! Request descriptors: one per endpoint and path shape, with its
//! constructor name, parameters, verb, body presence and URL builder.
use vstd::prelude::*;

use crate::endpoint::{Endpoint, EndpointV, HttpMethod, UrlPath, UrlPathV, shape};
use crate::error::CodegenError;
use crate::names::{
    ctor_name,
    ctor_name_of,
    method_word,
    pascal_case_of,
    request_suffix,
    request_type_name,
};
use crate::normalize::{choose_verb, select_verb};
use crate::template::{
    SegmentV,
    strs_view,
    param_names,
    fmt_template,
    segment_fmt,
    lemma_param_count,
    lemma_parse_well_formed,
    parse_template,
};
use crate::urlgen::{
    Stmt,
    StmtV,
    stmts_view,
    fmt_holes,
    fmt_stmt,
    push_stmts,
    url_fmt_decl,
    url_push_decl,
    lemma_fmt_template_holes,
};

verus! {

/// How generated code assembles a URL.
#[derive(Debug, Clone, Copy, PartialEq, Eq, Structural)]
pub enum UrlStyle {
    /// One `format!` call.
    Format,
    /// A buffer of exact capacity and one `push_str` per piece.
    Push,
}

/// Everything generated code needs for one endpoint and path shape.
#[derive(Debug, Clone)]
pub struct RequestDescriptor {
    pub request_type: String,
    pub ctor_name: String,
    /// The base address, then the path parameters, then `body` if any.
    pub params: Vec<String>,
    pub method: HttpMethod,
    pub has_body: bool,
    /// The statements that assemble the URL in `url_fmtd`.
    pub url: Vec<Stmt>,
}

pub struct RequestV {
    pub request_type: Seq<char>,
    pub ctor_name: Seq<char>,
    pub params: Seq<Seq<char>>,
    pub method: HttpMethod,
    pub has_body: bool,
    pub url: Seq<StmtV>,
}

impl View for RequestDescriptor {
    type V = RequestV;

    open spec fn view(&self) -> RequestV {
        RequestV {
            request_type: self.request_type@,
            ctor_name: self.ctor_name@,
            params: strs_view(self.params@),
            method: self.method,
            has_body: self.has_body,
            url: stmts_view(self.url@),
        }
    }
}

pub open spec fn base_ident() -> Seq<char> {
    "base"@
}

pub open spec fn body_ident() -> Seq<char> {
    "body"@
}

/// The constructor parameters: base address, path parameters, then the body.
pub open spec fn request_params(sh: Seq<Seq<char>>, has_body: bool) -> Seq<Seq<char>> {
    seq![base_ident()] + sh + if has_body {
        seq![body_ident()]
    } else {
        seq![]
    }
}

/// The URL statements of a path in a style, or `None` where the format
/// template's holes do not match the parameters.
pub open spec fn url_stmts(style: UrlStyle, segs: Seq<SegmentV>) -> Option<Seq<StmtV>> {
    match style {
        UrlStyle::Push => Some(push_stmts(base_ident(), segs, param_names(segs))),
        UrlStyle::Format => if fmt_holes(fmt_template(segs)) == Some(param_names(segs).len() + 1) {
            Some(seq![fmt_stmt(fmt_template(segs), base_ident(), param_names(segs))])
        } else {
            None
        },
    }
}

/// The descriptor of an endpoint (with at least one method) and one of its
/// paths, where the URL statements exist.
pub open spec fn request_of(name: Seq<char>, e: EndpointV, p: UrlPathV, style: UrlStyle) -> RequestV {
    RequestV {
        request_type: pascal_case_of(name) + request_suffix(),
        ctor_name: ctor_name(method_word(select_verb(e.methods)), shape(p)),
        params: request_params(shape(p), e.body is Some),
        method: select_verb(e.methods),
        has_body: e.body is Some,
        url: url_stmts(style, p.segments)->0,
    }
}

/// A path whose segments come from parsing its template has URL statements
/// in both styles.
pub proof fn lemma_parsed_path_builds(p: UrlPathV)
    ensures
        parse_template(p.template) == Some(p.segments) ==> url_stmts(UrlStyle::Format, p.segments)
            is Some && url_stmts(UrlStyle::Push, p.segments) is Some,
{
    if parse_template(p.template) == Some(p.segments) {
        lemma_parse_well_formed(p.template);
        lemma_fmt_template_holes(p.segments);
        lemma_param_count(p.segments);
    }
}

/// Builds the request descriptor of an endpoint and one of its paths; an
/// endpoint with a method and a path parsed from its template always gets
/// one.
pub fn build_request(name: &str, endpoint: &Endpoint, path: &UrlPath, style: UrlStyle) -> (r:
    Result<RequestDescriptor, CodegenError>)
    ensures
        match r {
            Ok(d) => {
                &&& endpoint@.methods.len() > 0
                &&& url_stmts(style, path@.segments) is Some
                &&& d@ == request_of(name@, endpoint@, path@, style)
            },
            Err(e) => {
                &&& !(endpoint@.methods.len() > 0 && path.wf())
                &&& {
                    ||| (endpoint@.methods.len() == 0 && e == CodegenError::VerbSelection)
                    ||| (endpoint@.methods.len() > 0 && url_stmts(style, path@.segments) is None
                        && e == CodegenError::TemplateMismatch)
                }
            },
        },
{
    let method = choose_verb(&endpoint.methods)?;
    let sh = path.params();
    proof {
        lemma_param_count(path@.segments);
        lemma_parsed_path_builds(path@);
    }
    let url = match style {
        UrlStyle::Push => {
            match url_push_decl("base", &path.segments, &sh) {
                Ok((_, stmts)) => stmts,
                Err(e) => {
                    return Err(e);
                },
            }
        },
        UrlStyle::Format => {
            let fmt = segment_fmt(&path.segments);
            match url_fmt_decl(fmt.as_str(), "base", &sh) {
                Ok((_, stmt)) => {
                    let mut v: Vec<Stmt> = Vec::new();
                    v.push(stmt);
                    proof {
                        assert(stmts_view(v@) =~= seq![stmt@]);
                    }
                    v
                },
                Err(e) => {
                    return Err(e);
                },
            }
        },
    };
    let has_body = endpoint.body.is_some();
    let mut params: Vec<String> = Vec::new();
    params.push("base".to_owned());
    let mut i: usize = 0;
    proof {
        assert(strs_view(params@) =~= seq![base_ident()] + strs_view(sh@).take(0));
    }
    while i < sh.len()
        invariant
            i <= sh@.len(),
            strs_view(params@) == seq![base_ident()] + strs_view(sh@).take(i as int),
        decreases sh@.len() - i,
    {
        let ghost before = params@;
        params.push(sh[i].clone());
        proof {
            assert(strs_view(params@) =~= strs_view(before).push(sh@[i as int]@));
            assert(strs_view(params@) =~= seq![base_ident()] + strs_view(sh@).take(i + 1));
        }
        i = i + 1;
    }
    if has_body {
        params.push("body".to_owned());
    }
    proof {
        assert(strs_view(sh@).take(sh@.len() as int) =~= strs_view(sh@));
        assert(strs_view(params@) =~= request_params(shape(path@), has_body));
    }
    Ok(
        RequestDescriptor {
            request_type: request_type_name(name),
            ctor_name: ctor_name_of(method, &sh),
            params,
            method,
            has_body,
            url,
        },
    )
}

} // verus!
