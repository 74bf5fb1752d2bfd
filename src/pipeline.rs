//! A whole generation run: every endpoint normalised, checked and printed,
//! in order, inside a `requests` module, followed by the `params` module of
//! the types the requests use.
use vstd::prelude::*;

use crate::emit::{print_request_fn, request_fn_text, joined};
use crate::endpoint::{Endpoint, EndpointV, UrlPathV, doc_comment, host_of, shape};
use crate::error::CodegenError;
use crate::names::{mod_path, parse_mod_path, pascal_case_of, wrapper_type_name};
use crate::normalize::{
    dedup_paths,
    dedup_urls,
    last_of_shape,
    lemma_dedup_last_wins,
    named_view,
    select_verb,
    strip_verbs,
};
use crate::request::{UrlStyle, build_request, lemma_parsed_path_builds, request_of, url_stmts};
use crate::template::{parse_template, strs_view};

verus! {

/// An endpoint after normalisation: its selected verb and one path per shape.
pub open spec fn normalized(e: EndpointV) -> EndpointV {
    EndpointV { methods: seq![select_verb(e.methods)], paths: dedup_paths(e.paths), ..e }
}

/// The request constructors of the paths `ps` of a normalised endpoint, or
/// `None` where one of them has no URL statements.
pub open spec fn paths_text(name: Seq<char>, e: EndpointV, ps: Seq<UrlPathV>, style: UrlStyle) -> Option<
    Seq<char>,
>
    decreases ps.len(),
{
    if ps.len() == 0 {
        Some(seq![])
    } else {
        match paths_text(name, e, ps.drop_last(), style) {
            Some(t) => if url_stmts(style, ps.last().segments) is Some {
                Some(t + print_request_fn(request_of(name, e, ps.last(), style)))
            } else {
                None
            },
            None => None,
        }
    }
}

/// Whether some declared parameter type has no host representation.
pub open spec fn has_unmapped(e: EndpointV) -> bool {
    exists|i: int| 0 <= i < e.parts.len() && host_of(#[trigger] e.parts[i].1) is None
}

/// The module of one endpoint: named after its module path joined with `_`,
/// opened by its documentation, holding one request constructor per path
/// shape.
pub open spec fn endpoint_result(name: Seq<char>, e: EndpointV, style: UrlStyle) -> Result<
    Seq<char>,
    CodegenError,
> {
    if e.methods.len() == 0 {
        Err(CodegenError::VerbSelection)
    } else if mod_path(name) is None {
        Err(CodegenError::ModPathParse)
    } else if has_unmapped(e) {
        Err(CodegenError::UnmappedType)
    } else {
        match paths_text(name, normalized(e), normalized(e).paths, style) {
            Some(t) => Ok(
                "pub mod "@ + joined(mod_path(name)->0, "_"@) + " {\n"@ + doc_comment(
                    e.documentation,
                ) + "use super::super::params::*;\n\n"@ + t + "}\n"@,
            ),
            None => Err(CodegenError::TemplateMismatch),
        }
    }
}

/// The modules of all endpoints in order, or the error of the first that
/// fails.
pub open spec fn endpoints_result(es: Seq<(Seq<char>, EndpointV)>, style: UrlStyle) -> Result<
    Seq<char>,
    CodegenError,
>
    decreases es.len(),
{
    if es.len() == 0 {
        Ok(seq![])
    } else {
        match endpoints_result(es.drop_last(), style) {
            Ok(t) => match endpoint_result(es.last().0, es.last().1, style) {
                Ok(u) => Ok(t + u),
                Err(e) => Err(e),
            },
            Err(e) => Err(e),
        }
    }
}

/// The opening of the `params` module and the types that every generated
/// request refers to: the verb, the body and the generic request with its
/// default content headers.
pub open spec fn params_head() -> Seq<char> {
    PARAMS_HEAD@
}

/// The path parameter names of paths, in order, repeats included.
pub open spec fn shapes_flat(ps: Seq<UrlPathV>) -> Seq<Seq<char>>
    decreases ps.len(),
{
    if ps.len() == 0 {
        seq![]
    } else {
        shapes_flat(ps.drop_last()) + shape(ps.last())
    }
}

/// The path parameter names of all normalised endpoints, in order.
pub open spec fn all_params(es: Seq<(Seq<char>, EndpointV)>) -> Seq<Seq<char>>
    decreases es.len(),
{
    if es.len() == 0 {
        seq![]
    } else {
        all_params(es.drop_last()) + shapes_flat(normalized(es.last().1).paths)
    }
}

/// The wrapper type names of parameters, each once, in order of first use.
pub open spec fn wrapper_names(names: Seq<Seq<char>>) -> Seq<Seq<char>>
    decreases names.len(),
{
    if names.len() == 0 {
        seq![]
    } else {
        let acc = wrapper_names(names.drop_last());
        let w = pascal_case_of(names.last());
        if acc.contains(w) {
            acc
        } else {
            acc.push(w)
        }
    }
}

/// A parameter wrapper type: text that derefs to `str` and prints as itself.
pub open spec fn wrapper_item(w: Seq<char>) -> Seq<char> {
    "\n#[derive(Debug, Clone, PartialEq)]\npub struct "@ + w + "(pub String);\n\nimpl std::ops::Deref for "@
        + w + " {\n    type Target = str;\n    fn deref(&self) -> &str {\n        &self.0\n    }\n}\n\nimpl std::fmt::Display for "@
        + w + " {\n    fn fmt(&self, f: &mut std::fmt::Formatter) -> std::fmt::Result {\n        f.write_str(&self.0)\n    }\n}\n"@
}

pub open spec fn wrapper_items(ws: Seq<Seq<char>>) -> Seq<char>
    decreases ws.len(),
{
    if ws.len() == 0 {
        seq![]
    } else {
        wrapper_items(ws.drop_last()) + wrapper_item(ws.last())
    }
}

/// The text of [`params_head`].
pub const PARAMS_HEAD: &'static str = "pub mod params {\n#[derive(Debug, Clone, Copy, PartialEq)]\npub enum HttpMethod {\n    Head,\n    Get,\n    Post,\n    Put,\n    Delete,\n}\n\n#[derive(Debug, Clone, PartialEq)]\npub struct Body(pub String);\n\n#[derive(Debug, Clone, PartialEq)]\npub struct HttpRequest {\n    pub method: HttpMethod,\n    pub url: String,\n    pub body: Option<Body>,\n    pub headers: Vec<(String, String)>,\n}\n\nimpl HttpRequest {\n    pub fn new(method: HttpMethod, url: String, body: Option<Body>) -> HttpRequest {\n        let headers = vec![(String::from(\"Content-Type\"), String::from(\"application/json\"))];\n        HttpRequest { method, url, body, headers }\n    }\n}\n";

pub open spec fn requests_open() -> Seq<char> {
    "pub mod requests {\n"@
}

/// The full output of a run: the `requests` module, then the `params`
/// module with the shared types and one wrapper type per parameter name
/// that some request uses.
pub open spec fn generation(es: Seq<(Seq<char>, EndpointV)>, style: UrlStyle) -> Result<
    Seq<char>,
    CodegenError,
> {
    match endpoints_result(es, style) {
        Ok(t) => Ok(
            requests_open() + t + "}\n\n"@ + params_head() + wrapper_items(
                wrapper_names(all_params(es)),
            ) + "}\n"@,
        ),
        Err(e) => Err(e),
    }
}

/// Generation is a function of its input: two runs over endpoint lists with
/// the same content, in the same order, with the same style, give the same
/// text or the same error.
pub proof fn lemma_generation_deterministic(
    a: Seq<(Seq<char>, EndpointV)>,
    b: Seq<(Seq<char>, EndpointV)>,
    style: UrlStyle,
)
    requires
        a == b,
    ensures
        generation(a, style) == generation(b, style),
{
}

proof fn lemma_paths_text_some(name: Seq<char>, e: EndpointV, ps: Seq<UrlPathV>, style: UrlStyle)
    requires
        forall|i: int| 0 <= i < ps.len() ==> url_stmts(style, (#[trigger] ps[i]).segments) is Some,
    ensures
        paths_text(name, e, ps, style) is Some,
    decreases ps.len(),
{
    if ps.len() > 0 {
        assert(ps[ps.len() - 1] == ps.last());
        assert forall|i: int| 0 <= i < ps.drop_last().len() implies url_stmts(
            style,
            (#[trigger] ps.drop_last()[i]).segments,
        ) is Some by {
            assert(ps.drop_last()[i] == ps[i]);
        }
        lemma_paths_text_some(name, e, ps.drop_last(), style);
    }
}

/// When success is owed: an endpoint with a method, a name that splits into
/// identifiers, only mapped parameter types, and paths parsed from their
/// templates is always generated, in either style.
pub proof fn lemma_endpoint_generates(name: Seq<char>, e: EndpointV, style: UrlStyle)
    requires
        e.methods.len() > 0,
        mod_path(name) is Some,
        !has_unmapped(e),
        forall|i: int|
            0 <= i < e.paths.len() ==> parse_template((#[trigger] e.paths[i]).template) == Some(
                e.paths[i].segments,
            ),
    ensures
        endpoint_result(name, e, style) is Ok,
{
    let n = normalized(e);
    lemma_dedup_last_wins(e.paths);
    assert forall|i: int| 0 <= i < n.paths.len() implies url_stmts(
        style,
        (#[trigger] n.paths[i]).segments,
    ) is Some by {
        let k = choose|k: int|
            0 <= k < e.paths.len() && #[trigger] dedup_paths(e.paths)[i] == e.paths[k]
                && last_of_shape(e.paths, k);
        assert(n.paths[i] == e.paths[k]);
        lemma_parsed_path_builds(e.paths[k]);
    }
    lemma_paths_text_some(name, n, n.paths, style);
}

fn join_with_underscore(parts: &Vec<String>) -> (r: String)
    ensures
        r@ == joined(strs_view(parts@), "_"@),
{
    let ghost items = strs_view(parts@);
    let mut out = String::new();
    let mut i: usize = 0;
    proof {
        assert(items.take(0) =~= Seq::<Seq<char>>::empty());
    }
    while i < parts.len()
        invariant
            i <= parts@.len(),
            items == strs_view(parts@),
            out@ == joined(items.take(i as int), "_"@),
        decreases parts@.len() - i,
    {
        if i > 0 {
            out.append("_");
        }
        out.append(parts[i].as_str());
        proof {
            assert(items.take(i + 1).drop_last() =~= items.take(i as int));
            if i == 0 {
                assert(items.take(1) =~= seq![items[0]]);
                assert(Seq::<char>::empty() + items[0] =~= items[0]);
            }
            assert(out@ =~= joined(items.take(i + 1), "_"@));
        }
        i = i + 1;
    }
    proof {
        assert(items.take(parts@.len() as int) =~= items);
    }
    out
}

/// Prints one endpoint as [`endpoint_result`] states, with the path
/// parameter names its requests use.
pub fn emit_endpoint(name: &String, endpoint: &Endpoint, style: UrlStyle) -> (r: Result<
    (String, Vec<String>),
    CodegenError,
>)
    ensures
        match r {
            Ok((s, ps)) => {
                &&& endpoint_result(name@, endpoint@, style) == Ok::<Seq<char>, CodegenError>(s@)
                &&& strs_view(ps@) == shapes_flat(normalized(endpoint@).paths)
            },
            Err(e) => endpoint_result(name@, endpoint@, style) == Err::<Seq<char>, CodegenError>(e),
        },
{
    let (name1, stripped) = strip_verbs((name.clone(), endpoint.copy()))?;
    let path = parse_mod_path(name.as_str())?;
    let mut k: usize = 0;
    while k < endpoint.url.parts.len()
        invariant
            k <= endpoint.url.parts@.len(),
            endpoint@.methods.len() > 0,
            mod_path(name@) == Some(strs_view(path@)),
            forall|j: int| 0 <= j < k ==> host_of(#[trigger] endpoint@.parts[j].1) is Some,
        decreases endpoint.url.parts@.len() - k,
    {
        if endpoint.url.parts[k].1.host_type().is_err() {
            assert(host_of(endpoint@.parts[k as int].1) is None);
            assert(has_unmapped(endpoint@));
            return Err(CodegenError::UnmappedType);
        }
        assert(endpoint@.parts[k as int].1 == endpoint.url.parts@[k as int].1@);
        k = k + 1;
    }
    let (_, e) = dedup_urls((name1, stripped));
    let ghost n = normalized(endpoint@);
    assert(e@ == n);
    let mut fns = String::new();
    let mut names: Vec<String> = Vec::new();
    let mut i: usize = 0;
    proof {
        assert(n.paths.take(0) =~= Seq::<UrlPathV>::empty());
    }
    while i < e.url.paths.len()
        invariant
            i <= e.url.paths@.len(),
            e@ == n,
            strs_view(names@) == shapes_flat(n.paths.take(i as int)),
            n == normalized(endpoint@),
            endpoint@.methods.len() > 0,
            mod_path(name@) == Some(strs_view(path@)),
            !has_unmapped(endpoint@),
            paths_text(name@, n, n.paths.take(i as int), style) == Some(fns@),
        decreases e.url.paths@.len() - i,
    {
        proof {
            assert(n.paths.take(i + 1).drop_last() =~= n.paths.take(i as int));
            assert(n.paths.take(i + 1).last() == n.paths[i as int]);
            assert(e.url.paths@[i as int]@ == n.paths[i as int]);
            assert(e@.methods.len() == 1);
        }
        let d = match build_request(name.as_str(), &e, &e.url.paths[i], style) {
            Ok(d) => d,
            Err(err) => {
                proof {
                    assert(paths_text(name@, n, n.paths.take(i + 1), style) is None);
                    lemma_paths_text_none(name@, n, n.paths, style, i + 1);
                }
                return Err(err);
            },
        };
        let text = request_fn_text(&d);
        fns.append(text.as_str());
        let mut sh = e.url.paths[i].params();
        let ghost before = names@;
        let ghost moved = sh@;
        names.append(&mut sh);
        proof {
            assert(names@ == before + moved);
            assert(strs_view(names@) =~= strs_view(before) + strs_view(moved));
        }
        i = i + 1;
    }
    proof {
        assert(n.paths.take(e.url.paths@.len() as int) =~= n.paths);
    }
    let mut out = "pub mod ".to_owned();
    let mname = join_with_underscore(&path);
    out.append(mname.as_str());
    out.append(" {\n");
    let doc = endpoint.get_doc();
    out.append(doc.as_str());
    out.append("use super::super::params::*;\n\n");
    out.append(fns.as_str());
    out.append("}\n");
    Ok((out, names))
}

proof fn lemma_paths_text_none(
    name: Seq<char>,
    e: EndpointV,
    ps: Seq<UrlPathV>,
    style: UrlStyle,
    j: int,
)
    requires
        0 <= j <= ps.len(),
        paths_text(name, e, ps.take(j), style) is None,
    ensures
        paths_text(name, e, ps, style) is None,
    decreases ps.len(),
{
    if j == ps.len() {
        assert(ps.take(j) =~= ps);
    } else {
        assert(ps.drop_last().take(j) =~= ps.take(j));
        lemma_paths_text_none(name, e, ps.drop_last(), style, j);
    }
}

/// Runs a whole generation: every endpoint in order, as [`generation`]
/// states; the first endpoint that fails stops the run with its error, and
/// no partial output is returned.
pub fn generate(endpoints: &Vec<(String, Endpoint)>, style: UrlStyle) -> (r: Result<
    String,
    CodegenError,
>)
    ensures
        match r {
            Ok(s) => generation(named_view(endpoints@), style) == Ok::<Seq<char>, CodegenError>(
                s@,
            ),
            Err(e) => generation(named_view(endpoints@), style) == Err::<Seq<char>, CodegenError>(
                e,
            ),
        },
{
    let ghost es = named_view(endpoints@);
    let mut body = String::new();
    let mut params: Vec<String> = Vec::new();
    let mut i: usize = 0;
    proof {
        assert(es.take(0) =~= Seq::<(Seq<char>, EndpointV)>::empty());
    }
    while i < endpoints.len()
        invariant
            i <= endpoints@.len(),
            es == named_view(endpoints@),
            endpoints_result(es.take(i as int), style) == Ok::<Seq<char>, CodegenError>(body@),
            strs_view(params@) == all_params(es.take(i as int)),
        decreases endpoints@.len() - i,
    {
        proof {
            assert(es.take(i + 1).drop_last() =~= es.take(i as int));
            assert(es.take(i + 1).last() == es[i as int]);
        }
        match emit_endpoint(&endpoints[i].0, &endpoints[i].1, style) {
            Ok((text, mut names)) => {
                body.append(text.as_str());
                let ghost before = params@;
                let ghost moved = names@;
                params.append(&mut names);
                proof {
                    assert(params@ == before + moved);
                    assert(strs_view(params@) =~= strs_view(before) + strs_view(moved));
                }
            },
            Err(e) => {
                proof {
                    lemma_endpoints_err(es, style, i + 1);
                }
                return Err(e);
            },
        }
        i = i + 1;
    }
    proof {
        assert(es.take(endpoints@.len() as int) =~= es);
    }
    let mut out = "pub mod requests {\n".to_owned();
    out.append(body.as_str());
    out.append("}\n\n");
    out.append(PARAMS_HEAD);
    let wrappers = wrapper_names_of(&params);
    let items = wrapper_items_of(&wrappers);
    out.append(items.as_str());
    out.append("}\n");
    Ok(out)
}

/// Whether a name is among the given ones.
fn contains_name(names: &Vec<String>, w: &String) -> (r: bool)
    ensures
        r == strs_view(names@).contains(w@),
{
    let mut j: usize = 0;
    while j < names.len()
        invariant
            j <= names@.len(),
            forall|k: int| 0 <= k < j ==> names@[k]@ != w@,
        decreases names@.len() - j,
    {
        if names[j] == *w {
            assert(strs_view(names@)[j as int] == w@);
            return true;
        }
        j = j + 1;
    }
    assert forall|k: int| 0 <= k < strs_view(names@).len() implies strs_view(names@)[k] != w@ by {
        assert(names@[k]@ != w@);
    }
    false
}

/// The wrapper type names of parameter names, each once, in order of
/// first use.
pub fn wrapper_names_of(names: &Vec<String>) -> (r: Vec<String>)
    ensures
        strs_view(r@) == wrapper_names(strs_view(names@)),
{
    let ghost all = strs_view(names@);
    let mut acc: Vec<String> = Vec::new();
    let mut i: usize = 0;
    proof {
        assert(all.take(0) =~= Seq::<Seq<char>>::empty());
    }
    while i < names.len()
        invariant
            i <= names@.len(),
            all == strs_view(names@),
            strs_view(acc@) == wrapper_names(all.take(i as int)),
        decreases names@.len() - i,
    {
        proof {
            assert(all.take(i + 1).drop_last() =~= all.take(i as int));
            assert(all.take(i + 1).last() == names@[i as int]@);
        }
        let w = wrapper_type_name(names[i].as_str());
        if !contains_name(&acc, &w) {
            let ghost before = acc@;
            acc.push(w);
            proof {
                assert(strs_view(acc@) =~= strs_view(before).push(w@));
            }
        }
        i = i + 1;
    }
    proof {
        assert(all.take(names@.len() as int) =~= all);
    }
    acc
}

/// The text of the wrapper types of the given names, in order.
pub fn wrapper_items_of(ws: &Vec<String>) -> (r: String)
    ensures
        r@ == wrapper_items(strs_view(ws@)),
{
    let ghost all = strs_view(ws@);
    let mut out = String::new();
    let mut i: usize = 0;
    proof {
        assert(all.take(0) =~= Seq::<Seq<char>>::empty());
    }
    while i < ws.len()
        invariant
            i <= ws@.len(),
            all == strs_view(ws@),
            out@ == wrapper_items(all.take(i as int)),
        decreases ws@.len() - i,
    {
        proof {
            assert(all.take(i + 1).drop_last() =~= all.take(i as int));
            assert(all.take(i + 1).last() == ws@[i as int]@);
        }
        let w = ws[i].as_str();
        out.append("\n#[derive(Debug, Clone, PartialEq)]\npub struct ");
        out.append(w);
        out.append("(pub String);\n\nimpl std::ops::Deref for ");
        out.append(w);
        out.append(" {\n    type Target = str;\n    fn deref(&self) -> &str {\n        &self.0\n    }\n}\n\nimpl std::fmt::Display for ");
        out.append(w);
        out.append(" {\n    fn fmt(&self, f: &mut std::fmt::Formatter) -> std::fmt::Result {\n        f.write_str(&self.0)\n    }\n}\n");
        proof {
            assert(out@ =~= wrapper_items(all.take(i + 1)));
        }
        i = i + 1;
    }
    proof {
        assert(all.take(ws@.len() as int) =~= all);
    }
    out
}

proof fn lemma_endpoints_err(es: Seq<(Seq<char>, EndpointV)>, style: UrlStyle, j: int)
    requires
        0 <= j <= es.len(),
        endpoints_result(es.take(j), style) is Err,
    ensures
        endpoints_result(es, style) == endpoints_result(es.take(j), style),
    decreases es.len(),
{
    if j == es.len() {
        assert(es.take(j) =~= es);
    } else {
        assert(es.drop_last().take(j) =~= es.take(j));
        lemma_endpoints_err(es.drop_last(), style, j);
    }
}

} // verus!
