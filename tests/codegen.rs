use elastic_codegen::emit::{decimal_of, quote_literal, request_fn_text, stmt_text};
use elastic_codegen::endpoint::{
    parse_method, parse_type, Body, Endpoint, HostType, HttpMethod, NumberKind, Type, Url,
    UrlPath,
};
use elastic_codegen::error::CodegenError;
use elastic_codegen::indices::{forcemerge, put_warmer, put_warmers};
use elastic_codegen::names::{parse_mod_path, request_type_name, request_type_name_from};
use elastic_codegen::normalize::{add_simple_search, choose_verb, dedup_urls, strip_verbs};
use elastic_codegen::pipeline::{generate, wrapper_names_of, PARAMS_HEAD};
use elastic_codegen::request::{build_request, UrlStyle};
use elastic_codegen::template::{
    parse_fmt, parse_path_params, parse_path_parts, parse_segments,
};
use elastic_codegen::urlgen::{url_fmt_decl, url_push_decl, LenTerm, PushArg, Stmt};

fn strings(v: &[&str]) -> Vec<String> {
    v.iter().map(|s| s.to_string()).collect()
}

fn endpoint(methods: Vec<HttpMethod>, paths: &[&str], body: bool) -> Endpoint {
    Endpoint {
        name: None,
        documentation: String::from("docs"),
        methods,
        url: Url {
            paths: paths.iter().map(|p| UrlPath::parse(p).unwrap()).collect(),
            parts: Vec::new(),
        },
        body: if body {
            Some(Body { required: true, description: String::from("the body") })
        } else {
            None
        },
    }
}

/// The generated wrapper type of a path parameter.
fn wrapper(w: &str) -> String {
    format!(
        "\n#[derive(Debug, Clone, PartialEq)]\npub struct {w}(pub String);\n\nimpl std::ops::Deref for {w} {{\n    type Target = str;\n    fn deref(&self) -> &str {{\n        &self.0\n    }}\n}}\n\nimpl std::fmt::Display for {w} {{\n    fn fmt(&self, f: &mut std::fmt::Formatter) -> std::fmt::Result {{\n        f.write_str(&self.0)\n    }}\n}}\n"
    )
}

fn templates(e: &Endpoint) -> Vec<String> {
    e.url.paths.iter().map(|p| p.template.clone()).collect()
}

/// Runs generated push-style statements with the given variable values:
/// the reserved capacity and the assembled text.
fn run_push(stmts: &[Stmt], env: &[(&str, &str)]) -> (usize, String) {
    let value = |v: &str| env.iter().find(|(k, _)| *k == v).unwrap().1.to_string();
    let mut capacity = 0;
    let mut out = String::new();
    for s in stmts {
        match s {
            Stmt::LetCapacity { terms, .. } => {
                for t in terms {
                    capacity += match t {
                        LenTerm::Fixed(n) => *n,
                        LenTerm::LenOf(v) => value(v).len(),
                    };
                }
            }
            Stmt::PushStr { arg, .. } => match arg {
                PushArg::Text(t) => out.push_str(t),
                PushArg::Var(v) => out.push_str(&value(v)),
            },
            Stmt::LetFormat { .. } => panic!("not a push-style statement"),
        }
    }
    (capacity, out)
}

#[test]
fn it_works() {}

#[test]
fn can_emit_rs_fn_with_fmt_body_to_file() {
    let url = "/{index}/_alias/{name}";
    let params = parse_path_params(url).unwrap();
    let fmt = parse_fmt(url).unwrap();
    let result = url_fmt_decl(&fmt, "base", &params);
    assert!(result.is_ok());
}

#[test]
fn can_emit_rs_fn_with_push_body_to_file() {
    let url = "/{index}/_alias/{name}";
    let params = parse_path_params(url).unwrap();
    let parts = parse_segments(url).unwrap();
    let result = url_push_decl("base", &parts, &params);
    assert!(result.is_ok());
}

#[test]
fn parse_alias_template() {
    let url = "/{index}/_alias/{name}";
    assert_eq!(parse_path_params(url).unwrap(), strings(&["index", "name"]));
    assert_eq!(parse_path_parts(url).unwrap(), strings(&["/", "/_alias/"]));
    assert_eq!(parse_fmt(url).unwrap(), "{}/{}/_alias/{}");
}

#[test]
fn parse_adjacent_and_unprefixed_params() {
    assert_eq!(parse_path_params("{a}{b}/x/{c}").unwrap(), strings(&["a", "b", "c"]));
    assert_eq!(parse_path_parts("{a}{b}/x/{c}").unwrap(), strings(&["/x/"]));
    assert_eq!(parse_path_params("_cat/health").unwrap(), Vec::<String>::new());
    assert_eq!(parse_path_parts("_cat/health").unwrap(), strings(&["_cat/health"]));
    assert_eq!(parse_fmt("").unwrap(), "{}");
}

#[test]
fn parse_rejects_bad_braces() {
    assert_eq!(parse_segments("/{index").unwrap_err(), CodegenError::TemplateSyntax);
    assert_eq!(parse_segments("/index}").unwrap_err(), CodegenError::TemplateSyntax);
    assert_eq!(parse_segments("/{}").unwrap_err(), CodegenError::TemplateSyntax);
    assert_eq!(parse_segments("/{a{b}}").unwrap_err(), CodegenError::TemplateSyntax);
    assert!(UrlPath::parse("/{a").is_err());
}

#[test]
fn mod_path_of_names() {
    assert_eq!(parse_mod_path("cluster.put_settings").unwrap(), strings(&["cluster", "put_settings"]));
    assert_eq!(parse_mod_path("search").unwrap(), strings(&["search"]));
    assert_eq!(parse_mod_path("").unwrap_err(), CodegenError::ModPathParse);
    assert_eq!(parse_mod_path("cluster..x").unwrap_err(), CodegenError::ModPathParse);
    assert_eq!(parse_mod_path("1cat.x").unwrap_err(), CodegenError::ModPathParse);
    assert_eq!(parse_mod_path("cat-x").unwrap_err(), CodegenError::ModPathParse);
    let mut e = endpoint(vec![HttpMethod::Get], &[], false);
    assert_eq!(e.get_mod_path().unwrap_err(), CodegenError::ModPathParse);
    e.name = Some(String::from("indices.put_warmer"));
    assert_eq!(e.get_mod_path().unwrap(), strings(&["indices", "put_warmer"]));
}

#[test]
fn doc_comment_lines() {
    let mut e = endpoint(vec![HttpMethod::Get], &[], false);
    e.documentation = String::from("first\nsecond");
    assert_eq!(e.get_doc(), "//! first\n//! second\n");
    e.documentation = String::new();
    assert_eq!(e.get_doc(), "//! \n");
}

#[test]
fn dedup_collapses_equal_shapes() {
    let e = endpoint(vec![HttpMethod::Get], &["/{a}", "/x/{a}", "/{a}/{b}"], false);
    let (name, e) = dedup_urls((String::from("e"), e));
    assert_eq!(name, "e");
    assert_eq!(templates(&e), strings(&["/x/{a}", "/{a}/{b}"]));
}

#[test]
fn dedup_keeps_distinct_shapes() {
    let e = endpoint(vec![HttpMethod::Get], &["/{a}", "/{a}/{b}", "/_all"], false);
    let (_, e) = dedup_urls((String::from("e"), e));
    assert_eq!(templates(&e), strings(&["/{a}", "/{a}/{b}", "/_all"]));
    let e = endpoint(vec![HttpMethod::Get], &["/{ab}", "/{a}/{b}"], false);
    let (_, e) = dedup_urls((String::from("e"), e));
    assert_eq!(e.url.paths.len(), 2);
}

#[test]
fn verb_selection() {
    assert_eq!(choose_verb(&vec![HttpMethod::Get, HttpMethod::Post]), Ok(HttpMethod::Post));
    assert_eq!(choose_verb(&vec![HttpMethod::Get]), Ok(HttpMethod::Get));
    assert_eq!(choose_verb(&vec![HttpMethod::Put, HttpMethod::Get]), Ok(HttpMethod::Put));
    assert_eq!(choose_verb(&vec![]), Err(CodegenError::VerbSelection));
    let e = endpoint(vec![HttpMethod::Get, HttpMethod::Post], &["/_search"], true);
    let (_, e) = strip_verbs((String::from("search"), e)).unwrap();
    assert_eq!(e.methods, vec![HttpMethod::Post]);
    let e = endpoint(vec![], &["/_search"], true);
    assert_eq!(strip_verbs((String::from("search"), e)).unwrap_err(), CodegenError::VerbSelection);
}

#[test]
fn push_style_capacity_is_exact() {
    let segs = parse_segments("/{i}/_alias/{n}").unwrap();
    let (ident, stmts) = url_push_decl("base", &segs, &strings(&["i", "n"])).unwrap();
    assert_eq!(ident, "url_fmtd");
    let (capacity, url) = run_push(&stmts, &[("base", "host"), ("i", "i"), ("n", "n")]);
    assert_eq!(capacity, 15);
    assert_eq!(url, "host/i/_alias/n");
    assert_eq!(capacity, url.len());
    let (capacity, url) = run_push(&stmts, &[("base", "http://h:9200"), ("i", "idx"), ("n", "é")]);
    assert_eq!(url, "http://h:9200/idx/_alias/é");
    assert_eq!(capacity, url.len());
}

#[test]
fn push_style_statements_print() {
    let segs = parse_segments("/{index}/_alias/{name}").unwrap();
    let (_, stmts) = url_push_decl("base", &segs, &strings(&["index", "name"])).unwrap();
    let lines: Vec<String> = stmts.iter().map(stmt_text).collect();
    assert_eq!(
        lines,
        strings(&[
            "let mut url_fmtd = String::with_capacity(base.len() + 1 + index.len() + 8 + name.len());",
            "url_fmtd.push_str(base);",
            "url_fmtd.push_str(\"/\");",
            "url_fmtd.push_str(index);",
            "url_fmtd.push_str(\"/_alias/\");",
            "url_fmtd.push_str(name);",
        ])
    );
}

#[test]
fn format_style_statement_prints() {
    let (ident, stmt) = url_fmt_decl("{}/{}/_alias/{}", "base", &strings(&["index", "name"])).unwrap();
    assert_eq!(ident, "url_fmtd");
    assert_eq!(stmt_text(&stmt), "let url_fmtd = format!(\"{}/{}/_alias/{}\", base, index, name);");
}

#[test]
fn arity_mismatch_is_refused() {
    assert_eq!(
        url_fmt_decl("{}/{}/_alias/{}", "base", &strings(&["index"])).unwrap_err(),
        CodegenError::TemplateMismatch
    );
    assert_eq!(url_fmt_decl("{}/{", "base", &strings(&[])).unwrap_err(), CodegenError::TemplateMismatch);
    let segs = parse_segments("/{index}/_alias/{name}").unwrap();
    assert_eq!(
        url_push_decl("base", &segs, &strings(&["index"])).unwrap_err(),
        CodegenError::TemplateMismatch
    );
}

#[test]
fn simple_search_is_derived() {
    let search = endpoint(vec![HttpMethod::Get, HttpMethod::Post], &["/_search", "/{index}/_search"], true);
    let mut endpoints = vec![(String::from("search"), search)];
    add_simple_search(&mut endpoints).unwrap();
    assert_eq!(endpoints.len(), 2);
    assert_eq!(endpoints[1].0, "simple_search");
    assert_eq!(endpoints[1].1.methods, vec![HttpMethod::Get]);
    assert!(endpoints[1].1.body.is_none());
    assert_eq!(templates(&endpoints[1].1), strings(&["/_search", "/{index}/_search"]));
    assert_eq!(endpoints[0].1.methods, vec![HttpMethod::Get, HttpMethod::Post]);
    assert!(endpoints[0].1.body.is_some());
}

#[test]
fn simple_search_needs_search() {
    let mut endpoints = vec![(String::from("count"), endpoint(vec![HttpMethod::Get], &["/_count"], false))];
    assert_eq!(add_simple_search(&mut endpoints).unwrap_err(), CodegenError::EndpointNotFound);
    assert_eq!(endpoints.len(), 1);
}

#[test]
fn host_types() {
    assert!(matches!(Type::Bool.host_type(), Ok(HostType::Bool)));
    assert!(matches!(Type::Number(NumberKind::Long).host_type(), Ok(HostType::I64)));
    assert!(matches!(Type::Number(NumberKind::Int).host_type(), Ok(HostType::I32)));
    assert!(matches!(Type::Number(NumberKind::Short).host_type(), Ok(HostType::I16)));
    assert!(matches!(Type::Number(NumberKind::Byte).host_type(), Ok(HostType::U8)));
    assert!(matches!(Type::Number(NumberKind::Double).host_type(), Ok(HostType::F32)));
    assert!(matches!(Type::Number(NumberKind::Float).host_type(), Ok(HostType::F32)));
    assert!(matches!(Type::Str.host_type(), Ok(HostType::Text)));
    assert!(matches!(Type::Bin.host_type(), Ok(HostType::Bytes)));
    assert_eq!(Type::List.host_type().unwrap_err(), CodegenError::UnmappedType);
    assert_eq!(Type::Enum.host_type().unwrap_err(), CodegenError::UnmappedType);
    match Type::Other(String::from("index_name")).host_type() {
        Ok(h) => assert_eq!(h.text(), "IndexName"),
        Err(_) => panic!("custom types are mapped"),
    }
    assert_eq!(HostType::Bytes.text(), "Vec<u8>");
}

#[test]
fn descriptor_names() {
    assert_eq!(request_type_name("indices.put_warmer"), "IndicesPutWarmerRequest");
    assert_eq!(request_type_name_from("Search"), "SearchRequest");
    assert_eq!(parse_method("POST"), Some(HttpMethod::Post));
    assert_eq!(parse_method("post"), None);
    assert!(matches!(parse_type("long"), Type::Number(NumberKind::Long)));
    assert!(matches!(parse_type("list"), Type::List));
    match parse_type("geo") {
        Type::Other(n) => assert_eq!(n, "geo"),
        _ => panic!("unknown names are custom types"),
    }
}

#[test]
fn request_descriptor_and_ctor_fn() {
    let e = endpoint(vec![HttpMethod::Put], &["/{index}/_alias/{name}"], true);
    let d = build_request("indices.put_alias", &e, &e.url.paths[0], UrlStyle::Push).unwrap();
    assert_eq!(d.request_type, "IndicesPutAliasRequest");
    assert_eq!(d.ctor_name, "put_index_name");
    assert_eq!(d.params, strings(&["base", "index", "name", "body"]));
    assert_eq!(d.method, HttpMethod::Put);
    assert!(d.has_body);
    assert_eq!(
        request_fn_text(&d),
        "pub fn put_index_name(base: &str, index: &Index, name: &Name, body: Body) -> HttpRequest {\n    let mut url_fmtd = String::with_capacity(base.len() + 1 + index.len() + 8 + name.len());\n    url_fmtd.push_str(base);\n    url_fmtd.push_str(\"/\");\n    url_fmtd.push_str(index);\n    url_fmtd.push_str(\"/_alias/\");\n    url_fmtd.push_str(name);\n    HttpRequest::new(HttpMethod::Put, url_fmtd, Some(body))\n}\n"
    );
    let d = build_request("indices.put_alias", &e, &e.url.paths[0], UrlStyle::Format).unwrap();
    assert_eq!(
        request_fn_text(&d),
        "pub fn put_index_name(base: &str, index: &Index, name: &Name, body: Body) -> HttpRequest {\n    let url_fmtd = format!(\"{}/{}/_alias/{}\", base, index, name);\n    HttpRequest::new(HttpMethod::Put, url_fmtd, Some(body))\n}\n"
    );
    let none = endpoint(vec![], &["/x"], false);
    assert_eq!(
        build_request("x", &none, &none.url.paths[0], UrlStyle::Push).unwrap_err(),
        CodegenError::VerbSelection
    );
}

#[test]
fn literals_are_escaped() {
    assert_eq!(quote_literal("a\"b\\c"), "\"a\\\"b\\\\c\"");
    assert_eq!(decimal_of(0), "0");
    assert_eq!(decimal_of(1234), "1234");
}

#[test]
fn generation_output_and_idempotence() {
    let mut health = endpoint(vec![HttpMethod::Get], &["/_cluster/health"], false);
    health.documentation = String::from("Health");
    let endpoints = vec![(String::from("cluster.health"), health)];
    let first = generate(&endpoints, UrlStyle::Push).unwrap();
    let expected = String::from(
        "pub mod requests {\npub mod cluster_health {\n//! Health\nuse super::super::params::*;\n\npub fn get(base: &str) -> HttpRequest {\n    let mut url_fmtd = String::with_capacity(base.len() + 16);\n    url_fmtd.push_str(base);\n    url_fmtd.push_str(\"/_cluster/health\");\n    HttpRequest::new(HttpMethod::Get, url_fmtd, None)\n}\n}\n}\n\n",
    ) + PARAMS_HEAD
        + "}\n";
    assert_eq!(first, expected);
    assert!(first.contains("pub struct HttpRequest {"));
    let second = generate(&endpoints, UrlStyle::Push).unwrap();
    assert_eq!(first, second);
}

#[test]
fn generation_errors() {
    let bad_name = vec![(String::from("a..b"), endpoint(vec![HttpMethod::Get], &["/x"], false))];
    assert_eq!(generate(&bad_name, UrlStyle::Push).unwrap_err(), CodegenError::ModPathParse);
    let no_verb = vec![(String::from("a"), endpoint(vec![], &["/x"], false))];
    assert_eq!(generate(&no_verb, UrlStyle::Push).unwrap_err(), CodegenError::VerbSelection);
    let mut listed = endpoint(vec![HttpMethod::Get], &["/{index}"], false);
    listed.url.parts.push((String::from("index"), Type::List));
    let unmapped = vec![(String::from("a"), listed)];
    assert_eq!(generate(&unmapped, UrlStyle::Format).unwrap_err(), CodegenError::UnmappedType);
}

#[test]
fn generation_normalises_each_endpoint() {
    let mut e = endpoint(
        vec![HttpMethod::Put, HttpMethod::Post],
        &["/{index}/_warmer/{name}", "/{index}/_warmers/{name}"],
        true,
    );
    e.documentation = String::from("Warmers");
    let text = generate(&vec![(String::from("indices.put_warmer"), e)], UrlStyle::Format).unwrap();
    let expected = String::from(
        "pub mod requests {\npub mod indices_put_warmer {\n//! Warmers\nuse super::super::params::*;\n\npub fn post_index_name(base: &str, index: &Index, name: &Name, body: Body) -> HttpRequest {\n    let url_fmtd = format!(\"{}/{}/_warmers/{}\", base, index, name);\n    HttpRequest::new(HttpMethod::Post, url_fmtd, Some(body))\n}\n}\n}\n\n",
    ) + PARAMS_HEAD
        + &wrapper("Index")
        + &wrapper("Name")
        + "}\n";
    assert_eq!(text, expected);
}

#[test]
fn forcemerge_urls() {
    assert_eq!(forcemerge::post(String::from("http://h")), "http://h/_forcemerge");
    assert_eq!(
        forcemerge::post_index(String::from("http://h"), String::from("idx")),
        "http://h/idx/_forcemerge"
    );
}

#[test]
fn warmer_urls() {
    let b = || String::from("host");
    let s = |v: &str| String::from(v);
    assert_eq!(put_warmer::put_name(b(), s("n")), "host/_warmer/n");
    assert_eq!(put_warmer::post_name(b(), s("n")), "host/_warmer/n");
    assert_eq!(put_warmer::put_index_name(b(), s("i"), s("n")), "host/i/_warmer/n");
    assert_eq!(put_warmer::post_index_name(b(), s("i"), s("n")), "host/i/_warmer/n");
    assert_eq!(put_warmer::put_index_type_name(b(), s("i"), s("t"), s("n")), "host/i/t/_warmer/n");
    assert_eq!(put_warmer::post_index_type_name(b(), s("i"), s("t"), s("n")), "host/i/t/_warmer/n");
    assert_eq!(put_warmers::put_name(b(), s("n")), "host/_warmers/n");
    assert_eq!(put_warmers::post_name(b(), s("n")), "host/_warmers/n");
    assert_eq!(put_warmers::put_index_name(b(), s("i"), s("n")), "host/i/_warmers/n");
    assert_eq!(put_warmers::post_index_name(b(), s("i"), s("n")), "host/i/_warmers/n");
    assert_eq!(put_warmers::put_index_type_name(b(), s("i"), s("t"), s("n")), "host/i/t/_warmers/n");
    assert_eq!(put_warmers::post_index_type_name(b(), s("i"), s("t"), s("n")), "host/i/t/_warmers/n");
}

#[test]
fn wrapper_names_are_unique() {
    let names = strings(&["index", "name", "index", "node_id", "name"]);
    assert_eq!(wrapper_names_of(&names), strings(&["Index", "Name", "NodeId"]));
}
