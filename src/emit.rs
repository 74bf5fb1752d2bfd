//! Printing of generated statements and request constructor functions as
//! source text.
use vstd::prelude::*;

use crate::buffer::push_char;
use crate::endpoint::HttpMethod;
use crate::names::{pascal_case_of, wrapper_type_name};
use crate::request::{RequestDescriptor, RequestV};
use crate::template::strs_view;
use crate::urlgen::{LenTerm, LenTermV, PushArg, PushArgV, Stmt, StmtV, terms_view, stmts_view};

verus! {

// ---------------------------------------------------------------------
// What the printed text is.
// ---------------------------------------------------------------------
pub open spec fn digit_char(d: nat) -> char {
    if d == 0 {
        '0'
    } else if d == 1 {
        '1'
    } else if d == 2 {
        '2'
    } else if d == 3 {
        '3'
    } else if d == 4 {
        '4'
    } else if d == 5 {
        '5'
    } else if d == 6 {
        '6'
    } else if d == 7 {
        '7'
    } else if d == 8 {
        '8'
    } else {
        '9'
    }
}

/// The decimal digits of a number.
pub open spec fn decimal(n: nat) -> Seq<char>
    decreases n,
{
    if n < 10 {
        seq![digit_char(n)]
    } else {
        decimal(n / 10).push(digit_char(n % 10))
    }
}

pub open spec fn escape_char(c: char) -> Seq<char> {
    if c == '"' {
        seq!['\\', '"']
    } else if c == '\\' {
        seq!['\\', '\\']
    } else {
        seq![c]
    }
}

/// The body of a string literal holding `t`.
pub open spec fn escaped(t: Seq<char>) -> Seq<char>
    decreases t.len(),
{
    if t.len() == 0 {
        seq![]
    } else {
        escaped(t.drop_last()) + escape_char(t.last())
    }
}

/// A string literal holding `t`.
pub open spec fn quoted(t: Seq<char>) -> Seq<char> {
    seq!['"'] + escaped(t) + seq!['"']
}

/// Items joined by a separator.
pub open spec fn joined(items: Seq<Seq<char>>, sep: Seq<char>) -> Seq<char>
    decreases items.len(),
{
    if items.len() == 0 {
        seq![]
    } else if items.len() == 1 {
        items[0]
    } else {
        joined(items.drop_last(), sep) + sep + items.last()
    }
}

pub open spec fn print_term(t: LenTermV) -> Seq<char> {
    match t {
        LenTermV::Fixed(n) => decimal(n),
        LenTermV::LenOf(v) => v + ".len()"@,
    }
}

pub open spec fn print_terms(ts: Seq<LenTermV>) -> Seq<char> {
    joined(ts.map_values(|t: LenTermV| print_term(t)), " + "@)
}

pub open spec fn print_arg(a: PushArgV) -> Seq<char> {
    match a {
        PushArgV::Text(t) => quoted(t),
        PushArgV::Var(v) => v,
    }
}

/// One statement, without indentation or line break.
pub open spec fn print_stmt(s: StmtV) -> Seq<char> {
    match s {
        StmtV::LetFormat { name, template, args } => "let "@ + name + " = format!("@ + quoted(
            template,
        ) + ", "@ + joined(args, ", "@) + ");"@,
        StmtV::LetCapacity { name, terms } => "let mut "@ + name + " = String::with_capacity("@
            + print_terms(terms) + ");"@,
        StmtV::PushStr { target, arg } => target + ".push_str("@ + print_arg(arg) + ");"@,
    }
}

/// Statements, one per indented line.
pub open spec fn print_body(ss: Seq<StmtV>) -> Seq<char>
    decreases ss.len(),
{
    if ss.len() == 0 {
        seq![]
    } else {
        print_body(ss.drop_last()) + "    "@ + print_stmt(ss.last()) + "\n"@
    }
}

/// The declaration of a constructor parameter: the base address, first, as
/// `&str`; each path parameter by reference to its wrapper type.
pub open spec fn param_decl(i: int, p: Seq<char>) -> Seq<char> {
    if i == 0 {
        p + ": &str"@
    } else {
        p + ": &"@ + pascal_case_of(p)
    }
}

/// The parameter declarations, joined by `, `.
pub open spec fn print_params(ps: Seq<Seq<char>>) -> Seq<char> {
    joined(ps.map(|i: int, p: Seq<char>| param_decl(i, p)), ", "@)
}

/// The constructor's parameters before the body.
pub open spec fn url_fn_params(d: RequestV) -> Seq<Seq<char>> {
    if d.has_body && d.params.len() > 0 {
        d.params.drop_last()
    } else {
        d.params
    }
}

/// The name of an HTTP verb's variant in generated code.
pub open spec fn method_variant(m: HttpMethod) -> Seq<char> {
    match m {
        HttpMethod::Head => "Head"@,
        HttpMethod::Get => "Get"@,
        HttpMethod::Post => "Post"@,
        HttpMethod::Put => "Put"@,
        HttpMethod::Delete => "Delete"@,
    }
}

pub open spec fn body_param(d: RequestV) -> Seq<char> {
    if d.has_body {
        ", body: Body"@
    } else {
        seq![]
    }
}

pub open spec fn body_arg(d: RequestV) -> Seq<char> {
    if d.has_body {
        "Some(body)"@
    } else {
        "None"@
    }
}

/// The constructor function of a request descriptor: it takes the base
/// address, the path parameters and the body if any, assembles the URL,
/// and returns a generic request with the verb, the URL and the body.
pub open spec fn print_request_fn(d: RequestV) -> Seq<char> {
    "pub fn "@ + d.ctor_name + "("@ + print_params(url_fn_params(d)) + body_param(d)
        + ") -> HttpRequest {\n"@ + print_body(d.url) + "    HttpRequest::new(HttpMethod::"@
        + method_variant(d.method) + ", url_fmtd, "@ + body_arg(d) + ")\n}\n"@
}

// ---------------------------------------------------------------------
// Printing.
// ---------------------------------------------------------------------
fn digit_of(d: usize) -> (c: char)
    requires
        d < 10,
    ensures
        c == digit_char(d as nat),
{
    if d == 0 {
        '0'
    } else if d == 1 {
        '1'
    } else if d == 2 {
        '2'
    } else if d == 3 {
        '3'
    } else if d == 4 {
        '4'
    } else if d == 5 {
        '5'
    } else if d == 6 {
        '6'
    } else if d == 7 {
        '7'
    } else if d == 8 {
        '8'
    } else {
        '9'
    }
}

fn push_decimal(out: &mut String, n: usize)
    ensures
        final(out)@ == old(out)@ + decimal(n as nat),
    decreases n,
{
    if n >= 10 {
        push_decimal(out, n / 10);
    }
    push_char(out, digit_of(n % 10));
    proof {
        if n >= 10 {
            assert(old(out)@ + decimal(n as nat / 10) + seq![digit_char(n as nat % 10)] =~= old(
                out,
            )@ + decimal(n as nat));
        } else {
            assert(old(out)@.push(digit_char(n as nat)) =~= old(out)@ + decimal(n as nat));
        }
    }
}

/// The decimal digits of a number.
pub fn decimal_of(n: usize) -> (r: String)
    ensures
        r@ == decimal(n as nat),
{
    let mut s = String::new();
    push_decimal(&mut s, n);
    proof {
        assert(Seq::<char>::empty() + decimal(n as nat) =~= decimal(n as nat));
    }
    s
}

fn push_quoted(out: &mut String, t: &str)
    ensures
        final(out)@ == old(out)@ + quoted(t@),
{
    let n = t.unicode_len();
    push_char(out, '"');
    let ghost start = out@;
    let mut i: usize = 0;
    proof {
        assert(t@.take(0) =~= Seq::<char>::empty());
        assert(start + escaped(t@.take(0)) =~= start);
    }
    while i < n
        invariant
            n == t@.len(),
            i <= n,
            out@ == start + escaped(t@.take(i as int)),
        decreases n - i,
    {
        let c = t.get_char(i);
        proof {
            assert(t@.take(i + 1).drop_last() =~= t@.take(i as int));
            assert(t@.take(i + 1).last() == c);
        }
        if c == '"' {
            push_char(out, '\\');
            push_char(out, '"');
        } else if c == '\\' {
            push_char(out, '\\');
            push_char(out, '\\');
        } else {
            push_char(out, c);
        }
        proof {
            assert(out@ =~= start + escaped(t@.take(i + 1)));
        }
        i = i + 1;
    }
    push_char(out, '"');
    proof {
        assert(t@.take(n as int) =~= t@);
        assert(out@ =~= old(out)@ + quoted(t@));
    }
}

/// A string literal holding `t`, with quotes and backslashes escaped.
pub fn quote_literal(t: &str) -> (r: String)
    ensures
        r@ == quoted(t@),
{
    let mut s = String::new();
    push_quoted(&mut s, t);
    proof {
        assert(Seq::<char>::empty() + quoted(t@) =~= quoted(t@));
    }
    s
}

proof fn lemma_joined_step(items: Seq<Seq<char>>, sep: Seq<char>, i: int)
    requires
        0 < i < items.len(),
    ensures
        joined(items.take(i + 1), sep) == joined(items.take(i), sep) + sep + items[i],
{
    assert(items.take(i + 1).drop_last() =~= items.take(i));
}

fn push_term(out: &mut String, t: &LenTerm)
    ensures
        final(out)@ == old(out)@ + print_term(t@),
{
    match t {
        LenTerm::Fixed(n) => {
            push_decimal(out, *n);
        },
        LenTerm::LenOf(v) => {
            out.append(v.as_str());
            out.append(".len()");
        },
    }
}

fn push_terms(out: &mut String, ts: &Vec<LenTerm>)
    ensures
        final(out)@ == old(out)@ + print_terms(terms_view(ts@)),
{
    let ghost start = out@;
    let ghost items = terms_view(ts@).map_values(|t: LenTermV| print_term(t));
    let mut i: usize = 0;
    proof {
        assert(items.take(0) =~= Seq::<Seq<char>>::empty());
        assert(start + joined(items.take(0), " + "@) =~= start);
    }
    while i < ts.len()
        invariant
            i <= ts@.len(),
            items == terms_view(ts@).map_values(|t: LenTermV| print_term(t)),
            out@ == start + joined(items.take(i as int), " + "@),
        decreases ts@.len() - i,
    {
        if i > 0 {
            out.append(" + ");
        }
        push_term(out, &ts[i]);
        proof {
            assert(items[i as int] == print_term(ts@[i as int]@));
            if i > 0 {
                lemma_joined_step(items, " + "@, i as int);
            } else {
                assert(items.take(1) =~= seq![items[0]]);
            }
            assert(out@ =~= start + joined(items.take(i + 1), " + "@));
        }
        i = i + 1;
    }
    proof {
        assert(items.take(ts@.len() as int) =~= items);
    }
}

fn push_list(out: &mut String, names: &Vec<String>)
    ensures
        final(out)@ == old(out)@ + joined(strs_view(names@), ", "@),
{
    let ghost start = out@;
    let ghost items = strs_view(names@);
    let mut i: usize = 0;
    proof {
        assert(items.take(0) =~= Seq::<Seq<char>>::empty());
        assert(start + joined(items.take(0), ", "@) =~= start);
    }
    while i < names.len()
        invariant
            i <= names@.len(),
            items == strs_view(names@),
            out@ == start + joined(items.take(i as int), ", "@),
        decreases names@.len() - i,
    {
        if i > 0 {
            out.append(", ");
        }
        out.append(names[i].as_str());
        proof {
            if i > 0 {
                lemma_joined_step(items, ", "@, i as int);
            } else {
                assert(items.take(1) =~= seq![items[0]]);
            }
            assert(out@ =~= start + joined(items.take(i + 1), ", "@));
        }
        i = i + 1;
    }
    proof {
        assert(items.take(names@.len() as int) =~= items);
    }
}

/// Prints one statement, without indentation or line break.
pub fn stmt_text(s: &Stmt) -> (r: String)
    ensures
        r@ == print_stmt(s@),
{
    let mut out = String::new();
    match s {
        Stmt::LetFormat { name, template, args } => {
            out.append("let ");
            out.append(name.as_str());
            out.append(" = format!(");
            push_quoted(&mut out, template.as_str());
            out.append(", ");
            push_list(&mut out, args);
            out.append(");");
        },
        Stmt::LetCapacity { name, terms } => {
            out.append("let mut ");
            out.append(name.as_str());
            out.append(" = String::with_capacity(");
            push_terms(&mut out, terms);
            out.append(");");
        },
        Stmt::PushStr { target, arg } => {
            out.append(target.as_str());
            out.append(".push_str(");
            match arg {
                PushArg::Text(t) => {
                    push_quoted(&mut out, t.as_str());
                },
                PushArg::Var(v) => {
                    out.append(v.as_str());
                },
            }
            out.append(");");
        },
    }
    proof {
        assert(out@ =~= print_stmt(s@));
    }
    out
}

fn push_params(out: &mut String, ps: &Vec<String>, count: usize)
    requires
        count <= ps@.len(),
    ensures
        final(out)@ == old(out)@ + print_params(strs_view(ps@).take(count as int)),
{
    let ghost start = out@;
    let ghost all = strs_view(ps@).take(count as int);
    let ghost items = all.map(|i: int, p: Seq<char>| param_decl(i, p));
    let mut i: usize = 0;
    proof {
        assert(items.take(0) =~= Seq::<Seq<char>>::empty());
        assert(start + joined(items.take(0), ", "@) =~= start);
    }
    while i < count
        invariant
            count <= ps@.len(),
            i <= count,
            all == strs_view(ps@).take(count as int),
            items == all.map(|i: int, p: Seq<char>| param_decl(i, p)),
            out@ == start + joined(items.take(i as int), ", "@),
        decreases count - i,
    {
        if i > 0 {
            out.append(", ");
        }
        out.append(ps[i].as_str());
        if i == 0 {
            out.append(": &str");
        } else {
            out.append(": &");
            let wrapper = wrapper_type_name(ps[i].as_str());
            out.append(wrapper.as_str());
        }
        proof {
            assert(items[i as int] == param_decl(i as int, ps@[i as int]@));
            if i > 0 {
                lemma_joined_step(items, ", "@, i as int);
            } else {
                assert(items.take(1) =~= seq![items[0]]);
            }
            assert(out@ =~= start + joined(items.take(i + 1), ", "@));
        }
        i = i + 1;
    }
    proof {
        assert(items.take(count as int) =~= items);
    }
}

fn method_variant_of(m: HttpMethod) -> (r: &'static str)
    ensures
        r@ == method_variant(m),
{
    match m {
        HttpMethod::Head => "Head",
        HttpMethod::Get => "Get",
        HttpMethod::Post => "Post",
        HttpMethod::Put => "Put",
        HttpMethod::Delete => "Delete",
    }
}

/// Prints the constructor function of a request descriptor.
pub fn request_fn_text(d: &RequestDescriptor) -> (r: String)
    ensures
        r@ == print_request_fn(d@),
{
    let mut out = String::new();
    out.append("pub fn ");
    out.append(d.ctor_name.as_str());
    out.append("(");
    let count = if d.has_body && d.params.len() > 0 {
        d.params.len() - 1
    } else {
        d.params.len()
    };
    push_params(&mut out, &d.params, count);
    proof {
        if d.has_body && d.params@.len() > 0 {
            assert(strs_view(d.params@).take(count as int) =~= strs_view(d.params@).drop_last());
        } else {
            assert(strs_view(d.params@).take(count as int) =~= strs_view(d.params@));
        }
    }
    if d.has_body {
        out.append(", body: Body");
    }
    out.append(") -> HttpRequest {\n");
    let ghost start = out@;
    let mut i: usize = 0;
    proof {
        assert(stmts_view(d.url@).take(0) =~= Seq::<StmtV>::empty());
        assert(start + print_body(stmts_view(d.url@).take(0)) =~= start);
    }
    while i < d.url.len()
        invariant
            i <= d.url@.len(),
            out@ == start + print_body(stmts_view(d.url@).take(i as int)),
        decreases d.url@.len() - i,
    {
        out.append("    ");
        let line = stmt_text(&d.url[i]);
        out.append(line.as_str());
        out.append("\n");
        proof {
            assert(stmts_view(d.url@).take(i + 1).drop_last() =~= stmts_view(d.url@).take(i as int));
            assert(stmts_view(d.url@).take(i + 1).last() == d.url@[i as int]@);
            assert(out@ =~= start + print_body(stmts_view(d.url@).take(i + 1)));
        }
        i = i + 1;
    }
    proof {
        assert(stmts_view(d.url@).take(d.url@.len() as int) =~= stmts_view(d.url@));
    }
    out.append("    HttpRequest::new(HttpMethod::");
    out.append(method_variant_of(d.method));
    out.append(", url_fmtd, ");
    if d.has_body {
        out.append("Some(body)");
    } else {
        out.append("None");
    }
    out.append(")\n}\n");
    proof {
        assert(out@ =~= print_request_fn(d@));
    }
    out
}

} // verus!
