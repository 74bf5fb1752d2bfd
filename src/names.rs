//! Names in generated code: module paths from endpoint names, type names
//! and constructor names.
use vstd::prelude::*;

use crate::endpoint::HttpMethod;
use crate::error::CodegenError;
use crate::template::strs_view;

verus! {

/// `name` split at every `.`; an empty name gives one empty piece.
pub open spec fn split_dots(s: Seq<char>) -> Seq<Seq<char>>
    decreases s.len(),
{
    if s.len() == 0 {
        seq![seq![]]
    } else {
        let p = split_dots(s.drop_last());
        if s.last() == '.' {
            p.push(seq![])
        } else {
            p.update(p.len() - 1, p.last().push(s.last()))
        }
    }
}

pub open spec fn is_ident_start(c: char) -> bool {
    ('a' <= c && c <= 'z') || ('A' <= c && c <= 'Z') || c == '_'
}

pub open spec fn is_ident_char(c: char) -> bool {
    is_ident_start(c) || ('0' <= c && c <= '9')
}

/// A word that can stand as an identifier: ASCII letters, digits and `_`,
/// not starting with a digit.
pub open spec fn is_ident(t: Seq<char>) -> bool {
    &&& t.len() > 0
    &&& is_ident_start(t[0])
    &&& forall|i: int| 0 <= i < t.len() ==> is_ident_char(#[trigger] t[i])
}

/// The module path of an endpoint name, or `None` where a piece between
/// dots is not an identifier (which includes the empty name).
pub open spec fn mod_path(s: Seq<char>) -> Option<Seq<Seq<char>>> {
    let parts = split_dots(s);
    if forall|i: int| 0 <= i < parts.len() ==> is_ident(#[trigger] parts[i]) {
        Some(parts)
    } else {
        None
    }
}

/// Whether a word can stand as an identifier.
pub fn check_ident(t: &str) -> (r: bool)
    ensures
        r == is_ident(t@),
{
    let n = t.unicode_len();
    if n == 0 {
        return false;
    }
    let c0 = t.get_char(0);
    if !(('a' <= c0 && c0 <= 'z') || ('A' <= c0 && c0 <= 'Z') || c0 == '_') {
        return false;
    }
    let mut i: usize = 0;
    while i < n
        invariant
            n == t@.len(),
            i <= n,
            forall|j: int| 0 <= j < i ==> is_ident_char(#[trigger] t@[j]),
        decreases n - i,
    {
        let c = t.get_char(i);
        if !(('a' <= c && c <= 'z') || ('A' <= c && c <= 'Z') || c == '_' || ('0' <= c && c
            <= '9')) {
            return false;
        }
        i = i + 1;
    }
    true
}

/// Splits an endpoint name such as `cluster.put_settings` into its module
/// path `["cluster", "put_settings"]`.
pub fn parse_mod_path(name: &str) -> (r: Result<Vec<String>, CodegenError>)
    ensures
        match r {
            Ok(v) => mod_path(name@) == Some(strs_view(v@)),
            Err(e) => mod_path(name@) is None && e == CodegenError::ModPathParse,
        },
{
    let n = name.unicode_len();
    let mut parts: Vec<String> = Vec::new();
    let mut start: usize = 0;
    let mut i: usize = 0;
    proof {
        assert(name@.take(0) =~= Seq::<char>::empty());
        assert(strs_view(parts@).push(name@.subrange(0, 0)) =~~= split_dots(name@.take(0)));
    }
    while i < n
        invariant
            n == name@.len(),
            start <= i <= n,
            strs_view(parts@).push(name@.subrange(start as int, i as int)) == split_dots(
                name@.take(i as int),
            ),
        decreases n - i,
    {
        let c = name.get_char(i);
        let ghost pre = name@.take(i as int);
        proof {
            assert(name@.take(i + 1).drop_last() =~= pre);
            assert(name@.take(i + 1).last() == c);
        }
        if c == '.' {
            let piece = name.substring_char(start, i).to_owned();
            let ghost before = parts@;
            parts.push(piece);
            proof {
                assert(strs_view(parts@) =~~= strs_view(before).push(name@.subrange(
                    start as int,
                    i as int,
                )));
            }
            start = i + 1;
            proof {
                assert(name@.subrange(start as int, i + 1) =~= Seq::<char>::empty());
                assert(strs_view(parts@).push(name@.subrange(start as int, i + 1)) =~~= split_dots(
                    name@.take(i + 1),
                ));
            }
        } else {
            proof {
                let p = split_dots(pre);
                assert(name@.subrange(start as int, i + 1) =~= name@.subrange(
                    start as int,
                    i as int,
                ).push(c));
                assert(strs_view(parts@).push(name@.subrange(start as int, i + 1)) =~= p.update(
                    p.len() - 1,
                    p.last().push(c),
                ));
            }
        }
        i = i + 1;
    }
    let last = name.substring_char(start, n).to_owned();
    parts.push(last);
    proof {
        assert(name@.take(n as int) =~= name@);
        assert(strs_view(parts@) =~= split_dots(name@));
    }
    let mut k: usize = 0;
    while k < parts.len()
        invariant
            k <= parts@.len(),
            strs_view(parts@) == split_dots(name@),
            forall|j: int| 0 <= j < k ==> is_ident(#[trigger] split_dots(name@)[j]),
        decreases parts@.len() - k,
    {
        if !check_ident(parts[k].as_str()) {
            assert(!is_ident(split_dots(name@)[k as int]));
            return Err(CodegenError::ModPathParse);
        }
        k = k + 1;
    }
    Ok(parts)
}

// ---------------------------------------------------------------------
// Case conversion, from the Inflector crate.
// ---------------------------------------------------------------------
/// What Inflector's `to_pascal_case` makes of a string.
pub uninterp spec fn pascal_case_of(s: Seq<char>) -> Seq<char>;

/// Relies on `inflector::cases::pascalcase::to_pascal_case`: a function of
/// the characters alone; on an empty string its loop never runs, so the
/// result is empty.
#[verifier::external_body]
fn to_pascal_case(s: &str) -> (r: String)
    ensures
        r@ == pascal_case_of(s@),
        s@.len() == 0 ==> r@.len() == 0,
{
    inflector::cases::pascalcase::to_pascal_case(s)
}

pub open spec fn request_suffix() -> Seq<char> {
    "Request"@
}

/// The request type name built from an already Pascal-cased endpoint name.
pub fn request_type_name_from(pascal: &str) -> (r: String)
    ensures
        r@ == pascal@ + request_suffix(),
{
    let mut r = pascal.to_owned();
    r.append("Request");
    r
}

/// The name of the request type of an endpoint: its name in Pascal case,
/// then `Request` (`indices.put_warmer` gives `IndicesPutWarmerRequest`).
pub fn request_type_name(endpoint_name: &str) -> (r: String)
    ensures
        r@ == pascal_case_of(endpoint_name@) + request_suffix(),
{
    let pascal = to_pascal_case(endpoint_name);
    request_type_name_from(pascal.as_str())
}

/// The name of the wrapper type generated for a custom parameter type.
pub fn wrapper_type_name(name: &str) -> (r: String)
    ensures
        r@ == pascal_case_of(name@),
{
    to_pascal_case(name)
}

/// The lower-case word of an HTTP verb.
pub open spec fn method_word(m: HttpMethod) -> Seq<char> {
    match m {
        HttpMethod::Head => "head"@,
        HttpMethod::Get => "get"@,
        HttpMethod::Post => "post"@,
        HttpMethod::Put => "put"@,
        HttpMethod::Delete => "delete"@,
    }
}

pub fn method_word_of(m: HttpMethod) -> (r: String)
    ensures
        r@ == method_word(m),
{
    match m {
        HttpMethod::Head => "head".to_owned(),
        HttpMethod::Get => "get".to_owned(),
        HttpMethod::Post => "post".to_owned(),
        HttpMethod::Put => "put".to_owned(),
        HttpMethod::Delete => "delete".to_owned(),
    }
}

/// The constructor name of a request: the verb, then each parameter name of
/// the path shape, joined with `_` (`put_index_name`); a path without
/// parameters gives the verb alone.
pub open spec fn ctor_name(verb: Seq<char>, shape: Seq<Seq<char>>) -> Seq<char>
    decreases shape.len(),
{
    if shape.len() == 0 {
        verb
    } else {
        ctor_name(verb, shape.drop_last()) + seq!['_'] + shape.last()
    }
}

pub fn ctor_name_of(m: HttpMethod, shape: &Vec<String>) -> (r: String)
    ensures
        r@ == ctor_name(method_word(m), strs_view(shape@)),
{
    let mut out = method_word_of(m);
    let mut i: usize = 0;
    proof {
        assert(strs_view(shape@).take(0) =~= Seq::<Seq<char>>::empty());
    }
    while i < shape.len()
        invariant
            i <= shape@.len(),
            out@ == ctor_name(method_word(m), strs_view(shape@).take(i as int)),
        decreases shape@.len() - i,
    {
        proof {
            assert(strs_view(shape@).take(i + 1).drop_last() =~= strs_view(shape@).take(i as int));
            reveal_strlit("_");
        }
        out.append("_");
        out.append(shape[i].as_str());
        proof {
            assert(out@ =~= ctor_name(method_word(m), strs_view(shape@).take(i + 1)));
        }
        i = i + 1;
    }
    proof {
        assert(strs_view(shape@).take(shape@.len() as int) =~= strs_view(shape@));
    }
    out
}

} // verus!
