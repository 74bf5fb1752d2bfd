//! Endpoint normalisation: one HTTP verb per endpoint, one path per shape,
//! and endpoints derived from others.
use vstd::prelude::*;

use crate::endpoint::{
    Endpoint,
    EndpointV,
    HttpMethod,
    UrlPath,
    UrlPathV,
    Url,
    shape,
    paths_view,
};
use crate::error::CodegenError;
use crate::template::strs_view;

verus! {

// ---------------------------------------------------------------------
// Verb selection.
// ---------------------------------------------------------------------
/// The one verb kept for an endpoint: its only method; among several, POST
/// where it is declared, else the first in declaration order.
pub open spec fn select_verb(ms: Seq<HttpMethod>) -> HttpMethod
    recommends
        ms.len() > 0,
{
    if ms.len() == 1 {
        ms[0]
    } else if ms.contains(HttpMethod::Post) {
        HttpMethod::Post
    } else {
        ms[0]
    }
}

/// Picks the verb of a method list; an empty list is an error.
pub fn choose_verb(methods: &Vec<HttpMethod>) -> (r: Result<HttpMethod, CodegenError>)
    ensures
        match r {
            Ok(m) => methods@.len() > 0 && m == select_verb(methods@),
            Err(e) => methods@.len() == 0 && e == CodegenError::VerbSelection,
        },
{
    if methods.len() == 0 {
        return Err(CodegenError::VerbSelection);
    }
    if methods.len() == 1 {
        return Ok(methods[0]);
    }
    let mut i: usize = 0;
    while i < methods.len()
        invariant
            i <= methods@.len(),
            forall|j: int| 0 <= j < i ==> methods@[j] != HttpMethod::Post,
        decreases methods@.len() - i,
    {
        if methods[i] == HttpMethod::Post {
            assert(methods@.contains(HttpMethod::Post)) by {
                assert(methods@[i as int] == HttpMethod::Post);
            }
            return Ok(HttpMethod::Post);
        }
        i = i + 1;
    }
    Ok(methods[0])
}

/// Reduces an endpoint's methods to the single selected verb.
pub fn strip_verbs(endpoint: (String, Endpoint)) -> (r: Result<(String, Endpoint), CodegenError>)
    ensures
        match r {
            Ok((name, e)) => {
                &&& endpoint.1@.methods.len() > 0
                &&& name@ == endpoint.0@
                &&& e@ == (EndpointV {
                    methods: seq![select_verb(endpoint.1@.methods)],
                    ..endpoint.1@
                })
            },
            Err(e) => endpoint.1@.methods.len() == 0 && e == CodegenError::VerbSelection,
        },
{
    let (name, mut endpoint) = endpoint;
    let verb = choose_verb(&endpoint.methods)?;
    let mut methods: Vec<HttpMethod> = Vec::new();
    methods.push(verb);
    endpoint.methods = methods;
    proof {
        assert(endpoint.methods@ =~= seq![verb]);
    }
    Ok((name, endpoint))
}

// ---------------------------------------------------------------------
// Path deduplication.
// ---------------------------------------------------------------------
/// The first index of a path with the given shape, or -1.
pub open spec fn first_with_shape(d: Seq<UrlPathV>, sh: Seq<Seq<char>>) -> int
    decreases d.len(),
{
    if d.len() == 0 {
        -1
    } else {
        let i = first_with_shape(d.drop_last(), sh);
        if i >= 0 {
            i
        } else if shape(d.last()) == sh {
            d.len() - 1
        } else {
            -1
        }
    }
}

/// One path per shape: a path whose shape was seen before replaces the
/// earlier one in its place (the last one wins); a new shape is appended.
pub open spec fn dedup_paths(ps: Seq<UrlPathV>) -> Seq<UrlPathV>
    decreases ps.len(),
{
    if ps.len() == 0 {
        seq![]
    } else {
        let d = dedup_paths(ps.drop_last());
        let j = first_with_shape(d, shape(ps.last()));
        if j >= 0 {
            d.update(j, ps.last())
        } else {
            d.push(ps.last())
        }
    }
}

proof fn lemma_first_with_shape(d: Seq<UrlPathV>, sh: Seq<Seq<char>>)
    ensures
        -1 <= first_with_shape(d, sh) < d.len(),
        first_with_shape(d, sh) >= 0 ==> shape(d[first_with_shape(d, sh)]) == sh,
        forall|i: int|
            0 <= i < d.len() && (first_with_shape(d, sh) < 0 || i < first_with_shape(d, sh))
                ==> shape(#[trigger] d[i]) != sh,
    decreases d.len(),
{
    if d.len() > 0 {
        lemma_first_with_shape(d.drop_last(), sh);
        assert forall|i: int| 0 <= i < d.len() - 1 implies d.drop_last()[i] == #[trigger] d[i] by {}
    }
}

proof fn lemma_first_is(d: Seq<UrlPathV>, sh: Seq<Seq<char>>, j: int)
    requires
        0 <= j < d.len(),
        shape(d[j]) == sh,
        forall|i: int| 0 <= i < j ==> shape(#[trigger] d[i]) != sh,
    ensures
        first_with_shape(d, sh) == j,
{
    lemma_first_with_shape(d, sh);
}

proof fn lemma_none_with_shape(d: Seq<UrlPathV>, sh: Seq<Seq<char>>)
    requires
        forall|i: int| 0 <= i < d.len() ==> shape(#[trigger] d[i]) != sh,
    ensures
        first_with_shape(d, sh) == -1,
{
    lemma_first_with_shape(d, sh);
}

/// Whether two shapes are the same.
pub fn same_shape(a: &Vec<String>, b: &Vec<String>) -> (r: bool)
    ensures
        r == (strs_view(a@) == strs_view(b@)),
{
    if a.len() != b.len() {
        assert(strs_view(a@).len() != strs_view(b@).len());
        return false;
    }
    let mut i: usize = 0;
    while i < a.len()
        invariant
            a@.len() == b@.len(),
            i <= a@.len(),
            forall|j: int| 0 <= j < i ==> a@[j]@ == b@[j]@,
        decreases a@.len() - i,
    {
        if a[i] != b[i] {
            assert(strs_view(a@)[i as int] != strs_view(b@)[i as int]);
            return false;
        }
        i = i + 1;
    }
    assert(strs_view(a@) =~= strs_view(b@));
    true
}

/// Keeps one path per shape, as [`dedup_paths`] states; the rest of the
/// endpoint is unchanged.
pub fn dedup_urls(endpoint: (String, Endpoint)) -> (r: (String, Endpoint))
    ensures
        r.0@ == endpoint.0@,
        r.1@ == (EndpointV { paths: dedup_paths(endpoint.1@.paths), ..endpoint.1@ }),
{
    let (name, endpoint) = endpoint;
    let Endpoint { name: ep_name, documentation, methods, url, body } = endpoint;
    let Url { paths, parts } = url;
    let ghost input = paths_view(paths@);
    let mut out: Vec<UrlPath> = Vec::new();
    let mut shapes: Vec<Vec<String>> = Vec::new();
    let mut i: usize = 0;
    while i < paths.len()
        invariant
            i <= paths@.len(),
            input == paths_view(paths@),
            paths_view(out@) == dedup_paths(input.take(i as int)),
            shapes@.len() == out@.len(),
            forall|j: int| 0 <= j < out@.len() ==> strs_view(#[trigger] shapes@[j]@) == shape(out@[j]@),
        decreases paths@.len() - i,
    {
        let p = paths[i].copy();
        let sh = p.params();
        let ghost d = paths_view(out@);
        proof {
            assert(input.take(i + 1).drop_last() =~= input.take(i as int));
            assert(input.take(i + 1).last() == p@);
        }
        let mut j: usize = 0;
        let mut found = false;
        while !found && j < out.len()
            invariant
                j <= out@.len(),
                d == paths_view(out@),
                shapes@.len() == out@.len(),
                forall|k: int| 0 <= k < out@.len() ==> strs_view(#[trigger] shapes@[k]@) == shape(out@[k]@),
                strs_view(sh@) == shape(p@),
                forall|k: int| 0 <= k < j ==> shape(#[trigger] d[k]) != shape(p@),
                found ==> j < out@.len() && shape(d[j as int]) == shape(p@),
            decreases out@.len() - j + if found {
                0int
            } else {
                1int
            },
        {
            if same_shape(&shapes[j], &sh) {
                assert(shape(d[j as int]) == shape(p@)) by {
                    assert(strs_view(shapes@[j as int]@) == shape(out@[j as int]@));
                }
                found = true;
            } else {
                assert(shape(d[j as int]) != shape(p@)) by {
                    assert(strs_view(shapes@[j as int]@) == shape(out@[j as int]@));
                }
                j = j + 1;
            }
        }
        if found {
            proof {
                lemma_first_is(d, shape(p@), j as int);
            }
            out.set(j, p);
            shapes.set(j, sh);
            proof {
                assert(paths_view(out@) =~= d.update(j as int, p@));
            }
        } else {
            proof {
                lemma_none_with_shape(d, shape(p@));
            }
            out.push(p);
            shapes.push(sh);
            proof {
                assert(paths_view(out@) =~= d.push(p@));
            }
        }
        i = i + 1;
    }
    proof {
        assert(input.take(paths@.len() as int) =~= input);
    }
    (name, Endpoint { name: ep_name, documentation, methods, url: Url { paths: out, parts }, body })
}

/// After deduplication no two paths share a shape, and every shape of the
/// input is still there: paths with the same parameter names collapse to
/// one, paths with different ones stay apart.
pub proof fn lemma_dedup_shapes(ps: Seq<UrlPathV>)
    ensures
        forall|i: int, j: int|
            0 <= i < j < dedup_paths(ps).len() ==> shape(#[trigger] dedup_paths(ps)[i]) != shape(
                #[trigger] dedup_paths(ps)[j],
            ),
        forall|k: int|
            0 <= k < ps.len() ==> exists|i: int|
                0 <= i < dedup_paths(ps).len() && shape(#[trigger] dedup_paths(ps)[i]) == shape(
                    #[trigger] ps[k],
                ),
        dedup_paths(ps).len() <= ps.len(),
    decreases ps.len(),
{
    if ps.len() > 0 {
        let p = ps.drop_last();
        let last = ps.last();
        let d = dedup_paths(p);
        let r = dedup_paths(ps);
        lemma_dedup_shapes(p);
        let j = first_with_shape(d, shape(last));
        lemma_first_with_shape(d, shape(last));
        if j >= 0 {
            assert forall|i: int| 0 <= i < r.len() implies shape(#[trigger] r[i]) == shape(d[i]) by {}
        } else {
            assert forall|i: int| 0 <= i < d.len() implies #[trigger] r[i] == d[i] by {}
        }
        assert forall|k: int| 0 <= k < ps.len() implies exists|i: int|
            0 <= i < r.len() && shape(#[trigger] r[i]) == shape(#[trigger] ps[k]) by {
            if k == ps.len() - 1 {
                if j >= 0 {
                    assert(shape(r[j]) == shape(ps[k]));
                } else {
                    assert(r[d.len() as int] == last);
                    assert(shape(r[d.len() as int]) == shape(ps[k]));
                }
            } else {
                assert(ps[k] == p[k]);
                let i = choose|i: int| 0 <= i < d.len() && shape(#[trigger] d[i]) == shape(p[k]);
                assert(shape(r[i]) == shape(ps[k]));
            }
        }
    }
}

/// No later path has the same shape as `ps[k]`.
pub open spec fn last_of_shape(ps: Seq<UrlPathV>, k: int) -> bool {
    forall|k2: int| k < k2 < ps.len() ==> shape(#[trigger] ps[k2]) != shape(ps[k])
}

/// The last one wins: every path kept by deduplication is an input path
/// that no later input path shares its shape with.
pub proof fn lemma_dedup_last_wins(ps: Seq<UrlPathV>)
    ensures
        forall|i: int|
            0 <= i < dedup_paths(ps).len() ==> exists|k: int|
                0 <= k < ps.len() && #[trigger] dedup_paths(ps)[i] == ps[k] && last_of_shape(ps, k),
    decreases ps.len(),
{
    if ps.len() > 0 {
        let p = ps.drop_last();
        let last = ps.last();
        let d = dedup_paths(p);
        let r = dedup_paths(ps);
        lemma_dedup_last_wins(p);
        lemma_dedup_shapes(p);
        let j = first_with_shape(d, shape(last));
        lemma_first_with_shape(d, shape(last));
        assert forall|i: int| 0 <= i < r.len() implies exists|k: int|
            0 <= k < ps.len() && #[trigger] r[i] == ps[k] && last_of_shape(ps, k) by {
            let n = ps.len() - 1;
            if (j >= 0 && i == j) || (j < 0 && i == d.len()) {
                assert(r[i] == ps[n]);
                assert(last_of_shape(ps, n));
            } else {
                assert(r[i] == d[i]);
                let k = choose|k: int| 0 <= k < p.len() && #[trigger] d[i] == p[k] && last_of_shape(p, k);
                assert(ps[k] == p[k]);
                assert(shape(last) != shape(d[i])) by {
                    if j >= 0 {
                        if i < j {
                            assert(shape(d[i]) != shape(d[j]));
                        } else {
                            assert(shape(d[j]) != shape(d[i]));
                        }
                    }
                }
                assert forall|k2: int| k < k2 < ps.len() implies shape(#[trigger] ps[k2]) != shape(
                    ps[k],
                ) by {
                    if k2 < p.len() {
                        assert(ps[k2] == p[k2]);
                    }
                }
                assert(last_of_shape(ps, k));
            }
        }
    }
}

// ---------------------------------------------------------------------
// Derived endpoints.
// ---------------------------------------------------------------------
pub open spec fn named_view(v: Seq<(String, Endpoint)>) -> Seq<(Seq<char>, EndpointV)> {
    v.map_values(|e: (String, Endpoint)| (e.0@, e.1@))
}

/// The first index of an endpoint with the given name, or -1.
pub open spec fn first_named(es: Seq<(Seq<char>, EndpointV)>, name: Seq<char>) -> int
    decreases es.len(),
{
    if es.len() == 0 {
        -1
    } else {
        let i = first_named(es.drop_last(), name);
        if i >= 0 {
            i
        } else if es.last().0 == name {
            es.len() - 1
        } else {
            -1
        }
    }
}

proof fn lemma_first_named(es: Seq<(Seq<char>, EndpointV)>, name: Seq<char>)
    ensures
        -1 <= first_named(es, name) < es.len(),
        first_named(es, name) >= 0 ==> es[first_named(es, name)].0 == name,
        forall|i: int|
            0 <= i < es.len() && (first_named(es, name) < 0 || i < first_named(es, name))
                ==> (#[trigger] es[i]).0 != name,
    decreases es.len(),
{
    if es.len() > 0 {
        lemma_first_named(es.drop_last(), name);
        assert forall|i: int| 0 <= i < es.len() - 1 implies es.drop_last()[i] == #[trigger] es[i] by {}
    }
}

/// A simplified variant of an endpoint: a single method and, where asked,
/// no body; name-independent parts are kept.
pub open spec fn derived(e: EndpointV, method: HttpMethod, clear_body: bool) -> EndpointV {
    EndpointV {
        methods: seq![method],
        body: if clear_body {
            None
        } else {
            e.body
        },
        ..e
    }
}

/// Appends, under `target`, a copy of the first endpoint named `source`
/// with its methods forced to `method` and, if `clear_body`, its body
/// removed. Without such an endpoint nothing changes.
pub fn derive_endpoint(
    endpoints: &mut Vec<(String, Endpoint)>,
    source: &str,
    target: &str,
    method: HttpMethod,
    clear_body: bool,
) -> (r: Result<(), CodegenError>)
    ensures
        match r {
            Ok(()) => {
                let i = first_named(named_view(old(endpoints)@), source@);
                &&& i >= 0
                &&& named_view(final(endpoints)@) == named_view(old(endpoints)@).push(
                    (target@, derived(named_view(old(endpoints)@)[i].1, method, clear_body)),
                )
            },
            Err(e) => {
                &&& first_named(named_view(old(endpoints)@), source@) < 0
                &&& named_view(final(endpoints)@) == named_view(old(endpoints)@)
                &&& e == CodegenError::EndpointNotFound
            },
        },
{
    let ghost es = named_view(endpoints@);
    let src = source.to_owned();
    let mut i: usize = 0;
    while i < endpoints.len()
        invariant
            i <= endpoints@.len(),
            es == named_view(endpoints@),
            endpoints@ == old(endpoints)@,
            src@ == source@,
            forall|k: int| 0 <= k < i ==> (#[trigger] es[k]).0 != source@,
        decreases endpoints@.len() - i,
    {
        if endpoints[i].0 == src {
            proof {
                assert(es[i as int].0 == source@);
                lemma_first_named(es, source@);
            }
            let mut e = endpoints[i].1.copy();
            let mut methods: Vec<HttpMethod> = Vec::new();
            methods.push(method);
            e.methods = methods;
            if clear_body {
                e.body = None;
            }
            let ghost before = endpoints@;
            endpoints.push((target.to_owned(), e));
            proof {
                assert(e.methods@ =~= seq![method]);
                assert(e@ == derived(es[i as int].1, method, clear_body));
                assert(named_view(endpoints@) =~= named_view(before).push((target@, e@)));
                assert(first_named(es, source@) == i);
            }
            return Ok(());
        }
        assert(es[i as int].0 != source@);
        i = i + 1;
    }
    proof {
        lemma_first_named(es, source@);
        if first_named(es, source@) >= 0 {
            assert(es[first_named(es, source@)].0 == source@);
        }
    }
    Err(CodegenError::EndpointNotFound)
}

/// Adds `simple_search`: the `search` endpoint restricted to GET, without a
/// body.
pub fn add_simple_search(endpoints: &mut Vec<(String, Endpoint)>) -> (r: Result<(), CodegenError>)
    ensures
        match r {
            Ok(()) => {
                let i = first_named(named_view(old(endpoints)@), "search"@);
                &&& i >= 0
                &&& named_view(final(endpoints)@) == named_view(old(endpoints)@).push(
                    (
                        "simple_search"@,
                        derived(named_view(old(endpoints)@)[i].1, HttpMethod::Get, true),
                    ),
                )
            },
            Err(e) => {
                &&& first_named(named_view(old(endpoints)@), "search"@) < 0
                &&& named_view(final(endpoints)@) == named_view(old(endpoints)@)
                &&& e == CodegenError::EndpointNotFound
            },
        },
{
    derive_endpoint(endpoints, "search", "simple_search", HttpMethod::Get, true)
}

} // verus!
