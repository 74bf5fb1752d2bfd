//! Generation of URL-assembling statements, in two styles:
//! a single `format!` call, or a buffer of exactly the right capacity that
//! the base address, literals and parameter values are pushed into.
use vstd::prelude::*;
use vstd::utf8::encode_utf8;

use crate::error::CodegenError;
use crate::template::{
    Segment,
    SegmentV,
    segs_view,
    strs_view,
    count_params,
    well_formed,
    brace_free,
    holes_of,
    fmt_template,
    hole,
};

verus! {

// ---------------------------------------------------------------------
// The intermediate representation of generated statements.
// ---------------------------------------------------------------------
/// One summand of a capacity expression.
#[derive(Debug, Clone)]
pub enum LenTerm {
    /// A byte count known when the code is generated.
    Fixed(usize),
    /// The runtime byte length of the named variable: `name.len()`.
    LenOf(String),
}

/// What a `push_str` call appends.
#[derive(Debug, Clone)]
pub enum PushArg {
    /// A string literal.
    Text(String),
    /// The value of the named variable.
    Var(String),
}

/// A generated statement.
#[derive(Debug, Clone)]
pub enum Stmt {
    /// `let name = format!("template", args...);`
    LetFormat { name: String, template: String, args: Vec<String> },
    /// `let mut name = String::with_capacity(t1 + t2 + ...);`
    LetCapacity { name: String, terms: Vec<LenTerm> },
    /// `target.push_str(arg);`
    PushStr { target: String, arg: PushArg },
}

pub enum LenTermV {
    Fixed(nat),
    LenOf(Seq<char>),
}

pub enum PushArgV {
    Text(Seq<char>),
    Var(Seq<char>),
}

pub enum StmtV {
    LetFormat { name: Seq<char>, template: Seq<char>, args: Seq<Seq<char>> },
    LetCapacity { name: Seq<char>, terms: Seq<LenTermV> },
    PushStr { target: Seq<char>, arg: PushArgV },
}

impl View for LenTerm {
    type V = LenTermV;

    open spec fn view(&self) -> LenTermV {
        match self {
            LenTerm::Fixed(n) => LenTermV::Fixed(*n as nat),
            LenTerm::LenOf(v) => LenTermV::LenOf(v@),
        }
    }
}

impl View for PushArg {
    type V = PushArgV;

    open spec fn view(&self) -> PushArgV {
        match self {
            PushArg::Text(t) => PushArgV::Text(t@),
            PushArg::Var(v) => PushArgV::Var(v@),
        }
    }
}

pub open spec fn terms_view(v: Seq<LenTerm>) -> Seq<LenTermV> {
    v.map_values(|t: LenTerm| t@)
}

impl View for Stmt {
    type V = StmtV;

    open spec fn view(&self) -> StmtV {
        match self {
            Stmt::LetFormat { name, template, args } => StmtV::LetFormat {
                name: name@,
                template: template@,
                args: strs_view(args@),
            },
            Stmt::LetCapacity { name, terms } => StmtV::LetCapacity {
                name: name@,
                terms: terms_view(terms@),
            },
            Stmt::PushStr { target, arg } => StmtV::PushStr { target: target@, arg: arg@ },
        }
    }
}

pub open spec fn stmts_view(v: Seq<Stmt>) -> Seq<StmtV> {
    v.map_values(|s: Stmt| s@)
}

// ---------------------------------------------------------------------
// What the generators produce.
// ---------------------------------------------------------------------
/// The variable that generated code assembles the URL in.
pub open spec fn url_ident() -> Seq<char> {
    "url_fmtd"@
}

/// The number of bytes that a string occupies in UTF-8.
pub open spec fn byte_len(s: Seq<char>) -> nat {
    encode_utf8(s).len()
}

/// What `str::len` returns for a string with these characters.
pub open spec fn str_len(s: Seq<char>) -> usize {
    byte_len(s) as usize
}

/// The number of `{}` holes in a formatting template, or `None` where a brace
/// stands outside a `{}` pair.
pub open spec fn fmt_holes(t: Seq<char>) -> Option<nat>
    decreases t.len(),
{
    if t.len() == 0 {
        Some(0)
    } else if t[0] == '{' {
        if t.len() >= 2 && t[1] == '}' {
            match fmt_holes(t.skip(2)) {
                Some(k) => Some(k + 1),
                None => None,
            }
        } else {
            None
        }
    } else if t[0] == '}' {
        None
    } else {
        fmt_holes(t.drop_first())
    }
}

/// The statement of the format style.
pub open spec fn fmt_stmt(url: Seq<char>, base: Seq<char>, params: Seq<Seq<char>>) -> StmtV {
    StmtV::LetFormat { name: url_ident(), template: url, args: seq![base] + params }
}

/// The capacity summand for the last segment of `segs`, and the statement
/// that appends it; the `k`-th placeholder reads variable `names[k]`.
pub open spec fn seg_term(segs: Seq<SegmentV>, names: Seq<Seq<char>>) -> LenTermV {
    match segs.last() {
        SegmentV::Literal(t) => LenTermV::Fixed(str_len(t) as nat),
        SegmentV::Param(_) => LenTermV::LenOf(names[count_params(segs.drop_last()) as int]),
    }
}

pub open spec fn seg_push(segs: Seq<SegmentV>, names: Seq<Seq<char>>) -> StmtV {
    StmtV::PushStr {
        target: url_ident(),
        arg: match segs.last() {
            SegmentV::Literal(t) => PushArgV::Text(t),
            SegmentV::Param(_) => PushArgV::Var(names[count_params(segs.drop_last()) as int]),
        },
    }
}

pub open spec fn seg_terms(segs: Seq<SegmentV>, names: Seq<Seq<char>>) -> Seq<LenTermV>
    decreases segs.len(),
{
    if segs.len() == 0 {
        seq![]
    } else {
        seg_terms(segs.drop_last(), names).push(seg_term(segs, names))
    }
}

pub open spec fn seg_pushes(segs: Seq<SegmentV>, names: Seq<Seq<char>>) -> Seq<StmtV>
    decreases segs.len(),
{
    if segs.len() == 0 {
        seq![]
    } else {
        seg_pushes(segs.drop_last(), names).push(seg_push(segs, names))
    }
}

/// The capacity summands of the push style: the base address, then one per
/// segment in template order.
pub open spec fn capacity_terms(base: Seq<char>, segs: Seq<SegmentV>, names: Seq<Seq<char>>) -> Seq<
    LenTermV,
> {
    seq![LenTermV::LenOf(base)] + seg_terms(segs, names)
}

/// The statements of the push style.
pub open spec fn push_stmts(base: Seq<char>, segs: Seq<SegmentV>, names: Seq<Seq<char>>) -> Seq<
    StmtV,
> {
    seq![
        StmtV::LetCapacity { name: url_ident(), terms: capacity_terms(base, segs, names) },
        StmtV::PushStr { target: url_ident(), arg: PushArgV::Var(base) },
    ] + seg_pushes(segs, names)
}

// ---------------------------------------------------------------------
// What the generated statements compute, for any values of the variables.
// ---------------------------------------------------------------------
/// `format!` semantics: each `{}` hole takes the next argument.
pub open spec fn fill(t: Seq<char>, vals: Seq<Seq<char>>) -> Seq<char>
    decreases t.len(),
{
    if t.len() == 0 {
        seq![]
    } else if t.len() >= 2 && t[0] == '{' && t[1] == '}' {
        (if vals.len() > 0 {
            vals[0]
        } else {
            seq![]
        }) + fill(t.skip(2), vals.drop_first())
    } else {
        seq![t[0]] + fill(t.drop_first(), vals)
    }
}

/// The value a formatting statement binds.
pub open spec fn run_format(s: StmtV, env: spec_fn(Seq<char>) -> Seq<char>) -> Seq<char> {
    match s {
        StmtV::LetFormat { template, args, .. } => fill(template, args.map_values(env)),
        _ => seq![],
    }
}

pub open spec fn arg_value(a: PushArgV, env: spec_fn(Seq<char>) -> Seq<char>) -> Seq<char> {
    match a {
        PushArgV::Text(t) => t,
        PushArgV::Var(v) => env(v),
    }
}

/// The text that the `push_str` statements of a sequence append, in order.
pub open spec fn run_pushes(stmts: Seq<StmtV>, env: spec_fn(Seq<char>) -> Seq<char>) -> Seq<char>
    decreases stmts.len(),
{
    if stmts.len() == 0 {
        seq![]
    } else {
        run_pushes(stmts.drop_last(), env) + match stmts.last() {
            StmtV::PushStr { arg, .. } => arg_value(arg, env),
            _ => seq![],
        }
    }
}

pub open spec fn term_value(t: LenTermV, env: spec_fn(Seq<char>) -> Seq<char>) -> nat {
    match t {
        LenTermV::Fixed(n) => n,
        LenTermV::LenOf(v) => byte_len(env(v)),
    }
}

pub open spec fn sum_terms(terms: Seq<LenTermV>, env: spec_fn(Seq<char>) -> Seq<char>) -> nat
    decreases terms.len(),
{
    if terms.len() == 0 {
        0
    } else {
        sum_terms(terms.drop_last(), env) + term_value(terms.last(), env)
    }
}

/// The capacity that a statement sequence reserves.
pub open spec fn reserved(stmts: Seq<StmtV>, env: spec_fn(Seq<char>) -> Seq<char>) -> nat
    decreases stmts.len(),
{
    if stmts.len() == 0 {
        0
    } else {
        reserved(stmts.drop_last(), env) + match stmts.last() {
            StmtV::LetCapacity { terms, .. } => sum_terms(terms, env),
            _ => 0,
        }
    }
}

/// The URL a template describes: each literal as it stands, the `k`-th
/// placeholder replaced by the value of `names[k]`.
pub open spec fn assemble(
    segs: Seq<SegmentV>,
    names: Seq<Seq<char>>,
    env: spec_fn(Seq<char>) -> Seq<char>,
) -> Seq<char>
    decreases segs.len(),
{
    if segs.len() == 0 {
        seq![]
    } else {
        assemble(segs.drop_last(), names, env) + match segs.last() {
            SegmentV::Literal(t) => t,
            SegmentV::Param(_) => env(names[count_params(segs.drop_last()) as int]),
        }
    }
}

/// Every literal fragment is shorter than the address space.
pub open spec fn literals_fit(segs: Seq<SegmentV>) -> bool {
    forall|i: int|
        0 <= i < segs.len() ==> match #[trigger] segs[i] {
            SegmentV::Literal(t) => byte_len(t) <= usize::MAX,
            SegmentV::Param(_) => true,
        }
}

// ---------------------------------------------------------------------
// Lemmas.
// ---------------------------------------------------------------------
pub proof fn lemma_encode_append(a: Seq<char>, b: Seq<char>)
    ensures
        encode_utf8(a + b) == encode_utf8(a) + encode_utf8(b),
    decreases a.len(),
{
    if a.len() == 0 {
        assert(a + b =~= b);
        assert(encode_utf8(a) =~= seq![]);
        assert(seq![] + encode_utf8(b) =~= encode_utf8(b));
    } else {
        lemma_encode_append(a.drop_first(), b);
        assert((a + b).drop_first() =~= a.drop_first() + b);
        assert((a + b)[0] == a[0]);
        assert(encode_utf8(a + b) =~= encode_utf8(a) + encode_utf8(b));
    }
}

proof fn lemma_run_pushes_append(a: Seq<StmtV>, b: Seq<StmtV>, env: spec_fn(Seq<char>) -> Seq<char>)
    ensures
        run_pushes(a + b, env) == run_pushes(a, env) + run_pushes(b, env),
        reserved(a + b, env) == reserved(a, env) + reserved(b, env),
    decreases b.len(),
{
    if b.len() == 0 {
        assert(a + b =~= a);
        assert(run_pushes(a, env) + seq![] =~= run_pushes(a, env));
    } else {
        lemma_run_pushes_append(a, b.drop_last(), env);
        assert((a + b).drop_last() =~= a + b.drop_last());
        assert((a + b).last() == b.last());
        assert(run_pushes(a + b, env) =~= run_pushes(a, env) + run_pushes(b, env));
    }
}

proof fn lemma_seg_pushes(
    base: Seq<char>,
    segs: Seq<SegmentV>,
    names: Seq<Seq<char>>,
    env: spec_fn(Seq<char>) -> Seq<char>,
)
    requires
        literals_fit(segs),
    ensures
        run_pushes(seg_pushes(segs, names), env) == assemble(segs, names, env),
        reserved(seg_pushes(segs, names), env) == 0,
        sum_terms(seg_terms(segs, names), env) == byte_len(assemble(segs, names, env)),
    decreases segs.len(),
{
    if segs.len() == 0 {
        assert(encode_utf8(seq![]) =~= Seq::<u8>::empty());
    } else {
        let p = segs.drop_last();
        assert forall|i: int| 0 <= i < p.len() implies match #[trigger] p[i] {
            SegmentV::Literal(t) => byte_len(t) <= usize::MAX,
            SegmentV::Param(_) => true,
        } by {
            assert(p[i] == segs[i]);
        }
        lemma_seg_pushes(base, p, names, env);
        assert(segs[segs.len() - 1] == segs.last());
        let piece = match segs.last() {
            SegmentV::Literal(t) => t,
            SegmentV::Param(_) => env(names[count_params(p) as int]),
        };
        lemma_encode_append(assemble(p, names, env), piece);
        let sp = seg_pushes(segs, names);
        assert(sp.drop_last() =~= seg_pushes(p, names));
        assert(sp.last() == seg_push(segs, names));
        let st = seg_terms(segs, names);
        assert(st.drop_last() =~= seg_terms(p, names));
        assert(st.last() == seg_term(segs, names));
    }
}

/// The push style is exact: for any values of the variables, the statements
/// build the base address followed by the template with each placeholder
/// replaced by its parameter, in template order, and the capacity they
/// reserve is exactly the byte length of that result.
pub proof fn lemma_push_style_exact(
    base: Seq<char>,
    segs: Seq<SegmentV>,
    names: Seq<Seq<char>>,
    env: spec_fn(Seq<char>) -> Seq<char>,
)
    requires
        literals_fit(segs),
    ensures
        run_pushes(push_stmts(base, segs, names), env) == env(base) + assemble(segs, names, env),
        reserved(push_stmts(base, segs, names), env) == byte_len(
            run_pushes(push_stmts(base, segs, names), env),
        ),
{
    let head = seq![
        StmtV::LetCapacity { name: url_ident(), terms: capacity_terms(base, segs, names) },
        StmtV::PushStr { target: url_ident(), arg: PushArgV::Var(base) },
    ];
    lemma_seg_pushes(base, segs, names, env);
    lemma_run_pushes_append(head, seg_pushes(segs, names), env);
    let h1 = head.drop_last();
    assert(h1 =~= seq![head[0]]);
    assert(h1.drop_last() =~= Seq::<StmtV>::empty());
    assert(h1.last() == head[0]);
    assert(run_pushes(h1.drop_last(), env) == Seq::<char>::empty());
    assert(reserved(h1.drop_last(), env) == 0);
    assert(head.last() == head[1]);
    assert(run_pushes(h1, env) =~= Seq::<char>::empty());
    assert(run_pushes(head, env) =~= env(base));
    assert(reserved(h1, env) == sum_terms(capacity_terms(base, segs, names), env));
    assert(reserved(head, env) == sum_terms(capacity_terms(base, segs, names), env));
    let one = seq![LenTermV::LenOf(base)];
    lemma_sum_terms_append(one, seg_terms(segs, names), env);
    assert(one.drop_last() =~= Seq::<LenTermV>::empty());
    assert(sum_terms(one.drop_last(), env) == 0);
    assert(one.last() == LenTermV::LenOf(base));
    assert(sum_terms(one, env) == byte_len(env(base)));
    lemma_encode_append(env(base), assemble(segs, names, env));
    assert(reserved(seg_pushes(segs, names), env) == 0);
}

proof fn lemma_sum_terms_append(
    a: Seq<LenTermV>,
    b: Seq<LenTermV>,
    env: spec_fn(Seq<char>) -> Seq<char>,
)
    ensures
        sum_terms(a + b, env) == sum_terms(a, env) + sum_terms(b, env),
    decreases b.len(),
{
    if b.len() == 0 {
        assert(a + b =~= a);
    } else {
        lemma_sum_terms_append(a, b.drop_last(), env);
        assert((a + b).drop_last() =~= a + b.drop_last());
        assert((a + b).last() == b.last());
    }
}

proof fn lemma_fmt_concat(a: Seq<char>, b: Seq<char>, vals: Seq<Seq<char>>)
    requires
        fmt_holes(a) is Some,
        vals.len() >= fmt_holes(a)->0,
    ensures
        fmt_holes(a + b) == add_opt(fmt_holes(b), fmt_holes(a)->0),
        fill(a + b, vals) == fill(a, vals) + fill(b, vals.skip(fmt_holes(a)->0 as int)),
    decreases a.len(),
{
    if a.len() == 0 {
        assert(a + b =~= b);
        assert(vals.skip(0) =~= vals);
        assert(fill(a, vals) + fill(b, vals) =~= fill(b, vals));
        match fmt_holes(b) {
            Some(x) => {},
            None => {},
        }
    } else if a[0] == '{' {
        let k = fmt_holes(a)->0;
        assert((a + b)[0] == '{' && (a + b)[1] == '}');
        assert((a + b).skip(2) =~= a.skip(2) + b);
        lemma_fmt_concat(a.skip(2), b, vals.drop_first());
        assert(vals.drop_first().skip(k - 1) =~= vals.skip(k as int));
        assert(fill(a + b, vals) =~= fill(a, vals) + fill(b, vals.skip(k as int)));
        match fmt_holes(b) {
            Some(x) => {},
            None => {},
        }
    } else {
        assert((a + b)[0] == a[0]);
        assert((a + b).drop_first() =~= a.drop_first() + b);
        lemma_fmt_concat(a.drop_first(), b, vals);
        if a.len() >= 2 {
            assert((a + b)[1] == a[1]);
        }
        assert(fill(a + b, vals) =~= fill(a, vals) + fill(b, vals.skip(fmt_holes(a)->0 as int)));
    }
}

proof fn lemma_fmt_plain(t: Seq<char>, vals: Seq<Seq<char>>)
    requires
        brace_free(t),
    ensures
        fmt_holes(t) == Some(0nat),
        fill(t, vals) == t,
    decreases t.len(),
{
    if t.len() > 0 {
        assert(brace_free(t.drop_first())) by {
            assert forall|i: int| 0 <= i < t.drop_first().len() implies t.drop_first()[i] != '{'
                && t.drop_first()[i] != '}' by {
                assert(t.drop_first()[i] == t[i + 1]);
            }
        }
        lemma_fmt_plain(t.drop_first(), vals);
        assert(seq![t[0]] + t.drop_first() =~= t);
    }
}

proof fn lemma_fmt_hole(vals: Seq<Seq<char>>)
    requires
        vals.len() >= 1,
    ensures
        fmt_holes(hole()) == Some(1nat),
        fill(hole(), vals) == vals[0],
{
    let h = hole();
    assert(h.skip(2) =~= Seq::<char>::empty());
    assert(h[0] == '{' && h[1] == '}' && h.len() == 2);
    assert(fmt_holes(h.skip(2)) == Some(0nat));
    assert(fill(h.skip(2), vals.drop_first()) == Seq::<char>::empty());
    assert(vals[0] + Seq::<char>::empty() =~= vals[0]);
}

proof fn lemma_holes_fill(
    segs: Seq<SegmentV>,
    names: Seq<Seq<char>>,
    env: spec_fn(Seq<char>) -> Seq<char>,
)
    requires
        well_formed(segs),
        names.len() >= count_params(segs),
    ensures
        fmt_holes(holes_of(segs)) == Some(count_params(segs)),
        fill(holes_of(segs), names.map_values(env)) == assemble(segs, names, env),
    decreases segs.len(),
{
    let vals = names.map_values(env);
    if segs.len() == 0 {
        assert(holes_of(segs) =~= Seq::<char>::empty());
    } else {
        let p = segs.drop_last();
        assert(segs[segs.len() - 1] == segs.last());
        assert forall|i: int| 0 <= i < p.len() implies match #[trigger] p[i] {
            SegmentV::Literal(t) => t.len() > 0 && brace_free(t),
            SegmentV::Param(n) => n.len() > 0 && brace_free(n),
        } by {
            assert(p[i] == segs[i]);
        }
        assert forall|i: int| 0 < i < p.len() implies !((#[trigger] p[i]) is Literal && p[i
            - 1] is Literal) by {
            assert(p[i] == segs[i]);
            assert(p[i - 1] == segs[i - 1]);
        }
        lemma_holes_fill(p, names, env);
        let c = count_params(p);
        match segs.last() {
            SegmentV::Literal(t) => {
                lemma_fmt_plain(t, vals.skip(c as int));
                lemma_fmt_concat(holes_of(p), t, vals);
            },
            SegmentV::Param(_) => {
                assert(vals.skip(c as int)[0] == env(names[c as int]));
                lemma_fmt_hole(vals.skip(c as int));
                lemma_fmt_concat(holes_of(p), hole(), vals);
            },
        }
    }
}

/// The formatting template of well-formed segments has one hole for the
/// base address and one per placeholder.
pub proof fn lemma_fmt_template_holes(segs: Seq<SegmentV>)
    requires
        well_formed(segs),
    ensures
        fmt_holes(fmt_template(segs)) == Some(count_params(segs) + 1),
{
    let names = Seq::new(count_params(segs), |i: int| Seq::<char>::empty());
    let env = |v: Seq<char>| v;
    lemma_holes_fill(segs, names, env);
    let vals: Seq<Seq<char>> = seq![Seq::<char>::empty()];
    lemma_fmt_hole(vals);
    lemma_fmt_concat(hole(), holes_of(segs), vals);
}

/// The two styles agree: for a well-formed template and any values of the
/// variables, the format style's template has one hole for the base address
/// and one per parameter, and the `format!` call builds the same URL as the
/// push style.
pub proof fn lemma_styles_agree(
    base: Seq<char>,
    segs: Seq<SegmentV>,
    names: Seq<Seq<char>>,
    env: spec_fn(Seq<char>) -> Seq<char>,
)
    requires
        well_formed(segs),
        literals_fit(segs),
        names.len() == count_params(segs),
    ensures
        fmt_holes(fmt_template(segs)) == Some(names.len() + 1),
        run_format(fmt_stmt(fmt_template(segs), base, names), env) == run_pushes(
            push_stmts(base, segs, names),
            env,
        ),
{
    let args = seq![base] + names;
    let vals = args.map_values(env);
    lemma_holes_fill(segs, names, env);
    lemma_fmt_hole(vals);
    lemma_fmt_concat(hole(), holes_of(segs), vals);
    assert(vals.skip(1) =~= names.map_values(env));
    assert(vals[0] == env(base));
    lemma_push_style_exact(base, segs, names, env);
}

// ---------------------------------------------------------------------
// Executable generators.
// ---------------------------------------------------------------------
pub open spec fn add_opt(o: Option<nat>, k: nat) -> Option<nat> {
    match o {
        Some(x) => Some(x + k),
        None => None,
    }
}

/// Counts the `{}` holes of a formatting template; `None` where a brace
/// stands outside a `{}` pair.
pub fn count_fmt_holes(t: &str) -> (r: Option<usize>)
    ensures
        match r {
            Some(k) => fmt_holes(t@) == Some(k as nat),
            None => fmt_holes(t@) is None,
        },
{
    let n = t.unicode_len();
    let mut i: usize = 0;
    let mut k: usize = 0;
    assert(t@.skip(0) =~= t@);
    while i < n
        invariant
            n == t@.len(),
            i <= n,
            k <= i,
            fmt_holes(t@) == add_opt(fmt_holes(t@.skip(i as int)), k as nat),
        decreases n - i,
    {
        let rest = Ghost(t@.skip(i as int));
        let c = t.get_char(i);
        assert(rest@[0] == c);
        if c == '{' {
            if i + 1 < n && t.get_char(i + 1) == '}' {
                assert(rest@[1] == '}');
                assert(rest@.skip(2) =~= t@.skip(i + 2));
                k = k + 1;
                i = i + 2;
            } else {
                return None;
            }
        } else if c == '}' {
            return None;
        } else {
            assert(rest@.drop_first() =~= t@.skip(i + 1));
            i = i + 1;
        }
    }
    assert(t@.skip(i as int) =~= Seq::<char>::empty());
    Some(k)
}

/// The capacity summand `item.len()`.
pub fn len_expr(item: &str) -> (r: LenTerm)
    ensures
        r@ == LenTermV::LenOf(item@),
{
    LenTerm::LenOf(item.to_owned())
}

/// Appends the summand `to_add.len()` to a capacity sum.
pub fn len_add(current_add: Vec<LenTerm>, to_add: &str) -> (r: Vec<LenTerm>)
    ensures
        terms_view(r@) == terms_view(current_add@).push(LenTermV::LenOf(to_add@)),
{
    let mut r = current_add;
    r.push(len_expr(to_add));
    proof {
        assert(terms_view(r@) =~= terms_view(current_add@).push(LenTermV::LenOf(to_add@)));
    }
    r
}

fn url_name() -> (r: String)
    ensures
        r@ == url_ident(),
{
    "url_fmtd".to_owned()
}

fn copy_strings(v: &Vec<String>) -> (r: Vec<String>)
    ensures
        strs_view(r@) == strs_view(v@),
{
    let mut out: Vec<String> = Vec::new();
    let mut i: usize = 0;
    while i < v.len()
        invariant
            i <= v@.len(),
            strs_view(out@) == strs_view(v@.take(i as int)),
        decreases v@.len() - i,
    {
        let s = v[i].clone();
        assert(s@ == v@[i as int]@);
        let ghost before = out@;
        out.push(s);
        proof {
            assert(out@ == before.push(s));
            assert(v@.take(i + 1) =~= v@.take(i as int).push(v@[i as int]));
            assert(strs_view(before.push(s)) =~= strs_view(before).push(s@));
            assert(strs_view(v@.take(i as int).push(v@[i as int])) =~= strs_view(
                v@.take(i as int),
            ).push(v@[i as int]@));
            assert(strs_view(out@) =~= strs_view(v@.take(i + 1)));
        }
        i = i + 1;
    }
    proof {
        assert(v@.take(v@.len() as int) =~= v@);
    }
    out
}

/// Generates `let url_fmtd = format!(url, url_base, param_parts...);`.
///
/// `url` is a formatting template whose first hole takes the base address
/// and whose other holes take the parameters in order; a template whose
/// holes are not one more than the parameters is refused.
pub fn url_fmt_decl(url: &str, url_base: &str, param_parts: &Vec<String>) -> (r: Result<
    (String, Stmt),
    CodegenError,
>)
    ensures
        match r {
            Ok((id, st)) => {
                &&& fmt_holes(url@) == Some(param_parts@.len() + 1)
                &&& id@ == url_ident()
                &&& st@ == fmt_stmt(url@, url_base@, strs_view(param_parts@))
            },
            Err(e) => fmt_holes(url@) != Some(param_parts@.len() + 1) && e
                == CodegenError::TemplateMismatch,
        },
{
    match count_fmt_holes(url) {
        Some(h) => {
            if h == 0 || h - 1 != param_parts.len() {
                return Err(CodegenError::TemplateMismatch);
            }
        },
        None => {
            return Err(CodegenError::TemplateMismatch);
        },
    }
    let mut args: Vec<String> = Vec::new();
    args.push(url_base.to_owned());
    let mut rest = copy_strings(param_parts);
    let ghost first = args@;
    let ghost moved = rest@;
    args.append(&mut rest);
    let ident = url_name();
    let stmt = Stmt::LetFormat { name: url_name(), template: url.to_owned(), args };
    proof {
        assert(args@ == first + moved);
        assert(strs_view(args@) =~= seq![url_base@] + strs_view(param_parts@));
    }
    Ok((ident, stmt))
}

proof fn lemma_count_prefix(segs: Seq<SegmentV>, j: int)
    requires
        0 <= j <= segs.len(),
    ensures
        count_params(segs.take(j)) <= count_params(segs),
        count_params(segs) <= segs.len(),
    decreases segs.len(),
{
    if segs.len() > 0 {
        if j == segs.len() {
            assert(segs.take(j) =~= segs);
            lemma_count_prefix(segs.drop_last(), 0);
        } else {
            assert(segs.drop_last().take(j) =~= segs.take(j));
            lemma_count_prefix(segs.drop_last(), j);
        }
    }
}

/// The number of placeholders among parsed segments.
pub fn count_segment_params(segs: &Vec<Segment>) -> (r: usize)
    ensures
        r == count_params(segs_view(segs@)),
{
    let mut k: usize = 0;
    let mut i: usize = 0;
    while i < segs.len()
        invariant
            i <= segs@.len(),
            k == count_params(segs_view(segs@).take(i as int)),
            k <= i,
        decreases segs@.len() - i,
    {
        proof {
            assert(segs_view(segs@).take(i + 1).drop_last() =~= segs_view(segs@).take(i as int));
        }
        match &segs[i] {
            Segment::Param(_) => {
                k = k + 1;
            },
            Segment::Literal(_) => {},
        }
        i = i + 1;
    }
    proof {
        assert(segs_view(segs@).take(segs@.len() as int) =~= segs_view(segs@));
    }
    k
}

/// Generates the push style: a buffer reserved with the exact capacity,
/// then one `push_str` for the base address and one per segment, in
/// template order; the `k`-th placeholder is filled from `param_parts[k]`.
/// Segments whose placeholders do not match the parameters in number are
/// refused.
pub fn url_push_decl(url_base: &str, url_parts: &Vec<Segment>, param_parts: &Vec<String>) -> (r:
    Result<(String, Vec<Stmt>), CodegenError>)
    ensures
        match r {
            Ok((id, stmts)) => {
                &&& count_params(segs_view(url_parts@)) == param_parts@.len()
                &&& id@ == url_ident()
                &&& stmts_view(stmts@) == push_stmts(
                    url_base@,
                    segs_view(url_parts@),
                    strs_view(param_parts@),
                )
            },
            Err(e) => count_params(segs_view(url_parts@)) != param_parts@.len() && e
                == CodegenError::TemplateMismatch,
        },
{
    if count_segment_params(url_parts) != param_parts.len() {
        return Err(CodegenError::TemplateMismatch);
    }
    let ghost segs = segs_view(url_parts@);
    let ghost names = strs_view(param_parts@);
    let mut terms: Vec<LenTerm> = Vec::new();
    terms.push(len_expr(url_base));
    let mut pushes: Vec<Stmt> = Vec::new();
    let mut k: usize = 0;
    let mut i: usize = 0;
    proof {
        assert(terms_view(terms@) =~= capacity_terms(url_base@, segs.take(0), names));
        assert(stmts_view(pushes@) =~= seg_pushes(segs.take(0), names));
    }
    while i < url_parts.len()
        invariant
            i <= url_parts@.len(),
            segs == segs_view(url_parts@),
            names == strs_view(param_parts@),
            count_params(segs) == param_parts@.len(),
            k == count_params(segs.take(i as int)),
            terms_view(terms@) == capacity_terms(url_base@, segs.take(i as int), names),
            stmts_view(pushes@) == seg_pushes(segs.take(i as int), names),
        decreases url_parts@.len() - i,
    {
        let ghost pre = segs.take(i as int);
        let ghost cur = segs.take(i + 1);
        proof {
            assert(cur.drop_last() =~= pre);
            assert(cur.last() == segs[i as int]);
            lemma_count_prefix(segs, i + 1);
        }
        let ghost old_terms = terms@;
        let ghost old_pushes = pushes@;
        match &url_parts[i] {
            Segment::Literal(t) => {
                let len = t.as_str().len();
                assert(len == str_len(t@));
                terms.push(LenTerm::Fixed(len));
                pushes.push(
                    Stmt::PushStr { target: url_name(), arg: PushArg::Text(t.clone()) },
                );
            },
            Segment::Param(_) => {
                let name = &param_parts[k];
                terms = len_add(terms, name.as_str());
                pushes.push(
                    Stmt::PushStr { target: url_name(), arg: PushArg::Var(name.clone()) },
                );
                k = k + 1;
            },
        }
        proof {
            assert(terms_view(terms@) =~= terms_view(old_terms).push(seg_term(cur, names)));
            assert(seg_terms(cur, names) == seg_terms(pre, names).push(seg_term(cur, names)));
            assert(terms_view(terms@) =~= capacity_terms(url_base@, cur, names));
            assert(stmts_view(pushes@) =~= seg_pushes(cur, names));
        }
        i = i + 1;
    }
    proof {
        assert(segs.take(url_parts@.len() as int) =~= segs);
    }
    let mut stmts: Vec<Stmt> = Vec::new();
    stmts.push(Stmt::LetCapacity { name: url_name(), terms });
    stmts.push(Stmt::PushStr { target: url_name(), arg: PushArg::Var(url_base.to_owned()) });
    let ghost head = stmts@;
    let ghost body = pushes@;
    stmts.append(&mut pushes);
    proof {
        assert(stmts@ == head + body);
        assert(stmts_view(stmts@) =~= push_stmts(url_base@, segs, names));
    }
    Ok((url_name(), stmts))
}

} // verus!
