//! Path templates such as `/{index}/_alias/{name}`: literal text with
//! `{name}` placeholders.
use vstd::prelude::*;

use crate::error::CodegenError;

verus! {

/// One piece of a parsed path template.
#[derive(Debug, Clone)]
pub enum Segment {
    /// Text copied into the URL as it stands.
    Literal(String),
    /// A placeholder, filled with the value of the named parameter.
    Param(String),
}

/// The mathematical value of a [`Segment`].
pub enum SegmentV {
    Literal(Seq<char>),
    Param(Seq<char>),
}

impl View for Segment {
    type V = SegmentV;

    open spec fn view(&self) -> SegmentV {
        match self {
            Segment::Literal(t) => SegmentV::Literal(t@),
            Segment::Param(n) => SegmentV::Param(n@),
        }
    }
}

pub open spec fn segs_view(v: Seq<Segment>) -> Seq<SegmentV> {
    v.map_values(|s: Segment| s@)
}

// ---------------------------------------------------------------------
// The grammar, stated as a left-to-right scan over the characters.
// ---------------------------------------------------------------------
/// What the scanner knows after reading a prefix of the template.
pub struct ScanState {
    /// Segments completed so far.
    pub segs: Seq<SegmentV>,
    /// Characters read since the last segment boundary.
    pub buf: Seq<char>,
    /// Whether an opening `{` is waiting for its `}`.
    pub in_param: bool,
    /// Whether the prefix can no longer be part of a valid template.
    pub failed: bool,
}

pub open spec fn scan_init() -> ScanState {
    ScanState { segs: seq![], buf: seq![], in_param: false, failed: false }
}

/// Closes a pending literal, if any.
pub open spec fn flush_literal(segs: Seq<SegmentV>, buf: Seq<char>) -> Seq<SegmentV> {
    if buf.len() == 0 {
        segs
    } else {
        segs.push(SegmentV::Literal(buf))
    }
}

pub open spec fn scan_step(st: ScanState, c: char) -> ScanState {
    if st.failed {
        st
    } else if c == '{' {
        if st.in_param {
            ScanState { failed: true, ..st }
        } else {
            ScanState {
                segs: flush_literal(st.segs, st.buf),
                buf: seq![],
                in_param: true,
                failed: false,
            }
        }
    } else if c == '}' {
        if !st.in_param || st.buf.len() == 0 {
            ScanState { failed: true, ..st }
        } else {
            ScanState {
                segs: st.segs.push(SegmentV::Param(st.buf)),
                buf: seq![],
                in_param: false,
                failed: false,
            }
        }
    } else {
        ScanState { buf: st.buf.push(c), ..st }
    }
}

pub open spec fn scan_from(st: ScanState, s: Seq<char>) -> ScanState
    decreases s.len(),
{
    if s.len() == 0 {
        st
    } else {
        scan_step(scan_from(st, s.drop_last()), s.last())
    }
}

pub open spec fn scan(s: Seq<char>) -> ScanState {
    scan_from(scan_init(), s)
}

/// The segments of a template, or `None` where a brace is unbalanced, nested
/// or encloses no name.
pub open spec fn parse_template(s: Seq<char>) -> Option<Seq<SegmentV>> {
    let st = scan(s);
    if st.failed || st.in_param {
        None
    } else {
        Some(flush_literal(st.segs, st.buf))
    }
}

// ---------------------------------------------------------------------
// Views of a segment sequence.
// ---------------------------------------------------------------------
/// The parameter names, left to right.
pub open spec fn param_names(segs: Seq<SegmentV>) -> Seq<Seq<char>>
    decreases segs.len(),
{
    if segs.len() == 0 {
        seq![]
    } else {
        let rest = param_names(segs.drop_last());
        match segs.last() {
            SegmentV::Param(n) => rest.push(n),
            SegmentV::Literal(_) => rest,
        }
    }
}

/// The literal fragments, left to right.
pub open spec fn literals(segs: Seq<SegmentV>) -> Seq<Seq<char>>
    decreases segs.len(),
{
    if segs.len() == 0 {
        seq![]
    } else {
        let rest = literals(segs.drop_last());
        match segs.last() {
            SegmentV::Literal(t) => rest.push(t),
            SegmentV::Param(_) => rest,
        }
    }
}

pub open spec fn hole() -> Seq<char> {
    seq!['{', '}']
}

/// The literal text with a `{}` hole in place of each parameter.
pub open spec fn holes_of(segs: Seq<SegmentV>) -> Seq<char>
    decreases segs.len(),
{
    if segs.len() == 0 {
        seq![]
    } else {
        let rest = holes_of(segs.drop_last());
        match segs.last() {
            SegmentV::Literal(t) => rest + t,
            SegmentV::Param(_) => rest + hole(),
        }
    }
}

/// The single-pass formatting template: a leading hole for the base address,
/// then [`holes_of`].
pub open spec fn fmt_template(segs: Seq<SegmentV>) -> Seq<char> {
    hole() + holes_of(segs)
}

/// The template text that a segment sequence is written as.
pub open spec fn render_seg(s: SegmentV) -> Seq<char> {
    match s {
        SegmentV::Literal(t) => t,
        SegmentV::Param(n) => seq!['{'] + n + seq!['}'],
    }
}

pub open spec fn render(segs: Seq<SegmentV>) -> Seq<char>
    decreases segs.len(),
{
    if segs.len() == 0 {
        seq![]
    } else {
        render(segs.drop_last()) + render_seg(segs.last())
    }
}

pub open spec fn brace_free(t: Seq<char>) -> bool {
    forall|i: int| 0 <= i < t.len() ==> t[i] != '{' && t[i] != '}'
}

/// Segment sequences that a template can spell: non-empty, brace-free
/// literals and names, and never two literals side by side.
pub open spec fn well_formed(segs: Seq<SegmentV>) -> bool {
    &&& forall|i: int|
        0 <= i < segs.len() ==> match #[trigger] segs[i] {
            SegmentV::Literal(t) => t.len() > 0 && brace_free(t),
            SegmentV::Param(n) => n.len() > 0 && brace_free(n),
        }
    &&& forall|i: int|
        0 < i < segs.len() ==> !((#[trigger] segs[i]) is Literal && segs[i - 1] is Literal)
}

// ---------------------------------------------------------------------
// Lemmas about the scan.
// ---------------------------------------------------------------------
proof fn lemma_scan_append(st: ScanState, a: Seq<char>, b: Seq<char>)
    ensures
        scan_from(st, a + b) == scan_from(scan_from(st, a), b),
    decreases b.len(),
{
    if b.len() == 0 {
        assert(a + b =~= a);
    } else {
        lemma_scan_append(st, a, b.drop_last());
        assert((a + b).drop_last() =~= a + b.drop_last());
        assert((a + b).last() == b.last());
    }
}

proof fn lemma_scan_plain(st: ScanState, t: Seq<char>)
    requires
        !st.failed,
        brace_free(t),
    ensures
        scan_from(st, t) == (ScanState { buf: st.buf + t, ..st }),
    decreases t.len(),
{
    if t.len() == 0 {
        assert(st.buf + t =~= st.buf);
    } else {
        lemma_scan_plain(st, t.drop_last());
        assert(st.buf + t.drop_last() + seq![t.last()] =~= st.buf + t);
        assert((st.buf + t.drop_last()).push(t.last()) =~= st.buf + t);
    }
}

proof fn lemma_failed_sticky(s: Seq<char>, j: int)
    requires
        0 <= j <= s.len(),
        scan(s.take(j)).failed,
    ensures
        scan(s).failed,
    decreases s.len(),
{
    if j == s.len() {
        assert(s.take(j) =~= s);
    } else {
        assert(s.drop_last().take(j) =~= s.take(j));
        lemma_failed_sticky(s.drop_last(), j);
    }
}

/// The state the scan is in after reading `render(segs)`.
pub open spec fn settled(segs: Seq<SegmentV>) -> ScanState {
    if segs.len() == 0 {
        scan_init()
    } else {
        match segs.last() {
            SegmentV::Literal(t) => ScanState {
                segs: segs.drop_last(),
                buf: t,
                in_param: false,
                failed: false,
            },
            SegmentV::Param(_) => ScanState { segs, buf: seq![], in_param: false, failed: false },
        }
    }
}

proof fn lemma_well_formed_prefix(segs: Seq<SegmentV>)
    requires
        segs.len() > 0,
        well_formed(segs),
    ensures
        well_formed(segs.drop_last()),
{
    let p = segs.drop_last();
    assert forall|i: int| 0 <= i < p.len() implies match #[trigger] p[i] {
        SegmentV::Literal(t) => t.len() > 0 && brace_free(t),
        SegmentV::Param(n) => n.len() > 0 && brace_free(n),
    } by {
        assert(p[i] == segs[i]);
    }
    assert forall|i: int| 0 < i < p.len() implies !((#[trigger] p[i]) is Literal && p[i
        - 1] is Literal) by {
        assert(p[i] == segs[i]);
        assert(p[i - 1] == segs[i - 1]);
    }
}

proof fn lemma_scan_one(st: ScanState, c: char)
    ensures
        scan_from(st, seq![c]) == scan_step(st, c),
{
    let one = seq![c];
    assert(one.drop_last() =~= Seq::<char>::empty());
    assert(scan_from(st, one.drop_last()) == st);
    assert(one.last() == c);
}

proof fn lemma_render_literal(p: Seq<SegmentV>, t: Seq<char>)
    requires
        scan(render(p)) == settled(p),
        p.len() == 0 || !(p.last() is Literal),
        t.len() > 0,
        brace_free(t),
    ensures
        scan(render(p) + t) == settled(p.push(SegmentV::Literal(t))),
{
    let st = settled(p);
    lemma_scan_append(scan_init(), render(p), t);
    lemma_scan_plain(st, t);
    assert(st.buf + t =~= t);
    let q = p.push(SegmentV::Literal(t));
    assert(q.drop_last() =~= p);
    assert(q.last() == SegmentV::Literal(t));
    if p.len() == 0 {
        assert(st.segs =~= p);
    }
    assert(st.segs == p && st.buf =~= Seq::<char>::empty());
}

proof fn lemma_render_param(p: Seq<SegmentV>, n: Seq<char>)
    requires
        scan(render(p)) == settled(p),
        flush_literal(settled(p).segs, settled(p).buf) == p,
        n.len() > 0,
        brace_free(n),
    ensures
        scan(render(p) + render_seg(SegmentV::Param(n))) == settled(p.push(SegmentV::Param(n))),
{
    let st = settled(p);
    let open = seq!['{'];
    let close = seq!['}'];
    assert(render_seg(SegmentV::Param(n)) =~= open + n + close);
    lemma_scan_append(scan_init(), render(p), open + n + close);
    lemma_scan_append(st, open + n, close);
    lemma_scan_append(st, open, n);
    lemma_scan_one(st, '{');
    let s1 = scan_step(st, '{');
    lemma_scan_plain(s1, n);
    assert(seq![] + n =~= n);
    let s2 = ScanState { buf: n, ..s1 };
    lemma_scan_one(s2, '}');
}

proof fn lemma_scan_render(segs: Seq<SegmentV>)
    requires
        well_formed(segs),
    ensures
        scan(render(segs)) == settled(segs),
        flush_literal(settled(segs).segs, settled(segs).buf) == segs,
    decreases segs.len(),
{
    if segs.len() == 0 {
        assert(render(segs) =~= seq![]);
    } else {
        let p = segs.drop_last();
        let last = segs.last();
        lemma_well_formed_prefix(segs);
        lemma_scan_render(p);
        assert(segs[segs.len() - 1] == last);
        assert(segs =~= p.push(last));
        match last {
            SegmentV::Literal(t) => {
                if p.len() > 0 {
                    assert(segs[segs.len() - 2] == p.last());
                }
                lemma_render_literal(p, t);
            },
            SegmentV::Param(n) => {
                lemma_render_param(p, n);
            },
        }
    }
}

/// Parsing is the inverse of rendering: a template spelled from literal
/// fragments and `{name}` placeholders parses back to exactly those
/// segments, so its parameter names come out in left-to-right order, one
/// for each placeholder.
pub proof fn lemma_parse_render(segs: Seq<SegmentV>)
    requires
        well_formed(segs),
    ensures
        parse_template(render(segs)) == Some(segs),
        param_names(segs).len() == count_params(segs),
{
    lemma_scan_render(segs);
    lemma_param_count(segs);
}

/// The number of placeholders in a segment sequence.
pub open spec fn count_params(segs: Seq<SegmentV>) -> nat
    decreases segs.len(),
{
    if segs.len() == 0 {
        0
    } else {
        count_params(segs.drop_last()) + if segs.last() is Param {
            1nat
        } else {
            0nat
        }
    }
}

pub proof fn lemma_param_count(segs: Seq<SegmentV>)
    ensures
        param_names(segs).len() == count_params(segs),
    decreases segs.len(),
{
    if segs.len() > 0 {
        lemma_param_count(segs.drop_last());
    }
}

/// What holds of every state the scan passes through before it fails.
pub open spec fn scan_ok(st: ScanState) -> bool {
    &&& well_formed(st.segs)
    &&& brace_free(st.buf)
    &&& (!st.in_param ==> st.segs.len() == 0 || st.segs.last() is Param)
}

proof fn lemma_push_well_formed(segs: Seq<SegmentV>, s: SegmentV)
    requires
        well_formed(segs),
        match s {
            SegmentV::Literal(t) => t.len() > 0 && brace_free(t),
            SegmentV::Param(n) => n.len() > 0 && brace_free(n),
        },
        s is Literal ==> segs.len() == 0 || !(segs.last() is Literal),
    ensures
        well_formed(segs.push(s)),
{
    let r = segs.push(s);
    assert forall|i: int| 0 <= i < r.len() implies match #[trigger] r[i] {
        SegmentV::Literal(t) => t.len() > 0 && brace_free(t),
        SegmentV::Param(n) => n.len() > 0 && brace_free(n),
    } by {
        if i < segs.len() {
            assert(r[i] == segs[i]);
        }
    }
    assert forall|i: int| 0 < i < r.len() implies !((#[trigger] r[i]) is Literal && r[i
        - 1] is Literal) by {
        if i < segs.len() {
            assert(r[i] == segs[i]);
            assert(r[i - 1] == segs[i - 1]);
        } else {
            assert(r[i - 1] == segs.last());
        }
    }
}

proof fn lemma_scan_ok(s: Seq<char>)
    ensures
        !scan(s).failed ==> scan_ok(scan(s)),
    decreases s.len(),
{
    if s.len() > 0 {
        lemma_scan_ok(s.drop_last());
        let st = scan(s.drop_last());
        let c = s.last();
        if !st.failed {
            if c == '{' && !st.in_param && st.buf.len() > 0 {
                lemma_push_well_formed(st.segs, SegmentV::Literal(st.buf));
            } else if c == '}' && st.in_param && st.buf.len() > 0 {
                lemma_push_well_formed(st.segs, SegmentV::Param(st.buf));
            } else if c != '{' && c != '}' {
                assert forall|i: int| 0 <= i < st.buf.push(c).len() implies st.buf.push(c)[i]
                    != '{' && st.buf.push(c)[i] != '}' by {
                    if i < st.buf.len() {
                        assert(st.buf.push(c)[i] == st.buf[i]);
                    }
                }
            }
        }
    }
}

/// Every template that parses yields well-formed segments: non-empty,
/// brace-free literals and names, and never two literals side by side.
pub proof fn lemma_parse_well_formed(s: Seq<char>)
    requires
        parse_template(s) is Some,
    ensures
        well_formed(parse_template(s)->0),
{
    lemma_scan_ok(s);
    let st = scan(s);
    if st.buf.len() > 0 {
        lemma_push_well_formed(st.segs, SegmentV::Literal(st.buf));
    }
}

// ---------------------------------------------------------------------
// Executable parsing.
// ---------------------------------------------------------------------
/// Splits a path template into literal and parameter segments.
pub fn parse_segments(url: &str) -> (r: Result<Vec<Segment>, CodegenError>)
    ensures
        match r {
            Ok(v) => parse_template(url@) == Some(segs_view(v@)),
            Err(e) => parse_template(url@) is None && e == CodegenError::TemplateSyntax,
        },
{
    let n = url.unicode_len();
    let mut segs: Vec<Segment> = Vec::new();
    let mut start: usize = 0;
    let mut in_param = false;
    let mut i: usize = 0;
    while i < n
        invariant
            n == url@.len(),
            start <= i <= n,
            !scan(url@.take(i as int)).failed,
            scan(url@.take(i as int)).segs == segs_view(segs@),
            scan(url@.take(i as int)).buf == url@.subrange(start as int, i as int),
            scan(url@.take(i as int)).in_param == in_param,
        decreases n - i,
    {
        let c = url.get_char(i);
        proof {
            assert(url@.take(i + 1).drop_last() =~= url@.take(i as int));
            assert(url@.take(i + 1).last() == c);
        }
        let ghost prev = scan(url@.take(i as int));
        if c == '{' {
            if in_param {
                proof {
                    lemma_failed_sticky(url@, i + 1);
                }
                return Err(CodegenError::TemplateSyntax);
            }
            if start < i {
                let lit = url.substring_char(start, i).to_owned();
                segs.push(Segment::Literal(lit));
                proof {
                    assert(segs_view(segs@) =~= prev.segs.push(SegmentV::Literal(prev.buf)));
                }
            } else {
                proof {
                    assert(prev.buf =~= seq![]);
                }
            }
            start = i + 1;
            in_param = true;
        } else if c == '}' {
            if !in_param || start == i {
                proof {
                    if in_param {
                        assert(prev.buf =~= seq![]);
                    }
                    lemma_failed_sticky(url@, i + 1);
                }
                return Err(CodegenError::TemplateSyntax);
            }
            let name = url.substring_char(start, i).to_owned();
            segs.push(Segment::Param(name));
            proof {
                assert(segs_view(segs@) =~= prev.segs.push(SegmentV::Param(prev.buf)));
            }
            start = i + 1;
            in_param = false;
        } else {
            proof {
                assert(url@.subrange(start as int, i + 1) =~= prev.buf.push(c));
            }
        }
        i = i + 1;
        proof {
            assert(url@.subrange(start as int, i as int) =~= scan(url@.take(i as int)).buf);
        }
    }
    proof {
        assert(url@.take(n as int) =~= url@);
    }
    if in_param {
        return Err(CodegenError::TemplateSyntax);
    }
    if start < n {
        let lit = url.substring_char(start, n).to_owned();
        segs.push(Segment::Literal(lit));
        proof {
            let st = scan(url@);
            assert(segs_view(segs@) =~= st.segs.push(SegmentV::Literal(st.buf)));
        }
    } else {
        proof {
            assert(scan(url@).buf =~= seq![]);
        }
    }
    Ok(segs)
}

pub open spec fn strs_view(v: Seq<String>) -> Seq<Seq<char>> {
    v.map_values(|s: String| s@)
}

/// The parameter names of parsed segments, left to right.
pub fn segment_params(segs: &Vec<Segment>) -> (r: Vec<String>)
    ensures
        strs_view(r@) == param_names(segs_view(segs@)),
{
    let mut out: Vec<String> = Vec::new();
    let mut i: usize = 0;
    while i < segs.len()
        invariant
            i <= segs@.len(),
            strs_view(out@) == param_names(segs_view(segs@).take(i as int)),
        decreases segs@.len() - i,
    {
        proof {
            assert(segs_view(segs@).take(i + 1).drop_last() =~= segs_view(segs@).take(i as int));
        }
        match &segs[i] {
            Segment::Param(n) => {
                out.push(n.clone());
            },
            Segment::Literal(_) => {},
        }
        proof {
            assert(strs_view(out@) =~= param_names(segs_view(segs@).take(i + 1)));
        }
        i = i + 1;
    }
    proof {
        assert(segs_view(segs@).take(segs@.len() as int) =~= segs_view(segs@));
    }
    out
}

/// The literal fragments of parsed segments, left to right.
pub fn segment_literals(segs: &Vec<Segment>) -> (r: Vec<String>)
    ensures
        strs_view(r@) == literals(segs_view(segs@)),
{
    let mut out: Vec<String> = Vec::new();
    let mut i: usize = 0;
    while i < segs.len()
        invariant
            i <= segs@.len(),
            strs_view(out@) == literals(segs_view(segs@).take(i as int)),
        decreases segs@.len() - i,
    {
        proof {
            assert(segs_view(segs@).take(i + 1).drop_last() =~= segs_view(segs@).take(i as int));
        }
        match &segs[i] {
            Segment::Literal(t) => {
                out.push(t.clone());
            },
            Segment::Param(_) => {},
        }
        proof {
            assert(strs_view(out@) =~= literals(segs_view(segs@).take(i + 1)));
        }
        i = i + 1;
    }
    proof {
        assert(segs_view(segs@).take(segs@.len() as int) =~= segs_view(segs@));
    }
    out
}

/// The formatting template of parsed segments: `{}` for the base address,
/// then the literal text with `{}` for each parameter.
pub fn segment_fmt(segs: &Vec<Segment>) -> (r: String)
    ensures
        r@ == fmt_template(segs_view(segs@)),
{
    let mut out = String::new();
    out.append("{}");
    proof {
        reveal_strlit("{}");
        assert(out@ =~= hole() + holes_of(segs_view(segs@).take(0)));
    }
    let mut i: usize = 0;
    while i < segs.len()
        invariant
            i <= segs@.len(),
            out@ == hole() + holes_of(segs_view(segs@).take(i as int)),
        decreases segs@.len() - i,
    {
        proof {
            assert(segs_view(segs@).take(i + 1).drop_last() =~= segs_view(segs@).take(i as int));
            reveal_strlit("{}");
        }
        match &segs[i] {
            Segment::Literal(t) => {
                out.append(t.as_str());
            },
            Segment::Param(_) => {
                out.append("{}");
            },
        }
        proof {
            assert(out@ =~= hole() + holes_of(segs_view(segs@).take(i + 1)));
        }
        i = i + 1;
    }
    proof {
        assert(segs_view(segs@).take(segs@.len() as int) =~= segs_view(segs@));
    }
    out
}

/// The parameter names of a path template, in order of appearance.
pub fn parse_path_params(url: &str) -> (r: Result<Vec<String>, CodegenError>)
    ensures
        match r {
            Ok(v) => parse_template(url@) is Some && strs_view(v@) == param_names(
                parse_template(url@)->0,
            ),
            Err(e) => parse_template(url@) is None && e == CodegenError::TemplateSyntax,
        },
{
    let segs = parse_segments(url)?;
    Ok(segment_params(&segs))
}

/// The literal fragments of a path template, in order of appearance.
pub fn parse_path_parts(url: &str) -> (r: Result<Vec<String>, CodegenError>)
    ensures
        match r {
            Ok(v) => parse_template(url@) is Some && strs_view(v@) == literals(
                parse_template(url@)->0,
            ),
            Err(e) => parse_template(url@) is None && e == CodegenError::TemplateSyntax,
        },
{
    let segs = parse_segments(url)?;
    Ok(segment_literals(&segs))
}

/// The formatting template of a path template: `{}` for the base address,
/// then the literal text with `{}` in place of each parameter.
pub fn parse_fmt(url: &str) -> (r: Result<String, CodegenError>)
    ensures
        match r {
            Ok(f) => parse_template(url@) is Some && f@ == fmt_template(parse_template(url@)->0),
            Err(e) => parse_template(url@) is None && e == CodegenError::TemplateSyntax,
        },
{
    let segs = parse_segments(url)?;
    Ok(segment_fmt(&segs))
}

} // verus!
