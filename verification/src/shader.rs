//! The shader build pipeline: turns annotated shader source into
//! stage-specific source buffers ready for compilation.
//!
//! Source text is processed as bytes. The first source line may carry an
//! `include` directive naming per-stage include fragments, the second a
//! `specialization` directive naming boolean flags; each named flag becomes
//! a macro defined to `1` exactly when the flag is enabled. Shared source
//! syntax is rewritten per stage (legacy `attribute`/`varying` qualifiers),
//! and each stage buffer starts with a version directive and a
//! stage-identifying macro. Reading source files and running the compiler
//! are the embedding's work; the assembly and its failure report are here.

use vstd::prelude::*;
use vstd::string::*;

verus! {

/// Token separators inside a directive line.
pub open spec fn is_ws(b: u8) -> bool {
    b == 32 || b == 9 || b == 13
}

fn is_ws_exec(b: u8) -> (r: bool)
    ensures
        r == is_ws(b),
{
    b == 32 || b == 9 || b == 13
}

/// The end of the token starting at `i`: the first separator position at or
/// after `i`, capped at the end of the line.
pub open spec fn tok_end(s: Seq<u8>, i: int) -> int
    decreases s.len() - i,
{
    if i < 0 || i >= s.len() || is_ws(s[i]) {
        i
    } else {
        tok_end(s, i + 1)
    }
}

pub proof fn lemma_tok_end(s: Seq<u8>, i: int)
    requires
        0 <= i <= s.len(),
    ensures
        i <= tok_end(s, i) <= s.len(),
    decreases s.len() - i,
{
    if i < s.len() && !is_ws(s[i]) {
        lemma_tok_end(s, i + 1);
    }
}

/// The whitespace-separated tokens of `s` from position `i` on.
pub open spec fn toks_from(s: Seq<u8>, i: int) -> Seq<Seq<u8>>
    decreases s.len() - i,
    via toks_from_dec
{
    if i < 0 || i >= s.len() {
        Seq::empty()
    } else if is_ws(s[i]) {
        toks_from(s, i + 1)
    } else {
        seq![s.subrange(i, tok_end(s, i))] + toks_from(s, tok_end(s, i))
    }
}

#[via_fn]
proof fn toks_from_dec(s: Seq<u8>, i: int) {
    if 0 <= i && i < s.len() && !is_ws(s[i]) {
        lemma_tok_end(s, i + 1);
    }
}

/// The views of a sequence of byte vectors.
pub open spec fn deep(vs: Seq<Vec<u8>>) -> Seq<Seq<u8>> {
    Seq::new(vs.len(), |k: int| vs[k]@)
}

/// Split `line` into its whitespace-separated tokens.
#[verifier::loop_isolation(false)]
pub fn tokenize(line: &Vec<u8>) -> (r: Vec<Vec<u8>>)
    ensures
        deep(r@) == toks_from(line@, 0),
{
    let n = line.len();
    let mut r: Vec<Vec<u8>> = Vec::new();
    let mut i: usize = 0;
    while i < n
        invariant
            0 <= i <= n,
            deep(r@) + toks_from(line@, i as int) == toks_from(line@, 0),
        decreases n - i,
    {
        if is_ws_exec(line[i]) {
            i = i + 1;
        } else {
            let mut t: Vec<u8> = Vec::new();
            let mut j: usize = i;
            while j < n && !is_ws_exec(line[j])
                invariant
                    i <= j <= n,
                    t@ == line@.subrange(i as int, j as int),
                    tok_end(line@, i as int) == tok_end(line@, j as int),
                decreases n - j,
            {
                t.push(line[j]);
                j = j + 1;
                proof {
                    assert(t@ =~= line@.subrange(i as int, j as int));
                }
            }
            proof {
                assert(tok_end(line@, j as int) == j);
                assert(deep(r@.push(t)) =~= deep(r@) + seq![t@]);
                assert((deep(r@) + seq![t@]) + toks_from(line@, j as int) =~= deep(r@) + (seq![t@]
                    + toks_from(line@, j as int)));
                assert(toks_from(line@, i as int) == seq![t@] + toks_from(line@, j as int));
            }
            r.push(t);
            i = j;
        }
    }
    proof {
        assert(deep(r@) =~= toks_from(line@, 0));
    }
    r
}

/// Append the bytes of `s` to `out`.
#[verifier::loop_isolation(false)]
pub fn push_bytes(out: &mut Vec<u8>, s: &Vec<u8>)
    ensures
        final(out)@ == old(out)@ + s@,
{
    let n = s.len();
    let mut i: usize = 0;
    while i < n
        invariant
            0 <= i <= n,
            out@ == old(out)@ + s@.subrange(0, i as int),
        decreases n - i,
    {
        out.push(s[i]);
        i = i + 1;
        proof {
            assert(out@ =~= old(out)@ + s@.subrange(0, i as int));
        }
    }
    proof {
        assert(out@ =~= old(out)@ + s@);
    }
}

/// Whether two byte vectors hold the same bytes.
#[verifier::loop_isolation(false)]
pub fn bytes_eq(a: &Vec<u8>, b: &Vec<u8>) -> (r: bool)
    ensures
        r == (a@ == b@),
{
    if a.len() != b.len() {
        return false;
    }
    let n = a.len();
    let mut i: usize = 0;
    while i < n
        invariant
            0 <= i <= n,
            forall|j: int| 0 <= j < i ==> a@[j] == b@[j],
        decreases n - i,
    {
        if a[i] != b[i] {
            return false;
        }
        i = i + 1;
    }
    proof {
        assert(a@ =~= b@);
    }
    true
}

/// The decimal digits of `n`, most significant first.
pub open spec fn dec_digits(n: nat) -> Seq<u8>
    decreases n,
{
    if n < 10 {
        seq![(48 + n) as u8]
    } else {
        dec_digits(n / 10) + seq![(48 + n % 10) as u8]
    }
}

/// Append the decimal rendering of `n`.
pub fn push_dec(out: &mut Vec<u8>, n: u32)
    ensures
        final(out)@ == old(out)@ + dec_digits(n as nat),
    decreases n,
{
    if n < 10 {
        out.push((48 + n) as u8);
        proof {
            assert(final(out)@ =~= old(out)@ + dec_digits(n as nat));
        }
    } else {
        push_dec(out, n / 10);
        out.push((48 + n % 10) as u8);
        proof {
            assert(final(out)@ =~= old(out)@ + dec_digits(n as nat));
        }
    }
}

/// `s` with every occurrence of `pat` replaced by `rep`, scanning left to
/// right without overlap.
pub open spec fn spec_replace(s: Seq<u8>, pat: Seq<u8>, rep: Seq<u8>) -> Seq<u8>
    decreases s.len(),
{
    if pat.len() == 0 || s.len() == 0 {
        s
    } else if s.len() >= pat.len() && s.subrange(0, pat.len() as int) == pat {
        rep + spec_replace(s.skip(pat.len() as int), pat, rep)
    } else {
        seq![s[0]] + spec_replace(s.drop_first(), pat, rep)
    }
}

/// Whether `pat` occurs in `s` at position `i`.
pub open spec fn match_at(s: Seq<u8>, pat: Seq<u8>, i: int) -> bool {
    &&& 0 <= i
    &&& i + pat.len() <= s.len()
    &&& s.subrange(i, i + pat.len()) == pat
}

#[verifier::loop_isolation(false)]
fn is_match_at(s: &Vec<u8>, pat: &Vec<u8>, i: usize) -> (r: bool)
    requires
        i <= s@.len(),
    ensures
        r == match_at(s@, pat@, i as int),
{
    if s.len() - i < pat.len() {
        return false;
    }
    let m = pat.len();
    let mut j: usize = 0;
    while j < m
        invariant
            0 <= j <= m,
            forall|k: int| 0 <= k < j ==> s@[i + k] == pat@[k],
        decreases m - j,
    {
        if s[i + j] != pat[j] {
            proof {
                if match_at(s@, pat@, i as int) {
                    assert(s@.subrange(i as int, i + pat@.len())[j as int] == s@[i as int + j]);
                    assert(s@.subrange(i as int, i + pat@.len())[j as int] == pat@[j as int]);
                    assert(false);
                }
            }
            return false;
        }
        j = j + 1;
    }
    proof {
        assert(s@.subrange(i as int, i + pat@.len()) =~= pat@);
    }
    true
}

/// Replace every occurrence of `pat` in `s` by `rep`.
#[verifier::loop_isolation(false)]
pub fn replace_all(s: &Vec<u8>, pat: &Vec<u8>, rep: &Vec<u8>) -> (r: Vec<u8>)
    ensures
        r@ == spec_replace(s@, pat@, rep@),
{
    if pat.len() == 0 {
        let r = subvec(s, 0, s.len());
        proof {
            assert(r@ =~= s@);
        }
        return r;
    }
    let n = s.len();
    let mut out: Vec<u8> = Vec::new();
    let mut i: usize = 0;
    proof {
        assert(s@.skip(0) =~= s@);
        assert(out@ + spec_replace(s@, pat@, rep@) =~= spec_replace(s@, pat@, rep@));
    }
    while i < n
        invariant
            0 <= i <= n,
            out@ + spec_replace(s@.skip(i as int), pat@, rep@) == spec_replace(s@, pat@, rep@),
        decreases n - i,
    {
        let ghost tail = s@.skip(i as int);
        if is_match_at(s, pat, i) {
            push_bytes(&mut out, rep);
            proof {
                assert(tail.len() >= pat@.len());
                assert(tail.subrange(0, pat@.len() as int) =~= s@.subrange(i as int, i + pat@.len()));
                assert(spec_replace(tail, pat@, rep@) == rep@ + spec_replace(
                    tail.skip(pat@.len() as int),
                    pat@,
                    rep@,
                ));
                assert(tail.skip(pat@.len() as int) =~= s@.skip(i + pat@.len()));
            }
            i = i + pat.len();
        } else {
            out.push(s[i]);
            proof {
                assert(tail.len() > 0);
                if tail.len() >= pat@.len() {
                    assert(tail.subrange(0, pat@.len() as int) =~= s@.subrange(i as int, i + pat@.len()));
                }
                assert(spec_replace(tail, pat@, rep@) == seq![tail[0]] + spec_replace(
                    tail.drop_first(),
                    pat@,
                    rep@,
                ));
                assert(tail.drop_first() =~= s@.skip(i as int + 1));
                assert(tail[0] == s@[i as int]);
            }
            i = i + 1;
        }
    }
    proof {
        assert(s@.skip(n as int).len() == 0);
        assert(out@ =~= spec_replace(s@, pat@, rep@));
    }
    out
}

/// Copy the byte range `a..b` of `s`.
#[verifier::loop_isolation(false)]
pub fn subvec(s: &Vec<u8>, a: usize, b: usize) -> (r: Vec<u8>)
    requires
        a <= b <= s@.len(),
    ensures
        r@ == s@.subrange(a as int, b as int),
{
    let mut r: Vec<u8> = Vec::new();
    let mut i: usize = a;
    while i < b
        invariant
            a <= i <= b,
            r@ == s@.subrange(a as int, i as int),
        decreases b - i,
    {
        r.push(s[i]);
        i = i + 1;
        proof {
            assert(r@ =~= s@.subrange(a as int, i as int));
        }
    }
    r
}

/// The first line-feed position at or after `i`, capped at the end.
pub open spec fn line_end(s: Seq<u8>, i: int) -> int
    decreases s.len() - i,
{
    if i < 0 || i >= s.len() || s[i] == 10 {
        i
    } else {
        line_end(s, i + 1)
    }
}

pub proof fn lemma_line_end(s: Seq<u8>, i: int)
    requires
        0 <= i <= s.len(),
    ensures
        i <= line_end(s, i) <= s.len(),
    decreases s.len() - i,
{
    if i < s.len() && s[i] != 10 {
        lemma_line_end(s, i + 1);
    }
}

#[verifier::loop_isolation(false)]
pub fn find_line_end(s: &Vec<u8>, from: usize) -> (r: usize)
    requires
        from <= s@.len(),
    ensures
        r as int == line_end(s@, from as int),
        from <= r <= s@.len(),
{
    let n = s.len();
    let mut i: usize = from;
    while i < n && s[i] != 10
        invariant
            from <= i <= n,
            line_end(s@, from as int) == line_end(s@, i as int),
        decreases n - i,
    {
        i = i + 1;
    }
    i
}

/// The first colon position in `t` at or after `i`, capped at the end.
pub open spec fn colon_end(s: Seq<u8>, i: int) -> int
    decreases s.len() - i,
{
    if i < 0 || i >= s.len() || s[i] == 58 {
        i
    } else {
        colon_end(s, i + 1)
    }
}

#[verifier::loop_isolation(false)]
pub fn find_colon(s: &Vec<u8>) -> (r: usize)
    ensures
        r as int == colon_end(s@, 0),
        r <= s@.len(),
{
    let n = s.len();
    let mut i: usize = 0;
    while i < n && s[i] != 58
        invariant
            0 <= i <= n,
            colon_end(s@, 0) == colon_end(s@, i as int),
        decreases n - i,
    {
        i = i + 1;
    }
    i
}

/// A pipeline stage a shader source can target.
#[derive(Clone, Copy, PartialEq, Eq, Structural, Debug)]
pub enum Stage {
    Vs,
    Fs,
    Cs,
}

/// One `include` directive: the stage whose buffer receives the fragment,
/// and the fragment's module name.
pub struct IncludeReq {
    pub target: Stage,
    pub module: Vec<u8>,
}

/// A semantic shader-build failure. The hosting application treats these as
/// fatal configuration errors; they are surfaced, not swallowed.
#[derive(Debug)]
pub enum ShaderError {
    /// An include directive names a stage this build does not know.
    UnknownTarget { directive: Vec<u8> },
    /// An include directive carries no module name after its stage.
    MissingIncludeName { directive: Vec<u8> },
}

/// The mathematical value of an include directive.
pub struct ReqV {
    pub target: Stage,
    pub module: Seq<u8>,
}

/// The mathematical value of a build failure.
pub enum ErrV {
    UnknownTarget(Seq<u8>),
    MissingName(Seq<u8>),
}

pub open spec fn err_v(e: ShaderError) -> ErrV {
    match e {
        ShaderError::UnknownTarget { directive } => ErrV::UnknownTarget(directive@),
        ShaderError::MissingIncludeName { directive } => ErrV::MissingName(directive@),
    }
}

pub open spec fn reqs_v(vs: Seq<IncludeReq>) -> Seq<ReqV> {
    Seq::new(vs.len(), |i: int| ReqV { target: vs[i].target, module: vs[i].module@ })
}

/// The stage named before the colon of directive token `t`, if known.
pub open spec fn target_of(t: Seq<u8>, compute: bool) -> Option<Stage> {
    let tgt = t.subrange(0, colon_end(t, 0));
    if compute {
        if tgt == "cs".spec_bytes() {
            Some(Stage::Cs)
        } else {
            None
        }
    } else if tgt == "vs".spec_bytes() {
        Some(Stage::Vs)
    } else if tgt == "fs".spec_bytes() {
        Some(Stage::Fs)
    } else {
        None
    }
}

/// Parse one `<stage>:<module>` directive token.
pub open spec fn parse_req(t: Seq<u8>, compute: bool) -> Result<ReqV, ErrV> {
    match target_of(t, compute) {
        None => Err(ErrV::UnknownTarget(t.subrange(0, colon_end(t, 0)))),
        Some(st) => if colon_end(t, 0) < t.len() {
            Ok(ReqV { target: st, module: t.subrange(colon_end(t, 0) + 1, t.len() as int) })
        } else {
            Err(ErrV::MissingName(t))
        },
    }
}

/// Parse a directive token list; the first failure wins.
pub open spec fn parse_reqs(ts: Seq<Seq<u8>>, compute: bool) -> Result<Seq<ReqV>, ErrV>
    decreases ts.len(),
{
    if ts.len() == 0 {
        Ok(Seq::empty())
    } else {
        match parse_req(ts[0], compute) {
            Err(e) => Err(e),
            Ok(r) => match parse_reqs(ts.drop_first(), compute) {
                Err(e) => Err(e),
                Ok(rest) => Ok(seq![r] + rest),
            },
        }
    }
}

pub open spec fn first_line(s: Seq<u8>) -> Seq<u8> {
    s.subrange(0, line_end(s, 0))
}

/// The source holds a second line for the directive parser to read.
pub open spec fn has_two_lines(s: Seq<u8>) -> bool {
    line_end(s, 0) + 1 < s.len()
}

pub open spec fn second_line(s: Seq<u8>) -> Seq<u8>
    recommends
        has_two_lines(s),
{
    s.subrange(line_end(s, 0) + 1, line_end(s, line_end(s, 0) + 1))
}

/// The directive tokens of the leading `include` line, if one is present.
pub open spec fn inc_tokens(s: Seq<u8>) -> Seq<Seq<u8>> {
    let l1 = first_line(s);
    let tk = toks_from(l1, 0);
    if match_at(l1, "//!include".spec_bytes(), 0) && tk.len() > 0 {
        tk.drop_first()
    } else {
        Seq::empty()
    }
}

/// The flag tokens of the `specialization` line, if one is present.
pub open spec fn sp_tokens(s: Seq<u8>) -> Seq<Seq<u8>> {
    let l2 = second_line(s);
    let tk = toks_from(l2, 0);
    if match_at(l2, "//!specialization".spec_bytes(), 0) && tk.len() > 0 {
        tk.drop_first()
    } else {
        Seq::empty()
    }
}

/// Resolve the `include` directives of a source. The embedding reads each
/// named module's fragment and hands the contents back to the build in the
/// same order.
#[verifier::loop_isolation(false)]
pub fn include_requests(code: &Vec<u8>, compute: bool) -> (r: Result<Vec<IncludeReq>, ShaderError>)
    ensures
        (match r {
            Ok(v) => parse_reqs(inc_tokens(code@), compute) == Ok::<Seq<ReqV>, ErrV>(reqs_v(v@)),
            Err(e) => parse_reqs(inc_tokens(code@), compute) == Err::<Seq<ReqV>, ErrV>(err_v(e)),
        }),
{
    let le = find_line_end(code, 0);
    let l1 = subvec(code, 0, le);
    let kw = "//!include".as_bytes_vec();
    let mut reqs: Vec<IncludeReq> = Vec::new();
    let ghost ts = inc_tokens(code@);
    if is_match_at(&l1, &kw, 0) {
        let toks = tokenize(&l1);
        if toks.len() > 0 {
            let vs_kw = "vs".as_bytes_vec();
            let fs_kw = "fs".as_bytes_vec();
            let cs_kw = "cs".as_bytes_vec();
            let nt = toks.len();
            let mut i: usize = 1;
            proof {
                assert(ts =~= deep(toks@).drop_first());
                assert(ts.skip(0) =~= ts);
                assert(reqs_v(reqs@) =~= Seq::<ReqV>::empty());
                assert forall|r0: Seq<ReqV>| true implies reqs_v(reqs@) + r0 =~= r0 by {}
            }
            while i < nt
                invariant
                    1 <= i <= nt,
                    ts.len() == nt - 1,
                    forall|j: int| 0 <= j < ts.len() ==> ts[j] == deep(toks@)[j + 1],
                    parse_reqs(ts, compute) == (match parse_reqs(ts.skip(i - 1), compute) {
                        Ok(rest) => Ok::<Seq<ReqV>, ErrV>(reqs_v(reqs@) + rest),
                        Err(e) => Err(e),
                    }),
                decreases nt - i,
            {
                let ghost tv = ts[i - 1];
                let t = &toks[i];
                let c = find_colon(t);
                let target = subvec(t, 0, c);
                proof {
                    assert(tv == t@);
                    assert(ts.skip(i - 1)[0] == tv);
                    assert(ts.skip(i - 1).drop_first() =~= ts.skip(i as int));
                }
                let stage: Option<Stage> = if compute {
                    if bytes_eq(&target, &cs_kw) {
                        Some(Stage::Cs)
                    } else {
                        None
                    }
                } else if bytes_eq(&target, &vs_kw) {
                    Some(Stage::Vs)
                } else if bytes_eq(&target, &fs_kw) {
                    Some(Stage::Fs)
                } else {
                    None
                };
                match stage {
                    None => {
                        return Err(ShaderError::UnknownTarget { directive: target });
                    },
                    Some(st) => {
                        if c < t.len() {
                            let module = subvec(t, c + 1, t.len());
                            let ghost rv = ReqV { target: st, module: module@ };
                            let ghost prev = reqs@;
                            reqs.push(IncludeReq { target: st, module });
                            proof {
                                assert(parse_req(tv, compute) == Ok::<ReqV, ErrV>(rv));
                                assert(reqs_v(reqs@) =~= reqs_v(prev).push(rv));
                                assert forall|rest: Seq<ReqV>| true implies (reqs_v(prev)
                                    + (seq![rv] + rest)) =~= (reqs_v(reqs@) + rest) by {}
                            }
                        } else {
                            let whole = subvec(t, 0, t.len());
                            proof {
                                assert(whole@ =~= tv);
                            }
                            return Err(ShaderError::MissingIncludeName { directive: whole });
                        }
                    },
                }
                i = i + 1;
            }
            proof {
                assert(ts.skip(nt - 1).len() == 0);
            }
            return Ok(reqs);
        }
    }
    proof {
        assert(ts.len() == 0);
        assert(reqs_v(reqs@) =~= Seq::<ReqV>::empty());
    }
    Ok(reqs)
}

/// Whether `t` occurs among `xs`.
pub open spec fn seq_has(xs: Seq<Seq<u8>>, t: Seq<u8>) -> bool {
    exists|i: int| 0 <= i < xs.len() && xs[i] == t
}

#[verifier::loop_isolation(false)]
pub fn contains_bytes(xs: &Vec<Vec<u8>>, t: &Vec<u8>) -> (r: bool)
    ensures
        r == seq_has(deep(xs@), t@),
{
    let n = xs.len();
    let mut i: usize = 0;
    while i < n
        invariant
            0 <= i <= n,
            forall|j: int| 0 <= j < i ==> deep(xs@)[j] != t@,
        decreases n - i,
    {
        if bytes_eq(&xs[i], t) {
            proof {
                assert(deep(xs@)[i as int] == t@);
            }
            return true;
        }
        i = i + 1;
    }
    proof {
        assert(!seq_has(deep(xs@), t@)) by {
            if seq_has(deep(xs@), t@) {
                let j = choose|j: int| 0 <= j < deep(xs@).len() && deep(xs@)[j] == t@;
                assert(deep(xs@)[j] != t@);
            }
        }
    }
    false
}

/// The macro definition emitted for flag `t`: `1` exactly when `t` is among
/// the enabled flags, `0` otherwise.
pub open spec fn define_line(t: Seq<u8>, enabled: Seq<Seq<u8>>) -> Seq<u8> {
    "#define ".spec_bytes() + t + " ".spec_bytes() + (if seq_has(enabled, t) {
        "1".spec_bytes()
    } else {
        "0".spec_bytes()
    }) + "\n".spec_bytes()
}

/// The macro definitions for the first `n` declared flags, in order.
pub open spec fn defines_upto(toks: Seq<Seq<u8>>, enabled: Seq<Seq<u8>>, n: int) -> Seq<u8>
    decreases n,
{
    if n <= 0 {
        Seq::empty()
    } else {
        defines_upto(toks, enabled, n - 1) + define_line(toks[n - 1], enabled)
    }
}

/// The include fragments routed to stage `st` among the first `n` requests,
/// concatenated in directive order.
pub open spec fn includes_upto(rs: Seq<ReqV>, data: Seq<Seq<u8>>, st: Stage, n: int) -> Seq<u8>
    decreases n,
{
    if n <= 0 {
        Seq::empty()
    } else {
        includes_upto(rs, data, st, n - 1) + (if rs[n - 1].target == st {
            data[n - 1]
        } else {
            Seq::empty()
        })
    }
}

/// The shared source as stage `st` receives it: the vertex stage rewrites
/// `attribute` to `in` and `varying` to `out`, the fragment stage rewrites
/// `varying` to `in`, compute keeps it as written.
pub open spec fn rewritten(code: Seq<u8>, st: Stage) -> Seq<u8> {
    match st {
        Stage::Vs => spec_replace(
            spec_replace(code, "attribute".spec_bytes(), "in".spec_bytes()),
            "varying".spec_bytes(),
            "out".spec_bytes(),
        ),
        Stage::Fs => spec_replace(code, "varying".spec_bytes(), "in".spec_bytes()),
        Stage::Cs => code,
    }
}

/// Everything after a stage's header: its include fragments, the flag
/// macros, a separating line feed and the rewritten shared source.
pub open spec fn stage_body(code: Seq<u8>, rs: Seq<ReqV>, data: Seq<Seq<u8>>, enabled: Seq<Seq<u8>>, st: Stage) -> Seq<u8> {
    includes_upto(rs, data, st, rs.len() as int) + defines_upto(sp_tokens(code), enabled, sp_tokens(code).len() as int)
        + "\n".spec_bytes() + rewritten(code, st)
}

pub open spec fn vs_source(code: Seq<u8>, rs: Seq<ReqV>, data: Seq<Seq<u8>>, enabled: Seq<Seq<u8>>) -> Seq<u8> {
    "#version 450\n#define SHADER_VS\n".spec_bytes() + stage_body(code, rs, data, enabled, Stage::Vs)
}

pub open spec fn fs_source(code: Seq<u8>, rs: Seq<ReqV>, data: Seq<Seq<u8>>, enabled: Seq<Seq<u8>>) -> Seq<u8> {
    "#version 450\n#define SHADER_FS\n".spec_bytes() + stage_body(code, rs, data, enabled, Stage::Fs)
}

pub open spec fn cs_source(
    code: Seq<u8>,
    rs: Seq<ReqV>,
    data: Seq<Seq<u8>>,
    enabled: Seq<Seq<u8>>,
    gx: u32,
    gy: u32,
    gz: u32,
) -> Seq<u8> {
    "#version 450\n".spec_bytes() + "layout(local_size_x = ".spec_bytes() + dec_digits(gx as nat)
        + ", local_size_y = ".spec_bytes() + dec_digits(gy as nat) + ", local_size_z = ".spec_bytes()
        + dec_digits(gz as nat) + ") in;\n".spec_bytes() + "#define SHADER_CS\n".spec_bytes()
        + stage_body(code, rs, data, enabled, Stage::Cs)
}

/// Emit the flag macro definitions of the `specialization` line into both
/// stage buffers.
#[verifier::loop_isolation(false)]
#[verifier::rlimit(100)]
fn emit_defines(code: &Vec<u8>, specialization: &Vec<Vec<u8>>, vs: &mut Vec<u8>, fs: &mut Vec<u8>)
    requires
        has_two_lines(code@),
    ensures
        final(vs)@ == old(vs)@ + defines_upto(sp_tokens(code@), deep(specialization@), sp_tokens(code@).len() as int),
        final(fs)@ == old(fs)@ + defines_upto(sp_tokens(code@), deep(specialization@), sp_tokens(code@).len() as int),
{
    let ghost sp = sp_tokens(code@);
    let ghost en = deep(specialization@);
    let n_code = code.len();
    let le = find_line_end(code, 0);
    proof {
        assert(le < n_code);
    }
    let l2start = le + 1;
    let le2 = find_line_end(code, l2start);
    let l2 = subvec(code, l2start, le2);
    proof {
        assert(l2@ == second_line(code@));
    }
    let sp_kw = "//!specialization".as_bytes_vec();
    if is_match_at(&l2, &sp_kw, 0) {
        let toks = tokenize(&l2);
        if toks.len() > 0 {
            proof {
                assert(sp =~= deep(toks@).drop_first());
            }
            let d_kw = "#define ".as_bytes_vec();
            let sp_one = "1".as_bytes_vec();
            let sp_zero = "0".as_bytes_vec();
            let sp_sp = " ".as_bytes_vec();
            let nl = "\n".as_bytes_vec();
            let ntk = toks.len();
            let mut j: usize = 1;
            while j < ntk
                invariant
                    1 <= j <= ntk,
                    sp.len() == ntk - 1,
                    forall|q: int| 0 <= q < sp.len() ==> sp[q] == deep(toks@)[q + 1],
                    vs@ == old(vs)@ + defines_upto(sp, en, j - 1),
                    fs@ == old(fs)@ + defines_upto(sp, en, j - 1),
                decreases ntk - j,
            {
                let t = &toks[j];
                proof {
                    assert(sp[j - 1] == t@);
                }
                let flag = contains_bytes(specialization, t);
                let bit = if flag {
                    &sp_one
                } else {
                    &sp_zero
                };
                push_bytes(vs, &d_kw);
                push_bytes(vs, t);
                push_bytes(vs, &sp_sp);
                push_bytes(vs, bit);
                push_bytes(vs, &nl);
                push_bytes(fs, &d_kw);
                push_bytes(fs, t);
                push_bytes(fs, &sp_sp);
                push_bytes(fs, bit);
                push_bytes(fs, &nl);
                proof {
                    assert(vs@ =~= old(vs)@ + defines_upto(sp, en, j as int));
                    assert(fs@ =~= old(fs)@ + defines_upto(sp, en, j as int));
                }
                j = j + 1;
            }
            return;
        }
    }
    proof {
        assert(sp.len() == 0);
        assert(vs@ =~= old(vs)@ + defines_upto(sp, en, sp.len() as int));
        assert(fs@ =~= old(fs)@ + defines_upto(sp, en, sp.len() as int));
    }
}

/// Assemble the vertex and fragment sources of a graphics shader from its
/// annotated source, the include fragments resolved by the embedding (in
/// directive order) and the enabled specialization flags.
#[verifier::loop_isolation(false)]
pub fn build_graphics(code: &Vec<u8>, include_data: &Vec<Vec<u8>>, specialization: &Vec<Vec<u8>>) -> (r: Result<
    (Vec<u8>, Vec<u8>),
    ShaderError,
>)
    requires
        has_two_lines(code@),
        parse_reqs(inc_tokens(code@), false) matches Ok(rs) ==> include_data@.len() == rs.len(),
    ensures
        (match parse_reqs(inc_tokens(code@), false) {
            Err(e) => r matches Err(e2) && err_v(e2) == e,
            Ok(rs) => r matches Ok(p) && p.0@ == vs_source(code@, rs, deep(include_data@), deep(specialization@))
                && p.1@ == fs_source(code@, rs, deep(include_data@), deep(specialization@)),
        }),
{
    let reqs = match include_requests(code, false) {
        Ok(v) => v,
        Err(e) => {
            return Err(e);
        },
    };
    let ghost rs = reqs_v(reqs@);
    let ghost dv = deep(include_data@);
    let ghost en = deep(specialization@);
    let mut vs: Vec<u8> = "#version 450\n#define SHADER_VS\n".as_bytes_vec();
    let mut fs: Vec<u8> = "#version 450\n#define SHADER_FS\n".as_bytes_vec();
    let ghost hv = vs@;
    let ghost hf = fs@;
    let nr = reqs.len();
    let mut i: usize = 0;
    while i < nr
        invariant
            0 <= i <= nr,
            nr == rs.len() == include_data@.len(),
            vs@ == hv + includes_upto(rs, dv, Stage::Vs, i as int),
            fs@ == hf + includes_upto(rs, dv, Stage::Fs, i as int),
        decreases nr - i,
    {
        let st = reqs[i].target;
        proof {
            assert(rs[i as int].target == st);
        }
        match st {
            Stage::Vs => push_bytes(&mut vs, &include_data[i]),
            Stage::Fs => push_bytes(&mut fs, &include_data[i]),
            Stage::Cs => {},
        }
        proof {
            assert(vs@ =~= hv + includes_upto(rs, dv, Stage::Vs, i as int + 1));
            assert(fs@ =~= hf + includes_upto(rs, dv, Stage::Fs, i as int + 1));
        }
        i = i + 1;
    }
    emit_defines(code, specialization, &mut vs, &mut fs);
    let nl = "\n".as_bytes_vec();
    push_bytes(&mut vs, &nl);
    push_bytes(&mut fs, &nl);
    let attr = "attribute".as_bytes_vec();
    let in_kw = "in".as_bytes_vec();
    let vary = "varying".as_bytes_vec();
    let out_kw = "out".as_bytes_vec();
    let tmp = replace_all(code, &attr, &in_kw);
    let vs_code = replace_all(&tmp, &vary, &out_kw);
    push_bytes(&mut vs, &vs_code);
    let fs_code = replace_all(code, &vary, &in_kw);
    push_bytes(&mut fs, &fs_code);
    proof {
        assert(vs@ =~= vs_source(code@, rs, dv, en));
        assert(fs@ =~= fs_source(code@, rs, dv, en));
    }
    Ok((vs, fs))
}

/// Assemble a compute shader source: version directive, the workgroup-size
/// declaration from the caller's 3D group size, the stage macro, then the
/// shared parts.
#[verifier::loop_isolation(false)]
pub fn build_compute(
    code: &Vec<u8>,
    include_data: &Vec<Vec<u8>>,
    specialization: &Vec<Vec<u8>>,
    group_size: (u32, u32, u32),
) -> (r: Result<Vec<u8>, ShaderError>)
    requires
        has_two_lines(code@),
        parse_reqs(inc_tokens(code@), true) matches Ok(rs) ==> include_data@.len() == rs.len(),
    ensures
        (match parse_reqs(inc_tokens(code@), true) {
            Err(e) => r matches Err(e2) && err_v(e2) == e,
            Ok(rs) => r matches Ok(b) && b@ == cs_source(
                code@, rs, deep(include_data@), deep(specialization@),
                group_size.0, group_size.1, group_size.2,
            ),
        }),
{
    let reqs = match include_requests(code, true) {
        Ok(v) => v,
        Err(e) => {
            return Err(e);
        },
    };
    let ghost rs = reqs_v(reqs@);
    let ghost dv = deep(include_data@);
    let ghost en = deep(specialization@);
    let mut cs: Vec<u8> = "#version 450\n".as_bytes_vec();
    let lx = "layout(local_size_x = ".as_bytes_vec();
    let ly = ", local_size_y = ".as_bytes_vec();
    let lz = ", local_size_z = ".as_bytes_vec();
    let lt = ") in;\n".as_bytes_vec();
    push_bytes(&mut cs, &lx);
    push_dec(&mut cs, group_size.0);
    push_bytes(&mut cs, &ly);
    push_dec(&mut cs, group_size.1);
    push_bytes(&mut cs, &lz);
    push_dec(&mut cs, group_size.2);
    push_bytes(&mut cs, &lt);
    let def_cs = "#define SHADER_CS\n".as_bytes_vec();
    push_bytes(&mut cs, &def_cs);
    let ghost hc = cs@;
    let nr = reqs.len();
    let mut i: usize = 0;
    while i < nr
        invariant
            0 <= i <= nr,
            nr == rs.len() == include_data@.len(),
            cs@ == hc + includes_upto(rs, dv, Stage::Cs, i as int),
        decreases nr - i,
    {
        let st = reqs[i].target;
        proof {
            assert(rs[i as int].target == st);
        }
        match st {
            Stage::Cs => push_bytes(&mut cs, &include_data[i]),
            Stage::Vs => {},
            Stage::Fs => {},
        }
        proof {
            assert(cs@ =~= hc + includes_upto(rs, dv, Stage::Cs, i as int + 1));
        }
        i = i + 1;
    }
    let mut unused: Vec<u8> = Vec::new();
    emit_defines(code, specialization, &mut cs, &mut unused);
    let nl = "\n".as_bytes_vec();
    push_bytes(&mut cs, &nl);
    push_bytes(&mut cs, code);
    proof {
        assert(cs@ =~= cs_source(code@, rs, dv, en, group_size.0, group_size.1, group_size.2));
    }
    Ok(cs)
}

/// The decimal line number padded to at least three columns.
pub open spec fn pad3(d: Seq<u8>) -> Seq<u8> {
    if d.len() >= 3 {
        d
    } else if d.len() == 2 {
        seq![32u8] + d
    } else {
        seq![32u8, 32u8] + d
    }
}

/// The expanded source with 1-based, width-3 line numbers, one `| `-separated
/// line per source line.
pub open spec fn listing_from(s: Seq<u8>, i: int, lineno: nat) -> Seq<u8>
    decreases s.len() - i,
    via listing_from_dec
{
    if i < 0 || i >= s.len() {
        Seq::empty()
    } else {
        let e = line_end(s, i);
        pad3(dec_digits(lineno)) + "| ".spec_bytes() + s.subrange(i, e) + seq![10u8] + (if e < s.len() {
            listing_from(s, e + 1, lineno + 1)
        } else {
            Seq::empty()
        })
    }
}

#[via_fn]
proof fn listing_from_dec(s: Seq<u8>, i: int, lineno: nat) {
    if 0 <= i && i < s.len() {
        lemma_line_end(s, i);
    }
}

/// Number the lines of an expanded stage source for a failure report.
#[verifier::loop_isolation(false)]
pub fn numbered_listing(source: &Vec<u8>) -> (r: Vec<u8>)
    requires
        source@.len() < 0xFFFF_FFFF,
    ensures
        r@ == listing_from(source@, 0, 1),
{
    let n = source.len();
    let bar = "| ".as_bytes_vec();
    let mut out: Vec<u8> = Vec::new();
    let mut i: usize = 0;
    let mut line: u32 = 1;
    while i < n
        invariant
            0 <= i <= n,
            1 <= line <= i + 1,
            out@ + listing_from(source@, i as int, line as nat) == listing_from(source@, 0, 1),
        decreases n - i,
    {
        let e = find_line_end(source, i);
        let mut dbuf: Vec<u8> = Vec::new();
        push_dec(&mut dbuf, line);
        if dbuf.len() == 1 {
            out.push(32);
            out.push(32);
        } else if dbuf.len() == 2 {
            out.push(32);
        }
        push_bytes(&mut out, &dbuf);
        push_bytes(&mut out, &bar);
        let seg = subvec(source, i, e);
        push_bytes(&mut out, &seg);
        out.push(10);
        if e < n {
            proof {
                assert(out@ + listing_from(source@, e as int + 1, line as nat + 1) =~= listing_from(
                    source@, 0, 1,
                ));
            }
            i = e + 1;
            line = line + 1;
        } else {
            proof {
                assert(out@ =~= listing_from(source@, 0, 1));
            }
            i = n;
        }
    }
    proof {
        assert(out@ =~= listing_from(source@, 0, 1));
    }
    out
}

/// The whole failure report for a rejected stage source: the numbered
/// expanded source, then the compiler's diagnostic with its escaped line
/// breaks restored, attributed to the shader's name.
pub open spec fn failure_report(name: Seq<u8>, source: Seq<u8>, log: Seq<u8>) -> Seq<u8> {
    "Generated shader:\n".spec_bytes() + listing_from(source, 0, 1) + "\nUnable to compile '".spec_bytes()
        + name + "': ".spec_bytes() + spec_replace(log, "\\n".spec_bytes(), seq![10u8])
}

pub proof fn lemma_match_shift(a: Seq<u8>, b: Seq<u8>, pat: Seq<u8>, off: int)
    requires
        match_at(b, pat, off),
    ensures
        match_at(a + b, pat, a.len() + off),
{
    assert((a + b).subrange(a.len() + off, a.len() + off + pat.len() as int) =~= b.subrange(
        off,
        off + pat.len() as int,
    ));
}

pub proof fn lemma_match_extend(b: Seq<u8>, c: Seq<u8>, pat: Seq<u8>, off: int)
    requires
        match_at(b, pat, off),
    ensures
        match_at(b + c, pat, off),
{
    assert((b + c).subrange(off, off + pat.len() as int) =~= b.subrange(off, off + pat.len() as int));
}

/// The macro line of the `k`-th declared flag occurs in the first `n`
/// emitted macro lines.
proof fn lemma_define_in_prefix(toks: Seq<Seq<u8>>, enabled: Seq<Seq<u8>>, k: int, n: int)
    requires
        0 <= k < n <= toks.len(),
    ensures
        exists|off: int| match_at(defines_upto(toks, enabled, n), define_line(toks[k], enabled), off),
    decreases n,
{
    let line = define_line(toks[k], enabled);
    let prev = defines_upto(toks, enabled, n - 1);
    if k == n - 1 {
        assert(line.subrange(0, line.len() as int) =~= line);
        assert(match_at(line, line, 0));
        lemma_match_shift(prev, line, line, 0);
        assert(match_at(defines_upto(toks, enabled, n), line, prev.len() as int));
    } else {
        lemma_define_in_prefix(toks, enabled, k, n - 1);
        let off = choose|off: int| match_at(prev, line, off);
        lemma_match_extend(prev, define_line(toks[n - 1], enabled), line, off);
        assert(match_at(defines_upto(toks, enabled, n), line, off));
    }
}

/// Every flag declared on the `specialization` line appears in both built
/// graphics stage sources as a macro definition whose value is one exactly
/// when the flag is enabled, and likewise in a built compute source.
pub proof fn lemma_flag_macro_in_sources(
    code: Seq<u8>,
    rs: Seq<ReqV>,
    data: Seq<Seq<u8>>,
    enabled: Seq<Seq<u8>>,
    k: int,
    gx: u32,
    gy: u32,
    gz: u32,
)
    requires
        0 <= k < sp_tokens(code).len(),
    ensures
        exists|off: int| match_at(
            vs_source(code, rs, data, enabled),
            define_line(sp_tokens(code)[k], enabled),
            off,
        ),
        exists|off: int| match_at(
            fs_source(code, rs, data, enabled),
            define_line(sp_tokens(code)[k], enabled),
            off,
        ),
        exists|off: int| match_at(
            cs_source(code, rs, data, enabled, gx, gy, gz),
            define_line(sp_tokens(code)[k], enabled),
            off,
        ),
{
    let toks = sp_tokens(code);
    let line = define_line(toks[k], enabled);
    let defs = defines_upto(toks, enabled, toks.len() as int);
    lemma_define_in_prefix(toks, enabled, k, toks.len() as int);
    let off = choose|off: int| match_at(defs, line, off);
    lemma_stage_body_match(code, rs, data, enabled, Stage::Vs, line, off);
    lemma_stage_body_match(code, rs, data, enabled, Stage::Fs, line, off);
    lemma_stage_body_match(code, rs, data, enabled, Stage::Cs, line, off);
    let bv = stage_body(code, rs, data, enabled, Stage::Vs);
    let ov = choose|o: int| match_at(bv, line, o);
    lemma_match_shift("#version 450\n#define SHADER_VS\n".spec_bytes(), bv, line, ov);
    assert(("#version 450\n#define SHADER_VS\n".spec_bytes() + bv) =~= vs_source(code, rs, data, enabled));
    let bf = stage_body(code, rs, data, enabled, Stage::Fs);
    let of = choose|o: int| match_at(bf, line, o);
    lemma_match_shift("#version 450\n#define SHADER_FS\n".spec_bytes(), bf, line, of);
    assert(("#version 450\n#define SHADER_FS\n".spec_bytes() + bf) =~= fs_source(code, rs, data, enabled));
    let bc = stage_body(code, rs, data, enabled, Stage::Cs);
    let oc = choose|o: int| match_at(bc, line, o);
    let hdr_c = "#version 450\n".spec_bytes() + "layout(local_size_x = ".spec_bytes() + dec_digits(gx as nat)
        + ", local_size_y = ".spec_bytes() + dec_digits(gy as nat) + ", local_size_z = ".spec_bytes()
        + dec_digits(gz as nat) + ") in;\n".spec_bytes() + "#define SHADER_CS\n".spec_bytes();
    lemma_match_shift(hdr_c, bc, line, oc);
    assert(hdr_c + bc =~= cs_source(code, rs, data, enabled, gx, gy, gz));
}

/// A match inside the emitted macro lines survives into the whole stage
/// body.
proof fn lemma_stage_body_match(
    code: Seq<u8>,
    rs: Seq<ReqV>,
    data: Seq<Seq<u8>>,
    enabled: Seq<Seq<u8>>,
    st: Stage,
    pat: Seq<u8>,
    off: int,
)
    requires
        match_at(defines_upto(sp_tokens(code), enabled, sp_tokens(code).len() as int), pat, off),
    ensures
        exists|o: int| match_at(stage_body(code, rs, data, enabled, st), pat, o),
{
    let incs = includes_upto(rs, data, st, rs.len() as int);
    let defs = defines_upto(sp_tokens(code), enabled, sp_tokens(code).len() as int);
    lemma_match_shift(incs, defs, pat, off);
    lemma_match_extend(incs + defs, "\n".spec_bytes(), pat, incs.len() + off);
    lemma_match_extend((incs + defs) + "\n".spec_bytes(), rewritten(code, st), pat, incs.len() + off);
    assert(((incs + defs) + "\n".spec_bytes()) + rewritten(code, st) =~= stage_body(code, rs, data, enabled, st));
    assert(match_at(stage_body(code, rs, data, enabled, st), pat, incs.len() + off));
}

/// Render the report the embedding shows before treating a compile failure
/// as fatal.
pub fn compile_failure_report(name: &Vec<u8>, source: &Vec<u8>, log: &Vec<u8>) -> (r: Vec<u8>)
    requires
        source@.len() < 0xFFFF_FFFF,
    ensures
        r@ == failure_report(name@, source@, log@),
{
    let mut out: Vec<u8> = "Generated shader:\n".as_bytes_vec();
    let listing = numbered_listing(source);
    push_bytes(&mut out, &listing);
    let mid = "\nUnable to compile '".as_bytes_vec();
    push_bytes(&mut out, &mid);
    push_bytes(&mut out, name);
    let sep = "': ".as_bytes_vec();
    push_bytes(&mut out, &sep);
    let esc = "\\n".as_bytes_vec();
    let mut nl: Vec<u8> = Vec::new();
    nl.push(10);
    let msg = replace_all(log, &esc, &nl);
    push_bytes(&mut out, &msg);
    proof {
        assert(nl@ =~= seq![10u8]);
        assert(out@ =~= failure_report(name@, source@, log@));
    }
    out
}

} // verus!
