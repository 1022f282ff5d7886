//! The executable splicing engine, verified against the specification
//! in [`crate::splice`].

use vstd::prelude::*;

use crate::fold::to_lower;
use crate::fold::to_upper;
use crate::splice::concat_from;
use crate::splice::concat_unit;
use crate::splice::env_of_seq;
use crate::splice::env_of_tok;
use crate::splice::is_ident_byte;
use crate::splice::lower_name;
use crate::splice::open_marked;
use crate::splice::resolve_span;
use crate::splice::rewrite_seq;
use crate::splice::rewrite_tok;
use crate::splice::span_name;
use crate::splice::spec_paste;
use crate::splice::upper_name;
use crate::splice::well_closed;
use crate::splice::SpliceError;
use crate::token::tok_view;
use crate::token::toks_view;
use crate::token::Delim;
use crate::token::LitKind;
use crate::token::Token;
use crate::token::TokenView;

verus! {

broadcast use crate::token::lemma_toks_view_len, crate::token::lemma_toks_view_index;

/// The mathematical value of an exec span environment.
pub open spec fn env_view(e: Seq<(Vec<u8>, u64)>) -> Seq<(Seq<u8>, u64)> {
    e.map_values(|p: (Vec<u8>, u64)| (p.0@, p.1))
}

/// The mathematical value of an open fragment accumulator.
pub open spec fn seg_view(c: Option<(Vec<u8>, u64)>) -> Option<(Seq<u8>, u64)> {
    match c {
        Some(p) => Some((p.0@, p.1)),
        None => None,
    }
}

/// The mathematical value of a token result.
pub open spec fn tok_result_view(r: Result<Token, SpliceError>) -> Result<
    TokenView,
    SpliceError,
> {
    match r {
        Ok(t) => Ok(tok_view(t)),
        Err(e) => Err(e),
    }
}

/// The mathematical value of a sequence result.
pub open spec fn seq_result_view(r: Result<Vec<Token>, SpliceError>) -> Result<
    Seq<TokenView>,
    SpliceError,
> {
    match r {
        Ok(v) => Ok(toks_view(v@)),
        Err(e) => Err(e),
    }
}

pub proof fn lemma_env_of_seq_concat(a: Seq<TokenView>, b: Seq<TokenView>)
    ensures
        env_of_seq(a + b) == env_of_seq(a) + env_of_seq(b),
    decreases a,
{
    if a.len() == 0 {
        assert(a + b =~= b);
        assert(env_of_seq(a) + env_of_seq(b) =~= env_of_seq(b));
    } else {
        assert((a + b).drop_first() =~= a.drop_first() + b);
        assert((a + b)[0] == a[0]);
        lemma_env_of_seq_concat(a.drop_first(), b);
        assert(env_of_tok(a[0]) + (env_of_seq(a.drop_first()) + env_of_seq(b)) =~= (env_of_tok(a[0])
            + env_of_seq(a.drop_first())) + env_of_seq(b));
    }
}

/// Collects the identifiers of `t` into `out`, in document order.
fn collect_env_tok(t: &Token, out: &mut Vec<(Vec<u8>, u64)>)
    ensures
        env_view(final(out)@) == env_view(old(out)@) + env_of_tok(tok_view(*t)),
    decreases *t, 0int,
{
    match t {
        Token::Ident { text, span } => {
            let copy = copy_bytes(text);
            out.push((copy, *span));
            assert(env_view(out@) =~= env_view(old(out)@) + env_of_tok(tok_view(*t)));
        },
        Token::Group { delim, tokens, .. } => {
            if is_open_marked_exec(*delim, tokens) {
                assert(env_view(out@) =~= env_view(old(out)@) + env_of_tok(tok_view(*t)));
            } else {
                collect_env_from(tokens, 0, out);
                assert(toks_view(tokens@).skip(0) =~= toks_view(tokens@));
            }
        },
        _ => {
            assert(env_view(out@) =~= env_view(old(out)@) + env_of_tok(tok_view(*t)));
        },
    }
}

/// Collects the identifiers of `ts[i..]` into `out`, in document order.
fn collect_env_from(ts: &Vec<Token>, i: usize, out: &mut Vec<(Vec<u8>, u64)>)
    requires
        i <= ts@.len(),
    ensures
        env_view(final(out)@) == env_view(old(out)@) + env_of_seq(toks_view(ts@).skip(i as int)),
    decreases ts@, (ts@.len() - i),
{
    if i < ts.len() {
        collect_env_tok(&ts[i], out);
        collect_env_from(ts, i + 1, out);
        proof {
            let v = toks_view(ts@);
            assert(v.skip(i as int) =~= seq![v[i as int]] + v.skip(i + 1));
            lemma_env_of_seq_concat(seq![v[i as int]], v.skip(i + 1));
            assert(seq![v[i as int]].drop_first() =~= Seq::<TokenView>::empty());
            assert(env_of_tok(v[i as int]) + env_of_seq(Seq::<TokenView>::empty()) =~= env_of_tok(
                v[i as int],
            ));
            assert(env_of_seq(seq![v[i as int]]) == env_of_tok(v[i as int]));
        }
    } else {
        assert(toks_view(ts@).skip(i as int) =~= Seq::<TokenView>::empty());
    }
}

/// A fresh vector holding the same bytes.
fn copy_bytes(v: &Vec<u8>) -> (r: Vec<u8>)
    ensures
        r@ == v@,
{
    let mut r: Vec<u8> = Vec::new();
    let mut i: usize = 0;
    while i < v.len()
        invariant
            i <= v@.len(),
            r@ == v@.take(i as int),
        decreases v@.len() - i,
    {
        r.push(v[i]);
        assert(r@ =~= v@.take(i + 1));
        i = i + 1;
    }
    assert(r@ =~= v@);
    r
}

/// Resolves a `span` reference: the tag of the first identifier of the
/// environment carrying the referenced name.
fn resolve_exec(env: &Vec<(Vec<u8>, u64)>, name: &Vec<u8>) -> (r: Option<u64>)
    ensures
        r == resolve_span(env_view(env@), name@),
{
    let ghost e = env_view(env@);
    proof {
        assert(e.skip(0) =~= e);
    }
    let mut i: usize = 0;
    while i < env.len()
        invariant
            i <= env@.len(),
            e == env_view(env@),
            resolve_span(e, name@) == resolve_span(e.skip(i as int), name@),
        decreases env@.len() - i,
    {
        let p = &env[i];
        let hit = bytes_eq(&p.0, name);
        proof {
            assert(e.skip(i as int).drop_first() =~= e.skip(i + 1));
            assert(e.skip(i as int)[0] == e[i as int]);
        }
        if hit {
            return Some(p.1);
        }
        i = i + 1;
    }
    proof {
        assert(e.skip(i as int) =~= Seq::<(Seq<u8>, u64)>::empty());
    }
    None
}

/// Whether `v` spells the `lower` modifier name.
fn matches_lower(v: &Vec<u8>) -> (r: bool)
    ensures
        r == (v@ == lower_name()),
{
    let r = v.len() == 5 && v[0] == 'l' as u8 && v[1] == 'o' as u8 && v[2] == 'w' as u8 && v[3]
        == 'e' as u8 && v[4] == 'r' as u8;
    proof {
        if r {
            assert(v@ =~= lower_name());
        } else {
            assert(v@ != lower_name());
        }
    }
    r
}

/// Whether `v` spells the `upper` modifier name.
fn matches_upper(v: &Vec<u8>) -> (r: bool)
    ensures
        r == (v@ == upper_name()),
{
    let r = v.len() == 5 && v[0] == 'u' as u8 && v[1] == 'p' as u8 && v[2] == 'p' as u8 && v[3]
        == 'e' as u8 && v[4] == 'r' as u8;
    proof {
        if r {
            assert(v@ =~= upper_name());
        } else {
            assert(v@ != upper_name());
        }
    }
    r
}

/// Whether `v` spells the `span` modifier name.
fn matches_span(v: &Vec<u8>) -> (r: bool)
    ensures
        r == (v@ == span_name()),
{
    let r = v.len() == 4 && v[0] == 's' as u8 && v[1] == 'p' as u8 && v[2] == 'a' as u8 && v[3]
        == 'n' as u8;
    proof {
        if r {
            assert(v@ =~= span_name());
        } else {
            assert(v@ != span_name());
        }
    }
    r
}

/// Whether every byte of `v` may stand in an identifier.
fn all_ident_bytes(v: &Vec<u8>) -> (r: bool)
    ensures
        r == (forall|j: int| 0 <= j < v@.len() ==> is_ident_byte(#[trigger] v@[j])),
{
    let mut i: usize = 0;
    while i < v.len()
        invariant
            i <= v@.len(),
            forall|j: int| 0 <= j < i ==> is_ident_byte(#[trigger] v@[j]),
        decreases v@.len() - i,
    {
        let b = v[i];
        let ok = ('a' as u8 <= b && b <= 'z' as u8) || ('A' as u8 <= b && b <= 'Z' as u8) || ('0'
            as u8 <= b && b <= '9' as u8) || b == '_' as u8;
        if !ok {
            return false;
        }
        i = i + 1;
    }
    true
}

/// Structural equality of two byte vectors.
fn bytes_eq(a: &Vec<u8>, b: &Vec<u8>) -> (r: bool)
    ensures
        r == (a@ == b@),
{
    if a.len() != b.len() {
        return false;
    }
    let mut i: usize = 0;
    while i < a.len()
        invariant
            i <= a@.len(),
            a@.len() == b@.len(),
            forall|j: int| 0 <= j < i ==> a@[j] == b@[j],
        decreases a@.len() - i,
    {
        if a[i] != b[i] {
            return false;
        }
        i = i + 1;
    }
    proof {
        assert(a@ =~= b@);
    }
    true
}

/// Whether `delim` and `ts` shape a group that begins with the
/// splice-open marker.
fn is_open_marked_exec(delim: Delim, ts: &Vec<Token>) -> (r: bool)
    ensures
        r == open_marked(delim, toks_view(ts@)),
{
    let is_bracket = match delim {
        Delim::Bracket => true,
        _ => false,
    };
    if !is_bracket {
        return false;
    }
    if ts.len() == 0 {
        return false;
    }
    match &ts[0] {
        Token::Punct { ch, .. } => *ch == '<' as u8,
        _ => false,
    }
}

/// Whether the group's token list ends with the splice-close marker.
fn is_well_closed_exec(ts: &Vec<Token>) -> (r: bool)
    ensures
        r == well_closed(toks_view(ts@)),
{
    if ts.len() < 2 {
        return false;
    }
    match &ts[ts.len() - 1] {
        Token::Punct { ch, .. } => *ch == '>' as u8,
        _ => false,
    }
}

/// Resolves one splice unit: folds its fragments left to right into a
/// single identifier, as [`concat_unit`] states.
#[verifier::loop_isolation(false)]
fn concat_exec(unit: Vec<Token>, gspan: u64, env: &Vec<(Vec<u8>, u64)>) -> (r: Result<
    Token,
    SpliceError,
>)
    ensures
        tok_result_view(r) == concat_unit(toks_view(unit@), gspan, env_view(env@)),
{
    let ghost u0 = toks_view(unit@);
    let ghost envv = env_view(env@);
    let mut rest = unit;
    let mut done: Vec<u8> = Vec::new();
    let mut cur: Option<(Vec<u8>, u64)> = None;
    let mut ovr: Option<u64> = None;
    proof {
        assert(done@ =~= Seq::<u8>::empty());
    }
    while rest.len() > 0
        invariant
            envv == env_view(env@),
            concat_from(toks_view(rest@), done@, seg_view(cur), ovr, gspan, envv) == concat_from(
                u0,
                Seq::empty(),
                None,
                None,
                gspan,
                envv,
            ),
        decreases rest@.len(),
    {
        let ghost rv = toks_view(rest@);
        let ghost done0 = done@;
        let ghost cur0 = seg_view(cur);
        let t = rest.remove(0);
        proof {
            assert(toks_view(rest@) =~= rv.drop_first());
            assert(rv[0] == tok_view(t));
        }
        match t {
            Token::Ident { text, span } => {
                match cur {
                    Some((ct, _)) => {
                        let mut c = ct;
                        done.append(&mut c);
                    },
                    None => {},
                }
                cur = Some((text, span));
            },
            Token::Lit { text, kind, span } => {
                match kind {
                    LitKind::Integer => {
                        match cur {
                            Some((ct, _)) => {
                                let mut c = ct;
                                done.append(&mut c);
                            },
                            None => {},
                        }
                        cur = Some((text, span));
                    },
                    LitKind::Str => {
                        if all_ident_bytes(&text) {
                            match cur {
                                Some((ct, _)) => {
                                    let mut c = ct;
                                    done.append(&mut c);
                                },
                                None => {},
                            }
                            cur = Some((text, span));
                        } else {
                            return Err(SpliceError::UnsupportedFragmentKind { span });
                        }
                    },
                    LitKind::Float => {
                        proof {
                            assert(concat_from(rv, done0, cur0, ovr, gspan, envv) == Err::<
                                TokenView,
                                SpliceError,
                            >(SpliceError::UnsupportedFragmentKind { span }));
                        }
                        return Err(SpliceError::UnsupportedFragmentKind { span });
                    },
                }
            },
            Token::Punct { ch, span } => {
                if ch == ':' as u8 {
                    proof {
                        assert(concat_from(rv, done0, cur0, ovr, gspan, envv) == crate::splice::concat_modifier(
                            rv,
                            done0,
                            cur0,
                            ovr,
                            gspan,
                            envv,
                            span,
                        ));
                    }
                    if rest.len() == 0 {
                        return Err(SpliceError::MalformedSpliceSyntax { span });
                    }
                    let m = rest.remove(0);
                    proof {
                        assert(toks_view(rest@) =~= rv.skip(2));
                        assert(rv.drop_first()[0] == tok_view(m));
                        assert(rv[1] == tok_view(m));
                    }
                    match m {
                        Token::Ident { text: mtext, span: mspan } => {
                            match cur {
                                None => {
                                    return Err(SpliceError::MalformedSpliceSyntax { span });
                                },
                                Some((ct, csp)) => {
                                    if matches_lower(&mtext) {
                                        let lc = to_lower(&ct);
                                        cur = Some((lc, csp));
                                    } else if matches_upper(&mtext) {
                                        let uc = to_upper(&ct);
                                        cur = Some((uc, csp));
                                    } else if matches_span(&mtext) {
                                        cur = Some((ct, csp));
                                        if rest.len() == 0 {
                                            return Err(
                                                SpliceError::MalformedSpliceSyntax { span: mspan },
                                            );
                                        }
                                        let g = rest.remove(0);
                                        proof {
                                            assert(toks_view(rest@) =~= rv.skip(3));
                                            assert(rv.skip(2)[0] == tok_view(g));
                                            assert(rv[2] == tok_view(g));
                                        }
                                        match g {
                                            Token::Group { delim, tokens: args, span: gsp } => {
                                                proof {
                                                    assert(rv[2] == TokenView::Group {
                                                        delim,
                                                        tokens: toks_view(args@),
                                                        span: gsp,
                                                    });
                                                    assert(toks_view(args@).len() == args@.len());
                                                    if args@.len() > 0 {
                                                        assert(toks_view(args@)[0] == tok_view(
                                                            args@[0],
                                                        ));
                                                    }
                                                }
                                                let is_paren = match delim {
                                                    Delim::Paren => true,
                                                    _ => false,
                                                };
                                                if is_paren && args.len() == 1 {
                                                    match &args[0] {
                                                        Token::Ident { text: rname, .. } => {
                                                            match resolve_exec(env, rname) {
                                                                Some(s) => {
                                                                    ovr = Some(s);
                                                                },
                                                                None => {
                                                                    return Err(
                                                                        SpliceError::UnresolvedSpanReference {
                                                                            span: mspan,
                                                                        },
                                                                    );
                                                                },
                                                            }
                                                        },
                                                        _ => {
                                                            return Err(
                                                                SpliceError::MalformedSpliceSyntax {
                                                                    span: mspan,
                                                                },
                                                            );
                                                        },
                                                    }
                                                } else {
                                                    return Err(
                                                        SpliceError::MalformedSpliceSyntax {
                                                            span: mspan,
                                                        },
                                                    );
                                                }
                                            },
                                            _ => {
                                                return Err(
                                                    SpliceError::MalformedSpliceSyntax {
                                                        span: mspan,
                                                    },
                                                );
                                            },
                                        }
                                    } else {
                                        return Err(SpliceError::UnknownModifier { span: mspan });
                                    }
                                },
                            }
                        },
                        _ => {
                            return Err(SpliceError::MalformedSpliceSyntax { span });
                        },
                    }
                } else {
                    proof {
                        assert(concat_from(rv, done0, cur0, ovr, gspan, envv) == Err::<
                            TokenView,
                            SpliceError,
                        >(SpliceError::UnsupportedFragmentKind { span }));
                    }
                    return Err(SpliceError::UnsupportedFragmentKind { span });
                }
            },
            Token::Group { delim, tokens, span } => {
                if is_open_marked_exec(delim, &tokens) {
                    return Err(SpliceError::MalformedSpliceSyntax { span });
                } else {
                    return Err(SpliceError::UnsupportedFragmentKind { span });
                }
            },
        }
    }
    proof {
        assert(toks_view(rest@) =~= Seq::<TokenView>::empty());
    }
    match cur {
        Some((ct, _)) => {
            let mut c = ct;
            done.append(&mut c);
            let sp = match ovr {
                Some(s) => s,
                None => gspan,
            };
            Ok(Token::Ident { text: done, span: sp })
        },
        None => Err(SpliceError::EmptySpliceUnit { span: gspan }),
    }
}

/// Rewrites one token: a splice unit resolves, an ordinary group is
/// rebuilt around its rewritten children, anything else is returned
/// unchanged.
fn expand_tok(t: Token, env: &Vec<(Vec<u8>, u64)>) -> (r: Result<Token, SpliceError>)
    ensures
        tok_result_view(r) == rewrite_tok(tok_view(t), env_view(env@)),
    decreases t, 1int,
{
    match t {
        Token::Group { delim, tokens, span } => {
            if is_open_marked_exec(delim, &tokens) {
                if is_well_closed_exec(&tokens) {
                    let ghost tv = toks_view(tokens@);
                    let mut unit = tokens;
                    let _last = unit.pop();
                    let body = unit.split_off(1);
                    proof {
                        assert(toks_view(body@) =~= tv.subrange(1, tv.len() - 1));
                    }
                    concat_exec(body, span, env)
                } else {
                    Err(SpliceError::MalformedSpliceSyntax { span })
                }
            } else {
                match expand_seq(tokens, env) {
                    Ok(rs) => Ok(Token::Group { delim, tokens: rs, span }),
                    Err(e) => Err(e),
                }
            }
        },
        other => Ok(other),
    }
}

/// Rewrites every token of the sequence, stopping at the first fault in
/// document order.
fn expand_seq(ts: Vec<Token>, env: &Vec<(Vec<u8>, u64)>) -> (r: Result<Vec<Token>, SpliceError>)
    ensures
        seq_result_view(r) == rewrite_seq(toks_view(ts@), env_view(env@)),
    decreases ts@, 0int,
{
    let ghost v = toks_view(ts@);
    if ts.len() == 0 {
        let out: Vec<Token> = Vec::new();
        proof {
            assert(toks_view(out@) =~= Seq::<TokenView>::empty());
        }
        return Ok(out);
    }
    let mut work = ts;
    let t0 = work.remove(0);
    proof {
        assert(toks_view(work@) =~= v.drop_first());
        assert(v[0] == tok_view(t0));
    }
    match expand_tok(t0, env) {
        Err(e) => Err(e),
        Ok(r0) => {
            match expand_seq(work, env) {
                Err(e) => Err(e),
                Ok(rs) => {
                    let mut out = rs;
                    out.insert(0, r0);
                    proof {
                        assert(out@.drop_first() =~= rs@);
                        assert(out@[0] == r0);
                        assert(toks_view(out@) =~= seq![tok_view(r0)] + toks_view(rs@));
                    }
                    Ok(out)
                },
            }
        },
    }
}

/// The engine's entry point: returns `input` with every splice unit
/// replaced by its resolved identifier, or the first fault in document
/// order.  Span references resolve against the identifiers of `input`
/// itself, in document order.
pub fn paste(input: Vec<Token>) -> (r: Result<Vec<Token>, SpliceError>)
    ensures
        seq_result_view(r) == spec_paste(toks_view(input@)),
{
    let ghost v = toks_view(input@);
    let mut env: Vec<(Vec<u8>, u64)> = Vec::new();
    proof {
        assert(env_view(Seq::<(Vec<u8>, u64)>::empty()) =~= Seq::<(Seq<u8>, u64)>::empty());
    }
    collect_env_from(&input, 0, &mut env);
    proof {
        assert(v.skip(0) =~= v);
        assert(Seq::<(Seq<u8>, u64)>::empty() + env_of_seq(v) =~= env_of_seq(v));
    }
    expand_seq(input, &env)
}

} // verus!
