//! General properties of the splicing engine, proved against the
//! specification in [`crate::splice`].

use vstd::prelude::*;

use crate::splice::concat_from;
use crate::splice::concat_modifier;
use crate::splice::concat_unit;
use crate::splice::env_of_seq;
use crate::splice::marker_free_seq;
use crate::splice::marker_free_tok;
use crate::splice::open_marked;
use crate::splice::rewrite_seq;
use crate::splice::rewrite_tok;
use crate::splice::span_name;
use crate::splice::spec_paste;
use crate::splice::well_closed;
use crate::splice::SpliceError;
use crate::token::TokenView;

verus! {

/// A successful rewrite works token by token: the output has one token
/// for each input token, each the rewrite of the token it replaces.
pub proof fn lemma_rewrite_seq_elementwise(ts: Seq<TokenView>, env: Seq<(Seq<u8>, u64)>)
    ensures
        rewrite_seq(ts, env) matches Ok(rs) ==> rs.len() == ts.len() && forall|i: int|
            0 <= i < ts.len() ==> rewrite_tok(#[trigger] ts[i], env) == Ok::<TokenView, SpliceError>(rs[i]),
    decreases ts,
{
    if ts.len() > 0 {
        lemma_rewrite_seq_elementwise(ts.drop_first(), env);
        if let Ok(rs) = rewrite_seq(ts, env) {
            let rest = rewrite_seq(ts.drop_first(), env)->Ok_0;
            assert forall|i: int| 0 <= i < ts.len() implies rewrite_tok(#[trigger] ts[i], env)
                == Ok::<TokenView, SpliceError>(rs[i]) by {
                if i > 0 {
                    assert(ts.drop_first()[i - 1] == ts[i]);
                    assert(rs[i] == rest[i - 1]);
                }
            }
        }
    }
}

/// If any token of the sequence fails to rewrite, the whole sequence
/// fails.
pub proof fn lemma_rewrite_seq_err(ts: Seq<TokenView>, env: Seq<(Seq<u8>, u64)>, i: int)
    requires
        0 <= i < ts.len(),
        rewrite_tok(ts[i], env) is Err,
    ensures
        rewrite_seq(ts, env) is Err,
    decreases ts,
{
    if i > 0 {
        assert(ts.drop_first()[i - 1] == ts[i]);
        lemma_rewrite_seq_err(ts.drop_first(), env, i - 1);
    }
}

/// A token free of splice markers rewrites to itself.
pub proof fn lemma_rewrite_tok_marker_free(t: TokenView, env: Seq<(Seq<u8>, u64)>)
    requires
        marker_free_tok(t),
    ensures
        rewrite_tok(t, env) == Ok::<TokenView, SpliceError>(t),
    decreases t,
{
    match t {
        TokenView::Group { delim, tokens, span } => {
            lemma_rewrite_seq_marker_free(tokens, env);
        },
        _ => {},
    }
}

/// A sequence free of splice markers rewrites to itself.
pub proof fn lemma_rewrite_seq_marker_free(ts: Seq<TokenView>, env: Seq<(Seq<u8>, u64)>)
    requires
        marker_free_seq(ts),
    ensures
        rewrite_seq(ts, env) == Ok::<Seq<TokenView>, SpliceError>(ts),
    decreases ts,
{
    if ts.len() > 0 {
        lemma_rewrite_tok_marker_free(ts[0], env);
        lemma_rewrite_seq_marker_free(ts.drop_first(), env);
        assert(seq![ts[0]] + ts.drop_first() =~= ts);
    } else {
        assert(ts =~= Seq::<TokenView>::empty());
    }
}

/// A successful fragment fold always yields an identifier token.
proof fn lemma_concat_from_ident(
    unit: Seq<TokenView>,
    done: Seq<u8>,
    cur: Option<(Seq<u8>, u64)>,
    ovr: Option<u64>,
    gspan: u64,
    env: Seq<(Seq<u8>, u64)>,
)
    ensures
        concat_from(unit, done, cur, ovr, gspan, env) matches Ok(r) ==> r is Ident,
    decreases unit.len(), 1int,
{
    if unit.len() > 0 {
        let done1: Seq<u8> = match cur {
            Some(c) => done + c.0,
            None => done,
        };
        match unit[0] {
            TokenView::Ident { text, span } => {
                lemma_concat_from_ident(unit.drop_first(), done1, Some((text, span)), ovr, gspan, env);
            },
            TokenView::Lit { text, kind, span } => {
                if let Some(rt) = crate::splice::render_lit(text, kind) {
                    lemma_concat_from_ident(
                        unit.drop_first(),
                        done1,
                        Some((rt, span)),
                        ovr,
                        gspan,
                        env,
                    );
                }
            },
            TokenView::Punct { ch, span } => {
                if ch == ':' as u8 {
                    lemma_concat_modifier_ident(unit, done, cur, ovr, gspan, env, span);
                }
            },
            TokenView::Group { .. } => {},
        }
    }
}

proof fn lemma_concat_modifier_ident(
    unit: Seq<TokenView>,
    done: Seq<u8>,
    cur: Option<(Seq<u8>, u64)>,
    ovr: Option<u64>,
    gspan: u64,
    env: Seq<(Seq<u8>, u64)>,
    cspan: u64,
)
    ensures
        concat_modifier(unit, done, cur, ovr, gspan, env, cspan) matches Ok(r) ==> r is Ident,
    decreases unit.len(), 0int,
{
    if unit.len() >= 2 && unit[1] is Ident && cur is Some {
        let mname = unit[1]->Ident_text;
        let c = cur->Some_0;
        if mname == crate::splice::lower_name() {
            lemma_concat_from_ident(
                unit.skip(2),
                done,
                Some((crate::fold::lower_bytes(c.0), c.1)),
                ovr,
                gspan,
                env,
            );
        } else if mname == crate::splice::upper_name() {
            lemma_concat_from_ident(
                unit.skip(2),
                done,
                Some((crate::fold::upper_bytes(c.0), c.1)),
                ovr,
                gspan,
                env,
            );
        } else if mname == span_name() {
            if let Some(rname) = crate::splice::span_arg(unit) {
                if let Some(s) = crate::splice::resolve_span(env, rname) {
                    lemma_concat_from_ident(unit.skip(3), done, cur, Some(s), gspan, env);
                }
            }
        }
    }
}

/// A successful rewrite of one token leaves no splice marker in it, and
/// touches no punctuation token: punctuation comes out exactly as it
/// went in.
pub proof fn lemma_rewrite_tok_output(t: TokenView, env: Seq<(Seq<u8>, u64)>)
    ensures
        rewrite_tok(t, env) matches Ok(r) ==> marker_free_tok(r),
        rewrite_tok(t, env) matches Ok(r) ==> (r is Punct <==> t is Punct),
        t is Punct && rewrite_tok(t, env) is Ok ==> rewrite_tok(t, env) == Ok::<TokenView, SpliceError>(t),
    decreases t,
{
    match t {
        TokenView::Group { delim, tokens, span } => {
            if open_marked(delim, tokens) {
                if well_closed(tokens) {
                    lemma_concat_from_ident(
                        tokens.subrange(1, tokens.len() - 1),
                        Seq::empty(),
                        None,
                        None,
                        span,
                        env,
                    );
                }
            } else {
                if let Ok(rs) = rewrite_seq(tokens, env) {
                    lemma_rewrite_seq_output(tokens, env);
                    lemma_rewrite_seq_elementwise(tokens, env);
                    if tokens.len() > 0 {
                        lemma_rewrite_tok_output(tokens[0], env);
                        assert(!open_marked(delim, rs));
                    }
                }
            }
        },
        _ => {},
    }
}

/// A successful rewrite of a sequence leaves no splice marker in it and
/// keeps its length.
pub proof fn lemma_rewrite_seq_output(ts: Seq<TokenView>, env: Seq<(Seq<u8>, u64)>)
    ensures
        rewrite_seq(ts, env) matches Ok(rs) ==> marker_free_seq(rs) && rs.len() == ts.len(),
    decreases ts,
{
    if ts.len() > 0 {
        lemma_rewrite_tok_output(ts[0], env);
        lemma_rewrite_seq_output(ts.drop_first(), env);
        if let Ok(rs) = rewrite_seq(ts, env) {
            let r0 = rewrite_tok(ts[0], env)->Ok_0;
            let rest = rewrite_seq(ts.drop_first(), env)->Ok_0;
            assert(rs == seq![r0] + rest);
            assert(rs[0] == r0);
            assert(rs.drop_first() =~= rest);
        }
    }
}

/// Idempotence, stated on the input: a sequence already free of splice
/// markers is returned identically.
pub proof fn lemma_paste_marker_free(ts: Seq<TokenView>)
    requires
        marker_free_seq(ts),
    ensures
        spec_paste(ts) == Ok::<Seq<TokenView>, SpliceError>(ts),
{
    lemma_rewrite_seq_marker_free(ts, env_of_seq(ts));
}

/// Idempotence, stated on the output: whatever the engine produced, a
/// second run returns it unchanged, since no splice marker survives a
/// successful run.
pub proof fn lemma_paste_idempotent(ts: Seq<TokenView>, rs: Seq<TokenView>)
    requires
        spec_paste(ts) == Ok::<Seq<TokenView>, SpliceError>(rs),
    ensures
        spec_paste(rs) == Ok::<Seq<TokenView>, SpliceError>(rs),
{
    lemma_rewrite_seq_output(ts, env_of_seq(ts));
    lemma_paste_marker_free(rs);
}

/// Non-interference: the output has one token per input token, and
/// every input token free of splice markers stands in the output
/// byte for byte, at its original position.
pub proof fn lemma_paste_non_interference(ts: Seq<TokenView>, rs: Seq<TokenView>)
    requires
        spec_paste(ts) == Ok::<Seq<TokenView>, SpliceError>(rs),
    ensures
        rs.len() == ts.len(),
        forall|i: int| 0 <= i < ts.len() && marker_free_tok(#[trigger] ts[i]) ==> rs[i] == ts[i],
{
    let env = env_of_seq(ts);
    lemma_rewrite_seq_elementwise(ts, env);
    assert forall|i: int| 0 <= i < ts.len() && marker_free_tok(#[trigger] ts[i]) implies rs[i]
        == ts[i] by {
        lemma_rewrite_tok_marker_free(ts[i], env);
    }
}

/// Malformed input: a sequence holding a splice-open marker with no
/// matching close at any top-level position is rejected as a whole;
/// the engine hands back no output tokens.
pub proof fn lemma_paste_rejects_unclosed(ts: Seq<TokenView>, i: int)
    requires
        0 <= i < ts.len(),
        ts[i] matches TokenView::Group { delim, tokens, .. } && open_marked(delim, tokens)
            && !well_closed(tokens),
    ensures
        spec_paste(ts) is Err,
{
    lemma_rewrite_seq_err(ts, env_of_seq(ts), i);
}

/// The rejection of one unmatched open marker, with its diagnostic: the
/// fault is attributed to the marker group's own provenance tag.
pub proof fn lemma_unclosed_open_error(t: TokenView, env: Seq<(Seq<u8>, u64)>)
    requires
        t matches TokenView::Group { delim, tokens, .. } && open_marked(delim, tokens)
            && !well_closed(tokens),
    ensures
        rewrite_tok(t, env) == Err::<TokenView, SpliceError>(
            SpliceError::MalformedSpliceSyntax { span: t->Group_span },
        ),
{
}

/// No token of the unit names the `span` modifier.
pub open spec fn no_span_mention(unit: Seq<TokenView>) -> bool {
    forall|i: int|
        0 <= i < unit.len() ==> !((#[trigger] unit[i]) matches TokenView::Ident { text, .. }
            && text == span_name())
}

proof fn lemma_concat_from_span(
    unit: Seq<TokenView>,
    done: Seq<u8>,
    cur: Option<(Seq<u8>, u64)>,
    gspan: u64,
    env: Seq<(Seq<u8>, u64)>,
)
    requires
        no_span_mention(unit),
    ensures
        concat_from(unit, done, cur, None, gspan, env) matches Ok(r) ==> r is Ident
            && r->Ident_span == gspan,
    decreases unit.len(), 1int,
{
    if unit.len() > 0 {
        let done1: Seq<u8> = match cur {
            Some(c) => done + c.0,
            None => done,
        };
        assert forall|i: int| 0 <= i < unit.drop_first().len() implies !((#[trigger] unit.drop_first()[i])
            matches TokenView::Ident { text, .. } && text == span_name()) by {
            assert(unit.drop_first()[i] == unit[i + 1]);
        }
        match unit[0] {
            TokenView::Ident { text, span } => {
                lemma_concat_from_span(unit.drop_first(), done1, Some((text, span)), gspan, env);
            },
            TokenView::Lit { text, kind, span } => {
                if let Some(rt) = crate::splice::render_lit(text, kind) {
                    lemma_concat_from_span(unit.drop_first(), done1, Some((rt, span)), gspan, env);
                }
            },
            TokenView::Punct { ch, span } => {
                if ch == ':' as u8 {
                    lemma_concat_modifier_span(unit, done, cur, gspan, env, span);
                }
            },
            TokenView::Group { .. } => {},
        }
    }
}

proof fn lemma_concat_modifier_span(
    unit: Seq<TokenView>,
    done: Seq<u8>,
    cur: Option<(Seq<u8>, u64)>,
    gspan: u64,
    env: Seq<(Seq<u8>, u64)>,
    cspan: u64,
)
    requires
        no_span_mention(unit),
    ensures
        concat_modifier(unit, done, cur, None, gspan, env, cspan) matches Ok(r) ==> r is Ident
            && r->Ident_span == gspan,
    decreases unit.len(), 0int,
{
    if unit.len() >= 2 && unit[1] is Ident && cur is Some {
        let mname = unit[1]->Ident_text;
        let c = cur->Some_0;
        assert(mname != span_name());
        assert forall|i: int| 0 <= i < unit.skip(2).len() implies !((#[trigger] unit.skip(2)[i])
            matches TokenView::Ident { text, .. } && text == span_name()) by {
            assert(unit.skip(2)[i] == unit[i + 2]);
        }
        if mname == crate::splice::lower_name() {
            lemma_concat_from_span(
                unit.skip(2),
                done,
                Some((crate::fold::lower_bytes(c.0), c.1)),
                gspan,
                env,
            );
        } else if mname == crate::splice::upper_name() {
            lemma_concat_from_span(
                unit.skip(2),
                done,
                Some((crate::fold::upper_bytes(c.0), c.1)),
                gspan,
                env,
            );
        }
    }
}

/// Round-trip span preservation: a splice unit in which no fragment
/// carries a `span` modifier resolves to an identifier tagged with the
/// provenance of the unit's own enclosing markers.
pub proof fn lemma_concat_span_preserved(
    unit: Seq<TokenView>,
    gspan: u64,
    env: Seq<(Seq<u8>, u64)>,
)
    requires
        no_span_mention(unit),
    ensures
        concat_unit(unit, gspan, env) matches Ok(r) ==> r is Ident && r->Ident_span == gspan,
{
    lemma_concat_from_span(unit, Seq::empty(), None, gspan, env);
}

/// Conflicting case modifiers on one fragment: the one applied last
/// wins.  Suffixing a fragment with `:lower:upper` resolves exactly as
/// suffixing it with `:upper` alone, whatever follows in the unit.
pub proof fn lemma_conflicting_case_modifiers(
    rest: Seq<TokenView>,
    done: Seq<u8>,
    frag: (Seq<u8>, u64),
    ovr: Option<u64>,
    gspan: u64,
    env: Seq<(Seq<u8>, u64)>,
    c1: u64,
    m1: u64,
    c2: u64,
    m2: u64,
)
    ensures
        concat_from(
            seq![
                TokenView::Punct { ch: ':' as u8, span: c1 },
                TokenView::Ident { text: crate::splice::lower_name(), span: m1 },
                TokenView::Punct { ch: ':' as u8, span: c2 },
                TokenView::Ident { text: crate::splice::upper_name(), span: m2 },
            ] + rest,
            done,
            Some(frag),
            ovr,
            gspan,
            env,
        ) == concat_from(
            seq![
                TokenView::Punct { ch: ':' as u8, span: c2 },
                TokenView::Ident { text: crate::splice::upper_name(), span: m2 },
            ] + rest,
            done,
            Some(frag),
            ovr,
            gspan,
            env,
        ),
{
    let long = seq![
        TokenView::Punct { ch: ':' as u8, span: c1 },
        TokenView::Ident { text: crate::splice::lower_name(), span: m1 },
        TokenView::Punct { ch: ':' as u8, span: c2 },
        TokenView::Ident { text: crate::splice::upper_name(), span: m2 },
    ] + rest;
    let short = seq![
        TokenView::Punct { ch: ':' as u8, span: c2 },
        TokenView::Ident { text: crate::splice::upper_name(), span: m2 },
    ] + rest;
    assert(crate::splice::lower_name() != crate::splice::upper_name());
    assert(crate::splice::lower_name() != span_name());
    assert(crate::splice::upper_name() != span_name());
    assert(long.skip(2) =~= short);
    assert(short.skip(2) =~= rest);
    crate::fold::lemma_upper_after_lower(frag.0);
    let lowered = (crate::fold::lower_bytes(frag.0), frag.1);
    let raised = (crate::fold::upper_bytes(frag.0), frag.1);
    assert(long[0] == TokenView::Punct { ch: ':' as u8, span: c1 });
    assert(long[1] == TokenView::Ident { text: crate::splice::lower_name(), span: m1 });
    assert(short[0] == TokenView::Punct { ch: ':' as u8, span: c2 });
    assert(short[1] == TokenView::Ident { text: crate::splice::upper_name(), span: m2 });
    assert(concat_from(long, done, Some(frag), ovr, gspan, env) == concat_modifier(
        long,
        done,
        Some(frag),
        ovr,
        gspan,
        env,
        c1,
    ));
    assert(concat_modifier(long, done, Some(frag), ovr, gspan, env, c1) == concat_from(
        short,
        done,
        Some(lowered),
        ovr,
        gspan,
        env,
    ));
    assert(concat_from(short, done, Some(lowered), ovr, gspan, env) == concat_modifier(
        short,
        done,
        Some(lowered),
        ovr,
        gspan,
        env,
        c2,
    ));
    assert(concat_modifier(short, done, Some(lowered), ovr, gspan, env, c2) == concat_from(
        rest,
        done,
        Some(raised),
        ovr,
        gspan,
        env,
    ));
    assert(concat_from(short, done, Some(frag), ovr, gspan, env) == concat_modifier(
        short,
        done,
        Some(frag),
        ovr,
        gspan,
        env,
        c2,
    ));
    assert(concat_modifier(short, done, Some(frag), ovr, gspan, env, c2) == concat_from(
        rest,
        done,
        Some(raised),
        ovr,
        gspan,
        env,
    ));
}

} // verus!
