//! The splicing engine: scanning for splice units, fragment
//! concatenation with modifiers, and reassembly.
//!
//! Splice syntax, over the token model of [`crate::token`]:
//! a splice unit is a bracket group whose first token is the punctuation
//! `<` and whose last token is the punctuation `>`.  The tokens between
//! them are fragments: identifiers or literals, each optionally followed
//! by modifier suffixes of the shape `:name`.  The recognized modifiers
//! are `lower` and `upper`, which case-fold the preceding fragment's
//! text, and `span`, which takes one parenthesized identifier argument
//! naming a reference token and retags the result with that token's
//! provenance.  The unit resolves to a single identifier: the fragment
//! texts concatenated in order, tagged with the unit's own group span
//! unless a `span` modifier overrode it (when several do, the last one
//! in document order wins).

use vstd::prelude::*;

use crate::fold::lower_bytes;
use crate::fold::upper_bytes;
use crate::token::Delim;
use crate::token::LitKind;
use crate::token::Token;
use crate::token::TokenView;

verus! {

/// A failure of the engine, attributed to the provenance tag most
/// relevant to the fault.
#[derive(Clone, Copy, Debug, PartialEq, Eq, Structural)]
pub enum SpliceError {
    /// An unmatched splice-open marker, a splice unit nested inside
    /// another, or a modifier suffix that is not well formed.
    MalformedSpliceSyntax { span: u64 },
    /// A splice unit holding no fragment at all.
    EmptySpliceUnit { span: u64 },
    /// A token inside a splice unit that is neither an identifier nor a
    /// literal, or a literal whose kind has no identifier-safe text.
    UnsupportedFragmentKind { span: u64 },
    /// A modifier name outside the recognized set.
    UnknownModifier { span: u64 },
    /// A `span` modifier whose reference token cannot be found.
    UnresolvedSpanReference { span: u64 },
}

/// The name of the `lower` modifier, as bytes.
pub open spec fn lower_name() -> Seq<u8> {
    seq!['l' as u8, 'o' as u8, 'w' as u8, 'e' as u8, 'r' as u8]
}

/// The name of the `upper` modifier, as bytes.
pub open spec fn upper_name() -> Seq<u8> {
    seq!['u' as u8, 'p' as u8, 'p' as u8, 'e' as u8, 'r' as u8]
}

/// The name of the `span` modifier, as bytes.
pub open spec fn span_name() -> Seq<u8> {
    seq!['s' as u8, 'p' as u8, 'a' as u8, 'n' as u8]
}

pub open spec fn is_punct_ch(t: TokenView, c: u8) -> bool {
    match t {
        TokenView::Punct { ch, .. } => ch == c,
        _ => false,
    }
}

/// A bracket group that begins with the splice-open marker `[<`.
pub open spec fn open_marked(delim: Delim, ts: Seq<TokenView>) -> bool {
    delim is Bracket && ts.len() > 0 && is_punct_ch(ts[0], '<' as u8)
}

/// An open-marked group whose last token closes the unit with `>]`.
pub open spec fn well_closed(ts: Seq<TokenView>) -> bool {
    ts.len() >= 2 && is_punct_ch(ts[ts.len() - 1], '>' as u8)
}

/// A token that carries no splice marker anywhere: it is not itself an
/// open-marked group and no group nested inside it holds one.
pub open spec fn marker_free_tok(t: TokenView) -> bool
    decreases t,
{
    match t {
        TokenView::Group { delim, tokens, .. } => !open_marked(delim, tokens) && marker_free_seq(
            tokens,
        ),
        _ => true,
    }
}

pub open spec fn marker_free_seq(ts: Seq<TokenView>) -> bool
    decreases ts,
{
    if ts.len() == 0 {
        true
    } else {
        marker_free_tok(ts[0]) && marker_free_seq(ts.drop_first())
    }
}

/// The span environment: every identifier of the input standing outside
/// a splice unit, in document order (depth first), with its provenance
/// tag.  A `span` modifier's reference resolves to the first entry with
/// the referenced name; what stands between splice markers names no
/// reference token.
pub open spec fn env_of_tok(t: TokenView) -> Seq<(Seq<u8>, u64)>
    decreases t,
{
    match t {
        TokenView::Ident { text, span } => seq![(text, span)],
        TokenView::Group { delim, tokens, .. } => if open_marked(delim, tokens) {
            Seq::empty()
        } else {
            env_of_seq(tokens)
        },
        _ => Seq::empty(),
    }
}

pub open spec fn env_of_seq(ts: Seq<TokenView>) -> Seq<(Seq<u8>, u64)>
    decreases ts,
{
    if ts.len() == 0 {
        Seq::empty()
    } else {
        env_of_tok(ts[0]) + env_of_seq(ts.drop_first())
    }
}

pub open spec fn resolve_span(env: Seq<(Seq<u8>, u64)>, name: Seq<u8>) -> Option<u64>
    decreases env,
{
    if env.len() == 0 {
        None
    } else if env[0].0 == name {
        Some(env[0].1)
    } else {
        resolve_span(env.drop_first(), name)
    }
}

/// The identifier-safe rendering of a literal fragment, if it has one:
/// an integer literal contributes its decimal digits, a string literal
/// its contents provided they are identifier characters; a
/// floating-point literal has none.
pub open spec fn render_lit(text: Seq<u8>, kind: LitKind) -> Option<Seq<u8>> {
    match kind {
        LitKind::Integer => Some(text),
        LitKind::Str => if forall|i: int| 0 <= i < text.len() ==> is_ident_byte(#[trigger] text[i]) {
            Some(text)
        } else {
            None
        },
        LitKind::Float => None,
    }
}

pub open spec fn is_ident_byte(b: u8) -> bool {
    ('a' as u8 <= b <= 'z' as u8) || ('A' as u8 <= b <= 'Z' as u8) || ('0' as u8 <= b <= '9' as u8)
        || b == '_' as u8
}

/// One resolved step of the fragment fold.  `unit` is what remains of
/// the splice unit's tokens, `done` the concatenated text of the closed
/// fragments, `cur` the text and tag of the fragment still open to
/// modifiers, and `ovr` the provenance override set by the last `span`
/// modifier seen so far.
pub open spec fn concat_from(
    unit: Seq<TokenView>,
    done: Seq<u8>,
    cur: Option<(Seq<u8>, u64)>,
    ovr: Option<u64>,
    gspan: u64,
    env: Seq<(Seq<u8>, u64)>,
) -> Result<TokenView, SpliceError>
    decreases unit.len(), 1int,
{
    if unit.len() == 0 {
        match cur {
            Some(c) => Ok(
                TokenView::Ident {
                    text: done + c.0,
                    span: match ovr {
                        Some(s) => s,
                        None => gspan,
                    },
                },
            ),
            None => Err(SpliceError::EmptySpliceUnit { span: gspan }),
        }
    } else {
        let done1 = match cur {
            Some(c) => done + c.0,
            None => done,
        };
        match unit[0] {
            TokenView::Ident { text, span } => concat_from(
                unit.drop_first(),
                done1,
                Some((text, span)),
                ovr,
                gspan,
                env,
            ),
            TokenView::Lit { text, kind, span } => match render_lit(text, kind) {
                Some(rt) => concat_from(unit.drop_first(), done1, Some((rt, span)), ovr, gspan, env),
                None => Err(SpliceError::UnsupportedFragmentKind { span }),
            },
            TokenView::Punct { ch, span } => if ch == ':' as u8 {
                concat_modifier(unit, done, cur, ovr, gspan, env, span)
            } else {
                Err(SpliceError::UnsupportedFragmentKind { span })
            },
            TokenView::Group { delim, tokens, span } => if open_marked(delim, tokens) {
                Err(SpliceError::MalformedSpliceSyntax { span })
            } else {
                Err(SpliceError::UnsupportedFragmentKind { span })
            },
        }
    }
}

/// The step of [`concat_from`] taken at a `:` suffix: `unit[0]` is the
/// colon, at `cspan`.
pub open spec fn concat_modifier(
    unit: Seq<TokenView>,
    done: Seq<u8>,
    cur: Option<(Seq<u8>, u64)>,
    ovr: Option<u64>,
    gspan: u64,
    env: Seq<(Seq<u8>, u64)>,
    cspan: u64,
) -> Result<TokenView, SpliceError>
    decreases unit.len(), 0int,
{
    if unit.len() < 2 || !(unit[1] is Ident) {
        Err(SpliceError::MalformedSpliceSyntax { span: cspan })
    } else {
        let mname = unit[1]->Ident_text;
        let mspan = unit[1]->Ident_span;
        match cur {
            None => Err(SpliceError::MalformedSpliceSyntax { span: cspan }),
            Some(c) => if mname == lower_name() {
                concat_from(unit.skip(2), done, Some((lower_bytes(c.0), c.1)), ovr, gspan, env)
            } else if mname == upper_name() {
                concat_from(unit.skip(2), done, Some((upper_bytes(c.0), c.1)), ovr, gspan, env)
            } else if mname == span_name() {
                match span_arg(unit) {
                    Some(rname) => match resolve_span(env, rname) {
                        Some(s) => concat_from(unit.skip(3), done, cur, Some(s), gspan, env),
                        None => Err(SpliceError::UnresolvedSpanReference { span: mspan }),
                    },
                    None => Err(SpliceError::MalformedSpliceSyntax { span: mspan }),
                }
            } else {
                Err(SpliceError::UnknownModifier { span: mspan })
            },
        }
    }
}

/// The reference name of a `span` modifier: `unit[2]` must be a
/// parenthesized group holding exactly one identifier.
pub open spec fn span_arg(unit: Seq<TokenView>) -> Option<Seq<u8>> {
    if unit.len() >= 3 && (unit[2] matches TokenView::Group { delim: Delim::Paren, tokens, .. }
        && tokens.len() == 1 && tokens[0] is Ident) {
        Some(unit[2]->Group_tokens[0]->Ident_text)
    } else {
        None
    }
}

/// What a whole splice unit resolves to: the fragment fold started on
/// the tokens between the markers, with everything still open.
pub open spec fn concat_unit(
    unit: Seq<TokenView>,
    gspan: u64,
    env: Seq<(Seq<u8>, u64)>,
) -> Result<TokenView, SpliceError> {
    concat_from(unit, Seq::empty(), None, None, gspan, env)
}

/// The rewriting of one token: a well-formed splice unit resolves to
/// its concatenation result, an unclosed open marker is malformed, an
/// ordinary group is rebuilt around its rewritten children, and every
/// other token stands unchanged.
pub open spec fn rewrite_tok(t: TokenView, env: Seq<(Seq<u8>, u64)>) -> Result<
    TokenView,
    SpliceError,
>
    decreases t,
{
    match t {
        TokenView::Group { delim, tokens, span } => if open_marked(delim, tokens) {
            if well_closed(tokens) {
                concat_unit(tokens.subrange(1, tokens.len() - 1), span, env)
            } else {
                Err(SpliceError::MalformedSpliceSyntax { span })
            }
        } else {
            match rewrite_seq(tokens, env) {
                Ok(rs) => Ok(TokenView::Group { delim, tokens: rs, span }),
                Err(e) => Err(e),
            }
        },
        _ => Ok(t),
    }
}

pub open spec fn rewrite_seq(ts: Seq<TokenView>, env: Seq<(Seq<u8>, u64)>) -> Result<
    Seq<TokenView>,
    SpliceError,
>
    decreases ts,
{
    if ts.len() == 0 {
        Ok(Seq::empty())
    } else {
        match rewrite_tok(ts[0], env) {
            Ok(r0) => match rewrite_seq(ts.drop_first(), env) {
                Ok(rs) => Ok(seq![r0] + rs),
                Err(e) => Err(e),
            },
            Err(e) => Err(e),
        }
    }
}

/// What the engine returns for an input sequence: every splice unit
/// replaced by its resolved identifier, under the input's own span
/// environment, or the first fault in document order.
pub open spec fn spec_paste(ts: Seq<TokenView>) -> Result<Seq<TokenView>, SpliceError> {
    rewrite_seq(ts, env_of_seq(ts))
}

} // verus!
