//! The token model: tagged lexical tokens with provenance, and their
//! mathematical view as sequence-based values.

use vstd::prelude::*;

verus! {

/// Delimiter kind of a nested group token.
#[derive(Clone, Copy, Debug, PartialEq, Eq, Structural)]
pub enum Delim {
    Paren,
    Bracket,
    Brace,
}

/// The kind of a literal token, deciding whether its text can be rendered
/// as identifier-safe characters.
#[derive(Clone, Copy, Debug, PartialEq, Eq, Structural)]
pub enum LitKind {
    /// An integer literal; its text holds the decimal digits.
    Integer,
    /// A string literal; its text holds the contents without the quotes.
    Str,
    /// A floating-point literal; never identifier-safe.
    Float,
}

/// One lexical token.  `text` fields hold ASCII bytes; `span` is the
/// provenance tag carried for diagnostic attribution.
#[derive(Debug, PartialEq)]
pub enum Token {
    Ident { text: Vec<u8>, span: u64 },
    Lit { text: Vec<u8>, kind: LitKind, span: u64 },
    Punct { ch: u8, span: u64 },
    Group { delim: Delim, tokens: Vec<Token>, span: u64 },
}

/// The mathematical value of a [`Token`]: the same shape over `Seq`.
pub enum TokenView {
    Ident { text: Seq<u8>, span: u64 },
    Lit { text: Seq<u8>, kind: LitKind, span: u64 },
    Punct { ch: u8, span: u64 },
    Group { delim: Delim, tokens: Seq<TokenView>, span: u64 },
}

pub open spec fn tok_view(t: Token) -> TokenView
    decreases t,
{
    match t {
        Token::Ident { text, span } => TokenView::Ident { text: text@, span },
        Token::Lit { text, kind, span } => TokenView::Lit { text: text@, kind, span },
        Token::Punct { ch, span } => TokenView::Punct { ch, span },
        Token::Group { delim, tokens, span } => TokenView::Group {
            delim,
            tokens: toks_view(tokens@),
            span,
        },
    }
}

pub open spec fn toks_view(ts: Seq<Token>) -> Seq<TokenView>
    decreases ts,
{
    if ts.len() == 0 {
        Seq::empty()
    } else {
        seq![tok_view(ts[0])] + toks_view(ts.drop_first())
    }
}

impl View for Token {
    type V = TokenView;

    open spec fn view(&self) -> TokenView {
        tok_view(*self)
    }
}

/// The view of a token sequence is taken element by element.
pub broadcast proof fn lemma_toks_view_len(ts: Seq<Token>)
    ensures
        (#[trigger] toks_view(ts)).len() == ts.len(),
    decreases ts,
{
    if ts.len() > 0 {
        lemma_toks_view_len(ts.drop_first());
    }
}

pub broadcast proof fn lemma_toks_view_index(ts: Seq<Token>, i: int)
    requires
        0 <= i < ts.len(),
    ensures
        #[trigger] toks_view(ts)[i] == tok_view(ts[i]),
    decreases ts,
{
    lemma_toks_view_len(ts);
    if i > 0 {
        lemma_toks_view_index(ts.drop_first(), i - 1);
    }
}

} // verus!
