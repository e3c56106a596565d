//! Tokens: what the scanner cuts a document into.

use vstd::prelude::*;
use crate::macros::Macro;

verus! {

/// Tokenized macro.
pub type TokenizedMacro = Macro<Vec<Token>>;

/// A token with the position of the scanner when the token was made.
#[derive(Debug, PartialEq, Eq)]
pub struct Token {
    /// Token type
    pub token_type: TokenType,
    /// Row position of the token
    pub row: usize,
    /// Column position of the token
    pub col: usize,
}

/// The kinds of token.
#[derive(Debug, PartialEq, Eq)]
pub enum TokenType {
    /// Plain text.
    Text(String),
    /// A link on a line of its own, starting with `http://` or `https://`.
    Url(String),
    /// `@[card_type](url)`
    LinkCard { card_type: String, url: String },
    /// `![alt](url)`
    Image { alt: String, url: String },
    /// `^[content]`
    InlineFootnote(String),
    /// `[^identifier]`
    Footnote(String),
    /// `:::message kind`, with `level` colons more than three.
    MessageBegin { level: usize, kind: String },
    /// `:::details title`, with `level` colons more than three.
    DetailsBegin { level: usize, title: String },
    /// `:::`, with `level` colons more than three.
    MessageOrDetailsEnd { level: usize },
    /// `<macro>` ... `</macro>`, scanned for each platform.
    Macro(TokenizedMacro),
}

/// The mathematical value of a token.
pub struct TokenView {
    pub token_type: TokenTypeView,
    pub row: int,
    pub col: int,
}

/// The mathematical value of a token type.
pub enum TokenTypeView {
    Text(Seq<char>),
    Url(Seq<char>),
    LinkCard { card_type: Seq<char>, url: Seq<char> },
    Image { alt: Seq<char>, url: Seq<char> },
    InlineFootnote(Seq<char>),
    Footnote(Seq<char>),
    MessageBegin { level: int, kind: Seq<char> },
    DetailsBegin { level: int, title: Seq<char> },
    MessageOrDetailsEnd { level: int },
    Macro(Macro<Seq<TokenView>>),
}

/// The value of a token type.
pub open spec fn token_type_view(t: TokenType) -> TokenTypeView
    decreases t,
{
    match t {
        TokenType::Text(s) => TokenTypeView::Text(s@),
        TokenType::Url(s) => TokenTypeView::Url(s@),
        TokenType::LinkCard { card_type, url } => TokenTypeView::LinkCard {
            card_type: card_type@,
            url: url@,
        },
        TokenType::Image { alt, url } => TokenTypeView::Image { alt: alt@, url: url@ },
        TokenType::InlineFootnote(s) => TokenTypeView::InlineFootnote(s@),
        TokenType::Footnote(s) => TokenTypeView::Footnote(s@),
        TokenType::MessageBegin { level, kind } => TokenTypeView::MessageBegin {
            level: level as int,
            kind: kind@,
        },
        TokenType::DetailsBegin { level, title } => TokenTypeView::DetailsBegin {
            level: level as int,
            title: title@,
        },
        TokenType::MessageOrDetailsEnd { level } => TokenTypeView::MessageOrDetailsEnd {
            level: level as int,
        },
        TokenType::Macro(m) => TokenTypeView::Macro(
            Macro { zenn: tokens_view(m.zenn@), qiita: tokens_view(m.qiita@) },
        ),
    }
}

/// The value of a token.
pub open spec fn token_view(t: Token) -> TokenView
    decreases t,
{
    TokenView { token_type: token_type_view(t.token_type), row: t.row as int, col: t.col as int }
}

/// The values of a sequence of tokens, one for one.
pub open spec fn tokens_view(v: Seq<Token>) -> Seq<TokenView>
    decreases v,
{
    if v.len() == 0 {
        Seq::empty()
    } else {
        tokens_view(v.drop_last()).push(token_view(v.last()))
    }
}

impl View for TokenType {
    type V = TokenTypeView;

    open spec fn view(&self) -> TokenTypeView {
        token_type_view(*self)
    }
}

impl View for Token {
    type V = TokenView;

    open spec fn view(&self) -> TokenView {
        token_view(*self)
    }
}

/// `tokens_view` keeps the length and maps each token to its value.
pub proof fn lemma_tokens_view(v: Seq<Token>)
    ensures
        tokens_view(v).len() == v.len(),
        forall|i: int| 0 <= i < v.len() ==> #[trigger] tokens_view(v)[i] == token_view(v[i]),
    decreases v.len(),
{
    if v.len() > 0 {
        lemma_tokens_view(v.drop_last());
    }
}

/// `tokens_view` of a sequence with one more token.
pub proof fn lemma_tokens_view_push(v: Seq<Token>, t: Token)
    ensures
        tokens_view(v.push(t)) == tokens_view(v).push(token_view(t)),
{
    assert(v.push(t).drop_last() == v);
}

/// A copy of a token type.
pub fn copy_token_type(t: &TokenType) -> (r: TokenType)
    ensures
        r@ == t@,
    decreases t,
{
    match t {
        TokenType::Text(s) => TokenType::Text(s.clone()),
        TokenType::Url(s) => TokenType::Url(s.clone()),
        TokenType::LinkCard { card_type, url } => TokenType::LinkCard {
            card_type: card_type.clone(),
            url: url.clone(),
        },
        TokenType::Image { alt, url } => TokenType::Image { alt: alt.clone(), url: url.clone() },
        TokenType::InlineFootnote(s) => TokenType::InlineFootnote(s.clone()),
        TokenType::Footnote(s) => TokenType::Footnote(s.clone()),
        TokenType::MessageBegin { level, kind } => TokenType::MessageBegin {
            level: *level,
            kind: kind.clone(),
        },
        TokenType::DetailsBegin { level, title } => TokenType::DetailsBegin {
            level: *level,
            title: title.clone(),
        },
        TokenType::MessageOrDetailsEnd { level } => TokenType::MessageOrDetailsEnd {
            level: *level,
        },
        TokenType::Macro(m) => TokenType::Macro(
            Macro { zenn: copy_tokens(&m.zenn), qiita: copy_tokens(&m.qiita) },
        ),
    }
}

/// A copy of a token.
pub fn copy_token(t: &Token) -> (r: Token)
    ensures
        r@ == t@,
    decreases t,
{
    Token { token_type: copy_token_type(&t.token_type), row: t.row, col: t.col }
}

/// A copy of a vector of tokens.
pub fn copy_tokens(v: &Vec<Token>) -> (r: Vec<Token>)
    ensures
        tokens_view(r@) == tokens_view(v@),
    decreases v,
{
    let mut r: Vec<Token> = Vec::new();
    let mut i: usize = 0;
    while i < v.len()
        invariant
            i <= v.len(),
            tokens_view(r@) == tokens_view(v@.subrange(0, i as int)),
        decreases v.len() - i,
    {
        let t = copy_token(&v[i]);
        proof {
            lemma_tokens_view_push(r@, t);
            lemma_tokens_view_push(v@.subrange(0, i as int), v@[i as int]);
            assert(v@.subrange(0, i + 1) == v@.subrange(0, i as int).push(v@[i as int]));
        }
        r.push(t);
        i += 1;
    }
    assert(v@.subrange(0, v.len() as int) == v@);
    r
}

impl Clone for TokenType {
    fn clone(&self) -> (r: Self)
        ensures
            r@ == self@,
    {
        copy_token_type(self)
    }
}

impl Clone for Token {
    fn clone(&self) -> (r: Self)
        ensures
            r@ == self@,
    {
        copy_token(self)
    }
}

/// The text that `{:?}` writes for a token type.
pub uninterp spec fn debug_text(token_type: TokenTypeView) -> Seq<char>;

/// Formats a token type with `{:?}`, that is with the `Debug` that `derive`
/// wrote for it. The contract claims that the text depends on the token
/// type's value alone.
#[verifier::external_body]
pub(crate) fn debug_token_type(token_type: &TokenType) -> (r: String)
    ensures
        r@ == debug_text(token_type@),
{
    format!("{:?}", token_type)
}

} // verus!
