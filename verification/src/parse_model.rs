//! What the parser computes, as a function of the tokens it is given.
//!
//! The parser walks the tokens once. Its cursor holds the index of the next
//! token, the levels of the blocks that are open, and the errors so far. A
//! block's body is parsed up to the closing fence of the block's own level;
//! a macro's two token streams are parsed on their own, each as a body with
//! no block open.

use vstd::prelude::*;
use crate::ast::{DocView, ElementView, FrontmatterView, MessageType, FRONTMATTER_TOPICS_MAX};
use crate::frontmatter::frontmatter_of_text;
use crate::macros::Macro;
use crate::token::{TokenTypeView, TokenView};

verus! {

/// How many blocks may stand inside one another.
pub const BLOCK_DEPTH_MAX: usize = 64;

/// The mathematical value of a parse error's type.
pub enum ParseErrorTypeView {
    TooManyTopics(Seq<Seq<char>>),
    InvalidFrontMatter,
    InvalidMacro,
    InvalidMessageType,
    InvalidNestingLevel(int),
    CouldNotFindEndToken(TokenTypeView),
    UnexpectedToken,
}

/// The mathematical value of a parse error.
pub struct ParseErrorView {
    pub error_type: ParseErrorTypeView,
    pub row: int,
    pub col: int,
}

/// The elements of a token stream, or the errors found in it.
pub type ParseResult = Result<Seq<ElementView>, Seq<ParseErrorView>>;

/// The kind of message that a text names.
pub open spec fn message_type_of(kind: Seq<char>) -> Option<MessageType> {
    if kind == "info"@ {
        Some(MessageType::Info)
    } else if kind == "warn"@ {
        Some(MessageType::Warn)
    } else if kind == "alert"@ {
        Some(MessageType::Alert)
    } else {
        None
    }
}

/// The cursor of a parser.
pub struct ParseCursor {
    /// The index of the next token.
    pub position: int,
    /// The levels of the open blocks, the innermost last.
    pub nesting: Seq<int>,
    pub errors: Seq<ParseErrorView>,
}

impl ParseCursor {
    /// The cursor before anything is parsed.
    pub open spec fn initial() -> ParseCursor {
        ParseCursor { position: 0, nesting: Seq::empty(), errors: Seq::empty() }
    }

    /// The next token.
    pub open spec fn peek(self, tokens: Seq<TokenView>) -> Option<TokenView> {
        if 0 <= self.position < tokens.len() {
            Some(tokens[self.position])
        } else {
            None
        }
    }

    /// Passes the next token, where there is one.
    pub open spec fn advance(self, tokens: Seq<TokenView>) -> ParseCursor {
        if self.position < tokens.len() {
            ParseCursor { position: self.position + 1, ..self }
        } else {
            self
        }
    }

    /// Adds an error.
    pub open spec fn fail(self, error: ParseErrorView) -> ParseCursor {
        ParseCursor { errors: self.errors.push(error), ..self }
    }

    /// Adds errors.
    pub open spec fn fail_all(self, errors: Seq<ParseErrorView>) -> ParseCursor {
        ParseCursor { errors: self.errors + errors, ..self }
    }

    /// Whether a block of `level` may open here: directly inside another
    /// block only with a level strictly below that block's, and only while
    /// fewer blocks are open than may stand inside one another.
    pub open spec fn may_nest(self, level: int) -> bool {
        self.nesting.len() < BLOCK_DEPTH_MAX && (self.nesting.len() == 0 || level
            < self.nesting.last())
    }

    /// Opens a block of `level`.
    pub open spec fn nest(self, level: int) -> ParseCursor {
        ParseCursor { nesting: self.nesting.push(level), ..self }
    }

    /// Closes the innermost block.
    pub open spec fn unnest(self) -> ParseCursor {
        if self.nesting.len() > 0 {
            ParseCursor { nesting: self.nesting.drop_last(), ..self }
        } else {
            self
        }
    }

    /// Whether the next token is the closing fence of `level`.
    pub open spec fn at_end_of(self, tokens: Seq<TokenView>, end: Option<int>) -> bool {
        end is Some && self.peek(tokens) is Some && self.peek(tokens)->0.token_type
            == (TokenTypeView::MessageOrDetailsEnd { level: end->0 })
    }
}

/// The error of a given type at a token's position.
pub open spec fn error_at(error_type: ParseErrorTypeView, token: TokenView) -> ParseErrorView {
    ParseErrorView { error_type, row: token.row, col: token.col }
}

/// The element that starts at the cursor, with the cursor after it; or the
/// error that came in the way. The cursor stands at a token.
///
/// Text, links, images, cards and footnotes are taken over as they are. A
/// block is opened where its level allows it; its body is parsed up to its
/// closing fence, which is passed. A closing fence that closes nothing is
/// unexpected. The two streams of a macro are parsed on their own; the
/// errors of a stream are kept, and the macro is invalid.
pub open spec fn parse_element(tokens: Seq<TokenView>, cursor: ParseCursor) -> (
    ParseCursor,
    Result<ElementView, ParseErrorView>,
)
    decreases tokens, tokens.len() - cursor.position, 0nat,
{
    match cursor.peek(tokens) {
        None => arbitrary(),
        Some(token) => {
            let next = cursor.advance(tokens);
            match token.token_type {
                TokenTypeView::Text(text) => (next, Ok(ElementView::Text(text))),
                TokenTypeView::Url(url) => (next, Ok(ElementView::Url(url))),
                TokenTypeView::LinkCard { card_type, url } => (
                    next,
                    Ok(ElementView::LinkCard { card_type, url }),
                ),
                TokenTypeView::Image { alt, url } => (next, Ok(ElementView::Image { alt, url })),
                TokenTypeView::InlineFootnote(content) => (
                    next,
                    Ok(ElementView::InlineFootnote(content)),
                ),
                TokenTypeView::Footnote(name) => (next, Ok(ElementView::Footnote(name))),
                TokenTypeView::MessageBegin { level, kind } => match message_type_of(kind) {
                    None => (next, Err(error_at(ParseErrorTypeView::InvalidMessageType, token))),
                    Some(msg_type) => if !next.may_nest(level) {
                        (next, Err(error_at(ParseErrorTypeView::InvalidNestingLevel(level), token)))
                    } else {
                        let (after, body) = parse_block(tokens, next.nest(level), Some(level));
                        (
                            after.advance(tokens).unnest(),
                            Ok(ElementView::Message { level, msg_type, body }),
                        )
                    },
                },
                TokenTypeView::DetailsBegin { level, title } => if !next.may_nest(level) {
                    (next, Err(error_at(ParseErrorTypeView::InvalidNestingLevel(level), token)))
                } else {
                    let (after, body) = parse_block(tokens, next.nest(level), Some(level));
                    (
                        after.advance(tokens).unnest(),
                        Ok(ElementView::Details { level, title, body }),
                    )
                },
                TokenTypeView::MessageOrDetailsEnd { level } => (
                    next,
                    Err(error_at(ParseErrorTypeView::UnexpectedToken, token)),
                ),
                TokenTypeView::Macro(m) => match parse_tokens(m.zenn) {
                    Err(errors) => (
                        next.fail_all(errors),
                        Err(error_at(ParseErrorTypeView::InvalidMacro, token)),
                    ),
                    Ok(zenn) => match parse_tokens(m.qiita) {
                        Err(errors) => (
                            next.fail_all(errors),
                            Err(error_at(ParseErrorTypeView::InvalidMacro, token)),
                        ),
                        Ok(qiita) => (next, Ok(ElementView::Macro(Macro { zenn, qiita }))),
                    },
                },
            }
        },
    }
}

/// The elements from the cursor up to the closing fence of `end`, or to the
/// end of the tokens where `end` is none. The first error ends the walk. (An
/// element takes at least one token, so the walk always goes on.)
pub open spec fn parse_items(tokens: Seq<TokenView>, cursor: ParseCursor, end: Option<int>) -> (
    ParseCursor,
    Seq<ElementView>,
)
    decreases tokens, tokens.len() - cursor.position, 1nat,
{
    if cursor.peek(tokens) is None || cursor.at_end_of(tokens, end) {
        (cursor, Seq::empty())
    } else {
        let (next, outcome) = parse_element(tokens, cursor);
        match outcome {
            Err(error) => (next.fail(error), Seq::empty()),
            Ok(element) => if cursor.position < next.position <= tokens.len() {
                let (last, rest) = parse_items(tokens, next, end);
                (last, seq![element] + rest)
            } else {
                (next, seq![element])
            },
        }
    }
}

/// The body of a block: its elements, and an error where the tokens ran out
/// before the block's closing fence.
pub open spec fn parse_block(tokens: Seq<TokenView>, cursor: ParseCursor, end: Option<int>) -> (
    ParseCursor,
    Seq<ElementView>,
)
    decreases tokens, tokens.len() - cursor.position, 2nat,
{
    let (last, elements) = parse_items(tokens, cursor, end);
    if end is Some && last.peek(tokens) is None {
        (
            last.fail(
                ParseErrorView {
                    error_type: ParseErrorTypeView::CouldNotFindEndToken(
                        TokenTypeView::MessageOrDetailsEnd { level: end->0 },
                    ),
                    row: 0,
                    col: 0,
                },
            ),
            elements,
        )
    } else {
        (last, elements)
    }
}

/// Parses a token stream as a body with no block open: its elements, or
/// every error that was found.
pub open spec fn parse_tokens(tokens: Seq<TokenView>) -> ParseResult
    decreases tokens, tokens.len() + 1, 0nat,
{
    let (last, elements) = parse_block(tokens, ParseCursor::initial(), None);
    if last.errors.len() > 0 {
        Err(last.errors)
    } else {
        Ok(elements)
    }
}

/// The front matter of a document, or the error in it: a text that cannot
/// be read is invalid at the place of the fault, where the reader of YAML
/// reports one, and more than five topics are too many.
pub open spec fn parse_frontmatter(text: Seq<char>) -> Result<FrontmatterView, ParseErrorView> {
    match frontmatter_of_text(text) {
        Err((line, column)) => Err(
            ParseErrorView {
                error_type: ParseErrorTypeView::InvalidFrontMatter,
                row: line,
                col: column,
            },
        ),
        Ok(frontmatter) => if frontmatter.topics.len() > FRONTMATTER_TOPICS_MAX {
            Err(
                ParseErrorView {
                    error_type: ParseErrorTypeView::TooManyTopics(frontmatter.topics),
                    row: 0,
                    col: 0,
                },
            )
        } else {
            Ok(frontmatter)
        },
    }
}

/// Parses a tokenized document. An error in the front matter comes first
/// and does not keep the body from being parsed, so that its errors are
/// found too.
pub open spec fn parse_document(doc: DocView<Seq<char>, TokenView>) -> Result<
    DocView<FrontmatterView, ElementView>,
    Seq<ParseErrorView>,
> {
    let start = match parse_frontmatter(doc.frontmatter) {
        Ok(_) => ParseCursor::initial(),
        Err(error) => ParseCursor::initial().fail(error),
    };
    let (last, elements) = parse_block(doc.elements, start, None);
    if last.errors.len() > 0 {
        Err(last.errors)
    } else {
        Ok(
            DocView {
                frontmatter: match parse_frontmatter(doc.frontmatter) {
                    Ok(frontmatter) => frontmatter,
                    Err(_) => FrontmatterView::empty(),
                },
                elements,
            },
        )
    }
}

/// An element takes at least one token and leaves the open blocks as they
/// were.
pub proof fn lemma_parse_element(tokens: Seq<TokenView>, cursor: ParseCursor)
    requires
        0 <= cursor.position < tokens.len(),
    ensures
        cursor.position < parse_element(tokens, cursor).0.position <= tokens.len(),
        parse_element(tokens, cursor).0.nesting == cursor.nesting,
        cursor.errors.is_prefix_of(parse_element(tokens, cursor).0.errors),
    decreases tokens, tokens.len() - cursor.position, 0nat,
{
    let token = tokens[cursor.position];
    let next = cursor.advance(tokens);
    match token.token_type {
        TokenTypeView::MessageBegin { level, kind } => {
            if message_type_of(kind) is Some && next.may_nest(level) {
                lemma_parse_block(tokens, next.nest(level), Some(level));
                assert(next.nest(level).nesting.drop_last() == next.nesting);
            }
        },
        TokenTypeView::DetailsBegin { level, title } => {
            if next.may_nest(level) {
                lemma_parse_block(tokens, next.nest(level), Some(level));
                assert(next.nest(level).nesting.drop_last() == next.nesting);
            }
        },
        _ => {},
    }
}

/// A walk never goes back and leaves the open blocks as they were.
pub proof fn lemma_parse_items(tokens: Seq<TokenView>, cursor: ParseCursor, end: Option<int>)
    requires
        0 <= cursor.position <= tokens.len(),
    ensures
        cursor.position <= parse_items(tokens, cursor, end).0.position <= tokens.len(),
        parse_items(tokens, cursor, end).0.nesting == cursor.nesting,
        cursor.errors.is_prefix_of(parse_items(tokens, cursor, end).0.errors),
    decreases tokens, tokens.len() - cursor.position, 1nat,
{
    if !(cursor.peek(tokens) is None || cursor.at_end_of(tokens, end)) {
        lemma_parse_element(tokens, cursor);
        let (next, outcome) = parse_element(tokens, cursor);
        if outcome is Ok {
            lemma_parse_items(tokens, next, end);
        }
    }
}

/// A block's body never goes back and leaves the open blocks as they were.
pub proof fn lemma_parse_block(tokens: Seq<TokenView>, cursor: ParseCursor, end: Option<int>)
    requires
        0 <= cursor.position <= tokens.len(),
    ensures
        cursor.position <= parse_block(tokens, cursor, end).0.position <= tokens.len(),
        parse_block(tokens, cursor, end).0.nesting == cursor.nesting,
        cursor.errors.is_prefix_of(parse_block(tokens, cursor, end).0.errors),
    decreases tokens, tokens.len() - cursor.position, 2nat,
{
    lemma_parse_items(tokens, cursor, end);
}

} // verus!
