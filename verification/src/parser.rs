//! The parser: from tokens to elements.

use vstd::prelude::*;
use crate::ast::{
    elements_view, lemma_elements_view_push, parsed_view, tokenized_view, DocView, Element,
    ElementView, FrontmatterView, MarkdownDoc, MessageType, ParsedMd, TokenizedMd,
    ZetaFrontmatter, FRONTMATTER_TOPICS_MAX,
};
use crate::frontmatter::decode_frontmatter;
use crate::macros::Macro;
use crate::parse_model::{
    lemma_parse_element, message_type_of, parse_block, parse_document, parse_element,
    parse_frontmatter, parse_items, parse_tokens, ParseCursor, ParseErrorTypeView, ParseErrorView,
    ParseResult, BLOCK_DEPTH_MAX,
};
use crate::text::{decimal, push_decimal, same_text, texts};
use crate::token::{
    copy_token, debug_text, debug_token_type, lemma_tokens_view, tokens_view, Token, TokenType,
    TokenView,
};

verus! {

/// An error of the parser, with the position of the token it was found at.
#[derive(Debug, Clone, PartialEq, Eq)]
pub struct ParseError {
    pub error_type: ParseErrorType,
    pub row: usize,
    pub col: usize,
}

/// What went wrong.
#[derive(Debug, Clone, PartialEq, Eq)]
pub enum ParseErrorType {
    /// More than five topics: the topics that were declared.
    TooManyTopics(Vec<String>),
    InvalidFrontMatter,
    InvalidMacro,
    InvalidMessageType,
    /// The level of a block that is not below the level of the block it
    /// stands in.
    InvalidNestingLevel(usize),
    /// The closing fence that never came.
    CouldNotFindEndToken(TokenType),
    /// A closing fence that closes nothing.
    UnexpectedToken,
}

impl View for ParseErrorType {
    type V = ParseErrorTypeView;

    open spec fn view(&self) -> ParseErrorTypeView {
        match self {
            ParseErrorType::TooManyTopics(topics) => ParseErrorTypeView::TooManyTopics(
                texts(topics@),
            ),
            ParseErrorType::InvalidFrontMatter => ParseErrorTypeView::InvalidFrontMatter,
            ParseErrorType::InvalidMacro => ParseErrorTypeView::InvalidMacro,
            ParseErrorType::InvalidMessageType => ParseErrorTypeView::InvalidMessageType,
            ParseErrorType::InvalidNestingLevel(level) => ParseErrorTypeView::InvalidNestingLevel(
                *level as int,
            ),
            ParseErrorType::CouldNotFindEndToken(token_type) => {
                ParseErrorTypeView::CouldNotFindEndToken(token_type@)
            },
            ParseErrorType::UnexpectedToken => ParseErrorTypeView::UnexpectedToken,
        }
    }
}

impl View for ParseError {
    type V = ParseErrorView;

    open spec fn view(&self) -> ParseErrorView {
        ParseErrorView { error_type: self.error_type@, row: self.row as int, col: self.col as int }
    }
}

/// Texts with `", "` between them.
pub open spec fn joined(parts: Seq<Seq<char>>) -> Seq<char>
    decreases parts.len(),
{
    if parts.len() == 0 {
        Seq::empty()
    } else if parts.len() == 1 {
        parts[0]
    } else {
        joined(parts.drop_last()) + ", "@ + parts.last()
    }
}

/// Strings with `", "` between them.
fn join(parts: &Vec<String>) -> (r: String)
    ensures
        r@ == joined(texts(parts@)),
{
    let ghost all = texts(parts@);
    let mut out = String::new();
    let mut i: usize = 0;
    assert(all.subrange(0, 0) =~= Seq::<Seq<char>>::empty());
    while i < parts.len()
        invariant
            i <= parts.len(),
            all == texts(parts@),
            out@ == joined(all.subrange(0, i as int)),
        decreases parts.len() - i,
    {
        let ghost before = out@;
        if i > 0 {
            out.append(", ");
        }
        out.append(parts[i].as_str());
        proof {
            assert(all.subrange(0, i + 1).drop_last() =~= all.subrange(0, i as int));
            assert(all.subrange(0, i + 1).last() == parts@[i as int]@);
            if i == 0 {
                assert(out@ =~= parts@[i as int]@);
            }
        }
        i += 1;
    }
    assert(all.subrange(0, all.len() as int) =~= all);
    out
}

impl ParseErrorType {
    /// The message of the error, as a value.
    pub open spec fn message_text(self) -> Seq<char> {
        match self {
            ParseErrorType::TooManyTopics(topics) => "Too many topics: ["@ + joined(
                texts(topics@),
            ) + "]. The maximum number of topics is "@ + decimal(FRONTMATTER_TOPICS_MAX as nat)
                + "."@,
            ParseErrorType::InvalidFrontMatter => "Invalid front matter"@,
            ParseErrorType::InvalidMacro => "Invalid macro"@,
            ParseErrorType::InvalidMessageType => "Invalid message type"@,
            ParseErrorType::InvalidNestingLevel(level) => "Invalid nesting level: "@ + decimal(
                level as nat,
            ) + ". The nesting level must be smaller than the outer one."@,
            ParseErrorType::CouldNotFindEndToken(token_type) => "Could not find end token: "@
                + debug_text(token_type@) + "."@,
            ParseErrorType::UnexpectedToken => "Unexpected token"@,
        }
    }

    /// The message of the error.
    pub fn message(&self) -> (r: String)
        ensures
            r@ == self.message_text(),
    {
        let mut out = String::new();
        match self {
            ParseErrorType::TooManyTopics(topics) => {
                out.append("Too many topics: [");
                let list = join(topics);
                out.append(list.as_str());
                out.append("]. The maximum number of topics is ");
                push_decimal(&mut out, FRONTMATTER_TOPICS_MAX as u128);
                out.append(".");
            },
            ParseErrorType::InvalidFrontMatter => {
                out.append("Invalid front matter");
            },
            ParseErrorType::InvalidMacro => {
                out.append("Invalid macro");
            },
            ParseErrorType::InvalidMessageType => {
                out.append("Invalid message type");
            },
            ParseErrorType::InvalidNestingLevel(level) => {
                out.append("Invalid nesting level: ");
                push_decimal(&mut out, *level as u128);
                out.append(". The nesting level must be smaller than the outer one.");
            },
            ParseErrorType::CouldNotFindEndToken(token_type) => {
                out.append("Could not find end token: ");
                let text = debug_token_type(token_type);
                out.append(text.as_str());
                out.append(".");
            },
            ParseErrorType::UnexpectedToken => {
                out.append("Unexpected token");
            },
        }
        assert(out@ =~= self.message_text());
        out
    }
}

impl ParseError {
    /// The message of the error with its position, as a value.
    pub open spec fn message_text(self) -> Seq<char> {
        self.error_type.message_text() + " at row "@ + decimal(self.row as nat) + ", col "@
            + decimal(self.col as nat)
    }

    /// The message of the error with its position.
    pub fn message(&self) -> (r: String)
        ensures
            r@ == self.message_text(),
    {
        let mut out = self.error_type.message();
        out.append(" at row ");
        push_decimal(&mut out, self.row as u128);
        out.append(", col ");
        push_decimal(&mut out, self.col as u128);
        out
    }

    pub fn new(error_type: ParseErrorType, row: usize, col: usize) -> (e: Self)
        ensures
            e.error_type == error_type,
            e.row == row,
            e.col == col,
    {
        Self { error_type, row, col }
    }
}

/// The values of a sequence of errors, one for one.
pub open spec fn parse_errors_view(v: Seq<ParseError>) -> Seq<ParseErrorView> {
    v.map_values(|e: ParseError| e@)
}

/// The outcome of parsing a body, by the values of its parts.
pub open spec fn parse_result_view(r: Result<Vec<Element>, Vec<ParseError>>) -> ParseResult {
    match r {
        Ok(elements) => Ok(elements_view(elements@)),
        Err(errors) => Err(parse_errors_view(errors@)),
    }
}

/// The outcome of parsing an element, by the values of its parts.
pub open spec fn element_result_view(r: Result<Element, ParseError>) -> Result<
    ElementView,
    ParseErrorView,
> {
    match r {
        Ok(element) => Ok(element@),
        Err(error) => Err(error@),
    }
}

/// The outcome of reading front matter, by the values of its parts.
pub open spec fn frontmatter_result_view(r: Result<ZetaFrontmatter, ParseError>) -> Result<
    FrontmatterView,
    ParseErrorView,
> {
    match r {
        Ok(frontmatter) => Ok(frontmatter@),
        Err(error) => Err(error@),
    }
}

/// The outcome of parsing a document, by the values of its parts.
pub open spec fn parse_view(r: Result<ParsedMd, Vec<ParseError>>) -> Result<
    DocView<FrontmatterView, ElementView>,
    Seq<ParseErrorView>,
> {
    match r {
        Ok(doc) => Ok(parsed_view(doc)),
        Err(errors) => Err(parse_errors_view(errors@)),
    }
}

/// The kind of message that a text names.
pub fn message_type_named(kind: &str) -> (r: Option<MessageType>)
    ensures
        r == message_type_of(kind@),
{
    if same_text(kind, "info") {
        Some(MessageType::Info)
    } else if same_text(kind, "warn") {
        Some(MessageType::Warn)
    } else if same_text(kind, "alert") {
        Some(MessageType::Alert)
    } else {
        None
    }
}

/// A parser over the tokens of one document.
pub struct Parser {
    source: Vec<Token>,
    frontmatter: String,
    position: usize,
    nesting_levels: Vec<usize>,
    errors: Vec<ParseError>,
}

impl Parser {
    /// The tokens that the parser walks.
    pub closed spec fn tokens(&self) -> Seq<TokenView> {
        tokens_view(self.source@)
    }

    /// The text of the front matter.
    pub closed spec fn frontmatter_text(&self) -> Seq<char> {
        self.frontmatter@
    }

    /// The document that the parser was given.
    pub open spec fn document(&self) -> DocView<Seq<char>, TokenView> {
        DocView { frontmatter: self.frontmatter_text(), elements: self.tokens() }
    }

    /// The parser's cursor.
    pub closed spec fn cursor(&self) -> ParseCursor {
        ParseCursor {
            position: self.position as int,
            nesting: self.nesting_levels@.map_values(|level: usize| level as int),
            errors: parse_errors_view(self.errors@),
        }
    }

    /// The cursor stands at a token or at the end.
    pub closed spec fn wf(&self) -> bool {
        self.position <= self.source.len()
    }

    /// Nothing was parsed yet.
    pub open spec fn fresh(&self) -> bool {
        self.wf() && self.cursor() == ParseCursor::initial()
    }

    /// A parser at the start of a tokenized document.
    pub fn new(md: TokenizedMd) -> (p: Self)
        ensures
            p.fresh(),
            p.document() == tokenized_view(md),
    {
        let p = Self {
            source: md.elements,
            frontmatter: md.frontmatter,
            position: 0,
            nesting_levels: Vec::new(),
            errors: Vec::new(),
        };
        assert(p.cursor().nesting =~= Seq::<int>::empty());
        assert(p.cursor().errors =~= Seq::<ParseErrorView>::empty());
        p
    }

    fn push_error(&mut self, error: ParseError)
        ensures
            final(self).cursor() == old(self).cursor().fail(error@),
            final(self).tokens() == old(self).tokens(),
            final(self).frontmatter_text() == old(self).frontmatter_text(),
            final(self).wf() == old(self).wf(),
    {
        self.errors.push(error);
        assert(parse_errors_view(self.errors@) =~= parse_errors_view(old(self).errors@).push(
            error@,
        ));
    }

    fn push_errors(&mut self, errors: Vec<ParseError>)
        ensures
            final(self).cursor() == old(self).cursor().fail_all(parse_errors_view(errors@)),
            final(self).tokens() == old(self).tokens(),
            final(self).frontmatter_text() == old(self).frontmatter_text(),
            final(self).wf() == old(self).wf(),
    {
        let mut errors = errors;
        let ghost added = errors@;
        self.errors.append(&mut errors);
        assert(parse_errors_view(self.errors@) =~= parse_errors_view(old(self).errors@)
            + parse_errors_view(added));
    }

    /// The next token.
    fn peek(&self) -> (r: Option<&Token>)
        requires
            self.wf(),
        ensures
            match r {
                Some(token) => self.cursor().peek(self.tokens()) == Some(token@),
                None => self.cursor().peek(self.tokens()) is None,
            },
    {
        proof {
            lemma_tokens_view(self.source@);
        }
        if self.position < self.source.len() {
            Some(&self.source[self.position])
        } else {
            None
        }
    }

    /// Passes the next token and hands out a copy of it.
    fn advance(&mut self) -> (r: Option<Token>)
        requires
            old(self).wf(),
        ensures
            final(self).wf(),
            final(self).cursor() == old(self).cursor().advance(old(self).tokens()),
            final(self).tokens() == old(self).tokens(),
            final(self).frontmatter_text() == old(self).frontmatter_text(),
            match r {
                Some(token) => old(self).cursor().peek(old(self).tokens()) == Some(token@),
                None => old(self).cursor().peek(old(self).tokens()) is None,
            },
    {
        proof {
            lemma_tokens_view(self.source@);
        }
        if self.position < self.source.len() {
            let token = copy_token(&self.source[self.position]);
            self.position += 1;
            Some(token)
        } else {
            None
        }
    }

    /// Opens a block of `level`, where a block of that level may open.
    pub fn nest(&mut self, level: usize, row: usize, col: usize) -> (r: Result<(), ParseError>)
        ensures
            final(self).wf() == old(self).wf(),
            final(self).tokens() == old(self).tokens(),
            final(self).frontmatter_text() == old(self).frontmatter_text(),
            match r {
                Ok(_) => old(self).cursor().may_nest(level as int) && final(self).cursor() == old(
                    self,
                ).cursor().nest(level as int),
                Err(e) => !old(self).cursor().may_nest(level as int) && final(self).cursor()
                    == old(self).cursor() && e@ == (ParseErrorView {
                    error_type: ParseErrorTypeView::InvalidNestingLevel(level as int),
                    row: row as int,
                    col: col as int,
                }),
            },
    {
        let n: usize = self.nesting_levels.len();
        if n >= BLOCK_DEPTH_MAX || (n > 0 && level >= self.nesting_levels[n - 1]) {
            return Err(ParseError::new(ParseErrorType::InvalidNestingLevel(level), row, col));
        }
        self.nesting_levels.push(level);
        assert(self.cursor().nesting =~= old(self).cursor().nesting.push(level as int));
        Ok(())
    }

    /// Closes the innermost block.
    fn unnest(&mut self)
        ensures
            final(self).wf() == old(self).wf(),
            final(self).tokens() == old(self).tokens(),
            final(self).frontmatter_text() == old(self).frontmatter_text(),
            final(self).cursor() == old(self).cursor().unnest(),
    {
        let _ = self.nesting_levels.pop();
        assert(self.cursor().nesting =~= old(self).cursor().unnest().nesting);
    }

    /// Whether the walk of a block's body goes on: there is a token, and it
    /// is not the closing fence of `end`.
    fn has_next(&self, end: Option<usize>) -> (r: bool)
        requires
            self.wf(),
        ensures
            r == !(self.cursor().peek(self.tokens()) is None || self.cursor().at_end_of(
                self.tokens(),
                match end {
                    Some(level) => Some(level as int),
                    None => None,
                },
            )),
    {
        match self.peek() {
            None => false,
            Some(token) => match end {
                None => true,
                Some(end_level) => match &token.token_type {
                    TokenType::MessageOrDetailsEnd { level } => *level != end_level,
                    _ => true,
                },
            },
        }
    }
}

/// The level of a closing fence, as the model counts it.
pub open spec fn end_view(end: Option<usize>) -> Option<int> {
    match end {
        Some(level) => Some(level as int),
        None => None,
    }
}

impl Parser {
    /// The element that starts at the cursor, or the error that came in the
    /// way.
    pub fn parse_element(&mut self) -> (r: Result<Element, ParseError>)
        requires
            old(self).wf(),
            old(self).cursor().position < old(self).tokens().len(),
        ensures
            final(self).wf(),
            final(self).tokens() == old(self).tokens(),
            final(self).frontmatter_text() == old(self).frontmatter_text(),
            (final(self).cursor(), element_result_view(r)) == parse_element(
                old(self).tokens(),
                old(self).cursor(),
            ),
        decreases old(self).tokens(), old(self).tokens().len() - old(self).cursor().position, 0nat,
    {
        let ghost tokens = self.tokens();
        let ghost start = self.cursor();
        let token = match self.advance() {
            Some(token) => token,
            None => {
                return Ok(Element::Text(String::new()));
            },
        };
        let row = token.row;
        let col = token.col;
        assert(token@ == tokens[start.position]);
        match token.token_type {
            TokenType::Text(text) => Ok(Element::Text(text)),
            TokenType::Url(url) => Ok(Element::Url(url)),
            TokenType::Image { alt, url } => Ok(Element::Image { alt, url }),
            TokenType::LinkCard { card_type, url } => Ok(Element::LinkCard { card_type, url }),
            TokenType::InlineFootnote(footnote) => Ok(Element::InlineFootnote(footnote)),
            TokenType::Footnote(footnote) => Ok(Element::Footnote(footnote)),
            TokenType::MessageBegin { level, kind } => {
                let msg_type = match message_type_named(kind.as_str()) {
                    Some(msg_type) => msg_type,
                    None => {
                        return Err(ParseError::new(ParseErrorType::InvalidMessageType, row, col));
                    },
                };
                match self.nest(level, row, col) {
                    Err(e) => {
                        return Err(e);
                    },
                    Ok(_) => {},
                }
                let body = self.parse_block(Some(level));
                self.advance();
                self.unnest();
                Ok(Element::Message { level, msg_type, body })
            },
            TokenType::DetailsBegin { level, title } => {
                match self.nest(level, row, col) {
                    Err(e) => {
                        return Err(e);
                    },
                    Ok(_) => {},
                }
                let body = self.parse_block(Some(level));
                self.advance();
                self.unnest();
                Ok(Element::Details { level, title, body })
            },
            TokenType::MessageOrDetailsEnd { level: _ } => Err(
                ParseError::new(ParseErrorType::UnexpectedToken, row, col),
            ),
            TokenType::Macro(macro_info) => {
                let ghost m = tokens[start.position].token_type->Macro_0;
                assert(tokens_view(macro_info.zenn@) == m.zenn);
                assert(tokens_view(macro_info.qiita@) == m.qiita);
                let zenn_parser = Parser::new(MarkdownDoc::new(String::new(), macro_info.zenn));
                let zenn = match zenn_parser.parse_body() {
                    Ok(elements) => elements,
                    Err(errors) => {
                        self.push_errors(errors);
                        return Err(ParseError::new(ParseErrorType::InvalidMacro, row, col));
                    },
                };
                let qiita_parser = Parser::new(MarkdownDoc::new(String::new(), macro_info.qiita));
                let qiita = match qiita_parser.parse_body() {
                    Ok(elements) => elements,
                    Err(errors) => {
                        self.push_errors(errors);
                        return Err(ParseError::new(ParseErrorType::InvalidMacro, row, col));
                    },
                };
                Ok(Element::Macro(Macro { zenn, qiita }))
            },
        }
    }

    /// The body of a block up to the closing fence of `end`, or the rest of
    /// the tokens where `end` is none.
    pub fn parse_block(&mut self, end: Option<usize>) -> (r: Vec<Element>)
        requires
            old(self).wf(),
        ensures
            final(self).wf(),
            final(self).tokens() == old(self).tokens(),
            final(self).frontmatter_text() == old(self).frontmatter_text(),
            (final(self).cursor(), elements_view(r@)) == parse_block(
                old(self).tokens(),
                old(self).cursor(),
                end_view(end),
            ),
        decreases old(self).tokens(), old(self).tokens().len() - old(self).cursor().position, 2nat,
    {
        let ghost tokens = self.tokens();
        let ghost start = self.cursor();
        let ghost goal = parse_items(tokens, start, end_view(end));
        let mut elements: Vec<Element> = Vec::new();
        let mut failed = false;
        proof {
            lemma_tokens_view(self.source@);
        }
        assert(elements_view(elements@) + goal.1 == goal.1);
        while !failed && self.has_next(end)
            invariant
                self.wf(),
                self.tokens() == tokens,
                self.frontmatter_text() == old(self).frontmatter_text(),
                tokens == old(self).tokens(),
                start == old(self).cursor(),
                start.position <= self.cursor().position <= tokens.len(),
                goal == parse_items(tokens, start, end_view(end)),
                failed ==> goal == (self.cursor(), elements_view(elements@)),
                !failed ==> goal == (
                    parse_items(tokens, self.cursor(), end_view(end)).0,
                    elements_view(elements@) + parse_items(tokens, self.cursor(), end_view(end)).1,
                ),
            decreases
                    tokens.len() - self.cursor().position + (if failed {
                        0int
                    } else {
                        1int
                    }),
        {
            let ghost here = self.cursor();
            proof {
                lemma_parse_element(tokens, here);
            }
            match self.parse_element() {
                Ok(element) => {
                    proof {
                        lemma_elements_view_push(elements@, element);
                        let rest = parse_items(tokens, self.cursor(), end_view(end)).1;
                        assert(elements_view(elements@) + (seq![element@] + rest)
                            == elements_view(elements@).push(element@) + rest);
                    }
                    elements.push(element);
                },
                Err(error) => {
                    self.push_error(error);
                    failed = true;
                    assert(elements_view(elements@) + Seq::<ElementView>::empty()
                        == elements_view(elements@));
                },
            }
        }
        assert(goal == (self.cursor(), elements_view(elements@))) by {
            if !failed {
                assert(elements_view(elements@) + Seq::<ElementView>::empty() == elements_view(
                    elements@,
                ));
            }
        }
        match end {
            Some(level) => {
                if self.peek().is_none() {
                    self.push_error(
                        ParseError::new(
                            ParseErrorType::CouldNotFindEndToken(
                                TokenType::MessageOrDetailsEnd { level },
                            ),
                            0,
                            0,
                        ),
                    );
                }
            },
            None => {},
        }
        elements
    }

    /// Parses the tokens as a body: the elements, or every error that was
    /// found.
    pub fn parse_body(self) -> (r: Result<Vec<Element>, Vec<ParseError>>)
        requires
            self.fresh(),
        ensures
            parse_result_view(r) == parse_tokens(self.tokens()),
        decreases self.tokens(), self.tokens().len() + 1, 0nat,
    {
        let mut parser = self;
        let elements = parser.parse_block(None);
        if parser.errors.len() > 0 {
            return Err(parser.errors);
        }
        Ok(elements)
    }

    /// Reads the front matter.
    fn parse_frontmatter(&self) -> (r: Result<ZetaFrontmatter, ParseError>)
        ensures
            frontmatter_result_view(r) == parse_frontmatter(self.frontmatter_text()),
    {
        match decode_frontmatter(self.frontmatter.as_str()) {
            Err((line, column)) => Err(
                ParseError::new(ParseErrorType::InvalidFrontMatter, line, column),
            ),
            Ok(frontmatter) => {
                if frontmatter.topics.len() > FRONTMATTER_TOPICS_MAX {
                    let topics = frontmatter.topics;
                    Err(ParseError::new(ParseErrorType::TooManyTopics(topics), 0, 0))
                } else {
                    Ok(frontmatter)
                }
            },
        }
    }

    /// Parses the document: its front matter and its elements, or every
    /// error that was found.
    pub fn parse(self) -> (r: Result<ParsedMd, Vec<ParseError>>)
        requires
            self.fresh(),
        ensures
            parse_view(r) == parse_document(self.document()),
    {
        let mut parser = self;
        let frontmatter = match parser.parse_frontmatter() {
            Ok(frontmatter) => frontmatter,
            Err(error) => {
                parser.push_error(error);
                ZetaFrontmatter::default()
            },
        };
        let elements = parser.parse_block(None);
        if parser.errors.len() > 0 {
            return Err(parser.errors);
        }
        Ok(MarkdownDoc::new(frontmatter, elements))
    }
}

} // verus!
