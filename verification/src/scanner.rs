//! The scanner: from characters to tokens.

use vstd::prelude::*;
use crate::ast::{tokenized_view, DocView, MarkdownDoc, TokenizedMd};
use crate::macros::{decode_macro, Macro, Platform};
use crate::scan_model::{
    fits, scan_text, ScanErrorTypeView, ScanErrorView, ScanResult, ScanState,
    MACRO_DEPTH_MAX,
};
use crate::text::{chars_of, is_white_space, string_from_chars};
use crate::token::{
    lemma_tokens_view, lemma_tokens_view_push, tokens_view, Token, TokenType, TokenView,
};

verus! {

/// An error of the scanner, with the position it was found at.
#[derive(Debug, Clone, PartialEq, Eq)]
pub struct ScanError {
    pub error_type: ScanErrorType,
    pub row: usize,
    pub col: usize,
}

/// What went wrong.
#[derive(Debug, Clone, PartialEq, Eq)]
pub enum ScanErrorType {
    /// The closing text of a span never came.
    Incomplete(String),
    /// A macro's body could not be read, or one of its texts has errors.
    InvalidMacro,
}

impl View for ScanErrorType {
    type V = ScanErrorTypeView;

    open spec fn view(&self) -> ScanErrorTypeView {
        match self {
            ScanErrorType::Incomplete(s) => ScanErrorTypeView::Incomplete(s@),
            ScanErrorType::InvalidMacro => ScanErrorTypeView::InvalidMacro,
        }
    }
}

impl View for ScanError {
    type V = ScanErrorView;

    open spec fn view(&self) -> ScanErrorView {
        ScanErrorView { error_type: self.error_type@, row: self.row as int, col: self.col as int }
    }
}

impl ScanErrorType {
    /// The message of the error, as a value.
    pub open spec fn message_text(self) -> Seq<char> {
        match self {
            ScanErrorType::Incomplete(keyword) => "Incomplete '"@ + keyword@ + "'."@,
            ScanErrorType::InvalidMacro => "Invalid macro."@,
        }
    }

    /// The message of the error.
    pub fn message(&self) -> (r: String)
        ensures
            r@ == self.message_text(),
    {
        match self {
            ScanErrorType::Incomplete(keyword) => {
                let mut out = String::new();
                out.append("Incomplete '");
                out.append(keyword.as_str());
                out.append("'.");
                assert(out@ =~= self.message_text());
                out
            },
            ScanErrorType::InvalidMacro => "Invalid macro.".to_owned(),
        }
    }
}

impl ScanError {
    pub fn new(error_type: ScanErrorType, row: usize, col: usize) -> (e: Self)
        ensures
            e.error_type == error_type,
            e.row == row,
            e.col == col,
    {
        Self { error_type, row, col }
    }
}

/// The values of a sequence of errors, one for one.
pub open spec fn errors_view(v: Seq<ScanError>) -> Seq<ScanErrorView> {
    v.map_values(|e: ScanError| e@)
}

/// The outcome of scanning, by the values of its parts.
pub open spec fn scan_result_view(r: Result<Vec<Token>, Vec<ScanError>>) -> ScanResult {
    match r {
        Ok(tokens) => Ok(tokens_view(tokens@)),
        Err(errors) => Err(errors_view(errors@)),
    }
}

/// The outcome of scanning a macro's text, by the values of its parts.
pub open spec fn nested_view(r: Option<Result<Vec<Token>, Vec<ScanError>>>) -> Option<ScanResult> {
    match r {
        Some(inner) => Some(scan_result_view(inner)),
        None => None,
    }
}

/// The outcome of scanning a document, by the values of its parts.
pub open spec fn scan_file_view(r: Result<TokenizedMd, Vec<ScanError>>) -> Result<
    DocView<Seq<char>, TokenView>,
    Seq<ScanErrorView>,
> {
    match r {
        Ok(doc) => Ok(tokenized_view(doc)),
        Err(errors) => Err(errors_view(errors@)),
    }
}

/// The state that a step leaves, with the error recorded that the step
/// handed back.
pub open spec fn with_error(state: ScanState, r: Result<(), ScanError>) -> ScanState {
    match r {
        Ok(_) => state,
        Err(e) => state.fail(e@),
    }
}

/// A scanner over the characters of one text.
#[derive(Debug, Clone)]
pub struct Scanner {
    source: Vec<char>,
    current: usize,
    start: usize,
    row: usize,
    col: usize,
    mark_row: usize,
    mark_col: usize,
    tokens: Vec<Token>,
    errors: Vec<ScanError>,
    depth: usize,
}

impl View for Scanner {
    type V = ScanState;

    closed spec fn view(&self) -> ScanState {
        ScanState {
            source: self.source@,
            current: self.current as int,
            start: self.start as int,
            row: self.row as int,
            col: self.col as int,
            mark_row: self.mark_row as int,
            mark_col: self.mark_col as int,
            tokens: tokens_view(self.tokens@),
            errors: errors_view(self.errors@),
        }
    }
}

impl Scanner {
    /// How deep macros may still be nested in what this scanner scans.
    pub closed spec fn depth(&self) -> nat {
        self.depth as nat
    }

    /// The state is well formed, and no position can leave the machine's
    /// integers before the cursor reaches the end.
    pub open spec fn wf(&self) -> bool {
        &&& self@.wf()
        &&& self@.source.len() + 1 <= usize::MAX
        &&& self@.row + self@.remaining() <= usize::MAX
        &&& self@.col + self@.remaining() <= usize::MAX
    }

    /// The cursor stands in the source or at its end.
    pub open spec fn in_source(&self) -> bool {
        self@.current <= self@.source.len()
    }

    /// A scanner at the start of a document.
    pub fn new(source: Vec<char>) -> (s: Self)
        requires
            source@.len() + 2 <= usize::MAX,
        ensures
            s@ == ScanState::initial(source@, 1, 1),
            s.wf(),
            s.depth() == MACRO_DEPTH_MAX,
    {
        Self::with_row_col(source, 1, 1)
    }

    /// A scanner at the start of a text that stands at the given row and
    /// column.
    pub fn with_row_col(source: Vec<char>, row: usize, col: usize) -> (s: Self)
        requires
            fits(source@.len() as int, row as int, col as int),
        ensures
            s@ == ScanState::initial(source@, row as int, col as int),
            s.wf(),
            s.depth() == MACRO_DEPTH_MAX,
    {
        Self::with_depth(source, row, col, MACRO_DEPTH_MAX)
    }

    fn with_depth(source: Vec<char>, row: usize, col: usize, depth: usize) -> (s: Self)
        requires
            fits(source@.len() as int, row as int, col as int),
        ensures
            s@ == ScanState::initial(source@, row as int, col as int),
            s.wf(),
            s.depth() == depth,
    {
        let s = Self {
            source,
            current: 0,
            start: 0,
            row,
            col,
            mark_row: row,
            mark_col: col,
            tokens: Vec::new(),
            errors: Vec::new(),
            depth,
        };
        assert(tokens_view(s.tokens@) == Seq::<TokenView>::empty());
        assert(errors_view(s.errors@) =~= Seq::<ScanErrorView>::empty());
        s
    }

    fn make_token(&self, token_type: TokenType) -> (t: Token)
        ensures
            t@ == self@.make_token(token_type@),
    {
        Token { token_type, row: self.row, col: self.col }
    }

    fn push_token(&mut self, token_type: TokenType)
        ensures
            final(self)@ == old(self)@.push(token_type@),
            final(self).depth == old(self).depth,
    {
        let token = self.make_token(token_type);
        proof {
            lemma_tokens_view_push(self.tokens@, token);
        }
        self.tokens.push(token);
    }

    fn push_error(&mut self, error: ScanError)
        ensures
            final(self)@ == old(self)@.fail(error@),
            final(self).depth == old(self).depth,
    {
        self.errors.push(error);
        assert(errors_view(self.errors@) =~= errors_view(old(self).errors@).push(error@));
    }

    fn advance(&mut self) -> (r: Option<char>)
        requires
            old(self).wf(),
            old(self).in_source(),
        ensures
            final(self)@ == old(self)@.advance(),
            final(self).wf(),
            final(self).depth == old(self).depth,
            r == old(self)@.peek(),
    {
        let result = if self.current < self.source.len() {
            Some(self.source[self.current])
        } else {
            None
        };
        self.mark_row = self.row;
        self.mark_col = self.col;
        self.current += 1;
        match result {
            Some('\n') => {
                self.row += 1;
                self.col = 1;
            },
            _ => {
                self.col += 1;
            },
        }
        result
    }

    fn is_at_end(&self) -> (r: bool)
        ensures
            r == self@.at_end(),
    {
        self.current >= self.source.len()
    }

    fn peek(&self) -> (r: Option<char>)
        ensures
            r == self@.peek(),
    {
        if self.current < self.source.len() {
            Some(self.source[self.current])
        } else {
            None
        }
    }

    fn matches_keyword(&self, keyword: &str) -> (r: bool)
        ensures
            r == self@.matches(keyword@),
    {
        let k = chars_of(keyword);
        let n: usize = k.len();
        if self.current > self.source.len() || n > self.source.len() - self.current {
            return false;
        }
        let mut i: usize = 0;
        while i < n
            invariant
                n == k.len(),
                k@ == keyword@,
                self.current + n <= self.source.len(),
                i <= n,
                self.source@.subrange(self.current as int, self.current + i) == k@.subrange(
                    0,
                    i as int,
                ),
            decreases n - i,
        {
            if self.source[self.current + i] != k[i] {
                assert(self.source@.subrange(self.current as int, self.current + n)[i as int]
                    != k@[i as int]);
                return false;
            }
            i += 1;
            assert(self.source@.subrange(self.current as int, self.current + i)
                == self.source@.subrange(self.current as int, self.current + i - 1).push(
                self.source@[self.current + i - 1],
            ));
            assert(k@.subrange(0, i as int) == k@.subrange(0, i - 1).push(k@[i - 1]));
        }
        assert(k@.subrange(0, n as int) == k@);
        true
    }

    fn delete_buffer(&mut self)
        ensures
            final(self)@ == old(self)@.delete_buffer(),
            old(self).wf() ==> final(self).wf(),
            final(self).depth == old(self).depth,
    {
        self.start = self.current;
    }

    fn consume_buffer(&mut self) -> (r: String)
        ensures
            r@ == old(self)@.buffer(),
            final(self)@ == old(self)@.delete_buffer(),
            old(self).wf() ==> final(self).wf(),
            final(self).depth == old(self).depth,
    {
        let result = string_from_chars(&self.source, self.start, self.current);
        self.start = self.current;
        result
    }

    fn expect_string(&mut self, string: &str) -> (r: bool)
        requires
            old(self).wf(),
        ensures
            r == old(self)@.matches(string@),
            final(self)@ == old(self)@.expect(string@),
            final(self)@.errors == old(self)@.errors,
            final(self).wf(),
            old(self).in_source() ==> final(self).in_source(),
            final(self).depth == old(self).depth,
    {
        if self.matches_keyword(string) {
            let n: usize = string.unicode_len();
            let mut i: usize = 0;
            while i < n
                invariant
                    n == string@.len(),
                    i <= n,
                    self.wf(),
                    self.depth == old(self).depth,
                    self.current + (n - i) <= self.source.len(),
                    self@.advance_by((n - i) as nat) == old(self)@.advance_by(n as nat),
                    self@.errors == old(self)@.errors,
                decreases n - i,
            {
                self.advance();
                i += 1;
            }
            true
        } else {
            false
        }
    }

    fn collect_text(&mut self)
        ensures
            final(self)@ == old(self)@.collect_text(),
            old(self).wf() ==> final(self).wf(),
            old(self).in_source() ==> final(self).in_source(),
            final(self).depth == old(self).depth,
    {
        let ghost before = self@;
        let text = self.consume_buffer();
        self.push_token(TokenType::Text(text));
        assert(self@ == before.collect_text());
    }

    fn extract_until_unchecked(&mut self, until: &str)
        requires
            old(self).wf(),
        ensures
            final(self)@ == old(self)@.skip_until(until@),
            final(self)@.errors == old(self)@.errors,
            final(self).wf(),
            old(self).in_source() ==> final(self).in_source(),
            final(self).depth == old(self).depth,
    {
        while !self.is_at_end() && !self.matches_keyword(until)
            invariant
                self.wf(),
                self.depth == old(self).depth,
                old(self).in_source() ==> self.in_source(),
                self@.skip_until(until@) == old(self)@.skip_until(until@),
                self@.errors == old(self)@.errors,
            decreases self.source.len() - self.current,
        {
            self.advance();
        }
    }

    fn extract_until(&mut self, end: &str) -> (r: Result<(), ScanError>)
        requires
            old(self).wf(),
            old(self).in_source(),
        ensures
            final(self).wf(),
            final(self).depth == old(self).depth,
            final(self)@.errors == old(self)@.errors,
            match r {
                Ok(_) => old(self)@.found(end@) && final(self)@ == old(self)@.skip_until(end@)
                    && final(self).in_source(),
                Err(e) => !old(self)@.found(end@) && final(self)@.fail(e@) == old(self)@.give_up(
                    end@,
                ),
            },
    {
        let pos = self.current;
        let row = self.row;
        let col = self.col;
        let mark_row = self.mark_row;
        let mark_col = self.mark_col;
        self.extract_until_unchecked(end);
        proof {
            old(self)@.lemma_skip_until(end@);
        }
        if self.is_at_end() {
            self.current = pos;
            self.row = row;
            self.col = col;
            self.mark_row = mark_row;
            self.mark_col = mark_col;
            assert(self@ == old(self)@);
            self.advance();
            return Err(
                ScanError::new(ScanErrorType::Incomplete(end.to_owned()), mark_row, mark_col),
            );
        }
        Ok(())
    }

    fn extract_while(&mut self, c: char)
        requires
            old(self).wf(),
        ensures
            final(self)@ == old(self)@.skip_while(c),
            final(self)@.errors == old(self)@.errors,
            final(self).wf(),
            old(self).in_source() ==> final(self).in_source(),
            final(self).depth == old(self).depth,
    {
        while self.peek() == Some(c)
            invariant
                self.wf(),
                self.depth == old(self).depth,
                old(self).in_source() ==> self.in_source(),
                self@.skip_while(c) == old(self)@.skip_while(c),
                self@.errors == old(self)@.errors,
            decreases self.source.len() - self.current,
        {
            self.advance();
        }
    }

    fn at_word(&self) -> (r: bool)
        ensures
            r == (self@.peek() is Some && !is_white_space(self@.peek()->0)),
    {
        match self.peek() {
            Some(c) => !c.is_whitespace(),
            None => false,
        }
    }

    fn extract_word(&mut self)
        requires
            old(self).wf(),
        ensures
            final(self)@ == old(self)@.skip_word(),
            final(self)@.errors == old(self)@.errors,
            final(self).wf(),
            old(self).in_source() ==> final(self).in_source(),
            final(self).depth == old(self).depth,
    {
        while self.at_word()
            invariant
                self.wf(),
                self.depth == old(self).depth,
                old(self).in_source() ==> self.in_source(),
                self@.skip_word() == old(self)@.skip_word(),
                self@.errors == old(self)@.errors,
            decreases self.source.len() - self.current,
        {
            self.advance();
        }
    }

    fn consume_spaces(&mut self)
        requires
            old(self).wf(),
        ensures
            final(self)@ == old(self)@.skip_while(' '),
            final(self)@.errors == old(self)@.errors,
            final(self).wf(),
            old(self).in_source() ==> final(self).in_source(),
            final(self).depth == old(self).depth,
    {
        self.extract_while(' ');
    }
}

impl Scanner {
    /// `![alt](url)` where `image` holds, else `@[card_type](url)`.
    fn scan_link(&mut self, image: bool) -> (r: Result<(), ScanError>)
        requires
            old(self).wf(),
            old(self).in_source(),
        ensures
            final(self).wf(),
            final(self).depth == old(self).depth,
            with_error(final(self)@, r) == old(self)@.scan_link(image),
            r is Err <==> old(self)@.scan_link(image).errors.len() > old(self)@.errors.len(),
    {
        self.collect_text();
        self.expect_string(
            if image {
                "!["
            } else {
                "@["
            },
        );
        self.delete_buffer();
        match self.extract_until("]") {
            Err(e) => {
                return Err(e);
            },
            Ok(_) => {},
        }
        let first = self.consume_buffer();
        self.expect_string("](");
        self.delete_buffer();
        match self.extract_until(")") {
            Err(e) => {
                return Err(e);
            },
            Ok(_) => {},
        }
        let url = self.consume_buffer();
        self.expect_string(")");
        self.delete_buffer();
        self.push_token(
            if image {
                TokenType::Image { alt: first, url }
            } else {
                TokenType::LinkCard { card_type: first, url }
            },
        );
        Ok(())
    }

    /// `^[content]`
    fn scan_inline_footnote(&mut self) -> (r: Result<(), ScanError>)
        requires
            old(self).wf(),
            old(self).in_source(),
        ensures
            final(self).wf(),
            final(self).depth == old(self).depth,
            with_error(final(self)@, r) == old(self)@.scan_inline_footnote(),
            r is Err <==> old(self)@.scan_inline_footnote().errors.len() > old(self)@.errors.len(),
    {
        self.collect_text();
        self.expect_string("^[");
        self.delete_buffer();
        match self.extract_until("]") {
            Err(e) => {
                return Err(e);
            },
            Ok(_) => {},
        }
        let footnote = self.consume_buffer();
        self.expect_string("]");
        self.delete_buffer();
        self.push_token(TokenType::InlineFootnote(footnote));
        Ok(())
    }

    /// `[^identifier]`, or the head of a footnote's definition.
    fn scan_footnote(&mut self) -> (r: Result<(), ScanError>)
        requires
            old(self).wf(),
            old(self).in_source(),
        ensures
            final(self).wf(),
            final(self).depth == old(self).depth,
            with_error(final(self)@, r) == old(self)@.scan_footnote(),
            r is Err <==> old(self)@.scan_footnote().errors.len() > old(self)@.errors.len(),
    {
        let start = self.current;
        self.collect_text();
        self.expect_string("[^");
        self.delete_buffer();
        match self.extract_until("]") {
            Err(e) => {
                return Err(e);
            },
            Ok(_) => {},
        }
        let footnote = self.consume_buffer();
        self.expect_string("]");
        self.delete_buffer();
        if self.matches_keyword(":") {
            proof {
                old(self)@.lemma_scan_footnote_bounds();
            }
            self.start = start;
            return Ok(());
        }
        self.push_token(TokenType::Footnote(footnote));
        Ok(())
    }

    /// A code span or a code block.
    fn scan_code(&mut self) -> (r: Result<(), ScanError>)
        requires
            old(self).wf(),
            old(self).in_source(),
        ensures
            final(self).wf(),
            final(self).depth == old(self).depth,
            with_error(final(self)@, r) == old(self)@.scan_code(),
            r is Err <==> old(self)@.scan_code().errors.len() > old(self)@.errors.len(),
    {
        let fence = if self.matches_keyword("```") {
            "```"
        } else {
            "`"
        };
        self.expect_string(fence);
        match self.extract_until(fence) {
            Err(e) => {
                return Err(e);
            },
            Ok(_) => {},
        }
        self.expect_string(fence);
        Ok(())
    }

    /// A link on a line of its own.
    fn scan_url(&mut self)
        requires
            old(self).wf(),
            old(self).in_source(),
        ensures
            final(self).wf(),
            final(self).in_source(),
            final(self).depth == old(self).depth,
            final(self)@ == old(self)@.scan_url(),
            final(self)@.errors == old(self)@.errors,
    {
        self.collect_text();
        self.extract_word();
        let url = self.consume_buffer();
        self.push_token(TokenType::Url(url));
    }

    /// A fence of colons at the start of a line. After a fence that opens a
    /// block the cursor stands at the line break that ends the line.
    fn scan_fence(&mut self) -> (r: Result<(), ScanError>)
        requires
            old(self).wf(),
            old(self).in_source(),
        ensures
            final(self).wf(),
            final(self).depth == old(self).depth,
            with_error(final(self)@, r) == old(self)@.scan_fence(),
            r is Err <==> old(self)@.scan_fence().errors.len() > old(self)@.errors.len(),
    {
        self.collect_text();
        self.expect_string(":::");
        let before = self.current;
        self.extract_while(':');
        proof {
            old(self)@.collect_text().expect(":::"@).lemma_skip_while(':');
        }
        let level: usize = self.current - before;
        let message = self.matches_keyword("message");
        if message || self.matches_keyword("details") {
            self.expect_string(
                if message {
                    "message"
                } else {
                    "details"
                },
            );
            self.consume_spaces();
            self.delete_buffer();
            match self.extract_until("\n") {
                Err(e) => {
                    return Err(e);
                },
                Ok(_) => {},
            }
            let text = self.consume_buffer();
            self.push_token(
                if message {
                    TokenType::MessageBegin { level, kind: text }
                } else {
                    TokenType::DetailsBegin { level, title: text }
                },
            );
            Ok(())
        } else {
            self.delete_buffer();
            self.push_token(TokenType::MessageOrDetailsEnd { level });
            Ok(())
        }
    }

    /// What is done at the start of a line: a link or a fence is scanned
    /// where one stands there. An error is handed back, for the caller to
    /// record.
    pub fn block_element(&mut self) -> (r: Result<(), ScanError>)
        requires
            old(self).wf(),
            old(self).in_source(),
        ensures
            final(self).wf(),
            final(self).depth() == old(self).depth(),
            with_error(final(self)@, r) == old(self)@.line_start(),
            r is Err <==> old(self)@.line_start().errors.len() > old(self)@.errors.len(),
            r matches Err(e) ==> e@ == old(self)@.line_start().errors.last(),
    {
        let c_next = match self.peek() {
            None => {
                return Ok(());
            },
            Some(c) => c,
        };
        self.consume_spaces();
        if c_next == 'h' {
            if !(self.matches_keyword("https://") || self.matches_keyword("http://")) {
                self.advance();
                return Ok(());
            }
            self.scan_url();
        } else if c_next == ':' {
            if !self.matches_keyword(":::") {
                return Ok(());
            }
            return self.scan_fence();
        }
        Ok(())
    }

    /// Whether the cursor stands at the end of the line of a fence that
    /// opened a block.
    fn ends_opening_fence(&self) -> (r: bool)
        ensures
            r == self@.ends_opening_fence(),
    {
        proof {
            lemma_tokens_view(self.tokens@);
        }
        let n: usize = self.tokens.len();
        if n == 0 {
            return false;
        }
        let last = &self.tokens[n - 1];
        let opens = match &last.token_type {
            TokenType::MessageBegin { level: _, kind: _ } => true,
            TokenType::DetailsBegin { level: _, title: _ } => true,
            _ => false,
        };
        opens && last.row == self.row && last.col == self.col
    }

    /// Passes a line break, which is no part of the text that follows where
    /// it ends the line of a fence that opened a block.
    fn pass_line_break(&mut self)
        requires
            old(self).wf(),
            old(self).in_source(),
        ensures
            final(self).wf(),
            final(self).depth == old(self).depth,
            final(self)@ == old(self)@.pass_line_break(),
    {
        let belongs_to_fence = self.ends_opening_fence();
        self.advance();
        if belongs_to_fence {
            self.delete_buffer();
        }
    }
}

impl Scanner {
    /// Scans one text of a macro, which stands at the given row and column:
    /// none where macros are nested too deep or the text's positions would
    /// not fit the machine's integers.
    fn scan_nested(&self, text: String, row: usize, col: usize) -> (r: Option<
        Result<Vec<Token>, Vec<ScanError>>,
    >)
        ensures
            nested_view(r) == (if self.depth() == 0 || !fits(
                text@.len() as int,
                row as int,
                col as int,
            ) {
                None
            } else {
                Some(scan_text(text@, row as int, col as int, (self.depth() - 1) as nat))
            }),
        decreases self.depth(), 0int,
    {
        let chars = chars_of(text.as_str());
        if self.depth == 0 {
            return None;
        }
        let n: usize = chars.len();
        if n > usize::MAX - 2 || row > usize::MAX - 1 - n || col > usize::MAX - 1 - n {
            return None;
        }
        let scanner = Scanner::with_depth(chars, row, col, self.depth - 1);
        Some(scanner.scan_body())
    }

    /// `<macro>` ... `</macro>`
    fn scan_macro(&mut self) -> (r: Result<(), ScanError>)
        requires
            old(self).wf(),
            old(self).in_source(),
        ensures
            final(self).wf(),
            final(self).depth == old(self).depth,
            with_error(final(self)@, r) == old(self)@.scan_macro(
                old(self)@.nested(Platform::Zenn, old(self).depth()),
                old(self)@.nested(Platform::Qiita, old(self).depth()),
            ),
            r is Err <==> old(self)@.scan_macro(
                old(self)@.nested(Platform::Zenn, old(self).depth()),
                old(self)@.nested(Platform::Qiita, old(self).depth()),
            ).errors.len() > old(self)@.errors.len(),
        decreases old(self).depth(), 1int,
    {
        self.collect_text();
        self.expect_string("<macro>");
        let row = self.row;
        let col = self.col;
        self.delete_buffer();
        match self.extract_until("</macro>") {
            Err(e) => {
                return Err(e);
            },
            Ok(_) => {},
        }
        let body = self.consume_buffer();
        self.expect_string("</macro>");
        self.delete_buffer();
        assert(body@ == old(self)@.macro_body());
        let parts = match decode_macro(body.as_str()) {
            None => {
                return Err(ScanError::new(ScanErrorType::InvalidMacro, row, col));
            },
            Some(parts) => parts,
        };
        let zenn_text = match parts.zenn {
            Some(text) => text,
            None => String::new(),
        };
        assert(zenn_text@ == old(self)@.macro_text(Platform::Zenn));
        let zenn = match self.scan_nested(zenn_text, row, col) {
            None => {
                return Err(ScanError::new(ScanErrorType::InvalidMacro, row, col));
            },
            Some(Err(errors)) => {
                let mut errors = errors;
                let ghost before = self.errors@;
                let ghost added = errors@;
                self.errors.append(&mut errors);
                assert(errors_view(self.errors@) =~= errors_view(before) + errors_view(added));
                return Err(ScanError::new(ScanErrorType::InvalidMacro, row, col));
            },
            Some(Ok(tokens)) => tokens,
        };
        let qiita_text = match parts.qiita {
            Some(text) => text,
            None => String::new(),
        };
        assert(qiita_text@ == old(self)@.macro_text(Platform::Qiita));
        let qiita = match self.scan_nested(qiita_text, row, col) {
            None => {
                return Err(ScanError::new(ScanErrorType::InvalidMacro, row, col));
            },
            Some(Err(errors)) => {
                let mut errors = errors;
                let ghost before = self.errors@;
                let ghost added = errors@;
                self.errors.append(&mut errors);
                assert(errors_view(self.errors@) =~= errors_view(before) + errors_view(added));
                return Err(ScanError::new(ScanErrorType::InvalidMacro, row, col));
            },
            Some(Ok(tokens)) => tokens,
        };
        self.push_token(TokenType::Macro(Macro { zenn, qiita }));
        Ok(())
    }

    /// One step of the scanner. The error of the step is handed back, for
    /// the caller to record: the result is an error exactly where the step
    /// adds one, and it holds the one added last. The errors of a macro's
    /// texts are recorded by the step itself.
    pub fn scan(&mut self) -> (r: Result<(), ScanError>)
        requires
            old(self).wf(),
        ensures
            final(self).wf(),
            final(self).depth() == old(self).depth(),
            with_error(final(self)@, r) == old(self)@.scan_step(old(self).depth()),
            r is Err <==> old(self)@.scan_step(old(self).depth()).errors.len() > old(
                self,
            )@.errors.len(),
            r matches Err(e) ==> e@ == old(self)@.scan_step(old(self).depth()).errors.last(),
        decreases old(self).depth(), 2int,
    {
        let c = match self.peek() {
            None => {
                return Ok(());
            },
            Some(c) => c,
        };
        if c == '!' {
            if !self.matches_keyword("![") {
                self.advance();
                return Ok(());
            }
            self.scan_link(true)
        } else if c == '@' {
            if !self.matches_keyword("@[") {
                self.advance();
                return Ok(());
            }
            self.scan_link(false)
        } else if c == '^' {
            if !self.matches_keyword("^[") {
                self.advance();
                return Ok(());
            }
            self.scan_inline_footnote()
        } else if c == '[' {
            if !self.matches_keyword("[^") {
                self.advance();
                return Ok(());
            }
            self.scan_footnote()
        } else if c == '`' {
            self.scan_code()
        } else if c == '<' {
            if !self.matches_keyword("<macro>") {
                self.advance();
                return Ok(());
            }
            self.scan_macro()
        } else if c == '\n' {
            self.pass_line_break();
            self.block_element()
        } else {
            self.advance();
            Ok(())
        }
    }

    /// Scans the rest of the source: the tokens, or every error that was
    /// found.
    pub fn scan_body(self) -> (r: Result<Vec<Token>, Vec<ScanError>>)
        requires
            self.wf(),
        ensures
            scan_result_view(r) == self@.scan_body(self.depth()),
        decreases self.depth(), 3int,
    {
        let mut scanner = self;
        while !scanner.is_at_end()
            invariant
                scanner.wf(),
                scanner.depth == self.depth,
                scanner@.scan_to_end(self.depth()) == self@.scan_to_end(self.depth()),
            decreases scanner@.remaining(),
        {
            proof {
                scanner@.lemma_step(
                    scanner@.nested(Platform::Zenn, self.depth()),
                    scanner@.nested(Platform::Qiita, self.depth()),
                );
            }
            match scanner.scan() {
                Err(e) => {
                    scanner.push_error(e);
                },
                Ok(_) => {},
            }
        }
        scanner.collect_text();
        if scanner.errors.len() > 0 {
            return Err(scanner.errors);
        }
        Ok(scanner.tokens)
    }

    /// The front matter: the text between the separator lines.
    fn scan_frontmatter(&mut self) -> (r: Result<String, ScanError>)
        requires
            old(self).wf(),
            old(self).in_source(),
        ensures
            final(self).wf(),
            final(self).depth == old(self).depth,
            match r {
                Ok(header) => final(self)@ == old(self)@.scan_frontmatter().0 && old(
                    self,
                )@.scan_frontmatter().1 == Some(header@),
                Err(e) => final(self)@.fail(e@) == old(self)@.scan_frontmatter().0 && old(
                    self,
                )@.scan_frontmatter().1 is None,
            },
    {
        self.consume_spaces();
        self.expect_string("---\n");
        self.delete_buffer();
        match self.extract_until("---\n") {
            Err(e) => {
                return Err(e);
            },
            Ok(_) => {},
        }
        let header = self.consume_buffer();
        self.expect_string("---\n");
        self.delete_buffer();
        Ok(header)
    }

    /// Scans a document: the text of its front matter and the tokens of its
    /// body, or every error that was found.
    pub fn scan_file(self) -> (r: Result<TokenizedMd, Vec<ScanError>>)
        requires
            self.wf(),
            self.in_source(),
        ensures
            scan_file_view(r) == self@.scan_file(self.depth()),
    {
        let mut scanner = self;
        let frontmatter = match scanner.scan_frontmatter() {
            Ok(frontmatter) => frontmatter,
            Err(e) => {
                scanner.push_error(e);
                String::new()
            },
        };
        if scanner.current <= scanner.source.len() {
            match scanner.block_element() {
                Err(e) => {
                    scanner.push_error(e);
                },
                Ok(_) => {},
            }
        }
        let body = match scanner.scan_body() {
            Err(errors) => {
                return Err(errors);
            },
            Ok(tokens) => tokens,
        };
        Ok(MarkdownDoc::new(frontmatter, body))
    }
}

} // verus!
