//! What the scanner computes, as a function of the characters it is given.
//!
//! The scanner walks the source once. Its state is a cursor with the row and
//! column of the character under it, the start of the text that no token has
//! taken yet, and the tokens and errors so far. Each construct of the dialect
//! is a function from state to state, and a document is scanned by taking
//! steps until the cursor reaches the end.

use vstd::prelude::*;
use crate::ast::DocView;
use crate::macros::{macro_of_text, Macro, Platform};
use crate::text::{is_white_space, span};
use crate::token::{TokenTypeView, TokenView};

verus! {

/// How many macros may stand inside one another.
pub const MACRO_DEPTH_MAX: usize = 8;

/// The mathematical value of a scan error's type.
pub enum ScanErrorTypeView {
    /// The text that was looked for and never came.
    Incomplete(Seq<char>),
    InvalidMacro,
}

/// The mathematical value of a scan error.
pub struct ScanErrorView {
    pub error_type: ScanErrorTypeView,
    pub row: int,
    pub col: int,
}

/// The tokens of a text, or the errors found in it.
pub type ScanResult = Result<Seq<TokenView>, Seq<ScanErrorView>>;

/// The state of a scanner.
pub struct ScanState {
    pub source: Seq<char>,
    /// The index of the character under the cursor.
    pub current: int,
    /// The index at which the pending text starts.
    pub start: int,
    /// The row and column of the character under the cursor.
    pub row: int,
    pub col: int,
    /// The row and column of the character that was passed last.
    pub mark_row: int,
    pub mark_col: int,
    pub tokens: Seq<TokenView>,
    pub errors: Seq<ScanErrorView>,
}

/// Whether a text of `len` characters can be scanned from the given row and
/// column with every position still a machine integer.
pub open spec fn fits(len: int, row: int, col: int) -> bool {
    &&& 0 <= row
    &&& 0 <= col
    &&& len + 2 <= usize::MAX
    &&& len + 1 + row <= usize::MAX
    &&& len + 1 + col <= usize::MAX
}

/// The text that is scanned for a platform: the macro's string, or nothing
/// where the macro has none.
pub open spec fn text_or_empty(text: Option<Seq<char>>) -> Seq<char> {
    match text {
        Some(s) => s,
        None => Seq::empty(),
    }
}

impl ScanState {
    /// The state before anything is scanned.
    pub open spec fn initial(source: Seq<char>, row: int, col: int) -> ScanState {
        ScanState {
            source,
            current: 0,
            start: 0,
            row,
            col,
            mark_row: row,
            mark_col: col,
            tokens: Seq::empty(),
            errors: Seq::empty(),
        }
    }

    /// The cursor is in the source or at most one past its end, and the
    /// pending text starts no later than the cursor.
    pub open spec fn wf(self) -> bool {
        &&& 0 <= self.start <= self.current <= self.source.len() + 1
        &&& 0 <= self.row
        &&& 0 <= self.col
    }

    /// How far the cursor can still go.
    pub open spec fn remaining(self) -> int {
        self.source.len() + 1 - self.current
    }

    pub open spec fn at_end(self) -> bool {
        self.current >= self.source.len()
    }

    /// The character under the cursor.
    pub open spec fn peek(self) -> Option<char> {
        if 0 <= self.current < self.source.len() {
            Some(self.source[self.current])
        } else {
            None
        }
    }

    /// Passes one character. After a line break the cursor stands in column
    /// 1 of the next row, after anything else in the next column.
    pub open spec fn advance(self) -> ScanState {
        let line_break = self.peek() == Some('\n');
        ScanState {
            current: self.current + 1,
            row: if line_break {
                self.row + 1
            } else {
                self.row
            },
            col: if line_break {
                1
            } else {
                self.col + 1
            },
            mark_row: self.row,
            mark_col: self.col,
            ..self
        }
    }

    /// Passes `n` characters.
    pub open spec fn advance_by(self, n: nat) -> ScanState
        decreases n,
    {
        if n == 0 {
            self
        } else {
            self.advance().advance_by((n - 1) as nat)
        }
    }

    /// Whether `keyword` stands at the cursor.
    pub open spec fn matches(self, keyword: Seq<char>) -> bool {
        &&& 0 <= self.current
        &&& self.current + keyword.len() <= self.source.len()
        &&& self.source.subrange(self.current, self.current + keyword.len()) == keyword
    }

    /// Passes `keyword` where it stands at the cursor.
    pub open spec fn expect(self, keyword: Seq<char>) -> ScanState {
        if self.matches(keyword) {
            self.advance_by(keyword.len())
        } else {
            self
        }
    }

    /// The pending text: from its start up to the cursor.
    pub open spec fn buffer(self) -> Seq<char> {
        span(self.source, self.start, self.current)
    }

    /// Drops the pending text.
    pub open spec fn delete_buffer(self) -> ScanState {
        ScanState { start: self.current, ..self }
    }

    /// A token at the cursor's position.
    pub open spec fn make_token(self, token_type: TokenTypeView) -> TokenView {
        TokenView { token_type, row: self.row, col: self.col }
    }

    /// Adds a token at the cursor's position.
    pub open spec fn push(self, token_type: TokenTypeView) -> ScanState {
        ScanState { tokens: self.tokens.push(self.make_token(token_type)), ..self }
    }

    /// Turns the pending text into a text token.
    pub open spec fn collect_text(self) -> ScanState {
        self.push(TokenTypeView::Text(self.buffer())).delete_buffer()
    }

    /// Adds an error.
    pub open spec fn fail(self, error: ScanErrorView) -> ScanState {
        ScanState { errors: self.errors.push(error), ..self }
    }

    /// Passes characters up to the next place where `keyword` stands, or to
    /// the end where it stands nowhere.
    pub open spec fn skip_until(self, keyword: Seq<char>) -> ScanState
        decreases self.source.len() - self.current,
    {
        if self.at_end() || self.matches(keyword) {
            self
        } else {
            self.advance().skip_until(keyword)
        }
    }

    /// Passes every `c` at the cursor.
    pub open spec fn skip_while(self, c: char) -> ScanState
        decreases self.source.len() - self.current,
    {
        if self.peek() == Some(c) {
            self.advance().skip_while(c)
        } else {
            self
        }
    }

    /// Passes characters up to the next white space or the end.
    pub open spec fn skip_word(self) -> ScanState
        decreases self.source.len() - self.current,
    {
        if self.peek() is Some && !is_white_space(self.peek()->0) {
            self.advance().skip_word()
        } else {
            self
        }
    }

    /// Whether `keyword` stands somewhere from the cursor on.
    pub open spec fn found(self, keyword: Seq<char>) -> bool {
        !self.skip_until(keyword).at_end()
    }

    /// The error for a `keyword` that never came: it carries the position of
    /// the character passed last, which ends what opened the span.
    pub open spec fn incomplete(self, keyword: Seq<char>) -> ScanErrorView {
        ScanErrorView {
            error_type: ScanErrorTypeView::Incomplete(keyword),
            row: self.mark_row,
            col: self.mark_col,
        }
    }

    /// The state after a span was left open: the error is recorded, and the
    /// cursor stands one character past the place where the span began.
    pub open spec fn give_up(self, keyword: Seq<char>) -> ScanState {
        self.advance().fail(self.incomplete(keyword))
    }

    /// `![alt](url)` where `image` holds, else `@[card_type](url)`. The
    /// cursor stands at the opening `![` or `@[`.
    pub open spec fn scan_link(self, image: bool) -> ScanState {
        let a = self.collect_text().expect(
            if image {
                "!["@
            } else {
                "@["@
            },
        ).delete_buffer();
        if !a.found("]"@) {
            a.give_up("]"@)
        } else {
            let b = a.skip_until("]"@);
            let c = b.delete_buffer().expect("]("@).delete_buffer();
            if !c.found(")"@) {
                c.give_up(")"@)
            } else {
                let d = c.skip_until(")"@);
                d.delete_buffer().expect(")"@).delete_buffer().push(
                    if image {
                        TokenTypeView::Image { alt: b.buffer(), url: d.buffer() }
                    } else {
                        TokenTypeView::LinkCard { card_type: b.buffer(), url: d.buffer() }
                    },
                )
            }
        }
    }

    /// `^[content]`. The cursor stands at the opening `^[`.
    pub open spec fn scan_inline_footnote(self) -> ScanState {
        let a = self.collect_text().expect("^["@).delete_buffer();
        if !a.found("]"@) {
            a.give_up("]"@)
        } else {
            let b = a.skip_until("]"@);
            b.delete_buffer().expect("]"@).delete_buffer().push(
                TokenTypeView::InlineFootnote(b.buffer()),
            )
        }
    }

    /// `[^identifier]`. The cursor stands at the opening `[^`. Where a colon
    /// follows, this is a footnote's definition, which stays text.
    pub open spec fn scan_footnote(self) -> ScanState {
        let a = self.collect_text().expect("[^"@).delete_buffer();
        if !a.found("]"@) {
            a.give_up("]"@)
        } else {
            let b = a.skip_until("]"@);
            let c = b.delete_buffer().expect("]"@).delete_buffer();
            if c.matches(":"@) {
                ScanState { start: self.current, ..c }
            } else {
                c.push(TokenTypeView::Footnote(b.buffer()))
            }
        }
    }

    /// A code span between single backticks or a code block between triple
    /// backticks. The cursor stands at the opening backtick. Code stays part
    /// of the pending text.
    pub open spec fn scan_code(self) -> ScanState {
        let fence = if self.matches("```"@) {
            "```"@
        } else {
            "`"@
        };
        let a = self.expect(fence);
        if !a.found(fence) {
            a.give_up(fence)
        } else {
            a.skip_until(fence).expect(fence)
        }
    }

    /// The state after the opening `<macro>`, where the cursor stands at it.
    pub open spec fn macro_open(self) -> ScanState {
        self.collect_text().expect("<macro>"@)
    }

    /// What stands between `<macro>` at the cursor and the next `</macro>`.
    pub open spec fn macro_body(self) -> Seq<char> {
        self.macro_open().delete_buffer().skip_until("</macro>"@).buffer()
    }

    /// The text that the macro at the cursor holds for a platform.
    pub open spec fn macro_text(self, platform: Platform) -> Seq<char> {
        match macro_of_text(self.macro_body()) {
            Some(parts) => text_or_empty(
                match platform {
                    Platform::Zenn => parts.zenn,
                    Platform::Qiita => parts.qiita,
                },
            ),
            None => Seq::empty(),
        }
    }

    /// `<macro>` ... `</macro>`. The cursor stands at the opening `<macro>`.
    /// `zenn` and `qiita` are what scanning the macro's two texts gave, or
    /// none where a text is not scanned because macros are nested too deep
    /// or its positions would not fit. A macro is invalid, at the position
    /// after its opening tag, where its body is faulty, where a text is not
    /// scanned, and where a text was scanned with errors, which are kept.
    pub open spec fn scan_macro(
        self,
        zenn: Option<ScanResult>,
        qiita: Option<ScanResult>,
    ) -> ScanState {
        let a = self.macro_open();
        let b = a.delete_buffer();
        let invalid = ScanErrorView {
            error_type: ScanErrorTypeView::InvalidMacro,
            row: a.row,
            col: a.col,
        };
        if !b.found("</macro>"@) {
            b.give_up("</macro>"@)
        } else {
            let c = b.skip_until("</macro>"@).delete_buffer().expect("</macro>"@).delete_buffer();
            match macro_of_text(self.macro_body()) {
                None => c.fail(invalid),
                Some(_) => match zenn {
                    None => c.fail(invalid),
                    Some(Err(errors)) => ScanState { errors: c.errors + errors, ..c }.fail(
                        invalid,
                    ),
                    Some(Ok(zenn_tokens)) => match qiita {
                        None => c.fail(invalid),
                        Some(Err(errors)) => ScanState { errors: c.errors + errors, ..c }.fail(
                            invalid,
                        ),
                        Some(Ok(qiita_tokens)) => c.push(
                            TokenTypeView::Macro(Macro { zenn: zenn_tokens, qiita: qiita_tokens }),
                        ),
                    },
                },
            }
        }
    }

    /// A fence of three or more colons at the start of a line. The colons
    /// beyond three give the level. `message` and `details` open a block:
    /// the rest of the line is the message's kind or the details' title, and
    /// the cursor is left at the line break that ends the line. A fence with
    /// neither closes a block.
    pub open spec fn scan_fence(self) -> ScanState {
        let a = self.collect_text().expect(":::"@);
        let b = a.skip_while(':');
        let level = b.current - a.current;
        if b.matches("message"@) || b.matches("details"@) {
            let message = b.matches("message"@);
            let c = b.expect(
                if message {
                    "message"@
                } else {
                    "details"@
                },
            ).skip_while(' ').delete_buffer();
            if !c.found("\n"@) {
                c.give_up("\n"@)
            } else {
                let d = c.skip_until("\n"@);
                d.delete_buffer().push(
                    if message {
                        TokenTypeView::MessageBegin { level, kind: d.buffer() }
                    } else {
                        TokenTypeView::DetailsBegin { level, title: d.buffer() }
                    },
                )
            }
        } else {
            b.delete_buffer().push(TokenTypeView::MessageOrDetailsEnd { level })
        }
    }

    /// Whether the cursor stands at the end of the line of a fence that
    /// opened a block: the token made last opens a block, and it was made
    /// where the cursor stands.
    pub open spec fn ends_opening_fence(self) -> bool {
        &&& self.tokens.len() > 0
        &&& self.tokens.last().token_type is MessageBegin || self.tokens.last().token_type
            is DetailsBegin
        &&& self.tokens.last().row == self.row
        &&& self.tokens.last().col == self.col
    }

    /// Passes a line break. The line break that ends the line of a fence
    /// that opened a block belongs to the fence: it is no part of the text
    /// that follows.
    pub open spec fn pass_line_break(self) -> ScanState {
        if self.ends_opening_fence() {
            self.advance().delete_buffer()
        } else {
            self.advance()
        }
    }

    /// A link on a line of its own. The cursor stands at `http://` or
    /// `https://`.
    pub open spec fn scan_url(self) -> ScanState {
        let a = self.collect_text().skip_word();
        a.push(TokenTypeView::Url(a.buffer())).delete_buffer()
    }

    /// What is done at the start of a line: a link or a fence is scanned
    /// where one stands there, an `h` that starts no link is passed, and so
    /// are leading blanks.
    pub open spec fn line_start(self) -> ScanState {
        if self.peek() == Some('h') {
            if self.matches("https://"@) || self.matches("http://"@) {
                self.scan_url()
            } else {
                self.advance()
            }
        } else if self.peek() == Some(':') {
            if self.matches(":::"@) {
                self.scan_fence()
            } else {
                self
            }
        } else {
            self.skip_while(' ')
        }
    }

    /// One step of the scanner, by the character under the cursor.
    pub open spec fn step(self, zenn: Option<ScanResult>, qiita: Option<ScanResult>) -> ScanState {
        match self.peek() {
            None => self,
            Some(c) => if c == '!' {
                if self.matches("!["@) {
                    self.scan_link(true)
                } else {
                    self.advance()
                }
            } else if c == '@' {
                if self.matches("@["@) {
                    self.scan_link(false)
                } else {
                    self.advance()
                }
            } else if c == '^' {
                if self.matches("^["@) {
                    self.scan_inline_footnote()
                } else {
                    self.advance()
                }
            } else if c == '[' {
                if self.matches("[^"@) {
                    self.scan_footnote()
                } else {
                    self.advance()
                }
            } else if c == '`' {
                self.scan_code()
            } else if c == '<' {
                if self.matches("<macro>"@) {
                    self.scan_macro(zenn, qiita)
                } else {
                    self.advance()
                }
            } else if c == '\n' {
                self.pass_line_break().line_start()
            } else {
                self.advance()
            },
        }
    }

    /// What scanning the macro at the cursor gives for a platform: none
    /// where `depth` is used up or the positions would not fit.
    pub open spec fn nested(self, platform: Platform, depth: nat) -> Option<ScanResult>
        decreases depth, self.remaining(), 0nat,
    {
        let text = self.macro_text(platform);
        let open = self.macro_open();
        if depth == 0 || !fits(text.len() as int, open.row, open.col) {
            None
        } else {
            Some(scan_text(text, open.row, open.col, (depth - 1) as nat))
        }
    }

    /// Takes steps until the cursor is at the end.
    pub open spec fn scan_to_end(self, depth: nat) -> ScanState
        decreases depth, self.remaining(), 1nat,
        when self.wf()
        via Self::scan_to_end_decreases
    {
        if self.at_end() {
            self
        } else {
            self.step(
                self.nested(Platform::Zenn, depth),
                self.nested(Platform::Qiita, depth),
            ).scan_to_end(depth)
        }
    }

    #[via_fn]
    proof fn scan_to_end_decreases(self, depth: nat) {
        if !self.at_end() {
            assert forall|zenn: Option<ScanResult>, qiita: Option<ScanResult>|
                self.leads_to(#[trigger] self.step(zenn, qiita)) && self.step(
                    zenn,
                    qiita,
                ).current > self.current by {
                self.lemma_step(zenn, qiita);
            }
        }
    }

    /// One step of the scanner, with macros scanned `depth` deep.
    pub open spec fn scan_step(self, depth: nat) -> ScanState {
        self.step(self.nested(Platform::Zenn, depth), self.nested(Platform::Qiita, depth))
    }

    /// The tokens, or the errors where there are any.
    pub open spec fn result(self) -> ScanResult {
        if self.errors.len() > 0 {
            Err(self.errors)
        } else {
            Ok(self.tokens)
        }
    }

    /// Scans the rest of the source: steps to the end, and the pending text
    /// as a last token.
    pub open spec fn scan_body(self, depth: nat) -> ScanResult {
        self.scan_to_end(depth).collect_text().result()
    }

    /// The front matter: after leading blanks and a separator line, the
    /// text up to the next separator line. The result holds that text, or
    /// none where the front matter is never closed.
    pub open spec fn scan_frontmatter(self) -> (ScanState, Option<Seq<char>>) {
        let a = self.skip_while(' ').expect("---\n"@).delete_buffer();
        if !a.found("---\n"@) {
            (a.give_up("---\n"@), None)
        } else {
            let b = a.skip_until("---\n"@);
            (b.delete_buffer().expect("---\n"@).delete_buffer(), Some(b.buffer()))
        }
    }

    /// Scans a document: its front matter, then its body. The body starts
    /// at the start of a line, so a link or a fence is seen there too.
    pub open spec fn scan_file(self, depth: nat) -> Result<
        DocView<Seq<char>, TokenView>,
        Seq<ScanErrorView>,
    > {
        let (state, header) = self.scan_frontmatter();
        let body = if state.current <= state.source.len() {
            state.line_start()
        } else {
            state
        };
        match body.scan_body(depth) {
            Err(errors) => Err(errors),
            Ok(tokens) => Ok(DocView { frontmatter: text_or_empty(header), elements: tokens }),
        }
    }

    /// `t` is a state that scanning can reach from `self`: the source is the
    /// same, the cursor has not gone back, rows and columns have grown no
    /// more than the cursor has, and no error was taken away.
    pub open spec fn leads_to(self, t: ScanState) -> bool {
        &&& t.source == self.source
        &&& t.wf()
        &&& self.current <= t.current
        &&& t.row - t.current <= self.row - self.current
        &&& t.col - t.current <= self.col - self.current
        &&& self.errors.len() <= t.errors.len()
    }
}

/// Scans a text that starts at the given row and column.
pub open spec fn scan_text(source: Seq<char>, row: int, col: int, depth: nat) -> ScanResult
    decreases depth, source.len() + 2, 0nat,
{
    ScanState::initial(source, row, col).scan_to_end(depth).collect_text().result()
}

/// Scans a document from row 1, column 1.
pub open spec fn scan_file(source: Seq<char>) -> Result<
    DocView<Seq<char>, TokenView>,
    Seq<ScanErrorView>,
> {
    ScanState::initial(source, 1, 1).scan_file(MACRO_DEPTH_MAX as nat)
}

/// The lengths of the dialect's keywords.
pub proof fn lemma_keywords()
    ensures
        "!["@.len() == 2,
        "@["@.len() == 2,
        "^["@.len() == 2,
        "[^"@.len() == 2,
        "]"@.len() == 1,
        "]("@.len() == 2,
        ")"@.len() == 1,
        ":"@.len() == 1,
        "`"@.len() == 1,
        "```"@.len() == 3,
        "<macro>"@.len() == 7,
        "</macro>"@.len() == 8,
        ":::"@.len() == 3,
        "message"@.len() == 7,
        "details"@.len() == 7,
        "\n"@.len() == 1,
        "---\n"@.len() == 4,
        "http://"@.len() == 7,
        "https://"@.len() == 8,
{
    reveal_strlit("![");
    reveal_strlit("@[");
    reveal_strlit("^[");
    reveal_strlit("[^");
    reveal_strlit("]");
    reveal_strlit("](");
    reveal_strlit(")");
    reveal_strlit(":");
    reveal_strlit("`");
    reveal_strlit("```");
    reveal_strlit("<macro>");
    reveal_strlit("</macro>");
    reveal_strlit(":::");
    reveal_strlit("message");
    reveal_strlit("details");
    reveal_strlit("\n");
    reveal_strlit("---\n");
    reveal_strlit("http://");
    reveal_strlit("https://");
}

impl ScanState {
    /// Passing a character that is there moves the cursor by one.
    pub proof fn lemma_advance(self)
        requires
            self.wf(),
            self.current <= self.source.len(),
        ensures
            self.leads_to(self.advance()),
            self.advance().current == self.current + 1,
            self.advance().start == self.start,
    {
    }

    /// Passing `n` characters that are there moves the cursor by `n`.
    pub proof fn lemma_advance_by(self, n: nat)
        requires
            self.wf(),
            self.current + n <= self.source.len() + 1,
        ensures
            self.leads_to(self.advance_by(n)),
            self.advance_by(n).current == self.current + n,
            self.advance_by(n).start == self.start,
            self.advance_by(n).tokens == self.tokens,
            self.advance_by(n).errors == self.errors,
        decreases n,
    {
        if n > 0 {
            self.lemma_advance();
            self.advance().lemma_advance_by((n - 1) as nat);
        }
    }

    /// Passing a keyword moves the cursor by its length where it stands
    /// there, and not at all where it does not.
    pub proof fn lemma_expect(self, keyword: Seq<char>)
        requires
            self.wf(),
        ensures
            self.leads_to(self.expect(keyword)),
            self.expect(keyword).current == self.current + (if self.matches(keyword) {
                keyword.len() as int
            } else {
                0
            }),
            self.current <= self.source.len() ==> self.expect(keyword).current
                <= self.source.len(),
            self.expect(keyword).start == self.start,
            self.expect(keyword).tokens == self.tokens,
            self.expect(keyword).errors == self.errors,
    {
        if self.matches(keyword) {
            self.lemma_advance_by(keyword.len());
        }
    }

    /// Looking for a keyword stops at it or at the end, and changes nothing
    /// but the cursor.
    pub proof fn lemma_skip_until(self, keyword: Seq<char>)
        requires
            self.wf(),
        ensures
            self.leads_to(self.skip_until(keyword)),
            self.current <= self.source.len() ==> self.skip_until(keyword).current
                <= self.source.len(),
            self.skip_until(keyword).at_end() || self.skip_until(keyword).matches(keyword),
            self.skip_until(keyword).start == self.start,
            self.skip_until(keyword).tokens == self.tokens,
            self.skip_until(keyword).errors == self.errors,
        decreases self.source.len() - self.current,
    {
        if !(self.at_end() || self.matches(keyword)) {
            self.lemma_advance();
            self.advance().lemma_skip_until(keyword);
        }
    }

    /// Passing every `c` stops at another character or at the end, and
    /// changes nothing but the cursor.
    pub proof fn lemma_skip_while(self, c: char)
        requires
            self.wf(),
        ensures
            self.leads_to(self.skip_while(c)),
            self.current <= self.source.len() ==> self.skip_while(c).current
                <= self.source.len(),
            self.skip_while(c).peek() != Some(c),
            self.skip_while(c).start == self.start,
            self.skip_while(c).tokens == self.tokens,
            self.skip_while(c).errors == self.errors,
        decreases self.source.len() - self.current,
    {
        if self.peek() == Some(c) {
            self.lemma_advance();
            self.advance().lemma_skip_while(c);
        }
    }

    /// Passing a word stops at white space or at the end, and changes
    /// nothing but the cursor.
    pub proof fn lemma_skip_word(self)
        requires
            self.wf(),
        ensures
            self.leads_to(self.skip_word()),
            self.current <= self.source.len() ==> self.skip_word().current
                <= self.source.len(),
            self.skip_word().start == self.start,
            self.skip_word().tokens == self.tokens,
            self.skip_word().errors == self.errors,
        decreases self.source.len() - self.current,
    {
        if self.peek() is Some && !is_white_space(self.peek()->0) {
            self.lemma_advance();
            self.advance().lemma_skip_word();
        }
    }

    /// A link moves the cursor forward.
    pub proof fn lemma_scan_link(self, image: bool)
        requires
            self.wf(),
            self.matches(
                if image {
                    "!["@
                } else {
                    "@["@
                },
            ),
        ensures
            self.leads_to(self.scan_link(image)),
            self.scan_link(image).current > self.current,
    {
        lemma_keywords();
        let open = if image {
            "!["@
        } else {
            "@["@
        };
        let t = self.collect_text();
        t.lemma_expect(open);
        let a = t.expect(open).delete_buffer();
        a.lemma_skip_until("]"@);
        a.lemma_advance();
        let b = a.skip_until("]"@);
        b.delete_buffer().lemma_expect("]("@);
        let c = b.delete_buffer().expect("]("@).delete_buffer();
        c.lemma_skip_until(")"@);
        if c.current <= c.source.len() {
            c.lemma_advance();
        }
        let d = c.skip_until(")"@);
        d.delete_buffer().lemma_expect(")"@);
    }

    /// An inline footnote moves the cursor forward.
    pub proof fn lemma_scan_inline_footnote(self)
        requires
            self.wf(),
            self.matches("^["@),
        ensures
            self.leads_to(self.scan_inline_footnote()),
            self.scan_inline_footnote().current > self.current,
    {
        lemma_keywords();
        let t = self.collect_text();
        t.lemma_expect("^["@);
        let a = t.expect("^["@).delete_buffer();
        a.lemma_skip_until("]"@);
        a.lemma_advance();
        let b = a.skip_until("]"@);
        b.delete_buffer().lemma_expect("]"@);
    }

    /// A footnote moves the cursor forward.
    pub proof fn lemma_scan_footnote(self)
        requires
            self.wf(),
            self.matches("[^"@),
        ensures
            self.leads_to(self.scan_footnote()),
            self.scan_footnote().current > self.current,
    {
        lemma_keywords();
        let t = self.collect_text();
        t.lemma_expect("[^"@);
        let a = t.expect("[^"@).delete_buffer();
        a.lemma_skip_until("]"@);
        a.lemma_advance();
        let b = a.skip_until("]"@);
        b.delete_buffer().lemma_expect("]"@);
    }

    /// Where a footnote turns out to be a definition, the cursor has passed
    /// the place where it began.
    pub proof fn lemma_scan_footnote_bounds(self)
        requires
            self.wf(),
            self.current <= self.source.len(),
        ensures
            self.collect_text().expect("[^"@).delete_buffer().found("]"@) ==> self.current
                <= self.collect_text().expect("[^"@).delete_buffer().skip_until(
                "]"@,
            ).delete_buffer().expect("]"@).current,
    {
        let t = self.collect_text();
        t.lemma_expect("[^"@);
        let a = t.expect("[^"@).delete_buffer();
        a.lemma_skip_until("]"@);
        let b = a.skip_until("]"@);
        b.delete_buffer().lemma_expect("]"@);
    }

    /// Code moves the cursor forward.
    pub proof fn lemma_scan_code(self)
        requires
            self.wf(),
            self.peek() == Some('`'),
        ensures
            self.leads_to(self.scan_code()),
            self.scan_code().current > self.current,
    {
        lemma_keywords();
        reveal_strlit("`");
        let fence = if self.matches("```"@) {
            "```"@
        } else {
            "`"@
        };
        assert(self.matches(fence)) by {
            if !self.matches("```"@) {
                assert(self.source.subrange(self.current, self.current + 1) =~= "`"@);
            }
        }
        self.lemma_expect(fence);
        let a = self.expect(fence);
        a.lemma_skip_until(fence);
        a.lemma_advance();
        a.skip_until(fence).lemma_expect(fence);
    }

    /// A macro moves the cursor forward, whatever its texts gave.
    pub proof fn lemma_scan_macro(self, zenn: Option<ScanResult>, qiita: Option<ScanResult>)
        requires
            self.wf(),
            self.matches("<macro>"@),
        ensures
            self.leads_to(self.scan_macro(zenn, qiita)),
            self.scan_macro(zenn, qiita).current > self.current,
    {
        lemma_keywords();
        let t = self.collect_text();
        t.lemma_expect("<macro>"@);
        let b = self.macro_open().delete_buffer();
        b.lemma_skip_until("</macro>"@);
        b.lemma_advance();
        b.skip_until("</macro>"@).delete_buffer().lemma_expect("</macro>"@);
    }

    /// A fence moves the cursor forward, and leaves it in the source unless
    /// it failed.
    pub proof fn lemma_scan_fence(self)
        requires
            self.wf(),
            self.matches(":::"@),
        ensures
            self.leads_to(self.scan_fence()),
            self.scan_fence().current > self.current,
    {
        lemma_keywords();
        let t = self.collect_text();
        t.lemma_expect(":::"@);
        let a = t.expect(":::"@);
        a.lemma_skip_while(':');
        let b = a.skip_while(':');
        if b.matches("message"@) || b.matches("details"@) {
            let word = if b.matches("message"@) {
                "message"@
            } else {
                "details"@
            };
            b.lemma_expect(word);
            b.expect(word).lemma_skip_while(' ');
            let c = b.expect(word).skip_while(' ').delete_buffer();
            c.lemma_skip_until("\n"@);
            c.lemma_advance();
        }
    }

    /// A link on a line of its own moves the cursor forward.
    pub proof fn lemma_scan_url(self)
        requires
            self.wf(),
            self.current <= self.source.len(),
        ensures
            self.leads_to(self.scan_url()),
            self.scan_url().current >= self.current,
    {
        self.collect_text().lemma_skip_word();
    }

    /// What is done at the start of a line never moves the cursor back.
    pub proof fn lemma_line_start(self)
        requires
            self.wf(),
            self.current <= self.source.len(),
        ensures
            self.leads_to(self.line_start()),
    {
        if self.peek() == Some('h') {
            if self.matches("https://"@) || self.matches("http://"@) {
                self.lemma_scan_url();
            } else {
                self.lemma_advance();
            }
        } else if self.peek() == Some(':') {
            if self.matches(":::"@) {
                self.lemma_scan_fence();
            }
        } else {
            self.lemma_skip_while(' ');
        }
    }

    /// Every step moves the cursor forward, whatever a macro's texts gave.
    pub proof fn lemma_step(self, zenn: Option<ScanResult>, qiita: Option<ScanResult>)
        requires
            self.wf(),
            !self.at_end(),
        ensures
            self.leads_to(self.step(zenn, qiita)),
            self.step(zenn, qiita).current > self.current,
    {
        let c = self.peek()->0;
        self.lemma_advance();
        if c == '!' {
            if self.matches("!["@) {
                self.lemma_scan_link(true);
            }
        } else if c == '@' {
            if self.matches("@["@) {
                self.lemma_scan_link(false);
            }
        } else if c == '^' {
            if self.matches("^["@) {
                self.lemma_scan_inline_footnote();
            }
        } else if c == '[' {
            if self.matches("[^"@) {
                self.lemma_scan_footnote();
            }
        } else if c == '`' {
            self.lemma_scan_code();
        } else if c == '<' {
            if self.matches("<macro>"@) {
                self.lemma_scan_macro(zenn, qiita);
            }
        } else if c == '\n' {
            self.pass_line_break().lemma_line_start();
        }
    }
}

} // verus!
