//! Laws of the library: what holds of every document.

use vstd::prelude::*;
use crate::ast::{DocView, ElementView, FrontmatterView, FRONTMATTER_TOPICS_MAX};
use crate::compile_model::{
    inline_name, qiita_compile, qiita_element, qiita_sequence, zenn_compile, zenn_element,
    zenn_elements, Footnotes, ImageHostView,
};
use crate::macros::Macro;
use crate::frontmatter::{frontmatter_of_text, QiitaFrontmatterView};
use crate::parse_model::{
    error_at, lemma_parse_block, lemma_parse_items, message_type_of, parse_block, parse_document,
    parse_element, parse_frontmatter, parse_items, parse_tokens, ParseCursor, ParseErrorTypeView,
    ParseErrorView,
};
use crate::scan_model::{scan_text, ScanErrorTypeView, ScanErrorView, ScanState};
use crate::text::lemma_decimal_injective;
use crate::token::{TokenTypeView, TokenView};

verus! {

/// A document that declares more than five topics is not parsed: the first
/// error says that the topics are too many, and carries them all.
pub proof fn law_too_many_topics(doc: DocView<Seq<char>, TokenView>, frontmatter: FrontmatterView)
    requires
        frontmatter_of_text(doc.frontmatter) == Ok::<FrontmatterView, (int, int)>(frontmatter),
        frontmatter.topics.len() > FRONTMATTER_TOPICS_MAX,
    ensures
        parse_document(doc) is Err,
        parse_document(doc)->Err_0.len() > 0,
        parse_document(doc)->Err_0[0] == (ParseErrorView {
            error_type: ParseErrorTypeView::TooManyTopics(frontmatter.topics),
            row: 0,
            col: 0,
        }),
{
    let error = parse_frontmatter(doc.frontmatter)->Err_0;
    let start = ParseCursor::initial().fail(error);
    lemma_parse_block(doc.elements, start, None);
    assert(start.errors[0] == error);
}

/// Whether a token opens a block of `level`: a message of a known kind, or
/// details.
pub open spec fn opens(token: TokenView, level: int) -> bool {
    match token.token_type {
        TokenTypeView::MessageBegin { level: l, kind } => l == level && message_type_of(kind)
            is Some,
        TokenTypeView::DetailsBegin { level: l, title } => l == level,
        _ => false,
    }
}

/// The block that a token opens, with a given body.
pub open spec fn block_of(token: TokenView, body: Seq<ElementView>) -> ElementView {
    match token.token_type {
        TokenTypeView::MessageBegin { level, kind } => ElementView::Message {
            level,
            msg_type: message_type_of(kind)->0,
            body,
        },
        TokenTypeView::DetailsBegin { level, title } => ElementView::Details { level, title, body },
        _ => arbitrary(),
    }
}

/// Whether a token closes a block of `level`.
pub open spec fn closes(token: TokenView, level: int) -> bool {
    token.token_type == (TokenTypeView::MessageOrDetailsEnd { level })
}

/// Whether a token stands for itself: text, a link, a card, an image or a
/// footnote.
pub open spec fn is_plain(token: TokenView) -> bool {
    match token.token_type {
        TokenTypeView::Text(_) => true,
        TokenTypeView::Url(_) => true,
        TokenTypeView::LinkCard { .. } => true,
        TokenTypeView::Image { .. } => true,
        TokenTypeView::InlineFootnote(_) => true,
        TokenTypeView::Footnote(_) => true,
        _ => false,
    }
}

/// The element of a token that stands for itself.
pub open spec fn plain_element(token: TokenView) -> ElementView {
    match token.token_type {
        TokenTypeView::Text(text) => ElementView::Text(text),
        TokenTypeView::Url(url) => ElementView::Url(url),
        TokenTypeView::LinkCard { card_type, url } => ElementView::LinkCard { card_type, url },
        TokenTypeView::Image { alt, url } => ElementView::Image { alt, url },
        TokenTypeView::InlineFootnote(content) => ElementView::InlineFootnote(content),
        TokenTypeView::Footnote(name) => ElementView::Footnote(name),
        _ => arbitrary(),
    }
}

/// A block directly inside another block whose level is not above its own
/// is refused: the document is not parsed, and the first error says that the
/// inner block's level is invalid, at the token that opens it.
pub proof fn law_nesting_refused(
    outer_open: TokenView,
    inner_open: TokenView,
    rest: Seq<TokenView>,
    outer: int,
    inner: int,
)
    requires
        opens(outer_open, outer),
        opens(inner_open, inner),
        inner >= outer,
    ensures
        parse_tokens(seq![outer_open, inner_open] + rest) is Err,
        parse_tokens(seq![outer_open, inner_open] + rest)->Err_0.len() > 0,
        parse_tokens(seq![outer_open, inner_open] + rest)->Err_0[0] == error_at(
            ParseErrorTypeView::InvalidNestingLevel(inner),
            inner_open,
        ),
{
    let tokens = seq![outer_open, inner_open] + rest;
    let error = error_at(ParseErrorTypeView::InvalidNestingLevel(inner), inner_open);
    let c0 = ParseCursor::initial();
    let c1 = c0.advance(tokens).nest(outer);
    assert(tokens[0] == outer_open);
    assert(tokens[1] == inner_open);
    assert(c1.nesting.last() == outer);
    // The inner block is refused.
    let (c2, refused) = parse_element(tokens, c1);
    assert(refused == Err::<ElementView, ParseErrorView>(error));
    assert(c2.errors =~= Seq::<ParseErrorView>::empty());
    // The walk of the outer block's body ends there, with that error.
    let (c3, _) = parse_items(tokens, c1, Some(outer));
    assert(c3 == c2.fail(error));
    assert(c3.errors[0] == error);
    // Nothing that follows takes the error away.
    let (c4, _) = parse_block(tokens, c1, Some(outer));
    assert(c4.errors[0] == error);
    let (c5, opened) = parse_element(tokens, c0);
    assert(c5 == c4.advance(tokens).unnest());
    assert(opened is Ok);
    lemma_parse_block(tokens, c1, Some(outer));
    lemma_parse_items(tokens, c5, None);
    let (c6, _) = parse_items(tokens, c0, None);
    assert(c6.errors[0] == error);
}

/// A walk over tokens that stand for themselves takes each as it is, and
/// stops at the closing fence that it looks for.
pub proof fn lemma_plain_items(tokens: Seq<TokenView>, cursor: ParseCursor, n: nat, level: int)
    requires
        0 <= cursor.position,
        cursor.position + n < tokens.len(),
        forall|i: int|
            cursor.position <= i < cursor.position + n ==> is_plain(#[trigger] tokens[i]),
        closes(tokens[cursor.position + n], level),
    ensures
        parse_items(tokens, cursor, Some(level)) == (
            ParseCursor { position: cursor.position + n, ..cursor },
            tokens.subrange(cursor.position, cursor.position + n).map_values(
                |t: TokenView| plain_element(t),
            ),
        ),
    decreases n,
{
    let wanted = tokens.subrange(cursor.position, cursor.position + n).map_values(
        |t: TokenView| plain_element(t),
    );
    if n == 0 {
        assert(cursor.at_end_of(tokens, Some(level)));
        assert(wanted =~= Seq::<ElementView>::empty());
    } else {
        let token = tokens[cursor.position];
        assert(is_plain(token));
        assert(!cursor.at_end_of(tokens, Some(level)));
        let next = cursor.advance(tokens);
        assert(parse_element(tokens, cursor) == (
            next,
            Ok::<ElementView, ParseErrorView>(plain_element(token)),
        ));
        lemma_plain_items(tokens, next, (n - 1) as nat, level);
        let rest = tokens.subrange(next.position, next.position + n - 1).map_values(
            |t: TokenView| plain_element(t),
        );
        assert(seq![plain_element(token)] + rest =~= wanted);
    }
}

/// A block directly inside another block whose level is above its own is
/// accepted: where the inner block holds tokens that stand for themselves
/// and both blocks are closed, the document is parsed, and the inner block
/// is the body of the outer one.
pub proof fn law_nesting_accepted(
    outer_open: TokenView,
    inner_open: TokenView,
    body: Seq<TokenView>,
    inner_close: TokenView,
    outer_close: TokenView,
    outer: int,
    inner: int,
)
    requires
        opens(outer_open, outer),
        opens(inner_open, inner),
        inner < outer,
        forall|i: int| 0 <= i < body.len() ==> is_plain(#[trigger] body[i]),
        closes(inner_close, inner),
        closes(outer_close, outer),
    ensures
        parse_tokens(seq![outer_open, inner_open] + body + seq![inner_close, outer_close]) == Ok::<
            Seq<ElementView>,
            Seq<ParseErrorView>,
        >(
            seq![
                block_of(
                    outer_open,
                    seq![block_of(inner_open, body.map_values(|t: TokenView| plain_element(t)))],
                ),
            ],
        ),
{
    let tokens = seq![outer_open, inner_open] + body + seq![inner_close, outer_close];
    let n = body.len() as int;
    let inner_body = body.map_values(|t: TokenView| plain_element(t));
    let inner_block = block_of(inner_open, inner_body);
    let outer_block = block_of(outer_open, seq![inner_block]);
    assert(tokens.len() == n + 4);
    assert(tokens[0] == outer_open);
    assert(tokens[1] == inner_open);
    assert(forall|i: int| 0 <= i < n ==> tokens[2 + i] == body[i]);
    assert(tokens[2 + n] == inner_close);
    assert(tokens[3 + n] == outer_close);
    let c0 = ParseCursor::initial();
    let c1 = c0.advance(tokens).nest(outer);
    let c2 = c1.advance(tokens).nest(inner);
    assert(c1.nesting.last() == outer);
    assert(c1.advance(tokens).may_nest(inner));
    // The inner block's body.
    assert forall|i: int| c2.position <= i < c2.position + n implies is_plain(
        #[trigger] tokens[i],
    ) by {
        assert(tokens[i] == body[i - 2]);
    }
    lemma_plain_items(tokens, c2, n as nat, inner);
    assert(tokens.subrange(2, 2 + n) =~= body);
    let c3 = ParseCursor { position: 2 + n, ..c2 };
    assert(parse_items(tokens, c2, Some(inner)) == (c3, inner_body));
    assert(parse_block(tokens, c2, Some(inner)) == (c3, inner_body));
    // The inner block.
    let c4 = c3.advance(tokens).unnest();
    assert(c2.nesting.drop_last() =~= c1.nesting);
    assert(c4 == ParseCursor { position: 3 + n, ..c1 });
    assert(parse_element(tokens, c1) == (c4, Ok::<ElementView, ParseErrorView>(inner_block)));
    // The outer block's body: the inner block, up to the outer closing fence.
    assert(c4.at_end_of(tokens, Some(outer)));
    assert(parse_items(tokens, c4, Some(outer)) == (c4, Seq::<ElementView>::empty()));
    assert(!c1.at_end_of(tokens, Some(outer)));
    assert(seq![inner_block] + Seq::<ElementView>::empty() =~= seq![inner_block]);
    assert(parse_items(tokens, c1, Some(outer)) == (c4, seq![inner_block]));
    assert(parse_block(tokens, c1, Some(outer)) == (c4, seq![inner_block]));
    // The outer block.
    let c5 = c4.advance(tokens).unnest();
    assert(c1.nesting.drop_last() =~= c0.nesting);
    assert(c5 == ParseCursor { position: 4 + n, ..c0 });
    assert(parse_element(tokens, c0) == (c5, Ok::<ElementView, ParseErrorView>(outer_block)));
    // The document.
    assert(parse_items(tokens, c5, None) == (c5, Seq::<ElementView>::empty()));
    assert(seq![outer_block] + Seq::<ElementView>::empty() =~= seq![outer_block]);
    assert(parse_items(tokens, c0, None) == (c5, seq![outer_block]));
    assert(parse_block(tokens, c0, None) == (c5, seq![outer_block]));
}

/// Different numbers give different names.
pub proof fn lemma_inline_name_injective(a: nat, b: nat)
    requires
        inline_name(a) == inline_name(b),
    ensures
        a == b,
{
    let prefix = "zeta.inline."@;
    assert(inline_name(a).skip(prefix.len() as int) =~= crate::text::decimal(a));
    assert(inline_name(b).skip(prefix.len() as int) =~= crate::text::decimal(b));
    lemma_decimal_injective(a, b);
}

/// Where the names of the numbers from 1 to `k` are all in use, at least
/// `k` names are in use.
pub proof fn lemma_names_in_use(used: Seq<Seq<char>>, k: nat)
    requires
        forall|j: nat| 1 <= j <= k ==> used.contains(#[trigger] inline_name(j)),
    ensures
        k <= used.len(),
    decreases k,
{
    if k > 0 {
        assert(used.contains(inline_name(k)));
        let at = choose|i: int| 0 <= i < used.len() && used[i] == inline_name(k);
        let others = used.remove(at);
        assert forall|j: nat| 1 <= j <= k - 1 implies others.contains(
            #[trigger] inline_name(j),
        ) by {
            assert(used.contains(inline_name(j)));
            let i = choose|i: int| 0 <= i < used.len() && used[i] == inline_name(j);
            if i == at {
                lemma_inline_name_injective(j, k);
            }
            if i < at {
                assert(others[i] == used[i]);
            } else {
                assert(others[i - 1] == used[i]);
            }
        }
        lemma_names_in_use(others, (k - 1) as nat);
    }
}

/// Looking for a number whose name is not in use passes only numbers whose
/// names are in use, and fails only when the tries are used up.
pub proof fn lemma_unused_from(notes: Footnotes, n: nat, tries: nat)
    ensures
        n <= notes.unused_from(n, tries) <= n + tries,
        forall|j: nat|
            n <= j < notes.unused_from(n, tries) ==> notes.used().contains(
                #[trigger] inline_name(j),
            ),
        notes.unused_from(n, tries) < n + tries ==> !notes.used().contains(
            inline_name(notes.unused_from(n, tries)),
        ),
    decreases tries,
{
    if !(tries == 0 || !notes.used().contains(inline_name(n))) {
        lemma_unused_from(notes, n + 1, (tries - 1) as nat);
    }
}

/// The name that an inline footnote is given is in use for no footnote
/// that was met before, neither for one that the document refers to by
/// name nor for another inline footnote; and it is the name of the first
/// number of which this holds.
pub proof fn law_inline_name_is_new(notes: Footnotes)
    ensures
        notes.next_number() >= 1,
        !notes.used().contains(inline_name(notes.next_number())),
        forall|j: nat|
            1 <= j < notes.next_number() ==> notes.used().contains(#[trigger] inline_name(j)),
{
    let tries = notes.used().len();
    let r = notes.next_number();
    lemma_unused_from(notes, 1, tries);
    if r == 1 + tries && notes.used().contains(inline_name(r)) {
        lemma_names_in_use(notes.used(), r);
    }
}

/// Two inline footnotes that follow one another are given different names.
pub proof fn law_inline_names_differ(notes: Footnotes, first: Seq<char>, second: Seq<char>)
    ensures
        inline_name(notes.next_number()) != inline_name(
            notes.add_inline(first).next_number(),
        ),
{
    let after = notes.add_inline(first);
    law_inline_name_is_new(after);
    let name = inline_name(notes.next_number());
    assert(after.inline.last().name == name);
    let names = after.inline.map_values(|note: crate::compile_model::NamedNote| note.name);
    assert(names[names.len() - 1] == name);
    assert(after.used()[after.names.len() + names.len() - 1] == name);
    assert(after.used().contains(name));
}

/// Compiling is a function of the document's value: two documents of one
/// value, compiled for Zenn, give the same text.
pub proof fn law_zenn_compile_repeats(
    first: DocView<FrontmatterView, ElementView>,
    second: DocView<FrontmatterView, ElementView>,
)
    requires
        first == second,
    ensures
        zenn_compile(first) == zenn_compile(second),
{
}

/// Compiling is a function of the document's value, of the front matter
/// that was published before and of the image host: the same three,
/// compiled for Qiita, give the same text.
pub proof fn law_qiita_compile_repeats(
    first: DocView<FrontmatterView, ElementView>,
    second: DocView<FrontmatterView, ElementView>,
    existing: Option<QiitaFrontmatterView>,
    host: Option<ImageHostView>,
)
    requires
        first == second,
    ensures
        qiita_compile(first, existing, host) == qiita_compile(second, existing, host),
{
}

/// Whether a character is text wherever it stands: it opens no span, no
/// code, no macro and no line.
pub open spec fn is_plain_char(c: char) -> bool {
    c != '!' && c != '@' && c != '^' && c != '[' && c != '`' && c != '<' && c != '\n'
}

/// Steps over characters that are text wherever they stand pass them one by
/// one and change nothing else.
pub proof fn lemma_plain_chars(state: ScanState, depth: nat)
    requires
        state.wf(),
        state.current <= state.source.len(),
        forall|i: int| state.current <= i < state.source.len() ==> is_plain_char(
            #[trigger] state.source[i],
        ),
    ensures
        state.scan_to_end(depth) == state.advance_by((state.source.len() - state.current) as nat),
    decreases state.source.len() - state.current,
{
    if !state.at_end() {
        assert(is_plain_char(state.source[state.current]));
        state.lemma_advance();
        let next = state.advance();
        assert(state.scan_step(depth) == next);
        lemma_plain_chars(next, depth);
    }
}

/// The position after `n` characters, none of them a line break, were
/// passed: the same row, `n` columns on. The character passed last stands
/// one column before.
pub proof fn lemma_advance_in_line(state: ScanState, n: nat)
    requires
        0 <= state.current,
        state.current + n <= state.source.len(),
        forall|i: int| state.current <= i < state.current + n ==> #[trigger] state.source[i]
            != '\n',
    ensures
        state.advance_by(n).row == state.row,
        state.advance_by(n).col == state.col + n,
        state.advance_by(n).current == state.current + n,
        state.advance_by(n).start == state.start,
        state.advance_by(n).source == state.source,
        state.advance_by(n).tokens == state.tokens,
        state.advance_by(n).errors == state.errors,
        n > 0 ==> state.advance_by(n).mark_row == state.row && state.advance_by(n).mark_col
            == state.col + n - 1,
    decreases n,
{
    if n > 0 {
        assert(state.source[state.current] != '\n');
        lemma_advance_in_line(state.advance(), (n - 1) as nat);
    }
}

/// A text in which every character is text wherever it stands is scanned
/// to one token: the text itself, with the position after its last
/// character.
pub proof fn law_plain_text_is_one_token(source: Seq<char>, row: int, col: int, depth: nat)
    requires
        0 <= row,
        0 <= col,
        forall|i: int| 0 <= i < source.len() ==> is_plain_char(#[trigger] source[i]),
    ensures
        scan_text(source, row, col, depth) == Ok::<Seq<TokenView>, Seq<ScanErrorView>>(
            seq![
                TokenView {
                    token_type: TokenTypeView::Text(source),
                    row,
                    col: col + source.len(),
                },
            ],
        ),
{
    let start = ScanState::initial(source, row, col);
    lemma_plain_chars(start, depth);
    lemma_advance_in_line(start, source.len());
    let last = start.advance_by(source.len());
    assert(last.buffer() =~= source);
    assert(last.collect_text().tokens =~= seq![
        TokenView { token_type: TokenTypeView::Text(source), row, col: col + source.len() },
    ]);
}

/// Looking for a single character passes every character that is another.
pub proof fn lemma_skip_until_char(state: ScanState, keyword: Seq<char>, n: nat)
    requires
        keyword.len() == 1,
        0 <= state.current,
        state.current + n <= state.source.len(),
        forall|i: int| state.current <= i < state.current + n ==> #[trigger] state.source[i]
            != keyword[0],
    ensures
        state.skip_until(keyword) == state.advance_by(n).skip_until(keyword),
    decreases n,
{
    if n > 0 {
        assert(state.source[state.current] != keyword[0]);
        if state.matches(keyword) {
            assert(state.source.subrange(state.current, state.current + 1)[0] == keyword[0]);
        }
        lemma_skip_until_char(state.advance(), keyword, (n - 1) as nat);
    }
}

/// An image whose address is never closed gives one error and no tokens:
/// the closing parenthesis is missing, at the position of the opening one.
/// Here the text of the image holds neither a closing bracket nor a line
/// break, and what follows the opening parenthesis is text wherever it
/// stands.
pub proof fn law_open_image_is_one_error(
    alt: Seq<char>,
    rest: Seq<char>,
    row: int,
    col: int,
    depth: nat,
)
    requires
        0 <= row,
        0 <= col,
        forall|i: int| 0 <= i < alt.len() ==> (#[trigger] alt[i]) != ']' && alt[i] != '\n',
        forall|i: int|
            0 <= i < rest.len() ==> is_plain_char(#[trigger] rest[i]) && rest[i] != ')',
    ensures
        scan_text("!["@ + alt + "]("@ + rest, row, col, depth) == Err::<
            Seq<TokenView>,
            Seq<ScanErrorView>,
        >(
            seq![
                ScanErrorView {
                    error_type: ScanErrorTypeView::Incomplete(")"@),
                    row,
                    col: col + alt.len() + 3,
                },
            ],
        ),
{
    reveal_strlit("![");
    reveal_strlit("](");
    reveal_strlit("]");
    reveal_strlit(")");
    let source = "!["@ + alt + "]("@ + rest;
    let n = alt.len() as int;
    let m = rest.len() as int;
    let error = ScanErrorView {
        error_type: ScanErrorTypeView::Incomplete(")"@),
        row,
        col: col + n + 3,
    };
    assert(source.len() == n + m + 4);
    assert(source[0] == '!' && source[1] == '[');
    assert(forall|i: int| 0 <= i < n ==> source[2 + i] == alt[i]);
    assert(source[2 + n] == ']' && source[3 + n] == '(');
    assert(forall|i: int| 0 <= i < m ==> source[4 + n + i] == rest[i]);
    let s0 = ScanState::initial(source, row, col);
    // The opening.
    assert(source.subrange(0, 2) =~= "!["@);
    assert(s0.matches("!["@));
    let t = s0.collect_text();
    assert(t.matches("!["@));
    lemma_advance_in_line(t, 2);
    let a = t.expect("!["@).delete_buffer();
    // The text of the image, up to the closing bracket.
    assert forall|i: int| a.current <= i < a.current + n implies #[trigger] a.source[i]
        != "]"@[0] && a.source[i] != '\n' by {
        assert(a.source[i] == alt[i - 2]);
    }
    lemma_skip_until_char(a, "]"@, n as nat);
    lemma_advance_in_line(a, n as nat);
    let b = a.advance_by(n as nat);
    assert(source.subrange(2 + n, 3 + n) =~= "]"@);
    assert(b.matches("]"@));
    assert(b.skip_until("]"@) == b);
    assert(a.found("]"@));
    // The opening parenthesis.
    let b1 = b.delete_buffer();
    assert(source.subrange(2 + n, 4 + n) =~= "]("@);
    assert(b1.matches("]("@));
    lemma_advance_in_line(b1, 2);
    let c = b1.expect("]("@).delete_buffer();
    assert(c.mark_row == row && c.mark_col == col + n + 3);
    // The closing parenthesis never comes.
    assert forall|i: int| c.current <= i < c.current + m implies #[trigger] c.source[i] != ")"@[0]
    by {
        assert(c.source[i] == rest[i - 4 - n]);
    }
    lemma_skip_until_char(c, ")"@, m as nat);
    lemma_advance_in_line_any(c, m as nat);
    assert(c.advance_by(m as nat).at_end());
    assert(c.advance_by(m as nat).skip_until(")"@) == c.advance_by(m as nat));
    assert(!c.found(")"@));
    let d = c.give_up(")"@);
    assert(s0.scan_link(true) == d);
    assert(d.errors =~= seq![error]);
    assert(s0.scan_step(depth) == d);
    assert(s0.scan_to_end(depth) == d.scan_to_end(depth));
    // What follows is text.
    c.lemma_advance();
    if d.current <= source.len() {
        assert forall|i: int| d.current <= i < d.source.len() implies is_plain_char(
            #[trigger] d.source[i],
        ) by {
            assert(d.source[i] == rest[i - 4 - n]);
        }
        lemma_plain_chars(d, depth);
        d.lemma_advance_by((source.len() - d.current) as nat);
    }
    assert(d.scan_to_end(depth).errors == d.errors);
}

/// Passing `n` characters that are there changes neither the source nor
/// the tokens nor the errors, and moves the cursor by `n`.
pub proof fn lemma_advance_in_line_any(state: ScanState, n: nat)
    requires
        0 <= state.current,
        state.current + n <= state.source.len(),
    ensures
        state.advance_by(n).current == state.current + n,
        state.advance_by(n).source == state.source,
        state.advance_by(n).tokens == state.tokens,
        state.advance_by(n).errors == state.errors,
    decreases n,
{
    if n > 0 {
        lemma_advance_in_line_any(state.advance(), (n - 1) as nat);
    }
}

/// The level of the innermost open block, where a block is open.
pub open spec fn innermost(nesting: Seq<int>) -> Option<int> {
    if nesting.len() > 0 {
        Some(nesting.last())
    } else {
        None
    }
}

/// Whether an element keeps the rule on levels where it stands directly
/// inside a block of level `bound`, or inside no block where `bound` is
/// none: a block has a level below `bound`, and what stands in it keeps the
/// rule inside it. The streams of a macro stand inside no block.
pub open spec fn well_nested(e: ElementView, bound: Option<int>) -> bool
    decreases e,
{
    match e {
        ElementView::Message { level, msg_type, body } => (bound is None || level < bound->0)
            && all_well_nested(body, Some(level)),
        ElementView::Details { level, title, body } => (bound is None || level < bound->0)
            && all_well_nested(body, Some(level)),
        ElementView::Macro(m) => all_well_nested(m.zenn, None) && all_well_nested(m.qiita, None),
        _ => true,
    }
}

/// Whether each of the elements keeps the rule on levels.
pub open spec fn all_well_nested(es: Seq<ElementView>, bound: Option<int>) -> bool
    decreases es,
{
    forall|i: int| 0 <= i < es.len() ==> well_nested(#[trigger] es[i], bound)
}

/// An element that was parsed keeps the rule on levels.
pub proof fn lemma_element_well_nested(tokens: Seq<TokenView>, cursor: ParseCursor)
    requires
        0 <= cursor.position < tokens.len(),
        parse_element(tokens, cursor).1 is Ok,
    ensures
        well_nested(parse_element(tokens, cursor).1->Ok_0, innermost(cursor.nesting)),
    decreases tokens, tokens.len() - cursor.position, 0nat,
{
    let token = tokens[cursor.position];
    let next = cursor.advance(tokens);
    match token.token_type {
        TokenTypeView::MessageBegin { level, kind } => {
            lemma_block_well_nested(tokens, next.nest(level), Some(level));
        },
        TokenTypeView::DetailsBegin { level, title } => {
            lemma_block_well_nested(tokens, next.nest(level), Some(level));
        },
        TokenTypeView::Macro(m) => {
            law_parsed_tree_is_well_nested(m.zenn);
            law_parsed_tree_is_well_nested(m.qiita);
        },
        _ => {},
    }
}

/// The elements of a walk keep the rule on levels.
pub proof fn lemma_items_well_nested(tokens: Seq<TokenView>, cursor: ParseCursor, end: Option<int>)
    requires
        0 <= cursor.position <= tokens.len(),
    ensures
        all_well_nested(parse_items(tokens, cursor, end).1, innermost(cursor.nesting)),
    decreases tokens, tokens.len() - cursor.position, 1nat,
{
    if !(cursor.peek(tokens) is None || cursor.at_end_of(tokens, end)) {
        let (next, outcome) = parse_element(tokens, cursor);
        crate::parse_model::lemma_parse_element(tokens, cursor);
        if outcome is Ok {
            lemma_element_well_nested(tokens, cursor);
            lemma_items_well_nested(tokens, next, end);
            let rest = parse_items(tokens, next, end).1;
            let all = seq![outcome->Ok_0] + rest;
            assert forall|i: int| 0 <= i < all.len() implies well_nested(
                #[trigger] all[i],
                innermost(cursor.nesting),
            ) by {
                if i > 0 {
                    assert(all[i] == rest[i - 1]);
                }
            }
        }
    }
}

/// The body of a block keeps the rule on levels.
pub proof fn lemma_block_well_nested(tokens: Seq<TokenView>, cursor: ParseCursor, end: Option<int>)
    requires
        0 <= cursor.position <= tokens.len(),
    ensures
        all_well_nested(parse_block(tokens, cursor, end).1, innermost(cursor.nesting)),
    decreases tokens, tokens.len() - cursor.position, 2nat,
{
    lemma_items_well_nested(tokens, cursor, end);
}

/// In every tree that the parser gives, a block that stands directly inside
/// another block has a level below that block's.
pub proof fn law_parsed_tree_is_well_nested(tokens: Seq<TokenView>)
    ensures
        parse_tokens(tokens) is Ok ==> all_well_nested(parse_tokens(tokens)->Ok_0, None),
    decreases tokens, tokens.len() + 1, 0nat,
{
    lemma_block_well_nested(tokens, ParseCursor::initial(), None);
}

/// A document that was parsed declares at most five topics, and its tree
/// keeps the rule on levels.
pub proof fn law_parsed_document_is_well_formed(doc: DocView<Seq<char>, TokenView>)
    ensures
        parse_document(doc) is Ok ==> parse_document(doc)->Ok_0.frontmatter.wf()
            && all_well_nested(parse_document(doc)->Ok_0.elements, None),
{
    let start = match parse_frontmatter(doc.frontmatter) {
        Ok(_) => ParseCursor::initial(),
        Err(error) => ParseCursor::initial().fail(error),
    };
    lemma_parse_block(doc.elements, start, None);
    lemma_block_well_nested(doc.elements, start, None);
    if parse_frontmatter(doc.frontmatter) is Err {
        assert(start.errors.len() == 1);
    }
}

/// On Zenn a macro gives what its Zenn stream gives, whatever it holds for
/// Qiita.
pub proof fn law_macro_on_zenn(
    zenn: Seq<ElementView>,
    qiita: Seq<ElementView>,
    other: Seq<ElementView>,
)
    ensures
        zenn_element(ElementView::Macro(Macro { zenn, qiita })) == zenn_elements(zenn),
        zenn_element(ElementView::Macro(Macro { zenn, qiita })) == zenn_element(
            ElementView::Macro(Macro { zenn, qiita: other }),
        ),
{
}

/// On Qiita a macro gives what its Qiita stream gives, text and footnotes
/// alike, whatever it holds for Zenn.
pub proof fn law_macro_on_qiita(
    zenn: Seq<ElementView>,
    other: Seq<ElementView>,
    qiita: Seq<ElementView>,
    notes: Footnotes,
    host: Option<ImageHostView>,
)
    ensures
        qiita_element(ElementView::Macro(Macro { zenn, qiita }), notes, host) == qiita_sequence(
            qiita,
            notes,
            host,
        ),
        qiita_element(ElementView::Macro(Macro { zenn, qiita }), notes, host) == qiita_element(
            ElementView::Macro(Macro { zenn: other, qiita }),
            notes,
            host,
        ),
{
}

} // verus!
