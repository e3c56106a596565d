use zeta::macros::Macro;
use zeta::scanner::{ScanError, ScanErrorType, Scanner};
use zeta::token::{Token, TokenType};

fn chars(text: &str) -> Vec<char> {
    text.chars().collect()
}

fn body_tokens(text: &str) -> Vec<TokenType> {
    Scanner::new(chars(text))
        .scan_body()
        .unwrap()
        .into_iter()
        .map(|token| token.token_type)
        .collect()
}

fn body_errors(text: &str) -> Vec<ScanError> {
    Scanner::new(chars(text)).scan_body().unwrap_err()
}

fn text(s: &str) -> TokenType {
    TokenType::Text(s.to_string())
}

fn incomplete(keyword: &str, row: usize, col: usize) -> ScanError {
    ScanError::new(ScanErrorType::Incomplete(keyword.to_string()), row, col)
}

#[test]
fn unterminated_image_gives_one_error_at_the_opening_parenthesis() {
    assert_eq!(body_errors("![alt](http://x"), vec![incomplete(")", 1, 7)]);
}

#[test]
fn unterminated_spans_are_all_reported() {
    assert_eq!(
        body_errors("a ^[b\n![c"),
        vec![incomplete("]", 1, 4), incomplete("]", 2, 2)]
    );
}

#[test]
fn unterminated_code_is_reported_at_its_opening() {
    assert_eq!(body_errors("x `y"), vec![incomplete("`", 1, 3)]);
    assert_eq!(body_errors("```\ncode"), vec![incomplete("```", 1, 3)]);
}

#[test]
fn plain_text_is_one_token() {
    assert_eq!(body_tokens("just text! a [b] <c> @d ^e"), vec![text("just text! a [b] <c> @d ^e")]);
    assert_eq!(body_tokens(""), vec![text("")]);
}

#[test]
fn tokens_carry_the_position_after_them() {
    let tokens = Scanner::new(chars("ab\n^[n]c")).scan_body().unwrap();
    assert_eq!(
        tokens,
        vec![
            Token { token_type: text("ab\n"), row: 2, col: 1 },
            Token { token_type: TokenType::InlineFootnote("n".to_string()), row: 2, col: 5 },
            Token { token_type: text("c"), row: 2, col: 6 },
        ]
    );
}

#[test]
fn image_and_link_card() {
    assert_eq!(
        body_tokens("a ![cat](/images/cat.png) b @[card](https://example.com)"),
        vec![
            text("a "),
            TokenType::Image { alt: "cat".to_string(), url: "/images/cat.png".to_string() },
            text(" b "),
            TokenType::LinkCard { card_type: "card".to_string(), url: "https://example.com".to_string() },
            text(""),
        ]
    );
}

#[test]
fn footnote_reference_and_definition() {
    assert_eq!(
        body_tokens("see[^1] and\n[^1]: the note"),
        vec![
            text("see"),
            TokenType::Footnote("1".to_string()),
            text(" and\n"),
            text("[^1]: the note"),
        ]
    );
}

#[test]
fn inline_footnote() {
    assert_eq!(
        body_tokens("x^[a note]y"),
        vec![text("x"), TokenType::InlineFootnote("a note".to_string()), text("y")]
    );
}

#[test]
fn code_is_not_scanned() {
    assert_eq!(body_tokens("a `![x](y)` b"), vec![text("a `![x](y)` b")]);
    assert_eq!(
        body_tokens("```\n:::message info\n^[n]\n```\n"),
        vec![text("```\n:::message info\n^[n]\n```\n")]
    );
}

#[test]
fn link_on_a_line_of_its_own() {
    assert_eq!(
        body_tokens("a\nhttps://example.com/x?y=1\nb"),
        vec![text("a\n"), TokenType::Url("https://example.com/x?y=1".to_string()), text("\nb")]
    );
    assert_eq!(
        body_tokens("\nhttp://example.com\u{3000}rest"),
        vec![text("\n"), TokenType::Url("http://example.com".to_string()), text("\u{3000}rest")]
    );
    assert_eq!(body_tokens("a https://example.com"), vec![text("a https://example.com")]);
    assert_eq!(body_tokens("\nhello"), vec![text("\nhello")]);
}

#[test]
fn indented_fence_is_text() {
    assert_eq!(body_tokens("\n  :::message info\n"), vec![text("\n  :::message info\n")]);
}

#[test]
fn message_block_tokens() {
    assert_eq!(
        body_tokens("\n:::message alert\nHello\n:::"),
        vec![
            text("\n"),
            TokenType::MessageBegin { level: 0, kind: "alert".to_string() },
            text("Hello\n"),
            TokenType::MessageOrDetailsEnd { level: 0 },
            text(""),
        ]
    );
}

#[test]
fn fences_on_lines_that_follow_one_another() {
    assert_eq!(
        body_tokens("\n::::details   Read more\n:::message info\nx\n:::\n::::\n"),
        vec![
            text("\n"),
            TokenType::DetailsBegin { level: 1, title: "Read more".to_string() },
            text(""),
            TokenType::MessageBegin { level: 0, kind: "info".to_string() },
            text("x\n"),
            TokenType::MessageOrDetailsEnd { level: 0 },
            text("\n"),
            TokenType::MessageOrDetailsEnd { level: 1 },
            text("\n"),
        ]
    );
}

#[test]
fn block_opener_without_a_line_break_is_incomplete() {
    assert_eq!(body_errors("\n:::message info"), vec![incomplete("\n", 2, 11)]);
}

#[test]
fn macro_is_scanned_for_each_platform() {
    let tokens = body_tokens("<macro>\nzenn: \"A\"\nqiita: \"B\"\n</macro>");
    assert_eq!(tokens.len(), 3);
    assert_eq!(tokens[0], text(""));
    match &tokens[1] {
        TokenType::Macro(Macro { zenn, qiita }) => {
            assert_eq!(zenn, &vec![Token { token_type: text("A"), row: 1, col: 9 }]);
            assert_eq!(qiita, &vec![Token { token_type: text("B"), row: 1, col: 9 }]);
        }
        other => panic!("not a macro: {:?}", other),
    }
}

#[test]
fn macro_without_a_text_for_a_platform() {
    let tokens = body_tokens("<macro>zenn: \"![a](b)\"</macro>");
    match &tokens[1] {
        TokenType::Macro(Macro { zenn, qiita }) => {
            assert_eq!(zenn.len(), 3);
            assert_eq!(zenn[1].token_type, TokenType::Image { alt: "a".to_string(), url: "b".to_string() });
            assert_eq!(qiita.len(), 1);
            assert_eq!(qiita[0].token_type, text(""));
        }
        other => panic!("not a macro: {:?}", other),
    }
}

#[test]
fn macro_accepts_capitalised_platform_names() {
    let tokens = body_tokens("<macro>\nZenn: A\nQiita: B\n</macro>");
    match &tokens[1] {
        TokenType::Macro(Macro { zenn, qiita }) => {
            assert_eq!(zenn[0].token_type, text("A"));
            assert_eq!(qiita[0].token_type, text("B"));
        }
        other => panic!("not a macro: {:?}", other),
    }
}

#[test]
fn macro_that_is_no_mapping_is_invalid() {
    let errors = body_errors("ab\n<macro>- a\n- b\n</macro>");
    assert_eq!(errors, vec![ScanError::new(ScanErrorType::InvalidMacro, 2, 8)]);
}

#[test]
fn macro_that_is_no_yaml_is_invalid() {
    let errors = body_errors("<macro>@invalid</macro>");
    assert_eq!(errors, vec![ScanError::new(ScanErrorType::InvalidMacro, 1, 8)]);
}

#[test]
fn macro_with_a_faulty_text_is_invalid_and_keeps_the_text_errors() {
    let errors = body_errors("ab <macro>zenn: \"^[x\"</macro>");
    assert_eq!(
        errors,
        vec![incomplete("]", 1, 12), ScanError::new(ScanErrorType::InvalidMacro, 1, 11)]
    );
}

#[test]
fn unterminated_macro_is_incomplete() {
    assert_eq!(body_errors("<macro>zenn: a"), vec![incomplete("</macro>", 1, 7)]);
}

#[test]
fn macros_nest_up_to_a_depth() {
    fn nested(depth: usize) -> String {
        let mut inner = "x".to_string();
        for _ in 0..depth {
            let escaped = inner.replace('\\', "\\\\").replace('"', "\\\"").replace("</macro>", "\\x3c/macro>");
            inner = format!("<macro>zenn: \"{}\"</macro>", escaped);
        }
        inner
    }
    assert!(Scanner::new(chars(&nested(8))).scan_body().is_ok());
    let errors = Scanner::new(chars(&nested(9))).scan_body().unwrap_err();
    assert!(errors.iter().all(|e| e.error_type == ScanErrorType::InvalidMacro));
    assert!(!errors.is_empty());
}

#[test]
fn scan_file_splits_front_matter_from_body() {
    let doc = Scanner::new(chars("---\ntitle: T\n---\nHello")).scan_file().unwrap();
    assert_eq!(doc.frontmatter, "title: T\n");
    assert_eq!(doc.elements, vec![Token { token_type: text("Hello"), row: 4, col: 6 }]);
}

#[test]
fn scan_file_sees_a_fence_on_the_first_line_of_the_body() {
    let doc = Scanner::new(chars("  ---\nt: 1\n---\n:::details T\nx\n:::")).scan_file().unwrap();
    let types: Vec<TokenType> = doc.elements.into_iter().map(|t| t.token_type).collect();
    assert_eq!(
        types,
        vec![
            text(""),
            TokenType::DetailsBegin { level: 0, title: "T".to_string() },
            text("x\n"),
            TokenType::MessageOrDetailsEnd { level: 0 },
            text(""),
        ]
    );
}

#[test]
fn scan_file_without_front_matter_fails() {
    assert_eq!(
        Scanner::new(chars("hello")).scan_file().unwrap_err(),
        vec![incomplete("---\n", 1, 1)]
    );
    assert_eq!(
        Scanner::new(chars("")).scan_file().unwrap_err(),
        vec![incomplete("---\n", 1, 1)]
    );
    assert_eq!(
        Scanner::new(chars("---\ntitle: T\n")).scan_file().unwrap_err(),
        vec![incomplete("---\n", 1, 4)]
    );
}

#[test]
fn scan_file_reports_the_errors_of_the_body_too() {
    let errors = Scanner::new(chars("---\nt: 1\n---\n^[x")).scan_file().unwrap_err();
    assert_eq!(errors, vec![incomplete("]", 4, 2)]);
}

#[test]
fn scan_error_messages() {
    assert_eq!(ScanErrorType::Incomplete("]".to_string()).message(), "Incomplete ']'.");
    assert_eq!(ScanErrorType::InvalidMacro.message(), "Invalid macro.");
}

#[test]
fn opening_fence_stops_at_the_line_break() {
    let mut scanner = Scanner::new(chars("::::details T\nx"));
    assert_eq!(scanner.block_element(), Ok(()));
    assert_eq!(scanner.scan(), Ok(()));
    let tokens = scanner.scan_body().unwrap();
    assert_eq!(
        tokens,
        vec![
            Token { token_type: text(""), row: 1, col: 1 },
            Token { token_type: TokenType::DetailsBegin { level: 1, title: "T".to_string() }, row: 1, col: 14 },
            Token { token_type: text("x"), row: 2, col: 2 },
        ]
    );
}

#[test]
fn only_the_line_break_of_the_fence_is_dropped() {
    assert_eq!(
        body_tokens("\n:::message info\n\nHello\n:::"),
        vec![
            text("\n"),
            TokenType::MessageBegin { level: 0, kind: "info".to_string() },
            text("\nHello\n"),
            TokenType::MessageOrDetailsEnd { level: 0 },
            text(""),
        ]
    );
}

#[test]
fn step_hands_its_error_back() {
    let mut scanner = Scanner::new(chars("<macro>just text</macro>"));
    assert_eq!(scanner.scan(), Err(ScanError::new(ScanErrorType::InvalidMacro, 1, 8)));
    assert_eq!(scanner.scan_body(), Ok(vec![Token { token_type: text(""), row: 1, col: 1 }, Token { token_type: text(""), row: 1, col: 25 }]));
}

#[test]
fn step_without_an_error_is_ok() {
    let mut scanner = Scanner::new(chars("^[n] rest"));
    assert_eq!(scanner.scan(), Ok(()));
    let mut scanner = Scanner::new(chars("^[n"));
    assert_eq!(scanner.scan(), Err(incomplete("]", 1, 2)));
}

#[test]
fn link_ends_at_ascii_white_space() {
    assert_eq!(
        body_tokens("\nhttps://a.example/x\tb"),
        vec![text("\n"), TokenType::Url("https://a.example/x".to_string()), text("\tb")]
    );
    assert_eq!(
        body_tokens("\nhttps://a.example/x-y_z.html#frag b"),
        vec![text("\n"), TokenType::Url("https://a.example/x-y_z.html#frag".to_string()), text(" b")]
    );
}
