use zeta::ast::{Element, MarkdownDoc, MessageType};
use zeta::macros::{Macro, Platform};
use zeta::parser::{ParseError, ParseErrorType, Parser};
use zeta::scanner::Scanner;
use zeta::token::{Token, TokenType};

const FRONT: &str = "title: T\nemoji: E\ntype: tech\ntopics: [a, b]\npublished: true\n";

fn token(token_type: TokenType) -> Token {
    Token { token_type, row: 3, col: 4 }
}

fn text(s: &str) -> TokenType {
    TokenType::Text(s.to_string())
}

fn message(level: usize, kind: &str) -> TokenType {
    TokenType::MessageBegin { level, kind: kind.to_string() }
}

fn details(level: usize, title: &str) -> TokenType {
    TokenType::DetailsBegin { level, title: title.to_string() }
}

fn end(level: usize) -> TokenType {
    TokenType::MessageOrDetailsEnd { level }
}

fn parse_body(types: Vec<TokenType>) -> Result<Vec<Element>, Vec<ParseError>> {
    let tokens = types.into_iter().map(token).collect();
    Parser::new(MarkdownDoc::new(String::new(), tokens)).parse_body()
}

fn error_types(types: Vec<TokenType>) -> Vec<ParseErrorType> {
    parse_body(types).unwrap_err().into_iter().map(|e| e.error_type).collect()
}

#[test]
fn message_block_parses_to_a_message_element() {
    let source: Vec<char> = format!("---\n{}---\n:::message alert\nHello\n:::", FRONT).chars().collect();
    let tokens = Scanner::new(source).scan_file().unwrap();
    let doc = Parser::new(tokens).parse().unwrap();
    assert_eq!(
        doc.elements,
        vec![
            Element::Text(String::new()),
            Element::Message {
                level: 0,
                msg_type: MessageType::Alert,
                body: vec![Element::Text("Hello\n".to_string())],
            },
            Element::Text(String::new()),
        ]
    );
}

#[test]
fn front_matter_is_read() {
    let source: Vec<char> = format!("---\n{}only: qiita\n---\nbody", FRONT).chars().collect();
    let doc = Parser::new(Scanner::new(source).scan_file().unwrap()).parse().unwrap();
    assert_eq!(doc.frontmatter.title, "T");
    assert_eq!(doc.frontmatter.emoji, "E");
    assert_eq!(doc.frontmatter.kind, "tech");
    assert_eq!(doc.frontmatter.topics, vec!["a".to_string(), "b".to_string()]);
    assert!(doc.frontmatter.published);
    assert_eq!(doc.frontmatter.only, Some(Platform::Qiita));
}

#[test]
fn five_topics_are_accepted() {
    let front = "title: T\nemoji: E\ntype: tech\ntopics: [a, b, c, d, e]\npublished: false\n";
    let doc = Parser::new(MarkdownDoc::new(front.to_string(), vec![])).parse().unwrap();
    assert_eq!(doc.frontmatter.topics.len(), 5);
    assert_eq!(doc.frontmatter.only, None);
}

#[test]
fn six_topics_are_too_many_and_all_are_reported() {
    let front = "title: T\nemoji: E\ntype: tech\ntopics: [a, b, c, d, e, f]\npublished: true\n";
    let errors = Parser::new(MarkdownDoc::new(front.to_string(), vec![])).parse().unwrap_err();
    let topics: Vec<String> = ["a", "b", "c", "d", "e", "f"].iter().map(|s| s.to_string()).collect();
    assert_eq!(errors, vec![ParseError::new(ParseErrorType::TooManyTopics(topics), 0, 0)]);
}

#[test]
fn unreadable_front_matter_is_invalid_and_the_body_is_still_parsed() {
    let tokens = vec![token(message(0, "bogus"))];
    let errors = Parser::new(MarkdownDoc::new("title: [".to_string(), tokens)).parse().unwrap_err();
    assert_eq!(errors.len(), 2);
    assert_eq!(errors[0].error_type, ParseErrorType::InvalidFrontMatter);
    assert!(errors[0].row >= 1);
    assert_eq!(errors[1], ParseError::new(ParseErrorType::InvalidMessageType, 3, 4));
}

#[test]
fn front_matter_without_a_title_is_invalid() {
    let front = "emoji: E\ntype: tech\ntopics: []\npublished: true\n";
    let errors = Parser::new(MarkdownDoc::new(front.to_string(), vec![])).parse().unwrap_err();
    assert_eq!(errors, vec![ParseError::new(ParseErrorType::InvalidFrontMatter, 0, 0)]);
}

#[test]
fn plain_tokens_are_taken_over() {
    let elements = parse_body(vec![
        text("a"),
        TokenType::Url("https://example.com".to_string()),
        TokenType::Image { alt: "x".to_string(), url: "/y".to_string() },
        TokenType::LinkCard { card_type: "card".to_string(), url: "u".to_string() },
        TokenType::InlineFootnote("note".to_string()),
        TokenType::Footnote("id".to_string()),
    ])
    .unwrap();
    assert_eq!(
        elements,
        vec![
            Element::Text("a".to_string()),
            Element::Url("https://example.com".to_string()),
            Element::Image { alt: "x".to_string(), url: "/y".to_string() },
            Element::LinkCard { card_type: "card".to_string(), url: "u".to_string() },
            Element::InlineFootnote("note".to_string()),
            Element::Footnote("id".to_string()),
        ]
    );
}

#[test]
fn inner_block_of_lower_level_nests() {
    let elements = parse_body(vec![
        details(1, "outer"),
        message(0, "info"),
        text("x"),
        end(0),
        end(1),
    ])
    .unwrap();
    assert_eq!(
        elements,
        vec![Element::Details {
            level: 1,
            title: "outer".to_string(),
            body: vec![Element::Message {
                level: 0,
                msg_type: MessageType::Info,
                body: vec![Element::Text("x".to_string())],
            }],
        }]
    );
}

#[test]
fn inner_block_of_equal_level_is_refused() {
    let errors = parse_body(vec![message(1, "warn"), message(1, "info"), text("x"), end(1), end(1)])
        .unwrap_err();
    assert_eq!(errors[0], ParseError::new(ParseErrorType::InvalidNestingLevel(1), 3, 4));
}

#[test]
fn inner_block_of_higher_level_is_refused() {
    let errors = parse_body(vec![details(0, "t"), details(2, "u"), end(2), end(0)]).unwrap_err();
    assert_eq!(errors[0], ParseError::new(ParseErrorType::InvalidNestingLevel(2), 3, 4));
}

#[test]
fn blocks_side_by_side_may_have_any_levels() {
    let elements = parse_body(vec![message(0, "info"), end(0), message(3, "warn"), end(3)]).unwrap();
    assert_eq!(elements.len(), 2);
}

#[test]
fn unknown_message_kind_is_invalid() {
    assert_eq!(error_types(vec![message(0, "note"), end(0)])[0], ParseErrorType::InvalidMessageType);
}

#[test]
fn block_without_closing_fence_is_reported() {
    assert_eq!(
        error_types(vec![message(2, "info"), text("x")]),
        vec![ParseErrorType::CouldNotFindEndToken(end(2))]
    );
}

#[test]
fn closing_fence_of_another_level_is_unexpected() {
    assert_eq!(
        error_types(vec![message(1, "info"), end(0), end(1)])[0],
        ParseErrorType::UnexpectedToken
    );
}

#[test]
fn stray_closing_fence_is_unexpected() {
    assert_eq!(
        parse_body(vec![text("a"), end(0)]).unwrap_err(),
        vec![ParseError::new(ParseErrorType::UnexpectedToken, 3, 4)]
    );
}

#[test]
fn macro_streams_are_parsed_on_their_own() {
    let inner = |s: &str| vec![token(message(5, "info")), token(text(s)), token(end(5))];
    let elements = parse_body(vec![
        message(0, "alert"),
        TokenType::Macro(Macro { zenn: inner("z"), qiita: inner("q") }),
        end(0),
    ])
    .unwrap();
    match &elements[0] {
        Element::Message { body, .. } => match &body[0] {
            Element::Macro(m) => {
                assert_eq!(
                    m.zenn,
                    vec![Element::Message {
                        level: 5,
                        msg_type: MessageType::Info,
                        body: vec![Element::Text("z".to_string())],
                    }]
                );
                assert_eq!(m.qiita.len(), 1);
            }
            other => panic!("not a macro: {:?}", other),
        },
        other => panic!("not a message: {:?}", other),
    }
}

#[test]
fn macro_with_a_faulty_stream_is_invalid_and_keeps_the_stream_errors() {
    let errors = parse_body(vec![TokenType::Macro(Macro {
        zenn: vec![Token { token_type: message(0, "bogus"), row: 7, col: 8 }],
        qiita: vec![],
    })])
    .unwrap_err();
    assert_eq!(
        errors,
        vec![
            ParseError::new(ParseErrorType::InvalidMessageType, 7, 8),
            ParseError::new(ParseErrorType::InvalidMacro, 3, 4),
        ]
    );
}

#[test]
fn parse_error_messages() {
    assert_eq!(
        ParseErrorType::TooManyTopics(vec!["a".to_string(), "b".to_string()]).message(),
        "Too many topics: [a, b]. The maximum number of topics is 5."
    );
    assert_eq!(ParseErrorType::InvalidFrontMatter.message(), "Invalid front matter");
    assert_eq!(ParseErrorType::InvalidMacro.message(), "Invalid macro");
    assert_eq!(ParseErrorType::InvalidMessageType.message(), "Invalid message type");
    assert_eq!(
        ParseErrorType::InvalidNestingLevel(12).message(),
        "Invalid nesting level: 12. The nesting level must be smaller than the outer one."
    );
    assert_eq!(
        ParseErrorType::CouldNotFindEndToken(end(0)).message(),
        "Could not find end token: MessageOrDetailsEnd { level: 0 }."
    );
    assert_eq!(ParseErrorType::UnexpectedToken.message(), "Unexpected token");
    assert_eq!(
        ParseError::new(ParseErrorType::InvalidMacro, 10, 203).message(),
        "Invalid macro at row 10, col 203"
    );
}

fn tower(depth: usize) -> Vec<TokenType> {
    let mut types: Vec<TokenType> = (0..depth).rev().map(|level| details(level, "t")).collect();
    types.extend((0..depth).map(end));
    types
}

#[test]
fn sixty_four_blocks_inside_one_another_are_accepted() {
    let mut element = &parse_body(tower(64)).unwrap()[0];
    let mut depth = 0;
    while let Element::Details { level, body, .. } = element {
        assert_eq!(*level, 63 - depth);
        depth += 1;
        match body.first() {
            Some(inner) => element = inner,
            None => break,
        }
    }
    assert_eq!(depth, 64);
}

#[test]
fn sixty_five_blocks_inside_one_another_are_too_deep() {
    assert_eq!(error_types(tower(65))[0], ParseErrorType::InvalidNestingLevel(0));
}
