use zeta::ast::{Element, MarkdownDoc, MessageType, ParsedMd, ZetaFrontmatter};
use zeta::compiler::{quoted_updated_at, resolve_image, ImageHost, QiitaCompiler, ZennCompiler};
use zeta::frontmatter::QiitaFrontmatter;
use zeta::macros::Macro;
use zeta::parser::Parser;
use zeta::print::zeta_error_position;
use zeta::scanner::Scanner;

fn text(s: &str) -> Element {
    Element::Text(s.to_string())
}

fn alert() -> Element {
    Element::Message { level: 0, msg_type: MessageType::Alert, body: vec![text("Hello\n")] }
}

fn frontmatter() -> ZetaFrontmatter {
    ZetaFrontmatter {
        title: "Title".to_string(),
        emoji: "E".to_string(),
        kind: "tech".to_string(),
        topics: vec!["rust".to_string(), "verus".to_string()],
        published: true,
        only: None,
    }
}

fn doc(elements: Vec<Element>) -> ParsedMd {
    MarkdownDoc::new(frontmatter(), elements)
}

fn host() -> ImageHost {
    ImageHost { repository: "user/repo".to_string(), branch: "main".to_string() }
}

fn zenn(elements: Vec<Element>) -> String {
    ZennCompiler::new().compile_elements(&elements)
}

fn qiita(elements: Vec<Element>) -> String {
    QiitaCompiler::new(None).compile_elements(&elements)
}

#[test]
fn alert_message_on_both_platforms() {
    assert_eq!(qiita(vec![alert()]), ":::note alert\nHello\n:::");
    assert_eq!(zenn(vec![alert()]), ":::message alert\nHello\n:::");
}

#[test]
fn zenn_knows_alerts_only() {
    let info = Element::Message { level: 0, msg_type: MessageType::Info, body: vec![text("x")] };
    let warn = Element::Message { level: 1, msg_type: MessageType::Warn, body: vec![text("x")] };
    assert_eq!(zenn(vec![info]), ":::message \nx:::");
    assert_eq!(zenn(vec![warn]), "::::message \nx::::");
}

#[test]
fn qiita_names_every_kind_of_message() {
    let info = Element::Message { level: 2, msg_type: MessageType::Info, body: vec![text("x")] };
    let warn = Element::Message { level: 0, msg_type: MessageType::Warn, body: vec![text("x")] };
    assert_eq!(qiita(vec![info]), ":::note info\nx:::");
    assert_eq!(qiita(vec![warn]), ":::note warn\nx:::");
}

#[test]
fn nested_blocks_on_zenn_have_fences_by_level() {
    let inner = Element::Message { level: 0, msg_type: MessageType::Alert, body: vec![text("in\n")] };
    let outer = Element::Details { level: 1, title: "More".to_string(), body: vec![text("a\n"), inner, text("\n")] };
    assert_eq!(
        zenn(vec![outer]),
        "::::details More\na\n:::message alert\nin\n:::\n::::"
    );
}

#[test]
fn details_on_qiita_are_html() {
    let details = Element::Details { level: 3, title: "More".to_string(), body: vec![text("x\n")] };
    assert_eq!(qiita(vec![details]), "<details><summary>More</summary>\n\nx\n</details>\n");
}

#[test]
fn plain_elements() {
    let elements = || {
        vec![
            text("a"),
            Element::Url("https://example.com".to_string()),
            Element::Image { alt: "cat".to_string(), url: "https://x/cat.png".to_string() },
            Element::LinkCard { card_type: "card".to_string(), url: "https://y".to_string() },
            Element::Footnote("id".to_string()),
        ]
    };
    let expected = "a\nhttps://example.com\n![cat](https://x/cat.png)@[card](https://y)[^id]";
    assert_eq!(zenn(elements()), expected);
    assert_eq!(qiita(elements()), expected);
}

#[test]
fn macro_renders_the_text_of_each_platform() {
    let source: Vec<char> = "<macro>\nzenn: \"A\"\nqiita: \"B\"\n</macro>".chars().collect();
    let tokens = Scanner::new(source).scan_body().unwrap();
    let elements = Parser::new(MarkdownDoc::new(String::new(), tokens)).parse_body().unwrap();
    assert_eq!(zenn(copy(&elements)), "A");
    assert_eq!(qiita(elements), "B");
}

fn copy(elements: &Vec<Element>) -> Vec<Element> {
    elements.iter().map(|e| e.clone()).collect()
}

#[test]
fn macro_element_on_each_platform() {
    let m = || Element::Macro(Macro { zenn: vec![text("for zenn")], qiita: vec![text("for qiita")] });
    assert_eq!(zenn(vec![m()]), "for zenn");
    assert_eq!(qiita(vec![m()]), "for qiita");
}

#[test]
fn inline_footnote_on_zenn_stays_inline() {
    assert_eq!(zenn(vec![Element::InlineFootnote("note".to_string())]), "^[note]");
}

#[test]
fn two_inline_footnotes_on_qiita_get_names_of_their_own() {
    let elements = vec![
        Element::InlineFootnote("first".to_string()),
        Element::InlineFootnote("second".to_string()),
    ];
    assert_eq!(
        qiita(elements),
        "[^zeta.inline.1][^zeta.inline.2]\n[^zeta.inline.1]: first\n\n[^zeta.inline.2]: second\n"
    );
}

#[test]
fn inline_footnote_avoids_the_name_of_a_footnote_met_before() {
    let elements = vec![
        Element::Footnote("zeta.inline.1".to_string()),
        Element::InlineFootnote("first".to_string()),
        Element::InlineFootnote("second".to_string()),
    ];
    assert_eq!(
        qiita(elements),
        "[^zeta.inline.1][^zeta.inline.2][^zeta.inline.3]\n[^zeta.inline.2]: first\n\n[^zeta.inline.3]: second\n"
    );
}

#[test]
fn eleventh_inline_footnote_has_a_two_digit_name() {
    let elements: Vec<Element> = (0..11).map(|_| Element::InlineFootnote("n".to_string())).collect();
    let out = qiita(elements);
    assert!(out.contains("[^zeta.inline.10][^zeta.inline.11]"));
    assert!(out.ends_with("\n[^zeta.inline.11]: n\n"));
}

#[test]
fn footnotes_inside_a_block_are_forgotten_outside_it() {
    let block = Element::Message {
        level: 0,
        msg_type: MessageType::Info,
        body: vec![Element::InlineFootnote("inside".to_string())],
    };
    let elements = vec![Element::InlineFootnote("before".to_string()), block, Element::InlineFootnote("after".to_string())];
    assert_eq!(
        qiita(elements),
        "[^zeta.inline.1]:::note info\n[^zeta.inline.1]\n[^zeta.inline.1]: inside\n:::[^zeta.inline.2]\n[^zeta.inline.1]: before\n\n[^zeta.inline.2]: after\n"
    );
}

#[test]
fn footnotes_in_a_macro_are_defined_once_at_the_end() {
    let m = Element::Macro(Macro {
        zenn: vec![],
        qiita: vec![text("q"), Element::InlineFootnote("b".to_string())],
    });
    assert_eq!(
        qiita(vec![Element::InlineFootnote("a".to_string()), m, text("!")]),
        "[^zeta.inline.1]q[^zeta.inline.2]!\n[^zeta.inline.1]: a\n\n[^zeta.inline.2]: b\n"
    );
}

#[test]
fn local_image_is_resolved_on_qiita_only() {
    let image = || vec![Element::Image { alt: "cat".to_string(), url: "/images/cat.png".to_string() }];
    assert_eq!(zenn(image()), "![cat](/images/cat.png)");
    assert_eq!(qiita(image()), "![cat](/images/cat.png)");
    let mut compiler = QiitaCompiler::new(None).with_image_host(host());
    assert_eq!(
        compiler.compile_elements(&image()),
        "![cat](https://raw.githubusercontent.com/user/repo/main/images/cat.png)"
    );
}

#[test]
fn image_host_reaches_into_blocks() {
    let block = Element::Details {
        level: 0,
        title: "t".to_string(),
        body: vec![Element::Image { alt: "a".to_string(), url: "/images/a.png".to_string() }],
    };
    let mut compiler = QiitaCompiler::new(None).with_image_host(host());
    assert_eq!(
        compiler.compile_elements(&vec![block]),
        "<details><summary>t</summary>\n\n![a](https://raw.githubusercontent.com/user/repo/main/images/a.png)</details>\n"
    );
}

#[test]
fn resolve_image_leaves_other_paths() {
    assert_eq!(resolve_image("https://x/images/a.png", &Some(host())), "https://x/images/a.png");
    assert_eq!(resolve_image("/img/a.png", &Some(host())), "/img/a.png");
    assert_eq!(resolve_image("/images", &Some(host())), "https://raw.githubusercontent.com/user/repo/main/images");
    assert_eq!(resolve_image("/images/a.png", &None), "/images/a.png");
}

#[test]
fn zenn_document() {
    assert_eq!(
        ZennCompiler::new().compile(doc(vec![text("body\n")])),
        "---\ntitle: Title\nemoji: E\ntype: tech\ntopics:\n- rust\n- verus\npublished: true\n---\nbody\n"
    );
}

#[test]
fn qiita_document_without_published_front_matter() {
    assert_eq!(
        QiitaCompiler::new(None).compile(doc(vec![text("body\n")])),
        "---\ntitle: Title\ntags:\n- rust\n- verus\nprivate: false\nupdated_at: ''\nid: null\norganization_url_name: null\nslide: false\nignorePublish: false\n---\nbody\n"
    );
}

#[test]
fn qiita_document_keeps_what_was_published() {
    let existing = QiitaFrontmatter {
        title: "Old".to_string(),
        tags: vec!["old".to_string()],
        private: true,
        updated_at: "2024-05-01T10:00:00+09:00".to_string(),
        id: Some("abc123".to_string()),
        organization_url_name: None,
        slide: true,
        ignorePublish: true,
    };
    assert_eq!(
        QiitaCompiler::new(Some(existing)).compile(doc(vec![])),
        "---\ntitle: Title\ntags:\n- rust\n- verus\nprivate: true\nupdated_at: '2024-05-01T10:00:00+09:00'\nid: abc123\norganization_url_name: null\nslide: true\nignorePublish: false\n---\n"
    );
}

#[test]
fn unpublished_document_is_ignored_on_qiita() {
    let mut draft = doc(vec![]);
    draft.frontmatter.published = false;
    let out = QiitaCompiler::new(None).compile(draft);
    assert!(out.contains("\nignorePublish: true\n"));
}

#[test]
fn compiling_twice_gives_the_same_text() {
    let elements = || {
        vec![
            Element::InlineFootnote("a".to_string()),
            Element::InlineFootnote("b".to_string()),
            Element::InlineFootnote("c".to_string()),
            alert(),
        ]
    };
    assert_eq!(
        QiitaCompiler::new(None).compile(doc(elements())),
        QiitaCompiler::new(None).compile(doc(elements()))
    );
    assert_eq!(
        ZennCompiler::new().compile(doc(elements())),
        ZennCompiler::new().compile(doc(elements()))
    );
}

#[test]
fn updated_at_is_quoted() {
    assert_eq!(
        quoted_updated_at("---\ntitle: a\nupdated_at: 2024-05-01\nid: x\n---\n".to_string()),
        "---\ntitle: a\nupdated_at: '2024-05-01'\nid: x\n---\n"
    );
    assert_eq!(quoted_updated_at("updated_at: x".to_string()), "updated_at: 'x'");
    assert_eq!(quoted_updated_at("updated_at:".to_string()), "updated_at: ''");
}

#[test]
fn updated_at_between_quotes_stays() {
    let single = "---\nupdated_at: '2024-05-01'\n---\n";
    let double = "---\nupdated_at: \"2024-05-01\"\n---\n";
    assert_eq!(quoted_updated_at(single.to_string()), single);
    assert_eq!(quoted_updated_at(double.to_string()), double);
}

#[test]
fn only_a_line_that_begins_with_updated_at_is_quoted() {
    let text = "---\ntitle: updated_at: x\n  updated_at: y\n---\n";
    assert_eq!(quoted_updated_at(text.to_string()), text);
}

#[test]
fn published_front_matter_is_read_back() {
    let published = "---\ntitle: Title\ntags:\n- rust\nprivate: false\nupdated_at: '2024-05-01'\nid: abc\norganization_url_name: null\nslide: false\nignorePublish: true\n---\nbody --- more";
    assert_eq!(
        QiitaFrontmatter::from_published(published),
        Some(QiitaFrontmatter {
            title: "Title".to_string(),
            tags: vec!["rust".to_string()],
            private: false,
            updated_at: "2024-05-01".to_string(),
            id: Some("abc".to_string()),
            organization_url_name: None,
            slide: false,
            ignorePublish: true,
        })
    );
    assert_eq!(QiitaFrontmatter::from_published("---"), None);
    assert_eq!(QiitaFrontmatter::from_published("---\ntitle: Title\n"), None);
    assert_eq!(QiitaFrontmatter::from_published("---\ntitle: Title\n---\n"), None);
}

#[test]
fn error_with_its_position() {
    assert_eq!(zeta_error_position("Invalid macro.", 12, 0), "Invalid macro.\n --> row: 12, column: 0");
    assert_eq!(
        zeta_error_position("x", 1234567890, 9),
        "x\n --> row: 1234567890, column: 9"
    );
}
