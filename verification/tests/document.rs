use zeta::ast::{Element, ZetaFrontmatter};
use zeta::compiler::ImageHost;
use zeta::document::{is_compiled_for, needs_image_host, parse_source, render, BuildError};
use zeta::frontmatter::decode_frontmatter;
use zeta::macros::{decode_macro, Macro, Platform};
use zeta::parser::ParseErrorType;
use zeta::scanner::ScanErrorType;
use zeta::yaml::{parse_yaml, YamlEntry, YamlNode};

fn source(only: &str, body: &str) -> Vec<char> {
    format!(
        "---\ntitle: Hello\nemoji: E\ntype: idea\ntopics:\n- a\npublished: false\n{}---\n{}",
        only, body
    )
    .chars()
    .collect()
}

#[test]
fn document_is_built_for_both_platforms() {
    let doc = parse_source(source("", "See ^[this].\n:::message warn\nCare\n:::\n")).unwrap();
    let out = render(doc, None, None);
    assert_eq!(
        out.zenn.unwrap(),
        "---\ntitle: Hello\nemoji: E\ntype: idea\ntopics:\n- a\npublished: false\n---\nSee ^[this].\n:::message \nCare\n:::\n"
    );
    assert_eq!(
        out.qiita.unwrap(),
        "---\ntitle: Hello\ntags:\n- a\nprivate: false\nupdated_at: ''\nid: null\norganization_url_name: null\nslide: false\nignorePublish: true\n---\nSee [^zeta.inline.1].\n:::note warn\nCare\n:::\n\n[^zeta.inline.1]: this\n"
    );
}

#[test]
fn document_for_one_platform_is_built_for_that_one() {
    let out = render(parse_source(source("only: Zenn\n", "x")).unwrap(), None, None);
    assert!(out.zenn.is_some());
    assert!(out.qiita.is_none());
    let out = render(parse_source(source("only: qiita\n", "x")).unwrap(), None, None);
    assert!(out.zenn.is_none());
    assert!(out.qiita.is_some());
}

#[test]
fn is_compiled_for_follows_the_front_matter() {
    let mut frontmatter = ZetaFrontmatter::default();
    assert!(is_compiled_for(&frontmatter, Platform::Zenn));
    assert!(is_compiled_for(&frontmatter, Platform::Qiita));
    frontmatter.only = Some(Platform::Zenn);
    assert!(is_compiled_for(&frontmatter, Platform::Zenn));
    assert!(!is_compiled_for(&frontmatter, Platform::Qiita));
}

#[test]
fn scan_errors_stop_the_build() {
    match parse_source(source("", "![a](b")) {
        Err(BuildError::Scan(errors)) => {
            assert_eq!(errors.len(), 1);
            assert_eq!(errors[0].error_type, ScanErrorType::Incomplete(")".to_string()));
        }
        other => panic!("not a scan error: {:?}", other),
    }
}

#[test]
fn parse_errors_stop_the_build() {
    match parse_source(source("", ":::message loud\nx\n:::")) {
        Err(BuildError::Parse(errors)) => {
            assert_eq!(errors[0].error_type, ParseErrorType::InvalidMessageType);
        }
        other => panic!("not a parse error: {:?}", other),
    }
}

#[test]
fn image_host_is_asked_for_only_with_local_images() {
    let image = |url: &str| Element::Image { alt: "a".to_string(), url: url.to_string() };
    assert!(!needs_image_host(&vec![image("https://x/images/a.png")]));
    assert!(needs_image_host(&vec![Element::Text("x".to_string()), image("/images/a.png")]));
    let in_zenn = Element::Macro(Macro { zenn: vec![image("/images/a.png")], qiita: vec![] });
    assert!(!needs_image_host(&vec![in_zenn]));
    let in_qiita = Element::Macro(Macro { zenn: vec![], qiita: vec![image("/images/a.png")] });
    assert!(needs_image_host(&vec![in_qiita]));
    let in_block = Element::Details { level: 0, title: "t".to_string(), body: vec![image("/images/a.png")] };
    assert!(needs_image_host(&vec![in_block]));
}

#[test]
fn local_image_in_a_built_document() {
    let host = ImageHost { repository: "u/r".to_string(), branch: "dev".to_string() };
    let out = render(parse_source(source("", "![a](/images/a.png)")).unwrap(), None, Some(host));
    assert!(out.zenn.unwrap().ends_with("---\n![a](/images/a.png)"));
    assert!(out.qiita.unwrap().ends_with("---\n![a](https://raw.githubusercontent.com/u/r/dev/images/a.png)"));
}

#[test]
fn new_article_has_a_head() {
    assert_eq!(
        ZetaFrontmatter::new_article(None).header(),
        "---\ntitle: ''\nemoji: 😀\ntype: tech\ntopics: []\npublished: false\n---\n"
    );
    assert_eq!(
        ZetaFrontmatter::new_article(Some(Platform::Qiita)).header(),
        "---\ntitle: ''\nemoji: 😀\ntype: tech\ntopics: []\npublished: false\nonly: Qiita\n---\n"
    );
}

#[test]
fn new_article_is_read_back() {
    let fresh = ZetaFrontmatter::new_article(Some(Platform::Zenn));
    let header = fresh.header();
    let yaml = &header[4..header.len() - 4];
    assert_eq!(decode_frontmatter(yaml), Ok(fresh));
}

#[test]
fn yaml_is_read_as_a_tree() {
    let entry = |key: &str, value: YamlNode| YamlEntry { key: YamlNode::Text(key.to_string()), value };
    assert_eq!(
        parse_yaml("a: x\nb: [1, true, ~]\nc:\n  d: 2.5\n"),
        Ok(YamlNode::Mapping(vec![
            entry("a", YamlNode::Text("x".to_string())),
            entry(
                "b",
                YamlNode::Sequence(vec![YamlNode::Number("1".to_string()), YamlNode::Bool(true), YamlNode::Null])
            ),
            entry("c", YamlNode::Mapping(vec![entry("d", YamlNode::Number("2.5".to_string()))])),
        ]))
    );
    assert_eq!(parse_yaml("@invalid"), Err(Some((1, 1))));
}

#[test]
fn front_matter_fields() {
    let ok = decode_frontmatter("title: 2024\nemoji: E\ntype: tech\ntopics: []\npublished: false\nextra: 1\n").unwrap();
    assert_eq!(ok.title, "2024");
    assert_eq!(ok.topics, Vec::<String>::new());
    assert_eq!(decode_frontmatter("title: T\nemoji: E\ntype: tech\ntopics: []\npublished: yes\n"), Err((0, 0)));
    assert_eq!(decode_frontmatter("title: T\nemoji: E\ntype: tech\ntopics: x\npublished: true\n"), Err((0, 0)));
    assert_eq!(
        decode_frontmatter("title: T\nemoji: E\ntype: tech\ntopics: []\npublished: true\nonly: Note\n"),
        Err((0, 0))
    );
    assert_eq!(decode_frontmatter("- a\n"), Err((0, 0)));
}

#[test]
fn macro_bodies() {
    assert_eq!(
        decode_macro("zenn: A\nqiita: ~\n"),
        Some(Macro { zenn: Some("A".to_string()), qiita: None })
    );
    assert_eq!(decode_macro("other: 1\n"), Some(Macro { zenn: None, qiita: None }));
    assert_eq!(decode_macro("zenn: [a]\n"), None);
    assert_eq!(decode_macro("zenn: a: b: c\n"), None);
    assert_eq!(
        decode_macro("zenn: 12\nQiita: true\n"),
        Some(Macro { zenn: Some("12".to_string()), qiita: Some("true".to_string()) })
    );
}

#[test]
fn empty_title_is_the_empty_text() {
    let ok = decode_frontmatter("title:\nemoji: E\ntype: tech\ntopics: []\npublished: false\n").unwrap();
    assert_eq!(ok.title, "");
    assert_eq!(ok.emoji, "E");
}

#[test]
fn empty_text_of_a_macro_is_no_text() {
    assert_eq!(decode_macro("zenn:\nqiita: ''\n"), Some(Macro { zenn: None, qiita: Some(String::new()) }));
}
