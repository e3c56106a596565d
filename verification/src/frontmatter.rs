//! Front matter as YAML: how a document's front matter is read from a YAML
//! mapping.

use vstd::prelude::*;
use crate::ast::{FrontmatterView, ZetaFrontmatter};
use crate::macros::Platform;
use crate::text::{
    chars_of, find_from, index_of, same_text, string_from_chars, texts,
};
use crate::yaml::{
    entries_view, find_entry, lemma_nodes_view, lookup, nodes_view, optional_entry, optional_text,
    outcome_view, parse_yaml, scalar_text, text_of_scalar, yaml_document, YamlEntry,
    YamlEntryView, YamlFault, YamlNode, YamlView,
};

verus! {

/// The text under a key, which must be there and a scalar.
pub open spec fn required_text(entries: Seq<YamlEntryView>, key: Seq<char>) -> Option<Seq<char>> {
    match lookup(entries, key, key) {
        Some(node) => scalar_text(node),
        None => None,
    }
}

/// The boolean under a key, which must be there.
pub open spec fn required_bool(entries: Seq<YamlEntryView>, key: Seq<char>) -> Option<bool> {
    match lookup(entries, key, key) {
        Some(YamlView::Bool(b)) => Some(b),
        _ => None,
    }
}

/// The texts of a sequence of scalars: none where one of them has no text.
pub open spec fn scalar_texts(items: Seq<YamlView>) -> Option<Seq<Seq<char>>>
    decreases items.len(),
{
    if items.len() == 0 {
        Some(Seq::empty())
    } else {
        match (scalar_texts(items.drop_last()), scalar_text(items.last())) {
            (Some(front), Some(text)) => Some(front.push(text)),
            _ => None,
        }
    }
}

/// The list of texts under a key, which must be there and a sequence of
/// scalars.
pub open spec fn required_texts(entries: Seq<YamlEntryView>, key: Seq<char>) -> Option<
    Seq<Seq<char>>,
> {
    match lookup(entries, key, key) {
        Some(YamlView::Sequence(items)) => scalar_texts(items),
        _ => None,
    }
}

/// The platform that a text names: a platform's name, capitalised or in
/// lower case.
pub open spec fn platform_of_text(text: Seq<char>) -> Option<Platform> {
    if text == "Zenn"@ || text == "zenn"@ {
        Some(Platform::Zenn)
    } else if text == "Qiita"@ || text == "qiita"@ {
        Some(Platform::Qiita)
    } else {
        None
    }
}

/// The platform under a key: none where the key is missing or its value is
/// null, and a fault where the value names no platform.
pub open spec fn optional_platform(entries: Seq<YamlEntryView>, key: Seq<char>) -> Result<
    Option<Platform>,
    (),
> {
    match lookup(entries, key, key) {
        None => Ok(None),
        Some(YamlView::Null) => Ok(None),
        Some(YamlView::Text(text)) => match platform_of_text(text) {
            Some(platform) => Ok(Some(platform)),
            None => Err(()),
        },
        Some(_) => Err(()),
    }
}

/// The front matter that a mapping holds: `title`, `emoji`, `type`, `topics`
/// and `published` must be there, `only` may be.
pub open spec fn frontmatter_of_entries(entries: Seq<YamlEntryView>) -> Option<FrontmatterView> {
    match (
        required_text(entries, "title"@),
        required_text(entries, "emoji"@),
        required_text(entries, "type"@),
        required_texts(entries, "topics"@),
        required_bool(entries, "published"@),
        optional_platform(entries, "only"@),
    ) {
        (Some(title), Some(emoji), Some(kind), Some(topics), Some(published), Ok(only)) => Some(
            FrontmatterView { title, emoji, kind, topics, published, only },
        ),
        _ => None,
    }
}

/// The front matter that a YAML document holds. A text that is no YAML is
/// faulty at the line and column that the reader of YAML reports. Whether a
/// document has the shape of a front matter is decided here, on the tree
/// that was read, which holds no positions: a document of another shape is
/// faulty at line 0, column 0, as is a text of whose fault the reader
/// reports no place.
pub open spec fn frontmatter_of_document(doc: Result<YamlView, YamlFault>) -> Result<
    FrontmatterView,
    (int, int),
> {
    match doc {
        Err(Some((line, column))) => Err((line as int, column as int)),
        Err(None) => Err((0, 0)),
        Ok(YamlView::Mapping(entries)) => match frontmatter_of_entries(entries) {
            Some(frontmatter) => Ok(frontmatter),
            None => Err((0, 0)),
        },
        Ok(_) => Err((0, 0)),
    }
}

/// The front matter that a text holds.
pub open spec fn frontmatter_of_text(text: Seq<char>) -> Result<FrontmatterView, (int, int)> {
    frontmatter_of_document(yaml_document(text))
}

/// The outcome of reading front matter, by the values of its parts.
pub open spec fn decoded_frontmatter_view(r: Result<ZetaFrontmatter, (usize, usize)>) -> Result<
    FrontmatterView,
    (int, int),
> {
    match r {
        Ok(frontmatter) => Ok(frontmatter@),
        Err((line, column)) => Err((line as int, column as int)),
    }
}

/// The text under a key.
fn entry_text(entries: &Vec<YamlEntry>, key: &str) -> (r: Option<String>)
    ensures
        match r {
            Some(s) => required_text(entries_view(entries@), key@) == Some(s@),
            None => required_text(entries_view(entries@), key@) is None,
        },
{
    match find_entry(entries, key, key) {
        Some(node) => text_of_scalar(node),
        None => None,
    }
}

/// The boolean under a key.
fn entry_bool(entries: &Vec<YamlEntry>, key: &str) -> (r: Option<bool>)
    ensures
        r == required_bool(entries_view(entries@), key@),
{
    match find_entry(entries, key, key) {
        Some(YamlNode::Bool(b)) => Some(*b),
        _ => None,
    }
}

/// The texts of a sequence of scalars.
fn texts_of_scalars(items: &Vec<YamlNode>) -> (r: Option<Vec<String>>)
    ensures
        match r {
            Some(v) => scalar_texts(nodes_view(items@)) == Some(texts(v@)),
            None => scalar_texts(nodes_view(items@)) is None,
        },
{
    let mut result: Vec<String> = Vec::new();
    let mut i: usize = 0;
    proof {
        lemma_nodes_view(items@);
        assert(nodes_view(items@).subrange(0, 0) == Seq::<YamlView>::empty());
        assert(texts(result@) == Seq::<Seq<char>>::empty());
    }
    while i < items.len()
        invariant
            i <= items.len(),
            nodes_view(items@).len() == items.len(),
            forall|k: int| 0 <= k < items.len() ==> #[trigger] nodes_view(items@)[k] == items@[k]@,
            scalar_texts(nodes_view(items@).subrange(0, i as int)) == Some(texts(result@)),
        decreases items.len() - i,
    {
        let ghost all = nodes_view(items@);
        proof {
            assert(all.subrange(0, i + 1).drop_last() == all.subrange(0, i as int));
            assert(all.subrange(0, i + 1).last() == all[i as int]);
        }
        match text_of_scalar(&items[i]) {
            Some(text) => {
                proof {
                    assert(texts(result@.push(text)) == texts(result@).push(text@));
                }
                result.push(text);
            },
            None => {
                proof {
                    lemma_scalar_texts_prefix(all, i + 1);
                }
                return None;
            },
        }
        i += 1;
    }
    assert(nodes_view(items@).subrange(0, items.len() as int) == nodes_view(items@));
    Some(result)
}

/// Where a front part of a sequence has a scalar without text, so has the
/// whole.
proof fn lemma_scalar_texts_prefix(items: Seq<YamlView>, n: int)
    requires
        0 <= n <= items.len(),
        scalar_texts(items.subrange(0, n)) is None,
    ensures
        scalar_texts(items) is None,
    decreases items.len() - n,
{
    if n < items.len() {
        assert(items.subrange(0, n + 1).drop_last() == items.subrange(0, n));
        lemma_scalar_texts_prefix(items, n + 1);
    } else {
        assert(items.subrange(0, n) == items);
    }
}

/// The list of texts under a key.
fn entry_texts(entries: &Vec<YamlEntry>, key: &str) -> (r: Option<Vec<String>>)
    ensures
        match r {
            Some(v) => required_texts(entries_view(entries@), key@) == Some(texts(v@)),
            None => required_texts(entries_view(entries@), key@) is None,
        },
{
    match find_entry(entries, key, key) {
        Some(YamlNode::Sequence(items)) => texts_of_scalars(items),
        _ => None,
    }
}

/// The platform that a text names.
pub fn platform_named(text: &str) -> (r: Option<Platform>)
    ensures
        r == platform_of_text(text@),
{
    if same_text(text, "Zenn") || same_text(text, "zenn") {
        Some(Platform::Zenn)
    } else if same_text(text, "Qiita") || same_text(text, "qiita") {
        Some(Platform::Qiita)
    } else {
        None
    }
}

/// The platform under a key.
fn entry_platform(entries: &Vec<YamlEntry>, key: &str) -> (r: Result<Option<Platform>, ()>)
    ensures
        r == optional_platform(entries_view(entries@), key@),
{
    match find_entry(entries, key, key) {
        None => Ok(None),
        Some(YamlNode::Null) => Ok(None),
        Some(YamlNode::Text(text)) => match platform_named(text.as_str()) {
            Some(platform) => Ok(Some(platform)),
            None => Err(()),
        },
        Some(_) => Err(()),
    }
}

/// Reads a document's front matter: its value, or the line and column of
/// the fault.
pub fn decode_frontmatter(text: &str) -> (r: Result<ZetaFrontmatter, (usize, usize)>)
    ensures
        decoded_frontmatter_view(r) == frontmatter_of_text(text@),
{
    frontmatter_of_yaml(parse_yaml(text))
}

/// The front matter of a document, given the outcome of reading it as YAML.
pub fn frontmatter_of_yaml(doc: Result<YamlNode, YamlFault>) -> (r: Result<
    ZetaFrontmatter,
    (usize, usize),
>)
    ensures
        decoded_frontmatter_view(r) == frontmatter_of_document(outcome_view(doc)),
{
    match doc {
        Err(Some((line, column))) => Err((line, column)),
        Err(None) => Err((0, 0)),
        Ok(YamlNode::Mapping(entries)) => {
            let title = entry_text(&entries, "title");
            let emoji = entry_text(&entries, "emoji");
            let kind = entry_text(&entries, "type");
            let topics = entry_texts(&entries, "topics");
            let published = entry_bool(&entries, "published");
            let only = entry_platform(&entries, "only");
            match (title, emoji, kind, topics, published, only) {
                (
                    Some(title),
                    Some(emoji),
                    Some(kind),
                    Some(topics),
                    Some(published),
                    Ok(only),
                ) => Ok(ZetaFrontmatter { title, emoji, kind, topics, published, only }),
                _ => Err((0, 0)),
            }
        },
        Ok(_) => Err((0, 0)),
    }
}

/// The front matter of a document on Zenn.
#[derive(Debug, Clone, PartialEq, Eq)]
pub struct ZennFrontmatter {
    pub title: String,
    pub emoji: String,
    pub kind: String,
    pub topics: Vec<String>,
    pub published: bool,
}

/// The front matter of a document on Qiita.
#[allow(non_snake_case)]
#[derive(Debug, Clone, PartialEq, Eq)]
pub struct QiitaFrontmatter {
    pub title: String,
    pub tags: Vec<String>,
    pub private: bool,
    pub updated_at: String,
    pub id: Option<String>,
    pub organization_url_name: Option<String>,
    pub slide: bool,
    pub ignorePublish: bool,
}

/// The mathematical value of a Zenn front matter.
pub struct ZennFrontmatterView {
    pub title: Seq<char>,
    pub emoji: Seq<char>,
    pub kind: Seq<char>,
    pub topics: Seq<Seq<char>>,
    pub published: bool,
}

/// The mathematical value of a Qiita front matter.
pub struct QiitaFrontmatterView {
    pub title: Seq<char>,
    pub tags: Seq<Seq<char>>,
    pub private: bool,
    pub updated_at: Seq<char>,
    pub id: Option<Seq<char>>,
    pub organization_url_name: Option<Seq<char>>,
    pub slide: bool,
    pub ignore_publish: bool,
}

/// The value of an optional string.
pub open spec fn optional_string_view(s: Option<String>) -> Option<Seq<char>> {
    match s {
        Some(s) => Some(s@),
        None => None,
    }
}

impl View for ZennFrontmatter {
    type V = ZennFrontmatterView;

    open spec fn view(&self) -> ZennFrontmatterView {
        ZennFrontmatterView {
            title: self.title@,
            emoji: self.emoji@,
            kind: self.kind@,
            topics: texts(self.topics@),
            published: self.published,
        }
    }
}

impl View for QiitaFrontmatter {
    type V = QiitaFrontmatterView;

    open spec fn view(&self) -> QiitaFrontmatterView {
        QiitaFrontmatterView {
            title: self.title@,
            tags: texts(self.tags@),
            private: self.private,
            updated_at: self.updated_at@,
            id: optional_string_view(self.id),
            organization_url_name: optional_string_view(self.organization_url_name),
            slide: self.slide,
            ignore_publish: self.ignorePublish,
        }
    }
}

/// The front matter on Zenn of a document: its fields, one for one.
pub open spec fn zenn_frontmatter(frontmatter: FrontmatterView) -> ZennFrontmatterView {
    ZennFrontmatterView {
        title: frontmatter.title,
        emoji: frontmatter.emoji,
        kind: frontmatter.kind,
        topics: frontmatter.topics,
        published: frontmatter.published,
    }
}

/// The front matter on Qiita of a document. Title and tags are the
/// document's, and it is kept from publication unless the document is
/// published. What only Qiita knows is taken from the front matter that was
/// published before; where there is none, the document is public, is no
/// slide and has neither an identifier nor an organization nor a date.
pub open spec fn qiita_frontmatter(
    frontmatter: FrontmatterView,
    existing: Option<QiitaFrontmatterView>,
) -> QiitaFrontmatterView {
    match existing {
        Some(existing) => QiitaFrontmatterView {
            title: frontmatter.title,
            tags: frontmatter.topics,
            private: existing.private,
            updated_at: existing.updated_at,
            id: existing.id,
            organization_url_name: existing.organization_url_name,
            slide: existing.slide,
            ignore_publish: !frontmatter.published,
        },
        None => QiitaFrontmatterView {
            title: frontmatter.title,
            tags: frontmatter.topics,
            private: false,
            updated_at: Seq::empty(),
            id: None,
            organization_url_name: None,
            slide: false,
            ignore_publish: !frontmatter.published,
        },
    }
}

/// An entry of a mapping: a string as key, and a value.
pub open spec fn entry(key: Seq<char>, value: YamlView) -> YamlEntryView {
    YamlEntryView { key: YamlView::Text(key), value }
}

/// The node of a list of strings.
pub open spec fn texts_node(v: Seq<Seq<char>>) -> YamlView {
    YamlView::Sequence(v.map_values(|s: Seq<char>| YamlView::Text(s)))
}

/// The node of an optional string: null where there is none.
pub open spec fn optional_node(s: Option<Seq<char>>) -> YamlView {
    match s {
        Some(s) => YamlView::Text(s),
        None => YamlView::Null,
    }
}

/// The mapping that is written for a Zenn front matter.
pub open spec fn zenn_node(z: ZennFrontmatterView) -> YamlView {
    YamlView::Mapping(
        seq![
            entry("title"@, YamlView::Text(z.title)),
            entry("emoji"@, YamlView::Text(z.emoji)),
            entry("type"@, YamlView::Text(z.kind)),
            entry("topics"@, texts_node(z.topics)),
            entry("published"@, YamlView::Bool(z.published)),
        ],
    )
}

/// The mapping that is written for a Qiita front matter.
pub open spec fn qiita_node(q: QiitaFrontmatterView) -> YamlView {
    YamlView::Mapping(
        seq![
            entry("title"@, YamlView::Text(q.title)),
            entry("tags"@, texts_node(q.tags)),
            entry("private"@, YamlView::Bool(q.private)),
            entry("updated_at"@, YamlView::Text(q.updated_at)),
            entry("id"@, optional_node(q.id)),
            entry("organization_url_name"@, optional_node(q.organization_url_name)),
            entry("slide"@, YamlView::Bool(q.slide)),
            entry("ignorePublish"@, YamlView::Bool(q.ignore_publish)),
        ],
    )
}

/// The node of a string.
fn make_text(s: &String) -> (n: YamlNode)
    ensures
        n@ == YamlView::Text(s@),
{
    YamlNode::Text(s.clone())
}

/// The node of a list of strings.
fn make_texts(v: &Vec<String>) -> (n: YamlNode)
    ensures
        n@ == texts_node(texts(v@)),
{
    let mut items: Vec<YamlNode> = Vec::new();
    let mut i: usize = 0;
    while i < v.len()
        invariant
            i <= v.len(),
            items.len() == i,
            forall|k: int|
                0 <= k < i ==> #[trigger] crate::yaml::node_view(items@[k]) == YamlView::Text(
                    v@[k]@,
                ),
        decreases v.len() - i,
    {
        items.push(YamlNode::Text(v[i].clone()));
        i += 1;
    }
    proof {
        lemma_nodes_view(items@);
        let wanted = texts(v@).map_values(|s: Seq<char>| YamlView::Text(s));
        assert(nodes_view(items@).len() == wanted.len());
        assert forall|k: int| 0 <= k < wanted.len() implies nodes_view(items@)[k] == wanted[k] by {
            assert(nodes_view(items@)[k] == crate::yaml::node_view(items@[k]));
        }
        assert(nodes_view(items@) =~= wanted);
    }
    YamlNode::Sequence(items)
}

/// The node of an optional string.
fn make_optional(s: &Option<String>) -> (n: YamlNode)
    ensures
        n@ == optional_node(optional_string_view(*s)),
{
    match s {
        Some(s) => YamlNode::Text(s.clone()),
        None => YamlNode::Null,
    }
}

/// An entry of a mapping.
fn make_entry(key: &str, value: YamlNode) -> (e: YamlEntry)
    ensures
        e@ == entry(key@, value@),
{
    YamlEntry { key: YamlNode::Text(key.to_owned()), value }
}

/// A mapping of the given entries.
fn make_mapping(entries: Vec<YamlEntry>) -> (n: YamlNode)
    ensures
        n@ is Mapping,
        n@->Mapping_0.len() == entries.len(),
        forall|k: int| 0 <= k < entries.len() ==> #[trigger] n@->Mapping_0[k] == entries@[k]@,
{
    proof {
        crate::yaml::lemma_entries_view(entries@);
    }
    YamlNode::Mapping(entries)
}

/// The keys of a Zenn front matter differ from one another.
proof fn lemma_zenn_keys()
    ensures
        "title"@ != "emoji"@,
        "title"@ != "type"@,
        "title"@ != "topics"@,
        "title"@ != "published"@,
        "emoji"@ != "type"@,
        "emoji"@ != "topics"@,
        "emoji"@ != "published"@,
        "type"@ != "topics"@,
        "type"@ != "published"@,
        "topics"@ != "published"@,
{
    reveal_strlit("title");
    reveal_strlit("emoji");
    reveal_strlit("type");
    reveal_strlit("topics");
    reveal_strlit("published");
    assert("title"@[1] != "topics"@[1]);
    assert("title"@[0] != "emoji"@[0]);
    assert("emoji"@[0] != "type"@[0]);
    assert("emoji"@[0] != "topics"@[0]);
}

/// The keys of a Qiita front matter differ from one another.
proof fn lemma_qiita_keys()
    ensures
        "title"@.len() == 5,
        "tags"@.len() == 4,
        "private"@.len() == 7,
        "updated_at"@.len() == 10,
        "id"@.len() == 2,
        "organization_url_name"@.len() == 21,
        "slide"@.len() == 5,
        "ignorePublish"@.len() == 13,
        "title"@ != "slide"@,
{
    reveal_strlit("title");
    reveal_strlit("tags");
    reveal_strlit("private");
    reveal_strlit("updated_at");
    reveal_strlit("id");
    reveal_strlit("organization_url_name");
    reveal_strlit("slide");
    reveal_strlit("ignorePublish");
    assert("title"@[0] != "slide"@[0]);
}

/// The mapping of a Zenn front matter.
pub fn zenn_mapping(z: &ZennFrontmatter) -> (n: YamlNode)
    ensures
        n@ == zenn_node(z@),
        crate::yaml::writable(n@),
{
    let mut entries: Vec<YamlEntry> = Vec::new();
    entries.push(make_entry("title", make_text(&z.title)));
    entries.push(make_entry("emoji", make_text(&z.emoji)));
    entries.push(make_entry("type", make_text(&z.kind)));
    entries.push(make_entry("topics", make_texts(&z.topics)));
    entries.push(make_entry("published", YamlNode::Bool(z.published)));
    let n = make_mapping(entries);
    proof {
        lemma_zenn_keys();
        assert(n@->Mapping_0 =~= zenn_node(z@)->Mapping_0);
    }
    n
}

/// The mapping of a Qiita front matter.
pub fn qiita_mapping(q: &QiitaFrontmatter) -> (n: YamlNode)
    ensures
        n@ == qiita_node(q@),
        crate::yaml::writable(n@),
{
    let mut entries: Vec<YamlEntry> = Vec::new();
    entries.push(make_entry("title", make_text(&q.title)));
    entries.push(make_entry("tags", make_texts(&q.tags)));
    entries.push(make_entry("private", YamlNode::Bool(q.private)));
    entries.push(make_entry("updated_at", make_text(&q.updated_at)));
    entries.push(make_entry("id", make_optional(&q.id)));
    entries.push(make_entry("organization_url_name", make_optional(&q.organization_url_name)));
    entries.push(make_entry("slide", YamlNode::Bool(q.slide)));
    entries.push(make_entry("ignorePublish", YamlNode::Bool(q.ignorePublish)));
    let n = make_mapping(entries);
    proof {
        lemma_qiita_keys();
        assert(n@->Mapping_0 =~= qiita_node(q@)->Mapping_0);
    }
    n
}

/// The front matter of a published document, as text: what stands between
/// the first four characters, which are the opening separator line, and the
/// next `---`.
pub open spec fn published_block(text: Seq<char>) -> Option<Seq<char>> {
    if text.len() < 4 {
        None
    } else {
        match index_of(text, "---"@, 4) {
            Some(end) => Some(text.subrange(4, end)),
            None => None,
        }
    }
}

/// The Qiita front matter that a mapping holds: `title`, `tags`, `private`,
/// `updated_at`, `slide` and `ignorePublish` must be there, `id` and
/// `organization_url_name` may be.
pub open spec fn qiita_of_entries(entries: Seq<YamlEntryView>) -> Option<QiitaFrontmatterView> {
    match (
        required_text(entries, "title"@),
        required_texts(entries, "tags"@),
        required_bool(entries, "private"@),
        required_text(entries, "updated_at"@),
        optional_text(entries, "id"@, "id"@),
        optional_text(entries, "organization_url_name"@, "organization_url_name"@),
        required_bool(entries, "slide"@),
        required_bool(entries, "ignorePublish"@),
    ) {
        (
            Some(title),
            Some(tags),
            Some(private),
            Some(updated_at),
            Ok(id),
            Ok(organization_url_name),
            Some(slide),
            Some(ignore_publish),
        ) => Some(
            QiitaFrontmatterView {
                title,
                tags,
                private,
                updated_at,
                id,
                organization_url_name,
                slide,
                ignore_publish,
            },
        ),
        _ => None,
    }
}

/// The Qiita front matter that a YAML document holds.
pub open spec fn qiita_of_document(doc: Result<YamlView, YamlFault>) -> Option<
    QiitaFrontmatterView,
> {
    match doc {
        Ok(YamlView::Mapping(entries)) => qiita_of_entries(entries),
        _ => None,
    }
}

/// The Qiita front matter of a published document.
pub open spec fn published_frontmatter(text: Seq<char>) -> Option<QiitaFrontmatterView> {
    match published_block(text) {
        Some(block) => qiita_of_document(yaml_document(block)),
        None => None,
    }
}

/// The value of an optional Qiita front matter.
pub open spec fn optional_qiita_view(q: Option<QiitaFrontmatter>) -> Option<QiitaFrontmatterView> {
    match q {
        Some(q) => Some(q@),
        None => None,
    }
}

impl QiitaFrontmatter {
    /// Reads the front matter of a document that was published on Qiita
    /// before: none where the document has no front matter or it cannot be
    /// read.
    pub fn from_published(text: &str) -> (r: Option<QiitaFrontmatter>)
        ensures
            optional_qiita_view(r) == published_frontmatter(text@),
    {
        let chars = chars_of(text);
        if chars.len() < 4 {
            return None;
        }
        let pattern = chars_of("---");
        let end = match find_from(&chars, &pattern, 4) {
            Some(end) => end,
            None => {
                return None;
            },
        };
        let block = string_from_chars(&chars, 4, end);
        Self::of_yaml(parse_yaml(block.as_str()))
    }

    /// The Qiita front matter of a document, given the outcome of reading
    /// it as YAML.
    pub fn of_yaml(doc: Result<YamlNode, YamlFault>) -> (r: Option<QiitaFrontmatter>)
        ensures
            optional_qiita_view(r) == qiita_of_document(outcome_view(doc)),
    {
        match doc {
            Ok(YamlNode::Mapping(entries)) => {
                let title = entry_text(&entries, "title");
                let tags = entry_texts(&entries, "tags");
                let private = entry_bool(&entries, "private");
                let updated_at = entry_text(&entries, "updated_at");
                let id = optional_entry(&entries, "id", "id");
                let organization = optional_entry(
                    &entries,
                    "organization_url_name",
                    "organization_url_name",
                );
                let slide = entry_bool(&entries, "slide");
                let ignore = entry_bool(&entries, "ignorePublish");
                match (title, tags, private, updated_at, id, organization, slide, ignore) {
                    (
                        Some(title),
                        Some(tags),
                        Some(private),
                        Some(updated_at),
                        Ok(id),
                        Ok(organization_url_name),
                        Some(slide),
                        Some(ignore_publish),
                    ) => Some(
                        QiitaFrontmatter {
                            title,
                            tags,
                            private,
                            updated_at,
                            id,
                            organization_url_name,
                            slide,
                            ignorePublish: ignore_publish,
                        },
                    ),
                    _ => None,
                }
            },
            _ => None,
        }
    }
}

/// The name of a platform.
pub open spec fn platform_name(platform: Platform) -> Seq<char> {
    match platform {
        Platform::Zenn => "Zenn"@,
        Platform::Qiita => "Qiita"@,
    }
}

/// The mapping that is written for the front matter of a source document.
/// The platform is written only where the document is meant for one.
pub open spec fn source_node(frontmatter: FrontmatterView) -> YamlView {
    let common = seq![
        entry("title"@, YamlView::Text(frontmatter.title)),
        entry("emoji"@, YamlView::Text(frontmatter.emoji)),
        entry("type"@, YamlView::Text(frontmatter.kind)),
        entry("topics"@, texts_node(frontmatter.topics)),
        entry("published"@, YamlView::Bool(frontmatter.published)),
    ];
    YamlView::Mapping(
        match frontmatter.only {
            Some(platform) => common.push(entry("only"@, YamlView::Text(platform_name(platform)))),
            None => common,
        },
    )
}

/// The head of a source document: its front matter as YAML between the
/// separator lines, or nothing between them where no YAML could be written.
pub open spec fn source_header(frontmatter: FrontmatterView) -> Seq<char> {
    "---\n"@ + (match crate::yaml::yaml_text(source_node(frontmatter)) {
        Some(text) => text,
        None => Seq::empty(),
    }) + "---\n"@
}

/// The front matter of a new article: no title yet, a smiling face, a
/// technical article without topics, not published.
pub open spec fn template(only: Option<Platform>) -> FrontmatterView {
    FrontmatterView {
        title: Seq::empty(),
        emoji: "\u{1F600}"@,
        kind: "tech"@,
        topics: Seq::empty(),
        published: false,
        only,
    }
}

impl ZetaFrontmatter {
    /// The front matter of a new article.
    pub fn new_article(only: Option<Platform>) -> (r: ZetaFrontmatter)
        ensures
            r@ == template(only),
    {
        let r = ZetaFrontmatter {
            title: String::new(),
            emoji: "\u{1F600}".to_owned(),
            kind: "tech".to_owned(),
            topics: Vec::new(),
            published: false,
            only,
        };
        assert(texts(r.topics@) =~= Seq::<Seq<char>>::empty());
        r
    }

    /// The head of a source document with this front matter.
    pub fn header(&self) -> (r: String)
        ensures
            r@ == source_header(self@),
    {
        let mut entries: Vec<YamlEntry> = Vec::new();
        entries.push(make_entry("title", make_text(&self.title)));
        entries.push(make_entry("emoji", make_text(&self.emoji)));
        entries.push(make_entry("type", make_text(&self.kind)));
        entries.push(make_entry("topics", make_texts(&self.topics)));
        entries.push(make_entry("published", YamlNode::Bool(self.published)));
        match self.only {
            Some(Platform::Zenn) => {
                entries.push(make_entry("only", YamlNode::Text("Zenn".to_owned())));
            },
            Some(Platform::Qiita) => {
                entries.push(make_entry("only", YamlNode::Text("Qiita".to_owned())));
            },
            None => {},
        }
        let node = make_mapping(entries);
        proof {
            lemma_zenn_keys();
            reveal_strlit("only");
            reveal_strlit("title");
            reveal_strlit("emoji");
            reveal_strlit("type");
            reveal_strlit("topics");
            reveal_strlit("published");
            assert("only"@[0] != "title"@[0]);
            assert("only"@[0] != "emoji"@[0]);
            assert("only"@.len() != "topics"@.len());
            assert("only"@.len() != "published"@.len());
            assert("only"@[0] != "type"@[0]);
            assert(node@->Mapping_0 =~= source_node(self@)->Mapping_0);
        }
        let mut out = String::new();
        out.append("---\n");
        match crate::yaml::emit_yaml(&node) {
            Some(text) => {
                out.append(text.as_str());
            },
            None => {},
        }
        out.append("---\n");
        assert(out@ =~= source_header(self@));
        out
    }
}

} // verus!
