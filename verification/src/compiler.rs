//! The compilers: from a parsed document to the text of each platform.

use vstd::prelude::*;
use crate::ast::{
    elements_view, lemma_elements_view, Element, ElementView, MessageType, ParsedMd,
    ZetaFrontmatter,
};
use crate::compile_model::{
    colons, definition_text, definitions, find_line, frame, image_url, inline_name, line_end,
    qiita_compile, qiita_details_text, qiita_element, qiita_elements, qiita_header,
    qiita_message_text, qiita_sequence, quote_updated_at, zenn_block_text, zenn_compile,
    zenn_element, zenn_elements, zenn_header, Footnotes, ImageHostView, NamedNote,
};
use crate::frontmatter::{
    optional_qiita_view, optional_string_view, qiita_frontmatter, qiita_mapping,
    zenn_frontmatter, zenn_mapping, QiitaFrontmatter, QiitaFrontmatterView, ZennFrontmatter,
};
use crate::ast::parsed_view;
use crate::text::{
    chars_of, copy_strings, has_prefix_at, push_chars, push_decimal, same_text, texts,
};
use crate::yaml::emit_yaml;

verus! {

/// Appends `level` colons to `out`.
fn push_colons(out: &mut String, level: usize)
    ensures
        final(out)@ == old(out)@ + colons(level as int),
{
    let mut i: usize = 0;
    assert(old(out)@ + colons(0) =~= old(out)@);
    while i < level
        invariant
            i <= level,
            out@ == old(out)@ + colons(i as int),
        decreases level - i,
    {
        out.push(':');
        i += 1;
        assert(old(out)@ + colons(i as int) =~= (old(out)@ + colons(i - 1)).push(':'));
    }
}

/// A copy of an optional string.
fn copy_optional(s: &Option<String>) -> (r: Option<String>)
    ensures
        optional_string_view(r) == optional_string_view(*s),
{
    match s {
        Some(s) => Some(s.clone()),
        None => None,
    }
}

/// A front matter between its separator lines.
fn framed(yaml: Option<String>) -> (r: String)
    ensures
        r@ == frame(optional_string_view(yaml)),
{
    let mut out = String::new();
    out.append("---\n");
    match yaml {
        Some(text) => {
            out.append(text.as_str());
        },
        None => {},
    }
    out.append("---\n");
    assert(out@ =~= frame(optional_string_view(yaml)));
    out
}

/// The compiler for Zenn.
#[derive(Debug, Clone, Copy, PartialEq, Eq)]
pub struct ZennCompiler;

impl ZennCompiler {
    pub fn new() -> (c: Self) {
        ZennCompiler
    }

    /// The document on Zenn: its head, then its elements.
    pub fn compile(self, file: ParsedMd) -> (r: String)
        ensures
            r@ == zenn_compile(parsed_view(file)),
    {
        let mut out = self.compile_header(&file.frontmatter);
        let body = self.compile_elements(&file.elements);
        out.append(body.as_str());
        out
    }

    /// The head of the document.
    fn compile_header(&self, frontmatter: &ZetaFrontmatter) -> (r: String)
        ensures
            r@ == zenn_header(frontmatter@),
    {
        let zenn = ZennFrontmatter {
            title: frontmatter.title.clone(),
            emoji: frontmatter.emoji.clone(),
            kind: frontmatter.kind.clone(),
            topics: copy_strings(&frontmatter.topics),
            published: frontmatter.published,
        };
        assert(zenn@ == zenn_frontmatter(frontmatter@));
        let node = zenn_mapping(&zenn);
        framed(emit_yaml(&node))
    }

    /// The elements, one after the other.
    pub fn compile_elements(&self, elements: &Vec<Element>) -> (r: String)
        ensures
            r@ == zenn_elements(elements_view(elements@)),
        decreases elements,
    {
        let mut out = String::new();
        let mut i: usize = 0;
        proof {
            lemma_elements_view(elements@);
            assert(elements_view(elements@).subrange(0, 0) =~= Seq::<ElementView>::empty());
        }
        while i < elements.len()
            invariant
                i <= elements.len(),
                elements_view(elements@).len() == elements.len(),
                forall|k: int|
                    0 <= k < elements.len() ==> #[trigger] elements_view(elements@)[k]
                        == elements@[k]@,
                out@ == zenn_elements(elements_view(elements@).subrange(0, i as int)),
            decreases elements.len() - i,
        {
            let text = self.compile_element(&elements[i]);
            proof {
                let all = elements_view(elements@);
                assert(all.subrange(0, i + 1).drop_last() =~= all.subrange(0, i as int));
                assert(all.subrange(0, i + 1).last() == all[i as int]);
            }
            out.append(text.as_str());
            i += 1;
        }
        assert(elements_view(elements@).subrange(0, elements.len() as int) =~= elements_view(
            elements@,
        ));
        out
    }

    /// A block between its fences.
    fn compile_block(&self, level: usize, word: &str, rest: &str, body: &str) -> (r: String)
        ensures
            r@ == zenn_block_text(level as int, word@, rest@, body@),
    {
        let mut out = String::new();
        out.append(":::");
        push_colons(&mut out, level);
        out.append(word);
        out.append(" ");
        out.append(rest);
        out.append("\n");
        out.append(body);
        out.append(":::");
        push_colons(&mut out, level);
        assert(out@ =~= zenn_block_text(level as int, word@, rest@, body@));
        out
    }

    /// One element.
    pub fn compile_element(&self, element: &Element) -> (r: String)
        ensures
            r@ == zenn_element(element@),
        decreases element,
    {
        match element {
            Element::Text(text) => text.clone(),
            Element::Url(url) => bracket("\n", url.as_str(), "\n"),
            Element::Macro(macro_info) => self.compile_elements(&macro_info.zenn),
            Element::LinkCard { card_type, url } => bracket_pair(
                "@[",
                card_type.as_str(),
                url.as_str(),
            ),
            Element::Image { alt, url } => bracket_pair("![", alt.as_str(), url.as_str()),
            Element::InlineFootnote(content) => bracket("^[", content.as_str(), "]"),
            Element::Footnote(name) => bracket("[^", name.as_str(), "]"),
            Element::Message { level, msg_type, body } => {
                let word = match msg_type {
                    MessageType::Info => "",
                    MessageType::Warn => "",
                    MessageType::Alert => "alert",
                };
                proof {
                    reveal_strlit("");
                    assert(""@ =~= Seq::<char>::empty());
                }
                let body = self.compile_elements(body);
                self.compile_block(*level, "message", word, body.as_str())
            },
            Element::Details { level, title, body } => {
                let body = self.compile_elements(body);
                self.compile_block(*level, "details", title.as_str(), body.as_str())
            },
        }
    }
}

/// `open`, `inner` and `close`, one after the other.
fn bracket(open: &str, inner: &str, close: &str) -> (r: String)
    ensures
        r@ == open@ + inner@ + close@,
{
    let mut out = String::new();
    out.append(open);
    out.append(inner);
    out.append(close);
    assert(out@ =~= open@ + inner@ + close@);
    out
}

/// `open`, `first`, `](`, `second` and `)`, one after the other.
fn bracket_pair(open: &str, first: &str, second: &str) -> (r: String)
    ensures
        r@ == open@ + first@ + "]("@ + second@ + ")"@,
{
    let mut out = String::new();
    out.append(open);
    out.append(first);
    out.append("](");
    out.append(second);
    out.append(")");
    assert(out@ =~= open@ + first@ + "]("@ + second@ + ")"@);
    out
}

/// Where images lie that a document names by a local path: a repository on
/// GitHub and the branch that the images are taken from.
#[derive(Debug, Clone, PartialEq, Eq)]
pub struct ImageHost {
    /// The repository, as `user/repository`.
    pub repository: String,
    pub branch: String,
}

impl View for ImageHost {
    type V = ImageHostView;

    open spec fn view(&self) -> ImageHostView {
        ImageHostView { repository: self.repository@, branch: self.branch@ }
    }
}

/// The value of an optional image host.
pub open spec fn host_view(host: Option<ImageHost>) -> Option<ImageHostView> {
    match host {
        Some(host) => Some(host@),
        None => None,
    }
}

/// An inline footnote with the name it was given.
#[derive(Debug, Clone, PartialEq, Eq)]
pub struct InlineNote {
    pub name: String,
    pub content: String,
}

impl View for InlineNote {
    type V = NamedNote;

    open spec fn view(&self) -> NamedNote {
        NamedNote { name: self.name@, content: self.content@ }
    }
}

/// The values of a sequence of inline footnotes, one for one.
pub open spec fn notes_view(v: Seq<InlineNote>) -> Seq<NamedNote> {
    v.map_values(|note: InlineNote| note@)
}

/// The address of an image on Qiita.
pub fn resolve_image(url: &str, host: &Option<ImageHost>) -> (r: String)
    ensures
        r@ == image_url(url@, host_view(*host)),
{
    let chars = chars_of(url);
    let prefix = chars_of("/images");
    proof {
        assert(chars@.skip(0) =~= chars@);
    }
    if has_prefix_at(&chars, 0, &prefix) {
        match host {
            Some(host) => {
                let mut out = String::new();
                out.append("https://raw.githubusercontent.com/");
                out.append(host.repository.as_str());
                out.append("/");
                out.append(host.branch.as_str());
                out.append(url);
                assert(out@ =~= image_url(url@, host_view(Some(*host))));
                return out;
            },
            None => {},
        }
    }
    url.to_owned()
}

/// The index at which the line ends that `from` stands in.
fn end_of_line(text: &Vec<char>, from: usize) -> (r: usize)
    requires
        from <= text.len(),
    ensures
        r == line_end(text@, from as int),
        from <= r <= text.len(),
{
    let mut i: usize = from;
    while i < text.len() && text[i] != '\n'
        invariant
            from <= i <= text.len(),
            line_end(text@, from as int) == line_end(text@, i as int),
        decreases text.len() - i,
    {
        i += 1;
    }
    i
}

/// The start of the first line that begins with `prefix`.
fn start_of_line_with(text: &Vec<char>, prefix: &Vec<char>) -> (r: Option<usize>)
    ensures
        match r {
            Some(start) => find_line(text@, 0, prefix@) == Some(start as int) && start
                <= text.len(),
            None => find_line(text@, 0, prefix@) is None,
        },
{
    let mut from: usize = 0;
    loop
        invariant
            from <= text.len(),
            find_line(text@, 0, prefix@) == find_line(text@, from as int, prefix@),
        decreases text.len() - from,
    {
        if has_prefix_at(text, from, prefix) {
            return Some(from);
        }
        let end = end_of_line(text, from);
        if end >= text.len() {
            return None;
        }
        from = end + 1;
    }
}

/// Puts the date of the last update between quotes.
pub fn quoted_updated_at(header: String) -> (r: String)
    ensures
        r@ == quote_updated_at(header@),
{
    let text = chars_of(header.as_str());
    let prefix = chars_of("updated_at:");
    let start = match start_of_line_with(&text, &prefix) {
        Some(start) => start,
        None => {
            return header;
        },
    };
    let end = end_of_line(&text, start);
    if end > start && (text[end - 1] == '"' || text[end - 1] == '\'') {
        assert(text@.subrange(start as int, end as int).last() == text@[end - 1]);
        return header;
    }
    let ghost line = text@.subrange(start as int, end as int);
    let mut out = String::new();
    push_chars(&mut out, &text, 0, start);
    out.append("updated_at: '");
    if end - start >= 12 {
        push_chars(&mut out, &text, start + 12, end);
        assert(line.skip(12) =~= text@.subrange(start + 12, end as int));
    }
    out.append("'");
    push_chars(&mut out, &text, end, text.len());
    assert(text@.skip(end as int) =~= text@.subrange(end as int, text.len() as int));
    assert(out@ =~= quote_updated_at(header@));
    out
}

/// The compiler for Qiita.
#[derive(Debug)]
pub struct QiitaCompiler {
    existing_fm: Option<QiitaFrontmatter>,
    image_host: Option<ImageHost>,
    /// The names of the footnotes that were referred to, in the order met.
    footnotes: Vec<String>,
    /// The inline footnotes, in the order met. Their definitions are
    /// written in this order, so that a document always gives the same text.
    inline_footnotes: Vec<InlineNote>,
}

impl QiitaCompiler {
    /// The front matter that was published before, where there is one.
    pub closed spec fn existing(&self) -> Option<QiitaFrontmatterView> {
        optional_qiita_view(self.existing_fm)
    }

    /// Where local images lie, where that is known.
    pub closed spec fn host(&self) -> Option<ImageHostView> {
        host_view(self.image_host)
    }

    /// The footnotes that the compiler has met.
    pub closed spec fn notes(&self) -> Footnotes {
        Footnotes { names: texts(self.footnotes@), inline: notes_view(self.inline_footnotes@) }
    }

    /// A compiler that keeps what only Qiita knows from the front matter
    /// that was published before. It knows no image host.
    pub fn new(existing_header: Option<QiitaFrontmatter>) -> (c: Self)
        ensures
            c.existing() == optional_qiita_view(existing_header),
            c.host() is None,
            c.notes() == Footnotes::empty(),
    {
        let c = Self {
            existing_fm: existing_header,
            image_host: None,
            footnotes: Vec::new(),
            inline_footnotes: Vec::new(),
        };
        assert(c.notes().names =~= Seq::<Seq<char>>::empty());
        assert(c.notes().inline =~= Seq::<NamedNote>::empty());
        c
    }

    /// The same compiler, with the host of the local images.
    pub fn with_image_host(self, host: ImageHost) -> (c: Self)
        ensures
            c.existing() == self.existing(),
            c.host() == Some(host@),
            c.notes() == self.notes(),
    {
        Self {
            existing_fm: self.existing_fm,
            image_host: Some(host),
            footnotes: self.footnotes,
            inline_footnotes: self.inline_footnotes,
        }
    }

    /// A compiler for the body of a block: it has no footnote in mind.
    fn for_block(&self) -> (c: Self)
        ensures
            c.host() == self.host(),
            c.notes() == Footnotes::empty(),
    {
        let host = match &self.image_host {
            Some(host) => Some(
                ImageHost { repository: host.repository.clone(), branch: host.branch.clone() },
            ),
            None => None,
        };
        let c = Self {
            existing_fm: None,
            image_host: host,
            footnotes: Vec::new(),
            inline_footnotes: Vec::new(),
        };
        assert(c.notes().names =~= Seq::<Seq<char>>::empty());
        assert(c.notes().inline =~= Seq::<NamedNote>::empty());
        c
    }

    /// The document on Qiita: its head, then its elements.
    pub fn compile(self, file: ParsedMd) -> (r: String)
        requires
            self.notes() == Footnotes::empty(),
        ensures
            r@ == qiita_compile(parsed_view(file), self.existing(), self.host()),
    {
        let mut compiler = self;
        let mut out = compiler.compile_frontmatter(&file.frontmatter);
        let body = compiler.compile_elements(&file.elements);
        out.append(body.as_str());
        out
    }

    /// The head of the document.
    fn compile_frontmatter(&self, frontmatter: &ZetaFrontmatter) -> (r: String)
        ensures
            r@ == qiita_header(frontmatter@, self.existing()),
    {
        let qiita = match &self.existing_fm {
            Some(existing) => QiitaFrontmatter {
                title: frontmatter.title.clone(),
                tags: copy_strings(&frontmatter.topics),
                private: existing.private,
                updated_at: existing.updated_at.clone(),
                id: copy_optional(&existing.id),
                organization_url_name: copy_optional(&existing.organization_url_name),
                slide: existing.slide,
                ignorePublish: !frontmatter.published,
            },
            None => QiitaFrontmatter {
                title: frontmatter.title.clone(),
                tags: copy_strings(&frontmatter.topics),
                private: false,
                updated_at: String::new(),
                id: None,
                organization_url_name: None,
                slide: false,
                ignorePublish: !frontmatter.published,
            },
        };
        assert(qiita@ == qiita_frontmatter(frontmatter@, self.existing()));
        let node = qiita_mapping(&qiita);
        quoted_updated_at(framed(emit_yaml(&node)))
    }

    /// Whether a name is in use.
    fn is_used(&self, name: &str) -> (r: bool)
        ensures
            r == self.notes().used().contains(name@),
    {
        let ghost used = self.notes().used();
        let mut i: usize = 0;
        while i < self.footnotes.len()
            invariant
                i <= self.footnotes.len(),
                used == self.notes().used(),
                forall|k: int| 0 <= k < i ==> used[k] != name@,
            decreases self.footnotes.len() - i,
        {
            if same_text(self.footnotes[i].as_str(), name) {
                assert(used[i as int] == name@);
                return true;
            }
            i += 1;
        }
        let mut j: usize = 0;
        while j < self.inline_footnotes.len()
            invariant
                j <= self.inline_footnotes.len(),
                used == self.notes().used(),
                forall|k: int| 0 <= k < self.footnotes.len() + j ==> used[k] != name@,
            decreases self.inline_footnotes.len() - j,
        {
            if same_text(self.inline_footnotes[j].name.as_str(), name) {
                assert(used[self.footnotes.len() + j] == name@);
                return true;
            }
            j += 1;
        }
        false
    }

    /// The name of the next inline footnote.
    fn next_inline_name(&self) -> (name: String)
        ensures
            name@ == inline_name(self.notes().next_number()),
    {
        let total: u128 = self.footnotes.len() as u128 + self.inline_footnotes.len() as u128;
        let mut tries: u128 = total;
        let mut n: u128 = 1;
        loop
            invariant
                total == self.notes().used().len(),
                total <= 2 * usize::MAX,
                n + tries == total + 1,
                self.notes().unused_from(n as nat, tries as nat) == self.notes().next_number(),
            decreases tries,
        {
            let mut name = String::new();
            name.append("zeta.inline.");
            push_decimal(&mut name, n);
            assert(name@ =~= inline_name(n as nat));
            if tries == 0 || !self.is_used(name.as_str()) {
                return name;
            }
            n += 1;
            tries -= 1;
        }
    }

    /// The definitions of the inline footnotes that are in mind.
    fn compile_definitions(&self) -> (r: String)
        ensures
            r@ == definitions(self.notes().inline),
    {
        let ghost all = self.notes().inline;
        let mut out = String::new();
        let mut i: usize = 0;
        assert(all.subrange(0, 0) =~= Seq::<NamedNote>::empty());
        while i < self.inline_footnotes.len()
            invariant
                i <= self.inline_footnotes.len(),
                all == self.notes().inline,
                out@ == definitions(all.subrange(0, i as int)),
            decreases self.inline_footnotes.len() - i,
        {
            let note = &self.inline_footnotes[i];
            proof {
                assert(all.subrange(0, i + 1).drop_last() =~= all.subrange(0, i as int));
                assert(all.subrange(0, i + 1).last() == note@);
            }
            let ghost before = out@;
            out.append("\n[^");
            out.append(note.name.as_str());
            out.append("]: ");
            out.append(note.content.as_str());
            out.append("\n");
            assert(out@ =~= before + definition_text(note@));
            i += 1;
        }
        assert(all.subrange(0, all.len() as int) =~= all);
        out
    }

    /// The elements, one after the other, without the definitions of the
    /// inline footnotes.
    fn compile_sequence(&mut self, elements: &Vec<Element>) -> (r: String)
        ensures
            final(self).existing() == old(self).existing(),
            final(self).host() == old(self).host(),
            (r@, final(self).notes()) == qiita_sequence(
                elements_view(elements@),
                old(self).notes(),
                old(self).host(),
            ),
        decreases elements, 1nat,
    {
        let ghost all = elements_view(elements@);
        let ghost start = self.notes();
        let ghost host = self.host();
        let mut out = String::new();
        let mut i: usize = 0;
        proof {
            lemma_elements_view(elements@);
            assert(all.subrange(0, 0) =~= Seq::<ElementView>::empty());
        }
        while i < elements.len()
            invariant
                i <= elements.len(),
                all == elements_view(elements@),
                all.len() == elements.len(),
                forall|k: int| 0 <= k < elements.len() ==> #[trigger] all[k] == elements@[k]@,
                self.existing() == old(self).existing(),
                self.host() == host,
                host == old(self).host(),
                start == old(self).notes(),
                (out@, self.notes()) == qiita_sequence(all.subrange(0, i as int), start, host),
            decreases elements.len() - i,
        {
            proof {
                assert(all.subrange(0, i + 1).drop_last() =~= all.subrange(0, i as int));
                assert(all.subrange(0, i + 1).last() == all[i as int]);
            }
            let text = self.compile_element(&elements[i]);
            out.append(text.as_str());
            i += 1;
        }
        assert(all.subrange(0, elements.len() as int) =~= all);
        out
    }

    /// The elements, one after the other, and then the definitions of the
    /// inline footnotes.
    pub fn compile_elements(&mut self, elements: &Vec<Element>) -> (r: String)
        ensures
            final(self).existing() == old(self).existing(),
            final(self).host() == old(self).host(),
            (r@, final(self).notes()) == qiita_elements(
                elements_view(elements@),
                old(self).notes(),
                old(self).host(),
            ),
        decreases elements, 2nat,
    {
        let mut out = self.compile_sequence(elements);
        let defs = self.compile_definitions();
        out.append(defs.as_str());
        out
    }

    /// One element.
    pub fn compile_element(&mut self, element: &Element) -> (r: String)
        ensures
            final(self).existing() == old(self).existing(),
            final(self).host() == old(self).host(),
            (r@, final(self).notes()) == qiita_element(
                element@,
                old(self).notes(),
                old(self).host(),
            ),
        decreases element, 0nat,
    {
        match element {
            Element::Text(text) => text.clone(),
            Element::Url(url) => bracket("\n", url.as_str(), "\n"),
            Element::Macro(macro_info) => self.compile_sequence(&macro_info.qiita),
            Element::LinkCard { card_type, url } => bracket_pair(
                "@[",
                card_type.as_str(),
                url.as_str(),
            ),
            Element::Image { alt, url } => {
                let url = resolve_image(url.as_str(), &self.image_host);
                bracket_pair("![", alt.as_str(), url.as_str())
            },
            Element::InlineFootnote(content) => {
                let name = self.next_inline_name();
                let text = bracket("[^", name.as_str(), "]");
                let note = InlineNote { name, content: content.clone() };
                self.inline_footnotes.push(note);
                assert(notes_view(self.inline_footnotes@) =~= notes_view(
                    old(self).inline_footnotes@,
                ).push(note@));
                text
            },
            Element::Footnote(name) => {
                let text = bracket("[^", name.as_str(), "]");
                self.footnotes.push(name.clone());
                assert(texts(self.footnotes@) =~= texts(old(self).footnotes@).push(name@));
                text
            },
            Element::Message { level: _, msg_type, body } => {
                let word = match msg_type {
                    MessageType::Info => "info",
                    MessageType::Warn => "warn",
                    MessageType::Alert => "alert",
                };
                let mut compiler = self.for_block();
                let body = compiler.compile_elements(body);
                let mut out = String::new();
                out.append(":::note ");
                out.append(word);
                out.append("\n");
                out.append(body.as_str());
                out.append(":::");
                assert(out@ =~= qiita_message_text(*msg_type, body@));
                out
            },
            Element::Details { level: _, title, body } => {
                let mut compiler = self.for_block();
                let body = compiler.compile_elements(body);
                let mut out = String::new();
                out.append("<details><summary>");
                out.append(title.as_str());
                out.append("</summary>\n\n");
                out.append(body.as_str());
                out.append("</details>\n");
                assert(out@ =~= qiita_details_text(title@, body@));
                out
            },
        }
    }
}

} // verus!
