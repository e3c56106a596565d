//! What the compilers compute, as functions of the parsed document.
//!
//! Both compilers render the tree of elements from left to right. The Zenn
//! compiler keeps nothing in mind. The Qiita compiler keeps the footnotes it
//! has met: Qiita has no inline footnotes, so each one is given a name of its
//! own and its content is written out as a definition after the elements.

use vstd::prelude::*;
use crate::ast::{DocView, ElementView, FrontmatterView, MessageType};
use crate::frontmatter::{
    qiita_frontmatter, qiita_node, zenn_frontmatter, zenn_node, QiitaFrontmatterView,
};
use crate::scan_model::text_or_empty;
use crate::text::{decimal, starts_with};
use crate::yaml::yaml_text;

verus! {

/// `level` colons.
pub open spec fn colons(level: int) -> Seq<char> {
    Seq::new(
        if level >= 0 {
            level as nat
        } else {
            0
        },
        |i: int| ':',
    )
}

/// The word after `message` in a Zenn fence: Zenn tells alerts from other
/// messages, and nothing more.
pub open spec fn zenn_message_word(msg_type: MessageType) -> Seq<char> {
    match msg_type {
        MessageType::Alert => "alert"@,
        _ => Seq::empty(),
    }
}

/// The word after `note` in a Qiita fence.
pub open spec fn qiita_message_word(msg_type: MessageType) -> Seq<char> {
    match msg_type {
        MessageType::Info => "info"@,
        MessageType::Warn => "warn"@,
        MessageType::Alert => "alert"@,
    }
}

/// `![alt](url)`
pub open spec fn image_text(alt: Seq<char>, url: Seq<char>) -> Seq<char> {
    "!["@ + alt + "]("@ + url + ")"@
}

/// `@[card_type](url)`
pub open spec fn link_card_text(card_type: Seq<char>, url: Seq<char>) -> Seq<char> {
    "@["@ + card_type + "]("@ + url + ")"@
}

/// A link on a line of its own.
pub open spec fn url_text(url: Seq<char>) -> Seq<char> {
    "\n"@ + url + "\n"@
}

/// `[^name]`
pub open spec fn footnote_text(name: Seq<char>) -> Seq<char> {
    "[^"@ + name + "]"@
}

/// `^[content]`
pub open spec fn inline_footnote_text(content: Seq<char>) -> Seq<char> {
    "^["@ + content + "]"@
}

/// A block on Zenn: a fence of three colons and `level` more, the word and
/// what follows it, the body on the next line, and the same fence again.
pub open spec fn zenn_block_text(
    level: int,
    word: Seq<char>,
    rest: Seq<char>,
    body: Seq<char>,
) -> Seq<char> {
    ":::"@ + colons(level) + word + " "@ + rest + "\n"@ + body + ":::"@ + colons(level)
}

/// An element on Zenn.
pub open spec fn zenn_element(e: ElementView) -> Seq<char>
    decreases e,
{
    match e {
        ElementView::Text(text) => text,
        ElementView::Url(url) => url_text(url),
        ElementView::Macro(m) => zenn_elements(m.zenn),
        ElementView::LinkCard { card_type, url } => link_card_text(card_type, url),
        ElementView::Image { alt, url } => image_text(alt, url),
        ElementView::InlineFootnote(content) => inline_footnote_text(content),
        ElementView::Footnote(name) => footnote_text(name),
        ElementView::Message { level, msg_type, body } => zenn_block_text(
            level,
            "message"@,
            zenn_message_word(msg_type),
            zenn_elements(body),
        ),
        ElementView::Details { level, title, body } => zenn_block_text(
            level,
            "details"@,
            title,
            zenn_elements(body),
        ),
    }
}

/// Elements on Zenn: one after the other.
pub open spec fn zenn_elements(es: Seq<ElementView>) -> Seq<char>
    decreases es,
{
    if es.len() == 0 {
        Seq::empty()
    } else {
        zenn_elements(es.drop_last()) + zenn_element(es.last())
    }
}

/// A front matter between its separator lines. Where no YAML text could be
/// written, nothing stands between them.
pub open spec fn frame(yaml: Option<Seq<char>>) -> Seq<char> {
    "---\n"@ + text_or_empty(yaml) + "---\n"@
}

/// The head of a document on Zenn.
pub open spec fn zenn_header(frontmatter: FrontmatterView) -> Seq<char> {
    frame(yaml_text(zenn_node(zenn_frontmatter(frontmatter))))
}

/// A document on Zenn.
pub open spec fn zenn_compile(doc: DocView<FrontmatterView, ElementView>) -> Seq<char> {
    zenn_header(doc.frontmatter) + zenn_elements(doc.elements)
}

/// The index at which the line ends that `from` stands in: that of the next
/// line break, or the length of the text.
pub open spec fn line_end(text: Seq<char>, from: int) -> int
    decreases text.len() - from,
{
    if from < 0 || from >= text.len() || text[from] == '\n' {
        from
    } else {
        line_end(text, from + 1)
    }
}

/// The start of the first line, from the line that starts at `from` on,
/// that begins with `prefix`.
pub open spec fn find_line(text: Seq<char>, from: int, prefix: Seq<char>) -> Option<int>
    decreases text.len() - from,
{
    if from < 0 || from > text.len() {
        None
    } else if starts_with(text.skip(from), prefix) {
        Some(from)
    } else if line_end(text, from) >= text.len() || line_end(text, from) < from {
        None
    } else {
        find_line(text, line_end(text, from) + 1, prefix)
    }
}

/// Qiita wants the date of the last update between quotes. In the first
/// line that begins with `updated_at:`, what follows the key and one more
/// character is put between single quotes, unless the line ends with a
/// quote already.
pub open spec fn quote_updated_at(text: Seq<char>) -> Seq<char> {
    match find_line(text, 0, "updated_at:"@) {
        None => text,
        Some(start) => {
            let end = line_end(text, start);
            let line = text.subrange(start, end);
            if line.len() > 0 && (line.last() == '"' || line.last() == '\'') {
                text
            } else {
                text.subrange(0, start) + "updated_at: '"@ + (if line.len() >= 12 {
                    line.skip(12)
                } else {
                    Seq::empty()
                }) + "'"@ + text.skip(end)
            }
        },
    }
}

/// The head of a document on Qiita.
pub open spec fn qiita_header(
    frontmatter: FrontmatterView,
    existing: Option<QiitaFrontmatterView>,
) -> Seq<char> {
    quote_updated_at(frame(yaml_text(qiita_node(qiita_frontmatter(frontmatter, existing)))))
}

/// Where images lie that a document names by a local path.
pub struct ImageHostView {
    /// The repository, as `user/repository`.
    pub repository: Seq<char>,
    /// The branch that the images are taken from.
    pub branch: Seq<char>,
}

/// The address of an image on Qiita. A path that begins with `/images` is
/// local: it becomes an address under the host, or stays as it is where the
/// host is not known. Every other path stays as it is.
pub open spec fn image_url(url: Seq<char>, host: Option<ImageHostView>) -> Seq<char> {
    if starts_with(url, "/images"@) && host is Some {
        "https://raw.githubusercontent.com/"@ + host->0.repository + "/"@ + host->0.branch + url
    } else {
        url
    }
}

/// An inline footnote that was given a name.
pub struct NamedNote {
    pub name: Seq<char>,
    pub content: Seq<char>,
}

/// The footnotes that a Qiita compiler has met.
pub struct Footnotes {
    /// The names of the footnotes that the document refers to by name.
    pub names: Seq<Seq<char>>,
    /// The inline footnotes, in the order in which they were met.
    pub inline: Seq<NamedNote>,
}

/// The name of the `n`th inline footnote.
pub open spec fn inline_name(n: nat) -> Seq<char> {
    "zeta.inline."@ + decimal(n)
}

/// The definition of a footnote, on a line of its own.
pub open spec fn definition_text(note: NamedNote) -> Seq<char> {
    "\n[^"@ + note.name + "]: "@ + note.content + "\n"@
}

/// The definitions of footnotes, one after the other.
pub open spec fn definitions(notes: Seq<NamedNote>) -> Seq<char>
    decreases notes.len(),
{
    if notes.len() == 0 {
        Seq::empty()
    } else {
        definitions(notes.drop_last()) + definition_text(notes.last())
    }
}

impl Footnotes {
    /// No footnote was met.
    pub open spec fn empty() -> Footnotes {
        Footnotes { names: Seq::empty(), inline: Seq::empty() }
    }

    /// Every name that is in use.
    pub open spec fn used(self) -> Seq<Seq<char>> {
        self.names + self.inline.map_values(|note: NamedNote| note.name)
    }

    /// The first number from `n` on whose name is not in use, looking at no
    /// more than `tries` numbers after `n`.
    pub open spec fn unused_from(self, n: nat, tries: nat) -> nat
        decreases tries,
    {
        if tries == 0 || !self.used().contains(inline_name(n)) {
            n
        } else {
            self.unused_from(n + 1, (tries - 1) as nat)
        }
    }

    /// The number of the next inline footnote: the first from 1 on whose
    /// name is not in use. (As many numbers as names are in use cannot all
    /// be taken, so no more need to be looked at.)
    pub open spec fn next_number(self) -> nat {
        self.unused_from(1, self.used().len())
    }

    /// The footnotes after a reference by name was met.
    pub open spec fn refer(self, name: Seq<char>) -> Footnotes {
        Footnotes { names: self.names.push(name), ..self }
    }

    /// The footnotes after an inline footnote was met.
    pub open spec fn add_inline(self, content: Seq<char>) -> Footnotes {
        Footnotes {
            inline: self.inline.push(
                NamedNote { name: inline_name(self.next_number()), content },
            ),
            ..self
        }
    }
}

/// A message on Qiita: a note, whatever its level.
pub open spec fn qiita_message_text(msg_type: MessageType, body: Seq<char>) -> Seq<char> {
    ":::note "@ + qiita_message_word(msg_type) + "\n"@ + body + ":::"@
}

/// Details on Qiita: the HTML element, with the title as its summary.
pub open spec fn qiita_details_text(title: Seq<char>, body: Seq<char>) -> Seq<char> {
    "<details><summary>"@ + title + "</summary>\n\n"@ + body + "</details>\n"@
}

/// An element on Qiita, and the footnotes after it. A macro gives the
/// elements that it holds for Qiita and nothing else; the footnotes that
/// are met in them are kept in mind. The body of a message or of details is
/// compiled with no footnote in mind, its definitions are written at its
/// end, and what it meets is forgotten after it.
pub open spec fn qiita_element(e: ElementView, notes: Footnotes, host: Option<ImageHostView>) -> (
    Seq<char>,
    Footnotes,
)
    decreases e, 0nat,
{
    match e {
        ElementView::Text(text) => (text, notes),
        ElementView::Url(url) => (url_text(url), notes),
        ElementView::Macro(m) => qiita_sequence(m.qiita, notes, host),
        ElementView::LinkCard { card_type, url } => (link_card_text(card_type, url), notes),
        ElementView::Image { alt, url } => (image_text(alt, image_url(url, host)), notes),
        ElementView::InlineFootnote(content) => (
            footnote_text(inline_name(notes.next_number())),
            notes.add_inline(content),
        ),
        ElementView::Footnote(name) => (footnote_text(name), notes.refer(name)),
        ElementView::Message { level, msg_type, body } => (
            qiita_message_text(msg_type, qiita_elements(body, Footnotes::empty(), host).0),
            notes,
        ),
        ElementView::Details { level, title, body } => (
            qiita_details_text(title, qiita_elements(body, Footnotes::empty(), host).0),
            notes,
        ),
    }
}

/// Elements on Qiita, one after the other, without the definitions.
pub open spec fn qiita_sequence(
    es: Seq<ElementView>,
    notes: Footnotes,
    host: Option<ImageHostView>,
) -> (Seq<char>, Footnotes)
    decreases es, 1nat,
{
    if es.len() == 0 {
        (Seq::empty(), notes)
    } else {
        let (front, met) = qiita_sequence(es.drop_last(), notes, host);
        let (last, after) = qiita_element(es.last(), met, host);
        (front + last, after)
    }
}

/// Elements on Qiita: one after the other, and then the definitions of all
/// inline footnotes that are in mind.
pub open spec fn qiita_elements(
    es: Seq<ElementView>,
    notes: Footnotes,
    host: Option<ImageHostView>,
) -> (Seq<char>, Footnotes)
    decreases es, 2nat,
{
    let (text, after) = qiita_sequence(es, notes, host);
    (text + definitions(after.inline), after)
}

/// A document on Qiita.
pub open spec fn qiita_compile(
    doc: DocView<FrontmatterView, ElementView>,
    existing: Option<QiitaFrontmatterView>,
    host: Option<ImageHostView>,
) -> Seq<char> {
    qiita_header(doc.frontmatter, existing) + qiita_elements(
        doc.elements,
        Footnotes::empty(),
        host,
    ).0
}

} // verus!
