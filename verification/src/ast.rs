//! Documents, front matter and elements: what the parser builds.

use vstd::prelude::*;
use crate::macros::{Macro, Platform};
use crate::text::texts;
use crate::token::{tokens_view, Token, TokenView};

verus! {

/// Parsed macro.
pub type ParsedMacro = Macro<Vec<Element>>;

/// A document: its front matter and its elements, in order.
#[derive(Debug, Clone, PartialEq, Eq)]
pub struct MarkdownDoc<F, E> {
    /// Frontmatter
    pub frontmatter: F,
    /// Elements
    pub elements: Vec<E>,
}

impl<F, E> MarkdownDoc<F, E> {
    /// A document of the given front matter and elements.
    pub fn new(frontmatter: F, elements: Vec<E>) -> (doc: Self)
        ensures
            doc.frontmatter == frontmatter,
            doc.elements == elements,
    {
        Self { frontmatter, elements }
    }
}

/// The mathematical value of a document.
pub struct DocView<F, E> {
    pub frontmatter: F,
    pub elements: Seq<E>,
}

/// Tokenized document: the front matter as text, and tokens.
pub type TokenizedMd = MarkdownDoc<String, Token>;

/// Parsed document: the front matter as a value, and elements.
pub type ParsedMd = MarkdownDoc<ZetaFrontmatter, Element>;

/// The most topics that a document may declare.
pub const FRONTMATTER_TOPICS_MAX: usize = 5;

/// The front matter of a source document.
#[derive(Debug, Clone, PartialEq, Eq)]
pub struct ZetaFrontmatter {
    /// title of the article
    pub title: String,
    /// emoji
    pub emoji: String,
    /// "tech" or "idea"
    pub kind: String,
    /// topics. Up to 5 topics can be specified.
    pub topics: Vec<String>,
    /// whether to publish or not
    pub published: bool,
    /// compile only specified platform
    pub only: Option<Platform>,
}

/// The mathematical value of a front matter.
pub struct FrontmatterView {
    pub title: Seq<char>,
    pub emoji: Seq<char>,
    pub kind: Seq<char>,
    pub topics: Seq<Seq<char>>,
    pub published: bool,
    pub only: Option<Platform>,
}

impl FrontmatterView {
    /// The front matter that stands in where a document's own cannot be read:
    /// empty texts, no topics, not published, both platforms.
    pub open spec fn empty() -> FrontmatterView {
        FrontmatterView {
            title: Seq::empty(),
            emoji: Seq::empty(),
            kind: Seq::empty(),
            topics: Seq::empty(),
            published: false,
            only: None,
        }
    }

    /// A document declares at most five topics.
    pub open spec fn wf(self) -> bool {
        self.topics.len() <= FRONTMATTER_TOPICS_MAX
    }
}

impl View for ZetaFrontmatter {
    type V = FrontmatterView;

    open spec fn view(&self) -> FrontmatterView {
        FrontmatterView {
            title: self.title@,
            emoji: self.emoji@,
            kind: self.kind@,
            topics: texts(self.topics@),
            published: self.published,
            only: self.only,
        }
    }
}

impl Default for ZetaFrontmatter {
    fn default() -> (r: Self)
        ensures
            r@ == FrontmatterView::empty(),
    {
        let r = ZetaFrontmatter {
            title: String::new(),
            emoji: String::new(),
            kind: String::new(),
            topics: Vec::new(),
            published: false,
            only: None,
        };
        assert(texts(r.topics@) == Seq::<Seq<char>>::empty());
        r
    }
}

/// Type of the message.
#[derive(Debug, Clone, Copy, PartialEq, Eq, Structural)]
pub enum MessageType {
    /// Info message. Indicates supplementary information.
    Info,
    /// Warning message. Indicates a potential problem.
    Warn,
    /// Alert message. Indicates a serious problem.
    Alert,
}

/// An element of a parsed document.
#[derive(Debug, PartialEq, Eq)]
pub enum Element {
    /// Text.
    Text(String),
    /// Link starting with `http://` or `https://`.
    Url(String),
    /// Parsed macro.
    Macro(ParsedMacro),
    /// Card.
    LinkCard { card_type: String, url: String },
    /// Image.
    Image { alt: String, url: String },
    /// Inline footnote. E.g. `^[content]`.
    InlineFootnote(String),
    /// Footnote. E.g. `[^identifier]`.
    Footnote(String),
    /// Message to emphasize. `:::message [type]`.
    Message {
        /// The level of the message. Higher on the outside.
        level: usize,
        msg_type: MessageType,
        body: Vec<Element>,
    },
    /// Detailed folding element. `:::details [title]`.
    Details {
        /// The level of the details. Higher on the outside.
        level: usize,
        title: String,
        body: Vec<Element>,
    },
}

/// The mathematical value of an element.
pub enum ElementView {
    Text(Seq<char>),
    Url(Seq<char>),
    Macro(Macro<Seq<ElementView>>),
    LinkCard { card_type: Seq<char>, url: Seq<char> },
    Image { alt: Seq<char>, url: Seq<char> },
    InlineFootnote(Seq<char>),
    Footnote(Seq<char>),
    Message { level: int, msg_type: MessageType, body: Seq<ElementView> },
    Details { level: int, title: Seq<char>, body: Seq<ElementView> },
}

/// The value of an element.
pub open spec fn element_view(e: Element) -> ElementView
    decreases e,
{
    match e {
        Element::Text(s) => ElementView::Text(s@),
        Element::Url(s) => ElementView::Url(s@),
        Element::Macro(m) => ElementView::Macro(
            Macro { zenn: elements_view(m.zenn@), qiita: elements_view(m.qiita@) },
        ),
        Element::LinkCard { card_type, url } => ElementView::LinkCard {
            card_type: card_type@,
            url: url@,
        },
        Element::Image { alt, url } => ElementView::Image { alt: alt@, url: url@ },
        Element::InlineFootnote(s) => ElementView::InlineFootnote(s@),
        Element::Footnote(s) => ElementView::Footnote(s@),
        Element::Message { level, msg_type, body } => ElementView::Message {
            level: level as int,
            msg_type,
            body: elements_view(body@),
        },
        Element::Details { level, title, body } => ElementView::Details {
            level: level as int,
            title: title@,
            body: elements_view(body@),
        },
    }
}

/// The values of a sequence of elements, one for one.
pub open spec fn elements_view(v: Seq<Element>) -> Seq<ElementView>
    decreases v,
{
    if v.len() == 0 {
        Seq::empty()
    } else {
        elements_view(v.drop_last()).push(element_view(v.last()))
    }
}

impl View for Element {
    type V = ElementView;

    open spec fn view(&self) -> ElementView {
        element_view(*self)
    }
}

/// `elements_view` keeps the length and maps each element to its value.
pub proof fn lemma_elements_view(v: Seq<Element>)
    ensures
        elements_view(v).len() == v.len(),
        forall|i: int| 0 <= i < v.len() ==> #[trigger] elements_view(v)[i] == element_view(v[i]),
    decreases v.len(),
{
    if v.len() > 0 {
        lemma_elements_view(v.drop_last());
    }
}

/// `elements_view` of a sequence with one more element.
pub proof fn lemma_elements_view_push(v: Seq<Element>, e: Element)
    ensures
        elements_view(v.push(e)) == elements_view(v).push(element_view(e)),
{
    assert(v.push(e).drop_last() == v);
}

/// A copy of an element.
pub fn copy_element(e: &Element) -> (r: Element)
    ensures
        r@ == e@,
    decreases e,
{
    match e {
        Element::Text(s) => Element::Text(s.clone()),
        Element::Url(s) => Element::Url(s.clone()),
        Element::Macro(m) => Element::Macro(
            Macro { zenn: copy_elements(&m.zenn), qiita: copy_elements(&m.qiita) },
        ),
        Element::LinkCard { card_type, url } => Element::LinkCard {
            card_type: card_type.clone(),
            url: url.clone(),
        },
        Element::Image { alt, url } => Element::Image { alt: alt.clone(), url: url.clone() },
        Element::InlineFootnote(s) => Element::InlineFootnote(s.clone()),
        Element::Footnote(s) => Element::Footnote(s.clone()),
        Element::Message { level, msg_type, body } => Element::Message {
            level: *level,
            msg_type: *msg_type,
            body: copy_elements(body),
        },
        Element::Details { level, title, body } => Element::Details {
            level: *level,
            title: title.clone(),
            body: copy_elements(body),
        },
    }
}

/// A copy of a vector of elements.
pub fn copy_elements(v: &Vec<Element>) -> (r: Vec<Element>)
    ensures
        elements_view(r@) == elements_view(v@),
    decreases v,
{
    let mut r: Vec<Element> = Vec::new();
    let mut i: usize = 0;
    while i < v.len()
        invariant
            i <= v.len(),
            elements_view(r@) == elements_view(v@.subrange(0, i as int)),
        decreases v.len() - i,
    {
        let e = copy_element(&v[i]);
        proof {
            lemma_elements_view_push(r@, e);
            lemma_elements_view_push(v@.subrange(0, i as int), v@[i as int]);
            assert(v@.subrange(0, i + 1) == v@.subrange(0, i as int).push(v@[i as int]));
        }
        r.push(e);
        i += 1;
    }
    assert(v@.subrange(0, v.len() as int) == v@);
    r
}

impl Clone for Element {
    fn clone(&self) -> (r: Self)
        ensures
            r@ == self@,
    {
        copy_element(self)
    }
}

/// The value of a parsed document.
pub open spec fn parsed_view(doc: ParsedMd) -> DocView<FrontmatterView, ElementView> {
    DocView { frontmatter: doc.frontmatter@, elements: elements_view(doc.elements@) }
}

/// The value of a tokenized document.
pub open spec fn tokenized_view(doc: TokenizedMd) -> DocView<Seq<char>, TokenView> {
    DocView { frontmatter: doc.frontmatter@, elements: tokens_view(doc.elements@) }
}

} // verus!
