//! A build: from the characters of a source document to its text on each
//! platform.

use vstd::prelude::*;
use crate::ast::{
    copy_elements, elements_view, lemma_elements_view, parsed_view, DocView, Element, ElementView,
    FrontmatterView, MarkdownDoc, ParsedMd, ZetaFrontmatter,
};
use crate::compile_model::{qiita_compile, zenn_compile, ImageHostView};
use crate::compiler::{host_view, ImageHost, QiitaCompiler, ZennCompiler};
use crate::frontmatter::{optional_qiita_view, QiitaFrontmatter, QiitaFrontmatterView};
use crate::macros::Platform;
use crate::parse_model::{parse_document, ParseErrorView};
use crate::parser::{parse_errors_view, ParseError, Parser};
use crate::scan_model::{scan_file, ScanErrorView};
use crate::scanner::{errors_view, ScanError, Scanner};
use crate::text::{chars_of, copy_strings, has_prefix_at, starts_with};

verus! {

/// Why a document was not built.
#[derive(Debug, Clone, PartialEq, Eq)]
pub enum BuildError {
    /// The errors of the scanner.
    Scan(Vec<ScanError>),
    /// The errors of the parser.
    Parse(Vec<ParseError>),
}

/// The mathematical value of a build error.
pub enum BuildErrorView {
    Scan(Seq<ScanErrorView>),
    Parse(Seq<ParseErrorView>),
}

impl View for BuildError {
    type V = BuildErrorView;

    open spec fn view(&self) -> BuildErrorView {
        match self {
            BuildError::Scan(errors) => BuildErrorView::Scan(errors_view(errors@)),
            BuildError::Parse(errors) => BuildErrorView::Parse(parse_errors_view(errors@)),
        }
    }
}

/// The text of a document on each platform that it is compiled for.
#[derive(Debug, Clone, PartialEq, Eq)]
pub struct BuildOutput {
    pub zenn: Option<String>,
    pub qiita: Option<String>,
}

/// The mathematical value of a build's output.
pub struct BuildOutputView {
    pub zenn: Option<Seq<char>>,
    pub qiita: Option<Seq<char>>,
}

impl View for BuildOutput {
    type V = BuildOutputView;

    open spec fn view(&self) -> BuildOutputView {
        BuildOutputView {
            zenn: match self.zenn {
                Some(s) => Some(s@),
                None => None,
            },
            qiita: match self.qiita {
                Some(s) => Some(s@),
                None => None,
            },
        }
    }
}

/// Scanning and parsing a source document: the parsed document, or the
/// errors of the stage that failed.
pub open spec fn parsed_source(source: Seq<char>) -> Result<
    DocView<FrontmatterView, ElementView>,
    BuildErrorView,
> {
    match scan_file(source) {
        Err(errors) => Err(BuildErrorView::Scan(errors)),
        Ok(tokens) => match parse_document(tokens) {
            Err(errors) => Err(BuildErrorView::Parse(errors)),
            Ok(doc) => Ok(doc),
        },
    }
}

/// Whether a document is compiled for a platform: for the one that its
/// front matter names, and for both where it names none.
pub open spec fn compiled_for(frontmatter: FrontmatterView, platform: Platform) -> bool {
    frontmatter.only is None || frontmatter.only == Some(platform)
}

/// The texts of a parsed document.
pub open spec fn rendered(
    doc: DocView<FrontmatterView, ElementView>,
    existing: Option<QiitaFrontmatterView>,
    host: Option<ImageHostView>,
) -> BuildOutputView {
    BuildOutputView {
        zenn: if compiled_for(doc.frontmatter, Platform::Zenn) {
            Some(zenn_compile(doc))
        } else {
            None
        },
        qiita: if compiled_for(doc.frontmatter, Platform::Qiita) {
            Some(qiita_compile(doc, existing, host))
        } else {
            None
        },
    }
}

/// The outcome of scanning and parsing, by the values of its parts.
pub open spec fn parsed_source_view(r: Result<ParsedMd, BuildError>) -> Result<
    DocView<FrontmatterView, ElementView>,
    BuildErrorView,
> {
    match r {
        Ok(doc) => Ok(parsed_view(doc)),
        Err(error) => Err(error@),
    }
}

/// Scans and parses a source document.
pub fn parse_source(source: Vec<char>) -> (r: Result<ParsedMd, BuildError>)
    requires
        source@.len() + 2 <= usize::MAX,
    ensures
        parsed_source_view(r) == parsed_source(source@),
{
    let tokens = match Scanner::new(source).scan_file() {
        Err(errors) => {
            return Err(BuildError::Scan(errors));
        },
        Ok(tokens) => tokens,
    };
    match Parser::new(tokens).parse() {
        Err(errors) => Err(BuildError::Parse(errors)),
        Ok(doc) => Ok(doc),
    }
}

/// Whether a document is compiled for a platform.
pub fn is_compiled_for(frontmatter: &ZetaFrontmatter, platform: Platform) -> (r: bool)
    ensures
        r == compiled_for(frontmatter@, platform),
{
    match frontmatter.only {
        None => true,
        Some(Platform::Zenn) => match platform {
            Platform::Zenn => true,
            Platform::Qiita => false,
        },
        Some(Platform::Qiita) => match platform {
            Platform::Zenn => false,
            Platform::Qiita => true,
        },
    }
}

/// A copy of a parsed document.
pub fn copy_document(doc: &ParsedMd) -> (r: ParsedMd)
    ensures
        parsed_view(r) == parsed_view(*doc),
{
    let frontmatter = ZetaFrontmatter {
        title: doc.frontmatter.title.clone(),
        emoji: doc.frontmatter.emoji.clone(),
        kind: doc.frontmatter.kind.clone(),
        topics: copy_strings(&doc.frontmatter.topics),
        published: doc.frontmatter.published,
        only: doc.frontmatter.only,
    };
    MarkdownDoc::new(frontmatter, copy_elements(&doc.elements))
}

/// Compiles a parsed document for each platform that it is meant for. What
/// only Qiita knows is kept from the front matter that was published there
/// before, and local images are looked for at the image host.
pub fn render(doc: ParsedMd, existing: Option<QiitaFrontmatter>, host: Option<ImageHost>) -> (r:
    BuildOutput)
    ensures
        r@ == rendered(parsed_view(doc), optional_qiita_view(existing), host_view(host)),
{
    let zenn = if is_compiled_for(&doc.frontmatter, Platform::Zenn) {
        Some(ZennCompiler::new().compile(copy_document(&doc)))
    } else {
        None
    };
    let qiita = if is_compiled_for(&doc.frontmatter, Platform::Qiita) {
        let compiler = QiitaCompiler::new(existing);
        let compiler = match host {
            Some(host) => compiler.with_image_host(host),
            None => compiler,
        };
        Some(compiler.compile(doc))
    } else {
        None
    };
    BuildOutput { zenn, qiita }
}

/// Whether an element names an image by a local path where Qiita shows it.
pub open spec fn element_has_local_image(e: ElementView) -> bool
    decreases e,
{
    match e {
        ElementView::Image { alt, url } => starts_with(url, "/images"@),
        ElementView::Macro(m) => has_local_image(m.qiita),
        ElementView::Message { level, msg_type, body } => has_local_image(body),
        ElementView::Details { level, title, body } => has_local_image(body),
        _ => false,
    }
}

/// Whether elements name an image by a local path where Qiita shows it. Only
/// then is the image host asked for.
pub open spec fn has_local_image(es: Seq<ElementView>) -> bool
    decreases es,
{
    if es.len() == 0 {
        false
    } else {
        has_local_image(es.drop_last()) || element_has_local_image(es.last())
    }
}

/// Whether an element names an image by a local path where Qiita shows it.
fn names_local_image(element: &Element) -> (r: bool)
    ensures
        r == element_has_local_image(element@),
    decreases element,
{
    match element {
        Element::Image { alt: _, url } => {
            let chars = chars_of(url.as_str());
            let prefix = chars_of("/images");
            assert(chars@.skip(0) =~= chars@);
            has_prefix_at(&chars, 0, &prefix)
        },
        Element::Macro(m) => needs_image_host(&m.qiita),
        Element::Message { level: _, msg_type: _, body } => needs_image_host(body),
        Element::Details { level: _, title: _, body } => needs_image_host(body),
        _ => false,
    }
}

/// Whether compiling the elements for Qiita asks for the image host.
pub fn needs_image_host(elements: &Vec<Element>) -> (r: bool)
    ensures
        r == has_local_image(elements_view(elements@)),
    decreases elements,
{
    let ghost all = elements_view(elements@);
    proof {
        lemma_elements_view(elements@);
        assert(all.subrange(0, 0) =~= Seq::<ElementView>::empty());
    }
    let mut i: usize = 0;
    while i < elements.len()
        invariant
            i <= elements.len(),
            all == elements_view(elements@),
            all.len() == elements.len(),
            forall|k: int| 0 <= k < elements.len() ==> #[trigger] all[k] == elements@[k]@,
            !has_local_image(all.subrange(0, i as int)),
        decreases elements.len() - i,
    {
        proof {
            assert(all.subrange(0, i + 1).drop_last() =~= all.subrange(0, i as int));
            assert(all.subrange(0, i + 1).last() == all[i as int]);
        }
        if names_local_image(&elements[i]) {
            proof {
                lemma_local_image_stays(all, i + 1);
            }
            return true;
        }
        i += 1;
    }
    assert(all.subrange(0, all.len() as int) =~= all);
    false
}

/// A local image in a front part of the elements is one in all of them.
proof fn lemma_local_image_stays(es: Seq<ElementView>, n: int)
    requires
        0 <= n <= es.len(),
        has_local_image(es.subrange(0, n)),
    ensures
        has_local_image(es),
    decreases es.len() - n,
{
    if n < es.len() {
        assert(es.subrange(0, n + 1).drop_last() =~= es.subrange(0, n));
        lemma_local_image_stays(es, n + 1);
    } else {
        assert(es.subrange(0, n) =~= es);
    }
}

} // verus!
