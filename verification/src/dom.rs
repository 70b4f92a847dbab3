//! The boundary to the HTML parser and CSS selector engine.
//!
//! Documents, selectors and elements are handles whose insides the verifier
//! does not see. What a handle stands for is named here in plain terms: the
//! text a document or selector was built from, and the place of an element in
//! its document. What the engine computes from those is named as well, so
//! that the extraction rules built on top can be stated exactly.
//!
//! The names speak of where a handle came from, so they hold of the handles
//! that the functions of this module hand out and of no others. For that
//! reason these functions are private to the crate, and no public function
//! takes or gives a handle.

use vstd::prelude::*;
use vstd::string::*;
use scraper::error::SelectorErrorKind;
use scraper::{ElementRef, Html, Selector};

verus! {

// A parsed document.
#[verifier::external_type_specification]
#[verifier::external_body]
pub struct ExHtml(scraper::Html);

// A compiled group of selectors.
#[verifier::external_type_specification]
#[verifier::external_body]
pub struct ExSelector(scraper::Selector);

// A reference to an element of a parsed document.
#[verifier::external_type_specification]
#[verifier::external_body]
pub struct ExElementRef<'a>(scraper::ElementRef<'a>);

// Why a text was refused as a selector.
#[verifier::external_type_specification]
#[verifier::external_body]
pub struct ExSelectorErrorKind(scraper::error::SelectorErrorKind);

/// The markup that a document was parsed from.
pub uninterp spec fn document_source(doc: Html) -> Seq<char>;

/// The text that a selector was compiled from.
pub uninterp spec fn selector_source(selector: Selector) -> Seq<char>;

/// The markup of the document that an element belongs to.
pub uninterp spec fn element_source(element: ElementRef) -> Seq<char>;

/// The number of an element's node within its document.
pub uninterp spec fn element_index(element: ElementRef) -> nat;

/// Whether a text is accepted as a selector.
pub uninterp spec fn selector_compiles(css: Seq<char>) -> bool;

/// The elements of the document parsed from `source` that match the
/// selector compiled from `css`, by node number, in the order in which a
/// selection over the whole document yields them.
pub uninterp spec fn document_matches(source: Seq<char>, css: Seq<char>) -> Seq<nat>;

/// The descendants of element `scope` that match the selector compiled from
/// `css` with `scope` as the scope element, by node number, in document
/// order.
pub uninterp spec fn element_matches(source: Seq<char>, scope: nat, css: Seq<char>) -> Seq<nat>;

/// The immediate child elements of element `index`, by node number, in
/// document order.
pub uninterp spec fn element_children(source: Seq<char>, index: nat) -> Seq<nat>;

/// The text nodes below element `index`, concatenated in document order.
pub uninterp spec fn element_text(source: Seq<char>, index: nat) -> Seq<char>;

/// The markup of what element `index` contains.
pub uninterp spec fn element_inner_html(source: Seq<char>, index: nat) -> Seq<char>;

/// The value of attribute `name` on element `index`, if it has one.
pub uninterp spec fn element_attr(source: Seq<char>, index: nat, name: Seq<char>) -> Option<
    Seq<char>,
>;

/// The greatest number of characters of a text that the parser is handed.
///
/// The parser gathers text, comments, names and attribute values in buffers
/// that grow to the next power of two, and a buffer that would need more
/// than 2^31 bytes fails to grow. A buffer holds what comes of one stretch
/// of the text, with no more than four bytes to a character of it. Under
/// this bound a buffer needs less than 2^30 bytes, which leaves the growth
/// that far from its limit again.
pub const MAX_DOCUMENT_CHARS: usize = 0x0FFF_FFFF;

/// A selector text that the engine did not accept.
#[derive(Debug, Clone, PartialEq, Eq)]
pub struct InvalidSelector {
    /// The text that was refused
    pub selector: String,
}

/// `found` are the elements of the document parsed from `source` with the
/// node numbers `indices`, in that order.
pub open spec fn elements_at(found: Seq<ElementRef>, source: Seq<char>, indices: Seq<nat>) -> bool {
    &&& found.len() == indices.len()
    &&& forall|i: int|
        0 <= i < found.len() ==> element_source(#[trigger] found[i]) == source && element_index(
            found[i],
        ) == indices[i]
}

/// Calls `Html::parse_document`, which builds a tree out of the text and
/// reports faulty markup inside the tree instead of failing. The parser
/// panics where one of its buffers would have to grow beyond 2^31 bytes,
/// which a text within `MAX_DOCUMENT_CHARS` cannot bring about; a longer
/// text is left out. Trusted: the document that comes back is the parse of
/// exactly the given markup.
#[verifier::external_body]
pub(crate) fn parse_document(html: &str) -> (doc: Html)
    requires
        html@.len() <= MAX_DOCUMENT_CHARS,
    ensures
        document_source(doc) == html@,
{
    Html::parse_document(html)
}

/// Calls `Selector::parse`, which hands back the compiled selector group or
/// the kind of parse error. Trusted: whether a text is accepted depends on
/// the text alone, and an accepted selector is the compiled form of exactly
/// that text. Nothing is claimed of which texts are accepted.
#[verifier::external_body]
pub(crate) fn compile_selector(css: &str) -> (compiled: Result<Selector, SelectorErrorKind>)
    ensures
        compiled.is_ok() == selector_compiles(css@),
        compiled.is_ok() ==> selector_source(compiled.unwrap()) == css@,
{
    Selector::parse(css)
}

/// Calls `Html::select` and collects what its iterator yields: every element
/// of the tree that has a parent and matches the selector, in the order in
/// which the tree stores its nodes. Trusted: which elements these are, and
/// their order, depend on the document's markup and the selector's text
/// alone, and each handle that comes back belongs to this document.
#[verifier::external_body]
pub(crate) fn select_in_document<'a>(doc: &'a Html, selector: &Selector) -> (found: Vec<
    ElementRef<'a>,
>)
    ensures
        elements_at(
            found@,
            document_source(*doc),
            document_matches(document_source(*doc), selector_source(*selector)),
        ),
{
    doc.select(selector).collect()
}

/// Calls `ElementRef::select` and collects what its iterator yields: every
/// descendant element of `scope` that matches the selector with `scope` as
/// its scope element, in document order. Trusted: which elements these are,
/// and their order, depend on the markup of the document, the place of
/// `scope` in it and the selector's text alone, and each handle that comes
/// back belongs to the document of `scope`.
#[verifier::external_body]
pub(crate) fn select_in_element<'a>(scope: &ElementRef<'a>, selector: &Selector) -> (found: Vec<
    ElementRef<'a>,
>)
    ensures
        elements_at(
            found@,
            element_source(*scope),
            element_matches(
                element_source(*scope),
                element_index(*scope),
                selector_source(*selector),
            ),
        ),
{
    scope.select(selector).collect()
}

/// Calls `ElementRef::child_elements` and collects what its iterator yields:
/// the child nodes that are elements, in document order. Trusted: which
/// elements these are depends on the markup of the document and the place of
/// `element` in it alone, and each handle belongs to the same document.
#[verifier::external_body]
pub(crate) fn child_elements<'a>(element: &ElementRef<'a>) -> (found: Vec<ElementRef<'a>>)
    ensures
        elements_at(
            found@,
            element_source(*element),
            element_children(element_source(*element), element_index(*element)),
        ),
{
    element.child_elements().collect()
}

/// Calls `ElementRef::text` and joins the text nodes that its iterator
/// yields, which are those below the element in document order. Trusted: the
/// joined text depends on the markup of the document and the place of
/// `element` in it alone.
#[verifier::external_body]
pub(crate) fn text_of(element: &ElementRef) -> (text: String)
    ensures
        text@ == element_text(element_source(*element), element_index(*element)),
{
    element.text().collect()
}

/// Calls `ElementRef::inner_html`, which serializes the children of the
/// element. Trusted: the markup that comes back depends on the markup of the
/// document and the place of `element` in it alone.
#[verifier::external_body]
pub(crate) fn inner_html_of(element: &ElementRef) -> (markup: String)
    ensures
        markup@ == element_inner_html(element_source(*element), element_index(*element)),
{
    element.inner_html()
}

/// Calls `ElementRef::attr` and copies the value out, where the element has
/// the attribute. Trusted: whether it has, and the value, depend on the
/// markup of the document, the place of `element` in it and the attribute's
/// name alone.
#[verifier::external_body]
pub(crate) fn attr_of(element: &ElementRef, name: &str) -> (value: Option<String>)
    ensures
        value.deep_view() == element_attr(
            element_source(*element),
            element_index(*element),
            name@,
        ),
{
    element.attr(name).map(String::from)
}

/// Compiles a selector, or reports its text as refused.
pub(crate) fn compile(css: &str) -> (compiled: Result<Selector, InvalidSelector>)
    ensures
        compiled.is_ok() == selector_compiles(css@),
        compiled.is_ok() ==> selector_source(compiled.unwrap()) == css@,
        compiled.is_err() ==> compiled.unwrap_err().selector@ == css@,
{
    match compile_selector(css) {
        Ok(selector) => Ok(selector),
        Err(_) => Err(InvalidSelector { selector: String::from_str(css) }),
    }
}

} // verus!
