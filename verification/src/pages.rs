//! Reading the two kinds of page: the listing page with its menu of matches,
//! and the scorecard page with up to four innings containers.
//!
//! A page is parsed once. What is read from it, the anchors of the menu and
//! the cells of the scorecard rows, is handed as plain values to the rules of
//! [`crate::listing`] and [`crate::scorecard`]. Any text is taken: a page
//! that lacks what was looked for gives less, or nothing, and that is no
//! fault. The one fault is a selector that the selector engine refuses. It
//! shows when the selectors are compiled, before any page is read.

use vstd::prelude::*;
use scraper::{ElementRef, Html, Selector};
use crate::dom::{
    attr_of, child_elements, compile, document_matches, document_source, element_attr,
    element_children, element_index, element_inner_html, element_matches, element_source,
    element_text, elements_at, inner_html_of, parse_document, select_in_document,
    select_in_element, selector_compiles, selector_source, text_of, InvalidSelector,
    MAX_DOCUMENT_CHARS,
};
use vstd::string::*;
use crate::listing::{live_entries, live_matches, Anchor, AnchorView};
use crate::scorecard::{
    innings_from_rows, innings_list, innings_of, innings_share, lemma_first_and_third_innings,
    lemma_innings_list_len, lemma_innings_order, present_count, Cell, CellView, InningsView,
    MatchInningsInfo,
};

verus! {

/// Selects the navigation container that holds the menu of matches.
pub const MENU_SELECTOR: &'static str = "nav.cb-mat-mnu";

/// Selects the anchors within the menu.
pub const LINK_SELECTOR: &'static str = "a";

/// The attribute that holds an anchor's link target.
pub const LINK_TARGET: &'static str = "href";

/// Selects the rows within an innings container.
pub const ROW_SELECTOR: &'static str = "div.cb-scrd-itms";

/// The greatest number of innings that a scorecard page shows.
pub const MAX_INNINGS: usize = 4;

/// The selector of the container of innings `number`.
pub open spec fn innings_selector(number: int) -> Seq<char> {
    if number == 1 {
        "div[id=\"innings_1\"]"@
    } else if number == 2 {
        "div[id=\"innings_2\"]"@
    } else if number == 3 {
        "div[id=\"innings_3\"]"@
    } else {
        "div[id=\"innings_4\"]"@
    }
}

/// What is read from the anchor with node number `index`.
pub open spec fn anchor_at(html: Seq<char>, index: nat) -> AnchorView {
    AnchorView { text: element_text(html, index), href: element_attr(html, index, LINK_TARGET@) }
}

/// The anchors below the element with node number `menu`, in document order.
pub open spec fn anchors_below(html: Seq<char>, menu: nat) -> Seq<AnchorView> {
    element_matches(html, menu, LINK_SELECTOR@).map_values(|index: nat| anchor_at(html, index))
}

/// The anchors of the first menu of matches of a listing page; none where
/// the page has no such menu.
pub open spec fn menu_anchors(html: Seq<char>) -> Seq<AnchorView> {
    let menus = document_matches(html, MENU_SELECTOR@);
    if menus.len() == 0 {
        Seq::empty()
    } else {
        anchors_below(html, menus[0])
    }
}

/// Whether a page is short enough to be handed to the parser.
pub open spec fn is_readable(html: Seq<char>) -> bool {
    html.len() <= MAX_DOCUMENT_CHARS
}

/// The live matches of a listing page: name and identifier, in the order of
/// the menu. A page too long to be read holds none.
pub open spec fn page_live_matches(html: Seq<char>) -> Seq<(Seq<char>, Seq<char>)> {
    if is_readable(html) {
        live_entries(menu_anchors(html))
    } else {
        Seq::empty()
    }
}

/// What is read from the row cell with node number `index`.
pub open spec fn cell_at(html: Seq<char>, index: nat) -> CellView {
    CellView { text: element_text(html, index), inner_html: element_inner_html(html, index) }
}

/// The cells of the row with node number `row`: its immediate child
/// elements, in document order.
pub open spec fn row_cells(html: Seq<char>, row: nat) -> Seq<CellView> {
    element_children(html, row).map_values(|index: nat| cell_at(html, index))
}

/// The rows below the innings container with node number `container`, in
/// document order.
pub open spec fn container_rows(html: Seq<char>, container: nat) -> Seq<Seq<CellView>> {
    element_matches(html, container, ROW_SELECTOR@).map_values(|row: nat| row_cells(html, row))
}

/// The rows of innings `number` of a scorecard page, where the page has a
/// container for it.
pub open spec fn innings_rows(html: Seq<char>, number: int) -> Option<Seq<Seq<CellView>>> {
    let containers = document_matches(html, innings_selector(number));
    if containers.len() == 0 {
        None
    } else {
        Some(container_rows(html, containers[0]))
    }
}

/// The rows of the first `count` innings of a scorecard page, each present or
/// absent.
pub open spec fn page_sections(html: Seq<char>, count: nat) -> Seq<Option<Seq<Seq<CellView>>>> {
    Seq::new(count, |i: int| innings_rows(html, i + 1))
}

/// The innings of a scorecard page, from the first to the fourth, without
/// those that the page does not hold. A page too long to be read holds none.
pub open spec fn page_scorecard(html: Seq<char>) -> Seq<InningsView> {
    if is_readable(html) {
        innings_list(page_sections(html, MAX_INNINGS as nat))
    } else {
        Seq::empty()
    }
}

/// The compiled selectors that reading a listing page takes.
pub struct ListingSelectors {
    menu: Selector,
    link: Selector,
}

/// The compiled selectors that reading a scorecard page takes.
pub struct ScorecardSelectors {
    innings: Vec<Selector>,
    rows: Selector,
}

impl ListingSelectors {
    #[verifier::type_invariant]
    spec fn well_formed(self) -> bool {
        &&& selector_source(self.menu) == MENU_SELECTOR@
        &&& selector_source(self.link) == LINK_SELECTOR@
    }

    /// Whether the selector engine accepts the selectors of the listing page.
    pub open spec fn accepted() -> bool {
        selector_compiles(MENU_SELECTOR@) && selector_compiles(LINK_SELECTOR@)
    }

    /// The first selector of the listing page that the selector engine
    /// refuses, where it refuses one.
    pub open spec fn first_refused() -> Seq<char> {
        if selector_compiles(MENU_SELECTOR@) {
            LINK_SELECTOR@
        } else {
            MENU_SELECTOR@
        }
    }

    /// Compiles the selectors of the listing page, or reports the first one
    /// that the selector engine refuses.
    pub fn compile() -> (compiled: Result<ListingSelectors, InvalidSelector>)
        ensures
            compiled.is_ok() == Self::accepted(),
            compiled matches Err(refused) ==> refused.selector@ == Self::first_refused(),
    {
        let menu = match compile(MENU_SELECTOR) {
            Ok(selector) => selector,
            Err(refused) => {
                return Err(refused);
            },
        };
        let link = match compile(LINK_SELECTOR) {
            Ok(selector) => selector,
            Err(refused) => {
                return Err(refused);
            },
        };
        Ok(ListingSelectors { menu, link })
    }
}

/// The text of the selector of the container of innings `number`.
fn innings_selector_text(number: usize) -> (css: &'static str)
    requires
        1 <= number <= MAX_INNINGS,
    ensures
        css@ == innings_selector(number as int),
{
    if number == 1 {
        "div[id=\"innings_1\"]"
    } else if number == 2 {
        "div[id=\"innings_2\"]"
    } else if number == 3 {
        "div[id=\"innings_3\"]"
    } else {
        "div[id=\"innings_4\"]"
    }
}

impl ScorecardSelectors {
    #[verifier::type_invariant]
    spec fn well_formed(self) -> bool {
        &&& self.innings@.len() == MAX_INNINGS
        &&& forall|i: int|
            0 <= i < MAX_INNINGS ==> selector_source(#[trigger] self.innings@[i])
                == innings_selector(i + 1)
        &&& selector_source(self.rows) == ROW_SELECTOR@
    }

    /// The number of the first innings whose selector the engine refuses;
    /// one beyond the last innings where it accepts them all.
    pub open spec fn first_refused_innings() -> int {
        if !selector_compiles(innings_selector(1)) {
            1
        } else if !selector_compiles(innings_selector(2)) {
            2
        } else if !selector_compiles(innings_selector(3)) {
            3
        } else if !selector_compiles(innings_selector(4)) {
            4
        } else {
            5
        }
    }

    /// Whether the selector engine accepts the selectors of the scorecard
    /// page.
    pub open spec fn accepted() -> bool {
        Self::first_refused_innings() > MAX_INNINGS && selector_compiles(ROW_SELECTOR@)
    }

    /// The first selector of the scorecard page that the selector engine
    /// refuses, where it refuses one.
    pub open spec fn first_refused() -> Seq<char> {
        if Self::first_refused_innings() > MAX_INNINGS {
            ROW_SELECTOR@
        } else {
            innings_selector(Self::first_refused_innings())
        }
    }

    /// Compiles the selectors of the scorecard page, or reports the first one
    /// that the selector engine refuses.
    pub fn compile() -> (compiled: Result<ScorecardSelectors, InvalidSelector>)
        ensures
            compiled.is_ok() == Self::accepted(),
            compiled matches Err(refused) ==> refused.selector@ == Self::first_refused(),
    {
        let mut innings: Vec<Selector> = Vec::new();
        let mut number: usize = 1;
        while number <= MAX_INNINGS
            invariant
                1 <= number <= MAX_INNINGS + 1,
                innings@.len() == number - 1,
                forall|i: int|
                    0 <= i < number - 1 ==> selector_source(#[trigger] innings@[i])
                        == innings_selector(i + 1),
                forall|n: int| 1 <= n < number ==> selector_compiles(innings_selector(n)),
            decreases MAX_INNINGS + 1 - number,
        {
            match compile(innings_selector_text(number)) {
                Ok(selector) => {
                    innings.push(selector);
                },
                Err(refused) => {
                    return Err(refused);
                },
            }
            number += 1;
        }
        let rows = match compile(ROW_SELECTOR) {
            Ok(selector) => selector,
            Err(refused) => {
                return Err(refused);
            },
        };
        Ok(ScorecardSelectors { innings, rows })
    }
}

/// What reading a listing page leaves in a list that held `before`: the
/// page's live matches behind what was there, or `before` alone where the
/// selector engine refuses a selector of the listing page, which the reading
/// reports.
pub open spec fn listing_outcome(html: Seq<char>, before: Seq<(Seq<char>, Seq<char>)>) -> Seq<
    (Seq<char>, Seq<char>),
> {
    if ListingSelectors::accepted() {
        before + page_live_matches(html)
    } else {
        before
    }
}

/// What reading a scorecard page leaves in a list that held `before`: the
/// page's innings behind what was there, or `before` alone where the selector
/// engine refuses a selector of the scorecard page, which the reading
/// reports.
pub open spec fn scorecard_outcome(html: Seq<char>, before: Seq<InningsView>) -> Seq<InningsView> {
    if ScorecardSelectors::accepted() {
        before + page_scorecard(html)
    } else {
        before
    }
}

/// Reading a listing page is repeatable: the same text gives the same live
/// matches in the same order each time, so that reading it twice into one
/// list appends the same entries twice.
pub proof fn lemma_listing_is_repeatable(html: Seq<char>, before: Seq<(Seq<char>, Seq<char>)>)
    ensures
        listing_outcome(html, listing_outcome(html, before)) == before + listing_outcome(
            html,
            Seq::empty(),
        ) + listing_outcome(html, Seq::empty()),
{
    let once = listing_outcome(html, Seq::empty());
    assert(listing_outcome(html, before) =~= before + once);
    assert(listing_outcome(html, before + once) =~= before + once + once);
}

/// A listing page without a menu of matches has no live matches.
pub proof fn lemma_page_without_menu(html: Seq<char>)
    requires
        document_matches(html, MENU_SELECTOR@).len() == 0,
    ensures
        page_live_matches(html) == Seq::<(Seq<char>, Seq<char>)>::empty(),
        forall|before: Seq<(Seq<char>, Seq<char>)>| #[trigger]
            listing_outcome(html, before) == before,
{
    assert(page_live_matches(html) =~= Seq::empty());
    assert forall|before: Seq<(Seq<char>, Seq<char>)>| #[trigger]
        listing_outcome(html, before) == before by {
        assert(before + page_live_matches(html) =~= before);
    }
}

/// A scorecard page that holds the first and the third innings, and neither
/// the second nor the fourth, gives two innings: the first, then the third.
pub proof fn lemma_page_with_first_and_third_innings(html: Seq<char>)
    requires
        is_readable(html),
        innings_rows(html, 1) is Some,
        innings_rows(html, 2) is None,
        innings_rows(html, 3) is Some,
        innings_rows(html, 4) is None,
    ensures
        page_scorecard(html) == seq![
            innings_of(innings_rows(html, 1)->0),
            innings_of(innings_rows(html, 3)->0),
        ],
{
    let first = innings_rows(html, 1)->0;
    let third = innings_rows(html, 3)->0;
    assert(page_sections(html, MAX_INNINGS as nat) =~= seq![Some(first), None, Some(third), None]);
    lemma_first_and_third_innings(first, third);
}

/// The innings of a page keep the order of their numbers. A page that can
/// be read gives one innings for each number from one to four that it holds
/// a container for; the innings of number `number` is built from that
/// container alone and stands behind the innings of all lower numbers and
/// before those of all higher ones. A number without a container leaves no
/// entry.
pub proof fn lemma_page_innings_order(html: Seq<char>, number: int)
    requires
        is_readable(html),
        1 <= number <= MAX_INNINGS,
    ensures
        page_scorecard(html).len() == present_count(page_sections(html, MAX_INNINGS as nat)),
        page_scorecard(html) == innings_list(page_sections(html, (number - 1) as nat))
            + innings_share(innings_rows(html, number)) + innings_list(
            page_sections(html, MAX_INNINGS as nat).skip(number),
        ),
        innings_rows(html, number) matches Some(rows) ==> page_scorecard(html)[present_count(
            page_sections(html, (number - 1) as nat),
        ) as int] == innings_of(rows),
{
    let sections = page_sections(html, MAX_INNINGS as nat);
    assert(sections.take(number - 1) =~= page_sections(html, (number - 1) as nat));
    assert(sections[number - 1] == innings_rows(html, number));
    lemma_innings_order(sections, number - 1);
    lemma_innings_list_len(sections);
}

/// A scorecard page without innings containers gives no innings.
pub proof fn lemma_page_without_innings(html: Seq<char>)
    requires
        forall|number: int| 1 <= number <= MAX_INNINGS ==> innings_rows(html, number) is None,
    ensures
        page_scorecard(html) == Seq::<InningsView>::empty(),
{
    let none = Seq::<Option<Seq<Seq<CellView>>>>::empty();
    assert(innings_list(none) =~= Seq::empty());
    assert(page_sections(html, 1).drop_last() =~= none);
    assert(page_sections(html, 2).drop_last() =~= page_sections(html, 1));
    assert(page_sections(html, 3).drop_last() =~= page_sections(html, 2));
    assert(page_sections(html, 4).drop_last() =~= page_sections(html, 3));
    assert(innings_list(page_sections(html, 1)) =~= Seq::empty());
    assert(innings_list(page_sections(html, 2)) =~= Seq::empty());
    assert(innings_list(page_sections(html, 3)) =~= Seq::empty());
}

/// The first element of the document that matches the selector, where one
/// does: the container that a page is read from.
fn first_match<'a>(doc: &'a Html, selector: &Selector) -> (first: Option<ElementRef<'a>>)
    ensures
        first is None <==> document_matches(
            document_source(*doc),
            selector_source(*selector),
        ).len() == 0,
        first matches Some(element) ==> element_source(element) == document_source(*doc)
            && element_index(element) == document_matches(
            document_source(*doc),
            selector_source(*selector),
        )[0],
{
    let found = select_in_document(doc, selector);
    if found.len() > 0 {
        Some(found[0])
    } else {
        None
    }
}

/// Reads the anchors below the menu element, in document order.
fn anchors_in(menu: &ElementRef, link: &Selector) -> (anchors: Vec<Anchor>)
    requires
        selector_source(*link) == LINK_SELECTOR@,
    ensures
        anchors.deep_view() == anchors_below(element_source(*menu), element_index(*menu)),
{
    let links = select_in_element(menu, link);
    let ghost html = element_source(*menu);
    let ghost indices = element_matches(html, element_index(*menu), LINK_SELECTOR@);
    let mut anchors: Vec<Anchor> = Vec::new();
    let mut i: usize = 0;
    while i < links.len()
        invariant
            i <= links.len(),
            elements_at(links@, html, indices),
            anchors@.len() == i,
            forall|k: int| 0 <= k < i ==> (#[trigger] anchors@[k])@ == anchor_at(html, indices[k]),
        decreases links.len() - i,
    {
        let text = text_of(&links[i]);
        let href = attr_of(&links[i], LINK_TARGET);
        anchors.push(Anchor { text, href });
        i += 1;
    }
    assert(anchors.deep_view() =~= anchors_below(html, element_index(*menu)));
    anchors
}

/// Appends to `found` the live matches of a listing page, in the order of the
/// page's menu of matches. A page without such a menu, or too long to be
/// read, adds nothing.
pub fn live_matches_in_page(
    selectors: &ListingSelectors,
    html: &str,
    found: &mut Vec<(String, String)>,
)
    ensures
        final(found).deep_view() == old(found).deep_view() + page_live_matches(html@),
{
    proof {
        use_type_invariant(selectors);
    }
    if html.unicode_len() > MAX_DOCUMENT_CHARS {
        assert(found.deep_view() =~= old(found).deep_view() + page_live_matches(html@));
        return;
    }
    let doc = parse_document(html);
    match first_match(&doc, &selectors.menu) {
        Some(menu) => {
            let anchors = anchors_in(&menu, &selectors.link);
            live_matches(&anchors, found);
        },
        None => {
            assert(found.deep_view() =~= old(found).deep_view() + page_live_matches(html@));
        },
    }
}

/// Scrapes the names and identifiers of the live matches from a listing
/// page and appends them to `match_id_name`.
///
/// Any text is taken: a page without a menu of matches adds nothing, and
/// that is no fault. The one fault is a selector of the listing page that the
/// selector engine refuses; it is reported, and the list is left as it was.
pub fn parse_all_live_matches_id_and_short_name(
    html: &str,
    match_id_name: &mut Vec<(String, String)>,
) -> (read: Result<(), InvalidSelector>)
    ensures
        read.is_ok() == ListingSelectors::accepted(),
        final(match_id_name).deep_view() == listing_outcome(html@, old(match_id_name).deep_view()),
        read matches Err(refused) ==> *final(match_id_name) == *old(match_id_name)
            && refused.selector@ == ListingSelectors::first_refused(),
        document_matches(html@, MENU_SELECTOR@).len() == 0 ==> final(match_id_name).deep_view()
            == old(match_id_name).deep_view(),
{
    proof {
        if document_matches(html@, MENU_SELECTOR@).len() == 0 {
            lemma_page_without_menu(html@);
        }
    }
    match ListingSelectors::compile() {
        Ok(selectors) => {
            live_matches_in_page(&selectors, html, match_id_name);
            Ok(())
        },
        Err(refused) => Err(refused),
    }
}

/// Reads the cells of a row: what each immediate child element shows and
/// contains, in document order.
fn cells_in(row: &ElementRef) -> (cells: Vec<Cell>)
    ensures
        cells.deep_view() == row_cells(element_source(*row), element_index(*row)),
{
    let children = child_elements(row);
    let ghost html = element_source(*row);
    let ghost indices = element_children(html, element_index(*row));
    let mut cells: Vec<Cell> = Vec::new();
    let mut i: usize = 0;
    while i < children.len()
        invariant
            i <= children.len(),
            elements_at(children@, html, indices),
            cells@.len() == i,
            forall|k: int| 0 <= k < i ==> (#[trigger] cells@[k])@ == cell_at(html, indices[k]),
        decreases children.len() - i,
    {
        let text = text_of(&children[i]);
        let inner_html = inner_html_of(&children[i]);
        cells.push(Cell { text, inner_html });
        i += 1;
    }
    assert(cells.deep_view() =~= row_cells(html, element_index(*row)));
    cells
}

/// Reads the rows below an innings container, in document order.
fn rows_in(container: &ElementRef, rows: &Selector) -> (found: Vec<Vec<Cell>>)
    requires
        selector_source(*rows) == ROW_SELECTOR@,
    ensures
        found.deep_view() == container_rows(
            element_source(*container),
            element_index(*container),
        ),
{
    let items = select_in_element(container, rows);
    let ghost html = element_source(*container);
    let ghost indices = element_matches(html, element_index(*container), ROW_SELECTOR@);
    let mut found: Vec<Vec<Cell>> = Vec::new();
    let mut i: usize = 0;
    while i < items.len()
        invariant
            i <= items.len(),
            elements_at(items@, html, indices),
            found@.len() == i,
            forall|k: int|
                0 <= k < i ==> (#[trigger] found@[k]).deep_view() == row_cells(html, indices[k]),
        decreases items.len() - i,
    {
        let cells = cells_in(&items[i]);
        found.push(cells);
        i += 1;
    }
    assert(found.deep_view() =~= container_rows(html, element_index(*container)));
    found
}

/// Builds the innings that an innings container holds and appends it to
/// `scorecard`.
pub(crate) fn populate_innings_info(
    div: &ElementRef,
    rows: &Selector,
    scorecard: &mut Vec<MatchInningsInfo>,
)
    requires
        selector_source(*rows) == ROW_SELECTOR@,
    ensures
        final(scorecard).deep_view() == old(scorecard).deep_view().push(
            innings_of(container_rows(element_source(*div), element_index(*div))),
        ),
{
    let ghost before = scorecard.deep_view();
    let found = rows_in(div, rows);
    let innings = innings_from_rows(&found);
    scorecard.push(innings);
    assert(scorecard.deep_view() =~= before.push(innings@));
}

/// Appends to `scorecard` the innings of a scorecard page, from the first to
/// the fourth, without those that the page does not hold. A page too long to
/// be read adds nothing.
pub fn scorecard_in_page(
    selectors: &ScorecardSelectors,
    html: &str,
    scorecard: &mut Vec<MatchInningsInfo>,
)
    ensures
        final(scorecard).deep_view() == old(scorecard).deep_view() + page_scorecard(html@),
{
    proof {
        use_type_invariant(selectors);
    }
    if html.unicode_len() > MAX_DOCUMENT_CHARS {
        assert(scorecard.deep_view() =~= old(scorecard).deep_view() + page_scorecard(html@));
        return;
    }
    let doc = parse_document(html);
    let ghost start = scorecard.deep_view();
    let mut number: usize = 1;
    assert(scorecard.deep_view() =~= start + innings_list(page_sections(html@, 0)));
    while number <= MAX_INNINGS
        invariant
            1 <= number <= MAX_INNINGS + 1,
            document_source(doc) == html@,
            is_readable(html@),
            selectors.innings@.len() == MAX_INNINGS,
            forall|i: int|
                0 <= i < MAX_INNINGS ==> selector_source(#[trigger] selectors.innings@[i])
                    == innings_selector(i + 1),
            selector_source(selectors.rows) == ROW_SELECTOR@,
            scorecard.deep_view() == start + innings_list(
                page_sections(html@, (number - 1) as nat),
            ),
        decreases MAX_INNINGS + 1 - number,
    {
        let ghost before = scorecard.deep_view();
        proof {
            let done = page_sections(html@, (number - 1) as nat);
            let next = page_sections(html@, number as nat);
            assert(next.drop_last() =~= done);
            assert(next.last() == innings_rows(html@, number as int));
        }
        match first_match(&doc, &selectors.innings[number - 1]) {
            Some(container) => {
                populate_innings_info(&container, &selectors.rows, scorecard);
                assert(scorecard.deep_view() =~= start + innings_list(
                    page_sections(html@, number as nat),
                ));
            },
            None => {},
        }
        number += 1;
    }
}

/// Parses the scorecard page of a match and appends its innings to
/// `scorecard`, from the first to the fourth.
///
/// Any text is taken: an innings that the page does not hold leaves no
/// entry, so that a page without innings adds nothing, and that is no fault.
/// The one fault is a selector of the scorecard page that the selector engine
/// refuses; it is reported, and the list is left as it was.
pub fn parse_scorecard(html: &str, scorecard: &mut Vec<MatchInningsInfo>) -> (read: Result<
    (),
    InvalidSelector,
>)
    ensures
        read.is_ok() == ScorecardSelectors::accepted(),
        final(scorecard).deep_view() == scorecard_outcome(html@, old(scorecard).deep_view()),
        read matches Err(refused) ==> *final(scorecard) == *old(scorecard) && refused.selector@
            == ScorecardSelectors::first_refused(),
{
    match ScorecardSelectors::compile() {
        Ok(selectors) => {
            scorecard_in_page(&selectors, html, scorecard);
            Ok(())
        },
        Err(refused) => Err(refused),
    }
}

/// Parses the text of a stored scorecard page as [`parse_scorecard`] does.
pub fn parse_scorecard_from_file(file: &str, scorecard: &mut Vec<MatchInningsInfo>) -> (read:
    Result<(), InvalidSelector>)
    ensures
        read.is_ok() == ScorecardSelectors::accepted(),
        final(scorecard).deep_view() == scorecard_outcome(file@, old(scorecard).deep_view()),
        read matches Err(refused) ==> *final(scorecard) == *old(scorecard) && refused.selector@
            == ScorecardSelectors::first_refused(),
{
    parse_scorecard(file, scorecard)
}

} // verus!
