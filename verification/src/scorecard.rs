//! Scorecards: the batting and bowling records of each innings, read out of
//! the rows of a scorecard page.
//!
//! A row is told apart by the number of its immediate child elements alone:
//! seven make a batting row, eight a bowling row, and any other number is a
//! header or a separator that holds no record.

use vstd::prelude::*;
use crate::text::{trimmed, trimmed_copy};

verus! {

/// The number of cells of a batting row.
pub const BATTING_CELLS: usize = 7;

/// The number of cells of a bowling row.
pub const BOWLING_CELLS: usize = 8;

/// What is read from one immediate child element of a row.
#[derive(Debug, Clone, PartialEq, Eq)]
pub struct Cell {
    /// The text below the element, as a reader of the page sees it
    pub text: String,
    /// The markup that the element contains
    pub inner_html: String,
}

/// A bowler's figures in one innings, as the page displays them.
#[derive(Debug, Clone, PartialEq, Eq)]
pub struct BowlerInfo {
    pub name: String,
    pub overs: String,
    pub maidens: String,
    pub runs: String,
    pub wickets: String,
    pub no_balls: String,
    pub wides: String,
    pub economy: String,
}

/// A batsman's figures in one innings, as the page displays them.
#[derive(Debug, Clone, PartialEq, Eq)]
pub struct BatsmanInfo {
    pub name: String,
    pub status: String,
    pub runs: String,
    pub balls: String,
    pub fours: String,
    pub sixes: String,
    pub strike_rate: String,
}

/// The batsmen and bowlers of one innings of a match.
#[derive(Debug, Clone, PartialEq, Eq)]
pub struct MatchInningsInfo {
    /// The batsmen in batting order
    pub batsman_details: Vec<BatsmanInfo>,
    /// Carried along for the caller; reading a scorecard leaves it empty
    pub yet_to_bat: String,
    /// The bowlers in the order of the page
    pub bowler_details: Vec<BowlerInfo>,
}

/// The record that a row holds, if any.
#[derive(Debug, Clone, PartialEq, Eq)]
pub enum RowRecord {
    Batting(BatsmanInfo),
    Bowling(BowlerInfo),
    Other,
}

/// A cell as the contracts see it.
pub struct CellView {
    pub text: Seq<char>,
    pub inner_html: Seq<char>,
}

/// A bowler's figures as the contracts see them.
pub struct BowlerView {
    pub name: Seq<char>,
    pub overs: Seq<char>,
    pub maidens: Seq<char>,
    pub runs: Seq<char>,
    pub wickets: Seq<char>,
    pub no_balls: Seq<char>,
    pub wides: Seq<char>,
    pub economy: Seq<char>,
}

/// A batsman's figures as the contracts see them.
pub struct BatsmanView {
    pub name: Seq<char>,
    pub status: Seq<char>,
    pub runs: Seq<char>,
    pub balls: Seq<char>,
    pub fours: Seq<char>,
    pub sixes: Seq<char>,
    pub strike_rate: Seq<char>,
}

/// An innings as the contracts see it.
pub struct InningsView {
    pub batsman_details: Seq<BatsmanView>,
    pub yet_to_bat: Seq<char>,
    pub bowler_details: Seq<BowlerView>,
}

/// The record of a row as the contracts see it.
pub enum RowRecordView {
    Batting(BatsmanView),
    Bowling(BowlerView),
    Other,
}

impl View for Cell {
    type V = CellView;

    open spec fn view(&self) -> CellView {
        CellView { text: self.text@, inner_html: self.inner_html@ }
    }
}

impl DeepView for Cell {
    type V = CellView;

    open spec fn deep_view(&self) -> CellView {
        self@
    }
}

impl View for BowlerInfo {
    type V = BowlerView;

    open spec fn view(&self) -> BowlerView {
        BowlerView {
            name: self.name@,
            overs: self.overs@,
            maidens: self.maidens@,
            runs: self.runs@,
            wickets: self.wickets@,
            no_balls: self.no_balls@,
            wides: self.wides@,
            economy: self.economy@,
        }
    }
}

impl DeepView for BowlerInfo {
    type V = BowlerView;

    open spec fn deep_view(&self) -> BowlerView {
        self@
    }
}

impl View for BatsmanInfo {
    type V = BatsmanView;

    open spec fn view(&self) -> BatsmanView {
        BatsmanView {
            name: self.name@,
            status: self.status@,
            runs: self.runs@,
            balls: self.balls@,
            fours: self.fours@,
            sixes: self.sixes@,
            strike_rate: self.strike_rate@,
        }
    }
}

impl DeepView for BatsmanInfo {
    type V = BatsmanView;

    open spec fn deep_view(&self) -> BatsmanView {
        self@
    }
}

impl View for MatchInningsInfo {
    type V = InningsView;

    open spec fn view(&self) -> InningsView {
        InningsView {
            batsman_details: self.batsman_details.deep_view(),
            yet_to_bat: self.yet_to_bat@,
            bowler_details: self.bowler_details.deep_view(),
        }
    }
}

impl DeepView for MatchInningsInfo {
    type V = InningsView;

    open spec fn deep_view(&self) -> InningsView {
        self@
    }
}

impl View for RowRecord {
    type V = RowRecordView;

    open spec fn view(&self) -> RowRecordView {
        match self {
            RowRecord::Batting(batsman) => RowRecordView::Batting(batsman@),
            RowRecord::Bowling(bowler) => RowRecordView::Bowling(bowler@),
            RowRecord::Other => RowRecordView::Other,
        }
    }
}

impl BowlerView {
    /// The record with every field empty.
    pub open spec fn empty() -> BowlerView {
        BowlerView {
            name: Seq::empty(),
            overs: Seq::empty(),
            maidens: Seq::empty(),
            runs: Seq::empty(),
            wickets: Seq::empty(),
            no_balls: Seq::empty(),
            wides: Seq::empty(),
            economy: Seq::empty(),
        }
    }
}

impl BatsmanView {
    /// The record with every field empty.
    pub open spec fn empty() -> BatsmanView {
        BatsmanView {
            name: Seq::empty(),
            status: Seq::empty(),
            runs: Seq::empty(),
            balls: Seq::empty(),
            fours: Seq::empty(),
            sixes: Seq::empty(),
            strike_rate: Seq::empty(),
        }
    }
}

impl InningsView {
    /// The innings without batsmen or bowlers.
    pub open spec fn empty() -> InningsView {
        InningsView {
            batsman_details: Seq::empty(),
            yet_to_bat: Seq::empty(),
            bowler_details: Seq::empty(),
        }
    }
}

impl Default for BowlerInfo {
    fn default() -> (bowler: BowlerInfo)
        ensures
            bowler@ == BowlerView::empty(),
    {
        BowlerInfo {
            name: String::new(),
            overs: String::new(),
            maidens: String::new(),
            runs: String::new(),
            wickets: String::new(),
            no_balls: String::new(),
            wides: String::new(),
            economy: String::new(),
        }
    }
}

impl Default for BatsmanInfo {
    fn default() -> (batsman: BatsmanInfo)
        ensures
            batsman@ == BatsmanView::empty(),
    {
        BatsmanInfo {
            name: String::new(),
            status: String::new(),
            runs: String::new(),
            balls: String::new(),
            fours: String::new(),
            sixes: String::new(),
            strike_rate: String::new(),
        }
    }
}

impl Default for MatchInningsInfo {
    fn default() -> (innings: MatchInningsInfo)
        ensures
            innings@ == InningsView::empty(),
    {
        let innings = MatchInningsInfo {
            batsman_details: Vec::new(),
            yet_to_bat: String::new(),
            bowler_details: Vec::new(),
        };
        assert(innings.batsman_details.deep_view() =~= Seq::empty());
        assert(innings.bowler_details.deep_view() =~= Seq::empty());
        innings
    }
}

/// The visible text of a cell, trimmed.
pub open spec fn cell_text(cell: CellView) -> Seq<char> {
    trimmed(cell.text)
}

/// The inner markup of a cell, trimmed.
pub open spec fn cell_content(cell: CellView) -> Seq<char> {
    trimmed(cell.inner_html)
}

/// The batting record in the seven cells of a batting row: name and status
/// by their visible text, the figures by their inner markup.
pub open spec fn batsman_of(cells: Seq<CellView>) -> BatsmanView
    recommends
        cells.len() == BATTING_CELLS,
{
    BatsmanView {
        name: cell_text(cells[0]),
        status: cell_text(cells[1]),
        runs: cell_content(cells[2]),
        balls: cell_content(cells[3]),
        fours: cell_content(cells[4]),
        sixes: cell_content(cells[5]),
        strike_rate: cell_content(cells[6]),
    }
}

/// The bowling record in the eight cells of a bowling row: the name by its
/// visible text, the figures by their inner markup.
pub open spec fn bowler_of(cells: Seq<CellView>) -> BowlerView
    recommends
        cells.len() == BOWLING_CELLS,
{
    BowlerView {
        name: cell_text(cells[0]),
        overs: cell_content(cells[1]),
        maidens: cell_content(cells[2]),
        runs: cell_content(cells[3]),
        wickets: cell_content(cells[4]),
        no_balls: cell_content(cells[5]),
        wides: cell_content(cells[6]),
        economy: cell_content(cells[7]),
    }
}

/// The record of a row with the given cells.
pub open spec fn row_record(cells: Seq<CellView>) -> RowRecordView {
    if cells.len() == BATTING_CELLS {
        RowRecordView::Batting(batsman_of(cells))
    } else if cells.len() == BOWLING_CELLS {
        RowRecordView::Bowling(bowler_of(cells))
    } else {
        RowRecordView::Other
    }
}

/// The batting records of the rows, in the order of the rows.
pub open spec fn batting_records(rows: Seq<Seq<CellView>>) -> Seq<BatsmanView>
    decreases rows.len(),
{
    if rows.len() == 0 {
        Seq::empty()
    } else {
        let before = batting_records(rows.drop_last());
        match row_record(rows.last()) {
            RowRecordView::Batting(batsman) => before.push(batsman),
            _ => before,
        }
    }
}

/// The bowling records of the rows, in the order of the rows.
pub open spec fn bowling_records(rows: Seq<Seq<CellView>>) -> Seq<BowlerView>
    decreases rows.len(),
{
    if rows.len() == 0 {
        Seq::empty()
    } else {
        let before = bowling_records(rows.drop_last());
        match row_record(rows.last()) {
            RowRecordView::Bowling(bowler) => before.push(bowler),
            _ => before,
        }
    }
}

/// The innings that the rows of one innings container make up.
pub open spec fn innings_of(rows: Seq<Seq<CellView>>) -> InningsView {
    InningsView {
        batsman_details: batting_records(rows),
        yet_to_bat: Seq::empty(),
        bowler_details: bowling_records(rows),
    }
}

/// The innings of a page whose four innings containers, from the first to
/// the fourth, hold the given rows or are absent. An absent container
/// leaves no entry.
pub open spec fn innings_list(sections: Seq<Option<Seq<Seq<CellView>>>>) -> Seq<InningsView>
    decreases sections.len(),
{
    if sections.len() == 0 {
        Seq::empty()
    } else {
        let before = innings_list(sections.drop_last());
        match sections.last() {
            Some(rows) => before.push(innings_of(rows)),
            None => before,
        }
    }
}

/// The batting record that a row adds to its innings: one for a batting row,
/// none for any other.
pub open spec fn batting_share(cells: Seq<CellView>) -> Seq<BatsmanView> {
    if cells.len() == BATTING_CELLS {
        seq![batsman_of(cells)]
    } else {
        Seq::empty()
    }
}

/// The bowling record that a row adds to its innings: one for a bowling row,
/// none for any other.
pub open spec fn bowling_share(cells: Seq<CellView>) -> Seq<BowlerView> {
    if cells.len() == BOWLING_CELLS {
        seq![bowler_of(cells)]
    } else {
        Seq::empty()
    }
}

/// The batting records of rows laid end to end are those of the first part
/// followed by those of the second.
pub proof fn lemma_batting_records_concat(first: Seq<Seq<CellView>>, second: Seq<Seq<CellView>>)
    ensures
        batting_records(first + second) == batting_records(first) + batting_records(second),
    decreases second.len(),
{
    if second.len() == 0 {
        assert(first + second =~= first);
        assert(batting_records(first) + batting_records(second) =~= batting_records(first));
    } else {
        lemma_batting_records_concat(first, second.drop_last());
        assert((first + second).drop_last() =~= first + second.drop_last());
        assert((first + second).last() == second.last());
        assert(batting_records(first + second) =~= batting_records(first) + batting_records(
            second,
        ));
    }
}

/// The bowling records of rows laid end to end are those of the first part
/// followed by those of the second.
pub proof fn lemma_bowling_records_concat(first: Seq<Seq<CellView>>, second: Seq<Seq<CellView>>)
    ensures
        bowling_records(first + second) == bowling_records(first) + bowling_records(second),
    decreases second.len(),
{
    if second.len() == 0 {
        assert(first + second =~= first);
        assert(bowling_records(first) + bowling_records(second) =~= bowling_records(first));
    } else {
        lemma_bowling_records_concat(first, second.drop_last());
        assert((first + second).drop_last() =~= first + second.drop_last());
        assert((first + second).last() == second.last());
        assert(bowling_records(first + second) =~= bowling_records(first) + bowling_records(
            second,
        ));
    }
}

/// Row classification is exact. A row of seven cells gives one batting
/// record and no bowling record, a row of eight cells gives one bowling
/// record and no batting record, and a row of any other size gives neither.
/// The record of a row stands after the records of all rows before it and
/// before the records of all rows after it.
pub proof fn lemma_row_classification(rows: Seq<Seq<CellView>>, i: int)
    requires
        0 <= i < rows.len(),
    ensures
        batting_records(rows) == batting_records(rows.take(i)) + batting_share(rows[i])
            + batting_records(rows.skip(i + 1)),
        bowling_records(rows) == bowling_records(rows.take(i)) + bowling_share(rows[i])
            + bowling_records(rows.skip(i + 1)),
        rows[i].len() == BATTING_CELLS ==> batting_share(rows[i]) == seq![batsman_of(rows[i])]
            && bowling_share(rows[i]) == Seq::<BowlerView>::empty(),
        rows[i].len() == BOWLING_CELLS ==> bowling_share(rows[i]) == seq![bowler_of(rows[i])]
            && batting_share(rows[i]) == Seq::<BatsmanView>::empty(),
        rows[i].len() != BATTING_CELLS && rows[i].len() != BOWLING_CELLS ==> batting_share(rows[i])
            == Seq::<BatsmanView>::empty() && bowling_share(rows[i]) == Seq::<BowlerView>::empty(),
{
    let upto = rows.take(i + 1);
    assert(rows =~= upto + rows.skip(i + 1));
    assert(upto.drop_last() =~= rows.take(i));
    assert(upto.last() == rows[i]);
    lemma_batting_records_concat(upto, rows.skip(i + 1));
    lemma_bowling_records_concat(upto, rows.skip(i + 1));
    assert(batting_records(upto) =~= batting_records(rows.take(i)) + batting_share(rows[i]));
    assert(bowling_records(upto) =~= bowling_records(rows.take(i)) + bowling_share(rows[i]));
}

/// The innings that one container adds to the list: one where the container
/// is present, none where it is absent.
pub open spec fn innings_share(section: Option<Seq<Seq<CellView>>>) -> Seq<InningsView> {
    match section {
        Some(rows) => seq![innings_of(rows)],
        None => Seq::empty(),
    }
}

/// The number of containers that are present.
pub open spec fn present_count(sections: Seq<Option<Seq<Seq<CellView>>>>) -> nat
    decreases sections.len(),
{
    if sections.len() == 0 {
        0
    } else {
        present_count(sections.drop_last()) + if sections.last() is Some {
            1nat
        } else {
            0nat
        }
    }
}

/// The innings of containers laid end to end are those of the first part
/// followed by those of the second.
pub proof fn lemma_innings_list_concat(
    first: Seq<Option<Seq<Seq<CellView>>>>,
    second: Seq<Option<Seq<Seq<CellView>>>>,
)
    ensures
        innings_list(first + second) == innings_list(first) + innings_list(second),
    decreases second.len(),
{
    if second.len() == 0 {
        assert(first + second =~= first);
        assert(innings_list(first) + innings_list(second) =~= innings_list(first));
    } else {
        lemma_innings_list_concat(first, second.drop_last());
        assert((first + second).drop_last() =~= first + second.drop_last());
        assert((first + second).last() == second.last());
        assert(innings_list(first + second) =~= innings_list(first) + innings_list(second));
    }
}

/// The list holds one innings for each container that is present, and none
/// for one that is absent.
pub proof fn lemma_innings_list_len(sections: Seq<Option<Seq<Seq<CellView>>>>)
    ensures
        innings_list(sections).len() == present_count(sections),
    decreases sections.len(),
{
    if sections.len() > 0 {
        lemma_innings_list_len(sections.drop_last());
    }
}

/// Innings keep the order of their containers. The innings of a container
/// that is present is built from that container alone and stands behind the
/// innings of all containers before it and before those of all containers
/// behind it; a container that is absent leaves no entry, neither an empty
/// nor a default one.
pub proof fn lemma_innings_order(sections: Seq<Option<Seq<Seq<CellView>>>>, i: int)
    requires
        0 <= i < sections.len(),
    ensures
        innings_list(sections) == innings_list(sections.take(i)) + innings_share(sections[i])
            + innings_list(sections.skip(i + 1)),
        innings_list(sections.take(i)).len() == present_count(sections.take(i)),
        sections[i] matches Some(rows) ==> innings_list(sections)[present_count(
            sections.take(i),
        ) as int] == innings_of(rows),
{
    let upto = sections.take(i + 1);
    assert(sections =~= upto + sections.skip(i + 1));
    assert(upto.drop_last() =~= sections.take(i));
    assert(upto.last() == sections[i]);
    lemma_innings_list_concat(upto, sections.skip(i + 1));
    lemma_innings_list_len(sections.take(i));
    assert(innings_list(upto) =~= innings_list(sections.take(i)) + innings_share(sections[i]));
}

/// Innings keep their order, and an absent innings neither shifts nor pads
/// the list: of four containers with only the first and the third present,
/// the list holds the first innings and then the third.
pub proof fn lemma_first_and_third_innings(
    first: Seq<Seq<CellView>>,
    third: Seq<Seq<CellView>>,
)
    ensures
        innings_list(seq![Some(first), None, Some(third), None]) == seq![
            innings_of(first),
            innings_of(third),
        ],
{
    let none = Seq::<Option<Seq<Seq<CellView>>>>::empty();
    let one = seq![Some(first)];
    let two = seq![Some(first), None];
    let three = seq![Some(first), None, Some(third)];
    let four = seq![Some(first), None, Some(third), None];
    assert(innings_list(none) =~= Seq::empty());
    assert(one.drop_last() =~= none);
    assert(two.drop_last() =~= one);
    assert(three.drop_last() =~= two);
    assert(four.drop_last() =~= three);
    assert(innings_list(one) =~= seq![innings_of(first)]);
    assert(innings_list(two) =~= seq![innings_of(first)]);
    assert(innings_list(three) =~= seq![innings_of(first), innings_of(third)]);
}

/// Reads the batting record out of the cells of a batting row.
fn batsman_from_cells(cells: &Vec<Cell>) -> (batsman: BatsmanInfo)
    requires
        cells@.len() == BATTING_CELLS,
    ensures
        batsman@ == batsman_of(cells.deep_view()),
{
    BatsmanInfo {
        name: trimmed_copy(cells[0].text.as_str()),
        status: trimmed_copy(cells[1].text.as_str()),
        runs: trimmed_copy(cells[2].inner_html.as_str()),
        balls: trimmed_copy(cells[3].inner_html.as_str()),
        fours: trimmed_copy(cells[4].inner_html.as_str()),
        sixes: trimmed_copy(cells[5].inner_html.as_str()),
        strike_rate: trimmed_copy(cells[6].inner_html.as_str()),
    }
}

/// Reads the bowling record out of the cells of a bowling row.
fn bowler_from_cells(cells: &Vec<Cell>) -> (bowler: BowlerInfo)
    requires
        cells@.len() == BOWLING_CELLS,
    ensures
        bowler@ == bowler_of(cells.deep_view()),
{
    BowlerInfo {
        name: trimmed_copy(cells[0].text.as_str()),
        overs: trimmed_copy(cells[1].inner_html.as_str()),
        maidens: trimmed_copy(cells[2].inner_html.as_str()),
        runs: trimmed_copy(cells[3].inner_html.as_str()),
        wickets: trimmed_copy(cells[4].inner_html.as_str()),
        no_balls: trimmed_copy(cells[5].inner_html.as_str()),
        wides: trimmed_copy(cells[6].inner_html.as_str()),
        economy: trimmed_copy(cells[7].inner_html.as_str()),
    }
}

/// Classifies a row by the number of its cells and reads its record.
pub fn classify_row(cells: &Vec<Cell>) -> (record: RowRecord)
    ensures
        record@ == row_record(cells.deep_view()),
{
    if cells.len() == BATTING_CELLS {
        RowRecord::Batting(batsman_from_cells(cells))
    } else if cells.len() == BOWLING_CELLS {
        RowRecord::Bowling(bowler_from_cells(cells))
    } else {
        RowRecord::Other
    }
}

/// Builds the innings out of the rows of one innings container, keeping the
/// batting rows and the bowling rows each in the order of the page.
pub fn innings_from_rows(rows: &Vec<Vec<Cell>>) -> (innings: MatchInningsInfo)
    ensures
        innings@ == innings_of(rows.deep_view()),
{
    let mut batsman_details: Vec<BatsmanInfo> = Vec::new();
    let mut bowler_details: Vec<BowlerInfo> = Vec::new();
    let ghost all = rows.deep_view();
    let mut i: usize = 0;
    assert(batsman_details.deep_view() =~= batting_records(all.take(0)));
    assert(bowler_details.deep_view() =~= bowling_records(all.take(0)));
    while i < rows.len()
        invariant
            i <= rows.len(),
            all == rows.deep_view(),
            batsman_details.deep_view() == batting_records(all.take(i as int)),
            bowler_details.deep_view() == bowling_records(all.take(i as int)),
        decreases rows.len() - i,
    {
        let ghost batsmen = batsman_details.deep_view();
        let ghost bowlers = bowler_details.deep_view();
        proof {
            assert(all.take(i + 1).drop_last() =~= all.take(i as int));
            assert(all.take(i + 1).last() == rows@[i as int].deep_view());
        }
        match classify_row(&rows[i]) {
            RowRecord::Batting(batsman) => {
                batsman_details.push(batsman);
                assert(batsman_details.deep_view() =~= batsmen.push(batsman@));
            },
            RowRecord::Bowling(bowler) => {
                bowler_details.push(bowler);
                assert(bowler_details.deep_view() =~= bowlers.push(bowler@));
            },
            RowRecord::Other => {},
        }
        i += 1;
    }
    assert(all.take(rows.len() as int) =~= all);
    MatchInningsInfo { batsman_details, yet_to_bat: String::new(), bowler_details }
}

} // verus!
