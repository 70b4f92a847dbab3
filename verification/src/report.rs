//! The lines of text that show a scorecard: the innings from the latest to
//! the first, each with its batsmen and bowlers set in columns.

use vstd::prelude::*;
use vstd::string::*;
use crate::scorecard::{BatsmanInfo, BatsmanView, BowlerInfo, BowlerView, InningsView, MatchInningsInfo};
use crate::text::{decimal, decimal_text};

verus! {

/// How a line is set off from the lines around it.
#[derive(Debug, Clone, Copy, PartialEq, Eq)]
pub enum LineStyle {
    /// An ordinary line
    Plain,
    /// The head of a table
    Bold,
    /// The title of an innings, bold and underlined
    Title,
    /// A line that stands back behind the others
    Faded,
    /// The line that tells how a match stands
    Status,
}

/// One line of the scorecard as it is shown.
#[derive(Debug, Clone, PartialEq, Eq)]
pub struct Line {
    pub text: String,
    pub style: LineStyle,
}

/// A line as the contracts see it.
pub struct LineView {
    pub text: Seq<char>,
    pub style: LineStyle,
}

impl View for Line {
    type V = LineView;

    open spec fn view(&self) -> LineView {
        LineView { text: self.text@, style: self.style }
    }
}

impl DeepView for Line {
    type V = LineView;

    open spec fn deep_view(&self) -> LineView {
        self@
    }
}

/// `s` filled up with spaces on the right to `width` characters; `s` itself
/// where it is that long or longer.
pub open spec fn padded(s: Seq<char>, width: nat) -> Seq<char> {
    if s.len() < width {
        s + Seq::new((width - s.len()) as nat, |i: int| ' ')
    } else {
        s
    }
}

/// `row` and then, behind one space, `field` filled up to `width`.
pub open spec fn with_column(row: Seq<char>, field: Seq<char>, width: nat) -> Seq<char> {
    row + seq![' '] + padded(field, width)
}

/// The seven columns of the batting table.
pub open spec fn batting_columns(
    name: Seq<char>,
    status: Seq<char>,
    runs: Seq<char>,
    balls: Seq<char>,
    fours: Seq<char>,
    sixes: Seq<char>,
    strike_rate: Seq<char>,
) -> Seq<char> {
    with_column(
        with_column(
            with_column(
                with_column(with_column(with_column(padded(name, 30), status, 60), runs, 3), balls, 3),
                fours,
                2,
            ),
            sixes,
            2,
        ),
        strike_rate,
        6,
    )
}

/// The eight columns of the bowling table.
pub open spec fn bowling_columns(
    name: Seq<char>,
    overs: Seq<char>,
    maidens: Seq<char>,
    runs: Seq<char>,
    wickets: Seq<char>,
    no_balls: Seq<char>,
    wides: Seq<char>,
    economy: Seq<char>,
) -> Seq<char> {
    with_column(
        with_column(
            with_column(
                with_column(
                    with_column(with_column(with_column(padded(name, 30), overs, 5), maidens, 3), runs, 3),
                    wickets,
                    2,
                ),
                no_balls,
                2,
            ),
            wides,
            2,
        ),
        economy,
        6,
    )
}

/// The head of the batting table.
pub open spec fn batting_head() -> LineView {
    LineView {
        text: batting_columns("Batsman"@, ""@, "R"@, "B"@, "4s"@, "6s"@, "SR"@),
        style: LineStyle::Bold,
    }
}

/// The head of the bowling table.
pub open spec fn bowling_head() -> LineView {
    LineView {
        text: bowling_columns("Bowler"@, "O"@, "M"@, "R"@, "W"@, "NB"@, "WD"@, "ECO"@),
        style: LineStyle::Bold,
    }
}

/// The line of one batsman.
pub open spec fn batsman_line(batsman: BatsmanView) -> LineView {
    LineView {
        text: batting_columns(
            batsman.name,
            batsman.status,
            batsman.runs,
            batsman.balls,
            batsman.fours,
            batsman.sixes,
            batsman.strike_rate,
        ),
        style: LineStyle::Plain,
    }
}

/// The line of one bowler.
pub open spec fn bowler_line(bowler: BowlerView) -> LineView {
    LineView {
        text: bowling_columns(
            bowler.name,
            bowler.overs,
            bowler.maidens,
            bowler.runs,
            bowler.wickets,
            bowler.no_balls,
            bowler.wides,
            bowler.economy,
        ),
        style: LineStyle::Plain,
    }
}

/// The line without text that parts the tables.
pub open spec fn blank_line() -> LineView {
    LineView { text: Seq::empty(), style: LineStyle::Plain }
}

/// The title of innings `number`.
pub open spec fn innings_title(number: nat) -> LineView {
    LineView { text: "Innings "@ + decimal(number), style: LineStyle::Title }
}

/// The lines of innings `number`: its title, the batting table and the
/// bowling table, each followed by a blank line.
pub open spec fn innings_lines(number: nat, innings: InningsView) -> Seq<LineView> {
    seq![innings_title(number), blank_line(), batting_head()] + innings.batsman_details.map_values(
        |batsman: BatsmanView| batsman_line(batsman),
    ) + seq![blank_line(), bowling_head()] + innings.bowler_details.map_values(
        |bowler: BowlerView| bowler_line(bowler),
    ) + seq![blank_line()]
}

/// The lines of a scorecard: the innings from the latest to the first, each
/// under the number of its place in the scorecard.
pub open spec fn scorecard_lines(scorecard: Seq<InningsView>) -> Seq<LineView>
    decreases scorecard.len(),
{
    if scorecard.len() == 0 {
        Seq::empty()
    } else {
        innings_lines(scorecard.len(), scorecard.last()) + scorecard_lines(scorecard.drop_last())
    }
}

/// Fills `s` up with spaces on the right to `width` characters.
pub fn pad_right(s: &str, width: usize) -> (out: String)
    ensures
        out@ == padded(s@, width as nat),
{
    let len = s.unicode_len();
    let mut out = String::from_str(s);
    let mut n: usize = len;
    assert(out@ =~= s@ + Seq::new(0, |i: int| ' '));
    while n < width
        invariant
            len == s@.len(),
            len <= n,
            len < width ==> n <= width,
            len >= width ==> n == len,
            out@ == s@ + Seq::new((n - len) as nat, |i: int| ' '),
        decreases width - n,
    {
        proof {
            reveal_strlit(" ");
        }
        out.append(" ");
        n += 1;
        assert(out@ =~= s@ + Seq::new((n - len) as nat, |i: int| ' '));
    }
    assert(out@ =~= padded(s@, width as nat));
    out
}

/// Sets `field`, filled up to `width`, behind one space at the end of `row`.
fn push_column(row: &mut String, field: &str, width: usize)
    ensures
        final(row)@ == with_column(old(row)@, field@, width as nat),
{
    proof {
        reveal_strlit(" ");
    }
    row.append(" ");
    let cell = pad_right(field, width);
    row.append(cell.as_str());
    assert(row@ =~= with_column(old(row)@, field@, width as nat));
}

/// Sets the seven columns of the batting table.
fn batting_row(
    name: &str,
    status: &str,
    runs: &str,
    balls: &str,
    fours: &str,
    sixes: &str,
    strike_rate: &str,
) -> (row: String)
    ensures
        row@ == batting_columns(name@, status@, runs@, balls@, fours@, sixes@, strike_rate@),
{
    let mut row = pad_right(name, 30);
    push_column(&mut row, status, 60);
    push_column(&mut row, runs, 3);
    push_column(&mut row, balls, 3);
    push_column(&mut row, fours, 2);
    push_column(&mut row, sixes, 2);
    push_column(&mut row, strike_rate, 6);
    row
}

/// Sets the eight columns of the bowling table.
fn bowling_row(
    name: &str,
    overs: &str,
    maidens: &str,
    runs: &str,
    wickets: &str,
    no_balls: &str,
    wides: &str,
    economy: &str,
) -> (row: String)
    ensures
        row@ == bowling_columns(
            name@,
            overs@,
            maidens@,
            runs@,
            wickets@,
            no_balls@,
            wides@,
            economy@,
        ),
{
    let mut row = pad_right(name, 30);
    push_column(&mut row, overs, 5);
    push_column(&mut row, maidens, 3);
    push_column(&mut row, runs, 3);
    push_column(&mut row, wickets, 2);
    push_column(&mut row, no_balls, 2);
    push_column(&mut row, wides, 2);
    push_column(&mut row, economy, 6);
    row
}

/// Appends the lines of innings `number` to `lines`.
fn push_innings(lines: &mut Vec<Line>, number: usize, innings: &MatchInningsInfo)
    ensures
        final(lines).deep_view() == old(lines).deep_view() + innings_lines(number as nat, innings@),
{
    let ghost start = lines.deep_view();
    let ghost batsmen = innings.batsman_details.deep_view();
    let ghost bowlers = innings.bowler_details.deep_view();
    let ghost head = seq![innings_title(number as nat), blank_line(), batting_head()];
    let mut title = String::from_str("Innings ");
    title.append(decimal_text(number as u64).as_str());
    lines.push(Line { text: title, style: LineStyle::Title });
    lines.push(Line { text: String::new(), style: LineStyle::Plain });
    lines.push(
        Line {
            text: batting_row("Batsman", "", "R", "B", "4s", "6s", "SR"),
            style: LineStyle::Bold,
        },
    );
    assert(lines.deep_view() =~= start + head);
    let mut i: usize = 0;
    while i < innings.batsman_details.len()
        invariant
            i <= innings.batsman_details.len(),
            batsmen == innings.batsman_details.deep_view(),
            lines.deep_view() == start + head + batsmen.take(i as int).map_values(
                |batsman: BatsmanView| batsman_line(batsman),
            ),
        decreases innings.batsman_details.len() - i,
    {
        let ghost before = lines.deep_view();
        let b = &innings.batsman_details[i];
        let text = batting_row(
            b.name.as_str(),
            b.status.as_str(),
            b.runs.as_str(),
            b.balls.as_str(),
            b.fours.as_str(),
            b.sixes.as_str(),
            b.strike_rate.as_str(),
        );
        lines.push(Line { text, style: LineStyle::Plain });
        i += 1;
        assert(lines.deep_view() =~= before.push(batsman_line(batsmen[i - 1])));
        assert(batsmen.take(i as int).map_values(|batsman: BatsmanView| batsman_line(batsman))
            =~= batsmen.take(i - 1).map_values(|batsman: BatsmanView| batsman_line(batsman)).push(
            batsman_line(batsmen[i - 1]),
        ));
    }
    assert(batsmen.take(i as int) =~= batsmen);
    let ghost batting = lines.deep_view();
    let ghost middle = seq![blank_line(), bowling_head()];
    lines.push(Line { text: String::new(), style: LineStyle::Plain });
    lines.push(
        Line {
            text: bowling_row("Bowler", "O", "M", "R", "W", "NB", "WD", "ECO"),
            style: LineStyle::Bold,
        },
    );
    assert(lines.deep_view() =~= batting + middle);
    let mut k: usize = 0;
    while k < innings.bowler_details.len()
        invariant
            k <= innings.bowler_details.len(),
            bowlers == innings.bowler_details.deep_view(),
            lines.deep_view() == batting + middle + bowlers.take(k as int).map_values(
                |bowler: BowlerView| bowler_line(bowler),
            ),
        decreases innings.bowler_details.len() - k,
    {
        let ghost before = lines.deep_view();
        let b = &innings.bowler_details[k];
        let text = bowling_row(
            b.name.as_str(),
            b.overs.as_str(),
            b.maidens.as_str(),
            b.runs.as_str(),
            b.wickets.as_str(),
            b.no_balls.as_str(),
            b.wides.as_str(),
            b.economy.as_str(),
        );
        lines.push(Line { text, style: LineStyle::Plain });
        k += 1;
        assert(lines.deep_view() =~= before.push(bowler_line(bowlers[k - 1])));
        assert(bowlers.take(k as int).map_values(|bowler: BowlerView| bowler_line(bowler))
            =~= bowlers.take(k - 1).map_values(|bowler: BowlerView| bowler_line(bowler)).push(
            bowler_line(bowlers[k - 1]),
        ));
    }
    assert(bowlers.take(k as int) =~= bowlers);
    let ghost bowling = lines.deep_view();
    lines.push(Line { text: String::new(), style: LineStyle::Plain });
    assert(lines.deep_view() =~= bowling.push(blank_line()));
    assert(lines.deep_view() =~= start + innings_lines(number as nat, innings@));
}

/// Sets a scorecard in lines of text, the latest innings first.
pub fn format_scorecard_info(scorecard: &Vec<MatchInningsInfo>) -> (lines: Vec<Line>)
    ensures
        lines.deep_view() == scorecard_lines(scorecard.deep_view()),
{
    let ghost all = scorecard.deep_view();
    let mut lines: Vec<Line> = Vec::new();
    let mut left: usize = scorecard.len();
    assert(all.take(left as int) =~= all);
    assert(lines.deep_view() =~= Seq::<LineView>::empty());
    while left > 0
        invariant
            left <= scorecard.len(),
            all == scorecard.deep_view(),
            lines.deep_view() + scorecard_lines(all.take(left as int)) == scorecard_lines(all),
        decreases left,
    {
        let ghost before = lines.deep_view();
        proof {
            let upto = all.take(left as int);
            assert(upto.drop_last() =~= all.take(left - 1));
            assert(upto.last() == scorecard@[left - 1]@);
        }
        push_innings(&mut lines, left, &scorecard[left - 1]);
        left -= 1;
        assert(lines.deep_view() + scorecard_lines(all.take(left as int)) =~= before
            + scorecard_lines(all.take(left + 1)));
    }
    assert(all.take(0) =~= Seq::empty());
    assert(lines.deep_view() + Seq::empty() =~= lines.deep_view());
    lines
}

} // verus!
