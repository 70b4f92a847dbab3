//! The lines that sum up the score of a match: which innings of which side
//! is shown, and how, by the number of innings played so far.
//!
//! Overs and run rate come in as the text that is shown for them.

use vstd::prelude::*;
use vstd::string::*;
use crate::report::{Line, LineStyle, LineView};
use crate::text::{decimal, decimal_text, same_text};

verus! {

/// The match format in which a side bats twice.
pub const TEST_FORMAT: &'static str = "TEST";

/// The match format of fifty overs a side.
pub const ODI_FORMAT: &'static str = "ODI";

/// The match format of twenty overs a side.
pub const T20_FORMAT: &'static str = "T20";

/// The score of one innings.
#[derive(Debug, Clone, PartialEq, Eq)]
pub struct InningsScore {
    /// The side that batted
    pub bat_team_name: String,
    pub score: u32,
    pub wickets: u32,
    /// The overs bowled, as they are shown
    pub overs: String,
    pub is_declared: bool,
}

/// The two sides of a match, as they stood in one innings.
#[derive(Debug, Clone, PartialEq, Eq)]
pub struct TeamInfo {
    pub batting_team_short_name: String,
    pub bowling_team_short_name: String,
}

/// The score of an innings as the contracts see it.
pub struct InningsScoreView {
    pub bat_team_name: Seq<char>,
    pub score: u32,
    pub wickets: u32,
    pub overs: Seq<char>,
    pub is_declared: bool,
}

/// The two sides of a match as the contracts see them.
pub struct TeamInfoView {
    pub batting_team_short_name: Seq<char>,
    pub bowling_team_short_name: Seq<char>,
}

impl View for InningsScore {
    type V = InningsScoreView;

    open spec fn view(&self) -> InningsScoreView {
        InningsScoreView {
            bat_team_name: self.bat_team_name@,
            score: self.score,
            wickets: self.wickets,
            overs: self.overs@,
            is_declared: self.is_declared,
        }
    }
}

impl DeepView for InningsScore {
    type V = InningsScoreView;

    open spec fn deep_view(&self) -> InningsScoreView {
        self@
    }
}

impl View for TeamInfo {
    type V = TeamInfoView;

    open spec fn view(&self) -> TeamInfoView {
        TeamInfoView {
            batting_team_short_name: self.batting_team_short_name@,
            bowling_team_short_name: self.bowling_team_short_name@,
        }
    }
}

impl DeepView for TeamInfo {
    type V = TeamInfoView;

    open spec fn deep_view(&self) -> TeamInfoView {
        self@
    }
}

/// The `n`-th innings (counting from 0) that `team` batted, in the order of
/// the innings; none where the side batted no more than `n` times.
pub open spec fn nth_innings_of(innings: Seq<InningsScoreView>, team: Seq<char>, n: nat) -> Option<
    InningsScoreView,
>
    decreases innings.len(),
{
    if innings.len() == 0 {
        None
    } else if innings.first().bat_team_name == team {
        if n == 0 {
            Some(innings.first())
        } else {
            nth_innings_of(innings.drop_first(), team, (n - 1) as nat)
        }
    } else {
        nth_innings_of(innings.drop_first(), team, n)
    }
}

/// Runs and wickets of an innings: `257/6`.
pub open spec fn score_of(innings: InningsScoreView) -> Seq<char> {
    decimal(innings.score as nat) + "/"@ + decimal(innings.wickets as nat)
}

/// A side and its score: `BAN 257/6`.
pub open spec fn side_score(team: Seq<char>, innings: InningsScoreView) -> Seq<char> {
    team + " "@ + score_of(innings)
}

/// A side and the scores of its two innings: `ENG 275/10 & 170/3`.
pub open spec fn side_scores(team: Seq<char>, first: InningsScoreView, second: InningsScoreView) -> Seq<
    char,
> {
    side_score(team, first) + " & "@ + score_of(second)
}

/// The overs of the innings in play and the run rate: ` (50) CRR: 5.14`.
pub open spec fn progress_of(innings: InningsScoreView, run_rate: Seq<char>) -> Seq<char> {
    " ("@ + innings.overs + ") CRR: "@ + run_rate
}

/// The mark of a declared innings and its overs: ` d (90.2)`.
pub open spec fn declared_of(innings: InningsScoreView) -> Seq<char> {
    " d ("@ + innings.overs + ")"@
}

/// A line of the side that bats.
pub open spec fn batting_side_line(text: Seq<char>) -> LineView {
    LineView { text, style: LineStyle::Bold }
}

/// A line of the side that bowls.
pub open spec fn bowling_side_line(text: Seq<char>) -> LineView {
    LineView { text, style: LineStyle::Faded }
}

/// The line that tells how the match stands.
pub open spec fn status_line(status: Seq<char>) -> LineView {
    LineView { text: status, style: LineStyle::Status }
}

/// The place among the team entries of the one that names the sides of the
/// innings in play, by the number of innings so far.
pub open spec fn team_position(count: nat) -> nat {
    if count == 2 {
        1
    } else if count == 3 {
        2
    } else {
        3
    }
}

/// The lines of the side that bats and the side that bowls, with one innings
/// each: the second innings of a match.
pub open spec fn second_innings_lines(
    innings: Seq<InningsScoreView>,
    sides: TeamInfoView,
    run_rate: Seq<char>,
) -> Option<Seq<LineView>> {
    let batting = nth_innings_of(innings, sides.batting_team_short_name, 0);
    let bowling = nth_innings_of(innings, sides.bowling_team_short_name, 0);
    if batting is Some && bowling is Some {
        Some(
            seq![
                batting_side_line(
                    side_score(sides.batting_team_short_name, batting->0) + progress_of(
                        batting->0,
                        run_rate,
                    ),
                ),
                bowling_side_line(side_score(sides.bowling_team_short_name, bowling->0)),
            ],
        )
    } else {
        None
    }
}

/// The lines of the third innings of a match: the side that bats with both
/// its innings, the side that bowls with its one.
pub open spec fn third_innings_lines(
    innings: Seq<InningsScoreView>,
    sides: TeamInfoView,
    run_rate: Seq<char>,
) -> Option<Seq<LineView>> {
    let first = nth_innings_of(innings, sides.batting_team_short_name, 0);
    let second = nth_innings_of(innings, sides.batting_team_short_name, 1);
    let bowling = nth_innings_of(innings, sides.bowling_team_short_name, 0);
    if first is Some && second is Some && bowling is Some {
        Some(
            seq![
                batting_side_line(
                    side_scores(sides.batting_team_short_name, first->0, second->0) + progress_of(
                        second->0,
                        run_rate,
                    ),
                ),
                bowling_side_line(side_score(sides.bowling_team_short_name, bowling->0)),
            ],
        )
    } else {
        None
    }
}

/// The lines of the fourth innings of a match: each side with both its
/// innings.
pub open spec fn fourth_innings_lines(innings: Seq<InningsScoreView>, sides: TeamInfoView) -> Option<
    Seq<LineView>,
> {
    let first = nth_innings_of(innings, sides.batting_team_short_name, 0);
    let second = nth_innings_of(innings, sides.batting_team_short_name, 1);
    let bowled_first = nth_innings_of(innings, sides.bowling_team_short_name, 0);
    let bowled_second = nth_innings_of(innings, sides.bowling_team_short_name, 1);
    if first is Some && second is Some && bowled_first is Some && bowled_second is Some {
        Some(
            seq![
                batting_side_line(side_scores(sides.batting_team_short_name, first->0, second->0)),
                bowling_side_line(
                    side_scores(sides.bowling_team_short_name, bowled_first->0, bowled_second->0),
                ),
            ],
        )
    } else {
        None
    }
}

/// The line of the first innings of a match: the one side that has batted,
/// with the run rate, or with the mark of a declaration where `declared` is
/// looked at and the innings is declared.
pub open spec fn first_innings_lines(
    innings: InningsScoreView,
    run_rate: Seq<char>,
    declared: bool,
) -> Seq<LineView> {
    if declared && innings.is_declared {
        seq![batting_side_line(side_score(innings.bat_team_name, innings) + declared_of(innings))]
    } else {
        seq![
            batting_side_line(
                side_score(innings.bat_team_name, innings) + progress_of(innings, run_rate),
            ),
        ]
    }
}

/// The score lines of a match in which a side bats twice. None where the
/// team entry of the innings in play is missing, or where a side has not
/// batted as often as the lines show it.
pub open spec fn test_summary_lines(
    innings: Seq<InningsScoreView>,
    teams: Seq<TeamInfoView>,
    run_rate: Seq<char>,
) -> Option<Seq<LineView>> {
    if innings.len() == 1 {
        Some(first_innings_lines(innings[0], run_rate, true))
    } else if teams.len() <= team_position(innings.len()) {
        None
    } else if innings.len() == 2 {
        second_innings_lines(innings, teams[1], run_rate)
    } else if innings.len() == 3 {
        third_innings_lines(innings, teams[2], run_rate)
    } else {
        fourth_innings_lines(innings, teams[3])
    }
}

/// The score lines of a match of limited overs: one line in the first
/// innings, two in the second, none otherwise. None where the team entry of
/// the second innings is missing, or where a side has not batted.
pub open spec fn limited_overs_summary_lines(
    innings: Seq<InningsScoreView>,
    teams: Seq<TeamInfoView>,
    run_rate: Seq<char>,
) -> Option<Seq<LineView>> {
    if innings.len() == 1 {
        Some(first_innings_lines(innings[0], run_rate, false))
    } else if innings.len() == 2 {
        if teams.len() <= 1 {
            None
        } else {
            second_innings_lines(innings, teams[1], run_rate)
        }
    } else {
        Some(Seq::empty())
    }
}

/// The score lines by the format of the match; a format that is neither
/// `TEST` nor `ODI` nor `T20` has none.
pub open spec fn score_lines(
    format: Seq<char>,
    innings: Seq<InningsScoreView>,
    teams: Seq<TeamInfoView>,
    run_rate: Seq<char>,
) -> Option<Seq<LineView>> {
    if format == TEST_FORMAT@ {
        test_summary_lines(innings, teams, run_rate)
    } else if format == ODI_FORMAT@ || format == T20_FORMAT@ {
        limited_overs_summary_lines(innings, teams, run_rate)
    } else {
        Some(Seq::empty())
    }
}

/// The summary of a match: its score lines and, behind them, the line that
/// tells how the match stands.
pub open spec fn summary_lines(
    format: Seq<char>,
    innings: Seq<InningsScoreView>,
    teams: Seq<TeamInfoView>,
    run_rate: Seq<char>,
    status: Seq<char>,
) -> Option<Seq<LineView>> {
    match score_lines(format, innings, teams, run_rate) {
        Some(lines) => Some(lines.push(status_line(status))),
        None => None,
    }
}

/// The place in `innings` of the `n`-th innings (counting from 0) that
/// `team` batted.
pub fn find_innings(innings: &Vec<InningsScore>, team: &str, n: usize) -> (found: Option<usize>)
    ensures
        found is None <==> nth_innings_of(innings.deep_view(), team@, n as nat) is None,
        found matches Some(i) ==> i < innings.len() && nth_innings_of(
            innings.deep_view(),
            team@,
            n as nat,
        ) == Some(innings@[i as int]@),
{
    let ghost all = innings.deep_view();
    let mut i: usize = 0;
    let mut k: usize = 0;
    assert(all.skip(0) =~= all);
    while i < innings.len()
        invariant
            i <= innings.len(),
            k <= n,
            all == innings.deep_view(),
            nth_innings_of(all, team@, n as nat) == nth_innings_of(
                all.skip(i as int),
                team@,
                (n - k) as nat,
            ),
        decreases innings.len() - i,
    {
        proof {
            assert(all.skip(i as int).first() == innings@[i as int]@);
            assert(all.skip(i as int).drop_first() =~= all.skip(i + 1));
        }
        if same_text(innings[i].bat_team_name.as_str(), team) {
            if k == n {
                return Some(i);
            }
            k += 1;
        }
        i += 1;
    }
    assert(all.skip(i as int).len() == 0);
    None
}

/// Sets runs and wickets of an innings behind `text`.
fn push_score(text: &mut String, innings: &InningsScore)
    ensures
        final(text)@ == old(text)@ + score_of(innings@),
{
    text.append(decimal_text(innings.score as u64).as_str());
    text.append("/");
    text.append(decimal_text(innings.wickets as u64).as_str());
    assert(text@ =~= old(text)@ + score_of(innings@));
}

/// A side and its score.
fn side_score_text(team: &str, innings: &InningsScore) -> (text: String)
    ensures
        text@ == side_score(team@, innings@),
{
    let mut text = String::from_str(team);
    text.append(" ");
    push_score(&mut text, innings);
    assert(text@ =~= side_score(team@, innings@));
    text
}

/// A side and the scores of its two innings.
fn side_scores_text(team: &str, first: &InningsScore, second: &InningsScore) -> (text: String)
    ensures
        text@ == side_scores(team@, first@, second@),
{
    let mut text = side_score_text(team, first);
    text.append(" & ");
    push_score(&mut text, second);
    assert(text@ =~= side_scores(team@, first@, second@));
    text
}

/// Sets the overs of the innings in play and the run rate behind `text`.
fn push_progress(text: &mut String, innings: &InningsScore, run_rate: &str)
    ensures
        final(text)@ == old(text)@ + progress_of(innings@, run_rate@),
{
    text.append(" (");
    text.append(innings.overs.as_str());
    text.append(") CRR: ");
    text.append(run_rate);
    assert(text@ =~= old(text)@ + progress_of(innings@, run_rate@));
}

/// Sets the mark of a declared innings and its overs behind `text`.
fn push_declared(text: &mut String, innings: &InningsScore)
    ensures
        final(text)@ == old(text)@ + declared_of(innings@),
{
    text.append(" d (");
    text.append(innings.overs.as_str());
    text.append(")");
    assert(text@ =~= old(text)@ + declared_of(innings@));
}

/// The line of the first innings of a match.
fn first_innings(innings: &InningsScore, run_rate: &str, declared: bool) -> (lines: Vec<Line>)
    ensures
        lines.deep_view() == first_innings_lines(innings@, run_rate@, declared),
{
    let mut text = side_score_text(innings.bat_team_name.as_str(), innings);
    if declared && innings.is_declared {
        push_declared(&mut text, innings);
    } else {
        push_progress(&mut text, innings, run_rate);
    }
    let mut lines: Vec<Line> = Vec::new();
    lines.push(Line { text, style: LineStyle::Bold });
    assert(lines.deep_view() =~= first_innings_lines(innings@, run_rate@, declared));
    lines
}

/// The lines of the second innings of a match.
fn second_innings(innings: &Vec<InningsScore>, sides: &TeamInfo, run_rate: &str) -> (lines: Option<
    Vec<Line>,
>)
    ensures
        lines.deep_view() == second_innings_lines(innings.deep_view(), sides@, run_rate@),
{
    let batting = match find_innings(innings, sides.batting_team_short_name.as_str(), 0) {
        Some(i) => &innings[i],
        None => {
            return None;
        },
    };
    let bowling = match find_innings(innings, sides.bowling_team_short_name.as_str(), 0) {
        Some(i) => &innings[i],
        None => {
            return None;
        },
    };
    let mut first = side_score_text(sides.batting_team_short_name.as_str(), batting);
    push_progress(&mut first, batting, run_rate);
    let second = side_score_text(sides.bowling_team_short_name.as_str(), bowling);
    let mut lines: Vec<Line> = Vec::new();
    lines.push(Line { text: first, style: LineStyle::Bold });
    lines.push(Line { text: second, style: LineStyle::Faded });
    assert(lines.deep_view() =~= second_innings_lines(
        innings.deep_view(),
        sides@,
        run_rate@,
    )->0);
    Some(lines)
}

/// The lines of the third innings of a match.
fn third_innings(innings: &Vec<InningsScore>, sides: &TeamInfo, run_rate: &str) -> (lines: Option<
    Vec<Line>,
>)
    ensures
        lines.deep_view() == third_innings_lines(innings.deep_view(), sides@, run_rate@),
{
    let first = match find_innings(innings, sides.batting_team_short_name.as_str(), 0) {
        Some(i) => &innings[i],
        None => {
            return None;
        },
    };
    let second = match find_innings(innings, sides.batting_team_short_name.as_str(), 1) {
        Some(i) => &innings[i],
        None => {
            return None;
        },
    };
    let bowling = match find_innings(innings, sides.bowling_team_short_name.as_str(), 0) {
        Some(i) => &innings[i],
        None => {
            return None;
        },
    };
    let mut batting_text = side_scores_text(sides.batting_team_short_name.as_str(), first, second);
    push_progress(&mut batting_text, second, run_rate);
    let bowling_text = side_score_text(sides.bowling_team_short_name.as_str(), bowling);
    let mut lines: Vec<Line> = Vec::new();
    lines.push(Line { text: batting_text, style: LineStyle::Bold });
    lines.push(Line { text: bowling_text, style: LineStyle::Faded });
    assert(lines.deep_view() =~= third_innings_lines(innings.deep_view(), sides@, run_rate@)->0);
    Some(lines)
}

/// The lines of the fourth innings of a match.
fn fourth_innings(innings: &Vec<InningsScore>, sides: &TeamInfo) -> (lines: Option<Vec<Line>>)
    ensures
        lines.deep_view() == fourth_innings_lines(innings.deep_view(), sides@),
{
    let first = match find_innings(innings, sides.batting_team_short_name.as_str(), 0) {
        Some(i) => &innings[i],
        None => {
            return None;
        },
    };
    let second = match find_innings(innings, sides.batting_team_short_name.as_str(), 1) {
        Some(i) => &innings[i],
        None => {
            return None;
        },
    };
    let bowled_first = match find_innings(innings, sides.bowling_team_short_name.as_str(), 0) {
        Some(i) => &innings[i],
        None => {
            return None;
        },
    };
    let bowled_second = match find_innings(innings, sides.bowling_team_short_name.as_str(), 1) {
        Some(i) => &innings[i],
        None => {
            return None;
        },
    };
    let batting_text = side_scores_text(sides.batting_team_short_name.as_str(), first, second);
    let bowling_text = side_scores_text(
        sides.bowling_team_short_name.as_str(),
        bowled_first,
        bowled_second,
    );
    let mut lines: Vec<Line> = Vec::new();
    lines.push(Line { text: batting_text, style: LineStyle::Bold });
    lines.push(Line { text: bowling_text, style: LineStyle::Faded });
    assert(lines.deep_view() =~= fourth_innings_lines(innings.deep_view(), sides@)->0);
    Some(lines)
}

/// Builds the score summary of a match in which a side bats twice.
pub fn test_match_summary(innings: &Vec<InningsScore>, teams: &Vec<TeamInfo>, run_rate: &str) -> (lines:
    Option<Vec<Line>>)
    ensures
        lines.deep_view() == test_summary_lines(
            innings.deep_view(),
            teams.deep_view(),
            run_rate@,
        ),
{
    let count = innings.len();
    if count == 1 {
        Some(first_innings(&innings[0], run_rate, true))
    } else if count == 2 {
        if teams.len() <= 1 {
            None
        } else {
            second_innings(innings, &teams[1], run_rate)
        }
    } else if count == 3 {
        if teams.len() <= 2 {
            None
        } else {
            third_innings(innings, &teams[2], run_rate)
        }
    } else if teams.len() <= 3 {
        None
    } else {
        fourth_innings(innings, &teams[3])
    }
}

/// Builds the score summary of a match of limited overs.
pub fn limited_overs_match_summary(
    innings: &Vec<InningsScore>,
    teams: &Vec<TeamInfo>,
    run_rate: &str,
) -> (lines: Option<Vec<Line>>)
    ensures
        lines.deep_view() == limited_overs_summary_lines(
            innings.deep_view(),
            teams.deep_view(),
            run_rate@,
        ),
{
    let count = innings.len();
    if count == 1 {
        Some(first_innings(&innings[0], run_rate, false))
    } else if count == 2 {
        if teams.len() <= 1 {
            None
        } else {
            second_innings(innings, &teams[1], run_rate)
        }
    } else {
        let lines: Vec<Line> = Vec::new();
        assert(lines.deep_view() =~= Seq::<LineView>::empty());
        Some(lines)
    }
}

/// Builds the summary of a match: the score lines that its format asks for
/// and, behind them, the line that tells how the match stands.
pub fn match_summary(
    format: &str,
    innings: &Vec<InningsScore>,
    teams: &Vec<TeamInfo>,
    run_rate: &str,
    status: &str,
) -> (lines: Option<Vec<Line>>)
    ensures
        lines.deep_view() == summary_lines(
            format@,
            innings.deep_view(),
            teams.deep_view(),
            run_rate@,
            status@,
        ),
{
    let scores = if same_text(format, TEST_FORMAT) {
        test_match_summary(innings, teams, run_rate)
    } else if same_text(format, ODI_FORMAT) || same_text(format, T20_FORMAT) {
        limited_overs_match_summary(innings, teams, run_rate)
    } else {
        let none: Vec<Line> = Vec::new();
        assert(none.deep_view() =~= Seq::<LineView>::empty());
        Some(none)
    };
    match scores {
        Some(mut lines) => {
            let ghost before = lines.deep_view();
            lines.push(Line { text: String::from_str(status), style: LineStyle::Status });
            assert(lines.deep_view() =~= before.push(status_line(status@)));
            Some(lines)
        },
        None => None,
    }
}

} // verus!
