use cricket_rs::report::{format_scorecard_info, pad_right, Line, LineStyle};
use cricket_rs::scorecard::{BatsmanInfo, BowlerInfo, MatchInningsInfo};
use cricket_rs::text::decimal_text;

fn batsman(tag: &str) -> BatsmanInfo {
    BatsmanInfo {
        name: format!("Batsman {}", tag),
        status: format!("c Fielder b Bowler {}", tag),
        runs: "101".to_string(),
        balls: "98".to_string(),
        fours: "12".to_string(),
        sixes: "3".to_string(),
        strike_rate: "103.06".to_string(),
    }
}

fn bowler(tag: &str) -> BowlerInfo {
    BowlerInfo {
        name: format!("Bowler {}", tag),
        overs: "9.5".to_string(),
        maidens: "1".to_string(),
        runs: "43".to_string(),
        wickets: "2".to_string(),
        no_balls: "0".to_string(),
        wides: "4".to_string(),
        economy: "4.40".to_string(),
    }
}

fn innings(batsmen: &[&str], bowlers: &[&str]) -> MatchInningsInfo {
    MatchInningsInfo {
        batsman_details: batsmen.iter().map(|tag| batsman(tag)).collect(),
        yet_to_bat: String::new(),
        bowler_details: bowlers.iter().map(|tag| bowler(tag)).collect(),
    }
}

fn line(text: String, style: LineStyle) -> Line {
    Line { text, style }
}

fn expected(scorecard: &[MatchInningsInfo]) -> Vec<Line> {
    let mut text = vec![];
    for (ino, info) in scorecard.iter().enumerate().rev() {
        text.push(line(format!("Innings {}", ino + 1), LineStyle::Title));
        text.push(line(String::new(), LineStyle::Plain));
        text.push(line(
            format!(
                "{:<30} {:<60} {:<3} {:<3} {:<2} {:<2} {:<6}",
                "Batsman", "", "R", "B", "4s", "6s", "SR"
            ),
            LineStyle::Bold,
        ));
        for b in &info.batsman_details {
            text.push(line(
                format!(
                    "{:<30} {:<60} {:<3} {:<3} {:<2} {:<2} {:<6}",
                    b.name, b.status, b.runs, b.balls, b.fours, b.sixes, b.strike_rate
                ),
                LineStyle::Plain,
            ));
        }
        text.push(line(String::new(), LineStyle::Plain));
        text.push(line(
            format!(
                "{:<30} {:<5} {:<3} {:<3} {:<2} {:<2} {:<2} {:<6}",
                "Bowler", "O", "M", "R", "W", "NB", "WD", "ECO"
            ),
            LineStyle::Bold,
        ));
        for b in &info.bowler_details {
            text.push(line(
                format!(
                    "{:<30} {:<5} {:<3} {:<3} {:<2} {:<2} {:<2} {:<6}",
                    b.name, b.overs, b.maidens, b.runs, b.wickets, b.no_balls, b.wides, b.economy
                ),
                LineStyle::Plain,
            ));
        }
        text.push(line(String::new(), LineStyle::Plain));
    }
    text
}

#[test]
fn pad_right_fills_up_with_spaces() {
    assert_eq!(pad_right("ab", 5), "ab   ");
    assert_eq!(pad_right("", 3), "   ");
    assert_eq!(pad_right("abc", 3), "abc");
    assert_eq!(pad_right("abcd", 3), "abcd");
    assert_eq!(pad_right("abcd", 0), "abcd");
    assert_eq!(pad_right("", 0), "");
    assert_eq!(pad_right("né", 4), "né  ");
    for sample in ["", "a", "Tamim Iqbal (c)", "日本", "ünï", "exactly thirty characters long!"] {
        for width in [0usize, 1, 2, 3, 6, 30, 60] {
            assert_eq!(pad_right(sample, width), format!("{:<1$}", sample, width));
        }
    }
}

#[test]
fn decimal_text_is_what_std_writes() {
    for n in [0u64, 1, 4, 9, 10, 19, 100, 12345, 4294967296, u64::MAX] {
        assert_eq!(decimal_text(n), n.to_string());
    }
}

#[test]
fn scorecard_of_no_innings_has_no_lines() {
    assert_eq!(format_scorecard_info(&vec![]), vec![]);
}

#[test]
fn scorecard_lines_of_one_innings() {
    let scorecard = vec![innings(&["A", "B"], &["X"])];
    let lines = format_scorecard_info(&scorecard);
    assert_eq!(lines.len(), 9);
    assert_eq!(lines[0], line("Innings 1".to_string(), LineStyle::Title));
    assert_eq!(lines[1], line(String::new(), LineStyle::Plain));
    assert_eq!(lines[2].style, LineStyle::Bold);
    assert_eq!(
        lines[2].text,
        "Batsman                                                                                     R   B   4s 6s SR    "
    );
    assert_eq!(
        lines[3].text,
        "Batsman A                      c Fielder b Bowler A                                         101 98  12 3  103.06"
    );
    assert_eq!(lines[5], line(String::new(), LineStyle::Plain));
    assert_eq!(lines[6].text, "Bowler                         O     M   R   W  NB WD ECO   ");
    assert_eq!(lines[7].text, "Bowler X                       9.5   1   43  2  0  4  4.40  ");
    assert_eq!(lines[8], line(String::new(), LineStyle::Plain));
    assert_eq!(lines, expected(&scorecard));
}

#[test]
fn scorecard_lines_show_the_latest_innings_first() {
    let scorecard = vec![
        innings(&["A", "B", "C"], &["X", "Y"]),
        innings(&[], &[]),
        innings(&["D"], &[]),
        innings(&[], &["Z"]),
    ];
    let lines = format_scorecard_info(&scorecard);
    let titles: Vec<&str> = lines
        .iter()
        .filter(|l| l.style == LineStyle::Title)
        .map(|l| l.text.as_str())
        .collect();
    assert_eq!(titles, vec!["Innings 4", "Innings 3", "Innings 2", "Innings 1"]);
    assert_eq!(lines, expected(&scorecard));
    assert_eq!(lines.len(), 4 * 6 + 7);
}

#[test]
fn scorecard_lines_keep_long_fields_whole() {
    let mut long = innings(&["A"], &["X"]);
    long.batsman_details[0].name = "A batsman whose name is longer than thirty characters".to_string();
    long.batsman_details[0].runs = "<b>1000</b>".to_string();
    long.bowler_details[0].economy = "12.345678".to_string();
    let scorecard = vec![long; 12];
    let lines = format_scorecard_info(&scorecard);
    assert_eq!(lines, expected(&scorecard));
    assert_eq!(lines[0].text, "Innings 12");
}
