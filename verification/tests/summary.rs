use cricket_rs::report::{Line, LineStyle};
use cricket_rs::summary::{
    find_innings, limited_overs_match_summary, match_summary, test_match_summary, InningsScore,
    TeamInfo,
};

fn innings(team: &str, score: u32, wickets: u32, overs: &str, declared: bool) -> InningsScore {
    InningsScore {
        bat_team_name: team.to_string(),
        score,
        wickets,
        overs: overs.to_string(),
        is_declared: declared,
    }
}

fn sides(batting: &str, bowling: &str) -> TeamInfo {
    TeamInfo {
        batting_team_short_name: batting.to_string(),
        bowling_team_short_name: bowling.to_string(),
    }
}

fn bold(text: &str) -> Line {
    Line { text: text.to_string(), style: LineStyle::Bold }
}

fn faded(text: &str) -> Line {
    Line { text: text.to_string(), style: LineStyle::Faded }
}

fn status(text: &str) -> Line {
    Line { text: text.to_string(), style: LineStyle::Status }
}

fn test_teams() -> Vec<TeamInfo> {
    vec![sides("ENG", "NZ"), sides("NZ", "ENG"), sides("ENG", "NZ"), sides("NZ", "ENG")]
}

#[test]
fn find_innings_counts_the_innings_of_a_side() {
    let list = vec![
        innings("NZ", 378, 10, "122.4", false),
        innings("ENG", 275, 10, "101.1", false),
        innings("NZ", 169, 6, "52.3", true),
        innings("ENG", 170, 3, "70", false),
    ];
    assert_eq!(find_innings(&list, "NZ", 0), Some(0));
    assert_eq!(find_innings(&list, "NZ", 1), Some(2));
    assert_eq!(find_innings(&list, "NZ", 2), None);
    assert_eq!(find_innings(&list, "ENG", 0), Some(1));
    assert_eq!(find_innings(&list, "ENG", 1), Some(3));
    assert_eq!(find_innings(&list, "IND", 0), None);
    assert_eq!(find_innings(&list, "eng", 0), None);
    assert_eq!(find_innings(&vec![], "ENG", 0), None);
    assert_eq!(find_innings(&list, "ENG", usize::MAX), None);
}

#[test]
fn test_summary_of_the_first_innings() {
    let list = vec![innings("NZ", 246, 3, "86", false)];
    assert_eq!(
        test_match_summary(&list, &vec![], "2.86"),
        Some(vec![bold("NZ 246/3 (86) CRR: 2.86")])
    );
    let declared = vec![innings("NZ", 378, 9, "122.4", true)];
    assert_eq!(
        test_match_summary(&declared, &test_teams(), "3.08"),
        Some(vec![bold("NZ 378/9 d (122.4)")])
    );
}

#[test]
fn test_summary_of_the_second_innings() {
    let list = vec![innings("NZ", 378, 10, "122.4", false), innings("ENG", 111, 2, "43", false)];
    let teams = vec![sides("NZ", "ENG"), sides("ENG", "NZ")];
    assert_eq!(
        test_match_summary(&list, &teams, "2.58"),
        Some(vec![bold("ENG 111/2 (43) CRR: 2.58"), faded("NZ 378/10")])
    );
    assert_eq!(test_match_summary(&list, &vec![sides("NZ", "ENG")], "2.58"), None);
    assert_eq!(test_match_summary(&list, &vec![sides("NZ", "ENG"), sides("ENG", "IND")], "2.58"), None);
    assert_eq!(test_match_summary(&list, &vec![sides("NZ", "ENG"), sides("IND", "NZ")], "2.58"), None);
}

#[test]
fn test_summary_of_the_third_innings() {
    let list = vec![
        innings("NZ", 378, 10, "122.4", false),
        innings("ENG", 275, 10, "101.1", false),
        innings("NZ", 62, 2, "30", false),
    ];
    let teams = vec![sides("NZ", "ENG"), sides("ENG", "NZ"), sides("NZ", "ENG")];
    assert_eq!(
        test_match_summary(&list, &teams, "2.07"),
        Some(vec![bold("NZ 378/10 & 62/2 (30) CRR: 2.07"), faded("ENG 275/10")])
    );
    assert_eq!(test_match_summary(&list, &teams[..2].to_vec(), "2.07"), None);
    let follow_on = vec![sides("NZ", "ENG"), sides("ENG", "NZ"), sides("ENG", "NZ")];
    assert_eq!(test_match_summary(&list, &follow_on, "2.07"), None);
}

#[test]
fn test_summary_of_the_fourth_innings() {
    let list = vec![
        innings("NZ", 378, 10, "122.4", false),
        innings("ENG", 275, 10, "101.1", false),
        innings("NZ", 169, 6, "52.3", true),
        innings("ENG", 170, 3, "70", false),
    ];
    assert_eq!(
        test_match_summary(&list, &test_teams(), "2.43"),
        Some(vec![bold("NZ 378/10 & 169/6"), faded("ENG 275/10 & 170/3")])
    );
    assert_eq!(test_match_summary(&list, &test_teams()[..3].to_vec(), "2.43"), None);
    assert_eq!(test_match_summary(&list[..3].to_vec(), &test_teams(), "2.43"), None);

    let mut five = list.clone();
    five.push(innings("IND", 1, 0, "0.1", false));
    assert_eq!(
        test_match_summary(&five, &test_teams(), "2.43"),
        Some(vec![bold("NZ 378/10 & 169/6"), faded("ENG 275/10 & 170/3")])
    );
    assert_eq!(test_match_summary(&vec![], &test_teams(), "0"), None);
    assert_eq!(test_match_summary(&vec![], &vec![], "0"), None);
}

#[test]
fn limited_overs_summary_by_the_innings() {
    let first = vec![innings("BAN", 257, 6, "50", true)];
    assert_eq!(
        limited_overs_match_summary(&first, &vec![], "5.14"),
        Some(vec![bold("BAN 257/6 (50) CRR: 5.14")])
    );
    let second = vec![innings("BAN", 257, 6, "50", false), innings("SL", 224, 10, "48.1", false)];
    let teams = vec![sides("BAN", "SL"), sides("SL", "BAN")];
    assert_eq!(
        limited_overs_match_summary(&second, &teams, "4.65"),
        Some(vec![bold("SL 224/10 (48.1) CRR: 4.65"), faded("BAN 257/6")])
    );
    assert_eq!(limited_overs_match_summary(&second, &teams[..1].to_vec(), "4.65"), None);
    assert_eq!(limited_overs_match_summary(&second, &vec![teams[0].clone(), sides("SL", "IND")], "4.65"), None);
    assert_eq!(limited_overs_match_summary(&vec![], &teams, "0"), Some(vec![]));
    let mut third = second.clone();
    third.push(innings("BAN", 1, 0, "0.1", false));
    assert_eq!(limited_overs_match_summary(&third, &teams, "0"), Some(vec![]));
}

#[test]
fn summary_by_the_format_of_the_match() {
    let list = vec![innings("BAN", 257, 6, "50", true)];
    assert_eq!(
        match_summary("TEST", &list, &vec![], "5.14", "Day 1: Stumps"),
        Some(vec![bold("BAN 257/6 d (50)"), status("Day 1: Stumps")])
    );
    for format in ["ODI", "T20"] {
        assert_eq!(
            match_summary(format, &list, &vec![], "5.14", "Innings Break"),
            Some(vec![bold("BAN 257/6 (50) CRR: 5.14"), status("Innings Break")])
        );
    }
    for format in ["", "test", "T10", "HUN", "ODI "] {
        assert_eq!(
            match_summary(format, &list, &vec![], "5.14", "Bangladesh opt to bat"),
            Some(vec![status("Bangladesh opt to bat")])
        );
    }
    assert_eq!(match_summary("TEST", &vec![], &vec![], "0", "No play"), None);
    assert_eq!(match_summary("ODI", &vec![], &vec![], "0", ""), Some(vec![status("")]));
}

#[test]
fn summary_shows_what_the_formats_write() {
    let list = vec![
        innings("NZ", 4294967295, 0, "122.4", false),
        innings("ENG", 0, 10, "101.1", false),
        innings("NZ", 62, 2, "30", false),
    ];
    let teams = vec![sides("NZ", "ENG"), sides("ENG", "NZ"), sides("NZ", "ENG")];
    let lines = test_match_summary(&list, &teams, "2.07").unwrap();
    assert_eq!(
        lines[0].text,
        format!(
            "{} {}/{} & {}/{} ({}) CRR: {}",
            "NZ", list[0].score, list[0].wickets, list[2].score, list[2].wickets, list[2].overs, "2.07"
        )
    );
    assert_eq!(lines[1].text, format!("{} {}/{}", "ENG", list[1].score, list[1].wickets));
}
