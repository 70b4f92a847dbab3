use cricket_rs::listing::{live_match, live_matches, Anchor, LIVE_STATUS, MENU_HEADER};

fn anchor(text: &str, href: Option<&str>) -> Anchor {
    Anchor { text: text.to_string(), href: href.map(|h| h.to_string()) }
}

fn entry(name: &str, id: &str) -> Option<(String, String)> {
    Some((name.to_string(), id.to_string()))
}

#[test]
fn live_match_reads_name_and_id() {
    assert_eq!(
        live_match(&anchor("KENT vs GLAM - Live", Some("/cricket/live-scores/33238/kent-vs-glam"))),
        entry("KENT vs GLAM - Live", "33238")
    );
    assert_eq!(
        live_match(&anchor("\n\t KENT vs GLAM - Live \u{a0}", Some("x/y/33238"))),
        entry("KENT vs GLAM - Live", "33238")
    );
    assert_eq!(live_match(&anchor("a-Live", Some("/a/b/c"))), entry("a-Live", "c"));
    assert_eq!(live_match(&anchor("-Live", Some("a/b/c/d"))), entry("-Live", "c"));
    assert_eq!(
        live_match(&anchor("a -\u{2003}\n Live\u{3000}\t", Some("/a/b/ 7 /"))),
        entry("a -\u{2003}\n Live", " 7 ")
    );
    assert_eq!(live_match(&anchor("a - Live", Some("/a/b/"))), entry("a - Live", ""));
    assert_eq!(live_match(&anchor("a - Live", Some("//b/c/d"))), entry("a - Live", "c"));
}

#[test]
fn live_match_leaves_out_other_texts() {
    let link = Some("/cricket/live-scores/33238/kent-vs-glam");
    assert_eq!(live_match(&anchor("", link)), None);
    assert_eq!(live_match(&anchor(" \n ", link)), None);
    assert_eq!(live_match(&anchor("MATCHES", link)), None);
    assert_eq!(live_match(&anchor("  MATCHES\n", link)), None);
    assert_eq!(live_match(&anchor("KENT vs GLAM", link)), None);
    assert_eq!(live_match(&anchor("Live", link)), None);
    assert_eq!(live_match(&anchor("KENT vs GLAM - Result", link)), None);
    assert_eq!(live_match(&anchor("KENT vs GLAM - live", link)), None);
    assert_eq!(live_match(&anchor("KENT vs GLAM - Liv e", link)), None);
    assert_eq!(live_match(&anchor("KENT vs GLAM - ", link)), None);
    assert_eq!(live_match(&anchor("KENT-GLAM - Live", link)), None);
    assert_eq!(live_match(&anchor("KENT vs GLAM \u{2013} Live", link)), None);
}

#[test]
fn live_match_leaves_out_a_status_that_is_not_the_end() {
    assert_eq!(live_match(&anchor("X - Live - Y", Some("/m/5/5"))), None);
    assert_eq!(live_match(&anchor("X - Live -", Some("/m/5/5"))), None);
    assert_eq!(live_match(&anchor("X - Live-", Some("/m/5/5"))), None);
    assert_eq!(live_match(&anchor("X - Y - Live", Some("/m/5/5"))), None);
    assert_eq!(live_match(&anchor("X - - Live", Some("/m/5/5"))), None);
    assert_eq!(live_match(&anchor("X - Live", Some("/m/5/5"))), entry("X - Live", "5"));
}

#[test]
fn live_match_needs_a_link_with_three_path_segments() {
    assert_eq!(live_match(&anchor("A vs B - Live", None)), None);
    assert_eq!(live_match(&anchor("A vs B - Live", Some(""))), None);
    assert_eq!(live_match(&anchor("A vs B - Live", Some("/"))), None);
    assert_eq!(live_match(&anchor("A vs B - Live", Some("//"))), None);
    assert_eq!(live_match(&anchor("A vs B - Live", Some("33238"))), None);
    assert_eq!(live_match(&anchor("A vs B - Live", Some("/33238"))), None);
    assert_eq!(live_match(&anchor("A vs B - Live", Some("/a/33238"))), None);
    assert_eq!(live_match(&anchor("A vs B - Live", Some("/live-cricket-scores/"))), None);
    assert_eq!(live_match(&anchor("A vs B - Live", Some("a/33238"))), None);
    assert_eq!(
        live_match(&anchor("A vs B - Live", Some("/cricket/live-scores/33238/a"))),
        entry("A vs B - Live", "33238")
    );
    assert_eq!(live_match(&anchor("A vs B - Live", Some("/a/b/33238"))), entry("A vs B - Live", "33238"));
    assert_eq!(live_match(&anchor("A vs B - Live", Some("a/b/33238"))), entry("A vs B - Live", "33238"));
}

#[test]
fn live_matches_keeps_the_order_of_the_anchors() {
    let anchors = vec![
        anchor("MATCHES", Some("/cricket-match/live-scores/0")),
        anchor("A vs B - Live", Some("/s/t/1/a")),
        anchor("C vs D - Stumps", Some("/s/t/2/c")),
        anchor("E vs F - Live", None),
        anchor("G vs H - Live", Some("/s/t/4/g")),
        anchor("A vs B - Live", Some("/s/t/1/a")),
    ];
    let mut found = vec![("kept".to_string(), "0".to_string())];
    live_matches(&anchors, &mut found);
    let names: Vec<(&str, &str)> = found.iter().map(|(n, i)| (n.as_str(), i.as_str())).collect();
    assert_eq!(
        names,
        vec![("kept", "0"), ("A vs B - Live", "1"), ("G vs H - Live", "4"), ("A vs B - Live", "1")]
    );

    let mut none = vec![];
    live_matches(&vec![], &mut none);
    assert_eq!(none, vec![]);
}

#[test]
fn listing_constants() {
    assert_eq!(MENU_HEADER, "MATCHES");
    assert_eq!(LIVE_STATUS, "Live");
}
