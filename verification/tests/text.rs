use cricket_rs::text::{
    chars_of, is_whitespace_char, nth_segment, rest_after_first, same_text, strip_leading, trim,
    trimmed_copy,
};

const SAMPLES: [&str; 24] = [
    "",
    " ",
    "a",
    " a",
    "a ",
    "  a b  ",
    "\t\n\u{b}\u{c}\r x \u{85}\u{a0}",
    "\u{1680}\u{2000}\u{2001}\u{2002}\u{2003}\u{2004}\u{2005}\u{2006}\u{2007}\u{2008}\u{2009}\u{200a}y",
    "z\u{2028}\u{2029}\u{202f}\u{205f}\u{3000}",
    "\u{200b}not space\u{200b}",
    "\u{feff}bom",
    "KENT vs GLAM - Live",
    "   \n  ",
    "-",
    "--",
    "a-b",
    "a-b-c",
    "-a-",
    "/live-cricket-scores/33238/kent-vs-glam",
    "//",
    "a//b",
    "ünïcödé – dash - Live",
    "日本 - Live",
    "\u{1f3cf} cricket \u{1f3cf}",
];

#[test]
fn whitespace_is_what_std_calls_whitespace() {
    let mut count = 0;
    for code in 0u32..=0x10FFFF {
        if let Some(c) = char::from_u32(code) {
            assert_eq!(is_whitespace_char(c), c.is_whitespace(), "U+{:04X}", code);
            if is_whitespace_char(c) {
                count += 1;
            }
        }
    }
    assert_eq!(count, 25);
}

#[test]
fn trim_is_what_std_trims() {
    for sample in SAMPLES {
        assert_eq!(trim(sample), sample.trim(), "{:?}", sample);
        assert_eq!(trimmed_copy(sample), sample.trim().to_string(), "{:?}", sample);
    }
    assert_eq!(trim("  KENT vs GLAM - Live\n"), "KENT vs GLAM - Live");
    assert_eq!(trim(" \u{3000} "), "");
    assert_eq!(trim("é"), "é");
}

#[test]
fn segments_are_what_std_splits() {
    for sample in SAMPLES {
        for sep in ['-', '/', ' ', 'a', 'é'] {
            for n in 0usize..6 {
                assert_eq!(nth_segment(sample, sep, n), sample.split(sep).nth(n), "{:?} {:?} {}", sample, sep, n);
            }
        }
    }
    assert_eq!(nth_segment("KENT vs GLAM - Live", '-', 1), Some(" Live"));
    assert_eq!(nth_segment("KENT vs GLAM", '-', 1), None);
    assert_eq!(nth_segment("/live-cricket-scores/33238/kent", '/', 2), Some("33238"));
    assert_eq!(nth_segment("", '-', 0), Some(""));
    assert_eq!(nth_segment("", '-', 1), None);
    assert_eq!(nth_segment("a-", '-', 1), Some(""));
    assert_eq!(nth_segment("a-b", '-', usize::MAX), None);
}

#[test]
fn same_text_compares_characters() {
    for a in SAMPLES {
        for b in SAMPLES {
            assert_eq!(same_text(a, b), a == b, "{:?} {:?}", a, b);
        }
    }
    assert!(same_text("Live", "Live"));
    assert!(!same_text("Live", "live"));
    assert!(!same_text("Live", "Live "));
}

#[test]
fn chars_of_lists_the_characters() {
    for sample in SAMPLES {
        let chars: Vec<char> = sample.chars().collect();
        assert_eq!(chars_of(sample), chars);
    }
    assert_eq!(chars_of("a-é"), vec!['a', '-', 'é']);
}

#[test]
fn rest_after_first_is_what_follows_the_first_separator() {
    for sample in SAMPLES {
        for sep in ['-', '/', ' ', 'a', 'é'] {
            assert_eq!(
                rest_after_first(sample, sep),
                sample.split_once(sep).map(|(_, rest)| rest),
                "{:?} {:?}",
                sample,
                sep
            );
        }
    }
    assert_eq!(rest_after_first("KENT vs GLAM - Live", '-'), Some(" Live"));
    assert_eq!(rest_after_first("X - Live - Y", '-'), Some(" Live - Y"));
    assert_eq!(rest_after_first("KENT vs GLAM", '-'), None);
    assert_eq!(rest_after_first("a-", '-'), Some(""));
    assert_eq!(rest_after_first("", '-'), None);
}

#[test]
fn strip_leading_takes_one_leading_character_away() {
    for sample in SAMPLES {
        for lead in ['-', '/', ' ', 'a', 'ü'] {
            assert_eq!(
                strip_leading(sample, lead),
                sample.strip_prefix(lead).unwrap_or(sample),
                "{:?} {:?}",
                sample,
                lead
            );
        }
    }
    assert_eq!(strip_leading("/cricket/live-scores/33238/a", '/'), "cricket/live-scores/33238/a");
    assert_eq!(strip_leading("//a", '/'), "/a");
    assert_eq!(strip_leading("a/b", '/'), "a/b");
    assert_eq!(strip_leading("", '/'), "");
}
