//! Scraping of live cricket matches and their scorecards out of HTML pages,
//! with the extraction rules stated as contracts and proved.
//!
//! - [`pages`] reads a listing page and a scorecard page. It parses the page
//!   once, hands what it finds to the rules below, and states exactly what
//!   comes out in terms of what the parser and selector engine yield.
//! - [`listing`] holds the rules that pick the live matches out of the
//!   anchors of the match menu.
//! - [`scorecard`] holds the records of an innings and the rule that tells a
//!   batting row from a bowling row by the number of its cells.
//! - [`report`] sets a scorecard in lines of text.
//! - [`summary`] sums up the score of a match in a few lines.
//! - [`tracker`] follows matches from one poll to the next.
//! - [`ui`] keeps the focus and scroll state of the tabbed view.
//! - [`text`] holds the string helpers that the rules are built on.
//! - [`dom`] is the boundary to the HTML parser and selector engine: the only
//!   place whose contracts are taken on trust.

pub mod dom;
pub mod listing;
pub mod pages;
pub mod report;
pub mod scorecard;
pub mod summary;
pub mod text;
pub mod tracker;
pub mod ui;
