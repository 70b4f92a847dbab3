//! The rules that pick the live matches out of the anchors of a listing
//! page's match menu.
//!
//! An anchor names a live match when what follows the first hyphen of its
//! text is the status `Live`, and the path of its link target has a third
//! segment, which is the match identifier.

use vstd::prelude::*;
use vstd::string::*;
use crate::text::{
    after_first, first_index_of, is_white_space, last_index_of, lemma_first_index_of_is_first,
    lemma_last_index_of, lemma_trimmed_keeps, nth_segment, rest_after_first, same_text, segment,
    strip_leading, trim, trimmed, without_leading,
};

verus! {

/// The text of the anchor that heads the match menu.
pub const MENU_HEADER: &'static str = "MATCHES";

/// The status of a match that is being played.
pub const LIVE_STATUS: &'static str = "Live";

/// What is read from one anchor of the match menu.
#[derive(Debug, Clone, PartialEq, Eq)]
pub struct Anchor {
    /// The text below the anchor, as a reader of the page sees it
    pub text: String,
    /// The link target, where the anchor has one
    pub href: Option<String>,
}

/// An anchor as the contracts see it.
pub struct AnchorView {
    pub text: Seq<char>,
    pub href: Option<Seq<char>>,
}

impl View for Anchor {
    type V = AnchorView;

    open spec fn view(&self) -> AnchorView {
        AnchorView { text: self.text@, href: self.href.deep_view() }
    }
}

impl DeepView for Anchor {
    type V = AnchorView;

    open spec fn deep_view(&self) -> AnchorView {
        self@
    }
}

/// The status that a match name carries: what follows its first hyphen,
/// trimmed. A name without a hyphen carries none.
pub open spec fn status_of(name: Seq<char>) -> Option<Seq<char>> {
    match after_first(name, '-') {
        Some(suffix) => Some(trimmed(suffix)),
        None => None,
    }
}

/// The path of a link target, cut at slashes into its segments: the slash
/// that a link target begins with opens the first segment and leaves no
/// empty segment before it.
pub open spec fn path_segment(href: Seq<char>, n: nat) -> Option<Seq<char>> {
    segment(without_leading(href, '/'), '/', n)
}

/// The match identifier in a link target: the third segment of its path. A
/// path of fewer than three segments holds none.
pub open spec fn match_id_of(href: Seq<char>) -> Option<Seq<char>> {
    path_segment(href, 2)
}

/// The name and identifier of the live match that an anchor names, if it
/// names one.
pub open spec fn live_entry(anchor: AnchorView) -> Option<(Seq<char>, Seq<char>)> {
    let name = trimmed(anchor.text);
    if name.len() == 0 || name == MENU_HEADER@ {
        None
    } else if status_of(name) != Some(LIVE_STATUS@) {
        None
    } else {
        match anchor.href {
            None => None,
            Some(href) => match match_id_of(href) {
                None => None,
                Some(id) => Some((name, id)),
            },
        }
    }
}

/// The live matches that the anchors name, in the order of the anchors.
pub open spec fn live_entries(anchors: Seq<AnchorView>) -> Seq<(Seq<char>, Seq<char>)>
    decreases anchors.len(),
{
    if anchors.len() == 0 {
        Seq::empty()
    } else {
        let before = live_entries(anchors.drop_last());
        match live_entry(anchors.last()) {
            Some(entry) => before.push(entry),
            None => before,
        }
    }
}

/// Whether a match name ends in a piece, set off by a hyphen, that is the
/// status `Live`.
pub open spec fn ends_in_live(name: Seq<char>) -> bool {
    let cut = last_index_of(name, '-');
    cut >= 0 && trimmed(name.skip(cut + 1)) == LIVE_STATUS@
}

/// A match name whose status is `Live` holds one hyphen only, and ends in
/// the piece behind it.
pub proof fn lemma_live_status_is_last_piece(name: Seq<char>)
    requires
        status_of(name) == Some(LIVE_STATUS@),
    ensures
        ends_in_live(name),
        last_index_of(name, '-') == first_index_of(name, '-'),
{
    reveal_strlit("Live");
    lemma_first_index_of_is_first(name, '-');
    let cut = first_index_of(name, '-');
    let suffix = name.skip(cut + 1);
    let live = LIVE_STATUS@;
    assert(!is_white_space('-'));
    if suffix.contains('-') {
        lemma_trimmed_keeps(suffix, '-');
        let i = choose|i: int| 0 <= i < live.len() && live[i] == '-';
        assert(live[i] != '-');
    }
    assert forall|j: int| cut < j < name.len() implies #[trigger] name[j] != '-' by {
        assert(suffix[j - cut - 1] == name[j]);
        assert(!suffix.contains('-'));
    }
    lemma_last_index_of(name, '-', cut);
}

/// Only a match with the status `Live` is listed: an anchor whose trimmed
/// text does not end in a hyphen-separated `Live` piece names no live match.
pub proof fn lemma_not_ending_in_live_is_excluded(anchor: AnchorView)
    ensures
        !ends_in_live(trimmed(anchor.text)) ==> live_entry(anchor) is None,
{
    let name = trimmed(anchor.text);
    if status_of(name) == Some(LIVE_STATUS@) {
        lemma_live_status_is_last_piece(name);
    }
}

/// The anchor that heads the menu names no match, whatever its link target.
pub proof fn lemma_menu_header_is_excluded(anchor: AnchorView)
    requires
        anchor.text == MENU_HEADER@ || trimmed(anchor.text) == MENU_HEADER@,
    ensures
        live_entry(anchor) is None,
{
    reveal_strlit("MATCHES");
    let header = MENU_HEADER@;
    assert(header.len() == 7);
    assert(header.first() == 'M');
    assert(header.last() == 'S');
    assert(trimmed(header) == header);
}

/// An anchor that names a live match ends in the status `Live` and has a
/// link target whose path holds a third segment; its entry holds the trimmed
/// text and that segment.
pub proof fn lemma_live_entry_is_live(anchor: AnchorView)
    requires
        live_entry(anchor) is Some,
    ensures
        status_of(trimmed(anchor.text)) == Some(LIVE_STATUS@),
        ends_in_live(trimmed(anchor.text)),
        anchor.href is Some,
        live_entry(anchor) == Some((trimmed(anchor.text), match_id_of(anchor.href->0)->0)),
{
    lemma_live_status_is_last_piece(trimmed(anchor.text));
}

/// The name and identifier of the live match that an anchor names.
pub fn live_match(anchor: &Anchor) -> (entry: Option<(String, String)>)
    ensures
        entry.deep_view() == live_entry(anchor@),
{
    let name = trim(anchor.text.as_str());
    if name.is_empty() || same_text(name, MENU_HEADER) {
        return None;
    }
    let status = match rest_after_first(name, '-') {
        Some(suffix) => trim(suffix),
        None => {
            return None;
        },
    };
    if !same_text(status, LIVE_STATUS) {
        return None;
    }
    let href = match &anchor.href {
        Some(href) => href.as_str(),
        None => {
            return None;
        },
    };
    match nth_segment(strip_leading(href, '/'), '/', 2) {
        Some(id) => Some((String::from_str(name), String::from_str(id))),
        None => None,
    }
}

/// Appends to `found` the live matches that the anchors name, in the order
/// of the anchors; two anchors of one match give two entries.
pub fn live_matches(anchors: &Vec<Anchor>, found: &mut Vec<(String, String)>)
    ensures
        final(found).deep_view() == old(found).deep_view() + live_entries(anchors.deep_view()),
{
    let ghost all = anchors.deep_view();
    let ghost start = found.deep_view();
    let mut i: usize = 0;
    assert(found.deep_view() =~= start + live_entries(all.take(0)));
    while i < anchors.len()
        invariant
            i <= anchors.len(),
            all == anchors.deep_view(),
            found.deep_view() == start + live_entries(all.take(i as int)),
        decreases anchors.len() - i,
    {
        let ghost before = found.deep_view();
        proof {
            assert(all.take(i + 1).drop_last() =~= all.take(i as int));
            assert(all.take(i + 1).last() == anchors@[i as int]@);
        }
        match live_match(&anchors[i]) {
            Some(entry) => {
                found.push(entry);
                assert(found.deep_view() =~= before.push(entry.deep_view()));
                assert(found.deep_view() =~= start + live_entries(all.take(i + 1)));
            },
            None => {},
        }
        i += 1;
    }
    assert(all.take(anchors.len() as int) =~= all);
}

} // verus!
