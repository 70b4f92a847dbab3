//! Following matches from one poll to the next: match numbers as the site
//! writes them, and the matches that a new listing no longer holds.

use vstd::prelude::*;
use vstd::string::*;
use crate::text::{chars_of, decimal, decimal_text, same_text};

verus! {

/// Whether `c` is a decimal digit.
pub open spec fn is_digit(c: char) -> bool {
    0x30 <= c as u32 <= 0x39
}

/// The number that a run of decimal digits writes; none where a character is
/// no digit. The empty run writes zero.
pub open spec fn digits_value(s: Seq<char>) -> Option<nat>
    decreases s.len(),
{
    if s.len() == 0 {
        Some(0)
    } else if !is_digit(s.last()) {
        None
    } else {
        match digits_value(s.drop_last()) {
            Some(value) => Some(value * 10 + (s.last() as u32 - 0x30) as nat),
            None => None,
        }
    }
}

/// The number within 32 bits that a run of decimal digits writes, where it
/// holds at least one digit.
pub open spec fn digits_number(digits: Seq<char>) -> Option<u32> {
    if digits.len() == 0 {
        None
    } else {
        match digits_value(digits) {
            Some(value) => if value <= u32::MAX {
                Some(value as u32)
            } else {
                None
            },
            None => None,
        }
    }
}

/// The match number that a text writes: decimal digits, at least one, with
/// `+` allowed in front, and a value within 32 bits.
pub open spec fn match_number(text: Seq<char>) -> Option<u32> {
    if text.len() > 0 && text[0] == '+' {
        digits_number(text.skip(1))
    } else {
        digits_number(text)
    }
}

/// Whether the listing names the match with number `id`: an entry holds the
/// number written in decimal as its identifier.
pub open spec fn is_listed(live: Seq<(Seq<char>, Seq<char>)>, id: u32) -> bool {
    exists|k: int| 0 <= k < live.len() && (#[trigger] live[k]).1 == decimal(id as nat)
}

/// The positions, in rising order, of the known matches that the listing
/// does not name.
pub open spec fn ended_positions(known: Seq<u32>, live: Seq<(Seq<char>, Seq<char>)>) -> Seq<usize>
    decreases known.len(),
{
    if known.len() == 0 {
        Seq::empty()
    } else {
        let before = ended_positions(known.drop_last(), live);
        if is_listed(live, known.last()) {
            before
        } else {
            before.push((known.len() - 1) as usize)
        }
    }
}

/// The value of a run of digits is no less than the value of any run that it
/// starts with.
pub proof fn lemma_digits_value_grows(s: Seq<char>, k: int)
    requires
        0 <= k <= s.len(),
        digits_value(s) is Some,
    ensures
        digits_value(s.take(k)) is Some,
        digits_value(s.take(k))->0 <= digits_value(s)->0,
    decreases s.len() - k,
{
    if k == s.len() {
        assert(s.take(k) =~= s);
    } else {
        lemma_digits_value_grows(s.drop_last(), k);
        assert(s.drop_last().take(k) =~= s.take(k));
    }
}

/// Writes a match number as the site writes it in link targets: in decimal.
pub fn match_id_text(id: u32) -> (text: String)
    ensures
        text@ == decimal(id as nat),
{
    decimal_text(id as u64)
}

/// Reads the match number that an identifier writes.
pub fn parse_match_id(id: &str) -> (number: Option<u32>)
    ensures
        number == match_number(id@),
{
    let chars = chars_of(id);
    let start: usize = if chars.len() > 0 && chars[0] == '+' {
        1
    } else {
        0
    };
    let ghost digits = chars@.skip(start as int);
    proof {
        if start == 0 {
            assert(digits =~= id@);
        }
    }
    assert(match_number(id@) == digits_number(digits));
    if start == chars.len() {
        return None;
    }
    let mut value: u64 = 0;
    let mut i: usize = start;
    assert(digits.take(0) =~= Seq::empty());
    while i < chars.len()
        invariant
            start <= i <= chars.len(),
            start < chars.len(),
            digits == chars@.skip(start as int),
            match_number(id@) == digits_number(digits),
            digits_value(digits.take(i - start)) == Some(value as nat),
            value <= u32::MAX,
        decreases chars.len() - i,
    {
        let c = chars[i];
        let code: u32 = c as u32;
        let ghost upto = digits.take(i - start + 1);
        proof {
            assert(upto.drop_last() =~= digits.take(i - start));
            assert(upto.last() == c);
        }
        if code < 0x30 || code > 0x39 {
            proof {
                assert(digits_value(upto) is None);
                if digits_value(digits) is Some {
                    lemma_digits_value_grows(digits, i - start + 1);
                }
            }
            return None;
        }
        value = value * 10 + (code - 0x30) as u64;
        proof {
            assert(digits_value(upto) == Some(value as nat));
        }
        if value > u32::MAX as u64 {
            proof {
                if digits_value(digits) is Some {
                    lemma_digits_value_grows(digits, i - start + 1);
                }
            }
            return None;
        }
        i += 1;
    }
    assert(digits.take(i - start) =~= digits);
    Some(value as u32)
}

/// Whether the listing names the match with number `id`.
pub fn names_match(live: &Vec<(String, String)>, id: u32) -> (listed: bool)
    ensures
        listed == is_listed(live.deep_view(), id),
{
    let text = match_id_text(id);
    let mut k: usize = 0;
    while k < live.len()
        invariant
            k <= live.len(),
            text@ == decimal(id as nat),
            forall|j: int| 0 <= j < k ==> (#[trigger] live.deep_view()[j]).1 != decimal(id as nat),
        decreases live.len() - k,
    {
        if same_text(live[k].1.as_str(), text.as_str()) {
            assert(live.deep_view()[k as int].1 == decimal(id as nat));
            return true;
        }
        k += 1;
    }
    false
}

/// The positions, in rising order, of the known matches that have gone from
/// the listing of live matches.
pub fn ended_matches(known: &Vec<u32>, live: &Vec<(String, String)>) -> (ended: Vec<usize>)
    ensures
        ended@ == ended_positions(known@, live.deep_view()),
{
    let mut ended: Vec<usize> = Vec::new();
    let mut i: usize = 0;
    assert(known@.take(0) =~= Seq::empty());
    while i < known.len()
        invariant
            i <= known.len(),
            ended@ == ended_positions(known@.take(i as int), live.deep_view()),
        decreases known.len() - i,
    {
        proof {
            assert(known@.take(i + 1).drop_last() =~= known@.take(i as int));
        }
        if !names_match(live, known[i]) {
            ended.push(i);
        }
        i += 1;
    }
    assert(known@.take(known.len() as int) =~= known@);
    ended
}

} // verus!
