//! Character and string helpers: Unicode whitespace, trimming, and splitting
//! on a separator character.

use vstd::prelude::*;
use vstd::string::*;

verus! {

broadcast use vstd::string::group_string_axioms;

/// Whether `c` has the Unicode `White_Space` property.
pub open spec fn is_white_space(c: char) -> bool {
    let n = c as u32;
    ||| 0x09 <= n <= 0x0D
    ||| n == 0x20
    ||| n == 0x85
    ||| n == 0xA0
    ||| n == 0x1680
    ||| 0x2000 <= n <= 0x200A
    ||| n == 0x2028
    ||| n == 0x2029
    ||| n == 0x202F
    ||| n == 0x205F
    ||| n == 0x3000
}

/// `s` without its leading whitespace.
pub open spec fn trimmed_start(s: Seq<char>) -> Seq<char>
    decreases s.len(),
{
    if s.len() > 0 && is_white_space(s.first()) {
        trimmed_start(s.drop_first())
    } else {
        s
    }
}

/// `s` without its trailing whitespace.
pub open spec fn trimmed_end(s: Seq<char>) -> Seq<char>
    decreases s.len(),
{
    if s.len() > 0 && is_white_space(s.last()) {
        trimmed_end(s.drop_last())
    } else {
        s
    }
}

/// `s` without its leading and trailing whitespace.
pub open spec fn trimmed(s: Seq<char>) -> Seq<char> {
    trimmed_end(trimmed_start(s))
}

/// The position of the first `sep` in `s`, or `s.len()` if there is none.
pub open spec fn first_index_of(s: Seq<char>, sep: char) -> int
    decreases s.len(),
{
    if s.len() == 0 || s.first() == sep {
        0
    } else {
        1 + first_index_of(s.drop_first(), sep)
    }
}

/// The `n`-th piece (counting from 0) of `s` cut at every `sep`, if `s` has
/// that many pieces. A string without `sep` is one piece; an empty string is
/// one empty piece.
pub open spec fn segment(s: Seq<char>, sep: char, n: nat) -> Option<Seq<char>>
    decreases n,
{
    let cut = first_index_of(s, sep);
    if n == 0 {
        Some(s.take(cut))
    } else if cut >= s.len() {
        None
    } else {
        segment(s.skip(cut + 1), sep, (n - 1) as nat)
    }
}

/// What follows the first `sep` in `s`; none where `s` holds no `sep`.
pub open spec fn after_first(s: Seq<char>, sep: char) -> Option<Seq<char>> {
    let cut = first_index_of(s, sep);
    if cut >= s.len() {
        None
    } else {
        Some(s.skip(cut + 1))
    }
}

/// `s` without the one `lead` that it begins with; `s` itself where it does
/// not begin with `lead`.
pub open spec fn without_leading(s: Seq<char>, lead: char) -> Seq<char> {
    if s.len() > 0 && s[0] == lead {
        s.skip(1)
    } else {
        s
    }
}

/// The position of the last `sep` in `s`, or -1 if there is none.
pub open spec fn last_index_of(s: Seq<char>, sep: char) -> int
    decreases s.len(),
{
    if s.len() == 0 {
        -1
    } else if s.last() == sep {
        s.len() - 1
    } else {
        last_index_of(s.drop_last(), sep)
    }
}

/// The decimal digit for `d`.
pub open spec fn digit(d: nat) -> char
    recommends
        d < 10,
{
    (0x30 + d) as char
}

/// The number `n` written in decimal, without sign or leading zeros.
pub open spec fn decimal(n: nat) -> Seq<char>
    decreases n,
{
    if n < 10 {
        seq![digit(n)]
    } else {
        decimal(n / 10).push(digit(n % 10))
    }
}

/// An index `k` at which the leading whitespace of `s` ends gives its
/// left-trimmed form.
pub proof fn lemma_trimmed_start(s: Seq<char>, k: int)
    requires
        0 <= k <= s.len(),
        forall|j: int| 0 <= j < k ==> is_white_space(#[trigger] s[j]),
        k < s.len() ==> !is_white_space(s[k]),
    ensures
        trimmed_start(s) == s.skip(k),
    decreases k,
{
    if k == 0 {
        assert(s.skip(0) =~= s);
    } else {
        let rest = s.drop_first();
        assert forall|j: int| 0 <= j < k - 1 implies is_white_space(#[trigger] rest[j]) by {
            assert(rest[j] == s[j + 1]);
        }
        lemma_trimmed_start(rest, k - 1);
        assert(rest.skip(k - 1) =~= s.skip(k));
    }
}

/// An index `k` at which the trailing whitespace of `s` begins gives its
/// right-trimmed form.
pub proof fn lemma_trimmed_end(s: Seq<char>, k: int)
    requires
        0 <= k <= s.len(),
        forall|j: int| k <= j < s.len() ==> is_white_space(#[trigger] s[j]),
        k > 0 ==> !is_white_space(s[k - 1]),
    ensures
        trimmed_end(s) == s.take(k),
    decreases s.len() - k,
{
    if k == s.len() {
        assert(s.take(k) =~= s);
    } else {
        let rest = s.drop_last();
        lemma_trimmed_end(rest, k);
        assert(rest.take(k) =~= s.take(k));
    }
}

/// A position `k` before which `sep` does not occur, and which holds `sep`
/// or is the end of `s`, is the first index of `sep`.
pub proof fn lemma_first_index_of(s: Seq<char>, sep: char, k: int)
    requires
        0 <= k <= s.len(),
        forall|j: int| 0 <= j < k ==> #[trigger] s[j] != sep,
        k < s.len() ==> s[k] == sep,
    ensures
        first_index_of(s, sep) == k,
    decreases k,
{
    if k > 0 {
        let rest = s.drop_first();
        assert forall|j: int| 0 <= j < k - 1 implies #[trigger] rest[j] != sep by {
            assert(rest[j] == s[j + 1]);
        }
        lemma_first_index_of(rest, sep, k - 1);
    }
}

/// The first index of `sep` lies within `s` or at its end, holds `sep` where
/// it lies within, and has no `sep` before it.
pub proof fn lemma_first_index_of_is_first(s: Seq<char>, sep: char)
    ensures
        0 <= first_index_of(s, sep) <= s.len(),
        first_index_of(s, sep) < s.len() ==> s[first_index_of(s, sep)] == sep,
        forall|j: int| 0 <= j < first_index_of(s, sep) ==> #[trigger] s[j] != sep,
    decreases s.len(),
{
    if s.len() > 0 && s.first() != sep {
        let rest = s.drop_first();
        lemma_first_index_of_is_first(rest, sep);
        assert forall|j: int| 0 <= j < first_index_of(s, sep) implies #[trigger] s[j] != sep by {
            if j > 0 {
                assert(s[j] == rest[j - 1]);
            }
        }
    }
}

/// A position `k` that holds `sep` and has no `sep` behind it is the last
/// index of `sep`.
pub proof fn lemma_last_index_of(s: Seq<char>, sep: char, k: int)
    requires
        0 <= k < s.len(),
        s[k] == sep,
        forall|j: int| k < j < s.len() ==> #[trigger] s[j] != sep,
    ensures
        last_index_of(s, sep) == k,
    decreases s.len() - k,
{
    if k < s.len() - 1 {
        let rest = s.drop_last();
        assert forall|j: int| k < j < rest.len() implies #[trigger] rest[j] != sep by {
            assert(rest[j] == s[j]);
        }
        lemma_last_index_of(rest, sep, k);
    }
}

/// Trimming on the left takes away whitespace only: a character that is no
/// whitespace and occurs in `s` occurs in what is left.
pub proof fn lemma_trimmed_start_keeps(s: Seq<char>, c: char)
    requires
        !is_white_space(c),
        s.contains(c),
    ensures
        trimmed_start(s).contains(c),
    decreases s.len(),
{
    if s.len() > 0 && is_white_space(s.first()) {
        let rest = s.drop_first();
        let i = choose|i: int| 0 <= i < s.len() && s[i] == c;
        assert(rest[i - 1] == c);
        lemma_trimmed_start_keeps(rest, c);
    }
}

/// Trimming on the right takes away whitespace only: a character that is no
/// whitespace and occurs in `s` occurs in what is left.
pub proof fn lemma_trimmed_end_keeps(s: Seq<char>, c: char)
    requires
        !is_white_space(c),
        s.contains(c),
    ensures
        trimmed_end(s).contains(c),
    decreases s.len(),
{
    if s.len() > 0 && is_white_space(s.last()) {
        let rest = s.drop_last();
        let i = choose|i: int| 0 <= i < s.len() && s[i] == c;
        assert(rest[i] == c);
        lemma_trimmed_end_keeps(rest, c);
    }
}

/// Trimming takes away whitespace only: a character that is no whitespace
/// and occurs in `s` occurs in the trimmed form of `s`.
pub proof fn lemma_trimmed_keeps(s: Seq<char>, c: char)
    requires
        !is_white_space(c),
        s.contains(c),
    ensures
        trimmed(s).contains(c),
{
    lemma_trimmed_start_keeps(s, c);
    lemma_trimmed_end_keeps(trimmed_start(s), c);
}

/// Tests a character for the Unicode `White_Space` property.
pub fn is_whitespace_char(c: char) -> (b: bool)
    ensures
        b == is_white_space(c),
{
    let n: u32 = c as u32;
    (0x09 <= n && n <= 0x0D) || n == 0x20 || n == 0x85 || n == 0xA0 || n == 0x1680 || (0x2000 <= n
        && n <= 0x200A) || n == 0x2028 || n == 0x2029 || n == 0x202F || n == 0x205F || n == 0x3000
}

/// The characters of a string slice, in order.
pub fn chars_of(s: &str) -> (v: Vec<char>)
    ensures
        v@ == s@,
{
    let mut v: Vec<char> = Vec::new();
    for c in it: s.chars()
        invariant
            it.seq() == s@,
            v@ == s@.take(it.index() as int),
    {
        v.push(c);
        assert(s@.take(it.index() + 1) == s@.take(it.index() as int).push(s@[it.index() as int]));
    }
    assert(s@.take(s@.len() as int) == s@);
    v
}

/// Whether two string slices hold the same characters.
pub fn same_text(a: &str, b: &str) -> (same: bool)
    ensures
        same == (a@ == b@),
{
    let x = chars_of(a);
    let y = chars_of(b);
    if x.len() != y.len() {
        return false;
    }
    let mut i: usize = 0;
    while i < x.len()
        invariant
            x@ == a@,
            y@ == b@,
            x.len() == y.len(),
            i <= x.len(),
            forall|j: int| 0 <= j < i ==> x@[j] == y@[j],
        decreases x.len() - i,
    {
        if x[i] != y[i] {
            return false;
        }
        i += 1;
    }
    assert(a@ =~= b@);
    true
}

/// The slice of `s` between its leading and trailing whitespace.
pub fn trim<'a>(s: &'a str) -> (r: &'a str)
    ensures
        r@ == trimmed(s@),
{
    let v = chars_of(s);
    let mut start: usize = 0;
    while start < v.len() && is_whitespace_char(v[start])
        invariant
            start <= v.len(),
            forall|j: int| 0 <= j < start ==> is_white_space(#[trigger] v@[j]),
        decreases v.len() - start,
    {
        start += 1;
    }
    let mut end: usize = v.len();
    while end > start && is_whitespace_char(v[end - 1])
        invariant
            start <= end <= v.len(),
            forall|j: int| end <= j < v.len() ==> is_white_space(#[trigger] v@[j]),
        decreases end,
    {
        end -= 1;
    }
    proof {
        let left = v@.skip(start as int);
        lemma_trimmed_start(v@, start as int);
        assert forall|j: int| end - start <= j < left.len() implies is_white_space(
            #[trigger] left[j],
        ) by {
            assert(left[j] == v@[j + start]);
        }
        lemma_trimmed_end(left, end - start);
        assert(left.take(end - start) =~= v@.subrange(start as int, end as int));
    }
    s.substring_char(start, end)
}

/// A copy of `s` without its leading and trailing whitespace.
pub fn trimmed_copy(s: &str) -> (r: String)
    ensures
        r@ == trimmed(s@),
{
    String::from_str(trim(s))
}

/// The slice of `s` that follows its first `sep`.
pub fn rest_after_first<'a>(s: &'a str, sep: char) -> (r: Option<&'a str>)
    ensures
        r.is_some() == after_first(s@, sep).is_some(),
        r.is_some() ==> r.unwrap()@ == after_first(s@, sep).unwrap(),
{
    let v = chars_of(s);
    let mut i: usize = 0;
    while i < v.len() && v[i] != sep
        invariant
            i <= v.len(),
            forall|j: int| 0 <= j < i ==> #[trigger] v@[j] != sep,
        decreases v.len() - i,
    {
        i += 1;
    }
    proof {
        lemma_first_index_of(v@, sep, i as int);
    }
    if i < v.len() {
        Some(s.substring_char(i + 1, v.len()))
    } else {
        None
    }
}

/// The slice of `s` behind the one `lead` that it begins with.
pub fn strip_leading<'a>(s: &'a str, lead: char) -> (r: &'a str)
    ensures
        r@ == without_leading(s@, lead),
{
    let len = s.unicode_len();
    if len > 0 && s.get_char(0) == lead {
        s.substring_char(1, len)
    } else {
        s
    }
}

/// The `n`-th piece (counting from 0) of `s` cut at every `sep`.
pub fn nth_segment<'a>(s: &'a str, sep: char, n: usize) -> (r: Option<&'a str>)
    ensures
        r.is_some() == segment(s@, sep, n as nat).is_some(),
        r.is_some() ==> r.unwrap()@ == segment(s@, sep, n as nat).unwrap(),
{
    let v = chars_of(s);
    let mut start: usize = 0;
    let mut k: usize = 0;
    let mut i: usize = 0;
    assert(v@.skip(0) =~= v@);
    while i < v.len() && !(v[i] == sep && k == n)
        invariant
            v@ == s@,
            start <= i <= v.len(),
            k <= n,
            forall|j: int| start <= j < i ==> #[trigger] v@[j] != sep,
            segment(v@, sep, n as nat) == segment(v@.skip(start as int), sep, (n - k) as nat),
        decreases v.len() - i,
    {
        if v[i] == sep {
            proof {
                let piece = v@.skip(start as int);
                assert forall|j: int| 0 <= j < i - start implies #[trigger] piece[j] != sep by {
                    assert(piece[j] == v@[j + start]);
                }
                lemma_first_index_of(piece, sep, i - start);
                assert(piece.skip(i - start + 1) =~= v@.skip(i + 1));
            }
            k += 1;
            start = i + 1;
        }
        i += 1;
    }
    proof {
        let piece = v@.skip(start as int);
        assert forall|j: int| 0 <= j < i - start implies #[trigger] piece[j] != sep by {
            assert(piece[j] == v@[j + start]);
        }
        lemma_first_index_of(piece, sep, i - start);
        assert(piece.take(i - start) =~= v@.subrange(start as int, i as int));
    }
    if k == n {
        Some(s.substring_char(start, i))
    } else {
        None
    }
}

/// The text of one decimal digit.
fn digit_text(d: u64) -> (text: &'static str)
    requires
        d < 10,
    ensures
        text@ == seq![digit(d as nat)],
{
    proof {
        reveal_strlit("0");
        reveal_strlit("1");
        reveal_strlit("2");
        reveal_strlit("3");
        reveal_strlit("4");
        reveal_strlit("5");
        reveal_strlit("6");
        reveal_strlit("7");
        reveal_strlit("8");
        reveal_strlit("9");
    }
    let text = if d == 0 {
        "0"
    } else if d == 1 {
        "1"
    } else if d == 2 {
        "2"
    } else if d == 3 {
        "3"
    } else if d == 4 {
        "4"
    } else if d == 5 {
        "5"
    } else if d == 6 {
        "6"
    } else if d == 7 {
        "7"
    } else if d == 8 {
        "8"
    } else {
        "9"
    };
    assert(text@ =~= seq![digit(d as nat)]);
    text
}

/// Writes a number in decimal, without sign or leading zeros.
pub fn decimal_text(n: u64) -> (text: String)
    ensures
        text@ == decimal(n as nat),
    decreases n,
{
    if n < 10 {
        String::from_str(digit_text(n))
    } else {
        let mut text = decimal_text(n / 10);
        text.append(digit_text(n % 10));
        assert(text@ =~= decimal(n as nat));
        text
    }
}

} // verus!
