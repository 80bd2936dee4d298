use vstd::prelude::*;

use crate::text::chars_of;

verus! {

/// A character with ASCII letters lowered, as `char::to_ascii_lowercase`
/// does.
pub open spec fn ascii_lower(c: char) -> char {
    if 'A' <= c <= 'Z' {
        ((c as u32) + 32) as char
    } else {
        c
    }
}

pub open spec fn lowered(s: Seq<char>) -> Seq<char> {
    s.map_values(|c: char| ascii_lower(c))
}

pub open spec fn all_ascii(s: Seq<char>) -> bool {
    forall|i: int| 0 <= i < s.len() ==> (#[trigger] s[i] as u32) < 128
}

/// The concatenated text of a page's runs.
pub open spec fn page_text(fragments: Seq<String>) -> Seq<char>
    decreases fragments.len(),
{
    if fragments.len() == 0 {
        Seq::empty()
    } else {
        page_text(fragments.drop_last()) + fragments.last()@
    }
}

/// Whether `needle` occurs in `haystack` at `at`.
pub open spec fn occurs_at(haystack: Seq<char>, needle: Seq<char>, at: int) -> bool {
    0 <= at && at + needle.len() <= haystack.len() && haystack.subrange(at, at + needle.len())
        == needle
}

/// Where a non-empty `needle` occurs in `haystack` from `from` on, leftmost
/// first, each occurrence starting after the end of the one before, as
/// `str::match_indices` reports them.
pub open spec fn occurrences_from(haystack: Seq<char>, needle: Seq<char>, from: int) -> Seq<int>
    decreases haystack.len() - from,
{
    if needle.len() == 0 || from < 0 || from + needle.len() > haystack.len() {
        Seq::empty()
    } else if occurs_at(haystack, needle, from) {
        seq![from] + occurrences_from(haystack, needle, from + needle.len())
    } else {
        occurrences_from(haystack, needle, from + 1)
    }
}

/// The text searched and the text searched for: both with ASCII letters
/// lowered when the query is ASCII, as they are otherwise.
pub open spec fn search_texts(text: Seq<char>, query: Seq<char>) -> (Seq<char>, Seq<char>) {
    if all_ascii(query) {
        (lowered(text), lowered(query))
    } else {
        (text, query)
    }
}

pub open spec fn saturated(n: int) -> int {
    if n > u32::MAX {
        u32::MAX as int
    } else {
        n
    }
}

/// The character range a match at `at` covers, saturated at `u32::MAX`.
pub open spec fn match_range(at: int, needle_len: int) -> (u32, u32) {
    let start = saturated(at);
    (start as u32, saturated(start + saturated(needle_len)) as u32)
}

/// The character ranges of `text` that match `query`: none when the text or
/// the query is empty.
pub open spec fn ranges_in(text: Seq<char>, query: Seq<char>) -> Seq<(u32, u32)> {
    let (haystack, needle) = search_texts(text, query);
    if text.len() == 0 || needle.len() == 0 {
        Seq::empty()
    } else {
        occurrences_from(haystack, needle, 0).map_values(|at: int| match_range(at, needle.len() as int))
    }
}

/// The character ranges of the page text that match `query`.
pub open spec fn match_ranges_spec(fragments: Seq<String>, query: Seq<char>) -> Seq<(u32, u32)> {
    ranges_in(page_text(fragments), query)
}

fn lower_chars(chars: &Vec<char>) -> (lower: Vec<char>)
    ensures
        lower@ == lowered(chars@),
{
    let mut lower: Vec<char> = Vec::new();
    let mut i: usize = 0;
    while i < chars.len()
        invariant
            i <= chars@.len(),
            lower@ == lowered(chars@.take(i as int)),
        decreases chars@.len() - i,
    {
        let c = chars[i];
        let l = if 'A' <= c && c <= 'Z' {
            ((c as u8) + 32) as char
        } else {
            c
        };
        assert(lowered(chars@.take(i + 1)) =~= lowered(chars@.take(i as int)).push(l));
        lower.push(l);
        i = i + 1;
    }
    assert(chars@.take(chars@.len() as int) =~= chars@);
    lower
}

fn is_ascii_chars(chars: &Vec<char>) -> (ascii: bool)
    ensures
        ascii == all_ascii(chars@),
{
    let mut i: usize = 0;
    while i < chars.len()
        invariant
            i <= chars@.len(),
            forall|k: int| 0 <= k < i ==> (#[trigger] chars@[k] as u32) < 128,
        decreases chars@.len() - i,
    {
        if (chars[i] as u32) >= 128 {
            return false;
        }
        i = i + 1;
    }
    true
}

fn matches_at(haystack: &Vec<char>, needle: &Vec<char>, at: usize) -> (found: bool)
    requires
        at + needle@.len() <= haystack@.len(),
    ensures
        found == occurs_at(haystack@, needle@, at as int),
{
    let mut k: usize = 0;
    let total = haystack.len();
    while k < needle.len()
        invariant
            total == haystack@.len(),
            at + needle@.len() <= haystack@.len(),
            k <= needle@.len(),
            forall|q: int| 0 <= q < k ==> haystack@[at + q] == needle@[q],
        decreases needle@.len() - k,
    {
        if haystack[at + k] != needle[k] {
            assert(haystack@.subrange(at as int, at + needle@.len())[k as int] != needle@[k as int]);
            return false;
        }
        k = k + 1;
    }
    assert(haystack@.subrange(at as int, at + needle@.len()) =~= needle@);
    true
}

fn saturate(n: usize) -> (v: u32)
    ensures
        v == saturated(n as int),
{
    if n > u32::MAX as usize {
        u32::MAX
    } else {
        n as u32
    }
}

/// The character ranges of a page's text that match `query`, in page order:
/// case-insensitive for an ASCII query, exact otherwise. The page text is the
/// concatenation of its runs, so a match may span runs.
pub fn match_ranges(fragments: &[String], query: &str) -> (ranges: Vec<(u32, u32)>)
    ensures
        ranges@ == match_ranges_spec(fragments@, query@),
{
    let mut text: Vec<char> = Vec::new();
    let mut f: usize = 0;
    while f < fragments.len()
        invariant
            f <= fragments@.len(),
            text@ == page_text(fragments@.take(f as int)),
        decreases fragments@.len() - f,
    {
        let chars = chars_of(fragments[f].as_str());
        assert(fragments@.take(f + 1).drop_last() =~= fragments@.take(f as int));
        let ghost before = text@;
        let mut k: usize = 0;
        while k < chars.len()
            invariant
                k <= chars@.len(),
                text@ == before + chars@.take(k as int),
            decreases chars@.len() - k,
        {
            assert(chars@.take(k + 1) =~= chars@.take(k as int).push(chars@[k as int]));
            text.push(chars[k]);
            k = k + 1;
        }
        assert(chars@.take(chars@.len() as int) =~= chars@);
        f = f + 1;
    }
    assert(fragments@.take(fragments@.len() as int) =~= fragments@);
    let query_chars = chars_of(query);
    let (haystack, needle) = if is_ascii_chars(&query_chars) {
        (lower_chars(&text), lower_chars(&query_chars))
    } else {
        (text.clone(), query_chars)
    };
    let mut ranges: Vec<(u32, u32)> = Vec::new();
    if text.len() == 0 || needle.len() == 0 {
        return ranges;
    }
    let m = needle.len();
    let needle_count = saturate(m);
    let mut at: usize = 0;
    let ghost all = occurrences_from(haystack@, needle@, 0);
    if m > haystack.len() {
        assert(all.map_values(|p: int| match_range(p, m as int)) =~= ranges@);
        return ranges;
    }
    let hay_len = haystack.len();
    let last_start = hay_len - m;
    assert(ranges@ + all.map_values(|p: int| match_range(p, m as int)) =~= all.map_values(
        |p: int| match_range(p, m as int),
    ));
    while at <= last_start
        invariant
            hay_len == haystack@.len(),
            last_start + m == hay_len,
            m == needle@.len(),
            m > 0,
            needle_count == saturated(m as int),
            all == occurrences_from(haystack@, needle@, 0),
            all.map_values(|p: int| match_range(p, m as int)) == ranges@ + occurrences_from(
                haystack@,
                needle@,
                at as int,
            ).map_values(|p: int| match_range(p, m as int)),
        decreases haystack@.len() - at,
    {
        let ghost rest = occurrences_from(haystack@, needle@, at as int);
        if matches_at(&haystack, &needle, at) {
            let start = saturate(at);
            let end = if (start as u64) + (needle_count as u64) > u32::MAX as u64 {
                u32::MAX
            } else {
                start + needle_count
            };
            let ghost next = occurrences_from(haystack@, needle@, at + m);
            assert(rest == seq![at as int] + next);
            assert(rest.map_values(|p: int| match_range(p, m as int)) =~= seq![(start, end)]
                + next.map_values(|p: int| match_range(p, m as int)));
            ranges.push((start, end));
            at = at + m;
        } else {
            at = at + 1;
        }
    }
    assert(occurrences_from(haystack@, needle@, at as int) == Seq::<int>::empty());
    assert(ranges@ + Seq::<(u32, u32)>::empty() =~= ranges@);
    ranges
}

/// Every reported position is a real occurrence of the needle, and the
/// occurrences are reported left to right without overlapping.
pub proof fn lemma_occurrences_are_disjoint_matches(
    haystack: Seq<char>,
    needle: Seq<char>,
    from: int,
)
    requires
        0 <= from,
    ensures
        forall|k: int|
            0 <= k < occurrences_from(haystack, needle, from).len() ==> {
                &&& occurs_at(haystack, needle, #[trigger] occurrences_from(haystack, needle, from)[k])
                &&& from <= occurrences_from(haystack, needle, from)[k]
            },
        forall|k: int|
            0 <= k < occurrences_from(haystack, needle, from).len() - 1 ==> #[trigger] occurrences_from(
                haystack,
                needle,
                from,
            )[k] + needle.len() <= occurrences_from(haystack, needle, from)[k + 1],
    decreases haystack.len() - from,
{
    if needle.len() == 0 || from + needle.len() > haystack.len() {
        assert(occurrences_from(haystack, needle, from).len() == 0);
    } else if occurs_at(haystack, needle, from) {
        lemma_occurrences_are_disjoint_matches(haystack, needle, from + needle.len());
        let rest = occurrences_from(haystack, needle, from + needle.len());
        let all = occurrences_from(haystack, needle, from);
        assert(all == seq![from] + rest);
        assert forall|k: int| 0 <= k < all.len() implies occurs_at(haystack, needle, #[trigger] all[k])
            && from <= all[k] by {
            if k > 0 {
                assert(all[k] == rest[k - 1]);
            }
        }
        assert forall|k: int| 0 <= k < all.len() - 1 implies #[trigger] all[k] + needle.len()
            <= all[k + 1] by {
            if k > 0 {
                assert(all[k] == rest[k - 1]);
                assert(all[k + 1] == rest[k]);
            } else {
                assert(all[1] == rest[0]);
            }
        }
    } else {
        lemma_occurrences_are_disjoint_matches(haystack, needle, from + 1);
        assert(occurrences_from(haystack, needle, from) == occurrences_from(haystack, needle, from + 1));
    }
}

/// The search result after stepping from `index` among `count` results:
/// forward wraps from the last to the first, backward from the first to the
/// last.
pub open spec fn stepped_index(index: int, count: int, backward: bool) -> int {
    if backward {
        if index == 0 {
            count - 1
        } else {
            index - 1
        }
    } else {
        (index + 1) % count
    }
}

/// Steps the current search result forward or backward.
pub fn step_result_index(index: usize, count: usize, backward: bool) -> (next: usize)
    requires
        count > 0,
        backward || index < usize::MAX,
    ensures
        next == stepped_index(index as int, count as int, backward),
{
    if backward {
        if index == 0 {
            count - 1
        } else {
            index - 1
        }
    } else {
        (index + 1) % count
    }
}

/// Search ignores the case of ASCII letters for an ASCII query: texts and
/// queries that differ only there match at the same ranges.
pub proof fn lemma_ascii_search_ignores_case(
    text1: Seq<char>,
    text2: Seq<char>,
    query1: Seq<char>,
    query2: Seq<char>,
)
    requires
        all_ascii(query1),
        all_ascii(query2),
        lowered(text1) == lowered(text2),
        lowered(query1) == lowered(query2),
    ensures
        ranges_in(text1, query1) == ranges_in(text2, query2),
{
    assert(text1.len() == lowered(text1).len());
    assert(text2.len() == lowered(text2).len());
}

/// Stepping through search results walks a cycle: from a result it lands on
/// another result, forward goes to the next one and from the last back to
/// the first, backward goes to the previous one and from the first to the
/// last, and a step forward followed by a step backward (or the other way
/// round) comes back to where it started.
pub proof fn lemma_result_steps_cycle(index: int, count: int)
    requires
        0 <= index < count,
    ensures
        0 <= stepped_index(index, count, false) < count,
        0 <= stepped_index(index, count, true) < count,
        index + 1 < count ==> stepped_index(index, count, false) == index + 1,
        index + 1 == count ==> stepped_index(index, count, false) == 0,
        index > 0 ==> stepped_index(index, count, true) == index - 1,
        index == 0 ==> stepped_index(index, count, true) == count - 1,
        stepped_index(stepped_index(index, count, false), count, true) == index,
        stepped_index(stepped_index(index, count, true), count, false) == index,
{
    if index + 1 < count {
        vstd::arithmetic::div_mod::lemma_small_mod((index + 1) as nat, count as nat);
    } else {
        vstd::arithmetic::div_mod::lemma_mod_self_0(count);
    }
    if index > 0 {
        vstd::arithmetic::div_mod::lemma_small_mod(index as nat, count as nat);
    } else {
        vstd::arithmetic::div_mod::lemma_mod_self_0(count);
    }
}

} // verus!
