use vstd::prelude::*;

use crate::selection::{is_white_space, white_space};
use crate::status::decimal;
use crate::text::chars_of;

verus! {

/// The page range the scheduler works around: the laid-out range clamped to
/// the document, widened to include the current page. Before layout has
/// happened it is the current page alone.
pub open spec fn visible_range(
    page_count: nat,
    page_index: nat,
    laid_out: nat,
    top_item: nat,
    bottom_item: nat,
) -> (nat, nat) {
    let last: nat = if page_count == 0 {
        0
    } else {
        (page_count - 1) as nat
    };
    let (first, end) = if laid_out == 0 {
        (page_index, page_index)
    } else {
        (
            if top_item < last {
                top_item
            } else {
                last
            },
            if bottom_item < last {
                bottom_item
            } else {
                last
            },
        )
    };
    let first_visible = if first < page_index {
        first
    } else {
        page_index
    };
    let widened = if end > page_index {
        end
    } else {
        page_index
    };
    (first_visible, if widened < last {
        widened
    } else {
        last
    })
}

/// The first and last page the scheduler treats as visible.
pub fn visible_pages(
    page_count: usize,
    page_index: usize,
    laid_out_items: usize,
    top_item: usize,
    bottom_item: usize,
) -> (range: (usize, usize))
    ensures
        (range.0 as nat, range.1 as nat) == visible_range(
            page_count as nat,
            page_index as nat,
            laid_out_items as nat,
            top_item as nat,
            bottom_item as nat,
        ),
{
    let last = page_count.saturating_sub(1);
    let (first, end) = if laid_out_items == 0 {
        (page_index, page_index)
    } else {
        (
            if top_item < last {
                top_item
            } else {
                last
            },
            if bottom_item < last {
                bottom_item
            } else {
                last
            },
        )
    };
    let first_visible = if first < page_index {
        first
    } else {
        page_index
    };
    let widened = if end > page_index {
        end
    } else {
        page_index
    };
    (first_visible, if widened < last {
        widened
    } else {
        last
    })
}

/// The pages treated as visible always include the current page and lie
/// within the document; once laid out they reach at least from the first to
/// the last laid-out page the document holds.
pub proof fn lemma_visible_range_holds_current_page(
    page_count: nat,
    page_index: nat,
    laid_out: nat,
    top_item: nat,
    bottom_item: nat,
)
    requires
        page_index < page_count,
    ensures
        ({
            let (first, last) = visible_range(page_count, page_index, laid_out, top_item, bottom_item);
            &&& first <= page_index <= last < page_count
            &&& laid_out > 0 && top_item < page_count ==> first <= top_item
            &&& laid_out > 0 && bottom_item < page_count ==> bottom_item <= last
            &&& laid_out == 0 ==> first == page_index && last == page_index
        }),
{
}

/// The search result to show after the results were recomputed: the first
/// when the query changed or the old position is gone, else the same one.
pub fn search_index_after_refresh(index: usize, query_changed: bool, match_count: usize) -> (next:
    usize)
    ensures
        next == if query_changed || index >= match_count {
            0
        } else {
            index
        },
{
    if query_changed || index >= match_count {
        0
    } else {
        index
    }
}

/// `s` without its leading and trailing White_Space characters, as
/// `str::trim` leaves it.
pub open spec fn trimmed(s: Seq<char>, start: int, end: int) -> bool {
    &&& 0 <= start <= end <= s.len()
    &&& forall|i: int| 0 <= i < start ==> white_space(#[trigger] s[i])
    &&& forall|i: int| end <= i < s.len() ==> white_space(#[trigger] s[i])
    &&& start < end ==> !white_space(s[start]) && !white_space(s[end - 1])
}

/// Where the text of `s` starts and ends once leading and trailing
/// White_Space characters are dropped.
pub fn trim_bounds(s: &str) -> (bounds: (usize, usize))
    ensures
        trimmed(s@, bounds.0 as int, bounds.1 as int),
{
    let n = s.unicode_len();
    let mut start: usize = 0;
    while start < n && is_white_space(s.get_char(start))
        invariant
            n == s@.len(),
            start <= n,
            forall|i: int| 0 <= i < start ==> white_space(#[trigger] s@[i]),
        decreases n - start,
    {
        start = start + 1;
    }
    let mut end: usize = n;
    while end > start && is_white_space(s.get_char(end - 1))
        invariant
            n == s@.len(),
            start <= end <= n,
            start < n ==> !white_space(s@[start as int]),
            forall|i: int| 0 <= i < start ==> white_space(#[trigger] s@[i]),
            forall|i: int| end <= i < n ==> white_space(#[trigger] s@[i]),
        decreases end - start,
    {
        end = end - 1;
    }
    (start, end)
}

/// `s` with leading and trailing White_Space characters dropped.
pub fn trim_text(s: &str) -> (text: String)
    ensures
        exists|start: int, end: int| trimmed(s@, start, end) && text@ == s@.subrange(start, end),
{
    let (start, end) = trim_bounds(s);
    String::from_str(s.substring_char(start, end))
}

/// The value of an unsigned decimal number, as `str::parse::<usize>` reads
/// it: an optional '+', then one or more ASCII digits.
pub open spec fn digits_value(s: Seq<char>) -> int
    decreases s.len(),
{
    if s.len() == 0 {
        0
    } else {
        digits_value(s.drop_last()) * 10 + (s.last() as int - 48)
    }
}

pub open spec fn all_ascii_digits(s: Seq<char>) -> bool {
    forall|i: int| 0 <= i < s.len() ==> '0' <= #[trigger] s[i] <= '9'
}

/// What `str::parse::<usize>` gives for `s`: `None` where it reports an
/// error (no digits, a character other than a digit after an optional
/// leading '+', or a value beyond `usize::MAX`).
pub open spec fn parsed_count(s: Seq<char>) -> Option<usize> {
    let digits = if s.len() > 0 && s[0] == '+' {
        s.drop_first()
    } else {
        s
    };
    if digits.len() > 0 && all_ascii_digits(digits) && digits_value(digits) <= usize::MAX {
        Some(digits_value(digits) as usize)
    } else {
        None
    }
}

proof fn lemma_digits_value_grows(s: Seq<char>, c: char)
    requires
        all_ascii_digits(s),
        '0' <= c <= '9',
    ensures
        digits_value(s.push(c)) >= digits_value(s),
        digits_value(s) >= 0,
    decreases s.len(),
{
    assert(s.push(c).drop_last() =~= s);
    if s.len() > 0 {
        assert(all_ascii_digits(s.drop_last()));
        lemma_digits_value_grows(s.drop_last(), s.last());
    }
}

/// Reads an unsigned decimal number.
pub fn parse_count(s: &str) -> (value: Option<usize>)
    ensures
        value == parsed_count(s@),
{
    let n = s.unicode_len();
    let mut i: usize = 0;
    if n > 0 && s.get_char(0) == '+' {
        i = 1;
    }
    let ghost digits = if s@.len() > 0 && s@[0] == '+' {
        s@.drop_first()
    } else {
        s@
    };
    assert(digits =~= s@.subrange(i as int, n as int));
    if i == n {
        return None;
    }
    let start = i;
    let mut value: usize = 0;
    while i < n
        invariant
            n == s@.len(),
            start <= i <= n,
            digits == s@.subrange(start as int, n as int),
            digits == (if s@.len() > 0 && s@[0] == '+' {
                s@.drop_first()
            } else {
                s@
            }),
            all_ascii_digits(s@.subrange(start as int, i as int)),
            value == digits_value(s@.subrange(start as int, i as int)),
        decreases n - i,
    {
        let c = s.get_char(i);
        let ghost prefix = s@.subrange(start as int, i as int);
        assert(s@.subrange(start as int, i + 1) =~= prefix.push(c));
        assert(prefix.push(c).drop_last() =~= prefix);
        if !('0' <= c && c <= '9') {
            assert(digits[i - start] == c);
            assert(!all_ascii_digits(digits));
            return None;
        }
        proof {
            lemma_digits_value_grows(prefix, c);
        }
        let digit = ((c as u32) - 48) as usize;
        if value > (usize::MAX - digit) / 10 {
            proof {
                assert(digits_value(prefix.push(c)) > usize::MAX) by (nonlinear_arith)
                    requires
                        digits_value(prefix.push(c)) == value * 10 + digit,
                        value > (usize::MAX - digit) / 10,
                        digit <= 9,
                ;
                assert(digits.take(i - start + 1) =~= prefix.push(c));
                lemma_digits_value_prefix_bound(digits, (i - start + 1) as int);
                assert(digits_value(digits) > usize::MAX || !all_ascii_digits(digits));
            }
            return None;
        }
        value = value * 10 + digit;
        i = i + 1;
    }
    assert(s@.subrange(start as int, n as int) =~= digits);
    Some(value)
}

proof fn lemma_digits_value_prefix_bound(digits: Seq<char>, k: int)
    requires
        0 <= k <= digits.len(),
        all_ascii_digits(digits.take(k)),
    ensures
        all_ascii_digits(digits) ==> digits_value(digits.take(k)) <= digits_value(digits),
    decreases digits.len() - k,
{
    if k < digits.len() && all_ascii_digits(digits) {
        assert(all_ascii_digits(digits.take(k + 1)));
        lemma_digits_value_prefix_bound(digits, k + 1);
        assert(digits.take(k + 1) =~= digits.take(k).push(digits[k]));
        lemma_digits_value_grows(digits.take(k), digits[k]);
    } else if k == digits.len() {
        assert(digits.take(k) =~= digits);
    }
}

/// The page a typed page number asks for, as a zero-based index: `None`
/// unless the trimmed text reads as a number from 1 to the page count.
pub open spec fn requested_page(raw: Seq<char>, start: int, end: int, page_count: nat) -> Option<
    usize,
> {
    match parsed_count(raw.subrange(start, end)) {
        Some(number) => if 1 <= number <= page_count {
            Some((number - 1) as usize)
        } else {
            None
        },
        None => None,
    }
}

/// The page a typed page number asks for.
pub fn page_input_target(raw: &str, page_count: usize) -> (page: Option<usize>)
    ensures
        exists|start: int, end: int|
            trimmed(raw@, start, end) && page == requested_page(raw@, start, end, page_count as nat),
{
    let (start, end) = trim_bounds(raw);
    let text = raw.substring_char(start, end);
    match parse_count(text) {
        Some(number) => if 1 <= number && number <= page_count {
            Some(number - 1)
        } else {
            None
        },
        None => None,
    }
}

proof fn lemma_decimal_reads_back(n: nat)
    ensures
        decimal(n).len() > 0,
        all_ascii_digits(decimal(n)),
        digits_value(decimal(n)) == n,
    decreases n,
{
    let d = decimal(n);
    if n < 10 {
        assert(d.drop_last() =~= Seq::<char>::empty());
        assert(d.last() as int == n + 48);
        assert(digits_value(d) == digits_value(d.drop_last()) * 10 + (d.last() as int - 48));
        assert(digits_value(d.drop_last()) == 0);
    } else {
        lemma_decimal_reads_back(n / 10);
        assert(d.drop_last() =~= decimal(n / 10));
        assert(d.last() as int == n % 10 + 48);
        assert(n == (n / 10) * 10 + n % 10);
        assert(digits_value(d) == digits_value(d.drop_last()) * 10 + (d.last() as int - 48));
        assert forall|i: int| 0 <= i < d.len() implies '0' <= #[trigger] d[i] <= '9' by {
            if i < d.len() - 1 {
                assert(d[i] == decimal(n / 10)[i]);
            }
        }
    }
}

/// Typing any page number of the document goes to that page, the last one
/// included: whatever White_Space surrounds it, the number `n` written in
/// decimal, for `n` from 1 to the page count, asks for page index `n - 1`;
/// and every page asked for lies within the document, its number being what
/// was typed.
pub proof fn lemma_every_page_number_is_reachable(
    raw: Seq<char>,
    start: int,
    end: int,
    page_count: nat,
    n: nat,
)
    requires
        trimmed(raw, start, end),
    ensures
        raw.subrange(start, end) == decimal(n) && 1 <= n <= page_count && n <= usize::MAX
            ==> requested_page(raw, start, end, page_count) == Some((n - 1) as usize),
        requested_page(raw, start, end, page_count) matches Some(p) ==> p < page_count
            && parsed_count(raw.subrange(start, end)) == Some((p + 1) as usize),
        raw == decimal(n) ==> start == 0 && end == raw.len(),
{
    lemma_decimal_reads_back(n);
    if raw == decimal(n) {
        assert('0' <= raw[0] <= '9');
        assert('0' <= raw[raw.len() - 1] <= '9');
        assert(raw.subrange(0, raw.len() as int) =~= raw);
    }
    if raw.subrange(start, end) == decimal(n) {
        assert(decimal(n)[0] != '+');
    }
}

/// The first line of `s`, as `str::lines` yields it: up to the first line
/// feed, without a carriage return right before it; empty for empty text.
pub open spec fn first_line(s: Seq<char>) -> Seq<char>
    decreases s.len(),
{
    if s.len() == 0 || s[0] == '\n' || (s[0] == '\r' && s.len() > 1 && s[1] == '\n') {
        Seq::empty()
    } else {
        seq![s[0]] + first_line(s.drop_first())
    }
}

/// Most characters a query taken from a selection keeps.
pub const MAX_QUERY_CHARS: usize = 120;

/// The query searched for when looking up the selected text: its first line,
/// trimmed, cut to 120 characters, since a whole paragraph never matches.
pub open spec fn selection_query_of(text: Seq<char>, start: int, end: int) -> Seq<char> {
    first_line(text).subrange(
        start,
        if end <= start + MAX_QUERY_CHARS {
            end
        } else {
            start + MAX_QUERY_CHARS
        },
    )
}

/// Whether the character at `i` belongs to the line it starts or continues:
/// it is neither a line feed nor the carriage return of a "\r\n".
pub open spec fn inside_line(s: Seq<char>, i: int) -> bool {
    s[i] != '\n' && !(s[i] == '\r' && i + 1 < s.len() && s[i + 1] == '\n')
}

proof fn lemma_first_line_prefix(s: Seq<char>, k: int)
    requires
        0 <= k <= s.len(),
        forall|i: int| 0 <= i < k ==> #[trigger] inside_line(s, i),
        k == s.len() || !inside_line(s, k),
    ensures
        first_line(s) == s.take(k),
    decreases k,
{
    if k == 0 {
        assert(s.take(0) =~= Seq::<char>::empty());
    } else {
        let rest = s.drop_first();
        assert forall|i: int| 0 <= i < k - 1 implies #[trigger] inside_line(rest, i) by {
            assert(inside_line(s, i + 1));
            assert(rest[i] == s[i + 1]);
            assert(i + 2 < s.len() ==> rest[i + 1] == s[i + 2]);
        }
        if k < s.len() {
            assert(rest[k - 1] == s[k]);
            assert(k < s.len() - 1 ==> rest[k] == s[k + 1]);
        }
        lemma_first_line_prefix(rest, k - 1);
        assert(inside_line(s, 0));
        assert(s[0] != '\n');
        assert(seq![s[0]] + rest.take(k - 1) =~= s.take(k));
    }
}

/// The query searched for when looking up the selected text.
pub fn selection_query(text: &str) -> (query: String)
    ensures
        exists|start: int, end: int|
            trimmed(first_line(text@), start, end) && query@ == selection_query_of(text@, start, end),
{
    let chars = chars_of(text);
    let n = chars.len();
    let mut k: usize = 0;
    while k < n && chars[k] != '\n' && !(chars[k] == '\r' && k + 1 < n && chars[k + 1] == '\n')
        invariant
            n == chars@.len(),
            chars@ == text@,
            k <= n,
            forall|i: int| 0 <= i < k ==> #[trigger] inside_line(text@, i),
        decreases n - k,
    {
        k = k + 1;
    }
    proof {
        lemma_first_line_prefix(text@, k as int);
    }
    let line = text.substring_char(0, k);
    assert(line@ == first_line(text@));
    let (start, end) = trim_bounds(line);
    let stop = if end - start <= MAX_QUERY_CHARS {
        end
    } else {
        start + MAX_QUERY_CHARS
    };
    let query = String::from_str(line.substring_char(start, stop));
    assert(trimmed(first_line(text@), start as int, end as int));
    assert(query@ == selection_query_of(text@, start as int, end as int));
    query
}

} // verus!
