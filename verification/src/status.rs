use vstd::prelude::*;

use crate::model::{markup_label, Markup};

verus! {

/// The decimal digits of `n`, most significant first, without leading zeros.
pub open spec fn decimal(n: nat) -> Seq<char>
    decreases n,
{
    if n < 10 {
        seq![(n + 48) as char]
    } else {
        decimal(n / 10).push(((n % 10) + 48) as char)
    }
}

/// The decimal digit for `d`.
fn digit_text(d: usize) -> (text: &'static str)
    requires
        d < 10,
    ensures
        text@ == seq![(d + 48) as char],
{
    proof {
        reveal_strlit("0");
        reveal_strlit("1");
        reveal_strlit("2");
        reveal_strlit("3");
        reveal_strlit("4");
        reveal_strlit("5");
        reveal_strlit("6");
        reveal_strlit("7");
        reveal_strlit("8");
        reveal_strlit("9");
    }
    let text = match d {
        0 => "0",
        1 => "1",
        2 => "2",
        3 => "3",
        4 => "4",
        5 => "5",
        6 => "6",
        7 => "7",
        8 => "8",
        _ => "9",
    };
    assert(text@ =~= seq![(d + 48) as char]);
    text
}

/// `n` written in decimal.
pub(crate) fn decimal_text(n: usize) -> (text: String)
    ensures
        text@ == decimal(n as nat),
    decreases n,
{
    if n < 10 {
        String::from_str(digit_text(n))
    } else {
        let mut text = decimal_text(n / 10);
        text.append(digit_text(n % 10));
        text
    }
}

/// The count of unsaved edits, as the status bar appends it.
pub open spec fn unsaved_marker(edits: nat) -> Seq<char> {
    if edits == 0 {
        Seq::empty()
    } else {
        " · "@ + decimal(edits) + " unsaved edit(s)"@
    }
}

/// Loading progress, as the status bar appends it while pages load.
pub open spec fn loading_marker(loaded: nat, count: nat) -> Seq<char> {
    if loaded < count {
        " · loading "@ + decimal(loaded) + "/"@ + decimal(count)
    } else {
        Seq::empty()
    }
}

/// The status line for the current page.
pub open spec fn status_text(
    name: Seq<char>,
    page_index: nat,
    page_count: nat,
    loaded: nat,
    edits: nat,
) -> Seq<char> {
    name + " · page "@ + decimal(page_index + 1) + " of "@ + decimal(page_count) + loading_marker(
        loaded,
        page_count,
    ) + unsaved_marker(edits)
}

/// The status line for the current page: the document name, the page
/// number, loading progress while pages are still loading, and the number of
/// unsaved edits when there are any.
pub fn status_line(
    name: &str,
    page_index: usize,
    page_count: usize,
    loaded_pages: usize,
    unsaved_edits: usize,
) -> (text: String)
    requires
        page_index < usize::MAX,
    ensures
        text@ == status_text(
            name@,
            page_index as nat,
            page_count as nat,
            loaded_pages as nat,
            unsaved_edits as nat,
        ),
{
    let mut text = name.to_owned();
    text.append(" · page ");
    text.append(decimal_text(page_index + 1).as_str());
    text.append(" of ");
    text.append(decimal_text(page_count).as_str());
    if loaded_pages < page_count {
        text.append(" · loading ");
        text.append(decimal_text(loaded_pages).as_str());
        text.append("/");
        text.append(decimal_text(page_count).as_str());
    }
    if unsaved_edits != 0 {
        text.append(" · ");
        text.append(decimal_text(unsaved_edits).as_str());
        text.append(" unsaved edit(s)");
    }
    assert(text@ =~= status_text(
        name@,
        page_index as nat,
        page_count as nat,
        loaded_pages as nat,
        unsaved_edits as nat,
    ));
    text
}

/// The size and page span of a selection.
pub open spec fn selection_summary_text(characters: nat, first_page: nat, last_page: nat) -> Seq<
    char,
> {
    if first_page == last_page {
        decimal(characters) + " characters · page "@ + decimal(first_page + 1)
    } else {
        decimal(characters) + " characters · pages "@ + decimal(first_page + 1) + "–"@ + decimal(
            last_page + 1,
        )
    }
}

/// Describes the size and page span of a selection: its character count and
/// the page, or first and last page, it lies on.
pub fn selection_summary(characters: usize, first_page: usize, last_page: usize) -> (text: String)
    requires
        first_page < usize::MAX,
        last_page < usize::MAX,
    ensures
        text@ == selection_summary_text(characters as nat, first_page as nat, last_page as nat),
{
    let mut text = decimal_text(characters);
    if first_page == last_page {
        text.append(" characters · page ");
        text.append(decimal_text(first_page + 1).as_str());
    } else {
        text.append(" characters · pages ");
        text.append(decimal_text(first_page + 1).as_str());
        text.append("–");
        text.append(decimal_text(last_page + 1).as_str());
    }
    text
}

/// The message shown after stepping to a search result.
pub fn search_result_message(index: usize, count: usize) -> (text: String)
    requires
        index < usize::MAX,
    ensures
        text@ == "Result "@ + decimal(index as nat + 1) + " of "@ + decimal(count as nat),
{
    let mut text = String::from_str("Result ");
    text.append(decimal_text(index + 1).as_str());
    text.append(" of ");
    text.append(decimal_text(count).as_str());
    text
}

/// The message shown when stepping through search results finds none.
pub fn no_results_message(query: &str) -> (text: String)
    ensures
        text@ == if query@.len() == 0 {
            "Type something to search"@
        } else {
            "No results for \""@ + query@ + "\""@
        },
{
    if query.is_empty() {
        String::from_str("Type something to search")
    } else {
        let mut text = String::from_str("No results for \"");
        text.append(query);
        text.append("\"");
        text
    }
}

/// What the page box shows: the one-based page number, or nothing without
/// a document.
pub fn page_input_value(page_index: usize, page_count: usize) -> (text: String)
    requires
        page_index < usize::MAX,
    ensures
        text@ == if page_count == 0 {
            Seq::<char>::empty()
        } else {
            decimal(page_index as nat + 1)
        },
{
    if page_count == 0 {
        String::new()
    } else {
        decimal_text(page_index + 1)
    }
}

/// The message for a page number outside the document.
pub fn page_range_message(page_count: usize) -> (text: String)
    ensures
        text@ == "Enter a page between 1 and "@ + decimal(if page_count == 0 {
            1
        } else {
            page_count as nat
        }),
{
    let mut text = String::from_str("Enter a page between 1 and ");
    let highest = if page_count == 0 {
        1
    } else {
        page_count
    };
    text.append(decimal_text(highest).as_str());
    text
}

/// The status shown while a document opens.
pub fn loading_message(page_count: usize) -> (text: String)
    ensures
        text@ == "Loading "@ + decimal(page_count as nat) + " pages…"@,
{
    let mut text = String::from_str("Loading ");
    text.append(decimal_text(page_count).as_str());
    text.append(" pages…");
    text
}

/// The message after selecting all text: the characters selected and, while
/// pages are still loading, how many were left out.
pub fn select_all_message(characters: usize, pending_pages: usize) -> (text: String)
    ensures
        text@ == "Selected "@ + decimal(characters as nat) + " characters"@ + if pending_pages > 0 {
            "; "@ + decimal(pending_pages as nat) + " page(s) still loading"@
        } else {
            Seq::<char>::empty()
        },
{
    let mut text = String::from_str("Selected ");
    text.append(decimal_text(characters).as_str());
    text.append(" characters");
    if pending_pages > 0 {
        text.append("; ");
        text.append(decimal_text(pending_pages).as_str());
        text.append(" page(s) still loading");
    }
    text
}

/// The message after a markup was added to a selection spanning `pages`
/// pages.
pub fn markup_added_message(markup: Markup, pages: usize) -> (text: String)
    ensures
        text@ == markup_label(markup) + " added"@ + if pages > 1 {
            " across "@ + decimal(pages as nat) + " pages"@
        } else {
            Seq::<char>::empty()
        },
{
    let mut text = String::from_str(markup.label());
    text.append(" added");
    if pages > 1 {
        text.append(" across ");
        text.append(decimal_text(pages).as_str());
        text.append(" pages");
    }
    text
}

/// The message for a markup asked for without selected text.
pub fn no_markup_text_message(markup: Markup) -> (text: String)
    ensures
        text@ == "No text under the "@ + match markup {
            Markup::Highlight => "highlight"@,
            Markup::Underline => "underline"@,
            Markup::Strikeout => "strike out"@,
        } + " selection"@,
{
    let mut text = String::from_str("No text under the ");
    text.append(
        match markup {
            Markup::Highlight => "highlight",
            Markup::Underline => "underline",
            Markup::Strikeout => "strike out",
        },
    );
    text.append(" selection");
    text
}

/// The message after a selection was queued for redaction on `pages` pages.
pub fn redaction_added_message(pages: usize) -> (text: String)
    ensures
        text@ == "Redaction added on "@ + decimal(pages as nat) + " page(s); applied on save"@,
{
    let mut text = String::from_str("Redaction added on ");
    text.append(decimal_text(pages).as_str());
    text.append(" page(s); applied on save");
    text
}

/// The message after the queued edits were dropped.
pub fn discarded_edits_message(edits: usize) -> (text: String)
    ensures
        text@ == "Discarded "@ + decimal(edits as nat) + " pending edit(s)"@,
{
    let mut text = String::from_str("Discarded ");
    text.append(decimal_text(edits).as_str());
    text.append(" pending edit(s)");
    text
}

/// The message after the selection was copied.
pub fn copied_message(characters: usize) -> (text: String)
    ensures
        text@ == "Copied "@ + decimal(characters as nat) + " characters"@,
{
    let mut text = String::from_str("Copied ");
    text.append(decimal_text(characters).as_str());
    text.append(" characters");
    text
}

/// The message when the selection is looked up.
pub fn searching_message(query: &str) -> (text: String)
    ensures
        text@ == "Searching for \""@ + query@ + "\""@,
{
    let mut text = String::from_str("Searching for \"");
    text.append(query);
    text.append("\"");
    text
}

/// The counter beside the search field: nothing without a query, "0/0"
/// without results, else the current result's number and the result count.
pub fn search_counter(query: &str, index: usize, matches: usize) -> (text: String)
    requires
        index < usize::MAX,
    ensures
        text@ == if query@.len() == 0 {
            Seq::<char>::empty()
        } else if matches == 0 {
            "0/0"@
        } else {
            decimal(index as nat + 1) + "/"@ + decimal(matches as nat)
        },
{
    if query.is_empty() {
        String::new()
    } else if matches == 0 {
        String::from_str("0/0")
    } else {
        let mut text = decimal_text(index + 1);
        text.append("/");
        text.append(decimal_text(matches).as_str());
        text
    }
}

} // verus!
