use pdf_ui::document_io::{edited_copy_name, file_name, file_stem};
use pdf_ui::edits::{edit_label, edit_page, pending_form_value, EditEntry};
use pdf_ui::model::{swap_red_blue, Markup};
use pdf_ui::navigation::{page_input_target, parse_count, search_index_after_refresh, visible_pages};
use pdf_ui::status::{
    copied_message, discarded_edits_message, markup_added_message, no_markup_text_message,
    redaction_added_message, search_counter, searching_message, loading_message, no_results_message, page_input_value, page_range_message, search_result_message,
    selection_summary, status_line,
};

#[test]
fn status_line_reports_page_loading_and_edits() {
    assert_eq!(status_line("a.pdf", 0, 3, 3, 0), "a.pdf · page 1 of 3");
    assert_eq!(
        status_line("a.pdf", 1, 12, 4, 2),
        "a.pdf · page 2 of 12 · loading 4/12 · 2 unsaved edit(s)"
    );
}

#[test]
fn messages_name_their_numbers() {
    assert_eq!(selection_summary(42, 0, 0), "42 characters · page 1");
    assert_eq!(selection_summary(7, 2, 4), "7 characters · pages 3–5");
    assert_eq!(search_result_message(0, 10), "Result 1 of 10");
    assert_eq!(no_results_message(""), "Type something to search");
    assert_eq!(no_results_message("abc"), "No results for \"abc\"");
    assert_eq!(page_input_value(4, 10), "5");
    assert_eq!(page_input_value(0, 0), "");
    assert_eq!(page_range_message(0), "Enter a page between 1 and 1");
    assert_eq!(page_range_message(120), "Enter a page between 1 and 120");
    assert_eq!(loading_message(3), "Loading 3 pages…");
}

#[test]
fn file_names_fall_back_when_missing() {
    assert_eq!(file_name("/tmp/report.pdf"), "report.pdf");
    assert_eq!(file_name("/"), "PDF");
    assert_eq!(file_stem("/tmp/report.pdf"), "report");
    assert_eq!(file_stem("/"), "document");
    assert_eq!(edited_copy_name("/tmp/report.pdf"), "report-edited.pdf");
}

#[test]
fn file_stems_follow_the_last_dot() {
    let cases = ["/tmp/archive.tar.gz", "/tmp/.hidden", "/tmp/.hidden.pdf", "/tmp/plain", "/tmp/name.", "a/..", "scan.PDF", "/tmp/dir/"];
    for path in cases {
        let expected = std::path::Path::new(path)
            .file_stem()
            .map(|stem| stem.to_str().unwrap().to_owned())
            .unwrap_or_else(|| "document".to_owned());
        assert_eq!(file_stem(path), expected, "{path}");
    }
    assert_eq!(file_stem("/tmp/archive.tar.gz"), "archive.tar");
    assert_eq!(file_stem("/tmp/.hidden"), ".hidden");
    assert_eq!(file_stem("/tmp/name."), "name");
    assert_eq!(edited_copy_name("a/.."), "document-edited.pdf");
}

#[test]
fn edits_are_labelled_and_placed() {
    assert_eq!(edit_label(&EditEntry::Redact { page_index: 0 }), "Redaction · page 1");
    assert_eq!(edit_label(&EditEntry::Note { page_index: 4 }), "Comment · page 5");
    let fill = EditEntry::FillForm { name: "city".to_owned(), value: "Graz".to_owned() };
    assert_eq!(edit_label(&fill), "Form · city");
    assert_eq!(edit_page(&fill), None);
    assert_eq!(edit_page(&EditEntry::AddText { page_index: 3 }), Some(3));
}

#[test]
fn pending_form_value_takes_the_newest_fill() {
    let edits = vec![
        EditEntry::FillForm { name: "city".to_owned(), value: "Graz".to_owned() },
        EditEntry::Highlight { page_index: 0 },
        EditEntry::FillForm { name: "city".to_owned(), value: "Linz".to_owned() },
        EditEntry::FillForm { name: "zip".to_owned(), value: "4020".to_owned() },
    ];
    assert_eq!(pending_form_value(&edits, "city", "Wien"), "Linz");
    assert_eq!(pending_form_value(&edits, "name", "Wien"), "Wien");
}

#[test]
fn page_numbers_are_read_and_checked() {
    assert_eq!(page_input_target(" 3 ", 10), Some(2));
    assert_eq!(page_input_target("+1", 10), Some(0));
    assert_eq!(page_input_target("0", 10), None);
    assert_eq!(page_input_target("11", 10), None);
    assert_eq!(page_input_target("x", 10), None);
    assert_eq!(parse_count("18446744073709551615"), Some(usize::MAX));
    assert_eq!(parse_count("18446744073709551616"), None);
    assert_eq!(parse_count("+"), None);
}

#[test]
fn viewport_range_includes_the_current_page() {
    assert_eq!(visible_pages(10, 4, 0, 0, 0), (4, 4));
    assert_eq!(visible_pages(10, 4, 10, 6, 8), (4, 8));
    assert_eq!(visible_pages(10, 9, 10, 12, 15), (9, 9));
    assert_eq!(search_index_after_refresh(3, false, 5), 3);
    assert_eq!(search_index_after_refresh(3, true, 5), 0);
    assert_eq!(search_index_after_refresh(5, false, 5), 0);
}

#[test]
fn markups_have_labels_and_rasters_swap_channels() {
    assert_eq!(Markup::Strikeout.label(), "Strike out");
    assert_eq!(Markup::Highlight.label(), "Highlight");
    let mut pixels = vec![1, 2, 3, 4, 5, 6, 7, 8, 9];
    swap_red_blue(&mut pixels);
    assert_eq!(pixels, vec![3, 2, 1, 4, 7, 6, 5, 8, 9]);
}

#[test]
fn edit_messages_count_pages_and_characters() {
    assert_eq!(markup_added_message(Markup::Highlight, 1), "Highlight added");
    assert_eq!(markup_added_message(Markup::Strikeout, 3), "Strike out added across 3 pages");
    assert_eq!(no_markup_text_message(Markup::Strikeout), "No text under the strike out selection");
    assert_eq!(redaction_added_message(2), "Redaction added on 2 page(s); applied on save");
    assert_eq!(discarded_edits_message(4), "Discarded 4 pending edit(s)");
    assert_eq!(copied_message(11), "Copied 11 characters");
    assert_eq!(searching_message("abc"), "Searching for \"abc\"");
}

#[test]
fn search_counter_shows_position_among_results() {
    assert_eq!(search_counter("", 0, 5), "");
    assert_eq!(search_counter("abc", 0, 0), "0/0");
    assert_eq!(search_counter("abc", 2, 15), "3/15");
    assert_eq!(page_range_message(1_234_567), "Enter a page between 1 and 1234567");
    assert_eq!(loading_message(usize::MAX), format!("Loading {} pages…", usize::MAX));
}
