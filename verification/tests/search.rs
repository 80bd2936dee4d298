use pdf_ui::navigation::{selection_query, trim_text};
use pdf_ui::search::{match_ranges, step_result_index};

fn runs(texts: &[&str]) -> Vec<String> {
    texts.iter().map(|text| (*text).to_owned()).collect()
}

#[test]
fn finds_each_case_insensitive_match_with_its_own_range() {
    let ranges = match_ranges(&runs(&["Find find!"]), "find");
    assert_eq!(ranges, vec![(0, 4), (5, 9)]);
    assert!(ranges[0].1 <= ranges[1].0);
}

#[test]
fn finds_text_split_across_pdf_fragments() {
    let ranges = match_ranges(&runs(&["Sea", "rch"]), "search");
    assert_eq!(ranges, vec![(0, 6)]);
}

#[test]
fn matches_do_not_overlap_and_non_ascii_queries_match_exactly() {
    assert_eq!(match_ranges(&runs(&["aaaa"]), "aa"), vec![(0, 2), (2, 4)]);
    assert_eq!(match_ranges(&runs(&["Größe größe"]), "größe"), vec![(6, 11)]);
    assert!(match_ranges(&runs(&["text"]), "").is_empty());
    assert!(match_ranges(&runs(&[]), "a").is_empty());
    assert!(match_ranges(&runs(&["ab"]), "abc").is_empty());
}

#[test]
fn search_results_wrap_in_both_directions() {
    assert_eq!(step_result_index(2, 3, false), 0);
    assert_eq!(step_result_index(0, 3, true), 2);
    assert_eq!(step_result_index(1, 3, true), 0);
    assert_eq!(step_result_index(1, 3, false), 2);
}

#[test]
fn queries_are_trimmed() {
    assert_eq!(trim_text("  find me \n"), "find me");
    assert_eq!(trim_text("   "), "");
}

#[test]
fn looking_up_a_selection_searches_its_first_line() {
    assert_eq!(selection_query("  Hello world \r\nsecond"), "Hello world");
    assert_eq!(selection_query("one\ntwo"), "one");
    assert_eq!(selection_query(""), "");
    assert_eq!(selection_query("tail\r"), "tail");
    let long: String = "x".repeat(200);
    assert_eq!(selection_query(&long).len(), 120);
}
