use pdf_ui::selection::{is_white_space, join_selection, page_groups, text_selection, RunSpacing, SelectionEdge};

fn edge(page_index: usize, fragment: usize) -> SelectionEdge {
    SelectionEdge { page_index, fragment }
}

/// Pages as the words of their runs.
fn texts(pages: &[Vec<&str>], runs: &[SelectionEdge]) -> Vec<String> {
    runs.iter().map(|run| pages[run.page_index][run.fragment].to_owned()).collect()
}

fn counts(pages: &[Vec<&str>]) -> Vec<usize> {
    pages.iter().map(|page| page.len()).collect()
}

#[test]
fn selection_spans_whole_pages_between_its_edges() {
    let pages = vec![vec!["one", "two"], vec!["three", "four"], vec!["five", "six"]];

    let runs = text_selection(&counts(&pages), edge(0, 1), edge(2, 0));

    assert_eq!(texts(&pages, &runs), ["two", "three", "four", "five"]);
}

#[test]
fn selection_is_the_same_when_dragged_backwards() {
    let pages = vec![vec!["one", "two"], vec!["three"]];

    let forward = text_selection(&counts(&pages), edge(0, 1), edge(1, 0));
    let backward = text_selection(&counts(&pages), edge(1, 0), edge(0, 1));

    assert_eq!(texts(&pages, &forward), texts(&pages, &backward));
    assert_eq!(texts(&pages, &forward), ["two", "three"]);
}

#[test]
fn selection_skips_empty_pages_and_clamps_to_the_document() {
    let pages = vec![vec!["a", "b"], vec![], vec!["c", "d", "e"]];
    let runs = text_selection(&counts(&pages), edge(0, 1), edge(7, 9));
    assert_eq!(texts(&pages, &runs), ["b", "c", "d", "e"]);
    let same_page = text_selection(&counts(&pages), edge(2, 2), edge(2, 1));
    assert_eq!(texts(&pages, &same_page), ["d", "e"]);
    assert!(text_selection(&[], edge(0, 0), edge(3, 3)).is_empty());
    assert!(text_selection(&counts(&pages), edge(0, 5), edge(0, 7)).is_empty());
}

/// How a run sits against the one before it, from the rectangles the
/// editor holds: (page, x_min, y_min, x_max, y_max).
fn spacing(runs: &[(usize, f64, f64, f64, f64)]) -> Vec<RunSpacing> {
    let mut out = vec![RunSpacing::NarrowGap];
    for pair in runs.windows(2) {
        let (last, run) = (pair[0], pair[1]);
        if last.0 != run.0 {
            out.push(RunSpacing::LineBreak);
            continue;
        }
        let line_height = (last.4 - last.2).max(1.0);
        if (last.2 - run.2).abs() > line_height * 0.5 {
            out.push(RunSpacing::LineBreak);
        } else if run.1 - last.3 > line_height * 0.22 {
            out.push(RunSpacing::WideGap);
        } else {
            out.push(RunSpacing::NarrowGap);
        }
    }
    out
}

#[test]
fn joined_selection_breaks_lines_between_pages() {
    let rects = [(0, 0.0, 100.0, 40.0, 110.0), (1, 0.0, 700.0, 40.0, 710.0)];
    let words = vec!["end".to_owned(), "start".to_owned()];

    assert_eq!(join_selection(&words, &spacing(&rects)), "end\nstart");
}

#[test]
fn selection_reconstructs_spaces_and_line_breaks() {
    let rects = [
        (0, 0.0, 100.0, 40.0, 110.0),
        (0, 46.0, 100.0, 90.0, 110.0),
        (0, 0.0, 86.0, 30.0, 96.0),
    ];
    let words = vec!["Hello".to_owned(), "world".to_owned(), "next".to_owned()];

    assert_eq!(join_selection(&words, &spacing(&rects)), "Hello world\nnext");
}

#[test]
fn selection_keeps_tight_runs_as_one_word() {
    let rects = [(0, 0.0, 100.0, 20.0, 110.0), (0, 20.2, 100.0, 40.0, 110.0)];
    let words = vec!["Zusammen".to_owned(), "fassung".to_owned()];

    assert_eq!(join_selection(&words, &spacing(&rects)), "Zusammenfassung");
}

#[test]
fn wide_gaps_add_no_space_after_a_hyphen_or_before_a_blank() {
    let gaps = vec![RunSpacing::NarrowGap, RunSpacing::WideGap, RunSpacing::WideGap, RunSpacing::WideGap];
    let words = vec!["well-".to_owned(), "known".to_owned(), " gap".to_owned(), "end".to_owned()];
    assert_eq!(join_selection(&words, &gaps), "well-known gap end");
    assert_eq!(join_selection(&[], &[]), "");
}

#[test]
fn selected_runs_group_into_one_annotation_per_page() {
    let groups = page_groups(&[0, 0, 1, 3, 3, 3]);
    let spans: Vec<(usize, usize, usize)> =
        groups.iter().map(|g| (g.page_index, g.start, g.end)).collect();
    assert_eq!(spans, vec![(0, 0, 2), (1, 2, 3), (3, 3, 6)]);
    assert!(page_groups(&[]).is_empty());
}

#[test]
fn white_space_is_what_std_calls_whitespace() {
    for code in 0u32..0x11_0000 {
        if let Some(c) = char::from_u32(code) {
            assert_eq!(is_white_space(c), c.is_whitespace(), "U+{code:04X}");
        }
    }
}
