use pdf_ui::residency::{pages_to_evict, ResidentPage, MAX_IMAGE_BYTES};
use pdf_ui::schedule::Viewport;

fn viewport(first: usize, last: usize) -> Viewport {
    Viewport { first_visible: first, last_visible: last, target_above_preview: true }
}

#[test]
fn nothing_is_evicted_within_budget() {
    let pages = vec![ResidentPage { has_image: true, image_bytes: 1024 }; 40];
    assert!(pages_to_evict(viewport(0, 0), &pages).is_empty());
}

#[test]
fn farthest_pages_are_evicted_first_until_within_budget() {
    let quarter = MAX_IMAGE_BYTES / 4;
    let pages = vec![ResidentPage { has_image: true, image_bytes: quarter }; 30];
    let evicted = pages_to_evict(viewport(0, 0), &pages);
    // 30 quarters: 26 must go; pages 0..=8 stay resident whatever the cost.
    assert_eq!(evicted.len(), 21);
    assert_eq!(evicted[0], 29);
    assert_eq!(evicted[20], 9);
    for pair in evicted.windows(2) {
        assert!(pair[0] > pair[1]);
    }
}

#[test]
fn only_pages_holding_a_raster_are_evicted() {
    let mut pages = vec![ResidentPage { has_image: false, image_bytes: 0 }; 20];
    pages[0].image_bytes = MAX_IMAGE_BYTES;
    pages[0].has_image = true;
    pages[15] = ResidentPage { has_image: true, image_bytes: 10 };
    let evicted = pages_to_evict(viewport(0, 0), &pages);
    assert_eq!(evicted, vec![15]);
}
