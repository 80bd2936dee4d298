use pdf_ui::model::PageKind;
use pdf_ui::schedule::{distance_from_viewport, plan, plan_background, PageState, Viewport};

const PREVIEW_SCALE: f32 = 0.35;
const MAX_RENDER_SCALE: f32 = 4.0;

/// The flags the planner reads, from a page's raster scales as the editor
/// holds them.
fn state(
    render_scale: f32,
    requested_scale: f32,
    text_loaded: bool,
    text_requested: bool,
    target_scale: f32,
) -> PageState {
    let target = target_scale.clamp(PREVIEW_SCALE, MAX_RENDER_SCALE);
    PageState {
        has_raster: render_scale > 0.0,
        raster_requested: requested_scale > 0.0,
        needs_sharper: requested_scale + 0.01 < target,
        text_loaded,
        text_requested,
    }
}

fn empty_pages(count: usize) -> Vec<PageState> {
    vec![state(0.0, 0.0, false, false, 1.5); count]
}

fn viewport(first: usize, last: usize) -> Viewport {
    Viewport {
        first_visible: first,
        last_visible: last,
        target_above_preview: 1.5_f32.clamp(PREVIEW_SCALE, MAX_RENDER_SCALE) > PREVIEW_SCALE,
    }
}

#[test]
fn visible_pages_get_a_preview_before_the_sharp_raster() {
    let jobs = plan(viewport(0, 0), &empty_pages(200));
    let first: Vec<_> = jobs.iter().filter(|job| job.page_index == 0).collect();

    assert_eq!(first[0].kind, PageKind::Preview);
    assert_eq!(first[1].kind, PageKind::Sharp);
    assert!(first[0].priority < first[1].priority);
}

#[test]
fn distant_pages_are_left_to_the_background_pass() {
    let jobs = plan(viewport(0, 0), &empty_pages(200));

    assert!(jobs.iter().all(|job| job.page_index < 20));
}

#[test]
fn nearer_pages_outrank_further_ones() {
    let jobs = plan(viewport(10, 12), &empty_pages(200));
    let near = jobs
        .iter()
        .find(|job| job.page_index == 13 && job.kind == PageKind::Sharp)
        .expect("near page queued");
    let far = jobs
        .iter()
        .find(|job| job.page_index == 17 && job.kind == PageKind::Preview)
        .expect("far page queued");

    assert!(near.priority < far.priority);
}

#[test]
fn a_satisfied_page_queues_no_raster_work() {
    let pages = vec![state(1.5, 1.5, true, false, 1.5); 3];

    assert!(plan(viewport(0, 2), &pages).is_empty());
}

#[test]
fn plan_priorities_follow_the_tiers() {
    let jobs = plan(viewport(10, 12), &empty_pages(200));
    // Page 9: one page before the viewport, sharp with a visible preview.
    let page9: Vec<_> = jobs.iter().filter(|job| job.page_index == 9).collect();
    assert_eq!(page9.len(), 3);
    assert_eq!((page9[0].kind, page9[0].priority), (PageKind::Preview, 1));
    assert_eq!((page9[1].kind, page9[1].priority), (PageKind::Sharp, 1_001));
    assert_eq!((page9[2].kind, page9[2].priority), (PageKind::Text, 100_001));
    // Page 4: six pages before, a nearby preview and text.
    let page4: Vec<_> = jobs.iter().filter(|job| job.page_index == 4).collect();
    assert_eq!(page4.len(), 2);
    assert_eq!((page4[0].kind, page4[0].priority), (PageKind::Preview, 10_006));
    assert_eq!((page4[1].kind, page4[1].priority), (PageKind::Text, 100_006));
    assert!(jobs.iter().all(|job| (4..=18).contains(&job.page_index)));
    assert!(plan(viewport(0, 0), &[]).is_empty());
}

#[test]
fn background_pass_covers_every_page_still_missing_work() {
    let mut pages = empty_pages(30);
    pages[3] = state(1.5, 1.5, true, false, 1.5);
    let jobs = plan_background(viewport(0, 0), &pages);
    assert_eq!(jobs.len(), 29 * 2);
    assert!(jobs.iter().all(|job| job.page_index != 3));
    let last = &jobs[jobs.len() - 1];
    assert_eq!((last.page_index, last.kind, last.priority), (29, PageKind::Text, 2_000_029));
    assert_eq!(jobs[0].priority, 1_000_000);
}

#[test]
fn distance_is_zero_inside_the_viewport() {
    let v = viewport(10, 12);
    assert_eq!(distance_from_viewport(v, 11), 0);
    assert_eq!(distance_from_viewport(v, 3), 7);
    assert_eq!(distance_from_viewport(v, 20), 8);
}

#[test]
fn background_previews_far_from_the_viewport_only_need_their_own_priority_to_fit() {
    let first = (u32::MAX - 1_500_000) as usize;
    let pages = vec![state(0.0, 0.0, true, false, 1.5)];
    let jobs = plan_background(viewport(first, first), &pages);
    assert_eq!(jobs.len(), 1);
    assert_eq!((jobs[0].kind, jobs[0].priority), (PageKind::Preview, u32::MAX - 500_000));
}
