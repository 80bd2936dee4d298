use vstd::prelude::*;

use crate::model::PageKind;

verus! {

/// Pages on each side of the viewport kept at full quality, so scrolling by a
/// page or two shows a sharp raster immediately.
pub const SHARP_MARGIN: usize = 1;

/// Pages on each side of the viewport that get a preview, so fast scrolling
/// still lands on something other than an empty rectangle.
pub const PREVIEW_MARGIN: usize = 6;

/// Base priorities of the job tiers; a page's distance from the viewport is
/// added to them, and lower runs first.
pub const VISIBLE_PREVIEW_PRIORITY: u32 = 0;
pub const SHARP_PRIORITY: u32 = 1_000;
pub const NEARBY_PREVIEW_PRIORITY: u32 = 10_000;
pub const NEARBY_TEXT_PRIORITY: u32 = 100_000;
pub const BACKGROUND_PREVIEW_PRIORITY: u32 = 1_000_000;
pub const BACKGROUND_TEXT_PRIORITY: u32 = 2_000_000;

/// What the planner needs to know of one page. The raster scales themselves
/// stay with the caller, which answers the three questions the plan asks of
/// them.
#[derive(Clone, Copy, Debug)]
pub struct PageState {
    /// A raster is on screen (its scale is above zero).
    pub has_raster: bool,
    /// Some raster was already asked for (the requested scale is above zero).
    pub raster_requested: bool,
    /// The scale asked for so far falls short of the target scale, clamped to
    /// the preview scale and the maximum render scale, by more than a hundredth.
    pub needs_sharper: bool,
    pub text_loaded: bool,
    pub text_requested: bool,
}

#[derive(Clone, Copy, Debug)]
pub struct Viewport {
    pub first_visible: usize,
    pub last_visible: usize,
    /// The target scale, clamped as above, lies above the preview scale, so a
    /// preview is worth showing before the sharp raster arrives.
    pub target_above_preview: bool,
}

/// One unit of work for the page worker.
#[derive(Clone, Copy, Debug, PartialEq, Eq, Structural)]
pub struct PageJob {
    pub page_index: usize,
    pub kind: PageKind,
    /// Lower runs first.
    pub priority: u32,
}

/// Pages between `page_index` and the visible range; zero inside it.
pub open spec fn page_distance(viewport: Viewport, page_index: int) -> int {
    let before = viewport.first_visible - page_index;
    let after = page_index - viewport.last_visible;
    if before >= after && before >= 0 {
        before
    } else if after >= 0 {
        after
    } else {
        0
    }
}

/// The distance as the planner stores it: saturated at `u32::MAX`.
pub open spec fn stored_distance(viewport: Viewport, page_index: int) -> int {
    let d = page_distance(viewport, page_index);
    if d > u32::MAX {
        u32::MAX as int
    } else {
        d
    }
}

pub open spec fn within(viewport: Viewport, page_index: int, margin: int) -> bool {
    viewport.first_visible - margin <= page_index <= viewport.last_visible + margin
}

pub open spec fn job(page_index: int, kind: PageKind, priority: int) -> PageJob {
    PageJob { page_index: page_index as usize, kind, priority: priority as u32 }
}

/// The raster work the viewport pass queues for one page.
pub open spec fn raster_jobs(viewport: Viewport, page: PageState, i: int) -> Seq<PageJob> {
    let d = stored_distance(viewport, i);
    if within(viewport, i, SHARP_MARGIN as int) && page.needs_sharper {
        let sharp = seq![job(i, PageKind::Sharp, SHARP_PRIORITY + d)];
        if !page.has_raster && viewport.target_above_preview {
            seq![job(i, PageKind::Preview, VISIBLE_PREVIEW_PRIORITY + d)] + sharp
        } else {
            sharp
        }
    } else if within(viewport, i, PREVIEW_MARGIN as int) && !page.has_raster
        && !page.raster_requested {
        seq![job(i, PageKind::Preview, NEARBY_PREVIEW_PRIORITY + d)]
    } else {
        Seq::empty()
    }
}

/// The text work the viewport pass queues for one page.
pub open spec fn text_jobs(viewport: Viewport, page: PageState, i: int) -> Seq<PageJob> {
    if !page.text_loaded && !page.text_requested && within(viewport, i, PREVIEW_MARGIN as int) {
        seq![job(i, PageKind::Text, NEARBY_TEXT_PRIORITY + stored_distance(viewport, i))]
    } else {
        Seq::empty()
    }
}

pub open spec fn page_jobs(viewport: Viewport, page: PageState, i: int) -> Seq<PageJob> {
    raster_jobs(viewport, page, i) + text_jobs(viewport, page, i)
}

/// The viewport pass over the first `count` pages, page by page.
pub open spec fn planned(viewport: Viewport, pages: Seq<PageState>, count: int) -> Seq<PageJob>
    decreases count,
{
    if count <= 0 {
        Seq::empty()
    } else {
        planned(viewport, pages, count - 1) + page_jobs(viewport, pages[count - 1], count - 1)
    }
}

/// The work the background pass queues for one page.
pub open spec fn background_page_jobs(viewport: Viewport, page: PageState, i: int) -> Seq<PageJob> {
    let d = stored_distance(viewport, i);
    let raster = if !page.has_raster && !page.raster_requested {
        seq![job(i, PageKind::Preview, BACKGROUND_PREVIEW_PRIORITY + d)]
    } else {
        Seq::empty()
    };
    let text = if !page.text_loaded && !page.text_requested {
        seq![job(i, PageKind::Text, BACKGROUND_TEXT_PRIORITY + d)]
    } else {
        Seq::empty()
    };
    raster + text
}

pub open spec fn planned_background(viewport: Viewport, pages: Seq<PageState>, count: int) -> Seq<
    PageJob,
>
    decreases count,
{
    if count <= 0 {
        Seq::empty()
    } else {
        planned_background(viewport, pages, count - 1) + background_page_jobs(
            viewport,
            pages[count - 1],
            count - 1,
        )
    }
}

/// The priorities of the background jobs planned for a page fit in `u32`.
pub open spec fn background_fits(viewport: Viewport, page: PageState, i: int) -> bool {
    let d = stored_distance(viewport, i);
    &&& !page.has_raster && !page.raster_requested ==> d + BACKGROUND_PREVIEW_PRIORITY <= u32::MAX
    &&& !page.text_loaded && !page.text_requested ==> d + BACKGROUND_TEXT_PRIORITY <= u32::MAX
}

/// Pages away from the visible range, saturated at `u32::MAX`.
pub fn distance_from_viewport(viewport: Viewport, page_index: usize) -> (distance: u32)
    ensures
        distance == stored_distance(viewport, page_index as int),
{
    let before = viewport.first_visible.saturating_sub(page_index);
    let after = page_index.saturating_sub(viewport.last_visible);
    let distance = if before >= after {
        before
    } else {
        after
    };
    if distance > u32::MAX as usize {
        u32::MAX
    } else {
        distance as u32
    }
}

/// Picks the work worth doing for the current viewport, nearest page first.
///
/// Visible pages are rasterised sharp; nearby pages get a cheap preview so
/// scrolling is never blocked behind full-quality rendering of pages the
/// reader has already passed.
pub fn plan(viewport: Viewport, pages: &[PageState]) -> (jobs: Vec<PageJob>)
    requires
        viewport.last_visible + PREVIEW_MARGIN <= usize::MAX,
    ensures
        jobs@ == planned(viewport, pages@, pages@.len() as int),
{
    let mut jobs: Vec<PageJob> = Vec::new();
    if pages.len() == 0 {
        return jobs;
    }
    let sharp_first = viewport.first_visible.saturating_sub(SHARP_MARGIN);
    let sharp_last = if viewport.last_visible + SHARP_MARGIN <= pages.len() - 1 {
        viewport.last_visible + SHARP_MARGIN
    } else {
        pages.len() - 1
    };
    let preview_first = viewport.first_visible.saturating_sub(PREVIEW_MARGIN);
    let preview_last = if viewport.last_visible + PREVIEW_MARGIN <= pages.len() - 1 {
        viewport.last_visible + PREVIEW_MARGIN
    } else {
        pages.len() - 1
    };
    let mut page_index: usize = 0;
    while page_index < pages.len()
        invariant
            page_index <= pages@.len(),
            pages@.len() > 0,
            sharp_first == (if viewport.first_visible >= SHARP_MARGIN {
                viewport.first_visible - SHARP_MARGIN
            } else {
                0
            }),
            sharp_last == (if viewport.last_visible + SHARP_MARGIN <= pages@.len() - 1 {
                viewport.last_visible + SHARP_MARGIN
            } else {
                pages@.len() - 1
            }),
            preview_first == (if viewport.first_visible >= PREVIEW_MARGIN {
                viewport.first_visible - PREVIEW_MARGIN
            } else {
                0
            }),
            preview_last == (if viewport.last_visible + PREVIEW_MARGIN <= pages@.len() - 1 {
                viewport.last_visible + PREVIEW_MARGIN
            } else {
                pages@.len() - 1
            }),
            jobs@ == planned(viewport, pages@, page_index as int),
        decreases pages@.len() - page_index,
    {
        let page = pages[page_index];
        let distance = distance_from_viewport(viewport, page_index);
        let sharp = sharp_first <= page_index && page_index <= sharp_last;
        let previewable = preview_first <= page_index && page_index <= preview_last;
        let ghost before = jobs@;
        assert(sharp == within(viewport, page_index as int, SHARP_MARGIN as int));
        assert(previewable == within(viewport, page_index as int, PREVIEW_MARGIN as int));
        if sharp && page.needs_sharper {
            assert(distance <= SHARP_MARGIN);
            // An empty page renders a preview first so something appears while
            // the full-quality raster is still being produced.
            if !page.has_raster && viewport.target_above_preview {
                jobs.push(
                    PageJob {
                        page_index,
                        kind: PageKind::Preview,
                        priority: VISIBLE_PREVIEW_PRIORITY + distance,
                    },
                );
            }
            jobs.push(
                PageJob { page_index, kind: PageKind::Sharp, priority: SHARP_PRIORITY + distance },
            );
        } else if previewable && !page.has_raster && !page.raster_requested {
            assert(distance <= PREVIEW_MARGIN);
            jobs.push(
                PageJob {
                    page_index,
                    kind: PageKind::Preview,
                    priority: NEARBY_PREVIEW_PRIORITY + distance,
                },
            );
        }
        let ghost middle = jobs@;
        assert(middle == before + raster_jobs(viewport, page, page_index as int));
        if !page.text_loaded && !page.text_requested && previewable {
            assert(distance <= PREVIEW_MARGIN);
            jobs.push(
                PageJob { page_index, kind: PageKind::Text, priority: NEARBY_TEXT_PRIORITY + distance },
            );
        }
        assert(jobs@ == middle + text_jobs(viewport, page, page_index as int));
        assert(jobs@ == planned(viewport, pages@, page_index + 1));
        page_index = page_index + 1;
    }
    jobs
}

/// Background pass that fills in the rest of a document once the viewport is
/// satisfied, so search and thumbnails eventually cover every page.
pub fn plan_background(viewport: Viewport, pages: &[PageState]) -> (jobs: Vec<PageJob>)
    requires
        forall|i: int| 0 <= i < pages@.len() ==> #[trigger] background_fits(viewport, pages@[i], i),
    ensures
        jobs@ == planned_background(viewport, pages@, pages@.len() as int),
{
    let mut jobs: Vec<PageJob> = Vec::new();
    let mut page_index: usize = 0;
    while page_index < pages.len()
        invariant
            page_index <= pages@.len(),
            forall|i: int| 0 <= i < pages@.len() ==> #[trigger] background_fits(viewport, pages@[i], i),
            jobs@ == planned_background(viewport, pages@, page_index as int),
        decreases pages@.len() - page_index,
    {
        let page = pages[page_index];
        let distance = distance_from_viewport(viewport, page_index);
        assert(background_fits(viewport, pages@[page_index as int], page_index as int));
        let ghost before = jobs@;
        if !page.has_raster && !page.raster_requested {
            jobs.push(
                PageJob {
                    page_index,
                    kind: PageKind::Preview,
                    priority: BACKGROUND_PREVIEW_PRIORITY + distance,
                },
            );
        }
        if !page.text_loaded && !page.text_requested {
            jobs.push(
                PageJob {
                    page_index,
                    kind: PageKind::Text,
                    priority: BACKGROUND_TEXT_PRIORITY + distance,
                },
            );
        }
        assert(jobs@ == before + background_page_jobs(viewport, page, page_index as int));
        assert(jobs@ == planned_background(viewport, pages@, page_index + 1));
        page_index = page_index + 1;
    }
    jobs
}

/// Every job of the viewport pass over the first `count` pages comes from the
/// per-page work of one of those pages.
proof fn lemma_planned_member(viewport: Viewport, pages: Seq<PageState>, count: int, idx: int)
    requires
        0 <= count <= pages.len(),
        0 <= idx < planned(viewport, pages, count).len(),
    ensures
        exists|i: int|
            0 <= i < count && #[trigger] page_jobs(viewport, pages[i], i).contains(
                planned(viewport, pages, count)[idx],
            ),
    decreases count,
{
    let prev = planned(viewport, pages, count - 1);
    let here = page_jobs(viewport, pages[count - 1], count - 1);
    assert(planned(viewport, pages, count) == prev + here);
    if idx < prev.len() {
        lemma_planned_member(viewport, pages, count - 1, idx);
        let i = choose|i: int| 0 <= i < count - 1 && #[trigger] page_jobs(viewport, pages[i], i).contains(prev[idx]);
        assert(page_jobs(viewport, pages[i], i).contains(planned(viewport, pages, count)[idx]));
    } else {
        assert(here[idx - prev.len()] == planned(viewport, pages, count)[idx]);
        assert(here.contains(planned(viewport, pages, count)[idx]));
    }
}

/// The base priority of a job of the viewport pass: its priority less its
/// page's distance from the viewport.
pub open spec fn job_base(viewport: Viewport, j: PageJob) -> int {
    j.priority - stored_distance(viewport, j.page_index as int)
}

/// What one job of the viewport pass looks like: its page lies within the
/// preview margin of the viewport, and its priority is the base of its tier
/// plus its page's distance, a preview ahead of the sharp raster only on a
/// page that also gets the sharp raster.
pub open spec fn well_placed(viewport: Viewport, count: int, j: PageJob) -> bool {
    let d = stored_distance(viewport, j.page_index as int);
    &&& j.page_index < count
    &&& within(viewport, j.page_index as int, PREVIEW_MARGIN as int)
    &&& d <= PREVIEW_MARGIN
    &&& match j.kind {
        PageKind::Sharp => j.priority == SHARP_PRIORITY + d && d <= SHARP_MARGIN,
        PageKind::Text => j.priority == NEARBY_TEXT_PRIORITY + d,
        PageKind::Preview => j.priority == NEARBY_PREVIEW_PRIORITY + d || (j.priority
            == VISIBLE_PREVIEW_PRIORITY + d && d <= SHARP_MARGIN),
    }
}

proof fn lemma_page_jobs_well_placed(
    viewport: Viewport,
    pages: Seq<PageState>,
    i: int,
    j: PageJob,
)
    requires
        0 <= i < pages.len() <= usize::MAX,
        page_jobs(viewport, pages[i], i).contains(j),
    ensures
        well_placed(viewport, pages.len() as int, j),
        j.page_index == i,
{
    let r = raster_jobs(viewport, pages[i], i);
    let t = text_jobs(viewport, pages[i], i);
    let k = choose|k: int| 0 <= k < (r + t).len() && (r + t)[k] == j;
    if k < r.len() {
        assert(r[k] == j);
    } else {
        assert(t[k - r.len()] == j);
    }
}

/// The viewport pass leaves distant pages to the background pass: each of its
/// jobs is for a page within the preview margin of the viewport.
pub proof fn lemma_plan_stays_near_viewport(viewport: Viewport, pages: Seq<PageState>)
    requires
        pages.len() <= usize::MAX,
    ensures
        forall|idx: int|
            0 <= idx < planned(viewport, pages, pages.len() as int).len() ==> well_placed(
                viewport,
                pages.len() as int,
                #[trigger] planned(viewport, pages, pages.len() as int)[idx],
            ),
{
    let n = pages.len() as int;
    assert forall|idx: int| 0 <= idx < planned(viewport, pages, n).len() implies well_placed(
        viewport,
        n,
        #[trigger] planned(viewport, pages, n)[idx],
    ) by {
        lemma_planned_member(viewport, pages, n, idx);
        let i = choose|i: int| 0 <= i < n && #[trigger] page_jobs(viewport, pages[i], i).contains(
            planned(viewport, pages, n)[idx],
        );
        lemma_page_jobs_well_placed(viewport, pages, i, planned(viewport, pages, n)[idx]);
    }
}

/// Nearer pages outrank further ones: between two jobs of the viewport pass,
/// a lower tier always runs first, and within one tier the nearer page runs
/// first.
pub proof fn lemma_plan_nearer_first(viewport: Viewport, pages: Seq<PageState>, a: int, b: int)
    requires
        pages.len() <= usize::MAX,
        0 <= a < planned(viewport, pages, pages.len() as int).len(),
        0 <= b < planned(viewport, pages, pages.len() as int).len(),
    ensures
        ({
            let plan = planned(viewport, pages, pages.len() as int);
            &&& job_base(viewport, plan[a]) < job_base(viewport, plan[b]) ==> plan[a].priority
                < plan[b].priority
            &&& job_base(viewport, plan[a]) == job_base(viewport, plan[b]) ==> (plan[a].priority
                < plan[b].priority <==> stored_distance(viewport, plan[a].page_index as int)
                < stored_distance(viewport, plan[b].page_index as int))
        }),
{
    lemma_plan_stays_near_viewport(viewport, pages);
    let plan = planned(viewport, pages, pages.len() as int);
    assert(well_placed(viewport, pages.len() as int, plan[a]));
    assert(well_placed(viewport, pages.len() as int, plan[b]));
}

/// A visible page that gets both a preview and a sharp raster gets the
/// preview first.
pub proof fn lemma_preview_before_sharp(viewport: Viewport, pages: Seq<PageState>, a: int, b: int)
    requires
        pages.len() <= usize::MAX,
        0 <= a < planned(viewport, pages, pages.len() as int).len(),
        0 <= b < planned(viewport, pages, pages.len() as int).len(),
        planned(viewport, pages, pages.len() as int)[a].kind == PageKind::Preview,
        planned(viewport, pages, pages.len() as int)[b].kind == PageKind::Sharp,
        planned(viewport, pages, pages.len() as int)[a].page_index == planned(
            viewport,
            pages,
            pages.len() as int,
        )[b].page_index,
    ensures
        planned(viewport, pages, pages.len() as int)[a].priority < planned(
            viewport,
            pages,
            pages.len() as int,
        )[b].priority,
{
    let n = pages.len() as int;
    let plan = planned(viewport, pages, n);
    lemma_planned_member(viewport, pages, n, a);
    lemma_planned_member(viewport, pages, n, b);
    let ia = choose|i: int| 0 <= i < n && #[trigger] page_jobs(viewport, pages[i], i).contains(plan[a]);
    let ib = choose|i: int| 0 <= i < n && #[trigger] page_jobs(viewport, pages[i], i).contains(plan[b]);
    lemma_page_jobs_well_placed(viewport, pages, ia, plan[a]);
    lemma_page_jobs_well_placed(viewport, pages, ib, plan[b]);
    assert(ia == ib);
    let r = raster_jobs(viewport, pages[ia], ia);
    let t = text_jobs(viewport, pages[ia], ia);
    let jobs = r + t;
    let ka = choose|k: int| 0 <= k < jobs.len() && jobs[k] == plan[a];
    if ka >= r.len() {
        assert(t[ka - r.len()] == plan[a]);
    }
    let kb = choose|k: int| 0 <= k < jobs.len() && jobs[k] == plan[b];
    if kb >= r.len() {
        assert(t[kb - r.len()] == plan[b]);
    }
    assert(r[ka] == plan[a]);
    assert(r[kb] == plan[b]);
}

/// A page whose raster is on screen at the wanted scale and whose text is in
/// (or on its way) gets no work from either pass.
pub proof fn lemma_satisfied_page_queues_nothing(viewport: Viewport, page: PageState, i: int)
    requires
        page.has_raster,
        page.raster_requested,
        !page.needs_sharper,
        page.text_loaded || page.text_requested,
    ensures
        page_jobs(viewport, page, i).len() == 0,
        background_page_jobs(viewport, page, i).len() == 0,
{
}

/// When every page is satisfied, the viewport pass queues nothing at all.
pub proof fn lemma_satisfied_document_queues_nothing(
    viewport: Viewport,
    pages: Seq<PageState>,
    count: int,
)
    requires
        0 <= count <= pages.len(),
        forall|i: int|
            #![trigger pages[i]]
            0 <= i < pages.len() ==> {
                &&& pages[i].has_raster
                &&& pages[i].raster_requested
                &&& !pages[i].needs_sharper
                &&& pages[i].text_loaded || pages[i].text_requested
            },
    ensures
        planned(viewport, pages, count).len() == 0,
    decreases count,
{
    if count > 0 {
        lemma_satisfied_document_queues_nothing(viewport, pages, count - 1);
        lemma_satisfied_page_queues_nothing(viewport, pages[count - 1], count - 1);
    }
}

/// The background pass covers the whole document: every page still without
/// a raster gets a preview, and every page still without text gets its text.
pub proof fn lemma_background_covers_every_page(
    viewport: Viewport,
    pages: Seq<PageState>,
    count: int,
    i: int,
)
    requires
        0 <= i < count <= pages.len(),
    ensures
        !pages[i].has_raster && !pages[i].raster_requested ==> planned_background(
            viewport,
            pages,
            count,
        ).contains(
            job(i, PageKind::Preview, BACKGROUND_PREVIEW_PRIORITY + stored_distance(viewport, i)),
        ),
        !pages[i].text_loaded && !pages[i].text_requested ==> planned_background(
            viewport,
            pages,
            count,
        ).contains(job(i, PageKind::Text, BACKGROUND_TEXT_PRIORITY + stored_distance(viewport, i))),
    decreases count,
{
    let prev = planned_background(viewport, pages, count - 1);
    let here = background_page_jobs(viewport, pages[count - 1], count - 1);
    let all = planned_background(viewport, pages, count);
    assert(all == prev + here);
    if i < count - 1 {
        lemma_background_covers_every_page(viewport, pages, count - 1, i);
        if prev.contains(
            job(i, PageKind::Preview, BACKGROUND_PREVIEW_PRIORITY + stored_distance(viewport, i)),
        ) {
            let k = choose|k: int|
                0 <= k < prev.len() && prev[k] == job(
                    i,
                    PageKind::Preview,
                    BACKGROUND_PREVIEW_PRIORITY + stored_distance(viewport, i),
                );
            assert(all[k] == prev[k]);
        }
        if prev.contains(
            job(i, PageKind::Text, BACKGROUND_TEXT_PRIORITY + stored_distance(viewport, i)),
        ) {
            let k = choose|k: int|
                0 <= k < prev.len() && prev[k] == job(
                    i,
                    PageKind::Text,
                    BACKGROUND_TEXT_PRIORITY + stored_distance(viewport, i),
                );
            assert(all[k] == prev[k]);
        }
    } else {
        if !pages[i].has_raster && !pages[i].raster_requested {
            assert(all[prev.len() as int] == here[0]);
        }
        if !pages[i].text_loaded && !pages[i].text_requested {
            assert(all[all.len() - 1] == here[here.len() - 1]);
        }
    }
}

/// Every page within the sharp margin of the visible range whose raster
/// falls short of the target scale gets a sharp raster, whether or not it
/// already shows one (after a zoom the shown raster is too coarse): the
/// viewport pass queues a sharp job for it, at the sharp tier plus its
/// distance from the visible range.
pub proof fn lemma_plan_sharpens_near_pages(
    viewport: Viewport,
    pages: Seq<PageState>,
    count: int,
    i: int,
)
    requires
        0 <= i < count <= pages.len(),
        viewport.first_visible - SHARP_MARGIN <= i <= viewport.last_visible + SHARP_MARGIN,
        pages[i].needs_sharper,
    ensures
        planned(viewport, pages, count).contains(
            job(i, PageKind::Sharp, SHARP_PRIORITY + page_distance(viewport, i)),
        ),
        page_distance(viewport, i) <= SHARP_MARGIN,
    decreases count,
{
    let target = job(i, PageKind::Sharp, SHARP_PRIORITY + page_distance(viewport, i));
    let prev = planned(viewport, pages, count - 1);
    let here = page_jobs(viewport, pages[count - 1], count - 1);
    let all = planned(viewport, pages, count);
    assert(all == prev + here);
    if i < count - 1 {
        lemma_plan_sharpens_near_pages(viewport, pages, count - 1, i);
        let k = choose|k: int| 0 <= k < prev.len() && prev[k] == target;
        assert(all[k] == prev[k]);
    } else {
        let r = raster_jobs(viewport, pages[i], i);
        assert(r[r.len() - 1] == target);
        assert(here[r.len() - 1] == r[r.len() - 1]);
        assert(all[prev.len() + r.len() - 1] == target);
    }
}

proof fn lemma_planned_includes(
    viewport: Viewport,
    pages: Seq<PageState>,
    count: int,
    i: int,
    j: PageJob,
)
    requires
        0 <= i < count <= pages.len(),
        page_jobs(viewport, pages[i], i).contains(j),
    ensures
        planned(viewport, pages, count).contains(j),
    decreases count,
{
    let prev = planned(viewport, pages, count - 1);
    let here = page_jobs(viewport, pages[count - 1], count - 1);
    let all = planned(viewport, pages, count);
    assert(all == prev + here);
    if i < count - 1 {
        lemma_planned_includes(viewport, pages, count - 1, i, j);
        let k = choose|k: int| 0 <= k < prev.len() && prev[k] == j;
        assert(all[k] == prev[k]);
    } else {
        let k = choose|k: int| 0 <= k < here.len() && here[k] == j;
        assert(all[prev.len() + k] == j);
    }
}

/// The viewport pass fills in what nearby pages lack: a page within the sharp
/// margin that needs a sharper raster and shows none yet gets a preview ahead
/// of everything else when the target scale lies above the preview scale; any
/// other page within the preview margin that has no raster and none asked for
/// gets a nearby preview; and every page within the preview margin whose text
/// is neither loaded nor asked for gets its text. Each at its tier plus the
/// page's distance from the visible range.
pub proof fn lemma_plan_fills_nearby_pages(
    viewport: Viewport,
    pages: Seq<PageState>,
    count: int,
    i: int,
)
    requires
        0 <= i < count <= pages.len(),
        viewport.first_visible - PREVIEW_MARGIN <= i <= viewport.last_visible + PREVIEW_MARGIN,
    ensures
        page_distance(viewport, i) <= PREVIEW_MARGIN,
        ({
            let p = pages[i];
            let d = page_distance(viewport, i);
            let near = viewport.first_visible - SHARP_MARGIN <= i <= viewport.last_visible
                + SHARP_MARGIN;
            &&& near && p.needs_sharper && !p.has_raster && viewport.target_above_preview
                ==> planned(viewport, pages, count).contains(
                job(i, PageKind::Preview, VISIBLE_PREVIEW_PRIORITY + d),
            )
            &&& !(near && p.needs_sharper) && !p.has_raster && !p.raster_requested
                ==> planned(viewport, pages, count).contains(
                job(i, PageKind::Preview, NEARBY_PREVIEW_PRIORITY + d),
            )
            &&& !p.text_loaded && !p.text_requested ==> planned(viewport, pages, count).contains(
                job(i, PageKind::Text, NEARBY_TEXT_PRIORITY + d),
            )
        }),
{
    let p = pages[i];
    let d = page_distance(viewport, i);
    let r = raster_jobs(viewport, p, i);
    let t = text_jobs(viewport, p, i);
    let all = page_jobs(viewport, p, i);
    assert(all == r + t);
    let near = viewport.first_visible - SHARP_MARGIN <= i <= viewport.last_visible + SHARP_MARGIN;
    if near && p.needs_sharper && !p.has_raster && viewport.target_above_preview {
        assert(all[0] == job(i, PageKind::Preview, VISIBLE_PREVIEW_PRIORITY + d));
        lemma_planned_includes(viewport, pages, count, i, all[0]);
    }
    if !(near && p.needs_sharper) && !p.has_raster && !p.raster_requested {
        assert(all[0] == job(i, PageKind::Preview, NEARBY_PREVIEW_PRIORITY + d));
        lemma_planned_includes(viewport, pages, count, i, all[0]);
    }
    if !p.text_loaded && !p.text_requested {
        assert(all[all.len() - 1] == job(i, PageKind::Text, NEARBY_TEXT_PRIORITY + d));
        lemma_planned_includes(viewport, pages, count, i, all[all.len() - 1]);
    }
}

} // verus!
