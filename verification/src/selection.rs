use vstd::prelude::*;

verus! {

/// Where a selection starts or ends: a page plus an index into that page's
/// text runs.
#[derive(Clone, Copy, Debug, PartialEq, Eq, Structural)]
pub struct SelectionEdge {
    pub page_index: usize,
    pub fragment: usize,
}

/// Document order of edges: by page, then by run.
pub open spec fn edge_before(a: SelectionEdge, b: SelectionEdge) -> bool {
    a.page_index < b.page_index || (a.page_index == b.page_index && a.fragment < b.fragment)
}

/// The earlier and the later of two edges.
pub open spec fn ordered_edges(a: SelectionEdge, b: SelectionEdge) -> (SelectionEdge, SelectionEdge) {
    if edge_before(b, a) {
        (b, a)
    } else {
        (a, b)
    }
}

/// Whether the run `e` lies between `first` and `last` (both included), on a
/// page of the document and within that page's runs; `counts` holds the
/// number of runs of each page.
pub open spec fn in_selection(
    counts: Seq<usize>,
    first: SelectionEdge,
    last: SelectionEdge,
    e: SelectionEdge,
) -> bool {
    &&& first.page_index <= e.page_index <= last.page_index
    &&& e.page_index < counts.len()
    &&& e.fragment < counts[e.page_index as int]
    &&& e.page_index == first.page_index ==> first.fragment <= e.fragment
    &&& e.page_index == last.page_index ==> e.fragment <= last.fragment
}

pub open spec fn strictly_ordered(runs: Seq<SelectionEdge>) -> bool {
    forall|i: int, j: int| 0 <= i < j < runs.len() ==> edge_before(#[trigger] runs[i], #[trigger] runs[j])
}

/// `runs` is the selection between `anchor` and `head`: every run between the
/// two edges, whichever comes first, once each and in document order.
pub open spec fn is_selection(
    counts: Seq<usize>,
    anchor: SelectionEdge,
    head: SelectionEdge,
    runs: Seq<SelectionEdge>,
) -> bool {
    let (first, last) = ordered_edges(anchor, head);
    &&& strictly_ordered(runs)
    &&& forall|e: SelectionEdge| runs.contains(e) <==> in_selection(counts, first, last, e)
}

/// The text runs between two edges, walking whole pages in between so a drag
/// can span any number of pages. `fragment_counts` holds the number of runs of
/// each page; a run is named by its page and its index on that page.
pub fn text_selection(fragment_counts: &[usize], anchor: SelectionEdge, head: SelectionEdge) -> (runs:
    Vec<SelectionEdge>)
    ensures
        is_selection(fragment_counts@, anchor, head, runs@),
{
    let ghost counts = fragment_counts@;
    let (first, last) = if head.page_index < anchor.page_index || (head.page_index
        == anchor.page_index && head.fragment < anchor.fragment) {
        (head, anchor)
    } else {
        (anchor, head)
    };
    assert((first, last) == ordered_edges(anchor, head));
    let mut runs: Vec<SelectionEdge> = Vec::new();
    if fragment_counts.len() == 0 {
        assert forall|e: SelectionEdge| !in_selection(counts, first, last, e) by {}
        return runs;
    }
    let upper = if last.page_index < fragment_counts.len() - 1 {
        last.page_index
    } else {
        fragment_counts.len() - 1
    };
    let mut page = first.page_index;
    while page <= upper
        invariant
            counts == fragment_counts@,
            upper < counts.len(),
            upper <= last.page_index,
            upper == last.page_index || upper == counts.len() - 1,
            first.page_index <= page,
            page <= upper + 1 || page == first.page_index,
            strictly_ordered(runs@),
            forall|i: int| 0 <= i < runs@.len() ==> #[trigger] runs@[i].page_index < page,
            forall|e: SelectionEdge| #[trigger]
                runs@.contains(e) <==> (in_selection(counts, first, last, e) && e.page_index
                    < page),
        decreases upper + 1 - page,
    {
        let count = fragment_counts[page];
        if count > 0 {
            let start = if page == first.page_index {
                first.fragment
            } else {
                0
            };
            let end = if page == last.page_index && last.fragment < count - 1 {
                last.fragment
            } else {
                count - 1
            };
            let mut fragment = start;
            while fragment <= end
                invariant
                    counts == fragment_counts@,
                    page <= upper < counts.len(),
                    upper <= last.page_index,
                    first.page_index <= page,
                    count == counts[page as int],
                    count > 0,
                    start == (if page == first.page_index {
                        first.fragment
                    } else {
                        0
                    }),
                    end == (if page == last.page_index && last.fragment < count - 1 {
                        last.fragment as int
                    } else {
                        count - 1
                    }),
                    start <= fragment <= end + 1 || fragment == start,
                    end < count,
                    strictly_ordered(runs@),
                    forall|i: int|
                        0 <= i < runs@.len() ==> (#[trigger] runs@[i].page_index < page || (
                        runs@[i].page_index == page && runs@[i].fragment < fragment)),
                    forall|e: SelectionEdge| #[trigger]
                        runs@.contains(e) <==> (in_selection(counts, first, last, e) && (
                        e.page_index < page || (e.page_index == page && e.fragment < fragment))),
                decreases end + 1 - fragment,
            {
                let e = SelectionEdge { page_index: page, fragment };
                let ghost before = runs@;
                runs.push(e);
                assert forall|x: SelectionEdge| #[trigger]
                    runs@.contains(x) <==> (before.contains(x) || x == e) by {
                    if runs@.contains(x) {
                        let k = choose|k: int| 0 <= k < runs@.len() && runs@[k] == x;
                        if k < before.len() {
                            assert(before[k] == x);
                        }
                    }
                    if before.contains(x) {
                        let k = choose|k: int| 0 <= k < before.len() && before[k] == x;
                        assert(runs@[k] == x);
                    }
                    assert(runs@[before.len() as int] == e);
                }
                fragment = fragment + 1;
            }
            assert forall|e: SelectionEdge| #[trigger]
                runs@.contains(e) <==> (in_selection(counts, first, last, e) && e.page_index
                    < page + 1) by {
                if in_selection(counts, first, last, e) && e.page_index == page {
                    assert(e.fragment < fragment);
                }
            }
        } else {
            assert forall|e: SelectionEdge| #[trigger]
                runs@.contains(e) <==> (in_selection(counts, first, last, e) && e.page_index
                    < page + 1) by {
                if in_selection(counts, first, last, e) && e.page_index == page {
                    assert(e.fragment < counts[page as int]);
                }
            }
        }
        page = page + 1;
    }
    assert forall|e: SelectionEdge| #[trigger]
        runs@.contains(e) <==> in_selection(counts, first, last, e) by {
        if in_selection(counts, first, last, e) {
            assert(e.page_index <= upper);
        }
    }
    runs
}

proof fn lemma_ordered_members_fix_the_sequence(a: Seq<SelectionEdge>, b: Seq<SelectionEdge>)
    requires
        strictly_ordered(a),
        strictly_ordered(b),
        forall|e: SelectionEdge| a.contains(e) <==> b.contains(e),
    ensures
        a == b,
    decreases a.len(),
{
    if a.len() == 0 {
        if b.len() > 0 {
            assert(b.contains(b[0]));
        }
        assert(a =~= b);
    } else {
        assert(a.contains(a.last()));
        assert(b.len() > 0);
        assert(b.contains(b.last()));
        let ka = choose|k: int| 0 <= k < a.len() && a[k] == b.last();
        let kb = choose|k: int| 0 <= k < b.len() && b[k] == a.last();
        if ka < a.len() - 1 {
            assert(edge_before(a[ka], a[a.len() - 1]));
            if kb < b.len() - 1 {
                assert(edge_before(b[kb], b[b.len() - 1]));
            }
        }
        assert(a.last() == b.last());
        let a0 = a.drop_last();
        let b0 = b.drop_last();
        assert forall|e: SelectionEdge| a0.contains(e) <==> b0.contains(e) by {
            if a0.contains(e) {
                let k = choose|k: int| 0 <= k < a0.len() && a0[k] == e;
                assert(a[k] == e);
                assert(edge_before(a[k], a[a.len() - 1]));
                assert(b.contains(e));
                let j = choose|j: int| 0 <= j < b.len() && b[j] == e;
                assert(j != b.len() - 1);
                assert(b0[j] == e);
            }
            if b0.contains(e) {
                let k = choose|k: int| 0 <= k < b0.len() && b0[k] == e;
                assert(b[k] == e);
                assert(edge_before(b[k], b[b.len() - 1]));
                assert(a.contains(e));
                let j = choose|j: int| 0 <= j < a.len() && a[j] == e;
                assert(j != a.len() - 1);
                assert(a0[j] == e);
            }
        }
        assert(strictly_ordered(a0)) by {
            assert forall|i: int, j: int| 0 <= i < j < a0.len() implies edge_before(
                #[trigger] a0[i],
                #[trigger] a0[j],
            ) by {
                assert(a0[i] == a[i] && a0[j] == a[j]);
            }
        }
        assert(strictly_ordered(b0)) by {
            assert forall|i: int, j: int| 0 <= i < j < b0.len() implies edge_before(
                #[trigger] b0[i],
                #[trigger] b0[j],
            ) by {
                assert(b0[i] == b[i] && b0[j] == b[j]);
            }
        }
        lemma_ordered_members_fix_the_sequence(a0, b0);
        assert(a =~= a0.push(a.last()));
        assert(b =~= b0.push(b.last()));
    }
}

/// A selection is the same when dragged backwards: swapping the anchor and
/// the head selects the same runs in the same order.
pub proof fn lemma_selection_ignores_drag_direction(
    counts: Seq<usize>,
    anchor: SelectionEdge,
    head: SelectionEdge,
    forward: Seq<SelectionEdge>,
    backward: Seq<SelectionEdge>,
)
    requires
        is_selection(counts, anchor, head, forward),
        is_selection(counts, head, anchor, backward),
    ensures
        forward == backward,
{
    let (f1, l1) = ordered_edges(anchor, head);
    let (f2, l2) = ordered_edges(head, anchor);
    if anchor != head {
        assert(f1 == f2 && l1 == l2);
    }
    lemma_ordered_members_fix_the_sequence(forward, backward);
}

/// How a selected run sits against the run before it, as read from their
/// geometry: on another page or another line, after a gap wider than a space,
/// or close enough to continue the word.
#[derive(Clone, Copy, Debug, PartialEq, Eq, Structural)]
pub enum RunSpacing {
    LineBreak,
    WideGap,
    NarrowGap,
}

/// Whether `c` has the Unicode White_Space property, as std's
/// `char::is_whitespace` decides it: the property's fixed list of code
/// points, tab to carriage return, space, next line, no-break space, ogham
/// space mark, en quad to hair space, the line and paragraph separators,
/// narrow no-break space, medium mathematical space and ideographic space.
pub open spec fn white_space(c: char) -> bool {
    let u = c as u32;
    ||| 0x09 <= u <= 0x0D
    ||| u == 0x20
    ||| u == 0x85
    ||| u == 0xA0
    ||| u == 0x1680
    ||| 0x2000 <= u <= 0x200A
    ||| u == 0x2028
    ||| u == 0x2029
    ||| u == 0x202F
    ||| u == 0x205F
    ||| u == 0x3000
}

/// Whether `c` is white space, as `white_space` lists it.
pub fn is_white_space(c: char) -> (white: bool)
    ensures
        white == white_space(c),
{
    let u = c as u32;
    (0x09 <= u && u <= 0x0D) || u == 0x20 || u == 0x85 || u == 0xA0 || u == 0x1680 || (0x2000 <= u
        && u <= 0x200A) || u == 0x2028 || u == 0x2029 || u == 0x202F || u == 0x205F || u == 0x3000
}

/// Text that already ends in a space or a hyphen needs no space added.
pub open spec fn ends_open(text: Seq<char>) -> bool {
    text.len() > 0 && (white_space(text.last()) || text.last() == '-')
}

pub open spec fn starts_blank(text: Seq<char>) -> bool {
    text.len() > 0 && white_space(text[0])
}

/// What goes between the text joined so far and the next run.
pub open spec fn spacing_text(before: Seq<char>, spacing: RunSpacing, next: Seq<char>) -> Seq<char> {
    match spacing {
        RunSpacing::LineBreak => seq!['\n'],
        RunSpacing::WideGap => if !ends_open(before) && !starts_blank(next) {
            seq![' ']
        } else {
            Seq::empty()
        },
        RunSpacing::NarrowGap => Seq::empty(),
    }
}

/// The runs' texts joined into the selection's text; the spacing of the
/// first run is not read.
pub open spec fn joined_runs(texts: Seq<Seq<char>>, spacing: Seq<RunSpacing>) -> Seq<char>
    decreases texts.len(),
{
    if texts.len() == 0 {
        Seq::empty()
    } else if texts.len() == 1 {
        texts[0]
    } else {
        let before = joined_runs(texts.drop_last(), spacing.drop_last());
        before + spacing_text(before, spacing[texts.len() - 1], texts.last()) + texts.last()
    }
}

fn first_char(text: &str) -> (c: Option<char>)
    ensures
        c == (if text@.len() > 0 {
            Some(text@[0])
        } else {
            None
        }),
{
    if text.is_empty() {
        None
    } else {
        Some(text.get_char(0))
    }
}

fn last_char(text: &str) -> (c: Option<char>)
    ensures
        c == (if text@.len() > 0 {
            Some(text@.last())
        } else {
            None
        }),
{
    let n = text.unicode_len();
    if n == 0 {
        None
    } else {
        Some(text.get_char(n - 1))
    }
}

/// The text of a selection: PDF text runs carry no spaces, so word and line
/// breaks are put back from how each run sits against the one before it.
pub fn join_selection(texts: &[String], spacing: &[RunSpacing]) -> (text: String)
    requires
        spacing@.len() == texts@.len(),
    ensures
        text@ == joined_runs(texts@.map_values(|t: String| t@), spacing@),
{
    let ghost views = texts@.map_values(|t: String| t@);
    let mut text = String::new();
    let mut last: Option<char> = None;
    let mut k: usize = 0;
    while k < texts.len()
        invariant
            spacing@.len() == texts@.len(),
            views == texts@.map_values(|t: String| t@),
            k <= texts@.len(),
            text@ == joined_runs(views.take(k as int), spacing@.take(k as int)),
            last == (if text@.len() > 0 {
                Some(text@.last())
            } else {
                None
            }),
        decreases texts@.len() - k,
    {
        let run = texts[k].as_str();
        assert(views[k as int] == run@);
        assert(views.take(k + 1).drop_last() =~= views.take(k as int));
        assert(spacing@.take(k + 1).drop_last() =~= spacing@.take(k as int));
        assert(views.take(k + 1).last() == run@);
        assert(spacing@.take(k + 1)[k as int] == spacing[k as int]);
        if k == 0 {
            assert(text@ =~= Seq::<char>::empty());
        } else {
            let ghost before = text@;
            match spacing[k] {
                RunSpacing::LineBreak => {
                    text.append("\n");
                    last = Some('\n');
                    proof {
                        reveal_strlit("\n");
                    }
                    assert(text@ =~= before + seq!['\n']);
                },
                RunSpacing::WideGap => {
                    let open = match last {
                        Some(c) => c == '-' || is_white_space(c),
                        None => false,
                    };
                    let blank = match first_char(run) {
                        Some(c) => is_white_space(c),
                        None => false,
                    };
                    if !open && !blank {
                        text.append(" ");
                        last = Some(' ');
                        proof {
                            reveal_strlit(" ");
                        }
                        assert(text@ =~= before + seq![' ']);
                    } else {
                        assert(text@ =~= before + Seq::<char>::empty());
                    }
                },
                RunSpacing::NarrowGap => {
                    assert(text@ =~= before + Seq::<char>::empty());
                },
            }
        }
        let ghost middle = text@;
        text.append(run);
        match last_char(run) {
            Some(c) => {
                last = Some(c);
            },
            None => {
                assert(run@ =~= Seq::<char>::empty());
                assert(text@ =~= middle);
            },
        }
        k = k + 1;
    }
    assert(views.take(texts@.len() as int) =~= views);
    assert(spacing@.take(texts@.len() as int) =~= spacing@);
    text
}

/// A run of consecutive selected runs on one page: the page, and the first
/// and one-past-last index of its runs.
#[derive(Clone, Copy, Debug, PartialEq, Eq, Structural)]
pub struct PageGroup {
    pub page_index: usize,
    pub start: usize,
    pub end: usize,
}

/// `groups` splits the runs, whose pages `pages` lists, into maximal blocks
/// of consecutive runs on the same page, in order.
pub open spec fn is_page_grouping(pages: Seq<usize>, groups: Seq<PageGroup>) -> bool {
    &&& pages.len() == 0 <==> groups.len() == 0
    &&& groups.len() > 0 ==> groups[0].start == 0 && groups.last().end == pages.len()
    &&& forall|g: int|
        0 <= g < groups.len() ==> {
            &&& #[trigger] groups[g].start < groups[g].end <= pages.len()
            &&& forall|i: int|
                groups[g].start <= i < groups[g].end ==> pages[i] == groups[g].page_index
        }
    &&& forall|g: int|
        0 <= g < groups.len() - 1 ==> {
            &&& #[trigger] groups[g].end == groups[g + 1].start
            &&& groups[g].page_index != groups[g + 1].page_index
        }
}

/// Groups the selected runs by page, one group per stretch of runs on the
/// same page, so a selection spanning pages gets one annotation per page.
pub fn page_groups(pages: &[usize]) -> (groups: Vec<PageGroup>)
    ensures
        is_page_grouping(pages@, groups@),
{
    let mut groups: Vec<PageGroup> = Vec::new();
    let n = pages.len();
    if n == 0 {
        return groups;
    }
    let mut start: usize = 0;
    let mut i: usize = 1;
    while i < n
        invariant
            n == pages@.len(),
            0 <= start < i <= n,
            forall|k: int| start <= k < i ==> pages@[k] == pages@[start as int],
            groups@.len() == 0 <==> start == 0,
            groups@.len() > 0 ==> groups@[0].start == 0 && groups@.last().end == start
                && groups@.last().page_index != pages@[start as int],
            forall|g: int|
                0 <= g < groups@.len() ==> {
                    &&& #[trigger] groups@[g].start < groups@[g].end <= start
                    &&& forall|k: int|
                        groups@[g].start <= k < groups@[g].end ==> pages@[k] == groups@[g].page_index
                },
            forall|g: int|
                0 <= g < groups@.len() - 1 ==> {
                    &&& #[trigger] groups@[g].end == groups@[g + 1].start
                    &&& groups@[g].page_index != groups@[g + 1].page_index
                },
        decreases n - i,
    {
        if pages[i] != pages[start] {
            let ghost before = groups@;
            let group = PageGroup { page_index: pages[start], start, end: i };
            groups.push(group);
            assert(groups@[groups@.len() - 1] == group);
            assert forall|g: int| 0 <= g < groups@.len() - 1 implies {
                &&& #[trigger] groups@[g].end == groups@[g + 1].start
                &&& groups@[g].page_index != groups@[g + 1].page_index
            } by {
                if g < before.len() - 1 {
                    assert(groups@[g] == before[g] && groups@[g + 1] == before[g + 1]);
                } else {
                    assert(groups@[g] == before.last());
                    assert(groups@[g + 1] == group);
                }
            }
            start = i;
        }
        i = i + 1;
    }
    let ghost before = groups@;
    let group = PageGroup { page_index: pages[start], start, end: n };
    groups.push(group);
    assert(groups@[groups@.len() - 1] == group);
    assert forall|g: int| 0 <= g < groups@.len() - 1 implies {
        &&& #[trigger] groups@[g].end == groups@[g + 1].start
        &&& groups@[g].page_index != groups@[g + 1].page_index
    } by {
        if g < before.len() - 1 {
            assert(groups@[g] == before[g] && groups@[g + 1] == before[g + 1]);
        } else {
            assert(groups@[g] == before.last());
            assert(groups@[g + 1] == group);
        }
    }
    groups
}

/// Every selected run is covered by the group of its page: the grouping
/// leaves no run out.
pub proof fn lemma_page_groups_cover_every_run(pages: Seq<usize>, groups: Seq<PageGroup>, i: int)
    requires
        is_page_grouping(pages, groups),
        0 <= i < pages.len(),
    ensures
        exists|g: int|
            0 <= g < groups.len() && #[trigger] groups[g].start <= i < groups[g].end
                && groups[g].page_index == pages[i],
    decreases groups.len(),
{
    let last = groups.len() - 1;
    if i >= groups[last].start {
        assert(groups[last].start < groups[last].end);
    } else {
        let init = groups.drop_last();
        let shorter = pages.take(groups[last].start as int);
        assert(groups[last - 1].end == groups[last].start);
        assert(is_page_grouping(shorter, init)) by {
            assert forall|g: int| 0 <= g < init.len() implies {
                &&& #[trigger] init[g].start < init[g].end <= shorter.len()
                &&& forall|k: int| init[g].start <= k < init[g].end ==> shorter[k] == init[g].page_index
            } by {
                assert(init[g] == groups[g]);
                lemma_group_ends_ordered(groups, g, last - 1);
            }
            assert forall|g: int| 0 <= g < init.len() - 1 implies {
                &&& #[trigger] init[g].end == init[g + 1].start
                &&& init[g].page_index != init[g + 1].page_index
            } by {
                assert(init[g] == groups[g] && init[g + 1] == groups[g + 1]);
            }
        }
        lemma_page_groups_cover_every_run(shorter, init, i);
        let g = choose|g: int| 0 <= g < init.len() && #[trigger] init[g].start <= i < init[g].end
            && init[g].page_index == shorter[i];
        assert(groups[g] == init[g]);
    }
}

proof fn lemma_group_ends_ordered(groups: Seq<PageGroup>, a: int, b: int)
    requires
        0 <= a <= b < groups.len(),
        forall|g: int| 0 <= g < groups.len() ==> #[trigger] groups[g].start < groups[g].end,
        forall|g: int| 0 <= g < groups.len() - 1 ==> #[trigger] groups[g].end == groups[g + 1].start,
    ensures
        groups[a].end <= groups[b].end,
    decreases b - a,
{
    if a < b {
        lemma_group_ends_ordered(groups, a, b - 1);
        assert(groups[b - 1].end == groups[b].start);
    }
}

} // verus!
