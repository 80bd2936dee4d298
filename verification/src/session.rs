use vstd::prelude::*;

verus! {

/// Whether closing the window waits on a save.
#[derive(Clone, Copy, Debug, PartialEq, Eq, Structural)]
pub enum CloseState {
    Uninstalled,
    Ready,
    /// The window closes once the save in flight succeeds.
    AfterSave,
}

/// The editor's bookkeeping of the open document and its worker.
#[derive(Clone, Copy, Debug, PartialEq, Eq, Structural)]
pub struct Session {
    /// Identifies the open document, so late results from a previous file are
    /// discarded instead of painted over the current one.
    pub token: u64,
    pub page_count: usize,
    /// Pages holding a raster.
    pub loaded_pages: usize,
    pub busy: bool,
    pub close_state: CloseState,
}

/// What the worker reports.
#[derive(Clone, Copy, Debug, PartialEq, Eq, Structural)]
pub enum WorkerEvent {
    /// A document was opened; `token` identifies it from now on.
    Opened { token: u64, page_count: usize },
    /// A raster arrived; `gained_raster` when it is the first raster the page
    /// holds.
    PageRendered { token: u64, gained_raster: bool },
    PageText { token: u64 },
    /// Every queued job for the document finished.
    Idle { token: u64 },
    /// The edits were saved; the saved file is the document from now on.
    Saved { token: u64 },
    Failed,
}

/// What the editor does about a report.
#[derive(Clone, Copy, Debug, PartialEq, Eq, Structural)]
pub enum SessionAction {
    /// A report about a document that is no longer open: drop it.
    Ignore,
    /// Reset the per-document state and request the visible pages.
    LoadDocument,
    /// Show the raster, free distant rasters, refresh the status.
    ShowRaster,
    /// Store the page text and refresh the search.
    ShowText,
    /// Fill in the rest of the document in the background.
    FillBackground,
    /// Clear the edit history and redraw from the saved file; close the
    /// window when it waited on this save.
    Redraw { close_window: bool },
    /// Report the failure.
    ShowFailure,
}

pub open spec fn event_token(event: WorkerEvent) -> Option<u64> {
    match event {
        WorkerEvent::PageRendered { token, .. } => Some(token),
        WorkerEvent::PageText { token } => Some(token),
        WorkerEvent::Idle { token } => Some(token),
        _ => None,
    }
}

/// The session after a report, and what the editor does about it.
pub open spec fn next_session(s: Session, event: WorkerEvent) -> (Session, SessionAction) {
    match event {
        WorkerEvent::Opened { token, page_count } => (
            Session {
                token,
                page_count,
                loaded_pages: 0,
                busy: true,
                close_state: if s.close_state == CloseState::AfterSave {
                    CloseState::Ready
                } else {
                    s.close_state
                },
            },
            SessionAction::LoadDocument,
        ),
        WorkerEvent::PageRendered { token, gained_raster } => if token != s.token {
            (s, SessionAction::Ignore)
        } else {
            let loaded = if gained_raster {
                s.loaded_pages + 1
            } else {
                s.loaded_pages as int
            };
            (
                Session {
                    loaded_pages: loaded as usize,
                    busy: s.busy && loaded < s.page_count,
                    ..s
                },
                SessionAction::ShowRaster,
            )
        },
        WorkerEvent::PageText { token } => if token != s.token {
            (s, SessionAction::Ignore)
        } else {
            (s, SessionAction::ShowText)
        },
        WorkerEvent::Idle { token } => if token != s.token {
            (s, SessionAction::Ignore)
        } else {
            (Session { busy: false, ..s }, SessionAction::FillBackground)
        },
        WorkerEvent::Saved { token } => (
            Session { token, busy: false, ..s },
            SessionAction::Redraw { close_window: s.close_state == CloseState::AfterSave },
        ),
        WorkerEvent::Failed => (
            Session {
                busy: false,
                close_state: if s.close_state == CloseState::AfterSave {
                    CloseState::Ready
                } else {
                    s.close_state
                },
                ..s
            },
            SessionAction::ShowFailure,
        ),
    }
}

impl Session {
    /// No document yet.
    pub fn new() -> (s: Session)
        ensures
            s == (Session {
                token: 0,
                page_count: 0,
                loaded_pages: 0,
                busy: false,
                close_state: CloseState::Uninstalled,
            }),
    {
        Session {
            token: 0,
            page_count: 0,
            loaded_pages: 0,
            busy: false,
            close_state: CloseState::Uninstalled,
        }
    }

    /// Takes in a report from the worker and says what to do about it.
    pub fn apply(&mut self, event: WorkerEvent) -> (action: SessionAction)
        requires
            event matches WorkerEvent::PageRendered { token, gained_raster } ==> (token
                == old(self).token && gained_raster ==> old(self).loaded_pages < usize::MAX),
        ensures
            (*final(self), action) == next_session(*old(self), event),
    {
        match event {
            WorkerEvent::Opened { token, page_count } => {
                self.token = token;
                self.page_count = page_count;
                self.loaded_pages = 0;
                self.busy = true;
                if self.close_state == CloseState::AfterSave {
                    self.close_state = CloseState::Ready;
                }
                SessionAction::LoadDocument
            },
            WorkerEvent::PageRendered { token, gained_raster } => {
                if token != self.token {
                    return SessionAction::Ignore;
                }
                if gained_raster {
                    self.loaded_pages = self.loaded_pages + 1;
                }
                if self.loaded_pages >= self.page_count {
                    self.busy = false;
                }
                SessionAction::ShowRaster
            },
            WorkerEvent::PageText { token } => {
                if token != self.token {
                    return SessionAction::Ignore;
                }
                SessionAction::ShowText
            },
            WorkerEvent::Idle { token } => {
                if token != self.token {
                    return SessionAction::Ignore;
                }
                self.busy = false;
                SessionAction::FillBackground
            },
            WorkerEvent::Saved { token } => {
                let close_window = self.close_state == CloseState::AfterSave;
                self.busy = false;
                self.token = token;
                SessionAction::Redraw { close_window }
            },
            WorkerEvent::Failed => {
                self.busy = false;
                if self.close_state == CloseState::AfterSave {
                    self.close_state = CloseState::Ready;
                }
                SessionAction::ShowFailure
            },
        }
    }

    /// A page's raster was freed.
    pub fn raster_evicted(&mut self)
        ensures
            *final(self) == (Session {
                loaded_pages: if old(self).loaded_pages > 0 {
                    (old(self).loaded_pages - 1) as usize
                } else {
                    0
                },
                ..*old(self)
            }),
    {
        self.loaded_pages = self.loaded_pages.saturating_sub(1);
    }
}

/// Results from a previously open file are ignored: a raster, text or idle
/// report carrying another document's token changes nothing.
pub proof fn lemma_stale_reports_are_ignored(s: Session, event: WorkerEvent)
    requires
        event_token(event) matches Some(token) && token != s.token,
    ensures
        next_session(s, event) == (s, SessionAction::Ignore),
{
}

/// Once a save succeeds, the saved document is the current one: reports
/// carrying the saved token are taken in, and earlier ones are not.
pub proof fn lemma_save_adopts_the_saved_document(s: Session, token: u64, event: WorkerEvent)
    ensures
        next_session(s, WorkerEvent::Saved { token }).0.token == token,
        event_token(event) == Some(token) ==> next_session(
            next_session(s, WorkerEvent::Saved { token }).0,
            event,
        ).1 != SessionAction::Ignore,
{
}

/// A raster report of the open document counts a page as loaded exactly when
/// it is the page's first raster: a re-render of a page already shown (a
/// sharper raster after a preview) leaves the count as it was. The session
/// stays busy while fewer pages than the document has hold a raster.
pub proof fn lemma_rasters_count_each_page_once(s: Session, gained_raster: bool)
    requires
        gained_raster ==> s.loaded_pages < usize::MAX,
    ensures
        ({
            let after = next_session(s, WorkerEvent::PageRendered { token: s.token, gained_raster }).0;
            &&& gained_raster ==> after.loaded_pages == s.loaded_pages + 1
            &&& !gained_raster ==> after.loaded_pages == s.loaded_pages
            &&& after.busy == (s.busy && after.loaded_pages < s.page_count)
            &&& after.page_count == s.page_count && after.token == s.token
        }),
{
}

/// The count of a sequence of raster reports: how many of them brought a
/// page its first raster.
pub open spec fn first_rasters(gains: Seq<bool>) -> nat
    decreases gains.len(),
{
    if gains.len() == 0 {
        0
    } else {
        first_rasters(gains.drop_last()) + if gains.last() {
            1nat
        } else {
            0nat
        }
    }
}

/// The session after raster reports of its own document, in order.
pub open spec fn after_rasters(s: Session, gains: Seq<bool>) -> Session
    decreases gains.len(),
{
    if gains.len() == 0 {
        s
    } else {
        next_session(
            after_rasters(s, gains.drop_last()),
            WorkerEvent::PageRendered { token: s.token, gained_raster: gains.last() },
        ).0
    }
}

/// After a document opens, its raster reports leave the count of loaded pages
/// at the number of pages that received their first raster, and the session
/// busy, once a raster arrived, exactly while that number is below the page
/// count; re-renders of loaded pages count for nothing.
pub proof fn lemma_loaded_pages_count_first_rasters(
    s: Session,
    token: u64,
    page_count: usize,
    gains: Seq<bool>,
)
    requires
        first_rasters(gains) < usize::MAX,
    ensures
        ({
            let opened = next_session(s, WorkerEvent::Opened { token, page_count }).0;
            let after = after_rasters(opened, gains);
            &&& after.loaded_pages == first_rasters(gains)
            &&& after.busy == (gains.len() == 0 || first_rasters(gains) < page_count)
            &&& after.token == token
            &&& after.page_count == page_count
        }),
    decreases gains.len(),
{
    let opened = next_session(s, WorkerEvent::Opened { token, page_count }).0;
    if gains.len() > 0 {
        let rest = gains.drop_last();
        assert(first_rasters(rest) <= first_rasters(gains));
        lemma_loaded_pages_count_first_rasters(s, token, page_count, rest);
    }
}

} // verus!
