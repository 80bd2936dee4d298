use pdf_ui::session::{CloseState, Session, SessionAction, WorkerEvent};

#[test]
fn late_results_from_a_previous_file_are_ignored() {
    let mut session = Session::new();
    assert_eq!(
        session.apply(WorkerEvent::Opened { token: 7, page_count: 2 }),
        SessionAction::LoadDocument
    );
    assert!(session.busy);
    let before = session;
    assert_eq!(
        session.apply(WorkerEvent::PageRendered { token: 6, gained_raster: true }),
        SessionAction::Ignore
    );
    assert_eq!(session.apply(WorkerEvent::PageText { token: 6 }), SessionAction::Ignore);
    assert_eq!(session.apply(WorkerEvent::Idle { token: 6 }), SessionAction::Ignore);
    assert_eq!(session, before);
}

#[test]
fn loading_finishes_when_every_page_has_a_raster() {
    let mut session = Session::new();
    session.apply(WorkerEvent::Opened { token: 1, page_count: 2 });
    assert_eq!(
        session.apply(WorkerEvent::PageRendered { token: 1, gained_raster: true }),
        SessionAction::ShowRaster
    );
    assert!(session.busy);
    session.apply(WorkerEvent::PageRendered { token: 1, gained_raster: true });
    assert_eq!(session.loaded_pages, 2);
    assert!(!session.busy);
    session.raster_evicted();
    assert_eq!(session.loaded_pages, 1);
    assert_eq!(session.apply(WorkerEvent::Idle { token: 1 }), SessionAction::FillBackground);
}

#[test]
fn saving_adopts_the_saved_file_and_closes_when_waiting() {
    let mut session = Session::new();
    session.apply(WorkerEvent::Opened { token: 1, page_count: 1 });
    session.close_state = CloseState::AfterSave;
    assert_eq!(
        session.apply(WorkerEvent::Saved { token: 2 }),
        SessionAction::Redraw { close_window: true }
    );
    assert_eq!(session.token, 2);
    assert_eq!(session.apply(WorkerEvent::PageText { token: 2 }), SessionAction::ShowText);
    session.close_state = CloseState::AfterSave;
    assert_eq!(session.apply(WorkerEvent::Failed), SessionAction::ShowFailure);
    assert_eq!(session.close_state, CloseState::Ready);
}
