use pdf_ui::commands::{click_button, escape_action, switch_tool, ButtonKind, EscapeAction, EscapeContext};
use pdf_ui::model::Tool;
use pdf_ui::status::select_all_message;

fn idle() -> EscapeContext {
    EscapeContext {
        search_field_focused: false,
        page_field_focused: false,
        form_field_focused: false,
        dragging: false,
        draft_open: false,
        search_open: false,
        has_selection: false,
        tool: Tool::Select,
    }
}

#[test]
fn escape_backs_out_innermost_first() {
    assert_eq!(escape_action(idle()), EscapeAction::Nothing);
    let mut c = idle();
    c.tool = Tool::Redact;
    assert_eq!(escape_action(c), EscapeAction::SelectTool);
    c.has_selection = true;
    assert_eq!(escape_action(c), EscapeAction::ClearSelection);
    c.search_open = true;
    assert_eq!(escape_action(c), EscapeAction::CloseSearch);
    c.draft_open = true;
    assert_eq!(escape_action(c), EscapeAction::DiscardDraft);
    c.dragging = true;
    assert_eq!(escape_action(c), EscapeAction::CancelDrag);
    c.form_field_focused = true;
    assert_eq!(escape_action(c), EscapeAction::LeaveFormField);
    c.page_field_focused = true;
    assert_eq!(escape_action(c), EscapeAction::LeavePageField);
    c.search_field_focused = true;
    assert_eq!(escape_action(c), EscapeAction::CloseSearch);
}

#[test]
fn tool_shortcuts_switch_and_clear_selection_for_editing_tools() {
    assert_eq!(switch_tool(Tool::Select, Tool::Highlight, false), Some(true));
    assert_eq!(switch_tool(Tool::Select, Tool::Hand, false), Some(false));
    assert_eq!(switch_tool(Tool::Hand, Tool::Hand, false), None);
    assert_eq!(switch_tool(Tool::Select, Tool::Redact, true), None);
}

#[test]
fn buttons_toggle_between_their_value_and_off() {
    assert_eq!(click_button("Off", "Yes", ButtonKind::Checkbox), ("Yes".to_owned(), true));
    assert_eq!(click_button("Yes", "Yes", ButtonKind::Checkbox), ("Off".to_owned(), false));
    assert_eq!(click_button("Yes", "Yes", ButtonKind::Radio), ("Yes".to_owned(), true));
    assert_eq!(click_button("A", "B", ButtonKind::Radio), ("B".to_owned(), true));
}

#[test]
fn select_all_reports_pages_still_loading() {
    assert_eq!(select_all_message(12, 0), "Selected 12 characters");
    assert_eq!(select_all_message(12, 3), "Selected 12 characters; 3 page(s) still loading");
}
