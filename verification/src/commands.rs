use vstd::prelude::*;

use crate::model::Tool;

verus! {

/// What is in progress when Escape is pressed.
#[derive(Clone, Copy, Debug)]
pub struct EscapeContext {
    pub search_field_focused: bool,
    pub page_field_focused: bool,
    pub form_field_focused: bool,
    pub dragging: bool,
    pub draft_open: bool,
    pub search_open: bool,
    pub has_selection: bool,
    pub tool: Tool,
}

/// What Escape does: it backs out of whatever is in progress, innermost
/// first.
#[derive(Clone, Copy, Debug, PartialEq, Eq, Structural)]
pub enum EscapeAction {
    /// Close the search bar and clear its results.
    CloseSearch,
    /// Hand focus back to the page from the page-number field.
    LeavePageField,
    /// Hand focus back to the page from a form field.
    LeaveFormField,
    CancelDrag,
    /// Drop an inline text or comment draft.
    DiscardDraft,
    ClearSelection,
    /// Go back to the select tool.
    SelectTool,
    Nothing,
}

pub open spec fn escape_outcome(c: EscapeContext) -> EscapeAction {
    if c.search_field_focused {
        EscapeAction::CloseSearch
    } else if c.page_field_focused {
        EscapeAction::LeavePageField
    } else if c.form_field_focused {
        EscapeAction::LeaveFormField
    } else if c.dragging {
        EscapeAction::CancelDrag
    } else if c.draft_open {
        EscapeAction::DiscardDraft
    } else if c.search_open {
        EscapeAction::CloseSearch
    } else if c.has_selection {
        EscapeAction::ClearSelection
    } else if c.tool != Tool::Select {
        EscapeAction::SelectTool
    } else {
        EscapeAction::Nothing
    }
}

/// What Escape backs out of.
pub fn escape_action(context: EscapeContext) -> (action: EscapeAction)
    ensures
        action == escape_outcome(context),
{
    if context.search_field_focused {
        EscapeAction::CloseSearch
    } else if context.page_field_focused {
        EscapeAction::LeavePageField
    } else if context.form_field_focused {
        EscapeAction::LeaveFormField
    } else if context.dragging {
        EscapeAction::CancelDrag
    } else if context.draft_open {
        EscapeAction::DiscardDraft
    } else if context.search_open {
        EscapeAction::CloseSearch
    } else if context.has_selection {
        EscapeAction::ClearSelection
    } else if context.tool != Tool::Select {
        EscapeAction::SelectTool
    } else {
        EscapeAction::Nothing
    }
}

/// Escape never leaves a session with nothing to back out of in another
/// state: with nothing focused, open or selected and the select tool active,
/// it does nothing; with anything of these, it does something.
pub proof fn lemma_escape_acts_when_anything_is_in_progress(c: EscapeContext)
    ensures
        escape_outcome(c) == EscapeAction::Nothing <==> (!c.search_field_focused
            && !c.page_field_focused && !c.form_field_focused && !c.dragging && !c.draft_open
            && !c.search_open && !c.has_selection && c.tool == Tool::Select),
{
}

/// What a tool shortcut does, tool by tool: it is ignored while a text field
/// has focus or when the tool is already active; otherwise going to Select or
/// Hand keeps the text selection (it is what those tools work with or leave
/// alone), and going to Highlight, Add text or Redact drops it.
pub proof fn lemma_tool_shortcuts(current: Tool, requested: Tool)
    ensures
        tool_change(current, requested, true) is None,
        tool_change(current, current, false) is None,
        current != Tool::Select ==> tool_change(current, Tool::Select, false) == Some(false),
        current != Tool::Hand ==> tool_change(current, Tool::Hand, false) == Some(false),
        current != Tool::Highlight ==> tool_change(current, Tool::Highlight, false) == Some(true),
        current != Tool::AddText ==> tool_change(current, Tool::AddText, false) == Some(true),
        current != Tool::Redact ==> tool_change(current, Tool::Redact, false) == Some(true),
{
}

/// A tool change: `None` when the shortcut is ignored (a text field has focus,
/// or the tool is already active); otherwise whether the text selection is
/// dropped, which every tool but Select and Hand does.
pub open spec fn tool_change(current: Tool, requested: Tool, input_focused: bool) -> Option<bool> {
    if input_focused || current == requested {
        None
    } else {
        Some(!(requested == Tool::Select || requested == Tool::Hand))
    }
}

/// Whether a tool shortcut switches tools, and if so whether it drops the
/// text selection.
pub fn switch_tool(current: Tool, requested: Tool, input_focused: bool) -> (change: Option<bool>)
    ensures
        change == tool_change(current, requested, input_focused),
{
    if input_focused || current == requested {
        None
    } else {
        Some(!(requested == Tool::Select || requested == Tool::Hand))
    }
}

/// The kinds of form buttons.
#[derive(Clone, Copy, Debug, PartialEq, Eq, Structural)]
pub enum ButtonKind {
    Push,
    Checkbox,
    Radio,
}

/// A check box or radio button after a click: the value it takes and whether
/// it ends up checked. A click on a checked check box turns it "Off"; a
/// radio button stays on.
pub open spec fn clicked_button(current: Seq<char>, on_value: Seq<char>, kind: ButtonKind) -> (
    Seq<char>,
    bool,
) {
    if current != on_value {
        (on_value, true)
    } else if kind == ButtonKind::Radio {
        (on_value, true)
    } else {
        ("Off"@, false)
    }
}

/// The value a check box or radio button takes when clicked, and whether it
/// is then checked.
pub fn click_button(current: &str, on_value: &str, kind: ButtonKind) -> (result: (String, bool))
    ensures
        (result.0@, result.1) == clicked_button(current@, on_value@, kind),
{
    let current = current.to_owned();
    let on = on_value.to_owned();
    if current != on {
        (on, true)
    } else if kind == ButtonKind::Radio {
        (on, true)
    } else {
        (String::from_str("Off"), false)
    }
}

} // verus!
