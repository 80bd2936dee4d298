use pdf_ui::model::Tool;

#[test]
fn tools_have_labels_and_select_is_the_default() {
    assert_eq!(Tool::default(), Tool::Select);
    assert_eq!(Tool::AddText.label(), "Add text");
    assert_eq!(Tool::Hand.label(), "Hand");
    assert_eq!(Tool::Redact.label(), "Redact");
}
