use vstd::prelude::*;

use crate::status::{decimal, decimal_text};

verus! {

/// What the editor reads of a queued edit: which kind of edit it is and the
/// page it lands on, or, for a form fill, the field and the value it writes.
#[derive(Debug)]
pub enum EditEntry {
    Highlight { page_index: usize },
    Underline { page_index: usize },
    StrikeOut { page_index: usize },
    Redact { page_index: usize },
    Shape { page_index: usize },
    Note { page_index: usize },
    AddText { page_index: usize },
    FillForm { name: String, value: String },
}

/// The page an edit lands on; a form fill belongs to no page.
pub open spec fn entry_page(edit: EditEntry) -> Option<usize> {
    match edit {
        EditEntry::Highlight { page_index } => Some(page_index),
        EditEntry::Underline { page_index } => Some(page_index),
        EditEntry::StrikeOut { page_index } => Some(page_index),
        EditEntry::Redact { page_index } => Some(page_index),
        EditEntry::Shape { page_index } => Some(page_index),
        EditEntry::Note { page_index } => Some(page_index),
        EditEntry::AddText { page_index } => Some(page_index),
        EditEntry::FillForm { .. } => None,
    }
}

/// The label of an edit of kind `kind` on the page `page_index`.
pub open spec fn page_entry_label(kind: Seq<char>, page_index: usize) -> Seq<char> {
    kind + " · page "@ + decimal(page_index as nat + 1)
}

/// How the edit list names an edit.
pub open spec fn entry_label(edit: EditEntry) -> Seq<char> {
    match edit {
        EditEntry::Highlight { page_index } => page_entry_label("Highlight"@, page_index),
        EditEntry::Underline { page_index } => page_entry_label("Underline"@, page_index),
        EditEntry::StrikeOut { page_index } => page_entry_label("Strikeout"@, page_index),
        EditEntry::Redact { page_index } => page_entry_label("Redaction"@, page_index),
        EditEntry::Shape { page_index } => page_entry_label("Shape"@, page_index),
        EditEntry::Note { page_index } => page_entry_label("Comment"@, page_index),
        EditEntry::AddText { page_index } => page_entry_label("Text"@, page_index),
        EditEntry::FillForm { name, .. } => "Form · "@ + name@,
    }
}

/// The page an edit lands on.
pub fn edit_page(edit: &EditEntry) -> (page: Option<usize>)
    ensures
        page == entry_page(*edit),
{
    match edit {
        EditEntry::Highlight { page_index } => Some(*page_index),
        EditEntry::Underline { page_index } => Some(*page_index),
        EditEntry::StrikeOut { page_index } => Some(*page_index),
        EditEntry::Redact { page_index } => Some(*page_index),
        EditEntry::Shape { page_index } => Some(*page_index),
        EditEntry::Note { page_index } => Some(*page_index),
        EditEntry::AddText { page_index } => Some(*page_index),
        EditEntry::FillForm { .. } => None,
    }
}

fn page_label(kind: &str, page_index: usize) -> (label: String)
    requires
        page_index < usize::MAX,
    ensures
        label@ == kind@ + " · page "@ + decimal(page_index as nat + 1),
{
    let mut label = kind.to_owned();
    label.append(" · page ");
    label.append(decimal_text(page_index + 1).as_str());
    label
}

/// How the edit list names an edit.
pub fn edit_label(edit: &EditEntry) -> (label: String)
    requires
        entry_page(*edit) matches Some(p) ==> p < usize::MAX,
    ensures
        label@ == entry_label(*edit),
{
    match edit {
        EditEntry::Highlight { page_index } => page_label("Highlight", *page_index),
        EditEntry::Underline { page_index } => page_label("Underline", *page_index),
        EditEntry::StrikeOut { page_index } => page_label("Strikeout", *page_index),
        EditEntry::Redact { page_index } => page_label("Redaction", *page_index),
        EditEntry::Shape { page_index } => page_label("Shape", *page_index),
        EditEntry::Note { page_index } => page_label("Comment", *page_index),
        EditEntry::AddText { page_index } => page_label("Text", *page_index),
        EditEntry::FillForm { name, .. } => {
            let mut label = String::from_str("Form · ");
            label.append(name.as_str());
            label
        },
    }
}

/// The value the newest queued fill of the field `name` writes, if any.
pub open spec fn latest_fill(edits: Seq<EditEntry>, name: Seq<char>) -> Option<Seq<char>>
    decreases edits.len(),
{
    if edits.len() == 0 {
        None
    } else {
        match edits.last() {
            EditEntry::FillForm { name: n, value } => if n@ == name {
                Some(value@)
            } else {
                latest_fill(edits.drop_last(), name)
            },
            _ => latest_fill(edits.drop_last(), name),
        }
    }
}

/// The value a form field shows when a document opens: the newest queued
/// fill of the field, else the value stored in the document.
pub fn pending_form_value(edits: &[EditEntry], name: &str, stored: &str) -> (value: String)
    ensures
        value@ == match latest_fill(edits@, name@) {
            Some(v) => v,
            None => stored@,
        },
{
    let wanted = name.to_owned();
    let mut i = edits.len();
    assert(edits@.take(i as int) =~= edits@);
    while i > 0
        invariant
            i <= edits@.len(),
            wanted@ == name@,
            latest_fill(edits@, name@) == latest_fill(edits@.take(i as int), name@),
        decreases i,
    {
        let ghost prefix = edits@.take(i as int);
        assert(prefix.drop_last() =~= edits@.take(i - 1));
        assert(prefix.last() == edits@[i - 1]);
        match &edits[i - 1] {
            EditEntry::FillForm { name: field, value } => {
                if *field == wanted {
                    return value.clone();
                }
            },
            _ => {},
        }
        i = i - 1;
    }
    stored.to_owned()
}

} // verus!
