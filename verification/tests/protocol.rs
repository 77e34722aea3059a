use qsc_partial_eval::protocol::{CompletionItem, CompletionItemKind};

#[test]
fn new_completion_item_has_label_and_kind_only() {
    let item = CompletionItem::new("Main".to_string(), CompletionItemKind::Function);
    assert_eq!(item.label, "Main");
    assert_eq!(item.kind, CompletionItemKind::Function);
    assert!(item.sort_text.is_none());
    assert!(item.detail.is_none());
    assert!(item.additional_text_edits.is_none());
}
