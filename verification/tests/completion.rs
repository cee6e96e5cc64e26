use aide::lsp::completion::{CompletionItem, CompletionKind, CompletionList};

fn kind_code(kind: lsp_types::CompletionItemKind) -> i32 {
    serde_json::to_value(kind).unwrap().as_i64().unwrap() as i32
}

fn item_from_lsp(item: lsp_types::CompletionItem) -> CompletionItem {
    let documentation = item.documentation.map(|doc| match doc {
        lsp_types::Documentation::String(s) => s,
        lsp_types::Documentation::MarkupContent(mc) => mc.value,
    });
    let edit_text = item.text_edit.map(|edit| match edit {
        lsp_types::CompletionTextEdit::Edit(e) => e.new_text,
        lsp_types::CompletionTextEdit::InsertAndReplace(e) => e.new_text,
    });
    CompletionItem::from_lsp_parts(
        item.label,
        item.kind.map(|k| CompletionKind::from_code(kind_code(k))),
        item.detail,
        documentation,
        item.insert_text,
        edit_text,
        item.filter_text,
        item.sort_text,
    )
}

fn list_from_lsp(response: lsp_types::CompletionResponse) -> CompletionList {
    match response {
        lsp_types::CompletionResponse::Array(items) => {
            CompletionList::from_items(items.into_iter().map(item_from_lsp).collect(), false)
        }
        lsp_types::CompletionResponse::List(list) => CompletionList::from_items(
            list.items.into_iter().map(item_from_lsp).collect(),
            list.is_incomplete,
        ),
    }
}

#[test]
fn test_completion_kind_display_name() {
    assert_eq!(CompletionKind::Function.display_name(), "関数");
    assert_eq!(CompletionKind::Variable.display_name(), "変数");
    assert_eq!(CompletionKind::Keyword.display_name(), "キーワード");
    assert_eq!(CompletionKind::Struct.display_name(), "構造体");
}

#[test]
fn test_completion_kind_icon() {
    assert_eq!(CompletionKind::Function.icon(), "ƒ");
    assert_eq!(CompletionKind::Variable.icon(), "𝑥");
    assert_eq!(CompletionKind::Keyword.icon(), "🔤");
}

#[test]
fn test_completion_kind_from_lsp() {
    let lsp_kind = lsp_types::CompletionItemKind::FUNCTION;
    let kind = CompletionKind::from_code(kind_code(lsp_kind));
    assert_eq!(kind, CompletionKind::Function);

    let lsp_kind = lsp_types::CompletionItemKind::STRUCT;
    let kind = CompletionKind::from_code(kind_code(lsp_kind));
    assert_eq!(kind, CompletionKind::Struct);
}

#[test]
fn test_completion_item_creation() {
    let item = CompletionItem::new("test_function", CompletionKind::Function)
        .with_detail("fn test_function()")
        .with_documentation("テスト関数です");

    assert_eq!(item.label, "test_function");
    assert_eq!(item.kind, CompletionKind::Function);
    assert_eq!(item.detail, Some("fn test_function()".to_string()));
    assert_eq!(item.documentation, Some("テスト関数です".to_string()));
}

#[test]
fn test_completion_item_text_to_insert() {
    let item = CompletionItem::new("println!", CompletionKind::Macro);
    assert_eq!(item.text_to_insert(), "println!");

    let item = CompletionItem::new("println!", CompletionKind::Macro).with_insert_text("println!(\"$1\")");
    assert_eq!(item.text_to_insert(), "println!(\"$1\")");
}

#[test]
fn test_completion_item_formatted_display() {
    let item = CompletionItem::new("test_function", CompletionKind::Function).with_detail("fn()");
    let display = item.formatted_display();
    assert!(display.contains("test_function"));
    assert!(display.contains("fn()"));
    assert!(display.contains("ƒ"));
}

#[test]
fn test_completion_item_from_lsp() {
    let lsp_item = lsp_types::CompletionItem {
        label: "test_method".to_string(),
        kind: Some(lsp_types::CompletionItemKind::METHOD),
        detail: Some("fn test_method(&self)".to_string()),
        ..Default::default()
    };

    let item = item_from_lsp(lsp_item);
    assert_eq!(item.label, "test_method");
    assert_eq!(item.kind, CompletionKind::Method);
    assert_eq!(item.detail, Some("fn test_method(&self)".to_string()));
}

#[test]
fn test_completion_list_creation() {
    let mut list = CompletionList::new();
    assert!(list.is_empty());

    list.add(CompletionItem::new("item1", CompletionKind::Function));
    list.add(CompletionItem::new("item2", CompletionKind::Variable));

    assert_eq!(list.len(), 2);
    assert!(!list.is_empty());
}

#[test]
fn test_completion_list_filter() {
    let mut list = CompletionList::new();
    list.add(CompletionItem::new("test_function", CompletionKind::Function));
    list.add(CompletionItem::new("another_function", CompletionKind::Function));
    list.add(CompletionItem::new("test_variable", CompletionKind::Variable));

    let filtered = list.filter("test");
    assert_eq!(filtered.len(), 2);

    let filtered = list.filter("function");
    assert_eq!(filtered.len(), 2);

    let filtered = list.filter("another");
    assert_eq!(filtered.len(), 1);
}

#[test]
fn test_completion_list_filter_case_insensitive() {
    let mut list = CompletionList::new();
    list.add(CompletionItem::new("TestFunction", CompletionKind::Function));
    list.add(CompletionItem::new("testVariable", CompletionKind::Variable));

    let filtered = list.filter("test");
    assert_eq!(filtered.len(), 2);

    let filtered = list.filter("TEST");
    assert_eq!(filtered.len(), 2);
}

#[test]
fn test_completion_list_sorted() {
    let mut list = CompletionList::new();
    list.add(CompletionItem::new("zebra", CompletionKind::Function));
    list.add(CompletionItem::new("apple", CompletionKind::Function));
    list.add(CompletionItem::new("mango", CompletionKind::Function));

    let sorted = list.sorted();
    assert_eq!(sorted[0].label, "apple");
    assert_eq!(sorted[1].label, "mango");
    assert_eq!(sorted[2].label, "zebra");
}

#[test]
fn test_completion_list_from_lsp_array() {
    let lsp_response = lsp_types::CompletionResponse::Array(vec![
        lsp_types::CompletionItem {
            label: "item1".to_string(),
            kind: Some(lsp_types::CompletionItemKind::FUNCTION),
            ..Default::default()
        },
        lsp_types::CompletionItem {
            label: "item2".to_string(),
            kind: Some(lsp_types::CompletionItemKind::VARIABLE),
            ..Default::default()
        },
    ]);

    let list = list_from_lsp(lsp_response);
    assert_eq!(list.len(), 2);
    assert!(!list.is_incomplete);
}

#[test]
fn test_completion_list_from_lsp_list() {
    let lsp_response = lsp_types::CompletionResponse::List(lsp_types::CompletionList {
        is_incomplete: true,
        items: vec![lsp_types::CompletionItem {
            label: "partial_item".to_string(),
            ..Default::default()
        }],
    });

    let list = list_from_lsp(lsp_response);
    assert_eq!(list.len(), 1);
    assert!(list.is_incomplete);
}

// Own tests.

#[test]
fn sorting_uses_sort_text_and_keeps_ties_in_order() {
    let mut list = CompletionList::new();
    let mut b = CompletionItem::new("b", CompletionKind::Function);
    b.sort_text = Some("0".to_string());
    list.add(CompletionItem::new("same", CompletionKind::Variable));
    list.add(CompletionItem::new("a", CompletionKind::Function));
    list.add(b);
    list.add(CompletionItem::new("same", CompletionKind::Struct));
    let sorted = list.sorted();
    assert_eq!(sorted[0].label, "b");
    assert_eq!(sorted[1].label, "a");
    assert_eq!(sorted[2].kind, CompletionKind::Variable);
    assert_eq!(sorted[3].kind, CompletionKind::Struct);
}

#[test]
fn filter_uses_filter_text_and_empty_query_keeps_all() {
    let mut list = CompletionList::new();
    let mut item = CompletionItem::new("label", CompletionKind::Text);
    item.filter_text = Some("Hidden".to_string());
    list.add(item);
    list.add(CompletionItem::new("other", CompletionKind::Text));
    assert_eq!(list.filter("hid").len(), 1);
    assert_eq!(list.filter("label").len(), 0);
    assert_eq!(list.filter("").len(), 2);
}

#[test]
fn kind_codes_map_as_the_protocol_numbers_them() {
    assert_eq!(CompletionKind::from_code(1), CompletionKind::Text);
    assert_eq!(CompletionKind::from_code(25), CompletionKind::TypeParameter);
    assert_eq!(CompletionKind::from_code(24), CompletionKind::Operator);
    assert_eq!(CompletionKind::from_code(0), CompletionKind::Text);
    assert_eq!(CompletionKind::from_code(99), CompletionKind::Text);
}

#[test]
fn insert_text_falls_back_to_edit_text() {
    let item = CompletionItem::from_lsp_parts(
        "x".to_string(),
        None,
        None,
        None,
        None,
        Some("edit".to_string()),
        None,
        None,
    );
    assert_eq!(item.kind, CompletionKind::Text);
    assert_eq!(item.text_to_insert(), "edit");
    assert_eq!(item.formatted_display(), "📝 x");
}
