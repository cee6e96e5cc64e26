use aide::ui::sidebar::{icon_for, FileEntry, FileExplorer};
use aide::ui::statusbar::{StatusBar, StatusInfo};
use aide::ui::tabs::{tab_bar_action, title_for, Tab, TabBar, TabBarAction, TabEvents};

#[test]
fn test_status_info_creation() {
    let info = StatusInfo::new();
    assert!(info.message.is_empty());
    assert!(info.file_name.is_none());
    assert_eq!(info.cursor_line, 1);
    assert_eq!(info.cursor_column, 1);
}

#[test]
fn test_status_info_set_message() {
    let mut info = StatusInfo::new();
    info.set_message("テストメッセージ");
    assert_eq!(info.message, "テストメッセージ");
}

#[test]
fn test_status_info_set_file_info() {
    let mut info = StatusInfo::new();
    info.set_file_info(Some("test.rs".to_string()), 100, 5000, true);

    assert_eq!(info.file_name, Some("test.rs".to_string()));
    assert_eq!(info.line_count, 100);
    assert_eq!(info.char_count, 5000);
    assert!(info.modified);
}

#[test]
fn test_status_info_set_cursor() {
    let mut info = StatusInfo::new();
    info.set_cursor(10, 20);

    assert_eq!(info.cursor_line, 10);
    assert_eq!(info.cursor_column, 20);
}

#[test]
fn test_status_bar_creation() {
    let bar = StatusBar::new();
    assert!(bar.info().message.is_empty());
}

#[test]
fn test_status_bar_set_info() {
    let mut bar = StatusBar::new();
    let mut info = StatusInfo::new();
    info.set_message("新しいメッセージ");
    bar.set_info(info);

    assert_eq!(bar.info().message, "新しいメッセージ");
}

#[test]
fn test_status_info_set_language() {
    let mut info = StatusInfo::new();
    info.set_language("Rust");
    assert_eq!(info.language, "Rust");
}

#[test]
fn test_status_info_set_theme() {
    let mut info = StatusInfo::new();
    info.set_theme("Monokai");
    assert_eq!(info.theme, "Monokai");
}

#[test]
fn status_texts() {
    let mut info = StatusInfo::new();
    info.set_file_info(None, 12, 340, true);
    info.set_cursor(3, 7);
    info.set_language("Rust");
    assert_eq!(info.encoding_text(), "UTF-8 | LF");
    assert_eq!(info.cursor_text(), "行 3, 列 7");
    assert_eq!(info.language_text(), "言語: Rust");
    assert_eq!(info.file_info_text(), "12 行, 340 文字 ●");
    info.set_file_info(None, 0, 0, false);
    assert_eq!(info.file_info_text(), "0 行, 0 文字");
}

#[test]
fn test_tab_creation() {
    let tab = Tab::new(1);
    assert_eq!(tab.id, 1);
    assert!(tab.path.is_none());
    assert!(!tab.modified);
}

#[test]
fn test_tab_from_path() {
    let path = "/test/file.rs".to_string();
    let tab = Tab::from_path(1, path.clone());
    assert_eq!(tab.id, 1);
    assert_eq!(tab.path, Some(path));
    assert_eq!(tab.title, "file.rs");
}

#[test]
fn test_tab_display_title() {
    let mut tab = Tab::new(1);
    tab.title = "test.rs".to_string();
    assert_eq!(tab.display_title(), "test.rs");

    tab.modified = true;
    assert_eq!(tab.display_title(), "● test.rs");
}

#[test]
fn test_tab_bar_creation() {
    let bar = TabBar::new();
    assert_eq!(bar.len(), 1);
    assert_eq!(bar.active_index(), 0);
}

#[test]
fn test_tab_bar_add_tab() {
    let mut bar = TabBar::new();
    assert_eq!(bar.len(), 1);

    bar.add_tab();
    assert_eq!(bar.len(), 2);
    assert_eq!(bar.active_index(), 1);
}

#[test]
fn test_tab_bar_close_tab() {
    let mut bar = TabBar::new();
    bar.add_tab();
    bar.add_tab();
    assert_eq!(bar.len(), 3);

    bar.close_tab(1);
    assert_eq!(bar.len(), 2);
}

#[test]
fn test_tab_bar_cannot_close_last_tab() {
    let mut bar = TabBar::new();
    assert_eq!(bar.len(), 1);

    let result = bar.close_tab(0);
    assert!(!result);
    assert_eq!(bar.len(), 1);
}

#[test]
fn test_tab_bar_select_tab() {
    let mut bar = TabBar::new();
    bar.add_tab();
    bar.add_tab();

    bar.select_tab(0);
    assert_eq!(bar.active_index(), 0);

    bar.select_tab(2);
    assert_eq!(bar.active_index(), 2);
}

#[test]
fn test_tab_bar_select_next_prev() {
    let mut bar = TabBar::new();
    bar.add_tab();
    bar.add_tab();
    bar.select_tab(0);

    bar.select_next_tab();
    assert_eq!(bar.active_index(), 1);

    bar.select_next_tab();
    assert_eq!(bar.active_index(), 2);

    bar.select_next_tab();
    assert_eq!(bar.active_index(), 0);

    bar.select_prev_tab();
    assert_eq!(bar.active_index(), 2);
}

#[test]
fn test_tab_bar_has_modified_tabs() {
    let mut bar = TabBar::new();
    assert!(!bar.has_modified_tabs());

    if let Some(tab) = bar.active_tab_mut() {
        tab.modified = true;
    }
    assert!(bar.has_modified_tabs());
}

#[test]
fn test_tab_bar_add_tab_from_path() {
    let mut bar = TabBar::new();
    let path = "/test/file.rs".to_string();

    let id1 = bar.add_tab_from_path(path.clone());
    assert_eq!(bar.len(), 2);

    let id2 = bar.add_tab_from_path(path);
    assert_eq!(bar.len(), 2);
    assert_eq!(id1, id2);
}

#[test]
fn closing_before_the_active_tab_keeps_it_active() {
    let mut bar = TabBar::new();
    bar.add_tab();
    bar.add_tab();
    let active_id = bar.active_tab().unwrap().id;
    assert!(bar.close_tab(0));
    assert_eq!(bar.active_tab().unwrap().id, active_id);
    assert!(!bar.close_tab(9));
    assert!(bar.close_active_tab());
    assert_eq!(bar.len(), 1);
}

#[test]
fn tab_bar_actions() {
    let none = TabEvents { clicked: false, close: false, close_others: false, middle_clicked: false };
    let click = TabEvents { clicked: true, ..none };
    let middle = TabEvents { middle_clicked: true, ..none };
    let others = TabEvents { close_others: true, ..none };
    assert_eq!(tab_bar_action(&vec![none, none], false), TabBarAction::Nothing);
    assert_eq!(tab_bar_action(&vec![none, click], false), TabBarAction::Select(1));
    assert_eq!(tab_bar_action(&vec![click, middle], false), TabBarAction::Close(1));
    assert_eq!(tab_bar_action(&vec![others, none], false), TabBarAction::CloseOthers(0));
    assert_eq!(tab_bar_action(&vec![click, middle], true), TabBarAction::New);
    assert_eq!(tab_bar_action(&vec![], false), TabBarAction::Nothing);
}

fn entry(path: &str, is_dir: bool) -> FileEntry {
    FileEntry::from_path(path, is_dir).unwrap()
}

#[test]
fn test_file_entry_from_path() {
    let entry = FileEntry::from_path("/tmp/project", true);
    assert!(entry.is_some());

    let entry = entry.unwrap();
    assert!(entry.is_dir);
}

#[test]
fn test_file_entry_icon() {
    let rs_file = FileEntry {
        path: "/test/file.rs".to_string(),
        name: "file.rs".to_string(),
        is_dir: false,
        children: None,
    };
    assert_eq!(rs_file.icon(), "🦀");

    let dir = FileEntry {
        path: "/test/dir".to_string(),
        name: "dir".to_string(),
        is_dir: true,
        children: None,
    };
    assert_eq!(dir.icon(), "📁");
}

#[test]
fn test_file_explorer_creation() {
    let explorer = FileExplorer::new();
    assert!(explorer.is_visible());
    assert!(explorer.root_entry().is_none());
}

#[test]
fn test_file_explorer_toggle() {
    let mut explorer = FileExplorer::new();
    assert!(explorer.is_visible());

    explorer.toggle();
    assert!(!explorer.is_visible());

    explorer.toggle();
    assert!(explorer.is_visible());
}

#[test]
fn test_file_explorer_set_root() {
    let mut explorer = FileExplorer::new();
    let path = "/tmp/project";

    let mut root = FileEntry::from_path(path, true).unwrap();
    root.set_children(vec![entry("/tmp/project/src", true), entry("/tmp/project/Cargo.toml", false)]);
    explorer.set_root(root);
    assert!(explorer.root_entry().is_some());
    assert!(explorer.is_expanded(path));
}

#[test]
fn icons_by_extension() {
    assert_eq!(entry("/a/b.toml", false).icon(), "📋");
    assert_eq!(entry("/a/README.md", false).icon(), "📝");
    assert_eq!(entry("/a/x.yaml", false).icon(), "⚙️");
    assert_eq!(entry("/a/run.bash", false).icon(), "🐚");
    assert_eq!(entry("/a/m.py", false).icon(), "🐍");
    assert_eq!(entry("/a/app.ts", false).icon(), "📜");
    assert_eq!(entry("/a/data.json", false).icon(), "📊");
    assert_eq!(entry("/a/Makefile", false).icon(), "📄");
    assert_eq!(entry("/a/x.RS", false).icon(), "📄");
    assert!(FileEntry::from_path("/", true).is_none());
}

#[test]
fn children_hide_dot_files_and_put_directories_first() {
    let mut dir = entry("/p", true);
    dir.set_children(vec![
        entry("/p/zeta.rs", false),
        entry("/p/.git", true),
        entry("/p/Beta", true),
        entry("/p/alpha.rs", false),
        entry("/p/src", true),
        entry("/p/.hidden", false),
    ]);
    let names: Vec<&str> = dir.children.as_ref().unwrap().iter().map(|e| e.name.as_str()).collect();
    assert_eq!(names, vec!["Beta", "src", "alpha.rs", "zeta.rs"]);

    let mut file = entry("/p/f.txt", false);
    file.set_children(vec![entry("/p/x", false)]);
    assert!(file.children.is_none());
}

#[test]
fn expansion_and_selection() {
    let mut explorer = FileExplorer::new();
    explorer.set_expanded("/a", true);
    assert!(explorer.is_expanded("/a"));
    explorer.set_expanded("/a", true);
    explorer.set_expanded("/a", false);
    assert!(!explorer.is_expanded("/a"));
    assert_eq!(explorer.selected(), None);
    explorer.select("/a/x.rs".to_string());
    assert_eq!(explorer.selected(), Some("/a/x.rs"));
    let root = entry("/a", true);
    explorer.set_root(root);
    let taken = explorer.take_root().unwrap();
    assert!(explorer.root_entry().is_none());
    explorer.put_root(taken);
    assert_eq!(explorer.root_entry().unwrap().name, "a");
}

#[test]
fn same_file_spelled_differently_selects_its_tab() {
    let mut bar = TabBar::new();
    let id1 = bar.add_tab_from_path("/a/b".to_string());
    let id2 = bar.add_tab_from_path("/a//b".to_string());
    let id3 = bar.add_tab_from_path("/a/./b".to_string());
    assert_eq!(bar.len(), 2);
    assert_eq!(id1, id2);
    assert_eq!(id1, id3);
    assert_eq!(bar.active_index(), 1);
    assert_eq!(bar.add_tab_from_path("/a/b/".to_string()), id1);
    assert_ne!(bar.add_tab_from_path("/a/c".to_string()), id1);
    assert_eq!(bar.len(), 3);
}

#[test]
fn new_tab_ids_grow() {
    let mut bar = TabBar::new();
    let first = bar.active_tab().unwrap().id;
    let a = bar.add_tab();
    let b = bar.add_tab_from_path("/x/y.rs".to_string());
    assert!(first < a);
    assert!(a < b);
    assert_eq!(a, 2);
    assert_eq!(b, 3);
}

#[test]
fn expanded_paths_compare_as_paths() {
    let mut explorer = FileExplorer::new();
    explorer.set_expanded("/a/b", true);
    assert!(explorer.is_expanded("/a//b"));
    assert!(explorer.is_expanded("/a/b/"));
    explorer.set_expanded("/a//b", true);
    explorer.set_expanded("/a/./b", false);
    assert!(!explorer.is_expanded("/a/b"));
}

#[test]
fn icons_and_titles_from_their_parts() {
    assert_eq!(icon_for(true, Some("rs")), "📁");
    assert_eq!(icon_for(false, Some("rs")), "🦀");
    assert_eq!(icon_for(false, Some("yml")), "⚙️");
    assert_eq!(icon_for(false, Some("RS")), "📄");
    assert_eq!(icon_for(false, None), "📄");
    assert_eq!(title_for(Some("main.rs".to_string())), "main.rs");
    assert_eq!(title_for(None), "不明");
    assert_eq!(Tab::from_path(4, "/".to_string()).title, "不明");
}
