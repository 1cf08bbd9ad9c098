use blink_md::cli::tui::{
    flatten, level_from_blocks, Command, DetailTone, Key, TabsState, TogglePlan, TreeEdit, TuiState,
};
use blink_md::json::JsonValue;
use blink_md::models::block::{Block, BlockType, TextBlockContent};
use blink_md::models::common::User;
use blink_md::models::page::Page;

fn block(id: &str, has_children: bool) -> Block {
    Block {
        object: "block".to_string(),
        id: id.to_string(),
        created_time: String::new(),
        last_edited_time: String::new(),
        created_by: User::placeholder(),
        last_edited_by: User::placeholder(),
        has_children,
        in_trash: false,
        parent: None,
        block_type: BlockType::Paragraph {
            paragraph: TextBlockContent { rich_text: vec![], color: "default".to_string(), children: None },
        },
    }
}

fn page(id: &str) -> Page {
    Page {
        object: "page".to_string(),
        id: id.to_string(),
        created_time: String::new(),
        last_edited_time: String::new(),
        created_by: User::placeholder(),
        last_edited_by: User::placeholder(),
        parent: JsonValue::Null,
        in_trash: false,
        properties: JsonValue::Object(vec![]),
        url: format!("https://notion.so/{id}"),
    }
}

#[test]
fn tab_index_round_trips() {
    for i in 0..5 {
        assert_eq!(TabsState::from_index(i).index(), i);
    }
    assert_eq!(TabsState::from_index(9), TabsState::Users);
    assert_eq!(TabsState::titles(), vec!["Users", "Pages", "Blocks", "DBs", "Search"]);
}

#[test]
fn tabs_wrap_both_ways() {
    assert_eq!(TabsState::Search.next(), TabsState::Users);
    assert_eq!(TabsState::Users.previous(), TabsState::Search);
    assert_eq!(TabsState::Pages.next().previous(), TabsState::Pages);
}

#[test]
fn new_state_is_ready() {
    let s = TuiState::new();
    assert_eq!(s.status_message, "Ready");
    assert_eq!(s.tab, TabsState::Users);
}

#[test]
fn quit_closes_help_first() {
    let mut s = TuiState::new();
    assert_eq!(s.handle_key(Key::Char('?')), Command::Nothing);
    assert!(s.show_help);
    assert_eq!(s.handle_key(Key::Esc), Command::Nothing);
    assert!(!s.show_help);
    assert_eq!(s.handle_key(Key::Char('q')), Command::Quit);
}

#[test]
fn tab_switch_asks_for_the_new_tab_list() {
    let mut s = TuiState::new();
    assert_eq!(s.handle_key(Key::Tab), Command::LoadPages);
    assert_eq!(s.tab, TabsState::Pages);
    assert_eq!(s.handle_key(Key::Tab), Command::Nothing);
    assert_eq!(s.tab, TabsState::BlocksTree);
    assert_eq!(s.handle_key(Key::BackTab), Command::LoadPages);
    assert_eq!(s.handle_key(Key::BackTab), Command::LoadUsers);
}

#[test]
fn selection_wraps_around() {
    let mut s = TuiState::new();
    s.tab = TabsState::Pages;
    s.pages_loaded(Ok(vec![page("a"), page("b"), page("c")]));
    assert_eq!(s.status_message, "Pages loaded");
    assert_eq!(s.pages_selected, 0);
    assert!(s.detail_text.starts_with("ID: a\nURL: https://notion.so/a\nTrashed: false\nTitle: "));
    s.handle_key(Key::Up);
    assert_eq!(s.pages_selected, 2);
    s.handle_key(Key::Char('j'));
    assert_eq!(s.pages_selected, 0);
    s.handle_key(Key::Down);
    assert_eq!(s.pages_selected, 1);
}

#[test]
fn enter_on_page_opens_its_blocks() {
    let mut s = TuiState::new();
    s.tab = TabsState::Pages;
    s.pages_loaded(Ok(vec![page("p1")]));
    assert_eq!(s.handle_key(Key::Enter), Command::LoadBlockTree("p1".to_string()));
    assert_eq!(s.tab, TabsState::BlocksTree);
    s.begin_load(blink_md::cli::tui::LoadKind::Blocks);
    assert_eq!(s.status_message, "Loading blocks...");
    s.block_tree_loaded("p1", Ok(vec![block("b1", true), block("b2", false)]));
    assert_eq!(s.status_message, "Blocks loaded");
    assert_eq!(s.current_page_id.as_deref(), Some("p1"));
    assert_eq!(s.detail_text, "ID: b1\nType: paragraph\nHas children: true\nTrashed: false");
    assert_eq!(s.list_labels(), vec!["\u{25b6} paragraph".to_string(), "\u{25b6} paragraph".to_string()]);
}

#[test]
fn toggling_tree_nodes() {
    let mut s = TuiState::new();
    s.block_tree_loaded("p", Ok(vec![block("b1", true), block("b2", false)]));
    s.tab = TabsState::BlocksTree;
    assert_eq!(s.handle_key(Key::Enter), Command::ToggleExpand(0));
    match s.toggle_plan(0) {
        TogglePlan::FetchChildren { block_id, indent } => {
            assert_eq!(block_id, "b1");
            assert_eq!(indent, 0);
            let kids = level_from_blocks(&vec![block("c1", false)], indent + 1);
            s.apply_edit(0, TreeEdit::ExpandWith(kids));
        }
        other => panic!("expected a fetch, got {:?}", other),
    }
    assert_eq!(s.list_len(), 3);
    let rows = flatten(&s.block_tree);
    assert_eq!(rows[1].id, "c1");
    assert_eq!(rows[1].indent, 1);
    assert_eq!(s.list_labels()[1], "  \u{25b6} paragraph");
    assert_eq!(s.toggle_plan(2), TogglePlan::Expand);
    assert_eq!(s.toggle_plan(0), TogglePlan::Collapse);
    s.apply_edit(0, TreeEdit::Collapse);
    assert_eq!(s.list_len(), 2);
    assert_eq!(s.toggle_plan(5), TogglePlan::Nothing);
    s.apply_edit(5, TreeEdit::Expand);
    assert_eq!(s.list_len(), 2);
}

#[test]
fn typing_a_search_query() {
    let mut s = TuiState::new();
    s.tab = TabsState::Search;
    for c in "abc".chars() {
        s.handle_key(Key::Char(c));
    }
    s.handle_key(Key::Backspace);
    assert_eq!(s.search_query, "ab");
    assert_eq!(s.handle_key(Key::Enter), Command::RunSearch);
    assert!(s.begin_search());
    s.search_loaded(Ok(vec![
        JsonValue::Object(vec![("id".to_string(), JsonValue::String("r1".to_string()))]),
        JsonValue::Null,
    ]));
    assert_eq!(s.detail_text, "Found 2 results");
    assert_eq!(s.list_labels(), vec!["r1".to_string(), "result 1".to_string()]);
    assert_eq!(s.handle_key(Key::Down), Command::ShowResultJson(1));
    let (text, tone) = s.detail_view();
    assert_eq!(text, "Search: ab\n\nFound 2 results");
    assert_eq!(tone, DetailTone::Normal);
}

#[test]
fn empty_query_does_not_search() {
    let mut s = TuiState::new();
    assert!(!s.begin_search());
    s.search_loaded(Ok(vec![]));
    assert_eq!(s.detail_text, "No results");
}

#[test]
fn load_errors_show_in_status_and_tone() {
    let mut s = TuiState::new();
    s.users_loaded(Err("Unauthorized".to_string()));
    assert_eq!(s.status_message, "Error: Unauthorized");
    assert_eq!(s.footer_text(), " [q]uit | [tab] next tab | [j/k] move | [enter] select | Status: Error: Unauthorized");
    s.detail_text = "an error happened".to_string();
    assert_eq!(s.detail_view().1, DetailTone::Error);
    s.detail_text = "Success!".to_string();
    assert_eq!(s.detail_view().1, DetailTone::Success);
}

#[test]
fn title_marks_loading() {
    let mut s = TuiState::new();
    assert_eq!(s.title_text(), "notion-rs TUI");
    s.begin_load(blink_md::cli::tui::LoadKind::Users);
    assert_eq!(s.title_text(), "\u{27f3} notion-rs TUI");
}

#[test]
fn user_detail_shows_debug_fields() {
    let mut s = TuiState::new();
    let mut u = User::placeholder();
    u.name = Some("Ada".to_string());
    s.users_loaded(Ok(vec![u]));
    assert_eq!(s.detail_text, "Name: Ada\nID: dummy\nType: Bot { workspace_name: None }\nAvatar: None");
}
