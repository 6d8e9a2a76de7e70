use barnacle::command::VimCommand;
use barnacle::config::ClientConfig;
use barnacle::gist::{FileGist, GistError, GistUpdate, ListGist, ResponseGist};
use barnacle::keys::{KeyCode, KeyEvent, KeyModifiers};
use barnacle::selection::{on_down_press_handler, on_up_press_handler};
use barnacle::task::{AppFilterMode, ItemStatus, Timestamp, WorkItem};
use barnacle::tracker::{App, AppAction, AppMode};

fn key(c: char) -> KeyEvent {
    KeyEvent::new(KeyCode::Char(c), KeyModifiers::empty())
}

fn code(k: KeyCode) -> KeyEvent {
    KeyEvent::new(k, KeyModifiers::empty())
}

fn task(id: &str, content: &str, status: ItemStatus) -> WorkItem {
    let mut t = WorkItem::new_at(Timestamp { seconds: 100 });
    t.id = Some(id.to_string());
    t.content = Some(content.to_string());
    t.status = status;
    t
}

fn contents(v: &[WorkItem]) -> Vec<String> {
    v.iter().map(|t| t.content.clone().unwrap()).collect()
}

fn mixed_app() -> App {
    let mut app = App::new();
    app.tasks.push(task("a", "started", ItemStatus::Started));
    app.tasks.push(task("b", "finished", ItemStatus::Finished));
    app.tasks.push(task("c", "wontfix", ItemStatus::WontFix));
    app.tasks.push(task("d", "unstarted", ItemStatus::UnStarted));
    app
}

fn file(name: &str, url: &str) -> (String, FileGist) {
    (
        name.to_string(),
        FileGist {
            name: name.to_string(),
            type_file: None,
            lang: None,
            raw_url: url.to_string(),
            size: 1,
        },
    )
}

fn gist(id: &str, url: &str, files: Vec<(String, FileGist)>) -> ResponseGist {
    ResponseGist { id: id.to_string(), url: url.to_string(), desc: None, files }
}

fn store() -> ListGist {
    ListGist::new(vec![
        gist("zzzzz999", "https://x/other", vec![file("other", "https://raw/other")]),
        gist("abcde123", "https://x/mine", vec![file("work", "https://raw/work"), file("home", "https://raw/home")]),
    ])
}

#[test]
fn filter_finished_yields_the_finished_task() {
    let mut app = mixed_app();
    app.filter = AppFilterMode::Finished;
    let view = app.get_view();
    assert_eq!(contents(&view), vec!["finished"]);
}

#[test]
fn filter_all_yields_all_sorted_by_status() {
    let app = mixed_app();
    let view = app.get_view();
    assert_eq!(contents(&view), vec!["unstarted", "started", "finished", "wontfix"]);
    assert_eq!(app.view_positions(), vec![3, 0, 1, 2]);
}

#[test]
fn view_keeps_storage_order_within_a_status() {
    let mut app = App::new();
    app.tasks.push(task("a", "s1", ItemStatus::Started));
    app.tasks.push(task("b", "u1", ItemStatus::UnStarted));
    app.tasks.push(task("c", "s2", ItemStatus::Started));
    app.tasks.push(task("d", "u2", ItemStatus::UnStarted));
    assert_eq!(contents(&app.get_view()), vec!["u1", "u2", "s1", "s2"]);
    app.filter = AppFilterMode::Started;
    assert_eq!(contents(&app.get_view()), vec!["s1", "s2"]);
    app.filter = AppFilterMode::WontFix;
    assert!(app.get_view().is_empty());
}

#[test]
fn starting_clears_finish_time() {
    let mut t = task("a", "x", ItemStatus::UnStarted);
    t.finish_at(Timestamp { seconds: 5 });
    assert_eq!(t.status, ItemStatus::Finished);
    assert_eq!(t.finished_time, Some(Timestamp { seconds: 5 }));
    t.start_at(Timestamp { seconds: 9 });
    assert_eq!(t.status, ItemStatus::Started);
    assert_eq!(t.started_time, Some(Timestamp { seconds: 9 }));
    assert_eq!(t.finished_time, None);
    t.finish();
    assert!(t.finished_time.is_some());
    t.start();
    assert_eq!(t.finished_time, None);
}

#[test]
fn finishing_a_wont_fix_task_is_allowed() {
    let mut t = task("a", "x", ItemStatus::UnStarted);
    t.wont_fix();
    assert_eq!(t.status, ItemStatus::WontFix);
    t.finish_at(Timestamp { seconds: 7 });
    assert_eq!(t.status, ItemStatus::Finished);
    assert!(t.is_valid_for_mode(AppFilterMode::Finished));
    assert!(!t.is_valid_for_mode(AppFilterMode::WontFix));
    assert!(t.is_valid_for_mode(AppFilterMode::All));
}

#[test]
fn insert_then_escape_returns_to_global() {
    let mut app = mixed_app();
    let before = contents(&app.tasks);
    assert!(matches!(app.handle_key(key('i')), AppAction::Continue));
    assert_eq!(app.mode, AppMode::Insert);
    app.handle_key(key('h'));
    assert_eq!(app.insert_bar.text(), "h");
    app.handle_key(code(KeyCode::Esc));
    assert_eq!(app.mode, AppMode::Global);
    assert_eq!(app.insert_bar.text(), "");
    assert_eq!(app.insert_bar.input_cursor_position(), 0);
    assert_eq!(contents(&app.tasks), before);
}

#[test]
fn insert_mode_adds_a_task() {
    let mut app = App::new();
    app.handle_key(key('i'));
    for c in "buy milk".chars() {
        app.handle_key(key(c));
    }
    assert_eq!(app.get_cursor_position(), 8);
    app.handle_key(code(KeyCode::Enter));
    assert_eq!(app.mode, AppMode::Global);
    assert_eq!(app.tasks.len(), 1);
    assert_eq!(app.tasks[0].content.as_deref(), Some("buy milk"));
    assert_eq!(app.tasks[0].status, ItemStatus::UnStarted);
    assert_eq!(app.tasks[0].id.as_ref().map(|s| s.len()), Some(36));
    assert_eq!(app.insert_bar.text(), "");
}

#[test]
fn backspace_on_empty_insert_line_returns_to_global() {
    let mut app = App::new();
    app.handle_key(key('i'));
    app.handle_key(code(KeyCode::Backspace));
    assert_eq!(app.mode, AppMode::Global);
    assert!(app.tasks.is_empty());
}

#[test]
fn command_mode_records_prefix_and_renames() {
    let mut app = mixed_app();
    app.handle_key(key(':'));
    assert_eq!(app.mode, AppMode::Command);
    assert_eq!(app.command_bar.text(), ":");
    for c in "tmod 0 write tests".chars() {
        app.handle_key(key(c));
    }
    assert!(matches!(app.handle_key(code(KeyCode::Enter)), AppAction::Continue));
    assert_eq!(app.mode, AppMode::Global);
    assert_eq!(app.command_bar.text(), "");
    assert_eq!(app.tasks[3].content.as_deref(), Some("write tests"));
}

#[test]
fn command_delete_uses_view_index_and_fills_register() {
    let mut app = mixed_app();
    let action = app.run_command(VimCommand::TaskDelete(1));
    assert!(matches!(action, AppAction::Continue));
    assert_eq!(contents(&app.tasks), vec!["finished", "wontfix", "unstarted"]);
    assert_eq!(app.register.as_ref().and_then(|t| t.content.clone()), Some("started".to_string()));
    app.run_command(VimCommand::TaskDelete(10));
    assert_eq!(app.tasks.len(), 3);
    app.handle_key(key('p'));
    assert_eq!(app.tasks.len(), 4);
    assert_eq!(app.tasks[3].content.as_deref(), Some("started"));
    assert_ne!(app.tasks[3].id.as_deref(), Some("a"));
}

#[test]
fn commands_ask_for_outside_work() {
    let mut app = App::new();
    let quit = app.run_command(VimCommand::Quit);
    assert!(matches!(quit, AppAction::Quit));
    let open = app.run_command(VimCommand::ProjectOpen("work".to_string()));
    assert!(matches!(open, AppAction::OpenProject(ref n) if n == "work"));
    let show = app.run_command(VimCommand::ShowFinished(true));
    assert!(matches!(show, AppAction::SaveSettings));
    assert_eq!(app.client_config.show_finished, Some(true));
    assert_eq!(app.mode, AppMode::Global);
}

#[test]
fn global_keys_act_on_selected_view_task() {
    let mut app = mixed_app();
    app.selected_index = 0;
    app.handle_key(key('s'));
    assert_eq!(app.tasks[3].status, ItemStatus::Started);
    app.selected_index = 1;
    app.handle_key(key('w'));
    assert_eq!(app.tasks[3].status, ItemStatus::WontFix);
    app.selected_index = 2;
    app.handle_key(key('f'));
    assert_eq!(app.tasks[2].status, ItemStatus::Finished);
    app.selected_index = 99;
    app.handle_key(key('d'));
    assert_eq!(app.tasks.len(), 4);
    assert!(matches!(app.handle_key(key('r')), AppAction::Resync));
}

#[test]
fn selection_wraps_around() {
    let mut app = mixed_app();
    app.handle_key(code(KeyCode::Up));
    assert_eq!(app.selected_index, 3);
    app.handle_key(key('j'));
    assert_eq!(app.selected_index, 0);
    app.handle_key(key('j'));
    assert_eq!(app.selected_index, 1);
    app.handle_key(key('c'));
    assert_eq!(app.selected_index, 0);
}

#[test]
fn ctrl_d_quits_from_any_mode() {
    let mut app = App::new();
    app.handle_key(key('i'));
    let r = app.handle_key(KeyEvent::new(KeyCode::Char('d'), KeyModifiers::control()));
    assert!(matches!(r, AppAction::Quit));
}

#[test]
fn selection_handlers_wrap() {
    let data = [1, 2, 3];
    assert_eq!(on_down_press_handler(&data, Some(2)), 0);
    assert_eq!(on_down_press_handler(&data, Some(0)), 1);
    assert_eq!(on_down_press_handler(&data, None), 0);
    assert_eq!(on_up_press_handler(&data, Some(0)), 2);
    assert_eq!(on_up_press_handler(&data, Some(2)), 1);
    let empty: [u8; 0] = [];
    assert_eq!(on_up_press_handler(&empty, Some(4)), 0);
}

#[test]
fn fresh_identifiers_for_every_task() {
    let mut app = mixed_app();
    app.fix_all_work_tems();
    assert!(app.tasks.iter().all(|t| t.id.as_ref().map(|s| s.len()) == Some(36)));
    assert_eq!(contents(&app.tasks), vec!["started", "finished", "wontfix", "unstarted"]);
}

#[test]
fn task_operations_by_identifier() {
    let mut app = mixed_app();
    app.start_task("d");
    assert_eq!(app.tasks[3].status, ItemStatus::Started);
    app.finish_task("a");
    assert_eq!(app.tasks[0].status, ItemStatus::Finished);
    app.wont_task("b");
    assert_eq!(app.tasks[1].status, ItemStatus::WontFix);
    app.update_work_item_text("c", "renamed");
    assert_eq!(app.tasks[2].content.as_deref(), Some("renamed"));
    app.remove_task("zz");
    assert_eq!(app.tasks.len(), 4);
    app.remove_task("a");
    assert_eq!(app.tasks.len(), 3);
    assert_eq!(app.find_task("d"), Some(2));
    assert_eq!(app.find_task("a"), None);
}

#[test]
fn save_is_a_snapshot_of_the_tasks() {
    let mut app = mixed_app();
    app.client_config.client_id = "abcde".to_string();
    app.current_project = Some("work".to_string());
    app.current_file_list = Some(store());
    let first = app.save_project(false).expect("a save");
    assert_eq!(first.url, "https://x/mine");
    assert_eq!(first.project, "work");
    assert!(!first.wait);
    app.start_task("d");
    assert_eq!(first.tasks[3].status, ItemStatus::UnStarted);
    let second = app.save_project(true).expect("a save");
    assert_eq!(second.tasks[3].status, ItemStatus::Started);
    assert!(second.wait);
}

#[test]
fn no_save_without_project_or_document() {
    let mut app = mixed_app();
    assert!(app.save_project(false).is_none());
    app.current_project = Some("work".to_string());
    app.current_file_list = Some(store());
    app.client_config.client_id = "abc".to_string();
    assert!(app.save_project(false).is_none());
    app.client_config.client_id = "nomatch".to_string();
    assert!(app.save_project(false).is_none());
}

#[test]
fn projects_are_listed_and_selected() {
    let mut app = App::new();
    app.client_config.client_id = "abcde".to_string();
    app.client_config.current_project = Some("home".to_string());
    app.init(Some(store()));
    assert_eq!(app.current_project.as_deref(), Some("home"));
    assert_eq!(app.get_projects(), vec!["work".to_string(), "home".to_string()]);
    assert!(!app.select_project("nothing"));
    assert_eq!(app.current_project.as_deref(), Some("home"));
    assert!(app.select_project("work"));
    assert_eq!(app.current_project.as_deref(), Some("work"));
    assert_eq!(app.client_config.current_project.as_deref(), Some("work"));
    assert_eq!(app.sync_url(), None);
    app.client_config.client_id = "abcde123".to_string();
    assert_eq!(app.sync_url().as_deref(), Some("https://raw/work"));
}

#[test]
fn sync_replaces_or_keeps_tasks() {
    let mut app = mixed_app();
    app.sync(None);
    assert_eq!(app.tasks.len(), 4);
    app.sync(Some(vec![task("q", "loaded", ItemStatus::Started)]));
    assert_eq!(contents(&app.tasks), vec!["loaded"]);
    app.refresh_projects(None);
    assert!(app.current_file_list.is_none());
}

#[test]
fn new_project_clears_tasks() {
    let mut app = mixed_app();
    app.client_config.client_id = "abcde".to_string();
    app.current_file_list = Some(store());
    let save = app.new_project("fresh").expect("a save");
    assert!(app.tasks.is_empty());
    assert_eq!(save.project, "fresh");
    assert!(save.tasks.is_empty());
    assert_eq!(app.client_config.current_project.as_deref(), Some("fresh"));
}

#[test]
fn gist_searches() {
    let list = store();
    assert_eq!(list.search_url_gist("abc"), Err(GistError::InvalidId));
    assert_eq!(list.search_url_gist("abcde"), Ok("https://x/mine".to_string()));
    assert_eq!(list.search_url_gist("qqqqq"), Err(GistError::NotFound));
    assert_eq!(list.search_gist("zzzzz").map(|g| g.url), Ok("https://x/other".to_string()));
    assert_eq!(list.get_url_gist_file("abcde123", "home"), Ok("https://raw/home".to_string()));
    assert_eq!(list.get_url_gist_file("abcde", "home"), Err(GistError::NotFound));
    assert_eq!(list.get_url_gist_file("abcde123", "nope"), Err(GistError::NotFound));
}

#[test]
fn gist_update_names_one_file() {
    let u = GistUpdate::new("[]".to_string(), "d".to_string(), "old".to_string(), Some("new".to_string()));
    assert_eq!(u.description.as_deref(), Some("d"));
    assert_eq!(u.files.len(), 1);
    assert_eq!(u.files[0].0, "old");
    assert_eq!(u.files[0].1.content, "[]");
    assert_eq!(u.files[0].1.filename.as_deref(), Some("new"));
}

#[test]
fn config_starts_empty() {
    let c = ClientConfig::new();
    assert!(c.client_id.is_empty());
    assert!(c.current_project.is_none());
    assert!(c.show_today.is_none());
}

#[test]
fn mode_and_filter_names() {
    assert_eq!(AppMode::Insert.name(), "Insert");
    assert_eq!(AppMode::Global.name(), "Global");
    assert_eq!(AppFilterMode::WontFix.name(), "WontFix");
}
