use tordln::control::{detail_request, AddFlow, DetailRequest, DialogStep};
use tordln::config::Settings;
use tordln::control::{
    accept_pickup, current_list_len, current_selected, handle_app_key, handle_click, pending_from_arg,
    pending_from_link, refresh_lists, sort_texts, torrent_file_names, AppAction, Pending,
};
use tordln::engine::{FileInfo, TorrentDetails, TorrentInfo};
use tordln::input::Key;
use tordln::pickup::Pickup;
use tordln::ui::{App, Focus, SidebarMode};

fn t(id: usize, state: &str) -> TorrentInfo {
    TorrentInfo { id, name: format!("t{id}"), progress_bytes: 0, total_bytes: 10, state: state.to_string() }
}

fn app() -> App {
    App::new(Settings::defaults("/h"))
}

fn app_with_lists() -> App {
    let mut a = app();
    a.torrents = vec![t(10, "Live"), t(11, "Live"), t(12, "Live")];
    a.finished = vec![t(20, "Live")];
    a
}

fn key(a: &mut App, k: Key) -> AppAction {
    handle_app_key(a, k, "/h")
}

fn pending_text(p: &Pending) -> (&'static str, String) {
    match p {
        Pending::Url(u) => ("url", u.clone()),
        Pending::File(f) => ("file", f.clone()),
    }
}

#[test]
fn new_app_state() {
    let a = app();
    assert_eq!(a.sidebar_mode, SidebarMode::Home);
    assert_eq!(a.focus, Focus::Right);
    assert_eq!(a.status, "ready");
    assert_eq!(a.selected, 0);
    assert!(a.details.is_none());
    assert_eq!(a.settings_editing, None);
}

#[test]
fn q_quits_and_digits_switch_modes() {
    let mut a = app_with_lists();
    assert!(matches!(key(&mut a, Key::Char('q')), AppAction::Quit));
    key(&mut a, Key::Char('2'));
    assert_eq!(a.sidebar_mode, SidebarMode::Active);
    a.selected = 2;
    key(&mut a, Key::Char('3'));
    assert_eq!((a.sidebar_mode, a.selected), (SidebarMode::Finished, 0));
    a.selected = 5;
    key(&mut a, Key::Char('4'));
    assert_eq!((a.sidebar_mode, a.selected), (SidebarMode::Settings, 5));
    key(&mut a, Key::Char('1'));
    assert_eq!((a.sidebar_mode, a.selected), (SidebarMode::Home, 0));
}

#[test]
fn tab_swaps_focus() {
    let mut a = app();
    key(&mut a, Key::Tab);
    assert_eq!(a.focus, Focus::Sidebar);
    key(&mut a, Key::Tab);
    assert_eq!(a.focus, Focus::Right);
}

#[test]
fn sidebar_arrows_cycle_modes() {
    let mut a = app();
    a.focus = Focus::Sidebar;
    key(&mut a, Key::Up);
    assert_eq!(a.sidebar_mode, SidebarMode::Settings);
    key(&mut a, Key::Down);
    assert_eq!(a.sidebar_mode, SidebarMode::Home);
    key(&mut a, Key::Down);
    key(&mut a, Key::Down);
    assert_eq!(a.sidebar_mode, SidebarMode::Finished);
}

#[test]
fn list_arrows_stay_in_list() {
    let mut a = app_with_lists();
    key(&mut a, Key::Char('2'));
    key(&mut a, Key::Up);
    assert_eq!(a.selected, 0);
    key(&mut a, Key::Down);
    key(&mut a, Key::Down);
    key(&mut a, Key::Down);
    assert_eq!(a.selected, 2);
    assert_eq!(current_list_len(&a), 3);
    assert_eq!(current_selected(&a).map(|t| t.id), Some(12));
    key(&mut a, Key::Char('3'));
    key(&mut a, Key::Down);
    assert_eq!(a.selected, 0);
    assert_eq!(current_selected(&a).map(|t| t.id), Some(20));
}

#[test]
fn row_actions_name_the_selected_torrent() {
    let mut a = app_with_lists();
    key(&mut a, Key::Char('2'));
    key(&mut a, Key::Down);
    assert!(matches!(key(&mut a, Key::Char('r')), AppAction::Delete { id: 11, delete_files: false }));
    assert!(matches!(key(&mut a, Key::Char('d')), AppAction::Delete { id: 11, delete_files: true }));
    assert!(matches!(key(&mut a, Key::Char('t')), AppAction::Nothing));
    a.detail_file_focus = 3;
    assert!(matches!(
        key(&mut a, Key::Char(' ')),
        AppAction::SelectFile { id: 11, file_index: 3, selected: true }
    ));
    key(&mut a, Key::Char('3'));
    assert!(matches!(key(&mut a, Key::Char('d')), AppAction::Delete { id: 20, delete_files: true }));
    assert!(matches!(key(&mut a, Key::Char('t')), AppAction::Delete { id: 20, delete_files: false }));
    assert!(matches!(key(&mut a, Key::Char('r')), AppAction::Nothing));
    a.selected = 4;
    assert!(matches!(key(&mut a, Key::Char('d')), AppAction::Nothing));
}

#[test]
fn space_toggles_the_detail_file() {
    let mut a = app_with_lists();
    key(&mut a, Key::Char('2'));
    a.details = Some(TorrentDetails {
        id: 10,
        name: "t10".into(),
        progress_bytes: 0,
        total_bytes: 1,
        state: "Live".into(),
        seeders: 0,
        leechers: 0,
        files: vec![
            FileInfo { name: "a".into(), size: 1, selected: true, downloaded: 0 },
            FileInfo { name: "b".into(), size: 1, selected: false, downloaded: 0 },
        ],
        piece_map: vec![],
    });
    assert!(matches!(
        key(&mut a, Key::Char(' ')),
        AppAction::SelectFile { id: 10, file_index: 0, selected: false }
    ));
    a.detail_file_focus = 1;
    assert!(matches!(
        key(&mut a, Key::Char(' ')),
        AppAction::SelectFile { id: 10, file_index: 1, selected: true }
    ));
    a.detail_file_focus = 7;
    assert!(matches!(
        key(&mut a, Key::Char(' ')),
        AppAction::SelectFile { id: 10, file_index: 7, selected: true }
    ));
}

#[test]
fn home_keys() {
    let mut a = app();
    assert!(matches!(key(&mut a, Key::Char('p')), AppAction::ReadClipboard));
    assert!(matches!(key(&mut a, Key::Char('N')), AppAction::ReadClipboard));
    assert!(matches!(key(&mut a, Key::Enter), AppAction::Nothing));
    a.home_found_files = vec!["a.torrent".to_string(), "b.torrent".to_string()];
    key(&mut a, Key::Down);
    key(&mut a, Key::Down);
    assert_eq!(a.home_file_focus, 1);
    match key(&mut a, Key::Enter) {
        AppAction::Open(p) => assert_eq!(pending_text(&p), ("file", "/h/Downloads/tordln/b.torrent".to_string())),
        _ => panic!("expected the found file to open"),
    }
    key(&mut a, Key::Up);
    key(&mut a, Key::Up);
    assert_eq!(a.home_file_focus, 0);
}

#[test]
fn settings_rows_and_toggles() {
    let mut a = app();
    key(&mut a, Key::Char('4'));
    key(&mut a, Key::Down);
    assert_eq!(a.settings_focus, 1);
    assert!(matches!(key(&mut a, Key::Char(' ')), AppAction::SaveSettings));
    assert_eq!(a.settings.watch_folder.as_deref(), Some("/h/Downloads/tordln-watch"));
    key(&mut a, Key::Char(' '));
    assert_eq!(a.settings.watch_folder, None);
    key(&mut a, Key::Down);
    assert!(matches!(key(&mut a, Key::Char(' ')), AppAction::SaveSettings));
    assert!(!a.settings.clipboard_watch);
    key(&mut a, Key::Down);
    key(&mut a, Key::Down);
    assert_eq!(a.settings_focus, 3);
    key(&mut a, Key::Up);
    key(&mut a, Key::Up);
    key(&mut a, Key::Up);
    key(&mut a, Key::Up);
    assert_eq!(a.settings_focus, 0);
    assert!(matches!(key(&mut a, Key::Char(' ')), AppAction::Nothing));
}

#[test]
fn settings_text_editing() {
    let mut a = app();
    key(&mut a, Key::Char('4'));
    key(&mut a, Key::Char('e'));
    assert_eq!(a.settings_editing, Some(0));
    for c in "/q1".chars() {
        assert!(matches!(key(&mut a, Key::Char(c)), AppAction::Nothing));
    }
    assert_eq!(a.settings.download_dir, "/h/Downloads/tordln/q1");
    key(&mut a, Key::Backspace);
    assert_eq!(a.settings.download_dir, "/h/Downloads/tordln/q");
    assert!(matches!(key(&mut a, Key::Enter), AppAction::SaveSettings));
    assert_eq!(a.settings_editing, None);
    // speed limit row
    a.settings_focus = 3;
    key(&mut a, Key::Char('e'));
    key(&mut a, Key::Char('1'));
    key(&mut a, Key::Char('0'));
    assert_eq!(a.settings.global_speed_limit, Some(10));
    key(&mut a, Key::Char('7'));
    assert_eq!(a.settings.global_speed_limit, Some(10));
    key(&mut a, Key::Backspace);
    assert_eq!(a.settings.global_speed_limit, Some(1));
    key(&mut a, Key::Backspace);
    assert_eq!(a.settings.global_speed_limit, None);
    key(&mut a, Key::Esc);
    assert_eq!(a.settings_editing, None);
    // the clipboard row is not editable
    a.settings_focus = 2;
    key(&mut a, Key::Char('e'));
    assert_eq!(a.settings_editing, None);
    // the watch folder row edits only while it is on
    a.settings_focus = 1;
    key(&mut a, Key::Char('e'));
    key(&mut a, Key::Char('x'));
    assert_eq!(a.settings.watch_folder, None);
}

#[test]
fn mouse_clicks() {
    let mut a = app_with_lists();
    handle_click(&mut a, 3, 2);
    assert_eq!((a.focus, a.sidebar_mode), (Focus::Sidebar, SidebarMode::Active));
    handle_click(&mut a, 3, 8);
    assert_eq!(a.sidebar_mode, SidebarMode::Finished);
    handle_click(&mut a, 3, 30);
    assert_eq!(a.sidebar_mode, SidebarMode::Settings);
    handle_click(&mut a, 3, 0);
    handle_click(&mut a, 40, 6);
    assert_eq!((a.focus, a.selected), (Focus::Right, 2));
    handle_click(&mut a, 40, 9);
    assert_eq!(a.selected, 2);
    handle_click(&mut a, 40, 1);
    assert_eq!(a.selected, 0);
}

#[test]
fn pickups_follow_the_switches() {
    let mut s = Settings::defaults("/h");
    let got = accept_pickup(&s, &Pickup::Url("  magnet:?a ".into())).map(|p| pending_text(&p));
    assert_eq!(got, Some(("url", "magnet:?a".to_string())));
    assert!(accept_pickup(&s, &Pickup::Url("nope".into())).is_none());
    s.clipboard_watch = false;
    assert!(accept_pickup(&s, &Pickup::Url("magnet:?a".into())).is_none());
    assert!(accept_pickup(&s, &Pickup::File("/w/a.torrent".into())).is_none());
    s.watch_folder = Some("/w".into());
    let got = accept_pickup(&s, &Pickup::File("/w/a.torrent".into())).map(|p| pending_text(&p));
    assert_eq!(got, Some(("file", "/w/a.torrent".to_string())));
    assert!(accept_pickup(&s, &Pickup::File("/wx/a.torrent".into())).is_none());
    assert!(accept_pickup(&s, &Pickup::Status("x".into())).is_none());
}

#[test]
fn clipboard_and_argument_sources() {
    let got = pending_from_link(Some("\nhttps://x/y.torrent\n".into())).map(|p| pending_text(&p));
    assert_eq!(got, Some(("url", "https://x/y.torrent".to_string())));
    assert!(pending_from_link(Some("hello".into())).is_none());
    assert!(pending_from_link(None).is_none());
    let got = pending_from_arg(Some("/d/a.torrent".into())).map(|p| pending_text(&p));
    assert_eq!(got, Some(("file", "/d/a.torrent".to_string())));
    assert!(pending_from_arg(Some("/d/a.txt".into())).is_none());
    assert!(pending_from_arg(None).is_none());
}

#[test]
fn refresh_splits_lists() {
    let mut a = app();
    let all = vec![t(1, "Live"), t(2, "Finished"), t(3, "Live"), t(4, "Finished"), t(5, "Paused")];
    refresh_lists(&mut a, all, &vec![false, false, true, true, false]);
    let ids: Vec<usize> = a.torrents.iter().map(|t| t.id).collect();
    assert_eq!(ids, vec![1, 5]);
    let ids: Vec<usize> = a.finished.iter().map(|t| t.id).collect();
    assert_eq!(ids, vec![3, 4]);
}

#[test]
fn found_torrent_names_sorted() {
    let names = vec![
        "b.torrent".to_string(),
        "notes.txt".to_string(),
        "A.torrent".to_string(),
        "c.TORRENT".to_string(),
        "a.torrent".to_string(),
        ".torrent".to_string(),
    ];
    assert_eq!(torrent_file_names(names), vec!["A.torrent", "a.torrent", "b.torrent"]);
    assert_eq!(sort_texts(vec!["é".into(), "z".into(), "za".into(), "".into()]), vec!["", "z", "za", "é"]);
}

#[test]
fn detail_pane_requests() {
    let mut a = app_with_lists();
    assert_eq!(detail_request(&a), DetailRequest::Clear);
    a.sidebar_mode = SidebarMode::Active;
    a.selected = 1;
    assert_eq!(detail_request(&a), DetailRequest::Fetch(11));
    a.selected = 9;
    assert_eq!(detail_request(&a), DetailRequest::Clear);
    a.sidebar_mode = SidebarMode::Settings;
    assert_eq!(detail_request(&a), DetailRequest::Keep);
}

#[test]
fn add_flow_opens_confirms_and_cancels() {
    let mut flow = AddFlow::new(None);
    flow.open_waiting("/dl");
    assert!(flow.dialog.is_none());
    assert!(flow.screen_has_input());
    assert!(matches!(flow.dialog_key(Key::Char('x')), DialogStep::ToScreen));

    flow.pending = Some(Pending::Url("magnet:?a".into()));
    flow.open_waiting("/dl");
    assert!(flow.pending.is_none());
    assert!(!flow.screen_has_input());
    let (m, src) = flow.dialog.as_ref().unwrap();
    assert_eq!(m.path, "/dl");
    assert!(m.files.is_empty());
    assert_eq!(pending_text(src), ("url", "magnet:?a".to_string()));

    // a second source waits while the dialog is open
    flow.pending = Some(Pending::File("/x.torrent".into()));
    flow.open_waiting("/dl");
    assert!(flow.pending.is_some());

    // Enter on the path field does nothing; Tab to Confirm then Enter starts
    assert!(matches!(flow.dialog_key(Key::Enter), DialogStep::Handled));
    for _ in 0..4 {
        assert!(matches!(flow.dialog_key(Key::Tab), DialogStep::Handled));
    }
    match flow.dialog_key(Key::Enter) {
        DialogStep::Start(p) => assert_eq!(pending_text(&p), ("url", "magnet:?a".to_string())),
        _ => panic!("expected the dialog's source to start"),
    }
    assert!(flow.dialog.is_none());

    // the waiting file opens next, and Esc closes it without starting anything
    flow.open_waiting("/dl");
    assert!(matches!(flow.dialog_key(Key::Esc), DialogStep::Handled));
    assert!(flow.dialog.is_none());
    assert!(flow.pending.is_none());
}

#[test]
fn add_flow_takes_pickups_only_without_dialog() {
    let s = Settings::defaults("/h");
    let mut flow = AddFlow::new(None);
    assert!(!flow.offer_pickup(&s, &Pickup::Url("hello".into())));
    assert!(flow.pending.is_none());
    assert!(flow.offer_pickup(&s, &Pickup::Url(" magnet:?b ".into())));
    assert_eq!(flow.pending.as_ref().map(pending_text), Some(("url", "magnet:?b".to_string())));
    flow.open_waiting("/dl");
    assert!(!flow.offer_pickup(&s, &Pickup::Url("magnet:?c".into())));
    assert!(flow.pending.is_none());
}
