use tordln::config::Settings;
use tordln::engine::{FileInfo, TorrentDetails, TorrentInfo};
use tordln::ui::{App, Focus, SidebarMode};
use tordln::view::{detail_file_lines, detail_header, legend, piece_rows, settings_rows, Panes};

fn t(id: usize, name: &str) -> TorrentInfo {
    TorrentInfo { id, name: name.to_string(), progress_bytes: 1, total_bytes: 2, state: "Live".into() }
}

#[test]
fn settings_screen_rows() {
    let mut s = Settings::defaults("/h");
    let rows = settings_rows(&s);
    let flat: Vec<(String, String)> = rows;
    assert_eq!(flat[0], ("download_dir".to_string(), "/h/Downloads/tordln".to_string()));
    assert_eq!(flat[1], ("watch_folder".to_string(), "off".to_string()));
    assert_eq!(flat[2], ("clipboard_watch".to_string(), "on".to_string()));
    assert_eq!(flat[3], ("speed_limit".to_string(), "off".to_string()));
    s.watch_folder = Some("/w".into());
    s.clipboard_watch = false;
    s.global_speed_limit = Some(10);
    let rows = settings_rows(&s);
    assert_eq!(rows[1].1, "on (/w)");
    assert_eq!(rows[2].1, "off");
    assert_eq!(rows[3].1, "10 MB/s");
}

#[test]
fn panes_by_mode() {
    let mut a = App::new(Settings::defaults("/h"));
    assert_eq!(a.panes(), Panes { home: true, top: false, detail: false, sidebar: false, found_popup: false });
    a.home_found_files = vec!["x.torrent".into()];
    assert!(a.panes().found_popup);
    a.sidebar_mode = SidebarMode::Settings;
    assert_eq!(a.panes(), Panes { home: false, top: true, detail: false, sidebar: true, found_popup: false });
    a.sidebar_mode = SidebarMode::Finished;
    assert_eq!(a.panes(), Panes { home: false, top: true, detail: true, sidebar: true, found_popup: false });
}

#[test]
fn queue_rows() {
    let mut a = App::new(Settings::defaults("/h"));
    a.sidebar_mode = SidebarMode::Active;
    a.torrents = (0..12).map(|i| t(i, "a rather long torrent name indeed")).collect();
    a.selected = 11;
    assert_eq!(a.list_title(), " queue ");
    let r = a.queue_row(0);
    assert_eq!(r.number, " 1 ");
    assert_eq!(r.name, "a rather long torrent n…");
    assert!(!r.selected);
    assert_eq!((r.state_label, r.hint), ("live", "[Remove|Del]"));
    let r = a.queue_row(11);
    assert_eq!(r.number, "12 ");
    assert!(r.selected);
    a.sidebar_mode = SidebarMode::Finished;
    a.finished = vec![t(1, "short")];
    let r = a.queue_row(0);
    assert_eq!(r.name, "short");
    assert_eq!((r.state_label, r.hint), ("done", "[Remove|Del|.torrent]"));
    assert_eq!(a.list_title(), " finished ");
}

#[test]
fn sidebar_and_popup() {
    let mut a = App::new(Settings::defaults("/h"));
    a.sidebar_mode = SidebarMode::Finished;
    let items = a.sidebar_items();
    let texts: Vec<(String, bool)> = items;
    assert_eq!(texts[0], ("  Home".to_string(), false));
    assert_eq!(texts[2], ("> Finished".to_string(), true));
    assert_eq!(a.sidebar_index(), 2);
    a.home_found_files = vec!["a.torrent".into(), "b.torrent".into()];
    a.home_file_focus = 1;
    let rows = a.found_rows();
    assert_eq!(rows[0], ("  ", "a.torrent".to_string(), false));
    assert_eq!(rows[1], ("> ", "b.torrent".to_string(), true));
    a.focus = Focus::Right;
    a.settings_focus = 2;
    assert!(a.settings_row_focused(2));
    assert!(!a.settings_row_focused(1));
    a.focus = Focus::Sidebar;
    assert!(!a.settings_row_focused(2));
}

#[test]
fn detail_pane_texts() {
    let mut a = App::new(Settings::defaults("/h"));
    a.focus = Focus::Right;
    a.detail_file_focus = 1;
    let d = TorrentDetails {
        id: 3,
        name: "n".repeat(45),
        progress_bytes: 5,
        total_bytes: 10,
        state: "Live".into(),
        seeders: 12,
        leechers: 0,
        files: vec![
            FileInfo { name: "one".into(), size: 1, selected: true, downloaded: 0 },
            FileInfo { name: "two".into(), size: 2, selected: false, downloaded: 2 },
        ],
        piece_map: vec![true; 85],
    };
    let lines = detail_file_lines(&a, &d);
    assert_eq!(lines[0], ("[x] ", "one".to_string(), false));
    assert_eq!(lines[1], ("[ ] ", "two".to_string(), true));
    let (name, seeders, leechers) = detail_header(&d);
    assert_eq!(name.chars().count(), 40);
    assert!(name.ends_with('…'));
    assert_eq!((seeders.as_str(), leechers.as_str()), ("12", "0"));
    let rows = piece_rows(&d.piece_map, 40);
    let lens: Vec<usize> = rows.iter().map(|r| r.len()).collect();
    assert_eq!(lens, vec![40, 40, 5]);
    assert!(piece_rows(&vec![], 40).is_empty());
}

#[test]
fn legends() {
    assert_eq!(
        legend(SidebarMode::Home),
        "1 Home  2 Active  3 Finished  4 Settings  ↑/↓ nav  Tab focus  q quit | p paste  n new  enter start"
    );
    assert!(legend(SidebarMode::Finished).ends_with("| d delete  t remove .torrent"));
}
