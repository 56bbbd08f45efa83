use tordln::pickup::{FsChange, is_torrent_extension, is_torrent_file, is_torrent_source, report_add, torrent_pickups, ClipboardWatch, Pickup};

fn text(p: &Pickup) -> (&'static str, String) {
    match p {
        Pickup::Url(u) => ("url", u.clone()),
        Pickup::File(f) => ("file", f.clone()),
        Pickup::Status(s) => ("status", s.clone()),
    }
}

#[test]
fn magnet_links_are_sources() {
    assert!(is_torrent_source("magnet:?xt=urn:btih:abc"));
    assert!(is_torrent_source("  \tmagnet:?xt=urn:btih:abc\n"));
    assert!(!is_torrent_source("magnet:xt"));
    assert!(!is_torrent_source("xmagnet:?"));
}

#[test]
fn http_torrent_links_are_sources() {
    assert!(is_torrent_source("http://example.org/a.torrent"));
    assert!(is_torrent_source("https://example.org/a.torrent  "));
    assert!(!is_torrent_source("https://example.org/a.torrent.html"));
    assert!(!is_torrent_source("ftp://example.org/a.torrent"));
    assert!(!is_torrent_source("https://example.org/a.TORRENT"));
    assert!(!is_torrent_source(""));
    assert!(!is_torrent_source("\u{3000}"));
}

#[test]
fn torrent_files_by_extension() {
    assert!(is_torrent_file("/tmp/x.torrent"));
    assert!(is_torrent_file("a.TORRENT"));
    assert!(is_torrent_file("dir/b.ToRrEnT"));
    assert!(!is_torrent_file("/tmp/x.torrent.part"));
    assert!(!is_torrent_file("/tmp/.torrent"));
    assert!(!is_torrent_file("/tmp/torrent"));
    assert!(!is_torrent_file(""));
    assert!(is_torrent_extension(Some("Torrent")));
    assert!(!is_torrent_extension(Some("torrents")));
    assert!(!is_torrent_extension(None));
}

#[test]
fn clipboard_reports_changed_sources_once() {
    let mut w = ClipboardWatch::new();
    assert!(w.observe(String::new()).is_none());
    let p = w.observe(" magnet:?xt=1 ".to_string()).expect("a source");
    assert_eq!(text(&p), ("url", "magnet:?xt=1".to_string()));
    assert!(w.observe(" magnet:?xt=1 ".to_string()).is_none());
    assert!(w.observe("hello".to_string()).is_none());
    assert_eq!(w.last, "hello");
    assert!(w.observe(" magnet:?xt=1 ".to_string()).is_some());
}

#[test]
fn folder_events_keep_torrent_paths() {
    let out = torrent_pickups(FsChange::Created, vec![
        "/w/a.torrent".to_string(),
        "/w/b.txt".to_string(),
        "/w/c.TORRENT".to_string(),
    ]);
    let got: Vec<_> = out.iter().map(text).collect();
    assert_eq!(got, vec![("file", "/w/a.torrent".to_string()), ("file", "/w/c.TORRENT".to_string())]);
    assert!(torrent_pickups(FsChange::Created, vec![]).is_empty());
    assert!(torrent_pickups(FsChange::Other, vec!["/w/a.torrent".to_string()]).is_empty());
}

#[test]
fn add_reports() {
    let r = report_add(Pickup::Url("magnet:?x".into()), Ok(()));
    assert_eq!(text(&r), ("status", "added url: magnet:?x".to_string()));
    let r = report_add(Pickup::Url("magnet:?x".into()), Err("bad".into()));
    assert_eq!(text(&r), ("status", "url error: bad".to_string()));
    let r = report_add(Pickup::File("/a.torrent".into()), Ok(()));
    assert_eq!(text(&r), ("status", "added file: /a.torrent".to_string()));
    let r = report_add(Pickup::File("/a.torrent".into()), Err("gone".into()));
    assert_eq!(text(&r), ("status", "file error: gone".to_string()));
    let r = report_add(Pickup::Status("hi".into()), Ok(()));
    assert_eq!(text(&r), ("status", "hi".to_string()));
}
