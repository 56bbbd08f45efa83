use tordln::engine::{display_name, file_infos, selection_after};

#[test]
fn names_fall_back_to_id() {
    assert_eq!(display_name(7, Some("ubuntu.iso".into())), "ubuntu.iso");
    assert_eq!(display_name(7, Some(String::new())), "torrent#7");
    assert_eq!(display_name(42, None), "torrent#42");
    assert_eq!(display_name(0, None), "torrent#0");
}

#[test]
fn file_list_from_engine_values() {
    let files = file_infos(
        vec!["a".into(), "b".into(), "c".into()],
        &vec![10, 0, 5],
        &Some(vec![2, 0]),
        &vec![4, 3],
    );
    let got: Vec<(String, u64, bool, u64)> =
        files.into_iter().map(|f| (f.name, f.size, f.selected, f.downloaded)).collect();
    assert_eq!(
        got,
        vec![("a".to_string(), 10, true, 4), ("b".to_string(), 0, false, 0), ("c".to_string(), 5, true, 0)]
    );
    let all = file_infos(vec!["x".into()], &vec![3], &None, &vec![9]);
    assert!(all[0].selected);
    assert_eq!(all[0].downloaded, 3);
}

#[test]
fn selection_updates() {
    let mut s = selection_after(&Some(vec![1, 3, 3]), 9, 2, true);
    s.sort();
    assert_eq!(s, vec![1, 2, 3]);
    let mut s = selection_after(&Some(vec![1, 2, 3]), 9, 2, false);
    s.sort();
    assert_eq!(s, vec![1, 3]);
    let mut s = selection_after(&Some(vec![]), 9, 0, true);
    s.sort();
    assert_eq!(s, vec![0]);
    assert!(selection_after(&Some(vec![5]), 9, 5, false).is_empty());
}

#[test]
fn selection_of_all_files_keeps_the_others() {
    let mut s = selection_after(&None, 4, 2, false);
    s.sort();
    assert_eq!(s, vec![0, 1, 3]);
    let mut s = selection_after(&None, 3, 1, true);
    s.sort();
    assert_eq!(s, vec![0, 1, 2]);
    let mut s = selection_after(&None, 0, 7, true);
    s.sort();
    assert_eq!(s, vec![7]);
}

#[test]
fn select_then_deselect_restores_the_rest() {
    let mid = selection_after(&None, 3, 9, true);
    let mut end = selection_after(&Some(mid), 3, 9, false);
    end.sort();
    assert_eq!(end, vec![0, 1, 2]);
}
