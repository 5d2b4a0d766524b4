use iqviewer::item::{Bitmap, FileInfo, FileItem};
use iqviewer::items::{Command, ItemList, Scan};
use iqviewer::watcher::{Created, Modified, WatcherEvent};

fn info(format: &str, center: &str, rate: &str) -> FileInfo {
    FileInfo {
        size: Some(1024),
        sample_format: format.to_string(),
        sample_count: 512,
        center_freq: 433_920_000f64.to_bits(),
        sample_rate: 250_000f64.to_bits(),
        center_label: center.to_string(),
        rate_label: rate.to_string(),
        thumbnail: Bitmap { width: 2, height: 1, pixels: vec![0, 0, 0, 255, 255, 255, 255, 255] },
    }
}

fn item(path: &str) -> FileItem {
    FileItem::new(path.to_string(), info("CU8", "434", "250"))
}

fn list_of(paths: &[&str]) -> ItemList {
    let mut list = ItemList::new();
    for path in paths {
        list.push(Scan::File(item(path)));
    }
    list
}

fn shown(list: &ItemList) -> Vec<String> {
    list.iter().into_iter().map(|it| it.path().to_string()).collect()
}

fn strings(texts: &[&str]) -> Vec<String> {
    texts.iter().map(|t| t.to_string()).collect()
}

#[test]
fn new_list_is_empty_and_has_no_selection() {
    let list = ItemList::new();
    assert_eq!(list.len(), 0);
    assert_eq!(list.unfiltered_len(), 0);
    assert!(list.is_empty());
    assert!(!list.has_selection());
    assert_eq!(list.selection(), 0);
    assert!(list.selected().is_none());
    assert!(list.get(0).is_none());
    assert_eq!(list.filter(), "");
    assert_eq!(list.count_watches(), 0);
}

#[test]
fn default_list_is_the_new_list() {
    let list = ItemList::default();
    assert_eq!(list.unfiltered_len(), 0);
    assert!(!list.has_selection());
}

#[test]
fn filter_shows_exactly_the_matching_items() {
    let mut list = list_of(&["/d/one_a.cu8", "/d/two_b.cu8", "/d/three_a.cu8", "/d/four_c.cu8"]);
    list.set_filter("_a");
    assert_eq!(shown(&list), vec!["/d/one_a.cu8", "/d/three_a.cu8"]);
    for k in 0..list.len() {
        assert!(list.get(k).unwrap().path().contains("_a"));
    }
    list.set_filter("cu8 four");
    assert_eq!(shown(&list), vec!["/d/four_c.cu8"]);
    list.set_filter("nothing-has-this");
    assert_eq!(list.len(), 0);
    assert!(list.is_empty());
}

#[test]
fn filter_words_are_all_required() {
    let mut list = list_of(&["/d/alpha_beta.cu8", "/d/alpha.cu8", "/d/beta.cu8"]);
    list.set_filter("alpha beta");
    assert_eq!(shown(&list), vec!["/d/alpha_beta.cu8"]);
    list.set_filter("beta   alpha");
    assert_eq!(shown(&list), vec!["/d/alpha_beta.cu8"]);
    list.set_filter(" \t alpha \n");
    assert_eq!(shown(&list), vec!["/d/alpha_beta.cu8", "/d/alpha.cu8"]);
}

#[test]
fn filter_ignores_case() {
    let mut list = ItemList::new();
    list.push(Scan::File(FileItem::new("/Data/Signal.CU8".to_string(), info("CU8", "434", "250"))));
    list.set_filter("SIGNAL");
    assert_eq!(list.len(), 1);
    assert_eq!(list.filter(), "signal");
    list.set_filter("data/signal.cu8");
    assert_eq!(list.len(), 1);
}

#[test]
fn filter_text_is_kept_in_lower_case() {
    let mut list = ItemList::new();
    list.set_filter("CF32 Über 1024K");
    assert_eq!(list.filter(), "cf32 Über 1024k");
}

#[test]
fn filter_matches_format_frequency_and_rate() {
    let mut list = ItemList::new();
    list.push(Scan::File(FileItem::new("/d/a.bin".to_string(), info("CF32", "868", "1024"))));
    list.push(Scan::File(FileItem::new("/d/b.bin".to_string(), info("CU8", "434", "250"))));
    list.set_filter("cf32");
    assert_eq!(shown(&list), vec!["/d/a.bin"]);
    list.set_filter("434m");
    assert_eq!(shown(&list), vec!["/d/b.bin"]);
    list.set_filter("1024k");
    assert_eq!(shown(&list), vec!["/d/a.bin"]);
    list.set_filter("a.bin cf32 868m 1024k");
    assert_eq!(shown(&list), vec!["/d/a.bin"]);
    list.set_filter("868m250k");
    assert_eq!(list.len(), 0);
}

#[test]
fn example_filter_cf32() {
    let mut list = ItemList::new();
    list.push(Scan::File(FileItem::new("a_cf32.cf32".to_string(), info("CF32", "100", "1000"))));
    list.push(Scan::File(FileItem::new("b_cu8.cu8".to_string(), info("CU8", "100", "1000"))));
    list.set_filter("cf32");
    assert_eq!(list.len(), 1);
    assert_eq!(list.get(0).unwrap().path(), "a_cf32.cf32");
    assert!(list.get(1).is_none());
    assert_eq!(list.unfiltered_len(), 2);
}

#[test]
fn empty_filter_shows_everything() {
    let mut list = list_of(&["/d/a.cu8", "/d/b.cu8", "/d/c.cu8"]);
    list.set_filter("b");
    assert_eq!(list.len(), 1);
    list.push(Scan::File(item("/d/d.cu8")));
    list.set_filter("");
    assert_eq!(list.len(), list.unfiltered_len());
    assert_eq!(list.len(), 4);
    list.set_filter("  \t ");
    assert_eq!(list.len(), 4);
}

#[test]
fn selection_stays_in_range() {
    let mut list = list_of(&["/d/a.cu8", "/d/b.cu8", "/d/c.cu8"]);
    assert!(list.has_selection());
    list.set_selection(7);
    assert_eq!(list.selection(), 2);
    list.set_selection(usize::MAX);
    assert_eq!(list.selection(), 2);
    list.inc_selection(usize::MAX);
    assert_eq!(list.selection(), 2);
    list.dec_selection(1);
    assert_eq!(list.selection(), 1);
    list.dec_selection(usize::MAX);
    assert_eq!(list.selection(), 0);
    list.inc_selection(1);
    assert_eq!(list.selection(), 1);
    list.set_filter("nothing-has-this");
    assert_eq!(list.len(), 0);
    assert_eq!(list.selection(), 0);
    assert!(!list.has_selection());
    assert!(list.selected().is_none());
    list.inc_selection(3);
    assert_eq!(list.selection(), 0);
    list.set_filter("");
    assert!(list.has_selection());
    assert!(list.selection() < list.len());
}

#[test]
fn selection_follows_to_the_next_shown_item() {
    // A, B, C, D with B selected; a filter that hides B moves on to C.
    let mut list = list_of(&["/d/a_x_y_z.cu8", "/d/b.cu8", "/d/c_x.cu8", "/d/d_x_y.cu8"]);
    list.set_selection(1);
    assert_eq!(list.selected().unwrap().path(), "/d/b.cu8");
    list.set_filter("_x");
    assert_eq!(list.selected().unwrap().path(), "/d/c_x.cu8");
    assert_eq!(list.selection(), 1);
}

#[test]
fn selection_follows_past_hidden_items() {
    // B selected; B and C are hidden, so the selection falls to D.
    let mut list = list_of(&["/d/a_x_y_z.cu8", "/d/b.cu8", "/d/c_x.cu8", "/d/d_x_y.cu8"]);
    list.set_selection(1);
    list.set_filter("_y");
    assert_eq!(list.selected().unwrap().path(), "/d/d_x_y.cu8");
    assert_eq!(list.selection(), 1);
}

#[test]
fn selection_falls_back_to_the_last_shown_item() {
    // B selected; only A is left, so the selection falls to the last shown item.
    let mut list = list_of(&["/d/a_x_y_z.cu8", "/d/b.cu8", "/d/c_x.cu8", "/d/d_x_y.cu8"]);
    list.set_selection(1);
    list.set_filter("_z");
    assert_eq!(list.selected().unwrap().path(), "/d/a_x_y_z.cu8");
    assert_eq!(list.selection(), 0);
}

#[test]
fn selection_stays_on_its_item_when_it_is_still_shown() {
    let mut list = list_of(&["/d/a.cu8", "/d/b_x.cu8", "/d/c.cu8", "/d/d_x.cu8"]);
    list.set_selection(3);
    list.set_filter("_x");
    assert_eq!(list.selected().unwrap().path(), "/d/d_x.cu8");
    assert_eq!(list.selection(), 1);
    list.set_filter("");
    assert_eq!(list.selected().unwrap().path(), "/d/d_x.cu8");
    assert_eq!(list.selection(), 3);
}

#[test]
fn set_filter_twice_is_set_filter_once() {
    let mut once = list_of(&["/d/a.cu8", "/d/b_x.cu8", "/d/c.cu8", "/d/d_x.cu8"]);
    let mut twice = list_of(&["/d/a.cu8", "/d/b_x.cu8", "/d/c.cu8", "/d/d_x.cu8"]);
    once.set_selection(2);
    twice.set_selection(2);
    once.set_filter("_X");
    twice.set_filter("_X");
    twice.set_filter("_X");
    assert_eq!(shown(&once), shown(&twice));
    assert_eq!(once.selection(), twice.selection());
    assert_eq!(once.filter(), twice.filter());
    assert_eq!(twice.selection(), 1);
}

#[test]
fn push_takes_a_path_only_once() {
    let mut list = list_of(&["/d/a.cu8", "/d/b.cu8"]);
    list.selected_toggle_mark();
    list.push(Scan::File(item("/d/a.cu8")));
    assert_eq!(list.unfiltered_len(), 2);
    assert!(list.get(0).unwrap().has_mark());
    list.push(Scan::Folder(
        "/d".to_string(),
        vec![item("/d/b.cu8"), item("/d/c.cu8"), item("/d/c.cu8")],
    ));
    assert_eq!(shown(&list), vec!["/d/a.cu8", "/d/b.cu8", "/d/c.cu8"]);
}

#[test]
fn push_keeps_the_order_of_arrival() {
    let mut list = ItemList::new();
    list.push(Scan::File(item("/z/last.cu8")));
    list.push(Scan::Folder("/a".to_string(), vec![item("/a/1.cu8"), item("/a/2.cu8")]));
    list.push(Scan::File(item("/m/mid.cu8")));
    assert_eq!(shown(&list), vec!["/z/last.cu8", "/a/1.cu8", "/a/2.cu8", "/m/mid.cu8"]);
    assert_eq!(list.selection(), 0);
}

#[test]
fn push_applies_the_filter_to_new_items() {
    let mut list = list_of(&["/d/a.cu8"]);
    list.set_filter("b");
    assert_eq!(list.len(), 0);
    list.push(Scan::File(item("/d/b.cu8")));
    assert_eq!(shown(&list), vec!["/d/b.cu8"]);
    assert_eq!(list.unfiltered_len(), 2);
    assert!(list.has_selection());
}

#[test]
fn extend_pushes_each_scan() {
    let mut list = ItemList::new();
    list.extend(vec![
        Scan::File(item("/d/a.cu8")),
        Scan::Folder("/e".to_string(), vec![item("/e/b.cu8")]),
        Scan::File(item("/d/a.cu8")),
    ]);
    assert_eq!(shown(&list), vec!["/d/a.cu8", "/e/b.cu8"]);
}

#[test]
fn selected_remove_drops_the_selected_item() {
    let mut list = list_of(&["/d/a.cu8", "/d/b.cu8", "/d/c.cu8"]);
    list.set_selection(1);
    list.selected_remove();
    assert_eq!(shown(&list), vec!["/d/a.cu8", "/d/c.cu8"]);
    assert_eq!(list.selected().unwrap().path(), "/d/c.cu8");
    list.selected_remove();
    assert_eq!(list.selected().unwrap().path(), "/d/a.cu8");
    list.selected_remove();
    assert_eq!(list.unfiltered_len(), 0);
    assert!(!list.has_selection());
    list.selected_remove();
    assert_eq!(list.unfiltered_len(), 0);
}

#[test]
fn selected_remove_goes_through_the_filter() {
    let mut list = list_of(&["/d/a.cu8", "/d/b_x.cu8", "/d/c.cu8", "/d/d_x.cu8"]);
    list.set_filter("_x");
    list.set_selection(1);
    list.selected_remove();
    assert_eq!(shown(&list), vec!["/d/b_x.cu8"]);
    assert_eq!(list.unfiltered_len(), 3);
    assert_eq!(list.selection(), 0);
}

#[test]
fn marks_are_independent_flags() {
    let mut list = list_of(&["/d/a.cu8", "/d/b.cu8"]);
    list.set_selection(1);
    list.selected_toggle_mark();
    assert!(list.selected().unwrap().has_mark());
    assert!(!list.selected().unwrap().has_delete());
    list.selected_toggle_delete();
    assert!(list.selected().unwrap().has_mark());
    assert!(list.selected().unwrap().has_delete());
    list.selected_toggle_mark();
    assert!(!list.selected().unwrap().has_mark());
    assert!(list.selected().unwrap().has_delete());
    assert_eq!(list.count_marked(), 0);
    assert_eq!(list.count_to_delete(), 1);
    assert!(!list.get(0).unwrap().has_delete());
}

#[test]
fn toggles_without_selection_do_nothing() {
    let mut list = list_of(&["/d/a.cu8"]);
    list.set_filter("zzz");
    list.selected_toggle_mark();
    list.selected_toggle_delete();
    assert_eq!(list.count_marked(), 0);
    assert_eq!(list.count_to_delete(), 0);
}

#[test]
fn counts_look_at_all_items() {
    let mut list = list_of(&["/d/a.cu8", "/d/b.cu8", "/d/c.cu8"]);
    list.set_selection(0);
    list.selected_toggle_mark();
    list.set_selection(2);
    list.selected_toggle_mark();
    list.selected_toggle_delete();
    list.set_filter("b");
    assert_eq!(list.len(), 1);
    assert_eq!(list.count_marked(), 2);
    assert_eq!(list.count_to_delete(), 1);
}

#[test]
fn delete_marked_with_nothing_marked_changes_nothing() {
    let mut list = ItemList::new();
    list.push(Scan::Folder(
        "/d".to_string(),
        vec![item("/d/a.cu8"), item("/d/b.cu8"), item("/d/c.cu8")],
    ));
    list.set_selection(1);
    assert!(list.marked_deletes().is_empty());
    list.delete_marked(&strings(&["/d/a.cu8", "/d/b.cu8", "/d/c.cu8"]));
    assert_eq!(shown(&list), vec!["/d/a.cu8", "/d/b.cu8", "/d/c.cu8"]);
    assert_eq!(list.selection(), 1);
}

#[test]
fn delete_marked_removes_what_was_deleted() {
    let mut list = list_of(&["/d/a.cu8", "/d/b.cu8", "/d/c.cu8"]);
    list.set_selection(0);
    list.selected_toggle_delete();
    list.set_selection(2);
    list.selected_toggle_delete();
    assert_eq!(list.marked_deletes(), strings(&["/d/a.cu8", "/d/c.cu8"]));
    // the file of c could not be deleted
    list.delete_marked(&strings(&["/d/a.cu8"]));
    assert_eq!(shown(&list), vec!["/d/b.cu8", "/d/c.cu8"]);
    assert!(list.get(1).unwrap().has_delete());
    assert_eq!(list.count_to_delete(), 1);
}

#[test]
fn delete_marked_spares_items_that_are_not_marked() {
    let mut list = list_of(&["/d/a.cu8", "/d/b.cu8"]);
    list.set_selection(0);
    list.selected_toggle_mark();
    list.delete_marked(&strings(&["/d/a.cu8", "/d/b.cu8"]));
    assert_eq!(list.unfiltered_len(), 2);
}

#[test]
fn move_that_fails_keeps_item_and_mark() {
    let mut list = list_of(&["/d/a.cu8", "/d/b.cu8"]);
    list.set_selection(0);
    list.selected_toggle_mark();
    let plan = list.marked_moves("/other-disk");
    assert_eq!(plan.len(), 1);
    // every rename failed: nothing was moved
    list.move_marked_to(&Vec::new());
    assert_eq!(shown(&list), vec!["/d/a.cu8", "/d/b.cu8"]);
    assert!(list.get(0).unwrap().has_mark());
    assert_eq!(list.count_marked(), 1);
}

#[test]
fn move_marked_removes_what_was_moved() {
    let mut list = list_of(&["/d/a.cu8", "/d/b.cu8", "/d/c.cu8"]);
    list.set_selection(0);
    list.selected_toggle_mark();
    list.set_selection(1);
    list.selected_toggle_mark();
    let plan = list.marked_moves("/dst");
    assert_eq!(plan.len(), 2);
    assert_eq!(plan[0].from, "/d/a.cu8");
    assert_eq!(plan[0].to, "/dst/a.cu8");
    assert_eq!(plan[1].from, "/d/b.cu8");
    assert_eq!(plan[1].to, "/dst/b.cu8");
    list.move_marked_to(&strings(&["/d/b.cu8", "/d/c.cu8"]));
    assert_eq!(shown(&list), vec!["/d/a.cu8", "/d/c.cu8"]);
    assert!(list.get(0).unwrap().has_mark());
    assert_eq!(list.selection(), 1);
}

#[test]
fn marked_moves_pass_over_paths_without_a_file_name() {
    let mut list = list_of(&["/", "/d/a.cu8"]);
    list.set_selection(0);
    list.selected_toggle_mark();
    list.set_selection(1);
    list.selected_toggle_mark();
    let plan = list.marked_moves("/dst");
    assert_eq!(plan.len(), 1);
    assert_eq!(plan[0].from, "/d/a.cu8");
}

#[test]
fn remove_drops_the_item_at_a_path() {
    let mut list = list_of(&["/d/a.cu8", "/d/b.cu8", "/d/c.cu8"]);
    list.remove("/d/b.cu8");
    assert_eq!(shown(&list), vec!["/d/a.cu8", "/d/c.cu8"]);
    list.remove("/d/unknown.cu8");
    assert_eq!(list.unfiltered_len(), 2);
    assert!(list.contains_path("/d/a.cu8"));
    assert!(!list.contains_path("/d/b.cu8"));
}

#[test]
fn refresh_takes_over_a_new_look_and_filters_anew() {
    let mut list = list_of(&["/d/a.cu8", "/d/b.cu8"]);
    list.set_selection(1);
    list.selected_toggle_mark();
    list.set_filter("868m");
    assert_eq!(list.len(), 0);
    let mut seen = info("CS16", "868", "2048");
    seen.size = None;
    seen.sample_count = 77;
    list.refresh("/d/b.cu8", seen);
    assert_eq!(shown(&list), vec!["/d/b.cu8"]);
    let b = list.get(0).unwrap();
    assert_eq!(b.size(), None);
    assert_eq!(b.sample_count(), 77);
    assert_eq!(b.sample_format(), "CS16");
    assert!(b.has_mark());
    assert_eq!(b.path(), "/d/b.cu8");
}

#[test]
fn create_event_takes_in_sample_files() {
    let mut list = list_of(&["/d/a.cu8"]);
    let before = list.unfiltered_len();
    list.watcher_event(WatcherEvent::Create(vec![Created {
        path: "/d/new.cf32".to_string(),
        item: Some(item("/d/new.cf32")),
    }]));
    assert_eq!(list.unfiltered_len(), before + 1);
    assert_eq!(shown(&list), vec!["/d/a.cu8", "/d/new.cf32"]);
}

#[test]
fn create_event_ignores_other_files() {
    let mut list = list_of(&["/d/a.cu8"]);
    let before = list.unfiltered_len();
    list.watcher_event(WatcherEvent::Create(vec![Created {
        path: "/d/notes.txt".to_string(),
        item: Some(item("/d/notes.txt")),
    }]));
    assert_eq!(list.unfiltered_len(), before);
    list.watcher_event(WatcherEvent::Create(vec![Created {
        path: "/d/upper.CU8".to_string(),
        item: Some(item("/d/upper.CU8")),
    }]));
    assert_eq!(list.unfiltered_len(), before);
    list.watcher_event(WatcherEvent::Create(vec![Created {
        path: "/d/noextension".to_string(),
        item: Some(item("/d/noextension")),
    }]));
    assert_eq!(list.unfiltered_len(), before);
}

#[test]
fn create_event_skips_files_that_could_not_be_read() {
    let mut list = list_of(&["/d/a.cu8"]);
    list.watcher_event(WatcherEvent::Create(vec![
        Created { path: "/d/gone.cu8".to_string(), item: None },
        Created { path: "/d/here.cu8".to_string(), item: Some(item("/d/here.cu8")) },
    ]));
    assert_eq!(shown(&list), vec!["/d/a.cu8", "/d/here.cu8"]);
}

#[test]
fn create_event_for_a_known_path_changes_nothing() {
    let mut list = list_of(&["/d/a.cu8", "/d/b.cu8"]);
    list.set_selection(1);
    list.selected_toggle_delete();
    list.watcher_event(WatcherEvent::Create(vec![Created {
        path: "/d/b.cu8".to_string(),
        item: Some(item("/d/b.cu8")),
    }]));
    assert_eq!(list.unfiltered_len(), 2);
    assert!(list.get(1).unwrap().has_delete());
}

#[test]
fn modify_event_refreshes_known_items() {
    let mut list = list_of(&["/d/a.cu8", "/d/b.cu8"]);
    let mut seen = info("CU8", "434", "250");
    seen.size = Some(4096);
    list.watcher_event(WatcherEvent::Modify(vec![
        Modified { path: "/d/a.cu8".to_string(), info: Some(seen) },
        Modified { path: "/d/unknown.cu8".to_string(), info: Some(info("CU8", "1", "1")) },
    ]));
    assert_eq!(list.unfiltered_len(), 2);
    assert_eq!(list.get(0).unwrap().size(), Some(4096));
    assert_eq!(list.get(1).unwrap().size(), Some(1024));
}

#[test]
fn modify_event_without_a_new_look_leaves_the_item() {
    let mut list = list_of(&["/d/a.cu8"]);
    list.selected_toggle_mark();
    list.watcher_event(WatcherEvent::Modify(vec![Modified {
        path: "/d/a.cu8".to_string(),
        info: None,
    }]));
    let a = list.get(0).unwrap();
    assert_eq!(a.size(), Some(1024));
    assert_eq!(a.sample_format(), "CU8");
    assert!(a.has_mark());
}

#[test]
fn remove_event_drops_present_items() {
    let mut list = list_of(&["/d/a.cu8", "/d/b.cu8", "/d/c.cu8"]);
    list.set_selection(2);
    let before = list.unfiltered_len();
    list.watcher_event(WatcherEvent::Remove(strings(&["/d/b.cu8"])));
    assert_eq!(list.unfiltered_len(), before - 1);
    assert_eq!(shown(&list), vec!["/d/a.cu8", "/d/c.cu8"]);
    assert!(list.selection() < list.len());
    list.watcher_event(WatcherEvent::Remove(strings(&["/d/a.cu8", "/d/c.cu8", "/d/x.cu8"])));
    assert_eq!(list.unfiltered_len(), 0);
    assert_eq!(list.selection(), 0);
    assert!(!list.has_selection());
}

#[test]
fn clear_empties_the_list_and_the_filter() {
    let mut list = list_of(&["/d/a.cu8", "/d/b.cu8"]);
    list.set_filter("a");
    list.clear();
    assert_eq!(list.unfiltered_len(), 0);
    assert_eq!(list.len(), 0);
    assert_eq!(list.filter(), "");
    assert_eq!(list.selection(), 0);
    assert!(!list.has_selection());
}

#[test]
fn iter_gives_the_shown_items_in_order() {
    let mut list = list_of(&["/d/a_x.cu8", "/d/b.cu8", "/d/c_x.cu8"]);
    list.set_filter("_x");
    let items = list.iter();
    assert_eq!(items.len(), 2);
    assert_eq!(items[0].path(), "/d/a_x.cu8");
    assert_eq!(items[1].path(), "/d/c_x.cu8");
    assert_eq!(list.get(1).unwrap().path(), "/d/c_x.cu8");
}

#[test]
fn apply_does_what_the_named_operation_does() {
    let mut list = ItemList::new();
    list.apply(Command::Push(Scan::File(item("/d/a_x.cu8"))));
    list.apply(Command::Extend(vec![
        Scan::File(item("/d/b.cu8")),
        Scan::Folder("/e".to_string(), vec![item("/e/c_x.cu8"), item("/e/d.cu8")]),
    ]));
    assert_eq!(shown(&list), vec!["/d/a_x.cu8", "/d/b.cu8", "/e/c_x.cu8", "/e/d.cu8"]);
    list.apply(Command::SetSelection(9));
    assert_eq!(list.selection(), 3);
    list.apply(Command::DecSelection(2));
    assert_eq!(list.selection(), 1);
    list.apply(Command::IncSelection(1));
    assert_eq!(list.selection(), 2);
    list.apply(Command::ToggleMark);
    list.apply(Command::ToggleDelete);
    assert!(list.get(2).unwrap().has_mark());
    assert!(list.get(2).unwrap().has_delete());
    list.apply(Command::SetFilter("_X".to_string()));
    assert_eq!(list.filter(), "_x");
    assert_eq!(shown(&list), vec!["/d/a_x.cu8", "/e/c_x.cu8"]);
    assert_eq!(list.selection(), 1);
    list.apply(Command::MoveMarked(strings(&["/d/a_x.cu8"])));
    assert_eq!(list.unfiltered_len(), 4);
    list.apply(Command::DeleteMarked(strings(&["/e/c_x.cu8"])));
    assert_eq!(shown(&list), vec!["/d/a_x.cu8"]);
    list.apply(Command::RemoveSelected);
    assert_eq!(list.len(), 0);
    assert_eq!(list.unfiltered_len(), 2);
    list.apply(Command::Watcher(WatcherEvent::Remove(strings(&["/d/b.cu8"]))));
    assert_eq!(list.unfiltered_len(), 1);
    list.apply(Command::Clear);
    assert_eq!(list.unfiltered_len(), 0);
    assert_eq!(list.filter(), "");
}

#[test]
fn selected_mut_gives_the_selected_item() {
    let mut list = list_of(&["/d/a.cu8", "/d/b.cu8"]);
    list.set_selection(1);
    match list.selected_mut() {
        Some(chosen) => {
            assert_eq!(chosen.path(), "/d/b.cu8");
            chosen.toggle_mark();
        }
        None => panic!("nothing selected"),
    }
    assert!(list.get(1).unwrap().has_mark());
    assert!(!list.get(0).unwrap().has_mark());
    list.set_filter("zzz");
    assert!(list.selected_mut().is_none());
}

#[test]
fn selection_stays_on_its_item_when_an_earlier_item_is_removed() {
    let mut list = list_of(&["/d/a.cu8", "/d/b.cu8", "/d/c.cu8", "/d/d.cu8"]);
    list.set_selection(2);
    list.remove("/d/a.cu8");
    assert_eq!(list.unfiltered_len(), 3);
    assert_eq!(list.len(), 3);
    assert_eq!(list.selected().unwrap().path(), "/d/c.cu8");
    assert_eq!(list.selection(), 1);
}

#[test]
fn selection_stays_on_its_item_when_a_later_item_is_removed() {
    let mut list = list_of(&["/d/a.cu8", "/d/b.cu8", "/d/c.cu8", "/d/d.cu8"]);
    list.set_selection(1);
    list.remove("/d/d.cu8");
    assert_eq!(list.selected().unwrap().path(), "/d/b.cu8");
    assert_eq!(list.selection(), 1);
}

#[test]
fn selection_moves_on_when_its_item_is_removed() {
    let mut list = list_of(&["/d/a.cu8", "/d/b.cu8", "/d/c.cu8", "/d/d.cu8"]);
    list.set_selection(2);
    list.remove("/d/c.cu8");
    assert_eq!(list.selected().unwrap().path(), "/d/d.cu8");
    assert_eq!(list.selection(), 2);
    // the last item has nothing after it: the selection falls to the new last one
    list.remove("/d/d.cu8");
    assert_eq!(list.selected().unwrap().path(), "/d/b.cu8");
    assert_eq!(list.selection(), 1);
}

#[test]
fn selection_stays_on_its_item_after_a_remove_event() {
    let mut list = list_of(&["/d/a.cu8", "/d/b.cu8", "/d/c.cu8", "/d/d.cu8", "/d/e.cu8"]);
    list.set_selection(3);
    list.watcher_event(WatcherEvent::Remove(strings(&["/d/a.cu8", "/d/e.cu8", "/d/b.cu8"])));
    assert_eq!(shown(&list), vec!["/d/c.cu8", "/d/d.cu8"]);
    assert_eq!(list.selected().unwrap().path(), "/d/d.cu8");
    assert_eq!(list.selection(), 1);
}

#[test]
fn selection_stays_on_its_item_through_a_filter_when_items_are_removed() {
    let mut list = list_of(&["/d/a_x.cu8", "/d/b.cu8", "/d/c.cu8", "/d/d_x.cu8", "/d/e_x.cu8"]);
    list.set_filter("_x");
    list.set_selection(1);
    assert_eq!(list.selected().unwrap().path(), "/d/d_x.cu8");
    // items that are not shown leave before the selected one
    list.watcher_event(WatcherEvent::Remove(strings(&["/d/b.cu8", "/d/c.cu8"])));
    assert_eq!(list.selected().unwrap().path(), "/d/d_x.cu8");
    assert_eq!(list.selection(), 1);
    list.remove("/d/a_x.cu8");
    assert_eq!(list.selected().unwrap().path(), "/d/d_x.cu8");
    assert_eq!(list.selection(), 0);
    // the selected item leaves: the next shown one is selected
    list.remove("/d/d_x.cu8");
    assert_eq!(list.selected().unwrap().path(), "/d/e_x.cu8");
    assert_eq!(list.selection(), 0);
}

#[test]
fn selection_stays_on_its_item_when_marked_files_are_deleted() {
    let mut list = list_of(&["/d/a.cu8", "/d/b.cu8", "/d/c.cu8", "/d/d.cu8"]);
    list.set_selection(0);
    list.selected_toggle_delete();
    list.set_selection(2);
    list.delete_marked(&strings(&["/d/a.cu8"]));
    assert_eq!(shown(&list), vec!["/d/b.cu8", "/d/c.cu8", "/d/d.cu8"]);
    assert_eq!(list.selected().unwrap().path(), "/d/c.cu8");
    assert_eq!(list.selection(), 1);
}

#[test]
fn selection_stays_on_its_item_when_marked_files_are_moved() {
    let mut list = list_of(&["/d/a.cu8", "/d/b.cu8", "/d/c.cu8", "/d/d.cu8"]);
    list.set_selection(0);
    list.selected_toggle_mark();
    list.set_selection(1);
    list.selected_toggle_mark();
    list.set_selection(3);
    list.move_marked_to(&strings(&["/d/a.cu8", "/d/b.cu8"]));
    assert_eq!(shown(&list), vec!["/d/c.cu8", "/d/d.cu8"]);
    assert_eq!(list.selected().unwrap().path(), "/d/d.cu8");
    assert_eq!(list.selection(), 1);
}
