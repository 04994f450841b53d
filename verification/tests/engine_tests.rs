use roextract::category::{AssetInfo, Category};
use roextract::coordinator::{clear_cache_finish, extract_all_categories};
use roextract::engine::{create_no_files, Engine};

fn asset(name: &str) -> AssetInfo {
    AssetInfo {
        name: name.to_owned(),
        size: 1,
        last_modified: None,
        from_file: true,
        from_sql: false,
        category: Category::Sounds,
    }
}

fn fresh_engine() -> Engine {
    Engine::new("/tmp/assets".to_owned(), "idling".to_owned())
}

#[test]
fn new_engine_starts_idle() {
    let e = fresh_engine();
    assert_eq!(e.get_status(), "idling");
    assert_eq!(e.get_progress(), (1, 1));
    assert!(!e.get_list_task_running());
    assert!(!e.get_stop_list_running());
    assert!(!e.get_task_running());
    assert!(e.get_file_list().is_empty());
    assert_eq!(e.get_temp_dir(), "/tmp/assets");
}

#[test]
fn status_update_requests_repaint_once() {
    let mut e = fresh_engine();
    e.update_status("scanning".to_owned());
    assert_eq!(e.get_status(), "scanning");
    assert!(e.get_request_repaint());
    // Poll-and-clear: acknowledged, so the second poll sees nothing.
    assert!(!e.get_request_repaint());
}

#[test]
fn progress_update_requests_repaint() {
    let mut e = fresh_engine();
    e.update_progress(3, 10);
    assert_eq!(e.get_progress(), (3, 10));
    assert!(e.get_request_repaint());
}

#[test]
fn second_refresh_preempts_first() {
    let mut e = fresh_engine();
    assert!(e.refresh_request());
    assert!(e.get_list_task_running());
    e.update_file_list(asset("one"));
    assert_eq!(e.get_file_list().len(), 1);

    // A second back-to-back refresh is dropped: it only signals the
    // older listing task to yield, and contributes no entries itself.
    assert!(!e.refresh_request());
    assert!(e.get_stop_list_running());
    assert_eq!(e.get_file_list().len(), 1);

    // Once the older task has yielded, a new request wins and starts
    // from a clean index.
    e.refresh_finish("idling".to_owned());
    assert!(!e.get_list_task_running());
    assert!(e.refresh_request());
    assert!(e.get_file_list().is_empty());
    assert!(!e.get_stop_list_running());
}

#[test]
fn mutating_guard_rejects_second_task_without_any_writes() {
    let mut e = fresh_engine();
    e.update_status("before".to_owned());
    e.update_file_list(asset("kept"));
    let _ = e.get_request_repaint();

    assert!(e.begin_mutating());
    // While a mutating task is flagged, a second request changes
    // nothing: no writes, index and status untouched.
    assert!(!e.begin_mutating());
    assert!(e.get_task_running());
    assert_eq!(e.get_status(), "before");
    assert_eq!(e.get_file_list().len(), 1);
    assert!(!e.get_request_repaint());

    e.finish_mutating("all-extracted".to_owned());
    assert!(!e.get_task_running());
    assert_eq!(e.get_status(), "all-extracted");
}

#[test]
fn filter_matches_name_and_alias_case_insensitively() {
    let mut e = fresh_engine();
    e.update_file_list(asset("alpha-sound"));
    e.update_file_list(asset("beta-sound"));
    e.update_file_list(asset("gamma"));
    let aliases = vec![
        "Alpha".to_owned(),
        "My Favourite Track".to_owned(),
        "other".to_owned(),
    ];

    // The query is lowercased before matching names.
    e.filter_file_list("BETA", &aliases);
    let hit = e.get_filtered_file_list();
    assert_eq!(hit.len(), 1);
    assert_eq!(hit[0].name, "beta-sound");

    // Aliases are lowercased too, so a mixed-case alias still matches.
    e.filter_file_list("favourite", &aliases);
    let hit = e.get_filtered_file_list();
    assert_eq!(hit.len(), 1);
    assert_eq!(hit[0].name, "beta-sound");

    // An empty query keeps everything.
    e.filter_file_list("", &aliases);
    assert_eq!(e.get_filtered_file_list().len(), 3);

    // The filtered view is recomputed wholesale, never patched.
    e.filter_file_list("no such thing", &aliases);
    assert!(e.get_filtered_file_list().is_empty());
}

#[test]
fn clear_cache_leaves_single_placeholder() {
    let mut e = fresh_engine();
    e.update_file_list(asset("a"));
    e.update_file_list(asset("b"));
    assert!(e.begin_mutating());
    clear_cache_finish(&mut e, "no files found".to_owned(), "idling".to_owned());
    let list = e.get_file_list();
    assert_eq!(list.len(), 1);
    assert_eq!(list[0].name, "no files found");
    assert!(!list[0].from_file);
    assert!(!list[0].from_sql);
    assert_eq!(list[0].category, Category::All);
    assert!(!e.get_task_running());
    assert_eq!(e.get_status(), "idling");
}

#[test]
fn placeholder_descriptor_shape() {
    let p = create_no_files("nothing".to_owned());
    assert_eq!(p.name, "nothing");
    assert_eq!(p.size, 0);
    assert_eq!(p.last_modified, None);
    assert_eq!(p.category, Category::All);
}

#[test]
fn extract_all_runs_music_then_wildcard() {
    assert_eq!(
        extract_all_categories(),
        vec![Category::Music, Category::All]
    );
}
