use rendering_cache::preview::{
    get_file_from_cache, preview_action, reload_outcome, set_contents, ContentCache, Health,
    PostLoadBehavior, PreviewAction, PreviewStatus,
};

fn s(text: &str) -> String {
    text.to_string()
}

#[test]
fn unknown_file_is_not_in_cache_but_becomes_a_dependency() {
    let mut cache: ContentCache<u8> = ContentCache::default();
    assert_eq!(get_file_from_cache(&mut cache, s("main.60")), None);
    cache.finish_reload(1);
    let request = set_contents(&mut cache, s("main.60"), s("X := Rectangle {}"));
    assert!(request.is_some());
}

#[test]
fn contents_are_returned_and_replaced() {
    let mut cache: ContentCache<u8> = ContentCache::new();
    assert!(set_contents(&mut cache, s("a.60"), s("one")).is_none());
    assert!(set_contents(&mut cache, s("b.60"), s("two")).is_none());
    assert!(set_contents(&mut cache, s("a.60"), s("three")).is_none());
    assert_eq!(get_file_from_cache(&mut cache, s("a.60")), Some(s("three")));
    assert_eq!(get_file_from_cache(&mut cache, s("b.60")), Some(s("two")));
}

#[test]
fn change_of_dependency_reloads_root_once() {
    let mut cache: ContentCache<u8> = ContentCache::new();
    cache.begin_reload(s("root.60"));
    get_file_from_cache(&mut cache, s("root.60"));
    get_file_from_cache(&mut cache, s("lib.60"));
    assert_eq!(cache.finish_reload(9), None);
    assert!(set_contents(&mut cache, s("other.60"), s("x")).is_none());
    let request = set_contents(&mut cache, s("lib.60"), s("y")).unwrap();
    assert_eq!(request.root, s("root.60"));
    assert_eq!(request.sender, 9);
    // The channel was taken: no second reload until the first one finishes.
    assert!(set_contents(&mut cache, s("lib.60"), s("z")).is_none());
    assert_eq!(cache.finish_reload(10), None);
    assert_eq!(cache.finish_reload(11), Some(10));
}

#[test]
fn begin_reload_forgets_previous_dependencies() {
    let mut cache: ContentCache<u8> = ContentCache::new();
    get_file_from_cache(&mut cache, s("old.60"));
    cache.finish_reload(1);
    cache.begin_reload(s("new.60"));
    assert!(set_contents(&mut cache, s("old.60"), s("x")).is_none());
    assert_eq!(get_file_from_cache(&mut cache, s("old.60")), Some(s("x")));
}

#[test]
fn outcome_statuses() {
    assert!(reload_outcome(true) == PreviewStatus::Loaded);
    assert!(reload_outcome(false) == PreviewStatus::NotUpdated);
    assert!(PreviewStatus::Loading.health() == Health::Good);
    assert!(PreviewStatus::Loaded.health() == Health::Good);
    assert!(PreviewStatus::NotUpdated.health() == Health::Error);
    assert_eq!(PreviewStatus::Loading.message(), "Loading Preview\u{2026}");
    assert_eq!(PreviewStatus::Loaded.message(), "Preview Loaded");
    assert_eq!(PreviewStatus::NotUpdated.message(), "Preview not updated");
}

#[test]
fn actions_after_compiling() {
    assert!(preview_action(false, PostLoadBehavior::DoNothing) == PreviewAction::CreateAndShow);
    assert!(preview_action(false, PostLoadBehavior::ShowAfterLoad) == PreviewAction::CreateAndShow);
    assert!(
        preview_action(true, PostLoadBehavior::ShowAfterLoad) == PreviewAction::ReuseWindowAndShow
    );
    assert!(preview_action(true, PostLoadBehavior::DoNothing) == PreviewAction::ReuseWindow);
}
