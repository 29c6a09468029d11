use std::rc::Rc;

use sprite_anim::error::TextureError;
use sprite_anim::frame::Frame;
use sprite_anim::listing::{Directory, Entry};
use sprite_anim::scene_texture_manager::SceneTextureManager;

fn frame(id: u32) -> Frame {
    Frame { id, width: 64, height: 64 }
}

fn image(id: u32) -> Entry {
    Entry::File(Some(frame(id)))
}

fn directory(path: &str, entries: Vec<Entry>) -> Directory {
    Directory { path: path.to_owned(), listing: Some(entries) }
}

fn subdirectory(path: &str, entries: Vec<Entry>) -> Entry {
    Entry::Directory(directory(path, entries))
}

fn ids(cache: &SceneTextureManager, path: &str) -> Vec<u32> {
    cache.get(path).unwrap().iter().map(|f| f.id).collect()
}

#[test]
fn new_cache_holds_nothing() {
    let cache = SceneTextureManager::new();
    assert!(!cache.contains("./assets/cat"));
    assert_eq!(cache.get("./assets/cat"), Err(TextureError::NotFoundError));
}

#[test]
fn load_stores_one_frame_per_regular_file_in_listing_order() {
    let mut cache = SceneTextureManager::new();
    let listing = Some(vec![
        image(7),
        subdirectory("./assets/cat/raw", vec![image(100)]),
        image(3),
        image(5),
    ]);
    assert_eq!(cache.load_textures_by_directory("./assets/cat".to_owned(), &listing), Ok(()));
    assert!(cache.contains("./assets/cat"));
    let frames = cache.get("./assets/cat").unwrap();
    assert_eq!(frames.len(), 3);
    assert_eq!(*frames, vec![frame(7), frame(3), frame(5)]);
    assert!(!cache.contains("./assets/cat/raw"));
}

#[test]
fn load_of_empty_directory_is_config_error_and_stores_nothing() {
    let mut cache = SceneTextureManager::new();
    let listing = Some(vec![]);
    assert_eq!(
        cache.load_textures_by_directory("./assets/none".to_owned(), &listing),
        Err(TextureError::ConfigError)
    );
    assert!(!cache.contains("./assets/none"));
    assert_eq!(cache.get("./assets/none"), Err(TextureError::NotFoundError));
}

#[test]
fn load_of_directory_with_only_subdirectories_is_config_error() {
    let mut cache = SceneTextureManager::new();
    let listing = Some(vec![subdirectory("./assets/a", vec![image(1)])]);
    assert_eq!(
        cache.load_textures_by_directory("./assets".to_owned(), &listing),
        Err(TextureError::ConfigError)
    );
    assert!(!cache.contains("./assets"));
}

#[test]
fn load_of_unlistable_directory_is_io_error() {
    let mut cache = SceneTextureManager::new();
    assert_eq!(
        cache.load_textures_by_directory("./missing".to_owned(), &None),
        Err(TextureError::IOError)
    );
    assert!(!cache.contains("./missing"));
}

#[test]
fn load_with_undecodable_file_is_io_error_and_stores_nothing() {
    let mut cache = SceneTextureManager::new();
    let listing = Some(vec![image(1), Entry::File(None), image(2)]);
    assert_eq!(
        cache.load_textures_by_directory("./assets/cat".to_owned(), &listing),
        Err(TextureError::IOError)
    );
    assert!(!cache.contains("./assets/cat"));
}

#[test]
fn undecodable_file_counts_before_the_want_of_frames() {
    let mut cache = SceneTextureManager::new();
    let listing = Some(vec![Entry::File(None)]);
    assert_eq!(
        cache.load_textures_by_directory("./assets/cat".to_owned(), &listing),
        Err(TextureError::IOError)
    );
}

#[test]
fn second_load_replaces_the_first() {
    let mut cache = SceneTextureManager::new();
    let first = Some(vec![image(1), image(2), image(3)]);
    let second = Some(vec![image(9), image(8)]);
    assert_eq!(cache.load_textures_by_directory("./assets/cat".to_owned(), &first), Ok(()));
    assert_eq!(cache.load_textures_by_directory("./assets/cat".to_owned(), &second), Ok(()));
    assert_eq!(ids(&cache, "./assets/cat"), vec![9, 8]);
}

#[test]
fn failed_second_load_keeps_the_first() {
    let mut cache = SceneTextureManager::new();
    let first = Some(vec![image(1), image(2)]);
    assert_eq!(cache.load_textures_by_directory("./assets/cat".to_owned(), &first), Ok(()));
    assert_eq!(
        cache.load_textures_by_directory("./assets/cat".to_owned(), &Some(vec![])),
        Err(TextureError::ConfigError)
    );
    assert_eq!(
        cache.load_textures_by_directory("./assets/cat".to_owned(), &None),
        Err(TextureError::IOError)
    );
    assert_eq!(ids(&cache, "./assets/cat"), vec![1, 2]);
}

#[test]
fn loads_of_other_paths_do_not_touch_a_stored_set() {
    let mut cache = SceneTextureManager::new();
    assert_eq!(
        cache.load_textures_by_directory("./a".to_owned(), &Some(vec![image(1)])),
        Ok(())
    );
    assert_eq!(
        cache.load_textures_by_directory("./b".to_owned(), &Some(vec![image(2), image(3)])),
        Ok(())
    );
    assert_eq!(ids(&cache, "./a"), vec![1]);
    assert_eq!(ids(&cache, "./b"), vec![2, 3]);
}

#[test]
fn get_hands_out_the_stored_allocation() {
    let mut cache = SceneTextureManager::new();
    assert_eq!(
        cache.load_textures_by_directory("./a".to_owned(), &Some(vec![image(1), image(2)])),
        Ok(())
    );
    let one = cache.get("./a").unwrap();
    assert_eq!(Rc::strong_count(&one), 2);
    let other = cache.get("./a").unwrap();
    assert!(Rc::ptr_eq(&one, &other));
    assert_eq!(Rc::strong_count(&one), 3);
    assert_eq!(*one, vec![frame(1), frame(2)]);
}

#[test]
fn unload_empties_the_cache_and_spares_handles() {
    let mut cache = SceneTextureManager::new();
    assert_eq!(
        cache.load_textures_by_directory("./a".to_owned(), &Some(vec![image(1), image(2)])),
        Ok(())
    );
    let held = cache.get("./a").unwrap();
    cache.unload();
    assert!(!cache.contains("./a"));
    assert_eq!(cache.get("./a"), Err(TextureError::NotFoundError));
    assert_eq!(Rc::strong_count(&held), 1);
    assert_eq!(*held, vec![frame(1), frame(2)]);
}

#[test]
fn list_load_stores_every_directory() {
    let mut cache = SceneTextureManager::new();
    let list = vec![
        directory("./a", vec![image(1)]),
        directory("./b", vec![image(2), image(3)]),
        directory("./a", vec![image(4), image(5)]),
    ];
    assert_eq!(cache.load_textures_by_directory_list(&list), Ok(()));
    assert_eq!(ids(&cache, "./a"), vec![4, 5]);
    assert_eq!(ids(&cache, "./b"), vec![2, 3]);
}

#[test]
fn list_load_of_nothing_succeeds() {
    let mut cache = SceneTextureManager::new();
    assert_eq!(cache.load_textures_by_directory_list(&vec![]), Ok(()));
    assert!(!cache.contains("./a"));
}

#[test]
fn list_load_stops_at_the_first_failure() {
    let mut cache = SceneTextureManager::new();
    let list = vec![
        directory("./a", vec![image(1)]),
        directory("./empty", vec![]),
        Directory { path: "./gone".to_owned(), listing: None },
        directory("./c", vec![image(3)]),
    ];
    assert_eq!(cache.load_textures_by_directory_list(&list), Err(TextureError::ConfigError));
    assert_eq!(ids(&cache, "./a"), vec![1]);
    assert!(!cache.contains("./empty"));
    assert!(!cache.contains("./gone"));
    assert!(!cache.contains("./c"));
}

#[test]
fn tree_load_stores_exactly_the_leaf_directories() {
    let mut cache = SceneTextureManager::new();
    let root = Some(vec![
        image(900),
        subdirectory("./assets/cat", vec![image(1), image(2), image(3), image(4)]),
        subdirectory(
            "./assets/birds",
            vec![
                image(901),
                subdirectory("./assets/birds/owl", vec![image(10), image(11)]),
                subdirectory(
                    "./assets/birds/small",
                    vec![subdirectory("./assets/birds/small/wren", vec![image(20)])],
                ),
            ],
        ),
    ]);
    assert_eq!(cache.load_all_textures(&root), Ok(()));
    assert_eq!(ids(&cache, "./assets/cat"), vec![1, 2, 3, 4]);
    assert_eq!(ids(&cache, "./assets/birds/owl"), vec![10, 11]);
    assert_eq!(ids(&cache, "./assets/birds/small/wren"), vec![20]);
    assert!(!cache.contains("./assets/birds"));
    assert!(!cache.contains("./assets/birds/small"));
    assert!(!cache.contains("./assets"));
}

#[test]
fn tree_load_ignores_undecoded_files_outside_leaves() {
    let mut cache = SceneTextureManager::new();
    let root = Some(vec![
        Entry::File(None),
        subdirectory(
            "./assets/a",
            vec![Entry::File(None), subdirectory("./assets/a/b", vec![image(1)])],
        ),
    ]);
    assert_eq!(cache.load_all_textures(&root), Ok(()));
    assert_eq!(ids(&cache, "./assets/a/b"), vec![1]);
}

#[test]
fn tree_load_of_root_without_subdirectories_loads_nothing() {
    let mut cache = SceneTextureManager::new();
    assert_eq!(cache.load_all_textures(&Some(vec![image(1), image(2)])), Ok(()));
    assert_eq!(cache.load_all_textures(&Some(vec![])), Ok(()));
    assert!(!cache.contains("./assets"));
}

#[test]
fn tree_load_of_unlistable_root_is_io_error() {
    let mut cache = SceneTextureManager::new();
    assert_eq!(cache.load_all_textures(&None), Err(TextureError::IOError));
}

#[test]
fn tree_load_with_unlistable_directory_loads_nothing() {
    let mut cache = SceneTextureManager::new();
    let root = Some(vec![
        subdirectory(
            "./assets/a",
            vec![Entry::Directory(Directory { path: "./assets/a/gone".to_owned(), listing: None })],
        ),
        subdirectory("./assets/cat", vec![image(1)]),
    ]);
    assert_eq!(cache.load_all_textures(&root), Err(TextureError::IOError));
    assert!(!cache.contains("./assets/cat"));
}

#[test]
fn tree_load_with_empty_leaf_is_config_error() {
    let mut cache = SceneTextureManager::new();
    let root = Some(vec![subdirectory("./assets/empty", vec![])]);
    assert_eq!(cache.load_all_textures(&root), Err(TextureError::ConfigError));
    assert!(!cache.contains("./assets/empty"));
}

#[test]
fn tree_load_visits_the_last_listed_directory_first() {
    let good = || subdirectory("./assets/good", vec![image(1)]);
    let bad = || subdirectory("./assets/bad", vec![Entry::File(None)]);

    let mut cache = SceneTextureManager::new();
    let root = Some(vec![good(), bad()]);
    assert_eq!(cache.load_all_textures(&root), Err(TextureError::IOError));
    assert!(!cache.contains("./assets/good"));

    let mut cache = SceneTextureManager::new();
    let root = Some(vec![bad(), good()]);
    assert_eq!(cache.load_all_textures(&root), Err(TextureError::IOError));
    assert_eq!(ids(&cache, "./assets/good"), vec![1]);
}

#[test]
fn tree_load_keeps_what_other_paths_held() {
    let mut cache = SceneTextureManager::new();
    assert_eq!(
        cache.load_textures_by_directory("./other".to_owned(), &Some(vec![image(5)])),
        Ok(())
    );
    assert_eq!(
        cache.load_textures_by_directory("./assets/cat".to_owned(), &Some(vec![image(6)])),
        Ok(())
    );
    let root = Some(vec![subdirectory("./assets/cat", vec![image(1), image(2)])]);
    assert_eq!(cache.load_all_textures(&root), Ok(()));
    assert_eq!(ids(&cache, "./other"), vec![5]);
    assert_eq!(ids(&cache, "./assets/cat"), vec![1, 2]);
}
