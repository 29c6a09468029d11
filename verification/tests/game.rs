use sprite_anim::entity2d::{DrawCall, TIME_PER_FRAME};
use sprite_anim::error::TextureError;
use sprite_anim::frame::Frame;
use sprite_anim::game::Game;
use sprite_anim::geometry::{Color, Ratio, Rectangle, Scale, Vector2};
use sprite_anim::listing::{Directory, Entry};

fn cat_listing() -> Option<Vec<Entry>> {
    Some((1..=4).map(|id| Entry::File(Some(Frame { id, width: 64, height: 32 }))).collect())
}

fn asset_root() -> Option<Vec<Entry>> {
    Some(vec![Entry::Directory(Directory {
        path: "./assets/cat".to_owned(),
        listing: cat_listing(),
    })])
}

fn cat_call(id: u32) -> DrawCall {
    DrawCall {
        texture: Frame { id, width: 64, height: 32 },
        source: Rectangle { x: 0, y: 0, width: 64, height: 32 },
        dest: Rectangle { x: 400, y: 300, width: 600, height: 300 },
        origin: Vector2 { x: 300, y: 300 },
        rotation: 0,
        tint: Color { r: 255, g: 255, b: 255, a: 255 },
    }
}

#[test]
fn new_game_is_an_empty_stage() {
    let game = Game::new();
    assert_eq!(game.window_size(), Vector2 { x: 800, y: 600 });
    assert_eq!(game.window_center(), Vector2 { x: 400, y: 300 });
    assert!(game.entity_vect().is_empty());
    assert!(!game.scene_texture_manager().contains("./assets/cat"));
    assert_eq!(game.draw(), vec![]);
}

#[test]
fn start_loads_the_tree_and_fits_the_cat_to_the_window() {
    let mut game = Game::new();
    assert_eq!(game.start_operation(&asset_root(), &None), Ok(()));
    assert_eq!(game.scene_texture_manager().get("./assets/cat").unwrap().len(), 4);
    assert_eq!(game.entity_vect().len(), 1);
    let cat = &game.entity_vect()[0];
    assert_eq!(cat.texture_2d_root_path(), "./assets/cat");
    assert_eq!(cat.position(), Vector2 { x: 400, y: 300 });
    assert_eq!(cat.pivot(), Vector2 { x: 300, y: 300 });
    assert_eq!(
        cat.scale(),
        Scale { x: Ratio { num: 600, den: 64 }, y: Ratio { num: 600, den: 64 } }
    );
    assert_eq!(cat.source_rect(), Rectangle { x: 0, y: 0, width: 64, height: 32 });
    assert_eq!(game.draw(), vec![cat_call(1)]);
}

#[test]
fn start_loads_the_cat_directory_where_the_tree_lacks_it() {
    let mut game = Game::new();
    assert_eq!(game.start_operation(&Some(vec![]), &cat_listing()), Ok(()));
    assert_eq!(game.scene_texture_manager().get("./assets/cat").unwrap().len(), 4);
    assert_eq!(game.draw(), vec![cat_call(1)]);
}

#[test]
fn start_stops_at_a_failed_tree_load() {
    let mut game = Game::new();
    assert_eq!(game.start_operation(&None, &cat_listing()), Err(TextureError::IOError));
    assert!(game.entity_vect().is_empty());
    assert!(!game.scene_texture_manager().contains("./assets/cat"));
}

#[test]
fn start_without_a_cat_fails_and_adds_no_sprite() {
    let mut game = Game::new();
    assert_eq!(game.start_operation(&Some(vec![]), &None), Err(TextureError::IOError));
    assert!(game.entity_vect().is_empty());
    let mut game = Game::new();
    assert_eq!(game.start_operation(&Some(vec![]), &Some(vec![])), Err(TextureError::ConfigError));
    assert!(game.entity_vect().is_empty());
}

#[test]
fn update_advances_every_sprite() {
    let mut game = Game::new();
    assert_eq!(game.start_operation(&asset_root(), &None), Ok(()));
    assert_eq!(game.add_entity(&None), Ok(()));
    game.update(100_000);
    assert_eq!(game.add_entity(&None), Ok(()));
    game.update(100_000);
    let frames: Vec<usize> = game.entity_vect().iter().map(|s| s.current_frame()).collect();
    let times: Vec<u64> = game.entity_vect().iter().map(|s| s.current_frame_time()).collect();
    assert_eq!(frames, vec![1, 1, 0]);
    assert_eq!(times, vec![0, 0, 100_000]);
    assert_eq!(game.draw(), vec![cat_call(2), cat_call(2), cat_call(1)]);
}

#[test]
fn ticks_bring_the_cat_back_to_its_first_frame() {
    let mut game = Game::new();
    assert_eq!(game.start_operation(&asset_root(), &None), Ok(()));
    let mut shown = Vec::new();
    for _ in 0..5 {
        game.update(TIME_PER_FRAME);
        shown.push(game.draw()[0].texture.id);
    }
    assert_eq!(shown, vec![2, 3, 4, 1, 2]);
}

#[test]
fn cat_of_no_width_scales_to_nothing() {
    let mut game = Game::new();
    let flat = Some(vec![Entry::File(Some(Frame { id: 1, width: 0, height: 10 }))]);
    assert_eq!(game.add_entity(&flat), Ok(()));
    let calls = game.draw();
    assert_eq!(calls.len(), 1);
    assert_eq!(calls[0].dest, Rectangle { x: 400, y: 300, width: 0, height: 0 });
}

#[test]
fn unload_clears_stage_and_cache() {
    let mut game = Game::new();
    assert_eq!(game.start_operation(&asset_root(), &None), Ok(()));
    game.unload();
    assert!(game.entity_vect().is_empty());
    assert!(!game.scene_texture_manager().contains("./assets/cat"));
    assert_eq!(game.draw(), vec![]);
    assert_eq!(game.window_size(), Vector2 { x: 800, y: 600 });
}

#[test]
fn tick_advances_before_it_draws() {
    let mut game = Game::new();
    assert_eq!(game.start_operation(&asset_root(), &None), Ok(()));
    assert_eq!(game.tick(100_000), vec![cat_call(1)]);
    assert_eq!(game.tick(100_000), vec![cat_call(2)]);
    assert_eq!(game.tick(TIME_PER_FRAME), vec![cat_call(3)]);
    assert_eq!(game.entity_vect()[0].current_frame(), 2);
}
