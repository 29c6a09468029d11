use vstd::prelude::*;
use crate::entity2d::{
    advanced, cache_after_resolve, draw_call, fresh, resolve_verdict, resolved, DrawCall,
    Entity2D, Entity2DView,
};
use crate::error::TextureError;
use crate::frame::Frame;
use crate::geometry::{Ratio, Scale, Vector2};
use crate::listing::Entry;
use crate::scene_texture_manager::{after_tree, frame_sets_nonempty, SceneTextureManager};

verus! {

/// The scene: the window's size, the cache of frame sets and the sprites on stage.
pub struct Game {
    window_size: Vector2,
    window_center: Vector2,
    scene_texture_manager: SceneTextureManager,
    entity_vect: Vec<Entity2D>,
}

/// What a scene holds, as plain values.
pub struct GameView {
    pub window_size: Vector2,
    pub window_center: Vector2,
    pub textures: Map<Seq<char>, Seq<Frame>>,
    pub entities: Seq<Entity2DView>,
}

impl GameView {
    /// The window has a size, its centre is halfway, no stored frame set is empty and
    /// every sprite is valid.
    pub open spec fn valid(self) -> bool {
        &&& self.window_size.x >= 0
        &&& self.window_size.y >= 0
        &&& self.window_center.x == self.window_size.x / 2
        &&& self.window_center.y == self.window_size.y / 2
        &&& frame_sets_nonempty(self.textures)
        &&& forall|i: int| 0 <= i < self.entities.len() ==> (#[trigger] self.entities[i]).valid()
    }
}

/// The draw calls of `sprites`, in their order; a sprite without a frame set gives none.
pub open spec fn draw_calls(sprites: Seq<Entity2DView>) -> Seq<DrawCall>
    decreases sprites.len(),
{
    if sprites.len() == 0 {
        Seq::empty()
    } else {
        let before = draw_calls(sprites.drop_last());
        match draw_call(sprites.last()) {
            Some(call) => before.push(call),
            None => before,
        }
    }
}

/// The scene after one tick of `dt` microseconds: every sprite has advanced.
pub open spec fn after_update(game: GameView, dt: u64) -> GameView {
    GameView {
        entities: game.entities.map_values(|sprite: Entity2DView| advanced(sprite, dt)),
        ..game
    }
}

/// The path of the sprite that a scene starts with.
pub open spec fn cat_path() -> Seq<char> {
    "./assets/cat"@
}

/// The sprite that a scene starts with, once `frames` is its frame set: centred in the
/// window, scaled along both axes so that a frame's width fills the window's shorter
/// side, and anchored at half that side.
pub open spec fn fitted(
    window_size: Vector2,
    window_center: Vector2,
    frames: Seq<Frame>,
) -> Entity2DView {
    let side = if window_size.x < window_size.y {
        window_size.x
    } else {
        window_size.y
    };
    let ratio = Ratio { num: side as u32, den: frames[0].width };
    let made = fresh(cat_path(), Vector2 { x: 100, y: 100 }, Vector2 { x: 0, y: 0 });
    Entity2DView {
        position: window_center,
        scale: Scale { x: ratio, y: ratio },
        pivot: Vector2 { x: (side / 2) as i32, y: (side / 2) as i32 },
        ..resolved(made, frames)
    }
}

/// The scene after its first sprite went on stage, resolved against the cache and, where
/// the cache did not hold its path, loaded from `listing`. A failed load adds no sprite.
pub open spec fn after_add_entity(game: GameView, listing: Option<Vec<Entry>>) -> GameView {
    let textures = cache_after_resolve(game.textures, cat_path(), listing);
    GameView {
        textures,
        entities: match resolve_verdict(game.textures, cat_path(), listing) {
            Ok(_) => game.entities.push(
                fitted(game.window_size, game.window_center, textures[cat_path()]),
            ),
            Err(_) => game.entities,
        },
        ..game
    }
}

/// The scene and the verdict after start-up: every leaf directory of the asset tree is
/// loaded, then the first sprite goes on stage. The first failure ends it.
pub open spec fn after_start(
    game: GameView,
    root: Option<Vec<Entry>>,
    cat: Option<Vec<Entry>>,
) -> (GameView, Result<(), TextureError>) {
    let (textures, verdict) = after_tree(game.textures, root);
    let loaded = GameView { textures, ..game };
    match verdict {
        Err(_) => (loaded, verdict),
        Ok(_) => (after_add_entity(loaded, cat), resolve_verdict(textures, cat_path(), cat)),
    }
}

impl View for Game {
    type V = GameView;

    closed spec fn view(&self) -> GameView {
        GameView {
            window_size: self.window_size,
            window_center: self.window_center,
            textures: self.scene_texture_manager@,
            entities: self.entity_vect@.map_values(|sprite: Entity2D| sprite@),
        }
    }
}

impl Game {
    /// What the scene holds is valid.
    pub open spec fn wf(&self) -> bool {
        self@.valid()
    }

    /// An empty scene in a window of 800 by 600.
    pub fn new() -> (game: Self)
        ensures
            game.wf(),
            game@ == (GameView {
                window_size: Vector2 { x: 800, y: 600 },
                window_center: Vector2 { x: 400, y: 300 },
                textures: Map::empty(),
                entities: Seq::empty(),
            }),
    {
        let game = Self {
            window_size: Vector2 { x: 800, y: 600 },
            window_center: Vector2 { x: 400, y: 300 },
            scene_texture_manager: SceneTextureManager::new(),
            entity_vect: Vec::new(),
        };
        proof {
            assert(game@.entities =~= Seq::empty());
        }
        game
    }

    /// Advances every sprite by one tick of `dt` microseconds.
    pub fn update(&mut self, dt: u64)
        requires
            old(self).wf(),
        ensures
            final(self).wf(),
            final(self)@ == after_update(old(self)@, dt),
    {
        proof {
            assert forall|j: int| 0 <= j < self.entity_vect.len() implies (
            #[trigger] self.entity_vect[j]).wf() by {
                assert(self@.entities[j].valid());
            }
        }
        let mut i: usize = 0;
        while i < self.entity_vect.len()
            invariant
                i <= self.entity_vect.len(),
                self.entity_vect.len() == old(self).entity_vect.len(),
                self.window_size == old(self).window_size,
                self.window_center == old(self).window_center,
                self.scene_texture_manager == old(self).scene_texture_manager,
                forall|j: int|
                    0 <= j < i ==> (#[trigger] self.entity_vect[j])@ == advanced(
                        old(self).entity_vect[j]@,
                        dt,
                    ),
                forall|j: int|
                    i <= j < self.entity_vect.len() ==> (#[trigger] self.entity_vect[j]) == old(
                        self,
                    ).entity_vect[j],
                forall|j: int|
                    0 <= j < self.entity_vect.len() ==> (#[trigger] self.entity_vect[j]).wf(),
            decreases self.entity_vect.len() - i,
        {
            self.entity_vect[i].update(dt);
            i += 1;
        }
        proof {
            assert(self@.entities =~= after_update(old(self)@, dt).entities);
        }
    }

    /// Loads every leaf directory of the asset tree whose root gave `root` as its listing,
    /// then puts the first sprite on stage; `cat` is the listing of that sprite's directory.
    pub fn start_operation(
        &mut self,
        root: &Option<Vec<Entry>>,
        cat: &Option<Vec<Entry>>,
    ) -> (result: Result<(), TextureError>)
        requires
            old(self).wf(),
        ensures
            final(self).wf(),
            (final(self)@, result) == after_start(old(self)@, *root, *cat),
    {
        let loaded = self.scene_texture_manager.load_all_textures(root);
        proof {
            assert(self@.entities =~= old(self)@.entities);
        }
        match loaded {
            Err(error) => {
                return Err(error);
            },
            Ok(()) => {},
        }
        self.add_entity(cat)
    }

    /// Puts the first sprite on stage.
    pub fn add_entity(&mut self, listing: &Option<Vec<Entry>>) -> (result: Result<
        (),
        TextureError,
    >)
        requires
            old(self).wf(),
        ensures
            final(self).wf(),
            result == resolve_verdict(old(self)@.textures, cat_path(), *listing),
            final(self)@ == after_add_entity(old(self)@, *listing),
    {
        let mut entity_2d = Entity2D::new(
            "./assets/cat".to_owned(),
            Vector2::new(100, 100),
            Vector2::zero(),
        );
        match entity_2d.load(&mut self.scene_texture_manager, listing) {
            Err(error) => {
                proof {
                    assert(self@.entities =~= old(self)@.entities);
                }
                return Err(error);
            },
            Ok(()) => {},
        }
        let source_rect_width = entity_2d.source_rect().width;
        let min_screen_ratio = if self.window_size.x < self.window_size.y {
            self.window_size.x
        } else {
            self.window_size.y
        };
        let ratio = Ratio { num: min_screen_ratio as u32, den: source_rect_width as u32 };
        entity_2d.set_scale(Scale { x: ratio, y: ratio });
        entity_2d.set_position(self.window_center);
        entity_2d.set_pivot(Vector2::new(min_screen_ratio / 2, min_screen_ratio / 2));
        self.entity_vect.push(entity_2d);
        proof {
            let textures = self@.textures;
            assert(self@.entities =~= old(self)@.entities.push(
                fitted(self@.window_size, self@.window_center, textures[cat_path()]),
            ));
        }
        Ok(())
    }

    /// One tick of `dt` microseconds: every sprite advances, and only then is any drawn.
    pub fn tick(&mut self, dt: u64) -> (calls: Vec<DrawCall>)
        requires
            old(self).wf(),
        ensures
            final(self).wf(),
            final(self)@ == after_update(old(self)@, dt),
            calls@ == draw_calls(after_update(old(self)@, dt).entities),
    {
        self.update(dt);
        self.draw()
    }

    /// Lets go of every sprite, then of every frame set.
    pub fn unload(&mut self)
        requires
            old(self).wf(),
        ensures
            final(self).wf(),
            final(self)@ == (GameView {
                textures: Map::empty(),
                entities: Seq::empty(),
                ..old(self)@
            }),
    {
        self.entity_vect.clear();
        self.scene_texture_manager.unload();
        proof {
            assert(self@.entities =~= Seq::empty());
        }
    }

    /// The draw calls of one pass over the sprites, in their order.
    pub fn draw(&self) -> (calls: Vec<DrawCall>)
        requires
            self.wf(),
        ensures
            calls@ == draw_calls(self@.entities),
    {
        let mut calls: Vec<DrawCall> = Vec::new();
        let mut i: usize = 0;
        while i < self.entity_vect.len()
            invariant
                i <= self.entity_vect.len(),
                self.wf(),
                calls@ == draw_calls(self@.entities.take(i as int)),
            decreases self.entity_vect.len() - i,
        {
            proof {
                assert(self@.entities.take(i + 1).drop_last() == self@.entities.take(i as int));
                assert(self@.entities[i as int].valid());
            }
            match self.entity_vect[i].draw() {
                Some(call) => {
                    calls.push(call);
                },
                None => {},
            }
            i += 1;
        }
        proof {
            assert(self@.entities.take(i as int) == self@.entities);
        }
        calls
    }

    pub fn window_size(&self) -> (window_size: Vector2)
        ensures
            window_size == self@.window_size,
    {
        self.window_size
    }

    pub fn window_center(&self) -> (window_center: Vector2)
        ensures
            window_center == self@.window_center,
    {
        self.window_center
    }

    /// The cache of frame sets.
    pub fn scene_texture_manager(&self) -> (cache: &SceneTextureManager)
        ensures
            cache@ == self@.textures,
    {
        &self.scene_texture_manager
    }

    /// The sprites on stage.
    pub fn entity_vect(&self) -> (sprites: &Vec<Entity2D>)
        ensures
            sprites@.map_values(|sprite: Entity2D| sprite@) == self@.entities,
    {
        &self.entity_vect
    }
}

} // verus!
