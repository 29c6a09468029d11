use std::rc::Rc;
use vstd::prelude::*;
use vstd::arithmetic::power2::{lemma2_to64, lemma_pow2_strictly_increases, pow2};
use vstd::bits::{lemma_usize_low_bits_mask_is_mod, low_bits_mask};
use crate::error::TextureError;
use crate::frame::Frame;
use crate::geometry::{Color, Rectangle, Scale, Ratio, Vector2};
use crate::listing::Entry;
use crate::scene_texture_manager::{after_load, load_verdict, share, SceneTextureManager};

verus! {

/// How long one frame stays up, in microseconds.
pub const TIME_PER_FRAME: u64 = 250_000;

/// The ceiling of the lookahead, in microseconds.
pub const LOOKAHEAD_LIMIT: u64 = 1_000_000;

/// One image to put on screen: which frame, the region of it to sample, where it goes, the
/// offset it is anchored at, its rotation in degrees and its tint.
#[derive(Clone, Copy, Debug, PartialEq, Eq, Structural)]
pub struct DrawCall {
    pub texture: Frame,
    pub source: Rectangle,
    pub dest: Rectangle,
    pub origin: Vector2,
    pub rotation: i32,
    pub tint: Color,
}

/// An animated sprite: where it stands, which frame of its set is up and for how long it
/// has been. The frame set is shared with the cache and every other sprite of the same path.
pub struct Entity2D {
    position: Vector2,
    scale: Scale,
    pivot: Vector2,
    source_rect: Rectangle,
    current_frame: usize,
    current_frame_time: u64,
    texture_2d_root_path: String,
    texture_2d_vector: Option<Rc<Vec<Frame>>>,
}

/// What a sprite holds, as plain values.
pub struct Entity2DView {
    pub position: Vector2,
    pub scale: Scale,
    pub pivot: Vector2,
    pub source_rect: Rectangle,
    pub current_frame: usize,
    pub current_frame_time: u64,
    pub texture_2d_root_path: Seq<char>,
    pub texture_2d_vector: Option<Seq<Frame>>,
}

impl Entity2DView {
    /// The frame index is one of the set, the time in the frame has not reached a whole
    /// frame, and the sampled region is all of the first frame. Without a frame set the
    /// sprite rests on index 0 with an empty region.
    pub open spec fn valid(self) -> bool {
        &&& self.current_frame_time < TIME_PER_FRAME
        &&& match self.texture_2d_vector {
            None => self.current_frame == 0 && self.source_rect == Rectangle::empty(),
            Some(frames) => {
                &&& 1 <= frames.len() <= usize::MAX
                &&& self.current_frame < frames.len()
                &&& self.source_rect == Rectangle::of_size(frames[0].width, frames[0].height)
            },
        }
    }
}

/// A sprite as it is made: at `position`, anchored at `pivot`, unscaled, on frame 0 with
/// no time spent, its frame set not resolved.
pub open spec fn fresh(path: Seq<char>, position: Vector2, pivot: Vector2) -> Entity2DView {
    Entity2DView {
        position,
        scale: Scale { x: Ratio { num: 1, den: 1 }, y: Ratio { num: 1, den: 1 } },
        pivot,
        source_rect: Rectangle::empty(),
        current_frame: 0,
        current_frame_time: 0,
        texture_2d_root_path: path,
        texture_2d_vector: None,
    }
}

/// The time in the frame after `dt` more, counted once again as `dt` and held within
/// the ceiling: the value the frame step is decided on.
pub open spec fn lookahead(elapsed: u64, dt: u64) -> int {
    if elapsed + dt + dt > LOOKAHEAD_LIMIT {
        LOOKAHEAD_LIMIT as int
    } else {
        elapsed + dt + dt
    }
}

/// Whether a tick of `dt` moves a sprite on that has spent `elapsed` in its frame.
pub open spec fn frame_due(elapsed: u64, dt: u64) -> bool {
    lookahead(elapsed, dt) >= TIME_PER_FRAME
}

/// The frame after `current` in a set of `count`: one further, masked with `count - 1`.
pub open spec fn next_frame(current: usize, count: usize) -> usize {
    ((current + 1) as usize) & ((count - 1) as usize)
}

/// The sprite after a tick of `dt` microseconds. Where the frame is due, the next frame
/// comes up and the time starts over; else the time grows by `dt`. A sprite without a
/// frame set keeps time all the same and stays on its index.
pub open spec fn advanced(sprite: Entity2DView, dt: u64) -> Entity2DView {
    if frame_due(sprite.current_frame_time, dt) {
        Entity2DView {
            current_frame_time: 0,
            current_frame: match sprite.texture_2d_vector {
                Some(frames) => next_frame(sprite.current_frame, frames.len() as usize),
                None => sprite.current_frame,
            },
            ..sprite
        }
    } else {
        Entity2DView { current_frame_time: (sprite.current_frame_time + dt) as u64, ..sprite }
    }
}

/// The sprite once `frames` is its frame set: it samples all of the first frame, and stays
/// on its frame index where the set has that frame, else starts over at 0.
pub open spec fn resolved(sprite: Entity2DView, frames: Seq<Frame>) -> Entity2DView {
    Entity2DView {
        texture_2d_vector: Some(frames),
        source_rect: Rectangle::of_size(frames[0].width, frames[0].height),
        current_frame: if sprite.current_frame < frames.len() {
            sprite.current_frame
        } else {
            0
        },
        ..sprite
    }
}

/// The cache after a sprite of `path` resolved against it: a path not stored yet is
/// loaded from `listing`, a stored one stays as it is.
pub open spec fn cache_after_resolve(
    cache: Map<Seq<char>, Seq<Frame>>,
    path: Seq<char>,
    listing: Option<Vec<Entry>>,
) -> Map<Seq<char>, Seq<Frame>> {
    if cache.contains_key(path) {
        cache
    } else {
        after_load(cache, path, listing)
    }
}

/// Whether a sprite of `path` resolves against the cache, and if not, why.
pub open spec fn resolve_verdict(
    cache: Map<Seq<char>, Seq<Frame>>,
    path: Seq<char>,
    listing: Option<Vec<Entry>>,
) -> Result<(), TextureError> {
    if cache.contains_key(path) {
        Ok(())
    } else {
        load_verdict(listing)
    }
}

/// What a sprite draws: nothing before it has a frame set; then its current frame, sampled
/// over the source region, at its position, in the frame's size scaled and rounded down,
/// anchored at the pivot, unrotated and untinted.
pub open spec fn draw_call(sprite: Entity2DView) -> Option<DrawCall> {
    match sprite.texture_2d_vector {
        None => None,
        Some(frames) => {
            let frame = frames[sprite.current_frame as int];
            Some(
                DrawCall {
                    texture: frame,
                    source: sprite.source_rect,
                    dest: Rectangle {
                        x: sprite.position.x,
                        y: sprite.position.y,
                        width: sprite.scale.x.scaled(frame.width) as u64,
                        height: sprite.scale.y.scaled(frame.height) as u64,
                    },
                    origin: sprite.pivot,
                    rotation: 0,
                    tint: Color::white(),
                },
            )
        },
    }
}

impl View for Entity2D {
    type V = Entity2DView;

    closed spec fn view(&self) -> Entity2DView {
        Entity2DView {
            position: self.position,
            scale: self.scale,
            pivot: self.pivot,
            source_rect: self.source_rect,
            current_frame: self.current_frame,
            current_frame_time: self.current_frame_time,
            texture_2d_root_path: self.texture_2d_root_path@,
            texture_2d_vector: match self.texture_2d_vector {
                Some(frames) => Some(frames@),
                None => None,
            },
        }
    }
}

impl Entity2D {
    /// What the sprite holds is valid.
    pub open spec fn wf(&self) -> bool {
        self@.valid()
    }

    /// A sprite of the frames under `texture_2d_root_path`, at `position`, anchored at
    /// `pivot`, unscaled. Its frame set is not resolved yet.
    pub fn new(texture_2d_root_path: String, position: Vector2, pivot: Vector2) -> (sprite: Self)
        ensures
            sprite.wf(),
            sprite@ == fresh(texture_2d_root_path@, position, pivot),
    {
        Self {
            position: position,
            scale: Scale { x: Ratio::one(), y: Ratio::one() },
            pivot: pivot,
            source_rect: Rectangle { x: 0, y: 0, width: 0, height: 0 },
            current_frame: 0,
            current_frame_time: 0,
            texture_2d_root_path: texture_2d_root_path,
            texture_2d_vector: None,
        }
    }

    /// The frame that is up.
    fn get_current_frame(&self) -> (frame: &Frame)
        requires
            self.wf(),
            self@.texture_2d_vector is Some,
        ensures
            *frame == self@.texture_2d_vector->Some_0[self@.current_frame as int],
    {
        match &self.texture_2d_vector {
            Some(frames) => &frames[self.current_frame],
            None => unreached(),
        }
    }

    /// One tick of `dt` microseconds.
    pub fn update(&mut self, dt: u64)
        requires
            old(self).wf(),
        ensures
            final(self).wf(),
            final(self)@ == advanced(old(self)@, dt),
    {
        self.update_animation_forward(dt);
    }

    /// Steps the animation forward: the time in the frame grows by `dt`; once the lookahead
    /// has reached a whole frame the next frame comes up and the time starts over.
    fn update_animation_forward(&mut self, dt: u64)
        requires
            old(self).wf(),
        ensures
            final(self).wf(),
            final(self)@ == advanced(old(self)@, dt),
    {
        let elapsed = self.current_frame_time.saturating_add(dt);
        let ahead = elapsed.saturating_add(dt);
        let clamped_value = if ahead > LOOKAHEAD_LIMIT {
            LOOKAHEAD_LIMIT
        } else {
            ahead
        };
        if clamped_value < TIME_PER_FRAME {
            self.current_frame_time = elapsed;
            return ;
        }
        self.current_frame_time = 0;
        match &self.texture_2d_vector {
            Some(frames) => {
                let max_frame_num = frames.len() - 1;
                let next_frame = (self.current_frame + 1) & max_frame_num;
                proof {
                    let following = (self.current_frame + 1) as usize;
                    assert(following & max_frame_num <= max_frame_num) by (bit_vector);
                }
                self.current_frame = next_frame;
            },
            None => {},
        }
    }

    /// Resolves the sprite's frame set from `cache`. Where the cache holds none for the
    /// sprite's path yet, the directory is loaded first, from `listing`.
    pub fn load(
        &mut self,
        cache: &mut SceneTextureManager,
        listing: &Option<Vec<Entry>>,
    ) -> (result: Result<(), TextureError>)
        requires
            old(self).wf(),
            old(cache).wf(),
        ensures
            final(self).wf(),
            final(cache).wf(),
            result == resolve_verdict(old(cache)@, old(self)@.texture_2d_root_path, *listing),
            final(cache)@ == cache_after_resolve(
                old(cache)@,
                old(self)@.texture_2d_root_path,
                *listing,
            ),
            final(self)@ == match result {
                Ok(_) => resolved(old(self)@, final(cache)@[old(self)@.texture_2d_root_path]),
                Err(_) => old(self)@,
            },
    {
        if !cache.contains(self.texture_2d_root_path.as_str()) {
            match cache.load_textures_by_directory(self.texture_2d_root_path.clone(), listing) {
                Err(error) => {
                    return Err(error);
                },
                Ok(()) => {},
            }
        }
        let frames = match cache.get(self.texture_2d_root_path.as_str()) {
            Ok(frames) => frames,
            Err(error) => {
                return Err(error);
            },
        };
        let first = frames[0];
        self.source_rect = Rectangle {
            x: 0,
            y: 0,
            width: first.width as u64,
            height: first.height as u64,
        };
        if self.current_frame >= frames.len() {
            self.current_frame = 0;
        }
        self.texture_2d_vector = Some(frames);
        Ok(())
    }

    /// The sprite's draw call; none before its frame set is resolved.
    pub fn draw(&self) -> (call: Option<DrawCall>)
        requires
            self.wf(),
        ensures
            call == draw_call(self@),
    {
        if self.texture_2d_vector.is_none() {
            return None;
        }
        let current_frame = self.get_current_frame();
        let dest_rect = Rectangle {
            x: self.position.x,
            y: self.position.y,
            width: self.scale.x.apply(current_frame.width),
            height: self.scale.y.apply(current_frame.height),
        };
        Some(
            DrawCall {
                texture: *current_frame,
                source: self.source_rect,
                dest: dest_rect,
                origin: self.pivot,
                rotation: 0,
                tint: Color { r: 255, g: 255, b: 255, a: 255 },
            },
        )
    }

    pub fn position(&self) -> (position: Vector2)
        ensures
            position == self@.position,
    {
        self.position
    }

    pub fn set_position(&mut self, position: Vector2)
        ensures
            final(self)@ == (Entity2DView { position, ..old(self)@ }),
    {
        self.position = position;
    }

    pub fn pivot(&self) -> (pivot: Vector2)
        ensures
            pivot == self@.pivot,
    {
        self.pivot
    }

    pub fn set_pivot(&mut self, pivot: Vector2)
        ensures
            final(self)@ == (Entity2DView { pivot, ..old(self)@ }),
    {
        self.pivot = pivot;
    }

    pub fn scale(&self) -> (scale: Scale)
        ensures
            scale == self@.scale,
    {
        self.scale
    }

    pub fn set_scale(&mut self, scale: Scale)
        ensures
            final(self)@ == (Entity2DView { scale, ..old(self)@ }),
    {
        self.scale = scale;
    }

    pub fn source_rect(&self) -> (source_rect: Rectangle)
        ensures
            source_rect == self@.source_rect,
    {
        self.source_rect
    }

    pub fn current_frame(&self) -> (current_frame: usize)
        ensures
            current_frame == self@.current_frame,
    {
        self.current_frame
    }

    pub fn current_frame_time(&self) -> (current_frame_time: u64)
        ensures
            current_frame_time == self@.current_frame_time,
    {
        self.current_frame_time
    }

    pub fn texture_2d_root_path(&self) -> (path: &String)
        ensures
            path@ == self@.texture_2d_root_path,
    {
        &self.texture_2d_root_path
    }

    /// A shared handle on the sprite's frame set; none before it is resolved.
    pub fn texture_2d_vector(&self) -> (frames: Option<Rc<Vec<Frame>>>)
        ensures
            frames is Some <==> self@.texture_2d_vector is Some,
            frames matches Some(set) ==> set@ == self@.texture_2d_vector->Some_0,
    {
        match &self.texture_2d_vector {
            Some(frames) => Some(share(frames)),
            None => None,
        }
    }
}

/// In a frame set whose size is a power of two the frames come up in turn and wrap
/// around: the frame after `current` is `current + 1` modulo the size.
pub proof fn lemma_power_of_two_wraps(current: usize, count: usize, exponent: nat)
    requires
        count == pow2(exponent),
        current < count,
    ensures
        next_frame(current, count) == (current + 1) % (count as int),
{
    lemma2_to64();
    if exponent >= usize::BITS {
        if exponent > usize::BITS {
            lemma_pow2_strictly_increases(usize::BITS as nat, exponent);
        }
        assert(false);
    }
    lemma_usize_low_bits_mask_is_mod((current + 1) as usize, exponent);
    assert(low_bits_mask(exponent) == count - 1);
}

/// The frame after any frame of a set is a frame of the set, whatever the set's size.
pub proof fn lemma_next_frame_in_set(current: usize, count: usize)
    requires
        current < count,
    ensures
        next_frame(current, count) < count,
{
    let following = (current + 1) as usize;
    let mask = (count - 1) as usize;
    assert(following & mask <= mask) by (bit_vector);
}

/// A tick keeps a valid sprite valid.
pub proof fn lemma_advanced_valid(sprite: Entity2DView, dt: u64)
    requires
        sprite.valid(),
    ensures
        advanced(sprite, dt).valid(),
{
    if sprite.texture_2d_vector is Some {
        lemma_next_frame_in_set(
            sprite.current_frame,
            sprite.texture_2d_vector->Some_0.len() as usize,
        );
    }
}

/// Two sprites of one path that resolve against the cache one after the other hold the
/// same frame set: the first resolve may load the directory, the second finds it stored
/// and leaves the cache as it is, whatever listing it is handed.
pub proof fn lemma_same_path_shares_frames(
    one: Entity2DView,
    other: Entity2DView,
    cache: Map<Seq<char>, Seq<Frame>>,
    first: Option<Vec<Entry>>,
    second: Option<Vec<Entry>>,
)
    requires
        one.texture_2d_root_path == other.texture_2d_root_path,
        resolve_verdict(cache, one.texture_2d_root_path, first) is Ok,
    ensures
        ({
            let path = one.texture_2d_root_path;
            let stored = cache_after_resolve(cache, path, first);
            &&& resolve_verdict(stored, path, second) is Ok
            &&& cache_after_resolve(stored, path, second) == stored
            &&& resolved(one, stored[path]).texture_2d_vector == resolved(
                other,
                stored[path],
            ).texture_2d_vector
        }),
{
}

/// A sprite draws nothing exactly as long as its frame set is not resolved.
pub proof fn lemma_unresolved_draws_nothing(sprite: Entity2DView)
    ensures
        draw_call(sprite) is None <==> sprite.texture_2d_vector is None,
{
}

} // verus!
