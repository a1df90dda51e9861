//! Sprites as the GPU draws them.

pub mod render;

use vstd::prelude::*;
use crate::assets::{AssetId, RenderAssets};
use crate::error::RenderError;
use crate::gpu_buffer::{LinearBuffer, LinearPool};
use crate::material::{Color, Material, MaterialColors};
use crate::texture::GpuImage;
use crate::math::{Mat4, Vec2};
use crate::mesh::{float_attribute, float_loader};
use crate::pipeline::{VertexAttribute, VertexAttrs};

verus! {

/// One corner of a sprite.
#[derive(Debug, Clone, Copy, PartialEq, Eq, Structural)]
pub struct Vertex {
    pub pos: Vec2,
    pub uv: Vec2,
}

/// The layout of [`Vertex`]: position and texture coordinate, in registers
/// 0 and 1.
pub open spec fn sprite_layout() -> Seq<VertexAttribute> {
    seq![float_attribute(0, 2), float_attribute(1, 2)]
}

impl Vertex {
    /// How a [`Vertex`] lies in memory.
    pub fn vert_attrs() -> (layout: VertexAttrs)
        ensures
            layout.wf(),
            layout@ == sprite_layout(),
    {
        let mut layout = VertexAttrs::default();
        let p = layout.add_attr(&float_loader(0, 2));
        let u = layout.add_attr(&float_loader(1, 2));
        assert(layout@ =~= sprite_layout());
        layout
    }
}

/// One sprite, ready to be drawn.
#[derive(Debug)]
pub struct SpriteInstance {
    pub transform: Mat4,
    pub verts: LinearBuffer<Vertex>,
    pub indexes: LinearBuffer<u32>,
    pub mat: Material,
}

/// Sprites that share one image.
#[derive(Debug)]
pub struct SpriteBatch {
    pub image: AssetId,
    pub sprites: Vec<SpriteInstance>,
}

/// The sprites that are to be drawn in this frame.
#[derive(Debug)]
pub struct SpriteBatches {
    pub batches: Vec<SpriteBatch>,
}

impl Default for SpriteBatches {
    fn default() -> (batches: SpriteBatches)
        ensures
            batches.batches@ == Seq::<SpriteBatch>::empty(),
    {
        SpriteBatches { batches: Vec::new() }
    }
}

/// The number 1 as a single precision number.
pub const ONE: u32 = 0x3f80_0000;

/// A sprite of the scene.
#[derive(Debug, Clone, Copy, PartialEq, Eq)]
pub struct ExtractedSprite {
    /// The image that the sprite shows.
    pub image: AssetId,
    pub flip_x: bool,
    pub flip_y: bool,
    /// The part of the image that the sprite shows, in pixels; all of it if
    /// none is named.
    pub rect: Option<(Vec2, Vec2)>,
    /// The size that the sprite is drawn in; that of what it shows if none
    /// is named.
    pub custom_size: Option<Vec2>,
    pub anchor: Vec2,
    pub transform: Mat4,
    pub color: Color,
}

/// How a sprite lies on its image and in the world.
#[derive(Debug, Clone, Copy, PartialEq, Eq)]
pub struct SpriteLayout {
    /// The part of the image that the sprite shows, as shares of the width
    /// and the height of the image: its upper left and its lower right
    /// corner; all of the image if none is named.
    pub rect: Option<(Vec2, Vec2)>,
    /// What brings the unit square to where the sprite is drawn.
    pub transform: Mat4,
}

/// The texture coordinates of the four corners of a sprite, before it is
/// flipped: lower left, upper left, upper right, lower right.
pub open spec fn plain_corners(rect: Option<(Vec2, Vec2)>) -> Seq<Vec2> {
    match rect {
        None => seq![
            Vec2 { x: 0, y: ONE },
            Vec2 { x: 0, y: 0 },
            Vec2 { x: ONE, y: 0 },
            Vec2 { x: ONE, y: ONE },
        ],
        Some((upper_left, lower_right)) => seq![
            upper_left,
            Vec2 { x: upper_left.x, y: lower_right.y },
            lower_right,
            Vec2 { x: lower_right.x, y: upper_left.y },
        ],
    }
}

/// The corners `c` with left and right exchanged.
pub open spec fn flipped_x(c: Seq<Vec2>) -> Seq<Vec2> {
    seq![c[3], c[2], c[1], c[0]]
}

/// The corners `c` with top and bottom exchanged.
pub open spec fn flipped_y(c: Seq<Vec2>) -> Seq<Vec2> {
    seq![c[1], c[0], c[3], c[2]]
}

/// The texture coordinates of the four corners of a sprite.
pub open spec fn uv_corners(rect: Option<(Vec2, Vec2)>, flip_x: bool, flip_y: bool) -> Seq<Vec2> {
    let plain = plain_corners(rect);
    let sideways = if flip_x {
        flipped_x(plain)
    } else {
        plain
    };
    if flip_y {
        flipped_y(sideways)
    } else {
        sideways
    }
}

/// Where the four corners of a sprite stand before the sprite is brought to
/// its place: the corners of the unit square.
pub open spec fn unit_corners() -> Seq<Vec2> {
    seq![
        Vec2 { x: 0, y: ONE },
        Vec2 { x: 0, y: 0 },
        Vec2 { x: ONE, y: 0 },
        Vec2 { x: ONE, y: ONE },
    ]
}

/// The four vertices of a sprite.
pub open spec fn sprite_vertices(rect: Option<(Vec2, Vec2)>, flip_x: bool, flip_y: bool) -> Seq<
    Vertex,
> {
    Seq::new(
        4,
        |i: int| Vertex { pos: unit_corners()[i], uv: uv_corners(rect, flip_x, flip_y)[i] },
    )
}

/// The order in which the corners of a sprite make up its two triangles.
pub open spec fn sprite_indices() -> Seq<u32> {
    seq![0, 1, 2, 0, 2, 1]
}

/// Flipping twice the same way leaves the corners as they were.
pub proof fn lemma_flip_twice(c: Seq<Vec2>)
    requires
        c.len() == 4,
    ensures
        flipped_x(flipped_x(c)) == c,
        flipped_y(flipped_y(c)) == c,
        flipped_x(flipped_y(c)) == flipped_y(flipped_x(c)),
{
    assert(flipped_x(flipped_x(c)) =~= c);
    assert(flipped_y(flipped_y(c)) =~= c);
    assert(flipped_x(flipped_y(c)) =~= flipped_y(flipped_x(c)));
}

/// The four vertices of a sprite.
pub fn sprite_corners(rect: Option<(Vec2, Vec2)>, flip_x: bool, flip_y: bool) -> (verts: [Vertex;
    4])
    ensures
        verts@ == sprite_vertices(rect, flip_x, flip_y),
{
    let plain: [Vec2; 4] = match rect {
        None => [
            Vec2 { x: 0, y: ONE },
            Vec2 { x: 0, y: 0 },
            Vec2 { x: ONE, y: 0 },
            Vec2 { x: ONE, y: ONE },
        ],
        Some((upper_left, lower_right)) => [
            upper_left,
            Vec2 { x: upper_left.x, y: lower_right.y },
            lower_right,
            Vec2 { x: lower_right.x, y: upper_left.y },
        ],
    };
    assert(plain@ =~= plain_corners(rect));
    let sideways: [Vec2; 4] = if flip_x {
        [plain[3], plain[2], plain[1], plain[0]]
    } else {
        plain
    };
    let uvs: [Vec2; 4] = if flip_y {
        [sideways[1], sideways[0], sideways[3], sideways[2]]
    } else {
        sideways
    };
    assert(uvs@ =~= uv_corners(rect, flip_x, flip_y));
    let verts = [
        Vertex { pos: Vec2 { x: 0, y: ONE }, uv: uvs[0] },
        Vertex { pos: Vec2 { x: 0, y: 0 }, uv: uvs[1] },
        Vertex { pos: Vec2 { x: ONE, y: 0 }, uv: uvs[2] },
        Vertex { pos: Vec2 { x: ONE, y: ONE }, uv: uvs[3] },
    ];
    assert(verts@ =~= sprite_vertices(rect, flip_x, flip_y));
    verts
}

/// The bytes that the buffers of one sprite take.
pub open spec fn sprite_bytes() -> nat {
    LinearBuffer::<Vertex>::bytes_for(4) + LinearBuffer::<u32>::bytes_for(6)
}

/// Whether `x` is a buffer of `sprite`.
pub open spec fn sprite_owns(sprite: SpriteInstance, x: u64) -> bool {
    x == sprite.verts.id() || x == sprite.indexes.id()
}

/// Whether `x` is a buffer of one of the sprites of `batches`.
pub open spec fn batches_own(batches: Seq<SpriteBatch>, x: u64) -> bool {
    exists|i: int, j: int|
        0 <= i < batches.len() && 0 <= j < batches[i].sprites@.len() && sprite_owns(
            #[trigger] batches[i].sprites@[j],
            x,
        )
}

/// Whether `sprite`, drawn as `instance`, shows what it should.
pub open spec fn sprite_made(
    sprite: ExtractedSprite,
    layout: SpriteLayout,
    instance: SpriteInstance,
) -> bool {
    &&& instance.transform == layout.transform
    &&& instance.verts@ == sprite_vertices(layout.rect, sprite.flip_x, sprite.flip_y)
    &&& instance.indexes@ == sprite_indices()
    &&& instance.mat.colors() == (MaterialColors {
        ambient: None,
        diffuse: None,
        specular0: None,
        specular1: None,
        emission: Some(sprite.color),
    })
    &&& instance.mat.luts@.len() == 0
}

/// What making the buffers of a sprite does to the pool: with room for both
/// buffers they are made; without, the pool holds what it held before.
pub open spec fn sprite_allocated(
    before: LinearPool,
    after: LinearPool,
    r: Result<SpriteInstance, RenderError>,
) -> bool {
    if before.used_bytes() + sprite_bytes() <= before.capacity_bytes() && before.numbers_left()
        >= 2 {
        &&& r is Ok
        &&& r->Ok_0.verts.id() != r->Ok_0.indexes.id()
        &&& after.used_bytes() == before.used_bytes() + sprite_bytes()
        &&& after.numbers_left() == before.numbers_left() - 2
        &&& forall|x: u64| after.holds(x) == (before.holds(x) || sprite_owns(r->Ok_0, x))
        &&& forall|x: u64| sprite_owns(r->Ok_0, x) ==> !before.issued(x)
        &&& forall|x: u64| after.issued(x) == (before.issued(x) || sprite_owns(r->Ok_0, x))
    } else {
        &&& r is Err
        &&& r->Err_0 == RenderError::OutOfLinearMemory
        &&& after.used_bytes() == before.used_bytes()
        &&& forall|x: u64| after.holds(x) == before.holds(x)
    }
}

/// Makes the buffers of one sprite.
fn make_sprite(pool: &mut LinearPool, sprite: &ExtractedSprite, layout: SpriteLayout) -> (r:
    Result<SpriteInstance, RenderError>)
    requires
        old(pool).wf(),
    ensures
        final(pool).wf(),
        final(pool).capacity_bytes() == old(pool).capacity_bytes(),
        sprite_allocated(*old(pool), *final(pool), r),
        r is Ok ==> sprite_made(*sprite, layout, r->Ok_0),
{
    let corners = sprite_corners(layout.rect, sprite.flip_x, sprite.flip_y);
    let verts = match LinearBuffer::new(pool, corners.as_slice()) {
        Ok(verts) => verts,
        Err(e) => {
            return Err(RenderError::OutOfLinearMemory);
        },
    };
    let order: [u32; 6] = [0, 1, 2, 0, 2, 1];
    assert(order@ =~= sprite_indices());
    let indexes = match LinearBuffer::new(pool, order.as_slice()) {
        Ok(indexes) => indexes,
        Err(e) => {
            proof {
                if old(pool).holds(verts.id()) {
                    old(pool).lemma_live_is_issued(verts.id());
                }
            }
            pool.release(verts);
            return Err(RenderError::OutOfLinearMemory);
        },
    };
    Ok(
        SpriteInstance {
            transform: layout.transform,
            verts,
            indexes,
            mat: Material::new(None, None, None, None, Some(sprite.color)),
        },
    )
}

/// Whether the image of `sprite` is ready.
pub open spec fn sprite_ready(images: Map<u128, GpuImage>, sprite: ExtractedSprite) -> bool {
    images.contains_key(sprite.image.0)
}

/// Those of `sprites` whose image is ready, in their order.
pub open spec fn ready_sprites(images: Map<u128, GpuImage>, sprites: Seq<ExtractedSprite>) -> Seq<
    ExtractedSprite,
>
    decreases sprites.len(),
{
    if sprites.len() == 0 {
        Seq::empty()
    } else {
        let before = ready_sprites(images, sprites.drop_last());
        if sprite_ready(images, sprites.last()) {
            before.push(sprites.last())
        } else {
            before
        }
    }
}

/// Whether `batch` is the batch of `sprite`: it holds the sprite alone, laid
/// out as `layout_of` says for an image of the size of the sprite's image.
pub open spec fn batch_made<F: Fn(&ExtractedSprite, u32, u32) -> SpriteLayout>(
    layout_of: F,
    images: Map<u128, GpuImage>,
    sprite: ExtractedSprite,
    batch: SpriteBatch,
) -> bool {
    let image = images[sprite.image.0];
    &&& batch.image == sprite.image
    &&& batch.sprites@.len() == 1
    &&& exists|layout: SpriteLayout|
        call_ensures(layout_of, (&sprite, image.shape().0, image.shape().1), layout)
            && #[trigger] sprite_made(sprite, layout, batch.sprites@[0])
}

/// What forgetting the sprites of the frame before does to the pool: their
/// buffers are gone, every other buffer stays.
pub open spec fn batches_cleared(
    batches: Seq<SpriteBatch>,
    before: LinearPool,
    after: LinearPool,
) -> bool {
    &&& after.wf()
    &&& after.capacity_bytes() == before.capacity_bytes()
    &&& after.numbers_left() == before.numbers_left()
    &&& after.used_bytes() <= before.used_bytes()
    &&& forall|x: u64| after.holds(x) == (before.holds(x) && !batches_own(batches, x))
    &&& forall|x: u64| after.issued(x) == before.issued(x)
}

/// What preparing `sprites` does, once the sprites of the frame before are
/// forgotten and the pool is `cleared`.
///
/// Every sprite whose image is ready gets a batch of its own, in the order
/// of the sprites; a sprite whose image is not ready is passed over for this
/// frame. If the pool has no room for all of them, the sprites that there is
/// room for are prepared and the rest is refused.
pub open spec fn sprites_prepared<F: Fn(&ExtractedSprite, u32, u32) -> SpriteLayout>(
    layout_of: F,
    images: Map<u128, GpuImage>,
    sprites: Seq<ExtractedSprite>,
    cleared: LinearPool,
    batches: Seq<SpriteBatch>,
    pool: LinearPool,
    r: Result<(), RenderError>,
) -> bool {
    let ready = ready_sprites(images, sprites);
    let room = cleared.used_bytes() + ready.len() * sprite_bytes() <= cleared.capacity_bytes()
        && cleared.numbers_left() >= 2 * ready.len();
    &&& r is Ok <==> room
    &&& r is Err ==> r->Err_0 == RenderError::OutOfLinearMemory && batches.len() < ready.len()
    &&& r is Ok ==> batches.len() == ready.len()
    &&& forall|k: int|
        0 <= k < batches.len() ==> batch_made(layout_of, images, ready[k], #[trigger] batches[k])
    &&& pool.used_bytes() == cleared.used_bytes() + batches.len() * sprite_bytes()
    &&& forall|x: u64| pool.holds(x) == (cleared.holds(x) || batches_own(batches, x))
    &&& forall|x: u64| batches_own(batches, x) ==> !cleared.issued(x)
}

impl SpriteBatches {
    /// Forgets every sprite and gives its buffers back to `pool`.
    pub fn clear(&mut self, pool: &mut LinearPool)
        requires
            old(pool).wf(),
        ensures
            final(self).batches@.len() == 0,
            batches_cleared(old(self).batches@, *old(pool), *final(pool)),
    {
        let mut old_batches: Vec<SpriteBatch> = Vec::new();
        core::mem::swap(&mut self.batches, &mut old_batches);
        let ghost all = old_batches@;
        let ghost mut gone: Set<u64> = Set::empty();
        for batch in outer: old_batches
            invariant
                outer.seq() == all,
                pool.wf(),
                pool.capacity_bytes() == old(pool).capacity_bytes(),
                pool.numbers_left() == old(pool).numbers_left(),
                pool.used_bytes() <= old(pool).used_bytes(),
                forall|x: u64| pool.issued(x) == old(pool).issued(x),
                forall|x: u64| #[trigger] pool.holds(x) == (old(pool).holds(x) && !gone.contains(x)),
                forall|x: u64| gone.contains(x) ==> batches_own(all, x),
                forall|i: int, j: int|
                    0 <= i < outer.index() && 0 <= j < all[i].sprites@.len() ==> gone.contains(
                        (#[trigger] all[i].sprites@[j]).verts.id(),
                    ) && gone.contains(all[i].sprites@[j].indexes.id()),
        {
            let ghost b = outer.index() as int;
            let ghost these = batch.sprites@;
            assert(these == all[b].sprites@);
            for sprite in inner: batch.sprites
                invariant
                    inner.seq() == these,
                    these == all[b].sprites@,
                    0 <= b < all.len(),
                    pool.wf(),
                    pool.capacity_bytes() == old(pool).capacity_bytes(),
                    pool.numbers_left() == old(pool).numbers_left(),
                    pool.used_bytes() <= old(pool).used_bytes(),
                    forall|x: u64| pool.issued(x) == old(pool).issued(x),
                    forall|x: u64| #[trigger] pool.holds(x) == (old(pool).holds(x) && !gone.contains(x)),
                    forall|x: u64| gone.contains(x) ==> batches_own(all, x),
                    forall|i: int, j: int|
                        0 <= i < b && 0 <= j < all[i].sprites@.len() ==> gone.contains(
                            (#[trigger] all[i].sprites@[j]).verts.id(),
                        ) && gone.contains(all[i].sprites@[j].indexes.id()),
                    forall|j: int|
                        0 <= j < inner.index() ==> gone.contains((#[trigger] these[j]).verts.id())
                            && gone.contains(these[j].indexes.id()),
            {
                let ghost j = inner.index() as int;
                assert(sprite == all[b].sprites@[j]);
                proof {
                    gone = gone.insert(sprite.verts.id()).insert(sprite.indexes.id());
                    assert(sprite_owns(all[b].sprites@[j], sprite.verts.id()));
                    assert(sprite_owns(all[b].sprites@[j], sprite.indexes.id()));
                }
                pool.release(sprite.verts);
                pool.release(sprite.indexes);
            }
        }
        proof {
            assert forall|x: u64| batches_own(all, x) implies gone.contains(x) by {
                let (i, j) = choose|i: int, j: int|
                    0 <= i < all.len() && 0 <= j < all[i].sprites@.len() && sprite_owns(
                        #[trigger] all[i].sprites@[j],
                        x,
                    );
                assert(gone.contains(all[i].sprites@[j].verts.id()));
            }
        }
    }
}

proof fn lemma_batch_added(batches: Seq<SpriteBatch>, batch: SpriteBatch, x: u64)
    requires
        batch.sprites@.len() == 1,
    ensures
        batches_own(batches.push(batch), x) == (batches_own(batches, x) || sprite_owns(
            batch.sprites@[0],
            x,
        )),
{
    let more = batches.push(batch);
    if batches_own(more, x) {
        let (i, j) = choose|i: int, j: int|
            0 <= i < more.len() && 0 <= j < more[i].sprites@.len() && sprite_owns(
                #[trigger] more[i].sprites@[j],
                x,
            );
        if i < batches.len() {
            assert(more[i] == batches[i]);
            assert(sprite_owns(batches[i].sprites@[j], x));
        }
    }
    if batches_own(batches, x) {
        let (i, j) = choose|i: int, j: int|
            0 <= i < batches.len() && 0 <= j < batches[i].sprites@.len() && sprite_owns(
                #[trigger] batches[i].sprites@[j],
                x,
            );
        assert(more[i] == batches[i]);
        assert(sprite_owns(more[i].sprites@[j], x));
    }
    if sprite_owns(batch.sprites@[0], x) {
        assert(more[batches.len() as int] == batch);
        assert(sprite_owns(more[batches.len() as int].sprites@[0], x));
    }
}

/// Prepares the sprites of a frame for the GPU.
///
/// The sprites of the frame before are forgotten first. `layout_of` says,
/// for a sprite and the width and height of its image, how the sprite lies
/// on its image and in the world.
pub fn prepare_sprites<F: Fn(&ExtractedSprite, u32, u32) -> SpriteLayout>(
    images: &RenderAssets<GpuImage>,
    sprites: &Vec<ExtractedSprite>,
    batches: &mut SpriteBatches,
    pool: &mut LinearPool,
    layout_of: F,
) -> (r: Result<(), RenderError>)
    requires
        old(pool).wf(),
        forall|i: int, w: u32, h: u32|
            0 <= i < sprites@.len() ==> call_requires(layout_of, (&#[trigger] sprites@[i], w, h)),
    ensures
        final(pool).wf(),
        final(pool).capacity_bytes() == old(pool).capacity_bytes(),
        exists|cleared: LinearPool|
            batches_cleared(old(batches).batches@, *old(pool), cleared) && #[trigger] sprites_prepared(
                layout_of,
                images@,
                sprites@,
                cleared,
                final(batches).batches@,
                *final(pool),
                r,
            ),
{
    batches.clear(pool);
    let ghost cleared = *pool;
    let n: usize = sprites.len();
    let mut i: usize = 0;
    assert(sprites@.take(0) =~= Seq::empty());
    assert(0 * sprite_bytes() == 0) by (nonlinear_arith);
    while i < n
        invariant
            i <= n,
            n == sprites@.len(),
            pool.wf(),
            cleared.wf(),
            pool.capacity_bytes() == cleared.capacity_bytes(),
            cleared.capacity_bytes() == old(pool).capacity_bytes(),
            batches_cleared(old(batches).batches@, *old(pool), cleared),
            forall|j: int, w: u32, h: u32|
                0 <= j < sprites@.len() ==> call_requires(
                    layout_of,
                    (&#[trigger] sprites@[j], w, h),
                ),
            batches.batches@.len() == ready_sprites(images@, sprites@.take(i as int)).len(),
            forall|k: int|
                0 <= k < batches.batches@.len() ==> batch_made(
                    layout_of,
                    images@,
                    ready_sprites(images@, sprites@.take(i as int))[k],
                    #[trigger] batches.batches@[k],
                ),
            pool.used_bytes() == cleared.used_bytes() + batches.batches@.len() * sprite_bytes(),
            pool.numbers_left() == cleared.numbers_left() - 2 * batches.batches@.len(),
            forall|x: u64|
                pool.holds(x) == (cleared.holds(x) || batches_own(batches.batches@, x)),
            forall|x: u64|
                pool.issued(x) == (cleared.issued(x) || batches_own(batches.batches@, x)),
            forall|x: u64| batches_own(batches.batches@, x) ==> !cleared.issued(x),
        decreases n - i,
    {
        let ghost upto = sprites@.take(i + 1);
        let ghost before = sprites@.take(i as int);
        assert(upto.drop_last() =~= before);
        assert(upto.last() == sprites@[i as int]);
        let sprite = &sprites[i];
        match images.get(sprite.image) {
            None => {},
            Some(image) => {
                let layout = layout_of(sprite, image.width(), image.height());
                let ghost made = batches.batches@;
                let ghost sofar = *pool;
                match make_sprite(pool, sprite, layout) {
                    Ok(instance) => {
                        let mut only: Vec<SpriteInstance> = Vec::new();
                        only.push(instance);
                        let batch = SpriteBatch { image: sprite.image, sprites: only };
                        proof {
                            assert(batch.sprites@[0] == instance);
                            assert(sprite_made(*sprite, layout, batch.sprites@[0]));
                            assert(batch_made(layout_of, images@, *sprite, batch));
                            assert forall|x: u64|
                                batches_own(made.push(batch), x) == (batches_own(made, x)
                                    || sprite_owns(instance, x)) by {
                                lemma_batch_added(made, batch, x);
                            }
                            assert((made.len() + 1) * sprite_bytes() == made.len() * sprite_bytes()
                                + sprite_bytes()) by (nonlinear_arith);
                        }
                        batches.batches.push(batch);
                        proof {
                            let ready = ready_sprites(images@, upto);
                            assert(ready == ready_sprites(images@, before).push(*sprite));
                            assert forall|k: int| 0 <= k < batches.batches@.len() implies batch_made(
                                layout_of,
                                images@,
                                ready[k],
                                #[trigger] batches.batches@[k],
                            ) by {
                                if k < made.len() {
                                    assert(batches.batches@[k] == made[k]);
                                    assert(ready[k] == ready_sprites(images@, before)[k]);
                                }
                            }
                        }
                    },
                    Err(e) => {
                        proof {
                            lemma_ready_prefix(images@, sprites@, i as int + 1);
                            let all = ready_sprites(images@, sprites@);
                            let ready = ready_sprites(images@, upto);
                            assert(ready == ready_sprites(images@, before).push(*sprite));
                            assert(ready.len() <= all.len());
                            lemma_ready_prefix(images@, sprites@, i as int);
                            assert forall|k: int| 0 <= k < made.len() implies batch_made(
                                layout_of,
                                images@,
                                all[k],
                                #[trigger] batches.batches@[k],
                            ) by {
                                assert(all[k] == ready_sprites(images@, before)[k]);
                            }
                            assert(made.len() * sprite_bytes() + sprite_bytes() <= all.len()
                                * sprite_bytes()) by (nonlinear_arith)
                                requires
                                    made.len() + 1 <= all.len(),
                            ;
                            let room = cleared.used_bytes() + all.len() * sprite_bytes()
                                <= cleared.capacity_bytes() && cleared.numbers_left() >= 2
                                * all.len();
                            assert(!room);
                            assert(batches.batches@.len() < all.len());
                            assert(pool.used_bytes() == cleared.used_bytes()
                                + batches.batches@.len() * sprite_bytes());
                            assert forall|x: u64|
                                pool.holds(x) == (cleared.holds(x) || batches_own(
                                    batches.batches@,
                                    x,
                                )) by {
                                assert(pool.holds(x) == sofar.holds(x));
                            }
                            assert(forall|x: u64|
                                batches_own(batches.batches@, x) ==> !cleared.issued(x));
                            assert(sprites_prepared(
                                layout_of,
                                images@,
                                sprites@,
                                cleared,
                                batches.batches@,
                                *pool,
                                Err(RenderError::OutOfLinearMemory),
                            ));
                        }
                        return Err(RenderError::OutOfLinearMemory);
                    },
                }
            },
        }
        i += 1;
    }
    proof {
        assert(sprites@.take(n as int) =~= sprites@);
        let all = ready_sprites(images@, sprites@);
        let room = cleared.used_bytes() + all.len() * sprite_bytes() <= cleared.capacity_bytes()
            && cleared.numbers_left() >= 2 * all.len();
        assert(batches.batches@.len() == all.len());
        pool.lemma_within_capacity();
        assert(room);
        assert(forall|k: int|
            0 <= k < batches.batches@.len() ==> batch_made(
                layout_of,
                images@,
                all[k],
                #[trigger] batches.batches@[k],
            ));
        assert(sprites_prepared(
            layout_of,
            images@,
            sprites@,
            cleared,
            batches.batches@,
            *pool,
            Ok(()),
        ));
    }
    Ok(())
}

proof fn lemma_ready_prefix(images: Map<u128, GpuImage>, sprites: Seq<ExtractedSprite>, i: int)
    requires
        0 <= i <= sprites.len(),
    ensures
        forall|k: int|
            0 <= k < ready_sprites(images, sprites.take(i)).len() ==> #[trigger] ready_sprites(
                images,
                sprites,
            )[k] == ready_sprites(images, sprites.take(i))[k],
        ready_sprites(images, sprites.take(i)).len() <= ready_sprites(images, sprites).len(),
    decreases sprites.len() - i,
{
    if i < sprites.len() {
        assert(sprites.take(i + 1).drop_last() =~= sprites.take(i));
        lemma_ready_prefix(images, sprites, i + 1);
        assert forall|k: int|
            0 <= k < ready_sprites(images, sprites.take(i)).len() implies #[trigger] ready_sprites(
            images,
            sprites,
        )[k] == ready_sprites(images, sprites.take(i))[k] by {
            assert(ready_sprites(images, sprites.take(i + 1))[k] == ready_sprites(
                images,
                sprites.take(i),
            )[k]);
        }
    } else {
        assert(sprites.take(i) =~= sprites);
    }
}

} // verus!
