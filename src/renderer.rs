//! Sprite batching: one record per visible entity in a flat array, kept in step
//! with transform and texture changes, and split into draw calls no larger than
//! the per-call limit.
use vstd::prelude::*;

use std::collections::HashMap;

use vstd::arithmetic::div_mod::{
    lemma_fundamental_div_mod, lemma_fundamental_div_mod_converse, lemma_mod_pos_bound,
};

use crate::atlas::{allocate_or_get_post, AtlasError, Rect, TextureAtlas, ATLAS_MAX_PLACEMENTS};
use crate::transform::Transform;

verus! {

broadcast use vstd::std_specs::hash::group_hash_axioms;

/// Largest number of sprites one draw call may hold.
pub const SPRITE_PER_DRAW_CALL_MAX_COUNT: usize = 15360;

/// Width and height of a sprite, in thousandths.
#[derive(Debug, Clone, Copy, PartialEq, Eq, Structural)]
pub struct Size {
    pub width: i32,
    pub height: i32,
}

/// The key of a texture's bitmap, such as the address it was loaded from.
#[derive(Debug, Clone)]
pub struct Texture {
    pub id: String,
}

/// What an entity needs to be drawn as a sprite.
#[derive(Debug, Clone)]
pub struct Sprite {
    pub texture: Texture,
    pub size: Size,
    pub transform: Transform,
}

/// The per-sprite data handed to the GPU: where the sprite is, how large it
/// is, and which texels of the atlas it shows.
#[derive(Debug, Clone, Copy, PartialEq, Eq, Structural)]
pub struct SpriteRecord {
    pub transform: Transform,
    pub size: Size,
    pub uv: Rect,
}

/// One draw call: `count` records from index `first`, uploaded first when `upload` holds.
#[derive(Debug, Clone, Copy, PartialEq, Eq, Structural)]
pub struct DrawCall {
    pub first: usize,
    pub count: usize,
    pub upload: bool,
}

/// Number of batches of at most `m` that `n` records need past the first limit.
pub open spec fn batch_count(n: int, m: int) -> int {
    if n % m == 0 {
        n / m
    } else {
        n / m + 1
    }
}

/// The draw calls for `n` records with at most `m` per call. Up to `m` records
/// go in one call, uploaded only when the records changed; more are split into
/// full batches of `m` and a last batch of the rest, each uploaded before it is drawn.
pub open spec fn draw_plan(n: int, m: int, dirty: bool) -> Seq<DrawCall> {
    if n <= m {
        seq![DrawCall { first: 0, count: n as usize, upload: dirty }]
    } else {
        Seq::new(
            batch_count(n, m) as nat,
            |i: int|
                DrawCall {
                    first: (i * m) as usize,
                    count: (if n - i * m < m {
                        n - i * m
                    } else {
                        m
                    }) as usize,
                    upload: true,
                },
        )
    }
}

/// Splits `n` records into draw calls of at most `m`; see `draw_plan`.
pub fn plan_draw_calls(n: usize, m: usize, dirty: bool) -> (r: Vec<DrawCall>)
    requires
        m > 0,
    ensures
        r@ == draw_plan(n as int, m as int, dirty),
{
    let mut calls: Vec<DrawCall> = Vec::new();
    if n <= m {
        calls.push(DrawCall { first: 0, count: n, upload: dirty });
        assert(calls@ =~= draw_plan(n as int, m as int, dirty));
        return calls;
    }
    let full: usize = n / m;
    let rem: usize = n % m;
    proof {
        lemma_fundamental_div_mod(n as int, m as int);
        lemma_mod_pos_bound(n as int, m as int);
    }
    let mut i: usize = 0;
    while i < full
        invariant
            n == m * full + rem,
            0 <= rem < m,
            m > 0,
            full == n / m,
            rem == n % m,
            0 <= i <= full,
            calls@.len() == i,
            forall|j: int|
                0 <= j < i ==> #[trigger] calls@[j] == (DrawCall {
                    first: (j * m) as usize,
                    count: m,
                    upload: true,
                }),
        decreases full - i,
    {
        assert((i + 1) * m <= full * m) by (nonlinear_arith)
            requires
                i + 1 <= full,
                m > 0,
        ;
        assert(i * m + m == (i + 1) * m) by (nonlinear_arith);
        assert(i * m <= n) by (nonlinear_arith)
            requires
                i + 1 <= full,
                n == m * full + rem,
                rem >= 0,
                m > 0,
        ;
        calls.push(DrawCall { first: i * m, count: m, upload: true });
        i = i + 1;
    }
    if rem != 0 {
        assert(full * m == m * full) by (nonlinear_arith);
        calls.push(DrawCall { first: full * m, count: rem, upload: true });
    }
    proof {
        let plan = draw_plan(n as int, m as int, dirty);
        assert(plan.len() == calls@.len());
        assert forall|j: int| 0 <= j < calls@.len() implies calls@[j] == plan[j] by {
            if j < full {
                assert((j + 1) * m <= full * m) by (nonlinear_arith)
                    requires
                        j + 1 <= full,
                        m > 0,
                ;
                assert(j * m + m == (j + 1) * m) by (nonlinear_arith);
                assert(full * m == m * full) by (nonlinear_arith);
            } else {
                assert(j == full);
                assert(full * m == m * full) by (nonlinear_arith);
            }
        }
        assert(calls@ =~= plan);
    }
    calls
}

/// However many records there are, at least one, the plan makes `ceil(n / m)`
/// draw calls.
pub proof fn lemma_draw_call_count(n: int, m: int, dirty: bool)
    requires
        n >= 1,
        m >= 1,
    ensures
        draw_plan(n, m, dirty).len() == (n + m - 1) / m,
{
    if n <= m {
        lemma_fundamental_div_mod_converse(n + m - 1, m, 1, n - 1);
    } else {
        lemma_fundamental_div_mod(n, m);
        lemma_mod_pos_bound(n, m);
        let q = n / m;
        let r = n % m;
        if r == 0 {
            assert(n + m - 1 == q * m + (m - 1)) by (nonlinear_arith)
                requires
                    n == m * q + r,
                    r == 0,
            ;
            lemma_fundamental_div_mod_converse(n + m - 1, m, q, m - 1);
        } else {
            assert(n + m - 1 == (q + 1) * m + (r - 1)) by (nonlinear_arith)
                requires
                    n == m * q + r,
            ;
            lemma_fundamental_div_mod_converse(n + m - 1, m, q + 1, r - 1);
        }
    }
}

/// The CPU side of the sprite renderer: the record array, which entity owns
/// which record, whether the array changed since the last upload, and the atlas.
pub struct SpriteRenderer {
    sprite_data: Vec<SpriteRecord>,
    entities_to_index: HashMap<u64, usize>,
    needs_upload: bool,
    atlas: TextureAtlas,
}

impl SpriteRenderer {
    pub closed spec fn records(&self) -> Seq<SpriteRecord> {
        self.sprite_data@
    }

    /// Index of each known entity's record.
    pub closed spec fn index(&self) -> Map<u64, usize> {
        self.entities_to_index@
    }

    pub closed spec fn dirty(&self) -> bool {
        self.needs_upload
    }

    pub closed spec fn atlas(&self) -> TextureAtlas {
        self.atlas
    }

    pub closed spec fn wf(&self) -> bool {
        &&& self.atlas.wf()
        &&& forall|e: u64| #[trigger]
            self.entities_to_index@.contains_key(e) ==> self.entities_to_index@[e]
                < self.sprite_data@.len()
        &&& forall|e1: u64, e2: u64|
            #![trigger self.entities_to_index@[e1], self.entities_to_index@[e2]]
            self.entities_to_index@.contains_key(e1) && self.entities_to_index@.contains_key(e2)
                && e1 != e2 ==> self.entities_to_index@[e1] != self.entities_to_index@[e2]
    }

    /// The texels a record shows before it is given a texture: the whole atlas.
    pub open spec fn whole_atlas(&self) -> Rect {
        Rect { min_x: 0, min_y: 0, max_x: self.atlas().width() as i32, max_y: self.atlas().height() as i32 }
    }

    /// A renderer with no sprites and an empty `atlas_width` by `atlas_height` atlas.
    pub fn new(atlas_width: i32, atlas_height: i32) -> (r: SpriteRenderer)
        requires
            atlas_width > 0,
            atlas_height > 0,
        ensures
            r.wf(),
            r.records().len() == 0,
            r.index() == Map::<u64, usize>::empty(),
            r.dirty(),
            r.atlas()@ == Map::<Seq<char>, Rect>::empty(),
            r.atlas().width() == atlas_width,
            r.atlas().height() == atlas_height,
    {
        SpriteRenderer {
            sprite_data: Vec::new(),
            entities_to_index: HashMap::new(),
            needs_upload: true,
            atlas: TextureAtlas::new(atlas_width, atlas_height),
        }
    }

    /// The atlas size as `(width, height)`.
    pub fn atlas_size(&self) -> (r: (i32, i32))
        ensures
            r.0 == self.atlas().width(),
            r.1 == self.atlas().height(),
    {
        self.atlas.size()
    }

    /// The number of textures placed in the atlas.
    pub fn texture_count(&self) -> (r: usize)
        requires
            self.wf(),
        ensures
            r == self.atlas()@.len(),
    {
        self.atlas.len()
    }

    /// The records, in index order, for upload.
    pub fn sprite_data(&self) -> (r: &Vec<SpriteRecord>)
        ensures
            r@ == self.records(),
    {
        &self.sprite_data
    }

    /// The index of `entity`'s record, if it has one.
    pub fn index_of(&self, entity: u64) -> (r: Option<usize>)
        requires
            self.wf(),
        ensures
            r matches Some(i) ==> i < self.records().len(),
            r == (if self.index().contains_key(entity) {
                Some(self.index()[entity])
            } else {
                None::<usize>
            }),
    {
        match self.entities_to_index.get(&entity) {
            Some(i) => Some(*i),
            None => None,
        }
    }

    /// Records a new transform or size for `entity`: its record is overwritten in
    /// place, or, for an entity seen for the first time, a record showing the whole
    /// atlas is appended and the entity gets its index.
    pub fn update_sprite_transform(&mut self, entity: u64, transform: Transform, size: Size)
        requires
            old(self).wf(),
            old(self).records().len() < usize::MAX,
        ensures
            final(self).wf(),
            final(self).dirty(),
            final(self).atlas() == old(self).atlas(),
            final(self).index().contains_key(entity),
            final(self).index()[entity] < final(self).records().len(),
            old(self).index().contains_key(entity) ==> {
                let i = old(self).index()[entity] as int;
                &&& final(self).index() == old(self).index()
                &&& final(self).records() == old(self).records().update(
                    i,
                    SpriteRecord { transform, size, ..old(self).records()[i] },
                )
            },
            !old(self).index().contains_key(entity) ==> {
                &&& final(self).index() == old(self).index().insert(
                    entity,
                    old(self).records().len() as usize,
                )
                &&& final(self).records() == old(self).records().push(
                    SpriteRecord { transform, size, uv: old(self).whole_atlas() },
                )
            },
    {
        match self.entities_to_index.get(&entity) {
            Some(i) => {
                let i = *i;
                let old_record = self.sprite_data[i];
                self.sprite_data.set(i, SpriteRecord { transform, size, ..old_record });
            },
            None => {
                let (w, h) = self.atlas.size();
                let index = self.sprite_data.len();
                self.sprite_data.push(
                    SpriteRecord {
                        transform,
                        size,
                        uv: Rect { min_x: 0, min_y: 0, max_x: w, max_y: h },
                    },
                );
                self.entities_to_index.insert(entity, index);
            },
        }
        self.needs_upload = true;
    }

    /// Gives `entity`'s sprite the texture `key`, whose bitmap is `width` by
    /// `height` texels, placing it in the atlas if it is not there yet.
    ///
    /// Returns whether the texture was placed by this call, in which case its
    /// pixels still have to be copied into the atlas. When the atlas has no room
    /// the record is left as it was.
    pub fn update_sprite_texture(&mut self, entity: u64, key: &String, width: i32, height: i32) -> (r:
        Result<bool, AtlasError>)
        requires
            old(self).wf(),
            old(self).index().contains_key(entity),
            old(self).atlas()@.len() < ATLAS_MAX_PLACEMENTS,
        ensures
            final(self).wf(),
            final(self).index() == old(self).index(),
            allocate_or_get_post(
                old(self).atlas(),
                key@,
                width as int,
                height as int,
                match r {
                    Ok(placed) => Ok((final(self).atlas()@[key@], placed)),
                    Err(e) => Err(e),
                },
                final(self).atlas(),
            ),
            match r {
                Ok(_) => {
                    let i = old(self).index()[entity] as int;
                    &&& final(self).dirty()
                    &&& final(self).records() == old(self).records().update(
                        i,
                        SpriteRecord { uv: final(self).atlas()@[key@], ..old(self).records()[i] },
                    )
                },
                Err(_) => final(self).records() == old(self).records() && final(self).dirty()
                    == old(self).dirty(),
            },
    {
        let i = *self.entities_to_index.get(&entity).unwrap();
        match self.atlas.allocate_or_get(key, width, height) {
            Ok((rect, placed)) => {
                let old_record = self.sprite_data[i];
                self.sprite_data.set(i, SpriteRecord { uv: rect, ..old_record });
                self.needs_upload = true;
                Ok(placed)
            },
            Err(e) => Err(e),
        }
    }

    /// The draw calls for the current records; see `draw_plan`.
    pub fn draw_calls(&self) -> (r: Vec<DrawCall>)
        ensures
            r@ == draw_plan(
                self.records().len() as int,
                SPRITE_PER_DRAW_CALL_MAX_COUNT as int,
                self.dirty(),
            ),
    {
        plan_draw_calls(self.sprite_data.len(), SPRITE_PER_DRAW_CALL_MAX_COUNT, self.needs_upload)
    }

    /// Notes that the records were uploaded.
    pub fn mark_uploaded(&mut self)
        ensures
            !final(self).dirty(),
            final(self).records() == old(self).records(),
            final(self).index() == old(self).index(),
            final(self).atlas() == old(self).atlas(),
            old(self).wf() ==> final(self).wf(),
    {
        self.needs_upload = false;
    }
}

} // verus!
