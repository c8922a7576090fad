//! Texture atlas: packs bitmaps into one large texture and remembers where
//! each texture key went.
use vstd::prelude::*;

use guillotiere::AtlasAllocator;

verus! {

#[verifier::external_type_specification]
#[verifier::external_body]
pub struct ExAtlasAllocator(AtlasAllocator);

/// The live allocations of an allocator, by serialized allocation id, each as
/// `(min_x, min_y, max_x, max_y)`.
pub uninterp spec fn allocated_rects(a: AtlasAllocator) -> Map<u32, (i32, i32, i32, i32)>;

/// The `(width, height)` an allocator was made with.
pub uninterp spec fn allocator_size(a: AtlasAllocator) -> (i32, i32);

/// An axis-aligned rectangle of texels; `max` is exclusive.
#[derive(Debug, Clone, Copy, PartialEq, Eq, Structural)]
pub struct Rect {
    pub min_x: i32,
    pub min_y: i32,
    pub max_x: i32,
    pub max_y: i32,
}

pub open spec fn tuple_rect(t: (i32, i32, i32, i32)) -> Rect {
    Rect { min_x: t.0, min_y: t.1, max_x: t.2, max_y: t.3 }
}

/// The two rectangles share no texel.
pub open spec fn disjoint(a: Rect, b: Rect) -> bool {
    a.max_x <= b.min_x || b.max_x <= a.min_x || a.max_y <= b.min_y || b.max_y <= a.min_y
}

/// `r` lies within a `w` by `h` texture.
pub open spec fn inside(r: Rect, w: int, h: int) -> bool {
    0 <= r.min_x && 0 <= r.min_y && r.max_x <= w && r.max_y <= h
}

/// `r` is exactly `w` by `h` texels.
pub open spec fn has_size(r: Rect, w: int, h: int) -> bool {
    r.max_x - r.min_x == w && r.max_y - r.min_y == h
}

/// Most allocations an atlas holds. guillotiere keeps 24 bits of node index in
/// an allocation id and one allocation adds at most four nodes; as nothing here
/// frees space, `1 + 4 * ATLAS_MAX_PLACEMENTS` nodes never exceed that index range.
pub const ATLAS_MAX_PLACEMENTS: usize = 0x3F_FFFF;

/// `after` is `before` plus a new allocation `id` of a `w` by `h` rectangle `t`
/// inside an atlas of size `size` and clear of every allocation in `before`.
pub open spec fn fresh_allocation(
    before: Map<u32, (i32, i32, i32, i32)>,
    after: Map<u32, (i32, i32, i32, i32)>,
    size: (i32, i32),
    id: u32,
    t: (i32, i32, i32, i32),
    w: int,
    h: int,
) -> bool {
    &&& !before.contains_key(id)
    &&& after == before.insert(id, t)
    &&& has_size(tuple_rect(t), w, h)
    &&& inside(tuple_rect(t), size.0 as int, size.1 as int)
    &&& forall|k: u32| #[trigger]
        before.contains_key(k) ==> disjoint(tuple_rect(t), tuple_rect(before[k]))
}

/// Relies on guillotiere's `AtlasAllocator::new`: an allocator of the given size
/// with nothing allocated (it panics unless both sides are positive).
#[verifier::external_body]
fn new_allocator(width: i32, height: i32) -> (r: AtlasAllocator)
    requires
        width > 0,
        height > 0,
    ensures
        allocated_rects(r) =~= Map::empty(),
        allocator_size(r) == (width, height),
{
    AtlasAllocator::new(guillotiere::size2(width, height))
}

/// Relies on guillotiere's `AtlasAllocator::allocate` under the default alignment
/// of one texel: `None` for an empty size or when no free rectangle fits, with the
/// allocator unchanged; otherwise a new id and a rectangle of exactly the size
/// asked for, inside the atlas and clear of every live allocation. With nothing
/// allocated the whole atlas is one free rectangle, so any size that fits in it
/// succeeds. The bound on live allocations keeps node indices within the 24 bits
/// an id holds (nothing here deallocates).
#[verifier::external_body]
fn allocate_rect(a: &mut AtlasAllocator, width: i32, height: i32) -> (r: Option<
    (u32, (i32, i32, i32, i32)),
>)
    requires
        allocated_rects(*old(a)).len() < ATLAS_MAX_PLACEMENTS,
    ensures
        allocator_size(*final(a)) == allocator_size(*old(a)),
        width <= 0 || height <= 0 ==> r is None,
        allocated_rects(*old(a)).len() == 0 && 0 < width <= allocator_size(*old(a)).0 && 0
            < height <= allocator_size(*old(a)).1 ==> r is Some,
        match r {
            None => allocated_rects(*final(a)) == allocated_rects(*old(a)),
            Some((id, t)) => fresh_allocation(
                allocated_rects(*old(a)),
                allocated_rects(*final(a)),
                allocator_size(*old(a)),
                id,
                t,
                width as int,
                height as int,
            ),
        },
{
    match a.allocate(guillotiere::size2(width, height)) {
        Some(al) => Some(
            (
                al.id.serialize(),
                (al.rectangle.min.x, al.rectangle.min.y, al.rectangle.max.x, al.rectangle.max.y),
            ),
        ),
        None => None,
    }
}

/// Relies on guillotiere's indexing of `AtlasAllocator` by `AllocId`: the rectangle
/// of a live allocation (it panics on an id that is not live). Under the bound on
/// live allocations every live id's node index fits its 24 bits.
#[verifier::external_body]
fn rect_of(a: &AtlasAllocator, id: u32) -> (r: (i32, i32, i32, i32))
    requires
        allocated_rects(*a).contains_key(id),
        allocated_rects(*a).len() <= ATLAS_MAX_PLACEMENTS,
    ensures
        r == allocated_rects(*a)[id],
{
    let rect = a[guillotiere::AllocId::deserialize(id)];
    (rect.min.x, rect.min.y, rect.max.x, rect.max.y)
}

/// Relies on guillotiere's `AtlasAllocator::size`: the size the allocator was made with.
#[verifier::external_body]
fn size_of(a: &AtlasAllocator) -> (r: (i32, i32))
    ensures
        r == allocator_size(*a),
{
    let s = a.size();
    (s.width, s.height)
}

/// Why a texture could not be placed.
#[derive(Debug, Clone, Copy, PartialEq, Eq, Structural)]
pub enum AtlasError {
    /// No free rectangle of the bitmap's size is left.
    AllocationFailed,
}

/// Places textures, by key, into one shared atlas texture. Space is never freed:
/// a key keeps its rectangle for the atlas's lifetime.
pub struct TextureAtlas {
    allocator: AtlasAllocator,
    keys: Vec<String>,
    ids: Vec<u32>,
    regions: Ghost<Map<Seq<char>, Rect>>,
}

impl View for TextureAtlas {
    type V = Map<Seq<char>, Rect>;

    /// The rectangle of every key placed so far.
    closed spec fn view(&self) -> Map<Seq<char>, Rect> {
        self.regions@
    }
}

impl TextureAtlas {
    pub closed spec fn width(&self) -> int {
        allocator_size(self.allocator).0 as int
    }

    pub closed spec fn height(&self) -> int {
        allocator_size(self.allocator).1 as int
    }

    pub closed spec fn wf(&self) -> bool {
        let allocs = allocated_rects(self.allocator);
        &&& self.keys@.len() == self.ids@.len()
        &&& self.keys@.len() <= ATLAS_MAX_PLACEMENTS
        &&& allocs.dom().finite() && allocs.len() == self.keys@.len()
        &&& self.regions@.dom().finite() && self.regions@.len() == self.keys@.len()
        &&& forall|i: int, j: int|
            0 <= i < self.keys@.len() && 0 <= j < self.keys@.len() && i != j
                ==> self.keys@[i]@ != self.keys@[j]@
        &&& forall|i: int|
            0 <= i < self.keys@.len() ==> {
                &&& allocs.contains_key(#[trigger] self.ids@[i])
                &&& self.regions@.contains_key(self.keys@[i]@)
                &&& self.regions@[self.keys@[i]@] == tuple_rect(allocs[self.ids@[i]])
            }
        &&& forall|k: Seq<char>| #[trigger]
            self.regions@.contains_key(k) ==> exists|i: int|
                0 <= i < self.keys@.len() && self.keys@[i]@ == k
        &&& forall|k1: Seq<char>, k2: Seq<char>|
            #![trigger self.regions@[k1], self.regions@[k2]]
            self.regions@.contains_key(k1) && self.regions@.contains_key(k2) && k1 != k2
                ==> disjoint(self.regions@[k1], self.regions@[k2])
        &&& forall|k: Seq<char>| #[trigger]
            self.regions@.contains_key(k) ==> inside(self.regions@[k], self.width(), self.height())
    }

    /// The number of keys placed so far.
    pub fn len(&self) -> (r: usize)
        requires
            self.wf(),
        ensures
            r == self@.len(),
    {
        self.keys.len()
    }

    /// An empty atlas of `width` by `height` texels.
    pub fn new(width: i32, height: i32) -> (r: TextureAtlas)
        requires
            width > 0,
            height > 0,
        ensures
            r.wf(),
            r@ == Map::<Seq<char>, Rect>::empty(),
            r.width() == width,
            r.height() == height,
    {
        TextureAtlas {
            allocator: new_allocator(width, height),
            keys: Vec::new(),
            ids: Vec::new(),
            regions: Ghost(Map::empty()),
        }
    }

    /// The atlas size as `(width, height)`.
    pub fn size(&self) -> (r: (i32, i32))
        ensures
            r.0 == self.width(),
            r.1 == self.height(),
    {
        size_of(&self.allocator)
    }

    /// Where `key` is among the placed keys, if anywhere.
    fn position_of(&self, key: &String) -> (r: Option<usize>)
        requires
            self.wf(),
        ensures
            match r {
                Some(i) => i < self.keys@.len() && self.keys@[i as int]@ == key@,
                None => !self@.contains_key(key@),
            },
    {
        let n = self.keys.len();
        let mut i: usize = 0;
        while i < n
            invariant
                n == self.keys@.len(),
                0 <= i <= n,
                forall|j: int| 0 <= j < i ==> self.keys@[j]@ != key@,
            decreases n - i,
        {
            if self.keys[i] == *key {
                return Some(i);
            }
            i = i + 1;
        }
        None
    }

    /// The rectangle of `key`, if it has been placed.
    pub fn get(&self, key: &String) -> (r: Option<Rect>)
        requires
            self.wf(),
        ensures
            r == (if self@.contains_key(key@) {
                Some(self@[key@])
            } else {
                None::<Rect>
            }),
    {
        match self.position_of(key) {
            Some(i) => {
                let t = rect_of(&self.allocator, self.ids[i]);
                Some(Rect { min_x: t.0, min_y: t.1, max_x: t.2, max_y: t.3 })
            },
            None => None,
        }
    }

    /// The rectangle of `key`, and whether it was placed by this call.
    ///
    /// A known key gives its rectangle back and changes nothing. A new key gets
    /// a fresh `width` by `height` rectangle clear of every other key's, or
    /// `AllocationFailed` when none is free, which changes nothing.
    pub fn allocate_or_get(&mut self, key: &String, width: i32, height: i32) -> (r: Result<
        (Rect, bool),
        AtlasError,
    >)
        requires
            old(self).wf(),
            old(self)@.len() < ATLAS_MAX_PLACEMENTS,
        ensures
            allocate_or_get_post(*old(self), key@, width as int, height as int, r, *final(self)),
    {
        match self.position_of(key) {
            Some(i) => {
                let t = rect_of(&self.allocator, self.ids[i]);
                Ok((Rect { min_x: t.0, min_y: t.1, max_x: t.2, max_y: t.3 }, false))
            },
            None => {
                let ghost before = allocated_rects(self.allocator);
                match allocate_rect(&mut self.allocator, width, height) {
                    None => Err(AtlasError::AllocationFailed),
                    Some((id, t)) => {
                        let rect = Rect { min_x: t.0, min_y: t.1, max_x: t.2, max_y: t.3 };
                        let ghost old_regions = self.regions@;
                        let ghost old_keys = self.keys@;
                        self.keys.push(key.clone());
                        self.ids.push(id);
                        self.regions = Ghost(old_regions.insert(key@, rect));
                        proof {
                            let allocs = allocated_rects(self.allocator);
                            assert forall|i: int| 0 <= i < old_keys.len() implies old_keys[i]@
                                != key@ by {
                                assert(old(self).ids@[i] == self.ids@[i]);
                            }
                            assert forall|i: int, j: int|
                                0 <= i < self.keys@.len() && 0 <= j < self.keys@.len() && i
                                    != j implies self.keys@[i]@ != self.keys@[j]@ by {
                                if i < old_keys.len() && j < old_keys.len() {
                                    assert(old_keys[i] == self.keys@[i]);
                                    assert(old_keys[j] == self.keys@[j]);
                                }
                            }
                            assert forall|i: int| 0 <= i < self.keys@.len() implies {
                                &&& allocs.contains_key(#[trigger] self.ids@[i])
                                &&& self.regions@.contains_key(self.keys@[i]@)
                                &&& self.regions@[self.keys@[i]@] == tuple_rect(
                                    allocs[self.ids@[i]],
                                )
                            } by {
                                if i < old_keys.len() {
                                    assert(old_keys[i]@ != key@);
                                    assert(old(self).ids@[i] == self.ids@[i]);
                                }
                            }
                            assert forall|k: Seq<char>| #[trigger]
                                self.regions@.contains_key(k) implies exists|i: int|
                                0 <= i < self.keys@.len() && self.keys@[i]@ == k by {
                                if k == key@ {
                                    assert(self.keys@[old_keys.len() as int]@ == k);
                                } else {
                                    let i = choose|i: int|
                                        0 <= i < old_keys.len() && old_keys[i]@ == k;
                                    assert(self.keys@[i]@ == k);
                                }
                            }
                            assert forall|k: Seq<char>| #[trigger]
                                old_regions.contains_key(k) implies disjoint(
                                rect,
                                old_regions[k],
                            ) by {
                                let i = choose|i: int|
                                    0 <= i < old_keys.len() && old_keys[i]@ == k;
                                assert(before.contains_key(old(self).ids@[i]));
                            }
                            assert(allocs.dom() =~= before.dom().insert(id));
                            assert(self.regions@.dom() =~= old_regions.dom().insert(key@));
                            assert(self.wf());
                        }
                        Ok((rect, true))
                    },
                }
            },
        }
    }
}

/// What `allocate_or_get(key, w, h)` does to an atlas `before`, giving `r` and
/// leaving `after`.
pub open spec fn allocate_or_get_post(
    before: TextureAtlas,
    key: Seq<char>,
    w: int,
    h: int,
    r: Result<(Rect, bool), AtlasError>,
    after: TextureAtlas,
) -> bool {
    &&& after.wf()
    &&& after.width() == before.width()
    &&& after.height() == before.height()
    &&& before@.contains_key(key) ==> r == Ok::<(Rect, bool), AtlasError>((before@[key], false))
        && after@ == before@
    &&& !before@.contains_key(key) ==> match r {
        Ok((rect, is_new)) => {
            &&& is_new
            &&& after@ == before@.insert(key, rect)
            &&& has_size(rect, w, h)
            &&& inside(rect, before.width(), before.height())
            &&& forall|k: Seq<char>| #[trigger]
                before@.contains_key(k) ==> disjoint(rect, before@[k])
        },
        Err(_) => after@ == before@,
    }
    &&& !before@.contains_key(key) && (w <= 0 || h <= 0) ==> r is Err
    &&& before@.len() == 0 && 0 < w <= before.width() && 0 < h <= before.height() ==> r is Ok
}

/// Asking twice for the same key gives the same rectangle, and only the first
/// request places (and so uploads) the texture.
pub proof fn lemma_same_key_twice(
    a0: TextureAtlas,
    a1: TextureAtlas,
    a2: TextureAtlas,
    key: Seq<char>,
    w: int,
    h: int,
    r1: Result<(Rect, bool), AtlasError>,
    r2: Result<(Rect, bool), AtlasError>,
)
    requires
        a0.wf(),
        allocate_or_get_post(a0, key, w, h, r1, a1),
        allocate_or_get_post(a1, key, w, h, r2, a2),
        r1 is Ok,
    ensures
        r2 == Ok::<(Rect, bool), AtlasError>((r1->Ok_0.0, false)),
        r1->Ok_0.1 == !a0@.contains_key(key),
        a2@ == a1@,
{
    if !a0@.contains_key(key) {
        assert(a1@.contains_key(key));
        assert(a1@[key] == r1->Ok_0.0);
    }
}

/// Two distinct keys placed in a well-formed atlas never overlap.
pub proof fn lemma_distinct_keys_disjoint(a: TextureAtlas, k1: Seq<char>, k2: Seq<char>)
    requires
        a.wf(),
        a@.contains_key(k1),
        a@.contains_key(k2),
        k1 != k2,
    ensures
        disjoint(a@[k1], a@[k2]),
{
}

} // verus!
