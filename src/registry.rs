//! The texture registry: one batch of image loads, the readiness gate over it,
//! and the one-shot publication of the atlas and its lookup table.
use vstd::prelude::*;

use crate::load_state::{all_loaded, any_failed, LoadState};
use crate::naming::{image_name, name_of};

verus! {

/// Identity of one requested asset load.
#[derive(Clone, Copy, Debug, PartialEq, Eq, Structural)]
pub struct LoadHandle {
    pub id: u64,
}

/// A sub-rectangle of the atlas surface, in pixels, from `min` (inclusive) to
/// `max` (exclusive).
#[derive(Clone, Copy, Debug, PartialEq, Eq, Structural)]
pub struct Rect {
    pub min_x: u32,
    pub min_y: u32,
    pub max_x: u32,
    pub max_y: u32,
}

/// A packed atlas: the handle of its surface, the surface's size, and its
/// regions, each addressed by its position in `regions`.
#[derive(Clone, Debug)]
pub struct Atlas {
    pub handle: u64,
    pub width: u32,
    pub height: u32,
    pub regions: Vec<Rect>,
}

/// What the packer made of a batch: the atlas, and for each image of the batch,
/// in the batch's order, the index of its region.
#[derive(Clone, Debug)]
pub struct Packing {
    pub atlas: Atlas,
    pub indices: Vec<usize>,
}

/// Why a batch could not be published.
#[derive(Clone, Debug)]
pub enum AtlasBuildError {
    /// The asset whose name is given failed to load.
    AssetLoadFailed(String),
    /// Two assets of the batch have the name given.
    DuplicateName(String),
    /// The packer found no arrangement, or gave indices that do not resolve
    /// each image to a region of its own.
    PackingFailed,
}

/// One entry of the lookup table: a name and the index of its atlas region.
#[derive(Clone, Debug)]
pub struct LookupEntry {
    pub name: String,
    pub index: u32,
}

/// What a finalize attempt did without error.
#[derive(Clone, Debug)]
pub enum Finalize {
    /// Nothing: no batch is pending, or it is still loading.
    Skipped,
    /// The atlas and its table were published; each of these handles' images
    /// was consumed and is to be released, once.
    Published(Vec<LoadHandle>),
}

/// Whether a scheduled step is to run in this tick.
#[derive(Clone, Copy, Debug, PartialEq, Eq, Structural)]
pub enum ShouldRun {
    Yes,
    No,
}

/// The atlas before publication: no surface and no region.
pub open spec fn atlas_is_empty(a: Atlas) -> bool {
    a.handle == 0 && a.width == 0 && a.height == 0 && a.regions@.len() == 0
}

/// The derived names of the images at `paths`.
pub open spec fn names_of(paths: Seq<String>) -> Seq<Seq<char>> {
    Seq::new(paths.len(), |i: int| name_of(paths[i]@))
}

/// No two of `names` are equal.
pub open spec fn names_unique(names: Seq<Seq<char>>) -> bool {
    forall|i: int, j: int| 0 <= i < j < names.len() ==> names[i] != names[j]
}

/// `i` is the first position whose load failed.
pub open spec fn is_first_failure(states: Seq<LoadState>, i: int) -> bool {
    &&& 0 <= i < states.len()
    &&& states[i] == LoadState::Failed
    &&& forall|k: int| 0 <= k < i ==> states[k] != LoadState::Failed
}

/// `j` is the first position whose name occurs earlier in `names`.
pub open spec fn is_first_duplicate(names: Seq<Seq<char>>, j: int) -> bool {
    &&& 0 <= j < names.len()
    &&& exists|k: int| 0 <= k < j && names[k] == names[j]
    &&& names_unique(names.subrange(0, j))
}

/// The region lies inside a surface of the given size and is not empty.
pub open spec fn region_inside(r: Rect, width: u32, height: u32) -> bool {
    r.min_x < r.max_x <= width && r.min_y < r.max_y <= height
}

/// The two regions share no pixel.
pub open spec fn regions_disjoint(a: Rect, b: Rect) -> bool {
    a.max_x <= b.min_x || b.max_x <= a.min_x || a.max_y <= b.min_y || b.max_y <= a.min_y
}

/// Every region of the atlas lies inside its surface, and no two overlap.
pub open spec fn atlas_layout_valid(a: Atlas) -> bool {
    &&& forall|i: int| 0 <= i < a.regions@.len() ==> region_inside(a.regions@[i], a.width, a.height)
    &&& forall|i: int, j: int|
        0 <= i < j < a.regions@.len() ==> regions_disjoint(a.regions@[i], a.regions@[j])
}

/// The region indices are `n`, one per image, each within the atlas and
/// within `u32`, and no two equal; and the atlas's regions lie inside it
/// without overlapping.
pub open spec fn valid_packing(p: Packing, n: nat) -> bool {
    &&& atlas_layout_valid(p.atlas)
    &&& p.indices@.len() == n
    &&& forall|i: int|
        0 <= i < n ==> p.indices@[i] < p.atlas.regions@.len() && p.indices@[i] <= u32::MAX
    &&& forall|i: int, j: int| 0 <= i < j < n ==> p.indices@[i] != p.indices@[j]
}

/// The table published for `names` and the packer's `indices`, in batch order.
pub open spec fn table_of(names: Seq<Seq<char>>, indices: Seq<usize>) -> Seq<(Seq<char>, u32)> {
    Seq::new(names.len(), |i: int| (names[i], indices[i] as u32))
}

/// The packer ran, and its result resolves each of `n` images to a region of its own.
pub open spec fn packing_fits(packing: Option<Packing>, n: nat) -> bool {
    packing matches Some(p) && valid_packing(p, n)
}

/// A published table: names unique, indices distinct and within the atlas.
pub open spec fn table_valid(t: Seq<(Seq<char>, u32)>, regions: nat) -> bool {
    &&& forall|i: int, j: int| 0 <= i < j < t.len() ==> t[i].0 != t[j].0 && t[i].1 != t[j].1
    &&& forall|i: int| 0 <= i < t.len() ==> t[i].1 < regions
}

/// The characters of each string.
pub open spec fn views_of(v: Seq<String>) -> Seq<Seq<char>> {
    v.map_values(|s: String| s@)
}

/// The first position whose load failed, if any.
fn first_failure(states: &Vec<LoadState>) -> (r: Option<usize>)
    ensures
        r matches Some(i) ==> is_first_failure(states@, i as int),
        r is None ==> !any_failed(states@),
{
    let mut i: usize = 0;
    while i < states.len()
        invariant
            i <= states@.len(),
            forall|k: int| 0 <= k < i ==> states@[k] != LoadState::Failed,
        decreases states.len() - i,
    {
        if states[i] == LoadState::Failed {
            return Some(i);
        }
        i = i + 1;
    }
    None
}

/// Whether every asset of the batch is loaded.
fn every_loaded(states: &Vec<LoadState>) -> (r: bool)
    ensures
        r == all_loaded(states@),
{
    let mut i: usize = 0;
    while i < states.len()
        invariant
            i <= states@.len(),
            forall|k: int| 0 <= k < i ==> states@[k] == LoadState::Loaded,
        decreases states.len() - i,
    {
        if states[i] != LoadState::Loaded {
            return false;
        }
        i = i + 1;
    }
    true
}

/// The derived names of the images at `paths`, in order.
pub fn derive_names(paths: &Vec<String>) -> (r: Vec<String>)
    ensures
        views_of(r@) == names_of(paths@),
{
    let mut r: Vec<String> = Vec::new();
    let mut i: usize = 0;
    while i < paths.len()
        invariant
            i <= paths@.len(),
            r@.len() == i,
            forall|k: int| 0 <= k < i ==> r@[k]@ == name_of(paths@[k]@),
        decreases paths.len() - i,
    {
        let n = image_name(paths[i].as_str());
        r.push(n);
        i = i + 1;
    }
    assert(views_of(r@) =~= names_of(paths@));
    r
}

/// The first position whose name occurs earlier in `names`, if any.
pub fn first_duplicate(names: &Vec<String>) -> (r: Option<usize>)
    ensures
        r matches Some(j) ==> is_first_duplicate(views_of(names@), j as int),
        r is None ==> names_unique(views_of(names@)),
{
    let ghost v = views_of(names@);
    let mut j: usize = 0;
    while j < names.len()
        invariant
            j <= names@.len(),
            v == views_of(names@),
            names_unique(v.subrange(0, j as int)),
        decreases names.len() - j,
    {
        let mut k: usize = 0;
        while k < j
            invariant
                k <= j < names@.len(),
                v == views_of(names@),
                names_unique(v.subrange(0, j as int)),
                forall|m: int| 0 <= m < k ==> v[m] != v[j as int],
            decreases j - k,
        {
            if names[k] == names[j] {
                assert(v[k as int] == v[j as int]);
                return Some(j);
            }
            k = k + 1;
        }
        assert(names_unique(v.subrange(0, j + 1))) by {
            let w = v.subrange(0, j + 1);
            assert forall|a: int, b: int| 0 <= a < b < j + 1 implies #[trigger] w[a] != #[trigger] w[b] by {
                if b < j {
                    assert(v.subrange(0, j as int)[a] != v.subrange(0, j as int)[b]);
                }
            }
        }
        j = j + 1;
    }
    assert(v.subrange(0, names@.len() as int) =~= v);
    None
}

/// Whether every region of the atlas lies inside its surface, with no two
/// overlapping.
pub fn check_layout(a: &Atlas) -> (r: bool)
    ensures
        r == atlas_layout_valid(*a),
{
    let mut i: usize = 0;
    while i < a.regions.len()
        invariant
            i <= a.regions@.len(),
            forall|k: int| 0 <= k < i ==> region_inside(a.regions@[k], a.width, a.height),
            forall|k: int, m: int| 0 <= k < m < i ==> regions_disjoint(a.regions@[k], a.regions@[m]),
        decreases a.regions.len() - i,
    {
        let r = a.regions[i];
        if !(r.min_x < r.max_x && r.max_x <= a.width && r.min_y < r.max_y && r.max_y <= a.height) {
            assert(!region_inside(a.regions@[i as int], a.width, a.height));
            return false;
        }
        let mut k: usize = 0;
        while k < i
            invariant
                k <= i < a.regions@.len(),
                r == a.regions@[i as int],
                forall|m: int| 0 <= m < k ==> regions_disjoint(a.regions@[m], r),
            decreases i - k,
        {
            let q = a.regions[k];
            if !(q.max_x <= r.min_x || r.max_x <= q.min_x || q.max_y <= r.min_y || r.max_y
                <= q.min_y) {
                assert(!regions_disjoint(a.regions@[k as int], a.regions@[i as int]));
                return false;
            }
            k = k + 1;
        }
        i = i + 1;
    }
    true
}

/// Whether the packer's result resolves each of `n` images to a region of its
/// own, in an atlas whose regions lie inside it without overlapping.
pub fn check_packing(p: &Packing, n: usize) -> (r: bool)
    ensures
        r == valid_packing(*p, n as nat),
{
    if !check_layout(&p.atlas) {
        return false;
    }
    if p.indices.len() != n {
        return false;
    }
    let mut i: usize = 0;
    while i < n
        invariant
            i <= n,
            p.indices@.len() == n,
            atlas_layout_valid(p.atlas),
            forall|a: int|
                0 <= a < i ==> p.indices@[a] < p.atlas.regions@.len() && p.indices@[a] <= u32::MAX,
            forall|a: int, b: int| 0 <= a < b < i ==> p.indices@[a] != p.indices@[b],
        decreases n - i,
    {
        let x = p.indices[i];
        if x >= p.atlas.regions.len() || x > 4294967295 {
            return false;
        }
        let mut k: usize = 0;
        while k < i
            invariant
                k <= i < n,
                p.indices@.len() == n,
                x == p.indices@[i as int],
                forall|a: int| 0 <= a < k ==> p.indices@[a] != x,
            decreases i - k,
        {
            if p.indices[k] == x {
                return false;
            }
            k = k + 1;
        }
        i = i + 1;
    }
    true
}

/// The registry of textures: the pending batch, the lookup table from image
/// name to atlas region, and the atlas.
pub struct Textures {
    handles: Option<Vec<LoadHandle>>,
    lookup_table: Vec<LookupEntry>,
    texture_atlas: Atlas,
    published: bool,
}

impl Textures {
    /// The handles of the batch in flight, if any.
    pub closed spec fn pending(&self) -> Option<Seq<LoadHandle>> {
        match self.handles {
            Some(h) => Some(h@),
            None => None,
        }
    }

    /// The lookup table, as (name, region index) pairs.
    pub closed spec fn table(&self) -> Seq<(Seq<char>, u32)> {
        self.lookup_table@.map_values(|e: LookupEntry| (e.name@, e.index))
    }

    /// The atlas held by the registry.
    pub closed spec fn atlas(&self) -> Atlas {
        self.texture_atlas
    }

    /// Whether the atlas and its table have been published.
    pub closed spec fn is_published(&self) -> bool {
        self.published
    }

    /// The registry is well formed: nothing is published while a batch is
    /// pending or before one resolved, and a published table is valid.
    pub closed spec fn wf(&self) -> bool {
        &&& self.published ==> self.handles is None
        &&& !self.published ==> self.lookup_table@.len() == 0 && atlas_is_empty(self.texture_atlas)
        &&& self.published ==> table_valid(self.table(), self.texture_atlas.regions@.len())
    }

    /// A registry with no batch, no table and an empty atlas.
    pub fn new() -> (r: Textures)
        ensures
            r.wf(),
            r.pending() is None,
            !r.is_published(),
            r.table().len() == 0,
            atlas_is_empty(r.atlas()),
    {
        Textures {
            handles: None,
            lookup_table: Vec::new(),
            texture_atlas: Atlas { handle: 0, width: 0, height: 0, regions: Vec::new() },
            published: false,
        }
    }

    /// Whether no batch is pending.
    pub fn is_ready(&self) -> (r: bool)
        ensures
            r == (self.pending() is None),
    {
        self.handles.is_none()
    }

    /// Records the batch of handles just requested from the loader.
    pub fn begin_load(&mut self, handles: Vec<LoadHandle>)
        requires
            old(self).wf(),
            old(self).pending() is None,
            !old(self).is_published(),
        ensures
            final(self).wf(),
            final(self).pending() == Some(handles@),
            !final(self).is_published(),
            final(self).table() == old(self).table(),
            final(self).atlas() == old(self).atlas(),
    {
        self.handles = Some(handles);
    }
    /// One finalize attempt, from what the loader reports of the pending batch
    /// (`states` and source `paths`, in the batch's order) and what the packer
    /// made of it, if it ran.
    ///
    /// Nothing happens while no batch is pending or while loads are under
    /// way. A failed load, a repeated name or an unusable packing is reported
    /// and leaves the registry as it was. Otherwise the table maps each
    /// image's name to its region, the atlas is stored, the batch is no longer
    /// pending, and the consumed handles are handed back for release.
    pub fn try_finalize(
        &mut self,
        states: &Vec<LoadState>,
        paths: &Vec<String>,
        packing: Option<Packing>,
    ) -> (r: Result<Finalize, AtlasBuildError>)
        requires
            old(self).wf(),
            old(self).pending() matches Some(h) ==> states@.len() == h.len() && paths@.len()
                == h.len(),
        ensures
            final(self).wf(),
            old(self).pending() is None ==> *final(self) == *old(self) && (r matches Ok(
                Finalize::Skipped,
            )),
            old(self).pending() is Some && any_failed(states@) ==> *final(self) == *old(self) && (
            r matches Err(AtlasBuildError::AssetLoadFailed(n)) && exists|i: int|
                is_first_failure(states@, i) && n@ == names_of(paths@)[i]),
            old(self).pending() is Some && !any_failed(states@) && !all_loaded(states@) ==> *final(self)
                == *old(self) && (r matches Ok(Finalize::Skipped)),
            old(self).pending() is Some && all_loaded(states@) && !names_unique(names_of(paths@))
                ==> *final(self) == *old(self) && (r matches Err(AtlasBuildError::DuplicateName(n))
                && exists|j: int| is_first_duplicate(names_of(paths@), j) && n@ == names_of(
                paths@,
            )[j]),
            old(self).pending() is Some && all_loaded(states@) && names_unique(names_of(paths@))
                && !packing_fits(packing, paths@.len()) ==> *final(self) == *old(self) && (r matches Err(
                AtlasBuildError::PackingFailed,
            )),
            old(self).pending() is Some && all_loaded(states@) && names_unique(names_of(paths@))
                && packing_fits(packing, paths@.len()) ==> (r matches Ok(Finalize::Published(rel))
                && Some(rel@) == old(self).pending()) && final(self).pending() is None
                && final(self).is_published() && final(self).table() == table_of(
                names_of(paths@),
                packing->Some_0.indices@,
            ) && final(self).atlas() == packing->Some_0.atlas,
    {
        if self.handles.is_none() {
            return Ok(Finalize::Skipped);
        }
        match first_failure(states) {
            Some(i) => {
                let n = image_name(paths[i].as_str());
                return Err(AtlasBuildError::AssetLoadFailed(n));
            },
            None => {},
        }
        if !every_loaded(states) {
            return Ok(Finalize::Skipped);
        }
        let names = derive_names(paths);
        let ghost v = views_of(names@);
        assert(v.len() == names@.len() && v.len() == paths@.len());
        match first_duplicate(&names) {
            Some(j) => {
                let n = names[j].clone();
                return Err(AtlasBuildError::DuplicateName(n));
            },
            None => {},
        }
        let p = match packing {
            None => {
                return Err(AtlasBuildError::PackingFailed);
            },
            Some(p) => p,
        };
        if !check_packing(&p, names.len()) {
            return Err(AtlasBuildError::PackingFailed);
        }
        let mut table: Vec<LookupEntry> = Vec::new();
        let mut i: usize = 0;
        while i < names.len()
            invariant
                i <= names@.len(),
                v == views_of(names@),
                valid_packing(p, names@.len() as nat),
                table@.len() == i,
                forall|k: int|
                    0 <= k < i ==> (#[trigger] table@[k]).name@ == v[k] && table@[k].index
                        == p.indices@[k] as u32,
            decreases names.len() - i,
        {
            let e = LookupEntry { name: names[i].clone(), index: p.indices[i] as u32 };
            table.push(e);
            i = i + 1;
        }
        let released = match self.handles.take() {
            Some(h) => h,
            None => Vec::new(),
        };
        self.lookup_table = table;
        self.texture_atlas = p.atlas;
        self.published = true;
        proof {
            assert(self.table() =~= table_of(v, p.indices@));
            let t = self.table();
            assert forall|a: int, b: int| 0 <= a < b < t.len() implies #[trigger] t[a].0 != #[trigger] t[b].0
                && t[a].1 != t[b].1 by {
                assert(v[a] != v[b]);
                assert(p.indices@[a] != p.indices@[b]);
            }
        }
        Ok(Finalize::Published(released))
    }

    /// Whether the atlas and its table have been published.
    pub fn published(&self) -> (r: bool)
        ensures
            r == self.is_published(),
    {
        self.published
    }

    /// The handles of the pending batch, if any.
    pub fn pending_handles(&self) -> (r: Option<&Vec<LoadHandle>>)
        ensures
            r matches Some(h) ==> self.pending() == Some(h@),
            r is None <==> self.pending() is None,
    {
        match &self.handles {
            Some(h) => Some(h),
            None => None,
        }
    }

    /// The lookup table; empty until the atlas is published.
    pub fn lookup_table(&self) -> (r: &Vec<LookupEntry>)
        ensures
            r@.map_values(|e: LookupEntry| (e.name@, e.index)) == self.table(),
    {
        &self.lookup_table
    }

    /// The atlas; empty until it is published.
    pub fn texture_atlas(&self) -> (r: &Atlas)
        ensures
            *r == self.atlas(),
    {
        &self.texture_atlas
    }

    /// The region index of the image called `name`, if the table holds it.
    pub fn lookup(&self, name: &str) -> (r: Option<u32>)
        requires
            self.wf(),
        ensures
            r matches Some(x) ==> exists|i: int|
                0 <= i < self.table().len() && self.table()[i] == (name@, x),
            r is None ==> forall|i: int| 0 <= i < self.table().len() ==> self.table()[i].0 != name@,
    {
        let key = name.to_owned();
        let mut i: usize = 0;
        while i < self.lookup_table.len()
            invariant
                i <= self.lookup_table@.len(),
                key@ == name@,
                forall|k: int| 0 <= k < i ==> self.table()[k].0 != name@,
            decreases self.lookup_table.len() - i,
        {
            if self.lookup_table[i].name == key {
                assert(self.table()[i as int] == (name@, self.lookup_table@[i as int].index));
                return Some(self.lookup_table[i].index);
            }
            i = i + 1;
        }
        None
    }
}

impl Default for Textures {
    fn default() -> (r: Textures)
        ensures
            r.wf(),
            r.pending() is None,
            !r.is_published(),
            r.table().len() == 0,
            atlas_is_empty(r.atlas()),
    {
        Textures::new()
    }
}

/// The readiness gate: the packing step runs while a batch is pending, and
/// never once the registry is ready.
pub fn only_until_ready(textures: &Textures) -> (r: ShouldRun)
    ensures
        r == (if textures.pending() is None {
            ShouldRun::No
        } else {
            ShouldRun::Yes
        }),
{
    if textures.is_ready() {
        ShouldRun::No
    } else {
        ShouldRun::Yes
    }
}

/// Once the atlas is published, the registry is ready, and no batch can be
/// begun again; `try_finalize` leaves a ready registry unchanged.
pub proof fn published_stays_ready(t: Textures)
    requires
        t.wf(),
        t.is_published(),
    ensures
        t.pending() is None,
{
}

/// While a batch is pending, the lookup table is empty and the atlas is the
/// empty one.
pub proof fn nothing_published_while_pending(t: Textures)
    requires
        t.wf(),
        t.pending() is Some,
    ensures
        t.table().len() == 0,
        atlas_is_empty(t.atlas()),
{
}

/// The table published for `n` uniquely named images and a valid packing has
/// exactly `n` entries, whose region indices are distinct and within the atlas.
pub proof fn published_table_complete(names: Seq<Seq<char>>, p: Packing)
    requires
        names_unique(names),
        valid_packing(p, names.len()),
    ensures
        table_of(names, p.indices@).len() == names.len(),
        table_valid(table_of(names, p.indices@), p.atlas.regions@.len()),
        forall|i: int| 0 <= i < names.len() ==> #[trigger] table_of(names, p.indices@)[i].0 == names[i],
{
    let t = table_of(names, p.indices@);
    assert forall|a: int, b: int| 0 <= a < b < t.len() implies #[trigger] t[a].0 != #[trigger] t[b].0
        && t[a].1 != t[b].1 by {
        assert(names[a] != names[b]);
        assert(p.indices@[a] != p.indices@[b]);
    }
}

/// Two source paths of a batch with the same derived name make its names not
/// unique, so finalizing that batch reports a duplicate and publishes nothing.
pub proof fn shared_name_is_duplicate(paths: Seq<String>, i: int, j: int)
    requires
        0 <= i < j < paths.len(),
        name_of(paths[i]@) == name_of(paths[j]@),
    ensures
        !names_unique(names_of(paths)),
{
    assert(names_of(paths)[i] == names_of(paths)[j]);
}

/// A published registry's table is valid for its atlas.
pub proof fn published_table_valid(t: Textures)
    requires
        t.wf(),
        t.is_published(),
    ensures
        table_valid(t.table(), t.atlas().regions@.len()),
{
}

} // verus!
