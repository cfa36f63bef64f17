//! Asset names, their ids and kinds, and the table from ids to files.
use vstd::prelude::*;
use std::collections::HashMap;

verus! {

broadcast use vstd::std_specs::hash::group_hash_axioms;

/// The id that `fxhash::hash64` gives to the path `path`.
pub uninterp spec fn fx_path_hash(path: Seq<char>) -> u64;

/// The extension of `path` as `std::path::Path::extension` finds it.
pub uninterp spec fn path_extension(path: Seq<char>) -> Option<Seq<char>>;

/// Position of the last `.` in `name`, or -1 when it has none.
pub open spec fn last_dot(name: Seq<char>) -> int
    decreases name.len(),
{
    if name.len() == 0 {
        -1
    } else if name.last() == '.' {
        name.len() - 1
    } else {
        last_dot(name.drop_last())
    }
}

/// A path that is one plain file name on every platform: not empty, not `.` or
/// `..`, and without a separator (`/` or a backslash) or a drive colon.
pub open spec fn single_name(path: Seq<char>) -> bool {
    &&& path.len() > 0
    &&& !path.contains('/')
    &&& !path.contains('\\')
    &&& !path.contains(':')
    &&& path != "."@
    &&& path != ".."@
}

/// The extension of the file name `name`, as `Path::extension` documents it: the
/// text after the last `.`; none when there is no `.`, or the only one leads.
pub open spec fn name_extension(name: Seq<char>) -> Option<Seq<char>> {
    if last_dot(name) <= 0 {
        None
    } else {
        Some(name.skip(last_dot(name) + 1))
    }
}

/// Hashes `path` (as a `std::path::Path`) with `fxhash::hash64`; the result is
/// named, not described.
#[verifier::external_body]
fn hash_path(path: &str) -> (h: u64)
    ensures
        h == fx_path_hash(path@),
{
    fxhash::hash64(std::path::Path::new(path))
}

/// `std::path::Path::extension` of `path`, as a `String`. For a path that is a
/// single file name the documented rule is stated; for other paths, whose file
/// name depends on how each platform splits a path into components, the result
/// is named.
#[verifier::external_body]
fn extension(path: &str) -> (e: Option<String>)
    ensures
        extension_view(e) == path_extension(path@),
        single_name(path@) ==> extension_view(e) == name_extension(path@),
{
    std::path::Path::new(path).extension().and_then(|s| s.to_str()).map(|s| s.to_string())
}

/// What an asset contains, judged by its file extension.
#[derive(Debug, Clone, Copy, PartialEq, Eq, Structural)]
pub enum AssetTy {
    Unk,
    Obj,
    Png,
}

/// The kind of an asset with extension `ext`: `obj` meshes, `png` images, and
/// anything else unknown.
pub open spec fn spec_asset_ty(ext: Option<Seq<char>>) -> AssetTy {
    match ext {
        Some(e) => if e == "obj"@ {
            AssetTy::Obj
        } else if e == "png"@ {
            AssetTy::Png
        } else {
            AssetTy::Unk
        },
        None => AssetTy::Unk,
    }
}

/// An extension taken by its view.
pub open spec fn extension_view(ext: Option<String>) -> Option<Seq<char>> {
    match ext {
        Some(e) => Some(e@),
        None => None,
    }
}

impl AssetTy {
    /// The kind of an asset whose path has the extension `ext`.
    pub fn from_extension(ext: Option<String>) -> (t: AssetTy)
        ensures
            t == spec_asset_ty(extension_view(ext)),
    {
        match ext {
            Some(e) => {
                if e == "obj".to_owned() {
                    AssetTy::Obj
                } else if e == "png".to_owned() {
                    AssetTy::Png
                } else {
                    AssetTy::Unk
                }
            },
            None => AssetTy::Unk,
        }
    }

    /// The kind of the asset at `path`.
    pub fn new(path: &str) -> (t: AssetTy)
        ensures
            t == spec_asset_ty(path_extension(path@)),
    {
        AssetTy::from_extension(extension(path))
    }
}

/// An asset: a path under the data directory, known by the hash of that path.
/// Two assets are the same when their ids are.
#[derive(Debug, Clone, Copy)]
pub struct Asset {
    id: u64,
    ty: AssetTy,
}

impl Asset {
    /// The asset's id.
    pub closed spec fn spec_id(&self) -> u64 {
        self.id
    }

    /// The asset at `path`.
    pub fn new(path: &str) -> (a: Asset)
        ensures
            a.spec_id() == fx_path_hash(path@),
            a.spec_ty() == spec_asset_ty(path_extension(path@)),
    {
        let ty = AssetTy::new(path);
        let id = hash_path(path);
        Asset { id, ty }
    }

    /// The asset's kind.
    pub closed spec fn spec_ty(&self) -> AssetTy {
        self.ty
    }

    /// The asset's kind.
    pub fn ty(&self) -> (t: AssetTy)
        ensures
            t == self.spec_ty(),
    {
        self.ty
    }

    /// The asset's id.
    pub fn id(&self) -> (id: u64)
        ensures
            id == self.spec_id(),
    {
        self.id
    }

    /// The built-in quad used to draw sprites.
    pub fn sprite() -> (a: Asset)
        ensures
            a.spec_id() == fx_path_hash("#sprite"@),
            a.spec_ty() == spec_asset_ty(path_extension("#sprite"@)),
    {
        Asset::new("#sprite")
    }

    /// The built-in texture shown when a texture is missing.
    pub fn error_tex() -> (a: Asset)
        ensures
            a.spec_id() == fx_path_hash("#error.png"@),
            a.spec_ty() == spec_asset_ty(path_extension("#error.png"@)),
    {
        Asset::new("#error.png")
    }

    /// Whether two assets are the same, that is have the same id.
    pub fn same(&self, other: &Asset) -> (b: bool)
        ensures
            b == (self.spec_id() == other.spec_id()),
    {
        self.id == other.id
    }
}

/// The table that a listing of the data directory gives: each file, by the id of
/// its path relative to the data directory, maps to its full path; a later file
/// with the same id replaces an earlier one.
pub open spec fn listing_map(files: Seq<(String, String)>) -> Map<u64, String>
    decreases files.len(),
{
    if files.len() == 0 {
        Map::empty()
    } else {
        listing_map(files.drop_last()).insert(fx_path_hash(files.last().0@), files.last().1)
    }
}

/// Every file of a listing is in its table, whatever its kind, under the id of
/// its relative path, mapped to the full path of the last file with that id; and
/// the table holds nothing else.
pub proof fn law_listing_has_every_file(files: Seq<(String, String)>)
    ensures
        forall|i: int| 0 <= i < files.len() ==> #[trigger] listing_map(files).contains_key(fx_path_hash(files[i].0@)),
        forall|k: u64| #[trigger] listing_map(files).contains_key(k) ==> exists|i: int|
            0 <= i < files.len() && fx_path_hash(files[i].0@) == k && listing_map(files)[k] == files[i].1
            && forall|l: int| i < l < files.len() ==> fx_path_hash(files[l].0@) != k,
    decreases files.len(),
{
    if files.len() > 0 {
        let d = files.drop_last();
        let n = files.len() - 1;
        law_listing_has_every_file(d);
        assert forall|i: int| 0 <= i < files.len() implies #[trigger] listing_map(files).contains_key(fx_path_hash(files[i].0@)) by {
            if i < n {
                assert(d[i] == files[i]);
                assert(listing_map(d).contains_key(fx_path_hash(d[i].0@)));
            }
        }
        assert forall|k: u64| #[trigger] listing_map(files).contains_key(k) implies exists|i: int|
            0 <= i < files.len() && fx_path_hash(files[i].0@) == k && listing_map(files)[k] == files[i].1
            && forall|l: int| i < l < files.len() ==> fx_path_hash(files[l].0@) != k by {
            if k == fx_path_hash(files[n].0@) {
                assert(fx_path_hash(files[n].0@) == k && listing_map(files)[k] == files[n].1);
            } else {
                assert(listing_map(d).contains_key(k));
                let i = choose|i: int| 0 <= i < d.len() && fx_path_hash(d[i].0@) == k && listing_map(d)[k] == d[i].1
                    && forall|l: int| i < l < d.len() ==> fx_path_hash(d[l].0@) != k;
                assert(files[i] == d[i]);
                assert forall|l: int| i < l < files.len() implies fx_path_hash(files[l].0@) != k by {
                    if l < n {
                        assert(files[l] == d[l]);
                    }
                }
            }
        }
    }
}

/// Where each asset's file lies.
pub struct AssetLoader {
    cache: HashMap<u64, String>,
}

impl AssetLoader {
    /// Asset id to full path.
    pub closed spec fn table(&self) -> Map<u64, String> {
        self.cache@
    }

    /// The table for a listing of the data directory: pairs of the path relative
    /// to the data directory and the full path.
    pub fn new(files: &[(String, String)]) -> (l: AssetLoader)
        ensures
            l.table() == listing_map(files@),
            forall|i: int| 0 <= i < files@.len() ==> #[trigger] l.table().contains_key(fx_path_hash(files@[i].0@)),
    {
        let mut cache: HashMap<u64, String> = HashMap::new();
        let mut i: usize = 0;
        while i < files.len()
            invariant
                i <= files.len(),
                cache@ == listing_map(files@.take(i as int)),
            decreases files.len() - i,
        {
            let asset = Asset::new(files[i].0.as_str());
            cache.insert(asset.id, files[i].1.clone());
            assert(files@.take(i + 1).drop_last() =~= files@.take(i as int));
            i = i + 1;
        }
        assert(files@.take(files.len() as int) =~= files@);
        proof {
            law_listing_has_every_file(files@);
        }
        AssetLoader { cache }
    }

    /// Replace the table with the one for a new listing of the data directory.
    pub fn reload(&mut self, files: &[(String, String)])
        ensures
            final(self).table() == listing_map(files@),
    {
        *self = AssetLoader::new(files);
    }

    /// The full path of `asset`'s file, if the table has it.
    pub fn path_of(&self, asset: &Asset) -> (p: Option<String>)
        ensures
            match p {
                Some(s) => self.table().contains_key(asset.spec_id()) && s == self.table()[asset.spec_id()],
                None => !self.table().contains_key(asset.spec_id()),
            },
    {
        match self.cache.get(&asset.id) {
            Some(s) => Some(s.clone()),
            None => None,
        }
    }
}

/// Handles of loaded assets (meshes, textures), by asset id, so that each asset
/// is loaded once.
pub struct AssetCache<H> {
    handles: HashMap<u64, H>,
}

impl<H: Copy> AssetCache<H> {
    /// Asset id to handle.
    pub closed spec fn table(&self) -> Map<u64, H> {
        self.handles@
    }

    /// An empty cache.
    pub fn new() -> (c: AssetCache<H>)
        ensures
            c.table() == Map::<u64, H>::empty(),
    {
        AssetCache { handles: HashMap::new() }
    }

    /// The handle cached for `asset`, if it was loaded before.
    pub fn get(&self, asset: &Asset) -> (h: Option<H>)
        ensures
            match h {
                Some(x) => self.table().contains_key(asset.spec_id()) && x == self.table()[asset.spec_id()],
                None => !self.table().contains_key(asset.spec_id()),
            },
    {
        match self.handles.get(&asset.id) {
            Some(h) => Some(*h),
            None => None,
        }
    }

    /// Remember the handle of a freshly loaded asset.
    pub fn insert(&mut self, asset: &Asset, handle: H)
        ensures
            final(self).table() == old(self).table().insert(asset.spec_id(), handle),
    {
        self.handles.insert(asset.id, handle);
    }
}

/// What a renderer does for an asset it needs as a mesh or a texture.
#[derive(Debug, Clone, Copy, PartialEq, Eq)]
pub enum CacheStep<H> {
    /// It was loaded before: this handle.
    Cached(H),
    /// Load the file and cache the result.
    Load,
    /// The file is not of the kind the renderer takes.
    WrongKind,
}

impl<H: Copy> AssetCache<H> {
    /// The step for `asset`, which is wanted as an asset of kind `kind` (OBJ for
    /// meshes, PNG for textures): the cached handle if there is one, else load it
    /// when it is of that kind.
    pub fn plan(&self, asset: &Asset, kind: AssetTy) -> (step: CacheStep<H>)
        ensures
            match step {
                CacheStep::Cached(h) => self.table().contains_key(asset.spec_id())
                    && h == self.table()[asset.spec_id()],
                CacheStep::Load => !self.table().contains_key(asset.spec_id()) && asset.spec_ty() == kind,
                CacheStep::WrongKind => !self.table().contains_key(asset.spec_id()) && asset.spec_ty() != kind,
            },
    {
        match self.get(asset) {
            Some(h) => CacheStep::Cached(h),
            None => {
                if asset.ty() == kind {
                    CacheStep::Load
                } else {
                    CacheStep::WrongKind
                }
            },
        }
    }
}

/// After `insert` stores a handle for asset `a`, `get` gives that handle for `a`
/// (and for any asset with the same id), and for an asset `b` with another id
/// what it gave before.
pub proof fn law_cache_returns_what_was_stored<H: Copy>(before: AssetCache<H>, after: AssetCache<H>, a: Asset, handle: H, b: Asset)
    requires
        after.table() == before.table().insert(a.spec_id(), handle),
    ensures
        after.table().contains_key(a.spec_id()),
        after.table()[a.spec_id()] == handle,
        b.spec_id() != a.spec_id() ==> after.table().contains_key(b.spec_id()) == before.table().contains_key(b.spec_id()),
        b.spec_id() != a.spec_id() && before.table().contains_key(b.spec_id())
            ==> after.table()[b.spec_id()] == before.table()[b.spec_id()],
{
}

/// Only the extension `obj` makes a mesh and only `png` an image; every other
/// extension, and none, is unknown.
pub proof fn law_asset_kinds(ext: Option<Seq<char>>)
    ensures
        spec_asset_ty(ext) == AssetTy::Obj <==> ext == Some("obj"@),
        spec_asset_ty(ext) == AssetTy::Png <==> ext == Some("png"@),
        spec_asset_ty(ext) == AssetTy::Unk <==> (ext != Some("obj"@) && ext != Some("png"@)),
{
    reveal_strlit("obj");
    reveal_strlit("png");
    assert("obj"@[0] != "png"@[0]);
}

} // verus!
