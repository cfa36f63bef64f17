use vg::assets::{Asset, AssetCache, AssetLoader, AssetTy, CacheStep};

#[test]
fn asset_kind_by_extension() {
    assert_eq!(AssetTy::new("models/ship.obj"), AssetTy::Obj);
    assert_eq!(AssetTy::new("tex/a.png"), AssetTy::Png);
    assert_eq!(AssetTy::new("sound.wav"), AssetTy::Unk);
    assert_eq!(AssetTy::new("noext"), AssetTy::Unk);
    assert_eq!(AssetTy::new(".png"), AssetTy::Unk);
    assert_eq!(Asset::error_tex().ty(), AssetTy::Png);
    assert_eq!(Asset::sprite().ty(), AssetTy::Unk);
}

#[test]
fn asset_id_is_fxhash_of_path() {
    let a = Asset::new("models/ship.obj");
    assert_eq!(a.id(), fxhash::hash64(std::path::Path::new("models/ship.obj")));
    assert!(a.same(&Asset::new("models/ship.obj")));
    assert!(!a.same(&Asset::new("models/boat.obj")));
}

#[test]
fn loader_maps_ids_to_paths() {
    let files = vec![
        ("a.png".to_string(), "data/a.png".to_string()),
        ("m/b.obj".to_string(), "data/m/b.obj".to_string()),
    ];
    let mut l = AssetLoader::new(&files);
    assert_eq!(l.path_of(&Asset::new("a.png")), Some("data/a.png".to_string()));
    assert_eq!(l.path_of(&Asset::new("m/b.obj")), Some("data/m/b.obj".to_string()));
    assert_eq!(l.path_of(&Asset::new("c.png")), None);
    l.reload(&[("c.png".to_string(), "data/c.png".to_string())]);
    assert_eq!(l.path_of(&Asset::new("c.png")), Some("data/c.png".to_string()));
    assert_eq!(l.path_of(&Asset::new("a.png")), None);
}

#[test]
fn later_listing_entry_wins() {
    let files = vec![
        ("a.png".to_string(), "first".to_string()),
        ("a.png".to_string(), "second".to_string()),
    ];
    let l = AssetLoader::new(&files);
    assert_eq!(l.path_of(&Asset::new("a.png")), Some("second".to_string()));
}

#[test]
fn asset_kind_from_extension() {
    assert_eq!(AssetTy::from_extension(Some("obj".to_string())), AssetTy::Obj);
    assert_eq!(AssetTy::from_extension(Some("png".to_string())), AssetTy::Png);
    assert_eq!(AssetTy::from_extension(Some("PNG".to_string())), AssetTy::Unk);
    assert_eq!(AssetTy::from_extension(None), AssetTy::Unk);
}

#[test]
fn cache_returns_stored_handles() {
    let mut cache: AssetCache<u32> = AssetCache::new();
    let ship = Asset::new("models/ship.obj");
    let tex = Asset::new("tex/a.png");
    assert_eq!(cache.get(&ship), None);
    cache.insert(&ship, 7);
    assert_eq!(cache.get(&ship), Some(7));
    assert_eq!(cache.get(&Asset::new("models/ship.obj")), Some(7));
    assert_eq!(cache.get(&tex), None);
    cache.insert(&tex, 9);
    cache.insert(&ship, 8);
    assert_eq!((cache.get(&ship), cache.get(&tex)), (Some(8), Some(9)));
}

#[test]
fn cache_plans_loads_by_kind() {
    let mut meshes: AssetCache<u32> = AssetCache::new();
    let ship = Asset::new("ship.obj");
    let tex = Asset::new("a.png");
    assert_eq!(meshes.plan(&ship, AssetTy::Obj), CacheStep::Load);
    assert_eq!(meshes.plan(&tex, AssetTy::Obj), CacheStep::WrongKind);
    meshes.insert(&ship, 3);
    assert_eq!(meshes.plan(&ship, AssetTy::Obj), CacheStep::Cached(3));
    assert_eq!(AssetTy::new("a.b.png"), AssetTy::Png);
    assert_eq!(AssetTy::new("..png"), AssetTy::Png);
    assert_eq!(AssetTy::new("obj."), AssetTy::Unk);
}
