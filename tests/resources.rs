use rpg::error::Error;
use rpg::resources::{CachedResources, Loader};

struct CountingLoader {
    texture_decodes: Vec<String>,
    font_loads: Vec<(String, u16)>,
}

impl CountingLoader {
    fn new() -> Self {
        CountingLoader { texture_decodes: Vec::new(), font_loads: Vec::new() }
    }
}

impl Loader for CountingLoader {
    fn decode_texture(&mut self, _id: usize, path: &str) -> Result<(u32, u32), Error> {
        if path.ends_with(".missing") {
            return Err(Error::simple("no such file"));
        }
        self.texture_decodes.push(path.to_string());
        Ok((64, 32))
    }

    fn decode_font(&mut self, _id: usize, path: &str, size: u16) -> Result<(), Error> {
        self.font_loads.push((path.to_string(), size));
        Ok(())
    }
}

#[test]
fn same_path_gives_same_texture_with_one_decode() {
    let mut cache = CachedResources::new();
    let mut loader = CountingLoader::new();
    let first = cache.load_texture(&mut loader, "data/hero.png").unwrap();
    let second = cache.load_texture(&mut loader, "data/hero.png").unwrap();
    assert_eq!(first, second);
    assert_eq!(first.width(), 64);
    assert_eq!(first.height(), 32);
    assert_eq!(loader.texture_decodes, vec!["data/hero.png".to_string()]);
}

#[test]
fn different_paths_give_different_textures() {
    let mut cache = CachedResources::new();
    let mut loader = CountingLoader::new();
    let a = cache.load_texture(&mut loader, "a.png").unwrap();
    let b = cache.load_texture(&mut loader, "b.png").unwrap();
    assert_ne!(a.id, b.id);
    assert_eq!(loader.texture_decodes.len(), 2);
}

#[test]
fn font_sizes_are_distinct_resources() {
    let mut cache = CachedResources::new();
    let mut loader = CountingLoader::new();
    let small = cache.load_font(&mut loader, "font.ttf", 10).unwrap();
    let large = cache.load_font(&mut loader, "font.ttf", 20).unwrap();
    assert_ne!(small.id, large.id);
    assert_eq!(small.size, 10);
    assert_eq!(large.size, 20);
    let again = cache.load_font(&mut loader, "font.ttf", 10).unwrap();
    assert_eq!(again, small);
    assert_eq!(loader.font_loads.len(), 2);
}

#[test]
fn failed_decode_leaves_cache_empty_for_retry() {
    let mut cache = CachedResources::new();
    let mut loader = CountingLoader::new();
    assert!(cache.load_texture(&mut loader, "hero.missing").is_err());
    assert!(cache.load_texture(&mut loader, "hero.missing").is_err());
    let t = cache.load_texture(&mut loader, "hero.png").unwrap();
    assert_eq!(t.id, 0);
}

#[test]
fn uncached_textures_get_fresh_ids() {
    let mut cache = CachedResources::new();
    let mut loader = CountingLoader::new();
    let cached = cache.load_texture(&mut loader, "a.png").unwrap();
    let text = cache.texture_from_surface(10, 20).unwrap();
    let other = cache.texture_from_surface(10, 20).unwrap();
    assert_ne!(text.id, cached.id);
    assert_ne!(text.id, other.id);
    assert_eq!((text.width, text.height), (10, 20));
}

#[test]
fn stored_decode_keeps_its_size() {
    let mut cache = CachedResources::new();
    let t = cache.store_texture("a.png".to_string(), 0, Ok((7, 9))).unwrap();
    assert_eq!((t.id, t.width, t.height), (0, 7, 9));
    assert!(cache.store_texture("b.png".to_string(), 1, Err(Error::simple("bad"))).is_err());
    let mut loader = CountingLoader::new();
    assert_eq!(cache.load_texture(&mut loader, "a.png").unwrap(), t);
    assert!(loader.texture_decodes.is_empty());
    let f = cache.store_font("f.ttf".to_string(), 12, 1, Ok(())).unwrap();
    assert_eq!((f.id, f.size), (1, 12));
    assert!(cache.store_font("f.ttf".to_string(), 14, 2, Err(Error::simple("bad"))).is_err());
}
