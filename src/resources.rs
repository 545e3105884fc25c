use vstd::prelude::*;

use crate::error::Error;
use crate::gfx::tileset::Tileset;
use crate::gfx::{Font, Texture};

verus! {

/// Decodes assets on behalf of the cache; the image and font data itself
/// stays with the implementor, filed under the id the cache hands it.
pub trait Loader {
    /// Decodes the image at `path` and files it under `id`; returns its width
    /// and height.
    fn decode_texture(&mut self, id: usize, path: &str) -> Result<(u32, u32), Error>;

    /// Loads the font at `path` at point size `size` and files it under `id`.
    fn decode_font(&mut self, id: usize, path: &str, size: u16) -> Result<(), Error>;
}

/// The map that parallel sequences of distinct keys and values describe.
pub open spec fn assoc<K, V>(keys: Seq<K>, vals: Seq<V>) -> Map<K, V> {
    Map::new(
        |k: K| keys.contains(k),
        |k: K| vals[keys.index_of(k)],
    )
}

proof fn lemma_index_of<A>(s: Seq<A>, x: A)
    requires
        s.contains(x),
    ensures
        0 <= s.index_of(x) < s.len(),
        s[s.index_of(x)] == x,
{
}

proof fn lemma_assoc_push<K, V>(keys: Seq<K>, vals: Seq<V>, k: K, v: V)
    requires
        keys.len() == vals.len(),
        keys.no_duplicates(),
        !keys.contains(k),
    ensures
        assoc(keys.push(k), vals.push(v)) == assoc(keys, vals).insert(k, v),
        keys.push(k).no_duplicates(),
{
    let nk = keys.push(k);
    let nv = vals.push(v);
    assert forall|x: K| nk.contains(x) implies nv[nk.index_of(x)] == assoc(keys, vals).insert(k, v)[x] by {
        if x == k {
            assert(nk[keys.len() as int] == k);
            lemma_index_of(nk, x);
            if nk.index_of(x) < keys.len() {
                assert(keys[nk.index_of(x)] == x);
            }
        } else {
            let i = nk.index_of(x);
            lemma_index_of(nk, x);
            assert(keys[i] == x);
            lemma_index_of(keys, x);
            assert(keys.index_of(x) == i) by {
                if keys.index_of(x) != i {
                    assert(nk[keys.index_of(x)] == x);
                }
            }
        }
    }
    assert forall|x: K| nk.contains(x) <==> assoc(keys, vals).insert(k, v).contains_key(x) by {
        if x != k && nk.contains(x) {
            let i = nk.index_of(x);
            lemma_index_of(nk, x);
            assert(keys[i] == x);
        }
        if keys.contains(x) {
            let i = keys.index_of(x);
            lemma_index_of(keys, x);
            assert(nk[i] == x);
        }
        if x == k {
            assert(nk[keys.len() as int] == k);
        }
    }
    assert(assoc(nk, nv) =~= assoc(keys, vals).insert(k, v));
    assert forall|i: int, j: int| 0 <= i < j < nk.len() implies nk[i] != nk[j] by {
        if j == keys.len() {
            assert(keys[i] == nk[i]);
        }
    }
}

/// Memoizing store of decoded textures and fonts.
///
/// Textures are keyed by path, fonts by path and point size. Each decoded
/// asset gets an id that no other asset of the store has; entries are never
/// evicted.
pub struct CachedResources {
    texture_keys: Vec<String>,
    textures: Vec<Texture>,
    font_paths: Vec<String>,
    font_sizes: Vec<u16>,
    fonts: Vec<Font>,
    next_id: usize,
}

pub open spec fn string_views(s: Seq<String>) -> Seq<Seq<char>> {
    s.map_values(|x: String| x@)
}

pub open spec fn font_key_views(paths: Seq<String>, sizes: Seq<u16>) -> Seq<(Seq<char>, u16)> {
    Seq::new(paths.len(), |i: int| (paths[i]@, sizes[i]))
}

impl CachedResources {
    /// Cached textures by path.
    pub closed spec fn texture_map(&self) -> Map<Seq<char>, Texture> {
        assoc(string_views(self.texture_keys@), self.textures@)
    }

    /// Cached fonts by path and point size.
    pub closed spec fn font_map(&self) -> Map<(Seq<char>, u16), Font> {
        assoc(font_key_views(self.font_paths@, self.font_sizes@), self.fonts@)
    }

    /// The id that the next decoded asset receives.
    pub closed spec fn spec_next_id(&self) -> nat {
        self.next_id as nat
    }

    pub closed spec fn wf(&self) -> bool {
        &&& self.texture_keys@.len() == self.textures@.len()
        &&& self.font_paths@.len() == self.fonts@.len()
        &&& self.font_sizes@.len() == self.fonts@.len()
        &&& string_views(self.texture_keys@).no_duplicates()
        &&& font_key_views(self.font_paths@, self.font_sizes@).no_duplicates()
        &&& forall|i: int| 0 <= i < self.textures@.len() ==> self.textures@[i].id < self.next_id
        &&& forall|i: int| 0 <= i < self.fonts@.len() ==> self.fonts@[i].id < self.next_id
        &&& forall|i: int, j: int| 0 <= i < self.fonts@.len() && 0 <= j < self.fonts@.len() && i != j
            ==> self.fonts@[i].id != self.fonts@[j].id
        &&& forall|i: int, j: int| 0 <= i < self.textures@.len() && 0 <= j < self.textures@.len() && i != j
            ==> self.textures@[i].id != self.textures@[j].id
    }

    /// An empty store.
    pub fn new() -> (r: Self)
        ensures
            r.wf(),
            r.texture_map().is_empty(),
            r.font_map().is_empty(),
            r.spec_next_id() == 0,
    {
        let r = CachedResources {
            texture_keys: Vec::new(),
            textures: Vec::new(),
            font_paths: Vec::new(),
            font_sizes: Vec::new(),
            fonts: Vec::new(),
            next_id: 0,
        };
        assert(r.texture_map() =~= Map::empty());
        assert(r.font_map() =~= Map::empty());
        r
    }

    /// What `load_texture(path)` does: a cached path gives its texture and
    /// changes nothing; otherwise a successful decode is stored under a fresh
    /// id, and a failed one leaves the store as it was.
    pub open spec fn loads_texture(self, next: Self, path: Seq<char>, r: Result<Texture, Error>) -> bool {
        if self.texture_map().contains_key(path) {
            r == Ok::<Texture, Error>(self.texture_map()[path]) && next == self
        } else {
            &&& self.spec_next_id() == usize::MAX ==> r is Err
            &&& match r {
                Ok(t) => t.id == self.spec_next_id()
                    && next.texture_map() == self.texture_map().insert(path, t)
                    && next.font_map() == self.font_map()
                    && next.spec_next_id() == self.spec_next_id() + 1,
                Err(_) => next == self,
            }
        }
    }

    /// What `load_font(path, size)` does, as for textures, keyed by path and size.
    pub open spec fn loads_font(self, next: Self, path: Seq<char>, size: u16, r: Result<Font, Error>) -> bool {
        if self.font_map().contains_key((path, size)) {
            r == Ok::<Font, Error>(self.font_map()[(path, size)]) && next == self
        } else {
            &&& self.spec_next_id() == usize::MAX ==> r is Err
            &&& match r {
                Ok(f) => f.id == self.spec_next_id() && f.size == size
                    && next.font_map() == self.font_map().insert((path, size), f)
                    && next.texture_map() == self.texture_map()
                    && next.spec_next_id() == self.spec_next_id() + 1,
                Err(_) => next == self,
            }
        }
    }

    proof fn lemma_string_views_push(s: Seq<String>, x: String)
        ensures
            string_views(s.push(x)) == string_views(s).push(x@),
    {
        assert(string_views(s.push(x)) =~= string_views(s).push(x@));
    }

    proof fn lemma_font_views_push(p: Seq<String>, z: Seq<u16>, x: String, y: u16)
        requires
            p.len() == z.len(),
        ensures
            font_key_views(p.push(x), z.push(y)) == font_key_views(p, z).push((x@, y)),
    {
        assert(font_key_views(p.push(x), z.push(y)) =~= font_key_views(p, z).push((x@, y)));
    }

    fn find_texture(&self, key: &String) -> (r: Option<usize>)
        requires
            self.wf(),
        ensures
            r is None <==> !self.texture_map().contains_key(key@),
            r matches Some(i) ==> i < self.textures@.len()
                && self.texture_map()[key@] == self.textures@[i as int],
    {
        let ghost keys = string_views(self.texture_keys@);
        let mut i: usize = 0;
        while i < self.texture_keys.len()
            invariant
                i <= self.texture_keys@.len(),
                self.wf(),
                keys == string_views(self.texture_keys@),
                forall|j: int| 0 <= j < i ==> keys[j] != key@,
            decreases self.texture_keys.len() - i,
        {
            if self.texture_keys[i] == *key {
                proof {
                    assert(keys[i as int] == key@);
                    lemma_index_of(keys, key@);
                    assert(keys.contains(key@));
                    assert(keys[keys.index_of(key@)] == keys[i as int]);
                    assert(keys.index_of(key@) == i as int);
                }
                return Some(i);
            }
            i = i + 1;
        }
        proof {
            if keys.contains(key@) {
                lemma_index_of(keys, key@);
            }
        }
        None
    }

    fn find_font(&self, path: &String, size: u16) -> (r: Option<usize>)
        requires
            self.wf(),
        ensures
            r is None <==> !self.font_map().contains_key((path@, size)),
            r matches Some(i) ==> i < self.fonts@.len()
                && self.font_map()[(path@, size)] == self.fonts@[i as int],
    {
        let ghost keys = font_key_views(self.font_paths@, self.font_sizes@);
        let mut i: usize = 0;
        while i < self.font_paths.len()
            invariant
                i <= self.font_paths@.len(),
                self.wf(),
                self.font_paths@.len() == self.font_sizes@.len(),
                keys == font_key_views(self.font_paths@, self.font_sizes@),
                forall|j: int| 0 <= j < i ==> keys[j] != (path@, size),
            decreases self.font_paths.len() - i,
        {
            if self.font_sizes[i] == size && self.font_paths[i] == *path {
                proof {
                    assert(keys[i as int] == (path@, size));
                    lemma_index_of(keys, (path@, size));
                    assert(keys.contains((path@, size)));
                    assert(keys[keys.index_of((path@, size))] == keys[i as int]);
                    assert(keys.index_of((path@, size)) == i as int);
                }
                return Some(i);
            }
            i = i + 1;
        }
        proof {
            if keys.contains((path@, size)) {
                lemma_index_of(keys, (path@, size));
            }
        }
        None
    }

    fn fresh_id(&mut self) -> (r: Result<usize, Error>)
        requires
            old(self).wf(),
        ensures
            final(self).wf(),
            final(self).texture_map() == old(self).texture_map(),
            final(self).font_map() == old(self).font_map(),
            r matches Ok(id) ==> id == old(self).spec_next_id() && final(self).spec_next_id() == id + 1,
            r is Err ==> *final(self) == *old(self),
            r is Err <==> old(self).spec_next_id() == usize::MAX,
    {
        if self.next_id == usize::MAX {
            Err(Error::simple("no resource ids left"))
        } else {
            let id = self.next_id;
            self.next_id = self.next_id + 1;
            Ok(id)
        }
    }

    /// The texture decoded from `path`, decoding it on the first request only;
    /// what the decoder returns is stored by `store_texture`.
    pub fn load_texture<L: Loader>(&mut self, loader: &mut L, path: &str) -> (r: Result<Texture, Error>)
        requires
            old(self).wf(),
        ensures
            final(self).wf(),
            old(self).loads_texture(*final(self), path@, r),
            old(self).texture_map().contains_key(path@) ==> *final(loader) == *old(loader),
    {
        let key = path.to_owned();
        match self.find_texture(&key) {
            Some(i) => Ok(self.textures[i]),
            None => {
                if self.next_id == usize::MAX {
                    return Err(Error::simple("no resource ids left"));
                }
                let id = self.next_id;
                let decoded = loader.decode_texture(id, path);
                self.store_texture(key, id, decoded)
            },
        }
    }

    /// Stores what decoding the image at `key` under `id` gave: a decoded
    /// size becomes a texture of that size, cached under `key`; a failure is
    /// passed on and stores nothing.
    pub fn store_texture(&mut self, key: String, id: usize, decoded: Result<(u32, u32), Error>) -> (r: Result<Texture, Error>)
        requires
            old(self).wf(),
            !old(self).texture_map().contains_key(key@),
            id == old(self).spec_next_id(),
            id < usize::MAX,
        ensures
            final(self).wf(),
            match decoded {
                Ok((width, height)) => {
                    &&& r == Ok::<Texture, Error>(Texture { id, width, height })
                    &&& final(self).texture_map() == old(self).texture_map().insert(key@, Texture { id, width, height })
                    &&& final(self).font_map() == old(self).font_map()
                    &&& final(self).spec_next_id() == id + 1
                },
                Err(_) => r is Err && *final(self) == *old(self),
            },
    {
        match decoded {
            Ok((width, height)) => {
                let t = Texture { id, width, height };
                proof {
                    lemma_assoc_push(string_views(self.texture_keys@), self.textures@, key@, t);
                    Self::lemma_string_views_push(self.texture_keys@, key);
                }
                self.texture_keys.push(key);
                self.textures.push(t);
                self.next_id = id + 1;
                Ok(t)
            },
            Err(e) => Err(e),
        }
    }

    /// The font at `path` in point size `size`, loading it on the first
    /// request for that pair only; what the loader returns is stored by
    /// `store_font`.
    pub fn load_font<L: Loader>(&mut self, loader: &mut L, path: &str, size: u16) -> (r: Result<Font, Error>)
        requires
            old(self).wf(),
        ensures
            final(self).wf(),
            old(self).loads_font(*final(self), path@, size, r),
            old(self).font_map().contains_key((path@, size)) ==> *final(loader) == *old(loader),
    {
        let key = path.to_owned();
        match self.find_font(&key, size) {
            Some(i) => Ok(self.fonts[i]),
            None => {
                if self.next_id == usize::MAX {
                    return Err(Error::simple("no resource ids left"));
                }
                let id = self.next_id;
                let decoded = loader.decode_font(id, path, size);
                self.store_font(key, size, id, decoded)
            },
        }
    }

    /// Stores what loading the font at `path` in `size` under `id` gave: a
    /// success becomes a font of that size, cached under the pair; a failure
    /// is passed on and stores nothing.
    pub fn store_font(&mut self, path: String, size: u16, id: usize, decoded: Result<(), Error>) -> (r: Result<Font, Error>)
        requires
            old(self).wf(),
            !old(self).font_map().contains_key((path@, size)),
            id == old(self).spec_next_id(),
            id < usize::MAX,
        ensures
            final(self).wf(),
            match decoded {
                Ok(()) => {
                    &&& r == Ok::<Font, Error>(Font { id, size })
                    &&& final(self).font_map() == old(self).font_map().insert((path@, size), Font { id, size })
                    &&& final(self).texture_map() == old(self).texture_map()
                    &&& final(self).spec_next_id() == id + 1
                },
                Err(_) => r is Err && *final(self) == *old(self),
            },
    {
        match decoded {
            Ok(()) => {
                let f = Font { id, size };
                proof {
                    lemma_assoc_push(
                        font_key_views(self.font_paths@, self.font_sizes@),
                        self.fonts@,
                        (path@, size),
                        f,
                    );
                    Self::lemma_font_views_push(self.font_paths@, self.font_sizes@, path, size);
                }
                self.font_paths.push(path);
                self.font_sizes.push(size);
                self.fonts.push(f);
                self.next_id = id + 1;
                Ok(f)
            },
            Err(e) => Err(e),
        }
    }

    /// The texture named `id`: named resources are not supported.
    pub fn get_texture(&mut self, id: &str) -> (r: Result<Texture, Error>)
        ensures
            r is Err,
            *final(self) == *old(self),
    {
        Err(Error::simple("resource ids are not supported"))
    }

    /// The tileset named `id`: named resources are not supported.
    pub fn get_tileset(&mut self, id: &str) -> (r: Result<Tileset, Error>)
        ensures
            r is Err,
            *final(self) == *old(self),
    {
        Err(Error::simple("resource ids are not supported"))
    }

    /// The font named `id`: named resources are not supported.
    pub fn get_font(&mut self, id: &str) -> (r: Result<Font, Error>)
        ensures
            r is Err,
            *final(self) == *old(self),
    {
        Err(Error::simple("resource ids are not supported"))
    }

    /// A handle for an image decoded outside the store (rendered text, say):
    /// it gets a fresh id and is not cached.
    pub fn texture_from_surface(&mut self, width: u32, height: u32) -> (r: Result<Texture, Error>)
        requires
            old(self).wf(),
        ensures
            final(self).wf(),
            final(self).texture_map() == old(self).texture_map(),
            final(self).font_map() == old(self).font_map(),
            r matches Ok(t) ==> t == (Texture { id: old(self).spec_next_id() as usize, width, height })
                && final(self).spec_next_id() == old(self).spec_next_id() + 1,
            r is Err <==> old(self).spec_next_id() == usize::MAX,
    {
        match self.fresh_id() {
            Ok(id) => Ok(Texture { id, width, height }),
            Err(e) => Err(e),
        }
    }
}

/// Two loads of one path in a row give the same texture; the second finds it
/// in the cache and changes nothing, so nothing is decoded a second time.
pub proof fn lemma_texture_cache_identity(
    c0: CachedResources,
    c1: CachedResources,
    c2: CachedResources,
    path: Seq<char>,
    first: Texture,
    second: Result<Texture, Error>,
)
    requires
        c0.loads_texture(c1, path, Ok(first)),
        c1.loads_texture(c2, path, second),
    ensures
        c1.texture_map().contains_key(path),
        second == Ok::<Texture, Error>(first),
        c2 == c1,
{
}

/// One font file loaded at two different point sizes gives two distinct fonts.
pub proof fn lemma_font_sizes_distinct(
    c0: CachedResources,
    c1: CachedResources,
    c2: CachedResources,
    path: Seq<char>,
    size1: u16,
    size2: u16,
    first: Font,
    second: Font,
)
    requires
        c0.wf(),
        c1.wf(),
        size1 != size2,
        c0.loads_font(c1, path, size1, Ok(first)),
        c1.loads_font(c2, path, size2, Ok(second)),
    ensures
        first.id != second.id,
{
    let keys = font_key_views(c1.font_paths@, c1.font_sizes@);
    assert(c1.font_map().contains_key((path, size1)));
    assert(c1.font_map()[(path, size1)] == first);
    lemma_index_of(keys, (path, size1));
    let i = keys.index_of((path, size1));
    assert(first == c1.fonts@[i]);
    if c1.font_map().contains_key((path, size2)) {
        lemma_index_of(keys, (path, size2));
        let j = keys.index_of((path, size2));
        assert(second == c1.fonts@[j]);
        assert(keys[i] != keys[j]);
    } else {
        assert(second.id == c1.next_id);
    }
}

} // verus!
