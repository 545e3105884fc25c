use rpg::data::font::FontData;
use rpg::data::gfx::{TextureData, TilesetData};
use rpg::data::map::MapData;
use rpg::data::text::{TextBitData, TextLineData};
use rpg::data::{format_for_path, Data, Format, GameConfig};
use rpg::error::Error;
use rpg::resources::{CachedResources, Loader};

struct NoLoader;

impl Loader for NoLoader {
    fn decode_texture(&mut self, _id: usize, _path: &str) -> Result<(u32, u32), Error> {
        Ok((32, 32))
    }

    fn decode_font(&mut self, _id: usize, _path: &str, _size: u16) -> Result<(), Error> {
        Ok(())
    }
}

#[test]
fn formats_come_from_extensions() {
    assert_eq!(format_for_path("data/config.json").ok(), Some(Format::JSON));
    assert_eq!(format_for_path("data/config.bin").ok(), Some(Format::BINCODE));
    assert!(format_for_path("data/config.txt").is_err());
    assert!(format_for_path("data/config").is_err());
}

#[test]
fn reroot_joins_relative_paths() {
    let mut config = GameConfig {
        font: FontData::Inline { path: "font.ttf".to_string(), size: 12 },
        map: MapData {
            tileset: TilesetData::Inline { texture: TextureData::Inline { path: "tiles.png".to_string() }, width: 16, height: 16 },
            character: TextureData::Ref { id: "hero".to_string() },
            tiles: vec![],
        },
        text_line: Some(TextLineData {
            font: None,
            parts: vec![TextBitData::Text { font: Some(FontData::Inline { path: "/abs.ttf".to_string(), size: 9 }), text: "Hi".to_string() }],
        }),
    };
    config.reroot("data");
    match &config.font {
        FontData::Inline { path, size } => {
            assert_eq!(path, "data/font.ttf");
            assert_eq!(*size, 12);
        },
        _ => panic!(),
    }
    match &config.map.tileset {
        TilesetData::Inline { texture: TextureData::Inline { path }, .. } => assert_eq!(path, "data/tiles.png"),
        _ => panic!(),
    }
    match &config.map.character {
        TextureData::Ref { id } => assert_eq!(id, "hero"),
        _ => panic!(),
    }
    match &config.text_line.as_ref().unwrap().parts[0] {
        TextBitData::Text { font: Some(FontData::Inline { path, .. }), text } => {
            assert_eq!(path, "/abs.ttf");
            assert_eq!(text, "Hi");
        },
        _ => panic!(),
    }
}

#[test]
fn texts_skip_font_changes() {
    let line = TextLineData {
        font: None,
        parts: vec![
            TextBitData::Text { font: None, text: "Hello".to_string() },
            TextBitData::FontChange { font: FontData::Ref { id: "bold".to_string() } },
            TextBitData::Text { font: None, text: "world".to_string() },
        ],
    };
    assert_eq!(line.texts(), vec!["Hello".to_string(), "world".to_string()]);
}

#[test]
fn named_resources_are_not_supported() {
    let mut cache = CachedResources::new();
    let mut loader = NoLoader;
    assert!(FontData::Ref { id: "x".to_string() }.load(&mut cache, &mut loader).is_err());
    assert!(TextureData::Ref { id: "x".to_string() }.load(&mut cache, &mut loader).is_err());
    assert!(TilesetData::Ref { id: "x".to_string() }.load(&mut cache, &mut loader).is_err());
    let font = FontData::Inline { path: "f.ttf".to_string(), size: 8 }.load(&mut cache, &mut loader).unwrap();
    assert_eq!(font.size, 8);
}

#[test]
fn empty_tile_size_is_refused() {
    let mut cache = CachedResources::new();
    let mut loader = NoLoader;
    let data = TilesetData::Inline { texture: TextureData::Inline { path: "t.png".to_string() }, width: 0, height: 16 };
    assert!(data.load(&mut cache, &mut loader).is_err());
    let data = TilesetData::Inline { texture: TextureData::Inline { path: "t.png".to_string() }, width: 16, height: 16 };
    let tileset = data.load(&mut cache, &mut loader).unwrap();
    assert_eq!(tileset.tile_width(), 16);
}

#[test]
fn errors_carry_their_path() {
    match Error::simple("bad").with_path("a/b.json") {
        Error::Pathed { path, err } => {
            assert_eq!(path, "a/b.json");
            assert!(matches!(*err, Error::Simple { ref message } if message == "bad"));
        },
        _ => panic!(),
    }
}
