use rpg::direction::{CardinalDirection, Direction};
use rpg::gfx::animation::{BasicCharAnimation, Oriented, Ticker};
use rpg::gfx::spritesheet::SpriteSheet;
use rpg::gfx::tileset::Tileset;
use rpg::gfx::{Rect, Texture};
use rpg::point::Point;
use rpg::utils::positive_mod;

fn sheet_texture() -> Texture {
    Texture { id: 1, width: 96, height: 128 }
}

#[test]
fn positive_mod_of_negative_values() {
    assert_eq!(positive_mod(-1, 3), 2);
    assert_eq!(positive_mod(-3, 3), 0);
    assert_eq!(positive_mod(-4, 3), 2);
    assert_eq!(positive_mod(i32::MIN, 7), ((i32::MIN as i64).rem_euclid(7)) as usize);
}

#[test]
fn positive_mod_of_non_negative_values() {
    assert_eq!(positive_mod(0, 3), 0);
    assert_eq!(positive_mod(5, 3), 2);
    assert_eq!(positive_mod(i32::MAX, 1), 0);
    for a in -20..20 {
        let r = positive_mod(a, 6);
        assert!(r < 6);
        assert_eq!((a - r as i32).rem_euclid(6), 0);
    }
}

#[test]
fn ring_neighbours_are_close() {
    assert!(Direction::Down.is_close_to(&Direction::LeftDown));
    assert!(Direction::Down.is_close_to(&Direction::DownRight));
    assert!(Direction::Down.is_close_to(&Direction::Down));
    assert!(Direction::Up.is_close_to(&Direction::RightUp));
    assert!(Direction::RightUp.is_close_to(&Direction::Up));
    assert!(!Direction::Down.is_close_to(&Direction::Up));
    assert!(!Direction::Up.is_close_to(&Direction::Left));
    assert!(!Direction::UpLeft.is_close_to(&Direction::RightUp));
    assert!(!Direction::Left.is_close_to(&Direction::Right));
}

#[test]
fn diagonals_take_the_preceding_facing() {
    assert_eq!(Direction::UpLeft.to_cardinal(), CardinalDirection::Up);
    assert_eq!(Direction::LeftDown.to_cardinal(), CardinalDirection::Left);
    assert_eq!(Direction::DownRight.to_cardinal(), CardinalDirection::Down);
    assert_eq!(Direction::RightUp.to_cardinal(), CardinalDirection::Right);
    assert_eq!(CardinalDirection::Right.to_direction(), Direction::Right);
    assert_eq!(CardinalDirection::Left.to_direction(), Direction::Left);
}

#[test]
fn vectors_quantize_to_directions() {
    assert_eq!(Point::new(0, 0).direction(), None);
    assert_eq!(Point::new(0, 5).direction(), Some(Direction::Up));
    assert_eq!(Point::new(-3, 2).direction(), Some(Direction::UpLeft));
    assert_eq!(Point::new(-1, 0).direction(), Some(Direction::Left));
    assert_eq!(Point::new(-1, -9).direction(), Some(Direction::LeftDown));
    assert_eq!(Point::new(0, -1).direction(), Some(Direction::Down));
    assert_eq!(Point::new(4, -1).direction(), Some(Direction::DownRight));
    assert_eq!(Point::new(7, 0).direction(), Some(Direction::Right));
    assert_eq!(Point::new(1, 1).direction(), Some(Direction::RightUp));
    let unit = Direction::LeftDown.to_unit_integer_point();
    assert_eq!((unit.x, unit.y), (-1, -1));
    let flipped = Point::new(3, 4).invert_y();
    assert_eq!((flipped.x, flipped.y), (3, -4));
}

#[test]
fn facing_keeps_through_neighbouring_directions() {
    let mut character = BasicCharAnimation::new(SpriteSheet::new(sheet_texture(), 32, 32));
    assert_eq!(character.facing(), CardinalDirection::Down);
    character.point_to(Direction::LeftDown);
    assert_eq!(character.facing(), CardinalDirection::Down);
    character.point_to(Direction::DownRight);
    assert_eq!(character.facing(), CardinalDirection::Down);
    character.point_to(Direction::Up);
    assert_eq!(character.facing(), CardinalDirection::Up);
    character.point_to(Direction::Left);
    assert_eq!(character.facing(), CardinalDirection::Left);
}

#[test]
fn character_frame_follows_ticks_and_facing() {
    let mut character = BasicCharAnimation::new(SpriteSheet::new(sheet_texture(), 32, 32));
    let copy = character.draw_at(Point::new(100, 200)).unwrap();
    assert_eq!(copy.src, Rect { x: 0, y: 0, width: 32, height: 32 });
    assert_eq!(copy.dst, Rect { x: 84, y: 168, width: 32, height: 32 });
    character.advance(450);
    character.point_to(Direction::Right);
    let copy = character.draw_at(Point::new(100, 200)).unwrap();
    assert_eq!(copy.src, Rect { x: 64, y: 64, width: 32, height: 32 });
    character.advance(200);
    let copy = character.draw_at(Point::new(0, 0)).unwrap();
    assert_eq!(copy.src.x, 0);
    character.reset();
    let copy = character.draw_at(Point::new(0, 0)).unwrap();
    assert_eq!(copy.src.x, 0);
    character.advance(u32::MAX);
    character.advance(5);
    assert!(character.draw_at(Point::new(0, 0)).is_ok());
}

#[test]
fn sprite_sheet_cuts_whole_cells() {
    let sheet = SpriteSheet::new(Texture { id: 2, width: 100, height: 70 }, 32, 32);
    assert_eq!(sheet.sheet_width(), 3);
    assert_eq!(sheet.sheet_height(), 2);
    let sprite = sheet.get_sprite(2, 1).unwrap();
    assert_eq!(sprite.rect(), Rect { x: 64, y: 32, width: 32, height: 32 });
    assert_eq!(sprite.texture().id, 2);
    assert!(sheet.get_sprite(3, 0).is_err());
    assert!(sheet.get_sprite(0, 2).is_err());
    assert!(sheet.get_sprite(4, 0).is_err());
    assert!(sheet.get_sprite(0, 3).is_err());
}

#[test]
fn tiles_are_numbered_row_by_row() {
    let tileset = Tileset::new(SpriteSheet::new(Texture { id: 3, width: 64, height: 64 }, 16, 16));
    assert_eq!(tileset.tile_width(), 16);
    assert_eq!(tileset.tile_height(), 16);
    let tile = tileset.get_tile(5).unwrap();
    assert_eq!(tile.rect(), Rect { x: 16, y: 16, width: 16, height: 16 });
    assert!(tileset.get_tile(15).is_ok());
    assert!(tileset.get_tile(16).is_err());
    assert!(tileset.get_tile(100).is_err());
}
