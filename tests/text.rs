use rpg::gfx::animation::Ticker;
use rpg::gfx::{Rect, Texture};
use rpg::point::Point;
use rpg::text::{build_states, BitState, RenderedTextBit, RenderedTextLine};

fn hi_bit() -> RenderedTextBit {
    let states = build_states(&vec![0, 7], 100);
    RenderedTextBit::new(Texture { id: 0, width: 15, height: 10 }, states)
}

#[test]
fn checkpoints_of_two_characters() {
    let states = build_states(&vec![0, 7], 100);
    assert_eq!(states, vec![BitState { last_frame: 100, position: 0 }, BitState { last_frame: 200, position: 7 }]);
}

#[test]
fn empty_text_has_one_checkpoint() {
    assert_eq!(build_states(&vec![], 100), vec![BitState { last_frame: 100, position: 0 }]);
}

#[test]
fn reveal_width_steps_by_character() {
    let bit = hi_bit();
    assert_eq!(bit.get_width(50), 0);
    assert_eq!(bit.get_width(100), 0);
    assert_eq!(bit.get_width(150), 7);
    assert_eq!(bit.get_width(200), 7);
    assert_eq!(bit.get_width(250), 15);
    assert_eq!(bit.last_frame(), 200);
    assert_eq!(bit.get_frame(150).rect(), Rect { x: 0, y: 0, width: 7, height: 10 });
}

#[test]
fn reveal_width_never_shrinks() {
    let bit = hi_bit();
    let mut previous = 0;
    for frame in 0..400 {
        let w = bit.get_width(frame);
        assert!(w >= previous);
        previous = w;
    }
    assert_eq!(bit.get_width(201), bit.width());
}

#[test]
fn line_reveals_bits_one_after_another() {
    let first = hi_bit();
    let second = RenderedTextBit::new(
        Texture { id: 1, width: 20, height: 12 },
        build_states(&vec![0, 6, 13], 100),
    );
    let mut line = RenderedTextLine::new(vec![first, second]);
    let copies = line.draw_at(Point::new(50, 50));
    assert_eq!(copies.len(), 1);
    assert_eq!(copies[0].src, Rect { x: 0, y: 0, width: 0, height: 10 });
    assert_eq!(copies[0].dst, Rect { x: 50, y: 52, width: 0, height: 10 });
    line.advance(350);
    let copies = line.draw_at(Point::new(50, 50));
    assert_eq!(copies.len(), 2);
    assert_eq!(copies[0].dst, Rect { x: 50, y: 52, width: 15, height: 10 });
    assert_eq!(copies[1].texture.id, 1);
    assert_eq!(copies[1].dst, Rect { x: 65, y: 50, width: 6, height: 12 });
}

#[test]
fn line_starts_over_past_the_limit() {
    let mut line = RenderedTextLine::new(vec![hi_bit()]);
    line.advance(5000);
    assert_eq!(line.draw_at(Point::new(0, 0))[0].src.width, 15);
    line.advance(1);
    assert_eq!(line.draw_at(Point::new(0, 0))[0].src.width, 0);
    line.advance(u32::MAX);
    assert_eq!(line.draw_at(Point::new(0, 0))[0].src.width, 0);
}
