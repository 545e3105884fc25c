use vstd::prelude::*;

use crate::gfx::animation::Ticker;
use crate::gfx::{DrawCopy, Rect, Texture, TextureRect};
use crate::point::IntPoint;

verus! {

/// One step of a typewriter reveal: up to frame `last_frame`, `position`
/// pixels of the text are shown.
#[derive(Debug, Clone, Copy, PartialEq, Eq, Structural)]
pub struct BitState {
    pub last_frame: u32,
    pub position: u32,
}

/// Frames that each character takes to appear.
pub const LETTER_DURATION: u32 = 100;

/// The frame after which a line starts its reveal over.
pub const LINE_FRAME_LIMIT: u32 = 5000;

/// The checkpoints of a text whose prefixes of 0, 1, ... characters are
/// `prefix_widths` pixels wide, each character taking `letter_duration` frames.
pub open spec fn spec_build_states(prefix_widths: Seq<u32>, letter_duration: u32) -> Seq<BitState> {
    if prefix_widths.len() == 0 {
        seq![BitState { last_frame: letter_duration, position: 0 }]
    } else {
        Seq::new(
            prefix_widths.len(),
            |i: int| BitState { last_frame: (letter_duration * (i + 1)) as u32, position: prefix_widths[i] },
        )
    }
}

/// Checkpoints for revealing a text of `prefix_widths.len()` characters, where
/// `prefix_widths[i]` is the width of its first `i` characters: checkpoint `i`
/// ends at frame `(i + 1) * letter_duration` and shows `prefix_widths[i]`
/// pixels. An empty text has the single checkpoint `(letter_duration, 0)`.
pub fn build_states(prefix_widths: &Vec<u32>, letter_duration: u32) -> (r: Vec<BitState>)
    requires
        prefix_widths@.len() * letter_duration <= u32::MAX,
    ensures
        r@ == spec_build_states(prefix_widths@, letter_duration),
{
    if prefix_widths.len() == 0 {
        let r = vec![BitState { last_frame: letter_duration, position: 0 }];
        assert(r@ =~= spec_build_states(prefix_widths@, letter_duration));
        return r;
    }
    let mut states: Vec<BitState> = Vec::new();
    let mut index: usize = 0;
    let mut last_frame: u32 = 0;
    while index < prefix_widths.len()
        invariant
            index <= prefix_widths@.len(),
            last_frame == index * letter_duration,
            prefix_widths@.len() * letter_duration <= u32::MAX,
            states@.len() == index,
            forall|i: int| 0 <= i < index ==> states@[i] == (BitState {
                last_frame: (letter_duration * (i + 1)) as u32,
                position: prefix_widths@[i],
            }),
        decreases prefix_widths.len() - index,
    {
        assert((index + 1) * letter_duration <= prefix_widths@.len() * letter_duration) by (nonlinear_arith)
            requires index + 1 <= prefix_widths@.len();
        assert(letter_duration * (index + 1) == (index + 1) * letter_duration) by (nonlinear_arith);
        assert((index + 1) * letter_duration == index * letter_duration + letter_duration) by (nonlinear_arith);
        last_frame = last_frame + letter_duration;
        states.push(BitState { last_frame, position: prefix_widths[index] });
        index = index + 1;
    }
    assert(states@ =~= spec_build_states(prefix_widths@, letter_duration));
    states
}

/// The width shown at `frame`: that of the first checkpoint from `i` on that
/// lasts until `frame` or later, or `full` when there is none.
pub open spec fn reveal_from(states: Seq<BitState>, i: int, full: u32, frame: int) -> u32
    decreases states.len() - i,
{
    if i < 0 || i >= states.len() {
        full
    } else if states[i].last_frame >= frame {
        states[i].position
    } else {
        reveal_from(states, i + 1, full, frame)
    }
}

/// A piece of text rendered to an image, with its reveal timeline.
pub struct RenderedTextBit {
    texture: Texture,
    states: Vec<BitState>,
}

impl RenderedTextBit {
    pub closed spec fn spec_texture(&self) -> Texture {
        self.texture
    }

    pub closed spec fn spec_states(&self) -> Seq<BitState> {
        self.states@
    }

    /// Width shown at `frame`.
    pub open spec fn reveal_width(&self, frame: int) -> u32 {
        reveal_from(self.spec_states(), 0, self.spec_texture().width, frame)
    }

    pub open spec fn spec_last_frame(&self) -> u32 {
        self.spec_states().last().last_frame
    }

    /// A timeline is well formed when it is not empty and shows no more than
    /// the whole image.
    pub open spec fn wf(&self) -> bool {
        &&& self.spec_states().len() > 0
        &&& forall|i: int| 0 <= i < self.spec_states().len()
            ==> #[trigger] self.spec_states()[i].position <= self.spec_texture().width
    }

    pub fn new(texture: Texture, states: Vec<BitState>) -> (r: Self)
        requires
            states@.len() > 0,
            forall|i: int| 0 <= i < states@.len() ==> #[trigger] states@[i].position <= texture.width,
        ensures
            r.wf(),
            r.spec_texture() == texture,
            r.spec_states() == states@,
    {
        RenderedTextBit { texture, states }
    }

    /// A bit for a text rendered to `texture`, whose prefixes of 0, 1, ...
    /// characters are `prefix_widths` pixels wide, each character taking
    /// `letter_duration` frames. Refused when a prefix is wider than the image
    /// or the last threshold does not fit a `u32`.
    pub fn from_widths(texture: Texture, prefix_widths: &Vec<u32>, letter_duration: u32) -> (r: Result<Self, crate::error::Error>)
        ensures
            r is Ok <==> (prefix_widths@.len() * letter_duration <= u32::MAX
                && forall|i: int| 0 <= i < prefix_widths@.len() ==> #[trigger] prefix_widths@[i] <= texture.width),
            r matches Ok(bit) ==> bit.wf() && bit.spec_texture() == texture
                && bit.spec_states() == spec_build_states(prefix_widths@, letter_duration),
    {
        let n = prefix_widths.len() as u64;
        if n > 4294967295 {
            proof {
                assert(prefix_widths@.len() * letter_duration > u32::MAX || letter_duration == 0) by (nonlinear_arith)
                    requires prefix_widths@.len() > u32::MAX;
            }
            if letter_duration > 0 {
                return Err(crate::error::Error::simple("text too long"));
            }
        } else {
            assert(n * letter_duration <= 4294967295 * 4294967295) by (nonlinear_arith)
                requires n <= 4294967295, letter_duration <= 4294967295;
            if n * (letter_duration as u64) > 4294967295 {
                return Err(crate::error::Error::simple("text too long"));
            }
        }
        assert(prefix_widths@.len() * letter_duration <= u32::MAX) by (nonlinear_arith)
            requires
                prefix_widths@.len() <= u32::MAX ==> prefix_widths@.len() * letter_duration <= u32::MAX,
                prefix_widths@.len() > u32::MAX ==> letter_duration == 0;
        let mut i: usize = 0;
        while i < prefix_widths.len()
            invariant
                i <= prefix_widths@.len(),
                forall|j: int| 0 <= j < i ==> #[trigger] prefix_widths@[j] <= texture.width,
            decreases prefix_widths.len() - i,
        {
            if prefix_widths[i] > texture.width {
                return Err(crate::error::Error::simple("prefix wider than the text"));
            }
            i = i + 1;
        }
        let states = build_states(prefix_widths, letter_duration);
        proof {
            if prefix_widths@.len() == 0 {
                assert(states@[0].position == 0);
            } else {
                assert forall|j: int| 0 <= j < states@.len() implies #[trigger] states@[j].position <= texture.width by {
                    assert(states@[j].position == prefix_widths@[j]);
                }
            }
        }
        Ok(RenderedTextBit::new(texture, states))
    }

    /// The part of the image shown at `frame`: its full height, and as wide as
    /// the reveal has reached.
    pub fn get_frame(&self, frame: u32) -> (r: TextureRect)
        ensures
            r.texture == self.spec_texture(),
            r.rect == (Rect { x: 0, y: 0, width: self.reveal_width(frame as int), height: self.spec_texture().height }),
    {
        TextureRect::new(self.texture, Rect::new(0, 0, self.get_width(frame), self.texture.height))
    }

    /// Width shown at `frame`.
    pub fn get_width(&self, frame: u32) -> (r: u32)
        ensures
            r == self.reveal_width(frame as int),
    {
        let mut i: usize = 0;
        while i < self.states.len()
            invariant
                i <= self.states@.len(),
                reveal_from(self.states@, i as int, self.texture.width, frame as int)
                    == self.reveal_width(frame as int),
            decreases self.states.len() - i,
        {
            if self.states[i].last_frame >= frame {
                return self.states[i].position;
            }
            i = i + 1;
        }
        self.texture.width
    }

    /// The image the text was rendered to.
    pub fn texture(&self) -> (r: Texture)
        ensures
            r == self.spec_texture(),
    {
        self.texture
    }

    pub fn height(&self) -> (r: u32)
        ensures
            r == self.spec_texture().height,
    {
        self.texture.height
    }

    pub fn width(&self) -> (r: u32)
        ensures
            r == self.spec_texture().width,
    {
        self.texture.width
    }

    /// The frame at which the last checkpoint ends.
    pub fn last_frame(&self) -> (r: u32)
        requires
            self.wf(),
        ensures
            r == self.spec_last_frame(),
    {
        self.states[self.states.len() - 1].last_frame
    }
}

/// The copy that draws the first `width` pixels of a bit with its bottom edge
/// on `baseline` and its left edge at `x`.
pub open spec fn bit_copy(bit: RenderedTextBit, width: u32, x: int, baseline: int) -> DrawCopy {
    let h = bit.spec_texture().height;
    DrawCopy {
        texture: bit.spec_texture(),
        src: Rect { x: 0, y: 0, width, height: h },
        dst: Rect { x: x as i32, y: (baseline - h) as i32, width, height: h },
    }
}

/// The copies that draw bits `i..` of a line with `remaining` frames left to
/// spend: a bit whose timeline has ended is drawn at its full width and its
/// last threshold spent; the first bit that has not ended is drawn as far as it
/// has come, and nothing after it.
pub open spec fn line_copies(bits: Seq<RenderedTextBit>, i: int, remaining: int, x: int, baseline: int) -> Seq<DrawCopy>
    decreases bits.len() - i,
{
    if i < 0 || i >= bits.len() {
        Seq::empty()
    } else if remaining > bits[i].spec_last_frame() {
        let w = bits[i].spec_texture().width;
        seq![bit_copy(bits[i], w, x, baseline)]
            + line_copies(bits, i + 1, remaining - bits[i].spec_last_frame(), x + w, baseline)
    } else {
        seq![bit_copy(bits[i], bits[i].reveal_width(remaining), x, baseline)]
    }
}

/// Sum of the full widths of bits `i..`.
pub open spec fn widths_from(bits: Seq<RenderedTextBit>, i: int) -> int
    decreases bits.len() - i,
{
    if i < 0 || i >= bits.len() {
        0
    } else {
        bits[i].spec_texture().width + widths_from(bits, i + 1)
    }
}

/// A line of text bits revealed one after the other.
pub struct RenderedTextLine {
    bits: Vec<RenderedTextBit>,
    height: u32,
    frame: u32,
}

impl RenderedTextLine {
    pub closed spec fn spec_bits(&self) -> Seq<RenderedTextBit> {
        self.bits@
    }

    /// Height of the tallest bit.
    pub closed spec fn spec_height(&self) -> u32 {
        self.height
    }

    /// Frames elapsed since the reveal started.
    pub closed spec fn spec_frame(&self) -> u32 {
        self.frame
    }

    pub open spec fn wf(&self) -> bool {
        &&& self.spec_bits().len() > 0
        &&& forall|i: int| 0 <= i < self.spec_bits().len() ==> #[trigger] self.spec_bits()[i].wf()
        &&& forall|i: int| 0 <= i < self.spec_bits().len()
            ==> #[trigger] self.spec_bits()[i].spec_texture().height <= self.spec_height()
        &&& exists|i: int| 0 <= i < self.spec_bits().len()
            && #[trigger] self.spec_bits()[i].spec_texture().height == self.spec_height()
        &&& self.spec_frame() <= LINE_FRAME_LIMIT
    }

    /// A line of the given bits, at frame 0.
    pub fn new(bits: Vec<RenderedTextBit>) -> (r: Self)
        requires
            bits@.len() > 0,
            forall|i: int| 0 <= i < bits@.len() ==> #[trigger] bits@[i].wf(),
        ensures
            r.wf(),
            r.spec_bits() == bits@,
            r.spec_frame() == 0,
    {
        let mut height: u32 = bits[0].height();
        let mut i: usize = 1;
        while i < bits.len()
            invariant
                1 <= i <= bits@.len(),
                forall|j: int| 0 <= j < i ==> #[trigger] bits@[j].spec_texture().height <= height,
                exists|j: int| 0 <= j < i && #[trigger] bits@[j].spec_texture().height == height,
            decreases bits.len() - i,
        {
            let h = bits[i].height();
            if h > height {
                height = h;
            }
            i = i + 1;
        }
        let line = RenderedTextLine { bits, height, frame: 0 };
        proof {
            let j = choose|j: int| 0 <= j < i && #[trigger] bits@[j].spec_texture().height == height;
            assert(line.spec_bits()[j].spec_texture().height == line.spec_height());
        }
        line
    }

    /// Height of the tallest bit.
    pub fn height(&self) -> (r: u32)
        ensures
            r == self.spec_height(),
    {
        self.height
    }

    /// Sum of the full widths of the bits.
    pub fn total_width(&self) -> (r: u128)
        ensures
            r == widths_from(self.spec_bits(), 0),
    {
        let mut total: u128 = 0;
        let mut i: usize = self.bits.len();
        proof {
            lemma_widths_nonnegative(self.bits@, i as int);
        }
        while i > 0
            invariant
                i <= self.bits@.len(),
                self.bits@.len() <= usize::MAX,
                total == widths_from(self.bits@, i as int),
                total <= (self.bits@.len() - i) * 4294967295,
            decreases i,
        {
            i = i - 1;
            assert((self.bits@.len() - i) * 4294967295 <= 18446744073709551615 * 4294967295) by (nonlinear_arith)
                requires self.bits@.len() - i <= 18446744073709551615;
            total = total + self.bits[i].width() as u128;
        }
        total
    }

    /// The copies that draw the line at its current frame with its top-left
    /// corner at `dest`, all bits sitting on one baseline.
    pub fn draw_at(&self, dest: IntPoint) -> (r: Vec<DrawCopy>)
        requires
            self.wf(),
            dest.x + widths_from(self.spec_bits(), 0) <= i32::MAX,
            dest.y + self.spec_height() <= i32::MAX,
        ensures
            r@ == line_copies(self.spec_bits(), 0, self.spec_frame() as int, dest.x as int,
                dest.y + self.spec_height()),
    {
        let ghost bits = self.bits@;
        let ghost baseline: int = dest.y + self.height;
        let mut copies: Vec<DrawCopy> = Vec::new();
        let mut remaining: u32 = self.frame;
        let mut current_x: i64 = dest.x as i64;
        let baseline_exec: i64 = dest.y as i64 + self.height as i64;
        let mut i: usize = 0;
        while i < self.bits.len()
            invariant
                self.wf(),
                bits == self.bits@,
                baseline == baseline_exec,
                baseline == dest.y + self.height,
                baseline <= i32::MAX,
                i <= bits.len(),
                current_x + widths_from(bits, i as int) <= i32::MAX,
                current_x >= dest.x,
                copies@ + line_copies(bits, i as int, remaining as int, current_x as int, baseline)
                    == line_copies(bits, 0, self.frame as int, dest.x as int, baseline),
            decreases self.bits.len() - i,
        {
            let bit = &self.bits[i];
            let last = bit.last_frame();
            let h = bit.height();
            assert(bits[i as int].wf());
            assert(h <= self.height);
            proof {
                lemma_widths_nonnegative(bits, i as int + 1);
            }
            if remaining > last {
                let w = bit.width();
                let rect = TextureRect::new(bit.texture(), Rect::new(0, 0, w, h));
                let copy = DrawCopy {
                    texture: rect.texture(),
                    src: rect.rect(),
                    dst: Rect::new(current_x as i32, (baseline_exec - h as i64) as i32, w, h),
                };
                let ghost before = copies@;
                copies.push(copy);
                assert(copies@ + line_copies(bits, i + 1, remaining - last, current_x + w, baseline)
                    == before + line_copies(bits, i as int, remaining as int, current_x as int, baseline));
                current_x = current_x + w as i64;
                remaining = remaining - last;
            } else {
                let rect = bit.get_frame(remaining);
                let w = rect.width();
                proof {
                    lemma_reveal_at_most(bits[i as int].spec_states(), 0, bit.spec_texture().width, remaining as int);
                }
                let copy = DrawCopy {
                    texture: rect.texture(),
                    src: rect.rect(),
                    dst: Rect::new(current_x as i32, (baseline_exec - h as i64) as i32, w, h),
                };
                let ghost before = copies@;
                copies.push(copy);
                assert(copies@ == before + line_copies(bits, i as int, remaining as int, current_x as int, baseline));
                assert(copies@ + line_copies(bits, bits.len() as int, 0, 0, baseline) == copies@);
                return copies;
            }
            i = i + 1;
        }
        assert(copies@ + line_copies(bits, i as int, remaining as int, current_x as int, baseline) == copies@);
        copies
    }
}

impl Ticker for RenderedTextLine {
    /// Moves the reveal on by `ticks` frames; past the frame limit it starts over.
    fn advance(&mut self, ticks: u32)
        ensures
            final(self).spec_bits() == old(self).spec_bits(),
            final(self).spec_height() == old(self).spec_height(),
            final(self).spec_frame() == (if old(self).spec_frame() + ticks > LINE_FRAME_LIMIT {
                0
            } else {
                old(self).spec_frame() + ticks
            }),
    {
        self.frame = self.frame.saturating_add(ticks);
        if self.frame > LINE_FRAME_LIMIT {
            self.reset();
        }
    }

    fn reset(&mut self)
        ensures
            final(self).spec_bits() == old(self).spec_bits(),
            final(self).spec_height() == old(self).spec_height(),
            final(self).spec_frame() == 0,
    {
        self.frame = 0;
    }
}

proof fn lemma_widths_nonnegative(bits: Seq<RenderedTextBit>, i: int)
    ensures
        widths_from(bits, i) >= 0,
    decreases bits.len() - i,
{
    if 0 <= i < bits.len() {
        lemma_widths_nonnegative(bits, i + 1);
    }
}

proof fn lemma_reveal_at_most(states: Seq<BitState>, i: int, full: u32, frame: int)
    requires
        0 <= i,
        forall|k: int| 0 <= k < states.len() ==> #[trigger] states[k].position <= full,
    ensures
        reveal_from(states, i, full, frame) <= full,
    decreases states.len() - i,
{
    if i < states.len() && states[i].last_frame < frame {
        lemma_reveal_at_most(states, i + 1, full, frame);
    }
}

/// Thresholds strictly increase and revealed widths never shrink.
pub open spec fn ordered_timeline(states: Seq<BitState>) -> bool {
    forall|i: int, j: int| 0 <= i < j < states.len()
        ==> states[i].last_frame < states[j].last_frame && states[i].position <= states[j].position
}

proof fn lemma_reveal_at_least(states: Seq<BitState>, i: int, full: u32, frame: int, p: u32)
    requires
        0 <= i,
        p <= full,
        forall|k: int| i <= k < states.len() ==> p <= #[trigger] states[k].position,
    ensures
        p <= reveal_from(states, i, full, frame),
    decreases states.len() - i,
{
    if i < states.len() && states[i].last_frame < frame {
        lemma_reveal_at_least(states, i + 1, full, frame, p);
    }
}

proof fn lemma_reveal_monotonic_from(states: Seq<BitState>, i: int, full: u32, f1: int, f2: int)
    requires
        0 <= i,
        f1 <= f2,
        ordered_timeline(states),
        forall|k: int| 0 <= k < states.len() ==> #[trigger] states[k].position <= full,
    ensures
        reveal_from(states, i, full, f1) <= reveal_from(states, i, full, f2),
    decreases states.len() - i,
{
    if i < states.len() {
        if states[i].last_frame >= f1 && states[i].last_frame < f2 {
            assert forall|k: int| i + 1 <= k < states.len() implies states[i].position <= #[trigger] states[k].position by {
            }
            lemma_reveal_at_least(states, i + 1, full, f2, states[i].position);
        } else if states[i].last_frame < f1 {
            lemma_reveal_monotonic_from(states, i + 1, full, f1, f2);
        }
    }
}

proof fn lemma_reveal_past_end(states: Seq<BitState>, i: int, full: u32, frame: int)
    requires
        0 <= i,
        states.len() > 0,
        ordered_timeline(states),
        frame > states.last().last_frame,
    ensures
        reveal_from(states, i, full, frame) == full,
    decreases states.len() - i,
{
    if i < states.len() {
        if i < states.len() - 1 {
            assert(states[i].last_frame < states[states.len() - 1].last_frame);
        }
        lemma_reveal_past_end(states, i + 1, full, frame);
    }
}

/// On an ordered timeline the revealed width never shrinks as frames pass, and
/// once the last checkpoint has passed the whole image is shown.
pub proof fn lemma_reveal_monotonic(bit: RenderedTextBit, f1: int, f2: int)
    requires
        bit.wf(),
        ordered_timeline(bit.spec_states()),
        f1 <= f2,
    ensures
        bit.reveal_width(f1) <= bit.reveal_width(f2),
        f2 > bit.spec_last_frame() ==> bit.reveal_width(f2) == bit.spec_texture().width,
{
    lemma_reveal_monotonic_from(bit.spec_states(), 0, bit.spec_texture().width, f1, f2);
    if f2 > bit.spec_last_frame() {
        lemma_reveal_past_end(bit.spec_states(), 0, bit.spec_texture().width, f2);
    }
}

} // verus!
